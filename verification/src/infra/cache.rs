//! The cache store: how a key is derived from the inputs of a resolution,
//! where the entry of a key lies, and what a read or a write touches.
//! The store itself is a directory; reading and writing it is left to the
//! caller, who is told which paths to use.

use vstd::prelude::*;
use vstd::string::*;

use crate::domain::text::digit_char;
use crate::error::{TideError, TideResult};

verus! {

broadcast use vstd::string::group_string_axioms;

/// The SHA-256 digest of a byte string.
pub uninterp spec fn sha256(data: Seq<u8>) -> Seq<u8>;

/// The lower-case hexadecimal digit of a number below 16.
pub open spec fn hex_digit(n: int) -> char {
    if n < 10 {
        digit_char(n)
    } else {
        ((87 + n) as u8) as char
    }
}

/// The lower-case hexadecimal form of a byte string: two digits a byte.
pub open spec fn hex_lower(data: Seq<u8>) -> Seq<char>
    decreases data.len(),
{
    if data.len() == 0 {
        Seq::empty()
    } else {
        hex_lower(data.drop_last()) + seq![
            hex_digit(data.last() as int / 16),
            hex_digit(data.last() as int % 16),
        ]
    }
}

/// What a character becomes inside a JSON string: a quote, a backslash
/// and the control characters are escaped, the short form where JSON has
/// one and `\u00XX` otherwise; every other character stands for itself.
pub open spec fn json_escape(c: char) -> Seq<char> {
    if c == '"' {
        seq!['\\', '"']
    } else if c == '\\' {
        seq!['\\', '\\']
    } else if c == '\u{8}' {
        seq!['\\', 'b']
    } else if c == '\t' {
        seq!['\\', 't']
    } else if c == '\n' {
        seq!['\\', 'n']
    } else if c == '\u{c}' {
        seq!['\\', 'f']
    } else if c == '\r' {
        seq!['\\', 'r']
    } else if (c as u32) < 32 {
        seq!['\\', 'u', '0', '0', hex_digit(c as u32 as int / 16), hex_digit(c as u32 as int % 16)]
    } else {
        seq![c]
    }
}

/// The characters of `s`, each as it stands inside a JSON string.
pub open spec fn json_escaped(s: Seq<char>) -> Seq<char>
    decreases s.len(),
{
    if s.len() == 0 {
        Seq::empty()
    } else {
        json_escaped(s.drop_last()) + json_escape(s.last())
    }
}

/// `s` as a JSON string, quotes included.
pub open spec fn json_string(s: Seq<char>) -> Seq<char> {
    seq!['"'] + json_escaped(s) + seq!['"']
}

/// A truth value as JSON.
pub open spec fn json_bool(b: bool) -> Seq<char> {
    if b {
        "true"@
    } else {
        "false"@
    }
}

/// An optional string as JSON: `null` where there is none.
pub open spec fn json_optional_string(s: Option<Seq<char>>) -> Seq<char> {
    match s {
        Some(text) => json_string(text),
        None => "null"@,
    }
}

/// Whether `c` is a lower-case hexadecimal digit.
pub open spec fn is_hex_digit(c: char) -> bool {
    ('0' <= c <= '9') || ('a' <= c <= 'f')
}

/// The hexadecimal form of a byte string has two digits a byte.
pub proof fn lemma_hex_lower_len(data: Seq<u8>)
    ensures
        hex_lower(data).len() == 2 * data.len(),
    decreases data.len(),
{
    if data.len() > 0 {
        lemma_hex_lower_len(data.drop_last());
    }
}

/// The hexadecimal form of a byte string holds nothing but lower-case
/// hexadecimal digits.
pub proof fn lemma_hex_lower_digits(data: Seq<u8>)
    ensures
        forall|i: int| 0 <= i < hex_lower(data).len() ==> is_hex_digit(#[trigger] hex_lower(data)[i]),
    decreases data.len(),
{
    if data.len() > 0 {
        lemma_hex_lower_digits(data.drop_last());
        lemma_hex_lower_len(data.drop_last());
        let front = hex_lower(data.drop_last());
        let byte = data.last() as int;
        assert(is_hex_digit(hex_digit(byte / 16)));
        assert(is_hex_digit(hex_digit(byte % 16)));
        assert forall|i: int| 0 <= i < hex_lower(data).len() implies is_hex_digit(
            #[trigger] hex_lower(data)[i],
        ) by {
            if i < front.len() {
                assert(hex_lower(data)[i] == front[i]);
            }
        }
    }
}

/// The key of a cache entry: the SHA-256 digest of the namespace, a zero
/// byte and the payload, in lower-case hexadecimal.
pub open spec fn cache_key(namespace: Seq<char>, payload: Seq<char>) -> Seq<char> {
    hex_lower(
        sha256(vstd::utf8::encode_utf8(namespace) + seq![0u8] + vstd::utf8::encode_utf8(payload)),
    )
}

/// `sha2::Sha256::digest`: the SHA-256 digest of `data`, 32 bytes long.
#[verifier::external_body]
pub(crate) fn sha256_digest(data: &[u8]) -> (digest: Vec<u8>)
    ensures
        digest@ == sha256(data@),
        digest@.len() == 32,
{
    <sha2::Sha256 as sha2::Digest>::digest(data).to_vec()
}

/// `hex::encode`: each byte as two lower-case hexadecimal digits.
#[verifier::external_body]
pub(crate) fn hex_encode(data: &[u8]) -> (text: String)
    ensures
        text@ == hex_lower(data@),
{
    hex::encode(data)
}

/// `serde_json::to_string` on a string: the string in quotes, escaped
/// the way `json_string` says. It writes into a buffer in memory, which
/// takes every write, so it does not fail; the failure that its type
/// allows for would come back as its message.
#[verifier::external_body]
fn serde_json_string(s: &str) -> (r: Result<String, String>)
    ensures
        r is Ok,
        r matches Ok(text) ==> text@ == json_string(s@),
{
    serde_json::to_string(s).map_err(|e| e.to_string())
}

/// A truth value as JSON.
pub fn to_json_bool(b: bool) -> (text: &'static str)
    ensures
        text@ == json_bool(b),
{
    if b {
        "true"
    } else {
        "false"
    }
}

/// `s` as a JSON string. The serializer does not fail on a string; the
/// failure that its type allows for would be a `CacheFormat` with its
/// message.
pub fn to_json_string(s: &str) -> (r: TideResult<String>)
    ensures
        r matches Ok(text) && text@ == json_string(s@),
{
    match serde_json_string(s) {
        Ok(text) => Ok(text),
        Err(message) => Err(TideError::CacheFormat { message }),
    }
}

/// An optional string as JSON: the string where there is one, `null`
/// where there is none.
pub fn to_json_optional_string(s: &Option<String>) -> (r: TideResult<String>)
    ensures
        r matches Ok(text) && text@ == json_optional_string(
            match s {
                Some(inner) => Some(inner@),
                None => None,
            },
        ),
{
    match s {
        Some(inner) => to_json_string(inner.as_str()),
        None => Ok(String::from_str("null")),
    }
}

/// The failure to read the entry at `path` as a result: a `CacheFormat`
/// that names the file and gives the reader's reason. An entry that
/// cannot be read is a failure, never a miss.
pub fn malformed_entry(path: &str, reason: &str) -> (e: TideError)
    ensures
        e matches TideError::CacheFormat { message } && message@ == path@ + ": "@ + reason@,
{
    let mut message = String::from_str(path);
    message.append(": ");
    message.append(reason);
    TideError::CacheFormat { message }
}

/// The files that one write of the store touches.
#[derive(Debug)]
pub struct CacheWrite {
    /// The directory of the namespace, to be created where it is missing.
    pub directory: String,
    /// The sibling file that the entry is written to first.
    pub temporary: String,
    /// The file of the entry, which the temporary file is renamed to.
    pub path: String,
}

/// A store of results under the repository's own directory.
#[derive(Debug, Clone)]
pub struct CacheStore {
    root: String,
    enabled: bool,
}

impl CacheStore {
    /// The directory of the store.
    pub closed spec fn root_view(&self) -> Seq<char> {
        self.root@
    }

    /// Whether the store is in use.
    pub closed spec fn enabled_view(&self) -> bool {
        self.enabled
    }

    /// The path of the entry of `key` in `namespace`.
    pub open spec fn entry_path(&self, namespace: Seq<char>, key: Seq<char>) -> Seq<char> {
        self.root_view() + "/"@ + namespace + "/"@ + key + ".json"@
    }

    /// The store under `git_dir`, in its directory `tidemark-cache`.
    pub fn new(git_dir: &str, enabled: bool) -> (store: Self)
        ensures
            store.root_view() == git_dir@ + "/tidemark-cache"@,
            store.enabled_view() == enabled,
    {
        let mut root = String::from_str(git_dir);
        root.append("/tidemark-cache");
        CacheStore { root, enabled }
    }

    /// The directory of the store.
    pub fn root(&self) -> (r: &str)
        ensures
            r@ == self.root_view(),
    {
        self.root.as_str()
    }

    /// Whether the store is in use.
    pub fn is_enabled(&self) -> (r: bool)
        ensures
            r == self.enabled_view(),
    {
        self.enabled
    }

    /// The key of an entry, from its namespace and its serialized
    /// payload: 64 lower-case hexadecimal digits.
    pub fn key_from_serializable(namespace: &str, payload: &str) -> (key: String)
        ensures
            key@ == cache_key(namespace@, payload@),
            key@.len() == 64,
            forall|i: int| 0 <= i < key@.len() ==> is_hex_digit(#[trigger] key@[i]),
    {
        let mut data: Vec<u8> = Vec::new();
        data.extend_from_slice(namespace.as_bytes());
        data.push(0u8);
        data.extend_from_slice(payload.as_bytes());
        assert(data@ == vstd::utf8::encode_utf8(namespace@) + seq![0u8] + vstd::utf8::encode_utf8(
            payload@,
        ));
        let digest = sha256_digest(data.as_slice());
        proof {
            lemma_hex_lower_len(digest@);
            lemma_hex_lower_digits(digest@);
        }
        hex_encode(digest.as_slice())
    }

    /// The path of the entry of `key` in `namespace`.
    pub fn path_for(&self, namespace: &str, key: &str) -> (path: String)
        ensures
            path@ == self.entry_path(namespace@, key@),
    {
        let mut path = self.root.clone();
        path.append("/");
        path.append(namespace);
        path.append("/");
        path.append(key);
        path.append(".json");
        path
    }

    /// The file to read for `key`: none where the store is disabled, so
    /// that every read misses.
    pub fn read_path(&self, namespace: &str, key: &str) -> (r: Option<String>)
        ensures
            match r {
                Some(path) => self.enabled_view() && path@ == self.entry_path(namespace@, key@),
                None => !self.enabled_view(),
            },
    {
        if self.enabled {
            Some(self.path_for(namespace, key))
        } else {
            None
        }
    }

    /// The files to touch to store the entry of `key`: none where the
    /// store is disabled, so that every write does nothing. The entry is
    /// written to a sibling file and renamed into place.
    pub fn write_plan(&self, namespace: &str, key: &str) -> (r: Option<CacheWrite>)
        ensures
            match r {
                Some(plan) => {
                    &&& self.enabled_view()
                    &&& plan.directory@ == self.root_view() + "/"@ + namespace@
                    &&& plan.temporary@ == self.root_view() + "/"@ + namespace@ + "/"@ + key@
                        + ".tmp"@
                    &&& plan.path@ == self.entry_path(namespace@, key@)
                },
                None => !self.enabled_view(),
            },
    {
        if !self.enabled {
            return None;
        }
        let mut directory = self.root.clone();
        directory.append("/");
        directory.append(namespace);
        let mut temporary = directory.clone();
        temporary.append("/");
        temporary.append(key);
        temporary.append(".tmp");
        let path = self.path_for(namespace, key);
        Some(CacheWrite { directory, temporary, path })
    }
}

} // verus!
