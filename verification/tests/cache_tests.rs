use sha2::{Digest, Sha256};

use tidemark::config::TideConfig;
use tidemark::domain::resolver::mark::mark_cache_payload;
use tidemark::error::TideError;
use tidemark::infra::cache::{
    malformed_entry, to_json_bool, to_json_optional_string, to_json_string, CacheStore,
};

#[test]
fn key_is_the_hex_digest_of_namespace_zero_payload() {
    let key = CacheStore::key_from_serializable("mark", "{\"a\":1}");
    let mut hasher = Sha256::new();
    hasher.update("mark".as_bytes());
    hasher.update([0u8]);
    hasher.update("{\"a\":1}".as_bytes());
    assert_eq!(key, hex::encode(hasher.finalize()));
    assert_eq!(key.len(), 64);
    assert!(key.chars().all(|c| c.is_ascii_digit() || ('a'..='f').contains(&c)));
}

#[test]
fn key_of_known_input() {
    // SHA-256 of the three bytes "a", 0, "b".
    let key = CacheStore::key_from_serializable("a", "b");
    let expected = hex::encode(Sha256::digest([b'a', 0, b'b']));
    assert_eq!(key, expected);
    assert_ne!(key, CacheStore::key_from_serializable("ab", ""));
    assert_ne!(key, CacheStore::key_from_serializable("a", "c"));
    assert_eq!(
        CacheStore::key_from_serializable("", ""),
        "6e340b9cffb37a989ca544e6bb780a2c78901d3fb33738768511a30617afa01d"
    );
}

#[test]
fn keys_are_stable() {
    assert_eq!(
        CacheStore::key_from_serializable("file", "é\n"),
        CacheStore::key_from_serializable("file", "é\n")
    );
}

#[test]
fn json_strings_are_serde_jsons() {
    for sample in [
        "", "plain", "wi\"th", "back\\slash", "tab\t", "nl\n", "cr\r", "\u{8}\u{c}", "\u{0}\u{1f}",
        "\u{7f}", "é€😀", "a/b", "\u{2028}",
    ] {
        let quoted = serde_json::to_string(sample).unwrap();
        assert_eq!(to_json_string(sample).unwrap(), quoted);
        assert_eq!(to_json_optional_string(&Some(sample.to_string())).unwrap(), quoted);
        let payload = mark_cache_payload(sample, true, &TideConfig::default(), &None).unwrap();
        assert!(payload.starts_with(&format!("{{\"target_commit\":{quoted},\"local_only\":true,")));
    }
    assert_eq!(
        to_json_optional_string(&Some("a\"b\u{1}".to_string())).unwrap(),
        "\"a\\\"b\\u0001\""
    );
}

#[test]
fn json_atoms() {
    assert_eq!(to_json_bool(true), "true");
    assert_eq!(to_json_bool(false), "false");
    assert_eq!(to_json_optional_string(&None).unwrap(), "null");
    assert_eq!(to_json_optional_string(&Some("x".to_string())).unwrap(), "\"x\"");
}

#[test]
fn entries_lie_below_the_repositorys_directory() {
    let store = CacheStore::new("/repo/.git", true);
    assert_eq!(store.root(), "/repo/.git/tidemark-cache");
    assert!(store.is_enabled());
    assert_eq!(store.path_for("mark", "abc"), "/repo/.git/tidemark-cache/mark/abc.json");
    assert_eq!(
        store.read_path("file", "k").as_deref(),
        Some("/repo/.git/tidemark-cache/file/k.json")
    );
    let plan = store.write_plan("mark", "abc").unwrap();
    assert_eq!(plan.directory, "/repo/.git/tidemark-cache/mark");
    assert_eq!(plan.temporary, "/repo/.git/tidemark-cache/mark/abc.tmp");
    assert_eq!(plan.path, "/repo/.git/tidemark-cache/mark/abc.json");
}

#[test]
fn a_disabled_store_reads_and_writes_nothing() {
    let store = CacheStore::new("/repo/.git", false);
    assert!(!store.is_enabled());
    assert!(store.read_path("mark", "abc").is_none());
    assert!(store.write_plan("mark", "abc").is_none());
    assert_eq!(store.path_for("mark", "abc"), "/repo/.git/tidemark-cache/mark/abc.json");
}

#[test]
fn a_malformed_entry_is_a_cache_format_failure() {
    let e = malformed_entry("/g/tidemark-cache/mark/k.json", "EOF while parsing");
    assert_eq!(e.exit_code(), 5);
    match e {
        TideError::CacheFormat { message } => {
            assert_eq!(message, "/g/tidemark-cache/mark/k.json: EOF while parsing")
        }
        other => panic!("{other:?}"),
    }
}
