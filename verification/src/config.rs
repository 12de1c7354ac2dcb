//! The configuration of a resolution and its defaults.

use vstd::prelude::*;
use vstd::string::*;

use crate::error::{TideError, TideResult};

verus! {

/// The name of the configuration file at the repository root.
pub const CONFIG_FILE_NAME: &'static str = ".tidemark.toml";

/// How release tags of the remote are consulted.
#[derive(Debug, Clone, Copy, PartialEq, Eq, Structural)]
pub enum RemoteStrategy {
    /// Refresh the remote's tags before every resolution.
    LsRemote,
    /// Never contact the remote.
    LocalOnly,
}

impl RemoteStrategy {
    /// The spelling of the strategy in the configuration file.
    pub open spec fn label_view(self) -> Seq<char> {
        match self {
            RemoteStrategy::LsRemote => "ls-remote"@,
            RemoteStrategy::LocalOnly => "local-only"@,
        }
    }
}

impl Default for RemoteStrategy {
    fn default() -> (r: Self)
        ensures
            r == RemoteStrategy::LsRemote,
    {
        RemoteStrategy::LsRemote
    }
}

#[derive(Debug, Clone)]
pub struct ReleaseConfig {
    /// The prefix a tag name must have to count as a release.
    pub tag_prefix: String,
    /// Whether lightweight tags are left out.
    pub require_annotated_tags: bool,
}

#[derive(Debug, Clone)]
pub struct TimeConfig {
    /// `UTC`, `Z`, or a fixed offset `+HH:MM` / `-HH:MM`.
    pub timezone: String,
}

#[derive(Debug, Clone)]
pub struct RemoteConfig {
    pub strategy: RemoteStrategy,
    /// The name of the remote.
    pub name: String,
    /// Whether a failed refresh falls back to the local tags.
    pub fallback_to_local: bool,
}

#[derive(Debug, Clone)]
pub struct CacheConfig {
    pub enabled: bool,
}

#[derive(Debug, Clone)]
pub struct OutputConfig {
    /// The suffix appended as `x.y.z.<suffix>` where a request names none.
    pub metadata_suffix: Option<String>,
    /// Whether the history of a file is followed across renames.
    pub follow_renames: bool,
}

#[derive(Debug, Clone)]
pub struct TideConfig {
    pub release: ReleaseConfig,
    pub time: TimeConfig,
    pub remote: RemoteConfig,
    pub cache: CacheConfig,
    pub output: OutputConfig,
}

pub fn default_tag_prefix() -> (r: String)
    ensures
        r@ == "v"@,
{
    String::from_str("v")
}

pub fn default_timezone() -> (r: String)
    ensures
        r@ == "UTC"@,
{
    String::from_str("UTC")
}

pub fn default_remote_name() -> (r: String)
    ensures
        r@ == "origin"@,
{
    String::from_str("origin")
}

pub fn default_true() -> (r: bool)
    ensures
        r,
{
    true
}

impl ReleaseConfig {
    /// Whether this is the default: prefix `v`, annotated tags only.
    pub open spec fn is_default(&self) -> bool {
        self.tag_prefix@ == "v"@ && self.require_annotated_tags
    }
}

impl TimeConfig {
    /// Whether this is the default: `UTC`.
    pub open spec fn is_default(&self) -> bool {
        self.timezone@ == "UTC"@
    }
}

impl RemoteConfig {
    /// Whether this is the default: refresh from `origin`, falling back to
    /// the local tags.
    pub open spec fn is_default(&self) -> bool {
        self.strategy == RemoteStrategy::LsRemote && self.name@ == "origin"@
            && self.fallback_to_local
    }
}

impl CacheConfig {
    /// Whether this is the default: enabled.
    pub open spec fn is_default(&self) -> bool {
        self.enabled
    }
}

impl OutputConfig {
    /// Whether this is the default: no suffix, renames followed.
    pub open spec fn is_default(&self) -> bool {
        self.metadata_suffix is None && self.follow_renames
    }
}

impl TideConfig {
    /// Whether every section holds its default.
    pub open spec fn is_default(&self) -> bool {
        self.release.is_default() && self.time.is_default() && self.remote.is_default()
            && self.cache.is_default() && self.output.is_default()
    }
}

impl Default for ReleaseConfig {
    fn default() -> (r: Self)
        ensures
            r.is_default(),
    {
        ReleaseConfig { tag_prefix: default_tag_prefix(), require_annotated_tags: true }
    }
}

impl Default for TimeConfig {
    fn default() -> (r: Self)
        ensures
            r.is_default(),
    {
        TimeConfig { timezone: default_timezone() }
    }
}

impl Default for RemoteConfig {
    fn default() -> (r: Self)
        ensures
            r.is_default(),
    {
        RemoteConfig {
            strategy: RemoteStrategy::LsRemote,
            name: default_remote_name(),
            fallback_to_local: true,
        }
    }
}

impl Default for CacheConfig {
    fn default() -> (r: Self)
        ensures
            r.is_default(),
    {
        CacheConfig { enabled: true }
    }
}

impl Default for OutputConfig {
    fn default() -> (r: Self)
        ensures
            r.is_default(),
    {
        OutputConfig { metadata_suffix: None, follow_renames: true }
    }
}

impl Default for TideConfig {
    fn default() -> (r: Self)
        ensures
            r.is_default(),
    {
        TideConfig {
            release: ReleaseConfig::default(),
            time: TimeConfig::default(),
            remote: RemoteConfig::default(),
            cache: CacheConfig::default(),
            output: OutputConfig::default(),
        }
    }
}

/// The text of a fresh configuration file. Every key that has a default
/// value is written out with it; the suffix, which by default is absent,
/// is shown in a comment only, so that the file reads back as the
/// defaults.
pub open spec fn default_config_text() -> Seq<char> {
    "# TideMark configuration\n\n[release]\ntag_prefix = \"v\"\nrequire_annotated_tags = true\n\n[time]\ntimezone = \"UTC\"\n\n[remote]\nstrategy = \"ls-remote\"\nname = \"origin\"\nfallback_to_local = true\n\n[cache]\nenabled = true\n\n[output]\n# Optional suffix appended as x.y.z.<suffix>; does not change coordinates\n# metadata_suffix = \"dev\"\nfollow_renames = true\n"@
}

/// The text of a fresh configuration file.
pub fn default_config_toml() -> (text: &'static str)
    ensures
        text@ == default_config_text(),
{
    "# TideMark configuration\n\n[release]\ntag_prefix = \"v\"\nrequire_annotated_tags = true\n\n[time]\ntimezone = \"UTC\"\n\n[remote]\nstrategy = \"ls-remote\"\nname = \"origin\"\nfallback_to_local = true\n\n[cache]\nenabled = true\n\n[output]\n# Optional suffix appended as x.y.z.<suffix>; does not change coordinates\n# metadata_suffix = \"dev\"\nfollow_renames = true\n"
}

/// The configuration of a repository, from what was found at `path`:
/// the defaults where there is no file, the configuration that the file
/// was read as, or a `ConfigParse` failure with the reader's message.
pub fn load_or_default(path: &str, found: Option<Result<TideConfig, String>>) -> (r: TideResult<
    TideConfig,
>)
    ensures
        match found {
            None => r matches Ok(config) && config.is_default(),
            Some(Ok(read)) => r matches Ok(config) && config == read,
            Some(Err(message)) => {
                &&& r matches Err(TideError::ConfigParse { path: p, message: m })
                &&& p@ == path@
                &&& m == message
            },
        },
{
    match found {
        None => Ok(TideConfig::default()),
        Some(Ok(read)) => Ok(read),
        Some(Err(message)) => Err(TideError::ConfigParse { path: String::from_str(path), message }),
    }
}

/// What to write to create the configuration file at `path`: the text
/// of a fresh file, unless a file exists there already, which is a
/// `ConfigExists` failure.
pub fn init_default(path: &str, exists: bool) -> (r: TideResult<&'static str>)
    ensures
        match r {
            Ok(text) => !exists && text@ == default_config_text(),
            Err(e) => {
                &&& exists
                &&& e matches TideError::ConfigExists { path: p }
                &&& p@ == path@
            },
        },
{
    if exists {
        return Err(TideError::ConfigExists { path: String::from_str(path) });
    }
    Ok(default_config_toml())
}

} // verus!
