use tidemark::config::{
    default_config_toml, default_remote_name, default_tag_prefix, default_timezone, default_true,
    init_default, load_or_default, RemoteStrategy, TideConfig, CONFIG_FILE_NAME,
};
use tidemark::error::{io_err, ErrorClass, TideError};

#[test]
fn defaults_are_the_contract() {
    let config = TideConfig::default();
    assert_eq!(config.release.tag_prefix, "v");
    assert!(config.release.require_annotated_tags);
    assert_eq!(config.time.timezone, "UTC");
    assert_eq!(config.remote.strategy, RemoteStrategy::LsRemote);
    assert_eq!(config.remote.name, "origin");
    assert!(config.remote.fallback_to_local);
    assert!(config.cache.enabled);
    assert_eq!(config.output.metadata_suffix, None);
    assert!(config.output.follow_renames);
    assert_eq!(default_tag_prefix(), "v");
    assert_eq!(default_timezone(), "UTC");
    assert_eq!(default_remote_name(), "origin");
    assert!(default_true());
    assert_eq!(RemoteStrategy::default(), RemoteStrategy::LsRemote);
    assert_eq!(CONFIG_FILE_NAME, ".tidemark.toml");
}

fn text_of(section: &toml::Table, key: &str, default: String) -> String {
    match section.get(key) {
        Some(value) => value.as_str().expect("a string").to_string(),
        None => default,
    }
}

fn flag_of(section: &toml::Table, key: &str, default: bool) -> bool {
    match section.get(key) {
        Some(value) => value.as_bool().expect("a truth value"),
        None => default,
    }
}

/// Reads a configuration the way the file is meant to be read: a key
/// that is missing keeps its default.
fn read_config(text: &str) -> TideConfig {
    let table: toml::Table = text.parse().expect("a TOML document");
    let empty = toml::Table::new();
    let section = |name: &str| -> toml::Table {
        table.get(name).and_then(|v| v.as_table()).unwrap_or(&empty).clone()
    };
    let mut config = TideConfig::default();
    let release = section("release");
    config.release.tag_prefix = text_of(&release, "tag_prefix", default_tag_prefix());
    config.release.require_annotated_tags = flag_of(&release, "require_annotated_tags", true);
    config.time.timezone = text_of(&section("time"), "timezone", default_timezone());
    let remote = section("remote");
    config.remote.strategy = match remote.get("strategy").map(|v| v.as_str().expect("a string")) {
        None | Some("ls-remote") => RemoteStrategy::LsRemote,
        Some("local-only") => RemoteStrategy::LocalOnly,
        Some(other) => panic!("unknown strategy {other}"),
    };
    config.remote.name = text_of(&remote, "name", default_remote_name());
    config.remote.fallback_to_local = flag_of(&remote, "fallback_to_local", true);
    config.cache.enabled = flag_of(&section("cache"), "enabled", true);
    let output = section("output");
    config.output.metadata_suffix =
        output.get("metadata_suffix").map(|v| v.as_str().expect("a string").to_string());
    config.output.follow_renames = flag_of(&output, "follow_renames", true);
    config
}

fn assert_all_defaults(config: &TideConfig) {
    assert_eq!(config.release.tag_prefix, "v");
    assert!(config.release.require_annotated_tags);
    assert_eq!(config.time.timezone, "UTC");
    assert_eq!(config.remote.strategy, RemoteStrategy::LsRemote);
    assert_eq!(config.remote.name, "origin");
    assert!(config.remote.fallback_to_local);
    assert!(config.cache.enabled);
    assert_eq!(config.output.metadata_suffix, None);
    assert!(config.output.follow_renames);
}

#[test]
fn a_fresh_configuration_file_reads_back_as_the_defaults() {
    let text = init_default("/r/.tidemark.toml", false).unwrap();
    assert_eq!(text, default_config_toml());
    let read = read_config(text);
    assert_all_defaults(&read);
    let loaded = load_or_default("/r/.tidemark.toml", Some(Ok(read))).unwrap();
    assert_all_defaults(&loaded);
    assert_all_defaults(&load_or_default("/r/.tidemark.toml", None).unwrap());

    let table: toml::Table = text.parse().unwrap();
    assert_eq!(table.len(), 5);
    assert_eq!(table["release"]["tag_prefix"].as_str(), Some("v"));
    assert_eq!(table["release"]["require_annotated_tags"].as_bool(), Some(true));
    assert_eq!(table["time"]["timezone"].as_str(), Some("UTC"));
    assert_eq!(table["remote"]["strategy"].as_str(), Some("ls-remote"));
    assert_eq!(table["remote"]["name"].as_str(), Some("origin"));
    assert_eq!(table["remote"]["fallback_to_local"].as_bool(), Some(true));
    assert_eq!(table["cache"]["enabled"].as_bool(), Some(true));
    assert_eq!(table["output"]["follow_renames"].as_bool(), Some(true));
    assert!(table["output"].get("metadata_suffix").is_none());
    assert!(text.ends_with("# metadata_suffix = \"dev\"\nfollow_renames = true\n"));
    assert!(text.starts_with("# TideMark configuration\n\n[release]\n"));
}

#[test]
fn a_configuration_file_may_set_any_key() {
    let read = read_config(
        "[release]\nrequire_annotated_tags = false\n\n[time]\ntimezone = \"UTC\"\n",
    );
    assert!(!read.release.require_annotated_tags);
    assert_eq!(read.release.tag_prefix, "v");
    let read = read_config("[remote]\n");
    assert_eq!(read.remote.strategy, RemoteStrategy::LsRemote);
    let read = read_config("[output]\nmetadata_suffix = \"rc1\"\n");
    assert_eq!(read.output.metadata_suffix.as_deref(), Some("rc1"));
}

fn every_error() -> Vec<(TideError, u8, ErrorClass)> {
    let s = |t: &str| t.to_string();
    vec![
        (TideError::ConfigParse { path: s("p"), message: s("m") }, 2, ErrorClass::Validation),
        (TideError::ConfigExists { path: s("p") }, 2, ErrorClass::Validation),
        (TideError::InvalidTimezone { value: s("x") }, 2, ErrorClass::Validation),
        (TideError::InvalidReleaseTag { tag: s("t"), prefix: s("v") }, 2, ErrorClass::Validation),
        (TideError::InvalidServiceInterval { minutes: 0 }, 2, ErrorClass::Validation),
        (TideError::NotGitRepository { path: s("p") }, 3, ErrorClass::Environment),
        (
            TideError::GitCommand { args: vec![s("a")], stderr: s("e"), code: Some(1) },
            3,
            ErrorClass::Environment,
        ),
        (
            TideError::SystemCommand { program: s("systemctl"), args: vec![], stderr: s("e"), code: None },
            3,
            ErrorClass::Environment,
        ),
        (TideError::NoReleaseAnchor { prefix: s("v") }, 4, ErrorClass::Semantic),
        (TideError::TimestampAnomaly { anchor_ts: 2, target_ts: 1 }, 4, ErrorClass::Semantic),
        (TideError::FileHistoryNotFound { path: s("p") }, 4, ErrorClass::Semantic),
        (TideError::InvalidUtf8, 5, ErrorClass::Internal),
        (TideError::CacheFormat { message: s("m") }, 5, ErrorClass::Internal),
        (TideError::UnsupportedPlatform { feature: s("f") }, 5, ErrorClass::Internal),
        (TideError::MissingHomeDirectory, 5, ErrorClass::Internal),
        (
            io_err(s("/p"), std::io::Error::new(std::io::ErrorKind::NotFound, "gone")),
            5,
            ErrorClass::Internal,
        ),
        (TideError::Internal { message: s("m") }, 5, ErrorClass::Internal),
    ]
}

#[test]
fn every_kind_has_its_exit_code() {
    let all = every_error();
    assert_eq!(all.len(), 17);
    for (error, code, class) in all {
        assert_eq!(error.exit_code(), code, "{error:?}");
        assert_eq!(error.error_class(), class, "{error:?}");
    }
}

#[test]
fn io_failures_keep_path_and_source() {
    match io_err("/x/y".to_string(), std::io::Error::new(std::io::ErrorKind::PermissionDenied, "no")) {
        TideError::Io { path, source } => {
            assert_eq!(path, "/x/y");
            assert_eq!(source.kind(), std::io::ErrorKind::PermissionDenied);
        }
        other => panic!("{other:?}"),
    }
}

#[test]
fn a_missing_file_loads_the_defaults() {
    let config = load_or_default("/r/.tidemark.toml", None).unwrap();
    assert_eq!(config.release.tag_prefix, "v");
    assert_eq!(config.remote.strategy, RemoteStrategy::LsRemote);
    let mut read = TideConfig::default();
    read.time.timezone = "+08:00".to_string();
    let config = load_or_default("/r/.tidemark.toml", Some(Ok(read))).unwrap();
    assert_eq!(config.time.timezone, "+08:00");
    match load_or_default("/r/.tidemark.toml", Some(Err("expected `=`".to_string()))) {
        Err(e) => {
            assert_eq!(e.exit_code(), 2);
            match e {
                TideError::ConfigParse { path, message } => {
                    assert_eq!(path, "/r/.tidemark.toml");
                    assert_eq!(message, "expected `=`");
                }
                other => panic!("{other:?}"),
            }
        }
        Ok(other) => panic!("{other:?}"),
    }
}

#[test]
fn a_configuration_file_is_created_once() {
    assert_eq!(init_default("/r/.tidemark.toml", false).unwrap(), default_config_toml());
    match init_default("/r/.tidemark.toml", true) {
        Err(e) => {
            assert_eq!(e.exit_code(), 2);
            assert!(matches!(e, TideError::ConfigExists { path } if path == "/r/.tidemark.toml"));
        }
        Ok(other) => panic!("{other:?}"),
    }
}
