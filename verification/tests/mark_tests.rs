use tidemark::config::{RemoteStrategy, TideConfig};
use tidemark::domain::model::{
    AnchorSelection, CommitInfo, ReleaseTag, RemoteLoadStatus, TagRef, TagSource,
};
use tidemark::domain::resolver::file::file_cache_payload;
use tidemark::domain::resolver::mark::{
    anchored_day_delta, assemble_mark, commit_index_on_day, mark_cache_payload,
    normalize_metadata_suffix, remote_strategy_label, requires_remote_refresh, virtual_anchor,
};
use tidemark::domain::time::TimezonePolicy;
use tidemark::error::TideError;

fn commit(id: &str, timestamp: i64) -> CommitInfo {
    CommitInfo { id: id.to_string(), timestamp }
}

#[test]
fn commit_index_uses_timestamp_then_hash() {
    let tz = TimezonePolicy::parse("UTC").unwrap();
    let target = CommitInfo {
        id: "b".to_string(),
        timestamp: 100,
    };
    let commits = vec![
        CommitInfo {
            id: "c".to_string(),
            timestamp: 100,
        },
        CommitInfo {
            id: "b".to_string(),
            timestamp: 100,
        },
        CommitInfo {
            id: "a".to_string(),
            timestamp: 100,
        },
    ];

    let idx = commit_index_on_day(commits.as_slice(), &target, &tz).unwrap();
    assert_eq!(idx, 2);
}

#[test]
fn commit_index_counts_only_the_targets_day() {
    let tz = TimezonePolicy::Utc;
    let path = vec![
        commit("d1", 10),
        commit("d2", 86_399),
        commit("e1", 86_400),
        commit("e3", 90_000),
        commit("e2", 90_000),
        commit("f1", 2 * 86_400),
        commit("bad", i64::MAX),
    ];
    assert_eq!(commit_index_on_day(&path, &commit("d1", 10), &tz).unwrap(), 1);
    assert_eq!(commit_index_on_day(&path, &commit("d2", 86_399), &tz).unwrap(), 2);
    assert_eq!(commit_index_on_day(&path, &commit("e1", 86_400), &tz).unwrap(), 1);
    assert_eq!(commit_index_on_day(&path, &commit("e2", 90_000), &tz).unwrap(), 2);
    assert_eq!(commit_index_on_day(&path, &commit("e3", 90_000), &tz).unwrap(), 3);
    assert_eq!(commit_index_on_day(&path, &commit("f1", 2 * 86_400), &tz).unwrap(), 1);
    let east = TimezonePolicy::parse("+01:00").unwrap();
    assert_eq!(commit_index_on_day(&path, &commit("e1", 86_400), &east).unwrap(), 2);
}

#[test]
fn a_target_missing_from_its_day_is_an_internal_failure() {
    let tz = TimezonePolicy::Utc;
    let path = vec![commit("a", 10), commit("b", 20)];
    match commit_index_on_day(&path, &commit("zz", 15), &tz) {
        Err(TideError::Internal { message }) => {
            assert_eq!(message, "target commit zz not found in ancestry path day partition")
        }
        other => panic!("{other:?}"),
    }
    assert!(matches!(
        commit_index_on_day(&path, &commit("a", 86_400), &tz),
        Err(TideError::Internal { .. })
    ));
    assert!(matches!(
        commit_index_on_day(&[], &commit("a", 1), &tz),
        Err(TideError::Internal { .. })
    ));
    match commit_index_on_day(&path, &commit("a", i64::MIN), &tz) {
        Err(TideError::Internal { message }) => {
            assert_eq!(message, format!("invalid unix timestamp: {}", i64::MIN))
        }
        other => panic!("{other:?}"),
    }
}

#[test]
fn suffix_is_the_requests_or_the_configured_one_trimmed() {
    let s = |t: &str| Some(t.to_string());
    assert_eq!(normalize_metadata_suffix(None, &None), None);
    assert_eq!(normalize_metadata_suffix(s("dev"), &None), s("dev"));
    assert_eq!(normalize_metadata_suffix(s("  dev \n"), &s("cfg")), s("dev"));
    assert_eq!(normalize_metadata_suffix(None, &s(" cfg ")), s("cfg"));
    assert_eq!(normalize_metadata_suffix(s("   "), &s("cfg")), None);
    assert_eq!(normalize_metadata_suffix(s(""), &None), None);
    assert_eq!(normalize_metadata_suffix(None, &s("")), None);
    assert_eq!(normalize_metadata_suffix(s("a b"), &None), s("a b"));
}

#[test]
fn strategies_have_their_labels() {
    assert_eq!(remote_strategy_label(&RemoteStrategy::LsRemote), "ls-remote");
    assert_eq!(remote_strategy_label(&RemoteStrategy::LocalOnly), "local-only");
}

#[test]
fn only_remote_resolutions_refresh() {
    let mut config = TideConfig::default();
    assert!(requires_remote_refresh(&config, false));
    assert!(!requires_remote_refresh(&config, true));
    config.remote.strategy = RemoteStrategy::LocalOnly;
    assert!(!requires_remote_refresh(&config, false));
    assert!(!requires_remote_refresh(&config, true));
}

#[test]
fn day_delta_of_an_anchor() {
    let utc = TimezonePolicy::Utc;
    let day = 86_400;
    assert_eq!(anchored_day_delta(&utc, &commit("a", 0), &commit("b", 3 * day + 5)).unwrap(), 3);
    assert_eq!(anchored_day_delta(&utc, &commit("a", 10), &commit("b", 20)).unwrap(), 0);
    assert_eq!(anchored_day_delta(&utc, &commit("a", 9 * day), &commit("a", 0)).unwrap(), 0);
    assert_eq!(anchored_day_delta(&utc, &commit("a", i64::MAX), &commit("a", 0)).unwrap(), 0);
    assert!(matches!(
        anchored_day_delta(&utc, &commit("a", day), &commit("b", day - 1)),
        Err(TideError::TimestampAnomaly { anchor_ts: 86_400, target_ts: 86_399 })
    ));
    assert!(matches!(
        anchored_day_delta(&utc, &commit("a", i64::MAX), &commit("b", 0)),
        Err(TideError::Internal { .. })
    ));
}

#[test]
fn the_virtual_anchor_is_the_root_under_ordinal_zero() {
    let anchor = virtual_anchor(commit("root", 5), 7);
    assert_eq!(
        anchor,
        AnchorSelection {
            release: ReleaseTag {
                anchor_value: 0,
                tag: TagRef {
                    name: "(none)".to_string(),
                    commit_id: "root".to_string(),
                    is_annotated: false,
                    source: TagSource::Local,
                },
            },
            distance: 7,
            anchor_commit: commit("root", 5),
        }
    );
}

#[test]
fn a_result_repeats_its_parts() {
    let anchor = virtual_anchor(commit("root", 5), 7);
    let result = assemble_mark(
        anchor,
        commit("t", 9),
        3,
        4,
        Some("x".to_string()),
        "UTC".to_string(),
        RemoteLoadStatus::UsedRemote,
        None,
    );
    assert_eq!(result.coordinate, result.explain.version);
    assert_eq!((result.coordinate.x, result.coordinate.y, result.coordinate.z), (0, 3, 4));
    assert_eq!(result.coordinate.to_text(), "0.3.4.x");
    assert_eq!(result.explain.anchor_tag, "(none)");
    assert_eq!(result.explain.anchor_commit, commit("root", 5));
    assert_eq!(result.explain.target_commit, commit("t", 9));
    assert_eq!(result.explain.day_delta, 3);
    assert_eq!(result.explain.commit_index, 4);
    assert_eq!(result.explain.remote_status, RemoteLoadStatus::UsedRemote);
}

#[test]
fn mark_payload_is_the_json_of_its_fields() {
    let config = TideConfig::default();
    let payload = mark_cache_payload("abc", true, &config, &None).unwrap();
    assert_eq!(
        payload,
        "{\"target_commit\":\"abc\",\"local_only\":true,\"tag_prefix\":\"v\",\
         \"require_annotated_tags\":true,\"timezone\":\"UTC\",\"remote_strategy\":\"ls-remote\",\
         \"remote_name\":\"origin\",\"metadata_suffix\":null}"
    );
    let parsed: serde_json::Value = serde_json::from_str(&payload).unwrap();
    assert_eq!(parsed["target_commit"], "abc");
    assert_eq!(parsed["metadata_suffix"], serde_json::Value::Null);
    let mut odd = TideConfig::default();
    odd.release.tag_prefix = "r\"el\\\n\t\u{1}é".to_string();
    odd.remote.strategy = RemoteStrategy::LocalOnly;
    let payload = mark_cache_payload("abc", false, &odd, &Some("dev".to_string())).unwrap();
    let parsed: serde_json::Value = serde_json::from_str(&payload).unwrap();
    assert_eq!(parsed["tag_prefix"], "r\"el\\\n\t\u{1}é");
    assert_eq!(parsed["remote_strategy"], "local-only");
    assert_eq!(parsed["metadata_suffix"], "dev");
    assert_eq!(parsed["local_only"], false);
    assert!(payload.contains("\"tag_prefix\":\"r\\\"el\\\\\\n\\t\\u0001é\""));
}

#[test]
fn file_payload_is_the_json_of_its_fields() {
    let config = TideConfig::default();
    let payload = file_cache_payload("head", "a/b.txt", false, &Some("x".to_string()), &config).unwrap();
    assert_eq!(
        payload,
        "{\"head_commit\":\"head\",\"path\":\"a/b.txt\",\"local_only\":false,\
         \"metadata_suffix\":\"x\",\"follow_renames\":true,\"timezone\":\"UTC\",\
         \"tag_prefix\":\"v\",\"require_annotated_tags\":true}"
    );
}
