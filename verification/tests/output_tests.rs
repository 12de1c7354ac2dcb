use tidemark::domain::model::{
    CommitInfo, FileResult, MarkExplain, MarkResult, ReleaseTag, RemoteLoadStatus, TagRef,
    TagSource, VersionCoordinate,
};
use tidemark::interface::output::{format_file, format_mark, format_release_list};

fn coordinate(x: u64, y: u32, z: u32, metadata: Option<&str>) -> VersionCoordinate {
    VersionCoordinate { x, y, z, metadata: metadata.map(|m| m.to_string()) }
}

fn mark(version: VersionCoordinate, branch: Option<&str>, status: RemoteLoadStatus) -> MarkResult {
    MarkResult {
        coordinate: version.clone(),
        explain: MarkExplain {
            version,
            target_commit: CommitInfo { id: "ffff".to_string(), timestamp: -7 },
            anchor_tag: "v9".to_string(),
            anchor_commit: CommitInfo { id: "aaaa".to_string(), timestamp: 1704067200 },
            day_delta: 4294967295,
            commit_index: 12,
            timezone: "+08:00".to_string(),
            remote_status: status,
            branch: branch.map(|b| b.to_string()),
        },
    }
}

#[test]
fn coordinates_are_three_numbers_and_an_optional_suffix() {
    assert_eq!(coordinate(1, 2, 3, None).to_text(), "1.2.3");
    assert_eq!(coordinate(0, 0, 0, None).to_text(), "0.0.0");
    assert_eq!(coordinate(1, 2, 3, Some("rc1")).to_text(), "1.2.3.rc1");
    assert_eq!(coordinate(1, 2, 3, Some("")).to_text(), "1.2.3");
    assert_eq!(
        coordinate(u64::MAX, u32::MAX, u32::MAX, Some("a.b")).to_text(),
        "18446744073709551615.4294967295.4294967295.a.b"
    );
}

#[test]
fn a_mark_is_one_line() {
    let result = mark(coordinate(3, 1, 4, Some("dev")), None, RemoteLoadStatus::NotAttempted);
    assert_eq!(format_mark(&result, false), "3.1.4.dev\n");
}

#[test]
fn an_explanation_has_eleven_lines_in_order() {
    let result = mark(coordinate(3, 1, 4, Some("dev")), Some("main"), RemoteLoadStatus::UsedRemote);
    assert_eq!(
        format_mark(&result, true),
        "version=3.1.4.dev\nanchor_tag=v9\nanchor_commit=aaaa\nanchor_timestamp=1704067200\n\
         target_commit=ffff\ntarget_timestamp=-7\nday_delta=4294967295\ncommit_index=12\n\
         timezone=+08:00\nbranch=main\nremote_status=used-remote\n"
    );
    let detached = mark(coordinate(0, 0, 1, None), None, RemoteLoadStatus::FallbackLocal);
    let text = format_mark(&detached, true);
    let keys: Vec<&str> = text.lines().map(|l| l.split('=').next().unwrap()).collect();
    assert_eq!(
        keys,
        vec![
            "version", "anchor_tag", "anchor_commit", "anchor_timestamp", "target_commit",
            "target_timestamp", "day_delta", "commit_index", "timezone", "branch", "remote_status",
        ]
    );
    assert!(text.contains("branch=detached\n"));
    assert!(text.ends_with("remote_status=fallback-local\n"));
    assert!(text.starts_with("version=0.0.1\n"));
}

#[test]
fn labels() {
    assert_eq!(TagSource::Local.label(), "local");
    assert_eq!(TagSource::Remote.label(), "remote");
    assert_eq!(RemoteLoadStatus::NotAttempted.label(), "not-attempted");
    assert_eq!(RemoteLoadStatus::UsedRemote.label(), "used-remote");
    assert_eq!(RemoteLoadStatus::FallbackLocal.label(), "fallback-local");
}

#[test]
fn a_file_is_the_line_of_its_mark() {
    let file = FileResult {
        path: "a.txt".to_string(),
        last_commit: CommitInfo { id: "ffff".to_string(), timestamp: -7 },
        mark: mark(coordinate(2, 0, 5, None), None, RemoteLoadStatus::NotAttempted),
    };
    assert_eq!(format_file(&file), "2.0.5\n");
}

#[test]
fn releases_are_tab_separated_rows() {
    let releases = vec![
        ReleaseTag {
            anchor_value: 1,
            tag: TagRef {
                name: "v1".to_string(),
                commit_id: "abc".to_string(),
                is_annotated: true,
                source: TagSource::Local,
            },
        },
        ReleaseTag {
            anchor_value: 20,
            tag: TagRef {
                name: "v2".to_string(),
                commit_id: "def".to_string(),
                is_annotated: false,
                source: TagSource::Remote,
            },
        },
    ];
    assert_eq!(
        format_release_list(&releases),
        "v1\t1\tabc\tannotated\tlocal\nv2\t20\tdef\tlightweight\tremote\n"
    );
    assert_eq!(format_release_list(&releases[..1]), "v1\t1\tabc\tannotated\tlocal\n");
    assert_eq!(format_release_list(&[]), "");
}
