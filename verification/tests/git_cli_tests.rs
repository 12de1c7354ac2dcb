use tidemark::domain::model::{CommitInfo, TagRef, TagSource};
use tidemark::error::TideError;
use tidemark::infra::command::{stderr_trimmed, stdout_trimmed, CommandOutput};
use tidemark::infra::git::cli::{checked_stdout, command_failure, read_tag_listing, GitCli};
use tidemark::infra::paths::{git_dir_from, normalized_path};

fn ok(stdout: &str) -> CommandOutput {
    CommandOutput {
        success: true,
        code: Some(0),
        stdout: Some(stdout.to_string()),
        stderr: String::new(),
    }
}

fn failed(code: Option<i32>, stderr: &str) -> CommandOutput {
    CommandOutput { success: false, code, stdout: Some(String::new()), stderr: stderr.to_string() }
}

fn not_utf8() -> CommandOutput {
    CommandOutput { success: true, code: Some(0), stdout: None, stderr: String::new() }
}

fn cli() -> GitCli {
    GitCli::discover("/work/repo/src", &ok("/work/repo\n")).unwrap()
}

fn args(list: &[&str]) -> Vec<String> {
    list.iter().map(|s| s.to_string()).collect()
}

fn assert_command_failure(e: TideError, expected_args: &[&str], stderr: &str, code: Option<i32>) {
    match e {
        TideError::GitCommand { args: named, stderr: said, code: exit } => {
            assert_eq!(named, args(expected_args));
            assert_eq!(said, stderr);
            assert_eq!(exit, code);
        }
        other => panic!("{other:?}"),
    }
}

#[test]
fn discover_reads_the_root_or_reports_no_repository() {
    assert_eq!(GitCli::discover_args(), args(&["rev-parse", "--show-toplevel"]));
    assert_eq!(cli().repo_root(), "/work/repo");
    match GitCli::discover("/tmp/x", &failed(Some(128), "fatal: not a git repository")) {
        Err(e) => {
            assert!(matches!(&e, TideError::NotGitRepository { path } if path == "/tmp/x"));
            assert_eq!(e.exit_code(), 3);
        }
        Ok(other) => panic!("{other:?}"),
    }
    assert!(matches!(GitCli::discover("/tmp/x", &not_utf8()), Err(TideError::InvalidUtf8)));
}

#[test]
fn output_is_trimmed() {
    assert_eq!(stdout_trimmed(&ok("  abc \n")).unwrap(), "abc");
    assert!(matches!(stdout_trimmed(&not_utf8()), Err(TideError::InvalidUtf8)));
    assert_eq!(stderr_trimmed(&failed(Some(1), " fatal: x\n")), "fatal: x");
}

#[test]
fn a_failed_command_is_reported_with_its_arguments() {
    let a = args(&["show", "-s", "nope"]);
    assert_command_failure(
        command_failure(&a, &failed(Some(128), "fatal: bad revision\n")),
        &["show", "-s", "nope"],
        "fatal: bad revision",
        Some(128),
    );
    assert_command_failure(
        checked_stdout(&a, &failed(None, "killed")).unwrap_err(),
        &["show", "-s", "nope"],
        "killed",
        None,
    );
    assert_eq!(checked_stdout(&a, &ok(" out \n")).unwrap(), "out");
    assert!(matches!(checked_stdout(&a, &not_utf8()), Err(TideError::InvalidUtf8)));
}

#[test]
fn commit_lines_are_id_tab_time() {
    let cli = cli();
    assert_eq!(
        cli.parse_commit_line("abc123\t1704067200").unwrap(),
        CommitInfo { id: "abc123".to_string(), timestamp: 1704067200 }
    );
    assert_eq!(
        cli.parse_commit_line(" abc \t -5 \textra").unwrap(),
        CommitInfo { id: "abc".to_string(), timestamp: -5 }
    );
    assert_eq!(cli.parse_commit_line("abc\t+7").unwrap().timestamp, 7);
    for line in ["", "abc", "abc\t", "\t123", "   \t123", "abc\t  "] {
        match cli.parse_commit_line(line) {
            Err(TideError::Internal { message }) => {
                assert_eq!(message, format!("unexpected commit line format: {line}"))
            }
            other => panic!("{line:?}: {other:?}"),
        }
    }
    for (line, stamp) in [("abc\t12x", "12x"), ("abc\t 1.5 ", "1.5"), ("a\t99999999999999999999", "99999999999999999999")] {
        match cli.parse_commit_line(line) {
            Err(TideError::Internal { message }) => {
                assert_eq!(message, format!("invalid commit timestamp: {stamp}"))
            }
            other => panic!("{line:?}: {other:?}"),
        }
    }
}

#[test]
fn resolve_commit_reads_one_line() {
    let cli = cli();
    let a = GitCli::resolve_commit_args("HEAD~1");
    assert_eq!(a, args(&["show", "-s", "--format=%H%x09%ct", "HEAD~1"]));
    assert_eq!(
        cli.read_commit(&a, &ok("deadbeef\t42\n")).unwrap(),
        CommitInfo { id: "deadbeef".to_string(), timestamp: 42 }
    );
    assert!(matches!(cli.read_commit(&a, &ok("")), Err(TideError::Internal { .. })));
    assert_command_failure(
        cli.read_commit(&a, &failed(Some(128), "bad")).unwrap_err(),
        &["show", "-s", "--format=%H%x09%ct", "HEAD~1"],
        "bad",
        Some(128),
    );
}

#[test]
fn commit_exists_by_exit_code() {
    let a = GitCli::commit_exists_args("abc");
    assert_eq!(a, args(&["cat-file", "-e", "abc^{commit}"]));
    assert_eq!(GitCli::read_commit_exists(&a, &ok("")).unwrap(), true);
    assert_eq!(GitCli::read_commit_exists(&a, &failed(Some(128), "x")).unwrap(), false);
    assert_command_failure(
        GitCli::read_commit_exists(&a, &failed(Some(1), " oops ")).unwrap_err(),
        &["cat-file", "-e", "abc^{commit}"],
        "oops",
        Some(1),
    );
    assert!(GitCli::read_commit_exists(&a, &failed(None, "")).is_err());
}

fn tag(name: &str, commit: &str, annotated: bool, source: TagSource) -> TagRef {
    TagRef { name: name.to_string(), commit_id: commit.to_string(), is_annotated: annotated, source }
}

#[test]
fn local_tags_are_peeled_and_filtered() {
    let a = GitCli::local_tags_args();
    assert_eq!(
        a,
        args(&[
            "for-each-ref",
            "--format=%(refname:short)%09%(objecttype)%09%(*objectname)%09%(objectname)",
            "refs/tags",
        ])
    );
    let listing = "v1\ttag\tc1\tt1\n\
                   v2\tcommit\t\tc2\n\
                   other\ttag\tc3\tt3\n\
                   \n\
                   v3\ttree\t\tx\n\
                   v4\ttag\t\tt4\n\
                   v5\tcommit\n\
                   v6\ttag\tc6\r\n\
                   v7\n";
    let tags = GitCli::read_local_tags(&a, &ok(listing), "v").unwrap();
    assert_eq!(
        tags,
        vec![
            tag("v1", "c1", true, TagSource::Local),
            tag("v2", "c2", false, TagSource::Local),
            tag("v6", "c6", true, TagSource::Local),
        ]
    );
    let all = GitCli::read_local_tags(&a, &ok(listing), "").unwrap();
    assert_eq!(all.len(), 4);
    assert_eq!(all[2], tag("other", "c3", true, TagSource::Local));
    assert!(GitCli::read_local_tags(&a, &ok(""), "v").unwrap().is_empty());
    assert!(GitCli::read_local_tags(&a, &failed(Some(1), ""), "v").is_err());
}

#[test]
fn remote_tags_come_from_the_private_namespace() {
    let fetch = GitCli::fetch_tags_args("origin", "v");
    assert_eq!(
        fetch,
        args(&[
            "fetch",
            "--quiet",
            "--prune",
            "--no-tags",
            "origin",
            "+refs/tags/v*:refs/tidemark/remote-tags/v*",
        ])
    );
    assert!(GitCli::check_fetch(&fetch, &ok("")).is_ok());
    assert_command_failure(
        GitCli::check_fetch(&fetch, &failed(Some(128), "no route\n")).unwrap_err(),
        &["fetch", "--quiet", "--prune", "--no-tags", "origin", "+refs/tags/v*:refs/tidemark/remote-tags/v*"],
        "no route",
        Some(128),
    );
    let a = GitCli::remote_tags_args();
    assert_eq!(
        a,
        args(&[
            "for-each-ref",
            "--format=%(refname)%09%(objecttype)%09%(*objectname)%09%(objectname)",
            "refs/tidemark/remote-tags",
        ])
    );
    let listing = "refs/tidemark/remote-tags/v1\ttag\tc1\tt1\n\
                   refs/tidemark/remote-tags/v2\tcommit\t\tc2\n\
                   refs/tidemark/remote-tags/w1\ttag\tc3\tt3\n\
                   refs/tags/v9\ttag\tc9\tt9\n";
    assert_eq!(
        GitCli::read_remote_tags(&a, &ok(listing), "v").unwrap(),
        vec![tag("v1", "c1", true, TagSource::Remote), tag("v2", "c2", false, TagSource::Remote)]
    );
    assert_eq!(
        read_tag_listing("x/v1\ttag\tc\tt", "x/", "v", TagSource::Remote),
        vec![tag("v1", "c", true, TagSource::Remote)]
    );
}

#[test]
fn ancestry_by_exit_code() {
    let a = GitCli::is_ancestor_args("a", "b");
    assert_eq!(a, args(&["merge-base", "--is-ancestor", "a", "b"]));
    assert_eq!(GitCli::read_is_ancestor(&a, &ok("")).unwrap(), true);
    assert_eq!(GitCli::read_is_ancestor(&a, &failed(Some(1), "")).unwrap(), false);
    assert_command_failure(
        GitCli::read_is_ancestor(&a, &failed(Some(128), "bad object")).unwrap_err(),
        &["merge-base", "--is-ancestor", "a", "b"],
        "bad object",
        Some(128),
    );
    assert!(GitCli::read_is_ancestor(&a, &failed(None, "")).is_err());
}

#[test]
fn distance_is_a_count() {
    let a = GitCli::commit_distance_args("a", "b");
    assert_eq!(a, args(&["rev-list", "--count", "a..b"]));
    assert_eq!(GitCli::read_commit_distance(&a, &ok("17\n")).unwrap(), 17);
    assert_eq!(GitCli::read_commit_distance(&a, &ok("0")).unwrap(), 0);
    for printed in ["", "x", "-1", "4294967296", "1 2"] {
        match GitCli::read_commit_distance(&a, &ok(printed)) {
            Err(TideError::Internal { message }) => {
                assert_eq!(message, format!("invalid commit count output: {printed}"))
            }
            other => panic!("{printed:?}: {other:?}"),
        }
    }
    assert!(matches!(
        GitCli::read_commit_distance(&a, &failed(Some(128), "")),
        Err(TideError::GitCommand { .. })
    ));
}

#[test]
fn ancestry_path_lists_commits_oldest_first() {
    let cli = cli();
    assert_eq!(GitCli::ancestry_path_args("a", "a"), None);
    let a = GitCli::ancestry_path_args("a", "b").unwrap();
    assert_eq!(a, args(&["log", "--ancestry-path", "--reverse", "--format=%H%x09%ct", "a..b"]));
    let commits = cli.read_ancestry_path(&a, &ok("c2\t10\n\n  \nc3\t20\n")).unwrap();
    assert_eq!(
        commits,
        vec![
            CommitInfo { id: "c2".to_string(), timestamp: 10 },
            CommitInfo { id: "c3".to_string(), timestamp: 20 },
        ]
    );
    assert!(cli.read_ancestry_path(&a, &ok("")).unwrap().is_empty());
    match cli.read_ancestry_path(&a, &ok("c2\t10\nbroken\nc3\tx")) {
        Err(TideError::Internal { message }) => {
            assert_eq!(message, "unexpected commit line format: broken")
        }
        other => panic!("{other:?}"),
    }
    assert!(matches!(
        cli.read_ancestry_path(&a, &failed(Some(128), "")),
        Err(TideError::GitCommand { .. })
    ));
}

#[test]
fn last_modifying_commit_or_no_history() {
    let cli = cli();
    let (a, path) = cli.last_modifying_args("/work/repo/src/a.txt", true);
    assert_eq!(path, "src/a.txt");
    assert_eq!(
        a,
        args(&["log", "-n", "1", "--format=%H%x09%ct", "--follow", "--", "src/a.txt"])
    );
    let (plain, path) = cli.last_modifying_args("b.txt", false);
    assert_eq!(path, "b.txt");
    assert_eq!(plain, args(&["log", "-n", "1", "--format=%H%x09%ct", "--", "b.txt"]));
    assert_eq!(
        cli.read_last_modifying(&a, &ok("abc\t5\n"), "src/a.txt").unwrap(),
        CommitInfo { id: "abc".to_string(), timestamp: 5 }
    );
    match cli.read_last_modifying(&a, &ok(" \n"), "src/a.txt") {
        Err(e) => {
            assert!(matches!(&e, TideError::FileHistoryNotFound { path } if path == "src/a.txt"));
            assert_eq!(e.exit_code(), 4);
        }
        Ok(other) => panic!("{other:?}"),
    }
    assert!(matches!(
        cli.read_last_modifying(&a, &failed(Some(128), ""), "src/a.txt"),
        Err(TideError::GitCommand { .. })
    ));
}

#[test]
fn root_commit_is_the_first_line() {
    let a = GitCli::root_commit_args();
    assert_eq!(a, args(&["rev-list", "--max-parents=0", "HEAD"]));
    assert_eq!(GitCli::read_root_commit(&a, &ok("r1\nr2\n")).unwrap(), "r1");
    assert_eq!(GitCli::read_root_commit(&a, &ok("\n  r1  \r\nr2\n")).unwrap(), "r1");
    match GitCli::read_root_commit(&a, &ok("\n")) {
        Err(TideError::Internal { message }) => assert_eq!(message, "no root commit found"),
        other => panic!("{other:?}"),
    }
}

#[test]
fn current_branch_by_exit_code() {
    let a = GitCli::current_branch_args();
    assert_eq!(a, args(&["symbolic-ref", "--quiet", "--short", "HEAD"]));
    assert_eq!(GitCli::read_current_branch(&a, &ok("main\n")).unwrap(), Some("main".to_string()));
    assert_eq!(GitCli::read_current_branch(&a, &failed(Some(1), "")).unwrap(), None);
    assert!(matches!(
        GitCli::read_current_branch(&a, &failed(Some(128), "x")),
        Err(TideError::GitCommand { .. })
    ));
    assert!(matches!(GitCli::read_current_branch(&a, &not_utf8()), Err(TideError::InvalidUtf8)));
}

#[test]
fn git_dir_is_taken_from_the_root_where_relative() {
    let cli = cli();
    let a = GitCli::git_dir_args();
    assert_eq!(a, args(&["rev-parse", "--git-dir"]));
    assert_eq!(cli.read_git_dir(&a, &ok(".git\n")).unwrap(), "/work/repo/.git");
    assert_eq!(cli.read_git_dir(&a, &ok("/elsewhere/.git\n")).unwrap(), "/elsewhere/.git");
    assert!(cli.read_git_dir(&a, &failed(Some(128), "")).is_err());
}

#[test]
fn paths_below_the_root_lose_it() {
    assert_eq!(normalized_path("/r/a", true, Some("a".to_string())), "a");
    assert_eq!(normalized_path("/r/a", true, None), "/r/a");
    assert_eq!(normalized_path("a", false, Some("x".to_string())), "a");
    assert_eq!(normalized_path("a", false, None), "a");
    let cli = cli();
    assert_eq!(cli.last_modifying_args("/work/repo/src/a.txt", false).1, "src/a.txt");
    assert_eq!(cli.last_modifying_args("/work/repo2/a.txt", false).1, "/work/repo2/a.txt");
    assert_eq!(cli.last_modifying_args("src/a.txt", false).1, "src/a.txt");
}

#[test]
fn the_git_dir_is_the_printed_path_or_the_joined_one() {
    assert_eq!(git_dir_from("/x/.git".to_string(), true, "/r/x/.git".to_string()), "/x/.git");
    assert_eq!(git_dir_from(".git".to_string(), false, "/r/.git".to_string()), "/r/.git");
}
