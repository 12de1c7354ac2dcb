//! The command-line backend, without the commands: for each query the
//! arguments to hand to `git`, and the reading of what it printed and how
//! it exited. Running the command is the caller's part.

use vstd::prelude::*;
use vstd::string::*;

use crate::domain::model::{CommitInfo, CommitView, TagRef, TagSource, TagView};
use crate::domain::text::{
    chars_of, has_prefix, i64_of_text, is_blank, line_is_blank, lines, lines_of, parse_i64,
    parse_u32, split, split_chars, str_eq, string_of_range, texts, trim, trim_str, u32_of_text,
};
use crate::error::{TideError, TideResult};
use crate::infra::command::{clone_args, stderr_trimmed, stdout_trimmed, CommandOutput};
use crate::infra::paths::{git_dir_from, path_below_root, path_is_absolute, path_join};

verus! {

/// The command-line backend for the repository at `repo_root`.
#[derive(Debug, Clone)]
pub struct GitCli {
    repo_root: String,
}

/// Whether `e` is the failure of the command `args` that left `output`.
pub open spec fn is_command_failure(e: TideError, args: Seq<String>, output: CommandOutput) -> bool {
    &&& e matches TideError::GitCommand { args: named, stderr, code }
    &&& texts(named@) == texts(args)
    &&& stderr@ == trim(output.stderr@)
    &&& code == output.code
}

/// The failure of a command: its arguments, its trimmed diagnostics and
/// its exit code.
pub fn command_failure(args: &Vec<String>, output: &CommandOutput) -> (e: TideError)
    ensures
        is_command_failure(e, args@, *output),
{
    TideError::GitCommand {
        args: clone_args(args),
        stderr: stderr_trimmed(output),
        code: output.code,
    }
}

/// What a command printed, trimmed, where it succeeded; its failure
/// where it did not.
pub fn checked_stdout(args: &Vec<String>, output: &CommandOutput) -> (r: TideResult<String>)
    ensures
        match r {
            Ok(out) => {
                &&& output.success
                &&& output.stdout matches Some(text)
                &&& out@ == trim(text@)
            },
            Err(e) => if output.success {
                output.stdout is None && e is InvalidUtf8
            } else {
                is_command_failure(e, args@, *output)
            },
        },
{
    if output.success {
        stdout_trimmed(output)
    } else {
        Err(command_failure(args, output))
    }
}

/// The field `k` of a line split at tabs; empty where the line has fewer
/// fields.
pub open spec fn field(line: Seq<char>, k: int) -> Seq<char> {
    let fields = split(line, '\t');
    if 0 <= k < fields.len() {
        fields[k]
    } else {
        Seq::empty()
    }
}

fn field_of(fields: &Vec<String>, k: usize) -> (r: String)
    ensures
        r@ == if k < fields.len() {
            fields@[k as int]@
        } else {
            Seq::<char>::empty()
        },
{
    if k < fields.len() {
        fields[k].clone()
    } else {
        String::new()
    }
}

/// What a line of `%H<tab>%ct` says: the commit, or which part is wrong.
pub enum CommitLine {
    /// The line names this commit.
    Commit(CommitView),
    /// The id or the timestamp is missing.
    Malformed,
    /// The timestamp is no number.
    BadTimestamp,
}

/// Reads a line of `%H<tab>%ct`: the id is the first field, the committer
/// time the second, both trimmed.
pub open spec fn commit_of_line(line: Seq<char>) -> CommitLine {
    let id = trim(field(line, 0));
    let timestamp = trim(field(line, 1));
    if id.len() == 0 || timestamp.len() == 0 {
        CommitLine::Malformed
    } else {
        match i64_of_text(timestamp) {
            Some(seconds) => CommitLine::Commit(CommitView { id, timestamp: seconds as int }),
            None => CommitLine::BadTimestamp,
        }
    }
}

/// The commits that the lines name, in order; blank lines say nothing.
/// `None` where a line that is not blank names no commit.
pub open spec fn commits_of_lines(lines: Seq<Seq<char>>) -> Option<Seq<CommitView>>
    decreases lines.len(),
{
    if lines.len() == 0 {
        Some(Seq::empty())
    } else {
        match commits_of_lines(lines.drop_last()) {
            None => None,
            Some(front) => if is_blank(lines.last()) {
                Some(front)
            } else {
                match commit_of_line(lines.last()) {
                    CommitLine::Commit(c) => Some(front.push(c)),
                    _ => None,
                }
            },
        }
    }
}

/// The commit a tag line points at, and whether the tag is annotated: for
/// an object of type `tag` the peeled object, for a `commit` the object
/// itself. `None` for any other type, and where the commit is missing.
pub open spec fn tag_target(line: Seq<char>) -> Option<(Seq<char>, bool)> {
    let kind = field(line, 1);
    if kind == "tag"@ {
        if field(line, 2).len() == 0 {
            None
        } else {
            Some((field(line, 2), true))
        }
    } else if kind == "commit"@ {
        if field(line, 3).len() == 0 {
            None
        } else {
            Some((field(line, 3), false))
        }
    } else {
        None
    }
}

/// The tag that a line of a tag listing names. The first field is the
/// ref, which must start with `namespace`; what follows is the name,
/// which must start with `prefix`.
pub open spec fn tag_of_line(
    line: Seq<char>,
    namespace: Seq<char>,
    prefix: Seq<char>,
    source: TagSource,
) -> Option<TagView> {
    let reference = field(line, 0);
    if !namespace.is_prefix_of(reference) {
        None
    } else {
        let name = reference.skip(namespace.len() as int);
        if !prefix.is_prefix_of(name) {
            None
        } else {
            match tag_target(line) {
                Some((commit_id, is_annotated)) => Some(
                    TagView { name, commit_id, is_annotated, source },
                ),
                None => None,
            }
        }
    }
}

/// The tags that the lines of a listing name, in order.
pub open spec fn tags_of_lines(
    lines: Seq<Seq<char>>,
    namespace: Seq<char>,
    prefix: Seq<char>,
    source: TagSource,
) -> Seq<TagView>
    decreases lines.len(),
{
    if lines.len() == 0 {
        Seq::empty()
    } else {
        let front = tags_of_lines(lines.drop_last(), namespace, prefix, source);
        if is_blank(lines.last()) {
            front
        } else {
            match tag_of_line(lines.last(), namespace, prefix, source) {
                Some(tag) => front.push(tag),
                None => front,
            }
        }
    }
}

/// Every tag of a listing has a name that starts with the prefix, points
/// at a commit, and has the source it was listed for.
pub proof fn lemma_listed_tags_match(
    lines: Seq<Seq<char>>,
    namespace: Seq<char>,
    prefix: Seq<char>,
    source: TagSource,
    i: int,
)
    requires
        0 <= i < tags_of_lines(lines, namespace, prefix, source).len(),
    ensures
        prefix.is_prefix_of(tags_of_lines(lines, namespace, prefix, source)[i].name),
        tags_of_lines(lines, namespace, prefix, source)[i].commit_id.len() > 0,
        tags_of_lines(lines, namespace, prefix, source)[i].source == source,
    decreases lines.len(),
{
    let front = tags_of_lines(lines.drop_last(), namespace, prefix, source);
    if i < front.len() {
        lemma_listed_tags_match(lines.drop_last(), namespace, prefix, source, i);
    }
}

fn read_tag_line(line: &str, namespace: &str, prefix: &str, source: TagSource) -> (r: Option<
    TagRef,
>)
    ensures
        match r {
            Some(tag) => tag_of_line(line@, namespace@, prefix@, source) == Some(tag@),
            None => tag_of_line(line@, namespace@, prefix@, source) is None,
        },
{
    let fields = split_chars(&chars_of(line), '\t');
    proof {
        assert(forall|k: int|
            0 <= k < fields@.len() ==> #[trigger] texts(fields@)[k] == fields@[k]@);
    }
    let reference = chars_of(field_of(&fields, 0).as_str());
    let lead = chars_of(namespace);
    if !has_prefix(&reference, &lead) {
        return None;
    }
    let name_chars = chars_of(string_of_range(&reference, lead.len(), reference.len()).as_str());
    if !has_prefix(&name_chars, &chars_of(prefix)) {
        return None;
    }
    let kind = field_of(&fields, 1);
    let (commit_id, is_annotated) = if str_eq(kind.as_str(), "tag") {
        (field_of(&fields, 2), true)
    } else if str_eq(kind.as_str(), "commit") {
        (field_of(&fields, 3), false)
    } else {
        return None;
    };
    if commit_id.as_str().unicode_len() == 0 {
        return None;
    }
    let name = string_of_range(&name_chars, 0, name_chars.len());
    proof {
        assert(reference@.subrange(lead@.len() as int, reference@.len() as int) == reference@.skip(
            lead@.len() as int,
        ));
        assert(name_chars@.subrange(0, name_chars@.len() as int) == name_chars@);
        assert(name@ == field(line@, 0).skip(namespace@.len() as int));
    }
    Some(TagRef { name, commit_id, is_annotated, source })
}

/// The tags that a listing names.
pub fn read_tag_listing(listing: &str, namespace: &str, prefix: &str, source: TagSource) -> (tags:
    Vec<TagRef>)
    ensures
        tags.deep_view() == tags_of_lines(lines_of(listing@), namespace@, prefix@, source),
{
    let all = lines(listing);
    let ghost rows = lines_of(listing@);
    let mut tags: Vec<TagRef> = Vec::new();
    let mut i: usize = 0;
    proof {
        assert(forall|k: int| 0 <= k < all@.len() ==> #[trigger] texts(all@)[k] == all@[k]@);
    }
    while i < all.len()
        invariant
            i <= all.len(),
            rows == texts(all@),
            forall|k: int| 0 <= k < all@.len() ==> #[trigger] rows[k] == all@[k]@,
            tags.deep_view() == tags_of_lines(rows.take(i as int), namespace@, prefix@, source),
        decreases all.len() - i,
    {
        let line = all[i].as_str();
        proof {
            assert(rows.take(i + 1).drop_last() == rows.take(i as int));
            assert(rows.take(i + 1).last() == line@);
        }
        if !line_is_blank(line) {
            match read_tag_line(line, namespace, prefix, source) {
                Some(tag) => {
                    let ghost before = tags.deep_view();
                    tags.push(tag);
                    proof {
                        assert(tags.deep_view() == before.push(tag@));
                    }
                },
                None => {},
            }
        }
        i += 1;
    }
    proof {
        assert(rows.take(all.len() as int) == rows);
    }
    tags
}

/// The message for a commit line that lacks a part.
pub open spec fn malformed_line_message(line: Seq<char>) -> Seq<char> {
    "unexpected commit line format: "@ + line
}

/// The message for a commit line whose timestamp is no number.
pub open spec fn bad_timestamp_message(timestamp: Seq<char>) -> Seq<char> {
    "invalid commit timestamp: "@ + timestamp
}

/// Whether `e` is the failure to read the commit line `line`: an
/// `Internal` failure that quotes the line where a part is missing, and
/// the timestamp where it is no number.
pub open spec fn is_line_failure(line: Seq<char>, e: TideError) -> bool {
    match commit_of_line(line) {
        CommitLine::Commit(_) => false,
        CommitLine::Malformed => {
            &&& e matches TideError::Internal { message }
            &&& message@ == malformed_line_message(line)
        },
        CommitLine::BadTimestamp => {
            &&& e matches TideError::Internal { message }
            &&& message@ == bad_timestamp_message(trim(field(line, 1)))
        },
    }
}

/// Whether `r` is the reading of the commit line `line`.
pub open spec fn is_commit_reading(line: Seq<char>, r: TideResult<CommitInfo>) -> bool {
    match r {
        Ok(commit) => commit_of_line(line) == CommitLine::Commit(commit@),
        Err(e) => is_line_failure(line, e),
    }
}

/// Whether `e` is the failure to read a listing of commits: the failure
/// of its first line that is not blank and names no commit.
pub open spec fn is_listing_failure(lines: Seq<Seq<char>>, e: TideError) -> bool {
    exists|k: int|
        {
            &&& 0 <= k < lines.len()
            &&& commits_of_lines(lines.take(k)) is Some
            &&& !is_blank(#[trigger] lines[k])
            &&& is_line_failure(lines[k], e)
        }
}

/// Puts a string in a list of arguments.
fn push_arg(args: &mut Vec<String>, arg: &str)
    ensures
        texts(final(args)@) == texts(old(args)@).push(arg@),
{
    let ghost before = args@;
    args.push(String::from_str(arg));
    proof {
        assert(texts(args@) == texts(before).push(arg@));
    }
}

fn first_args(a: &str, b: &str) -> (args: Vec<String>)
    ensures
        texts(args@) == seq![a@, b@],
{
    let mut args: Vec<String> = Vec::new();
    proof {
        assert(texts(args@) == Seq::<Seq<char>>::empty());
    }
    push_arg(&mut args, a);
    push_arg(&mut args, b);
    args
}

impl GitCli {
    /// The root of the working tree.
    pub closed spec fn root_view(&self) -> Seq<char> {
        self.repo_root@
    }

    /// The root of the working tree.
    pub fn repo_root(&self) -> (r: &str)
        ensures
            r@ == self.root_view(),
    {
        self.repo_root.as_str()
    }

    /// The arguments that ask `git` for the root of the working tree.
    pub fn discover_args() -> (args: Vec<String>)
        ensures
            texts(args@) == seq!["rev-parse"@, "--show-toplevel"@],
    {
        first_args("rev-parse", "--show-toplevel")
    }

    /// The backend for the repository that `start_dir` lies in, from what
    /// `git` answered when asked there for the root of the working tree.
    /// A command that failed means that `start_dir` is in no repository.
    pub fn discover(start_dir: &str, output: &CommandOutput) -> (r: TideResult<GitCli>)
        ensures
            match r {
                Ok(cli) => {
                    &&& output.success
                    &&& output.stdout matches Some(text)
                    &&& cli.root_view() == trim(text@)
                },
                Err(e) => if output.success {
                    output.stdout is None && e is InvalidUtf8
                } else {
                    e matches TideError::NotGitRepository { path } && path@ == start_dir@
                },
            },
    {
        if !output.success {
            return Err(TideError::NotGitRepository { path: String::from_str(start_dir) });
        }
        match stdout_trimmed(output) {
            Ok(root) => Ok(GitCli { repo_root: root }),
            Err(e) => Err(e),
        }
    }

    /// Reads a line of `%H<tab>%ct`. A line without an id or a timestamp,
    /// or with a timestamp that is no number, is an `Internal` failure.
    pub fn parse_commit_line(&self, line: &str) -> (r: TideResult<CommitInfo>)
        ensures
            is_commit_reading(line@, r),
    {
        let fields = split_chars(&chars_of(line), '\t');
        proof {
            assert(forall|k: int|
                0 <= k < fields@.len() ==> #[trigger] texts(fields@)[k] == fields@[k]@);
        }
        let id = trim_str(field_of(&fields, 0).as_str());
        let timestamp = trim_str(field_of(&fields, 1).as_str());
        if id.as_str().unicode_len() == 0 || timestamp.as_str().unicode_len() == 0 {
            let mut message = String::from_str("unexpected commit line format: ");
            message.append(line);
            return Err(TideError::Internal { message });
        }
        match parse_i64(timestamp.as_str()) {
            Some(seconds) => Ok(CommitInfo { id, timestamp: seconds }),
            None => {
                let mut message = String::from_str("invalid commit timestamp: ");
                message.append(timestamp.as_str());
                Err(TideError::Internal { message })
            },
        }
    }

    /// The arguments that ask for the repository's own directory.
    pub fn git_dir_args() -> (args: Vec<String>)
        ensures
            texts(args@) == seq!["rev-parse"@, "--git-dir"@],
    {
        first_args("rev-parse", "--git-dir")
    }

    /// The repository's own directory: the path that was printed, taken
    /// from the root of the working tree where it is relative. Whether it
    /// is relative, and what it is when taken from the root, is for the
    /// path library to say; `git_dir_from` says what the directory is for
    /// each of its answers.
    pub fn read_git_dir(&self, args: &Vec<String>, output: &CommandOutput) -> (r: TideResult<
        String,
    >)
        ensures
            r is Ok <==> output.success && output.stdout is Some,
            r matches Err(e) ==> if output.success {
                e is InvalidUtf8
            } else {
                is_command_failure(e, args@, *output)
            },
    {
        let printed = checked_stdout(args, output)?;
        let is_absolute = path_is_absolute(printed.as_str());
        let from_root = path_join(self.repo_root.as_str(), printed.as_str());
        Ok(git_dir_from(printed, is_absolute, from_root))
    }

    /// The arguments that ask for the id and the committer time of `rev`.
    pub fn resolve_commit_args(rev: &str) -> (args: Vec<String>)
        ensures
            texts(args@) == seq!["show"@, "-s"@, "--format=%H%x09%ct"@, rev@],
    {
        let mut args = first_args("show", "-s");
        push_arg(&mut args, "--format=%H%x09%ct");
        push_arg(&mut args, rev);
        args
    }

    /// The commit that was asked for, from the line that was printed.
    pub fn read_commit(&self, args: &Vec<String>, output: &CommandOutput) -> (r: TideResult<
        CommitInfo,
    >)
        ensures
            if !output.success {
                r matches Err(e) && is_command_failure(e, args@, *output)
            } else {
                match output.stdout {
                    Some(text) => is_commit_reading(trim(text@), r),
                    None => r matches Err(TideError::InvalidUtf8),
                }
            },
    {
        let printed = checked_stdout(args, output)?;
        self.parse_commit_line(printed.as_str())
    }

    /// The arguments that ask whether `rev` names a commit.
    pub fn commit_exists_args(rev: &str) -> (args: Vec<String>)
        ensures
            texts(args@) == seq!["cat-file"@, "-e"@, rev@ + "^{commit}"@],
    {
        let mut args = first_args("cat-file", "-e");
        let mut object = String::from_str(rev);
        object.append("^{commit}");
        push_arg(&mut args, object.as_str());
        args
    }

    /// Whether the revision names a commit: it does where the command
    /// succeeded, it does not where the command exited with 128, and any
    /// other exit is a failure of the command.
    pub fn read_commit_exists(args: &Vec<String>, output: &CommandOutput) -> (r: TideResult<bool>)
        ensures
            match r {
                Ok(exists) => exists == output.success && (output.success || output.code == Some(
                    128i32,
                )),
                Err(e) => !output.success && output.code != Some(128i32) && is_command_failure(
                    e,
                    args@,
                    *output,
                ),
            },
    {
        if output.success {
            return Ok(true);
        }
        match output.code {
            Some(128) => Ok(false),
            _ => Err(command_failure(args, output)),
        }
    }

    /// The arguments that list the local tags with their objects.
    pub fn local_tags_args() -> (args: Vec<String>)
        ensures
            texts(args@) == seq![
                "for-each-ref"@,
                "--format=%(refname:short)%09%(objecttype)%09%(*objectname)%09%(objectname)"@,
                "refs/tags"@,
            ],
    {
        let mut args = first_args(
            "for-each-ref",
            "--format=%(refname:short)%09%(objecttype)%09%(*objectname)%09%(objectname)",
        );
        push_arg(&mut args, "refs/tags");
        args
    }

    /// The local tags whose name starts with `prefix`, from the listing
    /// that was printed: annotated tags peeled, lightweight tags as they
    /// are, refs of any other kind left out.
    pub fn read_local_tags(args: &Vec<String>, output: &CommandOutput, prefix: &str) -> (r:
        TideResult<Vec<TagRef>>)
        ensures
            match r {
                Ok(tags) => {
                    &&& output.success
                    &&& output.stdout matches Some(text)
                    &&& tags.deep_view() == tags_of_lines(
                        lines_of(trim(text@)),
                        Seq::empty(),
                        prefix@,
                        TagSource::Local,
                    )
                },
                Err(e) => if output.success {
                    output.stdout is None && e is InvalidUtf8
                } else {
                    is_command_failure(e, args@, *output)
                },
            },
    {
        let printed = checked_stdout(args, output)?;
        let tags = read_tag_listing(printed.as_str(), "", prefix, TagSource::Local);
        proof {
            reveal_strlit("");
            assert(""@ == Seq::<char>::empty());
        }
        Ok(tags)
    }

    /// The refspec that brings the tags of a remote that start with
    /// `prefix` into the private namespace.
    pub open spec fn refspec(prefix: Seq<char>) -> Seq<char> {
        "+refs/tags/"@ + prefix + "*:refs/tidemark/remote-tags/"@ + prefix + "*"@
    }

    /// The arguments of the one pruning refresh of the tags of `remote`.
    pub fn fetch_tags_args(remote: &str, prefix: &str) -> (args: Vec<String>)
        ensures
            texts(args@) == seq![
                "fetch"@,
                "--quiet"@,
                "--prune"@,
                "--no-tags"@,
                remote@,
                Self::refspec(prefix@),
            ],
    {
        let mut refspec = String::from_str("+refs/tags/");
        refspec.append(prefix);
        refspec.append("*:refs/tidemark/remote-tags/");
        refspec.append(prefix);
        refspec.append("*");
        let mut args = first_args("fetch", "--quiet");
        push_arg(&mut args, "--prune");
        push_arg(&mut args, "--no-tags");
        push_arg(&mut args, remote);
        push_arg(&mut args, refspec.as_str());
        args
    }

    /// Whether the refresh went through: a command that failed is the
    /// failure of the listing.
    pub fn check_fetch(args: &Vec<String>, output: &CommandOutput) -> (r: TideResult<()>)
        ensures
            match r {
                Ok(_) => output.success,
                Err(e) => !output.success && is_command_failure(e, args@, *output),
            },
    {
        if output.success {
            Ok(())
        } else {
            Err(command_failure(args, output))
        }
    }

    /// The arguments that list the refreshed tags of the remote.
    pub fn remote_tags_args() -> (args: Vec<String>)
        ensures
            texts(args@) == seq![
                "for-each-ref"@,
                "--format=%(refname)%09%(objecttype)%09%(*objectname)%09%(objectname)"@,
                "refs/tidemark/remote-tags"@,
            ],
    {
        let mut args = first_args(
            "for-each-ref",
            "--format=%(refname)%09%(objecttype)%09%(*objectname)%09%(objectname)",
        );
        push_arg(&mut args, "refs/tidemark/remote-tags");
        args
    }

    /// The tags of the remote whose name starts with `prefix`, from the
    /// listing of the private namespace that was printed.
    pub fn read_remote_tags(args: &Vec<String>, output: &CommandOutput, prefix: &str) -> (r:
        TideResult<Vec<TagRef>>)
        ensures
            match r {
                Ok(tags) => {
                    &&& output.success
                    &&& output.stdout matches Some(text)
                    &&& tags.deep_view() == tags_of_lines(
                        lines_of(trim(text@)),
                        "refs/tidemark/remote-tags/"@,
                        prefix@,
                        TagSource::Remote,
                    )
                },
                Err(e) => if output.success {
                    output.stdout is None && e is InvalidUtf8
                } else {
                    is_command_failure(e, args@, *output)
                },
            },
    {
        let printed = checked_stdout(args, output)?;
        Ok(
            read_tag_listing(
                printed.as_str(),
                "refs/tidemark/remote-tags/",
                prefix,
                TagSource::Remote,
            ),
        )
    }

    /// The arguments that ask whether `ancestor` is `descendant` or one
    /// of its ancestors.
    pub fn is_ancestor_args(ancestor: &str, descendant: &str) -> (args: Vec<String>)
        ensures
            texts(args@) == seq!["merge-base"@, "--is-ancestor"@, ancestor@, descendant@],
    {
        let mut args = first_args("merge-base", "--is-ancestor");
        push_arg(&mut args, ancestor);
        push_arg(&mut args, descendant);
        args
    }

    /// The answer to the question of ancestry: yes for exit code 0, no
    /// for 1, and a failure of the command for anything else.
    pub fn read_is_ancestor(args: &Vec<String>, output: &CommandOutput) -> (r: TideResult<bool>)
        ensures
            match output.code {
                Some(0) => r == Ok::<bool, TideError>(true),
                Some(1) => r == Ok::<bool, TideError>(false),
                _ => r matches Err(e) && is_command_failure(e, args@, *output),
            },
    {
        match output.code {
            Some(0) => Ok(true),
            Some(1) => Ok(false),
            _ => Err(command_failure(args, output)),
        }
    }

    /// The arguments that count the commits after `ancestor` up to
    /// `descendant`.
    pub fn commit_distance_args(ancestor: &str, descendant: &str) -> (args: Vec<String>)
        ensures
            texts(args@) == seq!["rev-list"@, "--count"@, ancestor@ + ".."@ + descendant@],
    {
        let mut range = String::from_str(ancestor);
        range.append("..");
        range.append(descendant);
        let mut args = first_args("rev-list", "--count");
        push_arg(&mut args, range.as_str());
        args
    }

    /// The message for a count that is no number.
    pub open spec fn bad_count_message(printed: Seq<char>) -> Seq<char> {
        "invalid commit count output: "@ + printed
    }

    /// The number of commits that was printed. Anything but a number that
    /// fits 32 bits is an `Internal` failure.
    pub fn read_commit_distance(args: &Vec<String>, output: &CommandOutput) -> (r: TideResult<u32>)
        ensures
            match r {
                Ok(count) => {
                    &&& output.success
                    &&& output.stdout matches Some(text)
                    &&& u32_of_text(trim(text@)) == Some(count)
                },
                Err(e) => if !output.success {
                    is_command_failure(e, args@, *output)
                } else {
                    match output.stdout {
                        Some(text) => {
                    &&& u32_of_text(trim(text@)) is None
                    &&& e matches TideError::Internal { message }
                    &&& message@ == Self::bad_count_message(trim(text@))
                        },
                        None => e is InvalidUtf8,
                    }
                },
            },
    {
        let printed = checked_stdout(args, output)?;
        match parse_u32(printed.as_str()) {
            Some(count) => Ok(count),
            None => {
                let mut message = String::from_str("invalid commit count output: ");
                message.append(printed.as_str());
                Err(TideError::Internal { message })
            },
        }
    }

    /// The arguments that list the commits after `ancestor` up to
    /// `descendant` along the ancestry path, oldest first. There is
    /// nothing to ask where the two are the same: the path is empty.
    pub fn ancestry_path_args(ancestor: &str, descendant: &str) -> (r: Option<Vec<String>>)
        ensures
            match r {
                Some(args) => ancestor@ != descendant@ && texts(args@) == seq![
                    "log"@,
                    "--ancestry-path"@,
                    "--reverse"@,
                    "--format=%H%x09%ct"@,
                    ancestor@ + ".."@ + descendant@,
                ],
                None => ancestor@ == descendant@,
            },
    {
        if str_eq(ancestor, descendant) {
            return None;
        }
        let mut range = String::from_str(ancestor);
        range.append("..");
        range.append(descendant);
        let mut args = first_args("log", "--ancestry-path");
        push_arg(&mut args, "--reverse");
        push_arg(&mut args, "--format=%H%x09%ct");
        push_arg(&mut args, range.as_str());
        Some(args)
    }

    /// The commits of the ancestry path, from the lines that were
    /// printed. A line that names no commit is an `Internal` failure.
    pub fn read_ancestry_path(&self, args: &Vec<String>, output: &CommandOutput) -> (r: TideResult<
        Vec<CommitInfo>,
    >)
        ensures
            if !output.success {
                r matches Err(e) && is_command_failure(e, args@, *output)
            } else {
                match output.stdout {
                    Some(text) => match r {
                        Ok(commits) => commits_of_lines(lines_of(trim(text@))) == Some(
                            commits.deep_view(),
                        ),
                        Err(e) => is_listing_failure(lines_of(trim(text@)), e),
                    },
                    None => r matches Err(TideError::InvalidUtf8),
                }
            },
    {
        let printed = checked_stdout(args, output)?;
        let all = lines(printed.as_str());
        let ghost rows = lines_of(printed@);
        let mut commits: Vec<CommitInfo> = Vec::new();
        let mut i: usize = 0;
        proof {
            assert(forall|k: int| 0 <= k < all@.len() ==> #[trigger] texts(all@)[k] == all@[k]@);
        }
        while i < all.len()
            invariant
                i <= all.len(),
                output.success,
                output.stdout is Some,
                printed@ == trim(output.stdout->0@),
                rows == lines_of(printed@),
                rows == texts(all@),
                forall|k: int| 0 <= k < all@.len() ==> #[trigger] rows[k] == all@[k]@,
                commits_of_lines(rows.take(i as int)) == Some(commits.deep_view()),
            decreases all.len() - i,
        {
            let line = all[i].as_str();
            proof {
                assert(rows.take(i + 1).drop_last() == rows.take(i as int));
                assert(rows.take(i + 1).last() == line@);
            }
            if !line_is_blank(line) {
                match self.parse_commit_line(line) {
                    Ok(commit) => {
                        let ghost before = commits.deep_view();
                        commits.push(commit);
                        proof {
                            assert(commits.deep_view() == before.push(commit@));
                        }
                    },
                    Err(e) => {
                        proof {
                            assert(rows[i as int] == line@);
                            assert(is_listing_failure(rows, e));
                        }
                        return Err(e);
                    },
                }
            }
            i += 1;
        }
        proof {
            assert(rows.take(all.len() as int) == rows);
        }
        Ok(commits)
    }

    /// The arguments that ask for the commit that last changed `path`,
    /// and the path as the repository knows it.
    pub fn last_modifying_args(&self, path: &str, follow_renames: bool) -> (r: (
        Vec<String>,
        String,
    ))
        ensures
            texts(r.0@) == if follow_renames {
                seq!["log"@, "-n"@, "1"@, "--format=%H%x09%ct"@, "--follow"@, "--"@, r.1@]
            } else {
                seq!["log"@, "-n"@, "1"@, "--format=%H%x09%ct"@, "--"@, r.1@]
            },
    {
        let known = path_below_root(path, self.repo_root.as_str());
        let mut args = first_args("log", "-n");
        push_arg(&mut args, "1");
        push_arg(&mut args, "--format=%H%x09%ct");
        if follow_renames {
            push_arg(&mut args, "--follow");
        }
        push_arg(&mut args, "--");
        push_arg(&mut args, known.as_str());
        (args, known)
    }

    /// The commit that last changed the path, from the line that was
    /// printed. Nothing printed means that the path has no history: a
    /// `FileHistoryNotFound` that names it.
    pub fn read_last_modifying(
        &self,
        args: &Vec<String>,
        output: &CommandOutput,
        path: &str,
    ) -> (r: TideResult<CommitInfo>)
        ensures
            if !output.success {
                r matches Err(e) && is_command_failure(e, args@, *output)
            } else {
                match output.stdout {
                    Some(text) => if trim(text@).len() == 0 {
                        &&& r matches Err(TideError::FileHistoryNotFound { path: named })
                        &&& named@ == path@
                    } else {
                        is_commit_reading(trim(text@), r)
                    },
                    None => r matches Err(TideError::InvalidUtf8),
                }
            },
    {
        let printed = checked_stdout(args, output)?;
        if printed.as_str().unicode_len() == 0 {
            return Err(TideError::FileHistoryNotFound { path: String::from_str(path) });
        }
        self.parse_commit_line(printed.as_str())
    }

    /// The arguments that list the parentless ancestors of `HEAD`.
    pub fn root_commit_args() -> (args: Vec<String>)
        ensures
            texts(args@) == seq!["rev-list"@, "--max-parents=0"@, "HEAD"@],
    {
        let mut args = first_args("rev-list", "--max-parents=0");
        push_arg(&mut args, "HEAD");
        args
    }

    /// The root commit to resolve: the first line that was printed,
    /// trimmed. Nothing printed is an `Internal` failure.
    pub fn read_root_commit(args: &Vec<String>, output: &CommandOutput) -> (r: TideResult<String>)
        ensures
            match r {
                Ok(rev) => {
                    &&& output.success
                    &&& output.stdout matches Some(text)
                    &&& lines_of(trim(text@)).len() > 0
                    &&& rev@ == trim(lines_of(trim(text@))[0])
                },
                Err(e) => if !output.success {
                    is_command_failure(e, args@, *output)
                } else {
                    match output.stdout {
                        Some(text) => {
                    &&& lines_of(trim(text@)).len() == 0
                    &&& e matches TideError::Internal { message }
                    &&& message@ == "no root commit found"@
                        },
                        None => e is InvalidUtf8,
                    }
                },
            },
    {
        let printed = checked_stdout(args, output)?;
        let all = lines(printed.as_str());
        if all.len() == 0 {
            return Err(TideError::Internal { message: String::from_str("no root commit found") });
        }
        proof {
            assert(texts(all@)[0] == all@[0]@);
        }
        Ok(trim_str(all[0].as_str()))
    }

    /// The arguments that ask for the branch that is checked out.
    pub fn current_branch_args() -> (args: Vec<String>)
        ensures
            texts(args@) == seq!["symbolic-ref"@, "--quiet"@, "--short"@, "HEAD"@],
    {
        let mut args = first_args("symbolic-ref", "--quiet");
        push_arg(&mut args, "--short");
        push_arg(&mut args, "HEAD");
        args
    }

    /// The branch that is checked out: its name for exit code 0, none
    /// for 1 (a detached head), and a failure of the command for anything
    /// else.
    pub fn read_current_branch(args: &Vec<String>, output: &CommandOutput) -> (r: TideResult<
        Option<String>,
    >)
        ensures
            match output.code {
                Some(0) => match output.stdout {
                    Some(text) => r matches Ok(Some(name)) && name@ == trim(text@),
                    None => r matches Err(TideError::InvalidUtf8),
                },
                Some(1) => r matches Ok(None),
                _ => r matches Err(e) && is_command_failure(e, args@, *output),
            },
    {
        match output.code {
            Some(0) => match stdout_trimmed(output) {
                Ok(name) => Ok(Some(name)),
                Err(e) => Err(e),
            },
            Some(1) => Ok(None),
            _ => Err(command_failure(args, output)),
        }
    }
}

} // verus!
