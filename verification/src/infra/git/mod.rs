//! The repository-query interface that the resolvers consume.

pub mod cli;

use vstd::prelude::*;

use crate::domain::model::{CommitInfo, TagRef};
use crate::error::TideResult;

verus! {

/// What a resolution asks of a Git-like backend. Every answer depends on
/// the repository as it stands when the question is asked, so nothing is
/// promised of any of them: the resolvers are verified for every answer.
pub trait GitProvider {
    /// The root of the working tree.
    fn repo_root(&self) -> &str;

    /// The repository's own directory.
    fn git_dir(&self) -> TideResult<String>;

    /// The commit that `HEAD` names.
    fn head_commit(&self) -> TideResult<CommitInfo>;

    /// The commit that `rev` names; fails where it names none.
    fn resolve_commit(&self, rev: &str) -> TideResult<CommitInfo>;

    /// Whether `rev` names a commit.
    fn commit_exists(&self, rev: &str) -> TideResult<bool>;

    /// The local tags whose name starts with `prefix`, peeled.
    fn list_local_tags(&self, prefix: &str) -> TideResult<Vec<TagRef>>;

    /// The tags of `remote` whose name starts with `prefix`, after one
    /// pruning refresh; fails where the remote cannot be reached.
    fn list_remote_tags(&self, remote: &str, prefix: &str) -> TideResult<Vec<TagRef>>;

    /// Whether `ancestor` is `descendant` or one of its ancestors.
    fn is_ancestor(&self, ancestor: &str, descendant: &str) -> TideResult<bool>;

    /// The number of commits after `ancestor` up to and with `descendant`.
    fn commit_distance(&self, ancestor: &str, descendant: &str) -> TideResult<u32>;

    /// The commits after `ancestor` up to and with `descendant` along the
    /// ancestry path, oldest first.
    fn ancestry_path_commits(&self, ancestor: &str, descendant: &str) -> TideResult<
        Vec<CommitInfo>,
    >;

    /// The commit that last changed `path`.
    fn last_modifying_commit(&self, path: &str, follow_renames: bool) -> TideResult<CommitInfo>;

    /// The branch that is checked out, if any.
    fn current_branch(&self) -> TideResult<Option<String>>;

    /// One repeatable choice among the parentless ancestors of `HEAD`.
    fn root_commit(&self) -> TideResult<CommitInfo>;
}

} // verus!
