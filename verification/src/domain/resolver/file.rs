//! The file resolver: from a path to the coordinate of the commit that
//! last changed it.
//!
//! Like the mark resolver it leaves the cache directory to the caller: it
//! names the entries to look up, is resumed with what was found, and says
//! in the end what is to be stored.

use vstd::prelude::*;
use vstd::string::*;

use crate::config::TideConfig;
use crate::domain::model::{
    clone_opt_string, opt_text, CommitInfo, FileResult, FileView, MarkResult,
};
use crate::domain::release::refreshes_remote;
use crate::domain::resolver::mark::{
    is_first_step_of, is_plan_with, is_resolution_of, lemma_resolution_repeats_plan, mark_key_of,
    normalize_metadata_suffix, normalized_suffix, requires_remote_refresh,
    resolve_mark_with_suffix, resume_mark, MarkPlan, MarkStep,
};
use crate::error::{TideError, TideResult};
use crate::infra::cache::{
    cache_key, json_bool, json_optional_string, json_string, to_json_bool,
    to_json_optional_string, to_json_string, CacheStore,
};
use crate::infra::git::GitProvider;
use crate::infra::paths::path_below_root;

verus! {

/// The namespace of file results in the cache.
pub const FILE_CACHE_NAMESPACE: &'static str = "file";

/// A request for the coordinate of a file.
#[derive(Debug, Clone)]
pub struct FileRequest {
    /// The path of the file, absolute or relative to the repository root.
    pub path: String,
    /// Whether only local tags are consulted.
    pub local_only: bool,
    /// The suffix to append, in place of the configured one.
    pub metadata_suffix: Option<String>,
}

/// What a file resolution works from once its request is read.
#[derive(Debug)]
pub struct FilePlan {
    /// The id of the commit that `HEAD` names.
    pub head_commit: String,
    /// The path, relative to the repository root where it lies below it.
    pub path: String,
    /// The suffix of the coordinate.
    pub metadata: Option<String>,
    /// Whether only local tags are consulted.
    pub local_only: bool,
    /// The key under which the result is to be stored, if it is.
    pub store_key: Option<String>,
}

/// What the caller does next for a file resolution.
#[derive(Debug)]
pub enum FileStep {
    /// Read the entry `key` of the file namespace, and resume with what
    /// was found.
    Lookup { key: String, plan: FilePlan },
    /// Read the entry `mark_key` of the mark namespace, and resume with
    /// what was found.
    MarkLookup { mark_key: String, mark_plan: MarkPlan, last_commit: CommitInfo, plan: FilePlan },
    /// The resolution is done. Where a key is given, the mark, or the
    /// whole result, is to be stored under it in its namespace: the mark
    /// first.
    Done { result: FileResult, mark_store_key: Option<String>, file_store_key: Option<String> },
}

/// The payload of a file cache key: every input that can change the
/// result, as one JSON object with its fields in this order.
pub open spec fn file_payload(
    head_commit: Seq<char>,
    path: Seq<char>,
    local_only: bool,
    metadata: Option<Seq<char>>,
    config: &TideConfig,
) -> Seq<char> {
    "{\"head_commit\":"@ + json_string(head_commit) + ",\"path\":"@ + json_string(path)
        + ",\"local_only\":"@ + json_bool(local_only) + ",\"metadata_suffix\":"@
        + json_optional_string(metadata) + ",\"follow_renames\":"@ + json_bool(
        config.output.follow_renames,
    ) + ",\"timezone\":"@ + json_string(config.time.timezone@) + ",\"tag_prefix\":"@ + json_string(
        config.release.tag_prefix@,
    ) + ",\"require_annotated_tags\":"@ + json_bool(config.release.require_annotated_tags) + "}"@
}

/// The key of the file cache entry of a request.
pub open spec fn file_key_of(plan: FilePlan, config: &TideConfig) -> Seq<char> {
    cache_key(
        "file"@,
        file_payload(plan.head_commit@, plan.path@, plan.local_only, opt_text(plan.metadata), config),
    )
}

/// The payload of the file cache key of a resolution.
pub fn file_cache_payload(
    head_commit: &str,
    path: &str,
    local_only: bool,
    metadata: &Option<String>,
    config: &TideConfig,
) -> (r: TideResult<String>)
    ensures
        r matches Ok(text) && text@ == file_payload(
                head_commit@,
                path@,
                local_only,
                opt_text(*metadata),
                config,
            ),
{
    let mut out = String::from_str("{\"head_commit\":");
    out.append(to_json_string(head_commit)?.as_str());
    out.append(",\"path\":");
    out.append(to_json_string(path)?.as_str());
    out.append(",\"local_only\":");
    out.append(to_json_bool(local_only));
    out.append(",\"metadata_suffix\":");
    out.append(to_json_optional_string(metadata)?.as_str());
    out.append(",\"follow_renames\":");
    out.append(to_json_bool(config.output.follow_renames));
    out.append(",\"timezone\":");
    out.append(to_json_string(config.time.timezone.as_str())?.as_str());
    out.append(",\"tag_prefix\":");
    out.append(to_json_string(config.release.tag_prefix.as_str())?.as_str());
    out.append(",\"require_annotated_tags\":");
    out.append(to_json_bool(config.release.require_annotated_tags));
    out.append("}");
    Ok(out)
}

/// Whether `plan` is what `req` asks for under `config`.
pub open spec fn is_file_plan_of(plan: FilePlan, config: &TideConfig, req: FileRequest) -> bool {
    &&& opt_text(plan.metadata) == normalized_suffix(
        opt_text(req.metadata_suffix),
        opt_text(config.output.metadata_suffix),
    )
    &&& plan.local_only == req.local_only
}

/// Whether `mark_plan` plans the mark of the file resolution `plan`:
/// its suffix is the plan's suffix as it stands, with no second look at
/// the configured one, and so is `local_only`.
pub open spec fn is_mark_plan_of(mark_plan: MarkPlan, plan: FilePlan, config: &TideConfig) -> bool {
    is_plan_with(mark_plan, config, plan.local_only, opt_text(plan.metadata))
}

/// Whether `result` is a resolution of `plan`, whatever the backend
/// answered: it names the plan's path, and its mark is a resolution for
/// the last commit with the plan's suffix.
pub open spec fn is_file_resolution_of(result: FileView, plan: FilePlan, config: &TideConfig) -> bool {
    &&& result.path == plan.path@
    &&& exists|mark_plan: MarkPlan|
        is_mark_plan_of(mark_plan, plan, config) && #[trigger] is_resolution_of(
            result.mark,
            mark_plan,
            config,
        )
}

/// The suffix of a file result is the suffix of its plan: the one that
/// the key of the file entry holds.
pub proof fn lemma_file_suffix_is_the_plans(result: FileView, plan: FilePlan, config: &TideConfig)
    requires
        is_file_resolution_of(result, plan, config),
    ensures
        result.mark.coordinate.metadata == opt_text(plan.metadata),
        result.mark.explain.version.metadata == opt_text(plan.metadata),
{
    let mark_plan = choose|mark_plan: MarkPlan|
        is_mark_plan_of(mark_plan, plan, config) && #[trigger] is_resolution_of(
            result.mark,
            mark_plan,
            config,
        );
    lemma_resolution_repeats_plan(result.mark, mark_plan, config);
}

/// What the backend's answer about the last commit of the path comes to.
/// A failure is the failure of the file resolution: a path without
/// history stays a `FileHistoryNotFound`. A commit is kept, and its id is
/// the revision that the mark resolution starts from.
pub fn mark_target_of(last: TideResult<CommitInfo>) -> (r: TideResult<(CommitInfo, String)>)
    ensures
        match last {
            Ok(commit) => r matches Ok((kept, rev)) && kept == commit && rev@ == commit.id@,
            Err(e) => r matches Err(same) && same == e,
        },
{
    match last {
        Ok(commit) => {
            let rev = commit.id.clone();
            Ok((commit, rev))
        },
        Err(e) => Err(e),
    }
}

/// Puts the result of a file resolution together.
pub fn assemble_file(path: String, last_commit: CommitInfo, mark: MarkResult) -> (result:
    FileResult)
    ensures
        result.path == path,
        result.last_commit == last_commit,
        result.mark == mark,
{
    FileResult { path, last_commit, mark }
}

/// Starts a file resolution: `HEAD`, the path, the suffix. A resolution
/// that refreshes the remote stays clear of the cache, as does any
/// resolution while the cache is disabled: it goes on to find the last
/// commit of the path. Any other resolution derives its cache key and
/// asks for the entry to be looked up.
pub fn resolve_file(
    git: &dyn GitProvider,
    config: &TideConfig,
    cache: &CacheStore,
    req: FileRequest,
) -> (r: TideResult<FileStep>)
    ensures
        match r {
            Ok(FileStep::Lookup { key, plan }) => {
                &&& !refreshes_remote(config, req.local_only)
                &&& cache.enabled_view()
                &&& is_file_plan_of(plan, config, req)
                &&& key@ == file_key_of(plan, config)
                &&& plan.store_key matches Some(k)
                &&& k@ == key@
            },
            Ok(FileStep::MarkLookup { mark_key, mark_plan, last_commit, plan }) => false,
            Ok(FileStep::Done { result, mark_store_key, file_store_key }) => {
                &&& refreshes_remote(config, req.local_only) || !cache.enabled_view()
                &&& mark_store_key is None
                &&& file_store_key is None
                &&& exists|plan: FilePlan|
                    is_file_plan_of(plan, config, req) && #[trigger] is_file_resolution_of(
                        result@,
                        plan,
                        config,
                    )
            },
            Err(_) => true,
        },
{
    let head = git.head_commit()?;
    let path = path_below_root(req.path.as_str(), git.repo_root());
    let local_only = req.local_only;
    let metadata = normalize_metadata_suffix(req.metadata_suffix, &config.output.metadata_suffix);
    let mut plan = FilePlan { head_commit: head.id, path, metadata, local_only, store_key: None };
    if !requires_remote_refresh(config, local_only) {
        let payload = file_cache_payload(
            plan.head_commit.as_str(),
            plan.path.as_str(),
            plan.local_only,
            &plan.metadata,
            config,
        )?;
        let key = CacheStore::key_from_serializable(FILE_CACHE_NAMESPACE, payload.as_str());
        if cache.is_enabled() {
            plan.store_key = Some(key.clone());
            return Ok(FileStep::Lookup { key, plan });
        }
    }
    let ghost planned = plan;
    let step = locate_and_mark(git, config, cache, plan)?;
    proof {
        if step is Done {
            assert(is_file_resolution_of(step->result@, planned, config));
        }
    }
    Ok(step)
}

/// Finds the commit that last changed the path and starts its mark
/// resolution with the plan's suffix. Where the mark is to be looked up
/// in the cache, the file resolution waits for it; else it is done.
fn locate_and_mark(git: &dyn GitProvider, config: &TideConfig, cache: &CacheStore, plan: FilePlan) -> (r:
    TideResult<FileStep>)
    ensures
        match r {
            Ok(FileStep::Lookup { .. }) => false,
            Ok(FileStep::MarkLookup { mark_key, mark_plan, last_commit, plan: kept }) => {
                &&& !refreshes_remote(config, plan.local_only)
                &&& cache.enabled_view()
                &&& kept == plan
                &&& is_mark_plan_of(mark_plan, plan, config)
                &&& mark_key@ == mark_key_of(mark_plan, config)
            },
            Ok(FileStep::Done { result, mark_store_key, file_store_key }) => {
                &&& refreshes_remote(config, plan.local_only) || !cache.enabled_view()
                &&& mark_store_key is None
                &&& file_store_key == plan.store_key
                &&& is_file_resolution_of(result@, plan, config)
            },
            Err(_) => true,
        },
{
    let answer = git.last_modifying_commit(plan.path.as_str(), config.output.follow_renames);
    let (last_commit, rev) = mark_target_of(answer)?;
    let started = resolve_mark_with_suffix(
        git,
        config,
        cache,
        Some(rev),
        plan.local_only,
        clone_opt_string(&plan.metadata),
    )?;
    let ghost mark_plan = choose|mark_plan: MarkPlan|
        is_mark_plan_of(mark_plan, plan, config) && #[trigger] is_first_step_of(
            started,
            mark_plan,
            config,
            cache,
        );
    match started {
        MarkStep::Lookup { key, plan: mark_plan } => Ok(
            FileStep::MarkLookup { mark_key: key, mark_plan, last_commit, plan },
        ),
        MarkStep::Done { result, store_key } => {
            let file_store_key = clone_opt_string(&plan.store_key);
            let ghost planned = plan;
            let done = assemble_file(plan.path, last_commit, result);
            proof {
                assert(is_resolution_of(done@.mark, mark_plan, config));
                assert(is_file_resolution_of(done@, planned, config));
            }
            Ok(FileStep::Done { result: done, mark_store_key: store_key, file_store_key })
        },
    }
}

/// Resumes a file resolution with what the lookup of its key found. An
/// entry that was found is the result, and nothing is stored. Without one
/// the resolution goes on to find the last commit of the path.
pub fn resume_file(
    git: &dyn GitProvider,
    config: &TideConfig,
    cache: &CacheStore,
    plan: FilePlan,
    cached: Option<FileResult>,
) -> (r: TideResult<FileStep>)
    ensures
        match cached {
            Some(hit) => {
                &&& r matches Ok(FileStep::Done { result, mark_store_key, file_store_key })
                &&& result == hit
                &&& mark_store_key is None
                &&& file_store_key is None
            },
            None => match r {
                Ok(FileStep::Lookup { .. }) => false,
                Ok(FileStep::MarkLookup { mark_key, mark_plan, last_commit, plan: kept }) => {
                    &&& kept == plan
                    &&& is_mark_plan_of(mark_plan, plan, config)
                    &&& mark_key@ == mark_key_of(mark_plan, config)
                },
                Ok(FileStep::Done { result, mark_store_key, file_store_key }) => {
                    &&& mark_store_key is None
                    &&& file_store_key == plan.store_key
                    &&& is_file_resolution_of(result@, plan, config)
                },
                Err(_) => true,
            },
        },
{
    match cached {
        Some(hit) => Ok(FileStep::Done { result: hit, mark_store_key: None, file_store_key: None }),
        None => locate_and_mark(git, config, cache, plan),
    }
}

/// Resumes a file resolution with what the lookup of the mark found. The
/// mark is the entry that was found, or is computed and to be stored
/// under `mark_key`; the file result is to be stored under the plan's key.
pub fn resume_file_mark(
    git: &dyn GitProvider,
    config: &TideConfig,
    plan: FilePlan,
    last_commit: CommitInfo,
    mark_plan: MarkPlan,
    mark_key: String,
    cached: Option<MarkResult>,
) -> (r: TideResult<(FileResult, Option<String>, Option<String>)>)
    ensures
        r matches Ok((result, mark_store_key, file_store_key)) ==> {
            &&& result.path == plan.path
            &&& result.last_commit == last_commit
            &&& file_store_key == plan.store_key
            &&& match cached {
                Some(hit) => result.mark == hit && mark_store_key is None,
                None => {
                    &&& mark_store_key == Some(mark_key)
                    &&& is_resolution_of(result.mark@, mark_plan, config)
                    &&& is_mark_plan_of(mark_plan, plan, config) ==> is_file_resolution_of(
                        result@,
                        plan,
                        config,
                    )
                },
            }
        },
        cached is Some ==> r is Ok,
{
    let (mark, mark_store_key) = resume_mark(git, config, mark_plan, mark_key, cached)?;
    let file_store_key = plan.store_key;
    Ok((assemble_file(plan.path, last_commit, mark), mark_store_key, file_store_key))
}

} // verus!
