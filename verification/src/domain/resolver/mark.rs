//! The mark resolver: from a commit to its coordinate `x.y.z`.
//!
//! `x` is the ordinal of the anchor release, `y` the whole days between
//! the dates of anchor and target, `z` the position of the target among
//! the commits of its day on the ancestry path. The resolver never touches
//! the cache directory itself: it says which entry to look up or to store,
//! and is resumed with what the lookup found.

use vstd::prelude::*;
use vstd::relations::{sorted_by, total_ordering};
use vstd::seq_lib::{lemma_sorted_unique, to_multiset_build, to_multiset_insert};
use vstd::string::*;

use crate::config::{RemoteStrategy, TideConfig};
use crate::domain::model::{
    clone_opt_string, opt_text, AnchorSelection, AnchorView, CommitInfo, CommitView,
    CoordinateView, ExplainView, MarkExplain, MarkResult, MarkView, ReleaseTag, ReleaseView,
    RemoteLoadStatus, TagRef, TagSource, TagView, VersionCoordinate,
};
use crate::domain::release::{
    candidates_of, is_loaded_from, is_release_index, is_selected_from, is_selection_of,
    lemma_release_index_unique, lemma_selection_is_an_ancestor, lemma_selection_unique,
    load_release_tags, refreshes_remote, select_anchor, tags_by_name, ProbeView,
};
use crate::domain::text::{
    i64_to_string, lemma_lex_asymmetric, lemma_lex_connected, lemma_lex_transitive, lex_less,
    signed_decimal, str_eq, str_less, trim, trim_str,
};
use crate::domain::time::{day_number, TimezonePolicy};
use crate::error::{TideError, TideResult};
use crate::infra::cache::{
    cache_key, json_bool, json_optional_string, json_string, to_json_bool,
    to_json_optional_string, to_json_string, CacheStore,
};
use crate::infra::git::GitProvider;

verus! {

/// The namespace of mark results in the cache.
pub const MARK_CACHE_NAMESPACE: &'static str = "mark";

/// The name that stands for the tag of the virtual root anchor.
pub const VIRTUAL_ANCHOR_NAME: &'static str = "(none)";

/// A request for the coordinate of a commit.
#[derive(Debug, Clone)]
pub struct MarkRequest {
    /// The revision to resolve; `HEAD` where there is none.
    pub target_rev: Option<String>,
    /// Whether only local tags are consulted.
    pub local_only: bool,
    /// The suffix to append, in place of the configured one.
    pub metadata_suffix: Option<String>,
}

/// The suffix of a coordinate: the request's where it names one, else the
/// configured one; trimmed; none where nothing is left.
pub open spec fn normalized_suffix(
    requested: Option<Seq<char>>,
    configured: Option<Seq<char>>,
) -> Option<Seq<char>> {
    let chosen = match requested {
        Some(s) => Some(s),
        None => configured,
    };
    match chosen {
        Some(s) => if trim(s).len() == 0 {
            None
        } else {
            Some(trim(s))
        },
        None => None,
    }
}

/// A suffix is never empty: a coordinate has a suffix with something in
/// it, or none.
pub proof fn lemma_suffix_is_never_empty(
    requested: Option<Seq<char>>,
    configured: Option<Seq<char>>,
)
    ensures
        normalized_suffix(requested, configured) matches Some(s) ==> s.len() > 0,
{
}

/// The suffix of a coordinate, from the request's and the configured one.
pub fn normalize_metadata_suffix(arg_suffix: Option<String>, config_suffix: &Option<String>) -> (r:
    Option<String>)
    ensures
        opt_text(r) == normalized_suffix(opt_text(arg_suffix), opt_text(*config_suffix)),
{
    let trimmed = match &arg_suffix {
        Some(s) => trim_str(s.as_str()),
        None => match config_suffix {
            Some(s) => trim_str(s.as_str()),
            None => {
                return None;
            },
        },
    };
    if trimmed.as_str().unicode_len() == 0 {
        None
    } else {
        Some(trimmed)
    }
}

/// The spelling of a strategy in the configuration and in cache keys.
pub fn remote_strategy_label(strategy: &RemoteStrategy) -> (label: &'static str)
    ensures
        label@ == strategy.label_view(),
{
    match strategy {
        RemoteStrategy::LsRemote => "ls-remote",
        RemoteStrategy::LocalOnly => "local-only",
    }
}

/// Whether a resolution refreshes the remote's tags, and for that reason
/// stays clear of the cache.
pub fn requires_remote_refresh(config: &TideConfig, local_only: bool) -> (r: bool)
    ensures
        r == refreshes_remote(config, local_only),
{
    !local_only && config.remote.strategy == RemoteStrategy::LsRemote
}

/// The payload of a mark cache key: every input that can change the
/// result, as one JSON object with its fields in this order.
pub open spec fn mark_payload(
    target_commit: Seq<char>,
    local_only: bool,
    config: &TideConfig,
    metadata: Option<Seq<char>>,
) -> Seq<char> {
    "{\"target_commit\":"@ + json_string(target_commit) + ",\"local_only\":"@ + json_bool(
        local_only,
    ) + ",\"tag_prefix\":"@ + json_string(config.release.tag_prefix@)
        + ",\"require_annotated_tags\":"@ + json_bool(config.release.require_annotated_tags)
        + ",\"timezone\":"@ + json_string(config.time.timezone@) + ",\"remote_strategy\":"@
        + json_string(config.remote.strategy.label_view()) + ",\"remote_name\":"@ + json_string(
        config.remote.name@,
    ) + ",\"metadata_suffix\":"@ + json_optional_string(metadata) + "}"@
}

/// The payload of the mark cache key of a resolution.
pub fn mark_cache_payload(
    target_commit: &str,
    local_only: bool,
    config: &TideConfig,
    metadata: &Option<String>,
) -> (r: TideResult<String>)
    ensures
        r matches Ok(text) && text@ == mark_payload(
                target_commit@,
                local_only,
                config,
                opt_text(*metadata),
            ),
{
    let mut out = String::from_str("{\"target_commit\":");
    out.append(to_json_string(target_commit)?.as_str());
    out.append(",\"local_only\":");
    out.append(to_json_bool(local_only));
    out.append(",\"tag_prefix\":");
    out.append(to_json_string(config.release.tag_prefix.as_str())?.as_str());
    out.append(",\"require_annotated_tags\":");
    out.append(to_json_bool(config.release.require_annotated_tags));
    out.append(",\"timezone\":");
    out.append(to_json_string(config.time.timezone.as_str())?.as_str());
    out.append(",\"remote_strategy\":");
    out.append(to_json_string(remote_strategy_label(&config.remote.strategy))?.as_str());
    out.append(",\"remote_name\":");
    out.append(to_json_string(config.remote.name.as_str())?.as_str());
    out.append(",\"metadata_suffix\":");
    out.append(to_json_optional_string(metadata)?.as_str());
    out.append("}");
    Ok(out)
}

/// The anchor that stands in where no release precedes the target: the
/// root commit under the name `(none)`, with ordinal 0.
pub open spec fn virtual_anchor_view(root: CommitView, distance: int) -> AnchorView {
    AnchorView {
        release: ReleaseView {
            anchor_value: 0,
            tag: TagView {
                name: "(none)"@,
                commit_id: root.id,
                is_annotated: false,
                source: TagSource::Local,
            },
        },
        distance,
        anchor_commit: root,
    }
}

/// The virtual root anchor.
pub fn virtual_anchor(root: CommitInfo, distance: u32) -> (anchor: AnchorSelection)
    ensures
        anchor@ == virtual_anchor_view(root@, distance as int),
{
    AnchorSelection {
        release: ReleaseTag {
            anchor_value: 0,
            tag: TagRef {
                name: String::from_str(VIRTUAL_ANCHOR_NAME),
                commit_id: root.id.clone(),
                is_annotated: false,
                source: TagSource::Local,
            },
        },
        distance,
        anchor_commit: root,
    }
}

/// The whole days from the anchor's date to the target's, as the second
/// slot of a coordinate. An anchor that is the target itself is 0 days
/// away. A target dated before its anchor is a `TimestampAnomaly`; a
/// timestamp outside the calendar, or a difference that does not fit the
/// slot, is an `Internal` failure.
pub fn anchored_day_delta(
    timezone: &TimezonePolicy,
    anchor_commit: &CommitInfo,
    target: &CommitInfo,
) -> (r: TideResult<u32>)
    ensures
        anchor_commit.id@ == target.id@ ==> r == Ok::<u32, TideError>(0),
        anchor_commit.id@ != target.id@ ==> match r {
            Ok(days) => {
                &&& timezone.covers(anchor_commit.timestamp as int)
                &&& timezone.covers(target.timestamp as int)
                &&& days == day_number(target.timestamp as int, timezone.offset()) - day_number(
                    anchor_commit.timestamp as int,
                    timezone.offset(),
                )
            },
            Err(TideError::TimestampAnomaly { anchor_ts, target_ts }) => {
                &&& timezone.covers(anchor_commit.timestamp as int)
                &&& timezone.covers(target.timestamp as int)
                &&& day_number(target.timestamp as int, timezone.offset()) < day_number(
                    anchor_commit.timestamp as int,
                    timezone.offset(),
                )
                &&& anchor_ts == anchor_commit.timestamp
                &&& target_ts == target.timestamp
            },
            Err(TideError::Internal { message }) => if !timezone.covers(
                anchor_commit.timestamp as int,
            ) {
                message@ == "invalid unix timestamp: "@ + signed_decimal(
                    anchor_commit.timestamp as int,
                )
            } else if !timezone.covers(target.timestamp as int) {
                message@ == "invalid unix timestamp: "@ + signed_decimal(target.timestamp as int)
            } else {
                let days = day_number(target.timestamp as int, timezone.offset()) - day_number(
                    anchor_commit.timestamp as int,
                    timezone.offset(),
                );
                days > u32::MAX && message@ == "day delta overflow: "@ + signed_decimal(days)
            },
            Err(_) => false,
        },
{
    if crate::domain::text::str_eq(anchor_commit.id.as_str(), target.id.as_str()) {
        return Ok(0);
    }
    let days = timezone.day_delta(anchor_commit.timestamp, target.timestamp)?;
    if days < 0 {
        return Err(
            TideError::TimestampAnomaly {
                anchor_ts: anchor_commit.timestamp,
                target_ts: target.timestamp,
            },
        );
    }
    if days > u32::MAX as i64 {
        let mut message = String::from_str("day delta overflow: ");
        message.append(i64_to_string(days).as_str());
        return Err(TideError::Internal { message });
    }
    Ok(days as u32)
}

/// The result of a resolution, from its parts.
pub open spec fn mark_view_of(
    anchor: AnchorView,
    target: CommitView,
    day_delta: int,
    commit_index: int,
    metadata: Option<Seq<char>>,
    timezone: Seq<char>,
    remote_status: RemoteLoadStatus,
    branch: Option<Seq<char>>,
) -> MarkView {
    let coordinate = CoordinateView {
        x: anchor.release.anchor_value,
        y: day_delta,
        z: commit_index,
        metadata,
    };
    MarkView {
        coordinate,
        explain: ExplainView {
            version: coordinate,
            target_commit: target,
            anchor_tag: anchor.release.tag.name,
            anchor_commit: anchor.anchor_commit,
            day_delta,
            commit_index,
            timezone,
            remote_status,
            branch,
        },
    }
}

/// Puts a result together: the coordinate is the anchor's ordinal, the
/// day delta and the commit index, with the suffix; the explanation
/// repeats it and names what it was measured from.
pub fn assemble_mark(
    anchor: AnchorSelection,
    target: CommitInfo,
    day_delta: u32,
    commit_index: u32,
    metadata: Option<String>,
    timezone: String,
    remote_status: RemoteLoadStatus,
    branch: Option<String>,
) -> (result: MarkResult)
    ensures
        result@ == mark_view_of(
            anchor@,
            target@,
            day_delta as int,
            commit_index as int,
            opt_text(metadata),
            timezone@,
            remote_status,
            opt_text(branch),
        ),
{
    let coordinate = VersionCoordinate {
        x: anchor.release.anchor_value,
        y: day_delta,
        z: commit_index,
        metadata,
    };
    let explain = MarkExplain {
        version: coordinate.clone(),
        target_commit: target,
        anchor_tag: anchor.release.tag.name,
        anchor_commit: anchor.anchor_commit,
        day_delta,
        commit_index,
        timezone,
        remote_status,
        branch,
    };
    MarkResult { coordinate, explain }
}

/// The order of commits within a day: by timestamp, and by id where the
/// timestamps are equal.
pub open spec fn commit_le(a: CommitView, b: CommitView) -> bool {
    a.timestamp < b.timestamp || (a.timestamp == b.timestamp && (a.id == b.id || lex_less(
        a.id,
        b.id,
    )))
}

/// `commit_le` as a relation.
pub open spec fn commit_order() -> spec_fn(CommitView, CommitView) -> bool {
    |a: CommitView, b: CommitView| commit_le(a, b)
}

/// The commits whose date under `timezone` is the day numbered `day`.
pub open spec fn falls_on(timezone: TimezonePolicy, day: int) -> spec_fn(CommitView) -> bool {
    |c: CommitView| timezone.covers(c.timestamp) && day_number(c.timestamp, timezone.offset()) == day
}

/// The commits of `path` that fall on `day`, sorted by timestamp and id.
pub open spec fn commits_of_day(path: Seq<CommitView>, timezone: TimezonePolicy, day: int) -> Seq<
    CommitView,
> {
    path.filter(falls_on(timezone, day)).sort_by(commit_order())
}

/// The first position at or after `from` whose commit has the id `id`, or
/// the length of `commits` where there is none.
pub open spec fn first_with_id(commits: Seq<CommitView>, id: Seq<char>, from: int) -> int
    decreases commits.len() - from,
{
    if 0 <= from < commits.len() && commits[from].id != id {
        first_with_id(commits, id, from + 1)
    } else {
        from
    }
}

/// The order of commits is total: any two commits compare, and only
/// equal commits compare both ways.
pub proof fn lemma_commit_order_total()
    ensures
        total_ordering(commit_order()),
{
    let leq = commit_order();
    assert forall|x: CommitView, y: CommitView| #[trigger] leq(x, y) && #[trigger] leq(
        y,
        x,
    ) implies x == y by {
        if lex_less(x.id, y.id) {
            lemma_lex_asymmetric(x.id, y.id);
        }
    }
    assert forall|x: CommitView, y: CommitView, z: CommitView| #[trigger] leq(x, y) && #[trigger] leq(
        y,
        z,
    ) implies leq(x, z) by {
        if lex_less(x.id, y.id) && lex_less(y.id, z.id) {
            lemma_lex_transitive(x.id, y.id, z.id);
        }
    }
    assert forall|x: CommitView, y: CommitView| #[trigger] leq(x, y) || #[trigger] leq(y, x) by {
        lemma_lex_connected(x.id, y.id);
    }
}

fn commit_before(a: &CommitInfo, b: &CommitInfo) -> (r: bool)
    ensures
        r == !commit_le(b@, a@),
{
    proof {
        lemma_lex_connected(a.id@, b.id@);
        if lex_less(a.id@, b.id@) {
            lemma_lex_asymmetric(a.id@, b.id@);
        }
        if lex_less(b.id@, a.id@) {
            lemma_lex_asymmetric(b.id@, a.id@);
        }
    }
    a.timestamp < b.timestamp || (a.timestamp == b.timestamp && str_less(
        a.id.as_str(),
        b.id.as_str(),
    ))
}

#[verifier::rlimit(40)]
fn insert_commit(sorted: &mut Vec<CommitInfo>, commit: CommitInfo) -> (pos: usize)
    requires
        sorted_by(old(sorted).deep_view(), commit_order()),
    ensures
        pos <= old(sorted)@.len(),
        final(sorted).deep_view() == old(sorted).deep_view().insert(pos as int, commit@),
        sorted_by(final(sorted).deep_view(), commit_order()),
{
    let ghost before = sorted.deep_view();
    let ghost leq = commit_order();
    let mut pos: usize = 0;
    while pos < sorted.len() && commit_before(&sorted[pos], &commit)
        invariant
            sorted.deep_view() == before,
            sorted_by(before, commit_order()),
            pos <= sorted.len(),
            forall|i: int| 0 <= i < pos ==> commit_le(#[trigger] before[i], commit@),
        decreases sorted.len() - pos,
    {
        proof {
            assert(before[pos as int] == sorted@[pos as int]@);
            lemma_lex_connected(before[pos as int].id, commit@.id);
        }
        pos += 1;
    }
    proof {
        lemma_commit_order_total();
        if pos < before.len() {
            assert(before[pos as int] == sorted@[pos as int]@);
            assert(commit_le(commit@, before[pos as int]));
        }
        assert forall|j: int| pos <= j < before.len() implies commit_le(
            commit@,
            #[trigger] before[j],
        ) by {
            if j > pos {
                assert(leq(before[pos as int], before[j]));
                assert(leq(commit@, before[pos as int]) && leq(before[pos as int], before[j]));
            }
        }
    }
    sorted.insert(pos, commit);
    proof {
        let now = sorted.deep_view();
        assert(now =~= before.insert(pos as int, commit@)) by {
            assert(now.len() == before.len() + 1);
            assert forall|i: int| 0 <= i < now.len() implies now[i] == before.insert(
                pos as int,
                commit@,
            )[i] by {
                if i < pos {
                    assert(sorted@[i] == old(sorted)@[i]);
                    assert(before[i] == old(sorted)@[i]@);
                } else if i > pos {
                    assert(sorted@[i] == old(sorted)@[i - 1]);
                    assert(before[i - 1] == old(sorted)@[i - 1]@);
                }
            }
        }
        assert forall|i: int, j: int| 0 <= i < j < now.len() implies #[trigger] leq(
            now[i],
            now[j],
        ) by {
            if j < pos {
                assert(leq(before[i], before[j]));
            } else if j == pos {
                assert(commit_le(before[i], commit@));
            } else if i < pos {
                assert(leq(before[i], before[j - 1]));
            } else if i == pos {
                assert(commit_le(commit@, before[j - 1]));
            } else {
                assert(leq(before[i - 1], before[j - 1]));
            }
        }
    }
    pos
}

/// The commits of `path_commits` that fall on the day numbered `day`,
/// sorted by timestamp and id.
fn sorted_commits_of_day(path_commits: &[CommitInfo], timezone: &TimezonePolicy, day: i32) -> (sorted:
    Vec<CommitInfo>)
    ensures
        sorted.deep_view() == commits_of_day(path_commits.deep_view(), *timezone, day as int),
{
    let ghost path = path_commits.deep_view();
    let ghost pred = falls_on(*timezone, day as int);
    let mut sorted: Vec<CommitInfo> = Vec::new();
    let mut i: usize = 0;
    assert(path.take(0).filter(pred) == Seq::<CommitView>::empty()) by {
        reveal(Seq::filter);
    }
    assert(sorted.deep_view() == Seq::<CommitView>::empty());
    while i < path_commits.len()
        invariant
            i <= path_commits.len(),
            path == path_commits.deep_view(),
            pred == falls_on(*timezone, day as int),
            sorted_by(sorted.deep_view(), commit_order()),
            sorted.deep_view().to_multiset() == path.take(i as int).filter(pred).to_multiset(),
        decreases path_commits.len() - i,
    {
        let commit = &path_commits[i];
        let same_day = match timezone.date_for_timestamp(commit.timestamp) {
            Ok(date) => date.days_from_ce == day,
            Err(_) => false,
        };
        proof {
            assert(path[i as int] == path_commits@[i as int]@);
            assert(path.take(i + 1) == path.take(i as int).push(path[i as int]));
            path.take(i as int).lemma_filter_push(path[i as int], pred);
            assert(same_day == pred(path[i as int]));
        }
        if same_day {
            let ghost before = sorted.deep_view();
            let pos = insert_commit(&mut sorted, commit.clone());
            proof {
                to_multiset_insert(before, pos as int, path[i as int]);
                to_multiset_build(path.take(i as int).filter(pred), path[i as int]);
            }
        }
        i += 1;
    }
    proof {
        assert(path.take(path_commits.len() as int) == path);
        lemma_commit_order_total();
        path.filter(pred).lemma_sort_by_ensures(commit_order());
        lemma_sorted_unique(
            sorted.deep_view(),
            path.filter(pred).sort_by(commit_order()),
            commit_order(),
        );
    }
    sorted
}

/// The message of the failure to find the target among the commits of its
/// day.
pub open spec fn target_missing_message(id: Seq<char>) -> Seq<char> {
    "target commit "@ + id + " not found in ancestry path day partition"@
}

/// The message of the failure to fit a position into the third slot.
pub open spec fn index_overflow_message(position: int) -> Seq<char> {
    "commit index overflow: "@ + signed_decimal(position)
}

/// The third slot of a coordinate: the 1-based position of the target
/// among the commits of the path that fall on the target's day, sorted by
/// timestamp and then by id. The target is told by its id. A target
/// whose date cannot be told, or that is not among the commits of its day,
/// or whose position does not fit the slot, is an `Internal` failure.
pub fn commit_index_on_day(
    path_commits: &[CommitInfo],
    target: &CommitInfo,
    timezone: &TimezonePolicy,
) -> (r: TideResult<u32>)
    ensures
        match r {
            Ok(index) => {
                let day = day_number(target.timestamp as int, timezone.offset());
                let commits = commits_of_day(path_commits.deep_view(), *timezone, day);
                let found = first_with_id(commits, target.id@, 0);
                &&& timezone.covers(target.timestamp as int)
                &&& 0 <= found < commits.len()
                &&& index == found + 1
            },
            Err(e) => {
                let day = day_number(target.timestamp as int, timezone.offset());
                let commits = commits_of_day(path_commits.deep_view(), *timezone, day);
                let found = first_with_id(commits, target.id@, 0);
                &&& e matches TideError::Internal { message }
                &&& if timezone.covers(target.timestamp as int) {
                    if found < commits.len() {
                        found + 1 > u32::MAX && message@ == index_overflow_message(found + 1)
                    } else {
                        found == commits.len() && message@ == target_missing_message(target.id@)
                    }
                } else {
                    message@ == "invalid unix timestamp: "@ + signed_decimal(
                        target.timestamp as int,
                    )
                }
            },
        },
{
    let target_day = timezone.date_for_timestamp(target.timestamp)?;
    let sorted = sorted_commits_of_day(path_commits, timezone, target_day.days_from_ce);
    let ghost commits = sorted.deep_view();
    let mut at: usize = 0;
    while at < sorted.len() && !str_eq(sorted[at].id.as_str(), target.id.as_str())
        invariant
            at <= sorted.len(),
            commits == sorted.deep_view(),
            first_with_id(commits, target.id@, 0) == first_with_id(commits, target.id@, at as int),
        decreases sorted.len() - at,
    {
        proof {
            assert(commits[at as int] == sorted@[at as int]@);
        }
        at += 1;
    }
    if at == sorted.len() {
        let mut message = String::from_str("target commit ");
        message.append(target.id.as_str());
        message.append(" not found in ancestry path day partition");
        return Err(TideError::Internal { message });
    }
    proof {
        assert(commits[at as int] == sorted@[at as int]@);
    }
    let position: u64 = at as u64 + 1;
    if position > u32::MAX as u64 {
        let mut message = String::from_str("commit index overflow: ");
        message.append(crate::domain::text::u64_to_string(position).as_str());
        return Err(TideError::Internal { message });
    }
    Ok(position as u32)
}

/// The third slot of the coordinate of `target` measured from
/// `anchor_commit`: 0 where the anchor is the target itself, else the
/// position of the target among the commits of its day on the ancestry
/// path, as the backend lists it.
pub fn resolve_commit_index(
    git: &dyn GitProvider,
    timezone: &TimezonePolicy,
    anchor_commit: &CommitInfo,
    target: &CommitInfo,
) -> (r: TideResult<u32>)
    ensures
        anchor_commit.id@ == target.id@ ==> r == Ok::<u32, TideError>(0),
        anchor_commit.id@ != target.id@ ==> (r matches Ok(index) ==> exists|path: Seq<CommitView>|
            is_index_on_path(path, target@, *timezone, index as int)),
{
    if str_eq(anchor_commit.id.as_str(), target.id.as_str()) {
        return Ok(0);
    }
    let commits = git.ancestry_path_commits(anchor_commit.id.as_str(), target.id.as_str())?;
    let found = commit_index_on_day(commits.as_slice(), target, timezone);
    proof {
        if found is Ok {
            assert(is_index_on_path(commits.deep_view(), target@, *timezone, found->Ok_0 as int));
        }
    }
    found
}

/// Whether `index` is the commit index of `target` on the ancestry path
/// `path`.
pub open spec fn is_index_on_path(
    path: Seq<CommitView>,
    target: CommitView,
    timezone: TimezonePolicy,
    index: int,
) -> bool {
    let day = day_number(target.timestamp, timezone.offset());
    let commits = commits_of_day(path, timezone, day);
    let found = first_with_id(commits, target.id, 0);
    &&& timezone.covers(target.timestamp)
    &&& 0 <= found < commits.len()
    &&& index == found + 1
}

/// What a resolution works from once its request is read.
#[derive(Debug)]
pub struct MarkPlan {
    /// The timezone policy that the configuration spells.
    pub timezone: TimezonePolicy,
    /// The commit to resolve.
    pub target: CommitInfo,
    /// The suffix of the coordinate.
    pub metadata: Option<String>,
    /// Whether only local tags are consulted.
    pub local_only: bool,
}

/// What the caller does next for a mark resolution.
#[derive(Debug)]
pub enum MarkStep {
    /// Read the entry `key` of the mark namespace, and resume with what
    /// was found.
    Lookup { key: String, plan: MarkPlan },
    /// The resolution is done. Where `store_key` is given, the result is
    /// to be stored under it in the mark namespace.
    Done { result: MarkResult, store_key: Option<String> },
}

/// Whether `plan` is a plan under `config` for a resolution with the
/// suffix `metadata`, whatever target the backend resolved: its timezone
/// is the one the configuration spells, and suffix and `local_only` are
/// the given ones.
pub open spec fn is_plan_with(
    plan: MarkPlan,
    config: &TideConfig,
    local_only: bool,
    metadata: Option<Seq<char>>,
) -> bool {
    &&& TimezonePolicy::is_spelling(config.time.timezone@)
    &&& TimezonePolicy::spelled(config.time.timezone@, plan.timezone)
    &&& opt_text(plan.metadata) == metadata
    &&& plan.local_only == local_only
}

/// Whether `plan` is what `req` asks for under `config`, given the
/// target commit that the backend resolved: a plan with the suffix that
/// the request's and the configured one come to.
pub open spec fn is_plan_of(plan: MarkPlan, config: &TideConfig, req: MarkRequest) -> bool {
    is_plan_with(
        plan,
        config,
        req.local_only,
        normalized_suffix(opt_text(req.metadata_suffix), opt_text(config.output.metadata_suffix)),
    )
}

/// The key of the mark cache entry of `plan`.
pub open spec fn mark_key_of(plan: MarkPlan, config: &TideConfig) -> Seq<char> {
    cache_key(
        "mark"@,
        mark_payload(plan.target.id@, plan.local_only, config, opt_text(plan.metadata)),
    )
}

/// Whether `anchor` is a virtual root anchor: its own commit under the
/// name `(none)`, with ordinal 0.
pub open spec fn is_virtual_anchor(anchor: AnchorView) -> bool {
    anchor == virtual_anchor_view(anchor.anchor_commit, anchor.distance)
}

/// Whether `anchor` may anchor a resolution under `config`: the release
/// index was loaded, with `status` for what became of the refresh, and
/// the anchor is the selection among its releases, or the virtual root
/// anchor.
pub open spec fn is_anchor_under(
    anchor: AnchorView,
    status: RemoteLoadStatus,
    config: &TideConfig,
    local_only: bool,
) -> bool {
    exists|local: Seq<TagView>, remote: Seq<TagView>, releases: Seq<ReleaseView>|
        {
            &&& #[trigger] is_loaded_from(local, remote, config, local_only, releases, status)
            &&& is_selected_from(releases, anchor) || is_virtual_anchor(anchor)
        }
}

/// Whether `day_delta` and `commit_index` are the second and third slot
/// of the coordinate of `target` measured from `anchor_commit`: both 0
/// where the anchor is the target; else the whole days between the two
/// dates, which are not negative, and the position of the target among
/// the commits of its day on some ancestry path.
pub open spec fn are_slots_of(
    anchor_commit: CommitView,
    target: CommitView,
    timezone: TimezonePolicy,
    day_delta: int,
    commit_index: int,
) -> bool {
    if anchor_commit.id == target.id {
        day_delta == 0 && commit_index == 0
    } else {
        &&& timezone.covers(anchor_commit.timestamp)
        &&& timezone.covers(target.timestamp)
        &&& day_delta == day_number(target.timestamp, timezone.offset()) - day_number(
            anchor_commit.timestamp,
            timezone.offset(),
        )
        &&& 0 <= day_delta
        &&& exists|path: Seq<CommitView>| is_index_on_path(path, target, timezone, commit_index)
    }
}

/// Whether `result` is the resolution of `plan` from `anchor`, with
/// `status` for the refresh and `branch` checked out.
pub open spec fn is_resolution_from(
    result: MarkView,
    anchor: AnchorView,
    status: RemoteLoadStatus,
    branch: Option<Seq<char>>,
    plan: MarkPlan,
    config: &TideConfig,
) -> bool {
    &&& is_anchor_under(anchor, status, config, plan.local_only)
    &&& are_slots_of(
        anchor.anchor_commit,
        plan.target@,
        plan.timezone,
        result.explain.day_delta,
        result.explain.commit_index,
    )
    &&& result == mark_view_of(
        anchor,
        plan.target@,
        result.explain.day_delta,
        result.explain.commit_index,
        opt_text(plan.metadata),
        plan.timezone.name(),
        status,
        branch,
    )
}

/// Whether `result` is put together from an anchor that may anchor a
/// resolution under `config`, from the slots of the target measured from
/// that anchor, and from the plan's target, suffix and timezone.
pub open spec fn is_anchored_resolution(result: MarkView, plan: MarkPlan, config: &TideConfig) -> bool {
    exists|anchor: AnchorView, status: RemoteLoadStatus, branch: Option<Seq<char>>|
        is_resolution_from(result, anchor, status, branch, plan, config)
}

/// What the backend answered in the course of a resolution: the two tag
/// listings, what it found about each release and whether an anchor came
/// of it, the root commit and its distance to the target, the ancestry
/// path, the branch, and what became of the refresh.
pub struct Answers {
    pub local: Seq<TagView>,
    pub remote: Seq<TagView>,
    pub probes: Seq<ProbeView>,
    pub anchored: bool,
    pub root: CommitView,
    pub root_distance: int,
    pub path: Seq<CommitView>,
    pub branch: Option<Seq<char>>,
    pub status: RemoteLoadStatus,
}

/// Whether `day_delta` and `commit_index` are the second and third slot
/// of the coordinate of `target` measured from `anchor_commit`, with
/// `path` for the ancestry path between them.
pub open spec fn are_slots_on(
    anchor_commit: CommitView,
    target: CommitView,
    timezone: TimezonePolicy,
    path: Seq<CommitView>,
    day_delta: int,
    commit_index: int,
) -> bool {
    if anchor_commit.id == target.id {
        day_delta == 0 && commit_index == 0
    } else {
        &&& timezone.covers(anchor_commit.timestamp)
        &&& timezone.covers(target.timestamp)
        &&& day_delta == day_number(target.timestamp, timezone.offset()) - day_number(
            anchor_commit.timestamp,
            timezone.offset(),
        )
        &&& 0 <= day_delta
        &&& is_index_on_path(path, target, timezone, commit_index)
    }
}

/// Whether `anchor` is the anchor that the answers give, with `releases`
/// for the release index of the two listings: the selection among the
/// releases where an anchor came of the answers, and the virtual root
/// anchor where none did.
pub open spec fn is_anchor_for(
    anchor: AnchorView,
    releases: Seq<ReleaseView>,
    answers: Answers,
    config: &TideConfig,
    local_only: bool,
) -> bool {
    &&& is_loaded_from(
        answers.local,
        answers.remote,
        config,
        local_only,
        releases,
        answers.status,
    )
    &&& if answers.anchored {
        is_selection_of(releases, answers.probes, anchor)
    } else {
        anchor == virtual_anchor_view(answers.root, answers.root_distance)
    }
}

/// Whether `result` is the resolution of `plan` that the answers give:
/// the release index of the listings, the anchor that came of the
/// answers, the slots of the target measured from it along the path, and
/// the plan's target, suffix and timezone.
pub open spec fn is_resolution_for(
    result: MarkView,
    answers: Answers,
    plan: MarkPlan,
    config: &TideConfig,
) -> bool {
    exists|releases: Seq<ReleaseView>, anchor: AnchorView|
        {
            &&& #[trigger] is_anchor_for(anchor, releases, answers, config, plan.local_only)
            &&& are_slots_on(
                anchor.anchor_commit,
                plan.target@,
                plan.timezone,
                answers.path,
                result.explain.day_delta,
                result.explain.commit_index,
            )
            &&& result == mark_view_of(
                anchor,
                plan.target@,
                result.explain.day_delta,
                result.explain.commit_index,
                opt_text(plan.metadata),
                plan.timezone.name(),
                answers.status,
                answers.branch,
            )
        }
}

/// Whether `result` is a resolution of `plan`, whatever the backend
/// answered: it is the resolution that some answers give.
pub open spec fn is_resolution_of(result: MarkView, plan: MarkPlan, config: &TideConfig) -> bool {
    exists|answers: Answers| is_resolution_for(result, answers, plan, config)
}

/// A resolution is determined by its plan and by what the backend
/// answered: two results that the same answers give for the same plan
/// are equal. Two runs on the same answers agree, and an entry of the
/// cache agrees with a computation on the same answers.
pub proof fn lemma_resolution_is_determined_by_the_answers(
    first: MarkView,
    second: MarkView,
    answers: Answers,
    plan: MarkPlan,
    config: &TideConfig,
)
    requires
        is_resolution_for(first, answers, plan, config),
        is_resolution_for(second, answers, plan, config),
    ensures
        first == second,
{
    let (r1, a1) = choose|releases: Seq<ReleaseView>, anchor: AnchorView|
        {
            &&& #[trigger] is_anchor_for(anchor, releases, answers, config, plan.local_only)
            &&& are_slots_on(
                anchor.anchor_commit,
                plan.target@,
                plan.timezone,
                answers.path,
                first.explain.day_delta,
                first.explain.commit_index,
            )
            &&& first == mark_view_of(
                anchor,
                plan.target@,
                first.explain.day_delta,
                first.explain.commit_index,
                opt_text(plan.metadata),
                plan.timezone.name(),
                answers.status,
                answers.branch,
            )
        };
    let (r2, a2) = choose|releases: Seq<ReleaseView>, anchor: AnchorView|
        {
            &&& #[trigger] is_anchor_for(anchor, releases, answers, config, plan.local_only)
            &&& are_slots_on(
                anchor.anchor_commit,
                plan.target@,
                plan.timezone,
                answers.path,
                second.explain.day_delta,
                second.explain.commit_index,
            )
            &&& second == mark_view_of(
                anchor,
                plan.target@,
                second.explain.day_delta,
                second.explain.commit_index,
                opt_text(plan.metadata),
                plan.timezone.name(),
                answers.status,
                answers.branch,
            )
        };
    lemma_release_index_unique(
        tags_by_name(answers.local + answers.remote),
        config.release.tag_prefix@,
        config.release.require_annotated_tags,
        r1,
        r2,
    );
    if answers.anchored {
        lemma_selection_unique(r1, answers.probes, a1, a2);
    }
    assert(a1 == a2);
    assert(first.explain.day_delta == second.explain.day_delta);
    assert(first.explain.commit_index == second.explain.commit_index);
}

/// Anchor ancestry of what the answers give. Where an anchor came of
/// the answers, the anchor commit that the result names is the commit
/// that the backend resolved for a release of which it answered that its
/// commit exists and is the target or an ancestor of it. Where none came
/// of them, the result has 0 for its first slot, names `(none)` for its
/// anchor tag, and its anchor commit is the root commit that the backend
/// answered.
pub proof fn lemma_anchor_of_the_answers(
    result: MarkView,
    answers: Answers,
    plan: MarkPlan,
    config: &TideConfig,
)
    requires
        is_resolution_for(result, answers, plan, config),
    ensures
        result.explain.target_commit == plan.target@,
        answers.anchored ==> exists|k: int|
            {
                &&& 0 <= k < answers.probes.len()
                &&& (#[trigger] answers.probes[k]).exists
                &&& answers.probes[k].is_ancestor == Some(true)
                &&& answers.probes[k].measured matches Some((_, commit))
                &&& commit == result.explain.anchor_commit
            },
        !answers.anchored ==> {
            &&& result.coordinate.x == 0
            &&& result.explain.anchor_tag == "(none)"@
            &&& result.explain.anchor_commit == answers.root
        },
{
    let (releases, anchor) = choose|releases: Seq<ReleaseView>, anchor: AnchorView|
        {
            &&& #[trigger] is_anchor_for(anchor, releases, answers, config, plan.local_only)
            &&& are_slots_on(
                anchor.anchor_commit,
                plan.target@,
                plan.timezone,
                answers.path,
                result.explain.day_delta,
                result.explain.commit_index,
            )
            &&& result == mark_view_of(
                anchor,
                plan.target@,
                result.explain.day_delta,
                result.explain.commit_index,
                opt_text(plan.metadata),
                plan.timezone.name(),
                answers.status,
                answers.branch,
            )
        };
    if answers.anchored {
        lemma_selection_is_an_ancestor(releases, answers.probes, anchor);
        let k = choose|k: int|
            {
                &&& 0 <= k < releases.len()
                &&& #[trigger] releases[k] == anchor.release
                &&& answers.probes[k].exists
                &&& answers.probes[k].is_ancestor == Some(true)
                &&& answers.probes[k].measured == Some((anchor.distance, anchor.anchor_commit))
            };
        assert(answers.probes[k].exists);
    }
}

/// A resolution is put together from an anchor that may anchor a
/// resolution under its configuration.
pub proof fn lemma_resolution_has_an_anchor(result: MarkView, plan: MarkPlan, config: &TideConfig)
    requires
        is_resolution_of(result, plan, config),
    ensures
        is_anchored_resolution(result, plan, config),
{
    let answers = choose|answers: Answers| is_resolution_for(result, answers, plan, config);
    let (releases, anchor) = choose|releases: Seq<ReleaseView>, anchor: AnchorView|
        {
            &&& #[trigger] is_anchor_for(anchor, releases, answers, config, plan.local_only)
            &&& are_slots_on(
                anchor.anchor_commit,
                plan.target@,
                plan.timezone,
                answers.path,
                result.explain.day_delta,
                result.explain.commit_index,
            )
            &&& result == mark_view_of(
                anchor,
                plan.target@,
                result.explain.day_delta,
                result.explain.commit_index,
                opt_text(plan.metadata),
                plan.timezone.name(),
                answers.status,
                answers.branch,
            )
        };
    if answers.anchored {
        assert(is_selected_from(releases, anchor));
    } else {
        assert(is_virtual_anchor(anchor));
    }
    assert(is_anchor_under(anchor, answers.status, config, plan.local_only));
    assert(is_resolution_from(result, anchor, answers.status, answers.branch, plan, config));
}

/// In a resolution the coordinate and the explanation agree, and target,
/// suffix and timezone are those of the plan.
pub proof fn lemma_resolution_repeats_plan(result: MarkView, plan: MarkPlan, config: &TideConfig)
    requires
        is_resolution_of(result, plan, config),
    ensures
        result.coordinate == result.explain.version,
        result.coordinate.y == result.explain.day_delta,
        result.coordinate.z == result.explain.commit_index,
        result.coordinate.metadata == opt_text(plan.metadata),
        result.explain.target_commit == plan.target@,
        result.explain.timezone == plan.timezone.name(),
{
    lemma_resolution_has_an_anchor(result, plan, config);
}

/// The day delta of a resolution is never negative. Where the anchor is
/// the target, day delta and commit index are both 0; where it is not,
/// the commit index is at least 1.
pub proof fn lemma_resolution_slots(result: MarkView, plan: MarkPlan, config: &TideConfig)
    requires
        is_resolution_of(result, plan, config),
    ensures
        result.explain.day_delta >= 0,
        result.explain.anchor_commit.id == result.explain.target_commit.id ==> {
            &&& result.explain.day_delta == 0
            &&& result.explain.commit_index == 0
        },
        result.explain.anchor_commit.id != result.explain.target_commit.id
            ==> result.explain.commit_index >= 1,
{
    lemma_resolution_has_an_anchor(result, plan, config);
}

/// What a resolution says of the refresh is what was done: no attempt
/// exactly where the resolution does not refresh the remote, and a
/// fallback only where the configuration allows it.
pub proof fn lemma_resolution_status(result: MarkView, plan: MarkPlan, config: &TideConfig)
    requires
        is_resolution_of(result, plan, config),
    ensures
        (result.explain.remote_status == RemoteLoadStatus::NotAttempted) == !refreshes_remote(
            config,
            plan.local_only,
        ),
        result.explain.remote_status == RemoteLoadStatus::FallbackLocal
            ==> config.remote.fallback_to_local,
{
    lemma_resolution_has_an_anchor(result, plan, config);
}

/// Ordinal 0 is kept for the virtual root anchor: a resolution whose
/// first slot is 0 names `(none)` as its anchor tag, and every other
/// anchor is a release with an ordinal of at least 1.
pub proof fn lemma_ordinal_zero_is_virtual(result: MarkView, plan: MarkPlan, config: &TideConfig)
    requires
        is_resolution_of(result, plan, config),
    ensures
        result.coordinate.x >= 0,
        result.coordinate.x == 0 ==> result.explain.anchor_tag == "(none)"@,
{
    lemma_resolution_has_an_anchor(result, plan, config);
    let (anchor, status, branch) = choose|
        anchor: AnchorView,
        status: RemoteLoadStatus,
        branch: Option<Seq<char>>,
    | is_resolution_from(result, anchor, status, branch, plan, config);
    let (local, remote, releases) = choose|
        local: Seq<TagView>,
        remote: Seq<TagView>,
        releases: Seq<ReleaseView>,
    |
        {
            &&& #[trigger] is_loaded_from(
                local,
                remote,
                config,
                plan.local_only,
                releases,
                status,
            )
            &&& is_selected_from(releases, anchor) || is_virtual_anchor(anchor)
        };
    if is_selected_from(releases, anchor) {
        lemma_selected_ordinal_positive(
            tags_by_name(local + remote),
            config.release.tag_prefix@,
            config.release.require_annotated_tags,
            releases,
            anchor,
        );
    }
}

/// Whether release `k` of `releases` is the anchor that `result` names,
/// and was found by the backend to be the target or an ancestor of it.
pub open spec fn is_probed_anchor(
    releases: Seq<ReleaseView>,
    probes: Seq<ProbeView>,
    k: int,
    result: MarkView,
) -> bool {
    &&& probes.len() == releases.len()
    &&& 0 <= k < releases.len()
    &&& releases[k].anchor_value == result.coordinate.x
    &&& releases[k].tag.name == result.explain.anchor_tag
    &&& probes[k].exists
    &&& probes[k].is_ancestor == Some(true)
    &&& probes[k].measured matches Some((_, commit))
    &&& commit == result.explain.anchor_commit
}

/// Anchor ancestry of a resolution, as far as the backend's answers go:
/// where the anchor is a release, which is where the first slot is not 0,
/// it is a release whose commit the backend found to be the target or an
/// ancestor of it, and the anchor commit that the result names is the one
/// the backend resolved for that release.
pub proof fn lemma_release_anchor_is_an_ancestor(
    result: MarkView,
    plan: MarkPlan,
    config: &TideConfig,
)
    requires
        is_resolution_of(result, plan, config),
        result.coordinate.x != 0,
    ensures
        exists|releases: Seq<ReleaseView>, probes: Seq<ProbeView>, k: int|
            is_probed_anchor(releases, probes, k, result),
{
    lemma_resolution_has_an_anchor(result, plan, config);
    let (anchor, status, branch) = choose|
        anchor: AnchorView,
        status: RemoteLoadStatus,
        branch: Option<Seq<char>>,
    | is_resolution_from(result, anchor, status, branch, plan, config);
    let (local, remote, releases) = choose|
        local: Seq<TagView>,
        remote: Seq<TagView>,
        releases: Seq<ReleaseView>,
    |
        {
            &&& #[trigger] is_loaded_from(
                local,
                remote,
                config,
                plan.local_only,
                releases,
                status,
            )
            &&& is_selected_from(releases, anchor) || is_virtual_anchor(anchor)
        };
    let probes = choose|probes: Seq<ProbeView>| is_selection_of(releases, probes, anchor);
    lemma_selection_is_an_ancestor(releases, probes, anchor);
    let k = choose|k: int|
        {
            &&& 0 <= k < releases.len()
            &&& #[trigger] releases[k] == anchor.release
            &&& probes[k].exists
            &&& probes[k].is_ancestor == Some(true)
            &&& probes[k].measured == Some((anchor.distance, anchor.anchor_commit))
        };
    assert(is_probed_anchor(releases, probes, k, result));
}

/// Plans a resolution whose suffix is settled: the timezone of the
/// configuration, the target commit as the backend resolves it, and the
/// suffix as it is given. A timezone that is not spelled right fails
/// before the backend is asked anything.
pub fn plan_mark_with_suffix(
    git: &dyn GitProvider,
    config: &TideConfig,
    target_rev: Option<String>,
    local_only: bool,
    metadata: Option<String>,
) -> (r: TideResult<MarkPlan>)
    ensures
        r matches Ok(plan) ==> is_plan_with(plan, config, local_only, opt_text(metadata)),
        !TimezonePolicy::is_spelling(config.time.timezone@) ==> {
            &&& r matches Err(TideError::InvalidTimezone { value })
            &&& value@ == config.time.timezone@
        },
{
    let timezone = TimezonePolicy::parse(config.time.timezone.as_str())?;
    let resolved = match &target_rev {
        Some(rev) => git.resolve_commit(rev.as_str()),
        None => git.head_commit(),
    };
    let target = resolved?;
    Ok(MarkPlan { timezone, target, metadata, local_only })
}

/// Reads a request: the timezone of the configuration, the target commit
/// as the backend resolves it, and the suffix that the request's and the
/// configured one come to. A timezone that is not spelled right fails
/// before the backend is asked anything.
pub fn plan_mark(git: &dyn GitProvider, config: &TideConfig, req: MarkRequest) -> (r: TideResult<
    MarkPlan,
>)
    ensures
        r matches Ok(plan) ==> is_plan_of(plan, config, req),
        !TimezonePolicy::is_spelling(config.time.timezone@) ==> {
            &&& r matches Err(TideError::InvalidTimezone { value })
            &&& value@ == config.time.timezone@
        },
{
    let local_only = req.local_only;
    let metadata = normalize_metadata_suffix(req.metadata_suffix, &config.output.metadata_suffix);
    plan_mark_with_suffix(git, config, req.target_rev, local_only, metadata)
}

/// The anchor of a resolution once the selection among the releases is
/// known. A selection stands. `NoReleaseAnchor` is recovered from with the
/// virtual root anchor, made from the backend's root commit and its
/// distance to the target. Any other failure stays what it is.
pub fn anchor_or_root(
    git: &dyn GitProvider,
    selection: TideResult<AnchorSelection>,
    target: &CommitInfo,
) -> (r: TideResult<AnchorSelection>)
    ensures
        match selection {
            Ok(chosen) => r matches Ok(same) && same == chosen,
            Err(TideError::NoReleaseAnchor { .. }) => r matches Ok(anchor) ==> is_virtual_anchor(
                anchor@,
            ),
            Err(other) => r matches Err(same) && same == other,
        },
{
    match selection {
        Ok(chosen) => Ok(chosen),
        Err(TideError::NoReleaseAnchor { .. }) => {
            let root = git.root_commit()?;
            let distance = git.commit_distance(root.id.as_str(), target.id.as_str())?;
            Ok(virtual_anchor(root, distance))
        },
        Err(other) => Err(other),
    }
}

/// A release of a release index that was selected has an ordinal of at
/// least 1.
pub proof fn lemma_selected_ordinal_positive(
    by_name: Map<Seq<char>, TagView>,
    prefix: Seq<char>,
    require_annotated: bool,
    releases: Seq<ReleaseView>,
    chosen: AnchorView,
)
    requires
        is_release_index(by_name, prefix, require_annotated, releases),
        is_selected_from(releases, chosen),
    ensures
        chosen.release.anchor_value >= 1,
{
    let probes = choose|probes: Seq<ProbeView>| is_selection_of(releases, probes, chosen);
    lemma_selection_is_an_ancestor(releases, probes, chosen);
    let k = choose|k: int|
        {
            &&& 0 <= k < releases.len()
            &&& #[trigger] releases[k] == chosen.release
            &&& probes[k].exists
            &&& probes[k].is_ancestor == Some(true)
            &&& probes[k].measured == Some((chosen.distance, chosen.anchor_commit))
        };
    assert(releases[k].anchor_value == k + 1);
}

/// Computes the result of `plan` from the repository: the release index,
/// the anchor (the virtual root anchor where no release qualifies), the
/// day delta, the commit index, and the branch for the explanation.
pub fn compute_mark(git: &dyn GitProvider, config: &TideConfig, plan: &MarkPlan) -> (r: TideResult<
    MarkResult,
>)
    ensures
        r matches Ok(result) ==> is_resolution_of(result@, *plan, config),
{
    let (releases, remote_status) = load_release_tags(git, config, plan.local_only)?;
    let listed = releases.as_slice();
    let selection = select_anchor(git, listed, &plan.target, config.release.tag_prefix.as_str());
    let ghost index = releases.deep_view();
    let ghost was_selected = selection is Ok;
    proof {
        assert(listed.deep_view() == index);
    }
    let anchor = anchor_or_root(git, selection, &plan.target)?;
    let ghost anchor_view = anchor@;
    let day_delta = anchored_day_delta(&plan.timezone, &anchor.anchor_commit, &plan.target)?;
    let commit_index = resolve_commit_index(
        git,
        &plan.timezone,
        &anchor.anchor_commit,
        &plan.target,
    )?;
    let branch = git.current_branch()?;
    let ghost branch_view = opt_text(branch);
    let result = assemble_mark(
        anchor,
        plan.target.clone(),
        day_delta,
        commit_index,
        clone_opt_string(&plan.metadata),
        plan.timezone.canonical_name(),
        remote_status,
        branch,
    );
    proof {
        let (local, remote) = choose|local: Seq<TagView>, remote: Seq<TagView>|
            is_loaded_from(local, remote, config, plan.local_only, index, remote_status);
        let probes = if was_selected {
            choose|probes: Seq<ProbeView>| is_selection_of(index, probes, anchor_view)
        } else {
            Seq::empty()
        };
        let path = if anchor_view.anchor_commit.id != plan.target@.id {
            choose|path: Seq<CommitView>|
                is_index_on_path(path, plan.target@, plan.timezone, commit_index as int)
        } else {
            Seq::empty()
        };
        let answers = Answers {
            local,
            remote,
            probes,
            anchored: was_selected,
            root: anchor_view.anchor_commit,
            root_distance: anchor_view.distance,
            path,
            branch: branch_view,
            status: remote_status,
        };
        assert(is_anchor_for(anchor_view, index, answers, config, plan.local_only));
        assert(are_slots_on(
            anchor_view.anchor_commit,
            plan.target@,
            plan.timezone,
            path,
            day_delta as int,
            commit_index as int,
        ));
        assert(is_resolution_for(result@, answers, *plan, config));
    }
    Ok(result)
}

/// Whether `step` is the first step of the resolution of `plan`: a
/// lookup under the key of the plan, where the resolution does not
/// refresh the remote and the cache is enabled; else the result, which is
/// not stored.
pub open spec fn is_first_step_of(
    step: MarkStep,
    plan: MarkPlan,
    config: &TideConfig,
    cache: &CacheStore,
) -> bool {
    match step {
        MarkStep::Lookup { key, plan: kept } => {
            &&& !refreshes_remote(config, plan.local_only)
            &&& cache.enabled_view()
            &&& kept == plan
            &&& key@ == mark_key_of(plan, config)
        },
        MarkStep::Done { result, store_key } => {
            &&& refreshes_remote(config, plan.local_only) || !cache.enabled_view()
            &&& store_key is None
            &&& is_resolution_of(result@, plan, config)
        },
    }
}

/// Takes the first step of the resolution of `plan`. A resolution that
/// refreshes the remote stays clear of the cache and is computed at once,
/// as is any resolution while the cache is disabled; neither is stored.
/// Any other resolution derives its cache key and asks for the entry to be
/// looked up, which asks nothing of the backend and does not fail.
pub fn start_mark(git: &dyn GitProvider, config: &TideConfig, cache: &CacheStore, plan: MarkPlan) -> (r:
    TideResult<MarkStep>)
    ensures
        r matches Ok(step) ==> is_first_step_of(step, plan, config, cache),
        !refreshes_remote(config, plan.local_only) && cache.enabled_view() ==> r is Ok,
{
    if !requires_remote_refresh(config, plan.local_only) {
        let payload = mark_cache_payload(
            plan.target.id.as_str(),
            plan.local_only,
            config,
            &plan.metadata,
        )?;
        let key = CacheStore::key_from_serializable(MARK_CACHE_NAMESPACE, payload.as_str());
        if cache.is_enabled() {
            return Ok(MarkStep::Lookup { key, plan });
        }
    }
    let result = compute_mark(git, config, &plan)?;
    Ok(MarkStep::Done { result, store_key: None })
}

/// Starts a mark resolution whose suffix is settled: the suffix is taken
/// as it is given, and the configured one is not looked at.
pub fn resolve_mark_with_suffix(
    git: &dyn GitProvider,
    config: &TideConfig,
    cache: &CacheStore,
    target_rev: Option<String>,
    local_only: bool,
    metadata: Option<String>,
) -> (r: TideResult<MarkStep>)
    ensures
        r matches Ok(step) ==> exists|plan: MarkPlan|
            is_plan_with(plan, config, local_only, opt_text(metadata)) && #[trigger] is_first_step_of(
                step,
                plan,
                config,
                cache,
            ),
        !TimezonePolicy::is_spelling(config.time.timezone@) ==> {
            &&& r matches Err(TideError::InvalidTimezone { value })
            &&& value@ == config.time.timezone@
        },
{
    let plan = plan_mark_with_suffix(git, config, target_rev, local_only, metadata)?;
    let started = start_mark(git, config, cache, plan);
    proof {
        if started is Ok {
            assert(is_first_step_of(started->Ok_0, plan, config, cache));
        }
    }
    started
}

/// Starts a mark resolution. The request is read first. A resolution
/// that refreshes the remote stays clear of the cache and is computed at
/// once, as is any resolution while the cache is disabled; neither is
/// stored. Any other resolution derives its cache key and asks for the
/// entry to be looked up.
pub fn resolve_mark(
    git: &dyn GitProvider,
    config: &TideConfig,
    cache: &CacheStore,
    req: MarkRequest,
) -> (r: TideResult<MarkStep>)
    ensures
        match r {
            Ok(MarkStep::Lookup { key, plan }) => {
                &&& !refreshes_remote(config, req.local_only)
                &&& cache.enabled_view()
                &&& is_plan_of(plan, config, req)
                &&& key@ == mark_key_of(plan, config)
            },
            Ok(MarkStep::Done { result, store_key }) => {
                &&& refreshes_remote(config, req.local_only) || !cache.enabled_view()
                &&& store_key is None
                &&& exists|plan: MarkPlan|
                    is_plan_of(plan, config, req) && #[trigger] is_resolution_of(
                        result@,
                        plan,
                        config,
                    )
            },
            Err(_) => true,
        },
        !TimezonePolicy::is_spelling(config.time.timezone@) ==> {
            &&& r matches Err(TideError::InvalidTimezone { value })
            &&& value@ == config.time.timezone@
        },
{
    let plan = plan_mark(git, config, req)?;
    let started = start_mark(git, config, cache, plan);
    proof {
        if started is Ok {
            assert(is_first_step_of(started->Ok_0, plan, config, cache));
            if started->Ok_0 is Done {
                assert(is_resolution_of(started->Ok_0->result@, plan, config));
            }
        }
    }
    started
}

/// Resumes a mark resolution with what the lookup of `key` found. An
/// entry that was found is the result, and is not stored again. Without
/// one the result is computed and is to be stored under `key`.
pub fn resume_mark(
    git: &dyn GitProvider,
    config: &TideConfig,
    plan: MarkPlan,
    key: String,
    cached: Option<MarkResult>,
) -> (r: TideResult<(MarkResult, Option<String>)>)
    ensures
        match cached {
            Some(hit) => r matches Ok((result, store_key)) && result == hit && store_key is None,
            None => r matches Ok((result, store_key)) ==> {
                &&& store_key == Some(key)
                &&& is_resolution_of(result@, plan, config)
            },
        },
{
    match cached {
        Some(hit) => Ok((hit, None)),
        None => {
            let result = compute_mark(git, config, &plan)?;
            Ok((result, Some(key)))
        },
    }
}

} // verus!
