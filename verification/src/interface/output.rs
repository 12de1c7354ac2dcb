//! The text forms of results: script-safe lines, each ended by a newline,
//! the same for the same result.

use vstd::prelude::*;
use vstd::string::*;

use crate::domain::model::{
    ExplainView, FileResult, MarkResult, MarkView, ReleaseTag, ReleaseView,
};
use crate::domain::text::{decimal, i64_to_string, signed_decimal, u32_to_string, u64_to_string};
use crate::ops::service::ServicePlan;

verus! {

/// The branch as it is printed: its name, or `detached`.
pub open spec fn branch_text(branch: Option<Seq<char>>) -> Seq<char> {
    match branch {
        Some(name) => name,
        None => "detached"@,
    }
}

/// The explanation of a result: one `key=value` line for each of
/// `version`, `anchor_tag`, `anchor_commit`, `anchor_timestamp`,
/// `target_commit`, `target_timestamp`, `day_delta`, `commit_index`,
/// `timezone`, `branch` and `remote_status`, in this order.
pub open spec fn explain_text(e: ExplainView) -> Seq<char> {
    "version="@ + e.version.text() + "\n"@ + "anchor_tag="@ + e.anchor_tag + "\n"@
        + "anchor_commit="@ + e.anchor_commit.id + "\n"@ + "anchor_timestamp="@ + signed_decimal(
        e.anchor_commit.timestamp,
    ) + "\n"@ + "target_commit="@ + e.target_commit.id + "\n"@ + "target_timestamp="@
        + signed_decimal(e.target_commit.timestamp) + "\n"@ + "day_delta="@ + decimal(
        e.day_delta as nat,
    ) + "\n"@ + "commit_index="@ + decimal(e.commit_index as nat) + "\n"@ + "timezone="@
        + e.timezone + "\n"@ + "branch="@ + branch_text(e.branch) + "\n"@ + "remote_status="@
        + e.remote_status.label_view() + "\n"@
}

/// The text of a mark: the coordinate on a line of its own, or the
/// explanation.
pub open spec fn mark_text(mark: MarkView, explain: bool) -> Seq<char> {
    if explain {
        explain_text(mark.explain)
    } else {
        mark.coordinate.text() + "\n"@
    }
}

/// The text of a mark: the coordinate on a line of its own, or, where
/// `explain` is set, the explanation as `key=value` lines.
pub fn format_mark(mark: &MarkResult, explain: bool) -> (out: String)
    ensures
        out@ == mark_text(mark@, explain),
{
    if !explain {
        let mut out = mark.coordinate.to_text();
        out.append("\n");
        return out;
    }
    let e = &mark.explain;
    let mut out = String::from_str("version=");
    out.append(e.version.to_text().as_str());
    out.append("\n");
    out.append("anchor_tag=");
    out.append(e.anchor_tag.as_str());
    out.append("\n");
    out.append("anchor_commit=");
    out.append(e.anchor_commit.id.as_str());
    out.append("\n");
    out.append("anchor_timestamp=");
    out.append(i64_to_string(e.anchor_commit.timestamp).as_str());
    out.append("\n");
    out.append("target_commit=");
    out.append(e.target_commit.id.as_str());
    out.append("\n");
    out.append("target_timestamp=");
    out.append(i64_to_string(e.target_commit.timestamp).as_str());
    out.append("\n");
    out.append("day_delta=");
    out.append(u32_to_string(e.day_delta).as_str());
    out.append("\n");
    out.append("commit_index=");
    out.append(u32_to_string(e.commit_index).as_str());
    out.append("\n");
    out.append("timezone=");
    out.append(e.timezone.as_str());
    out.append("\n");
    out.append("branch=");
    match &e.branch {
        Some(name) => out.append(name.as_str()),
        None => out.append("detached"),
    }
    out.append("\n");
    out.append("remote_status=");
    out.append(e.remote_status.label());
    out.append("\n");
    out
}

/// The text of a file result: the coordinate of its mark on a line of
/// its own.
pub fn format_file(file: &FileResult) -> (out: String)
    ensures
        out@ == file@.mark.coordinate.text() + "\n"@,
{
    let mut out = file.mark.coordinate.to_text();
    out.append("\n");
    out
}

/// The word for the kind of a tag.
pub open spec fn kind_text(is_annotated: bool) -> Seq<char> {
    if is_annotated {
        "annotated"@
    } else {
        "lightweight"@
    }
}

/// The row of a release: name, ordinal, commit id, kind and source, with
/// tabs between.
pub open spec fn release_row(r: ReleaseView) -> Seq<char> {
    r.tag.name + "\t"@ + decimal(r.anchor_value as nat) + "\t"@ + r.tag.commit_id + "\t"@
        + kind_text(r.tag.is_annotated) + "\t"@ + r.tag.source.label_view()
}

/// The rows of the releases, each ended by a newline; nothing for no
/// releases.
pub open spec fn release_list_text(releases: Seq<ReleaseView>) -> Seq<char>
    decreases releases.len(),
{
    if releases.len() == 0 {
        Seq::empty()
    } else {
        release_list_text(releases.drop_last()) + release_row(releases.last()) + "\n"@
    }
}

fn format_release_row(release: &ReleaseTag) -> (row: String)
    ensures
        row@ == release_row(release@),
{
    let mut row = release.tag.name.clone();
    row.append("\t");
    row.append(u64_to_string(release.anchor_value).as_str());
    row.append("\t");
    row.append(release.tag.commit_id.as_str());
    row.append("\t");
    row.append(
        if release.tag.is_annotated {
            "annotated"
        } else {
            "lightweight"
        },
    );
    row.append("\t");
    row.append(release.tag.source.label());
    row
}

/// The release list: one tab-separated row for each release, in the
/// order given.
pub fn format_release_list(releases: &[ReleaseTag]) -> (out: String)
    ensures
        out@ == release_list_text(releases.deep_view()),
{
    let ghost views = releases.deep_view();
    let mut out = String::new();
    let mut i: usize = 0;
    while i < releases.len()
        invariant
            i <= releases.len(),
            views == releases.deep_view(),
            out@ == release_list_text(views.take(i as int)),
        decreases releases.len() - i,
    {
        let row = format_release_row(&releases[i]);
        proof {
            assert(views.take(i + 1).drop_last() == views.take(i as int));
            assert(views.take(i + 1).last() == releases@[i as int]@);
        }
        out.append(row.as_str());
        out.append("\n");
        i += 1;
    }
    assert(views.take(releases.len() as int) == views);
    out
}

/// The lines that name a unit and its two files.
pub open spec fn service_files_text(plan: ServicePlan) -> Seq<char> {
    "unit_name="@ + plan.unit_name@ + "\n"@ + "service_file="@ + plan.service_file@ + "\n"@
        + "timer_file="@ + plan.timer_file@ + "\n"@
}

/// The lines that name a unit and its two files.
pub fn format_service_files(plan: &ServicePlan) -> (out: String)
    ensures
        out@ == service_files_text(*plan),
{
    let mut out = String::from_str("unit_name=");
    out.append(plan.unit_name.as_str());
    out.append("\n");
    out.append("service_file=");
    out.append(plan.service_file.as_str());
    out.append("\n");
    out.append("timer_file=");
    out.append(plan.timer_file.as_str());
    out.append("\n");
    out
}

/// The text of a plan: the lines that name the unit and its files, then
/// the text of the service unit and of the timer unit, each under a line
/// that marks it.
pub open spec fn service_plan_text(plan: ServicePlan) -> Seq<char> {
    service_files_text(plan) + "---service---\n"@ + plan.service_content@ + "---timer---\n"@
        + plan.timer_content@
}

/// The text of a plan, as it is printed without installing anything.
pub fn format_service_plan(plan: &ServicePlan) -> (out: String)
    ensures
        out@ == service_plan_text(*plan),
{
    let mut out = format_service_files(plan);
    out.append("---service---\n");
    out.append(plan.service_content.as_str());
    out.append("---timer---\n");
    out.append(plan.timer_content.as_str());
    out
}

} // verus!
