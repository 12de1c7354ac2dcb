//! The data of a resolution: commits, tags, anchors, coordinates and the
//! record that explains a result. Each type has a view that holds its text
//! as `Seq<char>` and its numbers as `int`; contracts speak of the views.

use vstd::prelude::*;
use vstd::string::*;

use crate::domain::text::{decimal, u32_to_string, u64_to_string};

verus! {

/// The view of an optional string.
pub open spec fn opt_text(o: Option<String>) -> Option<Seq<char>> {
    match o {
        Some(s) => Some(s@),
        None => None,
    }
}

/// A copy of an optional string.
pub fn clone_opt_string(o: &Option<String>) -> (r: Option<String>)
    ensures
        r == *o,
        opt_text(r) == opt_text(*o),
{
    match o {
        Some(s) => Some(s.clone()),
        None => None,
    }
}

/// A commit: its hash and its committer time in seconds since the epoch.
#[derive(Debug, PartialEq, Eq)]
pub struct CommitInfo {
    pub id: String,
    pub timestamp: i64,
}

pub struct CommitView {
    pub id: Seq<char>,
    pub timestamp: int,
}

impl View for CommitInfo {
    type V = CommitView;

    open spec fn view(&self) -> CommitView {
        CommitView { id: self.id@, timestamp: self.timestamp as int }
    }
}

impl DeepView for CommitInfo {
    type V = CommitView;

    open spec fn deep_view(&self) -> CommitView {
        self@
    }
}

impl Clone for CommitInfo {
    fn clone(&self) -> (r: Self)
        ensures
            r@ == self@,
    {
        CommitInfo { id: self.id.clone(), timestamp: self.timestamp }
    }
}

/// Where a tag was read from.
#[derive(Debug, Clone, Copy, PartialEq, Eq, Structural)]
pub enum TagSource {
    Local,
    Remote,
}

impl TagSource {
    /// The word printed for the source.
    pub open spec fn label_view(self) -> Seq<char> {
        match self {
            TagSource::Local => "local"@,
            TagSource::Remote => "remote"@,
        }
    }

    /// The word printed for the source.
    pub fn label(&self) -> (s: &'static str)
        ensures
            s@ == self.label_view(),
    {
        match self {
            TagSource::Local => "local",
            TagSource::Remote => "remote",
        }
    }
}

/// A tag by name, with the commit it points at once peeled.
#[derive(Debug, PartialEq, Eq)]
pub struct TagRef {
    pub name: String,
    pub commit_id: String,
    pub is_annotated: bool,
    pub source: TagSource,
}

pub struct TagView {
    pub name: Seq<char>,
    pub commit_id: Seq<char>,
    pub is_annotated: bool,
    pub source: TagSource,
}

impl View for TagRef {
    type V = TagView;

    open spec fn view(&self) -> TagView {
        TagView {
            name: self.name@,
            commit_id: self.commit_id@,
            is_annotated: self.is_annotated,
            source: self.source,
        }
    }
}

impl DeepView for TagRef {
    type V = TagView;

    open spec fn deep_view(&self) -> TagView {
        self@
    }
}

impl Clone for TagRef {
    fn clone(&self) -> (r: Self)
        ensures
            r@ == self@,
    {
        TagRef {
            name: self.name.clone(),
            commit_id: self.commit_id.clone(),
            is_annotated: self.is_annotated,
            source: self.source,
        }
    }
}

/// A release: a tag with its ordinal among the eligible tags. The ordinal
/// is a position, never a number read from the tag's name; 0 is kept for
/// the virtual root anchor.
#[derive(Debug, PartialEq, Eq)]
pub struct ReleaseTag {
    pub anchor_value: u64,
    pub tag: TagRef,
}

pub struct ReleaseView {
    pub anchor_value: int,
    pub tag: TagView,
}

impl View for ReleaseTag {
    type V = ReleaseView;

    open spec fn view(&self) -> ReleaseView {
        ReleaseView { anchor_value: self.anchor_value as int, tag: self.tag@ }
    }
}

impl DeepView for ReleaseTag {
    type V = ReleaseView;

    open spec fn deep_view(&self) -> ReleaseView {
        self@
    }
}

impl Clone for ReleaseTag {
    fn clone(&self) -> (r: Self)
        ensures
            r@ == self@,
    {
        ReleaseTag { anchor_value: self.anchor_value, tag: self.tag.clone() }
    }
}

/// What became of the remote refresh.
#[derive(Debug, Clone, Copy, PartialEq, Eq, Structural)]
pub enum RemoteLoadStatus {
    NotAttempted,
    UsedRemote,
    FallbackLocal,
}

impl RemoteLoadStatus {
    /// The word printed for the status.
    pub open spec fn label_view(self) -> Seq<char> {
        match self {
            RemoteLoadStatus::NotAttempted => "not-attempted"@,
            RemoteLoadStatus::UsedRemote => "used-remote"@,
            RemoteLoadStatus::FallbackLocal => "fallback-local"@,
        }
    }

    /// The word printed for the status.
    pub fn label(&self) -> (s: &'static str)
        ensures
            s@ == self.label_view(),
    {
        match self {
            RemoteLoadStatus::NotAttempted => "not-attempted",
            RemoteLoadStatus::UsedRemote => "used-remote",
            RemoteLoadStatus::FallbackLocal => "fallback-local",
        }
    }
}

/// The release a target is measured from, with the number of commits
/// after it up to the target.
#[derive(Debug, PartialEq, Eq)]
pub struct AnchorSelection {
    pub release: ReleaseTag,
    pub distance: u32,
    pub anchor_commit: CommitInfo,
}

pub struct AnchorView {
    pub release: ReleaseView,
    pub distance: int,
    pub anchor_commit: CommitView,
}

impl View for AnchorSelection {
    type V = AnchorView;

    open spec fn view(&self) -> AnchorView {
        AnchorView {
            release: self.release@,
            distance: self.distance as int,
            anchor_commit: self.anchor_commit@,
        }
    }
}

impl DeepView for AnchorSelection {
    type V = AnchorView;

    open spec fn deep_view(&self) -> AnchorView {
        self@
    }
}

impl Clone for AnchorSelection {
    fn clone(&self) -> (r: Self)
        ensures
            r@ == self@,
    {
        AnchorSelection {
            release: self.release.clone(),
            distance: self.distance,
            anchor_commit: self.anchor_commit.clone(),
        }
    }
}

/// A version coordinate `x.y.z`, with an optional suffix.
#[derive(Debug, PartialEq, Eq)]
pub struct VersionCoordinate {
    pub x: u64,
    pub y: u32,
    pub z: u32,
    pub metadata: Option<String>,
}

pub struct CoordinateView {
    pub x: int,
    pub y: int,
    pub z: int,
    pub metadata: Option<Seq<char>>,
}

impl CoordinateView {
    /// The string form: `x.y.z`, or `x.y.z.<suffix>` where the suffix is
    /// not empty.
    pub open spec fn text(self) -> Seq<char>
        recommends
            self.x >= 0,
            self.y >= 0,
            self.z >= 0,
    {
        let base = decimal(self.x as nat) + seq!['.'] + decimal(self.y as nat) + seq!['.']
            + decimal(self.z as nat);
        match self.metadata {
            Some(suffix) => if suffix.len() > 0 {
                base + seq!['.'] + suffix
            } else {
                base
            },
            None => base,
        }
    }
}

impl View for VersionCoordinate {
    type V = CoordinateView;

    open spec fn view(&self) -> CoordinateView {
        CoordinateView {
            x: self.x as int,
            y: self.y as int,
            z: self.z as int,
            metadata: opt_text(self.metadata),
        }
    }
}

impl Clone for VersionCoordinate {
    fn clone(&self) -> (r: Self)
        ensures
            r@ == self@,
    {
        VersionCoordinate {
            x: self.x,
            y: self.y,
            z: self.z,
            metadata: clone_opt_string(&self.metadata),
        }
    }
}

impl VersionCoordinate {
    /// The string form of the coordinate.
    pub fn to_text(&self) -> (out: String)
        ensures
            out@ == self@.text(),
    {
        proof {
            reveal_strlit(".");
        }
        let mut out = u64_to_string(self.x);
        out.append(".");
        out.append(u32_to_string(self.y).as_str());
        out.append(".");
        out.append(u32_to_string(self.z).as_str());
        match &self.metadata {
            Some(suffix) => {
                if suffix.as_str().unicode_len() > 0 {
                    out.append(".");
                    out.append(suffix.as_str());
                }
            },
            None => {},
        }
        assert("."@ == seq!['.']);
        out
    }
}

/// How a coordinate came about.
#[derive(Debug, PartialEq, Eq)]
pub struct MarkExplain {
    pub version: VersionCoordinate,
    pub target_commit: CommitInfo,
    pub anchor_tag: String,
    pub anchor_commit: CommitInfo,
    pub day_delta: u32,
    pub commit_index: u32,
    pub timezone: String,
    pub remote_status: RemoteLoadStatus,
    pub branch: Option<String>,
}

pub struct ExplainView {
    pub version: CoordinateView,
    pub target_commit: CommitView,
    pub anchor_tag: Seq<char>,
    pub anchor_commit: CommitView,
    pub day_delta: int,
    pub commit_index: int,
    pub timezone: Seq<char>,
    pub remote_status: RemoteLoadStatus,
    pub branch: Option<Seq<char>>,
}

impl View for MarkExplain {
    type V = ExplainView;

    open spec fn view(&self) -> ExplainView {
        ExplainView {
            version: self.version@,
            target_commit: self.target_commit@,
            anchor_tag: self.anchor_tag@,
            anchor_commit: self.anchor_commit@,
            day_delta: self.day_delta as int,
            commit_index: self.commit_index as int,
            timezone: self.timezone@,
            remote_status: self.remote_status,
            branch: opt_text(self.branch),
        }
    }
}

impl Clone for MarkExplain {
    fn clone(&self) -> (r: Self)
        ensures
            r@ == self@,
    {
        MarkExplain {
            version: self.version.clone(),
            target_commit: self.target_commit.clone(),
            anchor_tag: self.anchor_tag.clone(),
            anchor_commit: self.anchor_commit.clone(),
            day_delta: self.day_delta,
            commit_index: self.commit_index,
            timezone: self.timezone.clone(),
            remote_status: self.remote_status,
            branch: clone_opt_string(&self.branch),
        }
    }
}

/// A resolved coordinate with its explanation.
#[derive(Debug, PartialEq, Eq)]
pub struct MarkResult {
    pub coordinate: VersionCoordinate,
    pub explain: MarkExplain,
}

pub struct MarkView {
    pub coordinate: CoordinateView,
    pub explain: ExplainView,
}

impl View for MarkResult {
    type V = MarkView;

    open spec fn view(&self) -> MarkView {
        MarkView { coordinate: self.coordinate@, explain: self.explain@ }
    }
}

impl Clone for MarkResult {
    fn clone(&self) -> (r: Self)
        ensures
            r@ == self@,
    {
        MarkResult { coordinate: self.coordinate.clone(), explain: self.explain.clone() }
    }
}

/// The coordinate of the commit that last changed a file.
#[derive(Debug, PartialEq, Eq)]
pub struct FileResult {
    pub path: String,
    pub last_commit: CommitInfo,
    pub mark: MarkResult,
}

pub struct FileView {
    pub path: Seq<char>,
    pub last_commit: CommitView,
    pub mark: MarkView,
}

impl View for FileResult {
    type V = FileView;

    open spec fn view(&self) -> FileView {
        FileView { path: self.path@, last_commit: self.last_commit@, mark: self.mark@ }
    }
}

impl Clone for FileResult {
    fn clone(&self) -> (r: Self)
        ensures
            r@ == self@,
    {
        FileResult {
            path: self.path.clone(),
            last_commit: self.last_commit.clone(),
            mark: self.mark.clone(),
        }
    }
}

} // verus!
