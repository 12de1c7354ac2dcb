//! Release tags: the sort key of a tag name, the merge of local and remote
//! tags into the ordered release index, and the choice of the anchor.

use std::cmp::Ordering;
use vstd::prelude::*;
use vstd::string::*;

use crate::config::{RemoteStrategy, TideConfig};
use crate::domain::model::{
    AnchorSelection, AnchorView, CommitInfo, CommitView, ReleaseTag, ReleaseView,
    RemoteLoadStatus, TagRef, TagView,
};
use crate::domain::text::{
    chars_of, decimal_value, find_char, find_in, has_prefix, is_digit, lemma_decimal_value_monotone,
    lemma_decimal_value_step, lemma_lex_asymmetric, lemma_lex_connected, lemma_lex_irreflexive,
    lemma_lex_transitive, lex_less, str_eq, str_less,
};
use crate::error::{TideError, TideResult};
use crate::infra::git::GitProvider;

verus! {

/// The first position in `s[from..to]` that holds no digit, or `to`.
pub open spec fn digit_run_end(s: Seq<char>, from: int, to: int) -> int
    decreases to - from,
{
    if 0 <= from < to <= s.len() && is_digit(s[from]) {
        digit_run_end(s, from + 1, to)
    } else {
        from
    }
}

/// The number that `s[from..to]` starts with: its leading run of digits
/// read as a decimal number. `None` where it starts with no digit, or
/// where the number does not fit in 64 bits.
pub open spec fn leading_number(s: Seq<char>, from: int, to: int) -> Option<nat> {
    let end = digit_run_end(s, from, to);
    if end == from {
        None
    } else {
        let value = decimal_value(s.subrange(from, end));
        if value <= u64::MAX {
            Some(value)
        } else {
            None
        }
    }
}

/// The number that `s[from..to]` starts with, or 0.
pub open spec fn leading_number_or_zero(s: Seq<char>, from: int, to: int) -> nat {
    match leading_number(s, from, to) {
        Some(n) => n,
        None => 0,
    }
}

/// The sort key `(major, minor, patch)` of a tag name. What follows the
/// prefix is split at its first two dots into up to three segments; each
/// slot is the number its segment starts with, or 0 where the segment is
/// missing or starts with no number. `None` where the name lacks the
/// prefix or the first segment starts with no number.
#[verifier::opaque]
pub open spec fn sort_key(name: Seq<char>, prefix: Seq<char>) -> Option<(nat, nat, nat)> {
    if !prefix.is_prefix_of(name) {
        None
    } else {
        let start = prefix.len() as int;
        let first_dot = find_char(name, '.', start);
        match leading_number(name, start, first_dot) {
            None => None,
            Some(major) => if first_dot >= name.len() {
                Some((major, 0, 0))
            } else {
                let second_dot = find_char(name, '.', first_dot + 1);
                let minor = leading_number_or_zero(name, first_dot + 1, second_dot);
                if second_dot >= name.len() {
                    Some((major, minor, 0))
                } else {
                    Some(
                        (
                            major,
                            minor,
                            leading_number_or_zero(name, second_dot + 1, name.len() as int),
                        ),
                    )
                }
            },
        }
    }
}

fn read_leading_number(s: &Vec<char>, from: usize, to: usize) -> (r: Option<u64>)
    requires
        from <= to <= s.len(),
    ensures
        match r {
            Some(n) => leading_number(s@, from as int, to as int) == Some(n as nat),
            None => leading_number(s@, from as int, to as int) is None,
        },
{
    let mut at: usize = from;
    let mut value: u64 = 0;
    let mut fits: bool = true;
    while at < to && '0' <= s[at] && s[at] <= '9'
        invariant
            from <= at <= to <= s.len(),
            digit_run_end(s@, from as int, to as int) == digit_run_end(s@, at as int, to as int),
            forall|i: int| from <= i < at ==> is_digit(s@[i]),
            fits ==> value == decimal_value(s@.subrange(from as int, at as int)),
            !fits ==> decimal_value(s@.subrange(from as int, at as int)) > u64::MAX,
        decreases to - at,
    {
        let digit: u64 = (s[at] as u32 - 48) as u64;
        proof {
            lemma_decimal_value_step(s@, from as int, at as int);
        }
        if fits {
            match value.checked_mul(10) {
                Some(shifted) => match shifted.checked_add(digit) {
                    Some(next) => {
                        value = next;
                    },
                    None => {
                        fits = false;
                    },
                },
                None => {
                    fits = false;
                },
            }
        } else {
            proof {
                lemma_decimal_value_monotone(s@, from as int, at as int, at + 1);
            }
        }
        at += 1;
    }
    if at == from || !fits {
        None
    } else {
        Some(value)
    }
}

fn invalid_release_tag(tag_name: &str, prefix: &str) -> (e: TideError)
    ensures
        e matches TideError::InvalidReleaseTag { tag, prefix: p } && tag@ == tag_name@ && p@
            == prefix@,
{
    TideError::InvalidReleaseTag {
        tag: String::from_str(tag_name),
        prefix: String::from_str(prefix),
    }
}

/// The sort key of a tag name: `v1` gives `(1, 0, 0)`, `v0.1.0` gives
/// `(0, 1, 0)`. A name without the prefix, or with no number right after
/// it, is an `InvalidReleaseTag` that carries the name and the prefix.
pub fn parse_sort_key(tag_name: &str, prefix: &str) -> (r: TideResult<(u64, u64, u64)>)
    ensures
        match r {
            Ok(key) => sort_key(tag_name@, prefix@) == Some(
                (key.0 as nat, key.1 as nat, key.2 as nat),
            ),
            Err(e) => {
                &&& sort_key(tag_name@, prefix@) is None
                &&& e matches TideError::InvalidReleaseTag { tag, prefix: p }
                &&& tag@ == tag_name@
                &&& p@ == prefix@
            },
        },
{
    reveal(sort_key);
    let name = chars_of(tag_name);
    let lead = chars_of(prefix);
    if !has_prefix(&name, &lead) {
        return Err(invalid_release_tag(tag_name, prefix));
    }
    let start = lead.len();
    let first_dot = find_in(&name, '.', start);
    let major = match read_leading_number(&name, start, first_dot) {
        Some(n) => n,
        None => {
            return Err(invalid_release_tag(tag_name, prefix));
        },
    };
    if first_dot >= name.len() {
        return Ok((major, 0, 0));
    }
    let second_dot = find_in(&name, '.', first_dot + 1);
    let minor = match read_leading_number(&name, first_dot + 1, second_dot) {
        Some(n) => n,
        None => 0,
    };
    if second_dot >= name.len() {
        return Ok((major, minor, 0));
    }
    let patch = match read_leading_number(&name, second_dot + 1, name.len()) {
        Some(n) => n,
        None => 0,
    };
    Ok((major, minor, patch))
}

/// Tags by name: a later tag of the list takes the place of an earlier one
/// of the same name.
pub open spec fn tags_by_name(tags: Seq<TagView>) -> Map<Seq<char>, TagView>
    decreases tags.len(),
{
    if tags.len() == 0 {
        Map::empty()
    } else {
        tags_by_name(tags.drop_last()).insert(tags.last().name, tags.last())
    }
}

/// Strict lexicographic order on sort keys.
pub open spec fn key_less(a: (nat, nat, nat), b: (nat, nat, nat)) -> bool {
    a.0 < b.0 || (a.0 == b.0 && (a.1 < b.1 || (a.1 == b.1 && a.2 < b.2)))
}

/// Whether the tag named `a` stands before the tag named `b` in the
/// release index: by sort key, and by name where the keys are equal.
pub open spec fn release_before(a: Seq<char>, b: Seq<char>, prefix: Seq<char>) -> bool {
    match (sort_key(a, prefix), sort_key(b, prefix)) {
        (Some(ka), Some(kb)) => key_less(ka, kb) || (ka == kb && lex_less(a, b)),
        _ => false,
    }
}

/// Whether a tag may be a release: any tag, or only an annotated one.
pub open spec fn is_eligible(tag: TagView, require_annotated: bool) -> bool {
    !require_annotated || tag.is_annotated
}

/// Whether `releases` is the release index of the merged tags `by_name`:
/// it holds each eligible tag once, as the merge defines it, in the order
/// of `release_before`, and the ordinal of each is its 1-based position.
pub open spec fn is_release_index(
    by_name: Map<Seq<char>, TagView>,
    prefix: Seq<char>,
    require_annotated: bool,
    releases: Seq<ReleaseView>,
) -> bool {
    &&& forall|i: int|
        0 <= i < releases.len() ==> {
            let r = #[trigger] releases[i];
            &&& r.anchor_value == i + 1
            &&& by_name.contains_key(r.tag.name)
            &&& by_name[r.tag.name] == r.tag
            &&& is_eligible(r.tag, require_annotated)
            &&& sort_key(r.tag.name, prefix) is Some
        }
    &&& forall|name: Seq<char>|
        #[trigger] by_name.contains_key(name) && is_eligible(by_name[name], require_annotated)
            ==> exists|i: int| 0 <= i < releases.len() && (#[trigger] releases[i]).tag.name == name
    &&& forall|i: int, j: int|
        0 <= i < j < releases.len() ==> release_before(
            (#[trigger] releases[i]).tag.name,
            (#[trigger] releases[j]).tag.name,
            prefix,
        )
}

/// Whether `name` is the eligible tag that stops the index from being
/// built: it has no sort key, and no eligible tag without a sort key has a
/// name that sorts before it.
pub open spec fn is_first_invalid(
    by_name: Map<Seq<char>, TagView>,
    prefix: Seq<char>,
    require_annotated: bool,
    name: Seq<char>,
) -> bool {
    &&& by_name.contains_key(name)
    &&& is_eligible(by_name[name], require_annotated)
    &&& sort_key(name, prefix) is None
    &&& forall|other: Seq<char>|
        #[trigger] by_name.contains_key(other) && is_eligible(by_name[other], require_annotated)
            && sort_key(other, prefix) is None ==> !lex_less(other, name)
}

/// `merged` holds the tags of `by_name`, one per name, in name order.
spec fn represents(merged: Seq<TagRef>, by_name: Map<Seq<char>, TagView>) -> bool {
    &&& forall|i: int, j: int|
        #![trigger merged[i], merged[j]]
        0 <= i < j < merged.len() ==> lex_less(merged[i].name@, merged[j].name@)
    &&& forall|i: int|
        #![trigger merged[i]]
        0 <= i < merged.len() ==> by_name.contains_key(merged[i].name@) && by_name[merged[i].name@]
            == merged[i]@
    &&& forall|name: Seq<char>| #[trigger]
        by_name.contains_key(name) ==> exists|i: int|
            #![trigger merged[i]]
            0 <= i < merged.len() && merged[i].name@ == name
}

#[verifier::rlimit(40)]
fn insert_tag(merged: &mut Vec<TagRef>, tag: TagRef, Ghost(by_name): Ghost<Map<Seq<char>, TagView>>)
    requires
        represents(old(merged)@, by_name),
    ensures
        represents(final(merged)@, by_name.insert(tag.name@, tag@)),
{
    let ghost before = merged@;
    let ghost name = tag.name@;
    let ghost after_map = by_name.insert(tag.name@, tag@);
    let mut pos: usize = 0;
    while pos < merged.len() && str_less(merged[pos].name.as_str(), tag.name.as_str())
        invariant
            merged@ == before,
            name == tag.name@,
            pos <= merged.len(),
            forall|i: int| #![trigger before[i]] 0 <= i < pos ==> lex_less(before[i].name@, name),
        decreases merged.len() - pos,
    {
        pos += 1;
    }
    proof {
        assert forall|i: int| #![trigger before[i]] 0 <= i < pos implies before[i].name@
            != name by {
            lemma_lex_asymmetric(before[i].name@, name);
        }
    }
    if pos < merged.len() && str_eq(merged[pos].name.as_str(), tag.name.as_str()) {
        merged.set(pos, tag);
        proof {
            let now = merged@;
            assert forall|i: int, j: int|
                #![trigger now[i], now[j]]
                0 <= i < j < now.len() implies lex_less(now[i].name@, now[j].name@) by {
                assert(now[i].name@ == before[i].name@);
                assert(now[j].name@ == before[j].name@);
            }
            assert forall|i: int| #![trigger now[i]] 0 <= i < now.len() implies after_map.contains_key(
                now[i].name@,
            ) && after_map[now[i].name@] == now[i]@ by {
                if i != pos {
                    assert(now[i] == before[i]);
                    if i < pos {
                        assert(lex_less(before[i].name@, before[pos as int].name@));
                        lemma_lex_asymmetric(before[i].name@, before[pos as int].name@);
                    } else {
                        assert(lex_less(before[pos as int].name@, before[i].name@));
                        lemma_lex_asymmetric(before[pos as int].name@, before[i].name@);
                    }
                }
            }
            assert forall|n: Seq<char>| #[trigger] after_map.contains_key(n) implies exists|i: int|
                #![trigger now[i]]
                0 <= i < now.len() && now[i].name@ == n by {
                if n == name {
                    assert(now[pos as int].name@ == n);
                } else {
                    assert(by_name.contains_key(n));
                    let i = choose|i: int|
                        #![trigger before[i]]
                        0 <= i < before.len() && before[i].name@ == n;
                    assert(now[i].name@ == n);
                }
            }
        }
    } else {
        proof {
            if pos < before.len() {
                lemma_lex_connected(before[pos as int].name@, name);
            }
            assert forall|j: int| #![trigger before[j]] pos <= j < before.len() implies lex_less(
                name,
                before[j].name@,
            ) by {
                if j > pos {
                    assert(lex_less(before[pos as int].name@, before[j].name@));
                    lemma_lex_transitive(name, before[pos as int].name@, before[j].name@);
                }
            }
            assert forall|j: int| #![trigger before[j]] pos <= j < before.len() implies before[j].name@
                != name by {
                lemma_lex_asymmetric(name, before[j].name@);
            }
        }
        merged.insert(pos, tag);
        proof {
            let now = merged@;
            assert(now.len() == before.len() + 1);
            assert(forall|i: int| 0 <= i < pos ==> now[i] == before[i]);
            assert(forall|i: int| pos < i < now.len() ==> now[i] == before[i - 1]);
            assert forall|i: int, j: int|
                #![trigger now[i], now[j]]
                0 <= i < j < now.len() implies lex_less(now[i].name@, now[j].name@) by {
                if j < pos {
                    assert(lex_less(before[i].name@, before[j].name@));
                } else if j == pos {
                    assert(lex_less(before[i].name@, name));
                } else if i < pos {
                    assert(lex_less(before[i].name@, before[j - 1].name@));
                } else if i == pos {
                    assert(lex_less(name, before[j - 1].name@));
                } else {
                    assert(lex_less(before[i - 1].name@, before[j - 1].name@));
                }
            }
            assert forall|i: int| #![trigger now[i]] 0 <= i < now.len() implies after_map.contains_key(
                now[i].name@,
            ) && after_map[now[i].name@] == now[i]@ by {
                if i < pos {
                    assert(before[i].name@ != name);
                } else if i > pos {
                    assert(before[i - 1].name@ != name);
                }
            }
            assert forall|n: Seq<char>| #[trigger] after_map.contains_key(n) implies exists|i: int|
                #![trigger now[i]]
                0 <= i < now.len() && now[i].name@ == n by {
                if n == name {
                    assert(now[pos as int].name@ == n);
                } else {
                    assert(by_name.contains_key(n));
                    let i = choose|i: int|
                        #![trigger before[i]]
                        0 <= i < before.len() && before[i].name@ == n;
                    if i < pos {
                        assert(now[i].name@ == n);
                    } else {
                        assert(now[i + 1].name@ == n);
                    }
                }
            }
        }
    }
}

/// The tags of `local`, then those of `remote`, merged by name and put in
/// name order.
fn merge_tags(local: &Vec<TagRef>, remote: &Vec<TagRef>) -> (merged: Vec<TagRef>)
    ensures
        represents(merged@, tags_by_name(local.deep_view() + remote.deep_view())),
{
    let mut merged: Vec<TagRef> = Vec::new();
    let ghost locals = local.deep_view();
    let ghost remotes = remote.deep_view();
    let mut i: usize = 0;
    while i < local.len()
        invariant
            i <= local.len(),
            locals == local.deep_view(),
            represents(merged@, tags_by_name(locals.take(i as int))),
        decreases local.len() - i,
    {
        let tag = local[i].clone();
        proof {
            assert(locals.take(i + 1).drop_last() == locals.take(i as int));
            assert(locals.take(i + 1).last() == local[i as int]@);
        }
        insert_tag(&mut merged, tag, Ghost(tags_by_name(locals.take(i as int))));
        i += 1;
    }
    assert(locals.take(local.len() as int) == locals);
    assert(locals + remotes.take(0) == locals);
    let mut k: usize = 0;
    while k < remote.len()
        invariant
            k <= remote.len(),
            locals == local.deep_view(),
            remotes == remote.deep_view(),
            represents(merged@, tags_by_name(locals + remotes.take(k as int))),
        decreases remote.len() - k,
    {
        let tag = remote[k].clone();
        proof {
            assert((locals + remotes.take(k + 1)).drop_last() == locals + remotes.take(k as int));
            assert((locals + remotes.take(k + 1)).last() == remote[k as int]@);
        }
        insert_tag(&mut merged, tag, Ghost(tags_by_name(locals + remotes.take(k as int))));
        k += 1;
    }
    assert(remotes.take(remote.len() as int) == remotes);
    merged
}

/// The order of the release index is transitive.
pub proof fn lemma_release_order_transitive(
    a: Seq<char>,
    b: Seq<char>,
    c: Seq<char>,
    prefix: Seq<char>,
)
    requires
        release_before(a, b, prefix),
        release_before(b, c, prefix),
    ensures
        release_before(a, c, prefix),
{
    let ka = sort_key(a, prefix)->0;
    let kb = sort_key(b, prefix)->0;
    let kc = sort_key(c, prefix)->0;
    if ka == kb && kb == kc {
        lemma_lex_transitive(a, b, c);
    }
}

/// Of two different names with a sort key, one stands before the other.
pub proof fn lemma_release_order_connected(a: Seq<char>, b: Seq<char>, prefix: Seq<char>)
    requires
        sort_key(a, prefix) is Some,
        sort_key(b, prefix) is Some,
        a != b,
    ensures
        release_before(a, b, prefix) || release_before(b, a, prefix),
{
    lemma_lex_connected(a, b);
}

/// No name stands before itself, and no two names before each other.
pub proof fn lemma_release_order_asymmetric(a: Seq<char>, b: Seq<char>, prefix: Seq<char>)
    requires
        release_before(a, b, prefix),
    ensures
        !release_before(b, a, prefix),
        a != b,
{
    let ka = sort_key(a, prefix)->0;
    let kb = sort_key(b, prefix)->0;
    if ka == kb {
        lemma_lex_asymmetric(a, b);
    }
}

proof fn lemma_index_names_agree(
    by_name: Map<Seq<char>, TagView>,
    prefix: Seq<char>,
    require_annotated: bool,
    a: Seq<ReleaseView>,
    b: Seq<ReleaseView>,
    k: int,
)
    requires
        is_release_index(by_name, prefix, require_annotated, a),
        is_release_index(by_name, prefix, require_annotated, b),
        0 <= k <= a.len(),
        k <= b.len(),
    ensures
        forall|j: int| 0 <= j < k ==> (#[trigger] a[j]).tag.name == b[j].tag.name,
    decreases k,
{
    if k > 0 {
        lemma_index_names_agree(by_name, prefix, require_annotated, a, b, k - 1);
        let i = k - 1;
        let n = a[i].tag.name;
        assert(by_name.contains_key(n));
        let m = choose|m: int| 0 <= m < b.len() && (#[trigger] b[m]).tag.name == n;
        if m < i {
            assert(a[m].tag.name == b[m].tag.name);
            lemma_release_order_asymmetric(a[m].tag.name, a[i].tag.name, prefix);
        } else if m > i {
            let n2 = b[i].tag.name;
            assert(by_name.contains_key(n2));
            let m2 = choose|m2: int| 0 <= m2 < a.len() && (#[trigger] a[m2]).tag.name == n2;
            assert(release_before(b[i].tag.name, b[m].tag.name, prefix));
            lemma_release_order_asymmetric(n2, n, prefix);
            if m2 < i {
                assert(a[m2].tag.name == b[m2].tag.name);
                lemma_release_order_asymmetric(b[m2].tag.name, b[i].tag.name, prefix);
            } else if m2 > i {
                assert(release_before(a[i].tag.name, a[m2].tag.name, prefix));
            }
        }
    }
}

proof fn lemma_index_no_longer(
    by_name: Map<Seq<char>, TagView>,
    prefix: Seq<char>,
    require_annotated: bool,
    a: Seq<ReleaseView>,
    b: Seq<ReleaseView>,
)
    requires
        is_release_index(by_name, prefix, require_annotated, a),
        is_release_index(by_name, prefix, require_annotated, b),
    ensures
        a.len() <= b.len(),
{
    if a.len() > b.len() {
        let k = b.len() as int;
        lemma_index_names_agree(by_name, prefix, require_annotated, a, b, k);
        let n = a[k].tag.name;
        assert(by_name.contains_key(n));
        let m = choose|m: int| 0 <= m < b.len() && (#[trigger] b[m]).tag.name == n;
        assert(a[m].tag.name == b[m].tag.name);
        lemma_release_order_asymmetric(a[m].tag.name, a[k].tag.name, prefix);
    }
}

/// The release index is determined by the merged tags: two sequences that
/// are both the release index of the same tags are the same sequence.
pub proof fn lemma_release_index_unique(
    by_name: Map<Seq<char>, TagView>,
    prefix: Seq<char>,
    require_annotated: bool,
    a: Seq<ReleaseView>,
    b: Seq<ReleaseView>,
)
    requires
        is_release_index(by_name, prefix, require_annotated, a),
        is_release_index(by_name, prefix, require_annotated, b),
    ensures
        a == b,
{
    lemma_index_no_longer(by_name, prefix, require_annotated, a, b);
    lemma_index_no_longer(by_name, prefix, require_annotated, b, a);
    lemma_index_names_agree(by_name, prefix, require_annotated, a, b, a.len() as int);
    assert forall|i: int| 0 <= i < a.len() implies a[i] == b[i] by {
        assert(a[i].tag.name == b[i].tag.name);
        assert(a[i].tag == by_name[a[i].tag.name]);
        assert(b[i].tag == by_name[b[i].tag.name]);
        assert(a[i].anchor_value == b[i].anchor_value);
    }
    assert(a =~= b);
}

/// Ordinals are positions: in a release index the ordinal of a release is
/// its 1-based position, so it grows strictly along the order of the
/// index, and a release stands before another exactly where its ordinal
/// is the smaller one.
pub proof fn lemma_ordinals_follow_order(
    by_name: Map<Seq<char>, TagView>,
    prefix: Seq<char>,
    require_annotated: bool,
    releases: Seq<ReleaseView>,
    i: int,
    j: int,
)
    requires
        is_release_index(by_name, prefix, require_annotated, releases),
        0 <= i < releases.len(),
        0 <= j < releases.len(),
    ensures
        releases[i].anchor_value == i + 1,
        releases[i].anchor_value < releases[j].anchor_value <==> release_before(
            releases[i].tag.name,
            releases[j].tag.name,
            prefix,
        ),
{
    if i < j {
        assert(release_before(releases[i].tag.name, releases[j].tag.name, prefix));
    } else if j < i {
        assert(release_before(releases[j].tag.name, releases[i].tag.name, prefix));
        lemma_release_order_asymmetric(releases[j].tag.name, releases[i].tag.name, prefix);
    } else {
        if release_before(releases[i].tag.name, releases[j].tag.name, prefix) {
            lemma_release_order_asymmetric(releases[i].tag.name, releases[j].tag.name, prefix);
        }
    }
}

/// The definition of a name that no later tag of the list repeats is the
/// one the merge keeps.
pub proof fn lemma_last_definition_stands(tags: Seq<TagView>, k: int)
    requires
        0 <= k < tags.len(),
        forall|j: int| k < j < tags.len() ==> tags[j].name != tags[k].name,
    ensures
        tags_by_name(tags).contains_key(tags[k].name),
        tags_by_name(tags)[tags[k].name] == tags[k],
    decreases tags.len(),
{
    if k < tags.len() - 1 {
        let front = tags.drop_last();
        assert(front[k] == tags[k]);
        assert forall|j: int| k < j < front.len() implies front[j].name != front[k].name by {
            assert(front[j] == tags[j]);
        }
        lemma_last_definition_stands(front, k);
    }
}

/// Remote precedence: where the remote defines a name, the merge keeps
/// the remote's definition of it, whatever the local tags say.
pub proof fn lemma_remote_definition_wins(local: Seq<TagView>, remote: Seq<TagView>, k: int)
    requires
        0 <= k < remote.len(),
        forall|j: int| k < j < remote.len() ==> remote[j].name != remote[k].name,
    ensures
        tags_by_name(local + remote).contains_key(remote[k].name),
        tags_by_name(local + remote)[remote[k].name] == remote[k],
{
    let all = local + remote;
    let at = local.len() + k;
    assert(all[at] == remote[k]);
    assert forall|j: int| at < j < all.len() implies all[j].name != all[at].name by {
        assert(all[j] == remote[j - local.len()]);
    }
    lemma_last_definition_stands(all, at);
}

/// Without remote tags the merge is that of the local tags alone: a name
/// keeps the local definition.
pub proof fn lemma_local_definition_without_remote(local: Seq<TagView>, k: int)
    requires
        0 <= k < local.len(),
        forall|j: int| k < j < local.len() ==> local[j].name != local[k].name,
    ensures
        tags_by_name(local + Seq::<TagView>::empty()).contains_key(local[k].name),
        tags_by_name(local + Seq::<TagView>::empty())[local[k].name] == local[k],
{
    assert(local + Seq::<TagView>::empty() == local);
    lemma_last_definition_stands(local, k);
}

struct KeyedTag {
    key: (u64, u64, u64),
    tag: TagRef,
}

spec fn is_keyed(entry: KeyedTag, prefix: Seq<char>) -> bool {
    sort_key(entry.tag.name@, prefix) == Some(
        (entry.key.0 as nat, entry.key.1 as nat, entry.key.2 as nat),
    )
}

spec fn keyed_in_order(entries: Seq<KeyedTag>, prefix: Seq<char>) -> bool {
    &&& forall|i: int| #![trigger entries[i]] 0 <= i < entries.len() ==> is_keyed(entries[i], prefix)
    &&& forall|i: int, j: int|
        #![trigger entries[i], entries[j]]
        0 <= i < j < entries.len() ==> release_before(
            entries[i].tag.name@,
            entries[j].tag.name@,
            prefix,
        )
}

fn keyed_before(a: &KeyedTag, b: &KeyedTag, Ghost(prefix): Ghost<Seq<char>>) -> (r: bool)
    requires
        is_keyed(*a, prefix),
        is_keyed(*b, prefix),
    ensures
        r == release_before(a.tag.name@, b.tag.name@, prefix),
{
    if a.key.0 != b.key.0 {
        a.key.0 < b.key.0
    } else if a.key.1 != b.key.1 {
        a.key.1 < b.key.1
    } else if a.key.2 != b.key.2 {
        a.key.2 < b.key.2
    } else {
        str_less(a.tag.name.as_str(), b.tag.name.as_str())
    }
}

#[verifier::rlimit(40)]
fn insert_keyed(sorted: &mut Vec<KeyedTag>, entry: KeyedTag, Ghost(prefix): Ghost<Seq<char>>) -> (pos:
    usize)
    requires
        keyed_in_order(old(sorted)@, prefix),
        is_keyed(entry, prefix),
        forall|i: int|
            #![trigger old(sorted)@[i]]
            0 <= i < old(sorted)@.len() ==> old(sorted)@[i].tag.name@ != entry.tag.name@,
    ensures
        pos <= old(sorted)@.len(),
        final(sorted)@ == old(sorted)@.insert(pos as int, entry),
        keyed_in_order(final(sorted)@, prefix),
{
    let ghost before = sorted@;
    let ghost name = entry.tag.name@;
    let mut pos: usize = 0;
    while pos < sorted.len() && keyed_before(&sorted[pos], &entry, Ghost(prefix))
        invariant
            sorted@ == before,
            name == entry.tag.name@,
            is_keyed(entry, prefix),
            keyed_in_order(before, prefix),
            pos <= sorted.len(),
            forall|i: int|
                #![trigger before[i]]
                0 <= i < pos ==> release_before(before[i].tag.name@, name, prefix),
        decreases sorted.len() - pos,
    {
        pos += 1;
    }
    proof {
        if pos < before.len() {
            assert(is_keyed(before[pos as int], prefix));
            lemma_release_order_connected(before[pos as int].tag.name@, name, prefix);
        }
        assert forall|j: int| #![trigger before[j]] pos <= j < before.len() implies release_before(
            name,
            before[j].tag.name@,
            prefix,
        ) by {
            if j > pos {
                assert(release_before(before[pos as int].tag.name@, before[j].tag.name@, prefix));
                lemma_release_order_transitive(
                    name,
                    before[pos as int].tag.name@,
                    before[j].tag.name@,
                    prefix,
                );
            }
        }
    }
    sorted.insert(pos, entry);
    proof {
        let now = sorted@;
        assert(forall|i: int| 0 <= i < pos ==> now[i] == before[i]);
        assert(forall|i: int| pos < i < now.len() ==> now[i] == before[i - 1]);
        assert forall|i: int| #![trigger now[i]] 0 <= i < now.len() implies is_keyed(
            now[i],
            prefix,
        ) by {
            if i < pos {
                assert(is_keyed(before[i], prefix));
            } else if i > pos {
                assert(is_keyed(before[i - 1], prefix));
            }
        }
        assert forall|i: int, j: int|
            #![trigger now[i], now[j]]
            0 <= i < j < now.len() implies release_before(
            now[i].tag.name@,
            now[j].tag.name@,
            prefix,
        ) by {
            if j < pos {
                assert(release_before(before[i].tag.name@, before[j].tag.name@, prefix));
            } else if j == pos {
                assert(release_before(before[i].tag.name@, name, prefix));
            } else if i < pos {
                assert(release_before(before[i].tag.name@, before[j - 1].tag.name@, prefix));
            } else if i == pos {
                assert(release_before(name, before[j - 1].tag.name@, prefix));
            } else {
                assert(release_before(before[i - 1].tag.name@, before[j - 1].tag.name@, prefix));
            }
        }
    }
    pos
}

/// Every entry of `sorted` is an eligible tag among the first `upto` of
/// `merged`.
#[verifier::opaque]
spec fn drawn_from(
    sorted: Seq<KeyedTag>,
    merged: Seq<TagRef>,
    upto: int,
    require_annotated: bool,
) -> bool {
    forall|j: int|
        #![trigger sorted[j]]
        0 <= j < sorted.len() ==> exists|k: int|
            #![trigger merged[k]]
            0 <= k < upto && k < merged.len() && sorted[j].tag@ == merged[k]@ && is_eligible(
                merged[k]@,
                require_annotated,
            )
}

/// Every eligible tag among the first `upto` of `merged` has a sort key
/// and an entry in `sorted`.
#[verifier::opaque]
spec fn takes_in(
    sorted: Seq<KeyedTag>,
    merged: Seq<TagRef>,
    upto: int,
    require_annotated: bool,
    prefix: Seq<char>,
) -> bool {
    forall|k: int|
        #![trigger merged[k]]
        0 <= k < upto && k < merged.len() && is_eligible(merged[k]@, require_annotated) ==> sort_key(
            merged[k].name@,
            prefix,
        ) is Some && exists|j: int|
            #![trigger sorted[j]]
            0 <= j < sorted.len() && sorted[j].tag@ == merged[k]@
}

#[verifier::rlimit(40)]
proof fn lemma_entry_taken(
    before: Seq<KeyedTag>,
    now: Seq<KeyedTag>,
    pos: int,
    entry: KeyedTag,
    merged: Seq<TagRef>,
    i: int,
    require_annotated: bool,
    prefix: Seq<char>,
)
    requires
        0 <= pos <= before.len(),
        now == before.insert(pos, entry),
        0 <= i < merged.len(),
        entry.tag@ == merged[i]@,
        is_eligible(merged[i]@, require_annotated),
        is_keyed(entry, prefix),
        drawn_from(before, merged, i, require_annotated),
        takes_in(before, merged, i, require_annotated, prefix),
    ensures
        drawn_from(now, merged, i + 1, require_annotated),
        takes_in(now, merged, i + 1, require_annotated, prefix),
{
    reveal(drawn_from);
    reveal(takes_in);
    assert(forall|j: int| 0 <= j < pos ==> now[j] == before[j]);
    assert(forall|j: int| pos < j < now.len() ==> now[j] == before[j - 1]);
    assert forall|j: int| #![trigger now[j]] 0 <= j < now.len() implies exists|k: int|
        #![trigger merged[k]]
        0 <= k < i + 1 && k < merged.len() && now[j].tag@ == merged[k]@ && is_eligible(
            merged[k]@,
            require_annotated,
        ) by {
        if j == pos {
            assert(now[j].tag@ == merged[i]@);
        } else {
            let old_j = if j < pos {
                j
            } else {
                j - 1
            };
            assert(now[j] == before[old_j]);
            let k = choose|k: int|
                #![trigger merged[k]]
                0 <= k < i && k < merged.len() && before[old_j].tag@ == merged[k]@ && is_eligible(
                    merged[k]@,
                    require_annotated,
                );
            assert(now[j].tag@ == merged[k]@);
        }
    }
    assert forall|k: int|
        #![trigger merged[k]]
        0 <= k < i + 1 && k < merged.len() && is_eligible(
            merged[k]@,
            require_annotated,
        ) implies sort_key(merged[k].name@, prefix) is Some && exists|j: int|
        #![trigger now[j]]
        0 <= j < now.len() && now[j].tag@ == merged[k]@ by {
        if k == i {
            assert(now[pos].tag@ == merged[k]@);
        } else {
            let j = choose|j: int|
                #![trigger before[j]]
                0 <= j < before.len() && before[j].tag@ == merged[k]@;
            if j < pos {
                assert(now[j].tag@ == merged[k]@);
            } else {
                assert(now[j + 1].tag@ == merged[k]@);
            }
        }
    }
}

proof fn lemma_entry_is_new(
    sorted: Seq<KeyedTag>,
    merged: Seq<TagRef>,
    by_name: Map<Seq<char>, TagView>,
    i: int,
    require_annotated: bool,
)
    requires
        0 <= i < merged.len(),
        represents(merged, by_name),
        drawn_from(sorted, merged, i, require_annotated),
    ensures
        forall|j: int|
            #![trigger sorted[j]]
            0 <= j < sorted.len() ==> sorted[j].tag.name@ != merged[i].name@,
{
    reveal(drawn_from);
    assert forall|j: int| #![trigger sorted[j]] 0 <= j < sorted.len() implies sorted[j].tag.name@
        != merged[i].name@ by {
        let k = choose|k: int|
            #![trigger merged[k]]
            0 <= k < i && k < merged.len() && sorted[j].tag@ == merged[k]@ && is_eligible(
                merged[k]@,
                require_annotated,
            );
        assert(lex_less(merged[k].name@, merged[i].name@));
        lemma_lex_asymmetric(merged[k].name@, merged[i].name@);
    }
}

proof fn lemma_first_invalid(
    merged: Seq<TagRef>,
    by_name: Map<Seq<char>, TagView>,
    sorted: Seq<KeyedTag>,
    i: int,
    require_annotated: bool,
    prefix: Seq<char>,
)
    requires
        0 <= i < merged.len(),
        represents(merged, by_name),
        takes_in(sorted, merged, i, require_annotated, prefix),
        is_eligible(merged[i]@, require_annotated),
        sort_key(merged[i].name@, prefix) is None,
    ensures
        is_first_invalid(by_name, prefix, require_annotated, merged[i].name@),
{
    reveal(takes_in);
    let name = merged[i].name@;
    assert(by_name.contains_key(name) && by_name[name] == merged[i]@);
    assert forall|other: Seq<char>| #[trigger]
        by_name.contains_key(other) && is_eligible(by_name[other], require_annotated) && sort_key(
            other,
            prefix,
        ) is None implies !lex_less(other, name) by {
        let k = choose|k: int|
            #![trigger merged[k]]
            0 <= k < merged.len() && merged[k].name@ == other;
        assert(by_name[other] == merged[k]@);
        if k == i {
            lemma_lex_irreflexive(name);
        } else if k > i {
            assert(lex_less(merged[i].name@, merged[k].name@));
            lemma_lex_asymmetric(name, other);
        }
    }
}

proof fn lemma_nothing_taken(
    merged: Seq<TagRef>,
    require_annotated: bool,
    prefix: Seq<char>,
)
    ensures
        drawn_from(Seq::<KeyedTag>::empty(), merged, 0, require_annotated),
        takes_in(Seq::<KeyedTag>::empty(), merged, 0, require_annotated, prefix),
{
    reveal(drawn_from);
    reveal(takes_in);
}

proof fn lemma_entry_skipped(
    sorted: Seq<KeyedTag>,
    merged: Seq<TagRef>,
    i: int,
    require_annotated: bool,
    prefix: Seq<char>,
)
    requires
        0 <= i < merged.len(),
        !is_eligible(merged[i]@, require_annotated),
        drawn_from(sorted, merged, i, require_annotated),
        takes_in(sorted, merged, i, require_annotated, prefix),
    ensures
        drawn_from(sorted, merged, i + 1, require_annotated),
        takes_in(sorted, merged, i + 1, require_annotated, prefix),
{
    reveal(drawn_from);
    reveal(takes_in);
    assert forall|j: int| #![trigger sorted[j]] 0 <= j < sorted.len() implies exists|k: int|
        #![trigger merged[k]]
        0 <= k < i + 1 && k < merged.len() && sorted[j].tag@ == merged[k]@ && is_eligible(
            merged[k]@,
            require_annotated,
        ) by {
        let k = choose|k: int|
            #![trigger merged[k]]
            0 <= k < i && k < merged.len() && sorted[j].tag@ == merged[k]@ && is_eligible(
                merged[k]@,
                require_annotated,
            );
        assert(sorted[j].tag@ == merged[k]@);
    }
}

/// The eligible tags of `merged` with their sort keys, in index order.
#[verifier::rlimit(40)]
fn order_eligible(
    merged: &Vec<TagRef>,
    prefix: &str,
    require_annotated: bool,
    Ghost(by_name): Ghost<Map<Seq<char>, TagView>>,
) -> (r: TideResult<Vec<KeyedTag>>)
    requires
        represents(merged@, by_name),
    ensures
        match r {
            Ok(sorted) => {
                &&& keyed_in_order(sorted@, prefix@)
                &&& drawn_from(sorted@, merged@, merged@.len() as int, require_annotated)
                &&& takes_in(sorted@, merged@, merged@.len() as int, require_annotated, prefix@)
            },
            Err(e) => {
                &&& e matches TideError::InvalidReleaseTag { tag, prefix: p }
                &&& p@ == prefix@
                &&& is_first_invalid(by_name, prefix@, require_annotated, tag@)
            },
        },
{
    let mut sorted: Vec<KeyedTag> = Vec::new();
    let mut i: usize = 0;
    proof {
        lemma_nothing_taken(merged@, require_annotated, prefix@);
    }
    while i < merged.len()
        invariant
            i <= merged.len(),
            represents(merged@, by_name),
            keyed_in_order(sorted@, prefix@),
            drawn_from(sorted@, merged@, i as int, require_annotated),
            takes_in(sorted@, merged@, i as int, require_annotated, prefix@),
        decreases merged.len() - i,
    {
        let tag = &merged[i];
        if require_annotated && !tag.is_annotated {
            proof {
                lemma_entry_skipped(sorted@, merged@, i as int, require_annotated, prefix@);
            }
        } else {
            match parse_sort_key(tag.name.as_str(), prefix) {
                Ok(key) => {
                    let entry = KeyedTag { key, tag: tag.clone() };
                    let ghost before = sorted@;
                    proof {
                        lemma_entry_is_new(before, merged@, by_name, i as int, require_annotated);
                    }
                    let pos = insert_keyed(&mut sorted, entry, Ghost(prefix@));
                    proof {
                        lemma_entry_taken(
                            before,
                            sorted@,
                            pos as int,
                            entry,
                            merged@,
                            i as int,
                            require_annotated,
                            prefix@,
                        );
                    }
                },
                Err(e) => {
                    proof {
                        lemma_first_invalid(
                            merged@,
                            by_name,
                            sorted@,
                            i as int,
                            require_annotated,
                            prefix@,
                        );
                    }
                    return Err(e);
                },
            }
        }
        i += 1;
    }
    Ok(sorted)
}

proof fn lemma_index_complete(
    by_name: Map<Seq<char>, TagView>,
    merged: Seq<TagRef>,
    sorted: Seq<KeyedTag>,
    releases: Seq<ReleaseTag>,
    views: Seq<ReleaseView>,
    prefix: Seq<char>,
    require_annotated: bool,
)
    requires
        represents(merged, by_name),
        keyed_in_order(sorted, prefix),
        drawn_from(sorted, merged, merged.len() as int, require_annotated),
        takes_in(sorted, merged, merged.len() as int, require_annotated, prefix),
        releases.len() == sorted.len(),
        views.len() == releases.len(),
        forall|t: int| 0 <= t < views.len() ==> #[trigger] views[t] == releases[t]@,
        forall|t: int|
            #![trigger releases[t]]
            0 <= t < releases.len() ==> releases[t].anchor_value == t + 1 && releases[t].tag@
                == sorted[t].tag@,
    ensures
        is_release_index(by_name, prefix, require_annotated, views),
{
    reveal(drawn_from);
    reveal(takes_in);
    assert forall|t: int| 0 <= t < views.len() implies {
        let r = #[trigger] views[t];
        &&& r.anchor_value == t + 1
        &&& by_name.contains_key(r.tag.name)
        &&& by_name[r.tag.name] == r.tag
        &&& is_eligible(r.tag, require_annotated)
        &&& sort_key(r.tag.name, prefix) is Some
    } by {
        assert(views[t] == releases[t]@);
        assert(is_keyed(sorted[t], prefix));
        let k = choose|k: int|
            #![trigger merged[k]]
            0 <= k < merged.len() && k < merged.len() && sorted[t].tag@ == merged[k]@
                && is_eligible(merged[k]@, require_annotated);
        assert(by_name[merged[k].name@] == merged[k]@);
    }
    assert forall|name: Seq<char>| #[trigger]
        by_name.contains_key(name) && is_eligible(by_name[name], require_annotated) implies exists|
        t: int,
    |
        0 <= t < views.len() && (#[trigger] views[t]).tag.name == name by {
        let k = choose|k: int|
            #![trigger merged[k]]
            0 <= k < merged.len() && merged[k].name@ == name;
        assert(by_name[name] == merged[k]@);
        let t = choose|t: int|
            #![trigger sorted[t]]
            0 <= t < sorted.len() && sorted[t].tag@ == merged[k]@;
        assert(views[t] == releases[t]@);
        assert(views[t].tag.name == name);
    }
    assert forall|a: int, b: int| 0 <= a < b < views.len() implies release_before(
        (#[trigger] views[a]).tag.name,
        (#[trigger] views[b]).tag.name,
        prefix,
    ) by {
        assert(views[a] == releases[a]@);
        assert(views[b] == releases[b]@);
        assert(release_before(sorted[a].tag.name@, sorted[b].tag.name@, prefix));
    }
}

/// The release index of the local and the remote tags. The tags are
/// merged by name, the remote's definition standing where both define a
/// name; lightweight tags are dropped where annotated ones are required;
/// what is left is ordered by sort key, then by name, and numbered from 1.
/// An eligible tag without a sort key is an `InvalidReleaseTag`; where
/// there are several, the error names the one that sorts first by name.
pub fn build_release_index(
    local: &Vec<TagRef>,
    remote: &Vec<TagRef>,
    prefix: &str,
    require_annotated: bool,
) -> (r: TideResult<Vec<ReleaseTag>>)
    ensures
        match r {
            Ok(releases) => is_release_index(
                tags_by_name(local.deep_view() + remote.deep_view()),
                prefix@,
                require_annotated,
                releases.deep_view(),
            ),
            Err(e) => {
                &&& e matches TideError::InvalidReleaseTag { tag, prefix: p }
                &&& p@ == prefix@
                &&& is_first_invalid(
                    tags_by_name(local.deep_view() + remote.deep_view()),
                    prefix@,
                    require_annotated,
                    tag@,
                )
            },
        },
{
    let merged = merge_tags(local, remote);
    let ghost by_name = tags_by_name(local.deep_view() + remote.deep_view());
    let sorted = order_eligible(&merged, prefix, require_annotated, Ghost(by_name))?;
    let mut releases: Vec<ReleaseTag> = Vec::new();
    let mut j: usize = 0;
    while j < sorted.len()
        invariant
            j <= sorted.len(),
            releases.len() == j,
            forall|t: int|
                #![trigger releases@[t]]
                0 <= t < j ==> releases@[t].anchor_value == t + 1 && releases@[t].tag@
                    == sorted@[t].tag@,
        decreases sorted.len() - j,
    {
        let ordinal: u64 = j as u64 + 1;
        releases.push(ReleaseTag { anchor_value: ordinal, tag: sorted[j].tag.clone() });
        j += 1;
    }
    proof {
        lemma_index_complete(
            by_name,
            merged@,
            sorted@,
            releases@,
            releases.deep_view(),
            prefix@,
            require_annotated,
        );
    }
    Ok(releases)
}

/// Whether a resolution refreshes the remote's tags: it does unless the
/// request or the configuration says local only.
pub open spec fn refreshes_remote(config: &TideConfig, local_only: bool) -> bool {
    !local_only && config.remote.strategy == RemoteStrategy::LsRemote
}

/// What a remote listing comes to. A listing that arrived is used. One
/// that failed is replaced by no remote tags at all where falling back is
/// allowed, and is the failure of the whole otherwise.
pub fn settle_remote_listing(listing: TideResult<Vec<TagRef>>, fallback_to_local: bool) -> (r:
    TideResult<(Vec<TagRef>, RemoteLoadStatus)>)
    ensures
        match listing {
            Ok(tags) => r matches Ok((kept, status)) && kept == tags && status
                == RemoteLoadStatus::UsedRemote,
            Err(e) => if fallback_to_local {
                r matches Ok((kept, status)) && kept@.len() == 0 && status
                    == RemoteLoadStatus::FallbackLocal
            } else {
                r matches Err(same) && same == e
            },
        },
{
    match listing {
        Ok(tags) => Ok((tags, RemoteLoadStatus::UsedRemote)),
        Err(e) => {
            if fallback_to_local {
                Ok((Vec::new(), RemoteLoadStatus::FallbackLocal))
            } else {
                Err(e)
            }
        },
    }
}

/// Whether `releases` and `status` are what loading gives when the
/// backend lists `local` and, where the remote is used, `remote`.
pub open spec fn is_loaded_from(
    local: Seq<TagView>,
    remote: Seq<TagView>,
    config: &TideConfig,
    local_only: bool,
    releases: Seq<ReleaseView>,
    status: RemoteLoadStatus,
) -> bool {
    &&& (status == RemoteLoadStatus::NotAttempted) == !refreshes_remote(config, local_only)
    &&& status == RemoteLoadStatus::FallbackLocal ==> config.remote.fallback_to_local
    &&& status != RemoteLoadStatus::UsedRemote ==> remote.len() == 0
    &&& is_release_index(
        tags_by_name(local + remote),
        config.release.tag_prefix@,
        config.release.require_annotated_tags,
        releases,
    )
}

/// Loads the release index: the local tags, then, unless the resolution
/// is local only, the remote's tags after one refresh. Whatever the
/// backend answers, the releases that come back are the release index of
/// some local and remote listing, and the status says what became of the
/// refresh.
pub fn load_release_tags(git: &dyn GitProvider, config: &TideConfig, local_only: bool) -> (r:
    TideResult<(Vec<ReleaseTag>, RemoteLoadStatus)>)
    ensures
        r matches Ok((releases, status)) ==> exists|local: Seq<TagView>, remote: Seq<TagView>|
            is_loaded_from(local, remote, config, local_only, releases.deep_view(), status),
{
    let prefix = config.release.tag_prefix.as_str();
    let local = git.list_local_tags(prefix)?;
    let attempt = !local_only && config.remote.strategy == RemoteStrategy::LsRemote;
    let (remote, status) = if attempt {
        let listing = git.list_remote_tags(config.remote.name.as_str(), prefix);
        settle_remote_listing(listing, config.remote.fallback_to_local)?
    } else {
        (Vec::new(), RemoteLoadStatus::NotAttempted)
    };
    let releases = build_release_index(
        &local,
        &remote,
        prefix,
        config.release.require_annotated_tags,
    )?;
    let ghost locals = local.deep_view();
    let ghost remotes = remote.deep_view();
    let loaded: TideResult<(Vec<ReleaseTag>, RemoteLoadStatus)> = Ok((releases, status));
    proof {
        let views = loaded->Ok_0.0.deep_view();
        assert(is_loaded_from(locals, remotes, config, local_only, views, loaded->Ok_0.1));
    }
    loaded
}

/// Whether candidate `l` is the better anchor of the two: the closer one;
/// at the same distance the one with the larger ordinal; then the one
/// whose tag name sorts first; then the one whose commit id sorts first.
pub open spec fn anchor_before(l: AnchorView, r: AnchorView) -> bool {
    if l.distance != r.distance {
        l.distance < r.distance
    } else if l.release.anchor_value != r.release.anchor_value {
        l.release.anchor_value > r.release.anchor_value
    } else if l.release.tag.name != r.release.tag.name {
        lex_less(l.release.tag.name, r.release.tag.name)
    } else {
        lex_less(l.release.tag.commit_id, r.release.tag.commit_id)
    }
}

/// The order of candidates is transitive.
pub proof fn lemma_anchor_order_transitive(x: AnchorView, y: AnchorView, z: AnchorView)
    requires
        anchor_before(x, y),
        anchor_before(y, z),
    ensures
        anchor_before(x, z),
{
    let (xn, yn, zn) = (x.release.tag.name, y.release.tag.name, z.release.tag.name);
    let (xc, yc, zc) = (x.release.tag.commit_id, y.release.tag.commit_id, z.release.tag.commit_id);
    if lex_less(xn, yn) && lex_less(yn, zn) {
        lemma_lex_transitive(xn, yn, zn);
        lemma_lex_asymmetric(xn, zn);
    }
    if lex_less(xc, yc) && lex_less(yc, zc) {
        lemma_lex_transitive(xc, yc, zc);
    }
    if lex_less(xn, yn) {
        lemma_lex_asymmetric(xn, yn);
    }
    if lex_less(yn, zn) {
        lemma_lex_asymmetric(yn, zn);
    }
}

/// A candidate better than `z` is better than any `y` that is not itself
/// better than `z`.
pub proof fn lemma_anchor_order_weak(x: AnchorView, y: AnchorView, z: AnchorView)
    requires
        anchor_before(x, z),
        !anchor_before(y, z),
    ensures
        anchor_before(x, y),
{
    let (xn, yn, zn) = (x.release.tag.name, y.release.tag.name, z.release.tag.name);
    let (xc, yc, zc) = (x.release.tag.commit_id, y.release.tag.commit_id, z.release.tag.commit_id);
    lemma_lex_connected(yn, zn);
    lemma_lex_connected(yc, zc);
    lemma_lex_connected(xn, yn);
    lemma_lex_connected(xc, yc);
    if lex_less(xn, zn) && lex_less(zn, yn) {
        lemma_lex_transitive(xn, zn, yn);
    }
    if lex_less(xc, zc) && lex_less(zc, yc) {
        lemma_lex_transitive(xc, zc, yc);
    }
    if lex_less(xn, zn) {
        lemma_lex_asymmetric(xn, zn);
    }
    if lex_less(xn, yn) {
        lemma_lex_asymmetric(xn, yn);
    }
    if lex_less(xc, zc) {
        lemma_lex_asymmetric(xc, zc);
    }
}

/// Compares two candidates: `Less` where `left` is the better anchor,
/// `Greater` where `right` is, `Equal` where neither is.
pub fn compare_anchor(left: &AnchorSelection, right: &AnchorSelection) -> (o: Ordering)
    ensures
        o is Less <==> anchor_before(left@, right@),
        o is Greater <==> anchor_before(right@, left@),
{
    proof {
        lemma_lex_connected(left.release.tag.name@, right.release.tag.name@);
        lemma_lex_connected(left.release.tag.commit_id@, right.release.tag.commit_id@);
        if lex_less(left.release.tag.name@, right.release.tag.name@) {
            lemma_lex_asymmetric(left.release.tag.name@, right.release.tag.name@);
        }
        if lex_less(right.release.tag.name@, left.release.tag.name@) {
            lemma_lex_asymmetric(right.release.tag.name@, left.release.tag.name@);
        }
        if lex_less(left.release.tag.commit_id@, right.release.tag.commit_id@) {
            lemma_lex_asymmetric(left.release.tag.commit_id@, right.release.tag.commit_id@);
        }
        if lex_less(right.release.tag.commit_id@, left.release.tag.commit_id@) {
            lemma_lex_asymmetric(right.release.tag.commit_id@, left.release.tag.commit_id@);
        }
        lemma_lex_irreflexive(left.release.tag.name@);
        lemma_lex_irreflexive(left.release.tag.commit_id@);
    }
    if left.distance < right.distance {
        Ordering::Less
    } else if left.distance > right.distance {
        Ordering::Greater
    } else if left.release.anchor_value > right.release.anchor_value {
        Ordering::Less
    } else if left.release.anchor_value < right.release.anchor_value {
        Ordering::Greater
    } else if str_less(left.release.tag.name.as_str(), right.release.tag.name.as_str()) {
        Ordering::Less
    } else if str_less(right.release.tag.name.as_str(), left.release.tag.name.as_str()) {
        Ordering::Greater
    } else if str_less(left.release.tag.commit_id.as_str(), right.release.tag.commit_id.as_str()) {
        Ordering::Less
    } else if str_less(right.release.tag.commit_id.as_str(), left.release.tag.commit_id.as_str()) {
        Ordering::Greater
    } else {
        Ordering::Equal
    }
}

/// Whether `candidate` takes the place of `current`: it does where there
/// is no current choice, or where it is the better anchor.
pub fn is_better_anchor(current: Option<&AnchorSelection>, candidate: &AnchorSelection) -> (r:
    bool)
    ensures
        r == match current {
            None => true,
            Some(existing) => anchor_before(candidate@, existing@),
        },
{
    match current {
        None => true,
        Some(existing) => match compare_anchor(candidate, existing) {
            Ordering::Less => true,
            _ => false,
        },
    }
}

/// Whether `candidates[best]` is the anchor to pick: no candidate is
/// better, and it is better than every candidate that stands before it.
pub open spec fn is_best_anchor(candidates: Seq<AnchorView>, best: int) -> bool {
    &&& 0 <= best < candidates.len()
    &&& forall|i: int|
        0 <= i < candidates.len() ==> !anchor_before(#[trigger] candidates[i], candidates[best])
    &&& forall|i: int| 0 <= i < best ==> anchor_before(candidates[best], #[trigger] candidates[i])
}

/// At most one candidate is the anchor to pick.
pub proof fn lemma_best_anchor_unique(candidates: Seq<AnchorView>, a: int, b: int)
    requires
        is_best_anchor(candidates, a),
        is_best_anchor(candidates, b),
    ensures
        a == b,
{
    if a < b {
        assert(anchor_before(candidates[b], candidates[a]));
        assert(!anchor_before(candidates[b], candidates[a]));
    } else if b < a {
        assert(anchor_before(candidates[a], candidates[b]));
        assert(!anchor_before(candidates[a], candidates[b]));
    }
}

/// The best of the candidates. With no candidate there is no anchor: a
/// `NoReleaseAnchor` that carries the prefix.
#[verifier::rlimit(40)]
pub fn best_anchor(candidates: &Vec<AnchorSelection>, prefix: &str) -> (r: TideResult<
    AnchorSelection,
>)
    ensures
        match r {
            Ok(chosen) => exists|best: int|
                is_best_anchor(candidates.deep_view(), best) && chosen@
                    == #[trigger] candidates.deep_view()[best],
            Err(e) => {
                &&& candidates.len() == 0
                &&& e matches TideError::NoReleaseAnchor { prefix: p }
                &&& p@ == prefix@
            },
        },
{
    if candidates.len() == 0 {
        return Err(TideError::NoReleaseAnchor { prefix: String::from_str(prefix) });
    }
    let ghost views = candidates.deep_view();
    let mut best: usize = 0;
    let mut i: usize = 1;
    proof {
        lemma_anchor_order_irreflexive(views[0]);
    }
    while i < candidates.len()
        invariant
            views == candidates.deep_view(),
            0 <= best < i <= candidates.len(),
            forall|j: int| 0 <= j < i ==> !anchor_before(#[trigger] views[j], views[best as int]),
            forall|j: int| 0 <= j < best ==> anchor_before(views[best as int], #[trigger] views[j]),
        decreases candidates.len() - i,
    {
        if is_better_anchor(Some(&candidates[best]), &candidates[i]) {
            proof {
                assert(views[i as int] == candidates@[i as int]@);
                assert(views[best as int] == candidates@[best as int]@);
                assert forall|j: int| 0 <= j < i + 1 implies !anchor_before(
                    #[trigger] views[j],
                    views[i as int],
                ) by {
                    if j < i {
                        if anchor_before(views[j], views[i as int]) {
                            lemma_anchor_order_transitive(
                                views[j],
                                views[i as int],
                                views[best as int],
                            );
                        }
                    } else {
                        lemma_anchor_order_irreflexive(views[i as int]);
                    }
                }
                assert forall|j: int| 0 <= j < i implies anchor_before(
                    views[i as int],
                    #[trigger] views[j],
                ) by {
                    lemma_anchor_order_weak(views[i as int], views[j], views[best as int]);
                }
            }
            best = i;
        } else {
            proof {
                assert(views[i as int] == candidates@[i as int]@);
                assert(views[best as int] == candidates@[best as int]@);
            }
        }
        i += 1;
    }
    let chosen = candidates[best].clone();
    proof {
        assert(views[best as int] == candidates@[best as int]@);
        assert(is_best_anchor(views, best as int));
    }
    Ok(chosen)
}

/// No candidate is better than itself.
pub proof fn lemma_anchor_order_irreflexive(x: AnchorView)
    ensures
        !anchor_before(x, x),
{
    lemma_lex_irreflexive(x.release.tag.name);
    lemma_lex_irreflexive(x.release.tag.commit_id);
}

/// What the backend answered when asked about the commit of a release
/// with regard to a target, answer by answer. A question is asked only
/// where the answer before it was yes, so the later answers may be
/// missing.
#[derive(Debug)]
pub struct AncestryProbe {
    /// Whether the commit is in the repository.
    pub exists: bool,
    /// Whether the commit is the target or one of its ancestors; `None`
    /// where that was not asked.
    pub is_ancestor: Option<bool>,
    /// The number of commits that lead from the commit to the target, and
    /// what the commit resolves to; `None` where that was not asked.
    pub measured: Option<(u32, CommitInfo)>,
}

pub struct ProbeView {
    pub exists: bool,
    pub is_ancestor: Option<bool>,
    pub measured: Option<(int, CommitView)>,
}

impl View for AncestryProbe {
    type V = ProbeView;

    open spec fn view(&self) -> ProbeView {
        ProbeView {
            exists: self.exists,
            is_ancestor: self.is_ancestor,
            measured: match self.measured {
                Some((distance, commit)) => Some((distance as int, commit@)),
                None => None,
            },
        }
    }
}

impl Clone for AncestryProbe {
    fn clone(&self) -> (r: Self)
        ensures
            r@ == self@,
    {
        AncestryProbe {
            exists: self.exists,
            is_ancestor: self.is_ancestor,
            measured: match &self.measured {
                Some((distance, commit)) => Some((*distance, commit.clone())),
                None => None,
            },
        }
    }
}

/// What the answers about one release come to. The release is a
/// candidate where the backend answered that its commit exists and that
/// it is the target or an ancestor of it; the candidate carries the
/// distance and the commit that were answered. Where either answer was
/// no, or was not given, the release is passed over.
pub open spec fn candidate_of(release: ReleaseView, probe: ProbeView) -> Option<AnchorView> {
    match probe.measured {
        Some((distance, commit)) => if probe.exists && probe.is_ancestor == Some(true) {
            Some(AnchorView { release, distance, anchor_commit: commit })
        } else {
            None
        },
        None => None,
    }
}

/// What the answers about one release come to: the candidate that the
/// release makes, or nothing where it is passed over.
pub fn candidate_from(release: &ReleaseTag, probe: AncestryProbe) -> (r: Option<AnchorSelection>)
    ensures
        match r {
            Some(candidate) => candidate_of(release@, probe@) == Some(candidate@),
            None => candidate_of(release@, probe@) is None,
        },
{
    if !probe.exists {
        return None;
    }
    match probe.is_ancestor {
        Some(true) => {},
        _ => {
            return None;
        },
    }
    match probe.measured {
        Some((distance, commit)) => Some(
            AnchorSelection { release: release.clone(), distance, anchor_commit: commit },
        ),
        None => None,
    }
}

/// The candidates among the releases, given what was answered about
/// each, in the order of the releases.
pub open spec fn candidates_of(releases: Seq<ReleaseView>, probes: Seq<ProbeView>) -> Seq<
    AnchorView,
>
    recommends
        releases.len() == probes.len(),
    decreases releases.len(),
{
    if releases.len() == 0 || probes.len() == 0 {
        Seq::empty()
    } else {
        let front = candidates_of(releases.drop_last(), probes.drop_last());
        match candidate_of(releases.last(), probes.last()) {
            Some(candidate) => front.push(candidate),
            None => front,
        }
    }
}

/// Whether `chosen` is the selection among `releases`, given what was
/// answered about each: the best of the candidates.
pub open spec fn is_selection_of(
    releases: Seq<ReleaseView>,
    probes: Seq<ProbeView>,
    chosen: AnchorView,
) -> bool {
    &&& probes.len() == releases.len()
    &&& exists|best: int|
        is_best_anchor(candidates_of(releases, probes), best) && chosen == #[trigger] candidates_of(
            releases,
            probes,
        )[best]
}

/// Whether `chosen` is the selection among `releases` for some answers
/// of the backend.
pub open spec fn is_selected_from(releases: Seq<ReleaseView>, chosen: AnchorView) -> bool {
    exists|probes: Seq<ProbeView>| is_selection_of(releases, probes, chosen)
}

/// Whether no anchor comes of the answers: no release is a candidate.
pub open spec fn is_without_anchor(releases: Seq<ReleaseView>, probes: Seq<ProbeView>) -> bool {
    &&& probes.len() == releases.len()
    &&& candidates_of(releases, probes).len() == 0
}

/// Every candidate is what the answers about one of the releases come
/// to.
pub proof fn lemma_candidates_are_ancestors(
    releases: Seq<ReleaseView>,
    probes: Seq<ProbeView>,
    c: int,
)
    requires
        probes.len() == releases.len(),
        0 <= c < candidates_of(releases, probes).len(),
    ensures
        exists|k: int|
            0 <= k < releases.len() && candidate_of(#[trigger] releases[k], probes[k]) == Some(
                candidates_of(releases, probes)[c],
            ),
    decreases releases.len(),
{
    let front = candidates_of(releases.drop_last(), probes.drop_last());
    let last = releases.len() - 1;
    if c < front.len() {
        lemma_candidates_are_ancestors(releases.drop_last(), probes.drop_last(), c);
        let k = choose|k: int|
            0 <= k < releases.drop_last().len() && candidate_of(
                #[trigger] releases.drop_last()[k],
                probes.drop_last()[k],
            ) == Some(front[c]);
        assert(releases[k] == releases.drop_last()[k]);
        assert(probes[k] == probes.drop_last()[k]);
    } else {
        assert(releases[last] == releases.last());
        assert(probes[last] == probes.last());
    }
}

/// Every release that the answers make a candidate is among the
/// candidates.
pub proof fn lemma_every_ancestor_is_a_candidate(
    releases: Seq<ReleaseView>,
    probes: Seq<ProbeView>,
    k: int,
)
    requires
        probes.len() == releases.len(),
        0 <= k < releases.len(),
        candidate_of(releases[k], probes[k]) is Some,
    ensures
        exists|c: int|
            0 <= c < candidates_of(releases, probes).len() && #[trigger] candidates_of(
                releases,
                probes,
            )[c] == candidate_of(releases[k], probes[k])->0,
    decreases releases.len(),
{
    let last = releases.len() - 1;
    let front = candidates_of(releases.drop_last(), probes.drop_last());
    let all = candidates_of(releases, probes);
    if k < last {
        assert(releases[k] == releases.drop_last()[k]);
        assert(probes[k] == probes.drop_last()[k]);
        lemma_every_ancestor_is_a_candidate(releases.drop_last(), probes.drop_last(), k);
        let c = choose|c: int|
            0 <= c < front.len() && #[trigger] front[c] == candidate_of(releases[k], probes[k])->0;
        assert(all[c] == front[c]);
    } else {
        assert(releases[last] == releases.last());
        assert(probes[last] == probes.last());
        assert(all[front.len() as int] == candidate_of(releases[k], probes[k])->0);
    }
}

/// Anchor ancestry, as far as the backend's answers go: the selection is
/// a release of the list for which the backend answered that its commit
/// exists and is the target or an ancestor of it, and its distance and
/// its commit are those that the backend answered for that release.
pub proof fn lemma_selection_is_an_ancestor(
    releases: Seq<ReleaseView>,
    probes: Seq<ProbeView>,
    chosen: AnchorView,
)
    requires
        is_selection_of(releases, probes, chosen),
    ensures
        exists|k: int|
            {
                &&& 0 <= k < releases.len()
                &&& #[trigger] releases[k] == chosen.release
                &&& probes[k].exists
                &&& probes[k].is_ancestor == Some(true)
                &&& probes[k].measured == Some((chosen.distance, chosen.anchor_commit))
            },
{
    let candidates = candidates_of(releases, probes);
    let best = choose|best: int|
        is_best_anchor(candidates, best) && chosen == #[trigger] candidates[best];
    lemma_candidates_are_ancestors(releases, probes, best);
    let k = choose|k: int|
        0 <= k < releases.len() && candidate_of(#[trigger] releases[k], probes[k]) == Some(
            candidates[best],
        );
    assert(releases[k] == chosen.release);
}

/// The selection is the least of the releases that qualify: no release
/// for which the backend answered yes on existence and on ancestry makes a
/// candidate that is better than the selection.
pub proof fn lemma_selection_is_least(
    releases: Seq<ReleaseView>,
    probes: Seq<ProbeView>,
    chosen: AnchorView,
    k: int,
)
    requires
        is_selection_of(releases, probes, chosen),
        0 <= k < releases.len(),
        candidate_of(releases[k], probes[k]) is Some,
    ensures
        !anchor_before(candidate_of(releases[k], probes[k])->0, chosen),
{
    let candidates = candidates_of(releases, probes);
    let best = choose|best: int|
        is_best_anchor(candidates, best) && chosen == #[trigger] candidates[best];
    lemma_every_ancestor_is_a_candidate(releases, probes, k);
    let c = choose|c: int|
        0 <= c < candidates.len() && #[trigger] candidates[c] == candidate_of(
            releases[k],
            probes[k],
        )->0;
    assert(!anchor_before(candidates[c], candidates[best]));
}

/// No anchor comes of the answers exactly where no release qualifies: a
/// release whose commit is unknown, or is no ancestor of the target, is
/// passed over, and where every release is passed over there is no
/// anchor.
pub proof fn lemma_without_anchor_iff_none_qualifies(
    releases: Seq<ReleaseView>,
    probes: Seq<ProbeView>,
)
    requires
        probes.len() == releases.len(),
    ensures
        is_without_anchor(releases, probes) <==> forall|k: int|
            0 <= k < releases.len() ==> candidate_of(#[trigger] releases[k], probes[k]) is None,
{
    if is_without_anchor(releases, probes) {
        assert forall|k: int| 0 <= k < releases.len() implies candidate_of(
            #[trigger] releases[k],
            probes[k],
        ) is None by {
            if candidate_of(releases[k], probes[k]) is Some {
                lemma_every_ancestor_is_a_candidate(releases, probes, k);
            }
        }
    }
    if candidates_of(releases, probes).len() > 0 {
        lemma_candidates_are_ancestors(releases, probes, 0);
    }
}

/// The selection is determined by the releases and by what the backend
/// answered about them: two selections for the same answers are the same.
pub proof fn lemma_selection_unique(
    releases: Seq<ReleaseView>,
    probes: Seq<ProbeView>,
    a: AnchorView,
    b: AnchorView,
)
    requires
        is_selection_of(releases, probes, a),
        is_selection_of(releases, probes, b),
    ensures
        a == b,
{
    let candidates = candidates_of(releases, probes);
    let i = choose|best: int| is_best_anchor(candidates, best) && a == #[trigger] candidates[best];
    let j = choose|best: int| is_best_anchor(candidates, best) && b == #[trigger] candidates[best];
    lemma_best_anchor_unique(candidates, i, j);
}

/// A release with what the backend answered about its commit.
#[derive(Debug)]
pub struct ProbedRelease {
    pub release: ReleaseTag,
    pub probe: AncestryProbe,
}

pub struct ProbedView {
    pub release: ReleaseView,
    pub probe: ProbeView,
}

impl View for ProbedRelease {
    type V = ProbedView;

    open spec fn view(&self) -> ProbedView {
        ProbedView { release: self.release@, probe: self.probe@ }
    }
}

impl DeepView for ProbedRelease {
    type V = ProbedView;

    open spec fn deep_view(&self) -> ProbedView {
        self@
    }
}

impl Clone for ProbedRelease {
    fn clone(&self) -> (r: Self)
        ensures
            r@ == self@,
    {
        ProbedRelease { release: self.release.clone(), probe: self.probe.clone() }
    }
}

/// The releases of a list of probed releases.
pub open spec fn releases_of(probed: Seq<ProbedView>) -> Seq<ReleaseView> {
    probed.map_values(|p: ProbedView| p.release)
}

/// The answers of a list of probed releases.
pub open spec fn probes_of(probed: Seq<ProbedView>) -> Seq<ProbeView> {
    probed.map_values(|p: ProbedView| p.probe)
}

/// The anchor among releases about which the backend has answered. A
/// release is a candidate where the answers say that its commit exists
/// and is the target or an ancestor of it; a release that fails either
/// test is passed over, and is no failure. The best candidate is the
/// anchor. Where no release is a candidate there is no anchor: a
/// `NoReleaseAnchor` that carries the prefix.
pub fn select_among(probed: &Vec<ProbedRelease>, prefix: &str) -> (r: TideResult<AnchorSelection>)
    ensures
        match r {
            Ok(chosen) => is_selection_of(
                releases_of(probed.deep_view()),
                probes_of(probed.deep_view()),
                chosen@,
            ),
            Err(e) => {
                &&& is_without_anchor(
                    releases_of(probed.deep_view()),
                    probes_of(probed.deep_view()),
                )
                &&& e matches TideError::NoReleaseAnchor { prefix: p }
                &&& p@ == prefix@
            },
        },
{
    let ghost releases = releases_of(probed.deep_view());
    let ghost probes = probes_of(probed.deep_view());
    let mut candidates: Vec<AnchorSelection> = Vec::new();
    let mut i: usize = 0;
    while i < probed.len()
        invariant
            i <= probed.len(),
            releases == releases_of(probed.deep_view()),
            probes == probes_of(probed.deep_view()),
            candidates.deep_view() == candidates_of(
                releases.take(i as int),
                probes.take(i as int),
            ),
        decreases probed.len() - i,
    {
        let entry = &probed[i];
        proof {
            assert(releases.take(i + 1).drop_last() == releases.take(i as int));
            assert(probes.take(i + 1).drop_last() == probes.take(i as int));
            assert(releases.take(i + 1).last() == entry@.release);
            assert(probes.take(i + 1).last() == entry@.probe);
        }
        match candidate_from(&entry.release, entry.probe.clone()) {
            Some(candidate) => {
                let ghost before = candidates.deep_view();
                candidates.push(candidate);
                proof {
                    assert(candidates.deep_view() == before.push(candidate@));
                }
            },
            None => {},
        }
        i += 1;
    }
    proof {
        assert(releases.take(probed.len() as int) == releases);
        assert(probes.take(probed.len() as int) == probes);
    }
    best_anchor(&candidates, prefix)
}

/// Asks the backend about the commit of one release and writes down what
/// it answers: whether the commit exists, then whether it is the target or
/// an ancestor of it, then how far it is from the target and what it
/// resolves to. A question is asked only where the answer before it was
/// yes. What the answers come to is for `candidate_from` to say.
fn probe_release(git: &dyn GitProvider, release: &ReleaseTag, target: &CommitInfo) -> (r:
    TideResult<AncestryProbe>)
{
    let commit_id = release.tag.commit_id.as_str();
    let exists = git.commit_exists(commit_id)?;
    if !exists {
        return Ok(AncestryProbe { exists, is_ancestor: None, measured: None });
    }
    let is_ancestor = git.is_ancestor(commit_id, target.id.as_str())?;
    if !is_ancestor {
        return Ok(AncestryProbe { exists, is_ancestor: Some(is_ancestor), measured: None });
    }
    let distance = git.commit_distance(commit_id, target.id.as_str())?;
    let commit = git.resolve_commit(commit_id)?;
    Ok(AncestryProbe { exists, is_ancestor: Some(is_ancestor), measured: Some((distance, commit)) })
}

/// Selects the anchor of `target` among the releases. The backend is
/// asked about each release in turn, and `select_among` picks the anchor
/// from what it answered: the best of the releases whose commit it found
/// to exist and to be the target or an ancestor of it. So the anchor is
/// always one of the releases. Without releases there is no anchor,
/// whatever the backend would say.
pub fn select_anchor(
    git: &dyn GitProvider,
    releases: &[ReleaseTag],
    target: &CommitInfo,
    prefix: &str,
) -> (r: TideResult<AnchorSelection>)
    ensures
        r matches Ok(chosen) ==> is_selected_from(releases.deep_view(), chosen@),
        r matches Ok(chosen) ==> exists|k: int|
            0 <= k < releases.len() && #[trigger] releases.deep_view()[k] == chosen@.release,
        releases.len() == 0 ==> {
            &&& r matches Err(TideError::NoReleaseAnchor { prefix: p })
            &&& p@ == prefix@
        },
{
    let mut probed: Vec<ProbedRelease> = Vec::new();
    let ghost listed = releases.deep_view();
    let mut i: usize = 0;
    proof {
        assert(releases_of(probed.deep_view()) == listed.take(0));
    }
    while i < releases.len()
        invariant
            i <= releases.len(),
            listed == releases.deep_view(),
            probed.len() == i,
            releases_of(probed.deep_view()) == listed.take(i as int),
        decreases releases.len() - i,
    {
        let release = &releases[i];
        let probe = probe_release(git, release, target)?;
        let ghost before = probed.deep_view();
        let entry = ProbedRelease { release: release.clone(), probe };
        probed.push(entry);
        proof {
            assert(probed.deep_view() == before.push(entry@));
            assert(listed.take(i + 1) == listed.take(i as int).push(release@));
            assert(releases_of(before.push(entry@)) == releases_of(before).push(entry@.release));
        }
        i += 1;
    }
    let picked = select_among(&probed, prefix);
    proof {
        assert(listed.take(releases.len() as int) == listed);
        let probes = probes_of(probed.deep_view());
        if picked is Ok {
            assert(is_selection_of(listed, probes, picked->Ok_0@));
            lemma_selection_is_an_ancestor(listed, probes, picked->Ok_0@);
        }
    }
    picked
}

} // verus!
