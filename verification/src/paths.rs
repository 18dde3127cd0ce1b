use vstd::prelude::*;
use vstd::string::StrSliceExecFns;
use vstd::string::StringExecFns;

use crate::errs::{capability_error, CapabilityError, CapabilityErrorCode};

verus! {

/// A path is absolute when it starts with a slash.
pub open spec fn path_is_absolute(s: Seq<char>) -> bool {
    s.len() > 0 && s[0] == '/'
}

/// The index of the first slash, or the length when there is none.
pub open spec fn first_slash(s: Seq<char>) -> int
    decreases s.len(),
{
    if s.len() == 0 {
        0
    } else if s[0] == '/' {
        0
    } else {
        1 + first_slash(s.drop_first())
    }
}

pub proof fn lemma_first_slash(s: Seq<char>)
    ensures
        0 <= first_slash(s) <= s.len(),
        forall|k: int| 0 <= k < first_slash(s) ==> s[k] != '/',
        first_slash(s) < s.len() ==> s[first_slash(s)] == '/',
    decreases s.len(),
{
    if s.len() > 0 && s[0] != '/' {
        lemma_first_slash(s.drop_first());
        assert forall|k: int| 0 <= k < first_slash(s) implies s[k] != '/' by {
            if k > 0 {
                assert(s.drop_first()[k - 1] == s[k]);
            }
        }
    }
}

/// Where the first slash sits, pinned from a scan that found no earlier one.
pub proof fn lemma_first_slash_at(s: Seq<char>, j: int)
    requires
        0 <= j <= s.len(),
        forall|k: int| 0 <= k < j ==> s[k] != '/',
        j < s.len() ==> s[j] == '/',
    ensures
        first_slash(s) == j,
    decreases j,
{
    if j > 0 {
        let rest = s.drop_first();
        assert forall|k: int| 0 <= k < j - 1 implies rest[k] != '/' by {
            assert(rest[k] == s[k + 1]);
        }
        assert(j - 1 < rest.len() ==> rest[j - 1] == s[j]);
        lemma_first_slash_at(rest, j - 1);
    }
}

/// The segments of a path, split at every slash; empty segments are kept.
pub open spec fn split_segments(s: Seq<char>) -> Seq<Seq<char>>
    decreases s.len(),
    via split_segments_decreases
{
    let i = first_slash(s);
    if i >= s.len() {
        seq![s]
    } else {
        seq![s.subrange(0, i)] + split_segments(s.subrange(i + 1, s.len() as int))
    }
}

#[via_fn]
proof fn split_segments_decreases(s: Seq<char>) {
    lemma_first_slash(s);
}

/// A parent-directory traversal segment.
pub open spec fn is_parent_seg(seg: Seq<char>) -> bool {
    seg.len() == 2 && seg[0] == '.' && seg[1] == '.'
}

/// A segment that resolution skips: empty, or the current directory.
pub open spec fn is_skip_seg(seg: Seq<char>) -> bool {
    seg.len() == 0 || (seg.len() == 1 && seg[0] == '.')
}

/// Whether any segment of the path is a parent-directory traversal.
pub open spec fn has_parent_seg(s: Seq<char>) -> bool {
    exists|k: int|
        0 <= k < split_segments(s).len() && is_parent_seg(#[trigger] split_segments(s)[k])
}

/// Joins the non-skipped segments onto `parent`, one slash before each.
pub open spec fn join_onto(parent: Seq<char>, segs: Seq<Seq<char>>) -> Seq<char>
    decreases segs.len(),
{
    if segs.len() == 0 {
        parent
    } else if is_skip_seg(segs[0]) {
        join_onto(parent, segs.drop_first())
    } else {
        join_onto(parent + seq!['/'] + segs[0], segs.drop_first())
    }
}

/// Why a relative path was rejected outright.
pub enum ResolveRejection {
    Absolute,
    ParentSegment,
}

/// What resolving `rel` against `parent` yields: a rejection for an absolute
/// path or one with a parent-directory segment, and the joined path otherwise.
pub open spec fn spec_resolve_child(parent: Seq<char>, rel: Seq<char>) -> Result<
    Seq<char>,
    ResolveRejection,
> {
    if path_is_absolute(rel) {
        Result::Err(ResolveRejection::Absolute)
    } else if has_parent_seg(rel) {
        Result::Err(ResolveRejection::ParentSegment)
    } else {
        Result::Ok(join_onto(parent, split_segments(rel)))
    }
}

/// The index of the first slash, or the length when there is none.
fn first_slash_idx(s: &str) -> (i: usize)
    ensures
        i as int == first_slash(s@),
        i <= s@.len(),
{
    let n = s.unicode_len();
    let mut j: usize = 0;
    while j < n
        invariant
            0 <= j <= n,
            n == s@.len(),
            forall|k: int| 0 <= k < j ==> s@[k] != '/',
        decreases n - j,
    {
        if s.get_char(j) == '/' {
            proof {
                lemma_first_slash_at(s@, j as int);
            }
            return j;
        }
        j = j + 1;
    }
    proof {
        lemma_first_slash_at(s@, n as int);
    }
    n
}

/// Splitting at the first slash: the head segment and the split of the rest.
proof fn lemma_split_step(s: Seq<char>, i: int)
    requires
        i == first_slash(s),
        i < s.len(),
    ensures
        split_segments(s).len() == 1 + split_segments(s.subrange(i + 1, s.len() as int)).len(),
        split_segments(s)[0] == s.subrange(0, i),
        forall|k: int| 1 <= k < split_segments(s).len() ==> split_segments(s)[k]
            == #[trigger] split_segments(s.subrange(i + 1, s.len() as int))[k - 1],
{
    lemma_first_slash(s);
}

/// Appends each segment of `rel` onto `acc`, rejecting parent traversals.
fn append_segments(acc: String, rel: &str) -> (r: Result<String, CapabilityError>)
    ensures
        match r {
            Result::Ok(s) => !has_parent_seg(rel@) && s@ == join_onto(acc@, split_segments(rel@)),
            Result::Err(e) => has_parent_seg(rel@) && e.code == CapabilityErrorCode::InvalidArgument
                && e.message@ == "parent segments are not allowed"@,
        },
    decreases rel@.len(),
{
    let ghost acc0 = acc@;
    let n = rel.unicode_len();
    let i = first_slash_idx(rel);
    let ghost segs = split_segments(rel@);
    let ghost head = rel@.subrange(0, i as int);
    proof {
        lemma_first_slash(rel@);
        if i == n {
            assert(head =~= rel@);
            assert(segs =~= seq![rel@]);
        } else {
            lemma_split_step(rel@, i as int);
        }
        assert(segs[0] == head);
    }
    let head_is_parent: bool = i == 2 && rel.get_char(0) == '.' && rel.get_char(1) == '.';
    proof {
        assert(head.len() == i);
        assert(forall|k: int| 0 <= k < i ==> head[k] == rel@[k]);
        assert(head_is_parent == is_parent_seg(head));
    }
    if head_is_parent {
        proof {
            assert(has_parent_seg(rel@));
        }
        return Result::Err(
            capability_error(
                CapabilityErrorCode::InvalidArgument,
                "parent segments are not allowed",
            ),
        );
    }
    let head_is_skip: bool = i == 0 || (i == 1 && rel.get_char(0) == '.');
    proof {
        assert(head_is_skip == is_skip_seg(head));
    }
    let next_acc: String = if head_is_skip {
        acc
    } else {
        let seg = rel.substring_char(0, i);
        proof {
            reveal_strlit("/");
        }
        acc.concat("/").concat(seg)
    };
    proof {
        if head_is_skip {
            assert(join_onto(acc0, segs) == join_onto(acc0, segs.drop_first()));
            assert(next_acc@ == acc0);
        } else {
            reveal_strlit("/");
            assert(next_acc@ =~= acc0 + seq!['/'] + head);
            assert(join_onto(acc0, segs) == join_onto(acc0 + seq!['/'] + segs[0],
                segs.drop_first()));
        }
        assert(join_onto(acc0, segs) == join_onto(next_acc@, segs.drop_first()));
    }
    if i == n {
        proof {
            assert(segs.drop_first() =~= Seq::<Seq<char>>::empty());
            assert(join_onto(next_acc@, segs.drop_first()) == next_acc@);
        }
        Result::Ok(next_acc)
    } else {
        let rest = rel.substring_char(i + 1, n);
        let ghost rest_segs = split_segments(rest@);
        proof {
            assert(segs.drop_first() =~= rest_segs);
        }
        match append_segments(next_acc, rest) {
            Result::Ok(s) => {
                proof {
                    if has_parent_seg(rel@) {
                        let k = choose|k: int|
                            0 <= k < segs.len() && is_parent_seg(#[trigger] segs[k]);
                        assert(k > 0);
                        assert(rest_segs[k - 1] == segs[k]);
                        assert(has_parent_seg(rest@));
                    }
                }
                Result::Ok(s)
            },
            Result::Err(e) => {
                proof {
                    let k = choose|k: int|
                        0 <= k < rest_segs.len() && is_parent_seg(#[trigger] rest_segs[k]);
                    assert(segs[k + 1] == rest_segs[k]);
                    assert(has_parent_seg(rel@));
                }
                Result::Err(e)
            },
        }
    }
}

/// Resolves a guest-supplied relative path against a base directory.
///
/// An absolute path or one with a parent-directory segment is rejected as
/// malformed before anything else happens; this function never performs any
/// filesystem operation.
pub fn resolve_child(parent: &str, relative: &str) -> (r: Result<String, CapabilityError>)
    ensures
        match spec_resolve_child(parent@, relative@) {
            Result::Ok(p) => r matches Result::Ok(s) && s@ == p,
            Result::Err(ResolveRejection::Absolute) => r matches Result::Err(e)
                && e.code == CapabilityErrorCode::InvalidArgument && e.message@
                == "absolute paths are not allowed"@,
            Result::Err(ResolveRejection::ParentSegment) => r matches Result::Err(e)
                && e.code == CapabilityErrorCode::InvalidArgument && e.message@
                == "parent segments are not allowed"@,
        },
{
    if relative.unicode_len() > 0 && relative.get_char(0) == '/' {
        return Result::Err(
            capability_error(
                CapabilityErrorCode::InvalidArgument,
                "absolute paths are not allowed",
            ),
        );
    }
    append_segments(String::from_str(parent), relative)
}

/// Whether `candidate`'s text starts with `root`'s text.
pub open spec fn within_root(root: Seq<char>, candidate: Seq<char>) -> bool {
    root.len() <= candidate.len() && candidate.subrange(0, root.len() as int) == root
}

/// Verifies that a resolved path stays under the workspace root.
///
/// Any candidate that does not extend the root's text is refused as a
/// sandbox escape, with no other effect.
pub fn ensure_within_workspace(root: &str, candidate: &str) -> (r: Result<(), CapabilityError>)
    ensures
        r is Ok <==> within_root(root@, candidate@),
        r matches Result::Err(e) ==> e.code == CapabilityErrorCode::Denied && e.message@
            == "path escapes workspace root"@,
{
    let rn = root.unicode_len();
    let cn = candidate.unicode_len();
    if rn > cn {
        return Result::Err(
            capability_error(CapabilityErrorCode::Denied, "path escapes workspace root"),
        );
    }
    let mut j: usize = 0;
    while j < rn
        invariant
            0 <= j <= rn <= cn,
            rn == root@.len(),
            cn == candidate@.len(),
            forall|k: int| 0 <= k < j ==> root@[k] == candidate@[k],
        decreases rn - j,
    {
        if root.get_char(j) != candidate.get_char(j) {
            proof {
                assert(candidate@.subrange(0, rn as int)[j as int] != root@[j as int]);
            }
            return Result::Err(
                capability_error(CapabilityErrorCode::Denied, "path escapes workspace root"),
            );
        }
        j = j + 1;
    }
    proof {
        assert(candidate@.subrange(0, rn as int) =~= root@);
    }
    Result::Ok(())
}

/// Everything after the last slash of a path with no trailing slashes.
pub open spec fn spec_last_segment(s: Seq<char>) -> Seq<char>
    decreases s.len(),
    via spec_last_segment_decreases
{
    let i = first_slash(s);
    if i >= s.len() {
        s
    } else {
        spec_last_segment(s.subrange(i + 1, s.len() as int))
    }
}

#[via_fn]
proof fn spec_last_segment_decreases(s: Seq<char>) {
    lemma_first_slash(s);
}

/// The path with its trailing slashes removed.
pub open spec fn strip_trailing_slashes(s: Seq<char>) -> Seq<char>
    decreases s.len(),
{
    if s.len() > 0 && s[s.len() - 1] == '/' {
        strip_trailing_slashes(s.drop_last())
    } else {
        s
    }
}

/// Where the trailing slashes start, pinned from a scan backwards.
proof fn lemma_strip_at(s: Seq<char>, end: int)
    requires
        0 <= end <= s.len(),
        forall|k: int| end <= k < s.len() ==> s[k] == '/',
        end > 0 ==> s[end - 1] != '/',
    ensures
        strip_trailing_slashes(s) == s.subrange(0, end),
    decreases s.len(),
{
    if s.len() > end {
        let s2 = s.drop_last();
        assert forall|k: int| end <= k < s2.len() implies s2[k] == '/' by {
            assert(s2[k] == s[k]);
        }
        lemma_strip_at(s2, end);
        assert(s2.subrange(0, end) =~= s.subrange(0, end));
    } else {
        assert(s.subrange(0, end) =~= s);
    }
}

/// The final path segment: everything after the last slash, with trailing
/// slashes ignored, as a command name like `bin/tool/` still names `tool`.
pub open spec fn spec_basename(s: Seq<char>) -> Seq<char> {
    spec_last_segment(strip_trailing_slashes(s))
}

fn last_segment(s: &str) -> (r: String)
    ensures
        r@ == spec_last_segment(s@),
    decreases s@.len(),
{
    let n = s.unicode_len();
    let i = first_slash_idx(s);
    proof {
        lemma_first_slash(s@);
    }
    if i == n {
        String::from_str(s)
    } else {
        last_segment(s.substring_char(i + 1, n))
    }
}

/// The final path segment of a command string.
pub fn basename(s: &str) -> (r: String)
    ensures
        r@ == spec_basename(s@),
{
    let n = s.unicode_len();
    let mut end: usize = n;
    while end > 0 && s.get_char(end - 1) == '/'
        invariant
            0 <= end <= n,
            n == s@.len(),
            forall|k: int| end <= k < n ==> s@[k] == '/',
        decreases end,
    {
        end = end - 1;
    }
    proof {
        lemma_strip_at(s@, end as int);
    }
    last_segment(s.substring_char(0, end))
}

} // verus!
