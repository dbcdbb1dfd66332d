//! Unix paths, read as sequences of components.
//!
//! A path is a string whose components are separated by `/`. Repeated
//! separators, a trailing separator and `.` segments do not count, except
//! that a leading `/` is the root component and a leading `.` of a relative
//! path is the current-directory component. Two paths are compared component
//! by component, never character by character.

use vstd::prelude::*;
use crate::text::{text_of, to_chars};

verus! {

/// The separator between the components of a path.
pub const SEPARATOR: char = '/';

/// The pieces of `s` between separators, empty ones included: one more than
/// the number of separators in `s`.
pub open spec fn segments(s: Seq<char>) -> Seq<Seq<char>>
    decreases s.len(),
{
    if s.len() == 0 {
        seq![Seq::empty()]
    } else {
        let init = segments(s.drop_last());
        if s.last() == SEPARATOR {
            init.push(Seq::empty())
        } else {
            init.drop_last().push(init.last().push(s.last()))
        }
    }
}

/// Whether a segment names something: it is neither empty nor `.`.
pub open spec fn is_named(segment: Seq<char>) -> bool {
    segment.len() > 0 && segment != seq!['.']
}

/// Whether `s` starts at the root.
pub open spec fn has_root(s: Seq<char>) -> bool {
    s.len() > 0 && s[0] == SEPARATOR
}

/// Whether `s` is relative and starts with a `.` segment.
pub open spec fn has_leading_cur_dir(s: Seq<char>) -> bool {
    s.len() > 0 && s[0] == '.' && (s.len() == 1 || s[1] == SEPARATOR)
}

/// The component that stands for the start of `s`, if it has one: `/` for
/// the root, `.` for a leading current directory.
pub open spec fn lead(s: Seq<char>) -> Seq<Seq<char>> {
    if has_root(s) {
        seq![seq![SEPARATOR]]
    } else if has_leading_cur_dir(s) {
        seq![seq!['.']]
    } else {
        Seq::empty()
    }
}

/// Those of `segs` that name something, in order.
pub open spec fn named_of(segs: Seq<Seq<char>>) -> Seq<Seq<char>> {
    segs.filter(|segment: Seq<char>| is_named(segment))
}

/// One more segment behind `segs` is kept if it names something, and
/// dropped if not; of no segments, none is kept.
pub proof fn lemma_named_of_push(segs: Seq<Seq<char>>, segment: Seq<char>)
    ensures
        named_of(segs.push(segment)) == if is_named(segment) {
            named_of(segs).push(segment)
        } else {
            named_of(segs)
        },
        named_of(Seq::empty()) == Seq::<Seq<char>>::empty(),
{
    let named = |segment: Seq<char>| is_named(segment);
    segs.lemma_filter_push(segment, named);
    assert(Seq::<Seq<char>>::empty().filter(named) == Seq::<Seq<char>>::empty()) by {
        reveal(Seq::filter);
    }
}

/// The components of `s`: its lead, then its named segments in order.
pub open spec fn components(s: Seq<char>) -> Seq<Seq<char>> {
    lead(s) + named_of(segments(s))
}

/// Whether `s` is the root directory: whether the root is its only
/// component.
pub open spec fn spec_is_root_dir(s: Seq<char>) -> bool {
    components(s) == seq![seq![SEPARATOR]]
}

/// Whether the components of `base` are the first components of `path`.
pub open spec fn spec_starts_with(path: Seq<char>, base: Seq<char>) -> bool {
    components(base).is_prefix_of(components(path))
}

/// The length of the lead of `s`: 1 for the root or a leading `.`, else 0.
/// What follows the lead is the body of the path.
pub open spec fn lead_len(s: Seq<char>) -> int {
    if has_root(s) || has_leading_cur_dir(s) {
        1
    } else {
        0
    }
}

/// Where the last segment of `s.take(n)` begins, the part before `lo` left
/// aside: just after the last separator at or after `lo`, or at `lo`.
pub open spec fn last_segment_start(s: Seq<char>, lo: int, n: int) -> int
    decreases n,
{
    if !(0 <= lo < n <= s.len()) {
        lo
    } else if s[n - 1] == SEPARATOR {
        n
    } else {
        last_segment_start(s, lo, n - 1)
    }
}

/// What is left of the length `n` once the trailing segments of `s.take(n)`
/// that name nothing are taken off, each with the separator before it. The
/// part before `lo` always stays.
pub open spec fn trimmed_len(s: Seq<char>, lo: int, n: int) -> int
    decreases n,
{
    if !(0 <= lo < n <= s.len()) {
        lo
    } else {
        let start = last_segment_start(s, lo, n);
        if is_named(s.subrange(start, n)) {
            n
        } else if lo < start <= n {
            trimmed_len(s, lo, start - 1)
        } else {
            lo
        }
    }
}

/// The length of `s` without its last component and without the separators
/// and `.` segments around it, given that `end` is the trimmed length of `s`
/// and exceeds `lo`.
pub open spec fn parent_len(s: Seq<char>, lo: int, end: int) -> int {
    let start = last_segment_start(s, lo, end);
    trimmed_len(s, lo, if start > lo { start - 1 } else { lo })
}

/// The path to the directory that holds `s`: `s` up to its last component,
/// without the separators and `.` segments before it. `None` when `s` is
/// empty or ends in the root; the empty path when `s` is a lone `.`. The
/// parent has the components of `s` but the last.
pub open spec fn spec_parent(s: Seq<char>) -> Option<Seq<char>> {
    let lo = lead_len(s);
    let end = trimmed_len(s, lo, s.len() as int);
    if end > lo {
        Some(s.take(parent_len(s, lo, end)))
    } else if has_leading_cur_dir(s) {
        Some(Seq::empty())
    } else {
        None
    }
}

/// The last component of `s`, when it is a name: `None` when `s` is empty,
/// ends in the root, is a lone `.`, or ends in `..`.
pub open spec fn spec_file_name(s: Seq<char>) -> Option<Seq<char>> {
    let lo = lead_len(s);
    let end = trimmed_len(s, lo, s.len() as int);
    let name = s.subrange(last_segment_start(s, lo, end), end);
    if end > lo && name != seq!['.', '.'] {
        Some(name)
    } else {
        None
    }
}

/// The character sequences held by a vector of character vectors.
pub open spec fn views(v: Seq<Vec<char>>) -> Seq<Seq<char>> {
    v.map_values(|x: Vec<char>| x@)
}

/// The segments of `path`.
fn split_segments(path: &Vec<char>) -> (segs: Vec<Vec<char>>)
    ensures
        views(segs@) == segments(path@),
{
    let mut done: Vec<Vec<char>> = Vec::new();
    let mut cur: Vec<char> = Vec::new();
    let mut i: usize = 0;
    while i < path.len()
        invariant
            i <= path.len(),
            views(done@).push(cur@) == segments(path@.take(i as int)),
        decreases path.len() - i,
    {
        let c = path[i];
        proof {
            assert(path@.take(i + 1).drop_last() == path@.take(i as int));
        }
        if c == SEPARATOR {
            done.push(cur);
            cur = Vec::new();
        } else {
            cur.push(c);
        }
        i += 1;
    }
    done.push(cur);
    proof {
        assert(path@.take(path.len() as int) == path@);
    }
    done
}

/// Whether `a` and `b` hold the same characters.
fn chars_equal(a: &Vec<char>, b: &Vec<char>) -> (same: bool)
    ensures
        same == (a@ == b@),
{
    if a.len() != b.len() {
        return false;
    }
    let mut i: usize = 0;
    while i < a.len()
        invariant
            i <= a.len(),
            a.len() == b.len(),
            a@.take(i as int) == b@.take(i as int),
        decreases a.len() - i,
    {
        if a[i] != b[i] {
            return false;
        }
        proof {
            assert(a@.take(i + 1) == a@.take(i as int).push(a@[i as int]));
            assert(b@.take(i + 1) == b@.take(i as int).push(b@[i as int]));
        }
        i += 1;
    }
    proof {
        assert(a@.take(a.len() as int) == a@);
        assert(b@.take(b.len() as int) == b@);
    }
    true
}

/// Whether the characters of `path` from `start` up to `end` name
/// something.
fn range_is_named(path: &Vec<char>, start: usize, end: usize) -> (named: bool)
    requires
        start <= end <= path.len(),
    ensures
        named == is_named(path@.subrange(start as int, end as int)),
{
    let ghost segment = path@.subrange(start as int, end as int);
    if end == start {
        false
    } else if end - start == 1 && path[start] == '.' {
        proof {
            assert(segment == seq!['.']);
        }
        false
    } else {
        proof {
            assert(seq!['.'].len() == 1);
            assert(seq!['.'][0] == '.');
            assert(segment[0] == path@[start as int]);
        }
        true
    }
}

/// The components of `path`.
fn path_components(path: &Vec<char>) -> (comps: Vec<Vec<char>>)
    ensures
        views(comps@) == components(path@),
{
    let segs = split_segments(path);
    let mut comps: Vec<Vec<char>> = Vec::new();
    if path.len() > 0 && path[0] == SEPARATOR {
        let mut root: Vec<char> = Vec::new();
        root.push(SEPARATOR);
        comps.push(root);
    } else if path.len() > 0 && path[0] == '.' && (path.len() == 1 || path[1] == SEPARATOR) {
        let mut dot: Vec<char> = Vec::new();
        dot.push('.');
        comps.push(dot);
    }
    assert(views(comps@) == lead(path@));
    let ghost all = views(segs@);
    proof {
        lemma_named_of_push(Seq::empty(), Seq::empty());
        assert(all.take(0) == Seq::<Seq<char>>::empty());
    }
    let mut i: usize = 0;
    while i < segs.len()
        invariant
            i <= segs.len(),
            all == views(segs@),
            views(comps@) == lead(path@) + named_of(all.take(i as int)),
        decreases segs.len() - i,
    {
        let ghost before = views(comps@);
        let ghost segment = segs@[i as int]@;
        proof {
            assert(all.take(i + 1) == all.take(i as int).push(segment));
            lemma_named_of_push(all.take(i as int), segment);
            assert(segment.subrange(0, segment.len() as int) == segment);
        }
        if range_is_named(&segs[i], 0, segs[i].len()) {
            let copy = segs[i].clone();
            assert(copy@ == segment);
            comps.push(copy);
            assert(views(comps@) == before.push(segment));
        }
        i += 1;
    }
    proof {
        assert(all.take(segs.len() as int) == all);
    }
    comps
}

/// Whether `path` is the root directory.
pub fn is_root_dir(path: &str) -> (root: bool)
    ensures
        root == spec_is_root_dir(path@),
{
    let chars = to_chars(path);
    let comps = path_components(&chars);
    let ghost root = seq![SEPARATOR];
    proof {
        assert(root.len() == 1 && root[0] == SEPARATOR);
        assert(seq![root].len() == 1 && seq![root][0] == root);
    }
    if comps.len() != 1 {
        return false;
    }
    let first = &comps[0];
    proof {
        assert(views(comps@)[0] == first@);
        if first.len() == 1 && first@[0] == SEPARATOR {
            assert(first@ == root);
            assert(components(path@) == seq![root]);
        }
    }
    first.len() == 1 && first[0] == SEPARATOR
}

/// Whether `path` lies at or under `base`: whether the components of `base`
/// are the first components of `path`.
pub fn starts_with(path: &str, base: &str) -> (inside: bool)
    ensures
        inside == spec_starts_with(path@, base@),
{
    let path_chars = to_chars(path);
    let base_chars = to_chars(base);
    let ours = path_components(&path_chars);
    let theirs = path_components(&base_chars);
    if theirs.len() > ours.len() {
        return false;
    }
    let mut i: usize = 0;
    while i < theirs.len()
        invariant
            i <= theirs.len() <= ours.len(),
            views(ours@) == components(path@),
            views(theirs@) == components(base@),
            forall|j: int| 0 <= j < i ==> components(base@)[j] == components(path@)[j],
        decreases theirs.len() - i,
    {
        if !chars_equal(&theirs[i], &ours[i]) {
            proof {
                assert(views(theirs@)[i as int] == theirs@[i as int]@);
                assert(views(ours@)[i as int] == ours@[i as int]@);
            }
            return false;
        }
        proof {
            assert(views(theirs@)[i as int] == theirs@[i as int]@);
            assert(views(ours@)[i as int] == ours@[i as int]@);
        }
        i += 1;
    }
    proof {
        assert(components(base@) =~= components(path@).subrange(0, components(base@).len() as int));
    }
    true
}

/// The length of the lead of `path`.
fn lead_length(path: &Vec<char>) -> (lo: usize)
    ensures
        lo == lead_len(path@),
        lo <= path.len(),
{
    if path.len() > 0 && path[0] == SEPARATOR {
        1
    } else if path.len() > 0 && path[0] == '.' && (path.len() == 1 || path[1] == SEPARATOR) {
        1
    } else {
        0
    }
}

/// Where the last segment of the first `n` characters of `path` begins,
/// the part before `lo` left aside.
fn find_last_segment(path: &Vec<char>, lo: usize, n: usize) -> (start: usize)
    requires
        lo <= n <= path.len(),
    ensures
        start == last_segment_start(path@, lo as int, n as int),
        lo <= start <= n,
{
    let mut start: usize = n;
    while start > lo && path[start - 1] != SEPARATOR
        invariant
            lo <= start <= n <= path.len(),
            last_segment_start(path@, lo as int, start as int) == last_segment_start(
                path@,
                lo as int,
                n as int,
            ),
        decreases start,
    {
        start -= 1;
    }
    start
}

/// What is left of the length `n` once the trailing segments that name
/// nothing are taken off.
fn trim(path: &Vec<char>, lo: usize, n: usize) -> (end: usize)
    requires
        lo <= n <= path.len(),
    ensures
        end == trimmed_len(path@, lo as int, n as int),
        lo <= end <= n,
{
    let mut end: usize = n;
    while end > lo
        invariant
            lo <= end <= n <= path.len(),
            trimmed_len(path@, lo as int, end as int) == trimmed_len(path@, lo as int, n as int),
        decreases end,
    {
        let start = find_last_segment(path, lo, end);
        if range_is_named(path, start, end) {
            return end;
        } else if start > lo {
            end = start - 1;
        } else {
            return lo;
        }
    }
    end
}

/// The path to the directory that holds `path`, if it has one.
pub fn parent(path: &str) -> (dir: Option<String>)
    ensures
        text_of(dir) == spec_parent(path@),
{
    let chars = to_chars(path);
    let lo = lead_length(&chars);
    let end = trim(&chars, lo, chars.len());
    if end > lo {
        let start = find_last_segment(&chars, lo, end);
        let cut = if start > lo { start - 1 } else { lo };
        let keep = trim(&chars, lo, cut);
        Some(path.substring_char(0, keep).to_owned())
    } else if lo == 1 && chars[0] == '.' {
        Some(String::new())
    } else {
        None
    }
}

/// The last component of `path`, when it is a name.
pub fn file_name(path: &str) -> (name: Option<String>)
    ensures
        text_of(name) == spec_file_name(path@),
{
    let chars = to_chars(path);
    let lo = lead_length(&chars);
    let end = trim(&chars, lo, chars.len());
    if end > lo {
        let start = find_last_segment(&chars, lo, end);
        if end - start == 2 && chars[start] == '.' && chars[start + 1] == '.' {
            proof {
                assert(path@.subrange(start as int, end as int) == seq!['.', '.']);
            }
            None
        } else {
            proof {
                let name = path@.subrange(start as int, end as int);
                let dots = seq!['.', '.'];
                assert(dots.len() == 2 && dots[0] == '.' && dots[1] == '.');
                if name.len() == 2 {
                    assert(name[0] == path@[start as int]);
                    assert(name[1] == path@[start + 1]);
                }
            }
            Some(path.substring_char(start, end).to_owned())
        }
    } else {
        None
    }
}

} // verus!
