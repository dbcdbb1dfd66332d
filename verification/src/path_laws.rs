//! What holds of paths and their components, whatever the paths.

use vstd::prelude::*;
use crate::paths::{
    components, has_leading_cur_dir, has_root, is_named, last_segment_start, lead, lead_len,
    lemma_named_of_push, named_of, parent_len, segments, spec_file_name, spec_is_root_dir,
    spec_parent, spec_starts_with, trimmed_len, SEPARATOR,
};

verus! {

/// Every string has a segment, and its segments hold no separator.
pub proof fn lemma_segments_shape(s: Seq<char>)
    ensures
        segments(s).len() >= 1,
        forall|i: int|
            0 <= i < segments(s).len() ==> !(#[trigger] segments(s)[i]).contains(SEPARATOR),
    decreases s.len(),
{
    if s.len() > 0 {
        lemma_segments_shape(s.drop_last());
        let init = segments(s.drop_last());
        if s.last() != SEPARATOR {
            let grown = init.last().push(s.last());
            assert forall|j: int| 0 <= j < grown.len() implies grown[j] != SEPARATOR by {
                if j < init.last().len() {
                    assert(init.last().contains(init.last()[j]));
                }
            }
        }
    }
}

/// The segments of two strings put together: the last segment of the first
/// and the first segment of the second become one, the others stay.
pub proof fn lemma_segments_concat(a: Seq<char>, b: Seq<char>)
    ensures
        segments(a).len() >= 1,
        segments(b).len() >= 1,
        segments(a + b) == segments(a).drop_last() + seq![segments(a).last() + segments(b).first()]
            + segments(b).drop_first(),
    decreases b.len(),
{
    lemma_segments_shape(a);
    lemma_segments_shape(b);
    let left = segments(a);
    if b.len() == 0 {
        assert(a + b == a);
        assert(left.last() + Seq::<char>::empty() == left.last());
        assert(left.drop_last() + seq![left.last()] + Seq::<Seq<char>>::empty() == left);
    } else {
        let shorter = b.drop_last();
        lemma_segments_concat(a, shorter);
        lemma_segments_shape(shorter);
        assert((a + b).drop_last() == a + shorter);
        assert((a + b).last() == b.last());
        let right = segments(shorter);
        let joined = segments(a + shorter);
        if b.last() == SEPARATOR {
            assert(joined.push(Seq::empty()) == left.drop_last() + seq![
                left.last() + right.push(Seq::empty()).first(),
            ] + right.push(Seq::empty()).drop_first());
        } else {
            let grown = right.drop_last().push(right.last().push(b.last()));
            if right.len() == 1 {
                assert((left.last() + right[0]).push(b.last()) == left.last() + right[0].push(
                    b.last(),
                ));
            }
            assert(joined.drop_last().push(joined.last().push(b.last())) == left.drop_last()
                + seq![left.last() + grown.first()] + grown.drop_first());
        }
    }
}

/// A string without a separator is its own only segment.
pub proof fn lemma_segments_of_name(s: Seq<char>)
    requires
        !s.contains(SEPARATOR),
    ensures
        segments(s) == seq![s],
    decreases s.len(),
{
    if s.len() == 0 {
        assert(s == Seq::<char>::empty());
    } else {
        let shorter = s.drop_last();
        assert forall|j: int| 0 <= j < shorter.len() implies shorter[j] != SEPARATOR by {
            assert(s.contains(s[j]));
        }
        lemma_segments_of_name(shorter);
        assert(s.contains(s.last()));
        assert(shorter.push(s.last()) == s);
        assert(seq![shorter].drop_last().push(shorter.push(s.last())) == seq![s]);
    }
}

/// The first segment of a string that is empty or begins with a separator
/// is empty.
pub proof fn lemma_first_segment_after_separator(s: Seq<char>)
    requires
        s.len() == 0 || s[0] == SEPARATOR,
    ensures
        segments(s).first() == Seq::<char>::empty(),
        s.len() > 0 ==> segments(s).len() >= 2,
    decreases s.len(),
{
    if s.len() == 1 {
        assert(s.drop_last().len() == 0);
        assert(segments(s.drop_last()) == seq![Seq::<char>::empty()]);
        assert(s.last() == s[0]);
    } else if s.len() > 1 {
        lemma_first_segment_after_separator(s.drop_last());
    }
}

/// Whether `s` ends in a name: in a character that is no separator and is
/// not the whole of a `.` segment.
pub open spec fn ends_in_name(s: Seq<char>) -> bool {
    &&& s.len() > 0
    &&& s.last() != SEPARATOR
    &&& !(s.last() == '.' && (s.len() == 1 || s[s.len() - 2] == SEPARATOR))
}

/// A string ends in a name just when its last segment names something.
pub proof fn lemma_ends_in_name(s: Seq<char>)
    ensures
        segments(s).len() >= 1,
        ends_in_name(s) <==> is_named(segments(s).last()),
{
    lemma_segments_shape(s);
    let dot = seq!['.'];
    assert(dot.len() == 1 && dot[0] == '.');
    if s.len() > 0 && s.last() != SEPARATOR {
        let shorter = s.drop_last();
        lemma_segments_shape(shorter);
        let before = segments(shorter).last();
        let last = before.push(s.last());
        assert(segments(s).last() == last);
        assert(last[last.len() - 1] == s.last());
        if shorter.len() == 0 {
            assert(before.len() == 0);
        } else if shorter.last() == SEPARATOR {
            assert(before.len() == 0);
        } else {
            lemma_segments_shape(shorter.drop_last());
            assert(before.len() > 0);
        }
        if s.last() == '.' && before.len() == 0 {
            assert(last =~= dot);
        }
    }
}

/// A path that goes on below `root` lies inside `root`, whatever `root` is
/// and however the path goes on.
pub proof fn lemma_below_is_inside(root: Seq<char>, below: Seq<char>)
    ensures
        spec_starts_with(root + seq![SEPARATOR] + below, root),
{
    let named = |segment: Seq<char>| is_named(segment);
    let path = root + seq![SEPARATOR] + below;
    let tail = seq![SEPARATOR] + below;
    assert(path == root + tail);
    lemma_segments_concat(root, tail);
    lemma_first_segment_after_separator(tail);
    let ours = segments(root);
    let rest = segments(tail).drop_first();
    assert(ours.last() + Seq::<char>::empty() == ours.last());
    assert(ours.drop_last() + seq![ours.last()] == ours);
    assert(segments(path) == ours + rest);
    Seq::filter_distributes_over_add(ours, rest, named);
    if root.len() == 0 {
        assert(ours =~= seq![Seq::<char>::empty()]);
        assert(ours.filter(named) =~= Seq::<Seq<char>>::empty()) by {
            reveal_with_fuel(Seq::filter, 2);
        }
        assert(components(root) =~= Seq::<Seq<char>>::empty());
    } else {
        assert(path[0] == root[0]);
        if root.len() == 1 {
            assert(path[1] == SEPARATOR);
        } else {
            assert(path[1] == root[1]);
        }
        assert(lead(path) == lead(root));
        assert(components(path) =~= components(root) + rest.filter(named));
    }
    assert(components(root) =~= components(path).subrange(0, components(root).len() as int));
}

/// Containment goes by whole components: a directory whose name only
/// begins with the name of the root's last directory lies outside the root,
/// and so does everything below it. Here `root` ends in a name, `more` is
/// how the other directory's name goes on, and `below` is empty or leads
/// further down: `/a/bc/file.txt` lies outside `/a/b`.
pub proof fn lemma_longer_name_is_outside(root: Seq<char>, more: Seq<char>, below: Seq<char>)
    requires
        ends_in_name(root),
        more.len() > 0,
        !more.contains(SEPARATOR),
        below.len() == 0 || below[0] == SEPARATOR,
    ensures
        !spec_starts_with(root + more + below, root),
{
    let named = |segment: Seq<char>| is_named(segment);
    let path = root + more + below;
    let tail = more + below;
    let ours = segments(root);
    let name = ours.last();
    lemma_ends_in_name(root);
    assert(path == root + tail);
    lemma_segments_concat(root, tail);
    lemma_segments_concat(more, below);
    lemma_segments_of_name(more);
    lemma_first_segment_after_separator(below);
    assert(segments(tail).first() == more) by {
        assert(more + Seq::<char>::empty() == more);
    }
    let rest = segments(tail).drop_first();
    let longer = name + more;
    assert(segments(path) == ours.drop_last().push(longer) + rest);
    assert(longer.len() >= 2);
    assert(is_named(longer)) by {
        assert(seq!['.'].len() == 1);
    }
    // Both paths begin alike.
    assert(root.len() > 0) by {
        if root.len() == 0 {
            assert(ours == seq![Seq::<char>::empty()]);
        }
    }
    assert(path[0] == root[0]);
    if root.len() == 1 {
        assert(root.drop_last().len() == 0);
        assert(segments(root.drop_last()) == seq![Seq::<char>::empty()]);
        if root[0] != SEPARATOR {
            assert(name == seq![root[0]]);
            assert(root[0] != '.') by {
                if root[0] == '.' {
                    assert(name =~= seq!['.']);
                }
            }
        }
    } else {
        assert(path[1] == root[1]);
    }
    assert(has_root(path) == has_root(root));
    assert(has_leading_cur_dir(path) == has_leading_cur_dir(root));
    assert(lead(path) == lead(root));
    // The component at the place of the root's last one is the longer name.
    let kept = ours.drop_last().filter(named);
    assert(ours == ours.drop_last().push(name));
    ours.drop_last().lemma_filter_push(name, named);
    ours.drop_last().lemma_filter_push(longer, named);
    Seq::filter_distributes_over_add(ours.drop_last().push(longer), rest, named);
    let place = lead(root).len() + kept.len();
    assert(components(root) =~= (lead(root) + kept).push(name));
    assert(components(path) =~= (lead(root) + kept).push(longer) + rest.filter(named));
    assert(components(root)[place as int] == name);
    assert(components(path)[place as int] == longer);
    assert(name != longer) by {
        assert(name.len() != longer.len());
    }
    if spec_starts_with(path, root) {
        assert(components(path).subrange(0, components(root).len() as int)[place as int]
            == components(path)[place as int]);
    }
}

/// Whether the first `n` characters of `s` are a path on the way to `s`:
/// they hold the lead of `s`, and they end where `s` ends, before a
/// separator, or with the lead.
pub open spec fn is_cut(s: Seq<char>, n: int) -> bool {
    &&& lead_len(s) <= n <= s.len()
    &&& (n == s.len() || n == lead_len(s) || s[n] == SEPARATOR)
}

/// The last segment of the first `n` characters of `s` begins where
/// `last_segment_start` says, and the segments before it are those of the
/// characters before the separator in front of it.
proof fn lemma_last_segment(s: Seq<char>, n: int)
    requires
        0 <= n <= s.len(),
    ensures
        ({
            let start = last_segment_start(s, 0, n);
            let segs = segments(s.take(n));
            &&& 0 <= start <= n
            &&& segs.len() >= 1
            &&& segs.last() == s.subrange(start, n)
            &&& start > 0 ==> s[start - 1] == SEPARATOR && segs.drop_last() == segments(
                s.take(start - 1),
            )
            &&& start == 0 ==> segs.len() == 1
        }),
    decreases n,
{
    let segs = segments(s.take(n));
    if n == 0 {
        assert(s.take(0).len() == 0);
        assert(s.subrange(0, 0) == Seq::<char>::empty());
    } else {
        lemma_last_segment(s, n - 1);
        assert(s.take(n).drop_last() == s.take(n - 1));
        assert(s.take(n).last() == s[n - 1]);
        let init = segments(s.take(n - 1));
        if s[n - 1] == SEPARATOR {
            assert(s.subrange(n, n) == Seq::<char>::empty());
            assert(init.push(Seq::empty()).drop_last() == init);
        } else {
            let start = last_segment_start(s, 0, n - 1);
            assert(s.subrange(start, n - 1).push(s[n - 1]) == s.subrange(start, n));
            assert(init.drop_last().push(init.last().push(s[n - 1])).drop_last()
                == init.drop_last());
        }
    }
}

/// Behind the lead of `s`, the last segment begins at the same place
/// whether or not the lead is left aside.
proof fn lemma_start_behind_lead(s: Seq<char>, n: int)
    requires
        lead_len(s) <= n <= s.len(),
    ensures
        lead_len(s) <= last_segment_start(s, lead_len(s), n) <= n,
        !(has_leading_cur_dir(s) && n == 1) ==> last_segment_start(s, lead_len(s), n)
            == last_segment_start(s, 0, n),
        has_leading_cur_dir(s) && n >= 2 ==> last_segment_start(s, lead_len(s), n) >= 2,
    decreases n,
{
    let lo = lead_len(s);
    if n > lo && s[n - 1] != SEPARATOR {
        lemma_start_behind_lead(s, n - 1);
    }
}

/// A path on the way to `s` begins as `s` does.
proof fn lemma_lead_of_cut(s: Seq<char>, n: int)
    requires
        is_cut(s, n),
    ensures
        lead(s.take(n)) == lead(s),
{
    let t = s.take(n);
    if n >= 1 {
        assert(t[0] == s[0]);
    }
    if n >= 2 {
        assert(t[1] == s[1]);
    }
}

/// The lead of `s` alone has the lead as its only component.
proof fn lemma_components_of_lead(s: Seq<char>)
    ensures
        components(s.take(lead_len(s))) == lead(s),
        is_cut(s, lead_len(s)),
{
    let lo = lead_len(s);
    let t = s.take(lo);
    lemma_lead_of_cut(s, lo);
    let none = Seq::<Seq<char>>::empty();
    lemma_named_of_push(none, Seq::empty());
    assert(seq![Seq::<char>::empty()] == none.push(Seq::empty()));
    assert(segments(Seq::<char>::empty()) == seq![Seq::<char>::empty()]);
    if lo == 0 {
        assert(t == Seq::<char>::empty());
    } else {
        assert(t.drop_last() == Seq::<char>::empty());
        assert(t.last() == s[0]);
        if s[0] == SEPARATOR {
            lemma_named_of_push(seq![Seq::<char>::empty()], Seq::empty());
        } else {
            let dot = Seq::<char>::empty().push('.');
            assert(dot == seq!['.']);
            assert(segments(t) == none.push(dot));
            lemma_named_of_push(none, dot);
        }
    }
    assert(components(t) =~= lead(s));
}

/// The components of the first `n` characters of `s`, when their last
/// segment begins behind a separator: those of the characters before that
/// separator, and the last segment if it names something.
proof fn lemma_components_behind_separator(s: Seq<char>, n: int)
    requires
        is_cut(s, n),
        last_segment_start(s, lead_len(s), n) > lead_len(s),
    ensures
        ({
            let start = last_segment_start(s, lead_len(s), n);
            let last = s.subrange(start, n);
            let before = components(s.take(start - 1));
            &&& is_cut(s, start - 1)
            &&& components(s.take(n)) == if is_named(last) {
                before.push(last)
            } else {
                before
            }
        }),
{
    let lo = lead_len(s);
    let start = last_segment_start(s, lo, n);
    lemma_start_behind_lead(s, n);
    lemma_last_segment(s, n);
    assert(start == last_segment_start(s, 0, n));
    let shorter = segments(s.take(start - 1));
    let last = s.subrange(start, n);
    assert(segments(s.take(n)) == shorter.push(last)) by {
        let segs = segments(s.take(n));
        assert(segs == segs.drop_last().push(segs.last()));
    }
    lemma_named_of_push(shorter, last);
    lemma_lead_of_cut(s, n);
    lemma_lead_of_cut(s, start - 1);
    assert(components(s.take(n)) =~= if is_named(last) {
        components(s.take(start - 1)).push(last)
    } else {
        components(s.take(start - 1))
    });
}

/// The components of the first `n` characters of `s`, when their last
/// segment begins right behind the lead: the lead, and the last segment if
/// it names something.
proof fn lemma_components_behind_lead(s: Seq<char>, n: int)
    requires
        is_cut(s, n),
        n > lead_len(s),
        last_segment_start(s, lead_len(s), n) == lead_len(s),
    ensures
        ({
            let last = s.subrange(lead_len(s), n);
            components(s.take(n)) == if is_named(last) {
                lead(s).push(last)
            } else {
                lead(s)
            }
        }),
        !is_named(s.subrange(lead_len(s), n)) ==> has_root(s),
{
    let lo = lead_len(s);
    let last = s.subrange(lo, n);
    let none = Seq::<Seq<char>>::empty();
    lemma_start_behind_lead(s, n);
    lemma_last_segment(s, n);
    lemma_lead_of_cut(s, n);
    lemma_named_of_push(none, last);
    let segs = segments(s.take(n));
    if has_leading_cur_dir(s) {
        assert(n >= 2);
    } else if lo == 0 {
        assert(segs == none.push(last)) by {
            assert(segs == segs.drop_last().push(segs.last()));
            assert(segs.drop_last() == none);
        }
        if !is_named(last) {
            assert(last.len() > 0);
            assert(last == seq!['.']);
            assert(last[0] == s[0]);
            assert(n == 1);
        }
    } else {
        assert(s.take(0) == Seq::<char>::empty());
        assert(segments(Seq::<char>::empty()) == seq![Seq::<char>::empty()]);
        assert(seq![Seq::<char>::empty()] == none.push(Seq::empty()));
        lemma_named_of_push(none, Seq::empty());
        assert(segs == seq![Seq::<char>::empty()].push(last)) by {
            assert(segs == segs.drop_last().push(segs.last()));
        }
        lemma_named_of_push(seq![Seq::<char>::empty()], last);
    }
    assert(components(s.take(n)) =~= if is_named(last) {
        lead(s).push(last)
    } else {
        lead(s)
    });
}

/// Taking the trailing segments that name nothing off a path leaves its
/// components as they are.
proof fn lemma_trim_keeps_components(s: Seq<char>, n: int)
    requires
        is_cut(s, n),
    ensures
        is_cut(s, trimmed_len(s, lead_len(s), n)),
        lead_len(s) <= trimmed_len(s, lead_len(s), n) <= n,
        components(s.take(trimmed_len(s, lead_len(s), n))) == components(s.take(n)),
        trimmed_len(s, lead_len(s), n) > lead_len(s) ==> is_named(
            s.subrange(
                last_segment_start(s, lead_len(s), trimmed_len(s, lead_len(s), n)),
                trimmed_len(s, lead_len(s), n),
            ),
        ),
    decreases n,
{
    let lo = lead_len(s);
    if n > lo {
        let start = last_segment_start(s, lo, n);
        lemma_start_behind_lead(s, n);
        if !is_named(s.subrange(start, n)) {
            if start > lo {
                lemma_components_behind_separator(s, n);
                lemma_trim_keeps_components(s, start - 1);
            } else {
                lemma_components_behind_lead(s, n);
                lemma_components_of_lead(s);
            }
        }
    }
}

/// A path whose trimmed length exceeds its lead has the components of its
/// parent, and its last segment behind them.
proof fn lemma_parent_of_longer_path(s: Seq<char>)
    requires
        trimmed_len(s, lead_len(s), s.len() as int) > lead_len(s),
    ensures
        ({
            let lo = lead_len(s);
            let end = trimmed_len(s, lo, s.len() as int);
            let last = s.subrange(last_segment_start(s, lo, end), end);
            components(s) == components(s.take(parent_len(s, lo, end))).push(last)
        }),
{
    let lo = lead_len(s);
    let len = s.len() as int;
    let end = trimmed_len(s, lo, len);
    let start = last_segment_start(s, lo, end);
    let last = s.subrange(start, end);
    assert(s.take(len) == s);
    lemma_trim_keeps_components(s, len);
    assert(components(s) == components(s.take(end)));
    assert(is_named(last));
    lemma_start_behind_lead(s, end);
    if start > lo {
        lemma_components_behind_separator(s, end);
        lemma_trim_keeps_components(s, start - 1);
        assert(parent_len(s, lo, end) == trimmed_len(s, lo, start - 1));
    } else {
        lemma_components_behind_lead(s, end);
        lemma_components_of_lead(s);
        lemma_trim_keeps_components(s, lo);
        assert(parent_len(s, lo, end) == trimmed_len(s, lo, lo));
    }
}

/// A path whose trimmed length is its lead has the lead as its only
/// component, if it has a lead.
proof fn lemma_components_of_short_path(s: Seq<char>)
    requires
        trimmed_len(s, lead_len(s), s.len() as int) <= lead_len(s),
    ensures
        components(s) == lead(s),
        components(Seq::<char>::empty()) == Seq::<Seq<char>>::empty(),
{
    let len = s.len() as int;
    assert(s.take(len) == s);
    lemma_trim_keeps_components(s, len);
    lemma_components_of_lead(s);
    let nothing = Seq::<char>::empty();
    assert(nothing.take(0) == nothing);
    lemma_components_of_lead(nothing);
}

/// The parent of a path has the path's components but the last. A path has
/// no parent just when it has no component or only the root.
pub proof fn lemma_parent_drops_last_component(s: Seq<char>)
    ensures
        match spec_parent(s) {
            Some(dir) => components(s).len() > 0 && components(dir) == components(s).drop_last(),
            None => components(s).len() == 0 || components(s) == seq![seq![SEPARATOR]],
        },
{
    let lo = lead_len(s);
    let end = trimmed_len(s, lo, s.len() as int);
    if end > lo {
        lemma_parent_of_longer_path(s);
        let dir = s.take(parent_len(s, lo, end));
        let last = s.subrange(last_segment_start(s, lo, end), end);
        assert(spec_parent(s) == Some(dir));
        assert(components(dir).push(last).drop_last() == components(dir));
    } else {
        lemma_components_of_short_path(s);
        if has_leading_cur_dir(s) {
            assert(spec_parent(s) == Some(Seq::<char>::empty()));
            assert(lead(s).drop_last() =~= Seq::<Seq<char>>::empty());
        } else {
            assert(spec_parent(s) is None);
        }
    }
}

/// The file name of a path, where it has one, is its last component.
pub proof fn lemma_file_name_is_last_component(s: Seq<char>)
    ensures
        spec_file_name(s) matches Some(name) ==> components(s).len() > 0 && components(s).last()
            == name && is_named(name),
{
    let lo = lead_len(s);
    let end = trimmed_len(s, lo, s.len() as int);
    if end > lo {
        lemma_parent_of_longer_path(s);
        assert(s.take(s.len() as int) == s);
        lemma_trim_keeps_components(s, s.len() as int);
    }
}

/// Every path lies inside itself.
pub proof fn lemma_inside_itself(path: Seq<char>)
    ensures
        spec_starts_with(path, path),
{
    assert(components(path).subrange(0, components(path).len() as int) =~= components(path));
}

/// What lies inside a directory lies inside every directory that this one
/// lies inside.
pub proof fn lemma_inside_is_transitive(path: Seq<char>, inner: Seq<char>, outer: Seq<char>)
    requires
        spec_starts_with(path, inner),
        spec_starts_with(inner, outer),
    ensures
        spec_starts_with(path, outer),
{
    let far = components(outer).len() as int;
    let near = components(inner).len() as int;
    assert(components(path).subrange(0, far) =~= components(path).subrange(0, near).subrange(
        0,
        far,
    ));
}

/// A path lies inside its parent.
pub proof fn lemma_inside_parent(path: Seq<char>)
    ensures
        spec_parent(path) matches Some(dir) ==> spec_starts_with(path, dir),
{
    lemma_parent_drops_last_component(path);
    if spec_parent(path) is Some {
        let all = components(path);
        assert(all.drop_last() =~= all.subrange(0, all.len() - 1));
    }
}

/// The root directory written as one separator is the root directory.
pub proof fn lemma_separator_is_root_dir()
    ensures
        spec_is_root_dir(seq![SEPARATOR]),
        spec_parent(seq![SEPARATOR]) is None,
        spec_file_name(seq![SEPARATOR]) is None,
{
    let root = seq![SEPARATOR];
    assert(root.take(lead_len(root)) == root);
    lemma_components_of_lead(root);
}

/// Where no separator stands between `lo` and `n`, the last segment of the
/// first `n` characters begins at `lo`.
proof fn lemma_start_of_last_name(s: Seq<char>, lo: int, n: int)
    requires
        0 <= lo <= n <= s.len(),
        forall|i: int| lo <= i < n ==> s[i] != SEPARATOR,
    ensures
        last_segment_start(s, lo, n) == lo,
    decreases n,
{
    if n > lo {
        lemma_start_of_last_name(s, lo, n - 1);
    }
}

/// The parent of a name right under the root directory is the root
/// directory.
pub proof fn lemma_parent_under_root(name: Seq<char>)
    requires
        is_named(name),
        !name.contains(SEPARATOR),
    ensures
        spec_parent(seq![SEPARATOR] + name) == Some(seq![SEPARATOR]),
{
    let path = seq![SEPARATOR] + name;
    let len = path.len() as int;
    assert forall|i: int| 1 <= i < len implies path[i] != SEPARATOR by {
        assert(path[i] == name[i - 1]);
        assert(name.contains(name[i - 1]));
    }
    lemma_start_of_last_name(path, 1, len);
    assert(path.subrange(1, len) == name);
    assert(trimmed_len(path, 1, len) == len);
    assert(trimmed_len(path, 1, 1) == 1);
    assert(path.take(1) == seq![SEPARATOR]);
}

} // verus!
