//! Review comments and issues rendered as markdown for a language model to read.
use vstd::prelude::*;
use vstd::string::*;

use crate::client::{Comment, CommentView, Issue, Label, User};
use crate::language::{
    comment_prefix_of, comment_suffix_of, detect_language, get_comment_prefix, get_comment_suffix,
    language_of,
};
use crate::diff::parser::views_of;
use crate::side_by_side_diff::{
    calculate_context_range, context_range, hunk_lines_of, min_max, parse_diff_hunk_with_line_numbers,
    seq_max, seq_min, ParsedHunkLine, ParsedHunkLineView,
};
use crate::text::{
    append_chars, chars_of, decimal, lines_of, push_decimal, push_str, span, span_len,
    split_lines, string_of, string_views, CharClass,
};

verus! {

broadcast use vstd::seq_lib::group_seq_properties;

// ---------------------------------------------------------------------------
// Sequences of text pieces
// ---------------------------------------------------------------------------

/// The pieces `f(x)` of the items `x` of `s`, one after the other.
pub open spec fn concat_map<T>(s: Seq<T>, f: spec_fn(T) -> Seq<char>) -> Seq<char>
    decreases s.len(),
{
    if s.len() == 0 {
        seq![]
    } else {
        concat_map(s.drop_last(), f) + f(s.last())
    }
}

/// Adding an item adds its piece at the end.
pub proof fn lemma_concat_map_step<T>(s: Seq<T>, f: spec_fn(T) -> Seq<char>, i: int)
    requires
        0 <= i < s.len(),
    ensures
        concat_map(s.take(i + 1), f) == concat_map(s.take(i), f) + f(s[i]),
{
    assert(s.take(i + 1).drop_last() =~= s.take(i));
}

// ---------------------------------------------------------------------------
// Grouping and ordering
// ---------------------------------------------------------------------------

/// The first of `gs[from..]` whose key is `k`.
pub open spec fn key_index<T>(gs: Seq<(Seq<char>, Seq<T>)>, k: Seq<char>, from: int) -> Option<int>
    decreases gs.len() - from,
{
    if from < 0 || from >= gs.len() {
        None
    } else if gs[from].0 == k {
        Some(from)
    } else {
        key_index(gs, k, from + 1)
    }
}

proof fn lemma_key_index<T>(gs: Seq<(Seq<char>, Seq<T>)>, k: Seq<char>, from: int)
    requires
        0 <= from,
    ensures
        key_index(gs, k, from) matches Some(i) ==> from <= i < gs.len() && gs[i].0 == k,
        key_index(gs, k, from) is None ==> forall|j: int| from <= j < gs.len() ==> gs[j].0 != k,
    decreases gs.len() - from,
{
    if from < gs.len() && gs[from].0 != k {
        lemma_key_index(gs, k, from + 1);
    }
}

/// `x` added under the key `k`: to the group of `k`, or as a new last group.
pub open spec fn group_insert<T>(gs: Seq<(Seq<char>, Seq<T>)>, k: Seq<char>, x: T) -> Seq<(Seq<char>, Seq<T>)> {
    match key_index(gs, k, 0) {
        Some(i) => gs.update(i, (k, gs[i].1.push(x))),
        None => gs.push((k, seq![x])),
    }
}

/// The items of `s` grouped by `key`: groups in the order their keys first
/// appear, items of a group in their order in `s`.
pub open spec fn group_by<T>(s: Seq<T>, key: spec_fn(T) -> Seq<char>) -> Seq<(Seq<char>, Seq<T>)>
    decreases s.len(),
{
    if s.len() == 0 {
        seq![]
    } else {
        group_insert(group_by(s.drop_last(), key), key(s.last()), s.last())
    }
}

/// The number of items in all the groups.
pub open spec fn total_items<T>(gs: Seq<(Seq<char>, Seq<T>)>) -> nat
    decreases gs.len(),
{
    if gs.len() == 0 {
        0
    } else {
        total_items(gs.drop_last()) + gs.last().1.len()
    }
}

proof fn lemma_total_items_update<T>(gs: Seq<(Seq<char>, Seq<T>)>, i: int, g: (Seq<char>, Seq<T>))
    requires
        0 <= i < gs.len(),
    ensures
        total_items(gs.update(i, g)) + gs[i].1.len() == total_items(gs) + g.1.len(),
    decreases gs.len(),
{
    let u = gs.update(i, g);
    if i == gs.len() - 1 {
        assert(u.drop_last() =~= gs.drop_last());
    } else {
        lemma_total_items_update(gs.drop_last(), i, g);
        assert(u.drop_last() =~= gs.drop_last().update(i, g));
        assert(u.last() == gs.last());
    }
}

/// Grouping keeps every item once: each group holds items of its key only
/// and at least one, no two groups have the same key, and the groups hold
/// as many items as there are.
pub proof fn law_group_by_partitions<T>(s: Seq<T>, key: spec_fn(T) -> Seq<char>)
    ensures
        forall|i: int| 0 <= i < group_by(s, key).len() ==> (#[trigger] group_by(s, key)[i]).1.len() > 0,
        forall|i: int, j: int|
            0 <= i < group_by(s, key).len() && 0 <= j < group_by(s, key)[i].1.len() ==> key(
                #[trigger] group_by(s, key)[i].1[j],
            ) == group_by(s, key)[i].0,
        forall|i: int, j: int|
            0 <= i < j < group_by(s, key).len() ==> (#[trigger] group_by(s, key)[i]).0 != (
            #[trigger] group_by(s, key)[j]).0,
        total_items(group_by(s, key)) == s.len(),
    decreases s.len(),
{
    if s.len() > 0 {
        let g = group_by(s.drop_last(), key);
        law_group_by_partitions(s.drop_last(), key);
        let k = key(s.last());
        let x = s.last();
        lemma_key_index(g, k, 0);
        let h = group_by(s, key);
        assert(h == group_insert(g, k, x));
        match key_index(g, k, 0) {
            Some(i) => {
                let ng = (k, g[i].1.push(x));
                assert(h == g.update(i, ng));
                lemma_total_items_update(g, i, ng);
                assert forall|a: int, b: int| 0 <= a < h.len() && 0 <= b < h[a].1.len() implies key(
                    #[trigger] h[a].1[b],
                ) == h[a].0 by {
                    if a == i {
                        if b < g[i].1.len() {
                            assert(h[a].1[b] == g[i].1[b]);
                        }
                    } else {
                        assert(h[a] == g[a]);
                    }
                }
                assert forall|a: int, b: int| 0 <= a < b < h.len() implies (#[trigger] h[a]).0 != (
                #[trigger] h[b]).0 by {
                    assert(h[a].0 == g[a].0 && h[b].0 == g[b].0);
                }
                assert forall|a: int| 0 <= a < h.len() implies (#[trigger] h[a]).1.len() > 0 by {
                    if a != i {
                        assert(h[a] == g[a]);
                    }
                }
            },
            None => {
                assert(h == g.push((k, seq![x])));
                assert(h.drop_last() =~= g);
                assert forall|a: int, b: int| 0 <= a < h.len() && 0 <= b < h[a].1.len() implies key(
                    #[trigger] h[a].1[b],
                ) == h[a].0 by {
                    if a < g.len() {
                        assert(h[a] == g[a]);
                    }
                }
                assert forall|a: int, b: int| 0 <= a < b < h.len() implies (#[trigger] h[a]).0 != (
                #[trigger] h[b]).0 by {
                    assert(h[a] == g[a]);
                    if b < g.len() {
                        assert(h[b] == g[b]);
                    }
                }
                assert forall|a: int| 0 <= a < h.len() implies (#[trigger] h[a]).1.len() > 0 by {
                    if a < g.len() {
                        assert(h[a] == g[a]);
                    }
                }
            },
        }
    }
}

/// The first of `s[from..]` that `x` goes before.
pub open spec fn insertion_point<T>(s: Seq<T>, x: T, before: spec_fn(T, T) -> bool, from: int) -> int
    decreases s.len() - from,
{
    if from < 0 || from >= s.len() {
        s.len() as int
    } else if before(x, s[from]) {
        from
    } else {
        insertion_point(s, x, before, from + 1)
    }
}

pub proof fn lemma_insertion_point<T>(s: Seq<T>, x: T, before: spec_fn(T, T) -> bool, from: int)
    requires
        0 <= from <= s.len(),
    ensures
        from <= insertion_point(s, x, before, from) <= s.len(),
    decreases s.len() - from,
{
    if from < s.len() && !before(x, s[from]) {
        lemma_insertion_point(s, x, before, from + 1);
    }
}

/// `s` sorted by insertion: each item goes before the first item placed so
/// far that it must precede, else at the end. With `before` a strict
/// order this is a stable sort.
pub open spec fn insertion_sort<T>(s: Seq<T>, before: spec_fn(T, T) -> bool) -> Seq<T>
    decreases s.len(),
{
    if s.len() == 0 {
        seq![]
    } else {
        let sorted = insertion_sort(s.drop_last(), before);
        sorted.insert(insertion_point(sorted, s.last(), before, 0), s.last())
    }
}

/// Whether `before` is a strict order: transitive and asymmetric.
pub open spec fn strict_order<T>(before: spec_fn(T, T) -> bool) -> bool {
    &&& forall|a: T, b: T, c: T| #[trigger] before(a, b) && #[trigger] before(b, c) ==> before(a, c)
    &&& forall|a: T, b: T| #[trigger] before(a, b) ==> !before(b, a)
}

/// Whether no item of `s` must come before an item placed earlier.
pub open spec fn sorted_by<T>(s: Seq<T>, before: spec_fn(T, T) -> bool) -> bool {
    forall|i: int, j: int| 0 <= i < j < s.len() ==> !before(#[trigger] s[j], #[trigger] s[i])
}

proof fn lemma_insertion_point_first<T>(s: Seq<T>, x: T, before: spec_fn(T, T) -> bool, from: int)
    requires
        0 <= from <= s.len(),
    ensures
        forall|k: int| from <= k < insertion_point(s, x, before, from) ==> !before(x, #[trigger] s[k]),
        insertion_point(s, x, before, from) < s.len() ==> before(x, s[insertion_point(s, x, before, from)]),
    decreases s.len() - from,
{
    if from < s.len() && !before(x, s[from]) {
        lemma_insertion_point_first(s, x, before, from + 1);
    }
}

/// Sorting by insertion with a strict order gives a sorted sequence: no
/// item must come before one placed earlier.
pub proof fn law_insertion_sort_sorted<T>(s: Seq<T>, before: spec_fn(T, T) -> bool)
    requires
        strict_order(before),
    ensures
        sorted_by(insertion_sort(s, before), before),
    decreases s.len(),
{
    if s.len() > 0 {
        let t = s.drop_last();
        law_insertion_sort_sorted(t, before);
        let sorted = insertion_sort(t, before);
        let x = s.last();
        lemma_insertion_point(sorted, x, before, 0);
        lemma_insertion_point_first(sorted, x, before, 0);
        let p = insertion_point(sorted, x, before, 0);
        let r = sorted.insert(p, x);
        assert(r == insertion_sort(s, before));
        assert forall|i: int, j: int| 0 <= i < j < r.len() implies !before(#[trigger] r[j], #[trigger] r[i]) by {
            if j < p {
                assert(r[i] == sorted[i] && r[j] == sorted[j]);
            } else if j == p {
                assert(r[j] == x && r[i] == sorted[i]);
            } else if i < p {
                assert(r[i] == sorted[i] && r[j] == sorted[j - 1]);
            } else if i == p {
                assert(r[i] == x && r[j] == sorted[j - 1]);
                assert(before(x, sorted[p]));
                if before(sorted[j - 1], x) {
                    if j - 1 > p {
                        assert(before(sorted[j - 1], sorted[p]));
                    }
                }
            } else {
                assert(r[i] == sorted[i - 1] && r[j] == sorted[j - 1]);
            }
        }
    }
}

proof fn lemma_text_lt_asymmetric(a: Seq<char>, b: Seq<char>)
    ensures
        text_lt(a, b) ==> !text_lt(b, a),
    decreases a.len(),
{
    if a.len() > 0 && b.len() > 0 {
        lemma_text_lt_asymmetric(a.drop_first(), b.drop_first());
    }
}

proof fn lemma_text_lt_transitive(a: Seq<char>, b: Seq<char>, c: Seq<char>)
    ensures
        text_lt(a, b) && text_lt(b, c) ==> text_lt(a, c),
    decreases a.len(),
{
    if a.len() > 0 && b.len() > 0 && c.len() > 0 {
        lemma_text_lt_transitive(a.drop_first(), b.drop_first(), c.drop_first());
    }
}

/// Lexicographic order is a strict order.
pub proof fn law_text_order_is_strict()
    ensures
        strict_order(|a: Seq<char>, b: Seq<char>| text_lt(a, b)),
{
    assert forall|a: Seq<char>, b: Seq<char>, c: Seq<char>| text_lt(a, b) && text_lt(b, c) implies text_lt(a, c) by {
        lemma_text_lt_transitive(a, b, c);
    }
    assert forall|a: Seq<char>, b: Seq<char>| text_lt(a, b) implies !text_lt(b, a) by {
        lemma_text_lt_asymmetric(a, b);
    }
}

/// Sorting by insertion keeps the items: the sorted sequence holds each
/// item as many times as the sequence sorted.
pub proof fn law_insertion_sort_permutes<T>(s: Seq<T>, before: spec_fn(T, T) -> bool)
    ensures
        insertion_sort(s, before).to_multiset() == s.to_multiset(),
        insertion_sort(s, before).len() == s.len(),
    decreases s.len(),
{
    broadcast use vstd::seq_lib::to_multiset_insert, vstd::seq_lib::to_multiset_build, vstd::seq_lib::to_multiset_len;

    if s.len() == 0 {
        assert(s.to_multiset() =~= Seq::<T>::empty().to_multiset());
    } else {
        let t = s.drop_last();
        law_insertion_sort_permutes(t, before);
        let sorted = insertion_sort(t, before);
        lemma_insertion_point(sorted, s.last(), before, 0);
        let p = insertion_point(sorted, s.last(), before, 0);
        assert(sorted.insert(p, s.last()).to_multiset() == sorted.to_multiset().insert(s.last()));
        assert(t.push(s.last()) =~= s);
        assert(t.push(s.last()).to_multiset() == t.to_multiset().insert(s.last()));
    }
}

/// Whether `a` comes before `b` in lexicographic order of characters (the
/// order of `str`).
pub open spec fn text_lt(a: Seq<char>, b: Seq<char>) -> bool
    decreases a.len(),
{
    if a.len() == 0 {
        b.len() > 0
    } else if b.len() == 0 {
        false
    } else if a[0] != b[0] {
        a[0] < b[0]
    } else {
        text_lt(a.drop_first(), b.drop_first())
    }
}

/// Whether `a` comes before `b` in lexicographic order.
pub fn str_lt(a: &Vec<char>, b: &Vec<char>) -> (r: bool)
    ensures
        r == text_lt(a@, b@),
{
    let mut i: usize = 0;
    while i < a.len() && i < b.len()
        invariant
            i <= a@.len(),
            i <= b@.len(),
            text_lt(a@, b@) == text_lt(a@.skip(i as int), b@.skip(i as int)),
        decreases a@.len() - i,
    {
        assert(a@.skip(i as int)[0] == a@[i as int]);
        assert(b@.skip(i as int)[0] == b@[i as int]);
        if a[i] != b[i] {
            return a[i] < b[i];
        }
        assert(a@.skip(i as int).drop_first() =~= a@.skip(i + 1));
        assert(b@.skip(i as int).drop_first() =~= b@.skip(i + 1));
        i += 1;
    }
    i == a.len() && i < b.len()
}

// ---------------------------------------------------------------------------
// Grouping comments by file
// ---------------------------------------------------------------------------

/// The path of a comment.
pub open spec fn path_key(c: CommentView) -> Seq<char> {
    c.path
}

/// The views of groups of comments.
pub open spec fn groups_view(gs: Seq<(String, Vec<Comment>)>) -> Seq<(Seq<char>, Seq<CommentView>)> {
    gs.map_values(|g: (String, Vec<Comment>)| (g.0@, views_of(g.1@)))
}

/// Groups comments by their file path: one group per path, in the order
/// the paths first appear, each with the comments on that path in order.
pub fn group_comments_by_file(comments: Vec<Comment>) -> (r: Vec<(String, Vec<Comment>)>)
    ensures
        groups_view(r@) == group_by(views_of(comments@), |c: CommentView| path_key(c)),
{
    let ghost all = views_of(comments@);
    let mut rest = comments;
    let mut groups: Vec<(String, Vec<Comment>)> = Vec::new();
    let ghost mut done: int = 0;
    while rest.len() > 0
        invariant
            0 <= done <= all.len(),
            views_of(rest@) == all.skip(done),
            groups_view(groups@) == group_by(all.take(done), |c: CommentView| path_key(c)),
        decreases rest@.len(),
    {
        let ghost before = groups_view(groups@);
        let c = rest.remove(0);
        assert(all[done] == c.deep_view()) by {
            assert(views_of(rest@) =~= all.skip(done).drop_first());
            assert(all.skip(done)[0] == all[done]);
        }
        let mut i: usize = 0;
        let n = groups.len();
        while i < n
            invariant
                i <= n == groups@.len(),
                groups_view(groups@) == before,
                key_index(before, c.path@, 0) == key_index(before, c.path@, i as int),
            ensures
                i <= n,
                key_index(before, c.path@, 0) == key_index(before, c.path@, i as int),
                i < n ==> before[i as int].0 == c.path@,
            decreases n - i,
        {
            assert(before[i as int].0 == groups@[i as int].0@);
            if crate::text::str_eq(groups[i].0.as_str(), c.path.as_str()) {
                break;
            }
            i += 1;
        }
        proof {
            assert(all.take(done + 1).drop_last() =~= all.take(done));
            assert(all.take(done + 1).last() == c.deep_view());
        }
        if i < n {
            assert(key_index(before, c.path@, 0) == Some(i as int));
            let mut g = groups.remove(i);
            let ghost gv = g.1@;
            g.1.push(c);
            assert(views_of(g.1@) =~= views_of(gv).push(c.deep_view()));
            groups.insert(i, g);
            assert(groups_view(groups@) =~= before.update(i as int, (c.path@, before[i as int].1.push(c.deep_view()))));
        } else {
            assert(key_index(before, c.path@, 0) is None);
            let k = c.path.clone();
            let mut v: Vec<Comment> = Vec::new();
            v.push(c);
            assert(views_of(v@) =~= seq![c.deep_view()]);
            groups.push((k, v));
            assert(groups_view(groups@) =~= before.push((c.path@, seq![c.deep_view()])));
        }
        proof {
            let t = all.take(done + 1);
            assert(group_by(t, |c: CommentView| path_key(c)) == group_insert(group_by(t.drop_last(), |c: CommentView| path_key(c)), t.last().path, t.last()));
            assert(groups_view(groups@) == group_insert(before, c.path@, c.deep_view()));
            done = done + 1;
            assert(views_of(rest@) =~= all.skip(done));
        }
    }
    assert(all.take(done) =~= all);
    groups
}

// ---------------------------------------------------------------------------
// One comment
// ---------------------------------------------------------------------------

/// The leading whitespace of a line.
pub open spec fn leading_whitespace(line: Seq<char>) -> Seq<char> {
    line.take(span_len(line, CharClass::Whitespace) as int)
}

/// The indentation (leading whitespace) of a line.
pub fn get_indentation(line: &str) -> (r: String)
    ensures
        r@ == leading_whitespace(line@),
{
    let cs = chars_of(line);
    let end = span(&cs, 0, CharClass::Whitespace);
    assert(cs@.skip(0) =~= cs@);
    assert(cs@.subrange(0, end as int) =~= leading_whitespace(line@));
    string_of(&cs, 0, end)
}

/// A line of a comment's body inside the comment markers.
pub open spec fn body_line(ind: Seq<char>, prefix: Seq<char>, suffix: Seq<char>, line: Seq<char>) -> Seq<char> {
    if line.len() == 0 {
        ind + prefix + suffix + "\n"@
    } else {
        ind + prefix + " "@ + line + suffix + "\n"@
    }
}

/// A comment written in the comment syntax of the language, each line
/// indented by `ind`, its body between `<review>` and `</review>`.
pub open spec fn comment_text(body: Seq<char>, ind: Seq<char>, prefix: Seq<char>, suffix: Seq<char>) -> Seq<char> {
    ind + prefix + " <review>"@ + suffix + "\n"@
        + concat_map(lines_of(body), |l: Seq<char>| body_line(ind, prefix, suffix, l))
        + ind + prefix + " </review>"@ + suffix + "\n"@
}

/// Writes a comment in the comment syntax of the language, see [`comment_text`].
pub fn write_comment(out: &mut Vec<char>, body: &str, indentation: &str, prefix: &str, suffix: &str)
    ensures
        final(out)@ == old(out)@ + comment_text(body@, indentation@, prefix@, suffix@),
{
    let ghost f = |l: Seq<char>| body_line(indentation@, prefix@, suffix@, l);
    push_str(out, indentation);
    push_str(out, prefix);
    push_str(out, " <review>");
    push_str(out, suffix);
    push_str(out, "\n");
    let ghost start = out@;
    let lines = split_lines(body);
    let ghost ls = string_views(lines@);
    let mut i: usize = 0;
    while i < lines.len()
        invariant
            i <= lines@.len(),
            ls == string_views(lines@),
            ls == lines_of(body@),
            out@ == start + concat_map(ls.take(i as int), |l: Seq<char>| body_line(indentation@, prefix@, suffix@, l)),
        decreases lines@.len() - i,
    {
        let line: &str = lines[i].as_str();
        assert(line@ == ls[i as int]);
        push_str(out, indentation);
        push_str(out, prefix);
        if line.unicode_len() == 0 {
            push_str(out, suffix);
            push_str(out, "\n");
        } else {
            push_str(out, " ");
            push_str(out, line);
            push_str(out, suffix);
            push_str(out, "\n");
        }
        proof {
            lemma_concat_map_step(ls, |l: Seq<char>| body_line(indentation@, prefix@, suffix@, l), i as int);
        }
        i += 1;
    }
    assert(ls.take(i as int) =~= ls);
    push_str(out, indentation);
    push_str(out, prefix);
    push_str(out, " </review>");
    push_str(out, suffix);
    push_str(out, "\n");
}

// ---------------------------------------------------------------------------
// One hunk
// ---------------------------------------------------------------------------

/// The comments on line `n`, in order.
pub open spec fn with_line(cs: Seq<CommentView>, n: u32) -> Seq<CommentView>
    decreases cs.len(),
{
    if cs.len() == 0 {
        seq![]
    } else if cs.last().line == Some(n) {
        with_line(cs.drop_last(), n).push(cs.last())
    } else {
        with_line(cs.drop_last(), n)
    }
}

/// The comments without a line, in order.
pub open spec fn without_line(cs: Seq<CommentView>) -> Seq<CommentView>
    decreases cs.len(),
{
    if cs.len() == 0 {
        seq![]
    } else if cs.last().line is None {
        without_line(cs.drop_last()).push(cs.last())
    } else {
        without_line(cs.drop_last())
    }
}

/// The lines of the comments that have one.
pub open spec fn commented_lines(cs: Seq<CommentView>) -> Seq<u32>
    decreases cs.len(),
{
    if cs.len() == 0 {
        seq![]
    } else {
        match cs.last().line {
            Some(l) => commented_lines(cs.drop_last()).push(l),
            None => commented_lines(cs.drop_last()),
        }
    }
}

/// The new line numbers of the hunk lines that have one.
pub open spec fn line_numbers(dls: Seq<ParsedHunkLineView>) -> Seq<u32>
    decreases dls.len(),
{
    if dls.len() == 0 {
        seq![]
    } else {
        match dls.last().new_line_number {
            Some(n) => line_numbers(dls.drop_last()).push(n),
            None => line_numbers(dls.drop_last()),
        }
    }
}

/// The heading of a hunk: the file and the line, or range of lines, shown.
pub open spec fn hunk_heading(path: Seq<char>, nums: Seq<u32>) -> Seq<char> {
    if nums.len() == 0 {
        seq![]
    } else if seq_min(nums) == seq_max(nums) {
        "## `"@ + path + "` - Line "@ + decimal(seq_min(nums) as nat) + "\n\n"@
    } else {
        "## `"@ + path + "` - Lines "@ + decimal(seq_min(nums) as nat) + "-"@ + decimal(seq_max(nums) as nat)
            + "\n\n"@
    }
}

/// The comments, each in the language's comment syntax with the indentation `ind`.
pub open spec fn comments_text(cs: Seq<CommentView>, ind: Seq<char>, prefix: Seq<char>, suffix: Seq<char>) -> Seq<char> {
    concat_map(cs, |c: CommentView| comment_text(c.body, ind, prefix, suffix))
}

/// A line of code and, below it, the comments on its line, indented as it is.
pub open spec fn code_line_text(dl: ParsedHunkLineView, cs: Seq<CommentView>, prefix: Seq<char>, suffix: Seq<char>) -> Seq<char> {
    dl.content + "\n"@ + match dl.new_line_number {
        Some(n) => comments_text(with_line(cs, n), leading_whitespace(dl.content), prefix, suffix),
        None => seq![],
    }
}

/// The markdown of one hunk of a file and its comments: a heading, then a
/// code block with the comments without a line first, the shown lines of
/// the hunk (`...` where lines were left out) and the comments below their lines.
pub open spec fn hunk_text(
    path: Seq<char>,
    language: Seq<char>,
    prefix: Seq<char>,
    suffix: Seq<char>,
    diff_hunk: Seq<char>,
    cs: Seq<CommentView>,
) -> Seq<char> {
    let all = hunk_lines_of(diff_hunk, None).0;
    let range = context_range(commented_lines(cs), all.len());
    let shown = hunk_lines_of(diff_hunk, range);
    hunk_heading(path, line_numbers(shown.0)) + "```"@ + language + "\n"@ + comments_text(without_line(cs), ""@, prefix, suffix)
        + (if shown.1 {
        "...\n"@
    } else {
        seq![]
    }) + concat_map(shown.0, |dl: ParsedHunkLineView| code_line_text(dl, cs, prefix, suffix)) + (if shown.2 {
        "...\n"@
    } else {
        seq![]
    }) + "```\n\n"@
}

fn comments_with_line<'a>(cs: &Vec<&'a Comment>, n: u32) -> (r: Vec<&'a Comment>)
    ensures
        views_of(r@) == with_line(views_of(cs@), n),
{
    let mut r: Vec<&Comment> = Vec::new();
    let mut i: usize = 0;
    while i < cs.len()
        invariant
            i <= cs@.len(),
            views_of(r@) == with_line(views_of(cs@).take(i as int), n),
        decreases cs@.len() - i,
    {
        let ghost before = r@;
        assert(views_of(cs@).take(i + 1).drop_last() =~= views_of(cs@).take(i as int));
        if cs[i].line == Some(n) {
            r.push(cs[i]);
            assert(views_of(r@) =~= views_of(before).push(cs@[i as int].deep_view()));
        }
        i += 1;
    }
    assert(views_of(cs@).take(i as int) =~= views_of(cs@));
    r
}

fn comments_without_line<'a>(cs: &Vec<&'a Comment>) -> (r: Vec<&'a Comment>)
    ensures
        views_of(r@) == without_line(views_of(cs@)),
{
    let mut r: Vec<&Comment> = Vec::new();
    let mut i: usize = 0;
    while i < cs.len()
        invariant
            i <= cs@.len(),
            views_of(r@) == without_line(views_of(cs@).take(i as int)),
        decreases cs@.len() - i,
    {
        let ghost before = r@;
        assert(views_of(cs@).take(i + 1).drop_last() =~= views_of(cs@).take(i as int));
        if cs[i].line.is_none() {
            r.push(cs[i]);
            assert(views_of(r@) =~= views_of(before).push(cs@[i as int].deep_view()));
        }
        i += 1;
    }
    assert(views_of(cs@).take(i as int) =~= views_of(cs@));
    r
}

fn lines_of_comments(cs: &Vec<&Comment>) -> (r: Vec<u32>)
    ensures
        r@ == commented_lines(views_of(cs@)),
{
    let mut r: Vec<u32> = Vec::new();
    let mut i: usize = 0;
    while i < cs.len()
        invariant
            i <= cs@.len(),
            r@ == commented_lines(views_of(cs@).take(i as int)),
        decreases cs@.len() - i,
    {
        assert(views_of(cs@).take(i + 1).drop_last() =~= views_of(cs@).take(i as int));
        match cs[i].line {
            Some(l) => r.push(l),
            None => {},
        }
        i += 1;
    }
    assert(views_of(cs@).take(i as int) =~= views_of(cs@));
    r
}

fn numbers_of(dls: &Vec<ParsedHunkLine>) -> (r: Vec<u32>)
    ensures
        r@ == line_numbers(views_of(dls@)),
{
    let mut r: Vec<u32> = Vec::new();
    let mut i: usize = 0;
    while i < dls.len()
        invariant
            i <= dls@.len(),
            r@ == line_numbers(views_of(dls@).take(i as int)),
        decreases dls@.len() - i,
    {
        assert(views_of(dls@).take(i + 1).drop_last() =~= views_of(dls@).take(i as int));
        match dls[i].new_line_number {
            Some(n) => r.push(n),
            None => {},
        }
        i += 1;
    }
    assert(views_of(dls@).take(i as int) =~= views_of(dls@));
    r
}

/// Writes comments, each in the comment syntax with the given indentation.
fn write_comments(out: &mut Vec<char>, cs: &Vec<&Comment>, ind: &str, prefix: &str, suffix: &str)
    ensures
        final(out)@ == old(out)@ + comments_text(views_of(cs@), ind@, prefix@, suffix@),
{
    let ghost start = out@;
    let mut i: usize = 0;
    while i < cs.len()
        invariant
            i <= cs@.len(),
            out@ == start + comments_text(views_of(cs@).take(i as int), ind@, prefix@, suffix@),
        decreases cs@.len() - i,
    {
        write_comment(out, cs[i].body.as_str(), ind, prefix, suffix);
        proof {
            lemma_concat_map_step(views_of(cs@), |c: CommentView| comment_text(c.body, ind@, prefix@, suffix@), i as int);
        }
        i += 1;
    }
    assert(views_of(cs@).take(i as int) =~= views_of(cs@));
}

/// Writes the heading of a hunk, see [`hunk_heading`].
fn write_hunk_heading(out: &mut Vec<char>, path: &str, nums: &Vec<u32>)
    ensures
        final(out)@ == old(out)@ + hunk_heading(path@, nums@),
{
    if nums.len() == 0 {
        assert(old(out)@ + seq![] =~= old(out)@);
        return;
    }
    let (lo, hi) = min_max(nums.as_slice());
    if lo == hi {
        push_str(out, "## `");
        push_str(out, path);
        push_str(out, "` - Line ");
        push_decimal(out, lo as u64);
        push_str(out, "\n\n");
    } else {
        push_str(out, "## `");
        push_str(out, path);
        push_str(out, "` - Lines ");
        push_decimal(out, lo as u64);
        push_str(out, "-");
        push_decimal(out, hi as u64);
        push_str(out, "\n\n");
    }
}

/// Writes the shown lines of a hunk, each followed by the comments on it.
fn write_code_lines(out: &mut Vec<char>, shown: &Vec<ParsedHunkLine>, cs: &Vec<&Comment>, prefix: &str, suffix: &str)
    ensures
        final(out)@ == old(out)@ + concat_map(
            views_of(shown@),
            |dl: ParsedHunkLineView| code_line_text(dl, views_of(cs@), prefix@, suffix@),
        ),
{
    let ghost v = views_of(cs@);
    let ghost mid = out@;
    let ghost sv = views_of(shown@);
    let mut i: usize = 0;
    while i < shown.len()
        invariant
            i <= shown@.len(),
            sv == views_of(shown@),
            v == views_of(cs@),
            out@ == mid + concat_map(sv.take(i as int), |dl: ParsedHunkLineView| code_line_text(dl, v, prefix@, suffix@)),
        decreases shown@.len() - i,
    {
        let dl = &shown[i];
        push_str(out, dl.content.as_str());
        push_str(out, "\n");
        match dl.new_line_number {
            Some(n) => {
                let here = comments_with_line(cs, n);
                let ind = get_indentation(dl.content.as_str());
                write_comments(out, &here, ind.as_str(), prefix, suffix);
            },
            None => {},
        }
        proof {
            assert(sv[i as int] == dl.deep_view());
            lemma_concat_map_step(sv, |dl: ParsedHunkLineView| code_line_text(dl, v, prefix@, suffix@), i as int);
        }
        i += 1;
    }
    assert(sv.take(i as int) =~= sv);
    assert(mid + concat_map(sv, |dl: ParsedHunkLineView| code_line_text(dl, v, prefix@, suffix@)) == out@);
}

/// Writes the markdown of one hunk of a file and its comments, see [`hunk_text`].
#[verifier::spinoff_prover]
fn write_hunk(
    out: &mut Vec<char>,
    path: &str,
    language: &str,
    prefix: &str,
    suffix: &str,
    diff_hunk: &str,
    cs: &Vec<&Comment>,
)
    ensures
        final(out)@ == old(out)@ + hunk_text(path@, language@, prefix@, suffix@, diff_hunk@, views_of(cs@)),
{
    let ghost v = views_of(cs@);
    let commented = lines_of_comments(cs);
    let (all, _, _) = parse_diff_hunk_with_line_numbers(diff_hunk, None);
    let range = calculate_context_range(commented.as_slice(), all.len());
    let (shown, truncated_start, truncated_end) = parse_diff_hunk_with_line_numbers(diff_hunk, range);
    let nums = numbers_of(&shown);
    let ghost start = old(out)@;
    let ghost sv = views_of(shown@);
    let ghost head = hunk_heading(path@, line_numbers(sv)) + "```"@ + language@ + "\n"@
        + comments_text(without_line(v), ""@, prefix@, suffix@) + (if truncated_start {
        "...\n"@
    } else {
        seq![]
    });
    let ghost body = concat_map(sv, |dl: ParsedHunkLineView| code_line_text(dl, v, prefix@, suffix@));
    let ghost tail = (if truncated_end {
        "...\n"@
    } else {
        seq![]
    }) + "```\n\n"@;
    write_hunk_heading(out, path, &nums);
    push_str(out, "```");
    push_str(out, language);
    push_str(out, "\n");
    let without = comments_without_line(cs);
    write_comments(out, &without, "", prefix, suffix);
    if truncated_start {
        push_str(out, "...\n");
    }
    assert(out@ =~= start + head);
    write_code_lines(out, &shown, cs, prefix, suffix);
    assert(out@ =~= start + head + body);
    if truncated_end {
        push_str(out, "...\n");
    }
    push_str(out, "```\n\n");
    assert(out@ =~= start + head + body + tail);
    assert(hunk_text(path@, language@, prefix@, suffix@, diff_hunk@, v) =~= head + body + tail);
}

// ---------------------------------------------------------------------------
// One file
// ---------------------------------------------------------------------------

/// The diff hunk a comment is on.
pub open spec fn hunk_key(c: CommentView) -> Seq<char> {
    c.diff_hunk
}

/// The smallest line of the comments that have one.
pub open spec fn min_line(cs: Seq<CommentView>) -> Option<u32>
    decreases cs.len(),
{
    if cs.len() == 0 {
        None
    } else {
        match (min_line(cs.drop_last()), cs.last().line) {
            (None, l) => l,
            (Some(m), None) => Some(m),
            (Some(m), Some(l)) => Some(if l < m { l } else { m }),
        }
    }
}

/// Where a hunk goes in a file: at the smallest line commented in it, or
/// first when no comment has a line.
pub open spec fn hunk_order(g: (Seq<char>, Seq<CommentView>)) -> int {
    match min_line(g.1) {
        Some(m) => m as int,
        None => 0,
    }
}

/// Whether hunk `a` must come before hunk `b`.
pub open spec fn hunk_before(a: (Seq<char>, Seq<CommentView>), b: (Seq<char>, Seq<CommentView>)) -> bool {
    hunk_order(a) < hunk_order(b)
}

/// The hunks of a file's comments in the order they are written.
pub open spec fn ordered_hunks(cs: Seq<CommentView>) -> Seq<(Seq<char>, Seq<CommentView>)> {
    insertion_sort(
        group_by(cs, |c: CommentView| hunk_key(c)),
        |a: (Seq<char>, Seq<CommentView>), b: (Seq<char>, Seq<CommentView>)| hunk_before(a, b),
    )
}

/// The markdown of a file's comments: each hunk with its comments, in the
/// order of their first commented line.
pub open spec fn file_text(path: Seq<char>, cs: Seq<CommentView>) -> Seq<char> {
    let language = language_of(path);
    let prefix = comment_prefix_of(language);
    let suffix = comment_suffix_of(language);
    concat_map(
        ordered_hunks(cs),
        |h: (Seq<char>, Seq<CommentView>)| hunk_text(path, language, prefix, suffix, h.0, h.1),
    )
}

/// The view of groups of borrowed comments.
pub open spec fn ref_groups_view(gs: Seq<(String, Vec<&Comment>)>) -> Seq<(Seq<char>, Seq<CommentView>)> {
    gs.map_values(|g: (String, Vec<&Comment>)| (g.0@, views_of(g.1@)))
}

/// Groups comments by their diff hunk, see [`group_by`].
fn group_by_hunk<'a>(comments: &'a Vec<Comment>) -> (r: Vec<(String, Vec<&'a Comment>)>)
    ensures
        ref_groups_view(r@) == group_by(views_of(comments@), |c: CommentView| hunk_key(c)),
{
    let ghost all = views_of(comments@);
    let mut groups: Vec<(String, Vec<&Comment>)> = Vec::new();
    let mut k: usize = 0;
    while k < comments.len()
        invariant
            k <= all.len(),
            all == views_of(comments@),
            ref_groups_view(groups@) == group_by(all.take(k as int), |c: CommentView| hunk_key(c)),
        decreases all.len() - k,
    {
        let ghost before = ref_groups_view(groups@);
        let c = &comments[k];
        assert(all[k as int] == c.deep_view());
        let mut i: usize = 0;
        let n = groups.len();
        while i < n
            invariant
                i <= n == groups@.len(),
                ref_groups_view(groups@) == before,
                key_index(before, c.diff_hunk@, 0) == key_index(before, c.diff_hunk@, i as int),
            ensures
                i <= n,
                key_index(before, c.diff_hunk@, 0) == key_index(before, c.diff_hunk@, i as int),
                i < n ==> before[i as int].0 == c.diff_hunk@,
            decreases n - i,
        {
            assert(before[i as int].0 == groups@[i as int].0@);
            if crate::text::str_eq(groups[i].0.as_str(), c.diff_hunk.as_str()) {
                break;
            }
            i += 1;
        }
        if i < n {
            assert(key_index(before, c.diff_hunk@, 0) == Some(i as int));
            let mut g = groups.remove(i);
            let ghost gv = g.1@;
            g.1.push(c);
            assert(views_of(g.1@) =~= views_of(gv).push(c.deep_view()));
            groups.insert(i, g);
            assert(ref_groups_view(groups@) =~= before.update(i as int, (c.diff_hunk@, before[i as int].1.push(c.deep_view()))));
        } else {
            assert(key_index(before, c.diff_hunk@, 0) is None);
            let key = c.diff_hunk.clone();
            let mut v: Vec<&Comment> = Vec::new();
            v.push(c);
            assert(views_of(v@) =~= seq![c.deep_view()]);
            groups.push((key, v));
            assert(ref_groups_view(groups@) =~= before.push((c.diff_hunk@, seq![c.deep_view()])));
        }
        proof {
            let t = all.take(k + 1);
            assert(t.drop_last() =~= all.take(k as int));
            assert(group_by(t, |c: CommentView| hunk_key(c)) == group_insert(group_by(t.drop_last(), |c: CommentView| hunk_key(c)), t.last().diff_hunk, t.last()));
        }
        k += 1;
    }
    assert(all.take(k as int) =~= all);
    groups
}

/// The smallest line of the comments, see [`min_line`].
fn min_comment_line(cs: &Vec<&Comment>) -> (r: Option<u32>)
    ensures
        r == min_line(views_of(cs@)),
{
    let mut m: Option<u32> = None;
    let mut i: usize = 0;
    while i < cs.len()
        invariant
            i <= cs@.len(),
            m == min_line(views_of(cs@).take(i as int)),
        decreases cs@.len() - i,
    {
        assert(views_of(cs@).take(i + 1).drop_last() =~= views_of(cs@).take(i as int));
        m = match (m, cs[i].line) {
            (None, l) => l,
            (Some(x), None) => Some(x),
            (Some(x), Some(l)) => Some(if l < x { l } else { x }),
        };
        i += 1;
    }
    assert(views_of(cs@).take(i as int) =~= views_of(cs@));
    m
}

/// Sorts hunks by their first commented line, see [`ordered_hunks`].
fn sort_hunks<'a>(gs: Vec<(String, Vec<&'a Comment>)>) -> (r: Vec<(String, Vec<&'a Comment>)>)
    ensures
        ref_groups_view(r@) == insertion_sort(
            ref_groups_view(gs@),
            |a: (Seq<char>, Seq<CommentView>), b: (Seq<char>, Seq<CommentView>)| hunk_before(a, b),
        ),
{
    let ghost all = ref_groups_view(gs@);
    let ghost before_fn = |a: (Seq<char>, Seq<CommentView>), b: (Seq<char>, Seq<CommentView>)| hunk_before(a, b);
    let mut rest = gs;
    let mut sorted: Vec<(String, Vec<&Comment>)> = Vec::new();
    let mut keys: Vec<u32> = Vec::new();
    let ghost mut done: int = 0;
    while rest.len() > 0
        invariant
            0 <= done <= all.len(),
            ref_groups_view(rest@) == all.skip(done),
            ref_groups_view(sorted@) == insertion_sort(all.take(done), |a: (Seq<char>, Seq<CommentView>), b: (Seq<char>, Seq<CommentView>)| hunk_before(a, b)),
            keys@.len() == sorted@.len(),
            forall|j: int| 0 <= j < keys@.len() ==> keys@[j] as int == hunk_order(#[trigger] ref_groups_view(sorted@)[j]),
        decreases rest@.len(),
    {
        let ghost sv = ref_groups_view(sorted@);
        let ghost rest_before = rest@;
        let g = rest.remove(0);
        let ghost gv = (g.0@, views_of(g.1@));
        assert(rest_before =~= seq![g] + rest@);
        assert(ref_groups_view(rest_before) =~= seq![gv] + ref_groups_view(rest@));
        assert(done < all.len());
        assert(all.skip(done)[0] == all[done]);
        assert(all[done] == gv);
        assert(ref_groups_view(rest@) =~= all.skip(done + 1));
        let key = match min_comment_line(&g.1) {
            Some(m) => m,
            None => 0,
        };
        assert(key as int == hunk_order(gv));
        let mut p: usize = 0;
        let n = sorted.len();
        while p < n
            invariant
                p <= n == sorted@.len() == keys@.len(),
                sv == ref_groups_view(sorted@),
                forall|j: int| 0 <= j < keys@.len() ==> keys@[j] as int == hunk_order(#[trigger] sv[j]),
                key as int == hunk_order(gv),
                insertion_point(sv, gv, |a: (Seq<char>, Seq<CommentView>), b: (Seq<char>, Seq<CommentView>)| hunk_before(a, b), 0)
                    == insertion_point(sv, gv, |a: (Seq<char>, Seq<CommentView>), b: (Seq<char>, Seq<CommentView>)| hunk_before(a, b), p as int),
            ensures
                p <= n,
                insertion_point(sv, gv, |a: (Seq<char>, Seq<CommentView>), b: (Seq<char>, Seq<CommentView>)| hunk_before(a, b), 0) == p,
            decreases n - p,
        {
            assert(keys@[p as int] as int == hunk_order(sv[p as int]));
            if key < keys[p] {
                break;
            }
            p += 1;
        }
        sorted.insert(p, g);
        keys.insert(p, key);
        proof {
            let t = all.take(done + 1);
            assert(t.drop_last() =~= all.take(done));
            assert(t.last() == gv);
            assert(ref_groups_view(sorted@) =~= sv.insert(p as int, gv));
            assert forall|j: int| 0 <= j < keys@.len() implies keys@[j] as int == hunk_order(#[trigger] ref_groups_view(sorted@)[j]) by {
                if j < p {
                    assert(ref_groups_view(sorted@)[j] == sv[j]);
                } else if j > p {
                    assert(ref_groups_view(sorted@)[j] == sv[j - 1]);
                }
            }
            done = done + 1;
            assert(ref_groups_view(rest@) =~= all.skip(done));
        }
    }
    assert(all.take(done) =~= all);
    sorted
}

/// Writes the markdown of a file's comments, see [`file_text`].
fn write_file(out: &mut Vec<char>, path: &str, comments: &Vec<Comment>)
    ensures
        final(out)@ == old(out)@ + file_text(path@, views_of(comments@)),
{
    let language = detect_language(path);
    let prefix = get_comment_prefix(language);
    let suffix = get_comment_suffix(language);
    let hunks = sort_hunks(group_by_hunk(comments));
    let ghost hv = ref_groups_view(hunks@);
    let ghost f = |h: (Seq<char>, Seq<CommentView>)| hunk_text(path@, language@, prefix@, suffix@, h.0, h.1);
    assert(hv == ordered_hunks(views_of(comments@)));
    let ghost start = out@;
    let mut i: usize = 0;
    while i < hunks.len()
        invariant
            i <= hunks@.len(),
            hv == ref_groups_view(hunks@),
            out@ == start + concat_map(hv.take(i as int), |h: (Seq<char>, Seq<CommentView>)| hunk_text(path@, language@, prefix@, suffix@, h.0, h.1)),
        decreases hunks@.len() - i,
    {
        let h = &hunks[i];
        write_hunk(out, path, language, prefix, suffix, h.0.as_str(), &h.1);
        proof {
            assert(hv[i as int] == (h.0@, views_of(h.1@)));
            lemma_concat_map_step(hv, |h: (Seq<char>, Seq<CommentView>)| hunk_text(path@, language@, prefix@, suffix@, h.0, h.1), i as int);
        }
        i += 1;
    }
    assert(hv.take(i as int) =~= hv);
}

// ---------------------------------------------------------------------------
// All comments
// ---------------------------------------------------------------------------

/// The opening of the markdown: what the comments are and how they are written.
pub const REVIEW_HEADER: &'static str = r###"# Review comments

Please address the following review comments. The comments are given as inline
comments inside code blocks. They use the comment format of the language of the
commented file. Each comment is wrapped in "<review>" tags.

For example, a Rust file may look like:

```rust
fn main() {
    println!("13");
    // <review>
    // Please use 42 as the number
    // </review>
}
```
"###;

/// The path under which general comments, not on a file, are grouped.
pub open spec fn global_key() -> Seq<char> {
    "__global__"@
}

/// The general comments: a section with each comment's body, when there are any.
pub open spec fn global_text(gs: Seq<(Seq<char>, Seq<CommentView>)>) -> Seq<char> {
    match key_index(gs, global_key(), 0) {
        Some(i) => "## General Comments\n\n"@ + concat_map(gs[i].1, |c: CommentView| c.body + "\n\n"@),
        None => seq![],
    }
}

/// The groups of comments on files, in order.
pub open spec fn file_groups(gs: Seq<(Seq<char>, Seq<CommentView>)>) -> Seq<(Seq<char>, Seq<CommentView>)>
    decreases gs.len(),
{
    if gs.len() == 0 {
        seq![]
    } else if gs.last().0 == global_key() {
        file_groups(gs.drop_last())
    } else {
        file_groups(gs.drop_last()).push(gs.last())
    }
}

/// Whether the group of path `a` comes before that of path `b`.
pub open spec fn path_before(a: (Seq<char>, Seq<CommentView>), b: (Seq<char>, Seq<CommentView>)) -> bool {
    text_lt(a.0, b.0)
}

/// The markdown of review comments grouped by file: the header, the
/// general comments, then each file in order of path.
pub open spec fn markdown(gs: Seq<(Seq<char>, Seq<CommentView>)>) -> Seq<char> {
    REVIEW_HEADER@ + "\n"@ + global_text(gs) + concat_map(
        insertion_sort(file_groups(gs), |a: (Seq<char>, Seq<CommentView>), b: (Seq<char>, Seq<CommentView>)| path_before(a, b)),
        |g: (Seq<char>, Seq<CommentView>)| file_text(g.0, g.1),
    )
}

/// In the markdown of comments grouped by file, the files come in order of
/// path: no file is written after one whose path comes later.
pub proof fn law_files_in_path_order(gs: Seq<(Seq<char>, Seq<CommentView>)>)
    ensures
        sorted_by(
            insertion_sort(
                file_groups(gs),
                |a: (Seq<char>, Seq<CommentView>), b: (Seq<char>, Seq<CommentView>)| path_before(a, b),
            ),
            |a: (Seq<char>, Seq<CommentView>), b: (Seq<char>, Seq<CommentView>)| path_before(a, b),
        ),
{
    let before = |a: (Seq<char>, Seq<CommentView>), b: (Seq<char>, Seq<CommentView>)| path_before(a, b);
    assert forall|a: (Seq<char>, Seq<CommentView>), b: (Seq<char>, Seq<CommentView>), c: (Seq<char>, Seq<CommentView>)|
        #[trigger] before(a, b) && #[trigger] before(b, c) implies before(a, c) by {
        lemma_text_lt_transitive(a.0, b.0, c.0);
    }
    assert forall|a: (Seq<char>, Seq<CommentView>), b: (Seq<char>, Seq<CommentView>)| #[trigger] before(a, b) implies !before(b, a) by {
        lemma_text_lt_asymmetric(a.0, b.0);
    }
    law_insertion_sort_sorted(file_groups(gs), before);
}

/// The view of borrowed groups of comments.
pub open spec fn group_refs_view(gs: Seq<&(String, Vec<Comment>)>) -> Seq<(Seq<char>, Seq<CommentView>)> {
    gs.map_values(|g: &(String, Vec<Comment>)| (g.0@, views_of(g.1@)))
}

/// Writes the general comments, see [`global_text`].
fn write_global(out: &mut Vec<char>, grouped: &Vec<(String, Vec<Comment>)>)
    ensures
        final(out)@ == old(out)@ + global_text(groups_view(grouped@)),
{
    let ghost gv = groups_view(grouped@);
    let mut i: usize = 0;
    while i < grouped.len()
        invariant
            i <= grouped@.len(),
            gv == groups_view(grouped@),
            out@ == old(out)@,
            key_index(gv, global_key(), 0) == key_index(gv, global_key(), i as int),
        decreases grouped@.len() - i,
    {
        assert(gv[i as int].0 == grouped@[i as int].0@);
        if crate::text::str_eq(grouped[i].0.as_str(), "__global__") {
            let cs = &grouped[i].1;
            let ghost cv = views_of(cs@);
            assert(gv[i as int].1 == cv);
            assert(key_index(gv, global_key(), 0) == Some(i as int));
            push_str(out, "## General Comments\n\n");
            let ghost start = out@;
            let mut k: usize = 0;
            while k < cs.len()
                invariant
                    k <= cs@.len(),
                    cv == views_of(cs@),
                    out@ == start + concat_map(cv.take(k as int), |c: CommentView| c.body + "\n\n"@),
                decreases cs@.len() - k,
            {
                push_str(out, cs[k].body.as_str());
                push_str(out, "\n\n");
                proof {
                    assert(cv[k as int] == cs@[k as int].deep_view());
                    lemma_concat_map_step(cv, |c: CommentView| c.body + "\n\n"@, k as int);
                }
                k += 1;
            }
            assert(cv.take(k as int) =~= cv);
            return;
        }
        i += 1;
    }
    assert(old(out)@ + seq![] =~= old(out)@);
}

/// The groups on files, sorted by path, see [`markdown`].
fn sorted_file_groups(grouped: &Vec<(String, Vec<Comment>)>) -> (r: Vec<&(String, Vec<Comment>)>)
    ensures
        group_refs_view(r@) == insertion_sort(
            file_groups(groups_view(grouped@)),
            |a: (Seq<char>, Seq<CommentView>), b: (Seq<char>, Seq<CommentView>)| path_before(a, b),
        ),
{
    let ghost gv = groups_view(grouped@);
    let mut sorted: Vec<&(String, Vec<Comment>)> = Vec::new();
    let mut i: usize = 0;
    while i < grouped.len()
        invariant
            i <= grouped@.len(),
            gv == groups_view(grouped@),
            group_refs_view(sorted@) == insertion_sort(
                file_groups(gv.take(i as int)),
                |a: (Seq<char>, Seq<CommentView>), b: (Seq<char>, Seq<CommentView>)| path_before(a, b),
            ),
        decreases grouped@.len() - i,
    {
        let g = &grouped[i];
        let ghost x = (g.0@, views_of(g.1@));
        assert(gv[i as int] == x);
        assert(gv.take(i + 1).drop_last() =~= gv.take(i as int));
        if !crate::text::str_eq(g.0.as_str(), "__global__") {
            let ghost sv = group_refs_view(sorted@);
            let key = chars_of(g.0.as_str());
            let mut p: usize = 0;
            let n = sorted.len();
            while p < n
                invariant
                    p <= n == sorted@.len(),
                    sv == group_refs_view(sorted@),
                    key@ == x.0,
                    insertion_point(sv, x, |a: (Seq<char>, Seq<CommentView>), b: (Seq<char>, Seq<CommentView>)| path_before(a, b), 0)
                        == insertion_point(sv, x, |a: (Seq<char>, Seq<CommentView>), b: (Seq<char>, Seq<CommentView>)| path_before(a, b), p as int),
                ensures
                    p <= n,
                    insertion_point(sv, x, |a: (Seq<char>, Seq<CommentView>), b: (Seq<char>, Seq<CommentView>)| path_before(a, b), 0) == p,
                decreases n - p,
            {
                let other = chars_of(sorted[p].0.as_str());
                assert(sv[p as int].0 == other@);
                if str_lt(&key, &other) {
                    break;
                }
                p += 1;
            }
            sorted.insert(p, g);
            assert(group_refs_view(sorted@) =~= sv.insert(p as int, x));
            proof {
                let fg = file_groups(gv.take(i + 1));
                assert(fg == file_groups(gv.take(i as int)).push(x));
                assert(fg.drop_last() =~= file_groups(gv.take(i as int)));
                assert(fg.last() == x);
            }
        } else {
            assert(file_groups(gv.take(i + 1)) == file_groups(gv.take(i as int)));
        }
        i += 1;
    }
    assert(gv.take(i as int) =~= gv);
    sorted
}

/// Writes review comments grouped by file as markdown, see [`markdown`]:
/// the header, the general comments (path `__global__`), then for each file
/// in order of path each hunk with its comments embedded as code comments.
pub fn write_comments_as_markdown(out: &mut Vec<char>, grouped_comments: &Vec<(String, Vec<Comment>)>)
    ensures
        final(out)@ == old(out)@ + markdown(groups_view(grouped_comments@)),
{
    let ghost start = old(out)@;
    push_str(out, REVIEW_HEADER);
    push_str(out, "\n");
    write_global(out, grouped_comments);
    let files = sorted_file_groups(grouped_comments);
    let ghost fv = group_refs_view(files@);
    let ghost mid = out@;
    let mut i: usize = 0;
    while i < files.len()
        invariant
            i <= files@.len(),
            fv == group_refs_view(files@),
            out@ == mid + concat_map(fv.take(i as int), |g: (Seq<char>, Seq<CommentView>)| file_text(g.0, g.1)),
        decreases files@.len() - i,
    {
        let g = files[i];
        write_file(out, g.0.as_str(), &g.1);
        proof {
            assert(fv[i as int] == (g.0@, views_of(g.1@)));
            lemma_concat_map_step(fv, |g: (Seq<char>, Seq<CommentView>)| file_text(g.0, g.1), i as int);
        }
        i += 1;
    }
    assert(fv.take(i as int) =~= fv);
}

/// The markdown of review comments grouped by file, see [`markdown`].
pub fn format_comments_as_markdown(grouped_comments: &Vec<(String, Vec<Comment>)>) -> (r: String)
    ensures
        r@ == markdown(groups_view(grouped_comments@)),
{
    let mut out: Vec<char> = Vec::new();
    write_comments_as_markdown(&mut out, grouped_comments);
    assert(seq![] + markdown(groups_view(grouped_comments@)) =~= markdown(groups_view(grouped_comments@)));
    crate::text::string_from(&out)
}

// ---------------------------------------------------------------------------
// Issues
// ---------------------------------------------------------------------------

/// The names of labels separated by `, `.
pub open spec fn labels_text(ls: Seq<Seq<char>>) -> Seq<char>
    decreases ls.len(),
{
    if ls.len() == 0 {
        seq![]
    } else if ls.len() == 1 {
        ls[0]
    } else {
        labels_text(ls.drop_last()) + ", "@ + ls.last()
    }
}

/// The label names of an issue.
pub open spec fn label_names(ls: Seq<Label>) -> Seq<Seq<char>> {
    ls.map_values(|l: Label| l.name@)
}

/// The description of an issue: its body, ending with a line break, or a
/// note that there is none.
pub open spec fn description_text(body: Option<Seq<char>>) -> Seq<char> {
    match body {
        Some(b) => if b.len() > 0 {
            if b.last() == '\n' {
                b
            } else {
                b + "\n"@
            }
        } else {
            "*No description provided.*\n"@
        },
        None => "*No description provided.*\n"@,
    }
}

/// The login of an issue's author, when it has one.
pub open spec fn author_login(author: Option<User>) -> Option<Seq<char>> {
    match author {
        Some(u) => Some(u.login@),
        None => None,
    }
}

/// The line naming the author of an issue, when it has one.
pub open spec fn author_line(author: Option<Seq<char>>) -> Seq<char> {
    match author {
        Some(a) => "**Author:** @"@ + a + "\n"@,
        None => seq![],
    }
}

/// The markdown of an issue: its number and title, its state, its author
/// when it has one, its labels when it has any, and its description.
pub open spec fn issue_text(
    number: u32,
    title: Seq<char>,
    state: Seq<char>,
    author: Option<Seq<char>>,
    labels: Seq<Seq<char>>,
    body: Option<Seq<char>>,
) -> Seq<char> {
    "# Issue #"@ + decimal(number as nat) + ": "@ + title + "\n\n"@ + "**State:** "@ + state + "\n"@
        + author_line(author) + (if labels.len() > 0 {
        "**Labels:** "@ + labels_text(labels) + "\n"@
    } else {
        seq![]
    }) + "\n## Description\n\n"@ + description_text(body)
}

/// Writes an issue as markdown, see [`issue_text`].
pub fn write_issue_as_markdown(out: &mut Vec<char>, issue: &Issue)
    ensures
        final(out)@ == old(out)@ + issue_text(
            issue.number,
            issue.title@,
            issue.state@,
            author_login(issue.author),
            label_names(issue.labels@),
            match issue.body {
                Some(b) => Some(b@),
                None => None,
            },
        ),
{
    let ghost start = old(out)@;
    push_str(out, "# Issue #");
    push_decimal(out, issue.number as u64);
    push_str(out, ": ");
    push_str(out, issue.title.as_str());
    push_str(out, "\n\n");
    push_str(out, "**State:** ");
    push_str(out, issue.state.as_str());
    push_str(out, "\n");
    let ghost author = author_login(issue.author);
    let ghost head = "# Issue #"@ + decimal(issue.number as nat) + ": "@ + issue.title@ + "\n\n"@ + "**State:** "@
        + issue.state@ + "\n"@;
    assert(out@ =~= start + head);
    match &issue.author {
        Some(u) => {
            push_str(out, "**Author:** @");
            push_str(out, u.login.as_str());
            push_str(out, "\n");
        },
        None => {},
    }
    assert(out@ =~= start + head + author_line(author));
    let ghost before_labels = out@;
    push_labels(out, &issue.labels);
    let ghost before_description = out@;
    push_str(out, "\n## Description\n\n");
    push_description(out, &issue.body);
    let ghost names = label_names(issue.labels@);
    let ghost labels_part = if names.len() > 0 {
        "**Labels:** "@ + labels_text(names) + "\n"@
    } else {
        seq![]
    };
    assert(before_description == start + head + author_line(author) + labels_part);
}

/// Writes the labels line of an issue, when it has labels.
fn push_labels(out: &mut Vec<char>, labels: &Vec<Label>)
    ensures
        final(out)@ == old(out)@ + (if labels@.len() > 0 {
            "**Labels:** "@ + labels_text(label_names(labels@)) + "\n"@
        } else {
            seq![]
        }),
{
    let ghost names = label_names(labels@);
    if labels.len() > 0 {
        push_str(out, "**Labels:** ");
        let ghost mid = out@;
        let mut i: usize = 0;
        while i < labels.len()
            invariant
                i <= labels@.len(),
                names == label_names(labels@),
                out@ == mid + labels_text(names.take(i as int)),
            decreases labels@.len() - i,
        {
            if i != 0 {
                push_str(out, ", ");
            }
            push_str(out, labels[i].name.as_str());
            proof {
                let t = names.take(i + 1);
                assert(t.drop_last() =~= names.take(i as int));
                assert(t.last() == labels@[i as int].name@);
                if i == 0 {
                    assert(labels_text(t) == t[0]);
                    assert(names.take(0) =~= seq![]);
                }
            }
            i += 1;
        }
        assert(names.take(i as int) =~= names);
        push_str(out, "\n");
    }
}

/// Writes the description of an issue, see [`description_text`].
fn push_description(out: &mut Vec<char>, body: &Option<String>)
    ensures
        final(out)@ == old(out)@ + description_text(
            match body {
                Some(b) => Some(b@),
                None => None,
            },
        ),
{
    match body {
        Some(b) => {
            let bc = chars_of(b.as_str());
            if bc.len() > 0 {
                push_str(out, b.as_str());
                if bc[bc.len() - 1] != '\n' {
                    push_str(out, "\n");
                }
            } else {
                push_str(out, "*No description provided.*\n");
            }
        },
        None => {
            push_str(out, "*No description provided.*\n");
        },
    }
}

} // verus!
