//! Review comments inserted into source files as code comments, below the
//! lines they are about.
use vstd::prelude::*;

use crate::client::{Comment, CommentView};
use crate::diff::parser::views_of;
use crate::formatting::{
    concat_map, get_indentation, insertion_point, insertion_sort, lemma_concat_map_step,
    leading_whitespace,
};
use crate::language::{
    comment_prefix_of, comment_suffix_of, detect_language, get_comment_prefix, get_comment_suffix,
    language_of,
};
use crate::text::{
    chars_of, decimal, lines_of, push_decimal, push_str, split_lines, string_from, string_of,
    string_views,
};

verus! {

broadcast use vstd::seq_lib::group_seq_properties;

// ---------------------------------------------------------------------------
// Previews of comment bodies
// ---------------------------------------------------------------------------

/// The number of bytes of the UTF-8 encoding of `c`.
pub open spec fn char_width(c: char) -> nat {
    if (c as u32) < 0x80 {
        1
    } else if (c as u32) < 0x800 {
        2
    } else if (c as u32) < 0x10000 {
        3
    } else {
        4
    }
}

/// The number of bytes of the UTF-8 encoding of `s`, as `str::len` counts them.
pub open spec fn byte_len(s: Seq<char>) -> nat
    decreases s.len(),
{
    if s.len() == 0 {
        0
    } else {
        byte_len(s.drop_last()) + char_width(s.last())
    }
}

/// The number of leading characters of `s` that fit in `max` bytes.
pub open spec fn fitting_chars(s: Seq<char>, max: nat) -> nat
    decreases s.len(),
{
    if s.len() == 0 || char_width(s[0]) > max {
        0
    } else {
        1 + fitting_chars(s.drop_first(), (max - char_width(s[0])) as nat)
    }
}

/// The first line of `s` (all of `s` when it has none).
pub open spec fn first_line_of(s: Seq<char>) -> Seq<char> {
    if lines_of(s).len() > 0 {
        lines_of(s)[0]
    } else {
        s
    }
}

/// Whether the first line of `s`, if longer than `max` bytes, can be cut
/// after exactly `max` bytes, between two characters.
pub open spec fn can_truncate(s: Seq<char>, max: nat) -> bool {
    let first = first_line_of(s);
    byte_len(first) <= max || byte_len(first.take(fitting_chars(first, max) as int)) == max
}

/// The first line of `s`, cut after `max` bytes and marked with `...` when longer.
pub open spec fn truncated(s: Seq<char>, max: nat) -> Seq<char> {
    let first = first_line_of(s);
    if byte_len(first) > max {
        first.take(fitting_chars(first, max) as int) + "..."@
    } else {
        first
    }
}

/// The number of bytes of the UTF-8 encoding of `c`.
fn width_of(c: char) -> (r: usize)
    ensures
        r == char_width(c),
{
    if (c as u32) < 0x80 {
        1
    } else if (c as u32) < 0x800 {
        2
    } else if (c as u32) < 0x10000 {
        3
    } else {
        4
    }
}

proof fn lemma_fitting_chars(s: Seq<char>, max: nat, k: nat)
    requires
        k <= s.len(),
        byte_len(s.take(k as int)) <= max,
        k == s.len() || byte_len(s.take(k as int)) + char_width(s[k as int]) > max,
    ensures
        fitting_chars(s, max) == k,
    decreases k,
{
    if k == 0 {
        assert(s.take(0) =~= seq![]);
    } else {
        let t = s.drop_first();
        assert(byte_len(s.take(k as int)) == char_width(s[0]) + byte_len(t.take(k - 1))) by {
            lemma_byte_len_front(s.take(k as int));
            assert(s.take(k as int).drop_first() =~= t.take(k - 1));
        }
        if k < s.len() {
            assert(s[k as int] == t[k - 1]);
        }
        lemma_fitting_chars(t, (max - char_width(s[0])) as nat, (k - 1) as nat);
    }
}

proof fn lemma_byte_len_front(s: Seq<char>)
    requires
        s.len() > 0,
    ensures
        byte_len(s) == char_width(s[0]) + byte_len(s.drop_first()),
    decreases s.len(),
{
    if s.len() > 1 {
        lemma_byte_len_front(s.drop_last());
        assert(s.drop_last().drop_first() =~= s.drop_first().drop_last());
    } else {
        assert(s.drop_first() =~= seq![]);
        assert(s.drop_last() =~= seq![]);
    }
}

/// The first line of `s`.
fn first_line(s: &str) -> (r: Vec<char>)
    ensures
        r@ == first_line_of(s@),
{
    let lines = split_lines(s);
    if lines.len() > 0 {
        assert(string_views(lines@)[0] == lines@[0]@);
        chars_of(lines[0].as_str())
    } else {
        chars_of(s)
    }
}

/// The number of leading characters of `cs` that fit in `max` bytes, and their bytes.
fn fitting(cs: &Vec<char>, max: usize) -> (r: (usize, usize))
    ensures
        r.0 == fitting_chars(cs@, max as nat),
        r.0 <= cs@.len(),
        r.1 <= max,
        r.1 == byte_len(cs@.take(r.0 as int)),
        r.0 == cs@.len() ==> r.1 == byte_len(cs@),
        r.0 < cs@.len() ==> byte_len(cs@) > max,
{
    let mut k: usize = 0;
    let mut used: usize = 0;
    while k < cs.len() && width_of(cs[k]) <= max - used
        invariant
            k <= cs@.len(),
            used <= max,
            used == byte_len(cs@.take(k as int)),
        decreases cs@.len() - k,
    {
        assert(cs@.take(k + 1).drop_last() =~= cs@.take(k as int));
        used = used + width_of(cs[k]);
        k += 1;
    }
    proof {
        lemma_fitting_chars(cs@, max as nat, k as nat);
        if k == cs@.len() {
            assert(cs@.take(k as int) =~= cs@);
        } else {
            assert(cs@.take(k + 1).drop_last() =~= cs@.take(k as int));
            lemma_byte_len_prefix(cs@, (k + 1) as nat);
        }
    }
    (k, used)
}

/// Whether a preview of `s` can be cut after `max` bytes, see [`can_truncate`].
pub fn is_truncatable(s: &str, max_len: usize) -> (r: bool)
    ensures
        r == can_truncate(s@, max_len as nat),
{
    let first = first_line(s);
    let (k, used) = fitting(&first, max_len);
    if k == first.len() {
        return true;
    }
    used == max_len
}

pub proof fn lemma_byte_len_prefix(s: Seq<char>, k: nat)
    requires
        k <= s.len(),
    ensures
        byte_len(s.take(k as int)) <= byte_len(s),
    decreases s.len(),
{
    if k < s.len() {
        lemma_byte_len_prefix(s.drop_last(), k);
        assert(s.drop_last().take(k as int) =~= s.take(k as int));
    } else {
        assert(s.take(k as int) =~= s);
    }
}

/// A preview of a text: its first line, cut after a number of bytes.
pub struct Truncated {
    s: String,
    max_len: usize,
}

impl Truncated {
    /// The preview of `s` cut after `max_len` bytes.
    pub fn new(s: &str, max_len: usize) -> (r: Self)
        ensures
            r.text()@ == s@,
            r.max_len() == max_len,
    {
        Truncated { s: s.to_owned(), max_len }
    }

    /// The text previewed.
    pub closed spec fn text(&self) -> String {
        self.s
    }

    /// The number of bytes shown.
    pub closed spec fn max_len(&self) -> usize {
        self.max_len
    }

    /// The preview: the first line, cut after `max_len` bytes and marked
    /// with `...` when it is longer.
    pub fn to_string(&self) -> (r: String)
        requires
            can_truncate(self.text()@, self.max_len() as nat),
        ensures
            r@ == truncated(self.text()@, self.max_len() as nat),
    {
        let first = first_line(self.s.as_str());
        let (k, used) = fitting(&first, self.max_len);
        if k < first.len() {
            let mut out = crate::text::sub_chars(&first, 0, k);
            push_str(&mut out, "...");
            assert(first@.subrange(0, k as int) =~= first@.take(k as int));
            string_from(&out)
        } else {
            assert(first@.take(k as int) =~= first@);
            string_from(&first)
        }
    }
}

/// The preview of `s` cut after `max_len` bytes, see [`truncated`].
pub fn truncate(s: &str, max_len: usize) -> (r: String)
    requires
        can_truncate(s@, max_len as nat),
    ensures
        r@ == truncated(s@, max_len as nat),
{
    Truncated::new(s, max_len).to_string()
}

// ---------------------------------------------------------------------------
// Results
// ---------------------------------------------------------------------------

/// A comment that was not applied: its file, why, and a preview of it.
#[derive(Debug, Clone, PartialEq)]
pub struct SkippedComment {
    /// The file path the comment was for.
    pub path: String,
    /// The reason the comment was skipped.
    pub reason: String,
    /// Preview of the comment body.
    pub body_preview: String,
}

/// The path, reason and preview of a skipped comment.
pub struct SkippedView {
    pub path: Seq<char>,
    pub reason: Seq<char>,
    pub body_preview: Seq<char>,
}

impl DeepView for SkippedComment {
    type V = SkippedView;

    open spec fn deep_view(&self) -> SkippedView {
        SkippedView { path: self.path@, reason: self.reason@, body_preview: self.body_preview@ }
    }
}

/// What applying comments did.
#[derive(Debug, Default)]
pub struct ApplyResult {
    /// Number of files that were modified.
    pub files_modified: usize,
    /// Number of comments that were applied.
    pub comments_applied: usize,
    /// Comments that were skipped (file not found, no line number, ...).
    pub comments_skipped: Vec<SkippedComment>,
}

/// The number of bytes of a comment preview.
pub const PREVIEW_LEN: usize = 50;

/// The skipped comment for a comment on `path`, for `reason`.
pub open spec fn skipped_of(path: Seq<char>, reason: Seq<char>, c: CommentView) -> SkippedView {
    SkippedView { path, reason, body_preview: truncated(c.body, PREVIEW_LEN as nat) }
}

/// Whether each comment's preview can be cut, see [`can_truncate`].
pub open spec fn previews_ok(cs: Seq<CommentView>) -> bool {
    forall|i: int| 0 <= i < cs.len() ==> can_truncate(#[trigger] cs[i].body, PREVIEW_LEN as nat)
}

/// Whether the preview of each comment without a line can be cut.
pub open spec fn lineless_previews_ok(cs: Seq<CommentView>) -> bool {
    forall|i: int| 0 <= i < cs.len() && #[trigger] cs[i].line is None ==> can_truncate(cs[i].body, PREVIEW_LEN as nat)
}

/// The number of lines of a file of `n` lines once `items` are applied in
/// order: one more for each comment on a line the file has at its turn.
pub open spec fn lines_after(n: nat, items: Seq<(u32, CommentView)>) -> nat
    decreases items.len(),
{
    if items.len() == 0 {
        n
    } else {
        let m = lines_after(n, items.drop_last());
        if items.last().0 == 0 || items.last().0 > m {
            m
        } else {
            m + 1
        }
    }
}

/// Whether, applying `items` in order to a file of `n` lines, the preview
/// of each comment skipped for its line can be cut.
pub open spec fn out_of_bounds_previews_ok(n: nat, items: Seq<(u32, CommentView)>) -> bool
    decreases items.len(),
{
    if items.len() == 0 {
        true
    } else {
        let m = lines_after(n, items.drop_last());
        &&& out_of_bounds_previews_ok(n, items.drop_last())
        &&& (items.last().0 == 0 || items.last().0 > m) ==> can_truncate(items.last().1.body, PREVIEW_LEN as nat)
    }
}

/// Whether the comments on a file of content `content` can be applied:
/// the preview of each comment that ends up skipped (for having no line, or
/// a line the file does not have at its turn) can be cut.
pub open spec fn apply_previews_ok(content: Seq<char>, cs: Seq<CommentView>) -> bool {
    &&& lineless_previews_ok(cs)
    &&& out_of_bounds_previews_ok(lines_of(content).len(), applicable_spec(cs))
}

proof fn lemma_insert_all_lines(
    st: (Seq<Seq<char>>, Seq<SkippedView>, nat),
    items: Seq<(u32, CommentView)>,
    path: Seq<char>,
    prefix: Seq<char>,
    suffix: Seq<char>,
)
    ensures
        insert_all(st, items, path, prefix, suffix).0.len() == lines_after(st.0.len(), items),
    decreases items.len(),
{
    if items.len() > 0 {
        lemma_insert_all_lines(st, items.drop_last(), path, prefix, suffix);
    }
}

proof fn lemma_out_of_bounds_preview(n: nat, items: Seq<(u32, CommentView)>, i: int)
    requires
        out_of_bounds_previews_ok(n, items),
        0 <= i < items.len(),
        items[i].0 == 0 || items[i].0 > lines_after(n, items.take(i)),
    ensures
        can_truncate(items[i].1.body, PREVIEW_LEN as nat),
    decreases items.len(),
{
    let t = items.drop_last();
    if i == items.len() - 1 {
        assert(items.take(i) =~= t);
    } else {
        assert(t.take(i) =~= items.take(i));
        assert(t[i] == items[i]);
        lemma_out_of_bounds_preview(n, t, i);
    }
}

/// The comments on a missing file, each skipped as not found.
pub fn skip_comments_for_missing_file(file_path: &str, file_comments: &[Comment], skipped: &mut Vec<SkippedComment>)
    requires
        previews_ok(views_of(file_comments@)),
    ensures
        views_of(final(skipped)@) == views_of(old(skipped)@) + views_of(file_comments@).map_values(
            |c: CommentView| skipped_of(file_path@, "File not found"@, c),
        ),
{
    let ghost start = views_of(skipped@);
    let ghost cv = views_of(file_comments@);
    let mut i: usize = 0;
    while i < file_comments.len()
        invariant
            i <= file_comments@.len(),
            cv == views_of(file_comments@),
            previews_ok(cv),
            views_of(skipped@) == start + cv.take(i as int).map_values(|c: CommentView| skipped_of(file_path@, "File not found"@, c)),
        decreases file_comments@.len() - i,
    {
        let c = &file_comments[i];
        assert(cv[i as int] == c.deep_view());
        assert(can_truncate(cv[i as int].body, PREVIEW_LEN as nat));
        let sk = SkippedComment {
            path: file_path.to_owned(),
            reason: "File not found".to_owned(),
            body_preview: truncate(c.body.as_str(), PREVIEW_LEN),
        };
        let ghost before = views_of(skipped@);
        skipped.push(sk);
        assert(views_of(skipped@) =~= before.push(sk.deep_view()));
        assert(cv.take(i + 1).map_values(|c: CommentView| skipped_of(file_path@, "File not found"@, c)) =~= cv.take(i as int).map_values(
            |c: CommentView| skipped_of(file_path@, "File not found"@, c),
        ).push(skipped_of(file_path@, "File not found"@, cv[i as int])));
        i += 1;
    }
    assert(cv.take(i as int) =~= cv);
}

// ---------------------------------------------------------------------------
// Comments to apply
// ---------------------------------------------------------------------------

/// The comments that have a line, with their line.
pub open spec fn with_lines(cs: Seq<CommentView>) -> Seq<(u32, CommentView)>
    decreases cs.len(),
{
    if cs.len() == 0 {
        seq![]
    } else {
        match cs.last().line {
            Some(l) => with_lines(cs.drop_last()).push((l, cs.last())),
            None => with_lines(cs.drop_last()),
        }
    }
}

/// The skipped entries of the comments on `path` that have no line.
pub open spec fn lineless_skips(path: Seq<char>, cs: Seq<CommentView>) -> Seq<SkippedView>
    decreases cs.len(),
{
    if cs.len() == 0 {
        seq![]
    } else if cs.last().line is None {
        lineless_skips(path, cs.drop_last()).push(skipped_of(path, "Comment has no line number"@, cs.last()))
    } else {
        lineless_skips(path, cs.drop_last())
    }
}

/// Whether comment `a` must be applied before comment `b`: from the bottom
/// of the file up, so that inserting one does not move the lines of the others.
pub open spec fn later_line(a: (u32, CommentView), b: (u32, CommentView)) -> bool {
    a.0 > b.0
}

/// The comments with a line, from the last line to the first; comments on
/// the same line keep their order.
pub open spec fn applicable_spec(cs: Seq<CommentView>) -> Seq<(u32, CommentView)> {
    insertion_sort(with_lines(cs), |a: (u32, CommentView), b: (u32, CommentView)| later_line(a, b))
}

/// The view of applicable comments.
pub open spec fn items_view(items: Seq<(u32, &Comment)>) -> Seq<(u32, CommentView)> {
    items.map_values(|x: (u32, &Comment)| (x.0, x.1.deep_view()))
}

/// The comments with a line, sorted from the last line to the first; the
/// others are skipped.
pub fn filter_applicable_comments<'a>(
    file_path: &str,
    file_comments: &'a [Comment],
    skipped: &mut Vec<SkippedComment>,
) -> (r: Vec<(u32, &'a Comment)>)
    requires
        lineless_previews_ok(views_of(file_comments@)),
    ensures
        items_view(r@) == applicable_spec(views_of(file_comments@)),
        views_of(final(skipped)@) == views_of(old(skipped)@) + lineless_skips(file_path@, views_of(file_comments@)),
{
    let ghost cv = views_of(file_comments@);
    let ghost start = views_of(skipped@);
    let mut with: Vec<(u32, &Comment)> = Vec::new();
    let mut i: usize = 0;
    while i < file_comments.len()
        invariant
            i <= file_comments@.len(),
            cv == views_of(file_comments@),
            lineless_previews_ok(cv),
            items_view(with@) == with_lines(cv.take(i as int)),
            views_of(skipped@) == start + lineless_skips(file_path@, cv.take(i as int)),
        decreases file_comments@.len() - i,
    {
        let c = &file_comments[i];
        assert(cv[i as int] == c.deep_view());
        assert(cv.take(i + 1).drop_last() =~= cv.take(i as int));
        match c.line {
            Some(l) => {
                let ghost before = items_view(with@);
                with.push((l, c));
                assert(items_view(with@) =~= before.push((l, c.deep_view())));
            },
            None => {
                assert(cv[i as int].line is None);
                assert(can_truncate(cv[i as int].body, PREVIEW_LEN as nat));
                let sk = SkippedComment {
                    path: file_path.to_owned(),
                    reason: "Comment has no line number".to_owned(),
                    body_preview: truncate(c.body.as_str(), PREVIEW_LEN),
                };
                let ghost before = views_of(skipped@);
                skipped.push(sk);
                assert(views_of(skipped@) =~= before.push(sk.deep_view()));
            },
        }
        i += 1;
    }
    assert(cv.take(i as int) =~= cv);
    let ghost all = items_view(with@);
    let mut rest = with;
    let mut sorted: Vec<(u32, &Comment)> = Vec::new();
    let ghost mut done: int = 0;
    while rest.len() > 0
        invariant
            0 <= done <= all.len(),
            items_view(rest@) == all.skip(done),
            items_view(sorted@) == insertion_sort(all.take(done), |a: (u32, CommentView), b: (u32, CommentView)| later_line(a, b)),
        decreases rest@.len(),
    {
        let ghost sv = items_view(sorted@);
        let ghost rest_before = rest@;
        let x = rest.remove(0);
        let ghost xv = (x.0, x.1.deep_view());
        assert(rest_before =~= seq![x] + rest@);
        assert(items_view(rest_before) =~= seq![xv] + items_view(rest@));
        assert(all.skip(done)[0] == all[done]);
        assert(all[done] == xv);
        let mut p: usize = 0;
        let n = sorted.len();
        while p < n
            invariant
                p <= n == sorted@.len(),
                sv == items_view(sorted@),
                xv.0 == x.0,
                insertion_point(sv, xv, |a: (u32, CommentView), b: (u32, CommentView)| later_line(a, b), 0)
                    == insertion_point(sv, xv, |a: (u32, CommentView), b: (u32, CommentView)| later_line(a, b), p as int),
            ensures
                p <= n,
                insertion_point(sv, xv, |a: (u32, CommentView), b: (u32, CommentView)| later_line(a, b), 0) == p,
            decreases n - p,
        {
            assert(sv[p as int].0 == sorted@[p as int].0);
            if x.0 > sorted[p].0 {
                break;
            }
            p += 1;
        }
        sorted.insert(p, x);
        proof {
            let t = all.take(done + 1);
            assert(t.drop_last() =~= all.take(done));
            assert(t.last() == xv);
            assert(items_view(sorted@) =~= sv.insert(p as int, xv));
            done = done + 1;
            assert(items_view(rest@) =~= all.skip(done));
        }
    }
    assert(all.take(done) =~= all);
    sorted
}

/// A line of a comment body in the inserted comment, after the line break
/// before it.
pub open spec fn inserted_body_line(ind: Seq<char>, prefix: Seq<char>, suffix: Seq<char>, line: Seq<char>) -> Seq<char> {
    if line.len() == 0 {
        "\n"@ + ind + prefix + suffix
    } else {
        "\n"@ + ind + prefix + " "@ + line + suffix
    }
}

/// The lines inserted into a file for a comment, without a final line
/// break: an opening `<review user="...">` line, the body and a closing line.
pub open spec fn insertion_text(login: Seq<char>, body: Seq<char>, ind: Seq<char>, prefix: Seq<char>, suffix: Seq<char>) -> Seq<char> {
    ind + prefix + " <review user=\""@ + login + "\">"@ + suffix
        + concat_map(lines_of(body), |l: Seq<char>| inserted_body_line(ind, prefix, suffix, l))
        + "\n"@ + ind + prefix + " </review>"@ + suffix
}

/// The text to insert into a file for a comment, see [`insertion_text`].
pub fn format_comment_for_insertion(comment: &Comment, indentation: &str, prefix: &str, suffix: &str) -> (r: String)
    ensures
        r@ == insertion_text(comment.user.login@, comment.body@, indentation@, prefix@, suffix@),
{
    let mut out: Vec<char> = Vec::new();
    push_str(&mut out, indentation);
    push_str(&mut out, prefix);
    push_str(&mut out, " <review user=\"");
    push_str(&mut out, comment.user.login.as_str());
    push_str(&mut out, "\">");
    push_str(&mut out, suffix);
    let ghost start = out@;
    let lines = split_lines(comment.body.as_str());
    let ghost ls = string_views(lines@);
    let mut i: usize = 0;
    while i < lines.len()
        invariant
            i <= lines@.len(),
            ls == string_views(lines@),
            out@ == start + concat_map(ls.take(i as int), |l: Seq<char>| inserted_body_line(indentation@, prefix@, suffix@, l)),
        decreases lines@.len() - i,
    {
        let line: &str = lines[i].as_str();
        assert(line@ == ls[i as int]);
        push_str(&mut out, "\n");
        push_str(&mut out, indentation);
        push_str(&mut out, prefix);
        if line.unicode_len() == 0 {
            push_str(&mut out, suffix);
        } else {
            push_str(&mut out, " ");
            push_str(&mut out, line);
            push_str(&mut out, suffix);
        }
        proof {
            lemma_concat_map_step(ls, |l: Seq<char>| inserted_body_line(indentation@, prefix@, suffix@, l), i as int);
        }
        i += 1;
    }
    assert(ls.take(i as int) =~= ls);
    push_str(&mut out, "\n");
    push_str(&mut out, indentation);
    push_str(&mut out, prefix);
    push_str(&mut out, " </review>");
    push_str(&mut out, suffix);
    assert(seq![] + insertion_text(comment.user.login@, comment.body@, indentation@, prefix@, suffix@) =~= out@);
    string_from(&out)
}

/// The skip reason of a comment on a line the file does not have.
pub open spec fn out_of_bounds_reason(line: u32, file_lines: nat) -> Seq<char> {
    "Line "@ + decimal(line as nat) + " out of bounds (file has "@ + decimal(file_lines) + " lines)"@
}

/// The lines of a file, the skipped comments and the number of comments
/// applied, after applying one more comment: inserted below its line, or
/// skipped when the file has no such line.
pub open spec fn insert_step(
    st: (Seq<Seq<char>>, Seq<SkippedView>, nat),
    item: (u32, CommentView),
    path: Seq<char>,
    prefix: Seq<char>,
    suffix: Seq<char>,
) -> (Seq<Seq<char>>, Seq<SkippedView>, nat) {
    let ls = st.0;
    if item.0 == 0 || item.0 > ls.len() {
        (
            ls,
            st.1.push(skipped_of(path, out_of_bounds_reason(item.0, ls.len()), item.1)),
            st.2,
        )
    } else {
        (
            ls.insert(
                item.0 as int,
                insertion_text(item.1.user, item.1.body, leading_whitespace(ls[item.0 - 1]), prefix, suffix),
            ),
            st.1,
            st.2 + 1,
        )
    }
}

/// The state after applying the comments `items` in order.
pub open spec fn insert_all(
    st: (Seq<Seq<char>>, Seq<SkippedView>, nat),
    items: Seq<(u32, CommentView)>,
    path: Seq<char>,
    prefix: Seq<char>,
    suffix: Seq<char>,
) -> (Seq<Seq<char>>, Seq<SkippedView>, nat)
    decreases items.len(),
{
    if items.len() == 0 {
        st
    } else {
        insert_step(insert_all(st, items.drop_last(), path, prefix, suffix), items.last(), path, prefix, suffix)
    }
}

/// Inserts each comment below its line, in order; comments on lines the
/// file does not have are skipped. Returns the number applied.
pub fn insert_comments_into_lines(
    lines: &mut Vec<String>,
    applicable_comments: &[(u32, &Comment)],
    file_path: &str,
    prefix: &str,
    suffix: &str,
    skipped: &mut Vec<SkippedComment>,
) -> (r: usize)
    requires
        out_of_bounds_previews_ok(old(lines)@.len(), items_view(applicable_comments@)),
    ensures
        (string_views(final(lines)@), views_of(final(skipped)@), r as nat) == insert_all(
            (string_views(old(lines)@), views_of(old(skipped)@), 0),
            items_view(applicable_comments@),
            file_path@,
            prefix@,
            suffix@,
        ),
{
    let ghost iv = items_view(applicable_comments@);
    let mut applied: usize = 0;
    let mut i: usize = 0;
    while i < applicable_comments.len()
        invariant
            i <= applicable_comments@.len(),
            iv == items_view(applicable_comments@),
            out_of_bounds_previews_ok(old(lines)@.len(), iv),
            applied <= i,
            (string_views(lines@), views_of(skipped@), applied as nat) == insert_all(
                (string_views(old(lines)@), views_of(old(skipped)@), 0),
                iv.take(i as int),
                file_path@,
                prefix@,
                suffix@,
            ),
        decreases applicable_comments@.len() - i,
    {
        let (line_num, comment) = applicable_comments[i];
        assert(iv[i as int] == (line_num, comment.deep_view()));
        assert(iv.take(i + 1).drop_last() =~= iv.take(i as int));
        assert(iv.take(i + 1).last() == iv[i as int]);
        let n = lines.len();
        let l = line_num as usize;
        proof {
            lemma_insert_all_lines(
                (string_views(old(lines)@), views_of(old(skipped)@), 0),
                iv.take(i as int),
                file_path@,
                prefix@,
                suffix@,
            );
        }
        if l == 0 || l > n {
            proof {
                lemma_out_of_bounds_preview(old(lines)@.len(), iv, i as int);
            }
            assert(can_truncate(comment.deep_view().body, PREVIEW_LEN as nat));
            let mut reason: Vec<char> = Vec::new();
            push_str(&mut reason, "Line ");
            push_decimal(&mut reason, line_num as u64);
            push_str(&mut reason, " out of bounds (file has ");
            push_decimal(&mut reason, n as u64);
            push_str(&mut reason, " lines)");
            assert(reason@ =~= out_of_bounds_reason(line_num, n as nat));
            let sk = SkippedComment {
                path: file_path.to_owned(),
                reason: string_from(&reason),
                body_preview: truncate(comment.body.as_str(), PREVIEW_LEN),
            };
            let ghost before = views_of(skipped@);
            skipped.push(sk);
            assert(views_of(skipped@) =~= before.push(sk.deep_view()));
        } else {
            let ghost lv = string_views(lines@);
            let indentation = get_indentation(lines[l - 1].as_str());
            assert(lv[l - 1] == lines@[l - 1]@);
            let formatted = format_comment_for_insertion(comment, indentation.as_str(), prefix, suffix);
            lines.insert(l, formatted);
            assert(string_views(lines@) =~= lv.insert(l as int, formatted@));
            applied += 1;
        }
        i += 1;
    }
    assert(iv.take(i as int) =~= iv);
    applied
}

/// The lines of a file with the comments on it applied, the skipped
/// comments and the number applied.
pub open spec fn apply_spec(path: Seq<char>, content: Seq<char>, cs: Seq<CommentView>) -> (Seq<Seq<char>>, Seq<SkippedView>, nat) {
    let language = language_of(path);
    insert_all(
        (lines_of(content), lineless_skips(path, cs), 0),
        applicable_spec(cs),
        path,
        comment_prefix_of(language),
        comment_suffix_of(language),
    )
}

proof fn lemma_lines_and_lineless(path: Seq<char>, cs: Seq<CommentView>)
    ensures
        with_lines(cs).len() + lineless_skips(path, cs).len() == cs.len(),
    decreases cs.len(),
{
    if cs.len() > 0 {
        lemma_lines_and_lineless(path, cs.drop_last());
    }
}

proof fn lemma_insert_all_counts(
    st: (Seq<Seq<char>>, Seq<SkippedView>, nat),
    items: Seq<(u32, CommentView)>,
    path: Seq<char>,
    prefix: Seq<char>,
    suffix: Seq<char>,
)
    ensures
        insert_all(st, items, path, prefix, suffix).1.len() + insert_all(st, items, path, prefix, suffix).2
            == st.1.len() + st.2 + items.len(),
        insert_all(st, items, path, prefix, suffix).0.len() == st.0.len() + insert_all(st, items, path, prefix, suffix).2 - st.2,
    decreases items.len(),
{
    if items.len() > 0 {
        lemma_insert_all_counts(st, items.drop_last(), path, prefix, suffix);
    }
}

/// Comments are applied from the bottom of the file up: no comment is
/// applied after one on a lower line, so inserting one never moves the line
/// of another still to apply.
pub proof fn law_comments_applied_bottom_up(cs: Seq<CommentView>)
    ensures
        forall|i: int, j: int|
            0 <= i < j < applicable_spec(cs).len() ==> (#[trigger] applicable_spec(cs)[i]).0 >= (
            #[trigger] applicable_spec(cs)[j]).0,
{
    let before = |a: (u32, CommentView), b: (u32, CommentView)| later_line(a, b);
    assert(crate::formatting::strict_order(before));
    crate::formatting::law_insertion_sort_sorted(with_lines(cs), before);
    let r = applicable_spec(cs);
    assert forall|i: int, j: int| 0 <= i < j < r.len() implies (#[trigger] r[i]).0 >= (#[trigger] r[j]).0 by {
        assert(!before(r[j], r[i]));
    }
}

/// Every comment on a file is either applied or reported as skipped, and
/// the file gains one line (holding the comment's text) per comment applied.
pub proof fn law_every_comment_applied_or_skipped(path: Seq<char>, content: Seq<char>, cs: Seq<CommentView>)
    ensures
        apply_spec(path, content, cs).1.len() + apply_spec(path, content, cs).2 == cs.len(),
        apply_spec(path, content, cs).0.len() == lines_of(content).len() + apply_spec(path, content, cs).2,
{
    let language = language_of(path);
    lemma_lines_and_lineless(path, cs);
    crate::formatting::law_insertion_sort_permutes(
        with_lines(cs),
        |a: (u32, CommentView), b: (u32, CommentView)| later_line(a, b),
    );
    lemma_insert_all_counts(
        (lines_of(content), lineless_skips(path, cs), 0),
        applicable_spec(cs),
        path,
        comment_prefix_of(language),
        comment_suffix_of(language),
    );
}

/// Applies the comments on the file `file_path`, whose content is
/// `content`: the new lines of the file and the number of comments applied;
/// the comments that cannot be applied are added to `skipped`.
pub fn apply_comments_to_lines(
    file_path: &str,
    content: &str,
    file_comments: &[Comment],
    skipped: &mut Vec<SkippedComment>,
) -> (r: (Vec<String>, usize))
    requires
        apply_previews_ok(content@, views_of(file_comments@)),
    ensures
        ({
            let want = apply_spec(file_path@, content@, views_of(file_comments@));
            &&& string_views(r.0@) == want.0
            &&& views_of(final(skipped)@) == views_of(old(skipped)@) + want.1
            &&& r.1 as nat == want.2
        }),
{
    let mut lines = split_lines(content);
    let mut mine: Vec<SkippedComment> = Vec::new();
    let applicable = filter_applicable_comments(file_path, file_comments, &mut mine);
    assert(string_views(lines@).len() == lines@.len());
    let language = detect_language(file_path);
    let prefix = get_comment_prefix(language);
    let suffix = get_comment_suffix(language);
    assert(views_of(mine@) =~= lineless_skips(file_path@, views_of(file_comments@)));
    let applied = insert_comments_into_lines(&mut lines, applicable.as_slice(), file_path, prefix, suffix, &mut mine);
    let ghost before = skipped@;
    let ghost added = mine@;
    skipped.append(&mut mine);
    assert(views_of(skipped@) =~= views_of(before) + views_of(added));
    (lines, applied)
}

/// Whether the comments on a file of content `content` can be applied, see
/// [`apply_previews_ok`].
pub fn can_apply_comments(content: &str, file_comments: &[Comment]) -> (r: bool)
    ensures
        r == apply_previews_ok(content@, views_of(file_comments@)),
{
    let ghost cv = views_of(file_comments@);
    let mut i: usize = 0;
    while i < file_comments.len()
        invariant
            i <= file_comments@.len(),
            cv == views_of(file_comments@),
            forall|j: int| 0 <= j < i && #[trigger] cv[j].line is None ==> can_truncate(cv[j].body, PREVIEW_LEN as nat),
        decreases file_comments@.len() - i,
    {
        assert(cv[i as int] == file_comments@[i as int].deep_view());
        if file_comments[i].line.is_none() && !is_truncatable(file_comments[i].body.as_str(), PREVIEW_LEN) {
            assert(cv[i as int].line is None);
            return false;
        }
        i += 1;
    }
    let mut scratch: Vec<SkippedComment> = Vec::new();
    let applicable = filter_applicable_comments("", file_comments, &mut scratch);
    let ghost iv = items_view(applicable@);
    let len0 = split_lines(content).len();
    let ghost n0 = lines_of(content@).len();
    let mut n: u64 = if len0 as u64 > 0x1_0000_0000 {
        0x1_0000_0000
    } else {
        len0 as u64
    };
    let mut k: usize = 0;
    while k < applicable.len()
        invariant
            k <= applicable@.len(),
            iv == items_view(applicable@),
            iv == applicable_spec(views_of(file_comments@)),
            n0 == lines_of(content@).len(),
            n == capped(lines_after(n0, iv.take(k as int))),
            out_of_bounds_previews_ok(n0, iv.take(k as int)),
        decreases applicable@.len() - k,
    {
        let (line, comment) = applicable[k];
        assert(iv[k as int] == (line, comment.deep_view()));
        let t = Ghost(iv.take(k + 1));
        assert(t@.drop_last() =~= iv.take(k as int));
        assert(t@.last() == iv[k as int]);
        if line == 0 || line as u64 > n {
            if !is_truncatable(comment.body.as_str(), PREVIEW_LEN) {
                assert(!out_of_bounds_previews_ok(n0, t@));
                proof {
                    if out_of_bounds_previews_ok(n0, iv) {
                        lemma_out_of_bounds_prefix(n0, iv, k + 1);
                        assert(iv.take(k + 1) == t@);
                    }
                }
                return false;
            }
        } else if n < 0x1_0000_0000 {
            n = n + 1;
        }
        k += 1;
    }
    assert(iv.take(k as int) =~= iv);
    true
}

/// A line count, capped just above the largest line a comment can name.
pub open spec fn capped(n: nat) -> nat {
    if n > 0x1_0000_0000 {
        0x1_0000_0000
    } else {
        n
    }
}

proof fn lemma_out_of_bounds_prefix(n: nat, items: Seq<(u32, CommentView)>, k: int)
    requires
        0 <= k <= items.len(),
        out_of_bounds_previews_ok(n, items),
    ensures
        out_of_bounds_previews_ok(n, items.take(k)),
    decreases items.len(),
{
    if k < items.len() {
        let t = items.drop_last();
        assert(t.take(k) =~= items.take(k));
        lemma_out_of_bounds_prefix(n, t, k);
    } else {
        assert(items.take(k) =~= items);
    }
}

// ---------------------------------------------------------------------------
// Reporting and writing
// ---------------------------------------------------------------------------

/// A skipped comment in the report.
pub open spec fn skipped_line(sk: SkippedView) -> Seq<char> {
    "  - "@ + sk.path + ": "@ + sk.reason + " ("@ + sk.body_preview + ")\n"@
}

/// The report of applying comments: the counts, then each skipped comment.
pub open spec fn result_text(files_modified: nat, comments_applied: nat, skipped: Seq<SkippedView>) -> Seq<char> {
    "Applied "@ + decimal(comments_applied) + " comment(s) to "@ + decimal(files_modified) + " file(s)\n"@ + if skipped.len() > 0 {
        "\nSkipped "@ + decimal(skipped.len()) + " comment(s):\n"@ + concat_map(skipped, |sk: SkippedView| skipped_line(sk))
    } else {
        seq![]
    }
}

/// The report of applying comments, see [`result_text`].
pub fn print_apply_result(result: &ApplyResult) -> (r: String)
    ensures
        r@ == result_text(result.files_modified as nat, result.comments_applied as nat, views_of(result.comments_skipped@)),
{
    let mut out: Vec<char> = Vec::new();
    push_str(&mut out, "Applied ");
    push_decimal(&mut out, result.comments_applied as u64);
    push_str(&mut out, " comment(s) to ");
    push_decimal(&mut out, result.files_modified as u64);
    push_str(&mut out, " file(s)\n");
    let ghost head = out@;
    let ghost sv = views_of(result.comments_skipped@);
    if result.comments_skipped.len() > 0 {
        push_str(&mut out, "\nSkipped ");
        push_decimal(&mut out, result.comments_skipped.len() as u64);
        push_str(&mut out, " comment(s):\n");
        let ghost mid = out@;
        let mut i: usize = 0;
        while i < result.comments_skipped.len()
            invariant
                i <= result.comments_skipped@.len(),
                sv == views_of(result.comments_skipped@),
                out@ == mid + concat_map(sv.take(i as int), |sk: SkippedView| skipped_line(sk)),
            decreases result.comments_skipped@.len() - i,
        {
            let sk = &result.comments_skipped[i];
            push_str(&mut out, "  - ");
            push_str(&mut out, sk.path.as_str());
            push_str(&mut out, ": ");
            push_str(&mut out, sk.reason.as_str());
            push_str(&mut out, " (");
            push_str(&mut out, sk.body_preview.as_str());
            push_str(&mut out, ")\n");
            proof {
                assert(sv[i as int] == sk.deep_view());
                lemma_concat_map_step(sv, |sk: SkippedView| skipped_line(sk), i as int);
            }
            i += 1;
        }
        assert(sv.take(i as int) =~= sv);
    }
    assert(seq![] + result_text(result.files_modified as nat, result.comments_applied as nat, sv) =~= out@);
    string_from(&out)
}

/// The lines joined by line breaks.
pub open spec fn joined_lines(ls: Seq<Seq<char>>) -> Seq<char>
    decreases ls.len(),
{
    if ls.len() == 0 {
        seq![]
    } else if ls.len() == 1 {
        ls[0]
    } else {
        joined_lines(ls.drop_last()) + "\n"@ + ls.last()
    }
}

/// The content of a file made of `lines`, each ending with a line break.
pub fn render_lines(lines: &Vec<String>) -> (r: String)
    ensures
        r@ == joined_lines(string_views(lines@)) + "\n"@,
{
    let ghost lv = string_views(lines@);
    let mut out: Vec<char> = Vec::new();
    let mut i: usize = 0;
    while i < lines.len()
        invariant
            i <= lines@.len(),
            lv == string_views(lines@),
            out@ == joined_lines(lv.take(i as int)),
        decreases lines@.len() - i,
    {
        if i > 0 {
            push_str(&mut out, "\n");
        }
        push_str(&mut out, lines[i].as_str());
        proof {
            let t = lv.take(i + 1);
            assert(t.drop_last() =~= lv.take(i as int));
            assert(t.last() == lines@[i as int]@);
            if i == 0 {
                assert(lv.take(0) =~= seq![]);
            }
        }
        i += 1;
    }
    assert(lv.take(i as int) =~= lv);
    push_str(&mut out, "\n");
    string_from(&out)
}

impl ApplyResult {
    /// Settles a file once its comments were applied: a file where at least
    /// one comment was inserted is to be written, and is counted with its
    /// comments; a file where none was is left alone and not counted.
    /// Returns whether the file is to be written.
    pub fn settle_file(&mut self, applied: usize) -> (write: bool)
        requires
            applied > 0 ==> old(self).files_modified < usize::MAX,
            applied > 0 ==> old(self).comments_applied + applied <= usize::MAX,
        ensures
            write == (applied > 0),
            write ==> final(self).files_modified == old(self).files_modified + 1,
            write ==> final(self).comments_applied == old(self).comments_applied + applied,
            !write ==> *final(self) == *old(self),
            final(self).comments_skipped == old(self).comments_skipped,
    {
        if applied > 0 {
            self.record_file(applied);
            true
        } else {
            false
        }
    }

    /// Counts a file written with `applied` comments.
    pub fn record_file(&mut self, applied: usize)
        requires
            old(self).files_modified < usize::MAX,
            old(self).comments_applied + applied <= usize::MAX,
        ensures
            final(self).files_modified == old(self).files_modified + 1,
            final(self).comments_applied == old(self).comments_applied + applied,
            final(self).comments_skipped == old(self).comments_skipped,
    {
        self.files_modified = self.files_modified + 1;
        self.comments_applied = self.comments_applied + applied;
    }
}

} // verus!
