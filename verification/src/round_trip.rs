//! Reading a diff and writing its chunk back: a one-file diff whose chunk
//! was written by `SideBySideChunk::to_unified` reads as that chunk.
use vstd::prelude::*;

use crate::diff::diff_header::{
    after_diff_keyword, ends_with_file_extension, ext_split_from, file_name, has_file_extension,
    header_path, left_path, quoted_right_marker, right_marker, spec_diff_header, unquoted_split,
    DiffHeaderView,
};
use crate::diff::error::ParseError;
use crate::diff::extended_header_line::{first_keyword, keyword_rest, spec_extended_header_line, spec_keyword};
use crate::diff::file_header_line::{
    file_header_path, spec_file_header, NewFileHeaderLineParser, OldFileHeaderLineParser,
};
use crate::diff::diff_file_header::{spec_diff_file_header, DiffFileHeaderView};
use crate::diff::diff_header::DiffHeaderParser;
use crate::diff::extended_header_line::ExtendedHeaderLineParser;
use crate::diff::parser::{spec_many, MultilineParser};
use crate::diff::chunk::{spec_chunk, ChunkParser, ChunkView};
use crate::diff::chunk_header::ChunkHeaderParser;
use crate::diff::diff::{spec_parse_diff, DiffView};
use crate::diff::diff_file::{spec_diff_file, DiffFileParser, DiffFileView};
use crate::number::lemma_decimal_digits;
use crate::diff::diff_line::marker_status;
use crate::side_by_side_diff::{
    chunk_body_text, chunk_of, diff_of, hunk_lines_of, is_marked_line, law_chunk_header_reads_back,
    law_chunk_writes_back, lemma_marked_lines_read, line_of, marked_line_view, range_len, scan_hunk,
    unified_chunk, unified_header, LineStatus, ParsedHunkLineView, SideBySideLineView,
};
use crate::text::{
    decimal, find, find_from, is_blank, lemma_span_len_exact, lines_of, rfind_char, rspan_len, starts_with,
    strip_cr, trim_end, trim_start, CharClass,
};

verus! {

/// Whether `s` can stand as a line of a text: it holds no line break and
/// does not end with a carriage return (which reading lines would drop).
pub open spec fn is_plain_line(s: Seq<char>) -> bool {
    &&& forall|j: int| 0 <= j < s.len() ==> #[trigger] s[j] != '\n'
    &&& !(s.len() > 0 && s.last() == '\r')
}

proof fn lemma_body_text_concat(a: Seq<Seq<char>>, b: Seq<Seq<char>>)
    ensures
        chunk_body_text(a + b) == chunk_body_text(a) + chunk_body_text(b),
    decreases b.len(),
{
    if b.len() == 0 {
        assert(a + b =~= a);
        assert(chunk_body_text(a) + chunk_body_text(b) =~= chunk_body_text(a));
    } else {
        lemma_body_text_concat(a, b.drop_last());
        assert((a + b).drop_last() =~= a + b.drop_last());
        assert((a + b).last() == b.last());
        assert(chunk_body_text(a) + chunk_body_text(b) =~= chunk_body_text(a) + chunk_body_text(b.drop_last())
            + seq!['\n'] + b.last());
    }
}

proof fn lemma_find_newline(s: Seq<char>, from: int, i: int)
    requires
        0 <= from <= i < s.len(),
        s[i] == '\n',
        forall|j: int| from <= j < i ==> #[trigger] s[j] != '\n',
    ensures
        find_from(s, seq!['\n'], from) == Some(i),
    decreases i - from,
{
    if from < i {
        assert(s.skip(from).take(1)[0] == s[from]);
        lemma_find_newline(s, from + 1, i);
    } else {
        assert(s.skip(from).take(1) =~= seq!['\n']);
    }
}

proof fn lemma_no_newline(s: Seq<char>, from: int)
    requires
        0 <= from <= s.len(),
        forall|j: int| from <= j < s.len() ==> #[trigger] s[j] != '\n',
    ensures
        find_from(s, seq!['\n'], from) is None,
    decreases s.len() - from,
{
    if from < s.len() {
        assert(s.skip(from).take(1)[0] == s[from]);
        lemma_no_newline(s, from + 1);
    }
}

/// A first line followed by lines, each after a line break, reads back as
/// those lines.
pub proof fn lemma_lines_of_joined(x: Seq<char>, ls: Seq<Seq<char>>)
    requires
        x.len() > 0,
        is_plain_line(x),
        forall|i: int| 0 <= i < ls.len() ==> #[trigger] is_plain_line(ls[i]) && ls[i].len() > 0,
    ensures
        lines_of(x + chunk_body_text(ls)) == seq![x] + ls,
    decreases ls.len(),
{
    let s = x + chunk_body_text(ls);
    if ls.len() == 0 {
        assert(s =~= x);
        lemma_no_newline(s, 0);
        assert(seq![x] + ls =~= seq![x]);
    } else {
        let rest = ls.skip(1);
        lemma_body_text_concat(seq![ls[0]], rest);
        assert(seq![ls[0]] + rest =~= ls);
        let one = seq![ls[0]];
        assert(one.drop_last() =~= Seq::<Seq<char>>::empty());
        assert(chunk_body_text(one.drop_last()) == Seq::<char>::empty());
        assert(chunk_body_text(one) == chunk_body_text(one.drop_last()) + seq!['\n'] + one.last());
        assert(chunk_body_text(one) =~= seq!['\n'] + ls[0]);
        assert(s =~= x + seq!['\n'] + (ls[0] + chunk_body_text(rest)));
        assert forall|j: int| 0 <= j < x.len() implies #[trigger] s[j] != '\n' by {
            assert(s[j] == x[j]);
        }
        lemma_find_newline(s, 0, x.len() as int);
        assert(s.take(x.len() as int) =~= x);
        assert(strip_cr(x) == x);
        assert(s.skip(x.len() as int + 1) =~= ls[0] + chunk_body_text(rest));
        assert forall|i: int| 0 <= i < rest.len() implies #[trigger] is_plain_line(rest[i]) && rest[i].len() > 0 by {
            assert(rest[i] == ls[i + 1]);
        }
        assert(is_plain_line(ls[0]) && ls[0].len() > 0);
        lemma_lines_of_joined(ls[0], rest);
        assert(seq![x] + (seq![ls[0]] + rest) =~= seq![x] + ls);
    }
}


/// The text `f`: the name of the file of the diff below.
pub open spec fn f_path() -> Seq<char> {
    seq!['f']
}

proof fn lemma_trim_f()
    ensures
        trim_end(f_path()) == f_path(),
        trim_start(seq!['b', '/', 'f']) == seq!['b', '/', 'f'],
{
    assert(f_path().drop_last() =~= Seq::<char>::empty());
    assert(rspan_len(f_path(), CharClass::Whitespace) == 0);
    assert(f_path().take(1) =~= f_path());
    lemma_span_len_exact(seq!['b', '/', 'f'], CharClass::Whitespace, 0);
    assert(seq!['b', '/', 'f'].skip(0) =~= seq!['b', '/', 'f']);
}

proof fn lemma_split_f()
    ensures
        unquoted_split(seq!['f', ' ', 'b', '/', 'f']) == Some(1int),
{
    let x = seq!['f', ' ', 'b', '/', 'f'];
    let q = quoted_right_marker();
    let m = right_marker();
    assert(find_from(x, q, 2) is None);
    assert(x.skip(1).take(4)[1] == 'b');
    assert(!starts_with(x.skip(1), q));
    assert(find_from(x, q, 1) is None);
    assert(x.skip(0).take(4)[0] == 'f');
    assert(!starts_with(x.skip(0), q));
    assert(find(x, q) is None);
    assert(find_from(x, m, 3) is None);
    assert(x.skip(2).take(3)[0] == 'b');
    assert(!starts_with(x.skip(2), m));
    assert(find_from(x, m, 2) is None);
    assert(x.skip(1).take(3) =~= m);
    assert(find_from(x, m, 1) == Some(1int));
    assert(x.skip(0).take(3)[0] == 'f');
    assert(!starts_with(x.skip(0), m));
    assert(find(x, m) == Some(1int));
    assert(x.take(1) =~= f_path());
    assert(f_path().drop_last() =~= Seq::<char>::empty());
    assert(f_path().last() == 'f');
    assert(rfind_char(f_path().drop_last(), '/') is None);
    assert(rfind_char(f_path(), '/') is None);
    assert(rfind_char(f_path().drop_last(), '.') is None);
    assert(rfind_char(f_path(), '.') is None);
    assert(file_name(f_path()) == f_path());
    assert(!has_file_extension(f_path()));
    assert(!ends_with_file_extension(x.take(1)));
    reveal_with_fuel(ext_split_from, 3);
    assert(ext_split_from(x, 2) is None);
    assert(ext_split_from(x, 0) is None);
    reveal(unquoted_split);
}

/// The `diff` line of a diff of the file `f` reads as `f` on both sides.
pub proof fn lemma_diff_header_of_f()
    ensures
        spec_diff_header("diff --git a/f b/f"@) == Ok::<Option<DiffHeaderView>, ParseError>(
            Some(DiffHeaderView { left: f_path(), right: f_path() }),
        ),
{
    reveal_strlit("diff --git a/f b/f");
    reveal_strlit("diff");
    reveal_strlit("--git");
    let s = "diff --git a/f b/f"@;
    assert(s.take(4) =~= "diff"@);
    let s4 = s.skip(4);
    lemma_span_len_exact(s4, CharClass::Whitespace, 1);
    let t1 = s4.skip(1);
    assert(t1.take(5) =~= "--git"@);
    let t2 = t1.skip(5);
    lemma_span_len_exact(t2, CharClass::Whitespace, 1);
    let t = seq!['a', '/', 'f', ' ', 'b', '/', 'f'];
    assert(t2.skip(1) =~= t);
    assert(after_diff_keyword(s) == t);
    lemma_split_f();
    lemma_trim_f();
    assert(t.take(2) =~= seq!['a', '/']);
    assert(t.skip(2) =~= seq!['f', ' ', 'b', '/', 'f']);
    assert(t.skip(2).take(1) =~= f_path());
    reveal(left_path);
    assert(left_path(t) == Ok::<(Seq<char>, nat), ParseError>((f_path(), 4)));
    let u = seq!['b', '/', 'f'];
    assert(t.skip(4) =~= u);
    assert(u.take(2) =~= seq!['b', '/']);
    assert(u.skip(2) =~= f_path());
    reveal(header_path);
    assert(header_path(u, seq!['b', '/']) == Ok::<(Seq<char>, nat), ParseError>((f_path(), 3)));
    assert(u.skip(3) =~= Seq::<char>::empty());
    assert(is_blank(u.skip(3)));
}


proof fn lemma_no_keyword(s: Seq<char>, k: int)
    requires
        s.len() > 0,
        s[0] == '-' || s[0] == '+',
        0 <= k,
    ensures
        first_keyword(s, k) is None,
    decreases 11 - k,
{
    if k < 11 {
        reveal_strlit("old mode");
        reveal_strlit("new mode");
        reveal_strlit("deleted file mode");
        reveal_strlit("new file mode");
        reveal_strlit("copy from");
        reveal_strlit("copy to");
        reveal_strlit("rename from");
        reveal_strlit("rename to");
        reveal_strlit("similarity index");
        reveal_strlit("dissimilarity index");
        reveal_strlit("index");
        let kw = spec_keyword(k);
        assert(kw.len() > 0 && kw[0] != '-' && kw[0] != '+');
        if starts_with(s, kw) {
            assert(s.take(kw.len() as int)[0] == s[0]);
        }
        assert(keyword_rest(s, kw) is None);
        lemma_no_keyword(s, k + 1);
    }
}

/// A line that starts with `-` or `+` is no extended header line.
pub proof fn lemma_marked_line_is_not_extended(s: Seq<char>)
    requires
        s.len() > 0,
        s[0] == '-' || s[0] == '+',
    ensures
        spec_extended_header_line(s) == Ok::<Option<crate::diff::extended_header_line::ExtendedHeaderLineView>, ParseError>(None),
{
    lemma_no_keyword(s, 0);
}

/// The file header lines of a diff of the file `f` read as `f`, and each
/// only as the line it is.
pub proof fn lemma_file_header_lines_of_f()
    ensures
        spec_file_header("--- a/f"@, "---"@, "a/"@) == Ok::<Option<Option<Seq<char>>>, ParseError>(Some(Some(f_path()))),
        spec_file_header("+++ b/f"@, "---"@, "a/"@) == Ok::<Option<Option<Seq<char>>>, ParseError>(None),
        spec_file_header("+++ b/f"@, "+++"@, "b/"@) == Ok::<Option<Option<Seq<char>>>, ParseError>(Some(Some(f_path()))),
{
    reveal_strlit("--- a/f");
    reveal_strlit("+++ b/f");
    reveal_strlit("---");
    reveal_strlit("+++");
    reveal_strlit("a/");
    reveal_strlit("b/");
    reveal_strlit("/dev/null");
    lemma_trim_f();
    reveal(header_path);
    let old = "--- a/f"@;
    assert(old.take(3) =~= "---"@);
    let p = old.skip(3);
    assert(p =~= seq![' ', 'a', '/', 'f']);
    lemma_span_len_exact(p, CharClass::Whitespace, 1);
    let t = p.skip(1);
    assert(t =~= seq!['a', '/', 'f']);
    assert(t.len() != "/dev/null"@.len());
    assert(t.take(2) =~= "a/"@);
    assert(t.skip(2) =~= f_path());
    assert(t.skip(3) =~= Seq::<char>::empty());
    assert(is_blank(t.skip(3)));
    assert(file_header_path(p, "a/"@) == Ok::<Option<Seq<char>>, ParseError>(Some(f_path())));
    let new = "+++ b/f"@;
    assert(new.take(3)[0] == '+');
    assert(!starts_with(new, "---"@));
    assert(new.take(3) =~= "+++"@);
    let q = new.skip(3);
    assert(q =~= seq![' ', 'b', '/', 'f']);
    lemma_span_len_exact(q, CharClass::Whitespace, 1);
    let w = q.skip(1);
    assert(w =~= seq!['b', '/', 'f']);
    assert(w.len() != "/dev/null"@.len());
    assert(w.take(2) =~= "b/"@);
    assert(w.skip(2) =~= f_path());
    assert(w.skip(3) =~= Seq::<char>::empty());
    assert(is_blank(w.skip(3)));
    assert(file_header_path(q, "b/"@) == Ok::<Option<Seq<char>>, ParseError>(Some(f_path())));
}


/// The lines that open a diff of the file `f`: the `diff` line and the two
/// file header lines.
pub open spec fn f_header_lines() -> Seq<Seq<char>> {
    seq!["diff --git a/f b/f"@, "--- a/f"@, "+++ b/f"@]
}

/// The header block of a diff of the file `f`.
pub open spec fn f_file_header() -> DiffFileHeaderView {
    DiffFileHeaderView {
        header: DiffHeaderView { left: f_path(), right: f_path() },
        extended_header: seq![],
        old_files: seq![Some(f_path())],
        new_file: Some(f_path()),
    }
}

/// The opening lines of a diff of the file `f` read as its header block,
/// whatever follows them.
pub proof fn lemma_file_header_block_of_f(rest: Seq<Seq<char>>)
    ensures
        spec_diff_file_header(f_header_lines() + rest) == Ok::<Option<(DiffFileHeaderView, nat)>, ParseError>(
            Some((f_file_header(), 3)),
        ),
{
    let ls = f_header_lines() + rest;
    reveal_strlit("--- a/f");
    reveal_strlit("+++ b/f");
    lemma_diff_header_of_f();
    lemma_file_header_lines_of_f();
    assert(ls[0] == "diff --git a/f b/f"@);
    assert(DiffHeaderParser.spec_parse_lines(ls) == Ok::<Option<(DiffHeaderView, nat)>, ParseError>(
        Some((DiffHeaderView { left: f_path(), right: f_path() }, 1)),
    ));
    let l1 = ls.skip(1);
    assert(l1[0] == "--- a/f"@);
    assert("--- a/f"@[0] == '-');
    lemma_marked_line_is_not_extended("--- a/f"@);
    assert(spec_many(&ExtendedHeaderLineParser, l1) == Ok::<(Seq<crate::diff::extended_header_line::ExtendedHeaderLineView>, nat), ParseError>((seq![], 0)));
    assert(ls.skip(1int) == l1);
    let l2 = l1.skip(1);
    assert(l2 =~= ls.skip(2));
    assert(l2[0] == "+++ b/f"@);
    assert(spec_many(&OldFileHeaderLineParser, l2) == Ok::<(Seq<Option<Seq<char>>>, nat), ParseError>((seq![], 0)));
    assert(seq![Some(f_path())] + Seq::<Option<Seq<char>>>::empty() =~= seq![Some(f_path())]);
    assert(spec_many(&OldFileHeaderLineParser, l1) == Ok::<(Seq<Option<Seq<char>>>, nat), ParseError>((seq![Some(f_path())], 1)));
    assert(ls.skip(2int) == l2);
    assert(NewFileHeaderLineParser.spec_parse_lines(l2) == Ok::<Option<(Option<Seq<char>>, nat)>, ParseError>(
        Some((Some(f_path()), 1)),
    ));
}


/// Whether `s` holds no line break.
pub open spec fn no_line_break(s: Seq<char>) -> bool {
    forall|j: int| 0 <= j < s.len() ==> #[trigger] s[j] != '\n'
}

proof fn lemma_no_line_break_concat(a: Seq<char>, b: Seq<char>)
    requires
        no_line_break(a),
        no_line_break(b),
    ensures
        no_line_break(a + b),
{
    assert forall|j: int| 0 <= j < (a + b).len() implies #[trigger] (a + b)[j] != '\n' by {
        if j < a.len() {
            assert((a + b)[j] == a[j]);
        } else {
            assert((a + b)[j] == b[j - a.len()]);
        }
    }
}

proof fn lemma_decimal_has_no_line_break(n: nat)
    ensures
        no_line_break(decimal(n)),
{
    lemma_decimal_digits(n);
    assert forall|j: int| 0 <= j < decimal(n).len() implies #[trigger] decimal(n)[j] != '\n' by {
        assert(crate::text::is_ascii_digit(decimal(n)[j]));
    }
}

proof fn lemma_header_is_plain(from: (int, int), to: (int, int))
    ensures
        is_plain_line(unified_header(from, to)),
        unified_header(from, to).len() > 0,
{
    reveal_strlit("@@ -");
    reveal_strlit(",");
    reveal_strlit(" +");
    reveal_strlit(" @@");
    let a = "@@ -"@;
    let c = ","@;
    let p = " +"@;
    let e = " @@"@;
    assert(no_line_break(a));
    assert(no_line_break(c));
    assert(no_line_break(p));
    assert(no_line_break(e));
    let d1 = decimal(from.0 as nat);
    let d2 = decimal(range_len(from) as nat);
    let d3 = decimal(to.0 as nat);
    let d4 = decimal(range_len(to) as nat);
    lemma_decimal_has_no_line_break(from.0 as nat);
    lemma_decimal_has_no_line_break(range_len(from) as nat);
    lemma_decimal_has_no_line_break(to.0 as nat);
    lemma_decimal_has_no_line_break(range_len(to) as nat);
    lemma_no_line_break_concat(a, d1);
    lemma_no_line_break_concat(a + d1, c);
    lemma_no_line_break_concat(a + d1 + c, d2);
    lemma_no_line_break_concat(a + d1 + c + d2, p);
    lemma_no_line_break_concat(a + d1 + c + d2 + p, d3);
    lemma_no_line_break_concat(a + d1 + c + d2 + p + d3, c);
    lemma_no_line_break_concat(a + d1 + c + d2 + p + d3 + c, d4);
    lemma_no_line_break_concat(a + d1 + c + d2 + p + d3 + c + d4, e);
    let h = unified_header(from, to);
    assert(h == a + d1 + c + d2 + p + d3 + c + d4 + e);
    assert(h.last() == '@');
}

/// The text of a diff of the one file `f` whose only chunk is `chunk`.
pub open spec fn f_diff_text(chunk: Seq<char>) -> Seq<char> {
    "diff --git a/f b/f\n--- a/f\n+++ b/f\n"@ + chunk
}

/// Reading a diff and writing its chunk back gives the chunk's text: a diff
/// of one file whose chunk is a header that
/// [`crate::side_by_side_diff::SideBySideChunk::to_unified`] wrote from two
/// ranges, followed by lines that each start with `+`, `-` or a space (and
/// hold no line break, nor end with a carriage return), parses as one file
/// with one chunk, and `to_unified` writes that chunk as the same text.
pub proof fn law_parsed_diff_chunk_writes_back(from: (int, int), to: (int, int), ls: Seq<Seq<char>>)
    requires
        0 <= from.0 <= from.1 <= usize::MAX,
        0 <= to.0 <= to.1 <= usize::MAX,
        forall|i: int| 0 <= i < ls.len() ==> #[trigger] is_marked_line(ls[i]) && is_plain_line(ls[i]),
    ensures
        ({
            let t = unified_header(from, to) + chunk_body_text(ls);
            spec_parse_diff(lines_of(f_diff_text(t))) matches Ok(d) && d.files.len() == 1
                && d.files[0].chunks.len() == 1 && unified_chunk(diff_of(d).files[0].chunks[0]) == t
        }),
{
    reveal_strlit("diff --git a/f b/f\n--- a/f\n+++ b/f\n");
    reveal_strlit("diff --git a/f b/f");
    reveal_strlit("--- a/f");
    reveal_strlit("+++ b/f");
    let hdr = unified_header(from, to);
    let t = hdr + chunk_body_text(ls);
    let h1 = "diff --git a/f b/f"@;
    let h2 = "--- a/f"@;
    let h3 = "+++ b/f"@;
    // The text is the header lines and the chunk, each after a line break.
    let front = seq![h2, h3, hdr];
    assert(front.drop_last().drop_last().drop_last() =~= Seq::<Seq<char>>::empty());
    assert(front.drop_last().drop_last() =~= seq![h2]);
    assert(front.drop_last() =~= seq![h2, h3]);
    assert(chunk_body_text(Seq::<Seq<char>>::empty()) == Seq::<char>::empty());
    assert(chunk_body_text(seq![h2]) =~= seq!['\n'] + h2);
    assert(chunk_body_text(seq![h2, h3]) =~= seq!['\n'] + h2 + seq!['\n'] + h3);
    assert(chunk_body_text(front) =~= seq!['\n'] + h2 + seq!['\n'] + h3 + seq!['\n'] + hdr);
    lemma_body_text_concat(front, ls);
    assert(f_diff_text(t) =~= h1 + chunk_body_text(front + ls));
    // Its lines.
    lemma_header_is_plain(from, to);
    assert(is_plain_line(h1) && is_plain_line(h2) && is_plain_line(h3));
    assert forall|i: int| 0 <= i < (front + ls).len() implies #[trigger] is_plain_line((front + ls)[i]) && (front
        + ls)[i].len() > 0 by {
        if i >= 3 {
            assert((front + ls)[i] == ls[i - 3]);
            assert(is_marked_line(ls[i - 3]));
        }
    }
    lemma_lines_of_joined(h1, front + ls);
    let all = seq![h1] + (front + ls);
    let body = seq![hdr] + ls;
    assert(all =~= f_header_lines() + body);
    // The header block, then the chunk.
    lemma_file_header_block_of_f(body);
    assert(all.skip(3) =~= body);
    law_chunk_writes_back(from, to, ls);
    let c = spec_chunk(body)->Ok_0->Some_0.0;
    let n = spec_chunk(body)->Ok_0->Some_0.1;
    assert(n == body.len());
    assert(body.skip(n as int) =~= Seq::<Seq<char>>::empty());
    assert(ChunkHeaderParser.spec_parse_lines(Seq::<Seq<char>>::empty()) is Ok);
    assert(spec_chunk(Seq::<Seq<char>>::empty()) == Ok::<Option<(ChunkView, nat)>, ParseError>(None));
    assert(spec_many(&ChunkParser, Seq::<Seq<char>>::empty()) == Ok::<(Seq<ChunkView>, nat), ParseError>((seq![], 0)));
    assert(seq![c] + Seq::<ChunkView>::empty() =~= seq![c]);
    assert(spec_many(&ChunkParser, body) == Ok::<(Seq<ChunkView>, nat), ParseError>((seq![c], n)));
    let file = DiffFileView { header: f_file_header(), chunks: seq![c] };
    assert(spec_diff_file(all) == Ok::<Option<(DiffFileView, nat)>, ParseError>(Some((file, 3 + n))));
    // No other file follows.
    assert(all.len() == 3 + n);
    assert(all.skip(all.len() as int) =~= Seq::<Seq<char>>::empty());
    assert(DiffHeaderParser.spec_parse_lines(Seq::<Seq<char>>::empty()) is Ok);
    assert(spec_diff_file_header(Seq::<Seq<char>>::empty()) == Ok::<Option<(DiffFileHeaderView, nat)>, ParseError>(None));
    assert(spec_diff_file(Seq::<Seq<char>>::empty()) == Ok::<Option<(DiffFileView, nat)>, ParseError>(None));
    assert(spec_many(&DiffFileParser, Seq::<Seq<char>>::empty()) == Ok::<(Seq<DiffFileView>, nat), ParseError>((seq![], 0)));
    assert(seq![file] + Seq::<DiffFileView>::empty() =~= seq![file]);
    assert(spec_many(&DiffFileParser, all) == Ok::<(Seq<DiffFileView>, nat), ParseError>((seq![file], all.len())));
    assert(spec_parse_diff(all) == Ok::<DiffView, ParseError>(DiffView { files: seq![file] }));
    let d = DiffView { files: seq![file] };
    assert(diff_of(d).files[0].chunks[0] == chunk_of(c));
}


/// The text a displayed line of a hunk shows: the old text of a removed
/// line, the new text of any other.
pub open spec fn shown_text(l: SideBySideLineView) -> Seq<char> {
    if l.status == LineStatus::Removed {
        l.from
    } else {
        l.to
    }
}

/// The number of lines among `lines` that have a new line number: all but
/// the removed ones.
pub open spec fn numbered_count(lines: Seq<SideBySideLineView>) -> nat
    decreases lines.len(),
{
    if lines.len() == 0 {
        0
    } else {
        (if lines[0].status != LineStatus::Removed {
            1nat
        } else {
            0nat
        }) + numbered_count(lines.drop_first())
    }
}

/// The number of chunk lines among `ls` that are not removed lines (do not
/// start with `-`).
pub open spec fn kept_line_count(ls: Seq<Seq<char>>) -> nat
    decreases ls.len(),
{
    if ls.len() == 0 {
        0
    } else {
        (if ls[0][0] != '-' {
            1nat
        } else {
            0nat
        }) + kept_line_count(ls.drop_first())
    }
}

proof fn lemma_kept_line_count(ls: Seq<Seq<char>>)
    requires
        forall|i: int| 0 <= i < ls.len() ==> #[trigger] is_marked_line(ls[i]),
    ensures
        numbered_count(ls.map_values(|s: Seq<char>| marked_line_view(s)).map_values(|l: crate::diff::diff_line::DiffLineView| line_of(l)))
            == kept_line_count(ls),
        kept_line_count(ls) <= ls.len(),
    decreases ls.len(),
{
    if ls.len() > 0 {
        let t = ls.drop_first();
        assert forall|i: int| 0 <= i < t.len() implies #[trigger] is_marked_line(t[i]) by {
            assert(t[i] == ls[i + 1]);
        }
        lemma_kept_line_count(t);
        let a = ls.map_values(|s: Seq<char>| marked_line_view(s)).map_values(|l: crate::diff::diff_line::DiffLineView| line_of(l));
        assert(a.drop_first() =~= t.map_values(|s: Seq<char>| marked_line_view(s)).map_values(
            |l: crate::diff::diff_line::DiffLineView| line_of(l),
        ));
        assert(is_marked_line(ls[0]));
        assert(a[0] == line_of(marked_line_view(ls[0])));
    }
}

proof fn lemma_scan_whole_hunk(
    lines: Seq<SideBySideLineView>,
    i: int,
    cur: Option<u32>,
    ts: bool,
    acc: Seq<ParsedHunkLineView>,
)
    requires
        0 <= i <= lines.len(),
    ensures
        ({
            let r = scan_hunk(lines, i, cur, None, ts, acc).0;
            &&& r.len() == acc.len() + lines.len() - i
            &&& forall|k: int| 0 <= k < acc.len() ==> r[k] == acc[k]
            &&& forall|k: int|
                i <= k < lines.len() ==> (#[trigger] r[acc.len() + k - i]).content == shown_text(lines[k])
                    && (r[acc.len() + k - i].new_line_number is None <==> (lines[k].status == LineStatus::Removed
                    || cur is None))
            &&& (cur matches Some(c) && c + numbered_count(lines.subrange(i, lines.len() as int)) <= u32::MAX)
                ==> forall|k: int|
                i <= k < lines.len() && lines[k].status != LineStatus::Removed ==> (#[trigger] r[acc.len() + k
                    - i]).new_line_number == Some((cur->Some_0 + numbered_count(lines.subrange(i, k))) as u32)
        }),
    decreases lines.len() - i,
{
    if i < lines.len() {
        let l = lines[i];
        let next = if l.status != LineStatus::Removed {
            crate::side_by_side_diff::next_number(cur)
        } else {
            cur
        };
        let item = ParsedHunkLineView {
            content: if l.status == LineStatus::Removed {
                l.from
            } else {
                l.to
            },
            new_line_number: if l.status != LineStatus::Removed {
                cur
            } else {
                None
            },
        };
        let acc2 = acc.push(item);
        lemma_scan_whole_hunk(lines, i + 1, next, ts, acc2);
        let r = scan_hunk(lines, i, cur, None, ts, acc).0;
        assert(r == scan_hunk(lines, i + 1, next, None, ts, acc2).0);
        assert(next is None <==> cur is None);
        assert forall|k: int| i <= k < lines.len() implies (#[trigger] r[acc.len() + k - i]).content == shown_text(
            lines[k],
        ) && (r[acc.len() + k - i].new_line_number is None <==> (lines[k].status == LineStatus::Removed
            || cur is None)) by {
            if k == i {
                assert(r[acc.len() as int] == acc2[acc.len() as int]);
            } else {
                assert(acc2.len() + k - (i + 1) == acc.len() + k - i);
            }
        }
        if cur is Some && cur->Some_0 + numbered_count(lines.subrange(i, lines.len() as int)) <= u32::MAX {
            let c = cur->Some_0;
            let whole = lines.subrange(i, lines.len() as int);
            assert(whole.drop_first() =~= lines.subrange(i + 1, lines.len() as int));
            assert(whole[0] == l);
            assert(next == Some((c + (if l.status != LineStatus::Removed { 1int } else { 0int })) as u32));
            assert forall|k: int|
                i <= k < lines.len() && lines[k].status != LineStatus::Removed implies (#[trigger] r[acc.len()
                + k - i]).new_line_number == Some((c + numbered_count(lines.subrange(i, k))) as u32) by {
                if k == i {
                    assert(r[acc.len() as int] == acc2[acc.len() as int]);
                    assert(lines.subrange(i, i).len() == 0);
                } else {
                    assert(acc2.len() + k - (i + 1) == acc.len() + k - i);
                    let part = lines.subrange(i, k);
                    assert(part.drop_first() =~= lines.subrange(i + 1, k));
                    assert(part[0] == l);
                }
            }
        }
    }
}

/// A hunk is shown line by line with each line's own text: formatting the
/// hunk (a header written from two ranges, then lines that each start with
/// `+`, `-` or a space) shows every line, in order, with the text after its
/// marker, the old text for a removed line; a removed line has no new line
/// number and every other line has one.
pub proof fn law_hunk_shows_each_line(from: (int, int), to: (int, int), ls: Seq<Seq<char>>)
    requires
        0 <= from.0 <= from.1 <= usize::MAX,
        0 <= to.0 <= to.1 <= usize::MAX,
        to.0 <= u32::MAX,
        forall|i: int| 0 <= i < ls.len() ==> #[trigger] is_marked_line(ls[i]) && is_plain_line(ls[i]),
    ensures
        ({
            let shown = hunk_lines_of(unified_header(from, to) + chunk_body_text(ls), None).0;
            &&& shown.len() == ls.len()
            &&& to.0 + ls.len() <= u32::MAX ==> forall|i: int|
                0 <= i < ls.len() && ls[i][0] != '-' ==> (#[trigger] shown[i]).new_line_number == Some(
                    (to.0 + kept_line_count(ls.take(i))) as u32,
                )
            &&& forall|i: int| 0 <= i < ls.len() ==> (#[trigger] shown[i]).content == ls[i].skip(1)
            &&& forall|i: int|
                0 <= i < ls.len() ==> ((#[trigger] shown[i]).new_line_number is None <==> ls[i][0] == '-')
        }),
{
    reveal(hunk_lines_of);
    let hdr = unified_header(from, to);
    lemma_header_is_plain(from, to);
    assert forall|i: int| 0 <= i < ls.len() implies #[trigger] is_plain_line(ls[i]) && ls[i].len() > 0 by {
        assert(is_marked_line(ls[i]));
    }
    lemma_lines_of_joined(hdr, ls);
    let body = seq![hdr] + ls;
    law_chunk_header_reads_back(from, to);
    assert(body[0] == hdr);
    assert(body.skip(1) =~= ls);
    lemma_marked_lines_read(ls);
    let views = ls.map_values(|s: Seq<char>| marked_line_view(s));
    let c = ChunkView { from_ranges: seq![from], to_range: to, lines: views };
    assert(spec_chunk(body) == Ok::<Option<(ChunkView, nat)>, ParseError>(Some((c, 1 + ls.len()))));
    let sc = chunk_of(c);
    assert(sc.to_range.0 == to.0);
    let lines = sc.lines;
    assert(lines.len() == ls.len());
    lemma_scan_whole_hunk(lines, 0, Some(to.0 as u32), false, seq![]);
    let shown = scan_hunk(lines, 0, Some(to.0 as u32), None, false, seq![]).0;
    assert forall|i: int| 0 <= i < ls.len() implies (#[trigger] shown[i]).content == ls[i].skip(1) && (
    shown[i].new_line_number is None <==> ls[i][0] == '-') by {
        assert(is_marked_line(ls[i]));
        assert(lines[i] == line_of(marked_line_view(ls[i])));
        assert(shown[0 + i - 0] == shown[i]);
        let st = marker_status(ls[i][0])->Some_0;
        assert(marked_line_view(ls[i]).from_status[0] == st);
    }
    if to.0 + ls.len() <= u32::MAX {
        lemma_kept_line_count(ls);
        assert(lines.subrange(0, lines.len() as int) =~= lines);
        assert forall|i: int| 0 <= i < ls.len() && ls[i][0] != '-' implies (#[trigger] shown[i]).new_line_number
            == Some((to.0 + kept_line_count(ls.take(i))) as u32) by {
            assert(is_marked_line(ls[i]));
            assert(lines[i] == line_of(marked_line_view(ls[i])));
            assert(shown[0 + i - 0] == shown[i]);
            let p = ls.take(i);
            assert forall|j: int| 0 <= j < p.len() implies #[trigger] is_marked_line(p[j]) by {
                assert(p[j] == ls[j]);
            }
            lemma_kept_line_count(p);
            assert(lines.subrange(0, i) =~= p.map_values(|s: Seq<char>| marked_line_view(s)).map_values(
                |l: crate::diff::diff_line::DiffLineView| line_of(l),
            ));
        }
    }
}

} // verus!
