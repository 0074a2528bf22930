use vstd::prelude::*;
use vstd::string::*;

use super::error::ParseError;
use super::parser::{first_line, first_line_of, line_parsed_as, LineParser, MultilineParser};
use super::path::{parse_quoted_path_chars, spec_quoted_path, Path};
use crate::text::{
    all_whitespace, find, find_at, find_from, has_str_prefix_at, is_ascii_alnum, is_blank,
    lemma_find_from, rfind_char, rfind_char_in, rspan, span, starts_with, string_of, sub_chars,
    trim_end, trim_start, CharClass,
};

verus! {

/// The paths of the leading `diff --git` line.
///
/// Example: `diff --git a/src/lib.rs b/src/lib.rs` stores `src/lib.rs` as both
/// the left and right paths.
#[derive(PartialEq, Debug, Clone)]
pub struct DiffHeader {
    pub left: Path,
    pub right: Path,
}

/// The text of a diff header's two paths.
pub struct DiffHeaderView {
    pub left: Seq<char>,
    pub right: Seq<char>,
}

impl DeepView for DiffHeader {
    type V = DiffHeaderView;

    open spec fn deep_view(&self) -> DiffHeaderView {
        DiffHeaderView { left: self.left.deep_view(), right: self.right.deep_view() }
    }
}

impl DiffHeader {
    /// The same header, owning its text.
    pub fn into_static(self) -> (r: Self)
        ensures
            r.deep_view() == self.deep_view(),
    {
        DiffHeader { left: self.left.into_static(), right: self.right.into_static() }
    }
}

/// A character allowed in a file extension.
pub open spec fn is_extension_char(c: char) -> bool {
    is_ascii_alnum(c) || c == '_' || c == '-'
}

/// The last component of the path `p`.
pub open spec fn file_name(p: Seq<char>) -> Seq<char> {
    match rfind_char(p, '/') {
        Some(i) => p.skip(i + 1),
        None => p,
    }
}

/// Whether the file name `name` ends in `.` and a nonempty extension of
/// ASCII letters, digits, `_` and `-`.
pub open spec fn has_file_extension(name: Seq<char>) -> bool {
    match rfind_char(name, '.') {
        None => false,
        Some(j) => {
            let ext = name.skip(j + 1);
            ext.len() > 0 && forall|k: int| 0 <= k < ext.len() ==> is_extension_char(#[trigger] ext[k])
        },
    }
}

/// Whether the last component of `p` has a file extension.
pub open spec fn ends_with_file_extension(p: Seq<char>) -> bool {
    has_file_extension(file_name(p))
}

/// The marker between the two unquoted paths.
pub open spec fn right_marker() -> Seq<char> {
    seq![' ', 'b', '/']
}

/// The marker before a quoted right path.
pub open spec fn quoted_right_marker() -> Seq<char> {
    seq![' ', '"', 'b', '/']
}

/// The first ` b/` at or after `from` whose left part ends with a file extension.
#[verifier::opaque]
pub open spec fn ext_split_from(s: Seq<char>, from: int) -> Option<int>
    decreases s.len() - from,
{
    match find_from(s, right_marker(), from) {
        None => None,
        Some(i) => if ends_with_file_extension(s.take(i)) {
            Some(i)
        } else {
            proof {
                lemma_find_from(s, right_marker(), from);
            }
            ext_split_from(s, i + 1)
        },
    }
}

/// Where the left path of an unquoted `a/<left> b/<right>` ends: before a
/// quoted right path, else after the first left part that ends in a file
/// extension, else at the first ` b/`.
#[verifier::opaque]
pub open spec fn unquoted_split(s: Seq<char>) -> Option<int> {
    match find(s, quoted_right_marker()) {
        Some(i) => Some(i),
        None => match ext_split_from(s, 0) {
            Some(i) => Some(i),
            None => find(s, right_marker()),
        },
    }
}

/// A quoted diff header path that must start with `prefix` once unescaped:
/// the path after the prefix and the number of characters read.
#[verifier::opaque]
pub open spec fn quoted_header_path(t: Seq<char>, prefix: Seq<char>) -> Result<(Seq<char>, nat), ParseError> {
    match spec_quoted_path(t) {
        Err(e) => Err(e),
        Ok(None) => Err(ParseError::MissingQuotedPath),
        Ok(Some((p, n))) => if starts_with(p, prefix) {
            Ok((p.skip(prefix.len() as int), n))
        } else {
            Err(ParseError::MissingPathPrefix)
        },
    }
}

/// A right (or file header) path: quoted, or `prefix` followed by the rest
/// of the line without trailing whitespace.
#[verifier::opaque]
pub open spec fn header_path(t: Seq<char>, prefix: Seq<char>) -> Result<(Seq<char>, nat), ParseError> {
    if t.len() > 0 && t[0] == '"' {
        quoted_header_path(t, prefix)
    } else if !starts_with(t, prefix) {
        Err(ParseError::MissingPathPrefix)
    } else {
        Ok((trim_end(t.skip(prefix.len() as int)), t.len()))
    }
}

/// The left path of a diff header and the number of characters read, up to
/// the space before the right path.
#[verifier::opaque]
pub open spec fn left_path(t: Seq<char>) -> Result<(Seq<char>, nat), ParseError> {
    if t.len() > 0 && t[0] == '"' {
        quoted_header_path(t, seq!['a', '/'])
    } else if !starts_with(t, seq!['a', '/']) {
        Err(ParseError::MissingLeftPrefix)
    } else {
        match unquoted_split(t.skip(2)) {
            None => Err(ParseError::MissingRightPath),
            Some(i) => Ok((trim_end(t.skip(2).take(i)), (2 + i + 1) as nat)),
        }
    }
}

/// The line after `diff`, optional whitespace, an optional `--git` and
/// whitespace again.
pub open spec fn after_diff_keyword(s: Seq<char>) -> Seq<char> {
    let t1 = trim_start(s.skip(4));
    let t2 = if starts_with(t1, "--git"@) {
        t1.skip(5)
    } else {
        t1
    };
    trim_start(t2)
}

/// What parsing the diff header line `s` yields.
pub open spec fn spec_diff_header(s: Seq<char>) -> Result<Option<DiffHeaderView>, ParseError> {
    if !starts_with(s, "diff"@) {
        Ok(None)
    } else {
        let t = after_diff_keyword(s);
        match left_path(t) {
            Err(e) => Err(e),
            Ok((left, n)) => {
                let u = trim_start(t.skip(n as int));
                match header_path(u, seq!['b', '/']) {
                    Err(e) => Err(e),
                    Ok((right, m)) => if is_blank(u.skip(m as int)) {
                        Ok(Some(DiffHeaderView { left, right }))
                    } else {
                        Err(ParseError::TrailingContentInDiffHeader)
                    },
                }
            },
        }
    }
}

/// Whether the file name `name` has a file extension, see [`has_file_extension`].
fn name_has_file_extension(name: &Vec<char>) -> (b: bool)
    ensures
        b == has_file_extension(name@),
{
    let nlen = name.len();
    assert(name@.take(nlen as int) =~= name@);
    proof {
        crate::text::lemma_rfind_char(name@, '.');
    }
    let dot = match rfind_char_in(name, nlen, '.') {
        None => return false,
        Some(j) => j,
    };
    assert(rfind_char(name@, '.') == Some(dot as int));
    let ghost ext = name@.skip(dot + 1);
    if dot + 1 == nlen {
        assert(ext.len() == 0);
        return false;
    }
    let mut k = dot + 1;
    while k < nlen
        invariant
            dot + 1 <= k <= nlen == name@.len(),
            ext == name@.skip(dot + 1),
            rfind_char(name@, '.') == Some(dot as int),
            forall|q: int| 0 <= q < k - dot - 1 ==> is_extension_char(#[trigger] ext[q]),
        decreases nlen - k,
    {
        let c = name[k];
        assert(ext[k - dot - 1] == c);
        if !(crate::text::is_alnum(c) || c == '_' || c == '-') {
            assert(!is_extension_char(ext[k - dot - 1]));
            return false;
        }
        k += 1;
    }
    true
}

/// Whether `path` ends with a file extension, see [`ends_with_file_extension`].
fn path_ends_with_file_extension(path: &Vec<char>) -> (b: bool)
    ensures
        b == ends_with_file_extension(path@),
{
    let len = path.len();
    assert(path@.take(len as int) =~= path@);
    proof {
        crate::text::lemma_rfind_char(path@, '/');
    }
    let name = match rfind_char_in(path, len, '/') {
        Some(i) => sub_chars(path, i + 1, len),
        None => sub_chars(path, 0, len),
    };
    assert(name@ == file_name(path@));
    name_has_file_extension(&name)
}

/// The first ` b/` in `u` whose left part ends with a file extension.
fn find_split_after_file_extension(u: &Vec<char>) -> (r: Option<usize>)
    ensures
        r matches Some(i) ==> ext_split_from(u@, 0) == Some(i as int),
        r is None ==> ext_split_from(u@, 0) is None,
{
    let marker = vec![' ', 'b', '/'];
    assert(marker@ == right_marker());
    let mut from: usize = 0;
    let ulen = u.len();
    loop
        invariant
            from <= u@.len(),
            ulen == u@.len(),
            marker@ == right_marker(),
            ext_split_from(u@, 0) == ext_split_from(u@, from as int),
        decreases u@.len() - from,
    {
        match find_at(u, from, &marker) {
            None => {
                proof {
                    lemma_ext_split_step(u@, from as int);
                }
                return None;
            },
            Some(i) => {
                proof {
                    lemma_find_from(u@, right_marker(), from as int);
                    lemma_ext_split_step(u@, from as int);
                }
                assert(i + 3 <= u@.len());
                let left = sub_chars(u, 0, i);
                assert(left@ == u@.take(i as int));
                if path_ends_with_file_extension(&left) {
                    return Some(i);
                }
                from = i + 1;
            },
        }
    }
}

/// Where the left path of the unquoted `u` (after `a/`) ends, see [`unquoted_split`].
fn find_unquoted_diff_header_split(u: &Vec<char>) -> (r: Option<usize>)
    ensures
        r matches Some(i) ==> unquoted_split(u@) == Some(i as int) && i + 3 <= u@.len(),
        r is None ==> unquoted_split(u@) is None,
{
    reveal(unquoted_split);
    let quoted = vec![' ', '"', 'b', '/'];
    assert(quoted@ == quoted_right_marker());
    match find_at(u, 0, &quoted) {
        Some(i) => {
            proof {
                lemma_find_from(u@, quoted_right_marker(), 0);
            }
            return Some(i);
        },
        None => {},
    }
    match find_split_after_file_extension(u) {
        Some(i) => {
            proof {
                lemma_ext_split_bound(u@, 0);
            }
            return Some(i);
        },
        None => {},
    }
    let marker = vec![' ', 'b', '/'];
    assert(marker@ == right_marker());
    proof {
        lemma_find_from(u@, right_marker(), 0);
    }
    find_at(u, 0, &marker)
}

proof fn lemma_ext_split_step(s: Seq<char>, from: int)
    requires
        0 <= from,
    ensures
        ext_split_from(s, from) == match find_from(s, right_marker(), from) {
            None => None,
            Some(i) => if ends_with_file_extension(s.take(i)) {
                Some(i)
            } else {
                ext_split_from(s, i + 1)
            },
        },
{
    reveal(ext_split_from);
}

proof fn lemma_ext_split_bound(s: Seq<char>, from: int)
    requires
        0 <= from,
    ensures
        ext_split_from(s, from) matches Some(i) ==> from <= i && i + 3 <= s.len(),
    decreases s.len() - from,
{
    lemma_find_from(s, right_marker(), from);
    lemma_ext_split_step(s, from);
    match find_from(s, right_marker(), from) {
        None => {},
        Some(i) => {
            if !ends_with_file_extension(s.take(i)) {
                lemma_ext_split_bound(s, i + 1);
            }
        },
    }
}

/// Reads a quoted path at `cs[at..]` that must start with `prefix`.
fn parse_quoted_diff_header_path(cs: &Vec<char>, at: usize, prefix: &str) -> (r: Result<(Path, usize), ParseError>)
    requires
        at <= cs@.len(),
    ensures
        match quoted_header_path(cs@.skip(at as int), prefix@) {
            Ok((p, n)) => r matches Ok((x, k)) && x.deep_view() == p && k == n && at + n <= cs@.len(),
            Err(e) => r == Err::<(Path, usize), ParseError>(e),
        },
{
    reveal(quoted_header_path);
    match parse_quoted_path_chars(cs, at) {
        Err(e) => Err(e),
        Ok(None) => Err(ParseError::MissingQuotedPath),
        Ok(Some((text, n))) => {
            let pc = crate::text::chars_of(text.as_str());
            if !has_str_prefix_at(&pc, 0, prefix) {
                assert(pc@.skip(0) =~= pc@);
                return Err(ParseError::MissingPathPrefix);
            }
            assert(pc@.skip(0) =~= pc@);
            let plen = prefix.unicode_len();
            let rest = string_of(&pc, plen, pc.len());
            assert(pc@.subrange(plen as int, pc@.len() as int) =~= pc@.skip(plen as int));
            Ok((Path(rest), n))
        },
    }
}

/// Reads the right path (or a file header path) at `cs[at..]`: a quoted
/// path or `prefix` and the rest of the line.
pub(crate) fn parse_diff_header_path(cs: &Vec<char>, at: usize, prefix: &str) -> (r: Result<(Path, usize), ParseError>)
    requires
        at <= cs@.len(),
    ensures
        match header_path(cs@.skip(at as int), prefix@) {
            Ok((p, n)) => r matches Ok((x, k)) && x.deep_view() == p && k == n && at + n <= cs@.len(),
            Err(e) => r == Err::<(Path, usize), ParseError>(e),
        },
{
    reveal(header_path);
    let len = cs.len();
    let ghost t = cs@.skip(at as int);
    if at < len && cs[at] == '"' {
        assert(t[0] == cs@[at as int]);
        return parse_quoted_diff_header_path(cs, at, prefix);
    }
    if !has_str_prefix_at(cs, at, prefix) {
        return Err(ParseError::MissingPathPrefix);
    }
    let plen = prefix.unicode_len();
    let end = rspan(cs, at + plen, len, CharClass::Whitespace);
    let text = string_of(cs, at + plen, end);
    assert(cs@.subrange(at + plen, len as int) =~= t.skip(plen as int));
    assert(cs@.subrange(at + plen, end as int) =~= trim_end(t.skip(plen as int)));
    Ok((Path(text), len - at))
}

/// Reads the left path at `cs[at..]`; the count is up to the space before
/// the right path.
fn parse_diff_header_left_path(cs: &Vec<char>, at: usize) -> (r: Result<(Path, usize), ParseError>)
    requires
        at <= cs@.len(),
    ensures
        match left_path(cs@.skip(at as int)) {
            Ok((p, n)) => r matches Ok((x, k)) && x.deep_view() == p && k == n && at + n <= cs@.len(),
            Err(e) => r == Err::<(Path, usize), ParseError>(e),
        },
{
    reveal(left_path);
    proof {
        reveal_strlit("a/");
    }
    assert("a/"@ == seq!['a', '/']);
    let len = cs.len();
    let ghost t = cs@.skip(at as int);
    if at < len && cs[at] == '"' {
        assert(t[0] == cs@[at as int]);
        return parse_quoted_diff_header_path(cs, at, "a/");
    }
    if !has_str_prefix_at(cs, at, "a/") {
        return Err(ParseError::MissingLeftPrefix);
    }
    let u = sub_chars(cs, at + 2, len);
    assert(u@ =~= t.skip(2));
    match find_unquoted_diff_header_split(&u) {
        None => Err(ParseError::MissingRightPath),
        Some(i) => {
            let end = rspan(&u, 0, i, CharClass::Whitespace);
            let text = string_of(&u, 0, end);
            assert(u@.subrange(0, i as int) =~= u@.take(i as int));
            assert(u@.subrange(0, end as int) =~= trim_end(u@.take(i as int)));
            Ok((Path(text), 2 + i + 1))
        },
    }
}

/// Where the paths of a diff header line begin, after `diff`, optional
/// whitespace, an optional `--git` and whitespace again.
fn diff_keyword_end(cs: &Vec<char>, from: usize) -> (r: usize)
    requires
        from <= cs@.len(),
        starts_with(cs@.skip(from as int), "diff"@),
    ensures
        from <= r <= cs@.len(),
        cs@.skip(r as int) == after_diff_keyword(cs@.skip(from as int)),
{
    let ghost s = cs@.skip(from as int);
    let len = cs.len();
    proof {
        reveal_strlit("diff");
        reveal_strlit("--git");
    }
    assert("diff"@.len() == 4);
    assert("--git"@.len() == 5);
    assert(s.len() == cs@.len() - from);
    assert(from + 4 <= cs@.len());
    let a1 = span(cs, from + 4, CharClass::Whitespace);
    assert(cs@.skip(from + 4) =~= s.skip(4));
    assert(cs@.skip(a1 as int) =~= trim_start(s.skip(4)));
    let a2 = if has_str_prefix_at(cs, a1, "--git") {
        a1 + 5
    } else {
        a1
    };
    let a3 = span(cs, a2, CharClass::Whitespace);
    assert(cs@.skip(a2 as int) =~= if starts_with(trim_start(s.skip(4)), "--git"@) {
        trim_start(s.skip(4)).skip(5)
    } else {
        trim_start(s.skip(4))
    });
    assert(cs@.skip(a3 as int) =~= after_diff_keyword(s));
    a3
}

/// Reads the `diff --git a/<left> b/<right>` line that starts each file of a diff.
#[derive(Debug, Default, Clone, Copy)]
pub struct DiffHeaderParser;

impl LineParser for DiffHeaderParser {
    type Output = DiffHeader;

    open spec fn spec_parse_line(&self, s: Seq<char>) -> Result<Option<DiffHeaderView>, ParseError> {
        spec_diff_header(s)
    }

    fn parse_line_chars(&self, cs: &Vec<char>, from: usize) -> (r: Result<Option<DiffHeader>, ParseError>) {
        let ghost s = cs@.skip(from as int);
        let len = cs.len();
        if !has_str_prefix_at(cs, from, "diff") {
            return Ok(None);
        }
        let a3 = diff_keyword_end(cs, from);
        let (left, n) = match parse_diff_header_left_path(cs, a3) {
            Err(e) => return Err(e),
            Ok(p) => p,
        };
        let a4 = span(cs, a3 + n, CharClass::Whitespace);
        assert(cs@.skip(a3 + n) =~= after_diff_keyword(s).skip(n as int));
        assert(cs@.skip(a4 as int) =~= trim_start(after_diff_keyword(s).skip(n as int)));
        proof {
            reveal_strlit("b/");
        }
        assert("b/"@ == seq!['b', '/']);
        let (right, m) = match parse_diff_header_path(cs, a4, "b/") {
            Err(e) => return Err(e),
            Ok(p) => p,
        };
        let blank = all_whitespace(cs, a4 + m, len);
        assert(cs@.subrange(a4 + m, len as int) =~= cs@.skip(a4 as int).skip(m as int));
        if !blank {
            return Err(ParseError::TrailingContentInDiffHeader);
        }
        let h = DiffHeader { left, right };
        assert(h.deep_view() == DiffHeaderView { left: left.deep_view(), right: right.deep_view() });
        Ok(Some(h))
    }
}

impl MultilineParser for DiffHeaderParser {
    type Output = DiffHeader;

    open spec fn spec_parse_lines(&self, ls: Seq<Seq<char>>) -> Result<Option<(DiffHeaderView, nat)>, ParseError> {
        first_line(|s: Seq<char>| self.spec_parse_line(s), ls)
    }

    fn parse_lines_at(&self, lines: &[&str], from: usize) -> (r: Result<Option<(DiffHeader, usize)>, ParseError>) {
        first_line_of(self, lines, from)
    }
}

} // verus!
