use vstd::prelude::*;

use super::diff_header::{DiffHeader, DiffHeaderParser, DiffHeaderView};
use super::error::ParseError;
use super::extended_header_line::{ExtendedHeaderLine, ExtendedHeaderLineParser, ExtendedHeaderLineView};
use super::file_header_line::{
    opt_path_into_static, opt_path_view, NewFileHeaderLineParser, OldFileHeaderLine,
    OldFileHeaderLineParser,
};
use super::parser::{
    lemma_lines_parsed_some, line_views, parse_lines_many_at, spec_many, views_of, MultilineParser,
};
use super::path::Path;

verus! {

/// The complete header block before a file's chunks.
///
/// Example: a header may include `diff --git`, `index`, `---`, and `+++` lines.
/// Combined diffs may contain multiple old file header paths.
#[derive(Debug, PartialEq, Clone)]
pub struct DiffFileHeader {
    pub header: DiffHeader,
    pub extended_header: Vec<ExtendedHeaderLine>,
    pub old_files: Vec<Option<Path>>,
    pub new_file: Option<Path>,
}

/// The content of a file header block.
pub struct DiffFileHeaderView {
    pub header: DiffHeaderView,
    pub extended_header: Seq<ExtendedHeaderLineView>,
    pub old_files: Seq<Option<Seq<char>>>,
    pub new_file: Option<Seq<char>>,
}

/// The text of each optional path.
pub open spec fn opt_paths_view(ps: Seq<Option<Path>>) -> Seq<Option<Seq<char>>> {
    ps.map_values(|p: Option<Path>| opt_path_view(p))
}

impl DeepView for DiffFileHeader {
    type V = DiffFileHeaderView;

    open spec fn deep_view(&self) -> DiffFileHeaderView {
        DiffFileHeaderView {
            header: self.header.deep_view(),
            extended_header: views_of(self.extended_header@),
            old_files: opt_paths_view(self.old_files@),
            new_file: opt_path_view(self.new_file),
        }
    }
}

/// The paths of old file header lines.
fn old_file_paths(lines: Vec<OldFileHeaderLine>) -> (r: Vec<Option<Path>>)
    ensures
        opt_paths_view(r@) == views_of(lines@),
{
    let ghost orig = lines@;
    let mut rest = lines;
    let mut out: Vec<Option<Path>> = Vec::new();
    while rest.len() > 0
        invariant
            opt_paths_view(out@) + views_of(rest@) == views_of(orig),
        decreases rest@.len(),
    {
        let ghost before_out = out@;
        let ghost before_rest = rest@;
        let line = rest.remove(0);
        out.push(line.path);
        proof {
            assert(before_rest =~= seq![line] + rest@);
            assert(views_of(before_rest) =~= seq![line.deep_view()] + views_of(rest@));
            assert(opt_paths_view(out@) =~= opt_paths_view(before_out).push(line.deep_view()));
            assert(opt_paths_view(out@) + views_of(rest@) =~= opt_paths_view(before_out) + views_of(before_rest));
        }
    }
    assert(views_of(rest@) =~= seq![]);
    assert(opt_paths_view(out@) + views_of(rest@) =~= opt_paths_view(out@));
    out
}

/// What reading a file header block at the start of `ls` yields: the
/// `diff` line, the extended header lines, at least one old file line and
/// the new file line.
pub open spec fn spec_diff_file_header(ls: Seq<Seq<char>>) -> Result<Option<(DiffFileHeaderView, nat)>, ParseError> {
    match DiffHeaderParser.spec_parse_lines(ls) {
        Err(e) => Err(e),
        Ok(None) => Ok(None),
        Ok(Some((header, n1))) => match spec_many(&ExtendedHeaderLineParser, ls.skip(n1 as int)) {
            Err(e) => Err(e),
            Ok((extended_header, n2)) => match spec_many(&OldFileHeaderLineParser, ls.skip((n1 + n2) as int)) {
                Err(e) => Err(e),
                Ok((old_files, n3)) => if old_files.len() == 0 {
                    Err(ParseError::MissingOldFileHeader)
                } else {
                    match NewFileHeaderLineParser.spec_parse_lines(ls.skip((n1 + n2 + n3) as int)) {
                        Err(e) => Err(e),
                        Ok(None) => Err(ParseError::MissingNewFileHeader),
                        Ok(Some((new_file, n4))) => Ok(Some((
                            DiffFileHeaderView { header, extended_header, old_files, new_file },
                            n1 + n2 + n3 + n4,
                        ))),
                    }
                },
            },
        },
    }
}

/// Reads the header block of a file of a diff.
pub struct DiffFileHeaderParser;

impl MultilineParser for DiffFileHeaderParser {
    type Output = DiffFileHeader;

    open spec fn spec_parse_lines(&self, ls: Seq<Seq<char>>) -> Result<Option<(DiffFileHeaderView, nat)>, ParseError> {
        spec_diff_file_header(ls)
    }

    fn parse_lines_at(&self, lines: &[&str], from: usize) -> (r: Result<Option<(DiffFileHeader, usize)>, ParseError>) {
        let ghost ls = line_views(lines@).skip(from as int);
        let total = lines.len();
        let r1 = DiffHeaderParser.parse_lines_at(lines, from);
        let (header, n1) = match r1 {
            Err(e) => return Err(e),
            Ok(None) => return Ok(None),
            Ok(Some(x)) => x,
        };
        proof {
            lemma_lines_parsed_some(r1, DiffHeaderParser.spec_parse_lines(ls), (lines@.len() - from) as nat);
        }
        assert(line_views(lines@).skip(from + n1) =~= ls.skip(n1 as int));
        let (extended_header, n2) = match parse_lines_many_at(&ExtendedHeaderLineParser, lines, from + n1) {
            Err(e) => return Err(e),
            Ok(x) => x,
        };
        assert(line_views(lines@).skip(from + n1 + n2) =~= ls.skip((n1 + n2) as int));
        let (olds, n3) = match parse_lines_many_at(&OldFileHeaderLineParser, lines, from + n1 + n2) {
            Err(e) => return Err(e),
            Ok(x) => x,
        };
        if olds.len() == 0 {
            return Err(ParseError::MissingOldFileHeader);
        }
        let at = from + n1 + n2 + n3;
        assert(line_views(lines@).skip(at as int) =~= ls.skip(n1 + n2 + n3));
        let r4 = NewFileHeaderLineParser.parse_lines_at(lines, at);
        let (new_line, n4) = match r4 {
            Err(e) => return Err(e),
            Ok(None) => return Err(ParseError::MissingNewFileHeader),
            Ok(Some(x)) => x,
        };
        proof {
            lemma_lines_parsed_some(r4, NewFileHeaderLineParser.spec_parse_lines(ls.skip((n1 + n2 + n3) as int)), (lines@.len() - at) as nat);
        }
        let old_files = old_file_paths(olds);
        let h = DiffFileHeader { header, extended_header, old_files, new_file: new_line.path };
        assert(h.deep_view().new_file == new_line.deep_view());
        Ok(Some((h, n1 + n2 + n3 + n4)))
    }
}

impl DiffFileHeader {
    /// The same header, owning its text.
    pub fn into_static(self) -> (r: Self)
        ensures
            r.deep_view() == self.deep_view(),
    {
        DiffFileHeader {
            header: self.header.into_static(),
            extended_header: self.extended_header,
            old_files: self.old_files,
            new_file: opt_path_into_static(self.new_file),
        }
    }
}

} // verus!
