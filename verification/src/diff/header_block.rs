use vstd::prelude::*;

use super::diff_header::{DiffHeader, DiffHeaderParser, DiffHeaderView};
use super::error::ParseError;
use super::extended_header_line::{ExtendedHeaderLine, ExtendedHeaderLineParser, ExtendedHeaderLineView};
use super::file_header_line::{NewFileHeaderLine, NewFileHeaderLineParser, OldFileHeaderLine, OldFileHeaderLineParser};
use super::parser::{
    lemma_lines_parsed_some, line_views, parse_lines_many_at, required, spec_many, views_of,
    LineParser, MultilineParser,
};

verus! {

/// The header lines of a file of a diff, kept line by line.
#[derive(PartialEq, Debug, Clone)]
pub struct DiffHeaderBlock {
    pub diff: DiffHeader,
    pub extended: Vec<ExtendedHeaderLine>,
    pub old_files: Vec<OldFileHeaderLine>,
    pub new_file: NewFileHeaderLine,
}

/// The content of a header block.
pub struct DiffHeaderBlockView {
    pub diff: DiffHeaderView,
    pub extended: Seq<ExtendedHeaderLineView>,
    pub old_files: Seq<Option<Seq<char>>>,
    pub new_file: Option<Seq<char>>,
}

impl DeepView for DiffHeaderBlock {
    type V = DiffHeaderBlockView;

    open spec fn deep_view(&self) -> DiffHeaderBlockView {
        DiffHeaderBlockView {
            diff: self.diff.deep_view(),
            extended: views_of(self.extended@),
            old_files: views_of(self.old_files@),
            new_file: self.new_file.deep_view(),
        }
    }
}

/// What reading a header block at the start of `ls` yields: the `diff`
/// line, the extended header lines, at least one old file line, and a line
/// that must be the new file line.
pub open spec fn spec_header_block(ls: Seq<Seq<char>>) -> Result<Option<(DiffHeaderBlockView, nat)>, ParseError> {
    match DiffHeaderParser.spec_parse_lines(ls) {
        Err(e) => Err(e),
        Ok(None) => Ok(None),
        Ok(Some((diff, n1))) => match spec_many(&ExtendedHeaderLineParser, ls.skip(n1 as int)) {
            Err(e) => Err(e),
            Ok((extended, n2)) => match spec_many(&OldFileHeaderLineParser, ls.skip((n1 + n2) as int)) {
                Err(e) => Err(e),
                Ok((old_files, n3)) => if old_files.len() == 0 {
                    Err(ParseError::MissingOldFileHeader)
                } else if n1 + n2 + n3 >= ls.len() {
                    Err(ParseError::MissingNewFileHeader)
                } else {
                    match required(NewFileHeaderLineParser.spec_parse_line(ls[(n1 + n2 + n3) as int])) {
                        Err(e) => Err(e),
                        Ok(new_file) => Ok(Some((
                            DiffHeaderBlockView { diff, extended, old_files, new_file },
                            n1 + n2 + n3 + 1,
                        ))),
                    }
                },
            },
        },
    }
}

/// Reads the header block of a file of a diff.
#[derive(Debug, Default, Clone, Copy)]
pub struct DiffHeaderBlockParser;

impl MultilineParser for DiffHeaderBlockParser {
    type Output = DiffHeaderBlock;

    open spec fn spec_parse_lines(&self, ls: Seq<Seq<char>>) -> Result<Option<(DiffHeaderBlockView, nat)>, ParseError> {
        spec_header_block(ls)
    }

    fn parse_lines_at(&self, lines: &[&str], from: usize) -> (r: Result<Option<(DiffHeaderBlock, usize)>, ParseError>) {
        let ghost ls = line_views(lines@).skip(from as int);
        let total = lines.len();
        let r1 = DiffHeaderParser.parse_lines_at(lines, from);
        let (diff, n1) = match r1 {
            Err(e) => return Err(e),
            Ok(None) => return Ok(None),
            Ok(Some(x)) => x,
        };
        proof {
            lemma_lines_parsed_some(r1, DiffHeaderParser.spec_parse_lines(ls), (lines@.len() - from) as nat);
        }
        assert(line_views(lines@).skip(from + n1) =~= ls.skip(n1 as int));
        let (extended, n2) = match parse_lines_many_at(&ExtendedHeaderLineParser, lines, from + n1) {
            Err(e) => return Err(e),
            Ok(x) => x,
        };
        assert(line_views(lines@).skip(from + n1 + n2) =~= ls.skip(n1 + n2));
        let (old_files, n3) = match parse_lines_many_at(&OldFileHeaderLineParser, lines, from + n1 + n2) {
            Err(e) => return Err(e),
            Ok(x) => x,
        };
        if old_files.len() == 0 {
            return Err(ParseError::MissingOldFileHeader);
        }
        let at = from + n1 + n2 + n3;
        if at == total {
            return Err(ParseError::MissingNewFileHeader);
        }
        let line: &str = lines[at];
        assert(ls[n1 + n2 + n3] == line@);
        let new_file = match NewFileHeaderLineParser.parse_line_required(line) {
            Err(e) => return Err(e),
            Ok(x) => x,
        };
        let b = DiffHeaderBlock { diff, extended, old_files, new_file };
        assert(ls.len() == total - from);
        assert(b.deep_view() == DiffHeaderBlockView {
            diff: diff.deep_view(),
            extended: views_of(extended@),
            old_files: views_of(old_files@),
            new_file: new_file.deep_view(),
        });
        Ok(Some((b, n1 + n2 + n3 + 1)))
    }
}

} // verus!
