use vstd::prelude::*;

use super::chunk::{Chunk, ChunkParser, ChunkView};
use super::diff_file_header::{DiffFileHeader, DiffFileHeaderParser, DiffFileHeaderView};
use super::error::ParseError;
use super::parser::{
    lemma_lines_parsed_some, line_views, parse_lines_many_at, spec_many, views_of, MultilineParser,
};

verus! {

/// A file of a diff: its header block and its chunks.
#[derive(Debug, PartialEq)]
pub struct DiffFile {
    pub header: DiffFileHeader,
    pub chunks: Vec<Chunk>,
}

/// The header and chunks of a file of a diff.
pub struct DiffFileView {
    pub header: DiffFileHeaderView,
    pub chunks: Seq<ChunkView>,
}

impl DeepView for DiffFile {
    type V = DiffFileView;

    open spec fn deep_view(&self) -> DiffFileView {
        DiffFileView { header: self.header.deep_view(), chunks: views_of(self.chunks@) }
    }
}

impl DiffFile {
    /// The same file, owning its text.
    pub fn into_static(self) -> (r: Self)
        ensures
            r.deep_view() == self.deep_view(),
    {
        DiffFile { header: self.header.into_static(), chunks: self.chunks }
    }
}

/// What reading a file at the start of `ls` yields: its header block and
/// the chunks that follow.
pub open spec fn spec_diff_file(ls: Seq<Seq<char>>) -> Result<Option<(DiffFileView, nat)>, ParseError> {
    match DiffFileHeaderParser.spec_parse_lines(ls) {
        Err(e) => Err(e),
        Ok(None) => Ok(None),
        Ok(Some((header, n))) => match spec_many(&ChunkParser, ls.skip(n as int)) {
            Err(e) => Err(e),
            Ok((chunks, m)) => Ok(Some((DiffFileView { header, chunks }, n + m))),
        },
    }
}

/// Reads a file of a diff: its header block and its chunks.
pub struct DiffFileParser;

impl MultilineParser for DiffFileParser {
    type Output = DiffFile;

    open spec fn spec_parse_lines(&self, ls: Seq<Seq<char>>) -> Result<Option<(DiffFileView, nat)>, ParseError> {
        spec_diff_file(ls)
    }

    fn parse_lines_at(&self, lines: &[&str], from: usize) -> (r: Result<Option<(DiffFile, usize)>, ParseError>) {
        let ghost ls = line_views(lines@).skip(from as int);
        let total = lines.len();
        let r1 = DiffFileHeaderParser.parse_lines_at(lines, from);
        let (header, n) = match r1 {
            Err(e) => return Err(e),
            Ok(None) => return Ok(None),
            Ok(Some(x)) => x,
        };
        proof {
            lemma_lines_parsed_some(r1, DiffFileHeaderParser.spec_parse_lines(ls), (lines@.len() - from) as nat);
        }
        assert(line_views(lines@).skip(from + n) =~= ls.skip(n as int));
        let (chunks, m) = match parse_lines_many_at(&ChunkParser, lines, from + n) {
            Err(e) => return Err(e),
            Ok(x) => x,
        };
        let f = DiffFile { header, chunks };
        assert(f.deep_view() == DiffFileView { header: header.deep_view(), chunks: views_of(chunks@) });
        Ok(Some((f, n + m)))
    }
}

} // verus!
