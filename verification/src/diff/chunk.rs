use std::ops::Range;

use vstd::prelude::*;

use super::chunk_header::{range_view, ranges_view, ChunkHeaderParser};
use super::diff_line::{DiffLine, DiffLineParser, DiffLineView};
use super::error::ParseError;
use super::parser::{
    lemma_lines_parsed_some, line_views, lines_parsed_as, parse_lines_many_at, spec_many, views_of,
    MultilineParser,
};
use super::utils::AtLeastOne;

verus! {

/// A chunk of a diff: its header's ranges and its lines.
#[derive(Debug, PartialEq)]
pub struct Chunk {
    pub from_ranges: AtLeastOne<Range<usize>>,
    pub to_range: Range<usize>,
    pub lines: Vec<DiffLine>,
}

/// The ranges and lines of a chunk.
pub struct ChunkView {
    pub from_ranges: Seq<(int, int)>,
    pub to_range: (int, int),
    pub lines: Seq<DiffLineView>,
}

impl DeepView for Chunk {
    type V = ChunkView;

    open spec fn deep_view(&self) -> ChunkView {
        ChunkView {
            from_ranges: ranges_view(self.from_ranges.items()),
            to_range: range_view(self.to_range),
            lines: views_of(self.lines@),
        }
    }
}

impl Chunk {
    /// The same chunk, owning its text.
    pub fn into_static(self) -> (r: Self)
        ensures
            r.deep_view() == self.deep_view(),
    {
        Chunk { from_ranges: self.from_ranges, to_range: self.to_range, lines: self.lines }
    }
}

/// What reading a chunk at the start of `ls` yields: its header, then the
/// lines that follow, read for as many parents as the header has ranges.
pub open spec fn spec_chunk(ls: Seq<Seq<char>>) -> Result<Option<(ChunkView, nat)>, ParseError> {
    match ChunkHeaderParser.spec_parse_lines(ls) {
        Err(e) => Err(e),
        Ok(None) => Ok(None),
        Ok(Some((h, n))) => {
            let lp = DiffLineParser { number_of_parents: h.from_ranges.len() as usize };
            match spec_many(&lp, ls.skip(n as int)) {
                Err(e) => Err(e),
                Ok((lines, m)) => Ok(Some((ChunkView { from_ranges: h.from_ranges, to_range: h.to_range, lines }, n + m))),
            }
        },
    }
}

/// Reads a chunk: a chunk header line and the diff lines that follow.
pub struct ChunkParser;

impl MultilineParser for ChunkParser {
    type Output = Chunk;

    open spec fn spec_parse_lines(&self, ls: Seq<Seq<char>>) -> Result<Option<(ChunkView, nat)>, ParseError> {
        spec_chunk(ls)
    }

    fn parse_lines_at(&self, lines: &[&str], from: usize) -> (r: Result<Option<(Chunk, usize)>, ParseError>) {
        let ghost ls = line_views(lines@).skip(from as int);
        let total = lines.len();
        let r1 = ChunkHeaderParser.parse_lines_at(lines, from);
        let (header, n) = match r1 {
            Err(e) => return Err(e),
            Ok(None) => return Ok(None),
            Ok(Some(x)) => x,
        };
        proof {
            lemma_lines_parsed_some(r1, ChunkHeaderParser.spec_parse_lines(ls), (lines@.len() - from) as nat);
        }
        let parents = header.from_ranges.len();
        let lp = DiffLineParser::new(parents);
        assert(line_views(lines@).skip(from + n) =~= ls.skip(n as int));
        let (body, m) = match parse_lines_many_at(&lp, lines, from + n) {
            Err(e) => return Err(e),
            Ok(x) => x,
        };
        let chunk = Chunk { from_ranges: header.from_ranges, to_range: header.to_range, lines: body };
        assert(chunk.deep_view() == ChunkView {
            from_ranges: header.deep_view().from_ranges,
            to_range: header.deep_view().to_range,
            lines: views_of(body@),
        });
        Ok(Some((chunk, n + m)))
    }
}

} // verus!
