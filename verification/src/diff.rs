//! Parsers for the output of `git diff`.
pub mod chunk;
pub mod chunk_header;
#[allow(clippy::module_inception)]
pub mod diff;
pub mod diff_file;
pub mod diff_file_header;
pub mod diff_header;
pub mod diff_line;
pub mod error;
pub mod extended_header_line;
pub mod file_header_line;
pub mod hash;
pub mod header_block;
pub mod index_line;
pub mod mode;
pub mod parser;
pub mod path;
pub mod percentage;
pub mod utils;

pub use chunk::{Chunk, ChunkParser};
pub use chunk_header::{ChunkHeader, ChunkHeaderParser};
pub use diff::{parse, parse_diff_output, Diff, DiffParser};
pub use diff_file::{DiffFile, DiffFileParser};
pub use diff_file_header::{DiffFileHeader, DiffFileHeaderParser};
pub use diff_header::{DiffHeader, DiffHeaderParser};
pub use diff_line::{DiffLine, DiffLineParser, DiffLineStatus};
pub use error::ParseError;
pub use extended_header_line::{ExtendedHeaderLine, ExtendedHeaderLineParser};
pub use file_header_line::{
    FileHeaderLine, FileHeaderLineParser, NewFileHeaderLine, NewFileHeaderLineParser,
    OldFileHeaderLine, OldFileHeaderLineParser,
};
pub use hash::HashParser;
pub use header_block::{DiffHeaderBlock, DiffHeaderBlockParser};
pub use index_line::{IndexLine, IndexLineParser};
pub use mode::{Mode, ModeParser};
pub use parser::{LineParser, MultilineParser, Parser};
pub use path::{Path, PathParser};
pub use percentage::{Percentage, PercentageParser};
pub use utils::AtLeastOne;
