use vstd::prelude::*;

verus! {

/// Why a piece of diff text that looked like a known element failed to parse.
#[derive(Debug, Clone, Copy, PartialEq, Eq)]
pub enum ParseError {
    MissingRequired,
    TrailingContentInLine,
    NoHash,
    NoMode,
    NoPercentage,
    InvalidNumber,
    PercentageExceeds100,
    MissingPercentSign,
    MissingIndexSeparator,
    TrailingContentInDiffHeader,
    MissingLeftPrefix,
    MissingRightPath,
    MissingPathPrefix,
    MissingQuotedPath,
    UnterminatedQuotedPath,
    UnterminatedEscape,
    InvalidOctalEscape,
    UnsupportedEscape,
    InvalidUtf8,
    TrailingContentInQuotedPath,
    NoPath,
    MissingWhitespaceBeforePath,
    TrailingContentInFileHeader,
    EmptyList,
    ExpectedRangePrefix,
    ExpectedRangeStart,
    ExpectedRangeSeparator,
    ExpectedRangeLength,
    RangeOutOfBounds,
    ExpectedChunkSuffix,
    MissingToRange,
    MissingOldFileHeader,
    MissingNewFileHeader,
    TrailingContentInDiff,
}

/// The description of a parse error.
pub open spec fn error_text(e: ParseError) -> Seq<char> {
    match e {
        ParseError::MissingRequired => "could not parse required element"@,
        ParseError::TrailingContentInLine => "trailing content in line"@,
        ParseError::NoHash => "no hash"@,
        ParseError::NoMode => "no mode"@,
        ParseError::NoPercentage => "no percentage"@,
        ParseError::InvalidNumber => "invalid number"@,
        ParseError::PercentageExceeds100 => "percentage exceeds 100"@,
        ParseError::MissingPercentSign => "missing percent sign"@,
        ParseError::MissingIndexSeparator => "missing '..' in index line"@,
        ParseError::TrailingContentInDiffHeader => "trailing content in diff header"@,
        ParseError::MissingLeftPrefix => "missing a/ in diff header"@,
        ParseError::MissingRightPath => "missing b/ in diff header"@,
        ParseError::MissingPathPrefix => "missing path prefix in diff header path"@,
        ParseError::MissingQuotedPath => "missing quoted path"@,
        ParseError::UnterminatedQuotedPath => "unterminated quoted path"@,
        ParseError::UnterminatedEscape => "unterminated quoted path escape"@,
        ParseError::InvalidOctalEscape => "octal escape out of range"@,
        ParseError::UnsupportedEscape => "unsupported quoted path escape"@,
        ParseError::InvalidUtf8 => "invalid utf-8 in quoted path"@,
        ParseError::TrailingContentInQuotedPath => "trailing content in quoted path"@,
        ParseError::NoPath => "no path"@,
        ParseError::MissingWhitespaceBeforePath => "missing whitespace before file header path"@,
        ParseError::TrailingContentInFileHeader => "trailing content in file header"@,
        ParseError::EmptyList => "at least one item is required"@,
        ParseError::ExpectedRangePrefix => "expected range prefix"@,
        ParseError::ExpectedRangeStart => "expected start range"@,
        ParseError::ExpectedRangeSeparator => "expected range separator ','"@,
        ParseError::ExpectedRangeLength => "expected range length"@,
        ParseError::RangeOutOfBounds => "range does not fit in usize"@,
        ParseError::ExpectedChunkSuffix => "expected chunk suffix"@,
        ParseError::MissingToRange => "missing to range"@,
        ParseError::MissingOldFileHeader => "missing old file header line"@,
        ParseError::MissingNewFileHeader => "missing new file header line"@,
        ParseError::TrailingContentInDiff => "trailing content in diff"@,
    }
}

impl ParseError {
    /// A human readable description of the error.
    pub fn message(&self) -> (r: &'static str)
        ensures
            r@ == error_text(*self),
    {
        match self {
            ParseError::MissingRequired => "could not parse required element",
            ParseError::TrailingContentInLine => "trailing content in line",
            ParseError::NoHash => "no hash",
            ParseError::NoMode => "no mode",
            ParseError::NoPercentage => "no percentage",
            ParseError::InvalidNumber => "invalid number",
            ParseError::PercentageExceeds100 => "percentage exceeds 100",
            ParseError::MissingPercentSign => "missing percent sign",
            ParseError::MissingIndexSeparator => "missing '..' in index line",
            ParseError::TrailingContentInDiffHeader => "trailing content in diff header",
            ParseError::MissingLeftPrefix => "missing a/ in diff header",
            ParseError::MissingRightPath => "missing b/ in diff header",
            ParseError::MissingPathPrefix => "missing path prefix in diff header path",
            ParseError::MissingQuotedPath => "missing quoted path",
            ParseError::UnterminatedQuotedPath => "unterminated quoted path",
            ParseError::UnterminatedEscape => "unterminated quoted path escape",
            ParseError::InvalidOctalEscape => "octal escape out of range",
            ParseError::UnsupportedEscape => "unsupported quoted path escape",
            ParseError::InvalidUtf8 => "invalid utf-8 in quoted path",
            ParseError::TrailingContentInQuotedPath => "trailing content in quoted path",
            ParseError::NoPath => "no path",
            ParseError::MissingWhitespaceBeforePath => "missing whitespace before file header path",
            ParseError::TrailingContentInFileHeader => "trailing content in file header",
            ParseError::EmptyList => "at least one item is required",
            ParseError::ExpectedRangePrefix => "expected range prefix",
            ParseError::ExpectedRangeStart => "expected start range",
            ParseError::ExpectedRangeSeparator => "expected range separator ','",
            ParseError::ExpectedRangeLength => "expected range length",
            ParseError::RangeOutOfBounds => "range does not fit in usize",
            ParseError::ExpectedChunkSuffix => "expected chunk suffix",
            ParseError::MissingToRange => "missing to range",
            ParseError::MissingOldFileHeader => "missing old file header line",
            ParseError::MissingNewFileHeader => "missing new file header line",
            ParseError::TrailingContentInDiff => "trailing content in diff",
        }
    }
}

} // verus!
