//! A diff laid out for side-by-side display: each file with its paths and
//! status, each chunk with the old and new text of its lines.
use std::ops::Range;

use vstd::prelude::*;

use crate::diff::chunk::{spec_chunk, Chunk, ChunkParser, ChunkView};
use crate::diff::chunk_header::{lemma_range_reads_back, range_view, spec_chunk_header, spec_ranges, ChunkHeaderView};
use crate::diff::diff_line::{marker_status, spec_diff_line, DiffLineParser};
use crate::diff::parser::spec_many;
use crate::text::{lemma_span_len_exact, starts_with, trim_start, CharClass};
use crate::diff::diff::{parse, spec_parse_diff, Diff, DiffView};
use crate::diff::diff_file::{DiffFile, DiffFileView};
use crate::diff::diff_line::{DiffLine, DiffLineStatus, DiffLineView};
use crate::diff::error::ParseError;
use crate::diff::extended_header_line::{ExtendedHeaderLine, ExtendedHeaderLineView};
use crate::diff::file_header_line::opt_path_view;
use crate::diff::parser::{line_views, views_of, MultilineParser};
use crate::diff::path::Path;
use crate::text::{
    lines_of, push_decimal, push_str, decimal, split_lines, str_eq, str_refs, str_views, string_from,
    string_views,
};

verus! {

broadcast use vstd::seq_lib::group_seq_properties;

/// How a line of a side-by-side chunk changed.
#[derive(Debug, Clone, Copy, PartialEq, Eq, Structural)]
pub enum LineStatus {
    Context,
    Added,
    Removed,
}

/// Status of a file in the diff.
#[derive(Debug, Clone, Copy, PartialEq, Eq, Structural)]
pub enum FileStatus {
    Added,
    Deleted,
    Modified,
    Renamed,
}

/// A line with its old and new text; an added line has no old text and a
/// removed line no new text.
#[derive(Debug, Clone, PartialEq)]
pub struct SideBySideLine {
    pub status: LineStatus,
    pub from: String,
    pub to: String,
}

/// The status and texts of a side-by-side line.
pub struct SideBySideLineView {
    pub status: LineStatus,
    pub from: Seq<char>,
    pub to: Seq<char>,
}

impl DeepView for SideBySideLine {
    type V = SideBySideLineView;

    open spec fn deep_view(&self) -> SideBySideLineView {
        SideBySideLineView { status: self.status, from: self.from@, to: self.to@ }
    }
}

/// A chunk with the old range of its first parent and the new range.
#[derive(Debug, PartialEq)]
pub struct SideBySideChunk {
    pub from_range: Range<usize>,
    pub to_range: Range<usize>,
    pub lines: Vec<SideBySideLine>,
}

/// The ranges and lines of a side-by-side chunk.
pub struct SideBySideChunkView {
    pub from_range: (int, int),
    pub to_range: (int, int),
    pub lines: Seq<SideBySideLineView>,
}

impl DeepView for SideBySideChunk {
    type V = SideBySideChunkView;

    open spec fn deep_view(&self) -> SideBySideChunkView {
        SideBySideChunkView {
            from_range: range_view(self.from_range),
            to_range: range_view(self.to_range),
            lines: views_of(self.lines@),
        }
    }
}

/// A file with its old and new paths (`/dev/null` where there is none),
/// its status and its chunks.
#[derive(Debug, PartialEq)]
pub struct SideBySideFile {
    pub from_path: Path,
    pub to_path: Path,
    pub status: FileStatus,
    pub chunks: Vec<SideBySideChunk>,
}

/// The paths, status and chunks of a side-by-side file.
pub struct SideBySideFileView {
    pub from_path: Seq<char>,
    pub to_path: Seq<char>,
    pub status: FileStatus,
    pub chunks: Seq<SideBySideChunkView>,
}

impl DeepView for SideBySideFile {
    type V = SideBySideFileView;

    open spec fn deep_view(&self) -> SideBySideFileView {
        SideBySideFileView {
            from_path: self.from_path.deep_view(),
            to_path: self.to_path.deep_view(),
            status: self.status,
            chunks: views_of(self.chunks@),
        }
    }
}

/// A diff laid out for side-by-side display.
#[derive(Debug, PartialEq)]
pub struct SideBySideDiff {
    pub files: Vec<SideBySideFile>,
}

/// The files of a side-by-side diff.
pub struct SideBySideDiffView {
    pub files: Seq<SideBySideFileView>,
}

impl DeepView for SideBySideDiff {
    type V = SideBySideDiffView;

    open spec fn deep_view(&self) -> SideBySideDiffView {
        SideBySideDiffView { files: views_of(self.files@) }
    }
}

/// The path that stands for a missing file.
pub open spec fn dev_null() -> Seq<char> {
    "/dev/null"@
}

// ---------------------------------------------------------------------------
// Conversion from a parsed diff
// ---------------------------------------------------------------------------

/// The side-by-side form of a diff line, by its status against the first parent.
pub open spec fn line_of(l: DiffLineView) -> SideBySideLineView {
    if l.from_status[0] == DiffLineStatus::Added {
        SideBySideLineView { status: LineStatus::Added, from: seq![], to: l.content }
    } else if l.from_status[0] == DiffLineStatus::Removed {
        SideBySideLineView { status: LineStatus::Removed, from: l.content, to: seq![] }
    } else {
        SideBySideLineView { status: LineStatus::Context, from: l.content, to: l.content }
    }
}

/// The side-by-side form of a chunk: the first parent's range, the new
/// range and each line.
pub open spec fn chunk_of(c: ChunkView) -> SideBySideChunkView {
    SideBySideChunkView {
        from_range: c.from_ranges[0],
        to_range: c.to_range,
        lines: c.lines.map_values(|l: DiffLineView| line_of(l)),
    }
}

/// The status of a file: from the first extended header line that creates,
/// deletes or renames it, else modified.
pub open spec fn status_of(ext: Seq<ExtendedHeaderLineView>) -> FileStatus
    decreases ext.len(),
{
    if ext.len() == 0 {
        FileStatus::Modified
    } else {
        match ext[0] {
            ExtendedHeaderLineView::NewFileMode(_) => FileStatus::Added,
            ExtendedHeaderLineView::DeletedFileMode(_) => FileStatus::Deleted,
            ExtendedHeaderLineView::RenameFrom(_) => FileStatus::Renamed,
            ExtendedHeaderLineView::RenameTo(_) => FileStatus::Renamed,
            _ => status_of(ext.drop_first()),
        }
    }
}

/// Whether an extended header line bears on the status of a file: it
/// creates, deletes or renames the file.
pub open spec fn bears_status(e: ExtendedHeaderLineView) -> bool {
    e is NewFileMode || e is DeletedFileMode || e is RenameFrom || e is RenameTo
}

/// The status of a file is told by the first extended header line that
/// creates, deletes or renames it: a new file is added, a deleted file is
/// deleted, a renamed file is renamed; a file with no such line is modified.
pub proof fn law_status_of_first_status_line(ext: Seq<ExtendedHeaderLineView>, i: int)
    requires
        0 <= i <= ext.len(),
        forall|j: int| 0 <= j < i ==> !bears_status(#[trigger] ext[j]),
    ensures
        i < ext.len() && ext[i] is NewFileMode ==> status_of(ext) == FileStatus::Added,
        i < ext.len() && ext[i] is DeletedFileMode ==> status_of(ext) == FileStatus::Deleted,
        i < ext.len() && (ext[i] is RenameFrom || ext[i] is RenameTo) ==> status_of(ext) == FileStatus::Renamed,
        i == ext.len() ==> status_of(ext) == FileStatus::Modified,
    decreases i,
{
    if i > 0 {
        let t = ext.drop_first();
        assert(!bears_status(ext[0]));
        assert forall|j: int| 0 <= j < i - 1 implies !bears_status(#[trigger] t[j]) by {
            assert(t[j] == ext[j + 1]);
        }
        law_status_of_first_status_line(t, i - 1);
        if i < ext.len() {
            assert(t[i - 1] == ext[i]);
        }
    }
}

/// The side-by-side form of a file: the first old path and the new path,
/// `/dev/null` where there is none.
pub open spec fn file_of(f: DiffFileView) -> SideBySideFileView {
    SideBySideFileView {
        from_path: if f.header.old_files.len() > 0 && f.header.old_files[0] is Some {
            f.header.old_files[0]->Some_0
        } else {
            dev_null()
        },
        to_path: match f.header.new_file {
            Some(p) => p,
            None => dev_null(),
        },
        status: status_of(f.header.extended_header),
        chunks: f.chunks.map_values(|c: ChunkView| chunk_of(c)),
    }
}

/// The side-by-side form of a diff.
pub open spec fn diff_of(d: DiffView) -> SideBySideDiffView {
    SideBySideDiffView { files: d.files.map_values(|f: DiffFileView| file_of(f)) }
}

impl SideBySideLine {
    /// The side-by-side form of a diff line.
    pub fn from_diff_line(value: DiffLine) -> (r: Self)
        ensures
            r.deep_view() == line_of(value.deep_view()),
    {
        let status = *value.from_status.head();
        match status {
            DiffLineStatus::Added => SideBySideLine { status: LineStatus::Added, from: String::new(), to: value.content },
            DiffLineStatus::Removed => SideBySideLine { status: LineStatus::Removed, from: value.content, to: String::new() },
            DiffLineStatus::Unchanged => {
                let text = value.content.clone();
                SideBySideLine { status: LineStatus::Context, from: text, to: value.content }
            },
        }
    }

    /// The same line, owning its text.
    pub fn into_static(self) -> (r: Self)
        ensures
            r.deep_view() == self.deep_view(),
    {
        self
    }
}

impl SideBySideChunk {
    /// The side-by-side form of a chunk.
    pub fn from_chunk(value: Chunk) -> (r: Self)
        ensures
            r.deep_view() == chunk_of(value.deep_view()),
    {
        let first = value.from_ranges.head();
        let from_range = first.start..first.end;
        let ghost orig = value.lines@;
        let mut rest = value.lines;
        let mut lines: Vec<SideBySideLine> = Vec::new();
        while rest.len() > 0
            invariant
                views_of(lines@) + views_of(rest@).map_values(|l: DiffLineView| line_of(l))
                    == views_of(orig).map_values(|l: DiffLineView| line_of(l)),
            decreases rest@.len(),
        {
            let ghost before_lines = lines@;
            let ghost before_rest = rest@;
            let line = rest.remove(0);
            lines.push(SideBySideLine::from_diff_line(line));
            proof {
                assert(before_rest =~= seq![line] + rest@);
                assert(views_of(before_rest).map_values(|l: DiffLineView| line_of(l)) =~= seq![line_of(line.deep_view())]
                    + views_of(rest@).map_values(|l: DiffLineView| line_of(l)));
                assert(views_of(lines@) =~= views_of(before_lines).push(line_of(line.deep_view())));
                assert(views_of(lines@) + views_of(rest@).map_values(|l: DiffLineView| line_of(l)) =~= views_of(before_lines)
                    + views_of(before_rest).map_values(|l: DiffLineView| line_of(l)));
            }
        }
        assert(views_of(lines@) =~= views_of(lines@) + views_of(rest@).map_values(|l: DiffLineView| line_of(l)));
        let r = SideBySideChunk { from_range, to_range: value.to_range, lines };
        proof {
            assert(views_of(orig).map_values(|l: DiffLineView| line_of(l)) =~= value.deep_view().lines.map_values(|l: DiffLineView| line_of(l)));
        }
        r
    }

    /// The same chunk, owning its text.
    pub fn into_static(self) -> (r: Self)
        ensures
            r.deep_view() == self.deep_view(),
    {
        self
    }
}

impl FileStatus {
    /// The status that the extended header lines of a file give it.
    pub fn from_extended_header(value: &[ExtendedHeaderLine]) -> (r: Self)
        ensures
            r == status_of(views_of(value@)),
    {
        let mut i: usize = 0;
        while i < value.len()
            invariant
                i <= value@.len(),
                status_of(views_of(value@)) == status_of(views_of(value@).skip(i as int)),
            decreases value@.len() - i,
        {
            let ghost t = views_of(value@).skip(i as int);
            assert(t[0] == value@[i as int].deep_view());
            assert(t.drop_first() =~= views_of(value@).skip(i + 1));
            match &value[i] {
                ExtendedHeaderLine::NewFileMode(_) => return FileStatus::Added,
                ExtendedHeaderLine::DeletedFileMode(_) => return FileStatus::Deleted,
                ExtendedHeaderLine::RenameFrom(_) => return FileStatus::Renamed,
                ExtendedHeaderLine::RenameTo(_) => return FileStatus::Renamed,
                _ => {},
            }
            i += 1;
        }
        assert(views_of(value@).skip(i as int).len() == 0);
        FileStatus::Modified
    }
}

impl SideBySideFile {
    /// The side-by-side form of a file of a diff.
    pub fn from_diff_file(value: DiffFile) -> (r: Self)
        ensures
            r.deep_view() == file_of(value.deep_view()),
    {
        let ghost v = value.deep_view();
        let status = FileStatus::from_extended_header(value.header.extended_header.as_slice());
        let header = value.header;
        let mut old_files = header.old_files;
        let from_path = if old_files.len() > 0 {
            let first = old_files.remove(0);
            match first {
                Some(p) => p,
                None => Path::borrowed("/dev/null"),
            }
        } else {
            Path::borrowed("/dev/null")
        };
        let to_path = match header.new_file {
            Some(p) => p,
            None => Path::borrowed("/dev/null"),
        };
        let ghost orig = value.chunks@;
        let mut rest = value.chunks;
        let mut chunks: Vec<SideBySideChunk> = Vec::new();
        while rest.len() > 0
            invariant
                views_of(chunks@) + views_of(rest@).map_values(|c: ChunkView| chunk_of(c))
                    == views_of(orig).map_values(|c: ChunkView| chunk_of(c)),
            decreases rest@.len(),
        {
            let ghost before_chunks = chunks@;
            let ghost before_rest = rest@;
            let c = rest.remove(0);
            chunks.push(SideBySideChunk::from_chunk(c));
            proof {
                assert(before_rest =~= seq![c] + rest@);
                assert(views_of(before_rest).map_values(|c: ChunkView| chunk_of(c)) =~= seq![chunk_of(c.deep_view())]
                    + views_of(rest@).map_values(|c: ChunkView| chunk_of(c)));
                assert(views_of(chunks@) =~= views_of(before_chunks).push(chunk_of(c.deep_view())));
                assert(views_of(chunks@) + views_of(rest@).map_values(|c: ChunkView| chunk_of(c)) =~= views_of(before_chunks)
                    + views_of(before_rest).map_values(|c: ChunkView| chunk_of(c)));
            }
        }
        assert(views_of(chunks@) =~= views_of(chunks@) + views_of(rest@).map_values(|c: ChunkView| chunk_of(c)));
        let r = SideBySideFile { from_path, to_path, status, chunks };
        assert(r.deep_view().from_path == file_of(v).from_path);
        assert(r.deep_view().chunks =~= file_of(v).chunks);
        r
    }

    /// The path to show for the file: the old path of a deleted file, else the new one.
    pub fn display_path(&self) -> (r: &Path)
        ensures
            r.deep_view() == display_path_of(self.deep_view()),
    {
        if str_eq(self.to_path.as_str(), "/dev/null") && !str_eq(self.from_path.as_str(), "/dev/null") {
            &self.from_path
        } else {
            &self.to_path
        }
    }

    /// The old path of a renamed or copied file.
    pub fn previous_path(&self) -> (r: Option<&Path>)
        ensures
            match previous_path_of(self.deep_view()) {
                Some(p) => r matches Some(x) && x.deep_view() == p,
                None => r is None,
            },
    {
        let display = self.display_path();
        if !str_eq(self.from_path.as_str(), "/dev/null") && !str_eq(self.from_path.as_str(), display.as_str()) {
            Some(&self.from_path)
        } else {
            None
        }
    }

    /// The same file, owning its text.
    pub fn into_static(self) -> (r: Self)
        ensures
            r.deep_view() == self.deep_view(),
    {
        self
    }
}

/// The path shown for a file.
pub open spec fn display_path_of(f: SideBySideFileView) -> Seq<char> {
    if f.to_path == dev_null() && f.from_path != dev_null() {
        f.from_path
    } else {
        f.to_path
    }
}

/// The previous path of a file: its old path when there is one and it
/// differs from the path shown.
pub open spec fn previous_path_of(f: SideBySideFileView) -> Option<Seq<char>> {
    if f.from_path != dev_null() && f.from_path != display_path_of(f) {
        Some(f.from_path)
    } else {
        None
    }
}

impl SideBySideDiff {
    /// The side-by-side form of a parsed diff.
    pub fn from_diff(value: Diff) -> (r: Self)
        ensures
            r.deep_view() == diff_of(value.deep_view()),
    {
        let ghost orig = value.files@;
        let mut rest = value.files;
        let mut files: Vec<SideBySideFile> = Vec::new();
        while rest.len() > 0
            invariant
                views_of(files@) + views_of(rest@).map_values(|f: DiffFileView| file_of(f))
                    == views_of(orig).map_values(|f: DiffFileView| file_of(f)),
            decreases rest@.len(),
        {
            let ghost before_files = files@;
            let ghost before_rest = rest@;
            let f = rest.remove(0);
            files.push(SideBySideFile::from_diff_file(f));
            proof {
                assert(before_rest =~= seq![f] + rest@);
                assert(views_of(before_rest).map_values(|f: DiffFileView| file_of(f)) =~= seq![file_of(f.deep_view())]
                    + views_of(rest@).map_values(|f: DiffFileView| file_of(f)));
                assert(views_of(files@) =~= views_of(before_files).push(file_of(f.deep_view())));
                assert(views_of(files@) + views_of(rest@).map_values(|f: DiffFileView| file_of(f)) =~= views_of(before_files)
                    + views_of(before_rest).map_values(|f: DiffFileView| file_of(f)));
            }
        }
        assert(views_of(files@) =~= views_of(files@) + views_of(rest@).map_values(|f: DiffFileView| file_of(f)));
        SideBySideDiff { files }
    }

    /// Parses the output of `git diff` into its side-by-side form.
    pub fn parse(raw_diff: &str) -> (r: Result<Self, ParseError>)
        ensures
            match spec_parse_diff(lines_of(raw_diff@)) {
                Ok(d) => r matches Ok(x) && x.deep_view() == diff_of(d),
                Err(e) => r == Err::<Self, ParseError>(e),
            },
    {
        let owned = split_lines(raw_diff);
        let lines = str_refs(&owned);
        assert(line_views(lines@) =~= str_views(lines@));
        match parse(lines.as_slice()) {
            Err(e) => Err(e),
            Ok(d) => Ok(SideBySideDiff::from_diff(d.into_static())),
        }
    }

    /// The same diff, owning its text.
    pub fn into_static(self) -> (r: Self)
        ensures
            r.deep_view() == self.deep_view(),
    {
        self
    }
}

// ---------------------------------------------------------------------------
// Finding the chunk of a line
// ---------------------------------------------------------------------------

/// The number of lines in a range (none when it is reversed).
pub open spec fn range_len(r: (int, int)) -> int {
    if r.1 >= r.0 {
        r.1 - r.0
    } else {
        0
    }
}

/// How far the middle of a chunk's new range lies from `line`.
pub open spec fn chunk_distance(c: SideBySideChunkView, line: int) -> int {
    let mid = c.to_range.0 + range_len(c.to_range) / 2;
    if mid >= line {
        mid - line
    } else {
        line - mid
    }
}

/// The first of `files[from..]` shown under `path`.
pub open spec fn file_index(files: Seq<SideBySideFileView>, path: Seq<char>, from: int) -> Option<int>
    decreases files.len() - from,
{
    if from < 0 || from >= files.len() {
        None
    } else if display_path_of(files[from]) == path {
        Some(from)
    } else {
        file_index(files, path, from + 1)
    }
}

/// The first of `chunks[from..]` whose new range holds `line`.
pub open spec fn covering_chunk(chunks: Seq<SideBySideChunkView>, line: int, from: int) -> Option<int>
    decreases chunks.len() - from,
{
    if from < 0 || from >= chunks.len() {
        None
    } else if chunks[from].to_range.0 <= line < chunks[from].to_range.1 {
        Some(from)
    } else {
        covering_chunk(chunks, line, from + 1)
    }
}

/// The first of `chunks[..n]` whose middle lies nearest to `line`.
pub open spec fn nearest_chunk(chunks: Seq<SideBySideChunkView>, line: int, n: int) -> Option<int>
    decreases n,
{
    if n <= 0 {
        None
    } else {
        match nearest_chunk(chunks, line, n - 1) {
            None => Some(n - 1),
            Some(b) => if chunk_distance(chunks[n - 1], line) < chunk_distance(chunks[b], line) {
                Some(n - 1)
            } else {
                Some(b)
            },
        }
    }
}

/// The chunk for `line` of the file shown under `path`: the one whose new
/// range holds the line, else the nearest one; as indexes of file and chunk.
pub open spec fn find_hunk_of(d: SideBySideDiffView, path: Seq<char>, line: int) -> Option<(int, int)> {
    match file_index(d.files, path, 0) {
        None => None,
        Some(f) => {
            let chunks = d.files[f].chunks;
            match covering_chunk(chunks, line, 0) {
                Some(c) => Some((f, c)),
                None => match nearest_chunk(chunks, line, chunks.len() as int) {
                    Some(c) => Some((f, c)),
                    None => None,
                },
            }
        },
    }
}

/// Whether the new range of chunk `c` holds `line`.
pub open spec fn covers(c: SideBySideChunkView, line: int) -> bool {
    c.to_range.0 <= line < c.to_range.1
}

proof fn lemma_file_index(files: Seq<SideBySideFileView>, path: Seq<char>, from: int)
    requires
        0 <= from,
    ensures
        file_index(files, path, from) matches Some(f) ==> from <= f < files.len() && display_path_of(files[f]) == path,
    decreases files.len() - from,
{
    if from < files.len() && display_path_of(files[from]) != path {
        lemma_file_index(files, path, from + 1);
    }
}

proof fn lemma_covering_chunk(chunks: Seq<SideBySideChunkView>, line: int, from: int)
    requires
        0 <= from,
    ensures
        covering_chunk(chunks, line, from) matches Some(c) ==> from <= c < chunks.len() && covers(chunks[c], line),
        (exists|c: int| from <= c < chunks.len() && covers(#[trigger] chunks[c], line)) ==> covering_chunk(
            chunks,
            line,
            from,
        ) is Some,
    decreases chunks.len() - from,
{
    if from < chunks.len() && !covers(chunks[from], line) {
        lemma_covering_chunk(chunks, line, from + 1);
        if exists|c: int| from <= c < chunks.len() && covers(#[trigger] chunks[c], line) {
            let c = choose|c: int| from <= c < chunks.len() && covers(#[trigger] chunks[c], line);
            assert(c != from);
            assert(from + 1 <= c);
        }
    }
}

/// The hunk found for a line of a file is in the file shown under that
/// path; a hunk is found exactly when the file is in the diff and has
/// chunks; and where a chunk's new range holds the line, the chunk found
/// holds it too.
pub proof fn law_find_hunk_prefers_covering_chunk(d: SideBySideDiffView, path: Seq<char>, line: int)
    ensures
        find_hunk_of(d, path, line) matches Some((f, c)) ==> 0 <= f < d.files.len() && display_path_of(d.files[f])
            == path && 0 <= c < d.files[f].chunks.len(),
        find_hunk_of(d, path, line) is Some <==> (file_index(d.files, path, 0) matches Some(f) && d.files[f].chunks.len()
            > 0),
        (file_index(d.files, path, 0) matches Some(f) && exists|k: int|
            0 <= k < d.files[f].chunks.len() && covers(#[trigger] d.files[f].chunks[k], line)) ==> (find_hunk_of(
            d,
            path,
            line,
        ) matches Some((f2, c2)) && covers(d.files[f2].chunks[c2], line)),
{
    lemma_file_index(d.files, path, 0);
    match file_index(d.files, path, 0) {
        None => {},
        Some(f) => {
            let chunks = d.files[f].chunks;
            lemma_covering_chunk(chunks, line, 0);
            lemma_nearest_bound(chunks, line, chunks.len() as int);
        },
    }
}

proof fn lemma_nearest_bound(chunks: Seq<SideBySideChunkView>, line: int, n: int)
    ensures
        nearest_chunk(chunks, line, n) matches Some(b) ==> 0 <= b < n,
        n > 0 ==> nearest_chunk(chunks, line, n) is Some,
    decreases n,
{
    if n > 0 {
        lemma_nearest_bound(chunks, line, n - 1);
    }
}

impl SideBySideDiff {
    /// The first file shown under `path`.
    fn file_position(&self, path: &str) -> (r: Option<usize>)
        ensures
            match file_index(self.deep_view().files, path@, 0) {
                Some(f) => 0 <= f < self.files@.len() && r == Some(f as usize),
                None => r is None,
            },
    {
        let ghost d = self.deep_view();
        let mut fi: usize = 0;
        while fi < self.files.len()
            invariant
                fi <= self.files@.len(),
                d == self.deep_view(),
                file_index(d.files, path@, 0) == file_index(d.files, path@, fi as int),
            decreases self.files@.len() - fi,
        {
            assert(d.files[fi as int] == self.files@[fi as int].deep_view());
            if str_eq(self.files[fi].display_path().as_str(), path) {
                return Some(fi);
            }
            fi += 1;
        }
        None
    }

    /// The chunk of the file shown under `path` that holds `line` in its new
    /// range, else the one whose middle lies nearest to it.
    pub fn find_hunk(&self, path: &str, line: u32) -> (r: Option<&SideBySideChunk>)
        ensures
            match find_hunk_of(self.deep_view(), path@, line as int) {
                Some((f, c)) => 0 <= f < self.files@.len() && 0 <= c < self.files@[f].chunks@.len()
                    && r == Some(&self.files@[f].chunks@[c]),
                None => r is None,
            },
    {
        let ghost d = self.deep_view();
        let nfiles = self.files.len();
        let pos = self.file_position(path);
        let fi = match pos {
            None => return None,
            Some(f) => f,
        };
        proof {
            match file_index(d.files, path@, 0) {
                Some(f) => {
                    assert(fi as int == f);
                },
                None => {
                    assert(pos is None);
                },
            }
        }
        let file = &self.files[fi];
        let ghost chunks = d.files[fi as int].chunks;
        assert(chunks == views_of(file.chunks@));
        let l = line as usize;
        let mut ci: usize = 0;
        while ci < file.chunks.len()
            invariant
                ci <= file.chunks@.len(),
                d == self.deep_view(),
                fi < self.files@.len(),
                file_index(d.files, path@, 0) == Some(fi as int),
                *file == self.files@[fi as int],
                chunks == d.files[fi as int].chunks,
                chunks == views_of(file.chunks@),
                l == line,
                covering_chunk(chunks, line as int, 0) == covering_chunk(chunks, line as int, ci as int),
            decreases file.chunks@.len() - ci,
        {
            let c = &file.chunks[ci];
            assert(chunks[ci as int] == c.deep_view());
            if l >= c.to_range.start && l < c.to_range.end {
                return Some(c);
            }
            ci += 1;
        }
        let mut best: Option<usize> = None;
        let mut best_dist: usize = 0;
        let mut k: usize = 0;
        while k < file.chunks.len()
            invariant
                k <= file.chunks@.len(),
                d == self.deep_view(),
                fi < self.files@.len(),
                file_index(d.files, path@, 0) == Some(fi as int),
                *file == self.files@[fi as int],
                chunks == d.files[fi as int].chunks,
                covering_chunk(chunks, line as int, 0) is None,
                chunks == views_of(file.chunks@),
                l == line,
                match nearest_chunk(chunks, line as int, k as int) {
                    None => best is None,
                    Some(b) => best == Some(b as usize) && best_dist == chunk_distance(chunks[b], line as int),
                },
            decreases file.chunks@.len() - k,
        {
            proof {
                lemma_nearest_bound(chunks, line as int, k as int);
            }
            let c = &file.chunks[k];
            assert(chunks[k as int] == c.deep_view());
            let len = if c.to_range.end >= c.to_range.start {
                c.to_range.end - c.to_range.start
            } else {
                0
            };
            let mid = c.to_range.start + len / 2;
            let dist = if mid >= l {
                mid - l
            } else {
                l - mid
            };
            match best {
                None => {
                    best = Some(k);
                    best_dist = dist;
                },
                Some(_) => {
                    if dist < best_dist {
                        best = Some(k);
                        best_dist = dist;
                    }
                },
            }
            k += 1;
        }
        proof {
            lemma_nearest_bound(chunks, line as int, k as int);
        }
        match best {
            None => None,
            Some(b) => Some(&file.chunks[b]),
        }
    }
}

// ---------------------------------------------------------------------------
// Back to unified diff text
// ---------------------------------------------------------------------------

/// The text of a line in a unified diff, after the line break before it.
pub open spec fn unified_line(l: SideBySideLineView) -> Seq<char> {
    match l.status {
        LineStatus::Context => "\n "@ + l.to,
        LineStatus::Added => "\n+"@ + l.to,
        LineStatus::Removed => "\n-"@ + l.from,
    }
}

/// The text of lines in a unified diff.
pub open spec fn unified_lines(ls: Seq<SideBySideLineView>) -> Seq<char>
    decreases ls.len(),
{
    if ls.len() == 0 {
        seq![]
    } else {
        unified_lines(ls.drop_last()) + unified_line(ls.last())
    }
}

/// The header line of a chunk in a unified diff.
pub open spec fn unified_header(from: (int, int), to: (int, int)) -> Seq<char> {
    "@@ -"@ + decimal(from.0 as nat) + ","@ + decimal(range_len(from) as nat) + " +"@ + decimal(to.0 as nat)
        + ","@ + decimal(range_len(to) as nat) + " @@"@
}

/// A chunk as unified diff text.
pub open spec fn unified_chunk(c: SideBySideChunkView) -> Seq<char> {
    unified_header(c.from_range, c.to_range) + unified_lines(c.lines)
}

impl SideBySideChunk {
    /// The chunk as unified diff text: its header line and one line per
    /// line, without a final line break.
    pub fn to_unified(&self) -> (r: String)
        ensures
            r@ == unified_chunk(self.deep_view()),
    {
        let mut out: Vec<char> = Vec::new();
        push_str(&mut out, "@@ -");
        push_decimal(&mut out, self.from_range.start as u64);
        push_str(&mut out, ",");
        let from_len = if self.from_range.end >= self.from_range.start {
            self.from_range.end - self.from_range.start
        } else {
            0
        };
        push_decimal(&mut out, from_len as u64);
        push_str(&mut out, " +");
        push_decimal(&mut out, self.to_range.start as u64);
        push_str(&mut out, ",");
        let to_len = if self.to_range.end >= self.to_range.start {
            self.to_range.end - self.to_range.start
        } else {
            0
        };
        push_decimal(&mut out, to_len as u64);
        push_str(&mut out, " @@");
        let ghost head = out@;
        assert(head =~= unified_header(range_view(self.from_range), range_view(self.to_range)));
        let mut i: usize = 0;
        while i < self.lines.len()
            invariant
                i <= self.lines@.len(),
                out@ == head + unified_lines(views_of(self.lines@).take(i as int)),
            decreases self.lines@.len() - i,
        {
            let line = &self.lines[i];
            match line.status {
                LineStatus::Context => {
                    push_str(&mut out, "\n ");
                    push_str(&mut out, line.to.as_str());
                },
                LineStatus::Added => {
                    push_str(&mut out, "\n+");
                    push_str(&mut out, line.to.as_str());
                },
                LineStatus::Removed => {
                    push_str(&mut out, "\n-");
                    push_str(&mut out, line.from.as_str());
                },
            }
            proof {
                let t = views_of(self.lines@).take(i + 1);
                assert(t.drop_last() =~= views_of(self.lines@).take(i as int));
                assert(t.last() == line.deep_view());
            }
            i += 1;
        }
        assert(views_of(self.lines@).take(i as int) =~= views_of(self.lines@));
        string_from(&out)
    }
}

/// The header that [`SideBySideChunk::to_unified`] writes for two ranges
/// reads back, as a chunk header, as those ranges.
#[verifier::spinoff_prover]
#[verifier::rlimit(60)]
pub proof fn law_chunk_header_reads_back(from: (int, int), to: (int, int))
    requires
        0 <= from.0 <= from.1 <= usize::MAX,
        0 <= to.0 <= to.1 <= usize::MAX,
    ensures
        spec_chunk_header(unified_header(from, to)) == Ok::<Option<ChunkHeaderView>, ParseError>(
            Some(ChunkHeaderView { from_ranges: seq![from], to_range: to }),
        ),
{
    reveal_strlit("@@ -");
    reveal_strlit(",");
    reveal_strlit(" +");
    reveal_strlit(" @@");
    let a = from.0 as nat;
    let m = (from.1 - from.0) as nat;
    let b = to.0 as nat;
    let k = (to.1 - to.0) as nat;
    let tail = seq![' ', '@', '@'];
    let rest = seq![' ', '+'] + decimal(b) + seq![','] + decimal(k) + tail;
    let t0 = seq![' ', '-'] + decimal(a) + seq![','] + decimal(m) + rest;
    let s = unified_header(from, to);
    assert(s =~= seq!['@', '@'] + t0);
    lemma_span_len_exact(s, CharClass::At, 2);
    assert(s.skip(2) =~= t0);
    assert(s.take(2) =~= seq!['@', '@']);
    lemma_range_reads_back('-', a, m, rest);
    lemma_range_reads_back('+', b, k, tail);
    assert(spec_ranges(tail, 2, 2) == Ok::<(Seq<(int, int)>, Seq<char>), ParseError>((seq![], tail)));
    assert(spec_ranges(rest, 1, 2) == Ok::<(Seq<(int, int)>, Seq<char>), ParseError>((seq![(b as int, to.1)], tail)));
    let rs = seq![(a as int, from.1), (b as int, to.1)];
    assert(seq![(a as int, from.1)] + seq![(b as int, to.1)] =~= rs);
    assert(spec_ranges(t0, 0, 2) == Ok::<(Seq<(int, int)>, Seq<char>), ParseError>((rs, tail)));
    lemma_span_len_exact(tail, CharClass::Whitespace, 1);
    assert(trim_start(tail) =~= seq!['@', '@']);
    assert(starts_with(trim_start(tail), s.take(2)));
    assert(rs.drop_last() =~= seq![from]);
}

/// The text of chunk lines, each after a line break.
pub open spec fn chunk_body_text(ls: Seq<Seq<char>>) -> Seq<char>
    decreases ls.len(),
{
    if ls.len() == 0 {
        seq![]
    } else {
        chunk_body_text(ls.drop_last()) + seq!['\n'] + ls.last()
    }
}

/// Whether a chunk line starts with a marker: `+`, `-` or a space.
pub open spec fn is_marked_line(s: Seq<char>) -> bool {
    s.len() > 0 && marker_status(s[0]) is Some
}

pub proof fn lemma_marked_lines_read(ls: Seq<Seq<char>>)
    requires
        forall|i: int| 0 <= i < ls.len() ==> is_marked_line(#[trigger] ls[i]),
    ensures
        spec_many(&DiffLineParser { number_of_parents: 1 }, ls) == Ok::<(Seq<DiffLineView>, nat), ParseError>(
            (ls.map_values(|s: Seq<char>| marked_line_view(s)), ls.len()),
        ),
    decreases ls.len(),
{
    if ls.len() == 0 {
        assert(ls.map_values(|s: Seq<char>| marked_line_view(s)) =~= seq![]);
    } else {
        assert(is_marked_line(ls[0]));
        law_diff_line_writes_back(ls[0]);
        let t = ls.skip(1);
        assert forall|i: int| 0 <= i < t.len() implies is_marked_line(#[trigger] t[i]) by {
            assert(t[i] == ls[i + 1]);
        }
        lemma_marked_lines_read(t);
        assert(seq![marked_line_view(ls[0])] + t.map_values(|s: Seq<char>| marked_line_view(s)) =~= ls.map_values(
            |s: Seq<char>| marked_line_view(s),
        ));
    }
}

proof fn lemma_marked_lines_write_back(ls: Seq<Seq<char>>)
    requires
        forall|i: int| 0 <= i < ls.len() ==> is_marked_line(#[trigger] ls[i]),
    ensures
        unified_lines(
            ls.map_values(|s: Seq<char>| marked_line_view(s)).map_values(|l: DiffLineView| line_of(l)),
        ) == chunk_body_text(ls),
    decreases ls.len(),
{
    if ls.len() > 0 {
        let t = ls.drop_last();
        assert forall|i: int| 0 <= i < t.len() implies is_marked_line(#[trigger] t[i]) by {
            assert(t[i] == ls[i]);
        }
        lemma_marked_lines_write_back(t);
        let a = ls.map_values(|s: Seq<char>| marked_line_view(s)).map_values(|l: DiffLineView| line_of(l));
        assert(a.drop_last() =~= t.map_values(|s: Seq<char>| marked_line_view(s)).map_values(
            |l: DiffLineView| line_of(l),
        ));
        assert(is_marked_line(ls[ls.len() - 1]));
        law_diff_line_writes_back(ls.last());
        assert(a.last() == line_of(marked_line_view(ls.last())));
    }
}

/// A chunk whose header [`SideBySideChunk::to_unified`] wrote from two
/// ranges, followed by lines that each start with a marker (`+`, `-` or a
/// space), reads as a chunk of all those lines that `to_unified` writes
/// back as the same text.
pub proof fn law_chunk_writes_back(from: (int, int), to: (int, int), ls: Seq<Seq<char>>)
    requires
        0 <= from.0 <= from.1 <= usize::MAX,
        0 <= to.0 <= to.1 <= usize::MAX,
        forall|i: int| 0 <= i < ls.len() ==> is_marked_line(#[trigger] ls[i]),
    ensures
        spec_chunk(seq![unified_header(from, to)] + ls) matches Ok(Some((c, n))) && n == ls.len() + 1
            && unified_chunk(chunk_of(c)) == unified_header(from, to) + chunk_body_text(ls),
{
    let all = seq![unified_header(from, to)] + ls;
    law_chunk_header_reads_back(from, to);
    assert(all[0] == unified_header(from, to));
    assert(all.skip(1) =~= ls);
    lemma_marked_lines_read(ls);
    lemma_marked_lines_write_back(ls);
}

/// The side-by-side line a chunk line with a marker (`+`, `-` or a space)
/// reads as: its status and the text after the marker.
pub open spec fn marked_line_view(s: Seq<char>) -> DiffLineView {
    DiffLineView { from_status: seq![marker_status(s[0])->Some_0], content: s.skip(1) }
}

/// A chunk line with a marker reads, in a diff of one parent, as a line
/// that [`SideBySideChunk::to_unified`] writes back as the same text.
pub proof fn law_diff_line_writes_back(s: Seq<char>)
    requires
        s.len() > 0,
        marker_status(s[0]) is Some,
    ensures
        spec_diff_line(1, s) == Ok::<Option<DiffLineView>, ParseError>(Some(marked_line_view(s))),
        unified_line(line_of(marked_line_view(s))) == seq!['\n'] + s,
{
    reveal_strlit("\n ");
    reveal_strlit("\n+");
    reveal_strlit("\n-");
    let r = spec_diff_line(1, s);
    assert(!(exists|j: int| 0 <= j < 1 && (#[trigger] marker_status(s[j])) is None));
    assert(r matches Ok(Some(l)) && l.from_status =~= seq![marker_status(s[0])->Some_0] && l.content == s.skip(1));
    assert(s =~= seq![s[0]] + s.skip(1));
}

// ---------------------------------------------------------------------------
// Lines of a hunk with their numbers
// ---------------------------------------------------------------------------

/// A line of a hunk to display: its text and its number in the new file
/// (none for a removed line).
#[derive(Debug, Clone, PartialEq)]
pub struct ParsedHunkLine {
    pub content: String,
    pub new_line_number: Option<u32>,
}

/// The text and new line number of a hunk line.
pub struct ParsedHunkLineView {
    pub content: Seq<char>,
    pub new_line_number: Option<u32>,
}

impl DeepView for ParsedHunkLine {
    type V = ParsedHunkLineView;

    open spec fn deep_view(&self) -> ParsedHunkLineView {
        ParsedHunkLineView { content: self.content@, new_line_number: self.new_line_number }
    }
}

/// Where a line lies against the range of lines to show.
#[derive(Debug, Clone, Copy, PartialEq, Eq, Structural)]
pub enum RangeCheckResult {
    BeforeRange,
    Include,
    AfterRange,
}

/// Where a line with the given number lies against `line_range`; lines
/// without a number are always shown.
pub open spec fn range_check(line_number: Option<u32>, line_range: Option<(u32, u32)>) -> RangeCheckResult {
    match line_range {
        None => RangeCheckResult::Include,
        Some((start, end)) => match line_number {
            Some(num) => if num < start {
                RangeCheckResult::BeforeRange
            } else if num > end {
                RangeCheckResult::AfterRange
            } else {
                RangeCheckResult::Include
            },
            None => RangeCheckResult::Include,
        },
    }
}

/// Where a line with the given number lies against `line_range`.
pub fn check_line_in_range(
    line_number: Option<u32>,
    line_range: Option<(u32, u32)>,
    already_truncated_start: bool,
) -> (r: RangeCheckResult)
    ensures
        r == range_check(line_number, line_range),
{
    let (start, end) = match line_range {
        None => return RangeCheckResult::Include,
        Some(x) => x,
    };
    match line_number {
        Some(num) => if num < start {
            RangeCheckResult::BeforeRange
        } else if num > end {
            RangeCheckResult::AfterRange
        } else {
            RangeCheckResult::Include
        },
        None => RangeCheckResult::Include,
    }
}

/// The next line number; numbers wrap around past the largest one.
pub open spec fn next_number(n: Option<u32>) -> Option<u32> {
    match n {
        Some(x) => Some(if x == u32::MAX { 0u32 } else { (x + 1) as u32 }),
        None => None,
    }
}

/// Lines `i..` of a hunk to display, given the number of line `i` in the
/// new file: lines before `line_range` are dropped (and noted), the first
/// line after it ends the scan (and is noted).
pub open spec fn scan_hunk(
    lines: Seq<SideBySideLineView>,
    i: int,
    current: Option<u32>,
    line_range: Option<(u32, u32)>,
    truncated_start: bool,
    acc: Seq<ParsedHunkLineView>,
) -> (Seq<ParsedHunkLineView>, bool, bool)
    decreases lines.len() - i,
{
    if i < 0 || i >= lines.len() {
        (acc, truncated_start, false)
    } else {
        let l = lines[i];
        let next = if l.status != LineStatus::Removed {
            next_number(current)
        } else {
            current
        };
        match range_check(current, line_range) {
            RangeCheckResult::BeforeRange => scan_hunk(lines, i + 1, next, line_range, true, acc),
            RangeCheckResult::AfterRange => (acc, truncated_start, true),
            RangeCheckResult::Include => scan_hunk(
                lines,
                i + 1,
                next,
                line_range,
                truncated_start,
                acc.push(ParsedHunkLineView {
                    content: if l.status == LineStatus::Removed {
                        l.from
                    } else {
                        l.to
                    },
                    new_line_number: if l.status != LineStatus::Removed {
                        current
                    } else {
                        None
                    },
                }),
            ),
        }
    }
}

/// The lines of a unified diff hunk to display with their new line numbers,
/// and whether lines were left out before and after `line_range`. A hunk
/// that does not parse gives no lines.
#[verifier::opaque]
pub open spec fn hunk_lines_of(diff_hunk: Seq<char>, line_range: Option<(u32, u32)>) -> (Seq<ParsedHunkLineView>, bool, bool) {
    match ChunkParser.spec_parse_lines(lines_of(diff_hunk)) {
        Ok(Some((c, n))) => {
            let sc = chunk_of(c);
            let first = if sc.to_range.0 <= u32::MAX {
                Some(sc.to_range.0 as u32)
            } else {
                None
            };
            scan_hunk(sc.lines, 0, first, line_range, false, seq![])
        },
        _ => (seq![], false, false),
    }
}

/// Parses a unified diff hunk into the lines to display with their new
/// line numbers, keeping those within `line_range`; the flags tell whether
/// lines were left out before and after the range.
pub fn parse_diff_hunk_with_line_numbers(diff_hunk: &str, line_range: Option<(u32, u32)>) -> (r: (
    Vec<ParsedHunkLine>,
    bool,
    bool,
))
    ensures
        (views_of(r.0@), r.1, r.2) == hunk_lines_of(diff_hunk@, line_range),
{
    reveal(hunk_lines_of);
    let owned = split_lines(diff_hunk);
    let lines = str_refs(&owned);
    assert(line_views(lines@) =~= lines_of(diff_hunk@));
    let chunk = match ChunkParser.parse_lines_required(lines.as_slice()) {
        Err(_) => return (Vec::new(), false, false),
        Ok((c, _)) => c,
    };
    let chunk = SideBySideChunk::from_chunk(chunk);
    let ghost sc = chunk.deep_view();
    let mut out: Vec<ParsedHunkLine> = Vec::new();
    let mut truncated_start = false;
    let mut truncated_end = false;
    let mut current: Option<u32> = if chunk.to_range.start <= 0xffff_ffffusize {
        Some(chunk.to_range.start as u32)
    } else {
        None
    };
    let mut i: usize = 0;
    assert(views_of(out@) =~= seq![]);
    assert(hunk_lines_of(diff_hunk@, line_range) == scan_hunk(sc.lines, 0, current, line_range, false, views_of(out@)));
    while i < chunk.lines.len()
        invariant_except_break
            i <= chunk.lines@.len(),
            sc == chunk.deep_view(),
            !truncated_end,
            hunk_lines_of(diff_hunk@, line_range) == scan_hunk(sc.lines, i as int, current, line_range, truncated_start, views_of(out@)),
        ensures
            hunk_lines_of(diff_hunk@, line_range) == (views_of(out@), truncated_start, truncated_end),
        decreases chunk.lines@.len() - i,
    {
        let line = &chunk.lines[i];
        assert(sc.lines[i as int] == line.deep_view());
        let ghost before = views_of(out@);
        match check_line_in_range(current, line_range, truncated_start) {
            RangeCheckResult::BeforeRange => {
                truncated_start = true;
            },
            RangeCheckResult::AfterRange => {
                truncated_end = true;
                break;
            },
            RangeCheckResult::Include => {
                let number = if line.status != LineStatus::Removed {
                    current
                } else {
                    None
                };
                let content = if line.status == LineStatus::Removed {
                    line.from.clone()
                } else {
                    line.to.clone()
                };
                out.push(ParsedHunkLine { content, new_line_number: number });
                assert(views_of(out@) =~= before.push(ParsedHunkLineView {
                    content: if line.status == LineStatus::Removed { line.from@ } else { line.to@ },
                    new_line_number: number,
                }));
            },
        }
        if line.status != LineStatus::Removed {
            current = match current {
                Some(x) => Some(if x == u32::MAX { 0 } else { x + 1 }),
                None => None,
            };
        }
        i += 1;
    }
    (out, truncated_start, truncated_end)
}

// ---------------------------------------------------------------------------
// The range of lines to show around comments
// ---------------------------------------------------------------------------

/// The lines of context shown before and after commented lines.
pub const CONTEXT_LINES: u32 = 5;

/// Hunks with at most this many lines are always shown whole.
pub const MIN_TRUNCATION_THRESHOLD: usize = 20;

/// The smallest of the numbers.
pub open spec fn seq_min(s: Seq<u32>) -> u32
    decreases s.len(),
{
    if s.len() <= 1 {
        s[0]
    } else if s.last() < seq_min(s.drop_last()) {
        s.last()
    } else {
        seq_min(s.drop_last())
    }
}

/// The largest of the numbers.
pub open spec fn seq_max(s: Seq<u32>) -> u32
    decreases s.len(),
{
    if s.len() <= 1 {
        s[0]
    } else if s.last() > seq_max(s.drop_last()) {
        s.last()
    } else {
        seq_max(s.drop_last())
    }
}

/// The range of lines to show for a hunk of `total` lines with comments on
/// `lines`: five lines around the commented ones, unless the hunk is short,
/// nothing is commented, or the range would cover more than 80% of it.
pub open spec fn context_range(lines: Seq<u32>, total: nat) -> Option<(u32, u32)> {
    if lines.len() == 0 || total <= MIN_TRUNCATION_THRESHOLD {
        None
    } else {
        let lo = seq_min(lines);
        let hi = seq_max(lines);
        let start: u32 = if lo >= CONTEXT_LINES { (lo - CONTEXT_LINES) as u32 } else { 0 };
        let end: u32 = if hi + CONTEXT_LINES > u32::MAX { u32::MAX } else { (hi + CONTEXT_LINES) as u32 };
        if end - start > total * 80 / 100 {
            None
        } else {
            Some((start, end))
        }
    }
}

proof fn lemma_min_le_max(s: Seq<u32>)
    requires
        s.len() > 0,
    ensures
        seq_min(s) <= seq_max(s),
        exists|i: int| 0 <= i < s.len() && s[i] == seq_min(s),
    decreases s.len(),
{
    if s.len() > 1 {
        lemma_min_le_max(s.drop_last());
        let i = choose|i: int| 0 <= i < s.drop_last().len() && s.drop_last()[i] == seq_min(s.drop_last());
        assert(s[i] == s.drop_last()[i]);
    } else {
        assert(s[0] == seq_min(s));
    }
}

/// The smallest and largest of the numbers.
pub fn min_max(s: &[u32]) -> (r: (u32, u32))
    requires
        s@.len() > 0,
    ensures
        r == (seq_min(s@), seq_max(s@)),
        r.0 <= r.1,
{
    let n = s.len();
    let mut lo = s[0];
    let mut hi = s[0];
    let mut i: usize = 1;
    assert(s@.take(1) =~= seq![s@[0]]);
    while i < n
        invariant
            1 <= i <= n == s@.len(),
            lo == seq_min(s@.take(i as int)),
            hi == seq_max(s@.take(i as int)),
        decreases n - i,
    {
        let x = s[i];
        assert(s@.take(i + 1).drop_last() =~= s@.take(i as int));
        if x < lo {
            lo = x;
        }
        if x > hi {
            hi = x;
        }
        i += 1;
    }
    assert(s@.take(n as int) =~= s@);
    proof {
        lemma_min_le_max(s@);
    }
    (lo, hi)
}

/// The range of lines to show around the commented lines of a hunk of
/// `total_lines` lines, see [`context_range`].
pub fn calculate_context_range(commented_lines: &[u32], total_lines: usize) -> (r: Option<(u32, u32)>)
    ensures
        r == context_range(commented_lines@, total_lines as nat),
{
    let n = commented_lines.len();
    if n == 0 || total_lines <= MIN_TRUNCATION_THRESHOLD {
        return None;
    }
    let (lo, hi) = min_max(commented_lines);
    let start = lo.saturating_sub(CONTEXT_LINES);
    let end = hi.saturating_add(CONTEXT_LINES);
    let t = total_lines as u128;
    assert(t * 80 <= 0xffff_ffff_ffff_ffff_ffff_ffff_ffff_ffffu128) by (nonlinear_arith)
        requires
            t <= 0xffff_ffff_ffff_ffffu128,
    ;
    let limit = t * 80 / 100;
    let width = (end - start) as u128;
    if width > limit {
        return None;
    }
    Some((start, end))
}

} // verus!
