//! Properties that hold across the operations of the engine.

use crate::file_read_ops::{is_info_of, is_page_of, is_tail_of, page_end};
use crate::line_index::{line_starts, newline_count, newline_ends, NEWLINE};
use crate::log_file::{fail_step, index_step, remap_step, size_step, LogError, LogFile, Progress};
use crate::page_result::{lines_view, FileInfo, PageResult};
use memmap2::Mmap;
use vstd::prelude::*;

verus! {

/// What a page result shows: its line texts, first line, line count and progress.
pub open spec fn page_view(r: Result<PageResult, LogError>) -> Result<
    (Seq<Seq<char>>, usize, usize, Progress),
    LogError,
> {
    match r {
        Ok(p) => Ok((lines_view(p.lines@), p.start_line, p.total_lines, p.indexing_progress)),
        Err(e) => Err(e),
    }
}

/// `b` is a later state of the same session as `a`: the index only grew, the
/// mapping did not shrink, and a session once ended stays ended, for the same reason.
pub open spec fn advances(a: LogFile, b: LogFile) -> bool {
    &&& b.path == a.path
    &&& a.index@.len() <= b.index@.len()
    &&& b.index@.take(a.index@.len() as int) == a.index@
    &&& a.size <= b.size
    &&& a.scanned <= b.scanned
    &&& a.failure is Some ==> b.failure == a.failure
}

/// Once a file whose bytes are all complete lines (or no bytes) is fully
/// indexed, its line count is its number of newlines and its progress is complete.
pub proof fn lemma_complete_index_counts_lines(f: LogFile)
    requires
        f.wf(),
        f.complete(),
        f.bytes().len() == 0 || f.bytes().last() == NEWLINE,
    ensures
        f.line_count() == newline_count(f.bytes()),
        f.progress_spec().is_complete(),
{
    let b = f.bytes();
    let len = b.len() as int;
    assert(f.scanned_bytes@ =~= b);
    if len == 0 {
        assert(f.index@ =~= seq![0usize]);
    } else {
        assert(newline_ends(b, 0, len) == newline_ends(b, 0, len - 1).push(len as usize));
        assert(f.index@.last() == line_starts(b, len).last());
    }
}

/// Reading the same page twice from a file that did not change in between
/// gives the same result.
pub proof fn lemma_read_page_idempotent(
    f: LogFile,
    start_line: int,
    max_lines: int,
    r1: Result<PageResult, LogError>,
    r2: Result<PageResult, LogError>,
)
    requires
        f.wf(),
        is_page_of(&f, start_line, max_lines, r1),
        is_page_of(&f, start_line, max_lines, r2),
    ensures
        page_view(r1) == page_view(r2),
{
}

/// A page ends at `to = min(start + m, total)` and holds `to - max(0, to - m)`
/// lines; when fewer than `m` lines exist it holds all of them from line 0.
pub proof fn lemma_page_anchoring(
    f: LogFile,
    start_line: int,
    max_lines: int,
    r: Result<PageResult, LogError>,
)
    requires
        f.wf(),
        f.failure is None,
        0 <= start_line,
        0 <= max_lines,
        is_page_of(&f, start_line, max_lines, r),
    ensures
        r matches Ok(p) && ({
            let total = f.line_count();
            let to = if start_line + max_lines < total {
                start_line + max_lines
            } else {
                total
            };
            let from = if to - max_lines > 0 {
                to - max_lines
            } else {
                0
            };
            &&& p.lines@.len() == to - from
            &&& p.start_line + p.lines@.len() == to
            &&& total < max_lines ==> p.start_line == 0 && p.lines@.len() == total
        }),
{
    let p = r->Ok_0;
    assert(lines_view(p.lines@).len() == p.lines@.len());
    assert(page_end(start_line, max_lines, f.line_count()) <= f.line_count());
}

/// Each step the indexer can take on a file leads to a later state of it.
pub proof fn lemma_steps_advance(
    a: LogFile,
    b: LogFile,
    max_bytes: int,
    current_size: u64,
    mmap: Mmap,
    r_index: Result<bool, LogError>,
    r_size: Result<bool, LogError>,
    r_remap: Result<(), LogError>,
)
    requires
        a.wf(),
        b.wf(),
        max_bytes >= 0,
        index_step(a, b, max_bytes, r_index) || size_step(a, b, current_size, r_size)
            || remap_step(a, b, mmap, r_remap) || fail_step(a, b),
    ensures
        advances(a, b),
{
    assert(b.index@.take(a.index@.len() as int) =~= a.index@);
}

/// Each indexing step of an intact file with a positive block size either
/// reaches the end of the mapping or scans one more whole block, so indexing
/// ends after at most `ceil(remaining / max_bytes)` steps, whatever the length
/// of the lines.
pub proof fn lemma_index_step_progress(
    a: LogFile,
    b: LogFile,
    max_bytes: int,
    r: Result<bool, LogError>,
)
    requires
        a.wf(),
        a.failure is None,
        max_bytes > 0,
        index_step(a, b, max_bytes, r),
    ensures
        r == Ok::<bool, LogError>(true) ==> b.scanned == a.bytes().len(),
        r == Ok::<bool, LogError>(false) ==> b.scanned == a.scanned + max_bytes && b.scanned
            < a.bytes().len(),
        r is Ok,
{
}

/// Later states follow one another.
pub proof fn lemma_advances_transitive(a: LogFile, b: LogFile, c: LogFile)
    requires
        advances(a, b),
        advances(b, c),
    ensures
        advances(a, c),
{
    assert(c.index@.take(a.index@.len() as int) =~= b.index@.take(b.index@.len() as int).take(
        a.index@.len() as int,
    ));
    assert(c.index@.take(a.index@.len() as int) =~= c.index@.take(b.index@.len() as int).take(
        a.index@.len() as int,
    ));
}

/// Along a session the line count never decreases, and while the file keeps
/// its size the indexing progress never decreases either.
pub proof fn lemma_index_monotonic(a: LogFile, b: LogFile)
    requires
        a.wf(),
        b.wf(),
        advances(a, b),
    ensures
        a.line_count() <= b.line_count(),
        a.size == b.size ==> a.progress_spec().at_most(b.progress_spec()),
{
    let n = a.index@.len() as int;
    assert(a.index@.last() == b.index@[n - 1]) by {
        assert(b.index@.take(n)[n - 1] == b.index@[n - 1]);
    }
    assert(a.index@.last() <= b.index@.last()) by {
        if n - 1 < b.index@.len() - 1 {
            assert(b.index@[n - 1] < b.index@[b.index@.len() - 1]);
        }
    }
    if a.size == b.size {
        let pa = a.progress_spec();
        let pb = b.progress_spec();
        assert(pa.total_bytes == pb.total_bytes);
        if pa.total_bytes != 0 {
            let t = pa.total_bytes as int;
            let x = pa.indexed_bytes as int;
            let y = pb.indexed_bytes as int;
            assert(x * t <= y * t) by (nonlinear_arith)
                requires
                    x <= y,
                    t >= 0,
            ;
        }
    }
}

/// An intact file found shorter than its mapping reports the change at once, and every
/// later state of the session answers each query with that change.
pub proof fn lemma_truncation_persists(
    a: LogFile,
    b: LogFile,
    current_size: u64,
    r: Result<bool, LogError>,
    c: LogFile,
)
    requires
        a.wf(),
        a.failure is None,
        size_step(a, b, current_size, r),
        current_size < a.size,
        advances(b, c),
    ensures
        r == Err::<bool, LogError>(LogError::FileChanged),
        c.failure == Some(LogError::FileChanged),
        forall|s: int, m: int, q: Result<PageResult, LogError>|
            is_page_of(&c, s, m, q) ==> q == Err::<PageResult, LogError>(LogError::FileChanged),
        forall|m: int, q: Result<PageResult, LogError>|
            is_tail_of(&c, m, q) ==> q == Err::<PageResult, LogError>(LogError::FileChanged),
        forall|q: Result<FileInfo, LogError>|
            is_info_of(&c, q) ==> q == Err::<FileInfo, LogError>(LogError::FileChanged),
{
}

} // verus!
