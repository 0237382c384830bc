//! Queries over a log file: single lines, pages, the tail, and a summary.

use crate::log_file::{LogError, LogFile, Progress};
use crate::mapping::mapped_bytes;
use crate::page_result::{lines_view, FileInfo, PageResult};
use crate::text::{decode_line, line_text};
use vstd::prelude::*;
use vstd::slice::slice_subrange;

verus! {

/// The most bytes of one line that a read returns; the rest of a longer line
/// is left out.
pub const LINE_MAX_BYTES: usize = 10 * 1024;

/// Where the bytes returned for line `n` end: at the next line start, but no
/// more than `LINE_MAX_BYTES` past the line's own start.
pub open spec fn line_end(f: &LogFile, n: int) -> int {
    let start = f.index@[n] as int;
    let raw_end = f.index@[n + 1] as int;
    if raw_end - start > LINE_MAX_BYTES {
        start + LINE_MAX_BYTES
    } else {
        raw_end
    }
}

/// The text returned for line `n` of `f`.
pub open spec fn line_spec(f: &LogFile, n: int) -> Seq<char> {
    line_text(f.bytes().subrange(f.index@[n] as int, line_end(f, n)))
}

/// The texts of lines `from` up to (not including) `to`.
pub open spec fn lines_between(f: &LogFile, from: int, to: int) -> Seq<Seq<char>> {
    Seq::new((to - from) as nat, |i: int| line_spec(f, from + i))
}

/// Where a page asked for at `start` with room for `max` lines ends, among `total`.
pub open spec fn page_end(start: int, max: int, total: int) -> int {
    if start + max < total {
        start + max
    } else {
        total
    }
}

/// Where that page begins: it is moved back so as not to run past the end.
pub open spec fn page_start(start: int, max: int, total: int) -> int {
    let to = page_end(start, max, total);
    if to > max {
        to - max
    } else {
        0
    }
}

/// The first line shown by a tail of `max` lines among `total`.
pub open spec fn tail_start(max: int, total: int) -> int {
    if total > max {
        total - max
    } else {
        0
    }
}

/// `r` is the page of `f` asked for at `start_line` with room for `max_lines`.
pub open spec fn is_page_of(
    f: &LogFile,
    start_line: int,
    max_lines: int,
    r: Result<PageResult, LogError>,
) -> bool {
    if let Some(e) = f.failure {
        r == Err::<PageResult, LogError>(e)
    } else {
        r matches Ok(p) && ({
            let total = f.line_count();
            let from = page_start(start_line, max_lines, total);
            let to = page_end(start_line, max_lines, total);
            &&& p.start_line == from
            &&& p.total_lines == total
            &&& p.indexing_progress == f.progress_spec()
            &&& lines_view(p.lines@) == lines_between(f, from, to)
        })
    }
}

/// `r` is the tail of `f` of at most `max_lines` lines.
pub open spec fn is_tail_of(f: &LogFile, max_lines: int, r: Result<PageResult, LogError>) -> bool {
    if let Some(e) = f.failure {
        r == Err::<PageResult, LogError>(e)
    } else {
        r matches Ok(p) && ({
            let total = f.line_count();
            let from = tail_start(max_lines, total);
            &&& p.start_line == from
            &&& p.total_lines == total
            &&& p.indexing_progress == f.progress_spec()
            &&& lines_view(p.lines@) == lines_between(f, from, total)
        })
    }
}

/// `r` is the summary of `f`.
pub open spec fn is_info_of(f: &LogFile, r: Result<FileInfo, LogError>) -> bool {
    if let Some(e) = f.failure {
        r == Err::<FileInfo, LogError>(e)
    } else {
        r matches Ok(i) && i.path@ == f.path@ && i.total_lines == f.line_count()
            && i.indexing_progress == f.progress_spec()
    }
}

/// Read access to one log file for the span of a query.
pub struct FileReadOps<'a> {
    log_file: &'a LogFile,
}

impl<'a> FileReadOps<'a> {
    pub closed spec fn file(&self) -> &'a LogFile {
        self.log_file
    }

    pub fn new(log_file: &'a LogFile) -> (r: Self)
        ensures
            r.file() == log_file,
    {
        FileReadOps { log_file }
    }

    /// Reads line `line_number`, cut to `LINE_MAX_BYTES` bytes, decoded and
    /// with trailing whitespace removed.
    pub fn read_line(&self, line_number: usize) -> (r: Result<String, LogError>)
        requires
            self.file().wf(),
        ensures
            self.file().failure matches Some(e) ==> r == Err::<String, LogError>(e),
            self.file().failure is None && line_number >= self.file().line_count() ==> r == Err::<
                String,
                LogError,
            >(LogError::UnexpectedEndOfFile),
            self.file().failure is None && line_number < self.file().line_count() ==> (r matches Ok(s)
                && s@ == line_spec(self.file(), line_number as int)),
    {
        let f = self.log_file;
        if let Some(e) = f.failure {
            return Err(e);
        }
        if line_number >= f.index.len() - 1 {
            return Err(LogError::UnexpectedEndOfFile);
        }
        let start = f.index[line_number];
        let raw_end = f.index[line_number + 1];
        proof {
            assert(f.index@[line_number as int] < f.index@[line_number + 1]);
            if line_number + 1 < f.index@.len() - 1 {
                assert(f.index@[line_number + 1] < f.index@.last());
            }
        }
        let end = if raw_end - start > LINE_MAX_BYTES {
            start + LINE_MAX_BYTES
        } else {
            raw_end
        };
        let bytes = mapped_bytes(&f.mmap);
        let line = slice_subrange(bytes, start, end);
        Ok(decode_line(line))
    }

    /// The number of complete lines indexed so far; it can grow while
    /// indexing goes on.
    pub fn total_lines(&self) -> (r: usize)
        requires
            self.file().wf(),
        ensures
            r == self.file().line_count(),
    {
        self.log_file.index.len() - 1
    }

    /// How many of the mapped bytes the index covers.
    pub fn indexing_progress(&self) -> (r: Progress)
        requires
            self.file().wf(),
        ensures
            r == self.file().progress_spec(),
    {
        let f = self.log_file;
        Progress {
            indexed_bytes: f.index[f.index.len() - 1],
            total_bytes: mapped_bytes(&f.mmap).len(),
        }
    }

    /// The path the file was opened at.
    pub fn file_path(&self) -> (r: String)
        ensures
            r@ == self.file().path@,
    {
        self.log_file.path.clone()
    }

    /// Reads lines `from` up to `to`, all of them indexed.
    fn read_lines(&self, from: usize, to: usize) -> (r: Vec<String>)
        requires
            self.file().wf(),
            self.file().failure is None,
            from <= to <= self.file().line_count(),
        ensures
            lines_view(r@) == lines_between(self.file(), from as int, to as int),
    {
        let mut lines: Vec<String> = Vec::new();
        let mut n: usize = from;
        while n < to
            invariant
                self.file().wf(),
                self.file().failure is None,
                from <= n <= to <= self.file().line_count(),
                lines_view(lines@) == lines_between(self.file(), from as int, n as int),
            decreases to - n,
        {
            let line = self.read_line(n);
            match line {
                Ok(text) => {
                    let ghost before = lines@;
                    lines.push(text);
                    proof {
                        assert(lines@ == before.push(text));
                        assert(lines_view(before).len() == before.len());
                        assert(before.len() == n - from);
                        assert(lines_view(lines@) =~= lines_between(
                            self.file(),
                            from as int,
                            n + 1,
                        )) by {
                            assert forall|i: int| 0 <= i < n + 1 - from implies #[trigger] lines_view(
                                lines@,
                            )[i] == lines_between(self.file(), from as int, n + 1)[i] by {
                                if i < n - from {
                                    assert(lines_view(lines@)[i] == lines@[i]@);
                                    assert(lines@[i] == before[i]);
                                    assert(lines_view(before)[i] == before[i]@);
                                }
                            }
                        }
                    }
                },
                Err(_) => {
                    assert(false);
                },
            }
            n = n + 1;
        }
        lines
    }

    /// A page of at most `max_lines` lines from `start_line`, moved back so
    /// that it does not run past the last line: near the end it is a full
    /// page that ends at the last line.
    pub fn read_page(&self, start_line: usize, max_lines: usize) -> (r: Result<
        PageResult,
        LogError,
    >)
        requires
            self.file().wf(),
        ensures
            is_page_of(self.file(), start_line as int, max_lines as int, r),
    {
        if let Some(e) = self.log_file.failure {
            return Err(e);
        }
        let total = self.total_lines();
        let to = if start_line < total && total - start_line > max_lines {
            start_line + max_lines
        } else {
            total
        };
        let from = if to > max_lines {
            to - max_lines
        } else {
            0
        };
        let lines = self.read_lines(from, to);
        Ok(
            PageResult {
                lines,
                start_line: from,
                total_lines: self.total_lines(),
                indexing_progress: self.indexing_progress(),
            },
        )
    }

    /// The last `max_lines` lines, or all of them when there are fewer.
    pub fn tail(&self, max_lines: usize) -> (r: Result<PageResult, LogError>)
        requires
            self.file().wf(),
        ensures
            is_tail_of(self.file(), max_lines as int, r),
    {
        if let Some(e) = self.log_file.failure {
            return Err(e);
        }
        let total = self.total_lines();
        let from = if total > max_lines {
            total - max_lines
        } else {
            0
        };
        let lines = self.read_lines(from, total);
        Ok(
            PageResult {
                lines,
                start_line: from,
                total_lines: total,
                indexing_progress: self.indexing_progress(),
            },
        )
    }

    /// The path, line count and progress of the file.
    pub fn file_info(&self) -> (r: Result<FileInfo, LogError>)
        requires
            self.file().wf(),
        ensures
            is_info_of(self.file(), r),
    {
        if let Some(e) = self.log_file.failure {
            return Err(e);
        }
        Ok(
            FileInfo {
                path: self.file_path(),
                total_lines: self.total_lines(),
                indexing_progress: self.indexing_progress(),
            },
        )
    }
}

} // verus!
