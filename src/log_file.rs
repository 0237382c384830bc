//! A mapped log file together with its line-offset index.

use crate::line_index::{
    lemma_newline_ends_bounds, lemma_newline_ends_local, lemma_newline_ends_split, line_starts,
    newline_ends, scan_newlines, strictly_increasing,
};
use crate::mapping::{mapped_bytes, mapping_contents};
use memmap2::Mmap;
use vstd::prelude::*;

verus! {

/// Why a query or an indexing step on a log file did not succeed.
#[derive(Clone, Copy, Debug, PartialEq, Eq, Structural)]
pub enum LogError {
    /// The requested line lies at or past the number of lines indexed so far.
    UnexpectedEndOfFile,
    /// The file shrank under its index; the session can no longer be trusted.
    FileChanged,
    /// The file could not be checked or mapped again; the session stops here.
    ReloadFailed,
}

/// How much of a file the index covers: `indexed_bytes` out of `total_bytes`.
/// An empty file counts as fully indexed.
#[derive(Clone, Copy, Debug, PartialEq, Eq, Structural)]
pub struct Progress {
    pub indexed_bytes: usize,
    pub total_bytes: usize,
}

impl Progress {
    /// The whole file is covered.
    pub open spec fn is_complete(self) -> bool {
        self.indexed_bytes == self.total_bytes
    }

    /// `self` is at most `other` as a fraction, an empty file's progress being one.
    pub open spec fn at_most(self, other: Progress) -> bool {
        if other.total_bytes == 0 {
            true
        } else if self.total_bytes == 0 {
            other.is_complete()
        } else {
            self.indexed_bytes * other.total_bytes <= other.indexed_bytes * self.total_bytes
        }
    }
}

/// Where a block that starts at `start` and spans at most `max` bytes ends in a
/// file of `len` bytes.
pub open spec fn block_end(start: int, max: int, len: int) -> int {
    if start + max < len {
        start + max
    } else {
        len
    }
}

/// `b` is `a` after one indexing step over at most `max` bytes that answered `r`.
pub open spec fn index_step(a: LogFile, b: LogFile, max: int, r: Result<bool, LogError>) -> bool {
    &&& b.path == a.path
    &&& b.mmap == a.mmap
    &&& b.size == a.size
    &&& b.failure == a.failure
    &&& a.failure matches Some(e) ==> r == Err::<bool, LogError>(e) && b.index@ == a.index@
        && b.scanned == a.scanned && b.scanned_bytes == a.scanned_bytes
    &&& a.failure is None ==> ({
        let start = a.scanned as int;
        let len = a.bytes().len() as int;
        let end = block_end(start, max, len);
        &&& b.index@ == a.index@ + newline_ends(a.bytes(), start, end)
        &&& b.scanned == end
        &&& r == Ok::<bool, LogError>(end == len)
    })
    &&& a.indexes() ==> b.indexes()
    &&& a.indexes() && r == Ok::<bool, LogError>(true) ==> b.complete()
}

/// `b` is `a` after comparing its mapped size with `current_size`, answering `r`.
pub open spec fn size_step(a: LogFile, b: LogFile, current_size: u64, r: Result<bool, LogError>) -> bool {
    &&& b.path == a.path
    &&& b.index == a.index
    &&& b.scanned == a.scanned
    &&& b.scanned_bytes == a.scanned_bytes
    &&& b.mmap == a.mmap
    &&& b.size == a.size
    &&& b.failure == if a.failure is Some {
        a.failure
    } else if current_size < a.size {
        Some(LogError::FileChanged)
    } else {
        None
    }
    &&& r == match b.failure {
        Some(e) => Err::<bool, LogError>(e),
        None => Ok::<bool, LogError>(current_size > a.size),
    }
}

/// `b` is `a` after being offered the mapping `mmap`, answering `r`.
pub open spec fn remap_step(a: LogFile, b: LogFile, mmap: Mmap, r: Result<(), LogError>) -> bool {
    &&& b.path == a.path
    &&& b.index == a.index
    &&& b.scanned == a.scanned
    &&& b.scanned_bytes == a.scanned_bytes
    &&& b.failure == if a.failure is Some {
        a.failure
    } else if mapping_contents(mmap).len() < a.size {
        Some(LogError::FileChanged)
    } else {
        None
    }
    &&& b.failure matches Some(e) ==> r == Err::<(), LogError>(e) && b.mmap == a.mmap && b.size
        == a.size
    &&& b.failure is None ==> r == Ok::<(), LogError>(()) && b.mmap == mmap
    &&& a.indexes() && mapping_contents(mmap).take(a.scanned as int) == a.bytes().take(
        a.scanned as int,
    ) ==> b.indexes()
}

/// `b` is `a` after a reload that could not be carried out.
pub open spec fn fail_step(a: LogFile, b: LogFile) -> bool {
    &&& b.path == a.path
    &&& b.index == a.index
    &&& b.scanned == a.scanned
    &&& b.scanned_bytes == a.scanned_bytes
    &&& b.mmap == a.mmap
    &&& b.size == a.size
    &&& b.failure == if a.failure is Some {
        a.failure
    } else {
        Some(LogError::ReloadFailed)
    }
}

/// A file's mapped bytes, the byte length seen at mapping time, and the
/// offsets at which its lines start.
pub struct LogFile {
    pub path: String,
    pub index: Vec<usize>,
    pub mmap: Mmap,
    pub size: u64,
    /// Why the session ended, once it has; never cleared.
    pub failure: Option<LogError>,
    /// How many bytes from the start have been scanned for line starts.
    pub scanned: usize,
    /// The bytes that were scanned, as they were read then.
    pub scanned_bytes: Ghost<Seq<u8>>,
}

impl LogFile {
    /// The bytes the current mapping shows.
    pub open spec fn bytes(&self) -> Seq<u8> {
        mapping_contents(self.mmap)
    }

    /// The start of the last line known, which is how far the index reaches.
    pub open spec fn last_offset(&self) -> int {
        self.index@.last() as int
    }

    /// The number of complete lines indexed so far.
    pub open spec fn line_count(&self) -> int {
        self.index@.len() - 1
    }

    pub open spec fn progress_spec(&self) -> Progress {
        Progress { indexed_bytes: self.index@.last(), total_bytes: self.bytes().len() as usize }
    }

    /// The index holds exactly the line starts of the bytes scanned so far,
    /// the scan lies within the mapping, and the recorded size is the
    /// mapping's length.
    pub open spec fn wf(&self) -> bool {
        &&& self.index@.len() >= 1
        &&& self.index@[0] == 0
        &&& strictly_increasing(self.index@)
        &&& self.last_offset() <= self.scanned
        &&& self.scanned <= self.bytes().len()
        &&& self.bytes().len() <= usize::MAX
        &&& self.size as int == self.bytes().len()
        &&& self.scanned_bytes@.len() == self.scanned
        &&& self.index@ == line_starts(self.scanned_bytes@, self.scanned as int)
    }

    /// The bytes scanned are those the current mapping shows, so the index
    /// holds exactly the line starts of the mapping's first `scanned` bytes.
    pub open spec fn indexes(&self) -> bool {
        self.scanned_bytes@ == self.bytes().take(self.scanned as int)
    }

    /// The index holds every line start of the mapped bytes.
    pub open spec fn complete(&self) -> bool {
        &&& self.indexes()
        &&& self.scanned == self.bytes().len()
    }

    /// Wraps a fresh mapping of the file at `path`, with nothing indexed yet.
    pub fn new(path: String, mmap: Mmap) -> (r: LogFile)
        ensures
            r.wf(),
            r.indexes(),
            r.path@ == path@,
            r.mmap == mmap,
            r.index@ == seq![0usize],
            r.scanned == 0,
            r.failure is None,
    {
        let len = mapped_bytes(&mmap).len();
        let mut index: Vec<usize> = Vec::new();
        index.push(0);
        proof {
            assert(line_starts(Seq::<u8>::empty(), 0) =~= seq![0usize]);
            assert(mapping_contents(mmap).take(0) =~= Seq::<u8>::empty());
        }
        LogFile {
            path,
            index,
            mmap,
            size: len as u64,
            failure: None,
            scanned: 0,
            scanned_bytes: Ghost(Seq::empty()),
        }
    }

    /// Scans the next block of at most `max_bytes` bytes, from where the
    /// last scan stopped, and records the line starts found there. Returns
    /// whether the block reached the end of the mapping.
    pub fn index_max(&mut self, max_bytes: usize) -> (r: Result<bool, LogError>)
        requires
            old(self).wf(),
        ensures
            final(self).wf(),
            index_step(*old(self), *final(self), max_bytes as int, r),
    {
        if let Some(e) = self.failure {
            return Err(e);
        }
        let bytes = mapped_bytes(&self.mmap);
        let len = bytes.len();
        let start = self.scanned;
        let end = if len - start > max_bytes {
            start + max_bytes
        } else {
            len
        };
        let found = scan_newlines(bytes, start, end);
        let ghost old_index = self.index@;
        let ghost old_seen = self.scanned_bytes@;
        let ghost b = self.bytes();
        proof {
            lemma_newline_ends_bounds(b, start as int, end as int);
        }
        let mut k: usize = 0;
        while k < found.len()
            invariant
                k <= found@.len(),
                found@ == newline_ends(b, start as int, end as int),
                self.index@ == old_index + found@.take(k as int),
                old_index.len() >= 1,
                old_index.last() <= start,
                strictly_increasing(old_index),
                strictly_increasing(found@),
                forall|j: int| 0 <= j < found@.len() ==> start < #[trigger] found@[j] <= end,
                b == self.bytes(),
                self.path == old(self).path,
                self.mmap == old(self).mmap,
                self.size == old(self).size,
                self.failure == old(self).failure,
                self.scanned == old(self).scanned,
                self.scanned_bytes == old(self).scanned_bytes,
            decreases found@.len() - k,
        {
            proof {
                let cur = self.index@;
                assert(cur.last() < found@[k as int]) by {
                    if k > 0 {
                        assert(cur.last() == found@[k - 1]);
                    } else {
                        assert(cur.last() == old_index.last());
                    }
                }
            }
            self.index.push(found[k]);
            k = k + 1;
            proof {
                assert(self.index@ =~= old_index + found@.take(k as int));
            }
        }
        proof {
            assert(found@.take(k as int) =~= found@);
            let n = self.index@;
            assert forall|i: int, j: int| 0 <= i < j < n.len() implies n[i] < n[j] by {
                if j >= old_index.len() {
                    assert(n[j] == found@[j - old_index.len()]);
                    if i >= old_index.len() {
                        assert(n[i] == found@[i - old_index.len()]);
                    } else {
                        assert(n[i] == old_index[i]);
                        assert(old_index[i] <= old_index.last()) by {
                            if i < old_index.len() - 1 {
                                assert(old_index[i] < old_index[old_index.len() - 1]);
                            }
                        }
                    }
                } else {
                    assert(n[i] == old_index[i] && n[j] == old_index[j]);
                }
            }
            assert(n[0] == old_index[0]);
            if found@.len() > 0 {
                assert(n.last() == found@[found@.len() - 1]);
            } else {
                assert(n.last() == old_index.last());
            }
            let seen = old_seen + b.subrange(start as int, end as int);
            assert(seen.subrange(0, start as int) =~= old_seen.subrange(0, start as int));
            lemma_newline_ends_local(seen, old_seen, 0, start as int);
            assert(seen.subrange(start as int, end as int) =~= b.subrange(start as int, end as int));
            lemma_newline_ends_local(seen, b, start as int, end as int);
            lemma_newline_ends_split(seen, 0, start as int, end as int);
            assert(n =~= line_starts(seen, end as int));
            if old_seen == b.take(start as int) {
                assert(seen =~= b.take(end as int));
            }
        }
        self.scanned = end;
        self.scanned_bytes = Ghost(self.scanned_bytes@ + bytes@.subrange(start as int, end as int));
        Ok(end == len)
    }

    /// Compares the size now on disk with the mapped size: `Ok(true)` when the
    /// file grew and must be mapped again, `Ok(false)` when it kept its size.
    /// A shorter file ends the session with `FileChanged`.
    pub fn check_size(&mut self, current_size: u64) -> (r: Result<bool, LogError>)
        requires
            old(self).wf(),
        ensures
            final(self).wf(),
            size_step(*old(self), *final(self), current_size, r),
    {
        if let Some(e) = self.failure {
            Err(e)
        } else if current_size < self.size {
            self.failure = Some(LogError::FileChanged);
            Err(LogError::FileChanged)
        } else {
            Ok(current_size > self.size)
        }
    }

    /// Replaces the mapping with `mmap`, a newer mapping of the same file.
    /// A mapping shorter than the current one ends the session with
    /// `FileChanged` and is not taken.
    pub fn remap(&mut self, mmap: Mmap) -> (r: Result<(), LogError>)
        requires
            old(self).wf(),
        ensures
            final(self).wf(),
            remap_step(*old(self), *final(self), mmap, r),
    {
        let len = mapped_bytes(&mmap).len();
        if let Some(e) = self.failure {
            return Err(e);
        }
        if (len as u64) < self.size {
            self.failure = Some(LogError::FileChanged);
            return Err(LogError::FileChanged);
        }
        proof {
            let nb = mapping_contents(mmap);
            assert(self.scanned <= nb.len());
        }
        self.mmap = mmap;
        self.size = len as u64;
        Ok(())
    }

    /// Ends the session with `ReloadFailed`, unless it has already ended.
    pub fn fail_reload(&mut self)
        requires
            old(self).wf(),
        ensures
            final(self).wf(),
            fail_step(*old(self), *final(self)),
    {
        if self.failure.is_none() {
            self.failure = Some(LogError::ReloadFailed);
        }
    }
}

} // verus!
