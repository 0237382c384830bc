//! A log file shared between the readers that query it and the indexer that
//! extends it: many readers at a time, or one writer for one bounded step.

use crate::file_read_ops::{is_info_of, is_page_of, is_tail_of, FileReadOps};
use crate::log_file::{fail_step, index_step, remap_step, size_step, LogError, LogFile};
use crate::page_result::{FileInfo, PageResult};
use memmap2::Mmap;
use std::sync::Arc;
use vstd::prelude::*;
use vstd::rwlock::{RwLock, RwLockPredicate};

verus! {

/// The invariant every value held by the lock keeps: a well-formed file at
/// the path the lock was made for.
pub struct WellFormed {
    pub path: Ghost<Seq<char>>,
}

impl RwLockPredicate<LogFile> for WellFormed {
    open spec fn inv(self, v: LogFile) -> bool {
        v.wf() && v.path@ == self.path@
    }
}

/// The shared state of one opened file: its mapping and index behind a
/// reader/writer lock.
pub struct IndexedFile {
    lock: RwLock<LogFile, WellFormed>,
}

impl IndexedFile {
    /// The path of the file shared here; it never changes.
    pub closed spec fn path(&self) -> Seq<char> {
        self.lock.pred().path@
    }

    /// Shares a freshly mapped file at `path`, nothing indexed yet.
    pub fn new(path: String, mmap: Mmap) -> (r: IndexedFile)
        ensures
            r.path() == path@,
    {
        let ghost p = path@;
        let file = LogFile::new(path, mmap);
        IndexedFile { lock: RwLock::new(file, Ghost(WellFormed { path: Ghost(p) })) }
    }

    /// The path, line count and progress, as of one moment.
    pub fn file_info(&self) -> (r: Result<FileInfo, LogError>)
        ensures
            exists|f: LogFile| f.wf() && f.path@ == self.path() && is_info_of(&f, r),
    {
        let handle = self.lock.acquire_read();
        let file = handle.borrow();
        let r = FileReadOps::new(file).file_info();
        proof {
            assert(file.wf() && file.path@ == self.path() && is_info_of(file, r));
        }
        handle.release_read();
        r
    }

    /// A page read against one consistent state of the file.
    pub fn read_page(&self, start_line: usize, max_lines: usize) -> (r: Result<
        PageResult,
        LogError,
    >)
        ensures
            exists|f: LogFile|
                f.wf() && f.path@ == self.path() && is_page_of(
                    &f,
                    start_line as int,
                    max_lines as int,
                    r,
                ),
    {
        let handle = self.lock.acquire_read();
        let file = handle.borrow();
        let r = FileReadOps::new(file).read_page(start_line, max_lines);
        proof {
            assert(file.wf() && file.path@ == self.path() && is_page_of(file, start_line as int, max_lines as int, r));
        }
        handle.release_read();
        r
    }

    /// The last lines, read against one consistent state of the file.
    pub fn tail(&self, max_lines: usize) -> (r: Result<PageResult, LogError>)
        ensures
            exists|f: LogFile| f.wf() && f.path@ == self.path() && is_tail_of(&f, max_lines as int, r),
    {
        let handle = self.lock.acquire_read();
        let file = handle.borrow();
        let r = FileReadOps::new(file).tail(max_lines);
        proof {
            assert(file.wf() && file.path@ == self.path() && is_tail_of(file, max_lines as int, r));
        }
        handle.release_read();
        r
    }
}

/// Write access for the indexer: each call holds the lock for one bounded step.
pub struct FileWriteOps {
    log_file: Arc<IndexedFile>,
}

impl FileWriteOps {
    /// The shared file these operations write.
    pub closed spec fn file(&self) -> IndexedFile {
        *self.log_file
    }

    pub fn new(log_file: Arc<IndexedFile>) -> (r: Self)
        ensures
            r.file() == *log_file,
    {
        FileWriteOps { log_file }
    }

    /// Compares the size on disk with the mapped size; see [`LogFile::check_size`].
    pub fn check_size(&self, current_size: u64) -> (r: Result<bool, LogError>)
        ensures
            exists|a: LogFile, b: LogFile|
                a.wf() && b.wf() && a.path@ == self.file().path() && size_step(a, b, current_size, r),
    {
        let (mut file, handle) = self.log_file.lock.acquire_write();
        let ghost a = file;
        let r = file.check_size(current_size);
        proof {
            assert(a.wf() && file.wf() && a.path@ == self.file().path() && size_step(a, file, current_size, r));
        }
        handle.release_write(file);
        r
    }

    /// Offers a newer mapping of the file; see [`LogFile::remap`].
    pub fn remap(&self, mmap: Mmap) -> (r: Result<(), LogError>)
        ensures
            exists|a: LogFile, b: LogFile|
                a.wf() && b.wf() && a.path@ == self.file().path() && remap_step(a, b, mmap, r),
    {
        let (mut file, handle) = self.log_file.lock.acquire_write();
        let ghost a = file;
        let r = file.remap(mmap);
        proof {
            assert(a.wf() && file.wf() && a.path@ == self.file().path() && remap_step(a, file, mmap, r));
        }
        handle.release_write(file);
        r
    }

    /// Ends the session after a reload that could not be carried out; see
    /// [`LogFile::fail_reload`].
    pub fn fail_reload(&self)
        ensures
            exists|a: LogFile, b: LogFile|
                a.wf() && b.wf() && a.path@ == self.file().path() && fail_step(a, b),
    {
        let (mut file, handle) = self.log_file.lock.acquire_write();
        let ghost a = file;
        file.fail_reload();
        proof {
            assert(a.wf() && file.wf() && a.path@ == self.file().path() && fail_step(a, file));
        }
        handle.release_write(file);
    }

    /// Indexes the next block of at most `max_bytes` bytes; see
    /// [`LogFile::index_max`]. Returns whether the end of the file was reached.
    pub fn index_max(&self, max_bytes: usize) -> (r: Result<bool, LogError>)
        ensures
            exists|a: LogFile, b: LogFile|
                a.wf() && b.wf() && a.path@ == self.file().path() && index_step(
                    a,
                    b,
                    max_bytes as int,
                    r,
                ),
    {
        let (mut file, handle) = self.log_file.lock.acquire_write();
        let ghost a = file;
        let r = file.index_max(max_bytes);
        proof {
            assert(a.wf() && file.wf() && a.path@ == self.file().path() && index_step(a, file, max_bytes as int, r));
        }
        handle.release_write(file);
        r
    }
}

} // verus!
