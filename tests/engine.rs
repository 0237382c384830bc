use logmancer::file_read_ops::{FileReadOps, LINE_MAX_BYTES};
use logmancer::log_file::{LogError, LogFile, Progress};
use logmancer::page_result::PageResult;
use logmancer::shared::{FileWriteOps, IndexedFile};
use memmap2::{Mmap, MmapMut};
use std::sync::Arc;

fn mapping(bytes: &[u8]) -> Mmap {
    let mut m = MmapMut::map_anon(bytes.len()).unwrap();
    m.copy_from_slice(bytes);
    m.make_read_only().unwrap()
}

fn indexed(bytes: &[u8], block: usize) -> LogFile {
    let mut f = LogFile::new("test.log".to_string(), mapping(bytes));
    while !f.index_max(block).unwrap() {}
    f
}

fn strings(v: &[&str]) -> Vec<String> {
    v.iter().map(|s| s.to_string()).collect()
}

#[test]
fn empty_file_is_fully_indexed() {
    let f = indexed(b"", 1024);
    let info = FileReadOps::new(&f).file_info().unwrap();
    assert_eq!(info.path, "test.log");
    assert_eq!(info.total_lines, 0);
    assert_eq!(info.indexing_progress, Progress { indexed_bytes: 0, total_bytes: 0 });
}

#[test]
fn three_lines_are_paged_and_anchored() {
    let f = indexed(b"a\nb\nc\n", 1024);
    let ops = FileReadOps::new(&f);
    assert_eq!(ops.total_lines(), 3);
    let p = ops.read_page(0, 2).unwrap();
    assert_eq!(p.lines, strings(&["a", "b"]));
    assert_eq!(p.start_line, 0);
    assert_eq!(p.total_lines, 3);
    let p = ops.read_page(2, 2).unwrap();
    assert_eq!(p.lines, strings(&["b", "c"]));
    assert_eq!(p.start_line, 1);
}

#[test]
fn appended_line_shows_in_tail() {
    let mut f = indexed(b"a\nb\nc\n", 1024);
    assert_eq!(f.check_size(8), Ok(true));
    assert_eq!(f.remap(mapping(b"a\nb\nc\nd\n")), Ok(()));
    while !f.index_max(1024).unwrap() {}
    let p = FileReadOps::new(&f).tail(2).unwrap();
    assert_eq!(p.total_lines, 4);
    assert_eq!(p.lines, strings(&["c", "d"]));
    assert_eq!(p.start_line, 2);
}

#[test]
fn long_line_is_cut_to_line_max_bytes() {
    let mut bytes = vec![b'x'; 20 * 1024];
    bytes.push(b'\n');
    let f = indexed(&bytes, 1024 * 1024);
    let line = FileReadOps::new(&f).read_line(0).unwrap();
    assert_eq!(LINE_MAX_BYTES, 10 * 1024);
    assert_eq!(line.len(), 10 * 1024);
    assert_eq!(line, "x".repeat(10 * 1024));
}

#[test]
fn small_blocks_count_every_complete_line() {
    let text = b"first line\nsecond\n\nfourth one here\nfifth\n";
    let f = indexed(text, 3);
    let ops = FileReadOps::new(&f);
    assert_eq!(ops.total_lines(), 5);
    let p = ops.indexing_progress();
    assert_eq!(p, Progress { indexed_bytes: text.len(), total_bytes: text.len() });
    assert_eq!(ops.read_line(2), Ok(String::new()));
    assert_eq!(ops.read_line(3), Ok("fourth one here".to_string()));
}

#[test]
fn reading_a_page_twice_gives_the_same_page() {
    let f = indexed(b"1\n2\n3\n4\n5\n", 1024);
    let ops = FileReadOps::new(&f);
    let first = ops.read_page(1, 3).unwrap();
    let second = ops.read_page(1, 3).unwrap();
    assert_eq!(first.lines, second.lines);
    assert_eq!(first.start_line, second.start_line);
    assert_eq!(first.total_lines, second.total_lines);
    assert_eq!(first.indexing_progress, second.indexing_progress);
    assert_eq!(first.lines, strings(&["2", "3", "4"]));
}

#[test]
fn short_file_page_starts_at_zero() {
    let f = indexed(b"a\nb\nc\n", 1024);
    let p = FileReadOps::new(&f).read_page(5, 10).unwrap();
    assert_eq!(p.start_line, 0);
    assert_eq!(p.lines, strings(&["a", "b", "c"]));
}

#[test]
fn page_past_the_end_is_full_and_ends_at_last_line() {
    let f = indexed(b"0\n1\n2\n3\n4\n5\n6\n7\n8\n9\n", 1024);
    let p = FileReadOps::new(&f).read_page(8, 4).unwrap();
    assert_eq!(p.start_line, 6);
    assert_eq!(p.lines, strings(&["6", "7", "8", "9"]));
    let p = FileReadOps::new(&f).read_page(usize::MAX, usize::MAX).unwrap();
    assert_eq!(p.start_line, 0);
    assert_eq!(p.lines.len(), 10);
}

#[test]
fn progress_and_line_count_never_go_back() {
    let text = b"aaaa\nbb\ncccccc\nd\n";
    let mut f = LogFile::new("p".to_string(), mapping(text));
    let mut last_lines = 0;
    let mut last_indexed = 0;
    loop {
        let done = f.index_max(4).unwrap();
        let ops = FileReadOps::new(&f);
        let lines = ops.total_lines();
        let progress = ops.indexing_progress();
        assert!(lines >= last_lines);
        assert!(progress.indexed_bytes >= last_indexed);
        assert_eq!(progress.total_bytes, text.len());
        last_lines = lines;
        last_indexed = progress.indexed_bytes;
        if done {
            break;
        }
    }
    assert_eq!(last_lines, 4);
    assert_eq!(last_indexed, text.len());
}

#[test]
fn shrunk_file_fails_for_good() {
    let mut f = indexed(b"a\nb\nc\n", 1024);
    assert_eq!(f.check_size(2), Err(LogError::FileChanged));
    let ops = FileReadOps::new(&f);
    assert!(matches!(ops.read_page(0, 2), Err(LogError::FileChanged)));
    assert!(matches!(ops.tail(2), Err(LogError::FileChanged)));
    assert!(matches!(ops.file_info(), Err(LogError::FileChanged)));
    assert_eq!(ops.read_line(0), Err(LogError::FileChanged));
    assert_eq!(f.check_size(6), Err(LogError::FileChanged));
    assert_eq!(f.index_max(1024), Err(LogError::FileChanged));
    assert_eq!(f.remap(mapping(b"a\nb\nc\nd\n")), Err(LogError::FileChanged));
}

#[test]
fn shorter_mapping_is_refused() {
    let mut f = indexed(b"a\nb\nc\n", 1024);
    assert_eq!(f.remap(mapping(b"a\n")), Err(LogError::FileChanged));
    assert_eq!(f.failure, Some(LogError::FileChanged));
    assert_eq!(f.size, 6);
}

#[test]
fn size_check_tells_growth_from_no_change() {
    let mut f = indexed(b"a\n", 1024);
    assert_eq!(f.check_size(2), Ok(false));
    assert_eq!(f.check_size(5), Ok(true));
    assert!(f.failure.is_none());
}

#[test]
fn unterminated_last_line_is_not_counted() {
    let f = indexed(b"a\nb", 1024);
    let ops = FileReadOps::new(&f);
    assert_eq!(ops.total_lines(), 1);
    assert_eq!(ops.read_line(1), Err(LogError::UnexpectedEndOfFile));
    assert_eq!(ops.indexing_progress(), Progress { indexed_bytes: 2, total_bytes: 3 });
}

#[test]
fn line_text_is_trimmed_and_decoded_lossily() {
    let f = indexed(b"tab\t \r\n\xff\xfeok\n", 1024);
    let ops = FileReadOps::new(&f);
    assert_eq!(ops.read_line(0), Ok("tab".to_string()));
    assert_eq!(ops.read_line(1), Ok("\u{FFFD}\u{FFFD}ok".to_string()));
}

#[test]
fn index_block_stops_at_block_end() {
    let mut f = LogFile::new("b".to_string(), mapping(b"ab\ncd\nef\n"));
    assert_eq!(f.index_max(4), Ok(false));
    assert_eq!(f.index, vec![0, 3]);
    assert_eq!(f.index_max(100), Ok(true));
    assert_eq!(f.index, vec![0, 3, 6, 9]);
}

#[test]
fn tail_of_short_file_returns_everything() {
    let f = indexed(b"x\ny\n", 1024);
    let p = FileReadOps::new(&f).tail(10).unwrap();
    assert_eq!(p.start_line, 0);
    assert_eq!(p.lines, strings(&["x", "y"]));
}

#[test]
fn pages_compare_by_window_only() {
    let a = PageResult {
        lines: strings(&["a"]),
        start_line: 1,
        total_lines: 5,
        indexing_progress: Progress { indexed_bytes: 1, total_bytes: 2 },
    };
    let b = PageResult {
        lines: strings(&["other"]),
        start_line: 1,
        total_lines: 5,
        indexing_progress: Progress { indexed_bytes: 2, total_bytes: 2 },
    };
    let c = PageResult { lines: vec![], start_line: 2, total_lines: 5, indexing_progress: b.indexing_progress };
    assert!(a == b);
    assert!(a != c);
}

#[test]
fn shared_file_is_indexed_through_write_ops() {
    let shared = Arc::new(IndexedFile::new("s".to_string(), mapping(b"a\nb\nc\n")));
    let writer = FileWriteOps::new(Arc::clone(&shared));
    assert_eq!(writer.check_size(6), Ok(false));
    while !writer.index_max(2).unwrap() {}
    let info = shared.file_info().unwrap();
    assert_eq!(info.total_lines, 3);
    assert_eq!(writer.check_size(8), Ok(true));
    assert_eq!(writer.remap(mapping(b"a\nb\nc\nd\n")), Ok(()));
    while !writer.index_max(2).unwrap() {}
    let p = shared.tail(2).unwrap();
    assert_eq!(p.lines, strings(&["c", "d"]));
    assert_eq!(p.start_line, 2);
    let p = shared.read_page(0, 2).unwrap();
    assert_eq!(p.lines, strings(&["a", "b"]));
    assert_eq!(p.total_lines, 4);
}

#[test]
fn shared_file_reports_truncation() {
    let shared = Arc::new(IndexedFile::new("s".to_string(), mapping(b"a\nb\n")));
    let writer = FileWriteOps::new(Arc::clone(&shared));
    assert_eq!(writer.check_size(1), Err(LogError::FileChanged));
    assert!(matches!(shared.read_page(0, 1), Err(LogError::FileChanged)));
    assert!(matches!(shared.file_info(), Err(LogError::FileChanged)));
}

#[test]
fn line_longer_than_a_block_is_indexed_across_blocks() {
    let mut f = LogFile::new("l".to_string(), mapping(b"abcdef\ngh\n"));
    assert_eq!(f.index_max(3), Ok(false));
    assert_eq!(f.index, vec![0]);
    assert_eq!(f.scanned, 3);
    assert_eq!(f.index_max(3), Ok(false));
    assert_eq!(f.index, vec![0]);
    assert_eq!(f.scanned, 6);
    assert_eq!(f.index_max(3), Ok(false));
    assert_eq!(f.index, vec![0, 7]);
    assert_eq!(f.index_max(3), Ok(true));
    assert_eq!(f.index, vec![0, 7, 10]);
    let ops = FileReadOps::new(&f);
    assert_eq!(ops.read_line(0), Ok("abcdef".to_string()));
    assert_eq!(ops.read_line(1), Ok("gh".to_string()));
}

#[test]
fn single_byte_blocks_reach_the_end() {
    let mut f = LogFile::new("x".to_string(), mapping(b"xxx"));
    assert_eq!(f.index_max(1), Ok(false));
    assert_eq!(f.index_max(1), Ok(false));
    assert_eq!(f.index_max(1), Ok(true));
    assert_eq!(f.scanned, 3);
    assert_eq!(FileReadOps::new(&f).total_lines(), 0);
}

#[test]
fn failed_reload_ends_the_session() {
    let mut f = indexed(b"a\nb\n", 1024);
    f.fail_reload();
    assert_eq!(f.failure, Some(LogError::ReloadFailed));
    assert!(matches!(FileReadOps::new(&f).read_page(0, 1), Err(LogError::ReloadFailed)));
    assert_eq!(f.check_size(1), Err(LogError::ReloadFailed));
    assert_eq!(f.failure, Some(LogError::ReloadFailed));
}

#[test]
fn first_failure_is_kept() {
    let mut f = indexed(b"a\nb\n", 1024);
    assert_eq!(f.check_size(1), Err(LogError::FileChanged));
    f.fail_reload();
    assert_eq!(f.failure, Some(LogError::FileChanged));
    let shared = Arc::new(IndexedFile::new("s".to_string(), mapping(b"a\n")));
    let writer = FileWriteOps::new(Arc::clone(&shared));
    writer.fail_reload();
    assert!(matches!(shared.tail(1), Err(LogError::ReloadFailed)));
    assert_eq!(writer.index_max(10), Err(LogError::ReloadFailed));
}
