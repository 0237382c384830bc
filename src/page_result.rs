//! What a page query hands back.

use crate::log_file::Progress;
use vstd::prelude::*;

verus! {

/// The texts of a run of lines, as character sequences.
pub open spec fn lines_view(lines: Seq<String>) -> Seq<Seq<char>> {
    lines.map_values(|s: String| s@)
}

/// A window of lines, where it starts, and how far the index had got.
pub struct PageResult {
    pub lines: Vec<String>,
    pub start_line: usize,
    pub total_lines: usize,
    pub indexing_progress: Progress,
}

/// Two pages are the same for redrawing purposes when they start at the same
/// line of a file with the same number of lines; their texts do not count.
impl PartialEq for PageResult {
    fn eq(&self, other: &Self) -> (r: bool)
        ensures
            r == (self.start_line == other.start_line && self.total_lines == other.total_lines),
    {
        self.start_line == other.start_line && self.total_lines == other.total_lines
    }
}

impl vstd::std_specs::cmp::PartialEqSpecImpl for PageResult {
    open spec fn obeys_eq_spec() -> bool {
        true
    }

    open spec fn eq_spec(&self, other: &PageResult) -> bool {
        self.start_line == other.start_line && self.total_lines == other.total_lines
    }
}

impl Eq for PageResult {

}

/// A summary of an open file, without line contents.
pub struct FileInfo {
    pub path: String,
    pub total_lines: usize,
    pub indexing_progress: Progress,
}

} // verus!
