//! The request and response shapes that front ends exchange with the engine.

use vstd::prelude::*;

verus! {

/// Asks to open the file at `path` on the serving machine.
#[derive(Clone, Debug, PartialEq, Eq)]
pub struct OpenServerFileRequest {
    pub path: String,
}

/// The identifier under which an opened file can be queried.
#[derive(Clone, Debug, PartialEq, Eq)]
pub struct OpenServerFileResponse {
    pub file_id: String,
}

/// Asks for a page of at most `max_lines` lines from `start_line`.
#[derive(Clone, Debug, PartialEq, Eq)]
pub struct ReadPageRequest {
    pub file_id: String,
    pub start_line: usize,
    pub max_lines: usize,
}

/// Asks for the last `max_lines` lines, after a reload when `follow` is set.
#[derive(Clone, Debug, PartialEq, Eq)]
pub struct TailRequest {
    pub file_id: String,
    pub max_lines: usize,
    pub follow: bool,
}

/// The port a server listens on.
#[derive(Clone, Copy, Debug, PartialEq, Eq, Structural)]
pub struct Port(pub u16);

} // verus!
