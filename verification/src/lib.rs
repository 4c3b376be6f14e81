//! The core of an interactive, terminal-resident data-inspection tool: a
//! navigation state machine over screens and modal popups, a filtered and
//! paginated query-construction layer for tabular files, and a recursive,
//! collapse-aware tree model for exploring JSON and GeoJSON documents.
//!
//! The library owns the logic and its proofs; a thin front end around it
//! draws the frames, reads the keys and performs the file-system and
//! query-engine work that each reducer step asks for through [`state::Effect`].

pub mod cli;
pub mod dirs;
pub mod engine;
pub mod files;
pub mod geo;
pub mod parse;
pub mod query;
pub mod state;
pub mod text;
pub mod tiles;
pub mod tree;

use vstd::prelude::*;

verus! {

/// Number of preview rows fetched per page of a tabular file.
pub const PAGE_SIZE: usize = 50;

/// Total number of pages needed to show `row_count` rows, `PAGE_SIZE` to a page.
pub open spec fn spec_total_pages(row_count: int) -> int {
    (row_count + PAGE_SIZE - 1) / (PAGE_SIZE as int)
}

/// Computes how many pages a row set of the given size occupies.
pub fn total_pages(row_count: usize) -> (r: usize)
    ensures
        r == spec_total_pages(row_count as int),
{
    if row_count == 0 {
        0
    } else {
        (row_count - 1) / PAGE_SIZE + 1
    }
}

} // verus!
