//! What the screen shows, as text: the detail panel, the header, the bars
//! and the tables. Drawing it is left to the terminal front end.

pub mod command;
pub mod detail;
pub mod header;
pub mod help;
pub mod tables;

use vstd::prelude::*;

verus! {

/// The row a table highlights: the selection, held to the last row; none
/// when the table is empty.
pub open spec fn selected_row_spec(selected: usize, len: usize) -> Option<usize> {
    if len == 0 {
        None
    } else if selected < len {
        Some(selected)
    } else {
        Some((len - 1) as usize)
    }
}

pub fn selected_row(selected: usize, len: usize) -> (r: Option<usize>)
    ensures
        r == selected_row_spec(selected, len),
{
    if len == 0 {
        None
    } else if selected < len {
        Some(selected)
    } else {
        Some(len - 1)
    }
}

} // verus!
