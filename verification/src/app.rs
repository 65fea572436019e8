//! Application-level state: which window has focus, the active filter,
//! the status messages, and the sequential match navigation.

pub mod filter_state;
pub mod messages_state;
pub mod navigation_state;

use vstd::prelude::*;

verus! {

/// Which part of the screen takes key input.
#[derive(Debug, PartialEq, Eq, Structural, Clone, Copy)]
pub enum FocusedWindow {
    EventList,
    QueryEditor,
}

impl FocusedWindow {
    pub fn is_event_list(&self) -> (r: bool)
        ensures
            r == (*self == FocusedWindow::EventList),
    {
        match self {
            FocusedWindow::EventList => true,
            _ => false,
        }
    }

    pub fn is_filter_list(&self) -> (r: bool)
        ensures
            r == (*self == FocusedWindow::QueryEditor),
    {
        match self {
            FocusedWindow::QueryEditor => true,
            _ => false,
        }
    }
}

} // verus!
