//! Static decorative header lines shown between the match list and the
//! status row.

use vstd::prelude::*;
use crate::event::Event;

verus! {

pub struct Header {
    pub lines: Vec<String>,
}

impl Header {
    pub fn empty() -> (r: Header)
        ensures
            r.lines@.len() == 0,
    {
        Header { lines: Vec::new() }
    }

    pub fn with_lines(lines: Vec<String>) -> (r: Header)
        ensures
            r.lines@ == lines@,
    {
        Header { lines }
    }

    pub fn is_empty(&self) -> (r: bool)
        ensures
            r == (self.lines@.len() == 0),
    {
        self.lines.len() == 0
    }

    /// The header is static: it claims no event.
    pub fn accept_event(&self, ev: &Event) -> (r: bool)
        ensures
            r == false,
    {
        let _ = ev;
        false
    }
}

} // verus!
