use vstd::prelude::*;

verus! {

/// Where a token stands in the source: its first character and its length.
#[derive(Clone, Copy, Debug)]
pub struct Span {
    pub start: usize,
    pub len: usize,
}

impl Span {
    pub fn new(start: usize, len: usize) -> (r: Span)
        ensures
            r.start == start,
            r.len == len,
    {
        Span { start, len }
    }
}

} // verus!
