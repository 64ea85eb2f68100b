//! Outcome of feeding bytes to an incremental QPACK parser.
use vstd::prelude::*;

verus! {

/// Return type for parsing qpack stuff
#[derive(Debug)]
pub enum ParseProgressResult<T, E, R> {
    /// Error while parsing
    Error(E),
    /// Parsing is done
    Done(R),
    /// More data is needed to continue parsing
    MoreData(T),
}

} // verus!
