use vstd::prelude::*;

verus! {

/// Why a decode step produced no value.
#[derive(Clone, Copy, Debug, PartialEq, Eq, Structural)]
pub enum FdtError {
    /// The data ended before the value was complete.
    Eof,
    /// A terminated string is not valid UTF-8.
    Utf8Parse,
}

pub type FdtResult<T> = Result<T, FdtError>;

} // verus!
