use vstd::prelude::*;

verus! {

/// Why an image could not be produced.
#[derive(Debug, Clone, Copy, PartialEq, Eq, Structural)]
pub enum LoadError {
    /// The input is missing, unreadable, or too short to inspect.
    Read,
    /// The container is malformed or the codec rejected its bytes.
    Decode,
    /// The sensor description is unusable: bad filter geometry, an empty
    /// normalisation range, or a white-balance factor that is not a number.
    Config,
}

} // verus!
