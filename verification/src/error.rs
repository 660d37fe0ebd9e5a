use vstd::prelude::*;

verus! {

/// What can go wrong while a proof is made.
#[derive(Debug)]
pub enum Error {
    /// The arithmetic provider could not encode a group element that it had
    /// itself produced. This is a broken provider, not a bad input.
    SerializationError,
}

} // verus!
