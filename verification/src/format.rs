//! Formats: how the items of a protocol are represented on a transport.

use vstd::prelude::*;

pub mod cbor;

verus! {

/// A format that knows how to represent values of type `T`.
pub trait Format<T> {

}

/// The format that represents every item by itself.
pub struct Null;

impl<T> Format<T> for Null {

}

impl Null {
    /// Puts the format on `transport`: the transport already carries the
    /// items themselves, and comes back as it is.
    pub fn wire<S>(self, transport: S) -> (output: S)
        ensures
            output == transport,
    {
        transport
    }
}

} // verus!
