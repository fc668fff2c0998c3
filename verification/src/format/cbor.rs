//! The Concise Binary Object Representation as a format.

use crate::format::Format;
use vstd::prelude::*;

verus! {

/// A format that represents items as CBOR, the binary format of RFC 7049:
/// concise, and stable across compilers and releases, so that what was
/// written can be kept and read again later.
pub struct Cbor;

impl<T> Format<T> for Cbor {

}

} // verus!
