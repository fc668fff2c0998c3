//! Directors: what binds a protocol and a format to a transport.

use vstd::prelude::*;

pub mod null;
pub mod trivial;

verus! {

/// Why a value did not cross a transport: the director failed, or the
/// value's protocol did.
#[derive(Debug, PartialEq, Eq)]
pub enum DirectorError<Director, Protocol> {
    Director(Director),
    Protocol(Protocol),
}

} // verus!
