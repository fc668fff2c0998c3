//! Values that have nothing to send: the unit, the empty array, and the
//! marker of a type. Sending one is over at once, and so is receiving one:
//! the channel is never touched.

use core::marker::PhantomData;
use void::Void;
use vstd::prelude::*;

verus! {

/// Sends `item`, of whatever type that has nothing to send: nothing is sent,
/// and nothing fails.
pub fn unravel<T>(item: T) -> (sent: Result<(), Void>)
    ensures
        sent == Ok::<(), Void>(()),
{
    Ok(())
}

/// Receives the unit.
pub fn coalesce() -> (received: Result<(), Void>)
    ensures
        received == Ok::<(), Void>(()),
{
    Ok(())
}

/// Receives the empty array.
pub fn coalesce_array<T>() -> (received: Result<[T; 0], Void>)
    ensures
        received is Ok,
        received->Ok_0@.len() == 0,
{
    Ok([])
}

/// Receives the marker of a type.
pub fn coalesce_phantom<T>() -> (received: Result<PhantomData<T>, Void>)
    ensures
        received == Ok::<PhantomData<T>, Void>(PhantomData),
{
    Ok(PhantomData)
}

} // verus!
