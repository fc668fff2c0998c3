//! The director that takes a transport as the channel of the protocol, as it
//! is: nothing is forked, so a nested value can only be one that sends nothing.

use core::marker::PhantomData;
use crate::director::DirectorError;
use crate::{ContextError, Dispatch};
use void::Void;
use vstd::prelude::*;

verus! {

/// The context of a channel that is a transport of items `T` one way and `U`
/// the other.
pub struct Context<T, U>(PhantomData<(T, U)>);

impl<T, U> Dispatch for Context<T, U> {
    type Handle = ();
}

impl<T, U> Context<T, U> {
    /// The context of a channel that is a transport.
    pub fn new() -> (context: Self) {
        Context(PhantomData)
    }

    /// The end of joining a nested value: what its protocol made of an empty
    /// channel, with a failure marked as the protocol's own. The context
    /// itself never fails.
    pub fn join<P, E>(&mut self, handle: (), coalesced: Result<P, E>) -> (joined: Result<
        P,
        ContextError<Void, E>,
    >)
        ensures
            *final(self) == *old(self),
            joined == match coalesced {
                Ok(value) => Ok::<P, ContextError<Void, E>>(value),
                Err(error) => Err::<P, ContextError<Void, E>>(ContextError::Protocol(error)),
            },
    {
        match coalesced {
            Ok(value) => Ok(value),
            Err(error) => Err(ContextError::Protocol(error)),
        }
    }

    /// The end of spawning a nested value: what its protocol made of an
    /// empty channel, with a failure marked as the protocol's own. The
    /// context itself never fails.
    pub fn spawn<E>(&mut self, unraveled: Result<(), E>) -> (spawned: Result<
        (),
        ContextError<Void, E>,
    >)
        ensures
            *final(self) == *old(self),
            spawned == match unraveled {
                Ok(()) => Ok::<(), ContextError<Void, E>>(()),
                Err(error) => Err::<(), ContextError<Void, E>>(ContextError::Protocol(error)),
            },
    {
        match unraveled {
            Ok(()) => Ok(()),
            Err(error) => Err(ContextError::Protocol(error)),
        }
    }
}

/// The director that binds a protocol to a transport of its own items.
pub struct Trivial;

impl Trivial {
    /// The end of sending: what the protocol made of the transport, with a
    /// failure marked as the protocol's own. The director itself never fails.
    pub fn unravel<E>(self, unraveled: Result<(), E>) -> (sent: Result<(), DirectorError<Void, E>>)
        ensures
            sent == match unraveled {
                Ok(()) => Ok::<(), DirectorError<Void, E>>(()),
                Err(error) => Err::<(), DirectorError<Void, E>>(DirectorError::Protocol(error)),
            },
    {
        match unraveled {
            Ok(()) => Ok(()),
            Err(error) => Err(DirectorError::Protocol(error)),
        }
    }

    /// The end of receiving: what the protocol made of the transport, with a
    /// failure marked as the protocol's own. The director itself never fails.
    pub fn coalesce<P, E>(self, coalesced: Result<P, E>) -> (received: Result<
        P,
        DirectorError<Void, E>,
    >)
        ensures
            received == match coalesced {
                Ok(value) => Ok::<P, DirectorError<Void, E>>(value),
                Err(error) => Err::<P, DirectorError<Void, E>>(DirectorError::Protocol(error)),
            },
    {
        match coalesced {
            Ok(value) => Ok(value),
            Err(error) => Err(DirectorError::Protocol(error)),
        }
    }
}

} // verus!
