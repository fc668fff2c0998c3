//! The director of protocols that send nothing: their channel takes no item
//! and gives none.

use crate::director::DirectorError;
use crate::{Bottom, ContextError, Dispatch, Poll};
use void::Void;
use vstd::prelude::*;

verus! {

/// The context of a channel on which nothing is sent.
#[derive(Debug, PartialEq, Eq)]
pub struct Context;

/// A channel on which nothing is sent.
pub struct Empty(Context);

impl Empty {
    /// The context that the channel gives access to.
    pub closed spec fn context(&self) -> Context {
        self.0
    }

    /// A channel on which nothing is sent, with its context.
    pub fn new() -> (channel: Self)
        ensures
            channel.context() == Context,
    {
        Empty(Context)
    }

    /// The channel is always ready to take an item.
    pub fn poll_ready(&mut self) -> (ready: Poll<Result<(), Void>>)
        ensures
            ready == Poll::Ready(Ok::<(), Void>(())),
            *final(self) == *old(self),
    {
        Poll::Ready(Ok(()))
    }

    /// Takes an item to send. There is no item to take: one would hold the
    /// cause of a failure that cannot happen, and that is what comes back.
    pub fn start_send(&mut self, item: Bottom) -> (sent: Result<(), Void>)
        ensures
            sent == Err::<(), Void>(item->Never_0),
            *final(self) == *old(self),
    {
        match item {
            Bottom::Never(never) => Err(never),
        }
    }

    /// Nothing is ever left to flush.
    pub fn poll_flush(&mut self) -> (flushed: Poll<Result<(), Void>>)
        ensures
            flushed == Poll::Ready(Ok::<(), Void>(())),
            *final(self) == *old(self),
    {
        Poll::Ready(Ok(()))
    }

    /// The channel closes at once.
    pub fn poll_close(&mut self) -> (closed: Poll<Result<(), Void>>)
        ensures
            closed == Poll::Ready(Ok::<(), Void>(())),
            *final(self) == *old(self),
    {
        Poll::Ready(Ok(()))
    }

    /// The channel is at its end from the start.
    pub fn poll_next(&mut self) -> (next: Poll<Option<Result<Bottom, Void>>>)
        ensures
            next == Poll::Ready(None::<Result<Bottom, Void>>),
            *final(self) == *old(self),
    {
        Poll::Ready(None)
    }

    /// The context of the channel.
    pub fn deref(&self) -> (context: &Context)
        ensures
            *context == self.context(),
    {
        &self.0
    }
}

impl Dispatch for Context {
    type Handle = ();
}

impl Context {
    /// The end of joining a nested value: what its protocol made of an empty
    /// channel, with a failure marked as the protocol's own. The context
    /// itself never fails.
    pub fn join<P, E>(&mut self, handle: (), coalesced: Result<P, E>) -> (joined: Result<
        P,
        ContextError<Void, E>,
    >)
        ensures
            *final(self) == *old(self),
            joined == match coalesced {
                Ok(value) => Ok::<P, ContextError<Void, E>>(value),
                Err(error) => Err::<P, ContextError<Void, E>>(ContextError::Protocol(error)),
            },
    {
        match coalesced {
            Ok(value) => Ok(value),
            Err(error) => Err(ContextError::Protocol(error)),
        }
    }

    /// The end of spawning a nested value: what its protocol made of an
    /// empty channel, with a failure marked as the protocol's own. The
    /// context itself never fails.
    pub fn spawn<E>(&mut self, unraveled: Result<(), E>) -> (spawned: Result<
        (),
        ContextError<Void, E>,
    >)
        ensures
            *final(self) == *old(self),
            spawned == match unraveled {
                Ok(()) => Ok::<(), ContextError<Void, E>>(()),
                Err(error) => Err::<(), ContextError<Void, E>>(ContextError::Protocol(error)),
            },
    {
        match unraveled {
            Ok(()) => Ok(()),
            Err(error) => Err(ContextError::Protocol(error)),
        }
    }
}

/// The director that binds a protocol to no transport at all.
pub struct Null;

impl Null {
    /// The end of sending: what the protocol made of an empty channel, with a
    /// failure marked as the protocol's own. The director itself never fails.
    pub fn unravel<E>(self, unraveled: Result<(), E>) -> (sent: Result<(), DirectorError<Void, E>>)
        ensures
            sent == match unraveled {
                Ok(()) => Ok::<(), DirectorError<Void, E>>(()),
                Err(error) => Err::<(), DirectorError<Void, E>>(DirectorError::Protocol(error)),
            },
    {
        match unraveled {
            Ok(()) => Ok(()),
            Err(error) => Err(DirectorError::Protocol(error)),
        }
    }

    /// The end of receiving: what the protocol made of an empty channel, with
    /// a failure marked as the protocol's own. The director itself never fails.
    pub fn coalesce<P, E>(self, coalesced: Result<P, E>) -> (received: Result<
        P,
        DirectorError<Void, E>,
    >)
        ensures
            received == match coalesced {
                Ok(value) => Ok::<P, DirectorError<Void, E>>(value),
                Err(error) => Err::<P, DirectorError<Void, E>>(DirectorError::Protocol(error)),
            },
    {
        match coalesced {
            Ok(value) => Ok(value),
            Err(error) => Err(DirectorError::Protocol(error)),
        }
    }
}

} // verus!
