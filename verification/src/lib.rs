//! Remotely callable objects: a reflective description of an interface, the
//! adapter that answers calls by method index, the plan that turns an interface
//! declaration into such adapters, and the state machines that carry a value
//! across a channel.

use vstd::prelude::*;
use void::Void;

pub mod director;
pub mod format;
pub mod interface;
pub mod kind;
pub mod object;
pub mod option;
pub mod reflection;
pub mod shim;
pub mod text;
pub mod unit;

verus! {

/// `void::Void`, the error of what cannot fail. It has no values; nothing is
/// claimed of it beyond its being a type.
#[verifier::external_type_specification]
#[verifier::external_body]
pub struct ExVoid(Void);

/// The type of a payload that is never sent. A value of it would hold a
/// `Void`, so there is none.
pub enum Bottom {
    Never(Void),
}

/// What polling something outside found: its result, or that it has none yet.
#[derive(Debug, PartialEq, Eq)]
pub enum Poll<T> {
    Ready(T),
    Pending,
}

/// Why a nested value was not handed over: the context could not take it, or
/// the value's own protocol failed.
#[derive(Debug, PartialEq, Eq)]
pub enum ContextError<Context, Protocol> {
    Context(Context),
    Protocol(Protocol),
}

/// A context that addresses the channels it forks by handles.
pub trait Dispatch {
    type Handle;
}

} // verus!
