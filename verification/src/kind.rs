//! An instance of an interface on the wire: its adapter is made the target
//! of a fork of the channel, and the handle of that fork is all that is sent.
//! Whoever receives the handle binds a proxy to the fork, and each call of a
//! method on the proxy is a reflective call across it.
//!
//! Forking, sending, reading and binding wait on the channel, so sending and
//! receiving are state machines, as for an optional value. A failure of the
//! channel is fatal to whoever drives them and never reaches the machines.

use crate::Poll;
use crate::interface::{types_of, Value};
use crate::reflection::{MethodIndex, Receiver, Trait};
use vstd::pervasive::unreached;
use vstd::prelude::*;

verus! {

/// Sending an instance: first the channel is forked, then the handle is sent.
#[derive(Debug, Clone, Copy, PartialEq, Eq, Structural)]
pub enum Deconstruct {
    Fork,
    Send,
}

/// What was polled while sending, and what it gave.
#[derive(Debug, PartialEq, Eq)]
pub enum DeconstructEvent<H> {
    /// The forking of the channel with the adapter as its target.
    Fork(Poll<H>),
    /// The sending of the handle.
    Send(Poll<()>),
}

/// What to do next while sending.
#[derive(Debug, PartialEq, Eq)]
pub enum DeconstructStep<H> {
    /// Nothing yet: wait to be woken.
    Pending,
    /// Send this one handle, and poll that.
    Send(H),
    /// The instance is sent.
    Ready,
}

/// Receiving an instance: first the handle is read, then a proxy is bound to
/// the fork behind it.
#[derive(Debug, Clone, Copy, PartialEq, Eq, Structural)]
pub enum Construct {
    Next,
    Bind,
}

/// What was polled while receiving, and what it gave.
#[derive(Debug, PartialEq, Eq)]
pub enum ConstructEvent<H, P> {
    /// The next item of the channel.
    Next(Poll<H>),
    /// The binding of a proxy to the fork.
    Bind(Poll<P>),
}

/// What to do next while receiving.
#[derive(Debug, PartialEq, Eq)]
pub enum ConstructStep<H, P> {
    /// Nothing yet: wait to be woken.
    Pending,
    /// Bind a proxy to the fork behind this handle, and poll that.
    Bind(H),
    /// The instance is received: this proxy stands for it.
    Ready(P),
}

impl Deconstruct {
    /// Whether `event` is of what this state polls.
    pub open spec fn spec_accepts<H>(&self, event: &DeconstructEvent<H>) -> bool {
        match (*self, *event) {
            (Deconstruct::Fork, DeconstructEvent::Fork(_)) => true,
            (Deconstruct::Send, DeconstructEvent::Send(_)) => true,
            _ => false,
        }
    }

    /// The state after `event`, and what to do.
    pub open spec fn step<H>(self, event: DeconstructEvent<H>) -> (
        Deconstruct,
        DeconstructStep<H>,
    ) {
        match event {
            DeconstructEvent::Fork(Poll::Pending) => (self, DeconstructStep::Pending),
            DeconstructEvent::Fork(Poll::Ready(handle)) => (
                Deconstruct::Send,
                DeconstructStep::Send(handle),
            ),
            DeconstructEvent::Send(Poll::Pending) => (self, DeconstructStep::Pending),
            DeconstructEvent::Send(Poll::Ready(())) => (self, DeconstructStep::Ready),
        }
    }

    /// Whether each of `events` in turn is of what the state then polls.
    pub open spec fn admits<H>(self, events: Seq<DeconstructEvent<H>>) -> bool
        decreases events.len(),
    {
        events.len() == 0 || {
            &&& self.spec_accepts(&events[0])
            &&& self.step(events[0]).0.admits(events.skip(1))
        }
    }

    /// What the machine answers to each of `events` in turn.
    pub open spec fn steps<H>(self, events: Seq<DeconstructEvent<H>>) -> Seq<DeconstructStep<H>>
        decreases events.len(),
    {
        if events.len() == 0 {
            Seq::empty()
        } else {
            seq![self.step(events[0]).1] + self.step(events[0]).0.steps(events.skip(1))
        }
    }

    /// The machine that sends an instance for which forking has begun.
    pub fn new() -> (machine: Self)
        ensures
            machine == Deconstruct::Fork,
    {
        Deconstruct::Fork
    }

    /// Whether `event` is of what this state polls.
    #[verifier::when_used_as_spec(spec_accepts)]
    pub fn accepts<H>(&self, event: &DeconstructEvent<H>) -> (accepted: bool)
        ensures
            accepted == self.spec_accepts(event),
    {
        match (self, event) {
            (Deconstruct::Fork, DeconstructEvent::Fork(_)) => true,
            (Deconstruct::Send, DeconstructEvent::Send(_)) => true,
            _ => false,
        }
    }

    /// Takes what polling gave and answers what to do next: the handle of the
    /// fork is to be sent, and once it is sent the sending is over.
    pub fn poll<H>(&mut self, event: DeconstructEvent<H>) -> (step: DeconstructStep<H>)
        requires
            old(self).spec_accepts(&event),
        ensures
            (*final(self), step) == old(self).step(event),
    {
        match event {
            DeconstructEvent::Fork(Poll::Ready(handle)) => {
                *self = Deconstruct::Send;
                DeconstructStep::Send(handle)
            },
            DeconstructEvent::Send(Poll::Ready(())) => DeconstructStep::Ready,
            _ => DeconstructStep::Pending,
        }
    }
}

impl Construct {
    /// Whether `event` is of what this state polls.
    pub open spec fn spec_accepts<H, P>(&self, event: &ConstructEvent<H, P>) -> bool {
        match (*self, *event) {
            (Construct::Next, ConstructEvent::Next(_)) => true,
            (Construct::Bind, ConstructEvent::Bind(_)) => true,
            _ => false,
        }
    }

    /// The state after `event`, and what to do.
    pub open spec fn step<H, P>(self, event: ConstructEvent<H, P>) -> (
        Construct,
        ConstructStep<H, P>,
    ) {
        match event {
            ConstructEvent::Next(Poll::Pending) => (self, ConstructStep::Pending),
            ConstructEvent::Next(Poll::Ready(handle)) => (
                Construct::Bind,
                ConstructStep::Bind(handle),
            ),
            ConstructEvent::Bind(Poll::Pending) => (self, ConstructStep::Pending),
            ConstructEvent::Bind(Poll::Ready(proxy)) => (self, ConstructStep::Ready(proxy)),
        }
    }

    /// Whether each of `events` in turn is of what the state then polls.
    pub open spec fn admits<H, P>(self, events: Seq<ConstructEvent<H, P>>) -> bool
        decreases events.len(),
    {
        events.len() == 0 || {
            &&& self.spec_accepts(&events[0])
            &&& self.step(events[0]).0.admits(events.skip(1))
        }
    }

    /// What the machine answers to each of `events` in turn.
    pub open spec fn steps<H, P>(self, events: Seq<ConstructEvent<H, P>>) -> Seq<
        ConstructStep<H, P>,
    >
        decreases events.len(),
    {
        if events.len() == 0 {
            Seq::empty()
        } else {
            seq![self.step(events[0]).1] + self.step(events[0]).0.steps(events.skip(1))
        }
    }

    /// The machine that receives from a channel of which nothing was read.
    pub fn new() -> (machine: Self)
        ensures
            machine == Construct::Next,
    {
        Construct::Next
    }

    /// Whether `event` is of what this state polls.
    #[verifier::when_used_as_spec(spec_accepts)]
    pub fn accepts<H, P>(&self, event: &ConstructEvent<H, P>) -> (accepted: bool)
        ensures
            accepted == self.spec_accepts(event),
    {
        match (self, event) {
            (Construct::Next, ConstructEvent::Next(_)) => true,
            (Construct::Bind, ConstructEvent::Bind(_)) => true,
            _ => false,
        }
    }

    /// Takes what polling gave and answers what to do next: a proxy is to be
    /// bound to the fork behind the handle that was read, and once it is
    /// bound the receiving is over.
    pub fn poll<H, P>(&mut self, event: ConstructEvent<H, P>) -> (step: ConstructStep<H, P>)
        requires
            old(self).spec_accepts(&event),
        ensures
            (*final(self), step) == old(self).step(event),
    {
        match event {
            ConstructEvent::Next(Poll::Ready(handle)) => {
                *self = Construct::Bind;
                ConstructStep::Bind(handle)
            },
            ConstructEvent::Bind(Poll::Ready(proxy)) => ConstructStep::Ready(proxy),
            _ => ConstructStep::Pending,
        }
    }
}

/// The handles that `steps` ask to send, in order.
pub open spec fn sent<H>(steps: Seq<DeconstructStep<H>>) -> Seq<H>
    decreases steps.len(),
{
    if steps.len() == 0 {
        Seq::empty()
    } else {
        match steps[0] {
            DeconstructStep::Send(handle) => seq![handle] + sent(steps.skip(1)),
            _ => sent(steps.skip(1)),
        }
    }
}

/// The handles to whose forks `steps` ask to bind a proxy, in order.
pub open spec fn bound<H, P>(steps: Seq<ConstructStep<H, P>>) -> Seq<H>
    decreases steps.len(),
{
    if steps.len() == 0 {
        Seq::empty()
    } else {
        match steps[0] {
            ConstructStep::Bind(handle) => seq![handle] + bound(steps.skip(1)),
            _ => bound(steps.skip(1)),
        }
    }
}

/// How many of `events` are an item of the channel.
pub open spec fn items_read<H, P>(events: Seq<ConstructEvent<H, P>>) -> nat
    decreases events.len(),
{
    if events.len() == 0 {
        0
    } else {
        match events[0] {
            ConstructEvent::Next(Poll::Ready(_)) => 1 + items_read(events.skip(1)),
            _ => items_read(events.skip(1)),
        }
    }
}

proof fn lemma_deconstruct_trace<H>(state: Deconstruct, events: Seq<DeconstructEvent<H>>)
    requires
        state.admits(events),
    ensures
        state.steps(events).len() == events.len(),
        sent(state.steps(events)).len() <= 1,
        state == Deconstruct::Send ==> sent(state.steps(events)).len() == 0,
        state == Deconstruct::Fork && events.len() > 0 && state.steps(events).last()
            == DeconstructStep::<H>::Ready ==> exists|position: int|
            0 <= position < events.len() - 1 && #[trigger] events[position]
                == DeconstructEvent::Fork(Poll::Ready(sent(state.steps(events))[0])) && sent(
                state.steps(events),
            ).len() == 1,
    decreases events.len(),
{
    if events.len() > 0 {
        let (next, first) = state.step(events[0]);
        let rest = events.skip(1);
        let steps = state.steps(events);
        lemma_deconstruct_trace(next, rest);
        assert(steps.skip(1) =~= next.steps(rest));
        assert(steps[0] == first);
        if state == Deconstruct::Fork && steps.last() == DeconstructStep::<H>::Ready {
            if next == Deconstruct::Send {
                assert(sent(steps) =~= seq![events[0]->Fork_0->Ready_0]);
                assert(events[0] == DeconstructEvent::Fork(Poll::Ready(sent(steps)[0])));
            } else {
                assert(rest.len() > 0);
                assert(next.steps(rest).last() == steps.last());
                let position = choose|position: int|
                    0 <= position < rest.len() - 1 && #[trigger] rest[position]
                        == DeconstructEvent::Fork(Poll::Ready(sent(next.steps(rest))[0])) && sent(
                        next.steps(rest),
                    ).len() == 1;
                assert(events[position + 1] == rest[position]);
            }
        }
    }
}

/// Where the sending of an instance comes to its end, it has asked for
/// exactly one handle to be sent, the one that forking gave, and nothing else.
pub proof fn lemma_deconstruct_sends_one<H>(events: Seq<DeconstructEvent<H>>)
    requires
        Deconstruct::Fork.admits(events),
        events.len() > 0,
        Deconstruct::Fork.steps(events).last() == DeconstructStep::<H>::Ready,
    ensures
        sent(Deconstruct::Fork.steps(events)).len() == 1,
        exists|position: int|
            0 <= position < events.len() - 1 && #[trigger] events[position]
                == DeconstructEvent::Fork(
                Poll::Ready(sent(Deconstruct::Fork.steps(events))[0]),
            ),
{
    lemma_deconstruct_trace(Deconstruct::Fork, events);
}

/// However the polls fall out, the sending of an instance never asks for a
/// second handle to be sent.
pub proof fn lemma_deconstruct_sends_at_most_once<H>(
    state: Deconstruct,
    events: Seq<DeconstructEvent<H>>,
)
    requires
        state.admits(events),
    ensures
        sent(state.steps(events)).len() <= 1,
{
    lemma_deconstruct_trace(state, events);
}

proof fn lemma_construct_trace<H, P>(state: Construct, events: Seq<ConstructEvent<H, P>>)
    requires
        state.admits(events),
    ensures
        state.steps(events).len() == events.len(),
        items_read(events) == bound(state.steps(events)).len(),
        items_read(events) <= 1,
        state == Construct::Bind ==> items_read(events) == 0,
        forall|proxy: P|
            state == Construct::Next && events.len() > 0 && #[trigger] state.steps(events).last()
                == ConstructStep::<H, P>::Ready(proxy) ==> {
                &&& items_read(events) == 1
                &&& exists|position: int|
                    0 <= position < events.len() - 1 && #[trigger] events[position]
                        == ConstructEvent::<H, P>::Next(
                        Poll::Ready(bound(state.steps(events))[0]),
                    )
            },
    decreases events.len(),
{
    if events.len() > 0 {
        let (next, first) = state.step(events[0]);
        let rest = events.skip(1);
        let steps = state.steps(events);
        lemma_construct_trace(next, rest);
        assert(steps.skip(1) =~= next.steps(rest));
        assert(steps[0] == first);
        if state == Construct::Next {
            assert forall|proxy: P|
                events.len() > 0 && #[trigger] state.steps(events).last() == ConstructStep::<
                    H,
                    P,
                >::Ready(proxy) implies {
                &&& items_read(events) == 1
                &&& exists|position: int|
                    0 <= position < events.len() - 1 && #[trigger] events[position]
                        == ConstructEvent::<H, P>::Next(
                        Poll::Ready(bound(state.steps(events))[0]),
                    )
            } by {
                if next == Construct::Bind {
                    assert(bound(steps) =~= seq![events[0]->Next_0->Ready_0]);
                    assert(events[0] == ConstructEvent::<H, P>::Next(Poll::Ready(bound(steps)[0])));
                } else {
                    assert(rest.len() > 0);
                    assert(next.steps(rest).last() == steps.last());
                    let position = choose|position: int|
                        0 <= position < rest.len() - 1 && #[trigger] rest[position]
                            == ConstructEvent::<H, P>::Next(
                            Poll::Ready(bound(next.steps(rest))[0]),
                        );
                    assert(events[position + 1] == rest[position]);
                }
            }
        }
    }
}

/// However the polls fall out, receiving an instance reads at most one
/// item of the channel, and asks for a proxy to be bound for each item read.
pub proof fn lemma_construct_reads_at_most_once<H, P>(
    state: Construct,
    events: Seq<ConstructEvent<H, P>>,
)
    requires
        state.admits(events),
    ensures
        items_read(events) <= 1,
        bound(state.steps(events)).len() == items_read(events),
{
    lemma_construct_trace(state, events);
}

/// Where the receiving of an instance comes to its end, exactly one handle
/// was read, and the proxy was asked to be bound to the fork behind that
/// handle and to no other.
pub proof fn lemma_construct_reads_one<H, P>(events: Seq<ConstructEvent<H, P>>, proxy: P)
    requires
        Construct::Next.admits(events),
        events.len() > 0,
        Construct::Next.steps(events).last() == ConstructStep::<H, P>::Ready(proxy),
    ensures
        items_read(events) == 1,
        bound(Construct::Next.steps(events)).len() == 1,
        exists|position: int|
            0 <= position < events.len() - 1 && #[trigger] events[position] == ConstructEvent::<
                H,
                P,
            >::Next(Poll::Ready(bound(Construct::Next.steps(events))[0])),
{
    lemma_construct_trace(Construct::Next, events);
}

/// A call of the method at `index` on a proxy: the reflective call of it on
/// what the proxy stands for, through the entry point for shared instances.
/// The caller answers for the call being in order, and has what the method
/// returned.
pub fn invoke<T, X: Trait<T>>(target: &X, index: MethodIndex, arguments: Vec<Value<T>>) -> (output:
    Value<T>)
    requires
        target.reflects().verdict(Receiver::Immutable, index, types_of(arguments@)) is Ok,
    ensures
        target.produces(index, arguments, output),
{
    match target.call(index, arguments) {
        Ok(output) => output,
        Err(_) => unreached(),
    }
}

/// A call of the method at `index` on a proxy, through the entry point for
/// exclusive instances.
pub fn invoke_mut<T, X: Trait<T>>(
    target: &mut X,
    index: MethodIndex,
    arguments: Vec<Value<T>>,
) -> (output: Value<T>)
    requires
        old(target).reflects().verdict(Receiver::Mutable, index, types_of(arguments@)) is Ok,
    ensures
        old(target).produces(index, arguments, output),
        final(target).reflects() == old(target).reflects(),
{
    match target.call_mut(index, arguments) {
        Ok(output) => output,
        Err(_) => unreached(),
    }
}

/// A call of the method at `index` on a proxy, which the call consumes.
pub fn invoke_move<T, X: Trait<T>>(
    target: X,
    index: MethodIndex,
    arguments: Vec<Value<T>>,
) -> (output: Value<T>)
    requires
        target.reflects().verdict(Receiver::Owned, index, types_of(arguments@)) is Ok,
    ensures
        target.produces(index, arguments, output),
{
    match target.call_move(index, arguments) {
        Ok(output) => output,
        Err(_) => unreached(),
    }
}

} // verus!
