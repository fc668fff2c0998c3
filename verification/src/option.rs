//! An optional value on the wire: nothing for `None`, and for `Some` the one
//! handle of the nested value.
//!
//! Sending and receiving wait on the channel and on the context, so each is a
//! state machine: whoever holds the channel polls what the state names, hands
//! the machine what it found, and does what the machine answers.

use crate::Poll;
use vstd::prelude::*;

verus! {

/// Why an optional value did not cross: the nested value was not handed over,
/// or the channel failed.
#[derive(Debug, PartialEq, Eq)]
pub enum Error<Unravel, Channel> {
    Unravel(Unravel),
    Channel(Channel),
}

/// Sending `Some`: first the nested value is spawned, then its handle is sent.
#[derive(Debug, Clone, Copy, PartialEq, Eq, Structural)]
pub enum Unravel {
    Spawn,
    Send,
}

/// What was polled while sending, and what it gave.
#[derive(Debug, PartialEq, Eq)]
pub enum UnravelEvent<H, U, C> {
    /// The spawning of the nested value.
    Spawn(Poll<Result<H, U>>),
    /// The sending of the handle and the closing of the channel.
    Send(Poll<Result<(), C>>),
}

/// What to do next while sending.
#[derive(Debug, PartialEq, Eq)]
pub enum UnravelStep<H, U, C> {
    /// Nothing yet: wait to be woken.
    Pending,
    /// Send this one handle, close the channel, and poll that.
    Send(H),
    /// Sending is over, with this result.
    Ready(Result<(), Error<U, C>>),
}

/// Receiving: first the next item of the channel is read, then the nested
/// value behind its handle is joined.
#[derive(Debug, Clone, Copy, PartialEq, Eq, Structural)]
pub enum Coalesce {
    Next,
    Join,
}

/// What was polled while receiving, and what it gave.
#[derive(Debug, PartialEq, Eq)]
pub enum CoalesceEvent<H, T, J, C> {
    /// The next item of the channel, or its end.
    Next(Poll<Option<Result<H, C>>>),
    /// The joining of the nested value.
    Join(Poll<Result<T, J>>),
}

/// What to do next while receiving.
#[derive(Debug, PartialEq, Eq)]
pub enum CoalesceStep<H, T, J, C> {
    /// Nothing yet: wait to be woken.
    Pending,
    /// Join the nested value behind this handle, and poll that.
    Join(H),
    /// Receiving is over, with this result.
    Ready(Result<Option<T>, Error<J, C>>),
}

impl Unravel {
    /// Whether `event` is of what this state polls.
    pub open spec fn spec_accepts<H, U, C>(&self, event: &UnravelEvent<H, U, C>) -> bool {
        match (*self, *event) {
            (Unravel::Spawn, UnravelEvent::Spawn(_)) => true,
            (Unravel::Send, UnravelEvent::Send(_)) => true,
            _ => false,
        }
    }

    /// The state after `event`, and what to do.
    pub open spec fn step<H, U, C>(self, event: UnravelEvent<H, U, C>) -> (
        Unravel,
        UnravelStep<H, U, C>,
    ) {
        match event {
            UnravelEvent::Spawn(Poll::Pending) => (self, UnravelStep::Pending),
            UnravelEvent::Spawn(Poll::Ready(Ok(handle))) => (
                Unravel::Send,
                UnravelStep::Send(handle),
            ),
            UnravelEvent::Spawn(Poll::Ready(Err(error))) => (
                self,
                UnravelStep::Ready(Err(Error::Unravel(error))),
            ),
            UnravelEvent::Send(Poll::Pending) => (self, UnravelStep::Pending),
            UnravelEvent::Send(Poll::Ready(Ok(()))) => (self, UnravelStep::Ready(Ok(()))),
            UnravelEvent::Send(Poll::Ready(Err(error))) => (
                self,
                UnravelStep::Ready(Err(Error::Channel(error))),
            ),
        }
    }

    /// Whether each of `events` in turn is of what the state then polls.
    pub open spec fn admits<H, U, C>(self, events: Seq<UnravelEvent<H, U, C>>) -> bool
        decreases events.len(),
    {
        events.len() == 0 || {
            &&& self.spec_accepts(&events[0])
            &&& self.step(events[0]).0.admits(events.skip(1))
        }
    }

    /// What the machine answers to each of `events` in turn.
    pub open spec fn steps<H, U, C>(self, events: Seq<UnravelEvent<H, U, C>>) -> Seq<
        UnravelStep<H, U, C>,
    >
        decreases events.len(),
    {
        if events.len() == 0 {
            Seq::empty()
        } else {
            seq![self.step(events[0]).1] + self.step(events[0]).0.steps(events.skip(1))
        }
    }

    /// The machine that sends a nested value whose spawning has begun.
    pub fn new() -> (machine: Self)
        ensures
            machine == Unravel::Spawn,
    {
        Unravel::Spawn
    }

    /// Whether `event` is of what this state polls.
    #[verifier::when_used_as_spec(spec_accepts)]
    pub fn accepts<H, U, C>(&self, event: &UnravelEvent<H, U, C>) -> (accepted: bool)
        ensures
            accepted == self.spec_accepts(event),
    {
        match (self, event) {
            (Unravel::Spawn, UnravelEvent::Spawn(_)) => true,
            (Unravel::Send, UnravelEvent::Send(_)) => true,
            _ => false,
        }
    }

    /// Takes what polling gave and answers what to do next.
    ///
    /// While spawning: a handle moves the machine on to sending it, and a
    /// failure ends the sending with that failure as the cause. While sending:
    /// the channel's result ends it. Nothing yet leaves the machine where it is.
    pub fn poll<H, U, C>(&mut self, event: UnravelEvent<H, U, C>) -> (step: UnravelStep<H, U, C>)
        requires
            old(self).spec_accepts(&event),
        ensures
            (*final(self), step) == old(self).step(event),
    {
        match event {
            UnravelEvent::Spawn(outcome) => {
                let handle = match outcome {
                    Poll::Ready(handle) => handle,
                    Poll::Pending => {
                        return UnravelStep::Pending;
                    },
                };
                let handle = match handle {
                    Ok(handle) => handle,
                    Err(error) => {
                        return UnravelStep::Ready(Err(Error::Unravel(error)));
                    },
                };
                *self = Unravel::Send;
                UnravelStep::Send(handle)
            },
            UnravelEvent::Send(outcome) => {
                match outcome {
                    Poll::Ready(Ok(())) => UnravelStep::Ready(Ok(())),
                    Poll::Ready(Err(error)) => UnravelStep::Ready(Err(Error::Channel(error))),
                    Poll::Pending => UnravelStep::Pending,
                }
            },
        }
    }
}

impl Coalesce {
    /// Whether `event` is of what this state polls.
    pub open spec fn spec_accepts<H, T, J, C>(&self, event: &CoalesceEvent<H, T, J, C>) -> bool {
        match (*self, *event) {
            (Coalesce::Next, CoalesceEvent::Next(_)) => true,
            (Coalesce::Join, CoalesceEvent::Join(_)) => true,
            _ => false,
        }
    }

    /// The state after `event`, and what to do.
    pub open spec fn step<H, T, J, C>(self, event: CoalesceEvent<H, T, J, C>) -> (
        Coalesce,
        CoalesceStep<H, T, J, C>,
    ) {
        match event {
            CoalesceEvent::Next(Poll::Pending) => (self, CoalesceStep::Pending),
            CoalesceEvent::Next(Poll::Ready(None)) => (self, CoalesceStep::Ready(Ok(None))),
            CoalesceEvent::Next(Poll::Ready(Some(Err(error)))) => (
                self,
                CoalesceStep::Ready(Err(Error::Channel(error))),
            ),
            CoalesceEvent::Next(Poll::Ready(Some(Ok(handle)))) => (
                Coalesce::Join,
                CoalesceStep::Join(handle),
            ),
            CoalesceEvent::Join(Poll::Pending) => (self, CoalesceStep::Pending),
            CoalesceEvent::Join(Poll::Ready(Ok(value))) => (
                self,
                CoalesceStep::Ready(Ok(Some(value))),
            ),
            CoalesceEvent::Join(Poll::Ready(Err(error))) => (
                self,
                CoalesceStep::Ready(Err(Error::Unravel(error))),
            ),
        }
    }

    /// Whether each of `events` in turn is of what the state then polls.
    pub open spec fn admits<H, T, J, C>(self, events: Seq<CoalesceEvent<H, T, J, C>>) -> bool
        decreases events.len(),
    {
        events.len() == 0 || {
            &&& self.spec_accepts(&events[0])
            &&& self.step(events[0]).0.admits(events.skip(1))
        }
    }

    /// What the machine answers to each of `events` in turn.
    pub open spec fn steps<H, T, J, C>(self, events: Seq<CoalesceEvent<H, T, J, C>>) -> Seq<
        CoalesceStep<H, T, J, C>,
    >
        decreases events.len(),
    {
        if events.len() == 0 {
            Seq::empty()
        } else {
            seq![self.step(events[0]).1] + self.step(events[0]).0.steps(events.skip(1))
        }
    }

    /// The machine that receives from a channel of which nothing was read.
    pub fn new() -> (machine: Self)
        ensures
            machine == Coalesce::Next,
    {
        Coalesce::Next
    }

    /// Whether `event` is of what this state polls.
    #[verifier::when_used_as_spec(spec_accepts)]
    pub fn accepts<H, T, J, C>(&self, event: &CoalesceEvent<H, T, J, C>) -> (accepted: bool)
        ensures
            accepted == self.spec_accepts(event),
    {
        match (self, event) {
            (Coalesce::Next, CoalesceEvent::Next(_)) => true,
            (Coalesce::Join, CoalesceEvent::Join(_)) => true,
            _ => false,
        }
    }

    /// Takes what polling gave and answers what to do next.
    ///
    /// While reading: the end of the channel ends the receiving with `None`, a
    /// failure of the channel ends it with that failure, and a handle moves the
    /// machine on to joining what is behind it. While joining: the value ends
    /// the receiving with `Some`, a failure with that failure as the cause.
    /// Nothing yet leaves the machine where it is.
    pub fn poll<H, T, J, C>(&mut self, event: CoalesceEvent<H, T, J, C>) -> (step: CoalesceStep<
        H,
        T,
        J,
        C,
    >)
        requires
            old(self).spec_accepts(&event),
        ensures
            (*final(self), step) == old(self).step(event),
    {
        match event {
            CoalesceEvent::Next(outcome) => {
                let handle = match outcome {
                    Poll::Ready(handle) => handle,
                    Poll::Pending => {
                        return CoalesceStep::Pending;
                    },
                };
                let handle = match handle {
                    Some(handle) => handle,
                    None => {
                        return CoalesceStep::Ready(Ok(None));
                    },
                };
                match handle {
                    Ok(handle) => {
                        *self = Coalesce::Join;
                        CoalesceStep::Join(handle)
                    },
                    Err(error) => CoalesceStep::Ready(Err(Error::Channel(error))),
                }
            },
            CoalesceEvent::Join(outcome) => {
                match outcome {
                    Poll::Ready(Ok(value)) => CoalesceStep::Ready(Ok(Some(value))),
                    Poll::Ready(Err(error)) => CoalesceStep::Ready(Err(Error::Unravel(error))),
                    Poll::Pending => CoalesceStep::Pending,
                }
            },
        }
    }
}

/// Begins to send an optional value: for `Some`, the machine and the nested
/// value to spawn; for `None`, nothing, and the sending is over at once,
/// without a failure and with nothing sent.
pub fn unravel<T>(item: Option<T>) -> (begun: Option<(Unravel, T)>)
    ensures
        begun == match item {
            Some(item) => Some((Unravel::Spawn, item)),
            None => None,
        },
{
    if let Some(item) = item {
        Some((Unravel::new(), item))
    } else {
        None
    }
}

/// Begins to receive an optional value.
pub fn coalesce() -> (machine: Coalesce)
    ensures
        machine == Coalesce::Next,
{
    Coalesce::new()
}


/// The handles that `steps` ask to send, in order.
pub open spec fn sent<H, U, C>(steps: Seq<UnravelStep<H, U, C>>) -> Seq<H>
    decreases steps.len(),
{
    if steps.len() == 0 {
        Seq::empty()
    } else {
        match steps[0] {
            UnravelStep::Send(handle) => seq![handle] + sent(steps.skip(1)),
            _ => sent(steps.skip(1)),
        }
    }
}

/// The handles that `steps` ask to join, in order.
pub open spec fn joined<H, T, J, C>(steps: Seq<CoalesceStep<H, T, J, C>>) -> Seq<H>
    decreases steps.len(),
{
    if steps.len() == 0 {
        Seq::empty()
    } else {
        match steps[0] {
            CoalesceStep::Join(handle) => seq![handle] + joined(steps.skip(1)),
            _ => joined(steps.skip(1)),
        }
    }
}

/// How many of `events` are an item of the channel.
pub open spec fn items_read<H, T, J, C>(events: Seq<CoalesceEvent<H, T, J, C>>) -> nat
    decreases events.len(),
{
    if events.len() == 0 {
        0
    } else {
        match events[0] {
            CoalesceEvent::Next(Poll::Ready(Some(_))) => 1 + items_read(events.skip(1)),
            _ => items_read(events.skip(1)),
        }
    }
}

/// No step but the last ends the receiving: a machine that is over is not
/// polled again.
pub open spec fn ends_once<H, T, J, C>(steps: Seq<CoalesceStep<H, T, J, C>>) -> bool {
    forall|i: int| 0 <= i < steps.len() - 1 ==> !(#[trigger] steps[i] is Ready)
}

/// At `position` spawning gave the one handle that `steps` ask to send, and
/// the step there asks to send it; a later step follows.
pub open spec fn handed_over<H, U, C>(
    events: Seq<UnravelEvent<H, U, C>>,
    steps: Seq<UnravelStep<H, U, C>>,
    position: int,
) -> bool {
    &&& 0 <= position < events.len() - 1
    &&& position < steps.len()
    &&& events[position] matches UnravelEvent::Spawn(Poll::Ready(Ok(handle)))
    &&& steps[position] == UnravelStep::<H, U, C>::Send(handle)
    &&& sent(steps) == seq![handle]
}

/// At `position` the channel gave the one handle that `steps` ask to join, and
/// the step there asks to join it; a later step follows.
pub open spec fn taken_up<H, T, J, C>(
    events: Seq<CoalesceEvent<H, T, J, C>>,
    steps: Seq<CoalesceStep<H, T, J, C>>,
    position: int,
) -> bool {
    &&& 0 <= position < events.len() - 1
    &&& position < steps.len()
    &&& events[position] matches CoalesceEvent::Next(Poll::Ready(Some(Ok(handle))))
    &&& steps[position] == CoalesceStep::<H, T, J, C>::Join(handle)
    &&& joined(steps) == seq![handle]
}

proof fn lemma_unravel_trace<H, U, C>(state: Unravel, events: Seq<UnravelEvent<H, U, C>>)
    requires
        state.admits(events),
    ensures
        state.steps(events).len() == events.len(),
        sent(state.steps(events)).len() <= 1,
        state == Unravel::Send ==> sent(state.steps(events)).len() == 0,
        state == Unravel::Spawn && events.len() > 0 && state.steps(events).last()
            == UnravelStep::<H, U, C>::Ready(Ok(())) ==> exists|position: int|
            handed_over(events, state.steps(events), position),
    decreases events.len(),
{
    if events.len() > 0 {
        let (next, first) = state.step(events[0]);
        let rest = events.skip(1);
        let steps = state.steps(events);
        lemma_unravel_trace(next, rest);
        assert(steps.skip(1) =~= next.steps(rest));
        assert(steps[0] == first);
        if state == Unravel::Spawn && steps.last() == UnravelStep::<H, U, C>::Ready(Ok(())) {
            if next == Unravel::Send {
                assert(sent(steps) =~= seq![events[0]->Spawn_0->Ready_0->Ok_0]);
                assert(handed_over(events, steps, 0));
            } else {
                assert(rest.len() > 0);
                assert(next.steps(rest).last() == steps.last());
                let position = choose|position: int| handed_over(rest, next.steps(rest), position);
                assert(events[position + 1] == rest[position]);
                assert(steps[position + 1] == next.steps(rest)[position]);
                assert(handed_over(events, steps, position + 1));
            }
        }
    }
}

/// However the polls fall out, sending asks for at most one handle to be
/// sent, and for none once it has asked for one.
pub proof fn lemma_unravel_sends_at_most_once<H, U, C>(
    state: Unravel,
    events: Seq<UnravelEvent<H, U, C>>,
)
    requires
        state.admits(events),
    ensures
        sent(state.steps(events)).len() <= 1,
        state == Unravel::Send ==> sent(state.steps(events)).len() == 0,
{
    lemma_unravel_trace(state, events);
}

/// Where the sending of `Some` ends without a failure, it has asked for
/// exactly one handle to be sent, the one that spawning gave, and has done so
/// before it ended.
pub proof fn lemma_unravel_some_sends_one<H, U, C>(events: Seq<UnravelEvent<H, U, C>>)
    requires
        Unravel::Spawn.admits(events),
        events.len() > 0,
        Unravel::Spawn.steps(events).last() == UnravelStep::<H, U, C>::Ready(Ok(())),
    ensures
        exists|position: int| handed_over(events, Unravel::Spawn.steps(events), position),
{
    lemma_unravel_trace(Unravel::Spawn, events);
}

proof fn lemma_coalesce_trace<H, T, J, C>(state: Coalesce, events: Seq<CoalesceEvent<H, T, J, C>>)
    requires
        state.admits(events),
    ensures
        state.steps(events).len() == events.len(),
        joined(state.steps(events)).len() <= 1,
        state == Coalesce::Join ==> joined(state.steps(events)).len() == 0 && items_read(events)
            == 0,
        state == Coalesce::Join && events.len() > 0 ==> state.steps(events).last()
            != CoalesceStep::<H, T, J, C>::Ready(Ok(None)),
        ends_once(state.steps(events)) ==> items_read(events) <= 1,
        state == Coalesce::Next && events.len() > 0 && state.steps(events).last()
            == CoalesceStep::<H, T, J, C>::Ready(Ok(None)) ==> {
            &&& joined(state.steps(events)).len() == 0
            &&& events.last() == CoalesceEvent::<H, T, J, C>::Next(Poll::Ready(None))
        },
        forall|value: T|
            state == Coalesce::Next && events.len() > 0 && #[trigger] state.steps(events).last()
                == CoalesceStep::<H, T, J, C>::Ready(Ok(Some(value))) ==> {
                &&& events.last() == CoalesceEvent::<H, T, J, C>::Join(Poll::Ready(Ok(value)))
                &&& exists|position: int| taken_up(events, state.steps(events), position)
            },
    decreases events.len(),
{
    if events.len() > 0 {
        let (next, first) = state.step(events[0]);
        let rest = events.skip(1);
        let steps = state.steps(events);
        lemma_coalesce_trace(next, rest);
        assert(steps.skip(1) =~= next.steps(rest));
        assert(steps[0] == first);
        if rest.len() > 0 {
            assert(next.steps(rest).last() == steps.last());
            assert(rest.last() == events.last());
        }
        if ends_once(steps) {
            if rest.len() > 0 {
                assert(!(steps[0] is Ready));
                assert forall|i: int| 0 <= i < next.steps(rest).len() - 1 implies !(
                #[trigger] next.steps(rest)[i] is Ready) by {
                    assert(next.steps(rest)[i] == steps[i + 1]);
                }
            } else {
                assert(items_read(rest) == 0);
            }
        }
        if state == Coalesce::Next {
            assert forall|value: T|
                events.len() > 0 && #[trigger] state.steps(events).last() == CoalesceStep::<
                    H,
                    T,
                    J,
                    C,
                >::Ready(Ok(Some(value))) implies {
                &&& events.last() == CoalesceEvent::<H, T, J, C>::Join(Poll::Ready(Ok(value)))
                &&& exists|position: int| taken_up(events, state.steps(events), position)
            } by {
                if next == Coalesce::Join {
                    assert(joined(steps) =~= seq![events[0]->Next_0->Ready_0->Some_0->Ok_0]);
                    assert(rest.len() > 0);
                    lemma_coalesce_from_join(rest, value);
                    assert(taken_up(events, steps, 0));
                } else {
                    assert(rest.len() > 0);
                    let position = choose|position: int|
                        taken_up(rest, next.steps(rest), position);
                    assert(events[position + 1] == rest[position]);
                    assert(steps[position + 1] == next.steps(rest)[position]);
                    assert(taken_up(events, steps, position + 1));
                }
            }
        }
    }
}

proof fn lemma_coalesce_from_join<H, T, J, C>(events: Seq<CoalesceEvent<H, T, J, C>>, value: T)
    requires
        Coalesce::Join.admits(events),
        events.len() > 0,
        Coalesce::Join.steps(events).last() == CoalesceStep::<H, T, J, C>::Ready(Ok(Some(value))),
    ensures
        events.last() == CoalesceEvent::<H, T, J, C>::Join(Poll::Ready(Ok(value))),
    decreases events.len(),
{
    let rest = events.skip(1);
    let steps = Coalesce::Join.steps(events);
    assert(steps.skip(1) =~= Coalesce::Join.steps(rest));
    lemma_coalesce_trace(Coalesce::Join, rest);
    if rest.len() > 0 {
        assert(Coalesce::Join.steps(rest).last() == steps.last());
        assert(rest.last() == events.last());
        lemma_coalesce_from_join(rest, value);
    }
}

/// Receiving never reads past the first item of the channel: however the polls
/// fall out, as long as the machine is not polled again once it is over, at
/// most one of them is an item, and at most one handle is asked to be joined.
pub proof fn lemma_coalesce_reads_at_most_once<H, T, J, C>(
    state: Coalesce,
    events: Seq<CoalesceEvent<H, T, J, C>>,
)
    requires
        state.admits(events),
        ends_once(state.steps(events)),
    ensures
        items_read(events) <= 1,
        joined(state.steps(events)).len() <= 1,
        state == Coalesce::Join ==> items_read(events) == 0,
{
    lemma_coalesce_trace(state, events);
}

/// Receiving ends with `None` only at the end of a channel that gave no
/// item, and then nothing was asked to be joined.
pub proof fn lemma_coalesce_none<H, T, J, C>(events: Seq<CoalesceEvent<H, T, J, C>>)
    requires
        Coalesce::Next.admits(events),
        events.len() > 0,
        Coalesce::Next.steps(events).last() == CoalesceStep::<H, T, J, C>::Ready(Ok(None)),
    ensures
        joined(Coalesce::Next.steps(events)).len() == 0,
        events.last() == CoalesceEvent::<H, T, J, C>::Next(Poll::Ready(None)),
{
    lemma_coalesce_trace(Coalesce::Next, events);
}

/// Where receiving ends with `Some(value)`, the channel gave one handle, that
/// handle and no other was asked to be joined, and `value` is what joining it
/// gave.
pub proof fn lemma_coalesce_some<H, T, J, C>(events: Seq<CoalesceEvent<H, T, J, C>>, value: T)
    requires
        Coalesce::Next.admits(events),
        events.len() > 0,
        Coalesce::Next.steps(events).last() == CoalesceStep::<H, T, J, C>::Ready(Ok(Some(value))),
    ensures
        events.last() == CoalesceEvent::<H, T, J, C>::Join(Poll::Ready(Ok(value))),
        exists|position: int| taken_up(events, Coalesce::Next.steps(events), position),
{
    lemma_coalesce_trace(Coalesce::Next, events);
}

} // verus!
