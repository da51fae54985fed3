//! Delivery of one payload to the notification connections of a room.
//!
//! Nothing here touches a socket. A [`Round`] holds the slots still to be
//! served and tells the transport what to do next; the transport does it and
//! reports back. A slot whose endpoint never resolves, or refuses the payload,
//! is gone for good.

use std::collections::VecDeque;
use vstd::prelude::*;

verus! {

/// The notification channel of one client. `P` is the handle of an endpoint
/// that has not been retrieved yet, `C` the endpoint that can be sent to.
#[derive(Clone, Debug, PartialEq, Eq)]
pub enum ConnectionSlot<P, C> {
    Pending(P),
    Connected(C),
}

/// What the transport has to do next.
#[derive(Debug, PartialEq, Eq)]
pub enum Action<P, C> {
    /// Wait for this endpoint, then call [`Round::resolved`].
    Resolve(P),
    /// Send the payload over this endpoint, then call [`Round::sent`].
    Send(C),
    /// Every slot has been served.
    Finished,
}

/// A round as the contracts see it.
pub struct RoundView<P, C> {
    pub payload: Seq<char>,
    /// The slots not served yet, in the order in which they will be.
    pub waiting: Seq<ConnectionSlot<P, C>>,
    /// The slots that took the payload, in the order in which they were served.
    pub survivors: Seq<ConnectionSlot<P, C>>,
}

/// The step taken when the transport asks for work.
pub open spec fn after_next<P, C>(s: RoundView<P, C>) -> (RoundView<P, C>, Action<P, C>) {
    if s.waiting.len() == 0 {
        (s, Action::Finished)
    } else {
        let rest = RoundView {
            payload: s.payload,
            waiting: s.waiting.drop_first(),
            survivors: s.survivors,
        };
        match s.waiting[0] {
            ConnectionSlot::Pending(p) => (rest, Action::Resolve(p)),
            ConnectionSlot::Connected(c) => (rest, Action::Send(c)),
        }
    }
}

/// The step taken when a pending endpoint has resolved (`Some`) or never will
/// (`None`).
pub open spec fn after_resolved<P, C>(s: RoundView<P, C>, endpoint: Option<C>) -> (
    RoundView<P, C>,
    Action<P, C>,
) {
    match endpoint {
        Some(c) => (s, Action::Send(c)),
        None => after_next(s),
    }
}

/// An endpoint is alive after a send that it accepted, unless it reports
/// itself closed all the same.
pub open spec fn alive(accepted: bool, closed: bool) -> bool {
    accepted && !closed
}

/// The step taken when a send over `endpoint` has succeeded or failed, and
/// the endpoint then says whether it is closed.
pub open spec fn after_sent<P, C>(
    s: RoundView<P, C>,
    endpoint: C,
    accepted: bool,
    closed: bool,
) -> (RoundView<P, C>, Action<P, C>) {
    if alive(accepted, closed) {
        after_next(
            RoundView {
                payload: s.payload,
                waiting: s.waiting,
                survivors: s.survivors.push(ConnectionSlot::Connected(endpoint)),
            },
        )
    } else {
        after_next(s)
    }
}

/// How one slot fares in a round.
pub struct Fate<C> {
    /// What a pending handle resolves to; a connected slot has its endpoint already.
    pub endpoint: Option<C>,
    /// Whether the endpoint takes the payload.
    pub accepted: bool,
    /// Whether the endpoint reports itself closed after the send.
    pub closed: bool,
}

/// The slot that `slot` leaves behind under `fate`, if it survives.
pub open spec fn survivor<P, C>(slot: ConnectionSlot<P, C>, fate: Fate<C>) -> Option<
    ConnectionSlot<P, C>,
> {
    let endpoint = match slot {
        ConnectionSlot::Pending(_) => fate.endpoint,
        ConnectionSlot::Connected(c) => Some(c),
    };
    match endpoint {
        Some(c) if alive(fate.accepted, fate.closed) => Some(ConnectionSlot::Connected(c)),
        _ => None,
    }
}

/// The slots that are left of `slots` when slot `i` meets `fates[i]`: those
/// whose endpoint resolved, took the payload and stayed open, in their old
/// order.
pub open spec fn survivors_of<P, C>(slots: Seq<ConnectionSlot<P, C>>, fates: Seq<Fate<C>>) -> Seq<
    ConnectionSlot<P, C>,
>
    decreases slots.len(),
{
    if slots.len() == 0 {
        Seq::empty()
    } else {
        let rest = survivors_of(slots.drop_first(), fates.drop_first());
        match survivor(slots[0], fates[0]) {
            Some(s) => seq![s] + rest,
            None => rest,
        }
    }
}

/// Where a round ends when the transport carries out `action` and all that
/// follows, and the slots not done with meet `fates` in turn.
pub open spec fn played<P, C>(s: RoundView<P, C>, action: Action<P, C>, fates: Seq<Fate<C>>)
    -> RoundView<P, C>
    decreases s.waiting.len(), (match action {
        Action::Resolve(_) => 2int,
        Action::Send(_) => 1int,
        Action::Finished => 0int,
    }),
{
    match action {
        Action::Finished => s,
        Action::Resolve(_) => {
            let next = after_resolved(s, fates[0].endpoint);
            if fates[0].endpoint is Some {
                played(next.0, next.1, fates)
            } else {
                played(next.0, next.1, fates.drop_first())
            }
        },
        Action::Send(c) => {
            let next = after_sent(s, c, fates[0].accepted, fates[0].closed);
            played(next.0, next.1, fates.drop_first())
        },
    }
}

/// Delivery and pruning: a round that is played to its end leaves no slot
/// waiting, and adds to its survivors exactly the slots whose endpoint
/// resolved, took the payload and stayed open, each of them connected, in
/// their old order.
pub proof fn lemma_round_outcome<P, C>(s: RoundView<P, C>, fates: Seq<Fate<C>>)
    requires
        fates.len() == s.waiting.len(),
    ensures
        played(after_next(s).0, after_next(s).1, fates) == (RoundView {
            payload: s.payload,
            waiting: Seq::<ConnectionSlot<P, C>>::empty(),
            survivors: s.survivors + survivors_of(s.waiting, fates),
        }),
    decreases s.waiting.len(),
{
    if s.waiting.len() == 0 {
        assert(s.waiting =~= Seq::<ConnectionSlot<P, C>>::empty());
        assert(s.survivors + survivors_of(s.waiting, fates) =~= s.survivors);
    } else {
        let rest = after_next(s).0;
        let kept = match survivor(s.waiting[0], fates[0]) {
            Some(slot) => s.survivors.push(slot),
            None => s.survivors,
        };
        let then = RoundView { payload: s.payload, waiting: rest.waiting, survivors: kept };
        lemma_round_outcome(then, fates.drop_first());
        assert(kept + survivors_of(rest.waiting, fates.drop_first()) =~= s.survivors
            + survivors_of(s.waiting, fates));
        let goal = played(after_next(then).0, after_next(then).1, fates.drop_first());
        reveal_with_fuel(played, 3);
        match s.waiting[0] {
            ConnectionSlot::Pending(p) => {
                match fates[0].endpoint {
                    Some(c) => {
                        assert(after_resolved(rest, Some(c)) == (rest, Action::<P, C>::Send(c)));
                        assert(after_sent(rest, c, fates[0].accepted, fates[0].closed) == after_next(
                            then,
                        ));
                        assert(played(rest, Action::Resolve(p), fates) == goal);
                    },
                    None => {
                        assert(then == rest);
                        assert(played(rest, Action::Resolve(p), fates) == goal);
                    },
                }
            },
            ConnectionSlot::Connected(c) => {
                assert(after_sent(rest, c, fates[0].accepted, fates[0].closed) == after_next(
                            then,
                        ));
                assert(played(rest, Action::Send(c), fates) == goal);
            },
        }
    }
}

/// One payload on its way to the slots of a room.
pub struct Round<P, C> {
    payload: String,
    waiting: VecDeque<ConnectionSlot<P, C>>,
    survivors: Vec<ConnectionSlot<P, C>>,
}

impl<P, C> View for Round<P, C> {
    type V = RoundView<P, C>;

    closed spec fn view(&self) -> RoundView<P, C> {
        RoundView {
            payload: self.payload@,
            waiting: self.waiting@,
            survivors: self.survivors@,
        }
    }
}

impl<P, C> Round<P, C> {
    /// A round that will offer `payload` to each of `slots`, first to last.
    pub fn start(payload: String, slots: Vec<ConnectionSlot<P, C>>) -> (r: Round<P, C>)
        ensures
            r@ == (RoundView {
                payload: payload@,
                waiting: slots@,
                survivors: Seq::<ConnectionSlot<P, C>>::empty(),
            }),
    {
        let mut slots = slots;
        let ghost all = slots@;
        let mut reversed: VecDeque<ConnectionSlot<P, C>> = VecDeque::new();
        while slots.len() > 0
            invariant
                slots@.len() <= all.len(),
                slots@ == all.take(slots@.len() as int),
                reversed@ == all.skip(slots@.len() as int),
            decreases slots@.len(),
        {
            let ghost n = slots@.len() as int;
            let slot = slots.pop().unwrap();
            reversed.push_front(slot);
            assert(slots@ =~= all.take(n - 1));
            assert(reversed@ =~= all.skip(n - 1));
        }
        assert(reversed@ =~= all);
        Round { payload, waiting: reversed, survivors: Vec::new() }
    }

    /// The text to send.
    pub fn payload(&self) -> (p: &str)
        ensures
            p@ == self@.payload,
    {
        self.payload.as_str()
    }

    /// Hands out the next slot to serve, or says that none is left.
    pub fn next_action(&mut self) -> (a: Action<P, C>)
        ensures
            (final(self)@, a) == after_next(old(self)@),
    {
        match self.waiting.pop_front() {
            None => Action::Finished,
            Some(slot) => {
                assert(self.waiting@ =~= old(self).waiting@.drop_first());
                match slot {
                    ConnectionSlot::Pending(p) => Action::Resolve(p),
                    ConnectionSlot::Connected(c) => Action::Send(c),
                }
            },
        }
    }

    /// Takes the outcome of an [`Action::Resolve`]: the endpoint, or `None`
    /// when it will never come. A slot without endpoint is dropped.
    pub fn resolved(&mut self, endpoint: Option<C>) -> (a: Action<P, C>)
        ensures
            (final(self)@, a) == after_resolved(old(self)@, endpoint),
    {
        match endpoint {
            Some(c) => Action::Send(c),
            None => self.next_action(),
        }
    }

    /// Takes the outcome of an [`Action::Send`]: whether the endpoint
    /// accepted the payload, and whether it reports itself closed afterwards.
    /// An endpoint that accepted and is open survives as a connected slot;
    /// any other is dropped.
    pub fn sent(&mut self, endpoint: C, accepted: bool, closed: bool) -> (a: Action<P, C>)
        ensures
            (final(self)@, a) == after_sent(old(self)@, endpoint, accepted, closed),
    {
        if accepted && !closed {
            self.survivors.push(ConnectionSlot::Connected(endpoint));
        }
        self.next_action()
    }

    /// Ends the round: the survivors, followed by whatever was never served.
    pub fn finish(self) -> (slots: Vec<ConnectionSlot<P, C>>)
        ensures
            slots@ == self@.survivors + self@.waiting,
    {
        let mut slots = self.survivors;
        let mut waiting = self.waiting;
        let ghost rest = waiting@;
        while waiting.len() > 0
            invariant
                waiting@.len() <= rest.len(),
                waiting@ == rest.skip(rest.len() - waiting@.len()),
                slots@ == self@.survivors + rest.take(rest.len() - waiting@.len()),
            decreases waiting@.len(),
        {
            let ghost k = rest.len() - waiting@.len();
            let slot = waiting.pop_front().unwrap();
            slots.push(slot);
            assert(waiting@ =~= rest.skip(k + 1));
            assert(slots@ =~= self@.survivors + rest.take(k + 1));
        }
        assert(slots@ =~= self@.survivors + rest);
        slots
    }
}

} // verus!
