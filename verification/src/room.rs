//! A chat room: a name, a bounded history and the slots of its listeners.

use vstd::prelude::*;
use vstd::string::*;
use crate::broadcast::{ConnectionSlot, Round, RoundView};
use crate::history::{keep_last, HistoryBuffer};
use crate::message::{accepted, degenerate, views, wire_payload, Message, MessageView};

verus! {

/// A room as the contracts see it.
pub struct RoomView<P, C> {
    pub name: Seq<char>,
    /// The most messages that the history keeps.
    pub capacity: nat,
    /// The messages kept, oldest first.
    pub history: Seq<MessageView>,
    /// The slots held, in the order in which they are served.
    pub connections: Seq<ConnectionSlot<P, C>>,
}

/// What can be done to a room through the registry.
pub enum Operation<P, C> {
    /// Post a message.
    AddMessage(Message),
    /// Register the pending endpoint of a new listener.
    AddConnection(P),
    /// Offer the empty payload to every slot, to find the dead ones.
    Probe,
    /// Take back the slots of a round that the transport is done with.
    Settle(Round<P, C>),
}

/// What an [`Operation`] hands back.
pub enum Reply<P, C> {
    /// Nothing is left to do.
    Done,
    /// The transport has to play this round and settle it.
    Deliver(Round<P, C>),
}

/// A new room is empty.
pub open spec fn fresh<P, C>(name: Seq<char>, capacity: nat) -> RoomView<P, C> {
    RoomView { name, capacity, history: Seq::empty(), connections: Seq::empty() }
}

/// The payload under which `m` goes out, if `m` is acceptable and encodes.
pub open spec fn announced(m: MessageView) -> Option<Seq<char>> {
    match accepted(m) {
        Some(kept) => wire_payload(kept),
        None => None,
    }
}

/// The room after `m` was posted: unchanged if `m` is refused; otherwise `m`
/// is in the history and every slot is out for delivery.
pub open spec fn with_message<P, C>(r: RoomView<P, C>, m: MessageView) -> RoomView<P, C> {
    if announced(m) is Some {
        RoomView {
            name: r.name,
            capacity: r.capacity,
            history: keep_last(r.history.push(accepted(m)->0), r.capacity),
            connections: Seq::empty(),
        }
    } else {
        r
    }
}

/// The round that goes out when `m` is posted to `r`, if `m` is taken.
pub open spec fn message_round<P, C>(r: RoomView<P, C>, m: MessageView) -> Option<
    RoundView<P, C>,
> {
    match announced(m) {
        Some(payload) => Some(
            RoundView { payload, waiting: r.connections, survivors: Seq::empty() },
        ),
        None => None,
    }
}

/// The room with one more pending slot, behind the others.
pub open spec fn with_connection<P, C>(r: RoomView<P, C>, pending: P) -> RoomView<P, C> {
    RoomView {
        name: r.name,
        capacity: r.capacity,
        history: r.history,
        connections: r.connections.push(ConnectionSlot::Pending(pending)),
    }
}

/// The room while its slots are out for a round.
pub open spec fn without_connections<P, C>(r: RoomView<P, C>) -> RoomView<P, C> {
    RoomView {
        name: r.name,
        capacity: r.capacity,
        history: r.history,
        connections: Seq::empty(),
    }
}

/// The round that probes the slots of `r`: its payload is empty.
pub open spec fn probe_round<P, C>(r: RoomView<P, C>) -> RoundView<P, C> {
    RoundView { payload: Seq::empty(), waiting: r.connections, survivors: Seq::empty() }
}

/// The room after it took back the slots of `round`: the survivors, then the
/// slots never served, then the slots registered in the meantime.
pub open spec fn settled<P, C>(r: RoomView<P, C>, round: RoundView<P, C>) -> RoomView<P, C> {
    RoomView {
        name: r.name,
        capacity: r.capacity,
        history: r.history,
        connections: round.survivors + round.waiting + r.connections,
    }
}

/// `a` after it absorbed `b`: the history of `b` behind its own, cut to its
/// own capacity, and the slots of `b` behind its own.
pub open spec fn merged<P, C>(a: RoomView<P, C>, b: RoomView<P, C>) -> RoomView<P, C> {
    RoomView {
        name: a.name,
        capacity: a.capacity,
        history: keep_last(a.history + b.history, a.capacity),
        connections: a.connections + b.connections,
    }
}

/// A room is worth keeping while it holds a message or a slot.
pub open spec fn worth_keeping<P, C>(r: RoomView<P, C>) -> bool {
    r.history.len() > 0 || r.connections.len() > 0
}

/// The room after `op`.
pub open spec fn applied<P, C>(r: RoomView<P, C>, op: Operation<P, C>) -> RoomView<P, C> {
    match op {
        Operation::AddMessage(m) => with_message(r, m@),
        Operation::AddConnection(p) => with_connection(r, p),
        Operation::Probe => without_connections(r),
        Operation::Settle(round) => settled(r, round@),
    }
}

/// The round that `op` hands to the transport, if it has work for it.
pub open spec fn handed_out<P, C>(r: RoomView<P, C>, op: Operation<P, C>) -> Option<
    RoundView<P, C>,
> {
    match op {
        Operation::AddMessage(m) => message_round(r, m@),
        Operation::AddConnection(_) => None,
        Operation::Probe => Some(probe_round(r)),
        Operation::Settle(_) => None,
    }
}

/// Whether `reply` is the answer that `expected` describes.
pub open spec fn answers<P, C>(reply: Reply<P, C>, expected: Option<RoundView<P, C>>) -> bool {
    match reply {
        Reply::Done => expected is None,
        Reply::Deliver(round) => expected == Some(round@),
    }
}

/// The room after each of `messages` was posted in turn.
pub open spec fn posted_all<P, C>(r: RoomView<P, C>, messages: Seq<MessageView>) -> RoomView<P, C>
    decreases messages.len(),
{
    if messages.len() == 0 {
        r
    } else {
        posted_all(with_message(r, messages[0]), messages.drop_first())
    }
}

/// The forms in which `messages` are kept, if each of them is taken.
pub open spec fn kept_forms(messages: Seq<MessageView>) -> Seq<MessageView> {
    Seq::new(messages.len(), |i: int| accepted(messages[i])->0)
}

/// Degenerate rejection: posting a message whose nickname or content is
/// blank leaves the history and the slots of the room as they were, and
/// hands out no round.
pub proof fn lemma_degenerate_ignored<P, C>(r: RoomView<P, C>, m: MessageView)
    requires
        degenerate(m),
    ensures
        with_message(r, m) == r,
        message_round(r, m) is None,
{
}

/// The history bound: after `n` messages that were all taken have been
/// posted to a room of capacity `c`, its history is the last `c` of what it
/// held before followed by the `n` messages, oldest first. For a new room
/// that is the most recent `min(n, c)` of the messages posted.
pub proof fn lemma_history_of_posts<P, C>(r: RoomView<P, C>, messages: Seq<MessageView>)
    requires
        r.history.len() <= r.capacity,
        forall|i: int| 0 <= i < messages.len() ==> announced(#[trigger] messages[i]) is Some,
    ensures
        posted_all(r, messages).history == keep_last(r.history + kept_forms(messages), r.capacity),
        posted_all(r, messages).capacity == r.capacity,
        posted_all(r, messages).name == r.name,
        posted_all(r, messages).history.len() == if r.history.len() + messages.len()
            <= r.capacity {
            r.history.len() + messages.len()
        } else {
            r.capacity
        },
    decreases messages.len(),
{
    if messages.len() == 0 {
        assert(r.history + kept_forms(messages) =~= r.history);
    } else {
        let next = with_message(r, messages[0]);
        let rest = messages.drop_first();
        assert(announced(messages[0]) is Some);
        assert forall|i: int| 0 <= i < rest.len() implies announced(#[trigger] rest[i]) is Some by {
            assert(rest[i] == messages[i + 1]);
        }
        lemma_history_of_posts(next, rest);
        let first = accepted(messages[0])->0;
        crate::history::lemma_keep_last_push(r.history.push(first), first, r.capacity);
        assert(r.history.push(first) + kept_forms(rest) =~= r.history + kept_forms(messages));
        assert(keep_last(keep_last(r.history.push(first), r.capacity) + kept_forms(rest), r.capacity)
            =~= keep_last(r.history.push(first) + kept_forms(rest), r.capacity));
    }
}

/// A named chat room.
pub struct Room<P, C> {
    name: String,
    history: HistoryBuffer,
    connections: Vec<ConnectionSlot<P, C>>,
}

impl<P, C> View for Room<P, C> {
    type V = RoomView<P, C>;

    closed spec fn view(&self) -> RoomView<P, C> {
        RoomView {
            name: self.name@,
            capacity: self.history.cap(),
            history: self.history@,
            connections: self.connections@,
        }
    }
}

impl<P, C> Room<P, C> {
    /// An empty room whose history keeps at most `history_size` messages.
    pub fn new(name: &str, history_size: usize) -> (r: Room<P, C>)
        ensures
            r@ == fresh::<P, C>(name@, history_size as nat),
    {
        Room {
            name: name.to_owned(),
            history: HistoryBuffer::new(history_size),
            connections: Vec::new(),
        }
    }

    pub fn name(&self) -> (n: &str)
        ensures
            n@ == self@.name,
    {
        self.name.as_str()
    }

    /// A copy of the history, oldest message first.
    pub fn history(&self) -> (h: Vec<Message>)
        ensures
            views(h@) == self@.history,
            h@.len() == self@.history.len(),
            h@.len() <= self@.capacity,
    {
        self.history.to_vec()
    }

    /// The number of slots held, pending or connected.
    pub fn nb_clients(&self) -> (n: usize)
        ensures
            n == self@.connections.len(),
    {
        self.connections.len()
    }

    /// True while the room holds a message or a slot.
    pub fn worth_keeping(&self) -> (r: bool)
        ensures
            r == worth_keeping(self@),
    {
        !self.history.is_empty() || self.connections.len() > 0
    }

    /// Posts `message`. A message whose nickname or content is blank changes
    /// nothing. Otherwise the message, its nickname cut to thirty characters,
    /// goes to the end of the history, the oldest message leaves if the
    /// history is over its capacity, and every slot leaves the room in the
    /// round that is returned: play it, then [`Room::settle`] it.
    pub fn add_message(&mut self, message: Message) -> (r: Option<Round<P, C>>)
        ensures
            final(self)@ == with_message(old(self)@, message@),
            match r {
                Some(round) => message_round(old(self)@, message@) == Some(round@),
                None => message_round(old(self)@, message@) is None,
            },
            degenerate(message@) ==> r is None && final(self)@ == old(self)@,
    {
        match message.accept() {
            None => None,
            Some(kept) => match kept.payload() {
                None => None,
                Some(payload) => {
                    let mut slots: Vec<ConnectionSlot<P, C>> = Vec::new();
                    std::mem::swap(&mut self.connections, &mut slots);
                    self.history.push(kept);
                    Some(Round::start(payload, slots))
                },
            },
        }
    }

    /// Registers the pending endpoint of a new listener behind the slots held.
    pub fn add_connection(&mut self, pending: P)
        ensures
            final(self)@ == with_connection(old(self)@, pending),
    {
        self.connections.push(ConnectionSlot::Pending(pending));
    }

    /// Sends every slot out in a round with the empty payload, which finds
    /// the dead ones: play it, then [`Room::settle`] it.
    pub fn probe(&mut self) -> (round: Round<P, C>)
        ensures
            final(self)@ == without_connections(old(self)@),
            round@ == probe_round(old(self)@),
    {
        let mut slots: Vec<ConnectionSlot<P, C>> = Vec::new();
        std::mem::swap(&mut self.connections, &mut slots);
        let round = Round::start(String::new(), slots);
        round
    }

    /// Takes back the slots of a round. They go before the slots that were
    /// registered while the round was out.
    pub fn settle(&mut self, round: Round<P, C>)
        ensures
            final(self)@ == settled(old(self)@, round@),
    {
        let mut slots = round.finish();
        slots.append(&mut self.connections);
        self.connections = slots;
    }

    /// Absorbs `other`: its messages go behind those held, as if posted in
    /// turn, and its slots behind those held.
    pub fn merge(&mut self, other: Room<P, C>)
        ensures
            final(self)@ == merged(old(self)@, other@),
    {
        let mut other = other;
        self.history.append(other.history);
        self.connections.append(&mut other.connections);
    }

    /// Carries out `op`.
    pub fn apply(&mut self, op: Operation<P, C>) -> (reply: Reply<P, C>)
        ensures
            final(self)@ == applied(old(self)@, op),
            answers(reply, handed_out(old(self)@, op)),
    {
        match op {
            Operation::AddMessage(message) => match self.add_message(message) {
                Some(round) => Reply::Deliver(round),
                None => Reply::Done,
            },
            Operation::AddConnection(pending) => {
                self.add_connection(pending);
                Reply::Done
            },
            Operation::Probe => Reply::Deliver(self.probe()),
            Operation::Settle(round) => {
                self.settle(round);
                Reply::Done
            },
        }
    }
}

} // verus!
