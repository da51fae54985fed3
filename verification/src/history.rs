//! The bounded history of a room: first in, first out.

use std::collections::VecDeque;
use vstd::prelude::*;
use crate::message::{views, Message, MessageView};

verus! {

/// The last `cap` items of `s`, or all of `s` when it holds no more than that.
pub open spec fn keep_last<T>(s: Seq<T>, cap: nat) -> Seq<T> {
    if s.len() <= cap {
        s
    } else {
        s.skip(s.len() - cap)
    }
}

/// What a history of capacity `cap` holds after `incoming` has been pushed
/// onto `held`, one message at a time.
pub open spec fn pushed_all(held: Seq<MessageView>, incoming: Seq<MessageView>, cap: nat) -> Seq<
    MessageView,
>
    decreases incoming.len(),
{
    if incoming.len() == 0 {
        held
    } else {
        pushed_all(keep_last(held.push(incoming[0]), cap), incoming.drop_first(), cap)
    }
}

/// Cutting to the last `cap` items before a push changes nothing after it.
pub proof fn lemma_keep_last_push<T>(s: Seq<T>, x: T, cap: nat)
    ensures
        keep_last(keep_last(s, cap).push(x), cap) == keep_last(s.push(x), cap),
{
    assert(keep_last(keep_last(s, cap).push(x), cap) =~= keep_last(s.push(x), cap));
}

/// Pushing messages one by one keeps the last `cap` of everything pushed so far.
pub proof fn lemma_pushed_all(held: Seq<MessageView>, incoming: Seq<MessageView>, cap: nat)
    ensures
        pushed_all(keep_last(held, cap), incoming, cap) == keep_last(held + incoming, cap),
    decreases incoming.len(),
{
    if incoming.len() == 0 {
        assert(held + incoming =~= held);
    } else {
        let first = incoming[0];
        let rest = incoming.drop_first();
        lemma_keep_last_push(held, first, cap);
        lemma_pushed_all(held.push(first), rest, cap);
        assert(held.push(first) + rest =~= held + incoming);
    }
}

/// The history bound: after `n` messages have been pushed onto an empty
/// history of capacity `c`, it holds `min(n, c)` messages, and they are the
/// most recent ones, oldest first.
pub proof fn lemma_history_bound(incoming: Seq<MessageView>, cap: nat)
    ensures
        pushed_all(Seq::empty(), incoming, cap) == keep_last(incoming, cap),
        pushed_all(Seq::empty(), incoming, cap).len() == if incoming.len() <= cap {
            incoming.len()
        } else {
            cap
        },
        forall|i: int|
            0 <= i < keep_last(incoming, cap).len() ==> #[trigger] keep_last(incoming, cap)[i]
                == incoming[incoming.len() - keep_last(incoming, cap).len() + i],
{
    lemma_pushed_all(Seq::empty(), incoming, cap);
    assert(Seq::<MessageView>::empty() + incoming =~= incoming);
}

/// A sequence of messages that never grows beyond its capacity. A push onto a
/// full history drops the oldest message.
pub struct HistoryBuffer {
    capacity: usize,
    messages: VecDeque<Message>,
}

impl View for HistoryBuffer {
    type V = Seq<MessageView>;

    closed spec fn view(&self) -> Seq<MessageView> {
        views(self.messages@)
    }
}

impl HistoryBuffer {
    #[verifier::type_invariant]
    spec fn within_capacity(&self) -> bool {
        self.messages@.len() <= self.capacity
    }

    /// The most messages that the history keeps.
    pub closed spec fn cap(&self) -> nat {
        self.capacity as nat
    }

    /// An empty history that keeps at most `capacity` messages.
    pub fn new(capacity: usize) -> (h: HistoryBuffer)
        ensures
            h@ == Seq::<MessageView>::empty(),
            h.cap() == capacity,
    {
        let h = HistoryBuffer { capacity, messages: VecDeque::new() };
        assert(h@ =~= Seq::<MessageView>::empty());
        h
    }

    pub fn capacity(&self) -> (c: usize)
        ensures
            c == self.cap(),
    {
        self.capacity
    }

    /// The number of messages held, never more than the capacity.
    pub fn len(&self) -> (n: usize)
        ensures
            n == self@.len(),
            n <= self.cap(),
    {
        proof {
            use_type_invariant(self);
        }
        self.messages.len()
    }

    pub fn is_empty(&self) -> (r: bool)
        ensures
            r == (self@.len() == 0),
    {
        self.messages.len() == 0
    }

    /// Appends `message`; if that exceeds the capacity, the oldest message goes.
    pub fn push(&mut self, message: Message)
        ensures
            final(self)@ == keep_last(old(self)@.push(message@), old(self).cap()),
            final(self).cap() == old(self).cap(),
    {
        proof {
            use_type_invariant(&*self);
        }
        if self.capacity == 0 {
            assert(self@ =~= keep_last(self@.push(message@), 0));
            return ;
        }
        let mut held: VecDeque<Message> = VecDeque::new();
        std::mem::swap(&mut self.messages, &mut held);
        if held.len() >= self.capacity {
            held.pop_front();
        }
        held.push_back(message);
        self.messages = held;
        assert(self@ =~= keep_last(old(self)@.push(message@), self.capacity as nat));
    }

    /// Moves the messages of `other` behind those held, oldest first, as if
    /// each had been pushed in turn.
    pub fn append(&mut self, other: HistoryBuffer)
        ensures
            final(self)@ == keep_last(old(self)@ + other@, old(self).cap()),
            final(self).cap() == old(self).cap(),
    {
        let mut incoming = other.messages;
        let ghost all = views(incoming@);
        let ghost mut done: int = 0;
        proof {
            use_type_invariant(&*self);
            assert(all.take(0) =~= Seq::<MessageView>::empty());
            assert(self@ + all.take(0) =~= self@);
        }
        while incoming.len() > 0
            invariant
                0 <= done <= all.len(),
                views(incoming@) == all.skip(done),
                self.cap() == old(self).cap(),
                self@ == keep_last(old(self)@ + all.take(done), self.cap()),
            decreases incoming.len(),
        {
            let ghost before = incoming@;
            let message = incoming.pop_front().unwrap();
            proof {
                assert(message@ == views(before)[0]);
                assert(views(before) == all.skip(done));
                assert(views(before).len() == before.len());
                assert(done < all.len());
                assert(all.skip(done)[0] == all[done]);
                assert(message@ == all[done]);
                lemma_keep_last_push(old(self)@ + all.take(done), message@, self.cap());
                assert((old(self)@ + all.take(done)).push(message@) =~= old(self)@ + all.take(
                    done + 1,
                ));
                assert forall|i: int| 0 <= i < incoming@.len() implies views(incoming@)[i]
                    == all.skip(done + 1)[i] by {
                    assert(incoming@[i] == before[i + 1]);
                    assert(views(before)[i + 1] == all.skip(done)[i + 1]);
                }
                assert(views(incoming@) =~= all.skip(done + 1));
                done = done + 1;
            }
            self.push(message);
        }
        proof {
            assert(views(incoming@).len() == 0);
            assert(all.take(done) =~= all);
        }
    }

    /// A copy of the messages held, oldest first.
    pub fn to_vec(&self) -> (v: Vec<Message>)
        ensures
            views(v@) == self@,
            v@.len() == self@.len(),
            v@.len() <= self.cap(),
    {
        proof {
            use_type_invariant(self);
        }
        let mut v: Vec<Message> = Vec::new();
        let mut i: usize = 0;
        while i < self.messages.len()
            invariant
                0 <= i <= self.messages@.len(),
                v@.len() == i,
                forall|j: int| 0 <= j < i ==> (#[trigger] v@[j])@ == self.messages@[j]@,
            decreases self.messages@.len() - i,
        {
            v.push(self.messages[i].duplicate());
            i = i + 1;
        }
        assert(views(v@) =~= self@);
        v
    }
}

} // verus!
