//! The rooms of a server, by name.
//!
//! A room comes into being with the first operation that names it and is
//! dropped again if that operation leaves it empty. A room that was built
//! elsewhere under a name already taken is merged into the one that is there.

use vstd::prelude::*;
use crate::message::{views, Message};
use crate::room::{
    answers, applied, fresh, handed_out, merged, worth_keeping, Operation, Reply, Room, RoomView,
};
use crate::text::same_text;

verus! {

/// The registry after `room` was published: merged into the room of its name
/// if there is one, put under its name otherwise; and gone again if what
/// stands there then is not worth keeping.
pub open spec fn published<P, C>(m: Map<Seq<char>, RoomView<P, C>>, room: RoomView<P, C>) -> Map<
    Seq<char>,
    RoomView<P, C>,
> {
    let landed = if m.contains_key(room.name) {
        merged(m[room.name], room)
    } else {
        room
    };
    if worth_keeping(landed) {
        m.insert(room.name, landed)
    } else {
        m.remove(room.name)
    }
}

/// The room that `op` works on: the one named `name`, or a new one.
pub open spec fn target<P, C>(m: Map<Seq<char>, RoomView<P, C>>, name: Seq<char>, capacity: nat)
    -> RoomView<P, C> {
    if m.contains_key(name) {
        m[name]
    } else {
        fresh(name, capacity)
    }
}

/// The registry after `op` on the room named `name`. A room that is there is
/// changed in place. Otherwise a new room takes `op` and is published.
pub open spec fn mutated<P, C>(
    m: Map<Seq<char>, RoomView<P, C>>,
    name: Seq<char>,
    capacity: nat,
    op: Operation<P, C>,
) -> Map<Seq<char>, RoomView<P, C>> {
    if m.contains_key(name) {
        m.insert(name, applied(m[name], op))
    } else {
        published(m, applied(fresh(name, capacity), op))
    }
}

/// The rooms of `rooms` by name.
pub closed spec fn table<P, C>(rooms: Seq<Room<P, C>>) -> Map<Seq<char>, RoomView<P, C>> {
    Map::new(
        |name: Seq<char>| exists|i: int| 0 <= i < rooms.len() && #[trigger] rooms[i]@.name == name,
        |name: Seq<char>| rooms[position(rooms, name)]@,
    )
}

spec fn position<P, C>(rooms: Seq<Room<P, C>>, name: Seq<char>) -> int {
    choose|i: int| 0 <= i < rooms.len() && #[trigger] rooms[i]@.name == name
}

spec fn distinct<P, C>(rooms: Seq<Room<P, C>>) -> bool {
    forall|i: int, j: int|
        0 <= i < rooms.len() && 0 <= j < rooms.len() && #[trigger] rooms[i]@.name
            == #[trigger] rooms[j]@.name ==> i == j
}

proof fn lemma_table_at<P, C>(rooms: Seq<Room<P, C>>, i: int)
    requires
        distinct(rooms),
        0 <= i < rooms.len(),
    ensures
        table(rooms).contains_key(rooms[i]@.name),
        table(rooms)[rooms[i]@.name] == rooms[i]@,
{
    let name = rooms[i]@.name;
    assert(rooms[position(rooms, name)]@.name == name);
}

proof fn lemma_table_absent<P, C>(rooms: Seq<Room<P, C>>, name: Seq<char>)
    requires
        forall|i: int| 0 <= i < rooms.len() ==> #[trigger] rooms[i]@.name != name,
    ensures
        !table(rooms).contains_key(name),
{
}

proof fn lemma_table_push<P, C>(rooms: Seq<Room<P, C>>, room: Room<P, C>)
    requires
        distinct(rooms),
        !table(rooms).contains_key(room@.name),
    ensures
        distinct(rooms.push(room)),
        table(rooms.push(room)) == table(rooms).insert(room@.name, room@),
{
    let grown = rooms.push(room);
    assert forall|i: int, j: int|
        0 <= i < grown.len() && 0 <= j < grown.len() && #[trigger] grown[i]@.name
            == #[trigger] grown[j]@.name implies i == j by {
        if i < rooms.len() {
            assert(rooms[i]@.name == grown[i]@.name);
        }
        if j < rooms.len() {
            assert(rooms[j]@.name == grown[j]@.name);
        }
    }
    assert forall|name: Seq<char>| #[trigger]
        table(grown).contains_key(name) == table(rooms).insert(room@.name, room@).contains_key(
            name,
        ) by {
        if table(grown).contains_key(name) {
            let i = position(grown, name);
            if i < rooms.len() {
                assert(rooms[i]@.name == name);
            }
        }
        if table(rooms).contains_key(name) {
            let i = position(rooms, name);
            assert(grown[i]@.name == name);
        }
        if name == room@.name {
            assert(grown[rooms.len() as int]@.name == name);
        }
    }
    assert forall|name: Seq<char>| #[trigger] table(grown).contains_key(name) implies table(
        grown,
    )[name] == table(rooms).insert(room@.name, room@)[name] by {
        let i = position(grown, name);
        if i < rooms.len() {
            assert(rooms[i]@.name == name);
            lemma_table_at(rooms, i);
        }
    }
    assert(table(grown) =~= table(rooms).insert(room@.name, room@));
}

proof fn lemma_table_remove<P, C>(rooms: Seq<Room<P, C>>, at: int)
    requires
        distinct(rooms),
        0 <= at < rooms.len(),
    ensures
        distinct(rooms.remove(at)),
        table(rooms.remove(at)) == table(rooms).remove(rooms[at]@.name),
{
    let fewer = rooms.remove(at);
    let gone = rooms[at]@.name;
    assert forall|i: int| 0 <= i < fewer.len() implies #[trigger] fewer[i] == rooms[if i < at {
        i
    } else {
        i + 1
    }] by {}
    assert forall|i: int, j: int|
        0 <= i < fewer.len() && 0 <= j < fewer.len() && #[trigger] fewer[i]@.name
            == #[trigger] fewer[j]@.name implies i == j by {
        let i2 = if i < at { i } else { i + 1 };
        let j2 = if j < at { j } else { j + 1 };
        assert(rooms[i2]@.name == rooms[j2]@.name);
    }
    assert forall|name: Seq<char>| #[trigger]
        table(fewer).contains_key(name) == table(rooms).remove(gone).contains_key(name) by {
        if table(fewer).contains_key(name) {
            let i = position(fewer, name);
            let i2 = if i < at { i } else { i + 1 };
            assert(rooms[i2]@.name == name);
        }
        if table(rooms).contains_key(name) && name != gone {
            let i = position(rooms, name);
            let i2 = if i < at { i } else { i - 1 };
            assert(fewer[i2]@.name == name);
        }
    }
    assert forall|name: Seq<char>| #[trigger] table(fewer).contains_key(name) implies table(
        fewer,
    )[name] == table(rooms).remove(gone)[name] by {
        let i = position(fewer, name);
        let i2 = if i < at { i } else { i + 1 };
        assert(rooms[i2]@.name == name);
        lemma_table_at(rooms, i2);
    }
    assert(table(fewer) =~= table(rooms).remove(gone));
}

proof fn lemma_table_update<P, C>(rooms: Seq<Room<P, C>>, at: int, room: Room<P, C>)
    requires
        distinct(rooms),
        0 <= at < rooms.len(),
        room@.name == rooms[at]@.name,
    ensures
        distinct(rooms.update(at, room)),
        table(rooms.update(at, room)) == table(rooms).insert(room@.name, room@),
{
    let changed = rooms.update(at, room);
    assert forall|i: int| 0 <= i < rooms.len() implies #[trigger] changed[i]@.name
        == rooms[i]@.name by {}
    assert forall|i: int, j: int|
        0 <= i < changed.len() && 0 <= j < changed.len() && #[trigger] changed[i]@.name
            == #[trigger] changed[j]@.name implies i == j by {
        assert(rooms[i]@.name == rooms[j]@.name);
    }
    assert forall|name: Seq<char>| #[trigger]
        table(changed).contains_key(name) == table(rooms).insert(room@.name, room@).contains_key(
            name,
        ) by {
        if table(changed).contains_key(name) {
            let i = position(changed, name);
            assert(rooms[i]@.name == name);
        }
        if table(rooms).contains_key(name) {
            let i = position(rooms, name);
            assert(changed[i]@.name == name);
        }
        if name == room@.name {
            assert(changed[at]@.name == name);
        }
    }
    assert forall|name: Seq<char>| #[trigger] table(changed).contains_key(name) implies table(
        changed,
    )[name] == table(rooms).insert(room@.name, room@)[name] by {
        let i = position(changed, name);
        assert(rooms[i]@.name == name);
        lemma_table_at(rooms, i);
    }
    assert(table(changed) =~= table(rooms).insert(room@.name, room@));
}

/// The rooms of a server. No two rooms share a name.
pub struct RoomRegistry<P, C> {
    rooms: Vec<Room<P, C>>,
    default_history_capacity: usize,
}

impl<P, C> View for RoomRegistry<P, C> {
    type V = Map<Seq<char>, RoomView<P, C>>;

    closed spec fn view(&self) -> Map<Seq<char>, RoomView<P, C>> {
        table(self.rooms@)
    }
}

impl<P, C> RoomRegistry<P, C> {
    #[verifier::type_invariant]
    spec fn one_room_per_name(&self) -> bool {
        distinct(self.rooms@)
    }

    /// The history capacity of the rooms that this registry creates.
    pub closed spec fn capacity(&self) -> nat {
        self.default_history_capacity as nat
    }

    /// A registry without rooms.
    pub fn new(default_history_capacity: usize) -> (r: RoomRegistry<P, C>)
        ensures
            r@ == Map::<Seq<char>, RoomView<P, C>>::empty(),
            r.capacity() == default_history_capacity,
    {
        let r = RoomRegistry { rooms: Vec::new(), default_history_capacity };
        assert(r@ =~= Map::<Seq<char>, RoomView<P, C>>::empty());
        r
    }

    pub fn default_history_capacity(&self) -> (c: usize)
        ensures
            c == self.capacity(),
    {
        self.default_history_capacity
    }

    fn find(rooms: &Vec<Room<P, C>>, name: &str) -> (r: Option<usize>)
        requires
            distinct(rooms@),
        ensures
            match r {
                Some(i) => i < rooms@.len() && rooms@[i as int]@.name == name@
                    && table(rooms@).contains_key(name@) && table(rooms@)[name@]
                    == rooms@[i as int]@,
                None => !table(rooms@).contains_key(name@),
            },
    {
        let mut i: usize = 0;
        while i < rooms.len()
            invariant
                0 <= i <= rooms@.len(),
                distinct(rooms@),
                forall|j: int| 0 <= j < i ==> #[trigger] rooms@[j]@.name != name@,
            decreases rooms@.len() - i,
        {
            if same_text(rooms[i].name(), name) {
                proof {
                    lemma_table_at(rooms@, i as int);
                }
                return Some(i);
            }
            i = i + 1;
        }
        proof {
            lemma_table_absent(rooms@, name@);
        }
        None
    }

    /// Brings in a room that was built outside the registry. If its name is
    /// taken, the room that is there absorbs it: first its own messages and
    /// slots, then those of `room`. A room that is then not worth keeping is
    /// dropped from the registry.
    pub fn publish(&mut self, room: Room<P, C>)
        ensures
            final(self)@ == published(old(self)@, room@),
            final(self).capacity() == old(self).capacity(),
    {
        proof {
            use_type_invariant(&*self);
        }
        let mut rooms: Vec<Room<P, C>> = Vec::new();
        std::mem::swap(&mut self.rooms, &mut rooms);
        let ghost before = rooms@;
        let found = Self::find(&rooms, room.name());
        match found {
            Some(i) => {
                rooms[i].merge(room);
                proof {
                    lemma_table_update(before, i as int, rooms@[i as int]);
                    assert(rooms@ =~= before.update(i as int, rooms@[i as int]));
                }
                if !rooms[i].worth_keeping() {
                    proof {
                        lemma_table_remove(rooms@, i as int);
                    }
                    rooms.remove(i);
                    assert(table(rooms@) =~= published(table(before), room@));
                }
            },
            None => {
                if room.worth_keeping() {
                    proof {
                        lemma_table_push(before, room);
                    }
                    rooms.push(room);
                } else {
                    assert(table(before) =~= table(before).remove(room@.name));
                }
            },
        }
        self.rooms = rooms;
    }

    /// Carries out `op` on the room named `name` and returns its answer. A
    /// room that exists is changed in place, and stays whatever `op` leaves
    /// of it. Otherwise a new room of the default capacity takes `op` and is
    /// published, so it is there afterwards only if it is worth keeping.
    pub fn mutate(&mut self, name: &str, op: Operation<P, C>) -> (reply: Reply<P, C>)
        ensures
            final(self)@ == mutated(old(self)@, name@, old(self).capacity(), op),
            answers(reply, handed_out(target(old(self)@, name@, old(self).capacity()), op)),
            final(self).capacity() == old(self).capacity(),
    {
        proof {
            use_type_invariant(&*self);
        }
        let mut rooms: Vec<Room<P, C>> = Vec::new();
        std::mem::swap(&mut self.rooms, &mut rooms);
        let ghost before = rooms@;
        match Self::find(&rooms, name) {
            Some(i) => {
                let reply = rooms[i].apply(op);
                proof {
                    lemma_table_update(before, i as int, rooms@[i as int]);
                    assert(rooms@ =~= before.update(i as int, rooms@[i as int]));
                }
                self.rooms = rooms;
                reply
            },
            None => {
                self.rooms = rooms;
                let mut room: Room<P, C> = Room::new(name, self.default_history_capacity);
                let reply = room.apply(op);
                self.publish(room);
                reply
            },
        }
    }

    /// Whether a room named `name` exists.
    pub fn contains(&self, name: &str) -> (r: bool)
        ensures
            r == self@.contains_key(name@),
    {
        proof {
            use_type_invariant(self);
        }
        Self::find(&self.rooms, name).is_some()
    }

    /// The history of the room named `name`, oldest message first, or `None`
    /// if there is no such room. Never creates a room.
    pub fn get_history(&self, name: &str) -> (r: Option<Vec<Message>>)
        ensures
            match r {
                Some(h) => self@.contains_key(name@) && views(h@) == self@[name@].history
                    && h@.len() == self@[name@].history.len() && h@.len()
                    <= self@[name@].capacity,
                None => !self@.contains_key(name@),
            },
    {
        proof {
            use_type_invariant(self);
        }
        match Self::find(&self.rooms, name) {
            Some(i) => Some(self.rooms[i].history()),
            None => None,
        }
    }
}

/// Every room stands under its own name.
pub proof fn lemma_keyed_by_name<P, C>(registry: RoomRegistry<P, C>, name: Seq<char>)
    requires
        registry@.contains_key(name),
    ensures
        registry@[name].name == name,
{
    assert(registry.rooms@[position(registry.rooms@, name)]@.name == name);
}

/// Uniqueness: when two rooms of one name that the registry does not know yet
/// are published one after the other, the registry ends with at most one room
/// of that name. It holds the messages of the first room, then those of the
/// second, cut to the capacity, and the slots of the first, then those of the
/// second; and it is missing only if both rooms were empty.
pub proof fn lemma_publish_twice<P, C>(
    m: Map<Seq<char>, RoomView<P, C>>,
    a: RoomView<P, C>,
    b: RoomView<P, C>,
)
    requires
        !m.contains_key(a.name),
        a.name == b.name,
        a.capacity == b.capacity,
        b.history.len() <= b.capacity,
    ensures
        published(published(m, a), b) == if worth_keeping(merged(a, b)) {
            m.insert(a.name, merged(a, b))
        } else {
            m
        },
        merged(a, b).connections == a.connections + b.connections,
        a.history.len() + b.history.len() <= a.capacity ==> merged(a, b).history == a.history
            + b.history,
        forall|other: Seq<char>|
            other != a.name ==> (#[trigger] published(published(m, a), b).contains_key(other)
                <==> m.contains_key(other)),
{
    assert(m.remove(a.name) =~= m);
    if worth_keeping(a) {
        assert(m.insert(a.name, a).insert(a.name, merged(a, b)) =~= m.insert(
            a.name,
            merged(a, b),
        ));
        assert(m.insert(a.name, a).remove(a.name) =~= m);
    } else {
        assert(a.history + b.history =~= b.history);
        assert(a.connections + b.connections =~= b.connections);
        assert(merged(a, b) == b);
    }
}

/// Degenerate rejection, seen from the registry: posting a message whose
/// nickname or content is blank changes no room and creates none.
pub proof fn lemma_degenerate_post<P, C>(
    m: Map<Seq<char>, RoomView<P, C>>,
    name: Seq<char>,
    capacity: nat,
    message: Message,
)
    requires
        crate::message::degenerate(message@),
    ensures
        mutated(m, name, capacity, Operation::<P, C>::AddMessage(message)) == m,
        handed_out(target(m, name, capacity), Operation::<P, C>::AddMessage(message)) is None,
{
    if m.contains_key(name) {
        assert(m.insert(name, m[name]) =~= m);
    } else {
        assert(m.remove(name) =~= m);
    }
}

/// Eviction: an operation on an unknown name that leaves its new room
/// without message and without slot leaves the registry as it was, so the
/// name is still unknown afterwards.
pub proof fn lemma_eviction<P, C>(
    m: Map<Seq<char>, RoomView<P, C>>,
    name: Seq<char>,
    capacity: nat,
    op: Operation<P, C>,
)
    requires
        !m.contains_key(name),
        !worth_keeping(applied(fresh(name, capacity), op)),
    ensures
        mutated(m, name, capacity, op) == m,
        !mutated(m, name, capacity, op).contains_key(name),
{
    assert(m.remove(name) =~= m);
}

} // verus!
