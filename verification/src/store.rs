//! The process-wide message store: a mapping from room name to that room's
//! ordered, append-only message history. An unknown room is equivalent to an
//! empty room. The store is a plain owned value; the embedding program wraps
//! it in whatever synchronization its runtime needs, so that each `insert`
//! and `get` below is one atomic step of the shared state.

use vstd::prelude::*;
use vstd::map::*;
use crate::message::{Message, MessageView, msgs_view, clone_messages, lemma_msgs_view_push};

verus! {

/// One room's name and history; room names are unique across entries.
struct RoomEntry {
    name: String,
    messages: Vec<Message>,
}

/// Maps room identifiers to ordered message histories. Modelled as a
/// `Map<Seq<char>, Seq<MessageView>>`; rooms never inserted into are absent
/// from the map and read as empty histories.
pub struct MessageStore {
    rooms: Vec<RoomEntry>,
}

spec fn has_room(rooms: Seq<RoomEntry>, room: Seq<char>) -> bool {
    exists|i: int| 0 <= i < rooms.len() && rooms[i].name@ == room
}

spec fn room_index(rooms: Seq<RoomEntry>, room: Seq<char>) -> int {
    choose|i: int| 0 <= i < rooms.len() && rooms[i].name@ == room
}

spec fn unique_names(rooms: Seq<RoomEntry>) -> bool {
    forall|i: int, j: int|
        0 <= i < j < rooms.len() ==> rooms[i].name@ != rooms[j].name@
}

spec fn map_of(rooms: Seq<RoomEntry>) -> Map<Seq<char>, Seq<MessageView>> {
    Map::new(
        |room: Seq<char>| has_room(rooms, room),
        |room: Seq<char>| msgs_view(rooms[room_index(rooms, room)].messages@),
    )
}

/// The history a mapping holds for a room: its entry if the room is present,
/// the empty sequence otherwise.
pub open spec fn history_of(
    m: Map<Seq<char>, Seq<MessageView>>,
    room: Seq<char>,
) -> Seq<MessageView> {
    if m.contains_key(room) {
        m[room]
    } else {
        Seq::empty()
    }
}

/// One accepted insert, as a step on the mathematical mapping: the message is
/// appended to the target room's history and every other room is untouched.
pub open spec fn store_insert(
    m: Map<Seq<char>, Seq<MessageView>>,
    room: Seq<char>,
    message: MessageView,
) -> Map<Seq<char>, Seq<MessageView>> {
    m.insert(room, history_of(m, room).push(message))
}

impl View for MessageStore {
    type V = Map<Seq<char>, Seq<MessageView>>;

    closed spec fn view(&self) -> Map<Seq<char>, Seq<MessageView>> {
        map_of(self.rooms@)
    }
}

/// In a well-formed sequence of entries, an entry's own name always resolves
/// back to its index.
proof fn lemma_found_index(rooms: Seq<RoomEntry>, i: int)
    requires
        unique_names(rooms),
        0 <= i < rooms.len(),
    ensures
        has_room(rooms, rooms[i].name@),
        room_index(rooms, rooms[i].name@) == i,
{
    assert(has_room(rooms, rooms[i].name@));
    let j = room_index(rooms, rooms[i].name@);
    if j != i {
        assert(rooms[i].name@ != rooms[j].name@);
        assert(false);
    }
}

impl MessageStore {
    /// Internal well-formedness: at most one entry per room name.
    pub closed spec fn wf(&self) -> bool {
        unique_names(self.rooms@)
    }

    /// The room's current history, read off the store's mathematical value.
    pub open spec fn history(&self, room: Seq<char>) -> Seq<MessageView> {
        history_of(self@, room)
    }

    /// An empty store: no room has any recorded message.
    pub fn new() -> (store: MessageStore)
        ensures
            store.wf(),
            store@ == Map::<Seq<char>, Seq<MessageView>>::empty(),
    {
        let store = MessageStore { rooms: Vec::new() };
        proof {
            assert_maps_equal!(store@, Map::<Seq<char>, Seq<MessageView>>::empty());
        }
        store
    }

    /// Returns a snapshot copy of the room's current history; a room never
    /// inserted into reads as an empty sequence, never as an error.
    pub fn get(&self, room: &str) -> (history: Vec<Message>)
        requires
            self.wf(),
        ensures
            msgs_view(history@) == self.history(room@),
    {
        let key: String = room.to_owned();
        let mut i: usize = 0;
        while i < self.rooms.len()
            invariant
                self.wf(),
                i <= self.rooms@.len(),
                key@ == room@,
                forall|j: int| 0 <= j < i ==> self.rooms@[j].name@ != room@,
            decreases self.rooms@.len() - i,
        {
            if self.rooms[i].name == key {
                let out = clone_messages(&self.rooms[i].messages);
                proof {
                    lemma_found_index(self.rooms@, i as int);
                    assert(self@.contains_key(room@));
                    assert(self@[room@] == msgs_view(self.rooms@[i as int].messages@));
                }
                return out;
            }
            i += 1;
        }
        proof {
            assert(!has_room(self.rooms@, room@));
            assert(!self@.contains_key(room@));
            assert(msgs_view(Seq::<Message>::empty()) =~= Seq::<MessageView>::empty());
        }
        Vec::new()
    }

    /// Appends `message` to the room's history, creating the room entry if it
    /// does not yet exist; every other room's history is left untouched, and
    /// the message is visible to every subsequent `get` on the same room.
    pub fn insert(&mut self, room: &str, message: Message)
        requires
            old(self).wf(),
        ensures
            final(self).wf(),
            final(self)@ == store_insert(old(self)@, room@, message@),
    {
        let ghost rooms0 = self.rooms@;
        let key: String = room.to_owned();
        let mut i: usize = 0;
        while i < self.rooms.len()
            invariant
                self.rooms@ == rooms0,
                rooms0 == old(self).rooms@,
                unique_names(rooms0),
                i <= rooms0.len(),
                key@ == room@,
                forall|j: int| 0 <= j < i ==> rooms0[j].name@ != room@,
            decreases rooms0.len() - i,
        {
            if self.rooms[i].name == key {
                let mut entry = self.rooms.remove(i);
                entry.messages.push(message);
                let ghost e2 = entry;
                self.rooms.insert(i, entry);
                proof {
                    self.lemma_insert_existing(rooms0, i as int, e2, message, room@);
                }
                return;
            }
            i += 1;
        }
        let mut messages: Vec<Message> = Vec::new();
        messages.push(message);
        self.rooms.push(RoomEntry { name: key, messages });
        proof {
            self.lemma_insert_fresh(rooms0, message, room@);
        }
    }

    /// View of an in-place update of the entry at index `i`.
    proof fn lemma_insert_existing(
        &self,
        rooms0: Seq<RoomEntry>,
        i: int,
        e2: RoomEntry,
        message: Message,
        room: Seq<char>,
    )
        requires
            unique_names(rooms0),
            0 <= i < rooms0.len(),
            rooms0[i].name@ == room,
            e2.name@ == room,
            e2.messages@ == rooms0[i].messages@.push(message),
            self.rooms@ == rooms0.remove(i).insert(i, e2),
        ensures
            self.wf(),
            self@ == store_insert(map_of(rooms0), room, message@),
    {
        let rooms1 = self.rooms@;
        let mid = rooms0.remove(i);
        rooms0.remove_ensures(i);
        mid.insert_ensures(i, e2);
        assert(rooms1.len() == rooms0.len());
        assert(rooms1[i] == e2);
        assert forall|j: int| 0 <= j < rooms1.len() && j != i implies rooms1[j] == rooms0[j] by {
            if j < i {
                assert(rooms1[j] == mid[j]);
                assert(mid[j] == rooms0[j]);
            } else {
                assert(rooms1[j] == mid[j - 1]);
                assert(mid[j - 1] == rooms0[j]);
            }
        }
        assert forall|a: int, b: int|
            0 <= a < b < rooms1.len() implies rooms1[a].name@ != rooms1[b].name@ by {
            assert(rooms1[a].name@ == rooms0[a].name@);
            assert(rooms1[b].name@ == rooms0[b].name@);
        }
        lemma_found_index(rooms0, i);
        lemma_found_index(rooms1, i);
        lemma_msgs_view_push(rooms0[i].messages@, message);
        assert_maps_equal!(map_of(rooms1), store_insert(map_of(rooms0), room, message@), k => {
            if k == room {
                assert(map_of(rooms1).contains_key(k));
                assert(map_of(rooms1)[k] == msgs_view(rooms0[i].messages@).push(message@));
            } else {
                if has_room(rooms0, k) {
                    let j = room_index(rooms0, k);
                    assert(rooms1[j].name@ == k);
                    lemma_found_index(rooms0, j);
                    lemma_found_index(rooms1, j);
                }
                if has_room(rooms1, k) {
                    let j = room_index(rooms1, k);
                    assert(rooms0[j].name@ == k);
                    assert(has_room(rooms0, k));
                }
            }
        });
    }

    /// View of appending a brand-new room entry holding one message.
    proof fn lemma_insert_fresh(&self, rooms0: Seq<RoomEntry>, message: Message, room: Seq<char>)
        requires
            unique_names(rooms0),
            forall|j: int| 0 <= j < rooms0.len() ==> rooms0[j].name@ != room,
            self.rooms@.len() == rooms0.len() + 1,
            self.rooms@ == rooms0.push(self.rooms@[rooms0.len() as int]),
            self.rooms@[rooms0.len() as int].name@ == room,
            self.rooms@[rooms0.len() as int].messages@ == Seq::<Message>::empty().push(message),
        ensures
            self.wf(),
            self@ == store_insert(map_of(rooms0), room, message@),
    {
        let rooms1 = self.rooms@;
        let n = rooms0.len() as int;
        assert forall|j: int| 0 <= j < n implies rooms1[j] == rooms0[j] by {}
        assert forall|a: int, b: int|
            0 <= a < b < rooms1.len() implies rooms1[a].name@ != rooms1[b].name@ by {
            if b < n {
                assert(rooms1[a].name@ == rooms0[a].name@);
                assert(rooms1[b].name@ == rooms0[b].name@);
            } else {
                assert(rooms1[a].name@ == rooms0[a].name@);
                assert(rooms1[b].name@ == room);
            }
        }
        if has_room(rooms0, room) {
            let j = room_index(rooms0, room);
            assert(rooms0[j].name@ != room);
            assert(false);
        }
        assert(!map_of(rooms0).contains_key(room));
        lemma_found_index(rooms1, n);
        assert(msgs_view(Seq::<Message>::empty().push(message))
            =~= Seq::<MessageView>::empty().push(message@));
        assert_maps_equal!(map_of(rooms1), store_insert(map_of(rooms0), room, message@), k => {
            if k == room {
                assert(map_of(rooms1).contains_key(k));
                assert(map_of(rooms1)[k] == msgs_view(rooms1[n].messages@));
            } else {
                if has_room(rooms0, k) {
                    let j = room_index(rooms0, k);
                    assert(rooms1[j].name@ == k);
                    lemma_found_index(rooms0, j);
                    lemma_found_index(rooms1, j);
                }
                if has_room(rooms1, k) {
                    let j = room_index(rooms1, k);
                    assert(j != n);
                    assert(rooms0[j].name@ == k);
                    assert(has_room(rooms0, k));
                }
            }
        });
    }
}

impl Default for MessageStore {
    /// Same as [`MessageStore::new`]: the store a process starts with.
    fn default() -> (store: Self)
        ensures
            store.wf(),
            store@ == Map::<Seq<char>, Seq<MessageView>>::empty(),
    {
        MessageStore::new()
    }
}

} // verus!
