//! Store-level laws, proved over the store's mathematical model: what any
//! serialization of accepted inserts does to a room's history. The store's
//! internal serialization point is the sole source of ordering truth, so
//! every concurrent execution corresponds to some sequence of inserts here.

use vstd::prelude::*;
use crate::message::MessageView;
use crate::store::{history_of, store_insert};

verus! {

/// The mapping left by a serialization of accepted inserts, each element
/// naming the target room and the message, applied in order.
pub open spec fn apply_inserts(
    m: Map<Seq<char>, Seq<MessageView>>,
    inserts: Seq<(Seq<char>, MessageView)>,
) -> Map<Seq<char>, Seq<MessageView>>
    decreases inserts.len(),
{
    if inserts.len() == 0 {
        m
    } else {
        apply_inserts(store_insert(m, inserts[0].0, inserts[0].1), inserts.drop_first())
    }
}

/// The messages a serialization inserts into one room, in order.
pub open spec fn messages_for(
    inserts: Seq<(Seq<char>, MessageView)>,
    room: Seq<char>,
) -> Seq<MessageView>
    decreases inserts.len(),
{
    if inserts.len() == 0 {
        Seq::empty()
    } else if inserts[0].0 == room {
        seq![inserts[0].1] + messages_for(inserts.drop_first(), room)
    } else {
        messages_for(inserts.drop_first(), room)
    }
}

/// Law: after any serialization of inserts, a room's history is exactly its
/// prior history followed by the messages inserted into that room, in
/// serialization order — no message lost, duplicated or reordered, and
/// inserts into other rooms leave the history untouched.
pub proof fn lemma_history_after_inserts(
    m: Map<Seq<char>, Seq<MessageView>>,
    inserts: Seq<(Seq<char>, MessageView)>,
    room: Seq<char>,
)
    ensures
        history_of(apply_inserts(m, inserts), room) == history_of(m, room) + messages_for(
            inserts,
            room,
        ),
    decreases inserts.len(),
{
    if inserts.len() == 0 {
        assert(history_of(m, room) + messages_for(inserts, room) =~= history_of(m, room));
    } else {
        let m1 = store_insert(m, inserts[0].0, inserts[0].1);
        lemma_history_after_inserts(m1, inserts.drop_first(), room);
        if inserts[0].0 == room {
            assert(history_of(m1, room) == history_of(m, room).push(inserts[0].1));
            assert(history_of(m, room) + messages_for(inserts, room) =~= history_of(m1, room)
                + messages_for(inserts.drop_first(), room));
        } else {
            assert(history_of(m1, room) == history_of(m, room));
            assert(messages_for(inserts, room) == messages_for(inserts.drop_first(), room));
        }
    }
}

/// A serialization that never targets a room inserts nothing into it.
pub proof fn lemma_messages_for_untargeted(
    inserts: Seq<(Seq<char>, MessageView)>,
    room: Seq<char>,
)
    requires
        forall|i: int| 0 <= i < inserts.len() ==> inserts[i].0 != room,
    ensures
        messages_for(inserts, room) == Seq::<MessageView>::empty(),
    decreases inserts.len(),
{
    if inserts.len() > 0 {
        let rest = inserts.drop_first();
        assert forall|i: int| 0 <= i < rest.len() implies rest[i].0 != room by {
            assert(rest[i] == inserts[i + 1]);
        }
        lemma_messages_for_untargeted(rest, room);
    }
}

/// Law: starting from the empty store a process begins with, a room's
/// history is exactly the messages of the inserts that targeted it, in
/// serialization order, whatever inserts into other rooms stand in between.
pub proof fn lemma_get_after_inserts(inserts: Seq<(Seq<char>, MessageView)>, room: Seq<char>)
    ensures
        history_of(
            apply_inserts(Map::<Seq<char>, Seq<MessageView>>::empty(), inserts),
            room,
        ) == messages_for(inserts, room),
{
    let empty = Map::<Seq<char>, Seq<MessageView>>::empty();
    lemma_history_after_inserts(empty, inserts, room);
    assert(history_of(empty, room) + messages_for(inserts, room) =~= messages_for(inserts, room));
}

/// Law: a room that no insert ever targeted reads as an empty history in any
/// store grown from the empty one.
pub proof fn lemma_unreferenced_room_empty(
    inserts: Seq<(Seq<char>, MessageView)>,
    room: Seq<char>,
)
    requires
        forall|i: int| 0 <= i < inserts.len() ==> inserts[i].0 != room,
    ensures
        history_of(
            apply_inserts(Map::<Seq<char>, Seq<MessageView>>::empty(), inserts),
            room,
        ) == Seq::<MessageView>::empty(),
{
    lemma_get_after_inserts(inserts, room);
    lemma_messages_for_untargeted(inserts, room);
}

} // verus!
