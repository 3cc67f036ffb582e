//! The room relay protocol: interprets inbound "join" and "message" events,
//! mutates the store, and decides what to emit back to which recipients.
//! Handlers are pure apart from the store: they return the list of actions
//! the transport layer must perform, instead of performing any delivery
//! themselves. Delivery is fire-and-forget by design: a failure to deliver is
//! neither detected nor reported here, and the message stays recorded.

use vstd::prelude::*;
use vstd::string::StringExecFns;
use crate::message::{Message, MessageView, msgs_view};
use crate::store::{MessageStore, history_of, store_insert};

verus! {

/// A connection's room membership: a connection belongs to zero or one room,
/// never more.
#[derive(Debug)]
pub enum Membership {
    Unjoined,
    MemberOf(String),
}

/// Per-connection transient state, granted to the core once per connection.
pub struct Session {
    pub membership: Membership,
}

/// A decoded inbound event, as the transport hands it over. A "join" carries
/// the target room name; a "message" carries its explicit target room and the
/// text, both required by the decoding layer.
#[derive(Debug)]
pub enum Event {
    Join(String),
    Message { room: String, text: String },
}

/// One outbound instruction to the transport layer, in the order it must be
/// performed.
#[derive(Debug)]
pub enum Action {
    /// Drop the connection's membership in every transport-level group.
    LeaveAllGroups,
    /// Add the connection to the named group.
    JoinGroup(String),
    /// Emit a "messages" event carrying this full history to the requesting
    /// connection only.
    EmitHistory(Vec<Message>),
    /// Emit a "message" event carrying this message to every connection
    /// currently grouped under the named room.
    Broadcast(String, Message),
}

/// The pseudonymous chat handle derived from a connection identifier. One
/// stable label per connection for its lifetime, by construction.
pub open spec fn anon_label(id: Seq<char>) -> Seq<char> {
    "anon-"@ + id
}

/// The message record the relay constructs when it accepts a "message" event
/// from connection `conn` at time `date`.
pub open spec fn relayed_message(conn: Seq<char>, text: Seq<char>, date: int) -> MessageView {
    MessageView { text: text, user: anon_label(conn), date: date }
}

/// Distinct connections never share a chat handle: the label derivation is
/// injective in the connection identifier.
pub proof fn lemma_anon_labels_distinct(a: Seq<char>, b: Seq<char>)
    requires
        a != b,
    ensures
        anon_label(a) != anon_label(b),
{
    let p = "anon-"@;
    assert((p + a).skip(p.len() as int) =~= a);
    assert((p + b).skip(p.len() as int) =~= b);
}

/// Builds the label [`anon_label`] describes.
pub fn anon_string(id: &str) -> (label: String)
    ensures
        label@ == anon_label(id@),
{
    let mut label = String::from_str("anon-");
    label.append(id);
    label
}

/// What one accepted event does: how the store and the connection's session
/// move, and exactly which actions come back, given that the event was
/// accepted at time `date`.
pub open spec fn event_step(
    conn: Seq<char>,
    event: Event,
    date: int,
    store0: Map<Seq<char>, Seq<MessageView>>,
    store1: Map<Seq<char>, Seq<MessageView>>,
    session0: Session,
    session1: Session,
    actions: Seq<Action>,
) -> bool {
    match event {
        Event::Join(room) => {
            &&& store1 == store0
            &&& session1.membership == Membership::MemberOf(room)
            &&& actions.len() == 3
            &&& actions[0] == Action::LeaveAllGroups
            &&& actions[1] == Action::JoinGroup(room)
            &&& (actions[2] matches Action::EmitHistory(h) && msgs_view(h@) == history_of(
                store0,
                room@,
            ))
        },
        Event::Message { room, text } => {
            &&& store1 == store_insert(store0, room@, relayed_message(conn, text@, date))
            &&& session1 == session0
            &&& actions.len() == 1
            &&& (actions[0] matches Action::Broadcast(r, m) && r == room && m@ == relayed_message(
                conn,
                text@,
                date,
            ))
        },
    }
}

/// Law: a join replays history privately. The actions of a join step
/// broadcast nothing to any room group; the one emission among them is the
/// full history, which the transport sends to the requesting connection
/// alone, and the store is left unchanged.
pub proof fn lemma_join_replay_private(
    conn: Seq<char>,
    room: String,
    date: int,
    store0: Map<Seq<char>, Seq<MessageView>>,
    store1: Map<Seq<char>, Seq<MessageView>>,
    session0: Session,
    session1: Session,
    actions: Seq<Action>,
)
    requires
        event_step(conn, Event::Join(room), date, store0, store1, session0, session1, actions),
    ensures
        store1 == store0,
        forall|i: int| 0 <= i < actions.len() ==> !(#[trigger] actions[i] matches Action::Broadcast(
            _r,
            _m,
        )),
        actions[2] matches Action::EmitHistory(h) && msgs_view(h@) == history_of(store0, room@),
{
    assert forall|i: int| 0 <= i < actions.len() implies !(#[trigger] actions[i] matches Action::Broadcast(_r, _m)) by {
        assert(i == 0 || i == 1 || i == 2);
    }
}

/// Handles an inbound "join": the connection unconditionally leaves whatever
/// room it was in and becomes a member of exactly the requested room, and the
/// room's current full history goes back to the joining connection only — no
/// other recipient ever sees a history replay.
pub fn handle_join(
    session: &mut Session,
    store: &MessageStore,
    room: String,
) -> (actions: Vec<Action>)
    requires
        store.wf(),
    ensures
        final(session).membership == Membership::MemberOf(room),
        actions@.len() == 3,
        actions@[0] == Action::LeaveAllGroups,
        actions@[1] == Action::JoinGroup(room),
        actions@[2] matches Action::EmitHistory(h) && msgs_view(h@) == store.history(room@),
{
    let history = store.get(room.as_str());
    session.membership = Membership::MemberOf(room.clone());
    let mut actions: Vec<Action> = Vec::new();
    actions.push(Action::LeaveAllGroups);
    actions.push(Action::JoinGroup(room));
    actions.push(Action::EmitHistory(history));
    actions
}

/// Handles an inbound "message" accepted at time `date`: constructs the
/// message record with the sender's derived label, appends it to the target
/// room's history, and broadcasts exactly that record to the room's group.
/// The target room comes from the payload alone — the sender need not be a
/// member of it, and the sender's membership is not consulted or changed.
pub fn handle_message(
    conn_id: &str,
    room: String,
    text: String,
    date: i64,
    store: &mut MessageStore,
) -> (actions: Vec<Action>)
    requires
        old(store).wf(),
    ensures
        final(store).wf(),
        final(store)@ == store_insert(
            old(store)@,
            room@,
            relayed_message(conn_id@, text@, date as int),
        ),
        actions@.len() == 1,
        actions@[0] matches Action::Broadcast(r, m) && r == room && m@ == relayed_message(
            conn_id@,
            text@,
            date as int,
        ),
{
    let user = anon_string(conn_id);
    let message = Message { text, user, date };
    store.insert(room.as_str(), message.clone());
    let mut actions: Vec<Action> = Vec::new();
    actions.push(Action::Broadcast(room, message));
    actions
}

/// Dispatches one decoded inbound event accepted at time `date`. This is the
/// whole per-event protocol: everything it decides is in the returned
/// actions, and [`event_step`] pins the outcome exactly.
pub fn handle_event(
    conn_id: &str,
    event: Event,
    date: i64,
    session: &mut Session,
    store: &mut MessageStore,
) -> (actions: Vec<Action>)
    requires
        old(store).wf(),
    ensures
        final(store).wf(),
        event_step(
            conn_id@,
            event,
            date as int,
            old(store)@,
            final(store)@,
            *old(session),
            *final(session),
            actions@,
        ),
{
    match event {
        Event::Join(room) => handle_join(session, store, room),
        Event::Message { room, text } => handle_message(conn_id, room, text, date, store),
    }
}

/// Relies on `chrono::Utc::now` for the current UTC time in milliseconds
/// since the Unix epoch; nothing is assumed of the value returned.
#[verifier::external_body]
fn now_millis() -> i64 {
    chrono::Utc::now().timestamp_millis()
}

/// Dispatches one decoded inbound event, stamping it with the current server
/// time: the outcome is an [`event_step`] for the moment of acceptance.
pub fn handle(
    conn_id: &str,
    event: Event,
    session: &mut Session,
    store: &mut MessageStore,
) -> (actions: Vec<Action>)
    requires
        old(store).wf(),
    ensures
        final(store).wf(),
        exists|date: int|
            event_step(
                conn_id@,
                event,
                date,
                old(store)@,
                final(store)@,
                *old(session),
                *final(session),
                actions@,
            ),
{
    let date = now_millis();
    let actions = handle_event(conn_id, event, date, session, store);
    proof {
        assert(event_step(
            conn_id@,
            event,
            date as int,
            old(store)@,
            store@,
            *old(session),
            *session,
            actions@,
        ));
    }
    actions
}

/// A disconnect clears the connection's membership; the transport stops
/// delivering events for it afterwards. A message already accepted from the
/// connection is never rolled back.
pub fn handle_disconnect(session: &mut Session)
    ensures
        final(session).membership == Membership::Unjoined,
{
    session.membership = Membership::Unjoined;
}

} // verus!
