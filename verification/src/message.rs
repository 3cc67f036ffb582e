//! The chat message record: immutable once created, owned by the room
//! history it is inserted into.

use vstd::prelude::*;

verus! {

/// One chat event. `text` is the body as sent by the client, `user` is the
/// pseudonymous label derived from the sending connection, and `date` is the
/// server-side receipt time in milliseconds since the Unix epoch (UTC).
#[derive(Debug)]
pub struct Message {
    pub text: String,
    pub user: String,
    pub date: i64,
}

/// The mathematical value of a [`Message`]: both strings as character
/// sequences and the timestamp as an unbounded integer.
pub struct MessageView {
    pub text: Seq<char>,
    pub user: Seq<char>,
    pub date: int,
}

impl View for Message {
    type V = MessageView;

    open spec fn view(&self) -> MessageView {
        MessageView { text: self.text@, user: self.user@, date: self.date as int }
    }
}

impl Clone for Message {
    fn clone(&self) -> (res: Self)
        ensures
            res == *self,
    {
        Message { text: self.text.clone(), user: self.user.clone(), date: self.date }
    }
}

/// The sequence of message values held by a sequence of messages.
pub open spec fn msgs_view(msgs: Seq<Message>) -> Seq<MessageView> {
    msgs.map_values(|m: Message| m@)
}

/// Appending a message and taking views commute.
pub proof fn lemma_msgs_view_push(msgs: Seq<Message>, m: Message)
    ensures
        msgs_view(msgs.push(m)) == msgs_view(msgs).push(m@),
{
    assert(msgs_view(msgs.push(m)) =~= msgs_view(msgs).push(m@));
}

/// Copies a message history, element by element.
pub fn clone_messages(msgs: &Vec<Message>) -> (out: Vec<Message>)
    ensures
        out@ == msgs@,
{
    let mut out: Vec<Message> = Vec::new();
    let mut i: usize = 0;
    while i < msgs.len()
        invariant
            i <= msgs.len(),
            out@ == msgs@.take(i as int),
        decreases msgs.len() - i,
    {
        out.push(msgs[i].clone());
        i += 1;
    }
    proof {
        assert(out@ =~= msgs@);
    }
    out
}

} // verus!
