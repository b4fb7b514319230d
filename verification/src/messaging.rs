//! The actions a guest module can ask the host to perform, and the
//! client handle a guest uses to queue them while handling one message.

use vstd::prelude::*;

verus! {

/// An outbound chat message queued by a guest.
pub struct Message {
    /// Plain-text body.
    pub text: String,
    /// Optional HTML alternative body.
    pub html: Option<String>,
    /// Opaque recipient tag; the transport decides what it addresses.
    pub to: String,
}

/// One instruction from a guest to the host.
pub enum Action {
    /// Send a message.
    Respond(Message),
    /// React to the inbound event with an emoji.
    React(String),
}

/// The recipient of a queued response.
pub struct Recipient(pub String);

/// Handle a guest uses, while handling one inbound message, to queue
/// outbound messages and reactions.
pub struct CommandClient {
    inbound_msg_room: String,
    inbound_msg_author: String,
    pub messages: Vec<(Recipient, String)>,
    pub reactions: Vec<String>,
}

impl CommandClient {
    /// The room the inbound message was received in.
    pub closed spec fn spec_room(&self) -> Seq<char> {
        self.inbound_msg_room@
    }

    /// The author of the inbound message.
    pub closed spec fn spec_from(&self) -> Seq<char> {
        self.inbound_msg_author@
    }

    /// The queued messages, as (recipient, text) view pairs.
    pub closed spec fn spec_messages(&self) -> Seq<(Seq<char>, Seq<char>)> {
        self.messages@.map_values(|m: (Recipient, String)| (m.0.0@, m.1@))
    }

    /// The queued reactions, as views.
    pub closed spec fn spec_reactions(&self) -> Seq<Seq<char>> {
        self.reactions@.map_values(|r: String| r@)
    }

    pub fn new(room: String, author: String) -> (c: CommandClient)
        ensures
            c.spec_room() == room@,
            c.spec_from() == author@,
            c.spec_messages() =~= Seq::<(Seq<char>, Seq<char>)>::empty(),
            c.spec_reactions() =~= Seq::<Seq<char>>::empty(),
    {
        CommandClient {
            inbound_msg_room: room,
            inbound_msg_author: author,
            messages: Vec::new(),
            reactions: Vec::new(),
        }
    }

    /// Who sent the original message we're reacting to?
    pub fn from(&self) -> (r: &str)
        ensures
            r@ == self.spec_from(),
    {
        self.inbound_msg_author.as_str()
    }

    /// Indicates in which room this message has been received.
    pub fn room(&self) -> (r: &str)
        ensures
            r@ == self.spec_room(),
    {
        self.inbound_msg_room.as_str()
    }

    /// Queues a message to be sent to the author of the original message.
    pub fn respond(&mut self, msg: String)
        ensures
            final(self).spec_messages() == old(self).spec_messages().push(
                (old(self).spec_from(), msg@),
            ),
            final(self).spec_reactions() == old(self).spec_reactions(),
            final(self).spec_room() == old(self).spec_room(),
            final(self).spec_from() == old(self).spec_from(),
    {
        let author = self.inbound_msg_author.clone();
        self.respond_to(msg, author);
    }

    /// Queues a message to be sent to someone else.
    pub fn respond_to(&mut self, msg: String, author: String)
        ensures
            final(self).spec_messages() == old(self).spec_messages().push((author@, msg@)),
            final(self).spec_reactions() == old(self).spec_reactions(),
            final(self).spec_room() == old(self).spec_room(),
            final(self).spec_from() == old(self).spec_from(),
    {
        let ghost a_view = author@;
        let ghost m_view = msg@;
        self.messages.push((Recipient(author), msg));
        proof {
            assert(self.spec_messages() =~= old(self).spec_messages().push((a_view, m_view)));
        }
    }

    /// Queues an emoji reaction to the original message.
    pub fn react_with(&mut self, reaction: String)
        ensures
            final(self).spec_reactions() == old(self).spec_reactions().push(reaction@),
            final(self).spec_messages() == old(self).spec_messages(),
            final(self).spec_room() == old(self).spec_room(),
            final(self).spec_from() == old(self).spec_from(),
    {
        let ghost r_view = reaction@;
        self.reactions.push(reaction);
        proof {
            assert(self.spec_reactions() =~= old(self).spec_reactions().push(r_view));
        }
    }

    /// Queues the customary approval reaction.
    pub fn react_with_ok(&mut self)
        ensures
            final(self).spec_reactions() == old(self).spec_reactions().push("👌"@),
            final(self).spec_messages() == old(self).spec_messages(),
            final(self).spec_room() == old(self).spec_room(),
            final(self).spec_from() == old(self).spec_from(),
    {
        self.react_with("👌".to_owned());
    }
}

/// What the queued content of a client turns into, as actions: first the
/// responses in queue order, then the reactions in queue order.
pub open spec fn spec_client_actions(
    messages: Seq<(Seq<char>, Seq<char>)>,
    reactions: Seq<Seq<char>>,
) -> Seq<(Option<(Seq<char>, Seq<char>)>, Option<Seq<char>>)> {
    messages.map_values(|m: (Seq<char>, Seq<char>)| (Some((m.1, m.0)), None::<Seq<char>>)) + reactions.map_values(
        |r: Seq<char>| (None::<(Seq<char>, Seq<char>)>, Some(r)),
    )
}

/// The view of one action: a `Respond` becomes `(Some((text, to)), None)`
/// when it carries no HTML body, and a `React` becomes `(None, Some(emoji))`.
pub open spec fn spec_action_view(a: Action) -> (Option<(Seq<char>, Seq<char>)>, Option<Seq<char>>) {
    match a {
        Action::Respond(m) => (Some((m.text@, m.to@)), None),
        Action::React(r) => (None, Some(r@)),
    }
}

/// Turn a finished client into the action list handed back to the host:
/// every queued message becomes a plain-text `Respond` to its recipient,
/// then every queued reaction becomes a `React`.
pub fn client_actions(client: CommandClient) -> (r: Vec<Action>)
    ensures
        r@.map_values(|a: Action| spec_action_view(a)) == spec_client_actions(
            client.spec_messages(),
            client.spec_reactions(),
        ),
        r@.len() == client.spec_messages().len() + client.spec_reactions().len(),
{
    let ghost msgs_view = client.spec_messages();
    let ghost reacts_view = client.spec_reactions();
    let CommandClient { inbound_msg_room: _, inbound_msg_author: _, messages, reactions } = client;
    let mut actions: Vec<Action> = Vec::new();
    let mut i: usize = 0;
    let n = messages.len();
    let mut msg_iter = messages;
    // Consume the messages front to back.
    while i < n
        invariant
            i <= n,
            n == msgs_view.len(),
            msg_iter@.len() == n - i,
            forall|k: int|
                0 <= k < msg_iter@.len() ==> (
                #[trigger] msg_iter@[k].0.0@,
                msg_iter@[k].1@,
                ) == msgs_view[i + k],
            actions@.len() == i,
            forall|k: int|
                0 <= k < i ==> spec_action_view(#[trigger] actions@[k]) == (
                    Some((msgs_view[k].1, msgs_view[k].0)),
                    None::<Seq<char>>,
                ),
        decreases n - i,
    {
        let (Recipient(to), text) = msg_iter.remove(0);
        actions.push(Action::Respond(Message { text, html: None, to }));
        i = i + 1;
    }
    let mut j: usize = 0;
    let m = reactions.len();
    let mut react_iter = reactions;
    while j < m
        invariant
            j <= m,
            m == reacts_view.len(),
            react_iter@.len() == m - j,
            forall|k: int|
                0 <= k < react_iter@.len() ==> #[trigger] react_iter@[k]@ == reacts_view[j + k],
            actions@.len() == msgs_view.len() + j,
            forall|k: int|
                0 <= k < msgs_view.len() ==> spec_action_view(#[trigger] actions@[k]) == (
                    Some((msgs_view[k].1, msgs_view[k].0)),
                    None::<Seq<char>>,
                ),
            forall|k: int|
                0 <= k < j ==> spec_action_view(
                    #[trigger] actions@[msgs_view.len() + k],
                ) == (None::<(Seq<char>, Seq<char>)>, Some(reacts_view[k])),
        decreases m - j,
    {
        let r = react_iter.remove(0);
        actions.push(Action::React(r));
        j = j + 1;
    }
    proof {
        let lhs = actions@.map_values(|a: Action| spec_action_view(a));
        let rhs = spec_client_actions(msgs_view, reacts_view);
        let mapped_msgs = msgs_view.map_values(
            |mm: (Seq<char>, Seq<char>)| (Some((mm.1, mm.0)), None::<Seq<char>>),
        );
        let mapped_reacts = reacts_view.map_values(
            |r: Seq<char>| (None::<(Seq<char>, Seq<char>)>, Some(r)),
        );
        assert forall|k: int| 0 <= k < lhs.len() implies lhs[k] == rhs[k] by {
            assert(lhs[k] == spec_action_view(actions@[k]));
            if k < msgs_view.len() {
                assert(rhs[k] == mapped_msgs[k]);
                assert(mapped_msgs[k] == (Some((msgs_view[k].1, msgs_view[k].0)), None::<Seq<char>>));
            } else {
                let kk = k - msgs_view.len();
                assert(spec_action_view(actions@[msgs_view.len() + kk]) == (
                    None::<(Seq<char>, Seq<char>)>,
                    Some(reacts_view[kk]),
                ));
                assert(rhs[k] == mapped_reacts[kk]);
                assert(mapped_reacts[kk] == (
                    None::<(Seq<char>, Seq<char>)>,
                    Some(reacts_view[kk]),
                ));
            }
        }
        assert(lhs =~= rhs);
    }
    actions
}

} // verus!
