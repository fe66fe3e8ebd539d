//! Messages between agents, and the bus that carries them.

use crate::clock::now;
use crate::ids::fresh_id;
use crate::table::has_key;
use crate::table::slot_of;
use crate::table::Entry;
use crate::table::Table;
use vstd::string::StringExecFns;
use vstd::prelude::*;

verus! {

/// How urgent a message is. Advisory only: the bus does not reorder by it.
#[derive(Clone, Copy, Debug, PartialEq, Eq, Structural)]
pub enum MessagePriority {
    Low,
    Normal,
    High,
    Urgent,
}

/// A message from one agent to another. `from_agent` is `NIL_ID` where the
/// system itself is the sender. `metadata` holds the parameters that go with
/// the kind of message named by `message_type`.
#[derive(Clone, Debug)]
pub struct Message {
    pub id: u128,
    pub from_agent: u128,
    pub to_agent: u128,
    pub message_type: String,
    pub content: String,
    pub priority: MessagePriority,
    pub timestamp: i64,
    pub metadata: Table<String, String>,
}

/// The value of the parameter `key` among `metadata`, if it is given.
pub open spec fn parameter(metadata: Seq<Entry<String, String>>, key: Seq<char>) -> Option<
    Seq<char>,
> {
    if has_key(metadata, key) {
        Some(metadata[slot_of(metadata, key)].value@)
    } else {
        None
    }
}

/// The value of the parameter `key` among `metadata`, or `fallback` where it
/// is not given.
pub open spec fn parameter_or(
    metadata: Seq<Entry<String, String>>,
    key: Seq<char>,
    fallback: Seq<char>,
) -> Seq<char> {
    match parameter(metadata, key) {
        Some(value) => value,
        None => fallback,
    }
}

/// `m` is a note that the agent `agent_id` sends to itself: of the given kind
/// and content, of normal priority, without parameters.
pub open spec fn is_note_to_self(
    m: Message,
    agent_id: u128,
    kind: Seq<char>,
    content: Seq<char>,
) -> bool {
    &&& m.from_agent == agent_id
    &&& m.to_agent == agent_id
    &&& m.message_type@ == kind
    &&& m.content@ == content
    &&& m.priority == MessagePriority::Normal
    &&& m.metadata@.len() == 0
}

impl Message {
    /// A note that an agent sends to itself, under the identifier `id` and
    /// stamped `now`.
    pub fn note_to_self_with(
        agent_id: u128,
        kind: &str,
        content: &str,
        id: u128,
        now: i64,
    ) -> (m: Self)
        ensures
            is_note_to_self(m, agent_id, kind@, content@),
            m.id == id,
            m.timestamp == now,
    {
        Message {
            id,
            from_agent: agent_id,
            to_agent: agent_id,
            message_type: String::from_str(kind),
            content: String::from_str(content),
            priority: MessagePriority::Normal,
            timestamp: now,
            metadata: Table::new(),
        }
    }

    /// A note that an agent sends to itself, under a fresh identifier and
    /// stamped with the current time.
    pub fn note_to_self(agent_id: u128, kind: &str, content: &str) -> (m: Self)
        ensures
            is_note_to_self(m, agent_id, kind@, content@),
    {
        let id = fresh_id();
        let at = now();
        Message::note_to_self_with(agent_id, kind, content, id, at)
    }

    /// The value of a parameter, if the message carries it.
    pub fn parameter(&self, key: &str) -> (r: Option<&String>)
        ensures
            match r {
                Some(value) => parameter(self.metadata@, key@) == Some(value@),
                None => parameter(self.metadata@, key@) is None,
            },
    {
        self.metadata.get(&String::from_str(key))
    }

    /// The value of a parameter, or `fallback` where the message does not
    /// carry it.
    pub fn parameter_or(&self, key: &str, fallback: &str) -> (r: String)
        ensures
            r@ == parameter_or(self.metadata@, key@, fallback@),
    {
        match self.parameter(key) {
            Some(value) => value.clone(),
            None => String::from_str(fallback),
        }
    }
}

/// Why the bus did not take a message.
#[derive(Debug)]
pub enum DeliveryError {
    /// The recipient is not in the directory.
    UnknownRecipient(u128),
}

/// `id` is listed in `directory`.
pub open spec fn listed(directory: Seq<u128>, id: u128) -> bool {
    directory.contains(id)
}

/// `i` is the position of the earliest message in `queue` for `recipient`.
pub open spec fn earliest_for(queue: Seq<Message>, recipient: u128, i: int) -> bool {
    &&& 0 <= i < queue.len()
    &&& queue[i].to_agent == recipient
    &&& forall|j: int| 0 <= j < i ==> (#[trigger] queue[j]).to_agent != recipient
}

/// Some message in `queue` is for `recipient`.
pub open spec fn waiting_for(queue: Seq<Message>, recipient: u128) -> bool {
    exists|i: int| 0 <= i < queue.len() && (#[trigger] queue[i]).to_agent == recipient
}

/// A directory of agents and a queue of the messages sent and not yet
/// received. It holds no rule of the business: a message is taken if and only
/// if its recipient is listed, and messages leave in the order they came.
#[derive(Clone, Debug)]
pub struct MessageBus {
    pub directory: Vec<u128>,
    pub queue: Vec<Message>,
}

impl MessageBus {
    /// A bus with no agent listed and nothing queued.
    pub fn new() -> (r: Result<Self, DeliveryError>)
        ensures
            r matches Ok(bus) && bus.directory@.len() == 0 && bus.queue@.len() == 0,
    {
        Ok(MessageBus { directory: Vec::new(), queue: Vec::new() })
    }

    /// Whether an agent is listed.
    pub fn is_registered(&self, agent_id: u128) -> (b: bool)
        ensures
            b == listed(self.directory@, agent_id),
    {
        let mut i: usize = 0;
        while i < self.directory.len()
            invariant
                i <= self.directory@.len(),
                forall|j: int| 0 <= j < i ==> self.directory@[j] != agent_id,
            decreases self.directory@.len() - i,
        {
            if self.directory[i] == agent_id {
                return true;
            }
            i += 1;
        }
        false
    }

    /// Lists an agent, once. The queue is not touched.
    pub fn register(&mut self, agent_id: u128)
        ensures
            final(self).queue == old(self).queue,
            final(self).directory@ == if listed(old(self).directory@, agent_id) {
                old(self).directory@
            } else {
                old(self).directory@.push(agent_id)
            },
            listed(final(self).directory@, agent_id),
    {
        if !self.is_registered(agent_id) {
            self.directory.push(agent_id);
            assert(self.directory@[self.directory@.len() - 1] == agent_id);
        }
    }

    /// Takes a message for delivery. A message to a listed recipient joins the
    /// end of the queue; one to an unknown recipient is refused and the bus
    /// stays as it was.
    pub fn send_message(&mut self, message: Message) -> (r: Result<(), DeliveryError>)
        ensures
            final(self).directory == old(self).directory,
            listed(old(self).directory@, message.to_agent) ==> r is Ok && final(self).queue@ == old(
                self,
            ).queue@.push(message),
            !listed(old(self).directory@, message.to_agent) ==> r == Err::<(), DeliveryError>(
                DeliveryError::UnknownRecipient(message.to_agent),
            ) && *final(self) == *old(self),
    {
        if self.is_registered(message.to_agent) {
            self.queue.push(message);
            Ok(())
        } else {
            Err(DeliveryError::UnknownRecipient(message.to_agent))
        }
    }

    /// Hands over the earliest queued message for `recipient`, if there is
    /// one. The other messages keep their order.
    pub fn receive(&mut self, recipient: u128) -> (r: Option<Message>)
        ensures
            final(self).directory == old(self).directory,
            match r {
                Some(m) => exists|i: int|
                    earliest_for(old(self).queue@, recipient, i) && m == old(self).queue@[i]
                        && final(self).queue@ == old(self).queue@.remove(i),
                None => !waiting_for(old(self).queue@, recipient) && final(self).queue == old(
                    self,
                ).queue,
            },
    {
        let mut i: usize = 0;
        while i < self.queue.len()
            invariant
                *self == *old(self),
                i <= self.queue@.len(),
                forall|j: int| 0 <= j < i ==> (#[trigger] self.queue@[j]).to_agent != recipient,
            decreases self.queue@.len() - i,
        {
            if self.queue[i].to_agent == recipient {
                let m = self.queue.remove(i);
                return Some(m);
            }
            i += 1;
        }
        None
    }

    /// The number of messages queued.
    pub fn pending(&self) -> (n: usize)
        ensures
            n == self.queue@.len(),
    {
        self.queue.len()
    }
}

/// Messages from one sender to one recipient are received in the order in
/// which they were sent: receiving takes the earliest message for the
/// recipient, so of two queued messages between the same pair the later one
/// cannot leave while the earlier one waits.
pub proof fn lemma_fifo_per_pair(
    queue: Seq<Message>,
    recipient: u128,
    i: int,
    earlier: int,
    later: int,
)
    requires
        earliest_for(queue, recipient, i),
        0 <= earlier < later < queue.len(),
        queue[earlier].to_agent == recipient,
        queue[later].to_agent == recipient,
    ensures
        i <= earlier,
        i != later,
{
}

} // verus!
