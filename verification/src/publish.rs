//! Telemetry messages and their best-effort delivery.
//!
//! A message is tried up to [`MAX_ATTEMPTS`] times, one attempt after the
//! other with no pause between them. When the last attempt has failed the
//! message is dropped: a lost message never stops the polling.

use vstd::prelude::*;
use vstd::string::{StrSliceExecFns, StringExecFns};
use vstd::utf8::encode_utf8;

verus! {

/// The number of attempts after which a message is dropped.
pub const MAX_ATTEMPTS: u8 = 5;

/// A payload for a named channel of the broker.
#[derive(Debug, Clone, PartialEq, Eq)]
pub struct Message {
    pub topic: String,
    pub payload: Vec<u8>,
}

/// What a message says: the channel's name and the payload's bytes.
pub struct Note {
    pub topic: Seq<char>,
    pub payload: Seq<u8>,
}

impl View for Message {
    type V = Note;

    open spec fn view(&self) -> Note {
        Note { topic: self.topic@, payload: self.payload@ }
    }
}

/// The name of a channel: the topic prefix, a slash, and the suffix.
pub open spec fn channel(prefix: Seq<char>, suffix: Seq<char>) -> Seq<char> {
    prefix + "/"@ + suffix
}

/// The message that carries a command's result under the command's name.
pub open spec fn update_note(prefix: Seq<char>, command: Seq<char>, value: Seq<u8>) -> Note {
    Note { topic: channel(prefix, command), payload: value }
}

/// The message that reports an error: its text, in UTF-8, on the error
/// channel.
pub open spec fn error_note(prefix: Seq<char>, error: Seq<char>) -> Note {
    Note { topic: channel(prefix, "error"@), payload: encode_utf8(error) }
}

/// The message that clears the error channel: an empty payload.
pub open spec fn cleared_note(prefix: Seq<char>) -> Note {
    Note { topic: channel(prefix, "error"@), payload: Seq::empty() }
}

/// The message of a delivery that carries nothing.
pub open spec fn blank_note() -> Note {
    Note { topic: Seq::empty(), payload: Seq::empty() }
}

/// What a delivery is at: the message, and how many attempts have been
/// started, the one under way included.
pub struct Parcel {
    pub note: Note,
    pub attempts: nat,
}

impl Parcel {
    /// A message at its first attempt.
    pub open spec fn first(note: Note) -> Parcel {
        Parcel { note, attempts: 1 }
    }

    /// No message, no attempt.
    pub open spec fn idle() -> Parcel {
        Parcel { note: blank_note(), attempts: 0 }
    }

    /// An attempt is under way and within the bound.
    pub open spec fn live(self) -> bool {
        1 <= self.attempts <= MAX_ATTEMPTS
    }

    /// Whether the message is tried again after an attempt ended: only after
    /// a failure, and only while attempts are left.
    pub open spec fn retries(self, delivered: bool) -> bool {
        !delivered && self.attempts < MAX_ATTEMPTS
    }

    /// The delivery after an attempt ended.
    pub open spec fn settled(self, delivered: bool) -> Parcel {
        if self.retries(delivered) {
            Parcel { attempts: self.attempts + 1, ..self }
        } else {
            self
        }
    }
}

/// A message together with the count of its attempts.
#[derive(Debug, Clone, PartialEq, Eq)]
pub struct Delivery {
    message: Message,
    attempts: u8,
}

impl View for Delivery {
    type V = Parcel;

    closed spec fn view(&self) -> Parcel {
        Parcel { note: self.message@, attempts: self.attempts as nat }
    }
}

/// Below one prefix, two suffixes that name one channel are one suffix.
pub proof fn lemma_channel_injective(prefix: Seq<char>, a: Seq<char>, b: Seq<char>)
    requires
        channel(prefix, a) == channel(prefix, b),
    ensures
        a == b,
{
    reveal_strlit("/");
    let start = prefix.len() + 1;
    assert(a =~= channel(prefix, a).subrange(start as int, channel(prefix, a).len() as int));
    assert(b =~= channel(prefix, b).subrange(start as int, channel(prefix, b).len() as int));
}

impl Message {
    /// The message for a channel below the topic prefix.
    pub fn new(prefix: &str, suffix: &str, payload: Vec<u8>) -> (message: Message)
        ensures
            message@ == (Note { topic: channel(prefix@, suffix@), payload: payload@ }),
    {
        let mut topic = String::from_str(prefix);
        topic.append("/");
        topic.append(suffix);
        Message { topic, payload }
    }

    /// A message that says the same.
    pub fn duplicate(&self) -> (copy: Message)
        ensures
            copy@ == self@,
    {
        let mut payload: Vec<u8> = Vec::new();
        let mut i: usize = 0;
        while i < self.payload.len()
            invariant
                i <= self.payload.len(),
                payload@ == self.payload@.take(i as int),
            decreases self.payload.len() - i,
        {
            payload.push(self.payload[i]);
            i = i + 1;
            assert(payload@ =~= self.payload@.take(i as int));
        }
        assert(self.payload@.take(self.payload.len() as int) =~= self.payload@);
        Message { topic: self.topic.clone(), payload }
    }
}

impl Delivery {
    /// A message at its first attempt.
    pub fn new(message: Message) -> (delivery: Delivery)
        ensures
            delivery@ == Parcel::first(message@),
    {
        Delivery { message, attempts: 1 }
    }

    /// No message, no attempt.
    pub fn idle() -> (delivery: Delivery)
        ensures
            delivery@ == Parcel::idle(),
    {
        Delivery { message: Message { topic: String::new(), payload: Vec::new() }, attempts: 0 }
    }

    /// The message to hand to the broker.
    pub fn message(&self) -> (message: &Message)
        ensures
            message@ == self@.note,
    {
        &self.message
    }

    /// The attempts started so far.
    pub fn attempts(&self) -> (attempts: u8)
        ensures
            attempts == self@.attempts,
    {
        self.attempts
    }

    /// Records how the attempt under way ended, and says whether the message
    /// is to be handed to the broker once more.
    pub fn settle(&mut self, delivered: bool) -> (again: bool)
        ensures
            again == old(self)@.retries(delivered),
            final(self)@ == old(self)@.settled(delivered),
    {
        if !delivered && self.attempts < MAX_ATTEMPTS {
            self.attempts = self.attempts + 1;
            true
        } else {
            false
        }
    }
}

/// Starts the delivery of a command's result under the command's name.
pub fn publish_update(topic: &str, command: &str, value: Vec<u8>) -> (delivery: Delivery)
    ensures
        delivery@ == Parcel::first(update_note(topic@, command@, value@)),
{
    Delivery::new(Message::new(topic, command, value))
}

/// Starts the delivery of an error's text on the error channel.
pub fn publish_error(topic: &str, error: &str) -> (delivery: Delivery)
    ensures
        delivery@ == Parcel::first(error_note(topic@, error@)),
{
    Delivery::new(Message::new(topic, "error", error.as_bytes_vec()))
}

/// Starts the delivery of the empty payload that clears the error channel.
pub fn clear_error(topic: &str) -> (delivery: Delivery)
    ensures
        delivery@ == Parcel::first(cleared_note(topic@)),
{
    Delivery::new(Message::new(topic, "error", Vec::new()))
}

} // verus!
