//! The feed history as handed to local clients: stored messages with their
//! ids also written in Base58 and their times in RFC 3339.

use vstd::prelude::*;
use crate::bytes::copy_bytes;
use crate::feed::{messages_since, Feed, FeedMessageData, MessageRecord};

verus! {

/// The latest instant that RFC 3339 formatting accepts, in milliseconds
/// since the epoch (the start of the year 10000, exclusive).
pub const RFC3339_LIMIT_MILLIS: u64 = 253_402_300_800_000;

/// The Base58 text (Bitcoin alphabet) of `bytes`.
pub uninterp spec fn base58_of(bytes: Seq<u8>) -> Seq<char>;

/// The RFC 3339 text, in UTC, of the instant `millis` milliseconds after
/// the epoch.
pub uninterp spec fn rfc3339_of(millis: u64) -> Seq<char>;

/// Relies on `bs58::encode(..).into_string()`: the Base58 text of `bytes`.
#[verifier::external_body]
fn to_base58(bytes: &Vec<u8>) -> (r: String)
    ensures
        r@ == base58_of(bytes@),
{
    bs58::encode(bytes).into_string()
}

/// Relies on `humantime::format_rfc3339`, whose text fails only from the
/// year 10000 on: the RFC 3339 text of the instant `millis` after the epoch.
#[verifier::external_body]
fn to_rfc3339(millis: u64) -> (r: String)
    requires
        millis < RFC3339_LIMIT_MILLIS,
    ensures
        r@ == rfc3339_of(millis),
{
    let t = std::time::UNIX_EPOCH + std::time::Duration::from_millis(millis);
    humantime::format_rfc3339(t).to_string()
}

/// The RFC 3339 text of a time, or the empty text for a time that it cannot
/// write.
pub open spec fn time_text(millis: u64) -> Seq<char> {
    if millis < RFC3339_LIMIT_MILLIS {
        rfc3339_of(millis)
    } else {
        Seq::empty()
    }
}

/// Writes a time in milliseconds as RFC 3339 text; empty from the year
/// 10000 on.
pub fn format_time(millis: u64) -> (r: String)
    ensures
        r@ == time_text(millis),
{
    if millis < RFC3339_LIMIT_MILLIS {
        to_rfc3339(millis)
    } else {
        String::new()
    }
}

/// One message of the history sent to a client.
#[derive(Clone, Debug, PartialEq, Eq)]
pub struct FeedMessage {
    pub sender_id: Vec<u8>,
    pub sender_id_base58: String,
    pub message_id: Vec<u8>,
    pub message_id_base58: String,
    pub time_sent: String,
    pub timestamp_sent: u64,
    pub time_received: String,
    pub timestamp_received: u64,
    pub content: String,
    /// local sequence number
    pub index: u64,
}

/// The history sent to a client.
#[derive(Clone, Debug, PartialEq, Eq)]
pub struct FeedMessageList {
    pub feed_message: Vec<FeedMessage>,
}

/// `m` presents the stored message `rec`.
pub open spec fn presents(m: FeedMessage, rec: MessageRecord) -> bool {
    &&& m.sender_id@ == rec.sender
    &&& m.sender_id_base58@ == base58_of(rec.sender)
    &&& m.message_id@ == rec.id
    &&& m.message_id_base58@ == base58_of(rec.id)
    &&& m.time_sent@ == time_text(rec.sent)
    &&& m.timestamp_sent == rec.sent
    &&& m.time_received@ == time_text(rec.received)
    &&& m.timestamp_received == rec.received
    &&& m.content@ == rec.content
    &&& m.index == rec.index
}

/// Presents one stored message to a client.
pub fn present(data: &FeedMessageData) -> (r: FeedMessage)
    ensures
        presents(r, data@),
{
    FeedMessage {
        sender_id: copy_bytes(&data.sender_id),
        sender_id_base58: to_base58(&data.sender_id),
        message_id: copy_bytes(&data.message_id),
        message_id_base58: to_base58(&data.message_id),
        time_sent: format_time(data.timestamp_sent),
        timestamp_sent: data.timestamp_sent,
        time_received: format_time(data.timestamp_received),
        timestamp_received: data.timestamp_received,
        content: data.content.clone(),
        index: data.index,
    }
}

impl Feed {
    /// The messages newer than sequence number `last_message`, oldest
    /// first, as sent to a client.
    pub fn get_messages(&self, last_message: u64) -> (r: FeedMessageList)
        requires
            self.wf(),
        ensures
            r.feed_message@.len() == messages_since(self@, last_message).len(),
            forall|i: int| 0 <= i < r.feed_message@.len() ==> presents(
                #[trigger] r.feed_message@[i],
                messages_since(self@, last_message)[i],
            ),
            forall|i: int| 0 <= i < r.feed_message@.len() ==> (#[trigger] r.feed_message@[i]).index == last_message + 1 + i,
    {
        let stored = self.since(last_message);
        let ghost recs = messages_since(self@, last_message);
        assert(stored@.len() == recs.len() && forall|i: int| 0 <= i < stored@.len() ==> #[trigger] stored@[i]@ == recs[i]) by {
            assert(stored@.map_values(|m: FeedMessageData| m@).len() == stored@.len());
            assert forall|i: int| 0 <= i < stored@.len() implies #[trigger] stored@[i]@ == recs[i] by {
                assert(stored@.map_values(|m: FeedMessageData| m@)[i] == stored@[i]@);
            }
        }
        let mut feed_message: Vec<FeedMessage> = Vec::new();
        let mut i: usize = 0;
        while i < stored.len()
            invariant
                0 <= i <= stored@.len(),
                stored@.len() == recs.len(),
                forall|j: int| 0 <= j < stored@.len() ==> #[trigger] stored@[j]@ == recs[j],
                feed_message@.len() == i,
                forall|j: int| 0 <= j < i ==> presents(#[trigger] feed_message@[j], recs[j]),
                forall|j: int| 0 <= j < stored@.len() ==> (#[trigger] stored@[j]).index == last_message + 1 + j,
                forall|j: int| 0 <= j < i ==> (#[trigger] feed_message@[j]).index == last_message + 1 + j,
            decreases stored@.len() - i,
        {
            feed_message.push(present(&stored[i]));
            i = i + 1;
        }
        FeedMessageList { feed_message }
    }
}

} // verus!
