//! Accepting feed messages: authenticity check, deduplication against the
//! store, commit, and the decision to forward. Signing of authored messages.

use vstd::prelude::*;
use libp2p::identity::{Keypair, PublicKey};
use libp2p::PeerId;
use crate::bytes::copy_bytes;
use crate::feed::{committed, holds_id, Feed, MessageRecord};

verus! {

/// libp2p's signing key pair, carried through unopened to `sign_message`.
#[verifier::external_type_specification]
#[verifier::external_body]
pub struct ExKeypair(Keypair);

/// The encoded message content that a sender signs.
#[derive(Clone, Debug, PartialEq, Eq)]
pub struct FeedMessageContent {
    /// id of the sending user
    pub sender: Vec<u8>,
    /// the text of the message
    pub content: String,
    /// time sent in milliseconds
    pub time: u64,
}

/// A signed message as it travels: the encoded content and its signature.
#[derive(Clone, Debug, PartialEq, Eq)]
pub struct FeedContainer {
    pub signature: Vec<u8>,
    pub message: Vec<u8>,
}

/// Whether `signature` is a valid signature of `message` under the public
/// key whose protobuf encoding is `key`.
pub uninterp spec fn signature_verifies(key: Seq<u8>, message: Seq<u8>, signature: Seq<u8>) -> bool;

/// Whether `bytes` is the encoding of a peer id.
pub uninterp spec fn is_peer_id(bytes: Seq<u8>) -> bool;

/// Relies on libp2p's `PeerId::from_bytes`: whether it parses `bytes`.
#[verifier::external_body]
fn parses_as_peer_id(bytes: &Vec<u8>) -> (r: bool)
    ensures
        r == is_peer_id(bytes@),
{
    PeerId::from_bytes(bytes).is_ok()
}

/// What became of a received message.
#[derive(Clone, Copy, Debug, PartialEq, Eq, Structural)]
pub enum Reception {
    /// The sender field is no peer id; dropped.
    MalformedSender,
    /// No public key is known for the sender; dropped.
    UnknownSender,
    /// The signature does not verify; dropped, never stored or forwarded.
    InvalidSignature,
    /// Already in the store; dropped silently.
    Duplicate,
    /// Every sequence number is taken; dropped.
    StoreFull,
    /// Committed with this sequence number; to be forwarded on every transport.
    Accepted(u64),
}

/// The outcome of receiving `container`, whose content decodes to
/// (`sender`, `content`, `time`), with `key` the sender's known public key.
pub open spec fn reception_of(
    log: Seq<MessageRecord>,
    signature: Seq<u8>,
    message: Seq<u8>,
    sender: Seq<u8>,
    key: Option<Seq<u8>>,
) -> Reception {
    if !is_peer_id(sender) {
        Reception::MalformedSender
    } else if key.is_none() {
        Reception::UnknownSender
    } else if !signature_verifies(key.unwrap(), message, signature) {
        Reception::InvalidSignature
    } else if holds_id(log, signature) {
        Reception::Duplicate
    } else if log.len() >= u64::MAX {
        Reception::StoreFull
    } else {
        Reception::Accepted((log.len() + 1) as u64)
    }
}

/// The bytes of a key, if there is one.
pub open spec fn key_view(key: Option<Vec<u8>>) -> Option<Seq<u8>> {
    match key {
        Some(k) => Some(k@),
        None => None,
    }
}

impl Feed {
    /// Relies on libp2p's `PublicKey::try_decode_protobuf` to read the key and
    /// `PublicKey::verify` to check the container's signature over its message.
    #[verifier::external_body]
    pub fn validate_message(msg: &FeedContainer, key: &Vec<u8>) -> (r: bool)
        ensures
            r == signature_verifies(key@, msg.message@, msg.signature@),
    {
        match PublicKey::try_decode_protobuf(key) {
            Ok(k) => k.verify(&msg.message, &msg.signature),
            Err(_) => false,
        }
    }

    /// Relies on libp2p's `Keypair::sign`: signs `buf`. With Ed25519 keys,
    /// the only kind this build enables, signing always succeeds.
    #[verifier::external_body]
    pub fn sign_message(buf: &Vec<u8>, keys: &Keypair) -> (r: Option<Vec<u8>>)
        ensures
            r is Some,
    {
        keys.sign(buf).ok()
    }

    /// Processes a message received from the network at time `now`.
    /// `feed_content` is what `feed_container.message` decodes to and
    /// `sender_key` the public key known for its sender. The message is
    /// committed only if the sender is a valid peer id with a known key, the
    /// signature verifies and the id is new; only then is it to be forwarded.
    pub fn received(
        &mut self,
        feed_container: &FeedContainer,
        feed_content: FeedMessageContent,
        sender_key: Option<Vec<u8>>,
        now: u64,
    ) -> (r: Reception)
        requires
            old(self).wf(),
        ensures
            final(self).wf(),
            r == reception_of(
                old(self)@,
                feed_container.signature@,
                feed_container.message@,
                feed_content.sender@,
                key_view(sender_key),
            ),
            r is Accepted ==> final(self)@ == committed(
                old(self)@,
                feed_container.signature@,
                feed_content.sender@,
                feed_content.content@,
                feed_content.time,
                now,
            ),
            !(r is Accepted) ==> final(self)@ == old(self)@,
    {
        if !parses_as_peer_id(&feed_content.sender) {
            return Reception::MalformedSender;
        }
        let key = match sender_key {
            Some(k) => k,
            None => return Reception::UnknownSender,
        };
        if !Self::validate_message(feed_container, &key) {
            return Reception::InvalidSignature;
        }
        if self.contains(&feed_container.signature) {
            return Reception::Duplicate;
        }
        if self.len() == u64::MAX {
            return Reception::StoreFull;
        }
        match self.commit(&feed_container.signature, &feed_content.sender, feed_content.content, feed_content.time, now) {
            Some(i) => Reception::Accepted(i),
            None => Reception::Duplicate,
        }
    }

    /// Commits a message fetched from a peer during catch-up, received at
    /// `received_at`. `message` is the encoding of (`sender_id`, `content`,
    /// `time`) that `message_id` signs, and `sender_key` the public key known
    /// for the sender. It is checked exactly as a flooded message is, and
    /// committed only if it passes and its id is new.
    pub fn save_message_by_sync(
        &mut self,
        message_id: &Vec<u8>,
        sender_id: &Vec<u8>,
        content: String,
        time: u64,
        message: &Vec<u8>,
        sender_key: Option<Vec<u8>>,
        received_at: u64,
    ) -> (r: Reception)
        requires
            old(self).wf(),
        ensures
            final(self).wf(),
            r == reception_of(old(self)@, message_id@, message@, sender_id@, key_view(sender_key)),
            r is Accepted ==> final(self)@ == committed(old(self)@, message_id@, sender_id@, content@, time, received_at),
            !(r is Accepted) ==> final(self)@ == old(self)@,
    {
        let container = FeedContainer { signature: copy_bytes(message_id), message: copy_bytes(message) };
        let content = FeedMessageContent { sender: copy_bytes(sender_id), content, time };
        self.received(&container, content, sender_key, received_at)
    }

    /// Authors a message: signs `message`, the encoding of `feed_content`,
    /// with `keys` and commits it at time `now` like a received one. Returns
    /// the signed container to send on every transport.
    pub fn send(&mut self, keys: &Keypair, feed_content: FeedMessageContent, message: Vec<u8>, now: u64) -> (r:
        FeedContainer)
        requires
            old(self).wf(),
        ensures
            final(self).wf(),
            r.message@ == message@,
            final(self)@ == committed(
                old(self)@,
                r.signature@,
                feed_content.sender@,
                feed_content.content@,
                feed_content.time,
                now,
            ),
            !holds_id(old(self)@, r.signature@) && old(self)@.len() < u64::MAX ==> final(self)@.len() == old(self)@.len()
                + 1 && final(self)@.last().id == r.signature@,
    {
        let signature = match Self::sign_message(&message, keys) {
            Some(s) => s,
            None => Vec::new(),
        };
        self.commit(&signature, &feed_content.sender, feed_content.content, feed_content.time, now);
        FeedContainer { signature, message }
    }
}

} // verus!
