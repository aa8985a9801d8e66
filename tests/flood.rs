use libp2p::identity::Keypair;
use libp2p::PeerId;
use libqaul::feed::Feed;
use libqaul::flood::{FeedContainer, FeedMessageContent, Reception};

fn keypair(seed: u8) -> Keypair {
    Keypair::ed25519_from_bytes([seed; 32]).unwrap()
}

fn sender_of(kp: &Keypair) -> Vec<u8> {
    PeerId::from_public_key(&kp.public()).to_bytes()
}

fn signed(kp: &Keypair, content: &str, time: u64) -> (FeedContainer, FeedMessageContent) {
    let sender = sender_of(kp);
    let mut message = sender.clone();
    message.extend_from_slice(content.as_bytes());
    message.extend_from_slice(&time.to_be_bytes());
    let signature = Feed::sign_message(&message, kp).unwrap();
    (
        FeedContainer { signature, message },
        FeedMessageContent { sender, content: content.to_string(), time },
    )
}

#[test]
fn valid_message_is_committed_once_and_forwarded_once() {
    let a = keypair(1);
    let key = a.public().encode_protobuf();
    let (container, content) = signed(&a, "hello", 1000);
    let mut feed = Feed::init();
    assert!(!feed.contains(&container.signature));
    let r = feed.received(&container, content.clone(), Some(key.clone()), 5000);
    assert_eq!(r, Reception::Accepted(1));
    assert!(feed.contains(&container.signature));
    let stored = feed.since(0);
    assert_eq!(stored.len(), 1);
    assert_eq!(stored[0].content, "hello");
    assert_eq!(stored[0].timestamp_sent, 1000);
    assert_eq!(stored[0].timestamp_received, 5000);
    assert_eq!(stored[0].sender_id, content.sender);
    let again = feed.received(&container.clone(), content, Some(key), 5001);
    assert_eq!(again, Reception::Duplicate);
    assert_eq!(feed.len(), 1);
}

#[test]
fn invalid_signature_is_never_committed() {
    let a = keypair(1);
    let key = a.public().encode_protobuf();
    let (mut container, content) = signed(&a, "hello", 1000);
    container.message.push(0);
    let mut feed = Feed::init();
    assert_eq!(feed.received(&container, content, Some(key), 5000), Reception::InvalidSignature);
    assert!(!feed.contains(&container.signature));
    assert_eq!(feed.len(), 0);
}

#[test]
fn signature_under_another_key_is_rejected() {
    let a = keypair(1);
    let b = keypair(2);
    let (container, content) = signed(&a, "hello", 1000);
    let mut feed = Feed::init();
    let r = feed.received(&container, content, Some(b.public().encode_protobuf()), 5000);
    assert_eq!(r, Reception::InvalidSignature);
    assert_eq!(feed.len(), 0);
}

#[test]
fn unknown_sender_is_dropped() {
    let a = keypair(1);
    let (container, content) = signed(&a, "hello", 1000);
    let mut feed = Feed::init();
    assert_eq!(feed.received(&container, content, None, 5000), Reception::UnknownSender);
    assert_eq!(feed.len(), 0);
}

#[test]
fn malformed_sender_is_dropped() {
    let a = keypair(1);
    let key = a.public().encode_protobuf();
    let (container, mut content) = signed(&a, "hello", 1000);
    content.sender = vec![0xff, 0xff];
    let mut feed = Feed::init();
    assert_eq!(feed.received(&container, content, Some(key), 5000), Reception::MalformedSender);
    assert_eq!(feed.len(), 0);
}

#[test]
fn validate_message_checks_the_signature() {
    let a = keypair(3);
    let (container, _) = signed(&a, "x", 1);
    assert!(Feed::validate_message(&container, &a.public().encode_protobuf()));
    assert!(!Feed::validate_message(&container, &vec![1, 2, 3]));
}

#[test]
fn authored_message_is_stored_and_echo_is_a_duplicate() {
    let a = keypair(4);
    let key = a.public().encode_protobuf();
    let sender = sender_of(&a);
    let message = b"encoded post".to_vec();
    let content = FeedMessageContent { sender: sender.clone(), content: "mine".to_string(), time: 42 };
    let mut feed = Feed::init();
    let container = feed.send(&a, content.clone(), message.clone(), 43);
    assert_eq!(container.message, message);
    assert!(Feed::validate_message(&container, &key));
    assert_eq!(feed.len(), 1);
    assert!(feed.contains(&container.signature));
    assert_eq!(feed.received(&container, content, Some(key), 50), Reception::Duplicate);
    assert_eq!(feed.len(), 1);
}
