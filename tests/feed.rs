use libp2p::identity::Keypair;
use libp2p::PeerId;
use libqaul::feed::{Feed, FeedMessageData};
use libqaul::flood::Reception;
use libqaul::rpc::format_time;

struct Author {
    keys: Keypair,
    sender: Vec<u8>,
    key: Vec<u8>,
}

fn author(seed: u8) -> Author {
    let keys = Keypair::ed25519_from_bytes([seed; 32]).unwrap();
    let sender = PeerId::from_public_key(&keys.public()).to_bytes();
    let key = keys.public().encode_protobuf();
    Author { keys, sender, key }
}

fn encode(sender: &[u8], content: &str, time: u64) -> Vec<u8> {
    let mut m = sender.to_vec();
    m.extend_from_slice(content.as_bytes());
    m.extend_from_slice(&time.to_be_bytes());
    m
}

/// Commits post `n` of `a` through the checked path; returns its id.
fn post(f: &mut Feed, a: &Author, n: u8) -> Vec<u8> {
    let content = format!("post {}", n);
    let time = 1000 + n as u64;
    let message = encode(&a.sender, &content, time);
    let id = Feed::sign_message(&message, &a.keys).unwrap();
    let r = f.save_message_by_sync(&id, &a.sender, content, time, &message, Some(a.key.clone()), 5000);
    assert!(matches!(r, Reception::Accepted(_)));
    id
}

fn store_with(a: &Author, ns: &[u8]) -> (Feed, Vec<Vec<u8>>) {
    let mut f = Feed::init();
    let ids = ns.iter().map(|&n| post(&mut f, a, n)).collect();
    (f, ids)
}

/// The public key a peer knows for `sender`.
fn key_of(authors: &[&Author], sender: &[u8]) -> Option<Vec<u8>> {
    authors.iter().find(|a| a.sender == sender).map(|a| a.key.clone())
}

#[test]
fn committing_twice_keeps_one_copy() {
    let a = author(1);
    let mut f = Feed::init();
    let message = encode(&a.sender, "hi", 10);
    let id = Feed::sign_message(&message, &a.keys).unwrap();
    let r = f.save_message_by_sync(&id, &a.sender, "hi".to_string(), 10, &message, Some(a.key.clone()), 20);
    assert_eq!(r, Reception::Accepted(1));
    let r = f.save_message_by_sync(&id, &a.sender, "hi".to_string(), 10, &message, Some(a.key.clone()), 30);
    assert_eq!(r, Reception::Duplicate);
    assert_eq!(f.len(), 1);
    let all = f.since(0);
    assert_eq!(all.len(), 1);
    assert_eq!(all[0].index, 1);
    assert_eq!(all[0].timestamp_received, 20);
}

#[test]
fn sync_with_bad_signature_is_not_committed() {
    let a = author(1);
    let b = author(2);
    let mut f = Feed::init();
    let message = encode(&a.sender, "hi", 10);
    let id = Feed::sign_message(&message, &a.keys).unwrap();
    let forged = encode(&a.sender, "bye", 10);
    let r = f.save_message_by_sync(&id, &a.sender, "bye".to_string(), 10, &forged, Some(a.key.clone()), 20);
    assert_eq!(r, Reception::InvalidSignature);
    let r = f.save_message_by_sync(&id, &a.sender, "hi".to_string(), 10, &message, Some(b.key.clone()), 20);
    assert_eq!(r, Reception::InvalidSignature);
    let r = f.save_message_by_sync(&id, &a.sender, "hi".to_string(), 10, &message, None, 20);
    assert_eq!(r, Reception::UnknownSender);
    assert_eq!(f.len(), 0);
    assert!(!f.contains(&id));
}

#[test]
fn since_zero_returns_commits_in_order() {
    let a = author(1);
    let (f, ids) = store_with(&a, &[5, 3, 8, 1]);
    let all = f.since(0);
    let got: Vec<Vec<u8>> = all.iter().map(|m| m.message_id.clone()).collect();
    assert_eq!(got, ids);
    let seqs: Vec<u64> = all.iter().map(|m| m.index).collect();
    assert_eq!(seqs, vec![1, 2, 3, 4]);
    assert_eq!(
        all[1],
        FeedMessageData {
            index: 2,
            message_id: ids[1].clone(),
            sender_id: a.sender.clone(),
            timestamp_sent: 1003,
            timestamp_received: 5000,
            content: "post 3".to_string(),
        }
    );
}

#[test]
fn since_returns_only_newer() {
    let a = author(1);
    let (f, _) = store_with(&a, &[1, 2, 3]);
    let newer = f.since(1);
    assert_eq!(newer.len(), 2);
    assert_eq!(newer[0].index, 2);
    assert_eq!(newer[1].index, 3);
    assert!(f.since(3).is_empty());
    assert!(f.since(100).is_empty());
}

#[test]
fn latest_ids_are_the_most_recent_ascending() {
    let a = author(1);
    let (f, ids) = store_with(&a, &[1, 2, 3, 4, 5]);
    assert_eq!(f.get_latest_message_ids(2), ids[3..].to_vec());
    assert_eq!(f.get_latest_message_ids(5), ids);
    assert_eq!(f.get_latest_message_ids(0), Vec::<Vec<u8>>::new());
}

#[test]
fn latest_ids_returns_all_when_fewer() {
    let a = author(1);
    let (f, ids) = store_with(&a, &[1, 2]);
    assert_eq!(f.get_latest_message_ids(10), ids);
    let empty = Feed::init();
    assert!(empty.get_latest_message_ids(3).is_empty());
}

#[test]
fn missing_ids_are_those_not_held() {
    let a = author(1);
    let (f, ids) = store_with(&a, &[1, 2, 3]);
    let remote = vec![ids[1].clone(), vec![4, 4], ids[0].clone(), vec![5, 5]];
    assert_eq!(f.process_received_feed_ids(&remote), vec![vec![4, 4], vec![5, 5]]);
    assert!(f.contains(&ids[1]));
    assert!(!f.contains(&vec![4, 4]));
}

#[test]
fn fetch_by_ids_skips_unknown() {
    let a = author(1);
    let (f, ids) = store_with(&a, &[1, 2]);
    let got = f.get_messges_by_ids(&vec![ids[1].clone(), vec![9], ids[0].clone()]);
    assert_eq!(
        got,
        vec![
            (ids[1].clone(), a.sender.clone(), "post 2".to_string(), 1002),
            (ids[0].clone(), a.sender.clone(), "post 1".to_string(), 1001),
        ]
    );
}

/// One catch-up round: `local` asks `remote` for what it lacks and commits
/// what comes back through the checked path.
fn catch_up(local: &mut Feed, remote: &Feed, authors: &[&Author], now: u64) -> usize {
    let offered = remote.get_latest_message_ids(100);
    let missing = local.process_received_feed_ids(&offered);
    for (mid, sender, content, time) in remote.get_messges_by_ids(&missing) {
        let message = encode(&sender, &content, time);
        let r = local.save_message_by_sync(&mid, &sender, content, time, &message, key_of(authors, &sender), now);
        assert!(matches!(r, Reception::Accepted(_)));
    }
    missing.len()
}

#[test]
fn catch_up_converges_and_repeats_as_no_op() {
    let a = author(1);
    let b = author(2);
    let (mut fa, ids_a) = store_with(&a, &[1, 2, 3]);
    let (fb, ids_b) = store_with(&b, &[4, 5]);
    assert_eq!(catch_up(&mut fa, &fb, &[&a, &b], 9000), 2);
    let mut held = fa.get_latest_message_ids(100);
    held.sort();
    let mut expected: Vec<Vec<u8>> = ids_a.iter().chain(ids_b.iter()).cloned().collect();
    expected.sort();
    assert_eq!(held, expected);
    assert_eq!(catch_up(&mut fa, &fb, &[&a, &b], 9001), 0);
    assert_eq!(fa.len(), 5);
}

#[test]
fn two_peers_with_disjoint_histories_converge() {
    let a = author(1);
    let b = author(2);
    let (mut fa, _) = store_with(&a, &[1, 2, 3]);
    let (mut fb, _) = store_with(&b, &[4, 5, 6]);
    let a_missing = fa.process_received_feed_ids(&fb.get_latest_message_ids(10));
    let b_missing = fb.process_received_feed_ids(&fa.get_latest_message_ids(10));
    assert_eq!(a_missing.len(), 3);
    assert_eq!(b_missing.len(), 3);
    assert_eq!(catch_up(&mut fa, &fb, &[&a, &b], 7000), 3);
    assert_eq!(catch_up(&mut fb, &fa, &[&a, &b], 7000), 3);
    assert_eq!(fa.len(), 6);
    assert_eq!(fb.len(), 6);
    let key = |m: &FeedMessageData| (m.message_id.clone(), m.sender_id.clone(), m.content.clone(), m.timestamp_sent);
    let mut a_all: Vec<_> = fa.since(0).iter().map(key).collect();
    let mut b_all: Vec<_> = fb.since(0).iter().map(key).collect();
    a_all.sort();
    b_all.sort();
    assert_eq!(a_all, b_all);
    let a_seqs: Vec<u64> = fa.since(0).iter().map(|m| m.index).collect();
    assert_eq!(a_seqs, vec![1, 2, 3, 4, 5, 6]);
    assert!(fa.process_received_feed_ids(&fb.get_latest_message_ids(10)).is_empty());
}

fn stored(index: u64, id: Vec<u8>) -> FeedMessageData {
    FeedMessageData {
        index,
        message_id: id.clone(),
        sender_id: id,
        timestamp_sent: 1000,
        timestamp_received: 86_400_000,
        content: "x".to_string(),
    }
}

#[test]
fn restore_takes_a_well_numbered_log() {
    let f = Feed::restore(vec![stored(1, vec![1]), stored(2, vec![2])]).unwrap();
    assert_eq!(f.len(), 2);
    assert!(f.contains(&vec![2]));
    assert_eq!(f.since(0), vec![stored(1, vec![1]), stored(2, vec![2])]);
    assert_eq!(Feed::restore(Vec::new()).unwrap().len(), 0);
}

#[test]
fn restore_refuses_gaps_and_repeated_ids() {
    assert!(Feed::restore(vec![stored(1, vec![1]), stored(3, vec![2])]).is_none());
    assert!(Feed::restore(vec![stored(2, vec![1])]).is_none());
    assert!(Feed::restore(vec![stored(1, vec![1]), stored(2, vec![1])]).is_none());
}

#[test]
fn history_for_clients_writes_base58_and_rfc3339() {
    let mid = vec![0x04, 0x30, 0x5e, 0x2b, 0x24, 0x73, 0xf0, 0x58];
    let f = Feed::restore(vec![stored(1, mid)]).unwrap();
    let list = f.get_messages(0);
    assert_eq!(list.feed_message.len(), 1);
    let m = &list.feed_message[0];
    assert_eq!(m.message_id_base58, "he11owor1d");
    assert_eq!(m.sender_id_base58, "he11owor1d");
    assert_eq!(m.time_sent, "1970-01-01T00:00:01Z");
    assert_eq!(m.time_received, "1970-01-02T00:00:00Z");
    assert_eq!(m.timestamp_sent, 1000);
    assert_eq!(m.index, 1);
    assert_eq!(m.content, "x");
    assert!(f.get_messages(1).feed_message.is_empty());
}

#[test]
fn format_time_edges() {
    assert_eq!(format_time(0), "1970-01-01T00:00:00Z");
    assert_eq!(format_time(1500), "1970-01-01T00:00:01.500000000Z");
    assert_eq!(format_time(u64::MAX), "");
    assert_eq!(format_time(253_402_300_800_000), "");
    assert_eq!(format_time(253_402_300_799_000), "9999-12-31T23:59:59Z");
}
