//! The feed store: every accepted message, kept once, numbered in the order
//! it was committed, with the queries that flooding and catch-up rely on.

use vstd::prelude::*;
use crate::bytes::{bytes_eq, copy_bytes};

verus! {

/// A committed message as stored, with its local sequence number.
#[derive(Clone, Debug, PartialEq, Eq)]
pub struct FeedMessageData {
    /// local sequence number, starting at 1
    pub index: u64,
    /// signature of the sender over the encoded message; also its id
    pub message_id: Vec<u8>,
    /// id of the sending user
    pub sender_id: Vec<u8>,
    /// time sent in milliseconds
    pub timestamp_sent: u64,
    /// time received in milliseconds
    pub timestamp_received: u64,
    /// the message content
    pub content: String,
}

/// What a stored message is, as a value.
pub struct MessageRecord {
    pub index: u64,
    pub id: Seq<u8>,
    pub sender: Seq<u8>,
    pub content: Seq<char>,
    pub sent: u64,
    pub received: u64,
}

impl View for FeedMessageData {
    type V = MessageRecord;

    open spec fn view(&self) -> MessageRecord {
        MessageRecord {
            index: self.index,
            id: self.message_id@,
            sender: self.sender_id@,
            content: self.content@,
            sent: self.timestamp_sent,
            received: self.timestamp_received,
        }
    }
}

impl FeedMessageData {
    /// An owned copy of this message.
    pub fn duplicate(&self) -> (r: FeedMessageData)
        ensures
            r@ == self@,
    {
        FeedMessageData {
            index: self.index,
            message_id: copy_bytes(&self.message_id),
            sender_id: copy_bytes(&self.sender_id),
            timestamp_sent: self.timestamp_sent,
            timestamp_received: self.timestamp_received,
            content: self.content.clone(),
        }
    }
}

/// The byte strings of a list of ids.
pub open spec fn id_views(ids: Seq<Vec<u8>>) -> Seq<Seq<u8>> {
    ids.map_values(|v: Vec<u8>| v@)
}

/// The ids of a log, in log order.
pub open spec fn ids_of(log: Seq<MessageRecord>) -> Seq<Seq<u8>> {
    log.map_values(|m: MessageRecord| m.id)
}

/// Whether some message of `log` has id `id`.
pub open spec fn holds_id(log: Seq<MessageRecord>, id: Seq<u8>) -> bool {
    exists|i: int| 0 <= i < log.len() && log[i].id == id
}

/// Messages are numbered 1, 2, ... in log order, and no id occurs twice.
pub open spec fn valid_log(log: Seq<MessageRecord>) -> bool {
    &&& forall|i: int| 0 <= i < log.len() ==> (#[trigger] log[i]).index == i + 1
    &&& forall|i: int, j: int| 0 <= i < log.len() && 0 <= j < log.len() && i != j
        ==> (#[trigger] log[i]).id != (#[trigger] log[j]).id
}

/// The log after committing a message: unchanged if its id is already held
/// or every sequence number is taken, else the message is appended with the
/// next sequence number.
pub open spec fn committed(
    log: Seq<MessageRecord>,
    id: Seq<u8>,
    sender: Seq<u8>,
    content: Seq<char>,
    sent: u64,
    received: u64,
) -> Seq<MessageRecord> {
    if holds_id(log, id) || log.len() >= u64::MAX {
        log
    } else {
        log.push(MessageRecord { index: (log.len() + 1) as u64, id, sender, content, sent, received })
    }
}

/// The log after committing each of `posts` in turn (their `index` is not read).
pub open spec fn commit_all(log: Seq<MessageRecord>, posts: Seq<MessageRecord>) -> Seq<MessageRecord>
    decreases posts.len(),
{
    if posts.len() == 0 {
        log
    } else {
        let p = posts.last();
        committed(commit_all(log, posts.drop_last()), p.id, p.sender, p.content, p.sent, p.received)
    }
}

/// The messages of `log` with a sequence number greater than `after`.
pub open spec fn messages_since(log: Seq<MessageRecord>, after: u64) -> Seq<MessageRecord> {
    if (after as int) < log.len() {
        log.subrange(after as int, log.len() as int)
    } else {
        Seq::empty()
    }
}

/// The `count` most recent messages of `log` (all of them if there are fewer).
pub open spec fn latest(log: Seq<MessageRecord>, count: nat) -> Seq<MessageRecord> {
    if count < log.len() {
        log.subrange(log.len() - count, log.len() as int)
    } else {
        log
    }
}

/// The ids of `ids` that `log` does not hold, in the order given.
pub open spec fn missing_of(log: Seq<MessageRecord>, ids: Seq<Seq<u8>>) -> Seq<Seq<u8>>
    decreases ids.len(),
{
    if ids.len() == 0 {
        Seq::empty()
    } else {
        let rest = missing_of(log, ids.drop_last());
        if holds_id(log, ids.last()) {
            rest
        } else {
            rest.push(ids.last())
        }
    }
}

/// Where the last message with id `id` stands in `log`, or -1.
pub open spec fn position(log: Seq<MessageRecord>, id: Seq<u8>) -> int
    decreases log.len(),
{
    if log.len() == 0 {
        -1
    } else if log.last().id == id {
        log.len() - 1
    } else {
        position(log.drop_last(), id)
    }
}

/// For each id of `ids` that `log` holds, in the order given: the id, its
/// sender, its content and the time it was sent.
pub open spec fn fetched(log: Seq<MessageRecord>, ids: Seq<Seq<u8>>) -> Seq<(Seq<u8>, Seq<u8>, Seq<char>, u64)>
    decreases ids.len(),
{
    if ids.len() == 0 {
        Seq::empty()
    } else {
        let rest = fetched(log, ids.drop_last());
        let p = position(log, ids.last());
        if p >= 0 {
            rest.push((ids.last(), log[p].sender, log[p].content, log[p].sent))
        } else {
            rest
        }
    }
}

proof fn lemma_position(log: Seq<MessageRecord>, id: Seq<u8>)
    ensures
        -1 <= position(log, id) < log.len(),
        position(log, id) >= 0 <==> holds_id(log, id),
        position(log, id) >= 0 ==> log[position(log, id)].id == id,
        valid_log(log) ==> forall|i: int| 0 <= i < log.len() && log[i].id == id ==> i == position(log, id),
    decreases log.len(),
{
    if log.len() > 0 {
        let t = log.drop_last();
        lemma_position(t, id);
        if holds_id(log, id) && log.last().id != id {
            let i = choose|i: int| 0 <= i < log.len() && log[i].id == id;
            assert(t[i].id == id);
        }
        if holds_id(t, id) {
            let i = choose|i: int| 0 <= i < t.len() && t[i].id == id;
            assert(log[i].id == id);
        }
        if valid_log(log) {
            assert(valid_log(t)) by {
                assert forall|i: int| 0 <= i < t.len() implies (#[trigger] t[i]).index == i + 1 by {
                    assert(t[i] == log[i]);
                }
            }
        }
    }
}

/// The feed store. The log is the ordered view; lookups by id search it.
pub struct Feed {
    log: Vec<FeedMessageData>,
    last_message: u64,
}

impl View for Feed {
    type V = Seq<MessageRecord>;

    /// The committed messages, oldest first.
    closed spec fn view(&self) -> Seq<MessageRecord> {
        self.log@.map_values(|m: FeedMessageData| m@)
    }
}

impl Feed {
    pub closed spec fn wf(&self) -> bool {
        &&& self.last_message as int == self.log@.len()
        &&& valid_log(self@)
    }

    /// An empty store.
    pub fn init() -> (r: Feed)
        ensures
            r.wf(),
            r@ == Seq::<MessageRecord>::empty(),
    {
        let r = Feed { log: Vec::new(), last_message: 0 };
        assert(r@ =~= Seq::<MessageRecord>::empty());
        r
    }

    /// The number of committed messages, which is also the last sequence
    /// number assigned.
    pub fn len(&self) -> (r: u64)
        requires
            self.wf(),
        ensures
            r as int == self@.len(),
    {
        self.last_message
    }

    proof fn lemma_valid(&self)
        requires
            self.wf(),
        ensures
            valid_log(self@),
            self@.len() == self.log@.len(),
            forall|i: int| 0 <= i < self.log@.len() ==> #[trigger] self.log@[i]@ == self@[i],
    {
    }

    /// Where the message with id `id` stands in the log.
    fn find_id(&self, id: &Vec<u8>) -> (r: Option<usize>)
        requires
            self.wf(),
        ensures
            match r {
                Some(i) => i as int == position(self@, id@) && i < self@.len(),
                None => !holds_id(self@, id@) && position(self@, id@) == -1,
            },
    {
        proof {
            self.lemma_valid();
            lemma_position(self@, id@);
        }
        let mut i: usize = 0;
        while i < self.log.len()
            invariant
                self.wf(),
                0 <= i <= self.log@.len(),
                self@.len() == self.log@.len(),
                forall|j: int| 0 <= j < i ==> self@[j].id != id@,
            decreases self.log@.len() - i,
        {
            proof {
                self.lemma_valid();
            }
            if bytes_eq(&self.log[i].message_id, id) {
                proof {
                    assert(self.log@[i as int]@ == self@[i as int]);
                    assert(self@[i as int].id == id@);
                    lemma_position(self@, id@);
                }
                return Some(i);
            }
            i = i + 1;
        }
        proof {
            lemma_position(self@, id@);
        }
        None
    }

    /// Whether a message with id `id` has been committed.
    pub fn contains(&self, id: &Vec<u8>) -> (r: bool)
        requires
            self.wf(),
        ensures
            r == holds_id(self@, id@),
    {
        proof {
            lemma_position(self@, id@);
        }
        self.find_id(id).is_some()
    }

    /// Appends a message whose id is not yet held, with the next sequence
    /// number, and returns that number.
    fn save_message(
        &mut self,
        message_id: Vec<u8>,
        sender_id: Vec<u8>,
        content: String,
        time: u64,
        received_at: u64,
    ) -> (r: u64)
        requires
            old(self).wf(),
            old(self)@.len() < u64::MAX,
            !holds_id(old(self)@, message_id@),
        ensures
            final(self).wf(),
            r as int == old(self)@.len() + 1,
            final(self)@ == committed(old(self)@, message_id@, sender_id@, content@, time, received_at),
    {
        proof {
            self.lemma_valid();
        }
        let ghost before = self@;
        let index = self.last_message + 1;
        let data = FeedMessageData {
            index,
            message_id,
            sender_id,
            timestamp_sent: time,
            timestamp_received: received_at,
            content,
        };
        let ghost rec = data@;
        self.log.push(data);
        self.last_message = index;
        assert(self@ =~= before.push(rec));
        assert forall|i: int, j: int| 0 <= i < self@.len() && 0 <= j < self@.len() && i != j
            implies (#[trigger] self@[i]).id != (#[trigger] self@[j]).id by {
            if i == before.len() {
                assert(self@[j] == before[j]);
            } else if j == before.len() {
                assert(self@[i] == before[i]);
            } else {
                assert(self@[i] == before[i] && self@[j] == before[j]);
            }
        }
        index
    }

    /// Commits a message unless its id is already held or the store is
    /// full. Returns the new sequence number, or nothing when nothing was
    /// committed.
    pub(crate) fn commit(
        &mut self,
        message_id: &Vec<u8>,
        sender_id: &Vec<u8>,
        content: String,
        time: u64,
        received_at: u64,
    ) -> (r: Option<u64>)
        requires
            old(self).wf(),
        ensures
            final(self).wf(),
            final(self)@ == committed(old(self)@, message_id@, sender_id@, content@, time, received_at),
            r == (if holds_id(old(self)@, message_id@) || old(self)@.len() >= u64::MAX {
                Option::<u64>::None
            } else {
                Some((old(self)@.len() + 1) as u64)
            }),
    {
        if self.contains(message_id) {
            return None;
        }
        if self.last_message == u64::MAX {
            return None;
        }
        let id = copy_bytes(message_id);
        let sender = copy_bytes(sender_id);
        Some(self.save_message(id, sender, content, time, received_at))
    }

    /// The store's invariant, for callers: messages are numbered 1, 2, ...
    /// in log order and no id occurs twice.
    pub proof fn lemma_numbered(&self)
        requires
            self.wf(),
        ensures
            valid_log(self@),
    {
    }

    /// Rebuilds the store from this node's own durable log, read back in
    /// key order. The log is taken as it is when it is numbered 1, 2, ... with
    /// no id twice; otherwise nothing is returned.
    pub fn restore(stored: Vec<FeedMessageData>) -> (r: Option<Feed>)
        ensures
            r is Some <==> valid_log(stored@.map_values(|m: FeedMessageData| m@)),
            match r {
                Some(f) => f.wf() && f@ == stored@.map_values(|m: FeedMessageData| m@),
                None => true,
            },
    {
        let ghost views = stored@.map_values(|m: FeedMessageData| m@);
        let mut feed = Feed::init();
        let mut i: usize = 0;
        while i < stored.len()
            invariant
                feed.wf(),
                0 <= i <= stored@.len(),
                views == stored@.map_values(|m: FeedMessageData| m@),
                feed@ == views.take(i as int),
            decreases stored@.len() - i,
        {
            let m = &stored[i];
            assert(views[i as int] == m@);
            if feed.last_message == u64::MAX || m.index != feed.last_message + 1 || feed.contains(&m.message_id) {
                proof {
                    if valid_log(views) {
                        assert(views[i as int].index == i + 1);
                        if holds_id(feed@, m.message_id@) {
                            let j = choose|j: int| 0 <= j < feed@.len() && feed@[j].id == m.message_id@;
                            assert(views[j] == feed@[j]);
                        }
                    }
                }
                return None;
            }
            let ghost before = feed@;
            feed.save_message(
                copy_bytes(&m.message_id),
                copy_bytes(&m.sender_id),
                m.content.clone(),
                m.timestamp_sent,
                m.timestamp_received,
            );
            assert(feed@ =~= views.take(i as int + 1));
            i = i + 1;
        }
        assert(views.take(stored@.len() as int) =~= views);
        Some(feed)
    }

    /// Every message with a sequence number greater than `last_message`,
    /// oldest first.
    pub fn since(&self, last_message: u64) -> (r: Vec<FeedMessageData>)
        requires
            self.wf(),
        ensures
            r@.map_values(|m: FeedMessageData| m@) == messages_since(self@, last_message),
            forall|i: int| 0 <= i < r@.len() ==> (#[trigger] r@[i]).index == last_message + 1 + i,
    {
        proof {
            self.lemma_valid();
        }
        let mut r: Vec<FeedMessageData> = Vec::new();
        if last_message >= self.last_message {
            assert(r@.map_values(|m: FeedMessageData| m@) =~= messages_since(self@, last_message));
            return r;
        }
        let n: usize = self.log.len();
        assert(n == self.last_message);
        assert((last_message as int) < (n as int));
        let start = last_message as usize;
        let mut i: usize = start;
        while i < self.log.len()
            invariant
                self.wf(),
                start <= i <= self.log@.len(),
                (start as int) < self@.len(),
                start == last_message,
                r@.len() == i - start,
                forall|j: int| 0 <= j < r@.len() ==> #[trigger] r@[j]@ == self@[start + j],
            decreases self.log@.len() - i,
        {
            proof {
                self.lemma_valid();
            }
            let m = self.log[i].duplicate();
            r.push(m);
            i = i + 1;
        }
        assert(r@.map_values(|m: FeedMessageData| m@) =~= messages_since(self@, last_message));
        assert forall|j: int| 0 <= j < r@.len() implies (#[trigger] r@[j]).index == last_message + 1 + j by {
            assert(r@[j]@ == self@[start + j]);
        }
        r
    }

    /// The ids of the `count` most recent messages (all of them if there are
    /// fewer), in ascending sequence order.
    pub fn get_latest_message_ids(&self, count: usize) -> (r: Vec<Vec<u8>>)
        requires
            self.wf(),
        ensures
            id_views(r@) == ids_of(latest(self@, count as nat)),
            count <= self@.len() ==> r@.len() == count,
    {
        proof {
            self.lemma_valid();
        }
        let mut ids: Vec<Vec<u8>> = Vec::new();
        let n = self.log.len();
        let msg_count: usize = if count < n { count } else { n };
        let start: usize = n - msg_count;
        let mut i: usize = start;
        while i < n
            invariant
                self.wf(),
                n == self.log@.len(),
                start <= i <= n,
                start == n - msg_count,
                msg_count == (if count < n { count } else { n }),
                ids@.len() == i - start,
                forall|j: int| 0 <= j < ids@.len() ==> #[trigger] ids@[j]@ == self@[start + j].id,
            decreases n - i,
        {
            proof {
                self.lemma_valid();
            }
            ids.push(copy_bytes(&self.log[i].message_id));
            i = i + 1;
        }
        assert(id_views(ids@) =~= ids_of(latest(self@, count as nat)));
        ids
    }

    /// The ids of `ids` that are not held here, in the order given: what to
    /// ask a peer for.
    pub fn process_received_feed_ids(&self, ids: &Vec<Vec<u8>>) -> (r: Vec<Vec<u8>>)
        requires
            self.wf(),
        ensures
            id_views(r@) == missing_of(self@, id_views(ids@)),
    {
        let mut missing_ids: Vec<Vec<u8>> = Vec::new();
        let mut i: usize = 0;
        while i < ids.len()
            invariant
                self.wf(),
                0 <= i <= ids@.len(),
                id_views(missing_ids@) == missing_of(self@, id_views(ids@).take(i as int)),
            decreases ids@.len() - i,
        {
            assert(id_views(ids@).take(i as int + 1).drop_last() =~= id_views(ids@).take(i as int));
            if !self.contains(&ids[i]) {
                missing_ids.push(copy_bytes(&ids[i]));
            }
            assert(id_views(missing_ids@) =~= missing_of(self@, id_views(ids@).take(i as int + 1)));
            i = i + 1;
        }
        assert(id_views(ids@).take(ids@.len() as int) =~= id_views(ids@));
        missing_ids
    }

    /// For each id of `ids` that is held here, in the order given: the id,
    /// the sender, the content and the time sent. Unknown ids are left out.
    pub fn get_messges_by_ids(&self, ids: &Vec<Vec<u8>>) -> (r: Vec<(Vec<u8>, Vec<u8>, String, u64)>)
        requires
            self.wf(),
        ensures
            r@.map_values(|t: (Vec<u8>, Vec<u8>, String, u64)| t@) == fetched(self@, id_views(ids@)),
    {
        let mut res: Vec<(Vec<u8>, Vec<u8>, String, u64)> = Vec::new();
        let mut i: usize = 0;
        while i < ids.len()
            invariant
                self.wf(),
                0 <= i <= ids@.len(),
                res@.map_values(|t: (Vec<u8>, Vec<u8>, String, u64)| t@) == fetched(self@, id_views(ids@).take(i as int)),
            decreases ids@.len() - i,
        {
            proof {
                self.lemma_valid();
            }
            assert(id_views(ids@).take(i as int + 1).drop_last() =~= id_views(ids@).take(i as int));
            let ghost before = res@;
            match self.find_id(&ids[i]) {
                Some(p) => {
                    let m = &self.log[p];
                    let t = (copy_bytes(&ids[i]), copy_bytes(&m.sender_id), m.content.clone(), m.timestamp_sent);
                    res.push(t);
                    assert(res@ == before.push(t));
                },
                None => {},
            }
            assert(res@.map_values(|t: (Vec<u8>, Vec<u8>, String, u64)| t@) =~= fetched(self@, id_views(ids@).take(i as int + 1)));
            i = i + 1;
        }
        assert(id_views(ids@).take(ids@.len() as int) =~= id_views(ids@));
        res
    }
}

} // verus!
