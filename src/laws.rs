//! Properties of the feed store that relate several operations: committing
//! twice, the order of `since(0)`, and the convergence of catch-up.

use vstd::prelude::*;
use crate::feed::{commit_all, committed, holds_id, ids_of, messages_since, missing_of, valid_log, MessageRecord};

verus! {

/// The ids held by a log.
pub open spec fn id_set(log: Seq<MessageRecord>) -> Set<Seq<u8>> {
    Set::new(|x: Seq<u8>| holds_id(log, x))
}

/// No two posts share an id.
pub open spec fn distinct_ids(posts: Seq<MessageRecord>) -> bool {
    forall|i: int, j: int| 0 <= i < posts.len() && 0 <= j < posts.len() && i != j
        ==> (#[trigger] posts[i]).id != (#[trigger] posts[j]).id
}

/// Committing keeps a log valid, holds the committed id afterwards unless
/// every sequence number was taken, and holds no other new id.
pub proof fn lemma_committed_valid(
    log: Seq<MessageRecord>,
    id: Seq<u8>,
    sender: Seq<u8>,
    content: Seq<char>,
    sent: u64,
    received: u64,
)
    requires
        valid_log(log),
    ensures
        valid_log(committed(log, id, sender, content, sent, received)),
        forall|x: Seq<u8>| holds_id(committed(log, id, sender, content, sent, received), x)
            <==> (holds_id(log, x) || (x == id && log.len() < u64::MAX)),
        committed(log, id, sender, content, sent, received).len() <= log.len() + 1,
{
    let after = committed(log, id, sender, content, sent, received);
    if !holds_id(log, id) && log.len() < u64::MAX {
        assert forall|i: int, j: int| 0 <= i < after.len() && 0 <= j < after.len() && i != j
            implies (#[trigger] after[i]).id != (#[trigger] after[j]).id by {
            if i == log.len() {
                assert(after[j] == log[j]);
            } else if j == log.len() {
                assert(after[i] == log[i]);
            } else {
                assert(after[i] == log[i] && after[j] == log[j]);
            }
        }
        assert forall|i: int| 0 <= i < after.len() implies (#[trigger] after[i]).index == i + 1 by {
            if i < log.len() {
                assert(after[i] == log[i]);
            }
        }
        assert forall|x: Seq<u8>| holds_id(after, x) <==> (holds_id(log, x) || x == id) by {
            if holds_id(after, x) {
                let i = choose|i: int| 0 <= i < after.len() && after[i].id == x;
                if i < log.len() {
                    assert(log[i] == after[i]);
                }
            }
            if holds_id(log, x) {
                let i = choose|i: int| 0 <= i < log.len() && log[i].id == x;
                assert(after[i] == log[i]);
            }
            if x == id {
                assert(after[log.len() as int].id == id);
            }
        }
    }
}

/// Committing a message a second time, whether authored here or received
/// back through flooding, changes nothing: the store holds exactly one copy
/// of it, under one sequence number.
pub proof fn lemma_commit_twice(
    log: Seq<MessageRecord>,
    id: Seq<u8>,
    sender: Seq<u8>,
    content: Seq<char>,
    sent: u64,
    first_received: u64,
    second_received: u64,
)
    requires
        valid_log(log),
    ensures
        committed(
            committed(log, id, sender, content, sent, first_received),
            id,
            sender,
            content,
            sent,
            second_received,
        ) == committed(log, id, sender, content, sent, first_received),
        log.len() < u64::MAX ==> holds_id(committed(log, id, sender, content, sent, first_received), id),
        valid_log(committed(log, id, sender, content, sent, first_received)),
        forall|i: int, j: int| 0 <= i < committed(log, id, sender, content, sent, first_received).len()
            && 0 <= j < committed(log, id, sender, content, sent, first_received).len()
            && (#[trigger] committed(log, id, sender, content, sent, first_received)[i]).id == id
            && (#[trigger] committed(log, id, sender, content, sent, first_received)[j]).id == id ==> i == j,
{
    lemma_committed_valid(log, id, sender, content, sent, first_received);
}

/// Committing posts keeps a log valid and adds exactly their ids.
pub proof fn lemma_commit_all(log: Seq<MessageRecord>, posts: Seq<MessageRecord>)
    requires
        valid_log(log),
        log.len() + posts.len() < u64::MAX,
    ensures
        valid_log(commit_all(log, posts)),
        commit_all(log, posts).len() <= log.len() + posts.len(),
        forall|x: Seq<u8>| holds_id(commit_all(log, posts), x) <==> (holds_id(log, x) || ids_of(posts).contains(x)),
    decreases posts.len(),
{
    if posts.len() > 0 {
        let init = posts.drop_last();
        let p = posts.last();
        lemma_commit_all(log, init);
        let mid = commit_all(log, init);
        assert(mid.len() < u64::MAX);
        lemma_committed_valid(mid, p.id, p.sender, p.content, p.sent, p.received);
        assert forall|x: Seq<u8>| ids_of(posts).contains(x) <==> (ids_of(init).contains(x) || x == p.id) by {
            if ids_of(posts).contains(x) {
                let i = choose|i: int| 0 <= i < ids_of(posts).len() && ids_of(posts)[i] == x;
                if i < init.len() {
                    assert(ids_of(init)[i] == x);
                } else {
                    assert(posts[i] == p);
                }
            }
            if ids_of(init).contains(x) {
                let i = choose|i: int| 0 <= i < ids_of(init).len() && ids_of(init)[i] == x;
                assert(ids_of(posts)[i] == x);
            }
            if x == p.id {
                assert(ids_of(posts)[posts.len() - 1] == x);
            }
        }
    }
}

/// Committing posts with distinct ids to an empty store accepts every one
/// of them while sequence numbers last, keeps them in commit order numbered
/// 1 to N, and `since(0)` returns exactly these.
pub proof fn lemma_since_zero_returns_commits(posts: Seq<MessageRecord>)
    requires
        distinct_ids(posts),
    ensures
        messages_since(commit_all(Seq::empty(), posts), 0) == commit_all(Seq::empty(), posts),
        commit_all(Seq::empty(), posts).len() == (if posts.len() < u64::MAX { posts.len() as int } else { u64::MAX as int }),
        forall|i: int| 0 <= i < commit_all(Seq::empty(), posts).len() ==> #[trigger] commit_all(Seq::empty(), posts)[i]
            == (MessageRecord { index: (i + 1) as u64, ..posts[i] }),
    decreases posts.len(),
{
    let log = commit_all(Seq::empty(), posts);
    if posts.len() > 0 {
        let init = posts.drop_last();
        let p = posts.last();
        assert(distinct_ids(init)) by {
            assert forall|i: int, j: int| 0 <= i < init.len() && 0 <= j < init.len() && i != j
                implies (#[trigger] init[i]).id != (#[trigger] init[j]).id by {
                assert(init[i] == posts[i] && init[j] == posts[j]);
            }
        }
        lemma_since_zero_returns_commits(init);
        let mid = commit_all(Seq::empty(), init);
        if mid.len() < u64::MAX {
            assert(!holds_id(mid, p.id)) by {
                if holds_id(mid, p.id) {
                    let i = choose|i: int| 0 <= i < mid.len() && mid[i].id == p.id;
                    assert(mid[i].id == posts[i].id);
                    assert(posts[posts.len() - 1] == p);
                }
            }
        }
        assert forall|i: int| 0 <= i < log.len() implies #[trigger] log[i] == (MessageRecord {
            index: (i + 1) as u64,
            ..posts[i]
        }) by {
            if i < mid.len() {
                assert(log[i] == mid[i]);
                assert(init[i] == posts[i]);
            }
        }
    }
    assert(messages_since(log, 0) =~= log);
}

/// A held id is never missing; a missing id is one asked about and not held.
proof fn lemma_missing_members(log: Seq<MessageRecord>, ids: Seq<Seq<u8>>)
    ensures
        forall|x: Seq<u8>| missing_of(log, ids).contains(x) <==> (ids.contains(x) && !holds_id(log, x)),
    decreases ids.len(),
{
    if ids.len() > 0 {
        let init = ids.drop_last();
        lemma_missing_members(log, init);
        let rest = missing_of(log, init);
        assert forall|x: Seq<u8>| ids.contains(x) <==> (init.contains(x) || x == ids.last()) by {
            if ids.contains(x) {
                let i = choose|i: int| 0 <= i < ids.len() && ids[i] == x;
                if i < init.len() {
                    assert(init[i] == x);
                }
            }
            if init.contains(x) {
                let i = choose|i: int| 0 <= i < init.len() && init[i] == x;
                assert(ids[i] == x);
            }
            if x == ids.last() {
                assert(ids[ids.len() - 1] == x);
            }
        }
        if !holds_id(log, ids.last()) {
            assert forall|x: Seq<u8>| rest.push(ids.last()).contains(x) <==> (rest.contains(x) || x == ids.last()) by {
                if rest.push(ids.last()).contains(x) {
                    let i = choose|i: int| 0 <= i < rest.len() + 1 && rest.push(ids.last())[i] == x;
                    if i < rest.len() {
                        assert(rest[i] == x);
                    }
                }
                if rest.contains(x) {
                    let i = choose|i: int| 0 <= i < rest.len() && rest[i] == x;
                    assert(rest.push(ids.last())[i] == x);
                }
                if x == ids.last() {
                    assert(rest.push(ids.last())[rest.len() as int] == x);
                }
            }
        }
    }
}

/// Nothing of `ids` is missing from a log that holds all of them.
proof fn lemma_nothing_missing(log: Seq<MessageRecord>, ids: Seq<Seq<u8>>)
    requires
        forall|i: int| 0 <= i < ids.len() ==> holds_id(log, #[trigger] ids[i]),
    ensures
        missing_of(log, ids) == Seq::<Seq<u8>>::empty(),
    decreases ids.len(),
{
    if ids.len() > 0 {
        let init = ids.drop_last();
        assert forall|i: int| 0 <= i < init.len() implies holds_id(log, #[trigger] init[i]) by {
            assert(init[i] == ids[i]);
        }
        lemma_nothing_missing(log, init);
        assert(holds_id(log, ids[ids.len() - 1]));
    }
}

/// Catch-up between a peer holding `local` and one offering the ids
/// `remote`: the missing ids are exactly those of `remote` not held locally;
/// once the messages fetched for them are committed, the local ids are the
/// union of both sides, and a second round finds nothing missing.
pub proof fn lemma_catch_up_converges(
    local: Seq<MessageRecord>,
    remote: Seq<Seq<u8>>,
    fetched_posts: Seq<MessageRecord>,
)
    requires
        valid_log(local),
        ids_of(fetched_posts) == missing_of(local, remote),
        local.len() + fetched_posts.len() < u64::MAX,
    ensures
        missing_of(local, remote).to_set() == remote.to_set().difference(id_set(local)),
        valid_log(commit_all(local, fetched_posts)),
        id_set(commit_all(local, fetched_posts)) == id_set(local).union(remote.to_set()),
        missing_of(commit_all(local, fetched_posts), remote) == Seq::<Seq<u8>>::empty(),
{
    let after = commit_all(local, fetched_posts);
    lemma_missing_members(local, remote);
    lemma_commit_all(local, fetched_posts);
    assert(missing_of(local, remote).to_set() =~= remote.to_set().difference(id_set(local)));
    assert(id_set(after) =~= id_set(local).union(remote.to_set()));
    assert forall|i: int| 0 <= i < remote.len() implies holds_id(after, #[trigger] remote[i]) by {
        assert(remote.contains(remote[i]));
    }
    lemma_nothing_missing(after, remote);
}

} // verus!
