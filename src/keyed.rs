//! Rows of (byte-string key, value) kept in a `Vec`, and the map they
//! stand for when no key appears twice.

use vstd::prelude::*;
use crate::bytes::bytes_eq;

verus! {

/// The map that a sequence of (key, value) rows stands for; a later row
/// wins over an earlier one with the same key.
pub open spec fn map_of<V>(s: Seq<(Seq<u8>, V)>) -> Map<Seq<u8>, V>
    decreases s.len(),
{
    if s.len() == 0 {
        Map::empty()
    } else {
        map_of(s.drop_last()).insert(s.last().0, s.last().1)
    }
}

/// No key appears in two rows.
pub open spec fn keys_unique<V>(s: Seq<(Seq<u8>, V)>) -> bool {
    forall|i: int, j: int| 0 <= i < s.len() && 0 <= j < s.len() && i != j ==> s[i].0 != s[j].0
}

pub proof fn lemma_map_of_dom<V>(s: Seq<(Seq<u8>, V)>, k: Seq<u8>)
    ensures
        map_of(s).contains_key(k) <==> exists|i: int| 0 <= i < s.len() && s[i].0 == k,
    decreases s.len(),
{
    if s.len() > 0 {
        lemma_map_of_dom(s.drop_last(), k);
        if map_of(s.drop_last()).contains_key(k) {
            let i = choose|i: int| 0 <= i < s.drop_last().len() && s.drop_last()[i].0 == k;
            assert(s[i].0 == k);
        }
        if exists|i: int| 0 <= i < s.len() && s[i].0 == k {
            let i = choose|i: int| 0 <= i < s.len() && s[i].0 == k;
            if i < s.len() - 1 {
                assert(s.drop_last()[i].0 == k);
            }
        }
    }
}

pub proof fn lemma_map_of_at<V>(s: Seq<(Seq<u8>, V)>, i: int)
    requires
        keys_unique(s),
        0 <= i < s.len(),
    ensures
        map_of(s).contains_key(s[i].0),
        map_of(s)[s[i].0] == s[i].1,
    decreases s.len(),
{
    if i < s.len() - 1 {
        let t = s.drop_last();
        assert(t[i] == s[i]);
        assert(keys_unique(t));
        lemma_map_of_at(t, i);
        assert(s.last().0 != s[i].0);
    }
}

pub proof fn lemma_map_of_update<V>(s: Seq<(Seq<u8>, V)>, i: int, v: V)
    requires
        keys_unique(s),
        0 <= i < s.len(),
    ensures
        keys_unique(s.update(i, (s[i].0, v))),
        map_of(s.update(i, (s[i].0, v))) == map_of(s).insert(s[i].0, v),
{
    let t = s.update(i, (s[i].0, v));
    assert(keys_unique(t));
    assert forall|k: Seq<u8>| #[trigger] map_of(t).contains_key(k) <==> map_of(s).insert(s[i].0, v).contains_key(k) by {
        lemma_map_of_dom(s, k);
        lemma_map_of_dom(t, k);
        if exists|j: int| 0 <= j < s.len() && s[j].0 == k {
            let j = choose|j: int| 0 <= j < s.len() && s[j].0 == k;
            assert(t[j].0 == k);
        }
    }
    assert forall|k: Seq<u8>| #[trigger] map_of(t).contains_key(k) implies map_of(t)[k] == map_of(s).insert(s[i].0, v)[k] by {
        lemma_map_of_dom(t, k);
        let j = choose|j: int| 0 <= j < t.len() && t[j].0 == k;
        lemma_map_of_at(t, j);
        if j != i {
            lemma_map_of_at(s, j);
        }
    }
    assert(map_of(t) =~= map_of(s).insert(s[i].0, v));
}

pub proof fn lemma_map_of_remove<V>(s: Seq<(Seq<u8>, V)>, i: int)
    requires
        keys_unique(s),
        0 <= i < s.len(),
    ensures
        keys_unique(s.remove(i)),
        map_of(s.remove(i)) == map_of(s).remove(s[i].0),
{
    let t = s.remove(i);
    assert forall|a: int, b: int| 0 <= a < t.len() && 0 <= b < t.len() && a != b implies t[a].0 != t[b].0 by {
        let sa = if a < i { a } else { a + 1 };
        let sb = if b < i { b } else { b + 1 };
        assert(t[a] == s[sa]);
        assert(t[b] == s[sb]);
    }
    assert forall|k: Seq<u8>| #[trigger] map_of(t).contains_key(k) <==> map_of(s).remove(s[i].0).contains_key(k) by {
        lemma_map_of_dom(s, k);
        lemma_map_of_dom(t, k);
        if exists|j: int| 0 <= j < s.len() && s[j].0 == k {
            let j = choose|j: int| 0 <= j < s.len() && s[j].0 == k;
            if j < i {
                assert(t[j].0 == k);
            } else if j > i {
                assert(t[j - 1].0 == k);
            }
        }
        if exists|j: int| 0 <= j < t.len() && t[j].0 == k {
            let j = choose|j: int| 0 <= j < t.len() && t[j].0 == k;
            let sj = if j < i { j } else { j + 1 };
            assert(s[sj].0 == k);
        }
    }
    assert forall|k: Seq<u8>| #[trigger] map_of(t).contains_key(k) implies map_of(t)[k] == map_of(s).remove(s[i].0)[k] by {
        lemma_map_of_dom(t, k);
        let j = choose|j: int| 0 <= j < t.len() && t[j].0 == k;
        lemma_map_of_at(t, j);
        let sj = if j < i { j } else { j + 1 };
        assert(t[j] == s[sj]);
        lemma_map_of_at(s, sj);
    }
    assert(map_of(t) =~= map_of(s).remove(s[i].0));
}


/// The rows of a `Vec`, keys seen as byte strings.
pub open spec fn key_rows<V>(rows: Seq<(Vec<u8>, V)>) -> Seq<(Seq<u8>, V)> {
    rows.map_values(|e: (Vec<u8>, V)| (e.0@, e.1))
}

/// The row whose key is `key`, if any.
pub fn find_key<V>(rows: &Vec<(Vec<u8>, V)>, key: &Vec<u8>) -> (r: Option<usize>)
    ensures
        match r {
            Some(i) => i < rows@.len() && rows@[i as int].0@ == key@,
            None => !map_of(key_rows(rows@)).contains_key(key@),
        },
{
    let mut i: usize = 0;
    while i < rows.len()
        invariant
            0 <= i <= rows@.len(),
            forall|j: int| 0 <= j < i ==> key_rows(rows@)[j].0 != key@,
        decreases rows@.len() - i,
    {
        if bytes_eq(&rows[i].0, key) {
            return Some(i);
        }
        i = i + 1;
    }
    proof {
        lemma_map_of_dom(key_rows(rows@), key@);
    }
    None
}

} // verus!
