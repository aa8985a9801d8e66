//! Per-transport neighbour tables with smoothed round trip times, and the
//! cross-transport lookup of which transport reaches a peer.

use vstd::prelude::*;
use crate::bytes::copy_bytes;
use crate::keyed::{find_key, key_rows, keys_unique, lemma_map_of_at, lemma_map_of_dom, lemma_map_of_remove, lemma_map_of_update, map_of};

verus! {

/// The transports a peer can be reached on.
#[derive(Clone, Copy, Debug, PartialEq, Eq, Structural)]
pub enum ConnectionModule {
    Lan,
    Internet,
    ShortRange,
    /// This node itself.
    Local,
    /// No transport, or unknown.
    Unknown,
}

/// State kept for one directly connected peer.
#[derive(Clone, Copy, Debug, PartialEq, Eq, Structural)]
pub struct Neighbour {
    /// smoothed round trip time in microseconds
    pub rtt: u32,
    /// when this peer was last seen, in milliseconds
    pub updated_at: u64,
}

/// One row of the neighbour listing handed out for status reports.
#[derive(Clone, Debug, PartialEq, Eq)]
pub struct NeighboursEntry {
    pub node_id: Vec<u8>,
    pub rtt: u32,
}

/// The smoothed round trip time after observing `new_rtt`: three parts the
/// old estimate, one part the new sample, truncated.
pub open spec fn smoothed_rtt(old_rtt: u32, new_rtt: u32) -> u32 {
    ((3 * old_rtt as int + new_rtt as int) / 4) as u32
}

/// The state of `node` in `table` after an update with `rtt` at time `now`.
pub open spec fn updated_neighbour(table: Map<Seq<u8>, Neighbour>, node: Seq<u8>, rtt: u32, now: u64) -> Neighbour {
    if table.contains_key(node) {
        Neighbour { rtt: smoothed_rtt(table[node].rtt, rtt), updated_at: now }
    } else {
        Neighbour { rtt, updated_at: now }
    }
}

/// The neighbour table of one transport; a peer appears at most once.
pub struct NeighbourTable {
    nodes: Vec<(Vec<u8>, Neighbour)>,
}

impl View for NeighbourTable {
    type V = Map<Seq<u8>, Neighbour>;

    open spec fn view(&self) -> Map<Seq<u8>, Neighbour> {
        map_of(self.rows())
    }
}

impl NeighbourTable {
    pub closed spec fn rows(&self) -> Seq<(Seq<u8>, Neighbour)> {
        self.nodes@.map_values(|e: (Vec<u8>, Neighbour)| (e.0@, e.1))
    }

    pub open spec fn wf(&self) -> bool {
        keys_unique(self.rows())
    }

    /// An empty table.
    pub fn new() -> (r: NeighbourTable)
        ensures
            r.wf(),
            r@ == Map::<Seq<u8>, Neighbour>::empty(),
    {
        let r = NeighbourTable { nodes: Vec::new() };
        assert(r.rows() =~= Seq::<(Seq<u8>, Neighbour)>::empty());
        r
    }

    /// The row that holds `node`, if any.
    fn find(&self, node: &Vec<u8>) -> (r: Option<usize>)
        requires
            self.wf(),
        ensures
            match r {
                Some(i) => i < self.rows().len() && self.rows()[i as int].0 == node@,
                None => !self@.contains_key(node@),
            },
    {
        let r = find_key(&self.nodes, node);
        assert(self.rows() == key_rows(self.nodes@));
        r
    }

    /// The stored state of `node`.
    pub fn get(&self, node: &Vec<u8>) -> (r: Option<Neighbour>)
        requires
            self.wf(),
        ensures
            r == (if self@.contains_key(node@) { Some(self@[node@]) } else { Option::<Neighbour>::None }),
    {
        match self.find(node) {
            Some(i) => {
                proof {
                    lemma_map_of_at(self.rows(), i as int);
                }
                Some(self.nodes[i].1)
            },
            None => None,
        }
    }

    /// Records an observed round trip time for `node` at time `now`; returns
    /// whether `node` was new to the table.
    pub fn update(&mut self, node: Vec<u8>, rtt: u32, now: u64) -> (added: bool)
        requires
            old(self).wf(),
        ensures
            final(self).wf(),
            final(self)@ == old(self)@.insert(node@, updated_neighbour(old(self)@, node@, rtt, now)),
            added == !old(self)@.contains_key(node@),
    {
        match self.find(&node) {
            Some(i) => {
                let old_rtt = self.nodes[i].1.rtt;
                let v = Neighbour { rtt: calculate_rtt(old_rtt, rtt), updated_at: now };
                proof {
                    lemma_map_of_at(self.rows(), i as int);
                    lemma_map_of_update(self.rows(), i as int, v);
                }
                let ghost before = self.rows();
                let key = copy_bytes(&self.nodes[i].0);
                self.nodes.set(i, (key, v));
                assert(self.rows() =~= before.update(i as int, (before[i as int].0, v)));
                false
            },
            None => {
                let ghost before = self.rows();
                let v = Neighbour { rtt, updated_at: now };
                proof {
                    lemma_map_of_dom(before, node@);
                }
                self.nodes.push((node, v));
                assert(self.rows() =~= before.push((node@, v)));
                assert(self.rows().drop_last() =~= before);
                true
            },
        }
    }

    /// Deletes `node` from the table if it is there.
    pub fn remove(&mut self, node: &Vec<u8>)
        requires
            old(self).wf(),
        ensures
            final(self).wf(),
            final(self)@ == old(self)@.remove(node@),
    {
        match self.find(node) {
            Some(i) => {
                let ghost before = self.rows();
                proof {
                    lemma_map_of_remove(before, i as int);
                }
                self.nodes.remove(i);
                assert(self.rows() =~= before.remove(i as int));
            },
            None => {
                assert(self@ =~= self@.remove(node@));
            },
        }
    }

    /// Every row of the table, as (peer, round trip time).
    pub fn entries(&self) -> (r: Vec<NeighboursEntry>)
        requires
            self.wf(),
        ensures
            lists_table(r@, self@),
    {
        let mut r: Vec<NeighboursEntry> = Vec::new();
        let mut i: usize = 0;
        while i < self.nodes.len()
            invariant
                0 <= i <= self.nodes@.len(),
                r@.len() == i,
                forall|j: int| 0 <= j < i ==> (#[trigger] r@[j]).node_id@ == self.rows()[j].0
                    && r@[j].rtt == self.rows()[j].1.rtt,
            decreases self.nodes@.len() - i,
        {
            let node_id = copy_bytes(&self.nodes[i].0);
            r.push(NeighboursEntry { node_id, rtt: self.nodes[i].1.rtt });
            i = i + 1;
        }
        proof {
            let rows = self.rows();
            assert forall|j: int| 0 <= j < r@.len() implies self@.contains_key((#[trigger] r@[j]).node_id@)
                && self@[r@[j].node_id@].rtt == r@[j].rtt by {
                lemma_map_of_at(rows, j);
            }
            assert forall|k: Seq<u8>| self@.contains_key(k) implies exists|j: int| 0 <= j < r@.len() && (#[trigger] r@[j]).node_id@ == k by {
                lemma_map_of_dom(rows, k);
                let j = choose|j: int| 0 <= j < rows.len() && rows[j].0 == k;
                assert(r@[j].node_id@ == k);
            }
        }
        r
    }
}

/// Smooths a round trip time estimate with a new sample, weighting the old
/// estimate three to one.
pub fn calculate_rtt(old_rtt: u32, new_rtt: u32) -> (r: u32)
    ensures
        r == smoothed_rtt(old_rtt, new_rtt),
        r as int == (3 * old_rtt as int + new_rtt as int) / 4,
{
    let sum: u64 = 3 * (old_rtt as u64) + new_rtt as u64;
    (sum / 4) as u32
}


/// Whether `module` keeps a neighbour table.
pub open spec fn has_table(module: ConnectionModule) -> bool {
    match module {
        ConnectionModule::Lan | ConnectionModule::Internet | ConnectionModule::ShortRange => true,
        _ => false,
    }
}

/// The neighbour listing of every transport that keeps a table.
#[derive(Clone, Debug, PartialEq, Eq)]
pub struct NeighboursList {
    pub lan: Vec<NeighboursEntry>,
    pub internet: Vec<NeighboursEntry>,
    pub short_range: Vec<NeighboursEntry>,
}

/// The neighbour tables of all transports.
pub struct Neighbours {
    lan: NeighbourTable,
    internet: NeighbourTable,
    short_range: NeighbourTable,
}

impl View for Neighbours {
    type V = Map<ConnectionModule, Map<Seq<u8>, Neighbour>>;

    /// Each transport that keeps a table, mapped to that table.
    closed spec fn view(&self) -> Map<ConnectionModule, Map<Seq<u8>, Neighbour>> {
        map![
            ConnectionModule::Lan => self.lan@,
            ConnectionModule::Internet => self.internet@,
            ConnectionModule::ShortRange => self.short_range@,
        ]
    }
}

impl Neighbours {
    pub closed spec fn wf(&self) -> bool {
        self.lan.wf() && self.internet.wf() && self.short_range.wf()
    }

    /// Exactly the transports that keep a table have one.
    pub proof fn lemma_domain(&self)
        ensures
            forall|m: ConnectionModule| self@.contains_key(m) <==> has_table(m),
    {
    }

    /// Empty tables for every transport.
    pub fn init() -> (r: Neighbours)
        ensures
            r.wf(),
            forall|m: ConnectionModule| r@.contains_key(m) <==> has_table(m),
            forall|m: ConnectionModule| has_table(m) ==> r@[m] == Map::<Seq<u8>, Neighbour>::empty(),
    {
        Neighbours { lan: NeighbourTable::new(), internet: NeighbourTable::new(), short_range: NeighbourTable::new() }
    }

    /// Records an observed round trip time of `node_id` on `module` at time
    /// `now`. A known neighbour gets its estimate smoothed; an unknown one is
    /// added with the sample as estimate, and the result is true so that the
    /// caller can announce the new neighbour. Local and Unknown are ignored.
    pub fn update_node(&mut self, module: ConnectionModule, node_id: Vec<u8>, rtt: u32, now: u64) -> (added: bool)
        requires
            old(self).wf(),
        ensures
            final(self).wf(),
            has_table(module) ==> final(self)@ == old(self)@.insert(
                module,
                old(self)@[module].insert(node_id@, updated_neighbour(old(self)@[module], node_id@, rtt, now)),
            ),
            has_table(module) ==> added == !old(self)@[module].contains_key(node_id@),
            !has_table(module) ==> final(self)@ == old(self)@ && !added,
    {
        let ghost k = node_id@;
        let added = match module {
            ConnectionModule::Lan => self.lan.update(node_id, rtt, now),
            ConnectionModule::Internet => self.internet.update(node_id, rtt, now),
            ConnectionModule::ShortRange => self.short_range.update(node_id, rtt, now),
            _ => false,
        };
        proof {
            if has_table(module) {
                assert(self@ =~= old(self)@.insert(
                    module,
                    old(self)@[module].insert(k, updated_neighbour(old(self)@[module], k, rtt, now)),
                ));
            }
        }
        added
    }

    /// Deletes `node_id` from the table of `module`, if it is there.
    pub fn delete(&mut self, module: ConnectionModule, node_id: &Vec<u8>)
        requires
            old(self).wf(),
        ensures
            final(self).wf(),
            has_table(module) ==> final(self)@ == old(self)@.insert(module, old(self)@[module].remove(node_id@)),
            !has_table(module) ==> final(self)@ == old(self)@,
    {
        match module {
            ConnectionModule::Lan => self.lan.remove(node_id),
            ConnectionModule::Internet => self.internet.remove(node_id),
            ConnectionModule::ShortRange => self.short_range.remove(node_id),
            _ => {},
        }
        proof {
            if has_table(module) {
                assert(self@ =~= old(self)@.insert(module, old(self)@[module].remove(node_id@)));
            }
        }
    }

    /// The round trip time of `neighbour_id` on `module`: zero for this node
    /// itself, nothing for Unknown or a peer that is not in the table.
    pub fn get_rtt(&self, neighbour_id: &Vec<u8>, module: ConnectionModule) -> (r: Option<u32>)
        requires
            self.wf(),
        ensures
            module == ConnectionModule::Local ==> r == Some(0u32),
            module == ConnectionModule::Unknown ==> r == Option::<u32>::None,
            has_table(module) ==> r == (if self@[module].contains_key(neighbour_id@) {
                Some(self@[module][neighbour_id@].rtt)
            } else {
                Option::<u32>::None
            }),
    {
        let found = match module {
            ConnectionModule::Lan => self.lan.get(neighbour_id),
            ConnectionModule::Internet => self.internet.get(neighbour_id),
            ConnectionModule::ShortRange => self.short_range.get(neighbour_id),
            ConnectionModule::Local => return Some(0),
            ConnectionModule::Unknown => return None,
        };
        match found {
            Some(n) => Some(n.rtt),
            None => None,
        }
    }

    /// The first transport, in the order Lan, Internet, ShortRange, whose
    /// table holds `node_id`; Unknown if none does.
    pub fn is_neighbour(&self, node_id: &Vec<u8>) -> (r: ConnectionModule)
        requires
            self.wf(),
        ensures
            r == first_transport(self@, node_id@),
    {
        if self.lan.get(node_id).is_some() {
            ConnectionModule::Lan
        } else if self.internet.get(node_id).is_some() {
            ConnectionModule::Internet
        } else if self.short_range.get(node_id).is_some() {
            ConnectionModule::ShortRange
        } else {
            ConnectionModule::Unknown
        }
    }

    /// The rows of every table, for status reports.
    pub fn neighbours_list(&self) -> (r: NeighboursList)
        requires
            self.wf(),
        ensures
            lists_table(r.lan@, self@[ConnectionModule::Lan]),
            lists_table(r.internet@, self@[ConnectionModule::Internet]),
            lists_table(r.short_range@, self@[ConnectionModule::ShortRange]),
    {
        NeighboursList { lan: self.lan.entries(), internet: self.internet.entries(), short_range: self.short_range.entries() }
    }
}

/// `entries` lists every peer of `table` once, with its round trip time.
pub open spec fn lists_table(entries: Seq<NeighboursEntry>, table: Map<Seq<u8>, Neighbour>) -> bool {
    &&& forall|i: int| 0 <= i < entries.len() ==> table.contains_key((#[trigger] entries[i]).node_id@)
        && table[entries[i].node_id@].rtt == entries[i].rtt
    &&& forall|k: Seq<u8>| table.contains_key(k) ==> exists|i: int| 0 <= i < entries.len() && (#[trigger] entries[i]).node_id@ == k
    &&& forall|i: int, j: int| 0 <= i < entries.len() && 0 <= j < entries.len() && i != j
        ==> (#[trigger] entries[i]).node_id@ != (#[trigger] entries[j]).node_id@
}

/// The transport that reaches `node`, checked in the order Lan, Internet,
/// ShortRange.
pub open spec fn first_transport(tables: Map<ConnectionModule, Map<Seq<u8>, Neighbour>>, node: Seq<u8>) -> ConnectionModule {
    if tables[ConnectionModule::Lan].contains_key(node) {
        ConnectionModule::Lan
    } else if tables[ConnectionModule::Internet].contains_key(node) {
        ConnectionModule::Internet
    } else if tables[ConnectionModule::ShortRange].contains_key(node) {
        ConnectionModule::ShortRange
    } else {
        ConnectionModule::Unknown
    }
}

} // verus!
