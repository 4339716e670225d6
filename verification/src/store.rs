//! Per-flow reassembly state: a mapping from flow key to an accumulating
//! byte buffer. One instance exists per stateful protocol, is owned by a
//! single decoding worker, and is mutated only by the dispatcher; decoders
//! read snapshots.

use vstd::prelude::*;
use crate::flow::FlowKey;

verus! {

/// No two entries share a flow key.
pub open spec fn entry_keys_distinct(s: Seq<(FlowKey, Vec<u8>)>) -> bool {
    forall|i: int, j: int| 0 <= i < j < s.len() ==> s[i].0 != s[j].0
}

/// The mapping an entry list stands for: later entries shadow earlier ones
/// (which never happens when keys are distinct).
pub open spec fn map_of(s: Seq<(FlowKey, Vec<u8>)>) -> Map<FlowKey, Seq<u8>>
    decreases s.len(),
{
    if s.len() == 0 {
        Map::empty()
    } else {
        map_of(s.drop_last()).insert(s.last().0, s.last().1@)
    }
}

/// The bytes a store holds for a key: its buffer when an entry exists,
/// otherwise the empty sequence.
pub open spec fn buffer_of(m: Map<FlowKey, Seq<u8>>, k: FlowKey) -> Seq<u8> {
    if m.contains_key(k) {
        m[k]
    } else {
        Seq::empty()
    }
}

proof fn lemma_map_of_contains(s: Seq<(FlowKey, Vec<u8>)>, k: FlowKey)
    ensures
        map_of(s).contains_key(k) <==> exists|i: int| 0 <= i < s.len() && s[i].0 == k,
    decreases s.len(),
{
    if s.len() > 0 {
        lemma_map_of_contains(s.drop_last(), k);
        if s.last().0 == k {
            assert(s[s.len() - 1].0 == k);
        } else {
            if map_of(s).contains_key(k) {
                let i = choose|i: int| 0 <= i < s.drop_last().len() && s.drop_last()[i].0 == k;
                assert(s[i].0 == k);
            }
            if exists|i: int| 0 <= i < s.len() && s[i].0 == k {
                let i = choose|i: int| 0 <= i < s.len() && s[i].0 == k;
                assert(s.drop_last()[i].0 == k);
            }
        }
    }
}

proof fn lemma_map_of_index(s: Seq<(FlowKey, Vec<u8>)>, i: int)
    requires
        entry_keys_distinct(s),
        0 <= i < s.len(),
    ensures
        map_of(s).contains_key(s[i].0),
        map_of(s)[s[i].0] == s[i].1@,
    decreases s.len(),
{
    if i == s.len() - 1 {
    } else {
        assert(s[i].0 != s.last().0);
        assert(s.drop_last()[i] == s[i]);
        lemma_map_of_index(s.drop_last(), i);
    }
}

proof fn lemma_map_of_push(s: Seq<(FlowKey, Vec<u8>)>, k: FlowKey, v: Vec<u8>)
    ensures
        map_of(s.push((k, v))) == map_of(s).insert(k, v@),
{
    assert(s.push((k, v)).drop_last() =~= s);
    assert(s.push((k, v)).last() == (k, v));
}

proof fn lemma_map_of_remove(s: Seq<(FlowKey, Vec<u8>)>, i: int)
    requires
        entry_keys_distinct(s),
        0 <= i < s.len(),
    ensures
        map_of(s.remove(i)) =~= map_of(s).remove(s[i].0),
    decreases s.len(),
{
    let k = s[i].0;
    if i == s.len() - 1 {
        assert(s.remove(i) =~= s.drop_last());
        lemma_map_of_contains(s.drop_last(), k);
        assert(forall|j: int| 0 <= j < s.drop_last().len() ==> s.drop_last()[j] == s[j]);
        assert(!map_of(s.drop_last()).contains_key(k));
        assert(map_of(s.drop_last()).insert(k, s.last().1@).remove(k) =~= map_of(s.drop_last()));
    } else {
        assert(s.remove(i).drop_last() =~= s.drop_last().remove(i));
        assert(s.remove(i).last() == s.last());
        assert(entry_keys_distinct(s.drop_last()));
        assert(s.drop_last()[i] == s[i]);
        lemma_map_of_remove(s.drop_last(), i);
        assert(s.last().0 != k);
        assert(map_of(s.drop_last()).remove(k).insert(s.last().0, s.last().1@) =~= map_of(
            s.drop_last(),
        ).insert(s.last().0, s.last().1@).remove(k));
    }
}

/// Flow-keyed accumulation of stream bytes for one stateful protocol.
/// Viewed as a map from flow key to the bytes buffered so far.
pub struct ReassemblyStore {
    entries: Vec<(FlowKey, Vec<u8>)>,
}

impl View for ReassemblyStore {
    type V = Map<FlowKey, Seq<u8>>;

    closed spec fn view(&self) -> Map<FlowKey, Seq<u8>> {
        map_of(self.entries@)
    }
}

impl ReassemblyStore {
    /// Well-formedness: no two entries share a flow key. Constructors
    /// establish it and every method preserves it.
    pub closed spec fn wf(self) -> bool {
        entry_keys_distinct(self.entries@)
    }

    /// An empty store: no flow has a buffer.
    pub fn new() -> (r: ReassemblyStore)
        ensures
            r.wf(),
            r@ == Map::<FlowKey, Seq<u8>>::empty(),
    {
        ReassemblyStore { entries: Vec::new() }
    }

    fn find_index(&self, key: FlowKey) -> (r: Option<usize>)
        ensures
            match r {
                Some(i) => i < self.entries@.len() && self.entries@[i as int].0 == key,
                None => forall|j: int| 0 <= j < self.entries@.len() ==> self.entries@[j].0 != key,
            },
    {
        let n = self.entries.len();
        let mut i: usize = 0;
        while i < n
            invariant
                i <= n,
                n == self.entries@.len(),
                forall|j: int| 0 <= j < i ==> self.entries@[j].0 != key,
            decreases n - i,
        {
            if self.entries[i].0 == key {
                return Some(i);
            }
            i += 1;
        }
        None
    }

    /// Create an empty entry for the key if none exists, then append the
    /// bytes to the entry's buffer. No length limit is enforced here; the
    /// dispatcher applies the size ceiling.
    pub fn append(&mut self, key: FlowKey, bytes: &[u8])
        requires
            old(self).wf(),
        ensures
            final(self).wf(),
            final(self)@ == old(self)@.insert(key, buffer_of(old(self)@, key) + bytes@),
    {
        proof {
            lemma_map_of_contains(self.entries@, key);
        }
        let ghost s0 = self.entries@;
        match self.find_index(key) {
            Some(i) => {
                let mut pair = self.entries.remove(i);
                let mut extra = vstd::slice::slice_to_vec(bytes);
                pair.1.append(&mut extra);
                proof {
                    lemma_map_of_index(s0, i as int);
                    lemma_map_of_remove(s0, i as int);
                    assert(entry_keys_distinct(s0.remove(i as int)));
                    lemma_map_of_push(s0.remove(i as int), key, pair.1);
                    lemma_map_of_contains(s0.remove(i as int), key);
                    assert(forall|j: int|
                        0 <= j < s0.remove(i as int).len() ==> s0.remove(i as int)[j].0 != key);
                    assert(map_of(s0).remove(key).insert(key, pair.1@) =~= map_of(s0).insert(
                        key,
                        pair.1@,
                    ));
                }
                self.entries.push(pair);
            },
            None => {
                let buf = vstd::slice::slice_to_vec(bytes);
                proof {
                    lemma_map_of_push(s0, key, buf);
                    assert(buffer_of(map_of(s0), key) + bytes@ =~= bytes@);
                }
                self.entries.push((key, buf));
            },
        }
    }

    /// Read the current buffer contents for decode attempts, without
    /// consuming them: the buffered bytes when the flow has an entry,
    /// nothing otherwise.
    pub fn snapshot(&self, key: FlowKey) -> (r: Option<&Vec<u8>>)
        requires
            self.wf(),
        ensures
            match r {
                Some(b) => self@.contains_key(key) && b@ == self@[key],
                None => !self@.contains_key(key),
            },
    {
        proof {
            lemma_map_of_contains(self.entries@, key);
        }
        match self.find_index(key) {
            Some(i) => {
                proof {
                    lemma_map_of_index(self.entries@, i as int);
                }
                Some(&self.entries[i].1)
            },
            None => None,
        }
    }

    /// Remove the entry for the key entirely, if present: used after a
    /// successful decode and on stream termination.
    pub fn clear(&mut self, key: FlowKey)
        requires
            old(self).wf(),
        ensures
            final(self).wf(),
            final(self)@ == old(self)@.remove(key),
    {
        proof {
            lemma_map_of_contains(self.entries@, key);
        }
        let ghost s0 = self.entries@;
        match self.find_index(key) {
            Some(i) => {
                proof {
                    lemma_map_of_remove(s0, i as int);
                }
                let _ = self.entries.remove(i);
            },
            None => {
                proof {
                    assert(map_of(s0) =~= map_of(s0).remove(key));
                }
            },
        }
    }
}

/// The store map that results from appending each segment in turn to one
/// flow's buffer, with no intervening clear.
pub open spec fn store_after_appends(
    m: Map<FlowKey, Seq<u8>>,
    k: FlowKey,
    segs: Seq<Seq<u8>>,
) -> Map<FlowKey, Seq<u8>>
    decreases segs.len(),
{
    if segs.len() == 0 {
        m
    } else {
        store_after_appends(m.insert(k, buffer_of(m, k) + segs.first()), k, segs.drop_first())
    }
}

/// Law: after any number of segments are appended to one flow, in order
/// and with no intervening clear, that flow's buffer equals its prior
/// contents followed by the concatenation of the segments in the order
/// appended.
pub proof fn lemma_appends_concatenate(m: Map<FlowKey, Seq<u8>>, k: FlowKey, segs: Seq<Seq<u8>>)
    ensures
        buffer_of(store_after_appends(m, k, segs), k) == buffer_of(m, k) + segs.flatten(),
    decreases segs.len(),
{
    if segs.len() == 0 {
        assert(buffer_of(m, k) + segs.flatten() =~= buffer_of(m, k));
    } else {
        let m1 = m.insert(k, buffer_of(m, k) + segs.first());
        lemma_appends_concatenate(m1, k, segs.drop_first());
        assert(buffer_of(m1, k) == buffer_of(m, k) + segs.first());
        assert(buffer_of(m, k) + segs.first() + segs.drop_first().flatten() =~= buffer_of(m, k) + (
        segs.first() + segs.drop_first().flatten()));
    }
}

} // verus!
