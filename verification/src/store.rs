//! A model of the store the server keeps: the semantics the client's
//! requests are written against. A write inserts one key, a range read
//! restricts the store to an interval of keys, a range delete removes
//! that interval. The interval laws in `laws` are proved of this model.

use vstd::prelude::*;
use crate::keys::key_in_wire_interval;
use crate::keys::wire_in_interval;
use crate::keys::wire_interval_set;
use crate::mapping::find_key;
use crate::mapping::kvs_map;
use crate::mapping::kvs_keys_distinct;
use crate::mapping::lemma_kvs_map_push;
use crate::mapping::lemma_kvs_map_update;
use crate::mapping::lemma_kvs_map_index;
use crate::mapping::lemma_kvs_map_dom;
use crate::mapping::lemma_kvs_map_len;
use crate::messages::copy_bytes;
use crate::messages::KeyValue;
use crate::messages::PutRequest;
use crate::messages::PutResponse;
use crate::messages::RangeRequest;
use crate::messages::RangeResponse;
use crate::messages::DeleteRangeRequest;
use crate::messages::DeleteRangeResponse;

verus! {

/// The store's state: one value per key, viewed as a map from key bytes
/// to value bytes.
pub struct Store {
    entries: Vec<KeyValue>,
}

impl View for Store {
    type V = Map<Seq<u8>, Seq<u8>>;

    closed spec fn view(&self) -> Map<Seq<u8>, Seq<u8>> {
        kvs_map(self.entries@)
    }
}

impl Store {
    /// Each key is held at most once.
    pub closed spec fn wf(&self) -> bool {
        kvs_keys_distinct(self.entries@)
    }

    /// An empty store.
    pub fn new() -> (r: Store)
        ensures
            r.wf(),
            r@ == Map::<Seq<u8>, Seq<u8>>::empty(),
    {
        Store { entries: Vec::new() }
    }

    /// Applies a write: binds the request's key to its value. When the
    /// request asks for the previous pair, the response carries the pair
    /// the key held before, if the key was bound.
    pub fn put(&mut self, req: &PutRequest) -> (resp: PutResponse)
        requires
            old(self).wf(),
        ensures
            final(self).wf(),
            final(self)@ == old(self)@.insert(req.key@, req.value@),
            req.prev_kv && old(self)@.contains_key(req.key@) ==> (match resp.prev_kv {
                Some(kv) => kv.key@ == req.key@ && kv.value@ == old(self)@[req.key@],
                None => false,
            }),
            !(req.prev_kv && old(self)@.contains_key(req.key@)) ==> resp.prev_kv is None,
    {
        let ghost s0 = self.entries@;
        proof {
            lemma_kvs_map_dom(s0);
        }
        let kv = KeyValue { key: copy_bytes(&req.key), value: copy_bytes(&req.value) };
        match find_key(&self.entries, &req.key) {
            Some(i) => {
                proof {
                    lemma_kvs_map_index(s0, i as int);
                    lemma_kvs_map_update(s0, i as int, kv);
                }
                let prev = if req.prev_kv {
                    Some(self.entries[i].duplicate())
                } else {
                    None
                };
                self.entries.set(i, kv);
                PutResponse { prev_kv: prev }
            },
            None => {
                proof {
                    lemma_kvs_map_push(s0, kv);
                }
                self.entries.push(kv);
                PutResponse { prev_kv: None }
            },
        }
    }

    /// Answers a range read: the pairs whose keys lie in the requested
    /// interval, with their count. The answer, read as a map, is the
    /// store restricted to the interval.
    pub fn range(&self, req: &RangeRequest) -> (resp: RangeResponse)
        requires
            self.wf(),
        ensures
            kvs_keys_distinct(resp.kvs@),
            kvs_map(resp.kvs@) == self@.restrict(wire_interval_set(req.key@, req.range_end@)),
            resp.count == resp.kvs@.len(),
            forall|i: int| 0 <= i < resp.kvs@.len()
                ==> wire_in_interval(req.key@, req.range_end@, #[trigger] resp.kvs@[i].key@),
    {
        let ghost s = self.entries@;
        let ghost sel = wire_interval_set(req.key@, req.range_end@);
        let mut kvs: Vec<KeyValue> = Vec::new();
        let mut i: usize = 0;
        while i < self.entries.len()
            invariant
                self.wf(),
                i <= s.len(),
                s == self.entries@,
                kvs_keys_distinct(kvs@),
                kvs_map(kvs@) == kvs_map(s.subrange(0, i as int)).restrict(sel),
                sel == wire_interval_set(req.key@, req.range_end@),
                forall|j: int| 0 <= j < kvs@.len()
                    ==> wire_in_interval(req.key@, req.range_end@, #[trigger] kvs@[j].key@),
                forall|j: int| 0 <= j < kvs@.len()
                    ==> exists|l: int| 0 <= l < i && #[trigger] kvs@[j].key@ == s[l].key@,
            decreases s.len() - i,
        {
            let ghost prefix = s.subrange(0, i as int);
            proof {
                assert(s.subrange(0, i + 1) =~= prefix.push(s[i as int]));
                lemma_kvs_map_push(prefix, s[i as int]);
            }
            if key_in_wire_interval(&req.key, &req.range_end, &self.entries[i].key) {
                let kv = self.entries[i].duplicate();
                proof {
                    assert forall|j: int| 0 <= j < kvs@.len()
                        implies kvs@[j].key@ != s[i as int].key@ by {
                        let l = choose|l: int| 0 <= l < i && kvs@[j].key@ == s[l].key@;
                        assert(s[l].key@ != s[i as int].key@);
                    }
                    lemma_kvs_map_push(kvs@, kv);
                    assert(kvs_map(prefix).restrict(sel).insert(s[i as int].key@, s[i as int].value@)
                        =~= kvs_map(prefix).insert(s[i as int].key@, s[i as int].value@).restrict(sel));
                }
                kvs.push(kv);
                proof {
                    assert forall|j: int| 0 <= j < kvs@.len()
                        implies exists|l: int| 0 <= l < i + 1 && #[trigger] kvs@[j].key@ == s[l].key@ by {
                        if j == kvs@.len() - 1 {
                            assert(kvs@[j].key@ == s[i as int].key@);
                        }
                    }
                }
            } else {
                proof {
                    assert(kvs_map(prefix).restrict(sel)
                        =~= kvs_map(prefix).insert(s[i as int].key@, s[i as int].value@).restrict(sel));
                }
            }
            i += 1;
        }
        proof {
            assert(s.subrange(0, s.len() as int) =~= s);
            lemma_kvs_map_len(kvs@);
        }
        let count = kvs.len() as u64;
        RangeResponse { kvs, count }
    }

    /// Applies a range delete: removes every key in the requested
    /// interval and reports how many keys were removed.
    pub fn delete_range(&mut self, req: &DeleteRangeRequest) -> (resp: DeleteRangeResponse)
        requires
            old(self).wf(),
        ensures
            final(self).wf(),
            final(self)@ == old(self)@.remove_keys(wire_interval_set(req.key@, req.range_end@)),
            resp.deleted == old(self)@.len() - final(self)@.len(),
    {
        let ghost s = self.entries@;
        let ghost sel = wire_interval_set(req.key@, req.range_end@);
        let mut kept: Vec<KeyValue> = Vec::new();
        let mut i: usize = 0;
        while i < self.entries.len()
            invariant
                self.wf(),
                i <= s.len(),
                s == self.entries@,
                kept@.len() <= i,
                kvs_keys_distinct(kept@),
                kvs_map(kept@) == kvs_map(s.subrange(0, i as int)).remove_keys(sel),
                sel == wire_interval_set(req.key@, req.range_end@),
                kvs_map(s.subrange(0, i as int)).dom().finite(),
                kvs_map(s.subrange(0, i as int)).len() == i,
                kvs_map(kept@).dom().finite(),
                kvs_map(kept@).len() == kept@.len(),
                forall|j: int| 0 <= j < kept@.len()
                    ==> exists|l: int| 0 <= l < i && #[trigger] kept@[j].key@ == s[l].key@,
            decreases s.len() - i,
        {
            let ghost prefix = s.subrange(0, i as int);
            proof {
                assert(s.subrange(0, i + 1) =~= prefix.push(s[i as int]));
                lemma_kvs_map_push(prefix, s[i as int]);
                assert(kvs_keys_distinct(s.subrange(0, i + 1)));
                lemma_kvs_map_len(s.subrange(0, i + 1));
            }
            if key_in_wire_interval(&req.key, &req.range_end, &self.entries[i].key) {
                proof {
                    assert(kvs_map(prefix).remove_keys(sel)
                        =~= kvs_map(prefix).insert(s[i as int].key@, s[i as int].value@).remove_keys(sel));
                }
            } else {
                let kv = self.entries[i].duplicate();
                proof {
                    assert forall|j: int| 0 <= j < kept@.len()
                        implies kept@[j].key@ != s[i as int].key@ by {
                        let l = choose|l: int| 0 <= l < i && kept@[j].key@ == s[l].key@;
                        assert(s[l].key@ != s[i as int].key@);
                    }
                    lemma_kvs_map_push(kept@, kv);
                    assert(kvs_map(prefix).remove_keys(sel).insert(s[i as int].key@, s[i as int].value@)
                        =~= kvs_map(prefix).insert(s[i as int].key@, s[i as int].value@).remove_keys(sel));
                }
                kept.push(kv);
                proof {
                    assert forall|j: int| 0 <= j < kept@.len()
                        implies exists|l: int| 0 <= l < i + 1 && #[trigger] kept@[j].key@ == s[l].key@ by {
                        if j == kept@.len() - 1 {
                            assert(kept@[j].key@ == s[i as int].key@);
                        }
                    }
                }
            }
            i += 1;
        }
        proof {
            assert(s.subrange(0, s.len() as int) =~= s);
        }
        let deleted = (self.entries.len() - kept.len()) as u64;
        self.entries = kept;
        DeleteRangeResponse { deleted }
    }

    /// How many keys the store holds.
    pub fn len(&self) -> (r: usize)
        requires
            self.wf(),
        ensures
            r == self@.len(),
    {
        proof {
            lemma_kvs_map_len(self.entries@);
        }
        self.entries.len()
    }
}

} // verus!
