//! A view of a key or key interval: the requests its operations send,
//! and the collection of a range read's answer into a mapping.

use vstd::prelude::*;
use crate::keys::in_interval;
use crate::keys::key_in_interval;
use crate::keys::wire_end;
use crate::keys::wire_in_interval;
use crate::mapping::KvMapping;
use crate::mapping::kvs_map;
use crate::mapping::lemma_kvs_map_push;
use crate::messages::copy_bytes;
use crate::messages::KeyValue;
use crate::messages::PutRequest;
use crate::messages::RangeRequest;
use crate::messages::RangeResponse;
use crate::messages::DeleteRangeRequest;

verus! {

/// A key interval a client's operations are scoped to: the single key
/// `start` when `end` is absent, else the half-open interval
/// `[start, end)`. It holds no connection of its own: it only shapes
/// requests and reads answers.
pub struct Range {
    start: Vec<u8>,
    end: Option<Vec<u8>>,
}

impl Range {
    /// The interval's lower bound, which is also the key its writes go to.
    pub closed spec fn start_key(&self) -> Seq<u8> {
        self.start@
    }

    /// The interval's upper bound, absent for a single-key view.
    pub closed spec fn end_key(&self) -> Option<Seq<u8>> {
        match self.end {
            Some(e) => Some(e@),
            None => None,
        }
    }

    /// A view of the given interval.
    pub fn new(start: Vec<u8>, end: Option<Vec<u8>>) -> (r: Range)
        ensures
            r.start_key() == start@,
            r.end_key() == (match end {
                Some(e) => Some(e@),
                None => None::<Seq<u8>>,
            }),
    {
        Range { start, end }
    }

    /// Whether `k` lies in the interval.
    pub fn contains(&self, k: &Vec<u8>) -> (r: bool)
        ensures
            r == in_interval(self.start_key(), self.end_key(), k@),
    {
        key_in_interval(&self.start, &self.end, k)
    }

    /// The write a put on this view issues: a single-key write at
    /// `start` that asks for the previous value, whatever the upper
    /// bound — a write never spans the interval.
    pub fn put_request(&self, value: Vec<u8>) -> (r: PutRequest)
        ensures
            r.key@ == self.start_key(),
            r.value@ == value@,
            r.prev_kv == true,
    {
        PutRequest { key: copy_bytes(&self.start), value, prev_kv: true }
    }

    /// The read a get on this view issues: the wire interval names the
    /// same keys as the view.
    pub fn get_request(&self) -> (r: RangeRequest)
        ensures
            r.key@ == self.start_key(),
            r.range_end@ == wire_end(self.end_key()),
            forall|k: Seq<u8>| #[trigger] wire_in_interval(r.key@, r.range_end@, k)
                == in_interval(self.start_key(), self.end_key(), k),
    {
        let range_end = match &self.end {
            Some(e) => copy_bytes(e),
            None => Vec::new(),
        };
        RangeRequest { key: copy_bytes(&self.start), range_end }
    }

    /// The delete a delete on this view issues, over the same wire
    /// interval. It consumes the view: a delete is terminal for it.
    pub fn delete_request(self) -> (r: DeleteRangeRequest)
        ensures
            r.key@ == self.start_key(),
            r.range_end@ == wire_end(self.end_key()),
            forall|k: Seq<u8>| #[trigger] wire_in_interval(r.key@, r.range_end@, k)
                == in_interval(self.start_key(), self.end_key(), k),
    {
        let range_end = match &self.end {
            Some(e) => copy_bytes(e),
            None => Vec::new(),
        };
        DeleteRangeRequest { key: copy_bytes(&self.start), range_end }
    }

    /// Collects a range read's answer into a key-to-value mapping. A
    /// later pair overwrites an earlier one with the same key; the
    /// server sends each key at most once, so nothing is lost.
    pub fn collect(&self, resp: &RangeResponse) -> (r: KvMapping)
        ensures
            r.wf(),
            r@ == kvs_map(resp.kvs@),
    {
        let mut out = KvMapping::new();
        let mut i: usize = 0;
        while i < resp.kvs.len()
            invariant
                out.wf(),
                i <= resp.kvs@.len(),
                out@ == kvs_map(resp.kvs@.subrange(0, i as int)),
            decreases resp.kvs@.len() - i,
        {
            let kv = resp.kvs[i].duplicate();
            proof {
                assert(resp.kvs@.subrange(0, i + 1)
                    =~= resp.kvs@.subrange(0, i as int).push(resp.kvs@[i as int]));
                lemma_kvs_map_push(resp.kvs@.subrange(0, i as int), resp.kvs@[i as int]);
            }
            let KeyValue { key, value } = kv;
            out.insert(key, value);
            i += 1;
        }
        proof {
            assert(resp.kvs@.subrange(0, resp.kvs@.len() as int) =~= resp.kvs@);
        }
        out
    }
}

} // verus!
