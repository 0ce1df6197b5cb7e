//! The key-to-value mapping a range read is collected into, and the
//! mathematical reading of a sequence of key-value pairs as a map.

use vstd::prelude::*;
use crate::messages::KeyValue;
use crate::keys::key_eq;

verus! {

/// The map a sequence of key-value pairs stands for: pairs are taken in
/// order, and a later pair with the same key overwrites an earlier one.
pub open spec fn kvs_map(s: Seq<KeyValue>) -> Map<Seq<u8>, Seq<u8>>
    decreases s.len(),
{
    if s.len() == 0 {
        Map::empty()
    } else {
        kvs_map(s.drop_last()).insert(s.last().key@, s.last().value@)
    }
}

/// No two pairs of the sequence share a key.
pub open spec fn kvs_keys_distinct(s: Seq<KeyValue>) -> bool {
    forall|i: int, j: int| 0 <= i < j < s.len() ==> s[i].key@ != s[j].key@
}

/// Appending a pair inserts its key.
pub proof fn lemma_kvs_map_push(s: Seq<KeyValue>, kv: KeyValue)
    ensures
        kvs_map(s.push(kv)) == kvs_map(s).insert(kv.key@, kv.value@),
{
    assert(s.push(kv).drop_last() =~= s);
    assert(s.push(kv).last() == kv);
}

/// A key is in the map exactly when some pair of the sequence holds it.
pub proof fn lemma_kvs_map_dom(s: Seq<KeyValue>)
    ensures
        forall|k: Seq<u8>| #[trigger] kvs_map(s).contains_key(k)
            <==> exists|i: int| 0 <= i < s.len() && s[i].key@ == k,
    decreases s.len(),
{
    if s.len() > 0 {
        lemma_kvs_map_dom(s.drop_last());
        assert forall|k: Seq<u8>| #[trigger] kvs_map(s).contains_key(k)
            implies exists|i: int| 0 <= i < s.len() && s[i].key@ == k by {
            if k == s.last().key@ {
                assert(s[s.len() - 1].key@ == k);
            } else {
                assert(kvs_map(s.drop_last()).contains_key(k));
                let i = choose|i: int| 0 <= i < s.drop_last().len() && s.drop_last()[i].key@ == k;
                assert(s.drop_last()[i] == s[i]);
                assert(s[i].key@ == k);
            }
        }
        assert forall|k: Seq<u8>|
            exists|i: int| 0 <= i < s.len() && s[i].key@ == k
            implies #[trigger] kvs_map(s).contains_key(k) by {
            let i = choose|i: int| 0 <= i < s.len() && s[i].key@ == k;
            if i == s.len() - 1 {
                assert(k == s.last().key@);
            } else {
                assert(s.drop_last()[i].key@ == k);
                assert(exists|j: int| 0 <= j < s.drop_last().len() && s.drop_last()[j].key@ == k);
                assert(kvs_map(s.drop_last()).contains_key(k));
            }
        }
    }
}

/// With distinct keys, the map holds each pair's value at its key.
pub proof fn lemma_kvs_map_index(s: Seq<KeyValue>, i: int)
    requires
        kvs_keys_distinct(s),
        0 <= i < s.len(),
    ensures
        kvs_map(s).contains_key(s[i].key@),
        kvs_map(s)[s[i].key@] == s[i].value@,
    decreases s.len(),
{
    if i == s.len() - 1 {
    } else {
        assert(kvs_keys_distinct(s.drop_last()));
        assert(s.drop_last()[i] == s[i]);
        lemma_kvs_map_index(s.drop_last(), i);
        assert(s[i].key@ != s.last().key@);
    }
}

/// With distinct keys, the map is exactly as large as the sequence, and
/// its domain is finite.
pub proof fn lemma_kvs_map_len(s: Seq<KeyValue>)
    requires
        kvs_keys_distinct(s),
    ensures
        kvs_map(s).dom().finite(),
        kvs_map(s).dom().len() == s.len(),
    decreases s.len(),
{
    if s.len() > 0 {
        assert(kvs_keys_distinct(s.drop_last()));
        lemma_kvs_map_len(s.drop_last());
        lemma_kvs_map_dom(s.drop_last());
        assert(!kvs_map(s.drop_last()).contains_key(s.last().key@));
    }
}

/// Overwriting the pair at `i` with one that holds the same key inserts
/// the new value at that key.
pub proof fn lemma_kvs_map_update(s: Seq<KeyValue>, i: int, kv: KeyValue)
    requires
        kvs_keys_distinct(s),
        0 <= i < s.len(),
        kv.key@ == s[i].key@,
    ensures
        kvs_keys_distinct(s.update(i, kv)),
        kvs_map(s.update(i, kv)) == kvs_map(s).insert(kv.key@, kv.value@),
    decreases s.len(),
{
    let t = s.update(i, kv);
    assert(kvs_keys_distinct(t));
    if i == s.len() - 1 {
        assert(t.drop_last() =~= s.drop_last());
        assert(t.last() == kv);
        assert(kvs_map(t) == kvs_map(s.drop_last()).insert(kv.key@, kv.value@));
        assert(kvs_map(s.drop_last()).insert(s.last().key@, s.last().value@).insert(kv.key@, kv.value@)
            =~= kvs_map(s.drop_last()).insert(kv.key@, kv.value@));
    } else {
        assert(t.drop_last() =~= s.drop_last().update(i, kv));
        assert(t.last() == s.last());
        assert(kvs_keys_distinct(s.drop_last()));
        assert(s.drop_last()[i] == s[i]);
        lemma_kvs_map_update(s.drop_last(), i, kv);
        assert(kv.key@ != s.last().key@);
        assert(kvs_map(s.drop_last()).insert(kv.key@, kv.value@).insert(s.last().key@, s.last().value@)
            =~= kvs_map(s.drop_last()).insert(s.last().key@, s.last().value@).insert(kv.key@, kv.value@));
    }
}

/// The position of the first pair that holds `key`, when one does.
pub(crate) fn find_key(entries: &Vec<KeyValue>, key: &Vec<u8>) -> (r: Option<usize>)
    ensures
        match r {
            Some(i) => i < entries@.len() && entries@[i as int].key@ == key@,
            None => forall|j: int| 0 <= j < entries@.len() ==> entries@[j].key@ != key@,
        },
{
    let mut i: usize = 0;
    while i < entries.len()
        invariant
            i <= entries@.len(),
            forall|j: int| 0 <= j < i ==> entries@[j].key@ != key@,
        decreases entries@.len() - i,
    {
        if key_eq(&entries[i].key, key) {
            return Some(i);
        }
        i += 1;
    }
    None
}

/// The key-to-value mapping returned by a range read: keys are unique,
/// and the mapping is read through its map view.
pub struct KvMapping {
    entries: Vec<KeyValue>,
}

impl View for KvMapping {
    type V = Map<Seq<u8>, Seq<u8>>;

    closed spec fn view(&self) -> Map<Seq<u8>, Seq<u8>> {
        kvs_map(self.entries@)
    }
}

impl KvMapping {
    /// The keys of the held pairs are unique.
    pub closed spec fn wf(&self) -> bool {
        kvs_keys_distinct(self.entries@)
    }

    /// An empty mapping.
    pub fn new() -> (r: KvMapping)
        ensures
            r.wf(),
            r@ == Map::<Seq<u8>, Seq<u8>>::empty(),
    {
        KvMapping { entries: Vec::new() }
    }

    /// Binds `key` to `value`, replacing any earlier binding of `key`.
    pub fn insert(&mut self, key: Vec<u8>, value: Vec<u8>)
        requires
            old(self).wf(),
        ensures
            final(self).wf(),
            final(self)@ == old(self)@.insert(key@, value@),
    {
        let ghost s0 = self.entries@;
        match find_key(&self.entries, &key) {
            Some(i) => {
                let kv = KeyValue { key, value };
                proof {
                    lemma_kvs_map_update(s0, i as int, kv);
                }
                self.entries.set(i, kv);
            },
            None => {
                let kv = KeyValue { key, value };
                proof {
                    lemma_kvs_map_push(s0, kv);
                }
                self.entries.push(kv);
            },
        }
    }

    /// The value bound to `key`, when one is.
    pub fn get(&self, key: &Vec<u8>) -> (r: Option<&Vec<u8>>)
        requires
            self.wf(),
        ensures
            match r {
                Some(v) => self@.contains_key(key@) && v@ == self@[key@],
                None => !self@.contains_key(key@),
            },
    {
        proof {
            lemma_kvs_map_dom(self.entries@);
        }
        match find_key(&self.entries, key) {
            Some(i) => {
                proof {
                    lemma_kvs_map_index(self.entries@, i as int);
                }
                Some(&self.entries[i].value)
            },
            None => None,
        }
    }

    /// Whether `key` is bound.
    pub fn contains_key(&self, key: &Vec<u8>) -> (r: bool)
        requires
            self.wf(),
        ensures
            r == self@.contains_key(key@),
    {
        match self.get(key) {
            Some(_) => true,
            None => false,
        }
    }

    /// How many keys are bound.
    pub fn len(&self) -> (r: usize)
        requires
            self.wf(),
        ensures
            r == self@.len(),
    {
        proof {
            lemma_kvs_map_len(self.entries@);
        }
        self.entries.len()
    }

    /// Whether no key is bound.
    pub fn is_empty(&self) -> (r: bool)
        requires
            self.wf(),
        ensures
            r == (self@ =~= Map::<Seq<u8>, Seq<u8>>::empty()),
    {
        proof {
            if self.entries@.len() > 0 {
                lemma_kvs_map_index(self.entries@, 0);
            }
        }
        self.entries.len() == 0
    }

    /// The held pairs, in an unspecified order; an independent copy.
    pub fn pairs(&self) -> (r: Vec<KeyValue>)
        requires
            self.wf(),
        ensures
            kvs_keys_distinct(r@),
            kvs_map(r@) == self@,
            r@.len() == self@.len(),
    {
        proof {
            lemma_kvs_map_len(self.entries@);
        }
        let mut out: Vec<KeyValue> = Vec::new();
        let mut i: usize = 0;
        while i < self.entries.len()
            invariant
                self.wf(),
                i <= self.entries@.len(),
                out@.len() == i,
                forall|j: int| 0 <= j < i ==>
                    out@[j].key@ == self.entries@[j].key@
                    && out@[j].value@ == self.entries@[j].value@,
            decreases self.entries@.len() - i,
        {
            out.push(self.entries[i].duplicate());
            i += 1;
        }
        proof {
            assert forall|i: int, j: int| 0 <= i < j < out@.len()
                implies out@[i].key@ != out@[j].key@ by {
                assert(self.entries@[i].key@ != self.entries@[j].key@);
            }
            lemma_kvs_map_agree(out@, self.entries@);
        }
        out
    }
}

/// Two pair sequences whose keys and values agree position by position
/// stand for the same map.
pub proof fn lemma_kvs_map_agree(a: Seq<KeyValue>, b: Seq<KeyValue>)
    requires
        a.len() == b.len(),
        forall|i: int| 0 <= i < a.len() ==> a[i].key@ == b[i].key@ && a[i].value@ == b[i].value@,
    ensures
        kvs_map(a) == kvs_map(b),
    decreases a.len(),
{
    if a.len() > 0 {
        assert(forall|i: int| 0 <= i < a.drop_last().len()
            ==> a.drop_last()[i].key@ == b.drop_last()[i].key@
                && a.drop_last()[i].value@ == b.drop_last()[i].value@);
        lemma_kvs_map_agree(a.drop_last(), b.drop_last());
        assert(a.last().key@ == b.last().key@ && a.last().value@ == b.last().value@);
    }
}

} // verus!
