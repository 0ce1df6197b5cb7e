//! The laws of the client's range operations, stated over the map view
//! the store model and the response collection share: what a read of an
//! interval returns after a write or a delete, and what a watch stream
//! carries after a write.

use vstd::prelude::*;
use crate::keys::interval_set;
use crate::keys::lex_lt;
use crate::keys::lemma_lex_asymmetric;
use crate::keys::lemma_lex_irreflexive;
use crate::keys::lemma_lex_transitive;
use crate::messages::PutRequest;
use crate::watch::WatchCreateRequest;
use crate::watch::WatchResponse;
use crate::watch::is_put_notification;
use crate::watch::mentions_key;

verus! {

/// Round trip: after a write binds `k` to `v`, a single-key read of `k`
/// returns exactly the one pair `(k, v)`, whatever the store held
/// before.
pub proof fn lemma_put_then_get(m: Map<Seq<u8>, Seq<u8>>, k: Seq<u8>, v: Seq<u8>)
    ensures
        m.insert(k, v).restrict(interval_set(k, None)) == map![k => v],
{
    assert(m.insert(k, v).restrict(interval_set(k, None)) =~= map![k => v]);
}

/// Half-open interval: a read of `[k1, k3)` over a store that holds
/// `k1 < k2 < k3` returns `k1` and `k2` but not `k3`.
pub proof fn lemma_range_half_open(m: Map<Seq<u8>, Seq<u8>>, k1: Seq<u8>, k2: Seq<u8>, k3: Seq<u8>)
    requires
        m.contains_key(k1),
        m.contains_key(k2),
        m.contains_key(k3),
        lex_lt(k1, k2),
        lex_lt(k2, k3),
    ensures
        m.restrict(interval_set(k1, Some(k3))).contains_key(k1),
        m.restrict(interval_set(k1, Some(k3))).contains_key(k2),
        !m.restrict(interval_set(k1, Some(k3))).contains_key(k3),
{
    assert(k3.len() > 0);
    lemma_lex_irreflexive(k1);
    lemma_lex_transitive(k1, k2, k3);
    lemma_lex_asymmetric(k1, k2);
    lemma_lex_irreflexive(k3);
}

/// Delete terminality: after a delete of an interval, a fresh read of
/// the same interval returns the empty mapping; for a single-key view
/// this is the read after `delete()` of a fresh view on the same key.
pub proof fn lemma_delete_then_get(m: Map<Seq<u8>, Seq<u8>>, start: Seq<u8>, end: Option<Seq<u8>>)
    ensures
        m.remove_keys(interval_set(start, end)).restrict(interval_set(start, end))
            == Map::<Seq<u8>, Seq<u8>>::empty(),
{
    assert(m.remove_keys(interval_set(start, end)).restrict(interval_set(start, end))
        =~= Map::<Seq<u8>, Seq<u8>>::empty());
}

/// Watch delivery: the notification a write fans out reaches a watch
/// established on the written key — the stream carries a message with
/// an event whose key is the watched key.
pub proof fn lemma_watch_delivery(w: WatchCreateRequest, req: PutRequest, resp: WatchResponse)
    requires
        w.key@ == req.key@,
        is_put_notification(resp, req),
    ensures
        mentions_key(resp, w.key@),
{
    assert(resp.events@[0].kv.key@ == w.key@);
}

} // verus!
