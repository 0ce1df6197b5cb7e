//! Watch subscriptions: the create request a watch opens with, the
//! change notifications a stream carries, and what it means for a
//! notification to reach a watch.

use vstd::prelude::*;
use crate::messages::copy_bytes;
use crate::messages::KeyValue;
use crate::keys::key_eq;
use crate::messages::PutRequest;

verus! {

/// Opens a watch on the single key `key`: the one element of the
/// outbound stream a watch call sends.
pub struct WatchCreateRequest {
    pub key: Vec<u8>,
}

/// What kind of change an event reports.
pub enum EventKind {
    Put,
    Delete,
}

/// One change to one key.
pub struct Event {
    pub kind: EventKind,
    pub kv: KeyValue,
}

/// One message of a watch stream: the events of one change batch.
pub struct WatchResponse {
    pub events: Vec<Event>,
}

/// Whether a stream message carries an event for `key`.
pub open spec fn mentions_key(resp: WatchResponse, key: Seq<u8>) -> bool {
    exists|i: int| 0 <= i < resp.events@.len() && resp.events@[i].kv.key@ == key
}

/// Whether a message is the notification the server fans out for a
/// write: one put event carrying the written key and value.
pub open spec fn is_put_notification(resp: WatchResponse, req: PutRequest) -> bool {
    &&& resp.events@.len() == 1
    &&& resp.events@[0].kind is Put
    &&& resp.events@[0].kv.key@ == req.key@
    &&& resp.events@[0].kv.value@ == req.value@
}

/// The notification the server fans out to watch streams for a write.
pub fn put_notification(req: &PutRequest) -> (r: WatchResponse)
    ensures
        is_put_notification(r, *req),
{
    let kv = KeyValue { key: copy_bytes(&req.key), value: copy_bytes(&req.value) };
    let e = Event { kind: EventKind::Put, kv };
    let mut events: Vec<Event> = Vec::new();
    events.push(e);
    WatchResponse { events }
}

/// Whether a stream message carries an event for the watched key.
pub fn watch_delivers(w: &WatchCreateRequest, resp: &WatchResponse) -> (r: bool)
    ensures
        r == mentions_key(*resp, w.key@),
{
    let mut i: usize = 0;
    while i < resp.events.len()
        invariant
            i <= resp.events@.len(),
            forall|j: int| 0 <= j < i ==> resp.events@[j].kv.key@ != w.key@,
        decreases resp.events@.len() - i,
    {
        if key_eq(&resp.events[i].kv.key, &w.key) {
            proof {
                assert(resp.events@[i as int].kv.key@ == w.key@);
            }
            return true;
        }
        i += 1;
    }
    false
}

} // verus!
