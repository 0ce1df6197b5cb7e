//! The request and response messages the client exchanges with the
//! server, reduced to the fields this client sets or reads. The wire
//! layer outside the library carries them to and from the generated
//! protocol structures field for field.

use vstd::prelude::*;

verus! {

/// An independent copy of a byte string.
pub fn copy_bytes(a: &Vec<u8>) -> (r: Vec<u8>)
    ensures
        r@ == a@,
{
    let r = a.clone();
    proof {
        assert forall|i: int| 0 <= i < a@.len() implies r@[i] == a@[i] by {
            assert(cloned::<u8>(a@[i], r@[i]));
        }
        assert(r@ =~= a@);
    }
    r
}

/// A key-value pair as the server stores and reports it.
pub struct KeyValue {
    pub key: Vec<u8>,
    pub value: Vec<u8>,
}

impl KeyValue {
    /// An independent copy of the pair.
    pub fn duplicate(&self) -> (r: KeyValue)
        ensures
            r.key@ == self.key@,
            r.value@ == self.value@,
    {
        KeyValue { key: copy_bytes(&self.key), value: copy_bytes(&self.value) }
    }
}

/// A single-key write. `prev_kv` asks the server to report the value the
/// key held before the write.
pub struct PutRequest {
    pub key: Vec<u8>,
    pub value: Vec<u8>,
    pub prev_kv: bool,
}

/// The server's answer to a write: the pair the key held before, when the
/// request asked for it and the key was present.
pub struct PutResponse {
    pub prev_kv: Option<KeyValue>,
}

/// A read of the interval `[key, range_end)`; an empty `range_end` means
/// the single key `key`.
pub struct RangeRequest {
    pub key: Vec<u8>,
    pub range_end: Vec<u8>,
}

/// The server's answer to a range read: the pairs whose keys lie in the
/// interval, and how many there are.
pub struct RangeResponse {
    pub kvs: Vec<KeyValue>,
    pub count: u64,
}

/// A delete of the interval `[key, range_end)`; an empty `range_end`
/// means the single key `key`.
pub struct DeleteRangeRequest {
    pub key: Vec<u8>,
    pub range_end: Vec<u8>,
}

/// The server's answer to a delete: how many keys it removed.
pub struct DeleteRangeResponse {
    pub deleted: u64,
}

/// A request for the status of the answering server.
pub struct StatusRequest {}

/// What an alarm request asks the server to do with its alarms.
pub enum AlarmAction {
    Get,
    Activate,
    Deactivate,
}

/// A query or change of the server's active alarms. This client only ever
/// queries them.
pub struct AlarmRequest {
    pub action: AlarmAction,
}

/// A request for the list of cluster members.
pub struct MemberListRequest {}

} // verus!
