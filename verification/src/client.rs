//! The client handle: the endpoint every service group of a connection
//! is opened against, the interval views it hands out, and the one-shot
//! requests it builds. The transport that carries the requests lives
//! outside the library; a connection either opens every service group
//! against this endpoint or fails as a whole.

use vstd::prelude::*;
use crate::messages::AlarmAction;
use crate::messages::AlarmRequest;
use crate::messages::MemberListRequest;
use crate::messages::PutRequest;
use crate::messages::RangeRequest;
use crate::messages::StatusRequest;
use crate::range::Range;
use crate::watch::WatchCreateRequest;

verus! {

/// A client of one store endpoint. One connection serves every service
/// group — key-value, watch, cluster, maintenance — against the same
/// address, which this handle remembers.
pub struct EtcdClient {
    endpoint: String,
}

impl EtcdClient {
    /// The address the connection's service groups are opened against.
    pub closed spec fn endpoint_spec(&self) -> Seq<char> {
        self.endpoint@
    }

    /// A handle on the given endpoint address.
    pub fn new(endpoint: String) -> (r: EtcdClient)
        ensures
            r.endpoint_spec() == endpoint@,
    {
        EtcdClient { endpoint }
    }

    /// The remembered endpoint address.
    pub fn endpoint(&self) -> (r: &String)
        ensures
            r@ == self.endpoint_spec(),
    {
        &self.endpoint
    }

    /// A view of the interval `[start, end)`, or of the single key
    /// `start` when `end` is absent.
    pub fn range(&self, start: Vec<u8>, end: Option<Vec<u8>>) -> (r: Range)
        ensures
            r.start_key() == start@,
            r.end_key() == (match end {
                Some(e) => Some(e@),
                None => None::<Seq<u8>>,
            }),
    {
        Range::new(start, end)
    }

    /// The single-key write `put` issues: it always asks the server to
    /// report the previous value.
    pub fn put_request(&self, key: Vec<u8>, value: Vec<u8>) -> (r: PutRequest)
        ensures
            r.key@ == key@,
            r.value@ == value@,
            r.prev_kv == true,
    {
        PutRequest { key, value, prev_kv: true }
    }

    /// The single-key read `get` issues: an empty `range_end` scopes it
    /// to exactly `key`.
    pub fn get_request(&self, key: Vec<u8>) -> (r: RangeRequest)
        ensures
            r.key@ == key@,
            r.range_end@ == Seq::<u8>::empty(),
    {
        let range_end: Vec<u8> = Vec::new();
        RangeRequest { key, range_end }
    }

    /// The subscription `watch` opens: a watch on the single key `key`.
    pub fn watch_request(&self, key: Vec<u8>) -> (r: WatchCreateRequest)
        ensures
            r.key@ == key@,
    {
        WatchCreateRequest { key }
    }

    /// The request `status` sends: it carries nothing.
    pub fn status_request(&self) -> (r: StatusRequest)
        ensures
            r == (StatusRequest {  }),
    {
        StatusRequest {  }
    }

    /// The request `server_alarms` sends: alarms are queried, never
    /// raised or cleared by this client.
    pub fn alarm_get_request(&self) -> (r: AlarmRequest)
        ensures
            r.action is Get,
    {
        AlarmRequest { action: AlarmAction::Get }
    }

    /// The request `cluster_members` sends: it carries nothing.
    pub fn member_list_request(&self) -> (r: MemberListRequest)
        ensures
            r == (MemberListRequest {  }),
    {
        MemberListRequest {  }
    }
}

} // verus!
