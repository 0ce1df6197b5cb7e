//! A thin client layer for the etcd distributed key-value store.
//!
//! The library holds the logic of the client: how requests are built from
//! keys and intervals, how a range of keys is modelled as a half-open
//! interval under the lexicographic byte order, how a response's key-value
//! pairs are collected into a mapping, and a model of the store semantics
//! the server provides, against which the interval laws are proved.
//! The network side (gRPC transport, the generated protocol stubs) stays
//! outside the library and exchanges plain values with it.

pub mod keys;
pub mod messages;
pub mod mapping;
pub mod store;
pub mod range;
pub mod client;
pub mod watch;
pub mod laws;
