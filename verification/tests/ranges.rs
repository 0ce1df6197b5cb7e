use etcdv3::client::EtcdClient;
use etcdv3::range::Range;
use etcdv3::store::Store;

// The round trip of the original range walkthrough, against the store
// model: put "bar" at "foo", read it back, delete the view's interval,
// and see a fresh view of the same key read nothing.
#[test]
fn test_ranges() {
    let client = EtcdClient::new(String::from("http://127.0.0.1:2379"));
    let mut store = Store::new();
    let range = client.range(b"foo".to_vec(), None);

    let put = range.put_request(b"bar".to_vec());
    let _ = store.put(&put);

    let read = store.range(&range.get_request());
    let keys = range.collect(&read);
    assert_eq!(keys.get(&b"foo".to_vec()), Some(&b"bar".to_vec()));

    let deleted = store.delete_range(&range.delete_request());
    assert_eq!(deleted.deleted, 1);

    // `delete` consumed the view; a fresh one reads an empty mapping.
    let range = client.range(b"foo".to_vec(), None);
    let read = store.range(&range.get_request());
    let keys = range.collect(&read);
    assert!(keys.is_empty());
}

#[test]
fn round_trip_returns_exactly_the_written_pair() {
    let mut store = Store::new();
    let range = Range::new(b"k".to_vec(), None);
    let _ = store.put(&range.put_request(b"v".to_vec()));
    let keys = range.collect(&store.range(&range.get_request()));
    assert_eq!(keys.len(), 1);
    assert_eq!(keys.get(&b"k".to_vec()), Some(&b"v".to_vec()));
}

#[test]
fn half_open_interval_excludes_upper_bound() {
    let mut store = Store::new();
    for (k, v) in [(b"k1", b"v1"), (b"k2", b"v2"), (b"k3", b"v3")] {
        let single = Range::new(k.to_vec(), None);
        let _ = store.put(&single.put_request(v.to_vec()));
    }
    let range = Range::new(b"k1".to_vec(), Some(b"k3".to_vec()));
    let keys = range.collect(&store.range(&range.get_request()));
    assert_eq!(keys.len(), 2);
    assert_eq!(keys.get(&b"k1".to_vec()), Some(&b"v1".to_vec()));
    assert_eq!(keys.get(&b"k2".to_vec()), Some(&b"v2".to_vec()));
    assert_eq!(keys.get(&b"k3".to_vec()), None);
}

#[test]
fn delete_is_terminal_for_the_interval() {
    let mut store = Store::new();
    for (k, v) in [(b"a" as &[u8], b"1" as &[u8]), (b"b", b"2"), (b"c", b"3")] {
        let single = Range::new(k.to_vec(), None);
        let _ = store.put(&single.put_request(v.to_vec()));
    }
    let doomed = Range::new(b"a".to_vec(), Some(b"c".to_vec()));
    let resp = store.delete_range(&doomed.delete_request());
    assert_eq!(resp.deleted, 2);

    let fresh = Range::new(b"a".to_vec(), Some(b"c".to_vec()));
    let keys = fresh.collect(&store.range(&fresh.get_request()));
    assert!(keys.is_empty());
    assert_eq!(store.len(), 1);

    let survivor = Range::new(b"c".to_vec(), None);
    let keys = survivor.collect(&store.range(&survivor.get_request()));
    assert_eq!(keys.get(&b"c".to_vec()), Some(&b"3".to_vec()));
}

#[test]
fn put_reports_the_previous_pair() {
    let mut store = Store::new();
    let range = Range::new(b"k".to_vec(), None);
    let first = store.put(&range.put_request(b"old".to_vec()));
    assert!(first.prev_kv.is_none());
    let second = store.put(&range.put_request(b"new".to_vec()));
    let prev = second.prev_kv.expect("the key was bound");
    assert_eq!(prev.key, b"k".to_vec());
    assert_eq!(prev.value, b"old".to_vec());
    let keys = range.collect(&store.range(&range.get_request()));
    assert_eq!(keys.get(&b"k".to_vec()), Some(&b"new".to_vec()));
}

#[test]
fn single_key_read_ignores_neighbours() {
    let mut store = Store::new();
    for (k, v) in [(b"a" as &[u8], b"1" as &[u8]), (b"ab", b"2"), (b"b", b"3")] {
        let single = Range::new(k.to_vec(), None);
        let _ = store.put(&single.put_request(v.to_vec()));
    }
    let range = Range::new(b"a".to_vec(), None);
    let resp = store.range(&range.get_request());
    assert_eq!(resp.count, 1);
    let keys = range.collect(&resp);
    assert_eq!(keys.len(), 1);
    assert_eq!(keys.get(&b"a".to_vec()), Some(&b"1".to_vec()));
}

#[test]
fn empty_range_end_on_the_wire_means_single_key() {
    let range = Range::new(b"k".to_vec(), None);
    let req = range.get_request();
    assert_eq!(req.key, b"k".to_vec());
    assert_eq!(req.range_end, Vec::<u8>::new());

    let bounded = Range::new(b"a".to_vec(), Some(b"b".to_vec()));
    let req = bounded.get_request();
    assert_eq!(req.key, b"a".to_vec());
    assert_eq!(req.range_end, b"b".to_vec());
}

#[test]
fn interval_membership_is_half_open() {
    let range = Range::new(b"b".to_vec(), Some(b"d".to_vec()));
    assert!(range.contains(&b"b".to_vec()));
    assert!(range.contains(&b"c".to_vec()));
    assert!(range.contains(&b"cz".to_vec()));
    assert!(!range.contains(&b"d".to_vec()));
    assert!(!range.contains(&b"a".to_vec()));
    assert!(!range.contains(&b"e".to_vec()));

    let single = Range::new(b"b".to_vec(), None);
    assert!(single.contains(&b"b".to_vec()));
    assert!(!single.contains(&b"ba".to_vec()));
}

#[test]
fn an_interval_with_equal_bounds_is_empty() {
    let mut store = Store::new();
    let single = Range::new(b"a".to_vec(), None);
    let _ = store.put(&single.put_request(b"1".to_vec()));

    let empty = Range::new(b"a".to_vec(), Some(b"a".to_vec()));
    let keys = empty.collect(&store.range(&empty.get_request()));
    assert!(keys.is_empty());

    let resp = store.delete_range(&empty.delete_request());
    assert_eq!(resp.deleted, 0);
    assert_eq!(store.len(), 1);
}

#[test]
fn deleting_from_an_empty_store_removes_nothing() {
    let mut store = Store::new();
    let range = Range::new(b"a".to_vec(), Some(b"z".to_vec()));
    let resp = store.delete_range(&range.delete_request());
    assert_eq!(resp.deleted, 0);
    assert_eq!(store.len(), 0);
}

#[test]
fn overwriting_a_key_does_not_grow_the_store() {
    let mut store = Store::new();
    let range = Range::new(b"k".to_vec(), None);
    let _ = store.put(&range.put_request(b"a".to_vec()));
    let _ = store.put(&range.put_request(b"b".to_vec()));
    assert_eq!(store.len(), 1);
    let keys = range.collect(&store.range(&range.get_request()));
    assert_eq!(keys.get(&b"k".to_vec()), Some(&b"b".to_vec()));
}
