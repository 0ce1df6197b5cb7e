use etcdv3::client::EtcdClient;
use etcdv3::keys::{key_compare, key_eq, key_lt, KeyOrder};
use etcdv3::mapping::KvMapping;
use etcdv3::messages::{AlarmAction, KeyValue, RangeResponse};
use etcdv3::range::Range;
use etcdv3::watch::{put_notification, watch_delivers, EventKind};

#[test]
fn client_remembers_its_endpoint() {
    let client = EtcdClient::new(String::from("http://127.0.0.1:2379"));
    assert_eq!(client.endpoint().as_str(), "http://127.0.0.1:2379");
}

#[test]
fn client_requests_carry_what_was_asked() {
    let client = EtcdClient::new(String::from("http://127.0.0.1:2379"));

    let put = client.put_request(b"foo".to_vec(), b"bar".to_vec());
    assert_eq!(put.key, b"foo".to_vec());
    assert_eq!(put.value, b"bar".to_vec());
    assert!(put.prev_kv);

    let get = client.get_request(b"foo".to_vec());
    assert_eq!(get.key, b"foo".to_vec());
    assert!(get.range_end.is_empty());

    let watch = client.watch_request(b"foo".to_vec());
    assert_eq!(watch.key, b"foo".to_vec());

    let alarms = client.alarm_get_request();
    assert!(matches!(alarms.action, AlarmAction::Get));

    let _ = client.status_request();
    let _ = client.member_list_request();
}

#[test]
fn watch_sees_a_later_put_on_its_key() {
    let client = EtcdClient::new(String::from("http://127.0.0.1:2379"));
    let watch = client.watch_request(b"foo".to_vec());
    let put = client.put_request(b"foo".to_vec(), b"bar".to_vec());
    let message = put_notification(&put);
    assert!(watch_delivers(&watch, &message));
    assert_eq!(message.events.len(), 1);
    assert!(matches!(message.events[0].kind, EventKind::Put));
    assert_eq!(message.events[0].kv.key, b"foo".to_vec());
    assert_eq!(message.events[0].kv.value, b"bar".to_vec());
}

#[test]
fn watch_ignores_a_put_on_another_key() {
    let client = EtcdClient::new(String::from("http://127.0.0.1:2379"));
    let watch = client.watch_request(b"foo".to_vec());
    let put = client.put_request(b"other".to_vec(), b"bar".to_vec());
    let message = put_notification(&put);
    assert!(!watch_delivers(&watch, &message));
}

#[test]
fn key_order_is_lexicographic_on_bytes() {
    let a = b"abc".to_vec();
    let b = b"abd".to_vec();
    let prefix = b"ab".to_vec();
    let empty = Vec::new();
    assert!(matches!(key_compare(&a, &b), KeyOrder::Less));
    assert!(matches!(key_compare(&b, &a), KeyOrder::Greater));
    assert!(matches!(key_compare(&a, &a), KeyOrder::Equal));
    assert!(matches!(key_compare(&prefix, &a), KeyOrder::Less));
    assert!(matches!(key_compare(&empty, &prefix), KeyOrder::Less));
    assert!(key_lt(&prefix, &a));
    assert!(!key_lt(&a, &prefix));
    assert!(key_eq(&a, &a));
    assert!(!key_eq(&a, &b));
}

#[test]
fn mapping_keeps_one_binding_per_key() {
    let mut m = KvMapping::new();
    assert!(m.is_empty());
    m.insert(b"a".to_vec(), b"1".to_vec());
    m.insert(b"b".to_vec(), b"2".to_vec());
    m.insert(b"a".to_vec(), b"3".to_vec());
    assert_eq!(m.len(), 2);
    assert!(!m.is_empty());
    assert_eq!(m.get(&b"a".to_vec()), Some(&b"3".to_vec()));
    assert_eq!(m.get(&b"b".to_vec()), Some(&b"2".to_vec()));
    assert_eq!(m.get(&b"c".to_vec()), None);
    assert!(m.contains_key(&b"a".to_vec()));
    assert!(!m.contains_key(&b"c".to_vec()));
    let pairs = m.pairs();
    assert_eq!(pairs.len(), 2);
}

#[test]
fn collect_lets_a_later_duplicate_win() {
    let kvs = vec![
        KeyValue { key: b"k".to_vec(), value: b"first".to_vec() },
        KeyValue { key: b"k".to_vec(), value: b"second".to_vec() },
    ];
    let count = kvs.len() as u64;
    let resp = RangeResponse { kvs, count };
    let range = Range::new(b"k".to_vec(), None);
    let keys = range.collect(&resp);
    assert_eq!(keys.len(), 1);
    assert_eq!(keys.get(&b"k".to_vec()), Some(&b"second".to_vec()));
}

#[test]
fn an_explicit_empty_upper_bound_still_means_single_key() {
    let range = Range::new(b"k".to_vec(), Some(Vec::new()));
    assert!(range.contains(&b"k".to_vec()));
    assert!(!range.contains(&b"ka".to_vec()));
    assert!(!range.contains(&b"a".to_vec()));
}
