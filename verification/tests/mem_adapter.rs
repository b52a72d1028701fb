use mqtt_redis::mem::MemPersistence;
use mqtt_redis::store::MemStore;

#[test]
fn put_then_get_returns_concatenation() {
    let mut store = MemStore::new();
    let mut sess = MemPersistence::new();
    sess.open("dev1", "tcp://host:1883").unwrap();
    let bufs: Vec<&[u8]> = vec![b"he", b"llo", b" world"];
    sess.put(&mut store, "k", bufs).unwrap();
    assert_eq!(sess.get(&store, "k").unwrap(), b"hello world".to_vec());
}

#[test]
fn put_of_no_buffers_stores_empty_value() {
    let mut store = MemStore::new();
    let mut sess = MemPersistence::new();
    sess.open("dev1", "tcp://host:1883").unwrap();
    let bufs: Vec<&[u8]> = vec![];
    sess.put(&mut store, "k", bufs).unwrap();
    assert_eq!(sess.get(&store, "k").unwrap(), Vec::<u8>::new());
    assert!(sess.contains_key(&store, "k"));
}

#[test]
fn put_overwrites_previous_value() {
    let mut store = MemStore::new();
    let mut sess = MemPersistence::new();
    sess.open("dev1", "tcp://host:1883").unwrap();
    sess.put(&mut store, "k", vec![b"first" as &[u8]]).unwrap();
    sess.put(&mut store, "k", vec![b"second" as &[u8]]).unwrap();
    assert_eq!(sess.get(&store, "k").unwrap(), b"second".to_vec());
}

#[test]
fn get_of_absent_key_fails() {
    let mut store = MemStore::new();
    let mut sess = MemPersistence::new();
    sess.open("dev1", "tcp://host:1883").unwrap();
    assert!(sess.get(&store, "missing").is_err());
}

#[test]
fn remove_of_absent_key_succeeds() {
    let mut store = MemStore::new();
    let mut sess = MemPersistence::new();
    sess.open("dev1", "tcp://host:1883").unwrap();
    assert!(sess.remove(&mut store, "never-put").is_ok());
}

#[test]
fn remove_of_present_key_removes_it() {
    let mut store = MemStore::new();
    let mut sess = MemPersistence::new();
    sess.open("dev1", "tcp://host:1883").unwrap();
    sess.put(&mut store, "k", vec![b"v" as &[u8]]).unwrap();
    assert!(sess.contains_key(&store, "k"));
    assert!(sess.remove(&mut store, "k").is_ok());
    assert!(!sess.contains_key(&store, "k"));
}

#[test]
fn clear_of_empty_partition_succeeds() {
    let mut store = MemStore::new();
    let mut sess = MemPersistence::new();
    sess.open("dev1", "tcp://host:1883").unwrap();
    assert!(sess.clear(&mut store).is_ok());
    assert_eq!(sess.keys(&store).unwrap(), Vec::<String>::new());
}

#[test]
fn clear_of_populated_partition_leaves_no_keys() {
    let mut store = MemStore::new();
    let mut sess = MemPersistence::new();
    sess.open("dev1", "tcp://host:1883").unwrap();
    sess.put(&mut store, "a", vec![b"1" as &[u8]]).unwrap();
    sess.put(&mut store, "b", vec![b"2" as &[u8]]).unwrap();
    assert!(sess.clear(&mut store).is_ok());
    assert_eq!(sess.keys(&store).unwrap(), Vec::<String>::new());
    assert!(!sess.contains_key(&store, "a"));
    assert!(!sess.contains_key(&store, "b"));
}

#[test]
fn operations_before_open_fail() {
    let mut store = MemStore::new();
    let sess = MemPersistence::new();
    assert!(sess.put(&mut store, "k", vec![b"v" as &[u8]]).is_err());
    assert!(sess.get(&store, "k").is_err());
    assert!(sess.remove(&mut store, "k").is_err());
    assert!(sess.keys(&store).is_err());
    assert!(sess.clear(&mut store).is_err());
    assert!(!sess.contains_key(&store, "k"));
}

#[test]
fn operations_after_close_fail() {
    let mut store = MemStore::new();
    let mut sess = MemPersistence::new();
    sess.open("dev1", "tcp://host:1883").unwrap();
    sess.put(&mut store, "k", vec![b"v" as &[u8]]).unwrap();
    sess.close().unwrap();
    assert!(sess.put(&mut store, "k", vec![b"v" as &[u8]]).is_err());
    assert!(sess.get(&store, "k").is_err());
    assert!(sess.remove(&mut store, "k").is_err());
    assert!(sess.keys(&store).is_err());
    assert!(sess.clear(&mut store).is_err());
    assert!(!sess.contains_key(&store, "k"));
}

#[test]
fn adapter_is_reusable_after_close() {
    let mut store = MemStore::new();
    let mut sess = MemPersistence::new();
    sess.open("dev1", "tcp://host:1883").unwrap();
    sess.put(&mut store, "k", vec![b"v" as &[u8]]).unwrap();
    sess.close().unwrap();
    sess.open("dev2", "tcp://host:1883").unwrap();
    // Re-opened under another identity: the old session's records are not
    // visible, and new records go to the new partition.
    assert!(sess.get(&store, "k").is_err());
    sess.put(&mut store, "k", vec![b"w" as &[u8]]).unwrap();
    assert_eq!(sess.get(&store, "k").unwrap(), b"w".to_vec());
    sess.close().unwrap();
    sess.open("dev1", "tcp://host:1883").unwrap();
    assert_eq!(sess.get(&store, "k").unwrap(), b"v".to_vec());
}

#[test]
fn session_scenario_roundtrip() {
    let mut store = MemStore::new();
    let mut sess = MemPersistence::new();
    sess.open("dev1", "tcp://host:1883").unwrap();
    sess.put(&mut store, "m1", vec![b"AB" as &[u8], b"CD" as &[u8]]).unwrap();
    assert_eq!(sess.get(&store, "m1").unwrap(), b"ABCD".to_vec());
    assert_eq!(sess.keys(&store).unwrap(), vec!["m1".to_string()]);
    assert!(sess.remove(&mut store, "m1").is_ok());
    assert!(!sess.contains_key(&store, "m1"));
    assert!(sess.close().is_ok());
}

#[test]
fn two_clients_do_not_observe_each_other() {
    let mut store = MemStore::new();
    let mut one = MemPersistence::new();
    let mut two = MemPersistence::new();
    one.open("dev1", "tcp://host:1883").unwrap();
    two.open("dev2", "tcp://host:1883").unwrap();
    one.put(&mut store, "m1", vec![b"from one" as &[u8]]).unwrap();
    two.put(&mut store, "m2", vec![b"from two" as &[u8]]).unwrap();
    let keys_one = one.keys(&store).unwrap();
    let keys_two = two.keys(&store).unwrap();
    assert_eq!(keys_one, vec!["m1".to_string()]);
    assert_eq!(keys_two, vec!["m2".to_string()]);
    assert!(!one.contains_key(&store, "m2"));
    assert!(!two.contains_key(&store, "m1"));
    // Even under the same record key the values stay separate.
    two.put(&mut store, "m1", vec![b"other" as &[u8]]).unwrap();
    assert_eq!(one.get(&store, "m1").unwrap(), b"from one".to_vec());
    two.clear(&mut store).unwrap();
    assert_eq!(one.keys(&store).unwrap(), vec!["m1".to_string()]);
}

#[test]
fn store_reports_new_and_existing_fields() {
    let mut store = MemStore::new();
    assert!(store.hset("p", "k", b"1".to_vec()));
    assert!(!store.hset("p", "k", b"2".to_vec()));
    assert_eq!(store.hget("p", "k").unwrap(), b"2".to_vec());
    assert!(store.hexists("p", "k"));
    assert!(!store.hexists("p", "other"));
    assert!(store.hdel("p", "k"));
    assert!(!store.hdel("p", "k"));
    assert!(!store.del("p"));
    assert!(store.hset("p", "k", b"3".to_vec()));
    assert!(store.del("p"));
    assert_eq!(store.hkeys("p"), Vec::<String>::new());
}
