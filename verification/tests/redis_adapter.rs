use mqtt_redis::redis_persist::RedisPersistence;

#[test]
fn redis_operations_before_open_fail() {
    let mut sess = RedisPersistence::new();
    assert!(sess.put("k", vec![b"v" as &[u8]]).is_err());
    assert!(sess.get("k").is_err());
    assert!(sess.remove("k").is_err());
    assert!(sess.keys().is_err());
    assert!(sess.clear().is_err());
    assert!(!sess.contains_key("k"));
}

#[test]
fn redis_close_without_open_succeeds() {
    let mut sess = RedisPersistence::new();
    assert!(sess.close().is_ok());
    assert!(sess.get("k").is_err());
}

#[test]
fn redis_default_is_closed() {
    let mut sess = RedisPersistence::default();
    assert!(sess.keys().is_err());
    assert!(!sess.contains_key("k"));
}
