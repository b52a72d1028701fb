use mqtt_redis::buffer::concat_buffers;
use mqtt_redis::errors::PersistenceError;
use mqtt_redis::outcome::exists_outcome;
use mqtt_redis::outcome::get_outcome;
use mqtt_redis::outcome::keys_outcome;
use mqtt_redis::outcome::status_outcome;
use mqtt_redis::partition::partition_name;
use redis::ErrorKind;
use redis::RedisError;

fn transport_error() -> RedisError {
    RedisError::from((ErrorKind::Io, "connection reset"))
}

#[test]
fn partition_name_joins_with_separator() {
    assert_eq!(partition_name("dev1", "tcp://host:1883"), "dev1:tcp://host:1883".to_string());
    assert_eq!(partition_name("", ""), ":".to_string());
}

#[test]
fn concat_buffers_preserves_order() {
    let bufs: Vec<&[u8]> = vec![b"AB", b"", b"CD"];
    assert_eq!(concat_buffers(&bufs), b"ABCD".to_vec());
    let none: Vec<&[u8]> = vec![];
    assert_eq!(concat_buffers(&none), Vec::<u8>::new());
}

#[test]
fn status_outcome_accepts_any_count() {
    assert_eq!(status_outcome(Ok(0)), Ok(()));
    assert_eq!(status_outcome(Ok(5)), Ok(()));
    assert_eq!(status_outcome(Err(transport_error())), Err(PersistenceError));
}

#[test]
fn get_outcome_hands_the_value_on_unchanged() {
    assert_eq!(get_outcome(Ok(Some(b"ABCD".to_vec()))), Ok(b"ABCD".to_vec()));
    assert_eq!(get_outcome(Ok(None)), Err(PersistenceError));
    assert_eq!(get_outcome(Err(transport_error())), Err(PersistenceError));
}

#[test]
fn keys_outcome_hands_the_listing_on_unchanged() {
    let ks = vec!["m1".to_string(), "m2".to_string()];
    assert_eq!(keys_outcome(Ok(ks.clone())), Ok(ks));
    assert_eq!(keys_outcome(Ok(Vec::new())), Ok(Vec::<String>::new()));
    assert_eq!(keys_outcome(Err(transport_error())), Err(PersistenceError));
}

#[test]
fn exists_outcome_degrades_failure_to_false() {
    assert!(exists_outcome(Ok(true)));
    assert!(!exists_outcome(Ok(false)));
    assert!(!exists_outcome(Err(transport_error())));
}

#[test]
fn persistence_error_has_a_message() {
    assert_eq!(PersistenceError.message(), "persistence error");
}
