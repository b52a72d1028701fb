//! A persistence adapter that stages a messaging client's in-transit
//! records in a hash-oriented key/value store.
//!
//! Records are opaque byte values filed under string keys, grouped into one
//! partition per client session.  The partition name is derived from the
//! client identifier and the server address at `open` time, so that several
//! clients can share one store without observing each other's records.
//!
//! Two backends are provided: [`redis_persist::RedisPersistence`] keeps the
//! partition in a hash on a local Redis server, and
//! [`mem::MemPersistence`] keeps it in an in-memory [`store::MemStore`],
//! which also serves as the verified model of the hash-command surface the
//! adapter relies on.

pub mod buffer;
pub mod errors;
pub mod laws;
pub mod mem;
pub mod outcome;
pub mod partition;
pub mod redis_io;
pub mod redis_persist;
pub mod store;
