//! A typed accessor layer over a flat byte-addressed key-value store.
//!
//! A storage slot is named by a static identifier; the physical key is the
//! 128-bit Twox hash of that identifier.  Reads and writes go through a
//! caller-chosen query convention that decides how an absent entry is
//! presented, and collection values support appending encoded items and
//! probing the stored length without decoding the whole value.

pub mod codec;
pub mod fault;
pub mod hashing;
pub mod slots;
pub mod store;
pub mod value;
