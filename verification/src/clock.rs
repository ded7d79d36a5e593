//! Instants, and the two things the ledger takes from its surroundings: the
//! time of day and fresh identifiers.

use std::collections::hash_map::DefaultHasher;
use std::hash::Hash;
use std::hash::Hasher;
use vstd::prelude::*;

verus! {

/// The nanoseconds of an instant stay below this: a second has
/// 1,000,000,000 of them, and a leap second is counted as a second half of
/// the second before it.
pub const NANOS_LIMIT: u32 = 2_000_000_000;

/// The bits of an identifier that hold the version and the variant of a UUID.
pub const UUID_KIND_MASK: u128 = 0x0000_0000_0000_F000_C000_0000_0000_0000;

/// What those bits hold in a random UUID: version 4, and the variant of
/// RFC 9562.
pub const UUID_RANDOM_KIND: u128 = 0x0000_0000_0000_4000_8000_0000_0000_0000;

/// An instant in UTC: whole seconds since the Unix epoch and the nanoseconds
/// into that second.
#[derive(Clone, Copy, Debug, PartialEq, Eq, Structural)]
pub struct Timestamp {
    pub secs: i64,
    pub nanos: u32,
}

/// Whether `id` is a random UUID: 122 bits of it are free, the other six
/// give its version and variant.
pub open spec fn is_random_uuid(id: u128) -> bool {
    id & UUID_KIND_MASK == UUID_RANDOM_KIND
}

impl Timestamp {
    /// Whether the instant can be read as a time of day: the nanoseconds are
    /// within a second, or within a leap second.
    pub open spec fn in_range(self) -> bool {
        self.nanos < NANOS_LIMIT
    }

    /// The current instant. It is a time of day; nothing else is promised of
    /// it: two readings need not even be ordered.
    pub(crate) fn now() -> (t: Timestamp)
        ensures
            t.in_range(),
    {
        utc_now()
    }
}

/// A fresh identifier for a wallet, an order or a transaction: a random
/// UUID. That it is unused is not promised: callers state what holds
/// whichever identifier comes back.
pub(crate) fn fresh_id() -> (id: u128)
    ensures
        is_random_uuid(id),
{
    random_uuid()
}

/// A number drawn from the reading of the clock: the hash of `secs` under the
/// standard library's default hasher. The standard library leaves the
/// algorithm open, so nothing is promised of the number.
pub(crate) fn clock_hash(secs: i64) -> u64 {
    let mut hasher = DefaultHasher::new();
    feed_i64(&mut hasher, secs);
    hasher.finish()
}

/// Calls `chrono::Utc::now` and takes the reading apart with
/// `DateTime::timestamp` and `DateTime::timestamp_subsec_nanos`. The result
/// depends on the machine's clock, so the contract claims only what `chrono`
/// documents of every reading: the nanoseconds stay below 2,000,000,000,
/// where the second thousand million stands for a leap second. `chrono`
/// gives up on a clock that is set before the Unix epoch.
#[verifier::external_body]
fn utc_now() -> (t: Timestamp)
    ensures
        t.in_range(),
{
    let t = chrono::Utc::now();
    Timestamp { secs: t.timestamp(), nanos: t.timestamp_subsec_nanos() }
}

/// Calls `uuid::Uuid::new_v4` and hands the identifier out as the 128-bit
/// number that `Uuid::as_u128` gives. The result is random, so the contract
/// claims only what holds of every one: `new_v4` sets the version to 4 and
/// the variant to that of RFC 9562 and leaves the other bits as they were
/// drawn. `uuid` gives up where the system has no random bytes to offer.
#[verifier::external_body]
fn random_uuid() -> (id: u128)
    ensures
        is_random_uuid(id),
{
    uuid::Uuid::new_v4().as_u128()
}

/// Calls `std::hash::Hash::hash` of `i64`, which writes `value` into the
/// hasher. The contract says nothing of the hasher's state afterwards.
#[verifier::external_body]
fn feed_i64(hasher: &mut DefaultHasher, value: i64) {
    value.hash(hasher)
}

} // verus!
