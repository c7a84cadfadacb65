//! Identifiers and timestamps of the go-to-market agents.
//!
//! Identifiers are UUIDs held as their 128-bit value; timestamps are
//! milliseconds since the Unix epoch.

use vstd::prelude::*;
use crate::digest::hex_digit;

verus! {

/// The `n` low hexadecimal digits of `v`, most significant first.
pub open spec fn hex_fixed(v: nat, n: nat) -> Seq<char>
    decreases n,
{
    if n == 0 {
        Seq::empty()
    } else {
        hex_fixed(v / 16, (n - 1) as nat).push(hex_digit((v % 16) as int))
    }
}

/// The simple form of a UUID: 32 lowercase hexadecimal digits.
pub open spec fn uuid_simple_text(v: u128) -> Seq<char> {
    hex_fixed(v as nat, 32)
}

/// The hyphenated form of a UUID: the 32 digits grouped 8-4-4-4-12.
pub open spec fn uuid_text(v: u128) -> Seq<char> {
    let d = uuid_simple_text(v);
    d.subrange(0, 8) + "-"@ + d.subrange(8, 12) + "-"@ + d.subrange(12, 16) + "-"@ + d.subrange(16, 20)
        + "-"@ + d.subrange(20, 32)
}

/// `uuid::Uuid::new_v4()`, as its 128-bit value. The value is random.
#[verifier::external_body]
pub(crate) fn new_uuid() -> (r: u128) {
    uuid::Uuid::new_v4().as_u128()
}

/// `Uuid::from_u128(v).simple()` formatted: lowercase hex, no hyphens.
#[verifier::external_body]
pub(crate) fn uuid_simple(v: u128) -> (r: String)
    ensures
        r@ == uuid_simple_text(v),
{
    uuid::Uuid::from_u128(v).simple().to_string()
}

/// `Uuid::from_u128(v)` formatted: lowercase hex, hyphenated.
#[verifier::external_body]
pub(crate) fn uuid_hyphenated(v: u128) -> (r: String)
    ensures
        r@ == uuid_text(v),
{
    uuid::Uuid::from_u128(v).to_string()
}

/// Bound on the milliseconds a `chrono` date can be from the epoch: its
/// years run from -262143 to 262142, under 2^53 ms either way.
pub const TIME_BOUND_MS: i64 = 0x20_0000_0000_0000;

/// `chrono::Utc::now()` in milliseconds since the epoch. The value is the
/// clock's; `Utc::now` reads the system time as a duration since the epoch,
/// so it is never negative, and it lies in the range of `chrono` dates. (It
/// panics, in `chrono`, when the system clock reads before 1970.)
#[verifier::external_body]
pub(crate) fn now_ms() -> (r: i64)
    ensures
        0 <= r < TIME_BOUND_MS,
{
    chrono::Utc::now().timestamp_millis()
}

/// Milliseconds in an hour.
pub const HOUR_MS: i64 = 3_600_000;

/// Milliseconds in a minute.
pub const MINUTE_MS: i64 = 60_000;

/// Milliseconds in a day.
pub const DAY_MS: i64 = 86_400_000;

/// How many five-minute steps can follow a clock reading (under
/// `TIME_BOUND_MS` from the epoch) with the time still in `i64` milliseconds:
/// `(i64::MAX - TIME_BOUND_MS) / (5 * MINUTE_MS)`, rounded down.
pub const MAX_FIVE_MINUTE_STEPS: u64 = 30_714_549_458_666;

} // verus!
