//! Instants and expirations.

use crate::text::{decimal_text, fixed_width_decimal_text};
use vstd::prelude::*;

verus! {

/// Nanoseconds in one second.
pub const NANOS_PER_SECOND: u64 = 1_000_000_000;

/// A point in time, in nanoseconds since the Unix epoch.
#[derive(Clone, Copy, Debug, PartialEq, Eq, Structural)]
pub struct Timestamp {
    pub nanos: u64,
}

/// When a period starts or ends.
#[derive(Clone, Copy, Debug, PartialEq, Eq, Structural)]
pub enum Expiration {
    /// A block height. The lifecycle rules never compare it with the clock.
    AtHeight(u64),
    /// A concrete instant.
    AtTime(Timestamp),
    /// No instant at all.
    Never,
}

/// Whether `now` moved forward by `seconds` is still a representable instant.
pub open spec fn end_time_fits(now: Timestamp, seconds: u64) -> bool {
    now.nanos + seconds * NANOS_PER_SECOND <= u64::MAX
}

/// The text of an expiration: `expiration height: H`, `expiration time: S.NNNNNNNNN`
/// (whole seconds, then nine digits of nanoseconds) or `expiration: never`.
pub open spec fn expiration_text(e: Expiration) -> Seq<char> {
    match e {
        Expiration::AtHeight(height) => "expiration height: "@ + decimal_text(height as nat),
        Expiration::AtTime(time) => "expiration time: "@ + decimal_text(
            (time.nanos / NANOS_PER_SECOND) as nat,
        ) + "."@ + fixed_width_decimal_text((time.nanos % NANOS_PER_SECOND) as nat, 9),
        Expiration::Never => "expiration: never"@,
    }
}

/// Calls `cosmwasm_std::Timestamp::plus_seconds`, which multiplies the seconds by
/// one billion and adds them to the nanoseconds of the instant. It panics when
/// the sum leaves the range of `u64`; the precondition keeps those inputs out.
#[verifier::external_body]
fn timestamp_plus_seconds(nanos: u64, seconds: u64) -> (r: u64)
    requires
        nanos + seconds * NANOS_PER_SECOND <= u64::MAX,
    ensures
        r == nanos + seconds * NANOS_PER_SECOND,
{
    cosmwasm_std::Timestamp::from_nanos(nanos).plus_seconds(seconds).nanos()
}

/// Calls the `Display` implementation of `cw_utils::Expiration`. It writes
/// `expiration height: ` and the height in decimal, or `expiration time: ` and
/// the instant as `cosmwasm_std::Timestamp` displays it (whole seconds, a dot,
/// the remaining nanoseconds zero-padded to nine digits), or `expiration: never`.
#[verifier::external_body]
fn expiration_display(e: Expiration) -> (r: String)
    ensures
        r@ == expiration_text(e),
{
    let outside = match e {
        Expiration::AtHeight(height) => cw_utils::Expiration::AtHeight(height),
        Expiration::AtTime(time) => cw_utils::Expiration::AtTime(
            cosmwasm_std::Timestamp::from_nanos(time.nanos),
        ),
        Expiration::Never => cw_utils::Expiration::Never {},
    };
    outside.to_string()
}

impl Timestamp {
    /// The instant `nanos` nanoseconds after the epoch.
    pub fn from_nanos(nanos: u64) -> (t: Timestamp)
        ensures
            t.nanos == nanos,
    {
        Timestamp { nanos }
    }

    /// Nanoseconds since the epoch.
    pub fn nanos(&self) -> (n: u64)
        ensures
            n == self.nanos,
    {
        self.nanos
    }

    /// Whether the instant `seconds` seconds later is representable.
    pub fn can_add_seconds(&self, seconds: u64) -> (b: bool)
        ensures
            b == end_time_fits(*self, seconds),
    {
        let nanos: u128 = self.nanos as u128;
        assert(seconds * NANOS_PER_SECOND <= u64::MAX * NANOS_PER_SECOND) by (nonlinear_arith)
            requires
                seconds <= u64::MAX,
        ;
        let added: u128 = seconds as u128 * NANOS_PER_SECOND as u128;
        nanos + added <= u64::MAX as u128
    }

    /// The instant `seconds` seconds later.
    pub fn plus_seconds(&self, seconds: u64) -> (t: Timestamp)
        requires
            end_time_fits(*self, seconds),
        ensures
            t.nanos == self.nanos + seconds * NANOS_PER_SECOND,
    {
        Timestamp { nanos: timestamp_plus_seconds(self.nanos, seconds) }
    }
}

impl Expiration {
    /// The text of this expiration.
    pub fn to_string(&self) -> (r: String)
        ensures
            r@ == expiration_text(*self),
    {
        expiration_display(*self)
    }
}

} // verus!
