//! TAI64N timestamps as plain values: a count of seconds and a count of
//! nanoseconds, with the twelve-byte external form that the `tai64` crate
//! reads and writes.

use crate::bytes::{
    be_bytes, be_value, lemma_be_bytes_of_be_value, lemma_be_value_of_be_bytes, lemma_pow256_widths,
};
use vstd::prelude::*;

verus! {

/// The TAI64 label of 1970-01-01 00:00:00 UTC as the `tai64` crate defines it:
/// two to the power 62, plus 37.
pub const TAI64_UNIX_EPOCH: u64 = 0x4000_0000_0000_0025;

/// Nanoseconds in one second.
pub const NANOS_PER_SECOND: u32 = 1_000_000_000;

/// Seconds from 1970-01-01 to the end of the year 9999, the last instant
/// that the RFC 3339 formatter renders.
pub const RFC3339_SECONDS_LIMIT: u64 = 253_402_300_800;

/// The largest Unix time that converts to a TAI64 label without overflow.
pub const MAX_UNIX_SECONDS: i64 = 0x3FFF_FFFF_FFFF_FFF5;

/// A TAI64N timestamp: a TAI64 label in seconds and a nanosecond part.
#[derive(Debug, Clone, Copy, PartialEq, Eq, Structural)]
pub struct TaiTimestamp {
    pub seconds: u64,
    pub nanos: u32,
}

impl TaiTimestamp {
    /// The nanosecond part is below one second.
    pub open spec fn well_formed(self) -> bool {
        self.nanos < NANOS_PER_SECOND
    }

    /// The twelve-byte external form: eight bytes of seconds, then four of
    /// nanoseconds, both big-endian.
    pub open spec fn encoded(self) -> Seq<u8> {
        be_bytes(self.seconds as nat, 8) + be_bytes(self.nanos as nat, 4)
    }

    /// The timestamp that twelve bytes stand for, if their nanosecond part
    /// is below one second.
    pub open spec fn decoded(bytes: Seq<u8>) -> Option<TaiTimestamp> {
        let seconds = be_value(bytes.subrange(0, 8));
        let nanos = be_value(bytes.subrange(8, 12));
        if nanos < NANOS_PER_SECOND {
            Some(TaiTimestamp { seconds: seconds as u64, nanos: nanos as u32 })
        } else {
            None
        }
    }

    /// The TAI64 label of a Unix time: ten seconds and two to the power 62
    /// are added, and a negative sum wraps around two to the power 64.
    pub open spec fn seconds_from_unix(unix: int) -> int {
        let label = unix + 10 + 0x4000_0000_0000_0000;
        if label >= 0 {
            label
        } else {
            label + 0x1_0000_0000_0000_0000
        }
    }

    /// The timestamp can be written as an RFC 3339 date: it is well formed
    /// and lies between 1970 and the end of the year 9999.
    pub open spec fn renderable(self) -> bool {
        &&& self.well_formed()
        &&& TAI64_UNIX_EPOCH <= self.seconds
        &&& self.seconds - TAI64_UNIX_EPOCH < RFC3339_SECONDS_LIMIT
    }

    /// The RFC 3339 text of a renderable timestamp, with nine digits of
    /// nanoseconds.
    pub open spec fn rfc3339(self) -> Seq<char> {
        rfc3339_nanos_text((self.seconds - TAI64_UNIX_EPOCH) as u64, self.nanos)
    }

    /// The Unix epoch.
    pub open spec fn epoch() -> TaiTimestamp {
        TaiTimestamp { seconds: TAI64_UNIX_EPOCH, nanos: 0 }
    }

    /// Tells whether the timestamp can be written as an RFC 3339 date.
    pub fn is_renderable(&self) -> (yes: bool)
        ensures
            yes == self.renderable(),
    {
        self.nanos < NANOS_PER_SECOND && TAI64_UNIX_EPOCH <= self.seconds && self.seconds
            - TAI64_UNIX_EPOCH < RFC3339_SECONDS_LIMIT
    }
}

/// The error of the `tai64` crate, carried through without being read.
#[verifier::external_type_specification]
#[verifier::external_body]
pub struct ExTai64Error(tai64::Error);

/// What `humantime::format_rfc3339_nanos` writes for the instant that lies
/// `unix_seconds` seconds and `nanos` nanoseconds after 1970-01-01 00:00:00 UTC.
pub uninterp spec fn rfc3339_nanos_text(unix_seconds: u64, nanos: u32) -> Seq<char>;

/// Reads the constant `tai64::Tai64N::UNIX_EPOCH`: the label
/// `TAI64_UNIX_EPOCH` with no nanoseconds.
#[verifier::external_body]
pub(crate) fn tai64n_unix_epoch() -> (epoch: TaiTimestamp)
    ensures
        epoch == TaiTimestamp::epoch(),
{
    let epoch = tai64::Tai64N::UNIX_EPOCH;
    TaiTimestamp { seconds: (epoch.0).0, nanos: epoch.1 }
}

/// Calls `tai64::Tai64N::to_bytes`, which writes the seconds as eight
/// big-endian bytes and the nanoseconds as four more.
#[verifier::external_body]
pub(crate) fn tai64n_to_bytes(timestamp: TaiTimestamp) -> (bytes: [u8; 12])
    ensures
        bytes@ == timestamp.encoded(),
{
    tai64::Tai64N(tai64::Tai64(timestamp.seconds), timestamp.nanos).to_bytes()
}

/// Calls `tai64::Tai64N::from_slice` on twelve bytes. It reads eight
/// big-endian bytes of seconds and four of nanoseconds, and refuses the
/// bytes exactly when the nanoseconds reach one second.
#[verifier::external_body]
pub(crate) fn tai64n_from_slice(bytes: &[u8; 12]) -> (parsed: Result<TaiTimestamp, tai64::Error>)
    ensures
        parsed is Ok <==> TaiTimestamp::decoded(bytes@) is Some,
        parsed matches Ok(timestamp) ==> TaiTimestamp::decoded(bytes@) == Some(timestamp),
{
    match tai64::Tai64N::from_slice(bytes) {
        Ok(parsed) => Ok(TaiTimestamp { seconds: (parsed.0).0, nanos: parsed.1 }),
        Err(error) => Err(error),
    }
}

/// Calls `tai64::Tai64::from_unix`, which adds ten seconds and two to the
/// power 62 to a Unix time in signed arithmetic and reinterprets the sum as
/// unsigned. The sum must not overflow.
#[verifier::external_body]
pub(crate) fn tai64_from_unix(unix: i64) -> (seconds: u64)
    requires
        unix <= MAX_UNIX_SECONDS,
    ensures
        seconds == TaiTimestamp::seconds_from_unix(unix as int),
{
    tai64::Tai64::from_unix(unix).0
}

/// Calls the conversion from `tai64::Tai64` to `tai64::Tai64N`, which keeps
/// the label and sets the nanoseconds to zero.
#[verifier::external_body]
pub(crate) fn tai64n_from_tai64(seconds: u64) -> (timestamp: TaiTimestamp)
    ensures
        timestamp == (TaiTimestamp { seconds, nanos: 0 }),
{
    let converted = tai64::Tai64N::from(tai64::Tai64(seconds));
    TaiTimestamp { seconds: (converted.0).0, nanos: converted.1 }
}

/// Calls `tai64::Tai64N::now`, which reads the system clock. Only the range
/// of the nanosecond part is known of the result.
#[verifier::external_body]
pub(crate) fn tai64n_now() -> (now: TaiTimestamp)
    ensures
        now.well_formed(),
{
    let now = tai64::Tai64N::now();
    TaiTimestamp { seconds: (now.0).0, nanos: now.1 }
}

/// Calls `tai64::Tai64N::to_system_time`, which gives the instant that lies
/// as far from 1970-01-01 00:00:00 UTC as the timestamp lies from
/// `TAI64_UNIX_EPOCH`, and hands it to `humantime::format_rfc3339_nanos`.
/// The formatter does not return for instants before 1970 or after 9999.
#[verifier::external_body]
pub(crate) fn tai64n_format_rfc3339_nanos(timestamp: TaiTimestamp) -> (text: String)
    requires
        timestamp.renderable(),
    ensures
        text@ == rfc3339_nanos_text(
            (timestamp.seconds - TAI64_UNIX_EPOCH) as u64,
            timestamp.nanos,
        ),
{
    let parsed = tai64::Tai64N(tai64::Tai64(timestamp.seconds), timestamp.nanos);
    humantime::format_rfc3339_nanos(parsed.to_system_time()).to_string()
}

/// Every well-formed timestamp is read back from its external form.
pub proof fn lemma_decode_encode(timestamp: TaiTimestamp)
    requires
        timestamp.well_formed(),
    ensures
        timestamp.encoded().len() == 12,
        TaiTimestamp::decoded(timestamp.encoded()) == Some(timestamp),
{
    lemma_pow256_widths();
    lemma_be_value_of_be_bytes(timestamp.seconds as nat, 8);
    lemma_be_value_of_be_bytes(timestamp.nanos as nat, 4);
    let bytes = timestamp.encoded();
    assert(bytes.subrange(0, 8) == be_bytes(timestamp.seconds as nat, 8));
    assert(bytes.subrange(8, 12) == be_bytes(timestamp.nanos as nat, 4));
}

/// Twelve bytes that decode are the external form of what they decode to.
pub proof fn lemma_encode_decode(bytes: Seq<u8>)
    requires
        bytes.len() == 12,
    ensures
        TaiTimestamp::decoded(bytes) matches Some(timestamp) ==> timestamp.well_formed()
            && timestamp.encoded() == bytes,
{
    lemma_pow256_widths();
    lemma_be_bytes_of_be_value(bytes.subrange(0, 8));
    lemma_be_bytes_of_be_value(bytes.subrange(8, 12));
}

} // verus!
