//! Key and timestamp byte forms shared by the wallet's records, and the
//! decoding of one timestamp for display.

use crate::tai::{
    tai64n_format_rfc3339_nanos, tai64n_from_slice, tai64n_to_bytes, tai64n_unix_epoch,
    TaiTimestamp,
};
use vstd::prelude::*;
use vstd::string::StringExecFns;

verus! {

/// The external form of a TAI64N timestamp.
pub type Tai64NTimestamp = [u8; 12];

/// A public key.
pub type PublicKey = [u8; 32];

/// The key of all zero bytes, which marks a slot as unoccupied.
pub open spec fn empty_key() -> Seq<u8> {
    Seq::new(32, |i: int| 0u8)
}

/// Tells whether a key is the marker of an unoccupied slot.
pub fn key_is_empty(key: &PublicKey) -> (empty: bool)
    ensures
        empty == (key@ == empty_key()),
{
    let mut i: usize = 0;
    while i < 32
        invariant
            i <= 32,
            forall|j: int| 0 <= j < i ==> key@[j] == 0u8,
        decreases 32 - i,
    {
        if key[i] != 0 {
            return false;
        }
        i += 1;
    }
    assert(key@ =~= empty_key());
    true
}

/// Tells whether two keys hold the same bytes.
pub fn keys_equal(left: &PublicKey, right: &PublicKey) -> (equal: bool)
    ensures
        equal == (left@ == right@),
{
    let mut i: usize = 0;
    while i < 32
        invariant
            i <= 32,
            forall|j: int| 0 <= j < i ==> left@[j] == right@[j],
        decreases 32 - i,
    {
        if left[i] != right[i] {
            return false;
        }
        i += 1;
    }
    assert(left@ =~= right@);
    true
}

/// The message that reports timestamp bytes which do not decode, labelled
/// with the name of the field they came from.
pub open spec fn conversion_failure(source: Seq<char>) -> Seq<char> {
    source + ":"@
        + "Unable to convert `Tai64NTimestamp` bytes provided to TAI64N timestamp"@
}

/// What a `TaiTimeUtilities` holds: the label of the field that the bytes
/// came from, and the bytes.
pub struct TaiTimeUtilitiesView {
    pub source: Seq<char>,
    pub tai64n_bytes: Seq<u8>,
}

/// Decodes the external form of one timestamp and renders it as text,
/// labelling any failure with the name of its source.
pub struct TaiTimeUtilities<'a> {
    source: &'a str,
    tai64n_bytes: [u8; 12],
}

impl<'a> View for TaiTimeUtilities<'a> {
    type V = TaiTimeUtilitiesView;

    closed spec fn view(&self) -> TaiTimeUtilitiesView {
        TaiTimeUtilitiesView { source: self.source@, tai64n_bytes: self.tai64n_bytes@ }
    }
}

impl<'a> TaiTimeUtilities<'a> {
    /// Starts from a label, with the bytes of the Unix epoch.
    pub fn source(source: &'a str) -> (utilities: Self)
        ensures
            utilities@.source == source@,
            utilities@.tai64n_bytes == TaiTimestamp::epoch().encoded(),
    {
        TaiTimeUtilities { source, tai64n_bytes: tai64n_to_bytes(tai64n_unix_epoch()) }
    }

    /// Replaces the bytes to decode.
    pub fn tai64n_bytes(&mut self, value: [u8; 12]) -> (utilities: &mut Self)
        ensures
            utilities@.source == old(self)@.source,
            utilities@.tai64n_bytes == value@,
            *final(self) == *final(utilities),
    {
        self.tai64n_bytes = value;
        self
    }

    /// Decodes the bytes. Bytes whose nanosecond part reaches one second are
    /// refused with the labelled message.
    pub fn to_tai64n(&self) -> (converted: Result<TaiTimestamp, String>)
        ensures
            match TaiTimestamp::decoded(self@.tai64n_bytes) {
                Some(timestamp) => converted == Ok::<TaiTimestamp, String>(timestamp),
                None => converted matches Err(message) && message@ == conversion_failure(
                    self@.source,
                ),
            },
    {
        match tai64n_from_slice(&self.tai64n_bytes) {
            Ok(value) => Ok(value),
            Err(_) => {
                let mut error = String::new();
                error.append(self.source);
                error.append(":");
                error.append(
                    "Unable to convert `Tai64NTimestamp` bytes provided to TAI64N timestamp",
                );
                Err(error)
            },
        }
    }

    /// Writes a timestamp as an RFC 3339 date with nanoseconds. The
    /// timestamp must lie between 1970 and the end of the year 9999: the
    /// formatter renders no other.
    pub fn to_rfc3339(timestamp: TaiTimestamp) -> (text: String)
        requires
            timestamp.renderable(),
        ensures
            text@ == timestamp.rfc3339(),
    {
        tai64n_format_rfc3339_nanos(timestamp)
    }

    /// Decodes the bytes and writes the timestamp as an RFC 3339 date.
    /// Bytes that do not decode are refused with the labelled message;
    /// bytes that decode must stand for a time between 1970 and the end of
    /// the year 9999.
    pub fn tai64n_bytes_to_humantime(&self) -> (rendered: Result<String, String>)
        requires
            TaiTimestamp::decoded(self@.tai64n_bytes) matches Some(timestamp)
                ==> timestamp.renderable(),
        ensures
            match TaiTimestamp::decoded(self@.tai64n_bytes) {
                Some(timestamp) => rendered matches Ok(text) && text@ == timestamp.rfc3339(),
                None => rendered matches Err(message) && message@ == conversion_failure(
                    self@.source,
                ),
            },
    {
        match self.to_tai64n() {
            Ok(tai_timestamp) => Ok(TaiTimeUtilities::to_rfc3339(tai_timestamp)),
            Err(error) => Err(error),
        }
    }
}

} // verus!
