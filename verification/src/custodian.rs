//! One registered signer and its packed fifty-six-byte form.

use crate::bytes::{read_bytes, write_bytes};
use crate::common::{conversion_failure, PublicKey, Tai64NTimestamp, TaiTimeUtilities};
use crate::tai::{
    tai64_from_unix, tai64n_from_tai64, tai64n_now, tai64n_to_bytes, tai64n_unix_epoch,
    lemma_decode_encode, TaiTimestamp, MAX_UNIX_SECONDS,
};
use vstd::prelude::*;
use vstd::string::StringExecFns;

verus! {

/// Length of a packed custodian.
pub const PACKED_CUSTODIAN: usize = 32 + 12 + 12;

/// Where the public key starts in a packed custodian.
pub const PUBLIC_KEY_OFFSET: usize = 0;

/// Where the registration timestamp starts in a packed custodian.
pub const TIMESTAMP_OFFSET: usize = 32;

/// Where the cluster timestamp starts in a packed custodian.
pub const CLUSTER_TIMESTAMP_OFFSET: usize = 44;

/// What a custodian holds, as sequences of bytes.
pub struct CustodianView {
    pub public_key: Seq<u8>,
    pub timestamp: Seq<u8>,
    pub cluster_timestamp: Seq<u8>,
}

impl CustodianView {
    /// The three parts have the lengths of a key and of two timestamps.
    pub open spec fn well_formed(self) -> bool {
        &&& self.public_key.len() == 32
        &&& self.timestamp.len() == 12
        &&& self.cluster_timestamp.len() == 12
    }

    /// The packed form: the key, the timestamp, the cluster timestamp.
    pub open spec fn packed(self) -> Seq<u8> {
        self.public_key + self.timestamp + self.cluster_timestamp
    }

    /// The custodian that fifty-six packed bytes stand for.
    pub open spec fn unpacked(bytes: Seq<u8>) -> CustodianView {
        CustodianView {
            public_key: bytes.subrange(0, 32),
            timestamp: bytes.subrange(32, 44),
            cluster_timestamp: bytes.subrange(44, 56),
        }
    }

    /// The diagnostic text of a custodian, or the message that names the
    /// first timestamp that does not decode.
    pub open spec fn rendered(self) -> Result<Seq<char>, Seq<char>> {
        match TaiTimestamp::decoded(self.timestamp) {
            None => Err(conversion_failure("timestamp"@)),
            Some(timestamp) => match TaiTimestamp::decoded(self.cluster_timestamp) {
                None => Err(conversion_failure("cluster_timestamp"@)),
                Some(cluster_timestamp) => Ok(
                    "Custodian { public_key: \""@ + base58_text(self.public_key)
                        + "\", timestamp: \""@ + timestamp.rfc3339()
                        + "\", cluster_timestamp: \""@ + cluster_timestamp.rfc3339() + "\" }"@,
                ),
            },
        }
    }

    /// Every timestamp that `rendered` writes as a date can be written as one.
    pub open spec fn renderable(self) -> bool {
        TaiTimestamp::decoded(self.timestamp) matches Some(timestamp) ==> {
            &&& timestamp.renderable()
            &&& TaiTimestamp::decoded(self.cluster_timestamp) matches Some(cluster_timestamp)
                ==> cluster_timestamp.renderable()
        }
    }
}

/// A registered signer: a public key, the time of registration and a time
/// that the cluster observed. A key of all zero bytes marks an empty slot.
#[derive(Debug, PartialEq, Eq, PartialOrd, Ord, Clone, Copy)]
pub struct Custodian {
    public_key: PublicKey,
    timestamp: Tai64NTimestamp,
    cluster_timestamp: Tai64NTimestamp,
}

impl View for Custodian {
    type V = CustodianView;

    closed spec fn view(&self) -> CustodianView {
        CustodianView {
            public_key: self.public_key@,
            timestamp: self.timestamp@,
            cluster_timestamp: self.cluster_timestamp@,
        }
    }
}

/// The Base58 text that `bs58::encode` gives for `bytes`, in the crate's
/// default alphabet.
pub uninterp spec fn base58_text(bytes: Seq<u8>) -> Seq<char>;

/// Calls `bs58::encode` on a key and collects the text with `into_string`.
#[verifier::external_body]
fn base58_encode(key: &PublicKey) -> (text: String)
    ensures
        text@ == base58_text(key@),
{
    bs58::encode(key).into_string()
}

impl Custodian {
    /// A custodian with the given key and both timestamps at the Unix epoch.
    pub fn new(public_key: PublicKey) -> (custodian: Self)
        ensures
            custodian@ == (CustodianView {
                public_key: public_key@,
                timestamp: TaiTimestamp::epoch().encoded(),
                cluster_timestamp: TaiTimestamp::epoch().encoded(),
            }),
    {
        Custodian {
            public_key,
            timestamp: tai64n_to_bytes(tai64n_unix_epoch()),
            cluster_timestamp: tai64n_to_bytes(tai64n_unix_epoch()),
        }
    }

    /// Sets the cluster timestamp from a Unix time in whole seconds. The
    /// time must not exceed `MAX_UNIX_SECONDS`: beyond it the TAI64 label
    /// overflows.
    pub fn add_cluster_timestamp(&mut self, unix_timestamp: i64) -> (custodian: &mut Self)
        requires
            unix_timestamp <= MAX_UNIX_SECONDS,
        ensures
            custodian@ == (CustodianView {
                cluster_timestamp: (TaiTimestamp {
                    seconds: TaiTimestamp::seconds_from_unix(unix_timestamp as int) as u64,
                    nanos: 0,
                }).encoded(),
                ..old(self)@
            }),
            *final(self) == *final(custodian),
    {
        let tai_timestamp = tai64_from_unix(unix_timestamp);
        let tai_timestamp = tai64n_from_tai64(tai_timestamp);
        self.cluster_timestamp = tai64n_to_bytes(tai_timestamp);
        self
    }

    /// Sets the registration timestamp to the given time.
    pub fn stamped(self, now: TaiTimestamp) -> (custodian: Self)
        ensures
            custodian@ == (CustodianView { timestamp: now.encoded(), ..self@ }),
    {
        Custodian {
            public_key: self.public_key,
            timestamp: tai64n_to_bytes(now),
            cluster_timestamp: self.cluster_timestamp,
        }
    }

    /// Sets the registration timestamp to the current time of the system
    /// clock. Of that time only its well-formedness is known.
    pub fn build(self) -> (custodian: Self)
        ensures
            custodian@.public_key == self@.public_key,
            custodian@.cluster_timestamp == self@.cluster_timestamp,
            TaiTimestamp::decoded(custodian@.timestamp) is Some,
    {
        let now = tai64n_now();
        proof {
            lemma_decode_encode(now);
        }
        self.stamped(now)
    }

    /// The public key.
    pub fn public_key(&self) -> (public_key: PublicKey)
        ensures
            public_key@ == self@.public_key,
    {
        self.public_key
    }

    /// The time of registration, in its external form.
    pub fn timestamp(&self) -> (timestamp: Tai64NTimestamp)
        ensures
            timestamp@ == self@.timestamp,
    {
        self.timestamp
    }

    /// The time that the cluster observed, in its external form.
    pub fn cluster_timestamp(&self) -> (cluster_timestamp: Tai64NTimestamp)
        ensures
            cluster_timestamp@ == self@.cluster_timestamp,
    {
        self.cluster_timestamp
    }

    /// Packs the custodian into fifty-six bytes: thirty-two of key, twelve
    /// of timestamp, twelve of cluster timestamp.
    pub fn pack(&self) -> (packed: [u8; PACKED_CUSTODIAN])
        ensures
            packed@ == self@.packed(),
    {
        let mut packed = [0u8; PACKED_CUSTODIAN];
        write_bytes(&mut packed, PUBLIC_KEY_OFFSET, &self.public_key);
        write_bytes(&mut packed, TIMESTAMP_OFFSET, &self.timestamp);
        write_bytes(&mut packed, CLUSTER_TIMESTAMP_OFFSET, &self.cluster_timestamp);
        packed
    }

    /// Reads a custodian from its packed form. The timestamps are taken as
    /// they are, whether or not they decode.
    pub fn unpack(packed_data: [u8; 56]) -> (custodian: Custodian)
        ensures
            custodian@ == CustodianView::unpacked(packed_data@),
    {
        let public_key: [u8; 32] = read_bytes(&packed_data, PUBLIC_KEY_OFFSET);
        let timestamp: [u8; 12] = read_bytes(&packed_data, TIMESTAMP_OFFSET);
        let cluster_timestamp: [u8; 12] = read_bytes(&packed_data, CLUSTER_TIMESTAMP_OFFSET);
        Custodian { public_key, timestamp, cluster_timestamp }
    }

    /// Tells whether `render` may be called.
    pub fn is_renderable(&self) -> (yes: bool)
        ensures
            yes == self@.renderable(),
    {
        let mut utilities = TaiTimeUtilities::source("timestamp");
        match utilities.tai64n_bytes(self.timestamp).to_tai64n() {
            Err(_) => true,
            Ok(timestamp) => {
                if !timestamp.is_renderable() {
                    return false;
                }
                let mut utilities = TaiTimeUtilities::source("cluster_timestamp");
                match utilities.tai64n_bytes(self.cluster_timestamp).to_tai64n() {
                    Err(_) => true,
                    Ok(cluster_timestamp) => cluster_timestamp.is_renderable(),
                }
            },
        }
    }

    /// The diagnostic text of the custodian: its key in Base58 and its two
    /// timestamps as RFC 3339 dates. A timestamp that does not decode is
    /// reported as an error that names it, the registration timestamp first.
    /// A timestamp that decodes must lie between 1970 and the end of the
    /// year 9999, which `is_renderable` tells.
    pub fn render(&self) -> (text: Result<String, String>)
        requires
            self@.renderable(),
        ensures
            match self@.rendered() {
                Ok(expected) => text matches Ok(rendered) && rendered@ == expected,
                Err(expected) => text matches Err(message) && message@ == expected,
            },
    {
        let mut utilities = TaiTimeUtilities::source("timestamp");
        let timestamp = match utilities.tai64n_bytes(self.timestamp).tai64n_bytes_to_humantime() {
            Ok(value) => value,
            Err(error) => {
                return Err(error);
            },
        };
        let mut utilities = TaiTimeUtilities::source("cluster_timestamp");
        let cluster_timestamp = match utilities.tai64n_bytes(
            self.cluster_timestamp,
        ).tai64n_bytes_to_humantime() {
            Ok(value) => value,
            Err(error) => {
                return Err(error);
            },
        };
        let mut text = String::new();
        text.append("Custodian { public_key: \"");
        text.append(base58_encode(&self.public_key).as_str());
        text.append("\", timestamp: \"");
        text.append(timestamp.as_str());
        text.append("\", cluster_timestamp: \"");
        text.append(cluster_timestamp.as_str());
        text.append("\" }");
        Ok(text)
    }
}

impl Default for Custodian {
    /// The occupant of an empty slot: the key of all zero bytes, with both
    /// timestamps at the Unix epoch.
    fn default() -> (custodian: Self)
        ensures
            custodian@ == (CustodianView {
                public_key: crate::common::empty_key(),
                timestamp: TaiTimestamp::epoch().encoded(),
                cluster_timestamp: TaiTimestamp::epoch().encoded(),
            }),
    {
        let key = [0u8; 32];
        assert(key@ =~= crate::common::empty_key());
        Custodian::new(key)
    }
}

/// The view of a custodian has the lengths of a key and of two timestamps,
/// and two custodians with one view are one custodian.
pub proof fn lemma_view_determines_custodian(left: Custodian, right: Custodian)
    ensures
        left@.well_formed(),
        left@ == right@ ==> left == right,
{
    if left@ == right@ {
        assert(left.public_key =~= right.public_key);
        assert(left.timestamp =~= right.timestamp);
        assert(left.cluster_timestamp =~= right.cluster_timestamp);
    }
}

/// Unpacking the packed form of a custodian gives the custodian back.
pub proof fn lemma_unpack_pack(custodian: Custodian)
    ensures
        custodian@.packed().len() == PACKED_CUSTODIAN,
        CustodianView::unpacked(custodian@.packed()) == custodian@,
        forall|other: Custodian|
            other@ == CustodianView::unpacked(custodian@.packed()) ==> other == custodian,
{
    lemma_view_unpack_pack(custodian@);
    assert forall|other: Custodian|
        other@ == CustodianView::unpacked(custodian@.packed()) implies other == custodian by {
        lemma_view_determines_custodian(other, custodian);
    }
}

/// The same, of any key and timestamps of the right lengths.
pub proof fn lemma_view_unpack_pack(view: CustodianView)
    requires
        view.well_formed(),
    ensures
        view.packed().len() == PACKED_CUSTODIAN,
        CustodianView::unpacked(view.packed()) == view,
{
    let bytes = view.packed();
    assert(bytes.subrange(0, 32) =~= view.public_key);
    assert(bytes.subrange(32, 44) =~= view.timestamp);
    assert(bytes.subrange(44, 56) =~= view.cluster_timestamp);
}

/// Packing what fifty-six bytes unpack to gives the bytes back.
pub proof fn lemma_pack_unpack(bytes: Seq<u8>)
    requires
        bytes.len() == PACKED_CUSTODIAN,
    ensures
        CustodianView::unpacked(bytes).well_formed(),
        CustodianView::unpacked(bytes).packed() == bytes,
{
}

} // verus!
