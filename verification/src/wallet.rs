//! The wallet record and its transitions: registering custodians, setting
//! the signer threshold and the withdrawal limit, and collecting approvals
//! for the one pending transfer request.

use crate::bytes::{
    le_bytes, le_value, lemma_le_bytes_of_le_value, lemma_le_value_of_le_bytes,
    lemma_pow256_widths, read_bytes, u64_from_le, u64_to_le, write_bytes,
};
use crate::common::{empty_key, key_is_empty, keys_equal, PublicKey};
use crate::custodian::{
    lemma_view_determines_custodian, lemma_view_unpack_pack, Custodian, CustodianView,
};
use crate::errors::{WalletError, WalletResult};
use crate::token_limits::TokenLimit;
use vstd::prelude::*;

verus! {

/// Number of custodian slots of a wallet.
pub const CUSTODIAN_SLOTS: usize = 5;

/// Number of approver slots of a transfer request.
pub const APPROVER_SLOTS: usize = 3;

/// Length of a packed transfer request.
pub const PACKED_REQUEST: usize = 32 + 8 + 3 * 32;

/// Length of a packed wallet.
pub const PACKED_WALLET: usize = 5 * 56 + 1 + 32 + 1 + 136;

/// Where the signer threshold stands in a packed wallet.
pub const SIGNERS_OFFSET: usize = 280;

/// Where the reserved bytes start in a packed wallet.
pub const CHECKING_OFFSET: usize = 281;

/// Where the wire code of the limit stands in a packed wallet.
pub const LIMIT_OFFSET: usize = 313;

/// Where the transfer request starts in a packed wallet.
pub const REQUEST_OFFSET: usize = 314;

/// The views of a sequence of custodians.
pub open spec fn custodian_views(custodians: Seq<Custodian>) -> Seq<CustodianView> {
    custodians.map_values(|custodian: Custodian| custodian@)
}

/// The views of a sequence of keys.
pub open spec fn key_views(keys: Seq<PublicKey>) -> Seq<Seq<u8>> {
    keys.map_values(|key: PublicKey| key@)
}

/// The custodians of the slots that are occupied, in slot order.
pub open spec fn occupied_custodians(slots: Seq<CustodianView>) -> Seq<CustodianView> {
    slots.filter(|custodian: CustodianView| custodian.public_key != empty_key())
}

/// The keys of the slots that are occupied, in slot order.
pub open spec fn occupied_keys(slots: Seq<Seq<u8>>) -> Seq<Seq<u8>> {
    slots.filter(|key: Seq<u8>| key != empty_key())
}

/// The index of the first slot whose key is empty, or the number of slots
/// if every slot is occupied.
pub open spec fn first_empty_slot(slots: Seq<CustodianView>) -> int
    decreases slots.len(),
{
    if slots.len() == 0 {
        0
    } else if slots[0].public_key == empty_key() {
        0
    } else {
        1 + first_empty_slot(slots.drop_first())
    }
}

/// The approver slots that hold `approvers` in order, followed by empty keys.
pub open spec fn approver_slots(approvers: Seq<Seq<u8>>) -> Seq<Seq<u8>> {
    Seq::new(
        APPROVER_SLOTS as nat,
        |i: int|
            if i < approvers.len() {
                approvers[i]
            } else {
                empty_key()
            },
    )
}

/// What a transfer request holds.
pub struct TransferRequestView {
    pub credit_to: Seq<u8>,
    pub amount: u64,
    pub approved_by: Seq<Seq<u8>>,
}

impl TransferRequestView {
    /// The request that asks for nothing and that nobody approved.
    pub open spec fn empty() -> TransferRequestView {
        TransferRequestView {
            credit_to: empty_key(),
            amount: 0,
            approved_by: approver_slots(Seq::empty()),
        }
    }

    /// The key to credit and the three approver slots have the length of a
    /// key.
    pub open spec fn well_formed(self) -> bool {
        &&& self.credit_to.len() == 32
        &&& self.approved_by.len() == APPROVER_SLOTS
        &&& forall|i: int| 0 <= i < self.approved_by.len() ==> self.approved_by[i].len() == 32
    }

    /// The packed form: whom to credit, the amount as eight little-endian
    /// bytes, then the three approver slots.
    pub open spec fn packed(self) -> Seq<u8> {
        self.credit_to + le_bytes(self.amount as nat, 8) + self.approved_by[0]
            + self.approved_by[1] + self.approved_by[2]
    }

    /// The request that 136 packed bytes stand for.
    pub open spec fn unpacked(bytes: Seq<u8>) -> TransferRequestView {
        TransferRequestView {
            credit_to: bytes.subrange(0, 32),
            amount: le_value(bytes.subrange(32, 40)) as u64,
            approved_by: seq![
                bytes.subrange(40, 72),
                bytes.subrange(72, 104),
                bytes.subrange(104, 136),
            ],
        }
    }
}

/// The one transfer that a wallet may have pending: whom to credit, how
/// much, and the keys of the custodians who approved it.
#[derive(Debug, Clone, Copy, PartialEq, Eq, PartialOrd, Ord)]
pub struct TransferRequest {
    credit_to: [u8; 32],
    amount: u64,
    approved_by: [[u8; 32]; 3],
}

impl View for TransferRequest {
    type V = TransferRequestView;

    closed spec fn view(&self) -> TransferRequestView {
        TransferRequestView {
            credit_to: self.credit_to@,
            amount: self.amount,
            approved_by: key_views(self.approved_by@),
        }
    }
}

impl TransferRequest {
    /// The key to credit.
    pub fn credit_to(&self) -> (credit_to: [u8; 32])
        ensures
            credit_to@ == self@.credit_to,
    {
        self.credit_to
    }

    /// The amount asked for.
    pub fn amount(&self) -> (amount: u64)
        ensures
            amount == self@.amount,
    {
        self.amount
    }

    /// The approver slots.
    pub fn approved_by(&self) -> (approved_by: [[u8; 32]; 3])
        ensures
            key_views(approved_by@) == self@.approved_by,
    {
        self.approved_by
    }

    /// Packs the request into 136 bytes.
    pub fn pack(&self) -> (packed: [u8; PACKED_REQUEST])
        ensures
            packed@ == self@.packed(),
    {
        let mut packed = [0u8; PACKED_REQUEST];
        write_bytes(&mut packed, 0, &self.credit_to);
        write_bytes(&mut packed, 32, &u64_to_le(self.amount));
        let mut slot: usize = 0;
        while slot < 3
            invariant
                slot <= 3,
                packed@.subrange(0, 40) == self.credit_to@ + le_bytes(self.amount as nat, 8),
                forall|j: int|
                    0 <= j < slot ==> #[trigger] packed@.subrange(40 + 32 * j, 72 + 32 * j)
                        == self.approved_by@[j]@,
            decreases 3 - slot,
        {
            let ghost before = packed@;
            write_bytes(&mut packed, 40 + 32 * slot, &self.approved_by[slot]);
            assert forall|j: int| 0 <= j < slot + 1 implies #[trigger] packed@.subrange(
                40 + 32 * j,
                72 + 32 * j,
            ) == self.approved_by@[j]@ by {
                if j < slot {
                    assert(packed@.subrange(40 + 32 * j, 72 + 32 * j) =~= before.subrange(
                        40 + 32 * j,
                        72 + 32 * j,
                    ));
                }
            }
            slot += 1;
        }
        proof {
            assert(packed@.subrange(40 + 32 * 0int, 72 + 32 * 0int) == self.approved_by@[0]@);
            assert(packed@.subrange(40 + 32 * 1int, 72 + 32 * 1int) == self.approved_by@[1]@);
            assert(packed@.subrange(40 + 32 * 2int, 72 + 32 * 2int) == self.approved_by@[2]@);
        }
        packed
    }

    /// Reads a request from its packed form.
    pub fn unpack(packed_data: [u8; 136]) -> (request: TransferRequest)
        ensures
            request@ == TransferRequestView::unpacked(packed_data@),
    {
        let credit_to: [u8; 32] = read_bytes(&packed_data, 0);
        let amount_bytes: [u8; 8] = read_bytes(&packed_data, 32);
        let amount = u64_from_le(&amount_bytes);
        let mut approved_by = [[0u8; 32]; 3];
        let mut slot: usize = 0;
        while slot < 3
            invariant
                slot <= 3,
                forall|j: int|
                    0 <= j < slot ==> (#[trigger] approved_by@[j])@ == packed_data@.subrange(
                        40 + 32 * j,
                        72 + 32 * j,
                    ),
            decreases 3 - slot,
        {
            approved_by[slot] = read_bytes(&packed_data, 40 + 32 * slot);
            slot += 1;
        }
        let request = TransferRequest { credit_to, amount, approved_by };
        proof {
            assert(request@.approved_by =~= TransferRequestView::unpacked(
                packed_data@,
            ).approved_by);
        }
        request
    }
}

impl Default for TransferRequest {
    fn default() -> (request: Self)
        ensures
            request@ == TransferRequestView::empty(),
    {
        let request = TransferRequest {
            credit_to: [0u8; 32],
            amount: 0,
            approved_by: [[0u8; 32]; 3],
        };
        proof {
            assert(request.credit_to@ =~= empty_key());
            assert(key_views(request.approved_by@) =~= approver_slots(Seq::empty()));
        }
        request
    }
}

/// Whether a request has gathered the approvals that the wallet asks for.
#[derive(Debug, Clone, Copy, PartialEq, Eq, PartialOrd, Ord, Structural)]
pub enum TransferOutcome {
    Pending,
    Approved,
}

impl Default for TransferOutcome {
    fn default() -> (outcome: Self)
        ensures
            outcome == TransferOutcome::Pending,
    {
        TransferOutcome::Pending
    }
}

/// What a wallet holds.
pub struct OnChainWalletView {
    pub custodians: Seq<CustodianView>,
    pub signers: u8,
    pub checking: Seq<u8>,
    pub limit: TokenLimit,
    pub request: TransferRequestView,
}

impl OnChainWalletView {
    /// A wallet with no custodian, no threshold, the smallest limit and no
    /// request.
    pub open spec fn initial() -> OnChainWalletView {
        OnChainWalletView {
            custodians: Seq::new(
                CUSTODIAN_SLOTS as nat,
                |i: int|
                    CustodianView {
                        public_key: empty_key(),
                        timestamp: crate::tai::TaiTimestamp::epoch().encoded(),
                        cluster_timestamp: crate::tai::TaiTimestamp::epoch().encoded(),
                    },
            ),
            signers: 0,
            checking: Seq::new(32, |i: int| 0u8),
            limit: TokenLimit::Third,
            request: TransferRequestView::empty(),
        }
    }

    /// Five custodians, thirty-two reserved bytes, and each part of its
    /// length.
    pub open spec fn well_formed(self) -> bool {
        &&& self.custodians.len() == CUSTODIAN_SLOTS
        &&& forall|i: int| 0 <= i < self.custodians.len() ==> self.custodians[i].well_formed()
        &&& self.checking.len() == 32
        &&& self.request.well_formed()
    }

    /// The packed form: the five custodians, the signer threshold, the
    /// reserved bytes, the wire code of the limit, the request.
    pub open spec fn packed(self) -> Seq<u8> {
        self.custodians[0].packed() + self.custodians[1].packed() + self.custodians[2].packed()
            + self.custodians[3].packed() + self.custodians[4].packed() + seq![self.signers]
            + self.checking + seq![self.limit.wire_code()] + self.request.packed()
    }

    /// The wallet that 450 packed bytes stand for, if the byte of the limit
    /// is a wire code.
    pub open spec fn unpacked(bytes: Seq<u8>) -> Option<OnChainWalletView> {
        match TokenLimit::from_wire_code(bytes[LIMIT_OFFSET as int]) {
            None => None,
            Some(limit) => Some(
                OnChainWalletView {
                    custodians: Seq::new(
                        CUSTODIAN_SLOTS as nat,
                        |i: int| CustodianView::unpacked(bytes.subrange(56 * i, 56 * i + 56)),
                    ),
                    signers: bytes[SIGNERS_OFFSET as int],
                    checking: bytes.subrange(CHECKING_OFFSET as int, LIMIT_OFFSET as int),
                    limit,
                    request: TransferRequestView::unpacked(
                        bytes.subrange(REQUEST_OFFSET as int, PACKED_WALLET as int),
                    ),
                },
            ),
        }
    }

    /// The reserved bytes are all zero.
    pub open spec fn reserved_clear(self) -> bool {
        self.checking == Seq::new(32, |i: int| 0u8)
    }

    /// Some custodian slot is empty.
    pub open spec fn has_empty_slot(self) -> bool {
        first_empty_slot(self.custodians) < self.custodians.len()
    }

    /// The registered custodians, in slot order.
    pub open spec fn valid_custodians(self) -> Seq<CustodianView> {
        occupied_custodians(self.custodians)
    }

    /// `key` is the key of a registered custodian.
    pub open spec fn is_custodian(self, key: Seq<u8>) -> bool {
        exists|i: int|
            0 <= i < self.valid_custodians().len()
                && #[trigger] self.valid_custodians()[i].public_key == key
    }

    /// The keys that approved the pending request, in slot order.
    pub open spec fn approvers(self) -> Seq<Seq<u8>> {
        occupied_keys(self.request.approved_by)
    }

    /// The wallet after `custodian` took the first empty slot.
    pub open spec fn with_custodian(self, custodian: CustodianView) -> OnChainWalletView {
        OnChainWalletView {
            custodians: self.custodians.update(first_empty_slot(self.custodians), custodian),
            ..self
        }
    }

    /// The threshold may be set: the registered custodians outnumber the
    /// current threshold.
    pub open spec fn admits_threshold_change(self) -> bool {
        self.valid_custodians().len() >= self.signers + 1
    }

    /// The wallet with another signer threshold.
    pub open spec fn with_signers(self, threshold: u8) -> OnChainWalletView {
        OnChainWalletView { signers: threshold, ..self }
    }

    /// The wallet whose request asks for `amount`; whom to credit and who
    /// approved stay as they were.
    pub open spec fn with_request_amount(self, amount: u64) -> OnChainWalletView {
        OnChainWalletView { request: TransferRequestView { amount, ..self.request }, ..self }
    }

    /// The wallet without a request.
    pub open spec fn with_request_dropped(self) -> OnChainWalletView {
        OnChainWalletView { request: TransferRequestView::empty(), ..self }
    }

    /// The wallet with another withdrawal limit.
    pub open spec fn with_limit(self, limit: TokenLimit) -> OnChainWalletView {
        OnChainWalletView { limit, ..self }
    }

    /// What an approval of `amount` by `key` comes to: refused, because
    /// the amount is not the pending one, the key is no custodian's, or no
    /// approver slot is left, in that order; else approved once the
    /// approvals, this one included, reach the signer threshold, and
    /// pending before that.
    pub open spec fn approval(self, amount: u64, key: Seq<u8>) -> Result<
        TransferOutcome,
        WalletError,
    > {
        if self.request.amount != amount {
            Err(WalletError::RequestedAmountMismatch)
        } else if !self.is_custodian(key) {
            Err(WalletError::PublicKeyIsNotACustodian)
        } else if self.approvers().len() >= APPROVER_SLOTS {
            Err(WalletError::ApproverStoreFull)
        } else if self.approvers().len() + 1 >= self.signers {
            Ok(TransferOutcome::Approved)
        } else {
            Ok(TransferOutcome::Pending)
        }
    }

    /// The wallet after `key` was recorded as one more approver: the
    /// earlier approvers in order, then `key`, then empty slots.
    pub open spec fn with_approval(self, key: Seq<u8>) -> OnChainWalletView {
        OnChainWalletView {
            request: TransferRequestView {
                approved_by: approver_slots(self.approvers().push(key)),
                ..self.request
            },
            ..self
        }
    }
}

/// A custodial wallet: five custodian slots, the number of approvals that a
/// transfer needs, reserved bytes, a withdrawal limit and one transfer
/// request.
#[derive(Debug, Clone, Copy, PartialEq, Eq, PartialOrd, Ord)]
pub struct OnChainWallet {
    custodians: [Custodian; 5],
    signers: u8,
    checking: [u8; 32],
    limit: TokenLimit,
    request: TransferRequest,
}

impl View for OnChainWallet {
    type V = OnChainWalletView;

    closed spec fn view(&self) -> OnChainWalletView {
        OnChainWalletView {
            custodians: custodian_views(self.custodians@),
            signers: self.signers,
            checking: self.checking@,
            limit: self.limit,
            request: self.request@,
        }
    }
}

/// An occupied slot at the end of the slots is the last of the occupied
/// custodians; an empty one adds nothing.
proof fn lemma_occupied_custodians_push(slots: Seq<CustodianView>, last: CustodianView)
    ensures
        occupied_custodians(slots.push(last)) == if last.public_key != empty_key() {
            occupied_custodians(slots).push(last)
        } else {
            occupied_custodians(slots)
        },
{
    reveal(Seq::filter);
    assert(slots.push(last).drop_last() =~= slots);
}

/// The same, for keys.
proof fn lemma_occupied_keys_push(slots: Seq<Seq<u8>>, last: Seq<u8>)
    ensures
        occupied_keys(slots.push(last)) == if last != empty_key() {
            occupied_keys(slots).push(last)
        } else {
            occupied_keys(slots)
        },
{
    reveal(Seq::filter);
    assert(slots.push(last).drop_last() =~= slots);
}

/// The first empty slot is the one before which every slot is occupied.
proof fn lemma_first_empty_slot(slots: Seq<CustodianView>, index: int)
    requires
        0 <= index <= slots.len(),
        forall|j: int| 0 <= j < index ==> slots[j].public_key != empty_key(),
        index < slots.len() ==> slots[index].public_key == empty_key(),
    ensures
        first_empty_slot(slots) == index,
    decreases slots.len(),
{
    if slots.len() > 0 && index > 0 {
        let rest = slots.drop_first();
        lemma_first_empty_slot(rest, index - 1);
    }
}

/// Dropping the request leaves no amount, nobody to credit and no approver:
/// every approver slot holds the empty key.
pub proof fn lemma_dropped_request_is_empty(wallet: OnChainWalletView)
    ensures
        wallet.with_request_dropped().request.amount == 0,
        wallet.with_request_dropped().request.credit_to == empty_key(),
        wallet.with_request_dropped().request.approved_by.len() == APPROVER_SLOTS,
        forall|i: int|
            0 <= i < APPROVER_SLOTS ==> wallet.with_request_dropped().request.approved_by[i]
                == empty_key(),
        wallet.with_request_dropped().approvers() == Seq::<Seq<u8>>::empty(),
{
    reveal_with_fuel(Seq::filter, 4);
}

/// Dropping the request twice is dropping it once.
pub proof fn lemma_drop_request_idempotent(wallet: OnChainWalletView)
    ensures
        wallet.with_request_dropped().with_request_dropped() == wallet.with_request_dropped(),
{
}

/// No transition touches the reserved bytes.
pub proof fn lemma_transitions_keep_reserved_bytes(
    wallet: OnChainWalletView,
    custodian: CustodianView,
    threshold: u8,
    amount: u64,
    key: Seq<u8>,
    limit: TokenLimit,
)
    ensures
        OnChainWalletView::initial().reserved_clear(),
        wallet.with_custodian(custodian).checking == wallet.checking,
        wallet.with_signers(threshold).checking == wallet.checking,
        wallet.with_request_amount(amount).checking == wallet.checking,
        wallet.with_approval(key).checking == wallet.checking,
        wallet.with_request_dropped().checking == wallet.checking,
        wallet.with_limit(limit).checking == wallet.checking,
{
}

/// No transition takes a registered custodian out of its slot: registering
/// changes one empty slot, and the other transitions change no slot.
pub proof fn lemma_slots_are_never_reclaimed(
    wallet: OnChainWalletView,
    custodian: CustodianView,
    threshold: u8,
    amount: u64,
    key: Seq<u8>,
    limit: TokenLimit,
    slot: int,
)
    requires
        0 <= slot < wallet.custodians.len(),
        wallet.custodians[slot].public_key != empty_key(),
    ensures
        wallet.has_empty_slot() ==> wallet.with_custodian(custodian).custodians[slot]
            == wallet.custodians[slot],
        wallet.with_signers(threshold).custodians == wallet.custodians,
        wallet.with_request_amount(amount).custodians == wallet.custodians,
        wallet.with_approval(key).custodians == wallet.custodians,
        wallet.with_request_dropped().custodians == wallet.custodians,
        wallet.with_limit(limit).custodians == wallet.custodians,
{
    lemma_first_empty_slot_is_empty(wallet.custodians);
}

/// A recorded approval comes after the earlier ones: the approvers of the
/// wallet after an accepted approval are the earlier approvers followed by
/// the approving key.
pub proof fn lemma_approval_is_appended(wallet: OnChainWalletView, amount: u64, key: Seq<u8>)
    requires
        wallet.approval(amount, key) is Ok,
    ensures
        key != empty_key(),
        wallet.with_approval(key).approvers() == wallet.approvers().push(key),
{
    let earlier = wallet.approvers();
    let recorded = earlier.push(key);
    lemma_unchanged_when_all_occupied(recorded);
    lemma_occupied_keys_of_padded(recorded, (APPROVER_SLOTS - recorded.len()) as nat);
    assert(approver_slots(recorded) =~= recorded + Seq::new(
        (APPROVER_SLOTS - recorded.len()) as nat,
        |i: int| empty_key(),
    ));
}

/// Keys none of which is empty are all occupied.
proof fn lemma_unchanged_when_all_occupied(keys: Seq<Seq<u8>>)
    requires
        forall|i: int| 0 <= i < keys.len() ==> keys[i] != empty_key(),
    ensures
        occupied_keys(keys) == keys,
    decreases keys.len(),
{
    reveal(Seq::filter);
    if keys.len() > 0 {
        lemma_unchanged_when_all_occupied(keys.drop_last());
    }
}

/// Empty slots after the keys add nothing to the occupied keys.
proof fn lemma_occupied_keys_of_padded(keys: Seq<Seq<u8>>, padding: nat)
    ensures
        occupied_keys(keys + Seq::new(padding, |i: int| empty_key())) == occupied_keys(keys),
    decreases padding,
{
    let padded = keys + Seq::new(padding, |i: int| empty_key());
    if padding > 0 {
        let shorter = keys + Seq::new((padding - 1) as nat, |i: int| empty_key());
        lemma_occupied_keys_of_padded(keys, (padding - 1) as nat);
        assert(padded =~= shorter.push(empty_key()));
        lemma_occupied_keys_push(shorter, empty_key());
    }
}

/// The keys of the registered custodians are the keys that the slots hold,
/// but for the empty key.
pub proof fn lemma_custodian_keys(wallet: OnChainWalletView, key: Seq<u8>)
    ensures
        wallet.is_custodian(key) <==> key != empty_key() && exists|i: int|
            0 <= i < wallet.custodians.len() && (#[trigger] wallet.custodians[i]).public_key
                == key,
{
    let registered = wallet.valid_custodians();
    let occupied = |custodian: CustodianView| custodian.public_key != empty_key();
    if wallet.is_custodian(key) {
        let j = choose|j: int|
            0 <= j < registered.len() && #[trigger] registered[j].public_key == key;
        assert(registered.contains(registered[j]));
        wallet.custodians.lemma_filter_contains_rev(occupied, registered[j]);
        let i = wallet.custodians.index_of(registered[j]);
        assert(wallet.custodians[i].public_key == key);
    }
    if key != empty_key() && exists|i: int|
        0 <= i < wallet.custodians.len() && (#[trigger] wallet.custodians[i]).public_key == key {
        let i = choose|i: int|
            0 <= i < wallet.custodians.len() && (#[trigger] wallet.custodians[i]).public_key
                == key;
        wallet.custodians.lemma_filter_contains(occupied, i);
        let j = registered.index_of(wallet.custodians[i]);
        assert(registered[j].public_key == key);
    }
}

/// A threshold above the number of approver slots is never met: no
/// approval makes the request approved.
pub proof fn lemma_threshold_above_slots_is_never_met(
    wallet: OnChainWalletView,
    amount: u64,
    key: Seq<u8>,
)
    requires
        wallet.signers > APPROVER_SLOTS,
    ensures
        wallet.approval(amount, key) != Ok::<TransferOutcome, WalletError>(
            TransferOutcome::Approved,
        ),
{
}

/// A custodian with a key of its own, registered in a wallet with room,
/// is one more registered custodian.
pub proof fn lemma_registration_counts(wallet: OnChainWalletView, custodian: CustodianView)
    requires
        wallet.has_empty_slot(),
        custodian.public_key != empty_key(),
    ensures
        wallet.with_custodian(custodian).valid_custodians().len()
            == wallet.valid_custodians().len() + 1,
        wallet.with_custodian(custodian).is_custodian(custodian.public_key),
{
    lemma_occupied_after_update(wallet.custodians, custodian);
    let slot = first_empty_slot(wallet.custodians);
    let before = occupied_custodians(wallet.custodians.take(slot));
    let registered = wallet.with_custodian(custodian).valid_custodians();
    assert(registered[before.len() as int] == custodian);
}

/// A wallet has room for a custodian exactly while fewer custodians are
/// registered than it has slots.
pub proof fn lemma_room_while_not_full(wallet: OnChainWalletView)
    ensures
        wallet.valid_custodians().len() <= wallet.custodians.len(),
        wallet.has_empty_slot() <==> wallet.valid_custodians().len() < wallet.custodians.len(),
{
    lemma_all_occupied_iff_full_count(wallet.custodians);
    lemma_first_empty_slot_is_empty(wallet.custodians);
}

/// The occupied custodians are as many as the slots exactly when no slot
/// is empty.
proof fn lemma_all_occupied_iff_full_count(slots: Seq<CustodianView>)
    ensures
        occupied_custodians(slots).len() <= slots.len(),
        occupied_custodians(slots).len() == slots.len() <==> forall|j: int|
            0 <= j < slots.len() ==> slots[j].public_key != empty_key(),
    decreases slots.len(),
{
    reveal(Seq::filter);
    if slots.len() > 0 {
        let rest = slots.drop_last();
        lemma_all_occupied_iff_full_count(rest);
        if occupied_custodians(slots).len() == slots.len() {
            assert forall|j: int| 0 <= j < slots.len() implies slots[j].public_key
                != empty_key() by {
                if j < rest.len() {
                    assert(rest[j] == slots[j]);
                }
            }
        }
    }
}

/// The first empty slot, where there is one, holds the empty key, and
/// every slot before it is occupied.
proof fn lemma_first_empty_slot_is_empty(slots: Seq<CustodianView>)
    ensures
        0 <= first_empty_slot(slots) <= slots.len(),
        first_empty_slot(slots) < slots.len() ==> slots[first_empty_slot(slots)].public_key
            == empty_key(),
        forall|j: int| 0 <= j < first_empty_slot(slots) ==> slots[j].public_key != empty_key(),
    decreases slots.len(),
{
    if slots.len() > 0 && slots[0].public_key != empty_key() {
        let rest = slots.drop_first();
        lemma_first_empty_slot_is_empty(rest);
        assert forall|j: int| 0 <= j < first_empty_slot(slots) implies slots[j].public_key
            != empty_key() by {
            if j > 0 {
                assert(rest[j - 1] == slots[j]);
            }
        }
    }
}

/// The occupied custodians of slots are those of the slots before an index
/// followed by those from the index on.
proof fn lemma_occupied_custodians_split(slots: Seq<CustodianView>, index: int)
    requires
        0 <= index <= slots.len(),
    ensures
        occupied_custodians(slots) == occupied_custodians(slots.take(index)) + occupied_custodians(
            slots.skip(index),
        ),
{
    assert(slots =~= slots.take(index) + slots.skip(index));
    Seq::filter_distributes_over_add(
        slots.take(index),
        slots.skip(index),
        |custodian: CustodianView| custodian.public_key != empty_key(),
    );
}

/// Filling the first empty slot puts the custodian between the occupied
/// custodians before the slot and those after it.
proof fn lemma_occupied_after_update(slots: Seq<CustodianView>, custodian: CustodianView)
    requires
        first_empty_slot(slots) < slots.len(),
        custodian.public_key != empty_key(),
    ensures
        ({
            let slot = first_empty_slot(slots);
            let before = occupied_custodians(slots.take(slot));
            let after = occupied_custodians(slots.skip(slot + 1));
            &&& occupied_custodians(slots) == before + after
            &&& occupied_custodians(slots.update(slot, custodian)) == before.push(custodian)
                + after
        }),
{
    let slot = first_empty_slot(slots);
    lemma_first_empty_slot_is_empty(slots);
    let updated = slots.update(slot, custodian);
    lemma_occupied_custodians_split(slots, slot + 1);
    lemma_occupied_custodians_split(updated, slot + 1);
    assert(slots.take(slot + 1) =~= slots.take(slot).push(slots[slot]));
    assert(updated.take(slot + 1) =~= slots.take(slot).push(custodian));
    assert(updated.skip(slot + 1) =~= slots.skip(slot + 1));
    lemma_occupied_custodians_push(slots.take(slot), slots[slot]);
    lemma_occupied_custodians_push(slots.take(slot), custodian);
}

impl OnChainWallet {
    /// A wallet with five empty custodian slots, a threshold of zero, the
    /// limit of a third and no request.
    pub fn new() -> (wallet: Self)
        ensures
            wallet@ == OnChainWalletView::initial(),
    {
        let wallet = OnChainWallet {
            custodians: [Custodian::default(); 5],
            signers: 0,
            checking: [0u8; 32],
            limit: TokenLimit::default(),
            request: TransferRequest::default(),
        };
        proof {
            assert(wallet@.custodians =~= OnChainWalletView::initial().custodians);
            assert(wallet@.checking =~= OnChainWalletView::initial().checking);
        }
        wallet
    }

    /// Registers a custodian in the first empty slot. No slot is reclaimed
    /// and no key is checked against those already registered.
    pub fn add_custodian(&mut self, custodian: Custodian) -> (added: WalletResult<&mut Self>)
        ensures
            match added {
                Ok(wallet) => {
                    &&& old(self)@.has_empty_slot()
                    &&& wallet@ == old(self)@.with_custodian(custodian@)
                    &&& *final(self) == *final(wallet)
                },
                Err(error) => {
                    &&& !old(self)@.has_empty_slot()
                    &&& error == WalletError::CustodianStoreFull
                    &&& *final(self) == *old(self)
                },
            },
    {
        let mut index: usize = 0;
        while index < 5
            invariant
                index <= 5,
                *self == *old(self),
                forall|j: int| 0 <= j < index ==> self@.custodians[j].public_key != empty_key(),
            decreases 5 - index,
        {
            let key = self.custodians[index].public_key();
            if key_is_empty(&key) {
                proof {
                    lemma_first_empty_slot(self@.custodians, index as int);
                }
                self.custodians[index] = custodian;
                assert(self@.custodians =~= old(self)@.custodians.update(
                    index as int,
                    custodian@,
                ));
                return Ok(self);
            }
            index += 1;
        }
        proof {
            lemma_first_empty_slot(self@.custodians, 5);
        }
        Err(WalletError::CustodianStoreFull)
    }

    /// Sets the signer threshold, provided that the registered custodians
    /// outnumber the threshold in force; the new threshold itself is not
    /// held against their number.
    pub fn add_custodian_signers(&mut self, threshold: u8) -> (changed: WalletResult<&mut Self>)
        ensures
            match changed {
                Ok(wallet) => {
                    &&& old(self)@.admits_threshold_change()
                    &&& wallet@ == old(self)@.with_signers(threshold)
                    &&& *final(self) == *final(wallet)
                },
                Err(error) => {
                    &&& !old(self)@.admits_threshold_change()
                    &&& error == WalletError::NotEnoughCustodiansForSignerIncrease
                    &&& *final(self) == *old(self)
                },
            },
    {
        let valid_keys = self.valid_keys();
        if valid_keys.len() <= self.signers as usize {
            Err(WalletError::NotEnoughCustodiansForSignerIncrease)
        } else {
            self.signers = threshold;
            Ok(self)
        }
    }

    /// The registered custodians, in slot order.
    pub fn valid_keys(&self) -> (valid_keys: Vec<Custodian>)
        ensures
            custodian_views(valid_keys@) == self@.valid_custodians(),
    {
        let mut valid_keys = Vec::<Custodian>::new();
        let mut index: usize = 0;
        while index < 5
            invariant
                index <= 5,
                custodian_views(valid_keys@) == occupied_custodians(
                    self@.custodians.take(index as int),
                ),
            decreases 5 - index,
        {
            let custodian = self.custodians[index];
            let key = custodian.public_key();
            proof {
                lemma_occupied_custodians_push(
                    self@.custodians.take(index as int),
                    custodian@,
                );
                assert(self@.custodians.take(index as int).push(custodian@)
                    =~= self@.custodians.take(index + 1));
            }
            if !key_is_empty(&key) {
                valid_keys.push(custodian);
            }
            index += 1;
        }
        assert(self@.custodians.take(5) =~= self@.custodians);
        valid_keys
    }

    /// Replaces the amount of the request. Whom to credit and the approvals
    /// of an earlier request stay in place.
    pub fn new_request(&mut self, amount: u64) -> (wallet: &mut Self)
        ensures
            wallet@ == old(self)@.with_request_amount(amount),
            *final(self) == *final(wallet),
    {
        self.request.amount = amount;
        self
    }

    /// Records the approval of the pending request by a custodian.
    ///
    /// The approval is refused when `amount` is not the pending amount,
    /// when the key is not that of a registered custodian, and when all
    /// three approver slots are taken, in that order; the wallet is then
    /// unchanged. Otherwise the key is recorded after the earlier
    /// approvers, whether or not it approved before, and the request is
    /// approved once the recorded approvals reach the signer threshold.
    pub fn approve_request(&mut self, amount: u64, custodian_public_key: [u8; 32]) -> (outcome:
        WalletResult<TransferOutcome>)
        ensures
            outcome == old(self)@.approval(amount, custodian_public_key@),
            outcome is Ok ==> final(self)@ == old(self)@.with_approval(custodian_public_key@),
            outcome is Err ==> *final(self) == *old(self),
    {
        if self.request.amount != amount {
            return Err(WalletError::RequestedAmountMismatch);
        }
        let valid_keys = self.valid_keys();
        if !Self::holds_key(&valid_keys, &custodian_public_key) {
            return Err(WalletError::PublicKeyIsNotACustodian);
        }
        let mut approved_by = self.parse_approved_by();
        if approved_by.len() >= 3 {
            return Err(WalletError::ApproverStoreFull);
        }
        let ghost earlier = approved_by@;
        approved_by.push(custodian_public_key);
        assert(key_views(approved_by@) =~= key_views(earlier).push(custodian_public_key@));
        let approved = approved_by.len() >= self.signers as usize;
        self.request.approved_by = Self::approver_array(&approved_by);
        if approved {
            Ok(TransferOutcome::Approved)
        } else {
            Ok(TransferOutcome::Pending)
        }
    }

    /// Tells whether one of `custodians` has the key `key`.
    fn holds_key(custodians: &Vec<Custodian>, key: &PublicKey) -> (found: bool)
        ensures
            found == exists|i: int|
                0 <= i < custodians@.len() && #[trigger] custodian_views(custodians@)[i].public_key
                    == key@,
    {
        let mut index: usize = 0;
        while index < custodians.len()
            invariant
                index <= custodians@.len(),
                forall|j: int|
                    0 <= j < index ==> #[trigger] custodian_views(custodians@)[j].public_key
                        != key@,
            decreases custodians@.len() - index,
        {
            let candidate = custodians[index].public_key();
            if keys_equal(&candidate, key) {
                assert(custodian_views(custodians@)[index as int].public_key == key@);
                return true;
            }
            index += 1;
        }
        false
    }

    /// The approver slots that hold the given keys, followed by empty keys.
    fn approver_array(approvers: &Vec<PublicKey>) -> (slots: [[u8; 32]; 3])
        requires
            approvers@.len() <= APPROVER_SLOTS,
        ensures
            key_views(slots@) == approver_slots(key_views(approvers@)),
    {
        let mut slots = [[0u8; 32]; 3];
        let mut index: usize = 0;
        while index < approvers.len()
            invariant
                index <= approvers@.len() <= 3,
                forall|j: int| 0 <= j < index ==> (#[trigger] slots@[j])@ == approvers@[j]@,
                forall|j: int| index <= j < 3 ==> (#[trigger] slots@[j])@ == empty_key(),
            decreases approvers@.len() - index,
        {
            slots[index] = approvers[index];
            index += 1;
        }
        slots
    }

    /// Clears the request: no amount, nobody to credit, no approver.
    pub fn drop_request(&mut self) -> (wallet: &mut Self)
        ensures
            wallet@ == old(self)@.with_request_dropped(),
            *final(self) == *final(wallet),
    {
        self.request = TransferRequest::default();
        self
    }

    /// The keys that approved the pending request, in slot order.
    pub fn parse_approved_by(&self) -> (approvers: Vec<[u8; 32]>)
        ensures
            key_views(approvers@) == self@.approvers(),
    {
        let mut valid_custodians = Vec::<[u8; 32]>::new();
        let mut index: usize = 0;
        while index < 3
            invariant
                index <= 3,
                key_views(valid_custodians@) == occupied_keys(
                    self@.request.approved_by.take(index as int),
                ),
            decreases 3 - index,
        {
            let custodian_pk = self.request.approved_by[index];
            proof {
                lemma_occupied_keys_push(
                    self@.request.approved_by.take(index as int),
                    custodian_pk@,
                );
                assert(self@.request.approved_by.take(index as int).push(custodian_pk@)
                    =~= self@.request.approved_by.take(index + 1));
            }
            if !key_is_empty(&custodian_pk) {
                valid_custodians.push(custodian_pk);
            }
            index += 1;
        }
        assert(self@.request.approved_by.take(3) =~= self@.request.approved_by);
        valid_custodians
    }

    /// Sets the withdrawal limit.
    pub fn change_limit(&mut self, new_limit: TokenLimit) -> (wallet: &mut Self)
        ensures
            wallet@ == old(self)@.with_limit(new_limit),
            *final(self) == *final(wallet),
    {
        self.limit = new_limit;
        self
    }

    /// Packs the wallet into the 450 bytes of its record.
    pub fn pack(&self) -> (packed: [u8; PACKED_WALLET])
        ensures
            packed@ == self@.packed(),
    {
        let mut packed = [0u8; PACKED_WALLET];
        let mut slot: usize = 0;
        while slot < 5
            invariant
                slot <= 5,
                forall|j: int|
                    0 <= j < slot ==> #[trigger] packed@.subrange(56 * j, 56 * j + 56)
                        == self@.custodians[j].packed(),
            decreases 5 - slot,
        {
            let ghost before = packed@;
            write_bytes(&mut packed, 56 * slot, &self.custodians[slot].pack());
            assert forall|j: int| 0 <= j < slot + 1 implies #[trigger] packed@.subrange(
                56 * j,
                56 * j + 56,
            ) == self@.custodians[j].packed() by {
                if j < slot {
                    assert(packed@.subrange(56 * j, 56 * j + 56) =~= before.subrange(
                        56 * j,
                        56 * j + 56,
                    ));
                }
            }
            slot += 1;
        }
        proof {
            assert(packed@.subrange(56 * 0int, 56 * 0int + 56) == self@.custodians[0].packed());
            assert(packed@.subrange(56 * 1int, 56 * 1int + 56) == self@.custodians[1].packed());
            assert(packed@.subrange(56 * 2int, 56 * 2int + 56) == self@.custodians[2].packed());
            assert(packed@.subrange(56 * 3int, 56 * 3int + 56) == self@.custodians[3].packed());
            assert(packed@.subrange(56 * 4int, 56 * 4int + 56) == self@.custodians[4].packed());
        }
        packed[SIGNERS_OFFSET] = self.signers;
        write_bytes(&mut packed, CHECKING_OFFSET, &self.checking);
        packed[LIMIT_OFFSET] = self.limit.pack();
        write_bytes(&mut packed, REQUEST_OFFSET, &self.request.pack());
        packed
    }

    /// Reads a wallet from its record. A record whose byte for the limit is
    /// no wire code is refused; every other byte is taken as it is.
    pub fn unpack(packed_data: [u8; 450]) -> (wallet: WalletResult<OnChainWallet>)
        ensures
            match OnChainWalletView::unpacked(packed_data@) {
                Some(view) => wallet matches Ok(unpacked) && unpacked@ == view,
                None => wallet == Err::<OnChainWallet, WalletError>(
                    WalletError::TokenLimitNotApplicable,
                ),
            },
    {
        let limit = match TokenLimit::unpack(packed_data[LIMIT_OFFSET]) {
            Ok(limit) => limit,
            Err(error) => {
                return Err(error);
            },
        };
        let mut custodians = [Custodian::default(); 5];
        let mut slot: usize = 0;
        while slot < 5
            invariant
                slot <= 5,
                forall|j: int|
                    0 <= j < slot ==> (#[trigger] custodians@[j])@ == CustodianView::unpacked(
                        packed_data@.subrange(56 * j, 56 * j + 56),
                    ),
            decreases 5 - slot,
        {
            custodians[slot] = Custodian::unpack(read_bytes(&packed_data, 56 * slot));
            slot += 1;
        }
        let wallet = OnChainWallet {
            custodians,
            signers: packed_data[SIGNERS_OFFSET],
            checking: read_bytes(&packed_data, CHECKING_OFFSET),
            limit,
            request: TransferRequest::unpack(read_bytes(&packed_data, REQUEST_OFFSET)),
        };
        proof {
            let view = OnChainWalletView::unpacked(packed_data@).unwrap();
            assert(wallet@.custodians =~= view.custodians);
        }
        Ok(wallet)
    }

    /// The five custodian slots.
    pub fn custodians(&self) -> (custodians: [Custodian; 5])
        ensures
            custodian_views(custodians@) == self@.custodians,
    {
        self.custodians
    }

    /// The number of approvals that a transfer needs.
    pub fn signers(&self) -> (signers: u8)
        ensures
            signers == self@.signers,
    {
        self.signers
    }

    /// The withdrawal limit.
    pub fn limit(&self) -> (limit: TokenLimit)
        ensures
            limit == self@.limit,
    {
        self.limit
    }

    /// The reserved bytes.
    pub fn checking(&self) -> (checking: [u8; 32])
        ensures
            checking@ == self@.checking,
    {
        self.checking
    }

    /// The transfer request.
    pub fn request(&self) -> (request: TransferRequest)
        ensures
            request@ == self@.request,
    {
        self.request
    }
}

impl Default for OnChainWallet {
    fn default() -> (wallet: Self)
        ensures
            wallet@ == OnChainWalletView::initial(),
    {
        OnChainWallet::new()
    }
}

/// Every wallet holds five custodians, thirty-two reserved bytes and a
/// request with three approver slots.
pub proof fn lemma_wallet_is_well_formed(wallet: OnChainWallet)
    ensures
        wallet@.well_formed(),
{
    assert forall|i: int| 0 <= i < wallet@.custodians.len() implies wallet@.custodians[i]
        .well_formed() by {
        lemma_view_determines_custodian(wallet.custodians@[i], wallet.custodians@[i]);
    }
}

/// Unpacking the packed form of a request gives the request back.
pub proof fn lemma_request_unpack_pack(request: TransferRequestView)
    requires
        request.well_formed(),
    ensures
        request.packed().len() == PACKED_REQUEST,
        TransferRequestView::unpacked(request.packed()) == request,
{
    lemma_pow256_widths();
    lemma_le_value_of_le_bytes(request.amount as nat, 8);
    let bytes = request.packed();
    let unpacked = TransferRequestView::unpacked(bytes);
    assert(bytes.subrange(0, 32) =~= request.credit_to);
    assert(bytes.subrange(32, 40) =~= le_bytes(request.amount as nat, 8));
    assert(bytes.subrange(40, 72) =~= request.approved_by[0]);
    assert(bytes.subrange(72, 104) =~= request.approved_by[1]);
    assert(bytes.subrange(104, 136) =~= request.approved_by[2]);
    assert(unpacked.approved_by =~= request.approved_by);
}

/// Packing what 136 bytes unpack to gives the bytes back.
pub proof fn lemma_request_pack_unpack(bytes: Seq<u8>)
    requires
        bytes.len() == PACKED_REQUEST,
    ensures
        TransferRequestView::unpacked(bytes).well_formed(),
        TransferRequestView::unpacked(bytes).packed() == bytes,
{
    lemma_pow256_widths();
    lemma_le_bytes_of_le_value(bytes.subrange(32, 40));
}

/// Unpacking the record of a wallet gives the wallet back.
pub proof fn lemma_wallet_unpack_pack(wallet: OnChainWalletView)
    requires
        wallet.well_formed(),
    ensures
        wallet.packed().len() == PACKED_WALLET,
        OnChainWalletView::unpacked(wallet.packed()) == Some(wallet),
{
    let bytes = wallet.packed();
    lemma_request_unpack_pack(wallet.request);
    let unpacked = OnChainWalletView::unpacked(bytes).unwrap();
    assert(unpacked.checking =~= wallet.checking);
    assert(bytes.subrange(REQUEST_OFFSET as int, PACKED_WALLET as int)
        =~= wallet.request.packed());
    assert forall|i: int| 0 <= i < 5 implies unpacked.custodians[i] == wallet.custodians[i] by {
        assert(bytes.subrange(56 * i, 56 * i + 56) =~= wallet.custodians[i].packed());
        lemma_view_unpack_pack(wallet.custodians[i]);
    }
    assert(unpacked.custodians =~= wallet.custodians);
}

/// A record that unpacks is the packed form of the wallet it unpacks to.
pub proof fn lemma_wallet_pack_unpack(bytes: Seq<u8>)
    requires
        bytes.len() == PACKED_WALLET,
    ensures
        OnChainWalletView::unpacked(bytes) matches Some(wallet) ==> wallet.well_formed()
            && wallet.packed() == bytes,
{
    if let Some(wallet) = OnChainWalletView::unpacked(bytes) {
        lemma_request_pack_unpack(bytes.subrange(REQUEST_OFFSET as int, PACKED_WALLET as int));
    }
}

} // verus!
