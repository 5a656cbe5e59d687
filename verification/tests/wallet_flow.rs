use custodial_wallet::{
    Custodian, OnChainWallet, TokenLimit, TransferOutcome, WalletError,
};

const EMPTY: [u8; 32] = [0u8; 32];

fn key(byte: u8) -> [u8; 32] {
    [byte; 32]
}

fn wallet_with(keys: &[u8]) -> OnChainWallet {
    let mut wallet = OnChainWallet::new();
    for byte in keys {
        wallet.add_custodian(Custodian::new(key(*byte))).unwrap();
    }
    wallet
}

#[test]
fn a_new_wallet_is_empty() {
    let wallet = OnChainWallet::new();
    assert_eq!(wallet.custodians(), [Custodian::default(); 5]);
    assert_eq!(wallet.signers(), 0);
    assert_eq!(wallet.checking(), [0u8; 32]);
    assert_eq!(wallet.limit(), TokenLimit::Third);
    assert_eq!(wallet.request().amount(), 0);
    assert_eq!(wallet.request().credit_to(), EMPTY);
    assert_eq!(wallet.request().approved_by(), [EMPTY; 3]);
    assert!(wallet.valid_keys().is_empty());
    assert!(wallet.parse_approved_by().is_empty());
    assert_eq!(OnChainWallet::default(), wallet);
}

#[test]
fn sixth_custodian_is_refused() {
    let mut wallet = OnChainWallet::new();
    for byte in 1..=5u8 {
        assert!(wallet.add_custodian(Custodian::new(key(byte))).is_ok());
    }
    let full = wallet;
    let refused = wallet.add_custodian(Custodian::new(key(6)));
    assert!(matches!(refused, Err(WalletError::CustodianStoreFull)));
    assert_eq!(wallet, full);
    let slots = wallet.custodians();
    for (index, slot) in slots.iter().enumerate() {
        assert_eq!(slot.public_key(), key(index as u8 + 1));
    }
    assert_eq!(wallet.valid_keys().len(), 5);
}

#[test]
fn custodians_take_the_first_empty_slot() {
    let mut wallet = OnChainWallet::new();
    let mut first = Custodian::new(key(1));
    first.add_cluster_timestamp(1_600_000_000);
    wallet.add_custodian(first).unwrap();
    wallet
        .add_custodian(Custodian::new(key(2)))
        .unwrap()
        .add_custodian(Custodian::new(key(3)))
        .unwrap();
    let slots = wallet.custodians();
    assert_eq!(slots[0], first);
    assert_eq!(slots[1], Custodian::new(key(2)));
    assert_eq!(slots[2], Custodian::new(key(3)));
    assert_eq!(slots[3], Custodian::default());
    assert_eq!(slots[4], Custodian::default());
    assert_eq!(wallet.valid_keys(), vec![first, Custodian::new(key(2)), Custodian::new(key(3))]);
}

#[test]
fn the_same_key_may_be_registered_twice() {
    let wallet = wallet_with(&[7, 7]);
    assert_eq!(wallet.valid_keys().len(), 2);
    assert_eq!(wallet.custodians()[1].public_key(), key(7));
}

#[test]
fn a_custodian_with_the_empty_key_leaves_its_slot_empty() {
    let mut wallet = OnChainWallet::new();
    let mut ghost = Custodian::new(EMPTY);
    ghost.add_cluster_timestamp(99);
    wallet.add_custodian(ghost).unwrap();
    assert_eq!(wallet.custodians()[0], ghost);
    assert!(wallet.valid_keys().is_empty());
    wallet.add_custodian(Custodian::new(key(1))).unwrap();
    assert_eq!(wallet.custodians()[0], Custodian::new(key(1)));
    assert_eq!(wallet.custodians()[1], Custodian::default());
}

#[test]
fn threshold_is_set_when_custodians_outnumber_the_current_one() {
    let mut wallet = wallet_with(&[1]);
    assert!(wallet.add_custodian_signers(1).is_ok());
    assert_eq!(wallet.signers(), 1);
}

#[test]
fn threshold_is_refused_when_custodians_do_not_outnumber_the_current_one() {
    let mut wallet = wallet_with(&[1, 2]);
    wallet.add_custodian_signers(2).unwrap();
    let before = wallet;
    let refused = wallet.add_custodian_signers(3);
    assert!(matches!(refused, Err(WalletError::NotEnoughCustodiansForSignerIncrease)));
    assert_eq!(wallet, before);
    assert_eq!(wallet.signers(), 2);
}

#[test]
fn threshold_of_an_empty_wallet_cannot_be_set() {
    let mut wallet = OnChainWallet::new();
    assert_eq!(
        wallet.add_custodian_signers(0).err(),
        Some(WalletError::NotEnoughCustodiansForSignerIncrease)
    );
}

#[test]
fn the_requested_threshold_is_not_held_against_the_custodians() {
    let mut wallet = wallet_with(&[1]);
    wallet.add_custodian_signers(255).unwrap();
    assert_eq!(wallet.signers(), 255);
    assert_eq!(
        wallet.add_custodian_signers(1).err(),
        Some(WalletError::NotEnoughCustodiansForSignerIncrease)
    );
    assert_eq!(wallet.signers(), 255);
}

#[test]
fn approval_flow_with_two_signers() {
    let mut wallet = OnChainWallet::new();
    let a = key(0xA1);
    let b = key(0xB2);
    wallet.add_custodian(Custodian::new(a)).unwrap();
    wallet.add_custodian(Custodian::new(b)).unwrap();
    wallet.add_custodian_signers(2).unwrap();
    assert_eq!(wallet.signers(), 2);
    wallet.new_request(100);
    assert_eq!(wallet.approve_request(100, a), Ok(TransferOutcome::Pending));
    assert_eq!(wallet.request().approved_by(), [a, EMPTY, EMPTY]);
    assert_eq!(wallet.approve_request(100, b), Ok(TransferOutcome::Approved));
    assert_eq!(wallet.request().approved_by(), [a, b, EMPTY]);
    let before = wallet;
    assert_eq!(wallet.approve_request(999, a), Err(WalletError::RequestedAmountMismatch));
    assert_eq!(
        wallet.approve_request(100, key(0xCC)),
        Err(WalletError::PublicKeyIsNotACustodian)
    );
    assert_eq!(wallet, before);
    assert_eq!(wallet.parse_approved_by(), vec![a, b]);
}

#[test]
fn amount_is_checked_before_the_key() {
    let mut wallet = wallet_with(&[1]);
    wallet.new_request(5);
    assert_eq!(wallet.approve_request(6, key(9)), Err(WalletError::RequestedAmountMismatch));
    assert_eq!(wallet.approve_request(5, key(9)), Err(WalletError::PublicKeyIsNotACustodian));
}

#[test]
fn the_empty_key_is_no_custodian() {
    let mut wallet = wallet_with(&[1]);
    assert_eq!(wallet.approve_request(0, EMPTY), Err(WalletError::PublicKeyIsNotACustodian));
    let mut empty = OnChainWallet::new();
    assert_eq!(empty.approve_request(0, EMPTY), Err(WalletError::PublicKeyIsNotACustodian));
}

#[test]
fn a_threshold_of_zero_is_met_by_the_first_approval() {
    let mut wallet = wallet_with(&[1]);
    wallet.new_request(1);
    assert_eq!(wallet.approve_request(1, key(1)), Ok(TransferOutcome::Approved));
}

#[test]
fn a_key_may_approve_twice() {
    let mut wallet = wallet_with(&[1, 2]);
    wallet.add_custodian_signers(2).unwrap();
    wallet.new_request(10);
    assert_eq!(wallet.approve_request(10, key(1)), Ok(TransferOutcome::Pending));
    assert_eq!(wallet.approve_request(10, key(1)), Ok(TransferOutcome::Approved));
    assert_eq!(wallet.request().approved_by(), [key(1), key(1), EMPTY]);
}

#[test]
fn a_fourth_approval_is_refused() {
    let mut wallet = wallet_with(&[1, 2, 3, 4, 5]);
    wallet.add_custodian_signers(4).unwrap();
    wallet.new_request(10);
    assert_eq!(wallet.approve_request(10, key(1)), Ok(TransferOutcome::Pending));
    assert_eq!(wallet.approve_request(10, key(2)), Ok(TransferOutcome::Pending));
    assert_eq!(wallet.approve_request(10, key(3)), Ok(TransferOutcome::Pending));
    let before = wallet;
    assert_eq!(wallet.approve_request(10, key(4)), Err(WalletError::ApproverStoreFull));
    assert_eq!(wallet, before);
    assert_eq!(wallet.request().approved_by(), [key(1), key(2), key(3)]);
    assert_eq!(wallet.approve_request(10, key(9)), Err(WalletError::PublicKeyIsNotACustodian));
    assert_eq!(wallet.approve_request(11, key(4)), Err(WalletError::RequestedAmountMismatch));
}

#[test]
fn a_new_request_keeps_the_earlier_approvals() {
    let mut wallet = wallet_with(&[1, 2]);
    wallet.add_custodian_signers(2).unwrap();
    wallet.new_request(10);
    wallet.approve_request(10, key(1)).unwrap();
    wallet.new_request(20);
    assert_eq!(wallet.request().amount(), 20);
    assert_eq!(wallet.request().approved_by(), [key(1), EMPTY, EMPTY]);
    assert_eq!(wallet.approve_request(20, key(2)), Ok(TransferOutcome::Approved));
}

#[test]
fn drop_request_clears_amount_and_approvers() {
    let mut wallet = wallet_with(&[1, 2]);
    wallet.new_request(10);
    wallet.approve_request(10, key(1)).unwrap();
    wallet.approve_request(10, key(2)).unwrap();
    wallet.drop_request();
    assert_eq!(wallet.request().amount(), 0);
    assert_eq!(wallet.request().credit_to(), EMPTY);
    assert_eq!(wallet.request().approved_by(), [EMPTY; 3]);
    assert!(wallet.parse_approved_by().is_empty());
    assert_eq!(wallet.valid_keys().len(), 2);
}

#[test]
fn dropping_twice_is_dropping_once() {
    let mut wallet = wallet_with(&[1]);
    wallet.add_custodian_signers(1).unwrap();
    wallet.change_limit(TokenLimit::Half);
    wallet.new_request(10);
    wallet.approve_request(10, key(1)).unwrap();
    wallet.drop_request();
    let once = wallet;
    wallet.drop_request();
    assert_eq!(wallet, once);
    wallet.drop_request().drop_request();
    assert_eq!(wallet, once);
    assert_eq!(wallet.signers(), 1);
    assert_eq!(wallet.limit(), TokenLimit::Half);
}

#[test]
fn change_limit_sets_the_limit_only() {
    let mut wallet = wallet_with(&[1]);
    wallet.new_request(3);
    let before = wallet;
    wallet.change_limit(TokenLimit::All);
    assert_eq!(wallet.limit(), TokenLimit::All);
    wallet.change_limit(TokenLimit::Third);
    assert_eq!(wallet, before);
}

#[test]
fn the_default_outcome_is_pending() {
    assert_eq!(TransferOutcome::default(), TransferOutcome::Pending);
}
