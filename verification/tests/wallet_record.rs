use custodial_wallet::{
    Custodian, OnChainWallet, TokenLimit, TransferRequest, WalletError, PACKED_REQUEST,
    PACKED_WALLET,
};

const EPOCH_BYTES: [u8; 12] = [0x40, 0, 0, 0, 0, 0, 0, 0x25, 0, 0, 0, 0];

fn busy_wallet() -> OnChainWallet {
    let mut wallet = OnChainWallet::new();
    for byte in [0x11u8, 0x22, 0x33] {
        let mut custodian = Custodian::new([byte; 32]);
        custodian.add_cluster_timestamp(1_600_000_000 + byte as i64);
        wallet.add_custodian(custodian).unwrap();
    }
    wallet.add_custodian_signers(2).unwrap();
    wallet.change_limit(TokenLimit::TwoThirds);
    wallet.new_request(0x0102_0304_0506_0708);
    wallet.approve_request(0x0102_0304_0506_0708, [0x22; 32]).unwrap();
    wallet
}

fn ramp() -> [u8; 450] {
    let mut bytes = [0u8; 450];
    for (index, byte) in bytes.iter_mut().enumerate() {
        *byte = (index * 7 + 3) as u8;
    }
    bytes
}

#[test]
fn record_sizes() {
    assert_eq!(PACKED_REQUEST, 136);
    assert_eq!(PACKED_WALLET, 450);
}

#[test]
fn record_of_a_new_wallet() {
    let packed = OnChainWallet::new().pack();
    let mut expected = [0u8; 450];
    for slot in 0..5 {
        expected[56 * slot + 32..56 * slot + 44].copy_from_slice(&EPOCH_BYTES);
        expected[56 * slot + 44..56 * slot + 56].copy_from_slice(&EPOCH_BYTES);
    }
    assert_eq!(packed, expected);
}

#[test]
fn record_lays_out_the_fields_in_order() {
    let wallet = busy_wallet();
    let packed = wallet.pack();
    for (slot, custodian) in wallet.custodians().iter().enumerate() {
        assert_eq!(packed[56 * slot..56 * slot + 56], custodian.pack());
    }
    assert_eq!(packed[280], 2);
    assert_eq!(packed[281..313], [0u8; 32]);
    assert_eq!(packed[313], 3);
    assert_eq!(packed[314..346], [0u8; 32]);
    assert_eq!(packed[346..354], [8, 7, 6, 5, 4, 3, 2, 1]);
    assert_eq!(packed[354..386], [0x22; 32]);
    assert_eq!(packed[386..418], [0u8; 32]);
    assert_eq!(packed[418..450], [0u8; 32]);
    assert_eq!(packed[314..], wallet.request().pack());
}

#[test]
fn record_amount_agrees_with_borsh() {
    let wallet = busy_wallet();
    let request = wallet.request();
    let fields = (request.credit_to(), request.amount(), request.approved_by());
    assert_eq!(borsh::to_vec(&fields).unwrap(), request.pack().to_vec());
    let head = (wallet.signers(), wallet.checking(), wallet.limit().pack());
    assert_eq!(borsh::to_vec(&head).unwrap(), wallet.pack()[280..314].to_vec());
}

#[test]
fn wallet_unpack_inverts_pack() {
    let wallet = busy_wallet();
    assert_eq!(OnChainWallet::unpack(wallet.pack()), Ok(wallet));
    let empty = OnChainWallet::new();
    assert_eq!(OnChainWallet::unpack(empty.pack()), Ok(empty));
}

#[test]
fn wallet_pack_inverts_unpack() {
    let mut bytes = ramp();
    for code in 0..=4u8 {
        bytes[313] = code;
        let wallet = OnChainWallet::unpack(bytes).unwrap();
        assert_eq!(wallet.limit().pack(), code);
        assert_eq!(wallet.signers(), bytes[280]);
        assert_eq!(wallet.checking()[..], bytes[281..313]);
        assert_eq!(wallet.custodians()[4].pack()[..], bytes[224..280]);
        assert_eq!(wallet.pack(), bytes);
    }
}

#[test]
fn a_record_with_an_unknown_limit_is_refused() {
    let mut bytes = OnChainWallet::new().pack();
    bytes[313] = 5;
    assert_eq!(OnChainWallet::unpack(bytes), Err(WalletError::TokenLimitNotApplicable));
    bytes[313] = 0xFF;
    assert_eq!(OnChainWallet::unpack(bytes), Err(WalletError::TokenLimitNotApplicable));
}

#[test]
fn request_unpack_reads_the_fields() {
    let mut bytes = [0u8; 136];
    for (index, byte) in bytes.iter_mut().enumerate() {
        *byte = index as u8;
    }
    let request = TransferRequest::unpack(bytes);
    assert_eq!(request.credit_to()[..], bytes[..32]);
    assert_eq!(request.amount(), 0x2726_2524_2322_2120);
    assert_eq!(request.approved_by()[0][..], bytes[40..72]);
    assert_eq!(request.approved_by()[1][..], bytes[72..104]);
    assert_eq!(request.approved_by()[2][..], bytes[104..]);
    assert_eq!(request.pack(), bytes);
}

#[test]
fn the_default_request_is_all_zero() {
    let request = TransferRequest::default();
    assert_eq!(request.pack(), [0u8; 136]);
    assert_eq!(TransferRequest::unpack([0u8; 136]), request);
}
