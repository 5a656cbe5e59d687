use custodial_wallet::{Custodian, TokenLimit, WalletError, WalletInstruction, WalletResult};

#[test]
fn instructions_carry_their_payloads() {
    let custodian = Custodian::new([4u8; 32]);
    match WalletInstruction::AddCustodian(custodian) {
        WalletInstruction::AddCustodian(carried) => assert_eq!(carried, custodian),
        other => panic!("unexpected instruction {:?}", other),
    }
    match (WalletInstruction::ApproveTransfer { public_key: [9u8; 32], token: 77 }) {
        WalletInstruction::ApproveTransfer { public_key, token } => {
            assert_eq!(public_key, [9u8; 32]);
            assert_eq!(token, 77);
        }
        other => panic!("unexpected instruction {:?}", other),
    }
    assert_eq!(
        WalletInstruction::RaiseLimit(TokenLimit::Half),
        WalletInstruction::RaiseLimit(TokenLimit::Half)
    );
    assert_ne!(
        WalletInstruction::IncreaseCustodianLimit(1),
        WalletInstruction::DecreaseCustodianLimit(1)
    );
    assert_ne!(
        WalletInstruction::RequestTransfer { public_key: [0u8; 32], token: 1 },
        WalletInstruction::Transfer { public_key: [0u8; 32], token: 1 }
    );
    assert_ne!(
        WalletInstruction::RemoveCustodian([1u8; 32]),
        WalletInstruction::RemoveCustodian([2u8; 32])
    );
    assert_ne!(
        WalletInstruction::IncreaseArbitratorLimit(3),
        WalletInstruction::DecreaseArbitratorLimit(3)
    );
}

#[test]
fn a_store_failure_carries_its_description() {
    let failed: WalletResult<u8> = Err(WalletError::Store(String::from("page out of range")));
    match failed {
        Err(WalletError::Store(description)) => assert_eq!(description, "page out of range"),
        other => panic!("unexpected result {:?}", other),
    }
    assert_ne!(
        WalletError::Store(String::from("a")),
        WalletError::Store(String::from("b"))
    );
    assert_ne!(WalletError::Store(String::new()), WalletError::CustodianStoreFull);
}
