//! The commands that a host may address to a wallet. The wallet works on
//! the payloads only; reading and routing a command is the host's part.

use crate::common::PublicKey;
use crate::custodian::Custodian;
use crate::token_limits::TokenLimit;
use vstd::prelude::*;

verus! {

/// A command to a wallet, with its payload.
#[derive(Debug, Clone, Copy, PartialEq, Eq, PartialOrd, Ord)]
pub enum WalletInstruction {
    RaiseLimit(TokenLimit),
    IncreaseCustodianLimit(u8),
    DecreaseCustodianLimit(u8),
    IncreaseArbitratorLimit(u8),
    DecreaseArbitratorLimit(u8),
    AddCustodian(Custodian),
    RemoveCustodian([u8; 32]),
    RequestTransfer { public_key: PublicKey, token: u64 },
    Transfer { public_key: PublicKey, token: u64 },
    ApproveTransfer { public_key: PublicKey, token: u64 },
}

} // verus!
