//! State and transition rules of a custodial, threshold-signed wallet,
//! together with its canonical byte encodings.
//!
//! - [`wallet`]: the wallet record, its transitions and its packed form;
//! - [`custodian`]: one registered signer and its packed form;
//! - [`token_limits`]: the withdrawal limits and their wire codes;
//! - [`common`]: keys, and the decoding of one timestamp for display;
//! - [`tai`]: TAI64N timestamps as plain values;
//! - [`bytes`]: numbers as bytes, and the copying of byte fields;
//! - [`instructions`]: the commands that a host addresses to a wallet;
//! - [`errors`]: why an operation is refused.

pub mod bytes;
pub mod common;
pub mod custodian;
pub mod errors;
pub mod instructions;
pub mod tai;
pub mod token_limits;
pub mod wallet;

pub use common::{
    conversion_failure, empty_key, key_is_empty, keys_equal, PublicKey, Tai64NTimestamp,
    TaiTimeUtilities, TaiTimeUtilitiesView,
};
pub use custodian::{
    base58_text, Custodian, CustodianView, CLUSTER_TIMESTAMP_OFFSET, PACKED_CUSTODIAN,
    PUBLIC_KEY_OFFSET, TIMESTAMP_OFFSET,
};
pub use errors::{WalletError, WalletResult};
pub use instructions::WalletInstruction;
pub use tai::TaiTimestamp;
pub use token_limits::TokenLimit;
pub use wallet::{
    approver_slots, custodian_views, first_empty_slot, key_views, occupied_custodians,
    occupied_keys, OnChainWallet, OnChainWalletView, TransferOutcome, TransferRequest,
    TransferRequestView, APPROVER_SLOTS, CHECKING_OFFSET, CUSTODIAN_SLOTS, LIMIT_OFFSET,
    PACKED_REQUEST, PACKED_WALLET, REQUEST_OFFSET, SIGNERS_OFFSET,
};
