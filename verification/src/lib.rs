//! Library side of the ckLightning client: invoice records exchanged with the
//! ckLightning canister, their conversion to and from BOLT11 invoices, and the
//! decisions of the command-line client.
#![allow(unused_imports)]

pub mod bolt11;
pub mod candid_invoice;
pub mod codec;
pub mod command;
pub mod command_lines;
pub mod handler;
pub mod ic_params;
pub mod invoice;
pub mod natural;
pub mod text;

pub use bolt11::Bolt11Invoice;
pub use candid_invoice::{
    bolt11_to_candid, candid_to_bolt11, CandidConversionError, ConversionResult,
};
pub use invoice::{CandidInvoice, LnInvoiceRequest, SignedCandidInvoice};
pub use natural::Nat;
pub use ic_params::{
    BTC_LEDGER_DEFAULT_FEE, BTC_LEDGER_ID, BTC_MINTER_ID, CKLIGHTNING_LEDGER_ID, DEVNET_BASIC_BITCOIN,
    ICP_DDOS_FEE_E8S, ICP_LEDGER_ID, ICP_TRANSFER_FEE_E8S, LEDGER_ID, PEM_MINTING_ACC_PATH,
    PEM_NODE_ACC_PATH, PEM_USER_ACC_PATH,
};
