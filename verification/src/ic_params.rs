//! Canister ids, identity files and fees of the deployment the client talks to.
use vstd::prelude::*;

verus! {

pub const PEM_MINTING_ACC_PATH: &'static str = ".config/dfx/identity/staging-deployer/identity.pem";

pub const PEM_NODE_ACC_PATH: &'static str = ".config/dfx/identity/staging-deployer/identity.pem";

pub const PEM_USER_ACC_PATH: &'static str = ".config/dfx/identity/staging-user/identity.pem";

pub const LEDGER_ID: &'static str = "mc6ru-gyaaa-aaaar-qaaaq-cai";

pub const BTC_LEDGER_ID: &'static str = "mc6ru-gyaaa-aaaar-qaaaq-cai";

pub const ICP_LEDGER_ID: &'static str = "ryjl3-tyaaa-aaaaa-aaaba-cai";

pub const CKLIGHTNING_LEDGER_ID: &'static str = "5iwit-tiaaa-aaaau-aelaa-cai";

pub const BTC_MINTER_ID: &'static str = "ml52i-qqaaa-aaaar-qaaba-cai";

pub const DEVNET_BASIC_BITCOIN: &'static str = "g4xu7-jiaaa-aaaan-aaaaq-cai";

pub const BTC_LEDGER_DEFAULT_FEE: u64 = 1000;

/// 1 ICP in e8s.
pub const ICP_DDOS_FEE_E8S: u64 = 100_000_000;

/// 0.0001 ICP in e8s.
pub const ICP_TRANSFER_FEE_E8S: u64 = 10_000;

} // verus!
