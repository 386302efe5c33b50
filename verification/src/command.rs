//! The command language of the client's prompt: which command a line names,
//! with its arguments read, and which identity file a session uses.
use vstd::prelude::*;

use crate::codec::{hex_decode_spec, hex_to_bytes};
use crate::ic_params::{PEM_NODE_ACC_PATH, PEM_USER_ACC_PATH};
use crate::text::{
    parse_u64, parse_u64_spec, split_white_space, split_words, str_eq, string_views, trim,
    trim_white_space,
};

verus! {

/// The identity file of a session: the node and user identities have fixed
/// files, any other name is a dfx identity of that name.
pub open spec fn pem_path_spec(identity: Seq<char>) -> Seq<char> {
    if identity == "node"@ {
        PEM_NODE_ACC_PATH@
    } else if identity == "user"@ {
        PEM_USER_ACC_PATH@
    } else {
        ".config/dfx/identity/"@ + identity + "/identity.pem"@
    }
}

/// Only the names `node` and `user` have files of their own; the file of any
/// other name, `default` among them, is that dfx identity's `identity.pem`.
pub proof fn lemma_pem_path_of_other_names(identity: Seq<char>)
    ensures
        identity != "node"@ && identity != "user"@ ==> pem_path_spec(identity)
            == ".config/dfx/identity/"@ + identity + "/identity.pem"@,
        identity == "node"@ ==> pem_path_spec(identity) == PEM_NODE_ACC_PATH@,
        identity == "user"@ ==> pem_path_spec(identity) == PEM_USER_ACC_PATH@,
{
    reveal_strlit("node");
    reveal_strlit("user");
    assert("user"@[0] != "node"@[0]);
}

/// The identity file, relative to the home directory, for an identity name.
pub fn pem_path_for_identity(identity: &str) -> (r: String)
    ensures
        r@ == pem_path_spec(identity@),
        identity@ == "node"@ ==> r@ == PEM_NODE_ACC_PATH@,
        identity@ == "user"@ ==> r@ == PEM_USER_ACC_PATH@,
        identity@ != "node"@ && identity@ != "user"@ ==> r@ == ".config/dfx/identity/"@
            + identity@ + "/identity.pem"@,
{
    proof {
        lemma_pem_path_of_other_names(identity@);
    }
    if str_eq(identity, "node") {
        String::from_str(PEM_NODE_ACC_PATH)
    } else if str_eq(identity, "user") {
        String::from_str(PEM_USER_ACC_PATH)
    } else {
        let mut p = String::from_str(".config/dfx/identity/");
        p.append(identity);
        p.append("/identity.pem");
        p
    }
}

/// Commands that take no argument.
#[derive(Debug, Clone, Copy, PartialEq, Eq, Structural)]
pub enum Action {
    Status,
    FetchKey,
    LnAddress,
    LpBalance,
    LpTotal,
    LpBtcAddress,
    BtcAddress,
    BtcBalance,
    CkbtcBalance,
    IcpBalance,
    CheckExpiredSwaps,
    ExpiredCounts,
    RelayInfo,
    RateLimit,
    Whoami,
    PendingOnramps,
    PendingOfframps,
    Help,
    Exit,
}

/// The StableSwap parameters that an `update-config` line sets; `None`
/// leaves a parameter as it is.
#[derive(Debug, Clone, Copy, PartialEq, Eq, Structural)]
pub struct StableSwapConfigUpdate {
    pub amplification: Option<u64>,
    pub fee_bps: Option<u64>,
    pub protocol_fee_share_bps: Option<u64>,
    pub max_slippage_bps: Option<u64>,
    pub imbalance_fee_bps: Option<u64>,
    pub rebate_bps: Option<u64>,
    pub max_swap_pct_bps: Option<u64>,
}

/// What a line asks for.
#[derive(Debug, Clone)]
pub enum Command {
    /// A blank line.
    Empty,
    /// A command without arguments.
    Simple(Action),
    Rpc { request: String },
    P2p { message: String, remote_id: String },
    LnInvoice { amount_msat: u64, btc_address: String },
    LpApprove { amount: u64 },
    LpDeposit { amount: u64 },
    LpWithdraw { amount: u64 },
    LpBtcDeposit { txid: Option<Vec<u8>> },
    LpBtcWithdraw { amount: u64, destination: String },
    BtcSend { amount: u64, destination: String },
    /// The amount of ICP as written, a decimal number of ICP.
    IcpApprove { amount_icp: String },
    Offramp { invoice: String, fallback_btc_address: Option<String> },
    OfframpStatus { request_id: String },
    RequestOnramp { amount_sats: u64 },
    GetInvoice { request_id: String },
    SetTestTimeouts { onramp_ns: u64, offramp_ns: u64 },
    RegisterRelay {
        pubkey_hex: String,
        node_pubkey: Vec<u8>,
        webhook_url: Option<String>,
        webhook_token: Option<String>,
    },
    SetAdmin { principal_text: String },
    WithdrawFees { recipient_text: String },
    /// The parameters read, and the first argument that is not understood
    /// (reading stops there).
    UpdateConfig { update: StableSwapConfigUpdate, unknown_arg: Option<String> },
    /// The line is refused with this message; the prompt goes on.
    Reject { message: String },
    /// The trimmed line names no command.
    Unknown { input: String },
}

/// The contents of a `Command`.
pub enum CommandModel {
    Empty,
    Simple(Action),
    Rpc { request: Seq<char> },
    P2p { message: Seq<char>, remote_id: Seq<char> },
    LnInvoice { amount_msat: u64, btc_address: Seq<char> },
    LpApprove { amount: u64 },
    LpDeposit { amount: u64 },
    LpWithdraw { amount: u64 },
    LpBtcDeposit { txid: Option<Seq<u8>> },
    LpBtcWithdraw { amount: u64, destination: Seq<char> },
    BtcSend { amount: u64, destination: Seq<char> },
    IcpApprove { amount_icp: Seq<char> },
    Offramp { invoice: Seq<char>, fallback_btc_address: Option<Seq<char>> },
    OfframpStatus { request_id: Seq<char> },
    RequestOnramp { amount_sats: u64 },
    GetInvoice { request_id: Seq<char> },
    SetTestTimeouts { onramp_ns: u64, offramp_ns: u64 },
    RegisterRelay {
        pubkey_hex: Seq<char>,
        node_pubkey: Seq<u8>,
        webhook_url: Option<Seq<char>>,
        webhook_token: Option<Seq<char>>,
    },
    SetAdmin { principal_text: Seq<char> },
    WithdrawFees { recipient_text: Seq<char> },
    UpdateConfig { update: StableSwapConfigUpdate, unknown_arg: Option<Seq<char>> },
    Reject { message: Seq<char> },
    Unknown { input: Seq<char> },
}

pub open spec fn string_option_view(o: Option<String>) -> Option<Seq<char>> {
    match o {
        Some(s) => Some(s@),
        None => None,
    }
}

impl View for Command {
    type V = CommandModel;

    open spec fn view(&self) -> CommandModel {
        match self {
            Command::Empty => CommandModel::Empty,
            Command::Simple(a) => CommandModel::Simple(*a),
            Command::Rpc { request } => CommandModel::Rpc { request: request@ },
            Command::P2p { message, remote_id } => CommandModel::P2p {
                message: message@,
                remote_id: remote_id@,
            },
            Command::LnInvoice { amount_msat, btc_address } => CommandModel::LnInvoice {
                amount_msat: *amount_msat,
                btc_address: btc_address@,
            },
            Command::LpApprove { amount } => CommandModel::LpApprove { amount: *amount },
            Command::LpDeposit { amount } => CommandModel::LpDeposit { amount: *amount },
            Command::LpWithdraw { amount } => CommandModel::LpWithdraw { amount: *amount },
            Command::LpBtcDeposit { txid } => CommandModel::LpBtcDeposit {
                txid: match txid {
                    Some(t) => Some(t@),
                    None => None,
                },
            },
            Command::LpBtcWithdraw { amount, destination } => CommandModel::LpBtcWithdraw {
                amount: *amount,
                destination: destination@,
            },
            Command::BtcSend { amount, destination } => CommandModel::BtcSend {
                amount: *amount,
                destination: destination@,
            },
            Command::IcpApprove { amount_icp } => CommandModel::IcpApprove {
                amount_icp: amount_icp@,
            },
            Command::Offramp { invoice, fallback_btc_address } => CommandModel::Offramp {
                invoice: invoice@,
                fallback_btc_address: string_option_view(*fallback_btc_address),
            },
            Command::OfframpStatus { request_id } => CommandModel::OfframpStatus {
                request_id: request_id@,
            },
            Command::RequestOnramp { amount_sats } => CommandModel::RequestOnramp {
                amount_sats: *amount_sats,
            },
            Command::GetInvoice { request_id } => CommandModel::GetInvoice {
                request_id: request_id@,
            },
            Command::SetTestTimeouts { onramp_ns, offramp_ns } => CommandModel::SetTestTimeouts {
                onramp_ns: *onramp_ns,
                offramp_ns: *offramp_ns,
            },
            Command::RegisterRelay { pubkey_hex, node_pubkey, webhook_url, webhook_token } =>
            CommandModel::RegisterRelay {
                pubkey_hex: pubkey_hex@,
                node_pubkey: node_pubkey@,
                webhook_url: string_option_view(*webhook_url),
                webhook_token: string_option_view(*webhook_token),
            },
            Command::SetAdmin { principal_text } => CommandModel::SetAdmin {
                principal_text: principal_text@,
            },
            Command::WithdrawFees { recipient_text } => CommandModel::WithdrawFees {
                recipient_text: recipient_text@,
            },
            Command::UpdateConfig { update, unknown_arg } => CommandModel::UpdateConfig {
                update: *update,
                unknown_arg: string_option_view(*unknown_arg),
            },
            Command::Reject { message } => CommandModel::Reject { message: message@ },
            Command::Unknown { input } => CommandModel::Unknown { input: input@ },
        }
    }
}

// ---------------------------------------------------------------------------
// What a line means
// ---------------------------------------------------------------------------

pub open spec fn no_config_update() -> StableSwapConfigUpdate {
    StableSwapConfigUpdate {
        amplification: None,
        fee_bps: None,
        protocol_fee_share_bps: None,
        max_slippage_bps: None,
        imbalance_fee_bps: None,
        rebate_bps: None,
        max_swap_pct_bps: None,
    }
}

/// Reads `update-config` arguments from word `i` on: each flag takes the
/// next word as its number (a word that is no number sets nothing, a later
/// flag of the same name wins); reading stops at the first other word or at
/// a flag without a value.
pub open spec fn config_args(words: Seq<Seq<char>>, i: int, acc: StableSwapConfigUpdate) -> (
    StableSwapConfigUpdate,
    Option<Seq<char>>,
)
    decreases words.len() - i,
{
    if i < 1 || i >= words.len() {
        (acc, None)
    } else {
        let flag = words[i];
        let has_value = i + 1 < words.len();
        if !has_value {
            (acc, Some(flag))
        } else {
            let v = parse_u64_spec(words[i + 1]);
            if flag == "--amp"@ {
                config_args(words, i + 2, StableSwapConfigUpdate { amplification: v, ..acc })
            } else if flag == "--fee"@ {
                config_args(words, i + 2, StableSwapConfigUpdate { fee_bps: v, ..acc })
            } else if flag == "--protocol-fee"@ {
                config_args(words, i + 2, StableSwapConfigUpdate { protocol_fee_share_bps: v, ..acc })
            } else if flag == "--slippage"@ {
                config_args(words, i + 2, StableSwapConfigUpdate { max_slippage_bps: v, ..acc })
            } else if flag == "--imbalance-fee"@ {
                config_args(words, i + 2, StableSwapConfigUpdate { imbalance_fee_bps: v, ..acc })
            } else if flag == "--rebate"@ {
                config_args(words, i + 2, StableSwapConfigUpdate { rebate_bps: v, ..acc })
            } else if flag == "--max-swap-pct"@ {
                config_args(words, i + 2, StableSwapConfigUpdate { max_swap_pct_bps: v, ..acc })
            } else {
                (acc, Some(flag))
            }
        }
    }
}

/// Whether the word `f` stands anywhere from position `i` on.
pub open spec fn occurs_from(words: Seq<Seq<char>>, i: int, f: Seq<char>) -> bool {
    exists|j: int| i <= j < words.len() && #[trigger] words[j] == f
}

/// The seven `update-config` flags are seven different words.
pub proof fn lemma_config_flags_distinct()
    ensures
        "--amp"@ != "--fee"@,
        "--amp"@ != "--protocol-fee"@,
        "--amp"@ != "--slippage"@,
        "--amp"@ != "--imbalance-fee"@,
        "--amp"@ != "--rebate"@,
        "--amp"@ != "--max-swap-pct"@,
        "--fee"@ != "--protocol-fee"@,
        "--fee"@ != "--slippage"@,
        "--fee"@ != "--imbalance-fee"@,
        "--fee"@ != "--rebate"@,
        "--fee"@ != "--max-swap-pct"@,
        "--protocol-fee"@ != "--slippage"@,
        "--protocol-fee"@ != "--imbalance-fee"@,
        "--protocol-fee"@ != "--rebate"@,
        "--protocol-fee"@ != "--max-swap-pct"@,
        "--slippage"@ != "--imbalance-fee"@,
        "--slippage"@ != "--rebate"@,
        "--slippage"@ != "--max-swap-pct"@,
        "--imbalance-fee"@ != "--rebate"@,
        "--imbalance-fee"@ != "--max-swap-pct"@,
        "--rebate"@ != "--max-swap-pct"@,
{
    reveal_strlit("--amp");
    reveal_strlit("--fee");
    reveal_strlit("--protocol-fee");
    reveal_strlit("--slippage");
    reveal_strlit("--imbalance-fee");
    reveal_strlit("--rebate");
    reveal_strlit("--max-swap-pct");
    assert("--amp"@[2] != "--fee"@[2]);
    assert("--protocol-fee"@[2] != "--max-swap-pct"@[2]);
    assert("--slippage"@[2] != "--imbalance-fee"@[2]);
    assert("--slippage"@[2] != "--rebate"@[2]);
    assert("--imbalance-fee"@[2] != "--rebate"@[2]);
}

/// A flag changes no parameter but its own: a parameter whose flag does not
/// stand among the words read keeps its value.
pub proof fn lemma_config_flag_frame(words: Seq<Seq<char>>, i: int, acc: StableSwapConfigUpdate)
    ensures
        !occurs_from(words, i, "--amp"@) ==> config_args(words, i, acc).0.amplification
            == acc.amplification,
        !occurs_from(words, i, "--fee"@) ==> config_args(words, i, acc).0.fee_bps == acc.fee_bps,
        !occurs_from(words, i, "--protocol-fee"@) ==> config_args(words, i, acc).0.protocol_fee_share_bps
            == acc.protocol_fee_share_bps,
        !occurs_from(words, i, "--slippage"@) ==> config_args(words, i, acc).0.max_slippage_bps
            == acc.max_slippage_bps,
        !occurs_from(words, i, "--imbalance-fee"@) ==> config_args(words, i, acc).0.imbalance_fee_bps
            == acc.imbalance_fee_bps,
        !occurs_from(words, i, "--rebate"@) ==> config_args(words, i, acc).0.rebate_bps
            == acc.rebate_bps,
        !occurs_from(words, i, "--max-swap-pct"@) ==> config_args(words, i, acc).0.max_swap_pct_bps
            == acc.max_swap_pct_bps,
    decreases words.len() - i,
{
    lemma_config_flags_distinct();
    if i < 1 || i >= words.len() || i + 1 >= words.len() {
    } else {
        let flag = words[i];
        let v = parse_u64_spec(words[i + 1]);
        assert(!occurs_from(words, i, "--amp"@) ==> !occurs_from(words, i + 2, "--amp"@));
        assert(!occurs_from(words, i, "--fee"@) ==> !occurs_from(words, i + 2, "--fee"@));
        assert(!occurs_from(words, i, "--protocol-fee"@) ==> !occurs_from(
            words,
            i + 2,
            "--protocol-fee"@,
        ));
        assert(!occurs_from(words, i, "--slippage"@) ==> !occurs_from(words, i + 2, "--slippage"@));
        assert(!occurs_from(words, i, "--imbalance-fee"@) ==> !occurs_from(
            words,
            i + 2,
            "--imbalance-fee"@,
        ));
        assert(!occurs_from(words, i, "--rebate"@) ==> !occurs_from(words, i + 2, "--rebate"@));
        assert(!occurs_from(words, i, "--max-swap-pct"@) ==> !occurs_from(
            words,
            i + 2,
            "--max-swap-pct"@,
        ));
        if flag == "--amp"@ {
            lemma_config_flag_frame(words, i + 2, StableSwapConfigUpdate { amplification: v, ..acc });
        } else if flag == "--fee"@ {
            lemma_config_flag_frame(words, i + 2, StableSwapConfigUpdate { fee_bps: v, ..acc });
        } else if flag == "--protocol-fee"@ {
            lemma_config_flag_frame(
                words,
                i + 2,
                StableSwapConfigUpdate { protocol_fee_share_bps: v, ..acc },
            );
        } else if flag == "--slippage"@ {
            lemma_config_flag_frame(words, i + 2, StableSwapConfigUpdate { max_slippage_bps: v, ..acc });
        } else if flag == "--imbalance-fee"@ {
            lemma_config_flag_frame(
                words,
                i + 2,
                StableSwapConfigUpdate { imbalance_fee_bps: v, ..acc },
            );
        } else if flag == "--rebate"@ {
            lemma_config_flag_frame(words, i + 2, StableSwapConfigUpdate { rebate_bps: v, ..acc });
        } else if flag == "--max-swap-pct"@ {
            lemma_config_flag_frame(words, i + 2, StableSwapConfigUpdate { max_swap_pct_bps: v, ..acc });
        }
    }
}

/// A flag followed by a value sets its own parameter to that value read as a
/// number (`None` if it is no number), unless the same flag comes again later;
/// a word that is no flag, or a flag without a value, stops the reading and is
/// reported.
pub proof fn lemma_config_flag_sets(words: Seq<Seq<char>>, i: int, acc: StableSwapConfigUpdate)
    requires
        1 <= i < words.len(),
    ensures
        i + 1 < words.len() && words[i] == "--amp"@ && !occurs_from(words, i + 2, "--amp"@)
            ==> config_args(words, i, acc).0.amplification == parse_u64_spec(words[i + 1]),
        i + 1 < words.len() && words[i] == "--fee"@ && !occurs_from(words, i + 2, "--fee"@)
            ==> config_args(words, i, acc).0.fee_bps == parse_u64_spec(words[i + 1]),
        i + 1 < words.len() && words[i] == "--protocol-fee"@ && !occurs_from(
            words,
            i + 2,
            "--protocol-fee"@,
        ) ==> config_args(words, i, acc).0.protocol_fee_share_bps == parse_u64_spec(words[i + 1]),
        i + 1 < words.len() && words[i] == "--slippage"@ && !occurs_from(words, i + 2, "--slippage"@)
            ==> config_args(words, i, acc).0.max_slippage_bps == parse_u64_spec(words[i + 1]),
        i + 1 < words.len() && words[i] == "--imbalance-fee"@ && !occurs_from(
            words,
            i + 2,
            "--imbalance-fee"@,
        ) ==> config_args(words, i, acc).0.imbalance_fee_bps == parse_u64_spec(words[i + 1]),
        i + 1 < words.len() && words[i] == "--rebate"@ && !occurs_from(words, i + 2, "--rebate"@)
            ==> config_args(words, i, acc).0.rebate_bps == parse_u64_spec(words[i + 1]),
        i + 1 < words.len() && words[i] == "--max-swap-pct"@ && !occurs_from(
            words,
            i + 2,
            "--max-swap-pct"@,
        ) ==> config_args(words, i, acc).0.max_swap_pct_bps == parse_u64_spec(words[i + 1]),
        i + 1 == words.len() ==> config_args(words, i, acc) == (acc, Some(words[i])),
        words[i] != "--amp"@ && words[i] != "--fee"@ && words[i] != "--protocol-fee"@ && words[i]
            != "--slippage"@ && words[i] != "--imbalance-fee"@ && words[i] != "--rebate"@
            && words[i] != "--max-swap-pct"@ ==> config_args(words, i, acc) == (acc, Some(words[i])),
{
    lemma_config_flags_distinct();
    if i + 1 < words.len() {
        let v = parse_u64_spec(words[i + 1]);
        lemma_config_flag_frame(words, i + 2, StableSwapConfigUpdate { amplification: v, ..acc });
        lemma_config_flag_frame(words, i + 2, StableSwapConfigUpdate { fee_bps: v, ..acc });
        lemma_config_flag_frame(words, i + 2, StableSwapConfigUpdate { protocol_fee_share_bps: v, ..acc });
        lemma_config_flag_frame(words, i + 2, StableSwapConfigUpdate { max_slippage_bps: v, ..acc });
        lemma_config_flag_frame(words, i + 2, StableSwapConfigUpdate { imbalance_fee_bps: v, ..acc });
        lemma_config_flag_frame(words, i + 2, StableSwapConfigUpdate { rebate_bps: v, ..acc });
        lemma_config_flag_frame(words, i + 2, StableSwapConfigUpdate { max_swap_pct_bps: v, ..acc });
    }
}

/// Word `i`, if there is one.
pub open spec fn word_at(words: Seq<Seq<char>>, i: int) -> Option<Seq<char>> {
    if i < words.len() {
        Some(words[i])
    } else {
        None
    }
}

/// The command of a line of at least one word; `input` is the trimmed line.
pub open spec fn command_of_words(words: Seq<Seq<char>>, input: Seq<char>) -> CommandModel {
    let c = words[0];
    let n = words.len();
    let invalid_amount = CommandModel::Reject { message: "Invalid amount"@ };
    if c == "rpc"@ && n > 1 {
        CommandModel::Rpc { request: words[1] }
    } else if c == "p2p"@ && n > 1 {
        CommandModel::P2p {
            message: words[1],
            remote_id: if n > 2 {
                words[2]
            } else {
                "test-node-123"@
            },
        }
    } else if c == "status"@ {
        CommandModel::Simple(Action::Status)
    } else if c == "fetch-key"@ {
        CommandModel::Simple(Action::FetchKey)
    } else if c == "ln-address"@ {
        CommandModel::Simple(Action::LnAddress)
    } else if c == "ln-invoice"@ && n >= 3 {
        match parse_u64_spec(words[1]) {
            Some(a) => CommandModel::LnInvoice { amount_msat: a, btc_address: words[2] },
            None => invalid_amount,
        }
    } else if c == "lp-approve"@ && n >= 2 {
        match parse_u64_spec(words[1]) {
            Some(a) => CommandModel::LpApprove { amount: a },
            None => invalid_amount,
        }
    } else if c == "lp-deposit"@ && n >= 2 {
        match parse_u64_spec(words[1]) {
            Some(a) => CommandModel::LpDeposit { amount: a },
            None => invalid_amount,
        }
    } else if c == "lp-withdraw"@ && n >= 2 {
        match parse_u64_spec(words[1]) {
            Some(a) => CommandModel::LpWithdraw { amount: a },
            None => invalid_amount,
        }
    } else if c == "lp-balance"@ {
        CommandModel::Simple(Action::LpBalance)
    } else if c == "lp-total"@ {
        CommandModel::Simple(Action::LpTotal)
    } else if c == "lp-btc-address"@ {
        CommandModel::Simple(Action::LpBtcAddress)
    } else if c == "lp-btc-deposit"@ {
        if n >= 2 {
            match hex_decode_spec(words[1]) {
                Some(t) => CommandModel::LpBtcDeposit { txid: Some(t) },
                None => CommandModel::Reject { message: "Invalid txid hex format"@ },
            }
        } else {
            CommandModel::LpBtcDeposit { txid: None }
        }
    } else if c == "lp-btc-withdraw"@ && n >= 3 {
        match parse_u64_spec(words[1]) {
            Some(a) => CommandModel::LpBtcWithdraw { amount: a, destination: words[2] },
            None => invalid_amount,
        }
    } else if c == "btc-address"@ {
        CommandModel::Simple(Action::BtcAddress)
    } else if c == "btc-balance"@ {
        CommandModel::Simple(Action::BtcBalance)
    } else if c == "btc-send"@ && n >= 3 {
        match parse_u64_spec(words[1]) {
            Some(a) => CommandModel::BtcSend { amount: a, destination: words[2] },
            None => invalid_amount,
        }
    } else if c == "ckbtc-balance"@ {
        CommandModel::Simple(Action::CkbtcBalance)
    } else if c == "icp-balance"@ {
        CommandModel::Simple(Action::IcpBalance)
    } else if c == "icp-approve"@ && n >= 2 {
        CommandModel::IcpApprove { amount_icp: words[1] }
    } else if c == "offramp"@ && n >= 2 {
        CommandModel::Offramp { invoice: words[1], fallback_btc_address: word_at(words, 2) }
    } else if c == "offramp-status"@ && n >= 2 {
        CommandModel::OfframpStatus { request_id: words[1] }
    } else if c == "request-onramp"@ && n >= 2 {
        match parse_u64_spec(words[1]) {
            Some(a) => CommandModel::RequestOnramp { amount_sats: a },
            None => CommandModel::Reject {
                message: "Invalid amount. Usage: request-onramp <amount_sats>"@,
            },
        }
    } else if c == "get-invoice"@ && n >= 2 {
        CommandModel::GetInvoice { request_id: words[1] }
    } else if c == "set-test-timeouts"@ && n >= 3 {
        match (parse_u64_spec(words[1]), parse_u64_spec(words[2])) {
            (Some(on), Some(off)) => CommandModel::SetTestTimeouts {
                onramp_ns: on,
                offramp_ns: off,
            },
            _ => CommandModel::Reject {
                message: "Invalid timeout. Usage: set-test-timeouts <onramp_ns> <offramp_ns>"@,
            },
        }
    } else if c == "check-expired-swaps"@ {
        CommandModel::Simple(Action::CheckExpiredSwaps)
    } else if c == "expired-counts"@ {
        CommandModel::Simple(Action::ExpiredCounts)
    } else if c == "register-relay"@ && n >= 2 {
        match hex_decode_spec(words[1]) {
            None => CommandModel::Reject { message: "Invalid hex for node pubkey"@ },
            Some(k) => if k.len() != 33 {
                CommandModel::Reject {
                    message: "Node pubkey must be 33 bytes (compressed secp256k1)"@,
                }
            } else {
                CommandModel::RegisterRelay {
                    pubkey_hex: words[1],
                    node_pubkey: k,
                    webhook_url: word_at(words, 2),
                    webhook_token: word_at(words, 3),
                }
            },
        }
    } else if c == "relay-info"@ {
        CommandModel::Simple(Action::RelayInfo)
    } else if c == "rate-limit"@ {
        CommandModel::Simple(Action::RateLimit)
    } else if c == "whoami"@ {
        CommandModel::Simple(Action::Whoami)
    } else if c == "set-admin"@ && n >= 2 {
        CommandModel::SetAdmin { principal_text: words[1] }
    } else if c == "withdraw-fees"@ && n >= 2 {
        CommandModel::WithdrawFees { recipient_text: words[1] }
    } else if c == "update-config"@ {
        let (update, unknown_arg) = config_args(words, 1, no_config_update());
        CommandModel::UpdateConfig { update, unknown_arg }
    } else if c == "pending-onramps"@ {
        CommandModel::Simple(Action::PendingOnramps)
    } else if c == "pending-offramps"@ {
        CommandModel::Simple(Action::PendingOfframps)
    } else if c == "help"@ || c == "h"@ {
        CommandModel::Simple(Action::Help)
    } else if c == "exit"@ || c == "quit"@ || c == "q"@ {
        CommandModel::Simple(Action::Exit)
    } else {
        CommandModel::Unknown { input }
    }
}

/// The command of a line: the line is trimmed and split at white space, and
/// its first word names the command.
pub open spec fn command_spec(line: Seq<char>) -> CommandModel {
    let input = trim(line);
    let words = split_white_space(input);
    if words.len() == 0 {
        CommandModel::Empty
    } else {
        command_of_words(words, input)
    }
}

// ---------------------------------------------------------------------------
// Reading a line
// ---------------------------------------------------------------------------

fn word(words: &Vec<String>, i: usize) -> (r: String)
    requires
        i < words@.len(),
    ensures
        r@ == words@[i as int]@,
{
    words[i].clone()
}

fn optional_word(words: &Vec<String>, i: usize) -> (r: Option<String>)
    ensures
        string_option_view(r) == word_at(string_views(words@), i as int),
{
    if i < words.len() {
        Some(word(words, i))
    } else {
        None
    }
}

/// Reads the `update-config` arguments that follow the command word.
fn read_config_args(words: &Vec<String>) -> (r: (StableSwapConfigUpdate, Option<String>))
    ensures
        (r.0, string_option_view(r.1)) == config_args(string_views(words@), 1, no_config_update()),
{
    let ghost ws = string_views(words@);
    let n = words.len();
    let mut acc = StableSwapConfigUpdate {
        amplification: None,
        fee_bps: None,
        protocol_fee_share_bps: None,
        max_slippage_bps: None,
        imbalance_fee_bps: None,
        rebate_bps: None,
        max_swap_pct_bps: None,
    };
    if n <= 1 {
        return (acc, None);
    }
    let mut i: usize = 1;
    while i < n
        invariant
            1 <= i <= n,
            n == words@.len(),
            ws == string_views(words@),
            config_args(ws, i as int, acc) == config_args(ws, 1, no_config_update()),
        decreases n - i,
    {
        let flag = words[i].as_str();
        if i + 1 >= n {
            return (acc, Some(word(words, i)));
        }
        let v = parse_u64(words[i + 1].as_str());
        if str_eq(flag, "--amp") {
            acc.amplification = v;
        } else if str_eq(flag, "--fee") {
            acc.fee_bps = v;
        } else if str_eq(flag, "--protocol-fee") {
            acc.protocol_fee_share_bps = v;
        } else if str_eq(flag, "--slippage") {
            acc.max_slippage_bps = v;
        } else if str_eq(flag, "--imbalance-fee") {
            acc.imbalance_fee_bps = v;
        } else if str_eq(flag, "--rebate") {
            acc.rebate_bps = v;
        } else if str_eq(flag, "--max-swap-pct") {
            acc.max_swap_pct_bps = v;
        } else {
            return (acc, Some(word(words, i)));
        }
        i = i + 2;
    }
    (acc, None)
}

/// Reads an amount word; an amount that is no number refuses the line.
fn amount_or_reject(words: &Vec<String>, i: usize) -> (r: Result<u64, Command>)
    requires
        i < words@.len(),
    ensures
        match parse_u64_spec(words@[i as int]@) {
            Some(a) => r == Ok::<u64, Command>(a),
            None => r matches Err(c) && c@ == (CommandModel::Reject { message: "Invalid amount"@ }),
        },
{
    match parse_u64(words[i].as_str()) {
        Some(a) => Ok(a),
        None => Err(Command::Reject { message: String::from_str("Invalid amount") }),
    }
}

/// The command that a line of the prompt asks for.
pub fn parse_command(line: &str) -> (r: Command)
    ensures
        r@ == command_spec(line@),
{
    let input = trim_white_space(line);
    let words = split_words(input.as_str());
    let ghost ws = string_views(words@);
    let n = words.len();
    if n == 0 {
        return Command::Empty;
    }
    proof {
        assert(ws.len() == n);
        assert forall|i: int| 0 <= i < n implies ws[i] == #[trigger] words@[i]@ by {}
    }
    let c = words[0].as_str();
    if str_eq(c, "rpc") && n > 1 {
        Command::Rpc { request: word(&words, 1) }
    } else if str_eq(c, "p2p") && n > 1 {
        let remote_id = if n > 2 {
            word(&words, 2)
        } else {
            String::from_str("test-node-123")
        };
        Command::P2p { message: word(&words, 1), remote_id }
    } else if str_eq(c, "status") {
        Command::Simple(Action::Status)
    } else if str_eq(c, "fetch-key") {
        Command::Simple(Action::FetchKey)
    } else if str_eq(c, "ln-address") {
        Command::Simple(Action::LnAddress)
    } else if str_eq(c, "ln-invoice") && n >= 3 {
        match amount_or_reject(&words, 1) {
            Ok(a) => Command::LnInvoice { amount_msat: a, btc_address: word(&words, 2) },
            Err(e) => e,
        }
    } else if str_eq(c, "lp-approve") && n >= 2 {
        match amount_or_reject(&words, 1) {
            Ok(a) => Command::LpApprove { amount: a },
            Err(e) => e,
        }
    } else if str_eq(c, "lp-deposit") && n >= 2 {
        match amount_or_reject(&words, 1) {
            Ok(a) => Command::LpDeposit { amount: a },
            Err(e) => e,
        }
    } else if str_eq(c, "lp-withdraw") && n >= 2 {
        match amount_or_reject(&words, 1) {
            Ok(a) => Command::LpWithdraw { amount: a },
            Err(e) => e,
        }
    } else if str_eq(c, "lp-balance") {
        Command::Simple(Action::LpBalance)
    } else if str_eq(c, "lp-total") {
        Command::Simple(Action::LpTotal)
    } else if str_eq(c, "lp-btc-address") {
        Command::Simple(Action::LpBtcAddress)
    } else if str_eq(c, "lp-btc-deposit") {
        if n >= 2 {
            match hex_to_bytes(words[1].as_str()) {
                Some(t) => Command::LpBtcDeposit { txid: Some(t) },
                None => Command::Reject { message: String::from_str("Invalid txid hex format") },
            }
        } else {
            Command::LpBtcDeposit { txid: None }
        }
    } else if str_eq(c, "lp-btc-withdraw") && n >= 3 {
        match amount_or_reject(&words, 1) {
            Ok(a) => Command::LpBtcWithdraw { amount: a, destination: word(&words, 2) },
            Err(e) => e,
        }
    } else if str_eq(c, "btc-address") {
        Command::Simple(Action::BtcAddress)
    } else if str_eq(c, "btc-balance") {
        Command::Simple(Action::BtcBalance)
    } else if str_eq(c, "btc-send") && n >= 3 {
        match amount_or_reject(&words, 1) {
            Ok(a) => Command::BtcSend { amount: a, destination: word(&words, 2) },
            Err(e) => e,
        }
    } else if str_eq(c, "ckbtc-balance") {
        Command::Simple(Action::CkbtcBalance)
    } else if str_eq(c, "icp-balance") {
        Command::Simple(Action::IcpBalance)
    } else if str_eq(c, "icp-approve") && n >= 2 {
        Command::IcpApprove { amount_icp: word(&words, 1) }
    } else if str_eq(c, "offramp") && n >= 2 {
        Command::Offramp {
            invoice: word(&words, 1),
            fallback_btc_address: optional_word(&words, 2),
        }
    } else if str_eq(c, "offramp-status") && n >= 2 {
        Command::OfframpStatus { request_id: word(&words, 1) }
    } else if str_eq(c, "request-onramp") && n >= 2 {
        match parse_u64(words[1].as_str()) {
            Some(a) => Command::RequestOnramp { amount_sats: a },
            None => Command::Reject {
                message: String::from_str("Invalid amount. Usage: request-onramp <amount_sats>"),
            },
        }
    } else if str_eq(c, "get-invoice") && n >= 2 {
        Command::GetInvoice { request_id: word(&words, 1) }
    } else if str_eq(c, "set-test-timeouts") && n >= 3 {
        match (parse_u64(words[1].as_str()), parse_u64(words[2].as_str())) {
            (Some(on), Some(off)) => Command::SetTestTimeouts { onramp_ns: on, offramp_ns: off },
            _ => Command::Reject {
                message: String::from_str(
                    "Invalid timeout. Usage: set-test-timeouts <onramp_ns> <offramp_ns>",
                ),
            },
        }
    } else if str_eq(c, "check-expired-swaps") {
        Command::Simple(Action::CheckExpiredSwaps)
    } else if str_eq(c, "expired-counts") {
        Command::Simple(Action::ExpiredCounts)
    } else if str_eq(c, "register-relay") && n >= 2 {
        match hex_to_bytes(words[1].as_str()) {
            None => Command::Reject { message: String::from_str("Invalid hex for node pubkey") },
            Some(k) => {
                if k.len() != 33 {
                    Command::Reject {
                        message: String::from_str(
                            "Node pubkey must be 33 bytes (compressed secp256k1)",
                        ),
                    }
                } else {
                    Command::RegisterRelay {
                        pubkey_hex: word(&words, 1),
                        node_pubkey: k,
                        webhook_url: optional_word(&words, 2),
                        webhook_token: optional_word(&words, 3),
                    }
                }
            },
        }
    } else if str_eq(c, "relay-info") {
        Command::Simple(Action::RelayInfo)
    } else if str_eq(c, "rate-limit") {
        Command::Simple(Action::RateLimit)
    } else if str_eq(c, "whoami") {
        Command::Simple(Action::Whoami)
    } else if str_eq(c, "set-admin") && n >= 2 {
        Command::SetAdmin { principal_text: word(&words, 1) }
    } else if str_eq(c, "withdraw-fees") && n >= 2 {
        Command::WithdrawFees { recipient_text: word(&words, 1) }
    } else if str_eq(c, "update-config") {
        let (update, unknown_arg) = read_config_args(&words);
        Command::UpdateConfig { update, unknown_arg }
    } else if str_eq(c, "pending-onramps") {
        Command::Simple(Action::PendingOnramps)
    } else if str_eq(c, "pending-offramps") {
        Command::Simple(Action::PendingOfframps)
    } else if str_eq(c, "help") || str_eq(c, "h") {
        Command::Simple(Action::Help)
    } else if str_eq(c, "exit") || str_eq(c, "quit") || str_eq(c, "q") {
        Command::Simple(Action::Exit)
    } else {
        Command::Unknown { input }
    }
}

// ---------------------------------------------------------------------------
// Figures shown to the user
// ---------------------------------------------------------------------------

/// Whole satoshis in an amount of millisatoshis, rounded down.
pub fn msat_to_sats(amount_msat: u64) -> (r: u64)
    ensures
        r == amount_msat / 1000,
        r * 1000 <= amount_msat < r * 1000 + 1000,
{
    amount_msat / 1000
}

/// A span of seconds as whole minutes and the seconds left over.
pub fn minutes_and_seconds(secs: u64) -> (r: (u64, u64))
    ensures
        r.0 == secs / 60,
        r.1 == secs % 60,
        r.0 * 60 + r.1 == secs,
        r.1 < 60,
{
    (secs / 60, secs % 60)
}

} // verus!
