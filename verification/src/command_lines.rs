//! What the command lines of the client ask for, word by word: each command
//! word, followed by its arguments, gives its own command.
use vstd::prelude::*;

use crate::codec::hex_decode_spec;
use crate::command::{
    command_of_words, command_spec, config_args, lemma_config_flags_distinct, no_config_update,
    Action, CommandModel, StableSwapConfigUpdate,
};
use crate::text::{
    decimal, is_white_space, is_word, lemma_decimal_word, lemma_unwords, parse_u64_spec, trim,
    trim_start, unwords,
};

verus! {

/// A line of words joined by single spaces is read word by word.
proof fn lemma_line_of_words(ws: Seq<Seq<char>>)
    requires
        ws.len() > 0,
        forall|i: int| 0 <= i < ws.len() ==> is_word(#[trigger] ws[i]),
    ensures
        command_spec(unwords(ws)) == command_of_words(ws, unwords(ws)),
{
    lemma_unwords(ws);
}

proof fn lemma_unwords_two(a: Seq<char>, b: Seq<char>)
    ensures
        unwords(seq![a, b]) == a + seq![' '] + b,
{
    let ws = seq![a, b];
    assert(ws.len() == 2 && ws[0] == a);
    assert(ws.drop_first() =~= seq![b]);
    assert(seq![b].len() == 1 && seq![b][0] == b);
    assert(unwords(seq![b]) == b);
}

proof fn lemma_unwords_three(a: Seq<char>, b: Seq<char>, c: Seq<char>)
    ensures
        unwords(seq![a, b, c]) == a + seq![' '] + b + seq![' '] + c,
{
    let ws = seq![a, b, c];
    assert(ws.len() == 3 && ws[0] == a);
    assert(ws.drop_first() =~= seq![b, c]);
    lemma_unwords_two(b, c);
    assert(a + seq![' '] + (b + seq![' '] + c) =~= a + seq![' '] + b + seq![' '] + c);
}

/// The command words have these lengths and, where two are equally long,
/// these characters tell them apart.
proof fn lemma_command_words_differ()
    ensures
        "h"@.len() == 1,
        "q"@.len() == 1,
        "h"@[0] == 'h',
        "q"@[0] == 'q',
        "rpc"@.len() == 3,
        "p2p"@.len() == 3,
        "rpc"@[0] == 'r',
        "p2p"@[0] == 'p',
        "help"@.len() == 4,
        "exit"@.len() == 4,
        "quit"@.len() == 4,
        "help"@[0] == 'h',
        "exit"@[0] == 'e',
        "quit"@[0] == 'q',
        "status"@.len() == 6,
        "whoami"@.len() == 6,
        "status"@[0] == 's',
        "whoami"@[0] == 'w',
        "offramp"@.len() == 7,
        "lp-total"@.len() == 8,
        "btc-send"@.len() == 8,
        "lp-total"@[0] == 'l',
        "btc-send"@[0] == 'b',
        "fetch-key"@.len() == 9,
        "set-admin"@.len() == 9,
        "fetch-key"@[0] == 'f',
        "set-admin"@[0] == 's',
        "ln-address"@.len() == 10,
        "ln-invoice"@.len() == 10,
        "lp-approve"@.len() == 10,
        "lp-deposit"@.len() == 10,
        "lp-balance"@.len() == 10,
        "relay-info"@.len() == 10,
        "rate-limit"@.len() == 10,
        "ln-address"@[4] == 'd',
        "ln-invoice"@[4] == 'n',
        "lp-approve"@[4] == 'p',
        "lp-deposit"@[4] == 'e',
        "lp-balance"@[4] == 'a',
        "relay-info"@[4] == 'y',
        "rate-limit"@[4] == '-',
        "lp-withdraw"@.len() == 11,
        "btc-address"@.len() == 11,
        "btc-balance"@.len() == 11,
        "icp-balance"@.len() == 11,
        "icp-approve"@.len() == 11,
        "get-invoice"@.len() == 11,
        "lp-withdraw"@[0] == 'l',
        "lp-withdraw"@[5] == 't',
        "btc-address"@[0] == 'b',
        "btc-address"@[5] == 'd',
        "btc-balance"@[0] == 'b',
        "btc-balance"@[5] == 'a',
        "icp-balance"@[0] == 'i',
        "icp-balance"@[5] == 'a',
        "icp-approve"@[0] == 'i',
        "icp-approve"@[5] == 'p',
        "get-invoice"@[0] == 'g',
        "get-invoice"@[5] == 'n',
        "ckbtc-balance"@.len() == 13,
        "withdraw-fees"@.len() == 13,
        "update-config"@.len() == 13,
        "ckbtc-balance"@[0] == 'c',
        "withdraw-fees"@[0] == 'w',
        "update-config"@[0] == 'u',
        "lp-btc-address"@.len() == 14,
        "lp-btc-deposit"@.len() == 14,
        "offramp-status"@.len() == 14,
        "request-onramp"@.len() == 14,
        "expired-counts"@.len() == 14,
        "register-relay"@.len() == 14,
        "lp-btc-address"@[8] == 'd',
        "lp-btc-deposit"@[8] == 'e',
        "offramp-status"@[8] == 's',
        "request-onramp"@[8] == 'o',
        "expired-counts"@[8] == 'c',
        "register-relay"@[8] == '-',
        "lp-btc-withdraw"@.len() == 15,
        "pending-onramps"@.len() == 15,
        "lp-btc-withdraw"@[0] == 'l',
        "pending-onramps"@[0] == 'p',
        "pending-offramps"@.len() == 16,
        "set-test-timeouts"@.len() == 17,
        "check-expired-swaps"@.len() == 19,
{
    reveal_strlit("rpc");
    reveal_strlit("p2p");
    reveal_strlit("status");
    reveal_strlit("fetch-key");
    reveal_strlit("ln-address");
    reveal_strlit("ln-invoice");
    reveal_strlit("lp-approve");
    reveal_strlit("lp-deposit");
    reveal_strlit("lp-withdraw");
    reveal_strlit("lp-balance");
    reveal_strlit("lp-total");
    reveal_strlit("lp-btc-address");
    reveal_strlit("lp-btc-deposit");
    reveal_strlit("lp-btc-withdraw");
    reveal_strlit("btc-address");
    reveal_strlit("btc-balance");
    reveal_strlit("btc-send");
    reveal_strlit("ckbtc-balance");
    reveal_strlit("icp-balance");
    reveal_strlit("icp-approve");
    reveal_strlit("offramp");
    reveal_strlit("offramp-status");
    reveal_strlit("request-onramp");
    reveal_strlit("get-invoice");
    reveal_strlit("set-test-timeouts");
    reveal_strlit("check-expired-swaps");
    reveal_strlit("expired-counts");
    reveal_strlit("register-relay");
    reveal_strlit("relay-info");
    reveal_strlit("rate-limit");
    reveal_strlit("whoami");
    reveal_strlit("set-admin");
    reveal_strlit("withdraw-fees");
    reveal_strlit("update-config");
    reveal_strlit("pending-onramps");
    reveal_strlit("pending-offramps");
    reveal_strlit("help");
    reveal_strlit("h");
    reveal_strlit("exit");
    reveal_strlit("quit");
    reveal_strlit("q");
}

/// `rpc <request>` hands the request to the node's RPC handler.
pub proof fn law_rpc_line(w: Seq<char>)
    requires
        is_word(w),
    ensures
        command_spec("rpc "@ + w) == (CommandModel::Rpc { request: w }),
{
    reveal_strlit("rpc");
    reveal_strlit("rpc ");
    let c = "rpc"@;
    assert(is_word(c));
    let ws = seq![c, w];
    lemma_unwords_two(c, w);
    assert("rpc "@ + w =~= unwords(ws));
    assert(forall|i: int| 0 <= i < ws.len() ==> is_word(#[trigger] ws[i]));
    lemma_line_of_words(ws);
    lemma_command_words_differ();
}

/// `p2p <message>` sends the message to the default test peer.
pub proof fn law_p2p_line(w: Seq<char>)
    requires
        is_word(w),
    ensures
        command_spec("p2p "@ + w) == (CommandModel::P2p { message: w, remote_id: "test-node-123"@ }),
{
    reveal_strlit("p2p");
    reveal_strlit("p2p ");
    let c = "p2p"@;
    assert(is_word(c));
    let ws = seq![c, w];
    lemma_unwords_two(c, w);
    assert("p2p "@ + w =~= unwords(ws));
    assert(forall|i: int| 0 <= i < ws.len() ==> is_word(#[trigger] ws[i]));
    lemma_line_of_words(ws);
    lemma_command_words_differ();
}

/// `p2p <message> <peer>` sends the message to that peer.
pub proof fn law_p2p_to_line(w: Seq<char>, v: Seq<char>)
    requires
        is_word(w),
        is_word(v),
    ensures
        command_spec("p2p "@ + w + " "@ + v) == (CommandModel::P2p { message: w, remote_id: v }),
{
    reveal_strlit("p2p");
    reveal_strlit("p2p ");
    reveal_strlit(" ");
    let c = "p2p"@;
    assert(is_word(c));
    let ws = seq![c, w, v];
    lemma_unwords_three(c, w, v);
    assert("p2p "@ + w + " "@ + v =~= unwords(ws));
    assert(forall|i: int| 0 <= i < ws.len() ==> is_word(#[trigger] ws[i]));
    lemma_line_of_words(ws);
    lemma_command_words_differ();
}

/// `ln-invoice <msat> <address>` asks for an invoice of `n` millisatoshis paid out to the address.
pub proof fn law_ln_invoice_line(n: u64, w: Seq<char>)
    requires
        is_word(w),
    ensures
        command_spec("ln-invoice "@ + decimal(n as nat) + " "@ + w) == (CommandModel::LnInvoice { amount_msat: n, btc_address: w }),
{
    reveal_strlit("ln-invoice");
    reveal_strlit("ln-invoice ");
    reveal_strlit(" ");
    let c = "ln-invoice"@;
    lemma_decimal_word(n as nat);
    assert(is_word(c));
    let ws = seq![c, decimal(n as nat), w];
    lemma_unwords_three(c, decimal(n as nat), w);
    assert("ln-invoice "@ + decimal(n as nat) + " "@ + w =~= unwords(ws));
    assert(forall|i: int| 0 <= i < ws.len() ==> is_word(#[trigger] ws[i]));
    lemma_line_of_words(ws);
    lemma_command_words_differ();
}

/// `lp-approve <n>` approves `n` for the liquidity pool.
pub proof fn law_lp_approve_line(n: u64)
    ensures
        command_spec("lp-approve "@ + decimal(n as nat)) == (CommandModel::LpApprove { amount: n }),
{
    reveal_strlit("lp-approve");
    reveal_strlit("lp-approve ");
    let c = "lp-approve"@;
    lemma_decimal_word(n as nat);
    assert(is_word(c));
    let ws = seq![c, decimal(n as nat)];
    lemma_unwords_two(c, decimal(n as nat));
    assert("lp-approve "@ + decimal(n as nat) =~= unwords(ws));
    assert(forall|i: int| 0 <= i < ws.len() ==> is_word(#[trigger] ws[i]));
    lemma_line_of_words(ws);
    lemma_command_words_differ();
}

/// `lp-deposit <n>` deposits `n` into the liquidity pool.
pub proof fn law_lp_deposit_line(n: u64)
    ensures
        command_spec("lp-deposit "@ + decimal(n as nat)) == (CommandModel::LpDeposit { amount: n }),
{
    reveal_strlit("lp-deposit");
    reveal_strlit("lp-deposit ");
    let c = "lp-deposit"@;
    lemma_decimal_word(n as nat);
    assert(is_word(c));
    let ws = seq![c, decimal(n as nat)];
    lemma_unwords_two(c, decimal(n as nat));
    assert("lp-deposit "@ + decimal(n as nat) =~= unwords(ws));
    assert(forall|i: int| 0 <= i < ws.len() ==> is_word(#[trigger] ws[i]));
    lemma_line_of_words(ws);
    lemma_command_words_differ();
}

/// `lp-withdraw <n>` withdraws `n` from the liquidity pool.
pub proof fn law_lp_withdraw_line(n: u64)
    ensures
        command_spec("lp-withdraw "@ + decimal(n as nat)) == (CommandModel::LpWithdraw { amount: n }),
{
    reveal_strlit("lp-withdraw");
    reveal_strlit("lp-withdraw ");
    let c = "lp-withdraw"@;
    lemma_decimal_word(n as nat);
    assert(is_word(c));
    let ws = seq![c, decimal(n as nat)];
    lemma_unwords_two(c, decimal(n as nat));
    assert("lp-withdraw "@ + decimal(n as nat) =~= unwords(ws));
    assert(forall|i: int| 0 <= i < ws.len() ==> is_word(#[trigger] ws[i]));
    lemma_line_of_words(ws);
    lemma_command_words_differ();
}

/// `lp-btc-deposit` alone deposits without naming a transaction.
pub proof fn law_lp_btc_deposit_bare_line()
    ensures
        command_spec("lp-btc-deposit"@) == (CommandModel::LpBtcDeposit { txid: None }),
{
    reveal_strlit("lp-btc-deposit");
    let c = "lp-btc-deposit"@;
    assert(is_word(c));
    let ws = seq![c];
    assert(unwords(ws) == c);
    assert("lp-btc-deposit"@ =~= unwords(ws));
    assert(forall|i: int| 0 <= i < ws.len() ==> is_word(#[trigger] ws[i]));
    lemma_line_of_words(ws);
    lemma_command_words_differ();
}

/// `lp-btc-deposit <txid>` names the transaction by its hex bytes, and a word that is no hex is refused.
pub proof fn law_lp_btc_deposit_line(w: Seq<char>)
    requires
        is_word(w),
    ensures
        command_spec("lp-btc-deposit "@ + w) == (match hex_decode_spec(w) {
            Some(t) => CommandModel::LpBtcDeposit { txid: Some(t) },
            None => CommandModel::Reject { message: "Invalid txid hex format"@ },
        }),
{
    reveal_strlit("lp-btc-deposit");
    reveal_strlit("lp-btc-deposit ");
    let c = "lp-btc-deposit"@;
    assert(is_word(c));
    let ws = seq![c, w];
    lemma_unwords_two(c, w);
    assert("lp-btc-deposit "@ + w =~= unwords(ws));
    assert(forall|i: int| 0 <= i < ws.len() ==> is_word(#[trigger] ws[i]));
    lemma_line_of_words(ws);
    lemma_command_words_differ();
}

/// `lp-btc-withdraw <n> <address>` withdraws `n` from the pool to the address.
pub proof fn law_lp_btc_withdraw_line(n: u64, w: Seq<char>)
    requires
        is_word(w),
    ensures
        command_spec("lp-btc-withdraw "@ + decimal(n as nat) + " "@ + w) == (CommandModel::LpBtcWithdraw { amount: n, destination: w }),
{
    reveal_strlit("lp-btc-withdraw");
    reveal_strlit("lp-btc-withdraw ");
    reveal_strlit(" ");
    let c = "lp-btc-withdraw"@;
    lemma_decimal_word(n as nat);
    assert(is_word(c));
    let ws = seq![c, decimal(n as nat), w];
    lemma_unwords_three(c, decimal(n as nat), w);
    assert("lp-btc-withdraw "@ + decimal(n as nat) + " "@ + w =~= unwords(ws));
    assert(forall|i: int| 0 <= i < ws.len() ==> is_word(#[trigger] ws[i]));
    lemma_line_of_words(ws);
    lemma_command_words_differ();
}

/// `btc-send <n> <address>` sends `n` to the address.
pub proof fn law_btc_send_line(n: u64, w: Seq<char>)
    requires
        is_word(w),
    ensures
        command_spec("btc-send "@ + decimal(n as nat) + " "@ + w) == (CommandModel::BtcSend { amount: n, destination: w }),
{
    reveal_strlit("btc-send");
    reveal_strlit("btc-send ");
    reveal_strlit(" ");
    let c = "btc-send"@;
    lemma_decimal_word(n as nat);
    assert(is_word(c));
    let ws = seq![c, decimal(n as nat), w];
    lemma_unwords_three(c, decimal(n as nat), w);
    assert("btc-send "@ + decimal(n as nat) + " "@ + w =~= unwords(ws));
    assert(forall|i: int| 0 <= i < ws.len() ==> is_word(#[trigger] ws[i]));
    lemma_line_of_words(ws);
    lemma_command_words_differ();
}

/// `icp-approve <amount>` approves that ICP amount, as written.
pub proof fn law_icp_approve_line(w: Seq<char>)
    requires
        is_word(w),
    ensures
        command_spec("icp-approve "@ + w) == (CommandModel::IcpApprove { amount_icp: w }),
{
    reveal_strlit("icp-approve");
    reveal_strlit("icp-approve ");
    let c = "icp-approve"@;
    assert(is_word(c));
    let ws = seq![c, w];
    lemma_unwords_two(c, w);
    assert("icp-approve "@ + w =~= unwords(ws));
    assert(forall|i: int| 0 <= i < ws.len() ==> is_word(#[trigger] ws[i]));
    lemma_line_of_words(ws);
    lemma_command_words_differ();
}

/// `offramp <invoice>` pays the invoice out with no fallback address.
pub proof fn law_offramp_line(w: Seq<char>)
    requires
        is_word(w),
    ensures
        command_spec("offramp "@ + w) == (CommandModel::Offramp { invoice: w, fallback_btc_address: None }),
{
    reveal_strlit("offramp");
    reveal_strlit("offramp ");
    let c = "offramp"@;
    assert(is_word(c));
    let ws = seq![c, w];
    lemma_unwords_two(c, w);
    assert("offramp "@ + w =~= unwords(ws));
    assert(forall|i: int| 0 <= i < ws.len() ==> is_word(#[trigger] ws[i]));
    lemma_line_of_words(ws);
    lemma_command_words_differ();
}

/// `offramp <invoice> <address>` pays the invoice out with that fallback address.
pub proof fn law_offramp_fallback_line(w: Seq<char>, v: Seq<char>)
    requires
        is_word(w),
        is_word(v),
    ensures
        command_spec("offramp "@ + w + " "@ + v) == (CommandModel::Offramp { invoice: w, fallback_btc_address: Some(v) }),
{
    reveal_strlit("offramp");
    reveal_strlit("offramp ");
    reveal_strlit(" ");
    let c = "offramp"@;
    assert(is_word(c));
    let ws = seq![c, w, v];
    lemma_unwords_three(c, w, v);
    assert("offramp "@ + w + " "@ + v =~= unwords(ws));
    assert(forall|i: int| 0 <= i < ws.len() ==> is_word(#[trigger] ws[i]));
    lemma_line_of_words(ws);
    lemma_command_words_differ();
}

/// `offramp-status <id>` asks for the state of that off-ramp request.
pub proof fn law_offramp_status_line(w: Seq<char>)
    requires
        is_word(w),
    ensures
        command_spec("offramp-status "@ + w) == (CommandModel::OfframpStatus { request_id: w }),
{
    reveal_strlit("offramp-status");
    reveal_strlit("offramp-status ");
    let c = "offramp-status"@;
    assert(is_word(c));
    let ws = seq![c, w];
    lemma_unwords_two(c, w);
    assert("offramp-status "@ + w =~= unwords(ws));
    assert(forall|i: int| 0 <= i < ws.len() ==> is_word(#[trigger] ws[i]));
    lemma_line_of_words(ws);
    lemma_command_words_differ();
}

/// `request-onramp <n>` asks for an on-ramp of `n` satoshis.
pub proof fn law_request_onramp_line(n: u64)
    ensures
        command_spec("request-onramp "@ + decimal(n as nat)) == (CommandModel::RequestOnramp { amount_sats: n }),
{
    reveal_strlit("request-onramp");
    reveal_strlit("request-onramp ");
    let c = "request-onramp"@;
    lemma_decimal_word(n as nat);
    assert(is_word(c));
    let ws = seq![c, decimal(n as nat)];
    lemma_unwords_two(c, decimal(n as nat));
    assert("request-onramp "@ + decimal(n as nat) =~= unwords(ws));
    assert(forall|i: int| 0 <= i < ws.len() ==> is_word(#[trigger] ws[i]));
    lemma_line_of_words(ws);
    lemma_command_words_differ();
}

/// `get-invoice <id>` asks for the invoice of that request.
pub proof fn law_get_invoice_line(w: Seq<char>)
    requires
        is_word(w),
    ensures
        command_spec("get-invoice "@ + w) == (CommandModel::GetInvoice { request_id: w }),
{
    reveal_strlit("get-invoice");
    reveal_strlit("get-invoice ");
    let c = "get-invoice"@;
    assert(is_word(c));
    let ws = seq![c, w];
    lemma_unwords_two(c, w);
    assert("get-invoice "@ + w =~= unwords(ws));
    assert(forall|i: int| 0 <= i < ws.len() ==> is_word(#[trigger] ws[i]));
    lemma_line_of_words(ws);
    lemma_command_words_differ();
}

/// `set-test-timeouts <on> <off>` sets the on-ramp timeout to `n` and the off-ramp timeout to `m`.
pub proof fn law_set_test_timeouts_line(n: u64, m: u64)
    ensures
        command_spec("set-test-timeouts "@ + decimal(n as nat) + " "@ + decimal(m as nat)) == (CommandModel::SetTestTimeouts { onramp_ns: n, offramp_ns: m }),
{
    reveal_strlit("set-test-timeouts");
    reveal_strlit("set-test-timeouts ");
    reveal_strlit(" ");
    let c = "set-test-timeouts"@;
    lemma_decimal_word(n as nat);
    lemma_decimal_word(m as nat);
    assert(is_word(c));
    let ws = seq![c, decimal(n as nat), decimal(m as nat)];
    lemma_unwords_three(c, decimal(n as nat), decimal(m as nat));
    assert("set-test-timeouts "@ + decimal(n as nat) + " "@ + decimal(m as nat) =~= unwords(ws));
    assert(forall|i: int| 0 <= i < ws.len() ==> is_word(#[trigger] ws[i]));
    lemma_line_of_words(ws);
    lemma_command_words_differ();
}

/// `register-relay <pubkey>` registers the node key given in hex; a word that is no hex, or not 33 bytes, is refused.
pub proof fn law_register_relay_line(w: Seq<char>)
    requires
        is_word(w),
    ensures
        command_spec("register-relay "@ + w) == (match hex_decode_spec(w) {
            None => CommandModel::Reject { message: "Invalid hex for node pubkey"@ },
            Some(k) => if k.len() != 33 {
                CommandModel::Reject {
                    message: "Node pubkey must be 33 bytes (compressed secp256k1)"@,
                }
            } else {
                CommandModel::RegisterRelay {
                    pubkey_hex: w,
                    node_pubkey: k,
                    webhook_url: None,
                    webhook_token: None,
                }
            },
        }),
{
    reveal_strlit("register-relay");
    reveal_strlit("register-relay ");
    let c = "register-relay"@;
    assert(is_word(c));
    let ws = seq![c, w];
    lemma_unwords_two(c, w);
    assert("register-relay "@ + w =~= unwords(ws));
    assert(forall|i: int| 0 <= i < ws.len() ==> is_word(#[trigger] ws[i]));
    lemma_line_of_words(ws);
    lemma_command_words_differ();
}

/// `set-admin <principal>` names the new admin.
pub proof fn law_set_admin_line(w: Seq<char>)
    requires
        is_word(w),
    ensures
        command_spec("set-admin "@ + w) == (CommandModel::SetAdmin { principal_text: w }),
{
    reveal_strlit("set-admin");
    reveal_strlit("set-admin ");
    let c = "set-admin"@;
    assert(is_word(c));
    let ws = seq![c, w];
    lemma_unwords_two(c, w);
    assert("set-admin "@ + w =~= unwords(ws));
    assert(forall|i: int| 0 <= i < ws.len() ==> is_word(#[trigger] ws[i]));
    lemma_line_of_words(ws);
    lemma_command_words_differ();
}

/// `withdraw-fees <principal>` names the recipient of the fees.
pub proof fn law_withdraw_fees_line(w: Seq<char>)
    requires
        is_word(w),
    ensures
        command_spec("withdraw-fees "@ + w) == (CommandModel::WithdrawFees { recipient_text: w }),
{
    reveal_strlit("withdraw-fees");
    reveal_strlit("withdraw-fees ");
    let c = "withdraw-fees"@;
    assert(is_word(c));
    let ws = seq![c, w];
    lemma_unwords_two(c, w);
    assert("withdraw-fees "@ + w =~= unwords(ws));
    assert(forall|i: int| 0 <= i < ws.len() ==> is_word(#[trigger] ws[i]));
    lemma_line_of_words(ws);
    lemma_command_words_differ();
}

/// `status`, whatever words follow it, asks for `Action::Status`.
pub proof fn law_status_line(rest: Seq<Seq<char>>)
    requires
        forall|i: int| 0 <= i < rest.len() ==> is_word(#[trigger] rest[i]),
    ensures
        command_spec(unwords(seq!["status"@] + rest)) == CommandModel::Simple(Action::Status),
{
    reveal_strlit("status");
    let c = "status"@;
    assert(is_word(c));
    let ws = seq![c] + rest;
    assert(ws[0] == c);
    assert forall|i: int| 0 <= i < ws.len() implies is_word(#[trigger] ws[i]) by {
        if i > 0 {
            assert(ws[i] == rest[i - 1]);
        }
    }
    lemma_line_of_words(ws);
    lemma_command_words_differ();
}

/// `fetch-key`, whatever words follow it, asks for `Action::FetchKey`.
pub proof fn law_fetch_key_line(rest: Seq<Seq<char>>)
    requires
        forall|i: int| 0 <= i < rest.len() ==> is_word(#[trigger] rest[i]),
    ensures
        command_spec(unwords(seq!["fetch-key"@] + rest)) == CommandModel::Simple(Action::FetchKey),
{
    reveal_strlit("fetch-key");
    let c = "fetch-key"@;
    assert(is_word(c));
    let ws = seq![c] + rest;
    assert(ws[0] == c);
    assert forall|i: int| 0 <= i < ws.len() implies is_word(#[trigger] ws[i]) by {
        if i > 0 {
            assert(ws[i] == rest[i - 1]);
        }
    }
    lemma_line_of_words(ws);
    lemma_command_words_differ();
}

/// `ln-address`, whatever words follow it, asks for `Action::LnAddress`.
pub proof fn law_ln_address_line(rest: Seq<Seq<char>>)
    requires
        forall|i: int| 0 <= i < rest.len() ==> is_word(#[trigger] rest[i]),
    ensures
        command_spec(unwords(seq!["ln-address"@] + rest)) == CommandModel::Simple(Action::LnAddress),
{
    reveal_strlit("ln-address");
    let c = "ln-address"@;
    assert(is_word(c));
    let ws = seq![c] + rest;
    assert(ws[0] == c);
    assert forall|i: int| 0 <= i < ws.len() implies is_word(#[trigger] ws[i]) by {
        if i > 0 {
            assert(ws[i] == rest[i - 1]);
        }
    }
    lemma_line_of_words(ws);
    lemma_command_words_differ();
}

/// `lp-balance`, whatever words follow it, asks for `Action::LpBalance`.
pub proof fn law_lp_balance_line(rest: Seq<Seq<char>>)
    requires
        forall|i: int| 0 <= i < rest.len() ==> is_word(#[trigger] rest[i]),
    ensures
        command_spec(unwords(seq!["lp-balance"@] + rest)) == CommandModel::Simple(Action::LpBalance),
{
    reveal_strlit("lp-balance");
    let c = "lp-balance"@;
    assert(is_word(c));
    let ws = seq![c] + rest;
    assert(ws[0] == c);
    assert forall|i: int| 0 <= i < ws.len() implies is_word(#[trigger] ws[i]) by {
        if i > 0 {
            assert(ws[i] == rest[i - 1]);
        }
    }
    lemma_line_of_words(ws);
    lemma_command_words_differ();
}

/// `lp-total`, whatever words follow it, asks for `Action::LpTotal`.
pub proof fn law_lp_total_line(rest: Seq<Seq<char>>)
    requires
        forall|i: int| 0 <= i < rest.len() ==> is_word(#[trigger] rest[i]),
    ensures
        command_spec(unwords(seq!["lp-total"@] + rest)) == CommandModel::Simple(Action::LpTotal),
{
    reveal_strlit("lp-total");
    let c = "lp-total"@;
    assert(is_word(c));
    let ws = seq![c] + rest;
    assert(ws[0] == c);
    assert forall|i: int| 0 <= i < ws.len() implies is_word(#[trigger] ws[i]) by {
        if i > 0 {
            assert(ws[i] == rest[i - 1]);
        }
    }
    lemma_line_of_words(ws);
    lemma_command_words_differ();
}

/// `lp-btc-address`, whatever words follow it, asks for `Action::LpBtcAddress`.
pub proof fn law_lp_btc_address_line(rest: Seq<Seq<char>>)
    requires
        forall|i: int| 0 <= i < rest.len() ==> is_word(#[trigger] rest[i]),
    ensures
        command_spec(unwords(seq!["lp-btc-address"@] + rest)) == CommandModel::Simple(Action::LpBtcAddress),
{
    reveal_strlit("lp-btc-address");
    let c = "lp-btc-address"@;
    assert(is_word(c));
    let ws = seq![c] + rest;
    assert(ws[0] == c);
    assert forall|i: int| 0 <= i < ws.len() implies is_word(#[trigger] ws[i]) by {
        if i > 0 {
            assert(ws[i] == rest[i - 1]);
        }
    }
    lemma_line_of_words(ws);
    lemma_command_words_differ();
}

/// `btc-address`, whatever words follow it, asks for `Action::BtcAddress`.
pub proof fn law_btc_address_line(rest: Seq<Seq<char>>)
    requires
        forall|i: int| 0 <= i < rest.len() ==> is_word(#[trigger] rest[i]),
    ensures
        command_spec(unwords(seq!["btc-address"@] + rest)) == CommandModel::Simple(Action::BtcAddress),
{
    reveal_strlit("btc-address");
    let c = "btc-address"@;
    assert(is_word(c));
    let ws = seq![c] + rest;
    assert(ws[0] == c);
    assert forall|i: int| 0 <= i < ws.len() implies is_word(#[trigger] ws[i]) by {
        if i > 0 {
            assert(ws[i] == rest[i - 1]);
        }
    }
    lemma_line_of_words(ws);
    lemma_command_words_differ();
}

/// `btc-balance`, whatever words follow it, asks for `Action::BtcBalance`.
pub proof fn law_btc_balance_line(rest: Seq<Seq<char>>)
    requires
        forall|i: int| 0 <= i < rest.len() ==> is_word(#[trigger] rest[i]),
    ensures
        command_spec(unwords(seq!["btc-balance"@] + rest)) == CommandModel::Simple(Action::BtcBalance),
{
    reveal_strlit("btc-balance");
    let c = "btc-balance"@;
    assert(is_word(c));
    let ws = seq![c] + rest;
    assert(ws[0] == c);
    assert forall|i: int| 0 <= i < ws.len() implies is_word(#[trigger] ws[i]) by {
        if i > 0 {
            assert(ws[i] == rest[i - 1]);
        }
    }
    lemma_line_of_words(ws);
    lemma_command_words_differ();
}

/// `ckbtc-balance`, whatever words follow it, asks for `Action::CkbtcBalance`.
pub proof fn law_ckbtc_balance_line(rest: Seq<Seq<char>>)
    requires
        forall|i: int| 0 <= i < rest.len() ==> is_word(#[trigger] rest[i]),
    ensures
        command_spec(unwords(seq!["ckbtc-balance"@] + rest)) == CommandModel::Simple(Action::CkbtcBalance),
{
    reveal_strlit("ckbtc-balance");
    let c = "ckbtc-balance"@;
    assert(is_word(c));
    let ws = seq![c] + rest;
    assert(ws[0] == c);
    assert forall|i: int| 0 <= i < ws.len() implies is_word(#[trigger] ws[i]) by {
        if i > 0 {
            assert(ws[i] == rest[i - 1]);
        }
    }
    lemma_line_of_words(ws);
    lemma_command_words_differ();
}

/// `icp-balance`, whatever words follow it, asks for `Action::IcpBalance`.
pub proof fn law_icp_balance_line(rest: Seq<Seq<char>>)
    requires
        forall|i: int| 0 <= i < rest.len() ==> is_word(#[trigger] rest[i]),
    ensures
        command_spec(unwords(seq!["icp-balance"@] + rest)) == CommandModel::Simple(Action::IcpBalance),
{
    reveal_strlit("icp-balance");
    let c = "icp-balance"@;
    assert(is_word(c));
    let ws = seq![c] + rest;
    assert(ws[0] == c);
    assert forall|i: int| 0 <= i < ws.len() implies is_word(#[trigger] ws[i]) by {
        if i > 0 {
            assert(ws[i] == rest[i - 1]);
        }
    }
    lemma_line_of_words(ws);
    lemma_command_words_differ();
}

/// `check-expired-swaps`, whatever words follow it, asks for `Action::CheckExpiredSwaps`.
pub proof fn law_check_expired_swaps_line(rest: Seq<Seq<char>>)
    requires
        forall|i: int| 0 <= i < rest.len() ==> is_word(#[trigger] rest[i]),
    ensures
        command_spec(unwords(seq!["check-expired-swaps"@] + rest)) == CommandModel::Simple(Action::CheckExpiredSwaps),
{
    reveal_strlit("check-expired-swaps");
    let c = "check-expired-swaps"@;
    assert(is_word(c));
    let ws = seq![c] + rest;
    assert(ws[0] == c);
    assert forall|i: int| 0 <= i < ws.len() implies is_word(#[trigger] ws[i]) by {
        if i > 0 {
            assert(ws[i] == rest[i - 1]);
        }
    }
    lemma_line_of_words(ws);
    lemma_command_words_differ();
}

/// `expired-counts`, whatever words follow it, asks for `Action::ExpiredCounts`.
pub proof fn law_expired_counts_line(rest: Seq<Seq<char>>)
    requires
        forall|i: int| 0 <= i < rest.len() ==> is_word(#[trigger] rest[i]),
    ensures
        command_spec(unwords(seq!["expired-counts"@] + rest)) == CommandModel::Simple(Action::ExpiredCounts),
{
    reveal_strlit("expired-counts");
    let c = "expired-counts"@;
    assert(is_word(c));
    let ws = seq![c] + rest;
    assert(ws[0] == c);
    assert forall|i: int| 0 <= i < ws.len() implies is_word(#[trigger] ws[i]) by {
        if i > 0 {
            assert(ws[i] == rest[i - 1]);
        }
    }
    lemma_line_of_words(ws);
    lemma_command_words_differ();
}

/// `relay-info`, whatever words follow it, asks for `Action::RelayInfo`.
pub proof fn law_relay_info_line(rest: Seq<Seq<char>>)
    requires
        forall|i: int| 0 <= i < rest.len() ==> is_word(#[trigger] rest[i]),
    ensures
        command_spec(unwords(seq!["relay-info"@] + rest)) == CommandModel::Simple(Action::RelayInfo),
{
    reveal_strlit("relay-info");
    let c = "relay-info"@;
    assert(is_word(c));
    let ws = seq![c] + rest;
    assert(ws[0] == c);
    assert forall|i: int| 0 <= i < ws.len() implies is_word(#[trigger] ws[i]) by {
        if i > 0 {
            assert(ws[i] == rest[i - 1]);
        }
    }
    lemma_line_of_words(ws);
    lemma_command_words_differ();
}

/// `rate-limit`, whatever words follow it, asks for `Action::RateLimit`.
pub proof fn law_rate_limit_line(rest: Seq<Seq<char>>)
    requires
        forall|i: int| 0 <= i < rest.len() ==> is_word(#[trigger] rest[i]),
    ensures
        command_spec(unwords(seq!["rate-limit"@] + rest)) == CommandModel::Simple(Action::RateLimit),
{
    reveal_strlit("rate-limit");
    let c = "rate-limit"@;
    assert(is_word(c));
    let ws = seq![c] + rest;
    assert(ws[0] == c);
    assert forall|i: int| 0 <= i < ws.len() implies is_word(#[trigger] ws[i]) by {
        if i > 0 {
            assert(ws[i] == rest[i - 1]);
        }
    }
    lemma_line_of_words(ws);
    lemma_command_words_differ();
}

/// `whoami`, whatever words follow it, asks for `Action::Whoami`.
pub proof fn law_whoami_line(rest: Seq<Seq<char>>)
    requires
        forall|i: int| 0 <= i < rest.len() ==> is_word(#[trigger] rest[i]),
    ensures
        command_spec(unwords(seq!["whoami"@] + rest)) == CommandModel::Simple(Action::Whoami),
{
    reveal_strlit("whoami");
    let c = "whoami"@;
    assert(is_word(c));
    let ws = seq![c] + rest;
    assert(ws[0] == c);
    assert forall|i: int| 0 <= i < ws.len() implies is_word(#[trigger] ws[i]) by {
        if i > 0 {
            assert(ws[i] == rest[i - 1]);
        }
    }
    lemma_line_of_words(ws);
    lemma_command_words_differ();
}

/// `pending-onramps`, whatever words follow it, asks for `Action::PendingOnramps`.
pub proof fn law_pending_onramps_line(rest: Seq<Seq<char>>)
    requires
        forall|i: int| 0 <= i < rest.len() ==> is_word(#[trigger] rest[i]),
    ensures
        command_spec(unwords(seq!["pending-onramps"@] + rest)) == CommandModel::Simple(Action::PendingOnramps),
{
    reveal_strlit("pending-onramps");
    let c = "pending-onramps"@;
    assert(is_word(c));
    let ws = seq![c] + rest;
    assert(ws[0] == c);
    assert forall|i: int| 0 <= i < ws.len() implies is_word(#[trigger] ws[i]) by {
        if i > 0 {
            assert(ws[i] == rest[i - 1]);
        }
    }
    lemma_line_of_words(ws);
    lemma_command_words_differ();
}

/// `pending-offramps`, whatever words follow it, asks for `Action::PendingOfframps`.
pub proof fn law_pending_offramps_line(rest: Seq<Seq<char>>)
    requires
        forall|i: int| 0 <= i < rest.len() ==> is_word(#[trigger] rest[i]),
    ensures
        command_spec(unwords(seq!["pending-offramps"@] + rest)) == CommandModel::Simple(Action::PendingOfframps),
{
    reveal_strlit("pending-offramps");
    let c = "pending-offramps"@;
    assert(is_word(c));
    let ws = seq![c] + rest;
    assert(ws[0] == c);
    assert forall|i: int| 0 <= i < ws.len() implies is_word(#[trigger] ws[i]) by {
        if i > 0 {
            assert(ws[i] == rest[i - 1]);
        }
    }
    lemma_line_of_words(ws);
    lemma_command_words_differ();
}

/// `help`, whatever words follow it, asks for `Action::Help`.
pub proof fn law_help_line(rest: Seq<Seq<char>>)
    requires
        forall|i: int| 0 <= i < rest.len() ==> is_word(#[trigger] rest[i]),
    ensures
        command_spec(unwords(seq!["help"@] + rest)) == CommandModel::Simple(Action::Help),
{
    reveal_strlit("help");
    let c = "help"@;
    assert(is_word(c));
    let ws = seq![c] + rest;
    assert(ws[0] == c);
    assert forall|i: int| 0 <= i < ws.len() implies is_word(#[trigger] ws[i]) by {
        if i > 0 {
            assert(ws[i] == rest[i - 1]);
        }
    }
    lemma_line_of_words(ws);
    lemma_command_words_differ();
}

/// `h`, whatever words follow it, asks for `Action::Help`.
pub proof fn law_h_line(rest: Seq<Seq<char>>)
    requires
        forall|i: int| 0 <= i < rest.len() ==> is_word(#[trigger] rest[i]),
    ensures
        command_spec(unwords(seq!["h"@] + rest)) == CommandModel::Simple(Action::Help),
{
    reveal_strlit("h");
    let c = "h"@;
    assert(is_word(c));
    let ws = seq![c] + rest;
    assert(ws[0] == c);
    assert forall|i: int| 0 <= i < ws.len() implies is_word(#[trigger] ws[i]) by {
        if i > 0 {
            assert(ws[i] == rest[i - 1]);
        }
    }
    lemma_line_of_words(ws);
    lemma_command_words_differ();
}

/// `exit`, whatever words follow it, asks for `Action::Exit`.
pub proof fn law_exit_line(rest: Seq<Seq<char>>)
    requires
        forall|i: int| 0 <= i < rest.len() ==> is_word(#[trigger] rest[i]),
    ensures
        command_spec(unwords(seq!["exit"@] + rest)) == CommandModel::Simple(Action::Exit),
{
    reveal_strlit("exit");
    let c = "exit"@;
    assert(is_word(c));
    let ws = seq![c] + rest;
    assert(ws[0] == c);
    assert forall|i: int| 0 <= i < ws.len() implies is_word(#[trigger] ws[i]) by {
        if i > 0 {
            assert(ws[i] == rest[i - 1]);
        }
    }
    lemma_line_of_words(ws);
    lemma_command_words_differ();
}

/// `quit`, whatever words follow it, asks for `Action::Exit`.
pub proof fn law_quit_line(rest: Seq<Seq<char>>)
    requires
        forall|i: int| 0 <= i < rest.len() ==> is_word(#[trigger] rest[i]),
    ensures
        command_spec(unwords(seq!["quit"@] + rest)) == CommandModel::Simple(Action::Exit),
{
    reveal_strlit("quit");
    let c = "quit"@;
    assert(is_word(c));
    let ws = seq![c] + rest;
    assert(ws[0] == c);
    assert forall|i: int| 0 <= i < ws.len() implies is_word(#[trigger] ws[i]) by {
        if i > 0 {
            assert(ws[i] == rest[i - 1]);
        }
    }
    lemma_line_of_words(ws);
    lemma_command_words_differ();
}

/// `q`, whatever words follow it, asks for `Action::Exit`.
pub proof fn law_q_line(rest: Seq<Seq<char>>)
    requires
        forall|i: int| 0 <= i < rest.len() ==> is_word(#[trigger] rest[i]),
    ensures
        command_spec(unwords(seq!["q"@] + rest)) == CommandModel::Simple(Action::Exit),
{
    reveal_strlit("q");
    let c = "q"@;
    assert(is_word(c));
    let ws = seq![c] + rest;
    assert(ws[0] == c);
    assert forall|i: int| 0 <= i < ws.len() implies is_word(#[trigger] ws[i]) by {
        if i > 0 {
            assert(ws[i] == rest[i - 1]);
        }
    }
    lemma_line_of_words(ws);
    lemma_command_words_differ();
}

/// `update-config --amp <n>` sets `amplification` to `n` and no other parameter.
pub proof fn law_update_config_amp_line(n: u64)
    ensures
        command_spec("update-config --amp "@ + decimal(n as nat)) == (CommandModel::UpdateConfig {
            update: StableSwapConfigUpdate { amplification: Some(n), ..no_config_update() },
            unknown_arg: None,
        }),
{
    reveal_strlit("update-config");
    reveal_strlit("--amp");
    reveal_strlit("update-config --amp ");
    let c = "update-config"@;
    let f = "--amp"@;
    let a = decimal(n as nat);
    lemma_decimal_word(n as nat);
    assert(is_word(c));
    assert(is_word(f));
    let ws = seq![c, f, a];
    lemma_unwords_three(c, f, a);
    assert("update-config --amp "@ + a =~= unwords(ws));
    assert(forall|i: int| 0 <= i < ws.len() ==> is_word(#[trigger] ws[i]));
    lemma_line_of_words(ws);
    lemma_command_words_differ();
    lemma_config_flags_distinct();
    let acc = StableSwapConfigUpdate { amplification: Some(n), ..no_config_update() };
    assert(config_args(ws, 3, acc) == (acc, None::<Seq<char>>));
}

/// `update-config --fee <n>` sets `fee_bps` to `n` and no other parameter.
pub proof fn law_update_config_fee_line(n: u64)
    ensures
        command_spec("update-config --fee "@ + decimal(n as nat)) == (CommandModel::UpdateConfig {
            update: StableSwapConfigUpdate { fee_bps: Some(n), ..no_config_update() },
            unknown_arg: None,
        }),
{
    reveal_strlit("update-config");
    reveal_strlit("--fee");
    reveal_strlit("update-config --fee ");
    let c = "update-config"@;
    let f = "--fee"@;
    let a = decimal(n as nat);
    lemma_decimal_word(n as nat);
    assert(is_word(c));
    assert(is_word(f));
    let ws = seq![c, f, a];
    lemma_unwords_three(c, f, a);
    assert("update-config --fee "@ + a =~= unwords(ws));
    assert(forall|i: int| 0 <= i < ws.len() ==> is_word(#[trigger] ws[i]));
    lemma_line_of_words(ws);
    lemma_command_words_differ();
    lemma_config_flags_distinct();
    let acc = StableSwapConfigUpdate { fee_bps: Some(n), ..no_config_update() };
    assert(config_args(ws, 3, acc) == (acc, None::<Seq<char>>));
}

/// `update-config --protocol-fee <n>` sets `protocol_fee_share_bps` to `n` and no other parameter.
pub proof fn law_update_config_protocol_fee_line(n: u64)
    ensures
        command_spec("update-config --protocol-fee "@ + decimal(n as nat)) == (CommandModel::UpdateConfig {
            update: StableSwapConfigUpdate { protocol_fee_share_bps: Some(n), ..no_config_update() },
            unknown_arg: None,
        }),
{
    reveal_strlit("update-config");
    reveal_strlit("--protocol-fee");
    reveal_strlit("update-config --protocol-fee ");
    let c = "update-config"@;
    let f = "--protocol-fee"@;
    let a = decimal(n as nat);
    lemma_decimal_word(n as nat);
    assert(is_word(c));
    assert(is_word(f));
    let ws = seq![c, f, a];
    lemma_unwords_three(c, f, a);
    assert("update-config --protocol-fee "@ + a =~= unwords(ws));
    assert(forall|i: int| 0 <= i < ws.len() ==> is_word(#[trigger] ws[i]));
    lemma_line_of_words(ws);
    lemma_command_words_differ();
    lemma_config_flags_distinct();
    let acc = StableSwapConfigUpdate { protocol_fee_share_bps: Some(n), ..no_config_update() };
    assert(config_args(ws, 3, acc) == (acc, None::<Seq<char>>));
}

/// `update-config --slippage <n>` sets `max_slippage_bps` to `n` and no other parameter.
pub proof fn law_update_config_slippage_line(n: u64)
    ensures
        command_spec("update-config --slippage "@ + decimal(n as nat)) == (CommandModel::UpdateConfig {
            update: StableSwapConfigUpdate { max_slippage_bps: Some(n), ..no_config_update() },
            unknown_arg: None,
        }),
{
    reveal_strlit("update-config");
    reveal_strlit("--slippage");
    reveal_strlit("update-config --slippage ");
    let c = "update-config"@;
    let f = "--slippage"@;
    let a = decimal(n as nat);
    lemma_decimal_word(n as nat);
    assert(is_word(c));
    assert(is_word(f));
    let ws = seq![c, f, a];
    lemma_unwords_three(c, f, a);
    assert("update-config --slippage "@ + a =~= unwords(ws));
    assert(forall|i: int| 0 <= i < ws.len() ==> is_word(#[trigger] ws[i]));
    lemma_line_of_words(ws);
    lemma_command_words_differ();
    lemma_config_flags_distinct();
    let acc = StableSwapConfigUpdate { max_slippage_bps: Some(n), ..no_config_update() };
    assert(config_args(ws, 3, acc) == (acc, None::<Seq<char>>));
}

/// `update-config --imbalance-fee <n>` sets `imbalance_fee_bps` to `n` and no other parameter.
pub proof fn law_update_config_imbalance_fee_line(n: u64)
    ensures
        command_spec("update-config --imbalance-fee "@ + decimal(n as nat)) == (CommandModel::UpdateConfig {
            update: StableSwapConfigUpdate { imbalance_fee_bps: Some(n), ..no_config_update() },
            unknown_arg: None,
        }),
{
    reveal_strlit("update-config");
    reveal_strlit("--imbalance-fee");
    reveal_strlit("update-config --imbalance-fee ");
    let c = "update-config"@;
    let f = "--imbalance-fee"@;
    let a = decimal(n as nat);
    lemma_decimal_word(n as nat);
    assert(is_word(c));
    assert(is_word(f));
    let ws = seq![c, f, a];
    lemma_unwords_three(c, f, a);
    assert("update-config --imbalance-fee "@ + a =~= unwords(ws));
    assert(forall|i: int| 0 <= i < ws.len() ==> is_word(#[trigger] ws[i]));
    lemma_line_of_words(ws);
    lemma_command_words_differ();
    lemma_config_flags_distinct();
    let acc = StableSwapConfigUpdate { imbalance_fee_bps: Some(n), ..no_config_update() };
    assert(config_args(ws, 3, acc) == (acc, None::<Seq<char>>));
}

/// `update-config --rebate <n>` sets `rebate_bps` to `n` and no other parameter.
pub proof fn law_update_config_rebate_line(n: u64)
    ensures
        command_spec("update-config --rebate "@ + decimal(n as nat)) == (CommandModel::UpdateConfig {
            update: StableSwapConfigUpdate { rebate_bps: Some(n), ..no_config_update() },
            unknown_arg: None,
        }),
{
    reveal_strlit("update-config");
    reveal_strlit("--rebate");
    reveal_strlit("update-config --rebate ");
    let c = "update-config"@;
    let f = "--rebate"@;
    let a = decimal(n as nat);
    lemma_decimal_word(n as nat);
    assert(is_word(c));
    assert(is_word(f));
    let ws = seq![c, f, a];
    lemma_unwords_three(c, f, a);
    assert("update-config --rebate "@ + a =~= unwords(ws));
    assert(forall|i: int| 0 <= i < ws.len() ==> is_word(#[trigger] ws[i]));
    lemma_line_of_words(ws);
    lemma_command_words_differ();
    lemma_config_flags_distinct();
    let acc = StableSwapConfigUpdate { rebate_bps: Some(n), ..no_config_update() };
    assert(config_args(ws, 3, acc) == (acc, None::<Seq<char>>));
}

/// `update-config --max-swap-pct <n>` sets `max_swap_pct_bps` to `n` and no other parameter.
pub proof fn law_update_config_max_swap_pct_line(n: u64)
    ensures
        command_spec("update-config --max-swap-pct "@ + decimal(n as nat)) == (CommandModel::UpdateConfig {
            update: StableSwapConfigUpdate { max_swap_pct_bps: Some(n), ..no_config_update() },
            unknown_arg: None,
        }),
{
    reveal_strlit("update-config");
    reveal_strlit("--max-swap-pct");
    reveal_strlit("update-config --max-swap-pct ");
    let c = "update-config"@;
    let f = "--max-swap-pct"@;
    let a = decimal(n as nat);
    lemma_decimal_word(n as nat);
    assert(is_word(c));
    assert(is_word(f));
    let ws = seq![c, f, a];
    lemma_unwords_three(c, f, a);
    assert("update-config --max-swap-pct "@ + a =~= unwords(ws));
    assert(forall|i: int| 0 <= i < ws.len() ==> is_word(#[trigger] ws[i]));
    lemma_line_of_words(ws);
    lemma_command_words_differ();
    lemma_config_flags_distinct();
    let acc = StableSwapConfigUpdate { max_swap_pct_bps: Some(n), ..no_config_update() };
    assert(config_args(ws, 3, acc) == (acc, None::<Seq<char>>));
}


/// `ln-invoice <amount> <address>` with an amount that is no number is refused.
pub proof fn law_ln_invoice_words_line(w: Seq<char>, v: Seq<char>)
    requires
        is_word(w),
        is_word(v),
    ensures
        command_spec("ln-invoice "@ + w + " "@ + v) == (match parse_u64_spec(w) {
            Some(a) => CommandModel::LnInvoice { amount_msat: a, btc_address: v },
            None => CommandModel::Reject { message: "Invalid amount"@ },
        }),
{
    reveal_strlit("ln-invoice");
    reveal_strlit("ln-invoice ");
    reveal_strlit(" ");
    let c = "ln-invoice"@;
    assert(is_word(c));
    let ws = seq![c, w, v];
    lemma_unwords_three(c, w, v);
    assert("ln-invoice "@ + w + " "@ + v =~= unwords(ws));
    assert(forall|i: int| 0 <= i < ws.len() ==> is_word(#[trigger] ws[i]));
    lemma_line_of_words(ws);
    lemma_command_words_differ();
}

/// `lp-approve <amount>` with an amount that is no number is refused.
pub proof fn law_lp_approve_words_line(w: Seq<char>)
    requires
        is_word(w),
    ensures
        command_spec("lp-approve "@ + w) == (match parse_u64_spec(w) {
            Some(a) => CommandModel::LpApprove { amount: a },
            None => CommandModel::Reject { message: "Invalid amount"@ },
        }),
{
    reveal_strlit("lp-approve");
    reveal_strlit("lp-approve ");
    let c = "lp-approve"@;
    assert(is_word(c));
    let ws = seq![c, w];
    lemma_unwords_two(c, w);
    assert("lp-approve "@ + w =~= unwords(ws));
    assert(forall|i: int| 0 <= i < ws.len() ==> is_word(#[trigger] ws[i]));
    lemma_line_of_words(ws);
    lemma_command_words_differ();
}

/// `lp-deposit <amount>` with an amount that is no number is refused.
pub proof fn law_lp_deposit_words_line(w: Seq<char>)
    requires
        is_word(w),
    ensures
        command_spec("lp-deposit "@ + w) == (match parse_u64_spec(w) {
            Some(a) => CommandModel::LpDeposit { amount: a },
            None => CommandModel::Reject { message: "Invalid amount"@ },
        }),
{
    reveal_strlit("lp-deposit");
    reveal_strlit("lp-deposit ");
    let c = "lp-deposit"@;
    assert(is_word(c));
    let ws = seq![c, w];
    lemma_unwords_two(c, w);
    assert("lp-deposit "@ + w =~= unwords(ws));
    assert(forall|i: int| 0 <= i < ws.len() ==> is_word(#[trigger] ws[i]));
    lemma_line_of_words(ws);
    lemma_command_words_differ();
}

/// `lp-withdraw <amount>` with an amount that is no number is refused.
pub proof fn law_lp_withdraw_words_line(w: Seq<char>)
    requires
        is_word(w),
    ensures
        command_spec("lp-withdraw "@ + w) == (match parse_u64_spec(w) {
            Some(a) => CommandModel::LpWithdraw { amount: a },
            None => CommandModel::Reject { message: "Invalid amount"@ },
        }),
{
    reveal_strlit("lp-withdraw");
    reveal_strlit("lp-withdraw ");
    let c = "lp-withdraw"@;
    assert(is_word(c));
    let ws = seq![c, w];
    lemma_unwords_two(c, w);
    assert("lp-withdraw "@ + w =~= unwords(ws));
    assert(forall|i: int| 0 <= i < ws.len() ==> is_word(#[trigger] ws[i]));
    lemma_line_of_words(ws);
    lemma_command_words_differ();
}

/// `lp-btc-withdraw <amount> <address>` with an amount that is no number is refused.
pub proof fn law_lp_btc_withdraw_words_line(w: Seq<char>, v: Seq<char>)
    requires
        is_word(w),
        is_word(v),
    ensures
        command_spec("lp-btc-withdraw "@ + w + " "@ + v) == (match parse_u64_spec(w) {
            Some(a) => CommandModel::LpBtcWithdraw { amount: a, destination: v },
            None => CommandModel::Reject { message: "Invalid amount"@ },
        }),
{
    reveal_strlit("lp-btc-withdraw");
    reveal_strlit("lp-btc-withdraw ");
    reveal_strlit(" ");
    let c = "lp-btc-withdraw"@;
    assert(is_word(c));
    let ws = seq![c, w, v];
    lemma_unwords_three(c, w, v);
    assert("lp-btc-withdraw "@ + w + " "@ + v =~= unwords(ws));
    assert(forall|i: int| 0 <= i < ws.len() ==> is_word(#[trigger] ws[i]));
    lemma_line_of_words(ws);
    lemma_command_words_differ();
}

/// `btc-send <amount> <address>` with an amount that is no number is refused.
pub proof fn law_btc_send_words_line(w: Seq<char>, v: Seq<char>)
    requires
        is_word(w),
        is_word(v),
    ensures
        command_spec("btc-send "@ + w + " "@ + v) == (match parse_u64_spec(w) {
            Some(a) => CommandModel::BtcSend { amount: a, destination: v },
            None => CommandModel::Reject { message: "Invalid amount"@ },
        }),
{
    reveal_strlit("btc-send");
    reveal_strlit("btc-send ");
    reveal_strlit(" ");
    let c = "btc-send"@;
    assert(is_word(c));
    let ws = seq![c, w, v];
    lemma_unwords_three(c, w, v);
    assert("btc-send "@ + w + " "@ + v =~= unwords(ws));
    assert(forall|i: int| 0 <= i < ws.len() ==> is_word(#[trigger] ws[i]));
    lemma_line_of_words(ws);
    lemma_command_words_differ();
}

/// `request-onramp <amount>` with an amount that is no number is refused with its usage.
pub proof fn law_request_onramp_words_line(w: Seq<char>)
    requires
        is_word(w),
    ensures
        command_spec("request-onramp "@ + w) == (match parse_u64_spec(w) {
            Some(a) => CommandModel::RequestOnramp { amount_sats: a },
            None => CommandModel::Reject {
                message: "Invalid amount. Usage: request-onramp <amount_sats>"@,
            },
        }),
{
    reveal_strlit("request-onramp");
    reveal_strlit("request-onramp ");
    let c = "request-onramp"@;
    assert(is_word(c));
    let ws = seq![c, w];
    lemma_unwords_two(c, w);
    assert("request-onramp "@ + w =~= unwords(ws));
    assert(forall|i: int| 0 <= i < ws.len() ==> is_word(#[trigger] ws[i]));
    lemma_line_of_words(ws);
    lemma_command_words_differ();
}

/// `set-test-timeouts <on> <off>` where either is no number is refused with its usage.
pub proof fn law_set_test_timeouts_words_line(w: Seq<char>, v: Seq<char>)
    requires
        is_word(w),
        is_word(v),
    ensures
        command_spec("set-test-timeouts "@ + w + " "@ + v) == (match (parse_u64_spec(w), parse_u64_spec(v)) {
            (Some(on), Some(off)) => CommandModel::SetTestTimeouts { onramp_ns: on, offramp_ns: off },
            _ => CommandModel::Reject {
                message: "Invalid timeout. Usage: set-test-timeouts <onramp_ns> <offramp_ns>"@,
            },
        }),
{
    reveal_strlit("set-test-timeouts");
    reveal_strlit("set-test-timeouts ");
    reveal_strlit(" ");
    let c = "set-test-timeouts"@;
    assert(is_word(c));
    let ws = seq![c, w, v];
    lemma_unwords_three(c, w, v);
    assert("set-test-timeouts "@ + w + " "@ + v =~= unwords(ws));
    assert(forall|i: int| 0 <= i < ws.len() ==> is_word(#[trigger] ws[i]));
    lemma_line_of_words(ws);
    lemma_command_words_differ();
}

/// `update-config --amp <value>` sets `amplification` to the value read as a
/// number, `None` where it is no number, and no other parameter.
pub proof fn law_update_config_amp_words_line(w: Seq<char>)
    requires
        is_word(w),
    ensures
        command_spec("update-config --amp "@ + w) == (CommandModel::UpdateConfig {
            update: StableSwapConfigUpdate { amplification: parse_u64_spec(w), ..no_config_update() },
            unknown_arg: None,
        }),
{
    reveal_strlit("update-config");
    reveal_strlit("--amp");
    reveal_strlit("update-config --amp ");
    let c = "update-config"@;
    let f = "--amp"@;
    assert(is_word(c));
    assert(is_word(f));
    let ws = seq![c, f, w];
    lemma_unwords_three(c, f, w);
    assert("update-config --amp "@ + w =~= unwords(ws));
    assert(forall|i: int| 0 <= i < ws.len() ==> is_word(#[trigger] ws[i]));
    lemma_line_of_words(ws);
    lemma_command_words_differ();
    lemma_config_flags_distinct();
    let acc = StableSwapConfigUpdate { amplification: parse_u64_spec(w), ..no_config_update() };
    assert(config_args(ws, 3, acc) == (acc, None::<Seq<char>>));
}

/// `update-config --fee <value>` sets `fee_bps` to the value read as a
/// number, `None` where it is no number, and no other parameter.
pub proof fn law_update_config_fee_words_line(w: Seq<char>)
    requires
        is_word(w),
    ensures
        command_spec("update-config --fee "@ + w) == (CommandModel::UpdateConfig {
            update: StableSwapConfigUpdate { fee_bps: parse_u64_spec(w), ..no_config_update() },
            unknown_arg: None,
        }),
{
    reveal_strlit("update-config");
    reveal_strlit("--fee");
    reveal_strlit("update-config --fee ");
    let c = "update-config"@;
    let f = "--fee"@;
    assert(is_word(c));
    assert(is_word(f));
    let ws = seq![c, f, w];
    lemma_unwords_three(c, f, w);
    assert("update-config --fee "@ + w =~= unwords(ws));
    assert(forall|i: int| 0 <= i < ws.len() ==> is_word(#[trigger] ws[i]));
    lemma_line_of_words(ws);
    lemma_command_words_differ();
    lemma_config_flags_distinct();
    let acc = StableSwapConfigUpdate { fee_bps: parse_u64_spec(w), ..no_config_update() };
    assert(config_args(ws, 3, acc) == (acc, None::<Seq<char>>));
}

/// `update-config --protocol-fee <value>` sets `protocol_fee_share_bps` to the value read as a
/// number, `None` where it is no number, and no other parameter.
pub proof fn law_update_config_protocol_fee_words_line(w: Seq<char>)
    requires
        is_word(w),
    ensures
        command_spec("update-config --protocol-fee "@ + w) == (CommandModel::UpdateConfig {
            update: StableSwapConfigUpdate { protocol_fee_share_bps: parse_u64_spec(w), ..no_config_update() },
            unknown_arg: None,
        }),
{
    reveal_strlit("update-config");
    reveal_strlit("--protocol-fee");
    reveal_strlit("update-config --protocol-fee ");
    let c = "update-config"@;
    let f = "--protocol-fee"@;
    assert(is_word(c));
    assert(is_word(f));
    let ws = seq![c, f, w];
    lemma_unwords_three(c, f, w);
    assert("update-config --protocol-fee "@ + w =~= unwords(ws));
    assert(forall|i: int| 0 <= i < ws.len() ==> is_word(#[trigger] ws[i]));
    lemma_line_of_words(ws);
    lemma_command_words_differ();
    lemma_config_flags_distinct();
    let acc = StableSwapConfigUpdate { protocol_fee_share_bps: parse_u64_spec(w), ..no_config_update() };
    assert(config_args(ws, 3, acc) == (acc, None::<Seq<char>>));
}

/// `update-config --slippage <value>` sets `max_slippage_bps` to the value read as a
/// number, `None` where it is no number, and no other parameter.
pub proof fn law_update_config_slippage_words_line(w: Seq<char>)
    requires
        is_word(w),
    ensures
        command_spec("update-config --slippage "@ + w) == (CommandModel::UpdateConfig {
            update: StableSwapConfigUpdate { max_slippage_bps: parse_u64_spec(w), ..no_config_update() },
            unknown_arg: None,
        }),
{
    reveal_strlit("update-config");
    reveal_strlit("--slippage");
    reveal_strlit("update-config --slippage ");
    let c = "update-config"@;
    let f = "--slippage"@;
    assert(is_word(c));
    assert(is_word(f));
    let ws = seq![c, f, w];
    lemma_unwords_three(c, f, w);
    assert("update-config --slippage "@ + w =~= unwords(ws));
    assert(forall|i: int| 0 <= i < ws.len() ==> is_word(#[trigger] ws[i]));
    lemma_line_of_words(ws);
    lemma_command_words_differ();
    lemma_config_flags_distinct();
    let acc = StableSwapConfigUpdate { max_slippage_bps: parse_u64_spec(w), ..no_config_update() };
    assert(config_args(ws, 3, acc) == (acc, None::<Seq<char>>));
}

/// `update-config --imbalance-fee <value>` sets `imbalance_fee_bps` to the value read as a
/// number, `None` where it is no number, and no other parameter.
pub proof fn law_update_config_imbalance_fee_words_line(w: Seq<char>)
    requires
        is_word(w),
    ensures
        command_spec("update-config --imbalance-fee "@ + w) == (CommandModel::UpdateConfig {
            update: StableSwapConfigUpdate { imbalance_fee_bps: parse_u64_spec(w), ..no_config_update() },
            unknown_arg: None,
        }),
{
    reveal_strlit("update-config");
    reveal_strlit("--imbalance-fee");
    reveal_strlit("update-config --imbalance-fee ");
    let c = "update-config"@;
    let f = "--imbalance-fee"@;
    assert(is_word(c));
    assert(is_word(f));
    let ws = seq![c, f, w];
    lemma_unwords_three(c, f, w);
    assert("update-config --imbalance-fee "@ + w =~= unwords(ws));
    assert(forall|i: int| 0 <= i < ws.len() ==> is_word(#[trigger] ws[i]));
    lemma_line_of_words(ws);
    lemma_command_words_differ();
    lemma_config_flags_distinct();
    let acc = StableSwapConfigUpdate { imbalance_fee_bps: parse_u64_spec(w), ..no_config_update() };
    assert(config_args(ws, 3, acc) == (acc, None::<Seq<char>>));
}

/// `update-config --rebate <value>` sets `rebate_bps` to the value read as a
/// number, `None` where it is no number, and no other parameter.
pub proof fn law_update_config_rebate_words_line(w: Seq<char>)
    requires
        is_word(w),
    ensures
        command_spec("update-config --rebate "@ + w) == (CommandModel::UpdateConfig {
            update: StableSwapConfigUpdate { rebate_bps: parse_u64_spec(w), ..no_config_update() },
            unknown_arg: None,
        }),
{
    reveal_strlit("update-config");
    reveal_strlit("--rebate");
    reveal_strlit("update-config --rebate ");
    let c = "update-config"@;
    let f = "--rebate"@;
    assert(is_word(c));
    assert(is_word(f));
    let ws = seq![c, f, w];
    lemma_unwords_three(c, f, w);
    assert("update-config --rebate "@ + w =~= unwords(ws));
    assert(forall|i: int| 0 <= i < ws.len() ==> is_word(#[trigger] ws[i]));
    lemma_line_of_words(ws);
    lemma_command_words_differ();
    lemma_config_flags_distinct();
    let acc = StableSwapConfigUpdate { rebate_bps: parse_u64_spec(w), ..no_config_update() };
    assert(config_args(ws, 3, acc) == (acc, None::<Seq<char>>));
}

/// `update-config --max-swap-pct <value>` sets `max_swap_pct_bps` to the value read as a
/// number, `None` where it is no number, and no other parameter.
pub proof fn law_update_config_max_swap_pct_words_line(w: Seq<char>)
    requires
        is_word(w),
    ensures
        command_spec("update-config --max-swap-pct "@ + w) == (CommandModel::UpdateConfig {
            update: StableSwapConfigUpdate { max_swap_pct_bps: parse_u64_spec(w), ..no_config_update() },
            unknown_arg: None,
        }),
{
    reveal_strlit("update-config");
    reveal_strlit("--max-swap-pct");
    reveal_strlit("update-config --max-swap-pct ");
    let c = "update-config"@;
    let f = "--max-swap-pct"@;
    assert(is_word(c));
    assert(is_word(f));
    let ws = seq![c, f, w];
    lemma_unwords_three(c, f, w);
    assert("update-config --max-swap-pct "@ + w =~= unwords(ws));
    assert(forall|i: int| 0 <= i < ws.len() ==> is_word(#[trigger] ws[i]));
    lemma_line_of_words(ws);
    lemma_command_words_differ();
    lemma_config_flags_distinct();
    let acc = StableSwapConfigUpdate { max_swap_pct_bps: parse_u64_spec(w), ..no_config_update() };
    assert(config_args(ws, 3, acc) == (acc, None::<Seq<char>>));
}

/// `update-config <word>` with no value after the word changes nothing and
/// reports the word.
pub proof fn law_update_config_lone_word_line(w: Seq<char>)
    requires
        is_word(w),
    ensures
        command_spec("update-config "@ + w) == (CommandModel::UpdateConfig {
            update: no_config_update(),
            unknown_arg: Some(w),
        }),
{
    reveal_strlit("update-config");
    reveal_strlit("update-config ");
    let c = "update-config"@;
    assert(is_word(c));
    let ws = seq![c, w];
    lemma_unwords_two(c, w);
    assert("update-config "@ + w =~= unwords(ws));
    assert(forall|i: int| 0 <= i < ws.len() ==> is_word(#[trigger] ws[i]));
    lemma_line_of_words(ws);
    lemma_command_words_differ();
}

/// `update-config <word> <value>` where the word is no flag changes nothing
/// and reports the word.
pub proof fn law_update_config_unknown_flag_line(w: Seq<char>, v: Seq<char>)
    requires
        is_word(w),
        is_word(v),
        w != "--amp"@ && w != "--fee"@ && w != "--protocol-fee"@ && w != "--slippage"@ && w
            != "--imbalance-fee"@ && w != "--rebate"@ && w != "--max-swap-pct"@,
    ensures
        command_spec("update-config "@ + w + " "@ + v) == (CommandModel::UpdateConfig {
            update: no_config_update(),
            unknown_arg: Some(w),
        }),
{
    reveal_strlit("update-config");
    reveal_strlit("update-config ");
    reveal_strlit(" ");
    let c = "update-config"@;
    assert(is_word(c));
    let ws = seq![c, w, v];
    lemma_unwords_three(c, w, v);
    assert("update-config "@ + w + " "@ + v =~= unwords(ws));
    assert(forall|i: int| 0 <= i < ws.len() ==> is_word(#[trigger] ws[i]));
    lemma_line_of_words(ws);
    lemma_command_words_differ();
}

/// The words that name a command of the client.
pub open spec fn is_command_word(c: Seq<char>) -> bool {
    ||| c == "rpc"@
    ||| c == "p2p"@
    ||| c == "status"@
    ||| c == "fetch-key"@
    ||| c == "ln-address"@
    ||| c == "ln-invoice"@
    ||| c == "lp-approve"@
    ||| c == "lp-deposit"@
    ||| c == "lp-withdraw"@
    ||| c == "lp-balance"@
    ||| c == "lp-total"@
    ||| c == "lp-btc-address"@
    ||| c == "lp-btc-deposit"@
    ||| c == "lp-btc-withdraw"@
    ||| c == "btc-address"@
    ||| c == "btc-balance"@
    ||| c == "btc-send"@
    ||| c == "ckbtc-balance"@
    ||| c == "icp-balance"@
    ||| c == "icp-approve"@
    ||| c == "offramp"@
    ||| c == "offramp-status"@
    ||| c == "request-onramp"@
    ||| c == "get-invoice"@
    ||| c == "set-test-timeouts"@
    ||| c == "check-expired-swaps"@
    ||| c == "expired-counts"@
    ||| c == "register-relay"@
    ||| c == "relay-info"@
    ||| c == "rate-limit"@
    ||| c == "whoami"@
    ||| c == "set-admin"@
    ||| c == "withdraw-fees"@
    ||| c == "update-config"@
    ||| c == "pending-onramps"@
    ||| c == "pending-offramps"@
    ||| c == "help"@
    ||| c == "h"@
    ||| c == "exit"@
    ||| c == "quit"@
    ||| c == "q"@
}

/// A line whose first word names no command is answered as unknown, with
/// the line as typed, without its surrounding white space.
pub proof fn law_unknown_command_line(c: Seq<char>, rest: Seq<Seq<char>>)
    requires
        is_word(c),
        !is_command_word(c),
        forall|i: int| 0 <= i < rest.len() ==> is_word(#[trigger] rest[i]),
    ensures
        command_spec(unwords(seq![c] + rest)) == (CommandModel::Unknown {
            input: unwords(seq![c] + rest),
        }),
{
    let ws = seq![c] + rest;
    assert(ws[0] == c);
    assert forall|i: int| 0 <= i < ws.len() implies is_word(#[trigger] ws[i]) by {
        if i > 0 {
            assert(ws[i] == rest[i - 1]);
        }
    }
    lemma_line_of_words(ws);
}

proof fn lemma_trim_start_blank(line: Seq<char>)
    requires
        forall|i: int| 0 <= i < line.len() ==> is_white_space(#[trigger] line[i]),
    ensures
        trim_start(line).len() == 0,
    decreases line.len(),
{
    if line.len() > 0 {
        let t = line.drop_first();
        assert forall|i: int| 0 <= i < t.len() implies is_white_space(#[trigger] t[i]) by {
            assert(t[i] == line[i + 1]);
        }
        lemma_trim_start_blank(t);
        assert(is_white_space(line[0]));
    }
}

/// A line of white space alone asks for nothing.
pub proof fn law_blank_line(line: Seq<char>)
    requires
        forall|i: int| 0 <= i < line.len() ==> is_white_space(#[trigger] line[i]),
    ensures
        command_spec(line) == CommandModel::Empty,
{
    lemma_trim_start_blank(line);
    assert(trim(line).len() == 0);
}

} // verus!
