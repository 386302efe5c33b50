use ck_lightning_client::codec::{bytes_to_hex, hex_to_bytes, principal_argument, principal_from_text};
use ck_lightning_client::command::{
    minutes_and_seconds, msat_to_sats, parse_command, pem_path_for_identity, Action, Command,
    StableSwapConfigUpdate,
};
use ck_lightning_client::handler::{classify_p2p, HandlerError, MockEndpoints, MockHandler, P2pMessageKind};
use ck_lightning_client::text::{parse_u64, split_words, str_eq, trim_white_space, u64_to_decimal};
use ck_lightning_client::{Nat, PEM_NODE_ACC_PATH, PEM_USER_ACC_PATH};

// ---------------------------------------------------------------------------
// Numbers and text
// ---------------------------------------------------------------------------

#[test]
fn nat_to_u64() {
    assert_eq!(Nat::from_u64(0).to_u64(), Some(0));
    assert_eq!(Nat::from_u64(u64::MAX).to_u64(), Some(u64::MAX));
    assert_eq!(Nat::from_limbs(vec![5, 0, 0]).to_u64(), Some(5));
    assert_eq!(Nat::from_limbs(vec![5, 0, 0]), Nat::from_u64(5));
    assert_eq!(Nat::from_limbs(vec![0, 1]).to_u64(), None);
    assert_eq!(Nat::from_limbs(vec![]).limbs(), &Vec::<u64>::new());
    assert_eq!(Nat::from_u64(0).limbs(), &Vec::<u64>::new());
}

#[test]
fn parse_u64_as_std_does() {
    for s in ["0", "+5", "007", "18446744073709551615", "", "+", "-1", "12a", "18446744073709551616", " 1", "١"] {
        assert_eq!(parse_u64(s), s.parse::<u64>().ok(), "input {:?}", s);
    }
}

#[test]
fn decimal_text() {
    for n in [0u64, 7, 10, 99, 1000, 4294967296000, u64::MAX] {
        assert_eq!(u64_to_decimal(n), n.to_string());
    }
}

#[test]
fn words_and_trim_as_std_does() {
    for s in ["", "   ", "a", "  rpc  x \t y\n", "a\u{3000}b\u{85}c", "\u{a0}p2p OpenChannel "] {
        let words: Vec<String> = s.split_whitespace().map(|w| w.to_string()).collect();
        assert_eq!(split_words(s), words, "input {:?}", s);
        assert_eq!(trim_white_space(s), s.trim(), "input {:?}", s);
    }
}

#[test]
fn string_equality() {
    assert!(str_eq("abc", "abc"));
    assert!(!str_eq("abc", "abd"));
    assert!(!str_eq("abc", "ab"));
    assert!(str_eq("", ""));
}

// ---------------------------------------------------------------------------
// Hex and principals
// ---------------------------------------------------------------------------

#[test]
fn hex_decoding() {
    assert_eq!(hex_to_bytes("0aFf10"), Some(vec![0x0a, 0xff, 0x10]));
    assert_eq!(hex_to_bytes(""), Some(vec![]));
    assert_eq!(hex_to_bytes("abc"), None);
    assert_eq!(hex_to_bytes("zz"), None);
    assert_eq!(hex_to_bytes("é1"), None);
}

#[test]
fn hex_encoding() {
    assert_eq!(bytes_to_hex(&[0x0a, 0xff, 0x10]), "0aff10");
    assert_eq!(bytes_to_hex(&[]), "");
    let all: Vec<u8> = (0..=255u8).collect();
    assert_eq!(bytes_to_hex(&all), hex::encode(&all));
    assert_eq!(hex_to_bytes(&bytes_to_hex(&all)), Some(all));
}

#[test]
fn principal_decoding() {
    let text = "rrkah-fqaaa-aaaaa-aaaaq-cai";
    let expected = candid::Principal::from_text(text).unwrap().as_slice().to_vec();
    assert_eq!(principal_from_text(text), Ok(expected.clone()));
    assert_eq!(expected, vec![0, 0, 0, 0, 0, 0, 0, 1, 1, 1]);
    assert_eq!(principal_from_text("aaaaa-aa"), Ok(vec![]));
    assert_eq!(principal_argument(text), Ok(expected));

    let bad = "not-a-principal";
    let err = candid::Principal::from_text(bad).unwrap_err().to_string();
    assert_eq!(principal_from_text(bad), Err(err.clone()));
    assert_eq!(principal_argument(bad), Err(format!("Invalid principal: {}", err)));
}

// ---------------------------------------------------------------------------
// Handler
// ---------------------------------------------------------------------------

#[test]
fn rpc_is_never_supported() {
    let mut handler = MockHandler;
    let mut endpoints = MockEndpoints;
    assert_eq!(handler.handle_rpc(&mut endpoints, 42, "ping"), Err(HandlerError::WrongEsbMsg));
    assert_eq!(HandlerError::WrongEsbMsg.message(), "wrong_esb_msg");
}

#[test]
fn p2p_refuses_unsupported_channel_messages() {
    let mut handler = MockHandler;
    let mut endpoints = MockEndpoints;
    for m in ["FundingLocked", "ChannelReestablish", "AcceptChannel", "FundingCreated", "FundingSigned"] {
        assert_eq!(handler.handle_p2p(&mut endpoints, "test-node-123", m), Err(HandlerError::WrongEsbMsg));
        assert_eq!(classify_p2p(m), P2pMessageKind::Unsupported);
    }
    assert_eq!(handler.handle_p2p(&mut endpoints, "n", "OpenChannel"), Ok(()));
    assert_eq!(classify_p2p("OpenChannel"), P2pMessageKind::OpenChannel);
    assert_eq!(handler.handle_p2p(&mut endpoints, "n", "Ping"), Ok(()));
    assert_eq!(classify_p2p("fundinglocked"), P2pMessageKind::Other);
}

// ---------------------------------------------------------------------------
// Commands
// ---------------------------------------------------------------------------

#[test]
fn identity_files() {
    assert_eq!(pem_path_for_identity("node"), PEM_NODE_ACC_PATH);
    assert_eq!(pem_path_for_identity("user"), PEM_USER_ACC_PATH);
    assert_eq!(pem_path_for_identity("alice"), ".config/dfx/identity/alice/identity.pem");
}

fn simple(line: &str) -> Option<Action> {
    match parse_command(line) {
        Command::Simple(a) => Some(a),
        _ => None,
    }
}

#[test]
fn commands_without_arguments() {
    assert_eq!(simple("status"), Some(Action::Status));
    assert_eq!(simple("  lp-balance  "), Some(Action::LpBalance));
    assert_eq!(simple("help"), Some(Action::Help));
    assert_eq!(simple("h"), Some(Action::Help));
    assert_eq!(simple("quit"), Some(Action::Exit));
    assert_eq!(simple("q extra"), Some(Action::Exit));
    assert!(matches!(parse_command("   \t"), Command::Empty));
}

#[test]
fn unknown_and_incomplete_commands() {
    match parse_command("  frobnicate  now ") {
        Command::Unknown { input } => assert_eq!(input, "frobnicate  now"),
        other => panic!("unexpected {:?}", other),
    }
    // A command that lacks its arguments is not recognised
    match parse_command("rpc") {
        Command::Unknown { input } => assert_eq!(input, "rpc"),
        other => panic!("unexpected {:?}", other),
    }
}

#[test]
fn rpc_and_p2p() {
    match parse_command("rpc ping") {
        Command::Rpc { request } => assert_eq!(request, "ping"),
        other => panic!("unexpected {:?}", other),
    }
    match parse_command("p2p OpenChannel") {
        Command::P2p { message, remote_id } => {
            assert_eq!(message, "OpenChannel");
            assert_eq!(remote_id, "test-node-123");
        }
        other => panic!("unexpected {:?}", other),
    }
    match parse_command("p2p FundingLocked peer-7") {
        Command::P2p { message, remote_id } => {
            assert_eq!(message, "FundingLocked");
            assert_eq!(remote_id, "peer-7");
        }
        other => panic!("unexpected {:?}", other),
    }
}

#[test]
fn amounts() {
    match parse_command("ln-invoice 5000 tb1qxyz") {
        Command::LnInvoice { amount_msat, btc_address } => {
            assert_eq!(amount_msat, 5000);
            assert_eq!(btc_address, "tb1qxyz");
        }
        other => panic!("unexpected {:?}", other),
    }
    match parse_command("lp-approve 11000") {
        Command::LpApprove { amount } => assert_eq!(amount, 11000),
        other => panic!("unexpected {:?}", other),
    }
    match parse_command("lp-deposit abc") {
        Command::Reject { message } => assert_eq!(message, "Invalid amount"),
        other => panic!("unexpected {:?}", other),
    }
    match parse_command("btc-send -5 addr") {
        Command::Reject { message } => assert_eq!(message, "Invalid amount"),
        other => panic!("unexpected {:?}", other),
    }
    match parse_command("request-onramp 20000") {
        Command::RequestOnramp { amount_sats } => assert_eq!(amount_sats, 20000),
        other => panic!("unexpected {:?}", other),
    }
    match parse_command("request-onramp lots") {
        Command::Reject { message } => {
            assert_eq!(message, "Invalid amount. Usage: request-onramp <amount_sats>")
        }
        other => panic!("unexpected {:?}", other),
    }
    match parse_command("icp-approve 0.0015") {
        Command::IcpApprove { amount_icp } => assert_eq!(amount_icp, "0.0015"),
        other => panic!("unexpected {:?}", other),
    }
}

#[test]
fn timeouts() {
    match parse_command("set-test-timeouts 10 20") {
        Command::SetTestTimeouts { onramp_ns, offramp_ns } => {
            assert_eq!((onramp_ns, offramp_ns), (10, 20))
        }
        other => panic!("unexpected {:?}", other),
    }
    match parse_command("set-test-timeouts 10 x") {
        Command::Reject { message } => assert_eq!(
            message,
            "Invalid timeout. Usage: set-test-timeouts <onramp_ns> <offramp_ns>"
        ),
        other => panic!("unexpected {:?}", other),
    }
}

#[test]
fn deposits_and_offramps() {
    match parse_command("lp-btc-deposit") {
        Command::LpBtcDeposit { txid } => assert_eq!(txid, None),
        other => panic!("unexpected {:?}", other),
    }
    match parse_command("lp-btc-deposit 00ff") {
        Command::LpBtcDeposit { txid } => assert_eq!(txid, Some(vec![0, 255])),
        other => panic!("unexpected {:?}", other),
    }
    match parse_command("lp-btc-deposit 0g") {
        Command::Reject { message } => assert_eq!(message, "Invalid txid hex format"),
        other => panic!("unexpected {:?}", other),
    }
    match parse_command("offramp lnbc1xyz tb1qfallback") {
        Command::Offramp { invoice, fallback_btc_address } => {
            assert_eq!(invoice, "lnbc1xyz");
            assert_eq!(fallback_btc_address, Some("tb1qfallback".to_string()));
        }
        other => panic!("unexpected {:?}", other),
    }
    match parse_command("offramp lnbc1xyz") {
        Command::Offramp { fallback_btc_address, .. } => assert_eq!(fallback_btc_address, None),
        other => panic!("unexpected {:?}", other),
    }
}

#[test]
fn relay_registration() {
    let key = "02".to_string() + &"ab".repeat(32);
    match parse_command(&format!("register-relay {} https://hook tok", key)) {
        Command::RegisterRelay { pubkey_hex, node_pubkey, webhook_url, webhook_token } => {
            assert_eq!(pubkey_hex, key);
            assert_eq!(node_pubkey.len(), 33);
            assert_eq!(node_pubkey[0], 2);
            assert_eq!(webhook_url, Some("https://hook".to_string()));
            assert_eq!(webhook_token, Some("tok".to_string()));
        }
        other => panic!("unexpected {:?}", other),
    }
    match parse_command("register-relay 0202") {
        Command::Reject { message } => {
            assert_eq!(message, "Node pubkey must be 33 bytes (compressed secp256k1)")
        }
        other => panic!("unexpected {:?}", other),
    }
    match parse_command("register-relay xyz") {
        Command::Reject { message } => assert_eq!(message, "Invalid hex for node pubkey"),
        other => panic!("unexpected {:?}", other),
    }
}

#[test]
fn config_updates() {
    match parse_command("update-config --amp 100 --fee 4 --fee 5 --rebate x --max-swap-pct 2000") {
        Command::UpdateConfig { update, unknown_arg } => {
            assert_eq!(
                update,
                StableSwapConfigUpdate {
                    amplification: Some(100),
                    fee_bps: Some(5),
                    protocol_fee_share_bps: None,
                    max_slippage_bps: None,
                    imbalance_fee_bps: None,
                    rebate_bps: None,
                    max_swap_pct_bps: Some(2000),
                }
            );
            assert_eq!(unknown_arg, None);
        }
        other => panic!("unexpected {:?}", other),
    }
    match parse_command("update-config --slippage 30 --bogus 1 --fee 2") {
        Command::UpdateConfig { update, unknown_arg } => {
            assert_eq!(update.max_slippage_bps, Some(30));
            assert_eq!(update.fee_bps, None);
            assert_eq!(unknown_arg, Some("--bogus".to_string()));
        }
        other => panic!("unexpected {:?}", other),
    }
    match parse_command("update-config --imbalance-fee") {
        Command::UpdateConfig { update, unknown_arg } => {
            assert_eq!(update.imbalance_fee_bps, None);
            assert_eq!(unknown_arg, Some("--imbalance-fee".to_string()));
        }
        other => panic!("unexpected {:?}", other),
    }
}

#[test]
fn admin_arguments() {
    match parse_command("set-admin aaaaa-aa") {
        Command::SetAdmin { principal_text } => assert_eq!(principal_text, "aaaaa-aa"),
        other => panic!("unexpected {:?}", other),
    }
    match parse_command("withdraw-fees aaaaa-aa") {
        Command::WithdrawFees { recipient_text } => assert_eq!(recipient_text, "aaaaa-aa"),
        other => panic!("unexpected {:?}", other),
    }
}

#[test]
fn figures() {
    assert_eq!(msat_to_sats(10_999), 10);
    assert_eq!(msat_to_sats(999), 0);
    assert_eq!(minutes_and_seconds(3599), (59, 59));
    assert_eq!(minutes_and_seconds(60), (1, 0));
}
