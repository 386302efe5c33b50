use std::time::{Duration, SystemTime, UNIX_EPOCH};

use bitcoin::secp256k1::{Secp256k1, SecretKey};
use ck_lightning_client::candid_invoice::{
    bolt11_to_candid, candid_to_bolt11, verify_candid_matches_bolt11, CandidConversionError,
};
use ck_lightning_client::{Bolt11Invoice, Nat, SignedCandidInvoice};
use lightning_invoice::{Bolt11InvoiceDescriptionRef, Currency, InvoiceBuilder};

/// Builds and signs a BOLT11 invoice with the `lightning-invoice` crate.
fn create_signed_invoice(
    description: &str,
    amount_msat: Option<u64>,
    timestamp: u64,
) -> lightning_invoice::Bolt11Invoice {
    let secp_ctx = Secp256k1::new();
    let private_key = SecretKey::from_slice(&[42u8; 32]).unwrap();
    let public_key = bitcoin::secp256k1::PublicKey::from_secret_key(&secp_ctx, &private_key);

    let payment_hash: bitcoin::hashes::sha256::Hash =
        bitcoin::hashes::Hash::from_slice(&[1u8; 32]).unwrap();
    let payment_secret = lightning_invoice::PaymentSecret([2u8; 32]);

    let mut builder = InvoiceBuilder::new(Currency::Bitcoin)
        .description(description.to_string())
        .payment_hash(payment_hash)
        .payment_secret(payment_secret)
        .duration_since_epoch(Duration::from_secs(timestamp))
        .min_final_cltv_expiry_delta(144)
        .payee_pub_key(public_key);

    if let Some(amt) = amount_msat {
        builder = builder.amount_milli_satoshis(amt);
    }

    builder
        .build_signed(|hash| secp_ctx.sign_ecdsa_recoverable(hash, &private_key))
        .unwrap()
}

fn now_secs() -> u64 {
    SystemTime::now().duration_since(UNIX_EPOCH).unwrap().as_secs()
}

/// A test invoice made now: the crate's invoice and the library's reading of it.
fn create_test_bolt11(
    description: &str,
    amount_msat: Option<u64>,
) -> (lightning_invoice::Bolt11Invoice, Bolt11Invoice) {
    let outside = create_signed_invoice(description, amount_msat, now_secs());
    let parsed = Bolt11Invoice::parse(&outside.to_string()).unwrap();
    (outside, parsed)
}

fn hash_bytes(invoice: &lightning_invoice::Bolt11Invoice) -> Vec<u8> {
    bitcoin::hashes::Hash::to_byte_array(*invoice.payment_hash()).to_vec()
}

#[test]
fn test_bolt11_to_candid_basic() {
    let (outside, bolt11) = create_test_bolt11("Test invoice", Some(50000));

    let candid = bolt11_to_candid(&bolt11, None, None);

    // The invoice string is preserved
    assert_eq!(candid.invoice, outside.to_string());

    // Amount
    assert_eq!(candid.amount_msat, Some(Nat::from_u64(50000u64)));

    // Payment hash
    assert_eq!(candid.payment_hash, hash_bytes(&outside));

    // Payment secret
    assert_eq!(candid.payment_secret, outside.payment_secret().0.to_vec());

    // Currency
    assert!(candid.currency.contains("Bitcoin"));
}

#[test]
fn test_candid_to_bolt11_roundtrip() {
    let (outside, initial_bolt11) = create_test_bolt11("Roundtrip test", Some(100000));

    let candid = bolt11_to_candid(&initial_bolt11, None, None);

    let recovered_bolt11 = candid_to_bolt11(&candid).unwrap();

    assert_eq!(outside.to_string(), recovered_bolt11.as_str());
    assert_eq!(&hash_bytes(&outside), recovered_bolt11.payment_hash());
    assert_eq!(&outside.payment_secret().0.to_vec(), recovered_bolt11.payment_secret());
    assert_eq!(outside.amount_milli_satoshis(), recovered_bolt11.amount_milli_satoshis());
}

#[test]
fn test_candid_to_bolt11_with_signature() {
    let (outside, bolt11) = create_test_bolt11("Signature test", Some(75000));

    // Mock signature bytes (65 bytes: 1 recovery_id + 64 signature)
    let signature_bytes = vec![0u8; 65];

    let candid = bolt11_to_candid(&bolt11, Some(signature_bytes.clone()), None);

    assert_eq!(candid.signature, signature_bytes);

    let recovered = candid_to_bolt11(&candid).unwrap();
    assert_eq!(outside.to_string(), recovered.as_str());
}

#[test]
fn test_candid_to_bolt11_with_channel_id() {
    let (outside, bolt11) = create_test_bolt11("Channel ID test", Some(25000));

    let channel_id = vec![42u8; 32];

    let candid = bolt11_to_candid(&bolt11, None, Some(channel_id.clone()));

    assert_eq!(candid.channel_id, channel_id);

    let recovered = candid_to_bolt11(&candid).unwrap();
    assert_eq!(outside.to_string(), recovered.as_str());
}

#[test]
fn test_zero_amount_invoice() {
    // BOLT11 allows invoices without an amount (it is named at payment time)
    let (outside, bolt11) = create_test_bolt11("Zero amount", None);

    let candid = bolt11_to_candid(&bolt11, None, None);

    assert_eq!(candid.amount_msat, None);

    let recovered = candid_to_bolt11(&candid).unwrap();
    assert_eq!(outside.to_string(), recovered.as_str());
    assert_eq!(recovered.amount_milli_satoshis(), None);
}

#[test]
fn test_ic_swap_invoice_description() {
    let principal = "rrkah-fqaaa-aaaaa-aaaaq-cai";
    let description = format!("ckBTC_SWAP:{}", principal);
    let (_outside, bolt11) = create_test_bolt11(&description, Some(50000));

    let candid = bolt11_to_candid(&bolt11, None, None);

    let recovered = candid_to_bolt11(&candid).unwrap();

    // The description travels inside the BOLT11 string
    let recovered_outside: lightning_invoice::Bolt11Invoice = recovered.as_str().parse().unwrap();
    let recovered_desc = match recovered_outside.description() {
        Bolt11InvoiceDescriptionRef::Direct(d) => d.to_string(),
        _ => panic!("Expected direct description"),
    };

    assert_eq!(recovered_desc, description);
}

#[test]
fn test_invalid_bolt11_string() {
    let candid = SignedCandidInvoice {
        invoice: "invalid_bolt11_string".to_string(),
        amount_msat: Some(Nat::from_u64(1000u64)),
        payment_hash: vec![0u8; 32],
        payment_secret: vec![0u8; 32],
        timestamp: 1234567890,
        expiry_secs: Some(3600),
        currency: "Bitcoin".to_string(),
        channel_id: vec![0u8; 32],
        signature: vec![],
    };

    let result = candid_to_bolt11(&candid);
    assert!(result.is_err());
    match result {
        Err(CandidConversionError::InvalidBolt11(_)) => {}
        _ => panic!("Expected InvalidBolt11 error"),
    }
}

#[test]
fn test_field_mismatch_detection() {
    let (_outside, bolt11) = create_test_bolt11("Mismatch test", Some(50000));
    let mut candid = bolt11_to_candid(&bolt11, None, None);

    // Corrupt the payment hash
    candid.payment_hash[0] ^= 0xFF;

    let result = candid_to_bolt11(&candid);
    assert!(result.is_err());
    match result {
        Err(CandidConversionError::FieldMismatch(_)) => {}
        _ => panic!("Expected FieldMismatch error"),
    }
}

#[test]
fn test_large_amount() {
    // 2^32 satoshis in millisatoshis
    let large_amount_msat = 4_294_967_296_000u64;
    let (_outside, bolt11) = create_test_bolt11("Large amount", Some(large_amount_msat));

    let candid = bolt11_to_candid(&bolt11, None, None);

    assert_eq!(candid.amount_msat, Some(Nat::from_u64(large_amount_msat)));

    let recovered = candid_to_bolt11(&candid).unwrap();
    assert_eq!(recovered.amount_milli_satoshis(), Some(large_amount_msat));
}

#[test]
fn test_multiple_roundtrips() {
    let (outside, bolt11) = create_test_bolt11("Multi-roundtrip", Some(123456));

    let mut current_bolt11 = bolt11.clone();

    for _ in 0..5 {
        let candid = bolt11_to_candid(&current_bolt11, None, None);
        current_bolt11 = candid_to_bolt11(&candid).unwrap();
    }

    assert_eq!(outside.to_string(), current_bolt11.as_str());
}

// ---------------------------------------------------------------------------
// Exact fields and error texts
// ---------------------------------------------------------------------------

const FIXED_TIME: u64 = 1_700_000_000;

fn fixed_invoice(amount_msat: Option<u64>) -> Bolt11Invoice {
    let outside = create_signed_invoice("Fixed", amount_msat, FIXED_TIME);
    Bolt11Invoice::parse(&outside.to_string()).unwrap()
}

#[test]
fn parse_reads_all_fields() {
    let outside = create_signed_invoice("Fields", Some(7000), FIXED_TIME);
    let b = Bolt11Invoice::parse(&outside.to_string()).unwrap();
    assert_eq!(b.as_str(), outside.to_string());
    assert_eq!(b.amount_milli_satoshis(), Some(7000));
    assert_eq!(b.payment_hash(), &vec![1u8; 32]);
    assert_eq!(b.payment_secret(), &vec![2u8; 32]);
    assert_eq!(b.timestamp_secs(), FIXED_TIME);
    assert_eq!(b.expiry_secs(), 3600);
    assert_eq!(b.currency(), "Bitcoin");
}

#[test]
fn parse_writes_uppercase_input_canonically() {
    let outside = create_signed_invoice("Case", Some(1000), FIXED_TIME);
    let upper = outside.to_string().to_uppercase();
    let b = Bolt11Invoice::parse(&upper).unwrap();
    assert_eq!(b.as_str(), outside.to_string());
}

#[test]
fn parse_error_is_the_decoder_debug_text() {
    let err = Bolt11Invoice::parse("lnbc1").unwrap_err();
    let direct = "lnbc1".parse::<lightning_invoice::Bolt11Invoice>().unwrap_err();
    assert_eq!(err, format!("{:?}", direct));
}

#[test]
fn bolt11_to_candid_defaults() {
    let b = fixed_invoice(Some(5000));
    let c = bolt11_to_candid(&b, None, None);
    assert_eq!(c.channel_id, vec![0u8; 32]);
    assert_eq!(c.signature, Vec::<u8>::new());
    assert_eq!(c.timestamp, FIXED_TIME);
    assert_eq!(c.expiry_secs, Some(3600));
    assert_eq!(c.currency, "Bitcoin");
}

#[test]
fn hash_mismatch_message_lists_both_hashes() {
    let b = fixed_invoice(Some(5000));
    let mut c = bolt11_to_candid(&b, None, None);
    c.payment_hash = vec![3u8, 255];
    let e = candid_to_bolt11(&c).unwrap_err();
    let ones = vec!["1"; 32].join(", ");
    let expected = format!("Payment hash mismatch: Candid has [3, 255], BOLT11 has [{}]", ones);
    match &e {
        CandidConversionError::FieldMismatch(m) => assert_eq!(m, &expected),
        _ => panic!("Expected FieldMismatch error"),
    }
    assert_eq!(e.message(), format!("Field mismatch: {}", expected));
}

#[test]
fn secret_mismatch_message() {
    let b = fixed_invoice(None);
    let mut c = bolt11_to_candid(&b, None, None);
    c.payment_secret = vec![];
    match candid_to_bolt11(&c) {
        Err(CandidConversionError::FieldMismatch(m)) => {
            let twos = vec!["2"; 32].join(", ");
            assert_eq!(m, format!("Payment secret mismatch: Candid has [], BOLT11 has [{}]", twos));
        }
        _ => panic!("Expected FieldMismatch error"),
    }
}

#[test]
fn amount_mismatch_message() {
    let b = fixed_invoice(Some(5000));
    let mut c = bolt11_to_candid(&b, None, None);
    c.amount_msat = Some(Nat::from_u64(4999));
    match candid_to_bolt11(&c) {
        Err(CandidConversionError::FieldMismatch(m)) => {
            assert_eq!(m, "Amount mismatch: Candid has 4999, BOLT11 has 5000")
        }
        _ => panic!("Expected FieldMismatch error"),
    }
}

#[test]
fn amount_beyond_64_bits_is_refused() {
    let b = fixed_invoice(Some(5000));
    let mut c = bolt11_to_candid(&b, None, None);
    c.amount_msat = Some(Nat::from_limbs(vec![5000, 1]));
    match candid_to_bolt11(&c) {
        Err(CandidConversionError::FieldMismatch(m)) => assert_eq!(m, "Amount too large to convert"),
        _ => panic!("Expected FieldMismatch error"),
    }
}

#[test]
fn amount_checked_only_where_both_name_one() {
    let b = fixed_invoice(None);
    let mut c = bolt11_to_candid(&b, None, None);
    c.amount_msat = Some(Nat::from_limbs(vec![1, 1]));
    assert!(candid_to_bolt11(&c).is_ok());

    let b = fixed_invoice(Some(5000));
    let mut c = bolt11_to_candid(&b, None, None);
    c.amount_msat = None;
    assert!(candid_to_bolt11(&c).is_ok());
}

#[test]
fn timestamp_tolerance_is_one_second() {
    let b = fixed_invoice(Some(5000));
    let mut c = bolt11_to_candid(&b, None, None);
    c.timestamp = FIXED_TIME + 1;
    assert!(candid_to_bolt11(&c).is_ok());
    c.timestamp = FIXED_TIME - 1;
    assert!(candid_to_bolt11(&c).is_ok());
    c.timestamp = FIXED_TIME + 2;
    match candid_to_bolt11(&c) {
        Err(CandidConversionError::FieldMismatch(m)) => assert_eq!(
            m,
            format!("Timestamp mismatch: Candid has {}, BOLT11 has {}", FIXED_TIME + 2, FIXED_TIME)
        ),
        _ => panic!("Expected FieldMismatch error"),
    }
}

#[test]
fn extra_fields_do_not_matter() {
    let b = fixed_invoice(Some(5000));
    let mut c = bolt11_to_candid(&b, Some(vec![9; 65]), Some(vec![7; 32]));
    c.expiry_secs = None;
    c.currency = "Regtest".to_string();
    let r = candid_to_bolt11(&c).unwrap();
    assert_eq!(r.as_str(), b.as_str());
    assert_eq!(r.currency(), "Bitcoin");
}

#[test]
fn error_messages() {
    assert_eq!(
        CandidConversionError::InvalidBolt11("x".to_string()).message(),
        "Invalid BOLT11 invoice: x"
    );
    assert_eq!(CandidConversionError::InvalidTimestamp("t".to_string()).message(), "Invalid timestamp: t");
    assert_eq!(CandidConversionError::MissingField("f".to_string()).message(), "Missing field: f");
}

#[test]
fn invalid_bolt11_carries_decoder_text() {
    let b = fixed_invoice(Some(5000));
    let mut c = bolt11_to_candid(&b, None, None);
    c.invoice = "lnbc1".to_string();
    let direct = "lnbc1".parse::<lightning_invoice::Bolt11Invoice>().unwrap_err();
    match candid_to_bolt11(&c) {
        Err(CandidConversionError::InvalidBolt11(m)) => assert_eq!(m, format!("{:?}", direct)),
        _ => panic!("Expected InvalidBolt11 error"),
    }
}

#[test]
fn candid_invoice_into_invoice() {
    let b = fixed_invoice(Some(5000));
    let record = ck_lightning_client::CandidInvoice {
        invoice: b.as_str().to_string(),
        amount_msat: Some(Nat::from_u64(5000)),
        payment_hash: vec![1; 32],
        payment_secret: vec![2; 32],
        timestamp: FIXED_TIME,
        expiry_secs: Some(3600),
        currency: "Bitcoin".to_string(),
        channel_id: vec![0; 32],
    };
    let inv = record.clone().into_invoice();
    assert_eq!(inv.as_str(), b.as_str());
    assert!(record.try_into_invoice().is_some());

    let bad = ck_lightning_client::CandidInvoice {
        invoice: "nonsense".to_string(),
        amount_msat: None,
        payment_hash: vec![],
        payment_secret: vec![],
        timestamp: 0,
        expiry_secs: None,
        currency: String::new(),
        channel_id: vec![],
    };
    assert!(bad.try_into_invoice().is_none());
}

#[test]
fn verify_reports_the_first_disagreement() {
    let b = fixed_invoice(Some(5000));
    let mut c = bolt11_to_candid(&b, None, None);
    assert!(verify_candid_matches_bolt11(&c, &b).is_ok());
    c.payment_secret = vec![2; 31];
    c.amount_msat = Some(Nat::from_u64(1));
    c.timestamp = 0;
    match verify_candid_matches_bolt11(&c, &b) {
        Err(CandidConversionError::FieldMismatch(m)) => {
            let twos31 = vec!["2"; 31].join(", ");
            let twos32 = vec!["2"; 32].join(", ");
            assert_eq!(
                m,
                format!("Payment secret mismatch: Candid has [{}], BOLT11 has [{}]", twos31, twos32)
            );
        }
        _ => panic!("Expected FieldMismatch error"),
    }
    c.payment_secret = vec![2; 32];
    match verify_candid_matches_bolt11(&c, &b) {
        Err(CandidConversionError::FieldMismatch(m)) => {
            assert_eq!(m, "Amount mismatch: Candid has 1, BOLT11 has 5000")
        }
        _ => panic!("Expected FieldMismatch error"),
    }
}
