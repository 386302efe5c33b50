//! Conversions between BOLT11 invoices and their Candid form.
use vstd::prelude::*;

use crate::bolt11::{bolt11_decode, Bolt11Invoice, Bolt11Model};
use crate::invoice::{SignedCandidInvoice, SignedCandidModel};
use crate::natural::Nat;
use crate::text::{byte_list_debug, decimal, push_byte_list, push_decimal};

verus! {

/// Errors of the Candid invoice conversions.
#[derive(Debug)]
pub enum CandidConversionError {
    /// The BOLT11 string does not decode.
    InvalidBolt11(String),
    /// The Candid fields disagree with the BOLT11 invoice.
    FieldMismatch(String),
    /// Invalid timestamp.
    InvalidTimestamp(String),
    /// A required field is missing.
    MissingField(String),
}

/// The result of a conversion.
pub type ConversionResult<T> = Result<T, CandidConversionError>;

/// The contents of a `CandidConversionError`.
pub enum ConversionErrorModel {
    InvalidBolt11(Seq<char>),
    FieldMismatch(Seq<char>),
    InvalidTimestamp(Seq<char>),
    MissingField(Seq<char>),
}

impl View for CandidConversionError {
    type V = ConversionErrorModel;

    open spec fn view(&self) -> ConversionErrorModel {
        match self {
            CandidConversionError::InvalidBolt11(m) => ConversionErrorModel::InvalidBolt11(m@),
            CandidConversionError::FieldMismatch(m) => ConversionErrorModel::FieldMismatch(m@),
            CandidConversionError::InvalidTimestamp(m) => ConversionErrorModel::InvalidTimestamp(
                m@,
            ),
            CandidConversionError::MissingField(m) => ConversionErrorModel::MissingField(m@),
        }
    }
}

/// The text of an error, as its `Display` writes it.
pub open spec fn conversion_error_text(e: ConversionErrorModel) -> Seq<char> {
    match e {
        ConversionErrorModel::InvalidBolt11(m) => "Invalid BOLT11 invoice: "@ + m,
        ConversionErrorModel::FieldMismatch(m) => "Field mismatch: "@ + m,
        ConversionErrorModel::InvalidTimestamp(m) => "Invalid timestamp: "@ + m,
        ConversionErrorModel::MissingField(m) => "Missing field: "@ + m,
    }
}

impl CandidConversionError {
    /// The error's text, e.g. `Field mismatch: Amount too large to convert`.
    pub fn message(&self) -> (r: String)
        ensures
            r@ == conversion_error_text(self@),
    {
        let (prefix, detail) = match self {
            CandidConversionError::InvalidBolt11(m) => ("Invalid BOLT11 invoice: ", m),
            CandidConversionError::FieldMismatch(m) => ("Field mismatch: ", m),
            CandidConversionError::InvalidTimestamp(m) => ("Invalid timestamp: ", m),
            CandidConversionError::MissingField(m) => ("Missing field: ", m),
        };
        let mut out = String::from_str(prefix);
        out.append(detail.as_str());
        out
    }
}

// ---------------------------------------------------------------------------
// What the conversions compute
// ---------------------------------------------------------------------------

pub open spec fn abs_diff(a: u64, b: u64) -> nat {
    if a >= b {
        (a - b) as nat
    } else {
        (b - a) as nat
    }
}

/// `<label><candid bytes>, BOLT11 has <bolt11 bytes>`, the lists as `{:?}` prints them.
pub open spec fn bytes_mismatch_text(label: Seq<char>, candid: Seq<u8>, bolt11: Seq<u8>) -> Seq<
    char,
> {
    label + byte_list_debug(candid) + ", BOLT11 has "@ + byte_list_debug(bolt11)
}

/// `<label><candid number>, BOLT11 has <bolt11 number>`, both in decimal.
pub open spec fn number_mismatch_text(label: Seq<char>, candid: nat, bolt11: nat) -> Seq<char> {
    label + decimal(candid) + ", BOLT11 has "@ + decimal(bolt11)
}

/// The first disagreement between the Candid fields and the invoice, in this
/// order: payment hash, payment secret, amount (only where both name one; a
/// Candid amount over 64 bits is refused), timestamp (one second of
/// difference is allowed).
pub open spec fn candid_mismatch(c: SignedCandidModel, b: Bolt11Model) -> Option<Seq<char>> {
    if c.payment_hash != b.payment_hash {
        Some(
            bytes_mismatch_text(
                "Payment hash mismatch: Candid has "@,
                c.payment_hash,
                b.payment_hash,
            ),
        )
    } else if c.payment_secret != b.payment_secret {
        Some(
            bytes_mismatch_text(
                "Payment secret mismatch: Candid has "@,
                c.payment_secret,
                b.payment_secret,
            ),
        )
    } else if c.amount_msat is Some && b.amount_msat is Some && c.amount_msat->0 > u64::MAX {
        Some("Amount too large to convert"@)
    } else if c.amount_msat is Some && b.amount_msat is Some && c.amount_msat->0
        != b.amount_msat->0 {
        Some(
            number_mismatch_text(
                "Amount mismatch: Candid has "@,
                c.amount_msat->0,
                b.amount_msat->0 as nat,
            ),
        )
    } else if abs_diff(c.timestamp, b.timestamp) > 1 {
        Some(
            number_mismatch_text(
                "Timestamp mismatch: Candid has "@,
                c.timestamp as nat,
                b.timestamp as nat,
            ),
        )
    } else {
        None
    }
}

/// What `candid_to_bolt11` gives: the invoice decoded from the Candid string,
/// provided the Candid fields agree with it.
pub open spec fn candid_to_bolt11_spec(c: SignedCandidModel) -> Result<
    Bolt11Model,
    ConversionErrorModel,
> {
    match bolt11_decode(c.invoice) {
        Err(e) => Err(ConversionErrorModel::InvalidBolt11(e)),
        Ok(b) => match candid_mismatch(c, b) {
            Some(m) => Err(ConversionErrorModel::FieldMismatch(m)),
            None => Ok(b),
        },
    }
}

/// 32 zero bytes, the channel id where none is given.
pub open spec fn zero_channel_id() -> Seq<u8> {
    Seq::new(32, |i: int| 0u8)
}

pub open spec fn bytes_option_view(o: Option<Vec<u8>>) -> Option<Seq<u8>> {
    match o {
        Some(v) => Some(v@),
        None => None,
    }
}

/// What `bolt11_to_candid` gives.
pub open spec fn bolt11_to_candid_spec(
    b: Bolt11Model,
    signature: Option<Seq<u8>>,
    channel_id: Option<Seq<u8>>,
) -> SignedCandidModel {
    SignedCandidModel {
        invoice: b.invoice,
        amount_msat: match b.amount_msat {
            Some(a) => Some(a as nat),
            None => None,
        },
        payment_hash: b.payment_hash,
        payment_secret: b.payment_secret,
        timestamp: b.timestamp,
        expiry_secs: Some(b.expiry_secs),
        currency: b.currency,
        channel_id: match channel_id {
            Some(c) => c,
            None => zero_channel_id(),
        },
        signature: match signature {
            Some(s) => s,
            None => Seq::empty(),
        },
    }
}

// ---------------------------------------------------------------------------
// Laws
// ---------------------------------------------------------------------------

/// Converting an invoice to its Candid form and back gives the same invoice,
/// whatever signature and channel id were attached.
pub proof fn lemma_bolt11_candid_roundtrip(
    b: Bolt11Model,
    signature: Option<Seq<u8>>,
    channel_id: Option<Seq<u8>>,
)
    requires
        b.well_formed(),
    ensures
        candid_to_bolt11_spec(bolt11_to_candid_spec(b, signature, channel_id)) == Ok::<
            Bolt11Model,
            ConversionErrorModel,
        >(b),
{
}

/// An accepted Candid invoice agrees with the invoice it yields: that invoice
/// is the decoding of the Candid string, with the same payment hash and
/// secret, the same amount where both name one, and a timestamp at most one
/// second apart.
pub proof fn lemma_accepted_candid_agrees(c: SignedCandidModel)
    ensures
        candid_to_bolt11_spec(c) matches Ok(b) ==> {
            &&& bolt11_decode(c.invoice) == Ok::<Bolt11Model, Seq<char>>(b)
            &&& b.payment_hash == c.payment_hash
            &&& b.payment_secret == c.payment_secret
            &&& (c.amount_msat is Some && b.amount_msat is Some) ==> c.amount_msat->0
                == b.amount_msat->0 as nat
            &&& abs_diff(c.timestamp, b.timestamp) <= 1
        },
{
}

/// A Candid invoice whose string decodes and whose fields agree with the
/// decoded invoice is accepted: same payment hash and secret, the same amount
/// wherever both name one (an amount on one side only is no disagreement), and
/// timestamps at most one second apart. A string that does not decode is
/// refused as an invalid BOLT11 invoice with the decoder's text, and a
/// decodable one that disagrees is refused as a field mismatch.
pub proof fn lemma_candid_acceptance_complete(c: SignedCandidModel)
    ensures
        bolt11_decode(c.invoice) matches Ok(b) ==> ((
            c.payment_hash == b.payment_hash
            && c.payment_secret == b.payment_secret
            && (c.amount_msat matches Some(x) ==> (b.amount_msat matches Some(y) ==> x == y as nat))
            && c.timestamp <= b.timestamp + 1
            && b.timestamp <= c.timestamp + 1
        ) <==> candid_to_bolt11_spec(c) == Ok::<Bolt11Model, ConversionErrorModel>(b)),
        bolt11_decode(c.invoice) matches Ok(b) ==> (candid_to_bolt11_spec(c) is Err
            ==> candid_to_bolt11_spec(c) matches Err(ConversionErrorModel::FieldMismatch(_))),
        bolt11_decode(c.invoice) matches Err(e) ==> candid_to_bolt11_spec(c) == Err::<
            Bolt11Model,
            ConversionErrorModel,
        >(ConversionErrorModel::InvalidBolt11(e)),
{
}

/// The Candid form of an invoice repeats the invoice's own fields: its
/// string, amount, payment hash and secret, timestamp, expiry and network;
/// it carries the given signature and channel id, or none and 32 zero bytes.
pub proof fn lemma_bolt11_to_candid_fields(
    b: Bolt11Model,
    signature: Option<Seq<u8>>,
    channel_id: Option<Seq<u8>>,
)
    ensures
        ({
            let c = bolt11_to_candid_spec(b, signature, channel_id);
            &&& c.invoice == b.invoice
            &&& (c.amount_msat is Some <==> b.amount_msat is Some)
            &&& (b.amount_msat matches Some(a) ==> c.amount_msat == Some(a as nat))
            &&& c.payment_hash == b.payment_hash
            &&& c.payment_secret == b.payment_secret
            &&& c.timestamp == b.timestamp
            &&& c.expiry_secs == Some(b.expiry_secs)
            &&& c.currency == b.currency
            &&& (signature matches Some(s) ==> c.signature == s)
            &&& (signature is None ==> c.signature.len() == 0)
            &&& (channel_id matches Some(h) ==> c.channel_id == h)
            &&& (channel_id is None ==> c.channel_id.len() == 32 && forall|i: int|
                0 <= i < 32 ==> c.channel_id[i] == 0)
        }),
{
}

/// The result of `candid_to_bolt11` depends only on the invoice string, the
/// payment hash and secret, the amount and the timestamp of the Candid form,
/// not on its expiry, currency, channel id or signature.
pub proof fn lemma_candid_extra_fields_ignored(c1: SignedCandidModel, c2: SignedCandidModel)
    requires
        c1.invoice == c2.invoice,
        c1.amount_msat == c2.amount_msat,
        c1.payment_hash == c2.payment_hash,
        c1.payment_secret == c2.payment_secret,
        c1.timestamp == c2.timestamp,
    ensures
        candid_to_bolt11_spec(c1) == candid_to_bolt11_spec(c2),
{
}

// ---------------------------------------------------------------------------
// Code
// ---------------------------------------------------------------------------

fn bytes_equal(a: &[u8], b: &[u8]) -> (r: bool)
    ensures
        r == (a@ == b@),
{
    if a.len() != b.len() {
        return false;
    }
    let n = a.len();
    let mut i: usize = 0;
    while i < n
        invariant
            0 <= i <= n,
            n == a@.len(),
            n == b@.len(),
            forall|j: int| 0 <= j < i ==> a@[j] == b@[j],
        decreases n - i,
    {
        if a[i] != b[i] {
            return false;
        }
        i = i + 1;
    }
    assert(a@ =~= b@);
    true
}

fn bytes_mismatch_message(label: &str, candid: &[u8], bolt11: &[u8]) -> (r: String)
    ensures
        r@ == bytes_mismatch_text(label@, candid@, bolt11@),
{
    let mut out = String::from_str(label);
    push_byte_list(&mut out, candid);
    out.append(", BOLT11 has ");
    push_byte_list(&mut out, bolt11);
    out
}

fn number_mismatch_message(label: &str, candid: u64, bolt11: u64) -> (r: String)
    ensures
        r@ == number_mismatch_text(label@, candid as nat, bolt11 as nat),
{
    let mut out = String::from_str(label);
    push_decimal(&mut out, candid);
    out.append(", BOLT11 has ");
    push_decimal(&mut out, bolt11);
    out
}

/// Checks that the Candid fields agree with the decoded invoice: payment
/// hash, payment secret, amount (where both name one) and timestamp (to
/// within a second), reporting the first disagreement.
pub fn verify_candid_matches_bolt11(candid: &SignedCandidInvoice, bolt11: &Bolt11Invoice) -> (r:
    ConversionResult<()>)
    ensures
        match candid_mismatch(candid@, bolt11@) {
            None => r is Ok,
            Some(m) => r matches Err(e) && e@ == ConversionErrorModel::FieldMismatch(m),
        },
{
    let bolt11_payment_hash = bolt11.payment_hash();
    if !bytes_equal(candid.payment_hash.as_slice(), bolt11_payment_hash.as_slice()) {
        return Err(
            CandidConversionError::FieldMismatch(
                bytes_mismatch_message(
                    "Payment hash mismatch: Candid has ",
                    candid.payment_hash.as_slice(),
                    bolt11_payment_hash.as_slice(),
                ),
            ),
        );
    }
    let bolt11_payment_secret = bolt11.payment_secret();
    if !bytes_equal(candid.payment_secret.as_slice(), bolt11_payment_secret.as_slice()) {
        return Err(
            CandidConversionError::FieldMismatch(
                bytes_mismatch_message(
                    "Payment secret mismatch: Candid has ",
                    candid.payment_secret.as_slice(),
                    bolt11_payment_secret.as_slice(),
                ),
            ),
        );
    }
    if let Some(candid_amount) = &candid.amount_msat {
        if let Some(bolt11_amount) = bolt11.amount_milli_satoshis() {
            let candid_amount_u64 = match candid_amount.to_u64() {
                Some(a) => a,
                None => {
                    return Err(
                        CandidConversionError::FieldMismatch(
                            String::from_str("Amount too large to convert"),
                        ),
                    );
                },
            };
            if candid_amount_u64 != bolt11_amount {
                return Err(
                    CandidConversionError::FieldMismatch(
                        number_mismatch_message(
                            "Amount mismatch: Candid has ",
                            candid_amount_u64,
                            bolt11_amount,
                        ),
                    ),
                );
            }
        }
    }
    let bolt11_timestamp = bolt11.timestamp_secs();
    let diff = if candid.timestamp >= bolt11_timestamp {
        candid.timestamp - bolt11_timestamp
    } else {
        bolt11_timestamp - candid.timestamp
    };
    if diff > 1 {
        return Err(
            CandidConversionError::FieldMismatch(
                number_mismatch_message(
                    "Timestamp mismatch: Candid has ",
                    candid.timestamp,
                    bolt11_timestamp,
                ),
            ),
        );
    }
    Ok(())
}

/// Decodes the BOLT11 string of a Candid invoice and checks that the Candid
/// fields agree with it.
pub fn candid_to_bolt11(candid_invoice: &SignedCandidInvoice) -> (r: ConversionResult<
    Bolt11Invoice,
>)
    ensures
        match candid_to_bolt11_spec(candid_invoice@) {
            Ok(m) => r matches Ok(b) && b@ == m,
            Err(e) => r matches Err(x) && x@ == e,
        },
{
    let invoice = match Bolt11Invoice::parse(candid_invoice.invoice.as_str()) {
        Ok(b) => b,
        Err(e) => {
            return Err(CandidConversionError::InvalidBolt11(e));
        },
    };
    match verify_candid_matches_bolt11(candid_invoice, &invoice) {
        Ok(()) => Ok(invoice),
        Err(e) => Err(e),
    }
}

/// The Candid form of an invoice. The channel id defaults to 32 zero bytes
/// and the signature to none; the expiry is always given.
pub fn bolt11_to_candid(
    bolt11: &Bolt11Invoice,
    signature_bytes: Option<Vec<u8>>,
    channel_id: Option<Vec<u8>>,
) -> (r: SignedCandidInvoice)
    ensures
        r@ == bolt11_to_candid_spec(
            bolt11@,
            bytes_option_view(signature_bytes),
            bytes_option_view(channel_id),
        ),
        candid_to_bolt11_spec(r@) == Ok::<Bolt11Model, ConversionErrorModel>(bolt11@),
        r.invoice@ == bolt11@.invoice,
        r.payment_hash@ == bolt11@.payment_hash,
        r.payment_secret@ == bolt11@.payment_secret,
        r.timestamp == bolt11@.timestamp,
        r.expiry_secs == Some(bolt11@.expiry_secs),
        r.currency@ == bolt11@.currency,
        match bolt11@.amount_msat {
            Some(a) => r.amount_msat matches Some(n) && n@ == a as nat,
            None => r.amount_msat is None,
        },
        match signature_bytes {
            Some(s) => r.signature@ == s@,
            None => r.signature@.len() == 0,
        },
        match channel_id {
            Some(h) => r.channel_id@ == h@,
            None => r.channel_id@.len() == 32 && forall|i: int|
                0 <= i < 32 ==> r.channel_id@[i] == 0,
        },
{
    bolt11.check_well_formed();
    let invoice_str = String::from_str(bolt11.as_str());
    let amount_msat = match bolt11.amount_milli_satoshis() {
        Some(a) => Some(Nat::from_u64(a)),
        None => None,
    };
    let payment_hash = slice_to_owned(bolt11.payment_hash().as_slice());
    let payment_secret = slice_to_owned(bolt11.payment_secret().as_slice());
    let channel_id_bytes = match channel_id {
        Some(c) => c,
        None => zero_bytes(32),
    };
    let signature = match signature_bytes {
        Some(s) => s,
        None => Vec::new(),
    };
    let r = SignedCandidInvoice {
        invoice: invoice_str,
        amount_msat,
        payment_hash,
        payment_secret,
        timestamp: bolt11.timestamp_secs(),
        expiry_secs: Some(bolt11.expiry_secs()),
        currency: String::from_str(bolt11.currency()),
        channel_id: channel_id_bytes,
        signature,
    };
    proof {
        assert(r.signature@ =~= bolt11_to_candid_spec(
            bolt11@,
            bytes_option_view(signature_bytes),
            bytes_option_view(channel_id),
        ).signature);
        lemma_bolt11_candid_roundtrip(
            bolt11@,
            bytes_option_view(signature_bytes),
            bytes_option_view(channel_id),
        );
    }
    r
}

fn slice_to_owned(s: &[u8]) -> (r: Vec<u8>)
    ensures
        r@ == s@,
{
    let mut v: Vec<u8> = Vec::new();
    let n = s.len();
    let mut i: usize = 0;
    while i < n
        invariant
            0 <= i <= n,
            n == s@.len(),
            v@ == s@.take(i as int),
        decreases n - i,
    {
        v.push(s[i]);
        proof {
            assert(s@.take(i + 1) =~= s@.take(i as int).push(s@[i as int]));
        }
        i = i + 1;
    }
    assert(s@.take(n as int) =~= s@);
    v
}

fn zero_bytes(n: usize) -> (r: Vec<u8>)
    ensures
        r@ == Seq::new(n as nat, |i: int| 0u8),
{
    let mut v: Vec<u8> = Vec::new();
    let mut i: usize = 0;
    while i < n
        invariant
            0 <= i <= n,
            v@ == Seq::new(i as nat, |j: int| 0u8),
        decreases n - i,
    {
        v.push(0u8);
        proof {
            assert(v@ =~= Seq::new((i + 1) as nat, |j: int| 0u8));
        }
        i = i + 1;
    }
    v
}

} // verus!
