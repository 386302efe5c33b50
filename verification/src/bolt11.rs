//! BOLT11 Lightning invoices, read through the `lightning-invoice` crate.
//!
//! The library keeps of an invoice what its conversions read: the canonical
//! bech32 string and the fields that the Candid form repeats. Such a value is
//! only ever made by decoding a string, so it always describes a valid invoice.
use std::str::FromStr;

use vstd::prelude::*;

verus! {

/// What the library knows of a decoded BOLT11 invoice.
pub struct Bolt11Model {
    /// The invoice in bech32, as `lightning-invoice` writes it.
    pub invoice: Seq<char>,
    /// The amount in millisatoshis, if the invoice names one.
    pub amount_msat: Option<u64>,
    /// The payment hash.
    pub payment_hash: Seq<u8>,
    /// The payment secret.
    pub payment_secret: Seq<u8>,
    /// Creation time in seconds since the Unix epoch.
    pub timestamp: u64,
    /// Seconds after creation at which the invoice expires.
    pub expiry_secs: u64,
    /// The name of the network, as `{:?}` prints `lightning_invoice::Currency`.
    pub currency: Seq<char>,
}

/// What `lightning_invoice::Bolt11Invoice::from_str` makes of a string: the
/// fields of the invoice, or the `{:?}` text of the parse error.
pub uninterp spec fn bolt11_decode(s: Seq<char>) -> Result<Bolt11Model, Seq<char>>;

impl Bolt11Model {
    /// The model of an invoice that decoding produced: decoding its own
    /// string gives it back, and its hash and secret have 32 bytes.
    pub open spec fn well_formed(self) -> bool {
        &&& bolt11_decode(self.invoice) == Ok::<Bolt11Model, Seq<char>>(self)
        &&& self.payment_hash.len() == 32
        &&& self.payment_secret.len() == 32
    }
}

/// A decoded BOLT11 invoice.
#[derive(Debug)]
pub struct Bolt11Invoice {
    invoice: String,
    amount_msat: Option<u64>,
    payment_hash: Vec<u8>,
    payment_secret: Vec<u8>,
    timestamp: u64,
    expiry_secs: u64,
    currency: String,
}

impl View for Bolt11Invoice {
    type V = Bolt11Model;

    closed spec fn view(&self) -> Bolt11Model {
        Bolt11Model {
            invoice: self.invoice@,
            amount_msat: self.amount_msat,
            payment_hash: self.payment_hash@,
            payment_secret: self.payment_secret@,
            timestamp: self.timestamp,
            expiry_secs: self.expiry_secs,
            currency: self.currency@,
        }
    }
}

/// Decodes `s` with `lightning_invoice::Bolt11Invoice::from_str` and reads the
/// decoded invoice's `to_string`, `amount_milli_satoshis`, `payment_hash`,
/// `payment_secret`, `duration_since_epoch`, `expiry_time` and `currency`.
///
/// Trusted: the result is what `bolt11_decode` names for `s`; an invoice
/// that was decoded decodes again to the same fields from its own string
/// (the crate writes and reads the same bech32 data part, and its tests
/// rely on that round trip); the hash and the secret are 32-byte arrays in
/// the crate's types.
#[verifier::external_body]
fn decode_bolt11(s: &str) -> (r: Result<Bolt11Invoice, String>)
    ensures
        match r {
            Ok(b) => bolt11_decode(s@) == Ok::<Bolt11Model, Seq<char>>(b@),
            Err(e) => bolt11_decode(s@) == Err::<Bolt11Model, Seq<char>>(e@),
        },
        r matches Ok(b) ==> b@.well_formed(),
{
    match lightning_invoice::Bolt11Invoice::from_str(s) {
        Ok(inv) => Ok(Bolt11Invoice {
            invoice: inv.to_string(),
            amount_msat: inv.amount_milli_satoshis(),
            payment_hash: bitcoin::hashes::Hash::to_byte_array(*inv.payment_hash()).to_vec(),
            payment_secret: inv.payment_secret().0.to_vec(),
            timestamp: inv.duration_since_epoch().as_secs(),
            expiry_secs: inv.expiry_time().as_secs(),
            currency: format!("{:?}", inv.currency()),
        }),
        Err(e) => Err(format!("{:?}", e)),
    }
}

impl Clone for Bolt11Invoice {
    fn clone(&self) -> (r: Self)
        ensures
            r@ == self@,
    {
        proof {
            use_type_invariant(self);
        }
        let payment_hash = self.payment_hash.clone();
        let payment_secret = self.payment_secret.clone();
        proof {
            assert(payment_hash@ =~= self.payment_hash@);
            assert(payment_secret@ =~= self.payment_secret@);
        }
        Bolt11Invoice {
            invoice: self.invoice.clone(),
            amount_msat: self.amount_msat,
            payment_hash,
            payment_secret,
            timestamp: self.timestamp,
            expiry_secs: self.expiry_secs,
            currency: self.currency.clone(),
        }
    }
}

impl Bolt11Invoice {
    #[verifier::type_invariant]
    spec fn decoded(self) -> bool {
        self@.well_formed()
    }

    /// Every invoice of this type came out of decoding.
    pub fn check_well_formed(&self)
        ensures
            self@.well_formed(),
    {
        proof {
            use_type_invariant(self);
        }
    }

    /// Decodes a BOLT11 string; on failure the error holds the `{:?}` text of
    /// the decoder's error.
    pub fn parse(s: &str) -> (r: Result<Bolt11Invoice, String>)
        ensures
            match bolt11_decode(s@) {
                Ok(m) => r matches Ok(b) && b@ == m,
                Err(e) => r matches Err(x) && x@ == e,
            },
    {
        decode_bolt11(s)
    }

    /// The invoice in bech32 (what `to_string` gives for the crate's type).
    pub fn as_str(&self) -> (r: &str)
        ensures
            r@ == self@.invoice,
    {
        self.invoice.as_str()
    }

    /// The amount in millisatoshis, if the invoice names one.
    pub fn amount_milli_satoshis(&self) -> (r: Option<u64>)
        ensures
            r == self@.amount_msat,
    {
        self.amount_msat
    }

    /// The 32-byte payment hash.
    pub fn payment_hash(&self) -> (r: &Vec<u8>)
        ensures
            r@ == self@.payment_hash,
    {
        &self.payment_hash
    }

    /// The 32-byte payment secret.
    pub fn payment_secret(&self) -> (r: &Vec<u8>)
        ensures
            r@ == self@.payment_secret,
    {
        &self.payment_secret
    }

    /// Creation time in seconds since the Unix epoch.
    pub fn timestamp_secs(&self) -> (r: u64)
        ensures
            r == self@.timestamp,
    {
        self.timestamp
    }

    /// Seconds after creation at which the invoice expires.
    pub fn expiry_secs(&self) -> (r: u64)
        ensures
            r == self@.expiry_secs,
    {
        self.expiry_secs
    }

    /// The name of the network the invoice is for (`Bitcoin`, `BitcoinTestnet`, ...).
    pub fn currency(&self) -> (r: &str)
        ensures
            r@ == self@.currency,
    {
        self.currency.as_str()
    }
}

} // verus!
