//! Invoice records as the ckLightning canister sends and receives them in
//! Candid.
use vstd::prelude::*;

use crate::bolt11::{bolt11_decode, Bolt11Invoice, Bolt11Model};
use crate::natural::Nat;

verus! {

/// The number an optional Candid `nat` stands for.
pub open spec fn nat_option_view(o: Option<Nat>) -> Option<nat> {
    match o {
        Some(n) => Some(n@),
        None => None,
    }
}

/// An invoice as the canister stores it.
#[derive(Clone, Debug)]
pub struct CandidInvoice {
    /// The BOLT11 invoice in bech32.
    pub invoice: String,
    pub amount_msat: Option<Nat>,
    /// 32 bytes.
    pub payment_hash: Vec<u8>,
    /// 32 bytes.
    pub payment_secret: Vec<u8>,
    pub timestamp: u64,
    pub expiry_secs: Option<u64>,
    pub currency: String,
    /// 32 bytes of the channel's id.
    pub channel_id: Vec<u8>,
}

/// A request for an invoice.
#[derive(Clone, Debug)]
pub struct LnInvoiceRequest {
    /// The bytes of the caller's principal, from which the deposit address is derived.
    pub caller_principal: Vec<u8>,
    /// The deposit address to verify.
    pub btc_address: String,
    /// The amount of the invoice in millisatoshis.
    pub amount_msat: u64,
}

/// An invoice as the canister hands it out, with its signature.
#[derive(Clone, Debug)]
pub struct SignedCandidInvoice {
    /// The signed BOLT11 invoice in bech32.
    pub invoice: String,
    pub amount_msat: Option<Nat>,
    /// 32 bytes.
    pub payment_hash: Vec<u8>,
    /// 32 bytes.
    pub payment_secret: Vec<u8>,
    pub timestamp: u64,
    pub expiry_secs: Option<u64>,
    pub currency: String,
    /// 32 bytes.
    pub channel_id: Vec<u8>,
    /// The invoice's signature bytes.
    pub signature: Vec<u8>,
}

/// The contents of a `SignedCandidInvoice`.
pub struct SignedCandidModel {
    pub invoice: Seq<char>,
    pub amount_msat: Option<nat>,
    pub payment_hash: Seq<u8>,
    pub payment_secret: Seq<u8>,
    pub timestamp: u64,
    pub expiry_secs: Option<u64>,
    pub currency: Seq<char>,
    pub channel_id: Seq<u8>,
    pub signature: Seq<u8>,
}

impl View for SignedCandidInvoice {
    type V = SignedCandidModel;

    open spec fn view(&self) -> SignedCandidModel {
        SignedCandidModel {
            invoice: self.invoice@,
            amount_msat: nat_option_view(self.amount_msat),
            payment_hash: self.payment_hash@,
            payment_secret: self.payment_secret@,
            timestamp: self.timestamp,
            expiry_secs: self.expiry_secs,
            currency: self.currency@,
            channel_id: self.channel_id@,
            signature: self.signature@,
        }
    }
}

impl CandidInvoice {
    /// The BOLT11 invoice that the record holds; its string must decode.
    pub fn into_invoice(self) -> (r: Bolt11Invoice)
        requires
            bolt11_decode(self.invoice@) is Ok,
        ensures
            bolt11_decode(self.invoice@) == Ok::<Bolt11Model, Seq<char>>(r@),
    {
        match Bolt11Invoice::parse(self.invoice.as_str()) {
            Ok(b) => b,
            Err(_) => {
                proof {
                    assert(false);
                }
                vstd::pervasive::unreached()
            },
        }
    }

    /// The BOLT11 invoice that the record holds, or `None` where its string
    /// does not decode.
    pub fn try_into_invoice(self) -> (r: Option<Bolt11Invoice>)
        ensures
            match bolt11_decode(self.invoice@) {
                Ok(m) => r matches Some(b) && b@ == m,
                Err(_) => r is None,
            },
    {
        match Bolt11Invoice::parse(self.invoice.as_str()) {
            Ok(_) => Some(self.into_invoice()),
            Err(_) => None,
        }
    }
}

} // verus!
