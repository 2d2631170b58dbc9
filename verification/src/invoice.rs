use crate::error::MintError;
use std::str::FromStr;
use vstd::prelude::*;

verus! {

/// What decoding a bolt11 payment request yields: `None` where the string
/// is no valid invoice, else the invoice's amount in millisatoshis (absent
/// for amountless invoices) and its expiry in seconds. A function of the
/// string alone.
pub uninterp spec fn bolt11_parts(pr: Seq<char>) -> Option<(Option<u64>, u64)>;

/// Relies on `lightning_invoice::Bolt11Invoice::from_str` and the decoded
/// invoice's `amount_milli_satoshis` and `expiry_time` accessors: the
/// decoded fields are a function of the payment request string alone.
#[verifier::external_body]
fn decode_bolt11(pr: &String) -> (r: Option<(Option<u64>, u64)>)
    ensures
        r == bolt11_parts(pr@),
{
    match lightning_invoice::Bolt11Invoice::from_str(pr.as_str()) {
        Ok(invoice) => Some((invoice.amount_milli_satoshis(), invoice.expiry_time().as_secs())),
        Err(_) => None,
    }
}

/// A decoded payment request as handed to the mobile client: the request
/// string, its amount rounded down to whole satoshis (zero where the
/// invoice names none), and its expiry in seconds.
#[derive(Clone, Debug)]
pub struct FlutterInvoice {
    pub pr: String,
    pub amount_sats: u64,
    pub expiry_time: u64,
}

/// Decodes a bolt11 payment request for display: fails `InvalidInvoice`
/// exactly when the string does not decode; an amountless invoice is
/// shown with zero satoshis.
pub fn decode_invoice(pr: String) -> (r: Result<FlutterInvoice, MintError>)
    ensures
        match r {
            Ok(fi) => match bolt11_parts(pr@) {
                Some((msat, expiry)) => fi.pr@ == pr@ && fi.expiry_time == expiry
                    && fi.amount_sats == (match msat {
                    Some(m) => m / 1000,
                    None => 0u64,
                }),
                None => false,
            },
            Err(e) => e == MintError::InvalidInvoice && bolt11_parts(pr@) is None,
        },
{
    match decode_bolt11(&pr) {
        Some((msat, expiry)) => {
            let amount_sats = match msat {
                Some(m) => m / 1000,
                None => 0u64,
            };
            Ok(FlutterInvoice { pr, amount_sats, expiry_time: expiry })
        },
        None => Err(MintError::InvalidInvoice),
    }
}

/// The invoice amount a melt must cover, in whole satoshis: fails
/// `InvalidInvoice` where the string does not decode or names no amount.
pub fn invoice_amount_sat(pr: &String) -> (r: Result<u64, MintError>)
    ensures
        match r {
            Ok(a) => match bolt11_parts(pr@) {
                Some((msat, expiry)) => msat matches Some(m) && a == m / 1000,
                None => false,
            },
            Err(e) => e == MintError::InvalidInvoice && (bolt11_parts(pr@) is None || (bolt11_parts(
                pr@,
            )->0).0 is None),
        },
{
    match decode_bolt11(pr) {
        Some((msat, _)) => match msat {
            Some(m) => Ok(m / 1000),
            None => Err(MintError::InvalidInvoice),
        },
        None => Err(MintError::InvalidInvoice),
    }
}

/// An invoice and its hash as returned by the mint's quote endpoint.
#[derive(Clone, Debug)]
pub struct PaymentRequest {
    pub pr: String,
    pub hash: String,
}

/// A mint payment request as handed to the mobile client.
#[derive(Clone, Debug)]
pub struct FlutterPaymentRequest {
    pub pr: String,
    pub hash: String,
}

/// A payment request of the federated backend as handed to the mobile
/// client.
#[derive(Clone, Debug)]
pub struct FedimintPaymentRequest {
    pub pr: String,
    pub operation_id: String,
}

/// Repacks a mint payment request for the mobile client, field for field.
pub fn to_flutter_payment_request(request: PaymentRequest) -> (r: FlutterPaymentRequest)
    ensures
        r.pr@ == request.pr@,
        r.hash@ == request.hash@,
{
    FlutterPaymentRequest { pr: request.pr, hash: request.hash }
}

} // verus!
