//! The receipt: the one record that the registry keeps.

use crate::address::Address;
use crate::error::X402Error;
use vstd::prelude::*;
use vstd::string::StringSliceAdditionalSpecFns;
use vstd::utf8::encode_utf8;

verus! {

/// The capacity reserved for a reference, in bytes.
pub const MAX_REFERENCE_LEN: usize = 64;

/// The capacity reserved for a model identifier, in bytes.
pub const MAX_MODEL_ID_LEN: usize = 32;

/// The capacity reserved for a settlement signature, in bytes.
pub const MAX_TX_SIG_LEN: usize = 128;

/// The length of `text` in bytes, as the ledger counts it: the length of its
/// UTF-8 encoding.
pub open spec fn byte_len(text: Seq<char>) -> nat {
    encode_utf8(text).len()
}

/// The first capacity that the three texts of a request exceed, in the order
/// reference, model identifier, settlement signature; `None` where each fits.
pub open spec fn first_violation(
    reference: Seq<char>,
    model_id: Seq<char>,
    tx_sig: Seq<char>,
) -> Option<X402Error> {
    if byte_len(reference) > MAX_REFERENCE_LEN {
        Some(X402Error::ReferenceTooLong)
    } else if byte_len(model_id) > MAX_MODEL_ID_LEN {
        Some(X402Error::ModelIdTooLong)
    } else if byte_len(tx_sig) > MAX_TX_SIG_LEN {
        Some(X402Error::TxSigTooLong)
    } else {
        None
    }
}

/// An empty settlement signature fits: a request is never refused for a
/// settlement signature that is not there yet.
pub proof fn lemma_empty_tx_sig_fits(reference: Seq<char>, model_id: Seq<char>)
    ensures
        byte_len(Seq::empty()) == 0,
        first_violation(reference, model_id, Seq::empty()) != Some(X402Error::TxSigTooLong),
        first_violation(reference, model_id, Seq::empty()) is None <==> byte_len(reference)
            <= MAX_REFERENCE_LEN && byte_len(model_id) <= MAX_MODEL_ID_LEN,
{
}

/// Checks the three texts of a request against their capacities, in the
/// order reference, model identifier, settlement signature, and reports the
/// first that is too long.
pub fn check_lengths(reference: &str, model_id: &str, tx_sig: &str) -> (checked: Result<
    (),
    X402Error,
>)
    ensures
        checked == match first_violation(reference@, model_id@, tx_sig@) {
            Some(refusal) => Err::<(), X402Error>(refusal),
            None => Ok(()),
        },
{
    if reference.as_bytes().len() > MAX_REFERENCE_LEN {
        Err(X402Error::ReferenceTooLong)
    } else if model_id.as_bytes().len() > MAX_MODEL_ID_LEN {
        Err(X402Error::ModelIdTooLong)
    } else if tx_sig.as_bytes().len() > MAX_TX_SIG_LEN {
        Err(X402Error::TxSigTooLong)
    } else {
        Ok(())
    }
}

/// A claim that `payer` settled `amount` with `merchant` for the model
/// `model_id`, under the caller's `reference`.
///
/// The merchant is stored as given: nothing shows that it is a merchant's
/// address, and a reader must not take it for proof of one.
#[derive(Clone, Debug, PartialEq, Eq)]
pub struct Receipt {
    /// Who funded the settlement.
    pub payer: Address,
    /// Who received it.
    pub merchant: Address,
    /// The caller's correlation string, at most 64 bytes.
    pub reference: String,
    /// The service or product that was paid for, at most 32 bytes.
    pub model_id: String,
    /// The amount, in units of the caller's choosing.
    pub amount: u64,
    /// The signature of the settlement transaction, at most 128 bytes; empty
    /// while that transaction is not yet confirmed.
    pub tx_sig: String,
    /// Seconds since the epoch on the runtime's clock when the receipt was
    /// written.
    pub timestamp: i64,
}

/// What a receipt says, over mathematical values.
pub struct ReceiptView {
    pub payer: Seq<u8>,
    pub merchant: Seq<u8>,
    pub reference: Seq<char>,
    pub model_id: Seq<char>,
    pub amount: u64,
    pub tx_sig: Seq<char>,
    pub timestamp: i64,
}

impl ReceiptView {
    /// Both identifiers have 32 bytes and each text fits its capacity.
    pub open spec fn wf(self) -> bool {
        &&& self.payer.len() == 32
        &&& self.merchant.len() == 32
        &&& first_violation(self.reference, self.model_id, self.tx_sig) is None
    }
}

impl View for Receipt {
    type V = ReceiptView;

    open spec fn view(&self) -> ReceiptView {
        ReceiptView {
            payer: self.payer@,
            merchant: self.merchant@,
            reference: self.reference@,
            model_id: self.model_id@,
            amount: self.amount,
            tx_sig: self.tx_sig@,
            timestamp: self.timestamp,
        }
    }
}

impl Receipt {
    /// The bytes that the ledger reserves for one receipt, whatever its
    /// texts hold: an 8-byte tag, two 32-byte identifiers, three texts of
    /// 64, 32 and 128 bytes with a 4-byte length before each, and two
    /// 8-byte integers.
    pub const LEN: usize = 8 + 32 + 32 + 68 + 36 + 8 + 132 + 8;

    /// Each text of the receipt fits the capacity reserved for it.
    pub open spec fn wf(&self) -> bool {
        self@.wf()
    }
}

impl Default for Receipt {
    /// What a freshly allocated account holds before a receipt is written
    /// into it: zero identifiers and integers, and empty texts.
    fn default() -> (vacant: Receipt)
        ensures
            vacant@ == (ReceiptView {
                payer: Seq::new(32, |i: int| 0u8),
                merchant: Seq::new(32, |i: int| 0u8),
                reference: Seq::empty(),
                model_id: Seq::empty(),
                amount: 0,
                tx_sig: Seq::empty(),
                timestamp: 0,
            }),
    {
        let vacant = Receipt {
            payer: Address { bytes: [0u8; 32] },
            merchant: Address { bytes: [0u8; 32] },
            reference: String::new(),
            model_id: String::new(),
            amount: 0,
            tx_sig: String::new(),
            timestamp: 0,
        };
        assert(vacant.payer@ =~= Seq::new(32, |i: int| 0u8));
        assert(vacant.merchant@ =~= Seq::new(32, |i: int| 0u8));
        vacant
    }
}

} // verus!
