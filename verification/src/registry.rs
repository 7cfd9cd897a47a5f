//! The registry's one operation: recording a receipt.
//!
//! The runtime derives the address of the receipt's account from the
//! reference and allocates that account before the operation runs; it
//! refuses an address that is in use, so a reference is recorded at most
//! once. The operation checks the request and fills the account.

use crate::address::Address;
use crate::error::{RecordError, X402Error};
use crate::receipt::{check_lengths, first_violation, Receipt};
use anchor_lang::prelude::{Clock, ProgramError, SolanaSysvar};
use vstd::prelude::*;

verus! {

/// The accounts of one request.
pub struct RecordReceipt {
    /// The account that the runtime allocated for the new receipt.
    pub receipt: Receipt,
    /// The merchant named by the caller; stored, never checked.
    pub merchant: Address,
    /// The payer, who signed the request and funds the account.
    pub payer: Address,
}

/// Calls `Clock::get` and hands back the clock's `unix_timestamp`, or the
/// runtime's error where it has no clock. Trusted: nothing is claimed of
/// the result.
#[verifier::external_body]
fn clock_unix_timestamp() -> (now: Result<i64, ProgramError>) {
    match Clock::get() {
        Ok(clock) => Ok(clock.unix_timestamp),
        Err(error) => Err(error),
    }
}

/// Checks a request and, where each text fits its capacity, writes the
/// receipt into the allocated account with `unix_timestamp` as its time.
///
/// A request that is refused leaves the accounts as they were.
pub fn record_receipt_at(
    ctx: &mut RecordReceipt,
    reference: String,
    model_id: String,
    amount: u64,
    tx_sig: String,
    unix_timestamp: i64,
) -> (result: Result<(), X402Error>)
    ensures
        result == match first_violation(reference@, model_id@, tx_sig@) {
            Some(refusal) => Err::<(), X402Error>(refusal),
            None => Ok(()),
        },
        result is Err ==> *final(ctx) == *old(ctx),
        result is Ok ==> final(ctx).receipt.wf(),
        result is Ok ==> final(ctx).payer == old(ctx).payer,
        result is Ok ==> final(ctx).merchant == old(ctx).merchant,
        result is Ok ==> final(ctx).receipt == (Receipt {
            payer: old(ctx).payer,
            merchant: old(ctx).merchant,
            reference,
            model_id,
            amount,
            tx_sig,
            timestamp: unix_timestamp,
        }),
{
    match check_lengths(reference.as_str(), model_id.as_str(), tx_sig.as_str()) {
        Err(refusal) => Err(refusal),
        Ok(()) => {
            ctx.receipt = Receipt {
                payer: ctx.payer,
                merchant: ctx.merchant,
                reference,
                model_id,
                amount,
                tx_sig,
                timestamp: unix_timestamp,
            };
            Ok(())
        },
    }
}

/// Records a receipt: checks the request, reads the runtime's clock and
/// writes the receipt into the allocated account.
///
/// The texts are checked in the order reference, model identifier,
/// settlement signature, before the clock is read; an empty settlement
/// signature is accepted. Every failure leaves the accounts as they were,
/// and an error of the runtime is handed on unchanged.
pub fn record_receipt(
    ctx: &mut RecordReceipt,
    reference: String,
    model_id: String,
    amount: u64,
    tx_sig: String,
) -> (result: Result<(), RecordError>)
    ensures
        match result {
            Ok(()) => {
                &&& first_violation(reference@, model_id@, tx_sig@) is None
                &&& final(ctx).receipt.wf()
                &&& final(ctx).payer == old(ctx).payer
                &&& final(ctx).merchant == old(ctx).merchant
                &&& final(ctx).receipt == (Receipt {
                    payer: old(ctx).payer,
                    merchant: old(ctx).merchant,
                    reference,
                    model_id,
                    amount,
                    tx_sig,
                    timestamp: final(ctx).receipt.timestamp,
                })
            },
            Err(RecordError::Validation(refusal)) => {
                &&& first_violation(reference@, model_id@, tx_sig@) == Some(refusal)
                &&& *final(ctx) == *old(ctx)
            },
            Err(RecordError::Runtime(_)) => {
                &&& first_violation(reference@, model_id@, tx_sig@) is None
                &&& *final(ctx) == *old(ctx)
            },
        },
{
    match check_lengths(reference.as_str(), model_id.as_str(), tx_sig.as_str()) {
        Err(refusal) => Err(RecordError::Validation(refusal)),
        Ok(()) => match clock_unix_timestamp() {
            Err(error) => Err(RecordError::Runtime(error)),
            Ok(unix_timestamp) => {
                match record_receipt_at(ctx, reference, model_id, amount, tx_sig, unix_timestamp) {
                    Err(refusal) => Err(RecordError::Validation(refusal)),
                    Ok(()) => Ok(()),
                }
            },
        },
    }
}

} // verus!
