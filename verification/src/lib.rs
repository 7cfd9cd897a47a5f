//! An on-chain receipt ledger: one operation records an immutable claim that a
//! payer settled an amount with a merchant for a named model.
//!
//! A receipt is stored once, in an account whose address is derived from its
//! reference, as a record of fixed width. This crate holds the rules of that
//! operation: the capacities of the fields, the order of the checks, the
//! derivation of the address and the layout of the record.

pub mod address;
pub mod error;
pub mod layout;
pub mod receipt;
pub mod registry;

pub use crate::address::{receipt_address, Address};
pub use crate::error::{RecordError, X402Error};
pub use crate::receipt::Receipt;
pub use crate::registry::{record_receipt, record_receipt_at, RecordReceipt};
