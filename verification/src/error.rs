//! Why a request to record a receipt fails.

use anchor_lang::prelude::ProgramError;
use vstd::prelude::*;

verus! {

/// The runtime's own error type. The registry hands such an error on and
/// never looks inside it.
#[verifier::external_type_specification]
#[verifier::external_body]
pub struct ExProgramError(ProgramError);

/// Why the registry refused a request. Each variant names a field that is
/// longer than the capacity reserved for it.
#[derive(Clone, Copy, Debug, PartialEq, Eq, Structural)]
pub enum X402Error {
    /// The reference holds more than 64 bytes.
    ReferenceTooLong,
    /// The model identifier holds more than 32 bytes.
    ModelIdTooLong,
    /// The settlement signature holds more than 128 bytes.
    TxSigTooLong,
}

impl X402Error {
    /// The fixed text that goes with each refusal.
    pub open spec fn spec_message(self) -> Seq<char> {
        match self {
            X402Error::ReferenceTooLong => "Reference string too long"@,
            X402Error::ModelIdTooLong => "Model ID too long"@,
            X402Error::TxSigTooLong => "Transaction signature too long"@,
        }
    }

    /// The human-readable message of this refusal.
    pub fn message(&self) -> (text: &'static str)
        ensures
            text@ == self.spec_message(),
    {
        match self {
            X402Error::ReferenceTooLong => "Reference string too long",
            X402Error::ModelIdTooLong => "Model ID too long",
            X402Error::TxSigTooLong => "Transaction signature too long",
        }
    }
}

/// How recording a receipt can fail: the registry refuses the request, or
/// the runtime fails underneath it.
#[derive(Debug, PartialEq, Eq)]
pub enum RecordError {
    /// A field is longer than its capacity.
    Validation(X402Error),
    /// An error of the runtime, handed on as it came.
    Runtime(ProgramError),
}

} // verus!
