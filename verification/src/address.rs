//! Ledger addresses, and the address at which a receipt is stored.
//!
//! A receipt has no index of its own: the address of its account is derived
//! from the constant tag `receipt` and the bytes of its reference, so one
//! reference names one account.

use anchor_lang::prelude::Pubkey;
use vstd::prelude::*;
use vstd::string::StringSliceAdditionalSpecFns;
use vstd::utf8::encode_utf8;

verus! {

/// The longest seed, in bytes, that the ledger derives an address from.
pub const MAX_SEED_LEN: usize = 32;

/// The seed tag of every receipt account: the ASCII bytes of `receipt`.
pub const RECEIPT_SEED: [u8; 7] = [114, 101, 99, 101, 105, 112, 116];

/// An opaque 32-byte identifier: a payer, a merchant, a program, or the
/// account of a receipt. The registry stores identifiers and never
/// interprets them.
#[derive(Clone, Copy, Debug, PartialEq, Eq, Hash)]
pub struct Address {
    pub bytes: [u8; 32],
}

impl View for Address {
    type V = Seq<u8>;

    open spec fn view(&self) -> Seq<u8> {
        self.bytes@
    }
}

impl Address {
    /// The address made of `bytes`.
    pub fn new(bytes: [u8; 32]) -> (address: Address)
        ensures
            address.bytes == bytes,
    {
        Address { bytes }
    }

    /// The 32 bytes of the address.
    pub fn to_bytes(&self) -> (bytes: [u8; 32])
        ensures
            bytes == self.bytes,
    {
        self.bytes
    }
}

/// What the ledger's derivation makes of `seeds` under `program_id`: the
/// derived address with its bump seed, or `None` where it derives none.
pub uninterp spec fn program_address(seeds: Seq<Seq<u8>>, program_id: Seq<u8>) -> Option<
    (Seq<u8>, u8),
>;

/// Calls `Pubkey::try_find_program_address` on the two seeds `tag` and
/// `seed`. Trusted: the result is a function of the seeds and the program
/// alone, and no address is derived from a seed of more than 32 bytes.
#[verifier::external_body]
fn try_find_program_address(tag: &[u8], seed: &[u8], program_id: &[u8; 32]) -> (found: Option<
    ([u8; 32], u8),
>)
    ensures
        found matches Some((address, bump)) ==> program_address(seq![tag@, seed@], program_id@)
            == Some((address@, bump)),
        found is None ==> program_address(seq![tag@, seed@], program_id@) is None,
        tag@.len() > MAX_SEED_LEN || seed@.len() > MAX_SEED_LEN ==> found is None,
{
    match Pubkey::try_find_program_address(&[tag, seed], &Pubkey::new_from_array(*program_id)) {
        Some((address, bump)) => Some((address.to_bytes(), bump)),
        None => None,
    }
}

/// The account of the receipt with the given reference under `program_id`,
/// with its bump seed: the address derived from the seeds `receipt` and the
/// reference's bytes.
pub open spec fn spec_receipt_address(program_id: Seq<u8>, reference: Seq<char>) -> Option<
    (Seq<u8>, u8),
> {
    program_address(seq![RECEIPT_SEED@, encode_utf8(reference)], program_id)
}

/// `found` is what deriving the address of `reference` under `program_id`
/// gives: the derived address with its bump seed, or nothing where the
/// ledger derives none.
pub open spec fn derives(
    program_id: Seq<u8>,
    reference: Seq<char>,
    found: Option<(Address, u8)>,
) -> bool {
    match found {
        Some((address, bump)) => spec_receipt_address(program_id, reference) == Some(
            (address@, bump),
        ),
        None => spec_receipt_address(program_id, reference) is None,
    }
}

/// Derives the address of the account that holds the receipt for `reference`
/// under the program `program_id`, together with the bump seed.
///
/// A reference of more than 32 bytes is longer than a seed may be and has no
/// address.
pub fn receipt_address(program_id: &Address, reference: &str) -> (found: Option<(Address, u8)>)
    ensures
        derives(program_id@, reference@, found),
        encode_utf8(reference@).len() > MAX_SEED_LEN ==> found is None,
{
    let tag = RECEIPT_SEED;
    match try_find_program_address(tag.as_slice(), reference.as_bytes(), &program_id.bytes) {
        Some((bytes, bump)) => Some((Address { bytes }, bump)),
        None => None,
    }
}

/// Derivation is a function of the program and of the reference's bytes:
/// two derivations under one program, from references that hold the same
/// bytes, give the same address and bump seed, or both give nothing.
pub proof fn lemma_derivation_is_deterministic(
    program_id: Seq<u8>,
    reference: Seq<char>,
    again: Seq<char>,
    first: Option<(Address, u8)>,
    second: Option<(Address, u8)>,
)
    requires
        encode_utf8(reference) == encode_utf8(again),
        derives(program_id, reference, first),
        derives(program_id, again, second),
    ensures
        first == second,
{
    if let Some((a, _)) = first {
        if let Some((b, _)) = second {
            assert(a@ == b@);
            assert(a.bytes =~= b.bytes);
        }
    }
}

} // verus!
