//! The stored form of a receipt: a record of fixed width.
//!
//! A record is an 8-byte tag, then the seven fields in their declared
//! order. An identifier takes its 32 bytes; an integer takes 8 bytes, least
//! significant first; a text takes a 4-byte length, least significant
//! first, then its bytes, then zeros up to its capacity. Every record has
//! the same length, whatever its texts hold.

use crate::address::Address;
use crate::error::X402Error;
use crate::receipt::{
    byte_len, check_lengths, first_violation, Receipt, ReceiptView, MAX_MODEL_ID_LEN,
    MAX_REFERENCE_LEN, MAX_TX_SIG_LEN,
};
use vstd::prelude::*;
use vstd::string::StringSliceAdditionalSpecFns;
use vstd::utf8::{decode_utf8, encode_utf8, valid_utf8};

verus! {

/// The tag that opens every record of a receipt.
pub const DISCRIMINATOR: [u8; 8] = [39, 154, 73, 106, 80, 102, 145, 153];

/// The four bytes of `x`, least significant first.
pub open spec fn u32_le(x: u32) -> Seq<u8> {
    seq![
        (x % 256) as u8,
        (x / 256 % 256) as u8,
        (x / 256 / 256 % 256) as u8,
        (x / 256 / 256 / 256 % 256) as u8,
    ]
}

/// The number whose four bytes, least significant first, are `bytes`.
pub open spec fn u32_from_le(bytes: Seq<u8>) -> u32
    recommends
        bytes.len() == 4,
{
    (bytes[0] + 256 * (bytes[1] + 256 * (bytes[2] + 256 * bytes[3]))) as u32
}

/// The eight bytes of `x`, least significant first.
pub open spec fn u64_le(x: u64) -> Seq<u8> {
    u32_le((x % 4294967296) as u32) + u32_le((x / 4294967296) as u32)
}

/// The number whose eight bytes, least significant first, are `bytes`.
pub open spec fn u64_from_le(bytes: Seq<u8>) -> u64
    recommends
        bytes.len() == 8,
{
    (u32_from_le(bytes.subrange(0, 4)) + u32_from_le(bytes.subrange(4, 8)) * 4294967296) as u64
}

/// The unsigned number with the bits of `x` in two's complement.
pub open spec fn i64_bits(x: i64) -> u64 {
    if x >= 0 {
        x as u64
    } else {
        (x + 18446744073709551616) as u64
    }
}

/// The signed number whose bits in two's complement are `bits`.
pub open spec fn i64_from_bits(bits: u64) -> i64 {
    if bits <= 9223372036854775807 {
        bits as i64
    } else {
        (bits - 18446744073709551616) as i64
    }
}

/// `n` zero bytes.
pub open spec fn zeros(n: nat) -> Seq<u8> {
    Seq::new(n, |i: int| 0u8)
}

/// A text in a field of `capacity` bytes: its length in bytes, its bytes,
/// and zeros up to the capacity.
pub open spec fn text_field(text: Seq<char>, capacity: nat) -> Seq<u8>
    recommends
        byte_len(text) <= capacity,
{
    u32_le(byte_len(text) as u32) + encode_utf8(text) + zeros((capacity - byte_len(text)) as nat)
}

/// The text that a field of `capacity` bytes holds: `None` where the
/// length is over the capacity, the bytes are no UTF-8, or a byte after the
/// text is not zero.
pub open spec fn parse_text_field(field: Seq<u8>, capacity: nat) -> Option<Seq<char>>
    recommends
        field.len() == 4 + capacity,
{
    let len = u32_from_le(field.subrange(0, 4)) as int;
    if len <= capacity && valid_utf8(field.subrange(4, 4 + len)) && field.subrange(
        4 + len,
        4 + capacity as int,
    ) == zeros((capacity - len) as nat) {
        Some(decode_utf8(field.subrange(4, 4 + len)))
    } else {
        None
    }
}

/// The record of a receipt.
pub open spec fn record(receipt: ReceiptView) -> Seq<u8>
    recommends
        receipt.wf(),
{
    DISCRIMINATOR@ + receipt.payer + receipt.merchant + text_field(
        receipt.reference,
        MAX_REFERENCE_LEN as nat,
    ) + text_field(receipt.model_id, MAX_MODEL_ID_LEN as nat) + u64_le(receipt.amount)
        + text_field(receipt.tx_sig, MAX_TX_SIG_LEN as nat) + u64_le(i64_bits(receipt.timestamp))
}

/// The receipt that a record holds: `None` where `bytes` is not the record
/// of any receipt.
pub open spec fn parse_record(bytes: Seq<u8>) -> Option<ReceiptView> {
    if bytes.len() != Receipt::LEN || bytes.subrange(0, 8) != DISCRIMINATOR@ {
        None
    } else {
        match (
            parse_text_field(bytes.subrange(72, 140), MAX_REFERENCE_LEN as nat),
            parse_text_field(bytes.subrange(140, 176), MAX_MODEL_ID_LEN as nat),
            parse_text_field(bytes.subrange(184, 316), MAX_TX_SIG_LEN as nat),
        ) {
            (Some(reference), Some(model_id), Some(tx_sig)) => Some(
                ReceiptView {
                    payer: bytes.subrange(8, 40),
                    merchant: bytes.subrange(40, 72),
                    reference,
                    model_id,
                    amount: u64_from_le(bytes.subrange(176, 184)),
                    tx_sig,
                    timestamp: i64_from_bits(u64_from_le(bytes.subrange(316, 324))),
                },
            ),
            _ => None,
        }
    }
}

/// Four bytes, least significant first, name one number and one only.
pub proof fn lemma_u32_le_inverse(x: u32, bytes: Seq<u8>)
    ensures
        u32_le(x).len() == 4,
        u32_from_le(u32_le(x)) == x,
        bytes.len() == 4 ==> u32_le(u32_from_le(bytes)) == bytes,
{
    let x1 = x / 256;
    let x2 = x1 / 256;
    let x3 = x2 / 256;
    assert(x == x % 256 + 256 * x1);
    assert(x1 == x1 % 256 + 256 * x2);
    assert(x2 == x2 % 256 + 256 * x3);
    assert(x3 < 256);
    assert(x3 % 256 == x3);
    if bytes.len() == 4 {
        let y3 = bytes[3] as int;
        let y2 = bytes[2] + 256 * y3;
        let y1 = bytes[1] + 256 * y2;
        let y = bytes[0] + 256 * y1;
        assert(y % 256 == bytes[0] && y / 256 == y1);
        assert(y1 % 256 == bytes[1] && y1 / 256 == y2);
        assert(y2 % 256 == bytes[2] && y2 / 256 == y3);
        assert(y3 % 256 == bytes[3]);
        assert(y == u32_from_le(bytes));
        assert(u32_le(u32_from_le(bytes)) =~= bytes);
    }
}

/// Eight bytes, least significant first, name one number and one only.
pub proof fn lemma_u64_le_inverse(x: u64, bytes: Seq<u8>)
    ensures
        u64_le(x).len() == 8,
        u64_from_le(u64_le(x)) == x,
        bytes.len() == 8 ==> u64_le(u64_from_le(bytes)) == bytes,
{
    let low = (x % 4294967296) as u32;
    let high = (x / 4294967296) as u32;
    lemma_u32_le_inverse(low, bytes.subrange(0, 4));
    lemma_u32_le_inverse(high, bytes.subrange(4, 8));
    assert(u64_le(x).subrange(0, 4) =~= u32_le(low));
    assert(u64_le(x).subrange(4, 8) =~= u32_le(high));
    if bytes.len() == 8 {
        let y = u64_from_le(bytes);
        assert((y % 4294967296) as u32 == u32_from_le(bytes.subrange(0, 4)));
        assert((y / 4294967296) as u32 == u32_from_le(bytes.subrange(4, 8)));
        assert(u64_le(y) =~= bytes.subrange(0, 4) + bytes.subrange(4, 8));
        assert(bytes.subrange(0, 4) + bytes.subrange(4, 8) =~= bytes);
    }
}

/// Two's complement loses nothing of a signed number.
pub proof fn lemma_i64_bits_inverse(x: i64, bits: u64)
    ensures
        i64_from_bits(i64_bits(x)) == x,
        i64_bits(i64_from_bits(bits)) == bits,
{
}

/// A text that fits its field is read back from it, and the field has the
/// same width whatever the text.
pub proof fn lemma_text_field_parses(text: Seq<char>, capacity: nat)
    requires
        byte_len(text) <= capacity <= u32::MAX,
    ensures
        text_field(text, capacity).len() == 4 + capacity,
        parse_text_field(text_field(text, capacity), capacity) == Some(text),
{
    let len = byte_len(text) as int;
    let field = text_field(text, capacity);
    lemma_u32_le_inverse(len as u32, Seq::empty());
    assert(field.subrange(0, 4) =~= u32_le(len as u32));
    assert(field.subrange(4, 4 + len) =~= encode_utf8(text));
    assert(field.subrange(4 + len, 4 + capacity as int) =~= zeros((capacity - len) as nat));
    vstd::utf8::encode_utf8_valid_utf8(text);
    vstd::utf8::encode_utf8_decode_utf8(text);
}

/// A field that holds a text is the field of that text, and of no other.
pub proof fn lemma_parsed_text_field(field: Seq<u8>, capacity: nat)
    requires
        field.len() == 4 + capacity,
        capacity <= u32::MAX,
        parse_text_field(field, capacity) is Some,
    ensures
        byte_len(parse_text_field(field, capacity)->0) <= capacity,
        text_field(parse_text_field(field, capacity)->0, capacity) == field,
{
    let len = u32_from_le(field.subrange(0, 4)) as int;
    let text = parse_text_field(field, capacity)->0;
    vstd::utf8::decode_utf8_encode_utf8(field.subrange(4, 4 + len));
    lemma_u32_le_inverse(0, field.subrange(0, 4));
    assert(text_field(text, capacity) =~= field);
}

/// The storage of a receipt is constant: the record of a well-formed
/// receipt has `LEN` bytes, whether its texts are empty or fill their
/// capacities.
pub proof fn lemma_record_len(receipt: ReceiptView)
    requires
        receipt.wf(),
    ensures
        record(receipt).len() == Receipt::LEN,
{
    lemma_text_field_parses(receipt.reference, MAX_REFERENCE_LEN as nat);
    lemma_text_field_parses(receipt.model_id, MAX_MODEL_ID_LEN as nat);
    lemma_text_field_parses(receipt.tx_sig, MAX_TX_SIG_LEN as nat);
    lemma_u64_le_inverse(receipt.amount, Seq::empty());
    lemma_u64_le_inverse(i64_bits(receipt.timestamp), Seq::empty());
}

/// What is stored is what was written: the record of a well-formed receipt
/// holds that receipt, field for field.
pub proof fn lemma_record_parses(receipt: ReceiptView)
    requires
        receipt.wf(),
    ensures
        parse_record(record(receipt)) == Some(receipt),
{
    let bytes = record(receipt);
    lemma_record_len(receipt);
    lemma_text_field_parses(receipt.reference, MAX_REFERENCE_LEN as nat);
    lemma_text_field_parses(receipt.model_id, MAX_MODEL_ID_LEN as nat);
    lemma_text_field_parses(receipt.tx_sig, MAX_TX_SIG_LEN as nat);
    lemma_u64_le_inverse(receipt.amount, Seq::empty());
    lemma_u64_le_inverse(i64_bits(receipt.timestamp), Seq::empty());
    lemma_i64_bits_inverse(receipt.timestamp, 0);
    assert(bytes.subrange(0, 8) =~= DISCRIMINATOR@);
    assert(bytes.subrange(8, 40) =~= receipt.payer);
    assert(bytes.subrange(40, 72) =~= receipt.merchant);
    assert(bytes.subrange(72, 140) =~= text_field(receipt.reference, MAX_REFERENCE_LEN as nat));
    assert(bytes.subrange(140, 176) =~= text_field(receipt.model_id, MAX_MODEL_ID_LEN as nat));
    assert(bytes.subrange(176, 184) =~= u64_le(receipt.amount));
    assert(bytes.subrange(184, 316) =~= text_field(receipt.tx_sig, MAX_TX_SIG_LEN as nat));
    assert(bytes.subrange(316, 324) =~= u64_le(i64_bits(receipt.timestamp)));
}

/// A record holds one receipt and is the record of that receipt: no two
/// records hold the same receipt.
pub proof fn lemma_parsed_record(bytes: Seq<u8>)
    requires
        parse_record(bytes) is Some,
    ensures
        parse_record(bytes)->0.wf(),
        record(parse_record(bytes)->0) == bytes,
{
    let receipt = parse_record(bytes)->0;
    lemma_parsed_text_field(bytes.subrange(72, 140), MAX_REFERENCE_LEN as nat);
    lemma_parsed_text_field(bytes.subrange(140, 176), MAX_MODEL_ID_LEN as nat);
    lemma_parsed_text_field(bytes.subrange(184, 316), MAX_TX_SIG_LEN as nat);
    lemma_u64_le_inverse(0, bytes.subrange(176, 184));
    lemma_u64_le_inverse(0, bytes.subrange(316, 324));
    lemma_i64_bits_inverse(0, u64_from_le(bytes.subrange(316, 324)));
    assert(record(receipt) =~= bytes.subrange(0, 8) + bytes.subrange(8, 40) + bytes.subrange(
        40,
        72,
    ) + bytes.subrange(72, 140) + bytes.subrange(140, 176) + bytes.subrange(176, 184)
        + bytes.subrange(184, 316) + bytes.subrange(316, 324));
    assert(record(receipt) =~= bytes);
}

/// Appends the four bytes of `x`, least significant first.
fn push_u32_le(out: &mut Vec<u8>, x: u32)
    ensures
        final(out)@ == old(out)@ + u32_le(x),
{
    out.push((x % 256) as u8);
    out.push((x / 256 % 256) as u8);
    out.push((x / 256 / 256 % 256) as u8);
    out.push((x / 256 / 256 / 256 % 256) as u8);
    assert(out@ =~= old(out)@ + u32_le(x));
}

/// Appends the eight bytes of `x`, least significant first.
fn push_u64_le(out: &mut Vec<u8>, x: u64)
    ensures
        final(out)@ == old(out)@ + u64_le(x),
{
    push_u32_le(out, (x % 4294967296) as u32);
    push_u32_le(out, (x / 4294967296) as u32);
    assert(out@ =~= old(out)@ + u64_le(x));
}

/// Appends `bytes`.
fn push_bytes(out: &mut Vec<u8>, bytes: &[u8])
    ensures
        final(out)@ == old(out)@ + bytes@,
{
    let mut i: usize = 0;
    while i < bytes.len()
        invariant
            i <= bytes.len(),
            out@ == old(out)@ + bytes@.subrange(0, i as int),
        decreases bytes.len() - i,
    {
        out.push(bytes[i]);
        i = i + 1;
        assert(out@ =~= old(out)@ + bytes@.subrange(0, i as int));
    }
    assert(bytes@.subrange(0, i as int) =~= bytes@);
}

/// Appends `n` zero bytes.
fn push_zeros(out: &mut Vec<u8>, n: usize)
    ensures
        final(out)@ == old(out)@ + zeros(n as nat),
{
    let mut i: usize = 0;
    while i < n
        invariant
            i <= n,
            out@ == old(out)@ + zeros(i as nat),
        decreases n - i,
    {
        out.push(0u8);
        i = i + 1;
        assert(out@ =~= old(out)@ + zeros(i as nat));
    }
}

/// Appends `text` as a field of `capacity` bytes.
fn push_text_field(out: &mut Vec<u8>, text: &str, capacity: usize)
    requires
        byte_len(text@) <= capacity <= u32::MAX,
    ensures
        final(out)@ == old(out)@ + text_field(text@, capacity as nat),
{
    let bytes = text.as_bytes();
    let len: usize = bytes.len();
    push_u32_le(out, len as u32);
    push_bytes(out, bytes);
    push_zeros(out, capacity - len);
    assert(out@ =~= old(out)@ + text_field(text@, capacity as nat));
}

/// The bits of `x` in two's complement.
fn bits_of_i64(x: i64) -> (bits: u64)
    ensures
        bits == i64_bits(x),
{
    if x >= 0 {
        x as u64
    } else {
        (x as i128 + 18446744073709551616i128) as u64
    }
}

/// Calls `String::from_utf8`. Trusted: the call succeeds on well-formed
/// UTF-8 and on nothing else, and the text it gives is encoded by the bytes
/// it was given.
#[verifier::external_body]
fn string_from_utf8(bytes: Vec<u8>) -> (text: Option<String>)
    ensures
        text is Some <==> valid_utf8(bytes@),
        text matches Some(s) ==> encode_utf8(s@) == bytes@,
{
    match String::from_utf8(bytes) {
        Ok(text) => Some(text),
        Err(_) => None,
    }
}

/// The number in the four bytes from `at`, least significant first.
fn u32_le_at(bytes: &[u8], at: usize) -> (x: u32)
    requires
        at + 4 <= bytes.len(),
    ensures
        x == u32_from_le(bytes@.subrange(at as int, at + 4)),
{
    let b0: u32 = bytes[at] as u32;
    let b1: u32 = bytes[at + 1] as u32;
    let b2: u32 = bytes[at + 2] as u32;
    let b3: u32 = bytes[at + 3] as u32;
    b0 + 256 * (b1 + 256 * (b2 + 256 * b3))
}

/// The number in the eight bytes from `at`, least significant first.
fn u64_le_at(bytes: &[u8], at: usize) -> (x: u64)
    requires
        at + 8 <= bytes.len(),
    ensures
        x == u64_from_le(bytes@.subrange(at as int, at + 8)),
{
    let low: u64 = u32_le_at(bytes, at) as u64;
    let high: u64 = u32_le_at(bytes, at + 4) as u64;
    proof {
        let eight = bytes@.subrange(at as int, at + 8);
        assert(eight.subrange(0, 4) =~= bytes@.subrange(at as int, at + 4));
        assert(eight.subrange(4, 8) =~= bytes@.subrange(at + 4, at + 8));
    }
    low + high * 4294967296
}

/// The signed number with the bits `bits` in two's complement.
fn i64_of_bits(bits: u64) -> (x: i64)
    ensures
        x == i64_from_bits(bits),
{
    if bits <= 9223372036854775807 {
        bits as i64
    } else {
        (bits as i128 - 18446744073709551616i128) as i64
    }
}

/// A copy of the bytes from `from` up to `to`.
fn copy_of(bytes: &[u8], from: usize, to: usize) -> (copy: Vec<u8>)
    requires
        from <= to <= bytes.len(),
    ensures
        copy@ == bytes@.subrange(from as int, to as int),
{
    let mut copy: Vec<u8> = Vec::new();
    let mut i: usize = from;
    while i < to
        invariant
            from <= i <= to <= bytes.len(),
            copy@ == bytes@.subrange(from as int, i as int),
        decreases to - i,
    {
        copy.push(bytes[i]);
        i = i + 1;
        assert(copy@ =~= bytes@.subrange(from as int, i as int));
    }
    copy
}

/// The identifier in the 32 bytes from `at`.
fn address_at(bytes: &[u8], at: usize) -> (address: Address)
    requires
        at + 32 <= bytes.len(),
    ensures
        address@ == bytes@.subrange(at as int, at + 32),
{
    let mut held: [u8; 32] = [0u8; 32];
    let mut i: usize = 0;
    while i < 32
        invariant
            i <= 32,
            at + 32 <= bytes.len(),
            forall|k: int| 0 <= k < i ==> held@[k] == bytes@[at + k],
        decreases 32 - i,
    {
        held[i] = bytes[at + i];
        i = i + 1;
    }
    assert(held@ =~= bytes@.subrange(at as int, at + 32));
    Address { bytes: held }
}

/// Whether every byte from `from` up to `to` is zero.
fn all_zero(bytes: &[u8], from: usize, to: usize) -> (clear: bool)
    requires
        from <= to <= bytes.len(),
    ensures
        clear <==> bytes@.subrange(from as int, to as int) == zeros((to - from) as nat),
{
    let mut i: usize = from;
    while i < to
        invariant
            from <= i <= to <= bytes.len(),
            forall|k: int| from <= k < i ==> bytes@[k] == 0,
        decreases to - i,
    {
        if bytes[i] != 0 {
            assert(bytes@.subrange(from as int, to as int)[i - from] != 0);
            return false;
        }
        i = i + 1;
    }
    assert(bytes@.subrange(from as int, to as int) =~= zeros((to - from) as nat));
    true
}

/// The text in the field of `capacity` bytes that starts at `at`.
fn text_at(bytes: &[u8], at: usize, capacity: usize) -> (text: Option<String>)
    requires
        at + 4 + capacity <= bytes.len(),
        capacity <= 128,
    ensures
        match text {
            Some(s) => parse_text_field(
                bytes@.subrange(at as int, at + 4 + capacity),
                capacity as nat,
            ) == Some(s@),
            None => parse_text_field(
                bytes@.subrange(at as int, at + 4 + capacity),
                capacity as nat,
            ) is None,
        },
{
    let ghost field = bytes@.subrange(at as int, at + 4 + capacity);
    let len: u32 = u32_le_at(bytes, at);
    assert(field.subrange(0, 4) =~= bytes@.subrange(at as int, at + 4));
    if len > capacity as u32 {
        return None;
    }
    let len: usize = len as usize;
    assert(field.subrange(4, 4 + len) =~= bytes@.subrange(at + 4, at + 4 + len));
    assert(field.subrange(4 + len, 4 + capacity as int) =~= bytes@.subrange(
        at + 4 + len,
        at + 4 + capacity,
    ));
    if !all_zero(bytes, at + 4 + len, at + 4 + capacity) {
        return None;
    }
    match string_from_utf8(copy_of(bytes, at + 4, at + 4 + len)) {
        None => None,
        Some(s) => {
            proof {
                vstd::utf8::encode_utf8_decode_utf8(s@);
            }
            Some(s)
        },
    }
}

impl Receipt {
    /// The record of this receipt: `LEN` bytes, whatever its texts hold.
    ///
    /// A receipt with a text over its capacity has no record; the first such
    /// text is reported, in the order reference, model identifier,
    /// settlement signature.
    pub fn encode(&self) -> (result: Result<Vec<u8>, X402Error>)
        ensures
            match result {
                Ok(bytes) => self.wf() && bytes@ == record(self@) && bytes@.len() == Receipt::LEN,
                Err(refusal) => first_violation(self.reference@, self.model_id@, self.tx_sig@)
                    == Some(refusal),
            },
    {
        match check_lengths(self.reference.as_str(), self.model_id.as_str(), self.tx_sig.as_str()) {
            Err(refusal) => Err(refusal),
            Ok(()) => {
                let mut out: Vec<u8> = Vec::new();
                let tag = DISCRIMINATOR;
                push_bytes(&mut out, tag.as_slice());
                push_bytes(&mut out, self.payer.bytes.as_slice());
                push_bytes(&mut out, self.merchant.bytes.as_slice());
                push_text_field(&mut out, self.reference.as_str(), MAX_REFERENCE_LEN);
                push_text_field(&mut out, self.model_id.as_str(), MAX_MODEL_ID_LEN);
                push_u64_le(&mut out, self.amount);
                push_text_field(&mut out, self.tx_sig.as_str(), MAX_TX_SIG_LEN);
                push_u64_le(&mut out, bits_of_i64(self.timestamp));
                assert(out@ =~= record(self@));
                proof {
                    lemma_record_len(self@);
                }
                Ok(out)
            },
        }
    }

    /// The receipt that `bytes` holds, where `bytes` is a record: `LEN`
    /// bytes that open with the tag and hold three well-formed text fields.
    pub fn decode(bytes: &[u8]) -> (result: Option<Receipt>)
        ensures
            match result {
                Some(receipt) => parse_record(bytes@) == Some(receipt@),
                None => parse_record(bytes@) is None,
            },
    {
        if bytes.len() != Receipt::LEN {
            return None;
        }
        let tag = DISCRIMINATOR;
        let mut i: usize = 0;
        while i < 8
            invariant
                i <= 8,
                bytes.len() == Receipt::LEN,
                tag == DISCRIMINATOR,
                forall|k: int| 0 <= k < i ==> bytes@[k] == DISCRIMINATOR@[k],
            decreases 8 - i,
        {
            if bytes[i] != tag[i] {
                assert(bytes@.subrange(0, 8)[i as int] != DISCRIMINATOR@[i as int]);
                return None;
            }
            i = i + 1;
        }
        assert(bytes@.subrange(0, 8) =~= DISCRIMINATOR@);
        let reference = match text_at(bytes, 72, MAX_REFERENCE_LEN) {
            Some(text) => text,
            None => {
                return None;
            },
        };
        let model_id = match text_at(bytes, 140, MAX_MODEL_ID_LEN) {
            Some(text) => text,
            None => {
                return None;
            },
        };
        let tx_sig = match text_at(bytes, 184, MAX_TX_SIG_LEN) {
            Some(text) => text,
            None => {
                return None;
            },
        };
        Some(
            Receipt {
                payer: address_at(bytes, 8),
                merchant: address_at(bytes, 40),
                reference,
                model_id,
                amount: u64_le_at(bytes, 176),
                tx_sig,
                timestamp: i64_of_bits(u64_le_at(bytes, 316)),
            },
        )
    }
}

} // verus!
