use x402_receipts::address::Address;
use x402_receipts::error::X402Error;
use x402_receipts::layout::DISCRIMINATOR;
use x402_receipts::receipt::Receipt;

fn sample() -> Receipt {
    Receipt {
        payer: Address::new([9u8; 32]),
        merchant: Address::new([7u8; 32]),
        reference: "order-42".to_string(),
        model_id: "gpt-x".to_string(),
        amount: 1_500_000,
        tx_sig: String::new(),
        timestamp: 1_700_000_000,
    }
}

fn sample_record() -> Vec<u8> {
    let mut bytes: Vec<u8> = vec![39, 154, 73, 106, 80, 102, 145, 153];
    bytes.extend_from_slice(&[9u8; 32]);
    bytes.extend_from_slice(&[7u8; 32]);
    bytes.extend_from_slice(&[8, 0, 0, 0]);
    bytes.extend_from_slice(b"order-42");
    bytes.extend_from_slice(&[0u8; 56]);
    bytes.extend_from_slice(&[5, 0, 0, 0]);
    bytes.extend_from_slice(b"gpt-x");
    bytes.extend_from_slice(&[0u8; 27]);
    bytes.extend_from_slice(&[0x60, 0xe3, 0x16, 0, 0, 0, 0, 0]);
    bytes.extend_from_slice(&[0, 0, 0, 0]);
    bytes.extend_from_slice(&[0u8; 128]);
    bytes.extend_from_slice(&[0x00, 0xf1, 0x53, 0x65, 0, 0, 0, 0]);
    bytes
}

#[test]
fn a_record_takes_324_bytes() {
    assert_eq!(Receipt::LEN, 324);
    assert_eq!(Receipt::LEN, 8 + 32 + 32 + (4 + 64) + (4 + 32) + 8 + (4 + 128) + 8);
}

#[test]
fn the_tag_is_eight_bytes() {
    assert_eq!(DISCRIMINATOR, [39, 154, 73, 106, 80, 102, 145, 153]);
}

#[test]
fn the_record_of_a_known_receipt() {
    assert_eq!(sample_record().len(), 324);
    assert_eq!(sample().encode(), Ok(sample_record()));
}

#[test]
fn storage_is_the_same_for_empty_and_for_full_texts() {
    let mut empty = sample();
    empty.reference = String::new();
    empty.model_id = String::new();
    empty.tx_sig = String::new();
    let mut full = sample();
    full.reference = "r".repeat(64);
    full.model_id = "m".repeat(32);
    full.tx_sig = "s".repeat(128);
    let empty_record = empty.encode().unwrap();
    let full_record = full.encode().unwrap();
    assert_eq!(empty_record.len(), Receipt::LEN);
    assert_eq!(full_record.len(), Receipt::LEN);
    assert_eq!(sample().encode().unwrap().len(), Receipt::LEN);
    // A full text leaves no padding: the next field follows at once.
    assert_eq!(&full_record[72..76], &[64, 0, 0, 0]);
    assert_eq!(&full_record[76..140], "r".repeat(64).as_bytes());
    assert_eq!(&full_record[140..144], &[32, 0, 0, 0]);
    assert_eq!(&full_record[184..188], &[128, 0, 0, 0]);
    assert_eq!(&full_record[188..316], "s".repeat(128).as_bytes());
    // An empty text leaves its whole field zero.
    assert!(empty_record[72..176].iter().all(|b| *b == 0));
    assert!(empty_record[184..316].iter().all(|b| *b == 0));
}

#[test]
fn integers_are_stored_least_significant_byte_first() {
    let mut receipt = sample();
    receipt.amount = 0x0102_0304_0506_0708;
    receipt.timestamp = -1;
    let record = receipt.encode().unwrap();
    assert_eq!(&record[176..184], &[8, 7, 6, 5, 4, 3, 2, 1]);
    assert_eq!(&record[316..324], &[0xff; 8]);
    receipt.amount = u64::MAX;
    receipt.timestamp = i64::MIN;
    let record = receipt.encode().unwrap();
    assert_eq!(&record[176..184], &[0xff; 8]);
    assert_eq!(&record[316..324], &[0, 0, 0, 0, 0, 0, 0, 0x80]);
    receipt.timestamp = -2;
    assert_eq!(&receipt.encode().unwrap()[316..324], &(-2i64).to_le_bytes());
}

#[test]
fn a_receipt_over_a_capacity_has_no_record() {
    let mut receipt = sample();
    receipt.tx_sig = "s".repeat(129);
    assert_eq!(receipt.encode(), Err(X402Error::TxSigTooLong));
    receipt.model_id = "m".repeat(33);
    assert_eq!(receipt.encode(), Err(X402Error::ModelIdTooLong));
    receipt.reference = "r".repeat(65);
    assert_eq!(receipt.encode(), Err(X402Error::ReferenceTooLong));
}

#[test]
fn a_record_is_read_back_field_for_field() {
    assert_eq!(Receipt::decode(&sample_record()), Some(sample()));
    let mut receipt = sample();
    receipt.reference = "\u{e9}".repeat(32);
    receipt.model_id = "m".repeat(32);
    receipt.tx_sig = "\u{1f600}".repeat(32);
    receipt.amount = u64::MAX;
    receipt.timestamp = i64::MIN;
    let record = receipt.encode().unwrap();
    assert_eq!(Receipt::decode(&record), Some(receipt.clone()));
    receipt.timestamp = -1;
    receipt.amount = 0;
    assert_eq!(Receipt::decode(&receipt.encode().unwrap()), Some(receipt));
}

#[test]
fn only_a_record_of_324_bytes_is_read() {
    let record = sample_record();
    assert_eq!(Receipt::decode(&record[..323]), None);
    let mut longer = record.clone();
    longer.push(0);
    assert_eq!(Receipt::decode(&longer), None);
    assert_eq!(Receipt::decode(&[]), None);
}

#[test]
fn a_record_with_another_tag_is_not_read() {
    for at in 0..8 {
        let mut record = sample_record();
        record[at] ^= 1;
        assert_eq!(Receipt::decode(&record), None);
    }
    assert_eq!(Receipt::decode(&[0u8; 324]), None);
}

#[test]
fn a_length_over_the_capacity_is_not_read() {
    let mut record = sample_record();
    record[72] = 65;
    assert_eq!(Receipt::decode(&record), None);
    let mut record = sample_record();
    record[73] = 1;
    assert_eq!(Receipt::decode(&record), None);
    let mut record = sample_record();
    record[140] = 33;
    assert_eq!(Receipt::decode(&record), None);
    let mut record = sample_record();
    record[184] = 129;
    assert_eq!(Receipt::decode(&record), None);
    let mut record = sample_record();
    record[187] = 1;
    assert_eq!(Receipt::decode(&record), None);
}

#[test]
fn bytes_after_a_text_must_be_zero() {
    let mut record = sample_record();
    record[139] = 1;
    assert_eq!(Receipt::decode(&record), None);
    let mut record = sample_record();
    record[84] = b'x';
    assert_eq!(Receipt::decode(&record), None);
    // With the length raised to cover it, the same byte belongs to the text.
    record[72] = 9;
    let mut receipt = sample();
    receipt.reference = "order-42x".to_string();
    assert_eq!(Receipt::decode(&record), Some(receipt));
}

#[test]
fn a_text_that_is_not_utf8_is_not_read() {
    let mut record = sample_record();
    record[76] = 0xff;
    assert_eq!(Receipt::decode(&record), None);
    // The first byte of a two-byte character alone is no text.
    let mut record = sample_record();
    record[144] = 0xc3;
    record[140] = 1;
    record[145..149].copy_from_slice(&[0, 0, 0, 0]);
    assert_eq!(Receipt::decode(&record), None);
}
