use alloy::signers::k256::sha2::{Digest, Sha256};
use liquidity_delivery::bytes::{
    append_be, append_le, base58_decode, base58_encode, hex_decode, hex_encode, left_pad_32,
    read_bytes32, read_le,
};
use liquidity_delivery::hashing::{keccak256, sha256};
use liquidity_delivery::solver::chain_events::svm_solver_event;
use liquidity_delivery::solver::events::SolverEvent;
use liquidity_delivery::solver::program_events::{
    anchor_discriminator, classify_program_event, decode_event_fields, event_hash,
    parse_program_events, EventDiscriminator, EventFields, ProgramEventKind,
};
use liquidity_delivery::text::{
    checked_pow10, contains_str, join3, parse_u128, pow10, to_lowercase, u128_to_decimal,
};

fn unhex(s: &str) -> Vec<u8> {
    hex::decode(s).unwrap()
}

#[test]
fn keccak256_of_empty_input() {
    let d = keccak256(&[]);
    assert_eq!(
        d.to_vec(),
        unhex("c5d2460186f7233c927e7db2dcc703c0e500b653ca82273b7bfad8045d85a470")
    );
}

#[test]
fn keccak256_matches_alloy() {
    let data = b"liquidity";
    assert_eq!(keccak256(data), alloy::primitives::keccak256(data).0);
    assert_ne!(keccak256(data).to_vec(), data.to_vec());
}

#[test]
fn sha256_of_abc() {
    let d = sha256(b"abc");
    assert_eq!(
        d.to_vec(),
        unhex("ba7816bf8f01cfea414140de5dae2223b00361a396177a9cb410ff61f20015ad")
    );
}

#[test]
fn order_opened_discriminator_hashes_event_name() {
    let want = Sha256::digest(b"event:OrderOpened");
    assert_eq!(EventDiscriminator::OrderOpened.discriminator().to_vec(), want[..8].to_vec());
    assert_eq!(event_hash("OrderOpened"), [2, 254, 197, 24, 41, 166, 225, 56]);
}

#[test]
fn instruction_discriminator_hashes_global_prefix() {
    let want = Sha256::digest(b"global:fill_native_order");
    assert_eq!(anchor_discriminator("fill_native_order"), want[..8].to_vec());
}

#[test]
fn hex_round_trip() {
    assert_eq!(hex_encode(&[0xde, 0xad, 0x01]), "dead01");
    assert_eq!(hex_decode(b"DeAd01").unwrap(), vec![0xde, 0xad, 0x01]);
    assert!(hex_decode(b"abc").is_err());
    assert!(hex_decode(b"zz").is_err());
}

#[test]
fn base58_round_trip() {
    assert_eq!(base58_encode(&[0u8; 32]), "11111111111111111111111111111111");
    assert_eq!(base58_decode(b"11111111111111111111111111111111").unwrap(), vec![0u8; 32]);
    assert!(base58_decode(b"0OIl").is_err());
}

#[test]
fn integer_byte_encodings() {
    let mut out = vec![9u8];
    append_be(&mut out, 0x0102, 2);
    append_le(&mut out, 0x0304, 2);
    assert_eq!(out, vec![9, 1, 2, 4, 3]);
    assert_eq!(read_le(&[0xff, 1, 2], 1, 2), 0x0201);
    let mut bytes = vec![0u8; 40];
    bytes[10] = 7;
    let got = read_bytes32(&bytes, 8);
    assert_eq!(got[2], 7);
    let padded = left_pad_32(&vec![1, 2]);
    assert_eq!(padded[30..], [1, 2]);
    assert_eq!(padded[..30], [0u8; 30]);
}

#[test]
fn decimal_numerals() {
    assert_eq!(parse_u128("0"), Some(0));
    assert_eq!(parse_u128("+12"), Some(12));
    assert_eq!(parse_u128(""), None);
    assert_eq!(parse_u128("+"), None);
    assert_eq!(parse_u128("-1"), None);
    assert_eq!(parse_u128("12a"), None);
    assert_eq!(
        parse_u128("340282366920938463463374607431768211455"),
        Some(u128::MAX)
    );
    assert_eq!(parse_u128("340282366920938463463374607431768211456"), None);
    assert_eq!(u128_to_decimal(0), "0");
    assert_eq!(u128_to_decimal(1234), "1234");
    assert_eq!(u128_to_decimal(u128::MAX), u128::MAX.to_string());
    assert_eq!(u128_to_decimal(10), "10");
    assert_eq!(u128_to_decimal(9876543210), "9876543210");
}

#[test]
fn powers_of_ten() {
    assert_eq!(pow10(0), 1);
    assert_eq!(pow10(6), 1_000_000);
    assert_eq!(checked_pow10(38), Some(10u128.pow(38)));
    assert_eq!(checked_pow10(39), None);
}

#[test]
fn text_helpers() {
    assert_eq!(to_lowercase("AbC"), "abc");
    assert!(contains_str("Program log: Instruction: OpenOrder", "OpenOrder"));
    assert!(!contains_str("abc", "abd"));
    assert!(contains_str("abc", ""));
    assert_eq!(join3("a", "b", "c"), "abc");
}

#[test]
fn program_events_are_classified_by_discriminator() {
    let mut data = vec![228, 69, 165, 46, 81, 203, 154, 29];
    data.extend_from_slice(&event_hash("RefundClaimed"));
    data.extend_from_slice(&[1, 2, 3]);
    assert_eq!(classify_program_event(&data), Some(ProgramEventKind::RefundClaimed));
    let mut other = data.clone();
    other[0] = 0;
    assert_eq!(classify_program_event(&other), None);
    assert_eq!(classify_program_event(&data[..12]), None);

    // Three bytes of fields are too few for a refund (72 bytes).
    let mut full = data[..16].to_vec();
    full.extend_from_slice(&[0x0e; 32]);
    full.extend_from_slice(&[0x05; 32]);
    full.extend_from_slice(&300u64.to_le_bytes());
    let texts = vec![
        "0OIl".to_string(),
        bs58::encode(&other).into_string(),
        bs58::encode(&data).into_string(),
        bs58::encode(&full).into_string(),
    ];
    let events = parse_program_events(&texts);
    assert_eq!(events.len(), 1);
    assert_eq!(events[0].kind, ProgramEventKind::RefundClaimed);
    assert_eq!(events[0].data, full);
    match events[0].fields {
        EventFields::RefundClaimed(r) => {
            assert_eq!(r.order_id, [0x0e; 32]);
            assert_eq!(r.sender, [0x05; 32]);
            assert_eq!(r.amount, 300);
        }
        other => panic!("unexpected {:?}", other),
    }
    match svm_solver_event(&events[0].fields, "sig".to_string()) {
        Some(SolverEvent::OrderRefundClaimed(r)) => {
            assert_eq!(r.order_id, "0e".repeat(32));
            assert_eq!(r.sender, bs58::encode([0x05u8; 32]).into_string());
            assert_eq!(r.amount_refunded, 300);
        }
        other => panic!("unexpected {:?}", other),
    }
}

fn event_data(name: &str, fields: &[u8]) -> Vec<u8> {
    let mut d = vec![228, 69, 165, 46, 81, 203, 154, 29];
    d.extend_from_slice(&event_hash(name));
    d.extend_from_slice(fields);
    d
}

#[test]
fn program_event_fields_decode_in_declaration_order() {
    let mut filled = vec![1u8; 32];
    filled.extend_from_slice(&[2u8; 32]);
    filled.extend_from_slice(&7u128.to_le_bytes());
    filled.extend_from_slice(&9u128.to_le_bytes());
    match decode_event_fields(ProgramEventKind::OrderFilled, &event_data("OrderFilled", &filled)) {
        EventFields::OrderFilled(f) => {
            assert_eq!((f.order_id, f.solver), ([1u8; 32], [2u8; 32]));
            assert_eq!((f.amount_in_to_release, f.amount_out_filled), (7, 9));
            match svm_solver_event(&EventFields::OrderFilled(f), "s".to_string()) {
                Some(SolverEvent::OrderFill(e)) => assert_eq!(e.amount, 9),
                other => panic!("unexpected {:?}", other),
            }
        }
        other => panic!("unexpected {:?}", other),
    }
    let mut cancel = vec![3u8; 32];
    cancel.extend_from_slice(&1_234u64.to_le_bytes());
    match decode_event_fields(ProgramEventKind::CancelRequested, &event_data("CancelRequested", &cancel)) {
        EventFields::CancelRequested(c) => assert_eq!(c.cancel_requested_at, 1_234),
        other => panic!("unexpected {:?}", other),
    }
    let mut reported = vec![4u8; 32];
    reported.extend_from_slice(&5u128.to_le_bytes());
    reported.extend_from_slice(&6u128.to_le_bytes());
    reported.extend_from_slice(&[8u8; 32]);
    match decode_event_fields(ProgramEventKind::FillReported, &event_data("FillReported", &reported)) {
        EventFields::FillReported(f) => {
            assert_eq!((f.amount_in_to_release, f.amount_out_filled), (5, 6));
            assert_eq!(f.origin_recipient, [8u8; 32]);
        }
        other => panic!("unexpected {:?}", other),
    }
    match decode_event_fields(ProgramEventKind::OrderCompleted, &event_data("OrderCompleted", &[6u8; 32])) {
        EventFields::OrderCompleted(id) => {
            assert_eq!(id, [6u8; 32]);
            assert!(svm_solver_event(&EventFields::OrderCompleted(id), "s".to_string()).is_some());
        }
        other => panic!("unexpected {:?}", other),
    }
    let opened = decode_event_fields(ProgramEventKind::OrderOpened, &event_data("OrderOpened", &[1u8; 196]));
    assert!(svm_solver_event(&opened, "s".to_string()).is_none());
}
