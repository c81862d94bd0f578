use liquidity_delivery::order_book::OrderData as BookOrder;
use liquidity_delivery::quoter::order_id::OrderData;
use liquidity_delivery::quoter::transactions::{
    build_approve_calldata, build_evm_open_order, checksum_address, build_svm_open_order, encode_approve_call,
    encode_open_order_call, function_selector, nonce_from_account, open_order_instruction_data,
    parse_bytes32, parse_bytes32_svm, parse_evm_address, parse_evm_order_addresses, parse_pubkey,
    parse_svm_order_addresses, strip_hex_prefix, svm_transaction_result, EvmOrderAddresses,
    EvmOrderParams, OpenOrderInput, OrderParams, TransactionBuilderError, Uint256,
};

fn sample_order() -> OrderData {
    OrderData {
        version: 1,
        sender: [1u8; 32],
        nonce: 7,
        origin_chain_id: 1,
        dest_chain_id: 8453,
        fill_deadline: 1_700_000_000,
        token_in: [2u8; 32],
        token_out: [3u8; 32],
        amount_in: 1_000,
        amount_out: 990,
        recipient: [4u8; 32],
        solver: [0u8; 32],
    }
}

fn input() -> OpenOrderInput {
    OpenOrderInput::new(
        "0x1111111111111111111111111111111111111111".to_string(),
        "0x2222222222222222222222222222222222222222".to_string(),
        "0x3333333333333333333333333333333333333333".to_string(),
        500,
        495,
        8453,
        1_700_003_600,
    )
}

#[test]
fn quoter_order_encoding_layout() {
    let o = sample_order();
    let e = o.encode();
    assert_eq!(e.len(), 218);
    assert_eq!(e[..2], [0, 1]);
    assert_eq!(e[2..34], [1u8; 32]);
    assert_eq!(e[34..42], 7u64.to_be_bytes());
    assert_eq!(e[42..46], 1u32.to_be_bytes());
    assert_eq!(e[46..50], 8453u32.to_be_bytes());
    assert_eq!(e[50..58], 1_700_000_000u64.to_be_bytes());
    assert_eq!(e[122..138], 1_000u128.to_be_bytes());
    assert_eq!(e[138..154], 990u128.to_be_bytes());
}

#[test]
fn quoter_order_id_is_keccak_of_encoding() {
    let o = sample_order();
    assert_eq!(o.compute_order_id(), alloy::primitives::keccak256(o.encode()).0);
    let mut other = o;
    other.nonce = 8;
    assert_ne!(o.compute_order_id(), other.compute_order_id());
}

#[test]
fn book_order_encoding_has_creation_time() {
    let o = BookOrder {
        version: 1,
        sender: [1u8; 32],
        nonce: 7,
        origin_chain_id: 1,
        dest_chain_id: 8453,
        created_at: 42,
        fill_deadline: 99,
        token_in: [2u8; 32],
        token_out: [3u8; 32],
        amount_in: 1_000,
        amount_out: 990,
        recipient: [4u8; 32],
        solver: [0u8; 32],
    };
    let e = o.encode();
    assert_eq!(e.len(), 226);
    assert_eq!(e[50..58], 42u64.to_be_bytes());
    assert_eq!(o.compute_order_id(), alloy::primitives::keccak256(&e).0);
    let mut b = Vec::new();
    o.serialize(&mut b);
    assert_eq!(b.len(), 226);
    assert_eq!(b[..2], [1, 0]);
    assert_eq!(b[34..42], 7u64.to_le_bytes());
}

#[test]
fn open_order_input_builders() {
    let i = input();
    let mut sender = [0u8; 32];
    sender[12..].copy_from_slice(&[0x11u8; 20]);
    assert_eq!(i.recipient, sender);
    assert_eq!(i.solver, [0u8; 32]);
    let unparsable = OpenOrderInput::new("nope".to_string(), String::new(), String::new(), 1, 1, 1, 1);
    assert_eq!(unparsable.recipient, [0u8; 32]);
    let i = i.with_recipient([5u8; 32]).with_solver([6u8; 32]);
    assert_eq!(i.recipient, [5u8; 32]);
    assert_eq!(i.solver, [6u8; 32]);
    assert_eq!(i.amount_in, 500);
    assert_eq!(i.dest_chain_id, 8453);
}

#[test]
fn selectors_of_known_functions() {
    assert_eq!(function_selector("transfer(address,uint256)"), vec![0xa9, 0x05, 0x9c, 0xbb]);
    assert_eq!(function_selector("approve(address,uint256)"), vec![0x09, 0x5e, 0xa7, 0xb3]);
}

#[test]
fn approve_call_data() {
    let data = encode_approve_call(&[0xaa; 20], u128::MAX);
    assert_eq!(data.len(), 68);
    assert_eq!(data[..4], [0x09, 0x5e, 0xa7, 0xb3]);
    assert_eq!(data[4..16], [0u8; 12]);
    assert_eq!(data[16..36], [0xaa; 20]);
    assert_eq!(data[36..52], [0u8; 16]);
    assert_eq!(data[52..68], [0xff; 16]);
    let tx = build_approve_calldata("0xtoken", "0xaaaaaaaaaaaaaaaaaaaaaaaaaaaaaaaaaaaaaaaa", 5).unwrap();
    assert_eq!(tx.to, "0xtoken");
    assert_eq!(tx.value, "0x0");
    assert!(tx.data.starts_with("0x095ea7b3"));
    assert!(matches!(
        build_approve_calldata("0xtoken", "nope", 5),
        Err(TransactionBuilderError::InvalidAddress(_))
    ));
}

#[test]
fn open_order_call_data() {
    let p = EvmOrderParams {
        dest_chain_id: 2,
        fill_deadline: 3,
        token_in: [0x11; 20],
        token_out: [0x22; 32],
        amount_in: 4,
        amount_out: 5,
        recipient: [0x33; 32],
        solver: [0x44; 32],
    };
    let data = encode_open_order_call(&p);
    let sel = alloy::primitives::keccak256(
        b"openOrder((uint32,uint32,address,bytes32,uint128,uint128,bytes32,bytes32))",
    );
    assert_eq!(data.len(), 4 + 8 * 32);
    assert_eq!(data[..4], sel[..4]);
    assert_eq!(data[35], 2);
    assert_eq!(data[67], 3);
    assert_eq!(data[80..100], [0x11; 20]);
    assert_eq!(data[100..132], [0x22; 32]);
    assert_eq!(data[163], 4);
    assert_eq!(data[195], 5);
}

#[test]
fn evm_bytes32_parsing() {
    let mut want = [0u8; 32];
    want[12..].copy_from_slice(&[0xab; 20]);
    assert_eq!(parse_bytes32("0xabababababababababababababababababababab").unwrap(), want);
    assert_eq!(parse_bytes32(&"cd".repeat(32)).unwrap(), [0xcd; 32]);
    assert_eq!(parse_bytes32("11111111111111111111111111111111").unwrap(), [0u8; 32]);
    match parse_bytes32("1") {
        Err(TransactionBuilderError::InvalidAddress(m)) => assert_eq!(m, "Cannot parse: 1"),
        _ => panic!("expected an invalid address"),
    }
    assert!(matches!(
        parse_bytes32(&"zz".repeat(20)),
        Err(TransactionBuilderError::InvalidAddress(_))
    ));
}

#[test]
fn svm_bytes32_parsing() {
    assert_eq!(parse_bytes32_svm("11111111111111111111111111111111").unwrap(), [0u8; 32]);
    let mut want = [0u8; 32];
    want[12..].copy_from_slice(&[0xab; 20]);
    assert_eq!(parse_bytes32_svm("0xabababababababababababababababababababab").unwrap(), want);
    match parse_bytes32_svm("0xxyz") {
        Err(TransactionBuilderError::InvalidAddress(m)) => assert_eq!(m, "Cannot parse: xyz"),
        _ => panic!("expected an invalid address"),
    }
    assert_eq!(parse_pubkey("11111111111111111111111111111111"), Some([0u8; 32]));
    assert_eq!(parse_pubkey("1"), None);
    assert_eq!(strip_hex_prefix("0xab"), "ab");
    assert_eq!(strip_hex_prefix("ab"), "ab");
}

#[test]
fn evm_address_parsing() {
    assert_eq!(
        parse_evm_address("0X0000000000000000000000000000000000000001").unwrap()[19],
        1
    );
    assert!(parse_evm_address("0x01").is_err());
}

#[test]
fn nonce_accounts() {
    assert_eq!(nonce_from_account(None).unwrap(), 0);
    let mut data = vec![0u8; 17];
    data[9] = 5;
    assert_eq!(nonce_from_account(Some(&data)).unwrap(), 5);
    assert!(matches!(
        nonce_from_account(Some(&data[..16])),
        Err(TransactionBuilderError::AccountParseError)
    ));
}

#[test]
fn open_order_instruction_layout() {
    let p = OrderParams {
        dest_chain_id: 1,
        fill_deadline: 2,
        token_out: [3; 32],
        amount_in: 4,
        amount_out: 5,
        recipient: [6; 32],
        solver: [7; 32],
    };
    let data = open_order_instruction_data(&p);
    assert_eq!(data.len(), 8 + 132);
    assert_eq!(data[..8], [206, 88, 88, 143, 38, 136, 50, 224]);
    assert_eq!(data[8..12], 1u32.to_le_bytes());
    assert_eq!(data[12..20], 2u64.to_le_bytes());
    assert_eq!(data[52..60], 4u64.to_le_bytes());
    assert_eq!(data[60..76], 5u128.to_le_bytes());
}

#[test]
fn evm_order_addresses_in_order() {
    let i = input();
    let a = parse_evm_order_addresses(&i).unwrap();
    assert_eq!(a.sender, [0x11; 20]);
    assert_eq!(a.token_in, [0x22; 20]);
    assert_eq!(a.token_out[12..], [0x33; 20]);
    let mut bad = input();
    bad.sender_address = "bad".to_string();
    assert!(matches!(
        parse_evm_order_addresses(&bad),
        Err(TransactionBuilderError::InvalidAddress(_))
    ));
}

#[test]
fn evm_open_order_with_and_without_approval() {
    let i = input();
    let a: EvmOrderAddresses = parse_evm_order_addresses(&i).unwrap();
    let contract = [0x99; 20];
    let low = build_evm_open_order(&i, &a, 3, Uint256 { high: 0, low: 499 }, &contract, 1);
    let approval = low.approval_transaction.expect("approval below the input amount");
    assert_eq!(approval.to, i.token_in);
    assert!(approval.data.starts_with("0x095ea7b3"));
    assert_eq!(low.transaction.to, format!("0x{}", "99".repeat(20)));
    assert_eq!(low.transaction.value, "0x0");
    assert_eq!(low.nonce, 3);
    assert_eq!(low.contract_address, format!("0x{}", "99".repeat(20)));
    let mut sender = [0u8; 32];
    sender[12..].copy_from_slice(&[0x11; 20]);
    let mut token_in = [0u8; 32];
    token_in[12..].copy_from_slice(&[0x22; 20]);
    let order = OrderData {
        version: 1,
        sender,
        nonce: 3,
        origin_chain_id: 1,
        dest_chain_id: 8453,
        fill_deadline: 1_700_003_600,
        token_in,
        token_out: a.token_out,
        amount_in: 500,
        amount_out: 495,
        recipient: sender,
        solver: [0u8; 32],
    };
    assert_eq!(low.order_id, format!("0x{}", hex::encode(order.compute_order_id())));
    let enough = build_evm_open_order(&i, &a, 3, Uint256 { high: 0, low: 500 }, &contract, 1);
    assert!(enough.approval_transaction.is_none());
    let huge = build_evm_open_order(&i, &a, 3, Uint256 { high: 1, low: 0 }, &contract, 1);
    assert!(huge.approval_transaction.is_none());
}

#[test]
fn svm_open_order_parts() {
    let mut i = input();
    i.sender_address = "11111111111111111111111111111111".to_string();
    i.token_in = "11111111111111111111111111111111".to_string();
    let (sender, mint) = parse_svm_order_addresses(&i).unwrap();
    assert_eq!(sender, [0u8; 32]);
    assert_eq!(mint, [0u8; 32]);
    let o = build_svm_open_order(&i, sender, mint, 9, 1399811149).unwrap();
    assert!(o.needs_destination_account);
    assert_eq!(o.order.nonce, 9);
    assert_eq!(o.order.origin_chain_id, 1399811149);
    assert_eq!(o.order_id, o.order.compute_order_id());
    assert_eq!(o.instruction_data[..8], [206, 88, 88, 143, 38, 136, 50, 224]);
    let same = build_svm_open_order(&i, sender, mint, 9, 8453).unwrap();
    assert!(!same.needs_destination_account);
    let mut bad = input();
    bad.sender_address = "not a key".to_string();
    match parse_svm_order_addresses(&bad) {
        Err(TransactionBuilderError::InvalidAddress(m)) => assert_eq!(m, "Invalid Base58 string"),
        _ => panic!("expected an invalid sender"),
    }
    let r = svm_transaction_result("tx".to_string(), &[0xab; 32], 9, &[0u8; 32]);
    assert_eq!(r.order_id, format!("0x{}", "ab".repeat(32)));
    assert_eq!(r.contract_address, "11111111111111111111111111111111");
}

#[test]
fn builder_error_messages() {
    assert_eq!(
        TransactionBuilderError::InvalidAddress("x".to_string()).message(),
        "Invalid address: x"
    );
    assert_eq!(
        TransactionBuilderError::AccountParseError.message(),
        "Failed to parse account data"
    );
}

#[test]
fn checksummed_addresses() {
    let mut a = [0u8; 20];
    a.copy_from_slice(&hex::decode("7e5f4552091a69125d5dfcb7b8c2659029395bdf").unwrap());
    let text = checksum_address(&a);
    assert_eq!(text, "0x7E5F4552091A69125d5DfCb7b8C2659029395Bdf");
    assert_eq!(text.to_lowercase(), format!("0x{}", hex::encode(a)));
    assert_eq!(checksum_address(&[0u8; 20]), format!("0x{}", "0".repeat(40)));
}
