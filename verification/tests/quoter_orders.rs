use liquidity_delivery::quoter::api::{
    chain_answer_reply, plan_order_detail, quote_inputs, scan_reply, DetailPlan, detail_chain, detail_error, detail_found, evm_order_details, find_chain, orders_response,
    parse_address_to_bytes32, parse_order_id, quote_order_input, svm_order_details,
    EvmOrderRecord, OrdersQuery,
};
use liquidity_delivery::quoter::config::{
    svm_chains, ChainConfig, ChainType, ConfigError, QuoterConfig,
};
use liquidity_delivery::quoter::models::{QuoteRequest, QuoteResponse};
use liquidity_delivery::quoter::order_store::{OrderStore, TrackedOrder};
use liquidity_delivery::quoter::tracking::{
    decode_order_opened, decode_svm_order, mentions_open_order, parse_order_opened_event,
    svm_order_key, track_evm_order, track_svm_order, track_svm_update, tracked_from_evm, EvmOrderOpened,
    SvmOrderStatus, SvmOrderType,
};

fn sample_order(id: &str, sender: &str) -> TrackedOrder {
    TrackedOrder {
        order_id: id.to_string(),
        origin_chain_id: 1,
        sender: sender.to_string(),
        token_in: "in".to_string(),
        amount_in: "10".to_string(),
        dest_chain_id: 2,
        token_out: "out".to_string(),
        amount_out: "9".to_string(),
        solver: "s".to_string(),
    }
}

fn chain(id: u32, enabled: bool, chain_type: ChainType) -> ChainConfig {
    ChainConfig {
        chain_id: id,
        enabled,
        rpc_url: "http://rpc".to_string(),
        ws_url: "ws://rpc".to_string(),
        order_book_address: "book".to_string(),
        starting_block: 0,
        chain_type,
    }
}

fn opened_event_bytes() -> Vec<u8> {
    let mut d = vec![228, 69, 165, 46, 81, 203, 154, 29, 66, 178, 244, 109, 33, 137, 241, 61];
    d.extend_from_slice(&[0x01; 32]);
    d.extend_from_slice(&[0x02; 32]);
    d.extend_from_slice(&[0x03; 32]);
    d.extend_from_slice(&1000u128.to_le_bytes());
    d.extend_from_slice(&8453u32.to_le_bytes());
    d.extend_from_slice(&[0x04; 32]);
    d.extend_from_slice(&990u128.to_le_bytes());
    d.extend_from_slice(&[0x05; 32]);
    d
}

fn order_account_bytes(status: u8) -> Vec<u8> {
    let mut d = vec![9u8; 8];
    d.push(0);
    d.push(254);
    d.push(status);
    d.extend_from_slice(&1u16.to_le_bytes());
    d.extend_from_slice(&[0x0a; 32]);
    d.extend_from_slice(&77u64.to_le_bytes());
    d.extend_from_slice(&8453u32.to_le_bytes());
    d.extend_from_slice(&123u64.to_le_bytes());
    d.extend_from_slice(&0u64.to_le_bytes());
    d.extend_from_slice(&[0x0b; 32]);
    d.extend_from_slice(&[0x0c; 32]);
    d.extend_from_slice(&1000u128.to_le_bytes());
    d.extend_from_slice(&990u128.to_le_bytes());
    d.extend_from_slice(&[0x0d; 32]);
    d.extend_from_slice(&[0x0e; 32]);
    d.extend_from_slice(&0u128.to_le_bytes());
    d.extend_from_slice(&0u128.to_le_bytes());
    d
}

#[test]
fn store_reads_back_what_was_inserted() {
    let mut s = OrderStore::new();
    s.insert_order(sample_order("a", "0xAbC"));
    assert!(s.has_order("a"));
    assert!(!s.has_order("b"));
    assert_eq!(s.get_order("a").unwrap().sender, "0xAbC");
    assert!(s.get_order("b").is_none());
}

#[test]
fn orders_are_listed_by_sender_ignoring_case() {
    let mut s = OrderStore::new();
    s.insert_order(sample_order("a", "0xAbC"));
    s.insert_order(sample_order("b", "0xdef"));
    s.insert_order(sample_order("c", "0xabc"));
    let mine: Vec<String> = s.get_orders_by_sender("0XABC").iter().map(|o| o.order_id.clone()).collect();
    assert_eq!(mine, vec!["a".to_string(), "c".to_string()]);
    assert!(s.get_orders_by_sender("0x999").is_empty());
    assert_eq!(s.get_all_orders().len(), 3);
}

#[test]
fn reinserting_an_order_replaces_it() {
    let mut s = OrderStore::new();
    s.insert_order(sample_order("a", "x"));
    let mut again = sample_order("a", "x");
    again.amount_out = "1".to_string();
    s.insert_order(again);
    assert_eq!(s.get_all_orders().len(), 1);
    assert_eq!(s.get_order("a").unwrap().amount_out, "1");
    assert_eq!(s.get_orders_by_sender("x").len(), 2);
}

#[test]
fn orders_endpoint() {
    let mut s = OrderStore::new();
    s.insert_order(sample_order("a", "x"));
    s.insert_order(sample_order("b", "y"));
    let all = orders_response(&s, &OrdersQuery { sender: None });
    assert_eq!(all.count, 2);
    let mine = orders_response(&s, &OrdersQuery { sender: Some("X".to_string()) });
    assert_eq!(mine.count, 1);
    assert_eq!(mine.orders[0].order_id, "a");
}

#[test]
fn order_opened_event_decoding() {
    let d = opened_event_bytes();
    let e = decode_order_opened(&d).unwrap();
    assert_eq!(e.order_id, [0x01; 32]);
    assert_eq!(e.sender, [0x02; 32]);
    assert_eq!(e.token_in, [0x03; 32]);
    assert_eq!(e.amount_in, 1000);
    assert_eq!(e.dest_chain_id, 8453);
    assert_eq!(e.token_out, [0x04; 32]);
    assert_eq!(e.amount_out, 990);
    assert_eq!(e.solver, [0x05; 32]);
    assert!(decode_order_opened(&d[..d.len() - 1]).is_none());
    let mut wrong = d.clone();
    wrong[8] = 0;
    assert!(decode_order_opened(&wrong).is_none());
}

#[test]
fn first_order_opened_event_of_a_transaction() {
    let good = bs58::encode(opened_event_bytes()).into_string();
    let mut other = opened_event_bytes();
    other[9] = 0;
    let texts = vec!["0OIl".to_string(), bs58::encode(other).into_string(), good];
    let e = parse_order_opened_event(&texts).unwrap();
    assert_eq!(e.amount_out, 990);
    assert!(parse_order_opened_event(&vec!["0OIl".to_string()]).is_none());
    assert_eq!(svm_order_key(&e), format!("0x{}", "01".repeat(32)));
}

#[test]
fn order_account_decoding() {
    let o = decode_svm_order(&order_account_bytes(1)).unwrap();
    assert_eq!(o.order_type, SvmOrderType::Native);
    assert_eq!(o.bump, 254);
    assert_eq!(o.data.status, SvmOrderStatus::Created);
    assert_eq!(o.data.version, 1);
    assert_eq!(o.data.nonce, 77);
    assert_eq!(o.data.dest_chain_id, 8453);
    assert_eq!(o.data.fill_deadline, 123);
    assert_eq!(o.data.token_in, [0x0b; 32]);
    assert_eq!(o.data.amount_in, 1000);
    assert_eq!(o.data.amount_out, 990);
    assert!(decode_svm_order(&order_account_bytes(4)).is_none());
    assert!(decode_svm_order(&order_account_bytes(1)[..100]).is_none());
}

#[test]
fn tracking_orders_from_both_chains() {
    let mut s = OrderStore::new();
    let e = decode_order_opened(&opened_event_bytes()).unwrap();
    let t = track_svm_order(&mut s, 1399811149, &e, &order_account_bytes(1)).unwrap();
    assert_eq!(t.order_id, format!("0x{}", "01".repeat(32)));
    assert_eq!(t.amount_in, "1000");
    assert_eq!(t.token_out, format!("0x{}", "0c".repeat(32)));
    assert_eq!(t.sender, bs58::encode([0x0a; 32]).into_string());
    assert!(s.has_order(&t.order_id));
    assert!(track_svm_order(&mut s, 1399811149, &e, &[0u8; 4]).is_none());
    // An order already tracked is not replaced, even by another chain's record.
    assert!(track_svm_order(&mut s, 7, &e, &order_account_bytes(1)).is_none());
    assert_eq!(s.get_order(&t.order_id).unwrap().origin_chain_id, 1399811149);
    let mut fresh = OrderStore::new();
    assert!(track_svm_order(&mut fresh, 1399811149, &e, &[0u8; 4]).is_none());
    assert!(!fresh.has_order(&t.order_id));

    let ev = EvmOrderOpened {
        order_id: [0xaa; 32],
        sender: [0x11; 20],
        token_in: [0x22; 20],
        amount_in: 5,
        dest_chain_id: 10,
        token_out: [0x33; 32],
        amount_out: 4,
        solver: [0x44; 32],
    };
    let t = tracked_from_evm(1, &ev);
    assert_eq!(t.order_id, "aa".repeat(32));
    assert_eq!(t.sender, format!("0x{}", "11".repeat(20)));
    assert_eq!(t.solver, "44".repeat(32));
    assert!(track_evm_order(&mut s, 1, &ev));
    assert!(!track_evm_order(&mut s, 1, &ev));
    assert_eq!(s.get_all_orders().len(), 2);
}

#[test]
fn open_order_logs_are_recognised() {
    let logs = vec!["Program log: Instruction: Fill".to_string(), "Program log: Instruction: OpenOrder".to_string()];
    assert!(mentions_open_order(&logs));
    assert!(!mentions_open_order(&vec!["Program log: Instruction: Fill".to_string()]));
}

#[test]
fn order_details_from_the_chains() {
    let r = EvmOrderRecord {
        status: 2,
        version: 1,
        sender: [0x11; 20],
        nonce: 3,
        dest_chain_id: 4,
        fill_deadline: 5,
        cancel_requested_at: 6,
        token_in: [0x22; 20],
        token_out: [0x33; 32],
        amount_in: 7,
        amount_out: 8,
        recipient: [0x44; 32],
        solver: [0x55; 32],
    };
    let d = evm_order_details(&[0xab; 32], 1, &r).unwrap();
    assert_eq!(d.status, "cancel_requested");
    assert_eq!(d.order_id, "ab".repeat(32));
    assert_eq!(d.sender, format!("0x{}", "11".repeat(20)));
    assert_eq!(d.amount_out, "8");
    let gone = EvmOrderRecord { status: 0, ..r };
    assert!(evm_order_details(&[0xab; 32], 1, &gone).is_none());

    let d = svm_order_details(&[0xab; 32], 1399811149, &order_account_bytes(3)).unwrap().unwrap();
    assert_eq!(d.status, "completed");
    assert_eq!(d.fill_deadline, 123);
    assert_eq!(d.token_out, "0c".repeat(32));
    assert!(svm_order_details(&[0xab; 32], 1, &order_account_bytes(0)).unwrap().is_none());
    assert!(svm_order_details(&[0xab; 32], 1, &[1, 2]).unwrap().is_none());
    assert!(svm_order_details(&[0xab; 32], 1, &[0u8; 20]).is_err());
}

#[test]
fn order_detail_replies() {
    let e = detail_error(404, "Order not found".to_string());
    assert_eq!(e.status, 404);
    assert_eq!(e.body.error.as_deref(), Some("Order not found"));
    assert!(e.body.order.is_none());
    let r = EvmOrderRecord {
        status: 1,
        version: 1,
        sender: [0; 20],
        nonce: 0,
        dest_chain_id: 0,
        fill_deadline: 0,
        cancel_requested_at: 0,
        token_in: [0; 20],
        token_out: [0; 32],
        amount_in: 0,
        amount_out: 0,
        recipient: [0; 32],
        solver: [0; 32],
    };
    let f = detail_found(evm_order_details(&[0; 32], 1, &r).unwrap());
    assert_eq!(f.status, 200);
    assert!(f.body.error.is_none());
    assert_eq!(parse_order_id(&format!("0x{}", "ab".repeat(32))), Some([0xab; 32]));
    assert_eq!(parse_order_id("0x12"), None);
}

#[test]
fn detail_chain_is_the_origin_chain() {
    let chains = vec![chain(5, true, ChainType::Evm), chain(1, true, ChainType::Evm)];
    let mut s = OrderStore::new();
    s.insert_order(sample_order("a", "x"));
    assert_eq!(detail_chain(&s, &chains, "a"), Some(1));
    assert_eq!(detail_chain(&s, &chains, "b"), None);
    assert_eq!(find_chain(&chains, 5), Some(0));
    assert_eq!(find_chain(&chains, 9), None);
}

#[test]
fn api_address_parsing() {
    let mut want = [0u8; 32];
    want[12..].copy_from_slice(&[0xab; 20]);
    assert_eq!(parse_address_to_bytes32(&"ab".repeat(20)).unwrap(), want);
    assert_eq!(parse_address_to_bytes32("11111111111111111111111111111111").unwrap(), [0u8; 32]);
    assert_eq!(parse_address_to_bytes32("1").unwrap_err(), "Cannot parse address: 1");
}

#[test]
fn quote_inputs_default_to_sender_and_any_solver() {
    let request = QuoteRequest {
        input_token: "in".to_string(),
        input_chain_id: 1,
        output_token: "out".to_string(),
        output_chain_id: 2,
        amount_in: 100,
        sender_address: None,
        recipient: None,
    };
    let mut quote = QuoteResponse {
        quote_id: "q".to_string(),
        fee_bps: 0,
        output_amount: 99,
        est_fill_time_seconds: 0,
        expires_at: String::new(),
        rejected: false,
        reject_reason: String::new(),
        solver_address: String::new(),
        requires_exclusivity: false,
    };
    let sender = "11111111111111111111111111111111".to_string();
    let i = quote_order_input(&request, &sender, &quote, 3600).unwrap();
    assert_eq!(i.recipient, [0u8; 32]);
    assert_eq!(i.solver, [0u8; 32]);
    assert_eq!(i.amount_out, 99);
    assert_eq!(i.fill_deadline, 3600);
    quote.solver_address = "ab".repeat(32);
    let i = quote_order_input(&request, &sender, &quote, 3600).unwrap();
    assert_eq!(i.solver, [0xab; 32]);
    quote.solver_address = "bad!".to_string();
    let i = quote_order_input(&request, &sender, &quote, 3600).unwrap();
    assert_eq!(i.solver, [0u8; 32]);
    let bad = QuoteRequest { recipient: Some("1".to_string()), ..request };
    assert!(quote_order_input(&bad, &sender, &quote, 3600).is_none());
}

#[test]
fn quoter_configuration() {
    let config = QuoterConfig {
        chains: vec![
            chain(1, false, ChainType::Evm),
            chain(2, true, ChainType::Svm),
            chain(3, true, ChainType::Evm),
        ],
        assets: Vec::new(),
    };
    let enabled: Vec<u32> = config.enabled_chains().iter().map(|c| c.chain_id).collect();
    assert_eq!(enabled, vec![2, 3]);
    let svm: Vec<u32> = svm_chains(&config.chains).iter().map(|c| c.chain_id).collect();
    assert_eq!(svm, vec![2]);
    assert!(config.validated().is_ok());
    let none = QuoterConfig { chains: vec![chain(1, false, ChainType::Evm)], assets: Vec::new() };
    assert!(matches!(none.validated(), Err(ConfigError::NoChains)));
    assert_eq!(ChainType::default(), ChainType::Evm);
    assert_eq!(ConfigError::NoChains.message(), "No enabled chains configured");
    assert_eq!(
        ConfigError::ParseError("bad".to_string()).message(),
        "Failed to parse YAML: bad"
    );
}

#[test]
fn order_detail_requests_are_planned_and_answered() {
    let mut store = OrderStore::new();
    let id = format!("0x{}", "ab".repeat(32));
    store.insert_order(sample_order(&id, "x"));
    let chains = vec![chain(5, true, ChainType::Evm), chain(1, true, ChainType::Evm)];
    match plan_order_detail(&store, &chains, "0x12") {
        DetailPlan::Refuse(r) => {
            assert_eq!(r.status, 400);
            assert_eq!(r.body.error.as_deref(), Some("Invalid order_id format"));
        }
        other => panic!("unexpected {:?}", other),
    }
    assert!(matches!(plan_order_detail(&store, &chains, &id), DetailPlan::AskChain(1, b) if b == [0xab; 32]));
    let other = format!("0x{}", "cd".repeat(32));
    assert!(matches!(plan_order_detail(&store, &chains, &other), DetailPlan::AskAll(b) if b == [0xcd; 32]));

    let r = chain_answer_reply(Ok(None));
    assert_eq!((r.status, r.body.error.as_deref()), (404, Some("Order not found")));
    let r = chain_answer_reply(Err("timeout".to_string()));
    assert_eq!((r.status, r.body.error.as_deref()), (500, Some("Error fetching order: timeout")));
    let r = scan_reply(None);
    assert_eq!((r.status, r.body.error.as_deref()), (404, Some("Order not found on any chain")));
}

#[test]
fn quotes_get_inputs_only_when_a_sender_is_given() {
    let mut request = QuoteRequest {
        input_token: "in".to_string(),
        input_chain_id: 1,
        output_token: "out".to_string(),
        output_chain_id: 2,
        amount_in: 100,
        sender_address: None,
        recipient: None,
    };
    let quote = |rejected: bool, output: u64| QuoteResponse {
        quote_id: "q".to_string(),
        fee_bps: 0,
        output_amount: output,
        est_fill_time_seconds: 0,
        expires_at: String::new(),
        rejected,
        reject_reason: String::new(),
        solver_address: String::new(),
        requires_exclusivity: false,
    };
    let quotes = vec![quote(false, 99), quote(true, 0), quote(false, 98)];
    assert!(quote_inputs(&request, &quotes, 10).iter().all(|i| i.is_none()));
    request.sender_address = Some("11111111111111111111111111111111".to_string());
    let inputs = quote_inputs(&request, &quotes, 10);
    assert_eq!(inputs.len(), 3);
    assert_eq!(inputs[0].as_ref().unwrap().amount_out, 99);
    assert!(inputs[1].is_none());
    assert_eq!(inputs[2].as_ref().unwrap().fill_deadline, 10);
}

#[test]
fn a_log_update_tracks_one_new_order() {
    let logs = vec!["Program log: Instruction: OpenOrder".to_string()];
    let texts = vec![bs58::encode(opened_event_bytes()).into_string()];
    let id = format!("0x{}", "01".repeat(32));
    let mut s = OrderStore::new();
    let t = track_svm_update(&mut s, 1399811149, &logs, &texts, |oid| {
        assert_eq!(oid, [0x01; 32]);
        Some(order_account_bytes(1))
    })
    .unwrap();
    assert_eq!(t.order_id, id);
    assert_eq!(t.origin_chain_id, 1399811149);
    assert_eq!(s.get_all_orders().len(), 1);
    // Already tracked: the account is not read and nothing changes.
    let again = track_svm_update(&mut s, 7, &logs, &texts, |_| -> Option<Vec<u8>> {
        panic!("the account of a tracked order is not read")
    });
    assert!(again.is_none());
    assert_eq!(s.get_order(&id).unwrap().origin_chain_id, 1399811149);
    // No OpenOrder line: nothing is read or added.
    let mut fresh = OrderStore::new();
    let other = vec!["Program log: Instruction: Fill".to_string()];
    assert!(track_svm_update(&mut fresh, 1, &other, &texts, |_| -> Option<Vec<u8>> {
        panic!("no account is read without an OpenOrder line")
    })
    .is_none());
    // An unreadable account adds nothing.
    assert!(track_svm_update(&mut fresh, 1, &logs, &texts, |_| None).is_none());
    assert!(track_svm_update(&mut fresh, 1, &logs, &vec!["0OIl".to_string()], |_| Some(order_account_bytes(1))).is_none());
    assert!(fresh.get_all_orders().is_empty());
}

#[test]
fn detail_chain_is_the_first_with_the_origin_id() {
    let chains = vec![
        chain(5, true, ChainType::Evm),
        chain(1, true, ChainType::Evm),
        chain(1, true, ChainType::Svm),
    ];
    let id = format!("0x{}", "ab".repeat(32));
    let mut s = OrderStore::new();
    s.insert_order(sample_order(&id, "x"));
    assert_eq!(detail_chain(&s, &chains, &id), Some(1));
    match plan_order_detail(&s, &chains, &id) {
        DetailPlan::AskChain(i, b) => {
            assert_eq!(i, 1);
            assert_eq!(b, [0xab; 32]);
        }
        _ => panic!("the origin chain is asked"),
    }
}
