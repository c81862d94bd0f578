use liquidity_delivery::solver::config::Network;
use liquidity_delivery::solver::config::ChainConfig;
use liquidity_delivery::solver::error::SolverError;
use liquidity_delivery::solver::log_poller::{listener_contract, poll_range, polling_interval_ms, LogPoller};
use liquidity_delivery::quoter::tracking::EvmOrderOpened;
use liquidity_delivery::solver::chain_events::{
    cancel_request_event, completed_event, evm_event_kind, evm_refund_event, fill_event,
    order_created_from_evm, svm_created_timestamp, svm_refund_event, EvmEventKind, OrderRecord,
};
use liquidity_delivery::solver::events::{QuoteResponse, SolverEvent};
use liquidity_delivery::solver::quote_stream::{
    admit_quote_request, rejection, response_proto, QuoteRequestProto,
};
use liquidity_delivery::substreams::{
    evm_record, push_record, EvmRecordEvent, svm_record, Data, ProgramRecordEvent, Record,
    block_timestamp, cpi_event_payloads, encode_hex, event_id, evm_transaction_hash,
    is_orderbook_log, parse_chain_id, split_discriminator,
};

fn topic(signature: &str) -> [u8; 32] {
    alloy::primitives::keccak256(signature.as_bytes()).0
}

#[test]
fn evm_log_topics_name_their_events() {
    let opened = topic("OrderOpened(bytes32,address,address,uint128,uint32,bytes32,uint128,bytes32)");
    assert_eq!(evm_event_kind(&opened), Some(EvmEventKind::OrderOpened));
    assert_eq!(
        evm_event_kind(&topic("OrderFilled(bytes32,address,uint128,uint128)")),
        Some(EvmEventKind::OrderFilled)
    );
    assert_eq!(
        evm_event_kind(&topic("CancelRequested(bytes32,uint32)")),
        Some(EvmEventKind::CancelRequested)
    );
    assert_eq!(
        evm_event_kind(&topic("RefundClaimed(bytes32,address,uint128)")),
        Some(EvmEventKind::RefundClaimed)
    );
    assert_eq!(evm_event_kind(&topic("OrderCompleted(bytes32)")), Some(EvmEventKind::OrderCompleted));
    assert_eq!(evm_event_kind(&topic("Transfer(address,address,uint256)")), None);
    assert_eq!(evm_event_kind(&[0u8; 32]), None);
}

#[test]
fn an_opened_evm_order_becomes_an_order() {
    let ev = EvmOrderOpened {
        order_id: [1u8; 32],
        sender: [0xaa; 20],
        token_in: [0xbb; 20],
        amount_in: 100,
        dest_chain_id: 10,
        token_out: [0xcc; 32],
        amount_out: 99,
        solver: [0xdd; 32],
    };
    let record = OrderRecord { version: 2, nonce: 5, created_at: 1_000, fill_deadline: 2_000, recipient: [0xee; 32] };
    match order_created_from_evm(8453, &ev, &record, "0xtx".to_string()) {
        SolverEvent::OrderCreated(c) => {
            let o = c.order;
            assert_eq!(o.version, 2);
            assert_eq!(o.origin_chain_id, 8453);
            assert_eq!(o.dest_chain_id, 10);
            assert_eq!(&o.sender[..12], &[0u8; 12]);
            assert_eq!(&o.sender[12..], &[0xaa; 20]);
            assert_eq!(&o.token_in[12..], &[0xbb; 20]);
            assert_eq!(o.token_out, [0xcc; 32]);
            assert_eq!(o.recipient, [0xee; 32]);
            assert_eq!((o.amount_in, o.amount_out, o.nonce), (100, 99, 5));
            assert_eq!((o.created_at, o.fill_deadline), (1_000, 2_000));
            assert_eq!(c.created_timestamp, 1_000);
            assert_eq!(c.transaction_hash, "0xtx");
            assert_eq!(c.order_id, hex::encode(o.compute_order_id()));
        }
        other => panic!("unexpected {:?}", other),
    }
}

#[test]
fn order_book_events_carry_hexadecimal_ids() {
    let id = [0x0fu8; 32];
    match fill_event(&id, 7, "tx".to_string()) {
        SolverEvent::OrderFill(f) => {
            assert_eq!(f.order_id, "0f".repeat(32));
            assert_eq!(f.amount, 7);
        }
        other => panic!("unexpected {:?}", other),
    }
    assert!(matches!(cancel_request_event(&id, 9, "tx".to_string()),
        SolverEvent::OrderCancelRequest(c) if c.requested_at == 9 && c.order_id == "0f".repeat(32)));
    assert!(matches!(completed_event(&id, "tx".to_string()),
        SolverEvent::OrderCompleted(c) if c.order_id == "0f".repeat(32)));
    match evm_refund_event(&id, &[0xab; 20], 11, "tx".to_string()) {
        SolverEvent::OrderRefundClaimed(r) => {
            assert_eq!(r.sender, format!("0x{}", "ab".repeat(20)));
            assert_eq!(r.amount_refunded, 11);
        }
        other => panic!("unexpected {:?}", other),
    }
    match svm_refund_event(&id, &[2u8; 32], 12, "sig".to_string()) {
        SolverEvent::OrderRefundClaimed(r) => {
            assert_eq!(r.sender, bs58::encode([2u8; 32]).into_string());
            assert_eq!(r.amount_refunded, 12);
            assert_eq!(r.transaction_hash, "sig");
        }
        other => panic!("unexpected {:?}", other),
    }
    assert_eq!(svm_created_timestamp(Some(55), 99), 55);
    assert_eq!(svm_created_timestamp(None, 99), 99);
}

fn stream_request(input: &str, output: &str) -> QuoteRequestProto {
    QuoteRequestProto {
        request_id: "r1".to_string(),
        input_token: input.to_string(),
        input_chain_id: 1,
        output_token: output.to_string(),
        output_chain_id: 1399811149,
        amount_in: 1_000,
    }
}

#[test]
fn stream_requests_decode_both_tokens() {
    let solana = bs58::encode([4u8; 32]).into_string();
    let e = admit_quote_request(stream_request("0x1111111111111111111111111111111111111111", &solana)).unwrap();
    assert_eq!(e.id, "r1");
    assert_eq!(&e.parsed_input_token[12..], &[0x11; 20]);
    assert_eq!(&e.parsed_input_token[..12], &[0u8; 12]);
    assert_eq!(e.parsed_output_token, [4u8; 32]);
    assert_eq!(e.request.amount_in, 1_000);
    assert_eq!(admit_quote_request(stream_request("0x11", &solana)).unwrap_err(), "Invalid input token");
    assert_eq!(
        admit_quote_request(stream_request("0x1111111111111111111111111111111111111111", "0x22")).unwrap_err(),
        "Invalid output token"
    );
}

#[test]
fn stream_answers() {
    let r = rejection("r1".to_string(), "q9".to_string(), "Invalid input token");
    assert!(r.rejected);
    assert_eq!(r.reject_reason, "Invalid input token");
    assert_eq!((r.request_id.as_str(), r.quote_id.as_str()), ("r1", "q9"));
    let mut q = QuoteResponse::default();
    q.output_amount = 5;
    q.rejected = false;
    let p = response_proto("r2".to_string(), q);
    assert_eq!(p.reject_reason, "");
    assert_eq!(p.output_amount, 5);
    assert!(!p.rejected);
    let mut q = QuoteResponse::default();
    q.reject_reason = Some("no".to_string());
    assert_eq!(response_proto("r3".to_string(), q).reject_reason, "no");
}

#[test]
fn substream_helpers() {
    assert_eq!(encode_hex([0xab; 32]), format!("0x{}", "ab".repeat(32)));
    assert_eq!(parse_chain_id("8453"), 8453);
    assert_eq!(parse_chain_id("4294967295"), u32::MAX);
    assert_eq!(parse_chain_id("4294967296"), 0);
    assert_eq!(parse_chain_id("base"), 0);
    assert_eq!(parse_chain_id(""), 0);
    assert_eq!(event_id("0xabc", 0), "0xabc:1");
    assert_eq!(event_id("sig", 9), "sig:10");
    assert_eq!(block_timestamp(Some(17)), 17);
    assert_eq!(block_timestamp(None), 0);
    assert_eq!(evm_transaction_hash(&[1, 2]), "0x0102");
    let book = hex::decode("e39b012ab3b20e94a9beea557eb0de4171d4d3e4").unwrap();
    assert!(is_orderbook_log(&book));
    assert!(!is_orderbook_log(&book[..19]));
    assert!(!is_orderbook_log(&[0u8; 20]));
}

#[test]
fn emitted_events_are_found_among_inner_instructions() {
    let prefix = vec![228u8, 69, 165, 46, 81, 203, 154, 29];
    let mut first = prefix.clone();
    first.extend_from_slice(&[1, 2, 3]);
    let mut second = prefix.clone();
    second.extend_from_slice(&[9; 10]);
    let datas = vec![first, vec![1, 2, 3], prefix[..7].to_vec(), second];
    let payloads = cpi_event_payloads(&datas);
    assert_eq!(payloads, vec![vec![1, 2, 3], vec![9; 10]]);
    let (head, tail) = split_discriminator(&payloads[1]);
    assert_eq!(head, vec![9; 8]);
    assert_eq!(tail, vec![9; 2]);
}


#[test]
fn poll_ranges() {
    assert_eq!(poll_range(None, 5_000), Some((4_001, 5_000)));
    assert_eq!(poll_range(None, 400), Some((1, 400)));
    assert_eq!(poll_range(None, 0), None);
    assert_eq!(poll_range(Some(90), 100), Some((91, 100)));
    assert_eq!(poll_range(Some(100), 100), None);
    assert_eq!(poll_range(Some(120), 100), None);
    assert_eq!(polling_interval_ms(Network::Local), 1_000);
    assert_eq!(polling_interval_ms(Network::Mainnet), 5_000);
}

#[test]
fn the_poller_continues_where_it_stopped() {
    let mut p = LogPoller::new();
    assert_eq!(p.last_polled(1), None);
    assert_eq!(p.next_range(1, 2_000), Some((1_001, 2_000)));
    p.record_polled(1, 2_000);
    assert_eq!(p.last_polled(1), Some(2_000));
    assert_eq!(p.next_range(1, 2_000), None);
    assert_eq!(p.next_range(1, 2_010), Some((2_001, 2_010)));
    assert_eq!(p.next_range(2, 2_010), Some((1_011, 2_010)));
    p.record_polled(1, 2_010);
    assert_eq!(p.last_polled(1), Some(2_010));
}

#[test]
fn each_log_is_published_once() {
    let mut p = LogPoller::new();
    assert!(p.first_sighting((1, 10, 0)));
    assert!(p.first_sighting((1, 10, 1)));
    assert!(p.first_sighting((2, 10, 0)));
    assert!(!p.first_sighting((1, 10, 0)));
    assert!(p.has_seen((2, 10, 0)));
    assert!(!p.has_seen((2, 11, 0)));
}

#[test]
fn svm_records_are_built_from_decoded_events() {
    let r = svm_record(
        1399811149,
        1_700_000_000,
        "sig",
        2,
        ProgramRecordEvent::FillReported {
            order_id: [1u8; 32],
            amount_in_to_release: (1u128 << 64) + 5,
            amount_out_filled: 7,
            origin_recipient: [2u8; 32],
        },
    );
    let mut data = Data::default();
    match &r {
        Record::FillReported(f) => {
            assert_eq!(f.id, "sig:3");
            assert_eq!(f.ts, 1_700_000_000);
            assert_eq!(f.chain_id, 1399811149);
            assert_eq!(f.order_id, format!("0x{}", "01".repeat(32)));
            assert_eq!(f.amount_in_to_release, 5);
            assert_eq!(f.amount_out_filled, 7);
            assert_eq!(f.origin_recipient, format!("0x{}", "02".repeat(32)));
        }
        other => panic!("unexpected {:?}", other),
    }
    push_record(&mut data, r);
    assert_eq!(data.fill_reported_event_list.len(), 1);
    assert!(data.order_opened_event_list.is_empty());
    let opened = svm_record(
        1,
        0,
        "t",
        0,
        ProgramRecordEvent::OrderOpened {
            order_id: [3u8; 32],
            sender: [4u8; 32],
            token_in: [5u8; 32],
            amount_in: 10,
            dest_chain_id: 8453,
            token_out: [6u8; 32],
            amount_out: 9,
            solver: [0u8; 32],
        },
    );
    match opened {
        Record::OrderOpened(o) => {
            assert_eq!(o.id, "t:1");
            assert_eq!(o.sender, bs58::encode([4u8; 32]).into_string());
            assert_eq!(o.token_out, format!("0x{}", "06".repeat(32)));
            assert_eq!((o.amount_in, o.amount_out, o.dest_chain_id), (10, 9, 8453));
        }
        other => panic!("unexpected {:?}", other),
    }
}

#[test]
fn listeners_start_only_on_evm_chains_with_a_valid_book() {
    let mut c = ChainConfig {
        chain_id: 1,
        rpc_url: String::new(),
        ws_url: String::new(),
        order_book_address: "0x1111111111111111111111111111111111111111".to_string(),
        portal_program_id: None,
        bridge_adapter: None,
    };
    assert_eq!(listener_contract(&c).unwrap(), Some([0x11u8; 20]));
    c.order_book_address = "0x11".to_string();
    assert!(matches!(listener_contract(&c), Err(SolverError::Component(m)) if m.starts_with("Invalid contract address: ")));
    c.chain_id = 1399811149;
    assert_eq!(listener_contract(&c).unwrap(), None);
}

#[test]
fn evm_records_are_built_from_decoded_logs() {
    let r = evm_record(
        8453,
        77,
        "0xabc",
        4,
        EvmRecordEvent::RefundClaimed {
            order_id: [9u8; 32],
            sender: [0x11u8; 20],
            amount: 12,
        },
    );
    match r {
        Record::RefundClaimed(c) => {
            assert_eq!(c.id, "0xabc:5");
            assert_eq!(c.sender, format!("0x{}", "11".repeat(20)));
            assert_eq!((c.amount, c.ts, c.chain_id), (12, 77, 8453));
        }
        other => panic!("unexpected {:?}", other),
    }
}
