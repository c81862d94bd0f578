use alloy::signers::k256::sha2::{Digest, Sha256};
use liquidity_delivery::order_book::OrderData;
use liquidity_delivery::solver::config::{ChainConfig, Network};
use liquidity_delivery::solver::error::SolverError;
use liquidity_delivery::solver::events::{OrderCreatedEvent, RequestFillOrderEvent, SolverEvent};
use liquidity_delivery::solver::writers::{
    approval_call, encode_fill_instruction, encode_fill_order_call, encode_relay_instructions, executor_quote_url, fill_outcome,
    fill_wait_secs, get_destination_wormhole_adapter, needs_approval, plan_bridge,
    svm_fill_steps, wormhole_quote_from_response, Bridge, EvmWriter, FillParams, SvmFillKind, SvmFillStep, SvmWriter,
    DEFAULT_GAS_LIMIT, DEFAULT_MSG_VALUE,
};

const SOLANA: u32 = 1399811149;
const ADAPTER: &str = "0x1111111111111111111111111111111111111111";
const PORTAL: &str = "0x2222222222222222222222222222222222222222";
const BOOK: &str = "0x3333333333333333333333333333333333333333";

fn chain(chain_id: u32, book: &str) -> ChainConfig {
    ChainConfig {
        chain_id,
        rpc_url: String::new(),
        ws_url: String::new(),
        order_book_address: book.to_string(),
        portal_program_id: Some(PORTAL.to_string()),
        bridge_adapter: Some(ADAPTER.to_string()),
    }
}

fn order(origin: u32, dest: u32) -> OrderData {
    OrderData {
        version: 1,
        sender: [9u8; 32],
        nonce: 3,
        origin_chain_id: origin,
        dest_chain_id: dest,
        created_at: 1_000,
        fill_deadline: 2_000,
        token_in: [1u8; 32],
        token_out: [2u8; 32],
        amount_in: 500,
        amount_out: 500,
        recipient: [3u8; 32],
        solver: [0u8; 32],
    }
}

fn fill_request(id: &str, amount: u128) -> SolverEvent {
    SolverEvent::RequestFillOrder(RequestFillOrderEvent::new(id.to_string(), amount))
}

fn discriminator(name: &str) -> Vec<u8> {
    Sha256::digest(format!("global:{}", name).as_bytes())[..8].to_vec()
}

#[test]
fn fills_wait_for_the_chain_clock() {
    assert_eq!(fill_wait_secs(1_000, 990), 5);
    assert_eq!(fill_wait_secs(1_000, 985), 0);
    assert_eq!(fill_wait_secs(1_000, 900), 0);
    assert_eq!(fill_wait_secs(15, 10), 10);
}

#[test]
fn relay_instructions_encoding() {
    let text = encode_relay_instructions(DEFAULT_GAS_LIMIT, DEFAULT_MSG_VALUE);
    let expected = format!(
        "0x01{}{}",
        format!("{:032x}", 500_000u128),
        format!("{:032x}", 20_000_000u128)
    );
    assert_eq!(text, expected);
    assert_eq!(text.len(), 2 + 66);
    assert_eq!(encode_relay_instructions(0, 1), format!("0x01{}{}", "0".repeat(32), format!("{:032x}", 1)));
}

#[test]
fn executor_endpoints() {
    assert_eq!(executor_quote_url(Network::Mainnet), "https://executor.labsapis.com/v0/quote");
    assert_eq!(executor_quote_url(Network::Devnet), "https://executor-testnet.labsapis.com/v0/quote");
    assert_eq!(executor_quote_url(Network::Local), "https://executor-testnet.labsapis.com/v0/quote");
}

#[test]
fn executor_quotes_are_read() {
    let q = wormhole_quote_from_response("0xabcd", &Some("123".to_string())).unwrap();
    assert_eq!(q.signed_quote, vec![0xab, 0xcd]);
    assert_eq!(q.estimated_cost, 123);
    let q = wormhole_quote_from_response("00ff", &None).unwrap();
    assert_eq!(q.signed_quote, vec![0x00, 0xff]);
    assert_eq!(q.estimated_cost, 0);
    let q = wormhole_quote_from_response("", &Some("12x".to_string())).unwrap();
    assert!(q.signed_quote.is_empty());
    assert_eq!(q.estimated_cost, 0);
    match wormhole_quote_from_response("0xzz", &None) {
        Err(SolverError::Component(m)) => {
            assert!(m.starts_with("Failed to decode signed quote hex: "), "{}", m)
        }
        other => panic!("unexpected {:?}", other),
    }
}

#[test]
fn approvals_and_outcomes() {
    assert!(needs_approval(9, 10));
    assert!(!needs_approval(10, 10));
    let events = fill_outcome("abc".to_string(), true);
    assert_eq!(events.len(), 1);
    assert!(matches!(&events[0], SolverEvent::FillOrderSuccessful(e) if e.order_id == "abc"));
    assert!(fill_outcome("abc".to_string(), false).is_empty());
}

#[test]
fn bridges_by_origin() {
    let c = chain(10, BOOK);
    match plan_bridge(&c, Network::Devnet, SOLANA, 10).unwrap() {
        Bridge::Wormhole { adapter, quote_url, relay_instructions, source_chain_id, target_chain_id } => {
            assert_eq!(adapter, [0x11u8; 20]);
            assert_eq!(quote_url, "https://executor-testnet.labsapis.com/v0/quote");
            assert_eq!(relay_instructions, encode_relay_instructions(DEFAULT_GAS_LIMIT, DEFAULT_MSG_VALUE));
            assert_eq!((source_chain_id, target_chain_id), (10, SOLANA));
        }
        other => panic!("unexpected {:?}", other),
    }
    match plan_bridge(&c, Network::Mainnet, 1, 10).unwrap() {
        Bridge::Portal { portal, origin_chain_id } => {
            assert_eq!(portal, [0x22u8; 20]);
            assert_eq!(origin_chain_id, 1);
        }
        other => panic!("unexpected {:?}", other),
    }
    let mut bare = chain(10, BOOK);
    bare.portal_program_id = None;
    bare.bridge_adapter = None;
    assert!(matches!(plan_bridge(&bare, Network::Mainnet, 1, 10),
        Err(SolverError::Component(m)) if m == "Portal address not found for chain"));
    assert!(matches!(plan_bridge(&bare, Network::Mainnet, SOLANA, 10),
        Err(SolverError::Component(m)) if m == "Wormhole adapter address not found for chain"));
}

#[test]
fn the_evm_writer_plans_a_fill() {
    let chains = vec![chain(1, BOOK), chain(10, BOOK)];
    let mut w = EvmWriter::new(&chains, Network::Mainnet, [0x44u8; 20]);
    let created = OrderCreatedEvent::new(order(1, 10), "0x".to_string(), 1_000);
    let id = created.order_id.clone();
    assert_eq!(w.handle_event(SolverEvent::OrderCreated(created), 1_000).unwrap().is_none(), true);
    let fill = w.handle_event(fill_request(&id, 250), 1_010).unwrap().unwrap();
    assert_eq!(hex::encode(fill.order_id), id);
    assert_eq!(fill.amount, 250);
    assert_eq!(fill.order, order(1, 10));
    assert_eq!(fill.order_book, [0x33u8; 20]);
    assert_eq!(fill.wait_secs, 5);
    let mut recipient = [0u8; 32];
    recipient[12..].copy_from_slice(&[0x44u8; 20]);
    assert_eq!(fill.origin_recipient, recipient);
    assert!(matches!(fill.bridge, Bridge::Portal { origin_chain_id: 1, .. }));
    assert_eq!(fill.bridge_adapter, [0u8; 20]);
    assert_eq!(fill.fill_params.amount_out_to_fill, 250);
    assert_eq!(fill.fill_params.origin_recipient, recipient);
    assert_eq!(fill.fill_params.refund_address, recipient);

    let data = encode_fill_order_call(&fill, &[]);
    let selector = &alloy::primitives::keccak256(
        "fillOrder(bytes32,(uint16,bytes32,uint64,uint32,uint32,uint64,uint64,bytes32,bytes32,uint128,uint128,bytes32,bytes32),(uint128,bytes32,bytes32),address,bytes)".as_bytes(),
    )[..4];
    assert_eq!(&data[..4], selector);
    // 19 head words, then the empty bytes' length word.
    assert_eq!(data.len(), 4 + 20 * 32);
    assert_eq!(&data[4..36], &fill.order_id);
    assert_eq!(data[4 + 32 + 31], 1); // version
    assert_eq!(&data[4 + 14 * 32 + 16..4 + 15 * 32], &250u128.to_be_bytes()); // amount to fill
    assert_eq!(&data[4 + 15 * 32..4 + 16 * 32], &recipient); // origin recipient
    assert_eq!(&data[4 + 16 * 32..4 + 17 * 32], &recipient); // refund address
    assert_eq!(&data[4 + 17 * 32..4 + 18 * 32], &[0u8; 32]); // adapter
    assert_eq!(data[4 + 19 * 32 - 1], 0x60); // offset 608 = 0x260
    assert_eq!(data[4 + 19 * 32 - 2], 0x02);
    let with_args = encode_fill_order_call(&fill, &[0xab; 33]);
    assert_eq!(with_args.len(), 4 + 20 * 32 + 64);
    assert_eq!(with_args[4 + 20 * 32 - 1], 33);
    assert_eq!(&with_args[4 + 20 * 32..4 + 20 * 32 + 33], &[0xab; 33]);
    assert_eq!(&with_args[4 + 20 * 32 + 33..], &[0u8; 31]);
}

#[test]
fn approvals_are_asked_only_below_the_amount() {
    let book = [0x33u8; 20];
    let call = approval_call(10, 11, &book).unwrap();
    assert_eq!(&call[..4], &alloy::primitives::keccak256("approve(address,uint256)".as_bytes())[..4]);
    assert_eq!(&call[16..36], &book);
    assert_eq!(&call[52..68], &11u128.to_be_bytes());
    assert!(approval_call(11, 11, &book).is_none());
}

#[test]
fn the_evm_writer_leaves_other_fills_alone() {
    let chains = vec![chain(10, BOOK)];
    let mut w = EvmWriter::new(&chains, Network::Mainnet, [0x44u8; 20]);
    let to_solana = OrderCreatedEvent::new(order(10, SOLANA), "0x".to_string(), 1_000);
    let id = to_solana.order_id.clone();
    w.handle_event(SolverEvent::OrderCreated(to_solana), 1_000).unwrap();
    assert!(w.handle_event(fill_request(&id, 1), 1_000).unwrap().is_none());
    assert!(matches!(w.handle_event(fill_request("unknown", 1), 1_000),
        Err(SolverError::OrderNotFound(m)) if m == "unknown"));
    let elsewhere = OrderCreatedEvent::new(order(1, 77), "0x".to_string(), 1_000);
    let id = elsewhere.order_id.clone();
    w.handle_event(SolverEvent::OrderCreated(elsewhere), 1_000).unwrap();
    assert!(matches!(w.handle_event(fill_request(&id, 1), 1_000),
        Err(SolverError::Component(m)) if m == "No transaction lock for chain 77"));
}

fn solana_chain(chain_id: u32) -> ChainConfig {
    let mut c = chain(chain_id, &bs58::encode([5u8; 32]).into_string());
    c.bridge_adapter = Some(bs58::encode([6u8; 32]).into_string());
    c
}

#[test]
fn the_solana_writer_fills_native_orders() {
    let chains = vec![solana_chain(SOLANA)];
    let mut w = SvmWriter::new(&chains, Network::Devnet, [7u8; 32], [0x44u8; 20]);
    let created = OrderCreatedEvent::new(order(SOLANA, SOLANA), "0x".to_string(), 1_000);
    let id = created.order_id.clone();
    w.handle_event(SolverEvent::OrderCreated(created), 1_000).unwrap();
    let fill = w.handle_event(fill_request(&id, 300), 2_000).unwrap().unwrap();
    assert_eq!(fill.kind, SvmFillKind::Native);
    assert_eq!(fill.program_id, [5u8; 32]);
    assert_eq!(fill.wormhole_adapter, None);
    assert!(fill.relay.is_none());
    assert!(fill.is_devnet);
    assert_eq!(fill.wait_secs, 0);
    let params = FillParams { amount_out_to_fill: 300, origin_recipient: [7u8; 32] };
    let expected = encode_fill_instruction(SvmFillKind::Native, &fill.order_id, &order(SOLANA, SOLANA), &params);
    assert_eq!(fill.instruction_data, expected);
    assert_eq!(&expected[..8], discriminator("fill_native_order").as_slice());
    let steps = svm_fill_steps(&fill, false);
    assert_eq!(steps.len(), 2);
    match steps[0] {
        SvmFillStep::CreateSolverTokenInAccount { mint } => assert_eq!(mint, fill.order.token_in),
        other => panic!("the account is created first, not {:?}", other),
    }
    assert!(matches!(steps[1], SvmFillStep::Fill));
    let steps = svm_fill_steps(&fill, true);
    assert_eq!(steps.len(), 1);
    assert!(matches!(steps[0], SvmFillStep::Fill));
}

#[test]
fn the_solana_writer_fills_foreign_orders_through_the_origin_adapter() {
    let chains = vec![solana_chain(SOLANA), chain(1, BOOK)];
    let mut w = SvmWriter::new(&chains, Network::Mainnet, [7u8; 32], [0x44u8; 20]);
    let created = OrderCreatedEvent::new(order(1, SOLANA), "0x".to_string(), 1_000);
    let id = created.order_id.clone();
    w.handle_event(SolverEvent::OrderCreated(created), 1_000).unwrap();
    let fill = w.handle_event(fill_request(&id, 300), 2_000).unwrap().unwrap();
    assert_eq!(fill.kind, SvmFillKind::Foreign);
    assert!(!fill.is_devnet);
    let mut adapter = [0u8; 32];
    adapter[12..].copy_from_slice(&[0x11u8; 20]);
    assert_eq!(fill.wormhole_adapter, Some(adapter));
    let relay = fill.relay.unwrap();
    assert_eq!(relay.target_chain_id, 1);
    assert_eq!(relay.adapter, adapter);
    assert_eq!((relay.gas_limit, relay.msg_value), (500_000, 20_000_000));
    let data = &fill.instruction_data;
    assert_eq!(&data[..8], discriminator("fill_foreign_order").as_slice());
    assert_eq!(&data[8..40], &fill.order_id[..]);
    // Order (226 bytes of Borsh), then the amount and the padded EVM solver.
    assert_eq!(data.len(), 8 + 32 + 226 + 8 + 32);
    assert_eq!(&data[266..274], &300u64.to_le_bytes());
    assert_eq!(&data[274..286], &[0u8; 12]);
    assert_eq!(&data[286..], &[0x44u8; 20]);
    let steps = svm_fill_steps(&fill, false);
    assert_eq!(steps.len(), 2);
    assert!(matches!(steps[0], SvmFillStep::Fill));
    match steps[1] {
        SvmFillStep::Relay(r) => assert_eq!(r.target_chain_id, 1),
        other => panic!("the relay follows the fill, not {:?}", other),
    }
}

#[test]
fn foreign_fills_need_the_origin_configured() {
    let chains = vec![solana_chain(SOLANA)];
    let mut w = SvmWriter::new(&chains, Network::Mainnet, [7u8; 32], [0x44u8; 20]);
    let created = OrderCreatedEvent::new(order(1, SOLANA), "0x".to_string(), 1_000);
    let id = created.order_id.clone();
    w.handle_event(SolverEvent::OrderCreated(created), 1_000).unwrap();
    assert!(matches!(w.handle_event(fill_request(&id, 1), 2_000),
        Err(SolverError::Component(m)) if m == "Destination chain config not found"));
}

#[test]
fn wormhole_adapters_by_chain() {
    let chains = vec![chain(1, BOOK), solana_chain(SOLANA)];
    let mut evm = [0u8; 32];
    evm[12..].copy_from_slice(&[0x11u8; 20]);
    assert_eq!(get_destination_wormhole_adapter(&chains, 1).unwrap(), evm);
    assert_eq!(get_destination_wormhole_adapter(&chains, SOLANA).unwrap(), [6u8; 32]);
    assert!(get_destination_wormhole_adapter(&chains, 2).is_err());
}

#[test]
fn fill_instruction_layout() {
    let o = order(1, SOLANA);
    let params = FillParams { amount_out_to_fill: 0x0102, origin_recipient: [8u8; 32] };
    let data = encode_fill_instruction(SvmFillKind::Native, &[4u8; 32], &o, &params);
    assert_eq!(&data[..8], discriminator("fill_native_order").as_slice());
    // version (u16 LE) follows the order id.
    assert_eq!(&data[40..42], &[1, 0]);
    assert_eq!(&data[266..268], &[0x02, 0x01]);
    assert_eq!(&data[274..], &[8u8; 32]);
}

#[test]
fn writers_check_their_events_first() {
    let mut bad = chain(10, "not an address");
    bad.portal_program_id = Some("0x12".to_string());
    let chains = vec![bad];
    let mut w = EvmWriter::new(&chains, Network::Mainnet, [0x44u8; 20]);
    let created = OrderCreatedEvent::new(order(1, 10), "0x".to_string(), 1_000);
    let id = created.order_id.clone();
    assert!(w.can_handle(&SolverEvent::OrderCreated(created.clone()), 1_000));
    assert!(!w.can_handle(&SolverEvent::OrderCreated(created.clone()), 14));
    w.handle_event(SolverEvent::OrderCreated(created), 1_000).unwrap();
    assert!(!w.can_handle(&fill_request(&id, 1), 1_000));
    assert!(w.can_handle(&fill_request("unknown", 1), 1_000));

    let chains = vec![chain(SOLANA, "not base58 0OIl")];
    let mut s = SvmWriter::new(&chains, Network::Mainnet, [7u8; 32], [0x44u8; 20]);
    let created = OrderCreatedEvent::new(order(SOLANA, SOLANA), "0x".to_string(), 1_000);
    let id = created.order_id.clone();
    s.handle_event(SolverEvent::OrderCreated(created), 1_000).unwrap();
    assert!(!s.can_handle(&fill_request(&id, 1), 1_000));
}
