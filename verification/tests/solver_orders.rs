use liquidity_delivery::order_book::OrderData;
use liquidity_delivery::solver::assets::{chain_runtime, format_address, Asset, ChainRuntime};
use liquidity_delivery::solver::config::{Config, SupportedAssets};
use liquidity_delivery::solver::error::SolverError;
use liquidity_delivery::solver::events::{
    HoldSuccessfulEvent, OrderCancelRequestEvent, OrderCompletedEvent, OrderCreatedEvent,
    OrderFillEvent, OrderRejectEvent, QuoteRequest, RequestQuoteEvent, SolverEvent,
};
use liquidity_delivery::solver::order_processor::OrderProcessor;
use liquidity_delivery::solver::order_store::{OrderState, OrderStore};

const TOKEN_IN: [u8; 32] = [1u8; 32];
const TOKEN_OUT: [u8; 32] = [2u8; 32];

fn order(amount_in: u128, amount_out: u128) -> OrderData {
    OrderData {
        version: 1,
        sender: [9u8; 32],
        nonce: 7,
        origin_chain_id: 1,
        dest_chain_id: 10,
        created_at: 1_700_000_000,
        fill_deadline: 1_700_003_600,
        token_in: TOKEN_IN,
        token_out: TOKEN_OUT,
        amount_in,
        amount_out,
        recipient: [3u8; 32],
        solver: [0u8; 32],
    }
}

fn asset(chain_id: u32, address: &str, m0_extension: bool, decimals: i64) -> Asset {
    Asset {
        chain_id,
        address: address.to_string(),
        decimals,
        icon: String::new(),
        m0_extension,
        name: "Token".to_string(),
        runtime: chain_runtime(chain_id),
        symbol: "TKN".to_string(),
    }
}

fn processor(fee_bps: u32, clip: u64) -> OrderProcessor {
    let mut config = Config::default();
    config.solver_fee_bps = fee_bps;
    config.max_order_clip_size = clip;
    let mut p = OrderProcessor::new(&config, "0xsolver".to_string(), "SoLvEr".to_string());
    p.asset_store.insert_asset(TOKEN_IN, 1, asset(1, "0xIn", true, 6));
    p.asset_store.insert_asset(TOKEN_OUT, 10, asset(10, "0xOut", true, 6));
    p
}

fn step(p: &mut OrderProcessor, event: SolverEvent, now_ms: u128) -> Vec<SolverEvent> {
    assert!(p.can_handle(&event, now_ms));
    p.handle_event(event, now_ms).unwrap()
}

fn created(o: OrderData) -> OrderCreatedEvent {
    OrderCreatedEvent::new(o, "0xtx".to_string(), 1_700_000_000)
}

fn hold_amount(ev: &SolverEvent) -> u128 {
    match ev {
        SolverEvent::RequestHold(h) => h.amount,
        other => panic!("expected a hold request, got {:?}", other),
    }
}

fn rejection(ev: &SolverEvent) -> String {
    match ev {
        SolverEvent::OrderRejected(r) => r.reason.clone(),
        other => panic!("expected a rejection, got {:?}", other),
    }
}

#[test]
fn order_state_names() {
    assert_eq!(OrderState::Created.name(), "Created");
    assert_eq!(OrderState::PartiallyFilled.name(), "PartiallyFilled");
    assert_eq!(OrderState::Filled.name(), "Filled");
    assert_eq!(OrderState::Completed.name(), "Completed");
    assert_eq!(OrderState::Rejected.name(), "Rejected");
    assert_eq!(OrderState::Cancelled.name(), "Cancelled");
}

#[test]
fn order_store_tracks_fills_to_completion() {
    let mut store = OrderStore::new();
    let ev = created(order(1_000, 1_000));
    let id = ev.order_id.clone();
    store.handle_event(&SolverEvent::OrderCreated(ev)).unwrap();
    let o = store.get_order(&id).unwrap();
    assert_eq!(o.state, OrderState::Created);
    assert_eq!(o.filled_amount, 0);
    assert_eq!(o.created_at, 1_700_000_000);

    let fill = OrderFillEvent::new(id.clone(), 400, "0xa".to_string());
    store.handle_event(&SolverEvent::OrderFill(fill)).unwrap();
    let o = store.get_order(&id).unwrap();
    assert_eq!(o.state, OrderState::PartiallyFilled);
    assert_eq!(o.filled_amount, 400);

    let fill = OrderFillEvent::new(id.clone(), 600, "0xb".to_string());
    store.handle_event(&SolverEvent::OrderFill(fill)).unwrap();
    let o = store.get_order(&id).unwrap();
    assert_eq!(o.state, OrderState::Filled);
    assert_eq!(o.filled_amount, 1_000);

    let done = OrderCompletedEvent::new(id.clone(), "0xc".to_string());
    store.handle_event(&SolverEvent::OrderCompleted(done)).unwrap();
    assert_eq!(store.get_order(&id).unwrap().state, OrderState::Completed);
    assert_eq!(store.get_orders_by_state(OrderState::Completed).len(), 1);
    assert_eq!(store.get_orders_by_state(OrderState::Created).len(), 0);
    assert_eq!(store.get_all_orders().len(), 1);
}

#[test]
fn order_store_reports_unknown_orders() {
    let mut store = OrderStore::new();
    let fill = OrderFillEvent::new("missing".to_string(), 5, "0x".to_string());
    match store.handle_event(&SolverEvent::OrderFill(fill)) {
        Err(SolverError::OrderNotFound(id)) => assert_eq!(id, "missing"),
        other => panic!("unexpected {:?}", other),
    }
    let reject = OrderRejectEvent::new("gone".to_string(), "why".to_string());
    assert!(matches!(
        store.handle_event(&SolverEvent::OrderRejected(reject)),
        Err(SolverError::OrderNotFound(_))
    ));
    assert!(store.get_all_orders().is_empty());
}

#[test]
fn order_store_marks_cancel_requests_and_rejections() {
    let mut store = OrderStore::new();
    let a = created(order(10, 10));
    let b = created(order(20, 20));
    let (ida, idb) = (a.order_id.clone(), b.order_id.clone());
    store.handle_event(&SolverEvent::OrderCreated(a)).unwrap();
    store.handle_event(&SolverEvent::OrderCreated(b)).unwrap();
    let cancel = OrderCancelRequestEvent::new(ida.clone(), 5, "0x".to_string());
    store.handle_event(&SolverEvent::OrderCancelRequest(cancel)).unwrap();
    let reject = OrderRejectEvent::new(idb.clone(), "no".to_string());
    store.handle_event(&SolverEvent::OrderRejected(reject)).unwrap();
    assert_eq!(store.get_order(&ida).unwrap().state, OrderState::Cancelled);
    assert_eq!(store.get_order(&idb).unwrap().state, OrderState::Rejected);
}

#[test]
fn processor_requests_a_hold_for_a_small_order() {
    let mut p = processor(0, 250_000);
    let ev = created(order(1_000_000, 1_000_000));
    let id = ev.order_id.clone();
    let out = step(&mut p, SolverEvent::OrderCreated(ev), 0);
    assert_eq!(out.len(), 1);
    match &out[0] {
        SolverEvent::RequestHold(h) => {
            assert_eq!(h.order_id, id);
            assert_eq!(h.amount, 1_000_000);
            assert!(h.allow_partial_hold);
            assert_eq!(h.asset.chain_id, 10);
            assert_eq!(h.asset.address, "0xOut");
        }
        other => panic!("unexpected {:?}", other),
    }
    assert!(p.reprocess_queue.is_empty());
    assert_eq!(p.order_store.get_order(&id).unwrap().state, OrderState::Created);
}

#[test]
fn processor_rejects_an_order_that_does_not_cover_the_fee() {
    let mut p = processor(10, 250_000);
    let ev = created(order(1_000_000, 1_000_000));
    let out = step(&mut p, SolverEvent::OrderCreated(ev), 0);
    assert_eq!(out.len(), 1);
    assert_eq!(
        rejection(&out[0]),
        "Order amount_out 1000000 does not cover fee-inclusive amount_out 999000"
    );
}

#[test]
fn processor_accepts_an_order_that_covers_the_fee_exactly() {
    let mut p = processor(10, 250_000);
    let ev = created(order(1_000_000, 999_000));
    let out = step(&mut p, SolverEvent::OrderCreated(ev), 0);
    assert_eq!(hold_amount(&out[0]), 999_000);
}

#[test]
fn processor_rejects_unsupported_assets() {
    let mut p = processor(0, 250_000);
    let mut o = order(5, 5);
    o.token_in = [7u8; 32];
    let out = step(&mut p, SolverEvent::OrderCreated(created(o)), 0);
    assert_eq!(rejection(&out[0]), "input_token: Asset not supported");

    let mut o = order(5, 5);
    o.token_out = [7u8; 32];
    let out = step(&mut p, SolverEvent::OrderCreated(created(o)), 0);
    assert_eq!(rejection(&out[0]), "output_token: Asset not supported");
}

#[test]
fn processor_rejects_blacklisted_and_plain_assets() {
    let mut p = processor(0, 250_000);
    p.supported_assets = SupportedAssets {
        third_party_whitelist: vec!["0xplain".to_string()],
        first_party_blacklist: vec!["0xOUT".to_string()],
    };
    let out = step(&mut p, SolverEvent::OrderCreated(created(order(5, 5))), 0);
    assert_eq!(rejection(&out[0]), "output_token: Asset 0xOut not supported");

    p.supported_assets = SupportedAssets {
        third_party_whitelist: vec!["0xin".to_string(), "0xout".to_string()],
        first_party_blacklist: vec![],
    };
    p.asset_store.insert_asset(TOKEN_IN, 1, asset(1, "0xIn", false, 6));
    p.asset_store.insert_asset(TOKEN_OUT, 10, asset(10, "0xOut", false, 6));
    let out = step(&mut p, SolverEvent::OrderCreated(created(order(5, 5))), 0);
    assert_eq!(rejection(&out[0]), "At least one asset must be an M0 extension");
}

#[test]
fn processor_rejects_a_swap_into_the_same_asset() {
    let mut p = processor(0, 250_000);
    let mut o = order(5, 5);
    o.token_out = TOKEN_IN;
    o.dest_chain_id = 1;
    let out = step(&mut p, SolverEvent::OrderCreated(created(o)), 0);
    assert_eq!(rejection(&out[0]), "Must be different assets or different chains");
}

#[test]
fn processor_clips_large_orders_and_resumes_on_heartbeats() {
    // One clip is 1 token of 6 decimals.
    let mut p = processor(0, 1);
    let ev = created(order(2_500_000, 2_500_000));
    let id = ev.order_id.clone();
    let out = step(&mut p, SolverEvent::OrderCreated(ev), 1_000);
    assert_eq!(hold_amount(&out[0]), 1_000_000);
    assert_eq!(p.reprocess_queue, vec![(id.clone(), 61_000)]);

    let fill = OrderFillEvent::new(id.clone(), 1_000_000, "0x1".to_string());
    assert!(step(&mut p, SolverEvent::OrderFill(fill), 2_000).is_empty());

    // Not due yet.
    assert!(step(&mut p, SolverEvent::Heartbeat(60_999), 60_999).is_empty());
    assert_eq!(p.reprocess_queue.len(), 1);

    let out = step(&mut p, SolverEvent::Heartbeat(61_000), 61_000);
    assert_eq!(out.len(), 1);
    assert_eq!(hold_amount(&out[0]), 1_000_000);
    assert_eq!(p.reprocess_queue, vec![(id.clone(), 121_000)]);

    let fill = OrderFillEvent::new(id.clone(), 1_000_000, "0x2".to_string());
    step(&mut p, SolverEvent::OrderFill(fill), 62_000);
    let out = step(&mut p, SolverEvent::Heartbeat(121_000), 121_000);
    assert_eq!(hold_amount(&out[0]), 500_000);
    assert!(p.reprocess_queue.is_empty());
    assert_eq!(p.order_store.get_order(&id).unwrap().state, OrderState::PartiallyFilled);
}

#[test]
fn heartbeat_for_an_unknown_queued_order_fails() {
    let mut p = processor(0, 1);
    p.reprocess_queue.push(("ghost".to_string(), 10));
    assert!(p.can_handle(&SolverEvent::Heartbeat(10), 10));
    match p.handle_event(SolverEvent::Heartbeat(10), 10) {
        Err(SolverError::OrderNotFound(id)) => assert_eq!(id, "ghost"),
        other => panic!("unexpected {:?}", other),
    }
    assert_eq!(p.reprocess_queue.len(), 1);
}

#[test]
fn hold_success_requests_a_fill_of_the_held_amount() {
    let mut p = processor(0, 1);
    let ev = SolverEvent::HoldSuccessful(HoldSuccessfulEvent::new("abc".to_string(), 77));
    let out = step(&mut p, ev, 0);
    assert_eq!(out.len(), 1);
    match &out[0] {
        SolverEvent::RequestFillOrder(f) => {
            assert_eq!(f.order_id, "abc");
            assert_eq!(f.amount, 77);
        }
        other => panic!("unexpected {:?}", other),
    }
}

#[test]
fn other_events_give_nothing() {
    let mut p = processor(0, 1);
    assert!(step(&mut p, SolverEvent::Start, 0).is_empty());
    assert!(step(&mut p, SolverEvent::Stop, 0).is_empty());
}

fn quote(p: &mut OrderProcessor, input: [u8; 32], in_chain: u32, output: [u8; 32], out_chain: u32, amount: u64) -> liquidity_delivery::solver::events::QuoteResponse {
    let request = RequestQuoteEvent {
        request: QuoteRequest {
            input_token: "in".to_string(),
            input_chain_id: in_chain,
            output_token: "out".to_string(),
            output_chain_id: out_chain,
            amount_in: amount,
        },
        id: "q1".to_string(),
        parsed_input_token: input,
        parsed_output_token: output,
    };
    let out = step(p, SolverEvent::RequestQuote(request), 0);
    assert_eq!(out.len(), 1);
    match &out[0] {
        SolverEvent::QuoteResponse(q) => {
            assert_eq!(q.id, "q1");
            q.response.clone()
        }
        other => panic!("unexpected {:?}", other),
    }
}

#[test]
fn quotes_take_the_fee_off_the_input() {
    let mut p = processor(10, 1);
    let r = quote(&mut p, TOKEN_IN, 1, TOKEN_OUT, 10, 3_000_000);
    assert!(!r.rejected);
    assert_eq!(r.reject_reason, None);
    assert_eq!(r.fee_bps, 10);
    assert_eq!(r.output_amount, 2_997_000);
    // 2 full clips of 1_000_000, 60 s apart.
    assert_eq!(r.est_fill_time_seconds, 120);
    assert_eq!(r.solver_address, "0xsolver");
    assert!(!r.requires_exclusivity);
}

#[test]
fn quotes_into_solana_name_the_solana_solver() {
    let mut p = processor(0, 1);
    p.asset_store.insert_asset(TOKEN_OUT, 1399811149, asset(1399811149, "So1", true, 6));
    let r = quote(&mut p, TOKEN_IN, 1, TOKEN_OUT, 1399811149, 10);
    assert!(!r.rejected);
    assert_eq!(r.output_amount, 10);
    assert_eq!(r.est_fill_time_seconds, 0);
    assert_eq!(r.solver_address, "SoLvEr");
}

#[test]
fn rejected_quotes_say_why() {
    let mut p = processor(0, 1);
    let r = quote(&mut p, [5u8; 32], 1, TOKEN_OUT, 10, 10);
    assert!(r.rejected);
    assert_eq!(r.reject_reason.as_deref(), Some("input_token: Asset not supported"));
    assert_eq!(r.output_amount, 0);
    assert_eq!(r.solver_address, "");
}

#[test]
fn clip_size_that_overflows_is_refused() {
    let p = processor(0, u64::MAX);
    assert!(p.clip_size_fits(6));
    assert!(!p.clip_size_fits(30));
    assert!(!p.clip_size_fits(40));
    assert_eq!(p.get_reprocess_time(5), 60_005);
}

#[test]
fn chain_runtimes() {
    assert_eq!(chain_runtime(1399811149), ChainRuntime::Svm);
    assert_eq!(chain_runtime(1399811151), ChainRuntime::Svm);
    assert_eq!(chain_runtime(1), ChainRuntime::Evm);
    let sol = Asset::get_native(1399811150);
    assert_eq!((sol.symbol.as_str(), sol.decimals), ("SOL", 9));
    let eth = Asset::get_native(8453);
    assert_eq!((eth.symbol.as_str(), eth.decimals, eth.name.as_str()), ("ETH", 18, "Ethereum"));
}

#[test]
fn addresses_display_by_kind() {
    let mut evm = [0u8; 32];
    evm[12..].copy_from_slice(&[0xab; 20]);
    assert_eq!(format_address(&evm), format!("0x{}", "ab".repeat(20)));
    let svm = [1u8; 32];
    assert_eq!(format_address(&svm), bs58::encode(svm).into_string());
}

#[test]
fn error_texts() {
    assert_eq!(SolverError::Store("db".to_string()).message(), "Store error: db");
    assert_eq!(SolverError::Component("bus".to_string()).message(), "Component error: bus");
    assert_eq!(SolverError::OrderNotFound("0x1".to_string()).message(), "Order not found: 0x1");
}

#[test]
fn assets_are_listed_by_chain() {
    let p = processor(0, 1);
    let on_ten = p.asset_store.get_assets_for_chain(10);
    assert_eq!(on_ten.len(), 1);
    assert_eq!(on_ten[0].address, "0xOut");
    assert!(p.asset_store.get_assets_for_chain(99).is_empty());
    assert_eq!(p.asset_store.get_asset(TOKEN_IN, 1).unwrap().address, "0xIn");
    assert!(p.asset_store.get_asset(TOKEN_IN, 2).is_none());
}
