use liquidity_delivery::order_book::OrderData;
use liquidity_delivery::solver::api::{
    balances_response, order_infos, orders_response, sort_newest_first, BalanceSummary, ErrorResponse,
    HealthResponse, OrderInfo, OrderSummary,
};
use liquidity_delivery::solver::assets::{chain_runtime, format_address, Asset, ChainRuntime};
use liquidity_delivery::solver::balance_store::BalanceStore;
use liquidity_delivery::solver::error::SolverError;
use liquidity_delivery::solver::events::{
    FillOrderSuccessfulEvent, InventoryUpdateEvent, OrderCancelledEvent, OrderCompletedEvent,
    OrderCreatedEvent, RequestHoldEvent, SolverEvent,
};
use liquidity_delivery::solver::inventory::{mint_asset_of, InventoryAction, InventoryManager};
use liquidity_delivery::solver::order_store::{Order, OrderState, OrderStore};
use liquidity_delivery::solver::order_timer::{OrderTimer, TimerOutcome};

const TOKEN_OUT: [u8; 32] = [2u8; 32];

fn order(amount_out: u128, dest_chain_id: u32) -> OrderData {
    OrderData {
        version: 1,
        sender: [9u8; 32],
        nonce: 1,
        origin_chain_id: 1,
        dest_chain_id,
        created_at: 100,
        fill_deadline: 200,
        token_in: [1u8; 32],
        token_out: TOKEN_OUT,
        amount_in: amount_out,
        amount_out,
        recipient: [3u8; 32],
        solver: [0u8; 32],
    }
}

fn token(chain_id: u32, address: &str) -> Asset {
    Asset {
        chain_id,
        address: address.to_string(),
        decimals: 6,
        icon: String::new(),
        m0_extension: true,
        name: "Token".to_string(),
        runtime: chain_runtime(chain_id),
        symbol: "TKN".to_string(),
    }
}

fn out_token() -> Asset {
    token(10, &format_address(&TOKEN_OUT))
}

fn publish(action: Result<InventoryAction, SolverError>) -> Vec<SolverEvent> {
    match action {
        Ok(InventoryAction::Publish(events)) => events,
        other => panic!("expected events, got {:?}", other),
    }
}

fn step(inv: &mut InventoryManager, event: SolverEvent, now: u64) -> Result<InventoryAction, SolverError> {
    assert!(inv.can_handle(&event));
    inv.handle_event(event, now)
}

fn hold(order_id: &str, asset: Asset, amount: u128, partial: bool) -> SolverEvent {
    SolverEvent::RequestHold(RequestHoldEvent::new(order_id.to_string(), asset, amount, partial))
}

fn granted(ev: &SolverEvent) -> u128 {
    match ev {
        SolverEvent::HoldSuccessful(h) => h.hold_amount,
        other => panic!("expected a granted hold, got {:?}", other),
    }
}

#[test]
fn start_publishes_every_balance() {
    let mut inv = InventoryManager::new(false, 0);
    inv.set_balance(token(1, "a"), 5);
    inv.set_balance(token(1, "b"), 7);
    inv.set_balance(token(1, "a"), 6);
    let events = publish(step(&mut inv, SolverEvent::Start, 0));
    assert_eq!(events.len(), 1);
    match &events[0] {
        SolverEvent::InventoryUpdate(u) => {
            let mut listed: Vec<(String, u128)> =
                u.balances.iter().map(|(a, b)| (a.address.clone(), *b)).collect();
            listed.sort();
            assert_eq!(listed, vec![("a".to_string(), 6), ("b".to_string(), 7)]);
        }
        other => panic!("unexpected {:?}", other),
    }
}

#[test]
fn token_accounts_with_nothing_are_not_recorded() {
    let mut inv = InventoryManager::new(false, 0);
    inv.record_token_account(token(1, "a"), 0);
    assert_eq!(inv.balance_of(&token(1, "a")), 0);
    inv.record_token_account(token(1, "a"), 3);
    assert_eq!(inv.balance_of(&token(1, "a")), 3);
}

#[test]
fn a_covered_hold_is_granted_in_full() {
    let mut inv = InventoryManager::new(false, 0);
    inv.set_balance(out_token(), 1_000);
    let events = publish(step(&mut inv, hold("o1", out_token(), 600, false), 0));
    assert_eq!(events.len(), 1);
    assert_eq!(granted(&events[0]), 600);
    assert_eq!(inv.held_amount(10, &out_token().address), 600);
    assert_eq!(inv.order_hold(&"o1".to_string()), 600);

    // Only 400 is left: a second request for 600 gets 400 when partial holds are allowed.
    let events = publish(step(&mut inv, hold("o2", out_token(), 600, true), 0));
    assert_eq!(events.len(), 1);
    assert_eq!(granted(&events[0]), 400);
    assert_eq!(inv.held_amount(10, &out_token().address), 1_000);
}

#[test]
fn a_short_hold_without_partial_gives_nothing() {
    let mut inv = InventoryManager::new(false, 0);
    inv.set_balance(out_token(), 100);
    let events = publish(step(&mut inv, hold("o1", out_token(), 600, false), 0));
    assert!(events.is_empty());
    assert_eq!(inv.held_amount(10, &out_token().address), 0);
    assert_eq!(inv.order_hold(&"o1".to_string()), 0);
}

#[test]
fn a_short_hold_asks_for_a_swap_from_the_largest_balance() {
    let mut inv = InventoryManager::new(true, 0);
    inv.set_balance(out_token(), 100);
    inv.set_balance(token(10, "small"), 50);
    inv.set_balance(token(10, "large"), 5_000);
    inv.set_balance(token(11, "elsewhere"), 9_000);
    let events = publish(step(&mut inv, hold("o1", out_token(), 600, true), 0));
    assert_eq!(events.len(), 2);
    assert_eq!(granted(&events[0]), 100);
    match &events[1] {
        SolverEvent::RequestSwap(s) => {
            assert_eq!(s.order_id, "o1");
            assert_eq!(s.token_in.address, "large");
            assert_eq!(s.token_out.address, out_token().address);
            // 5% over the 500 still missing.
            assert_eq!(s.amount_in, 525);
        }
        other => panic!("unexpected {:?}", other),
    }
}

#[test]
fn a_swap_is_capped_by_the_source_balance() {
    let mut inv = InventoryManager::new(true, 0);
    inv.set_balance(token(10, "other"), 10);
    let events = publish(step(&mut inv, hold("o1", out_token(), 600, false), 0));
    assert_eq!(events.len(), 1);
    match &events[0] {
        SolverEvent::RequestSwap(s) => assert_eq!(s.amount_in, 10),
        other => panic!("unexpected {:?}", other),
    }
}

#[test]
fn completion_releases_the_order_hold() {
    let mut inv = InventoryManager::new(false, 0);
    inv.set_balance(out_token(), 1_000);
    let created = OrderCreatedEvent::new(order(600, 10), "0x".to_string(), 100);
    let id = created.order_id.clone();
    publish(step(&mut inv, SolverEvent::OrderCreated(created), 1));
    publish(step(&mut inv, hold(&id, out_token(), 600, false), 1));
    assert_eq!(inv.held_amount(10, &out_token().address), 600);
    let done = OrderCompletedEvent::new(id.clone(), "0x".to_string());
    let events = publish(step(&mut inv, SolverEvent::OrderCompleted(done), 2));
    assert!(events.is_empty());
    assert_eq!(inv.held_amount(10, &out_token().address), 0);
    assert_eq!(inv.order_hold(&id), 0);
}

#[test]
fn cancellation_releases_the_order_hold_and_may_reload() {
    let mut inv = InventoryManager::new(false, 0);
    inv.set_balance(out_token(), 1_000);
    let created = OrderCreatedEvent::new(order(300, 10), "0x".to_string(), 100);
    let id = created.order_id.clone();
    publish(step(&mut inv, SolverEvent::OrderCreated(created), 1));
    publish(step(&mut inv, hold(&id, out_token(), 300, false), 1));
    let cancelled = SolverEvent::OrderCancelled(OrderCancelledEvent {
        order_id: id.clone(),
        transaction_hash: "0x".to_string(),
    });
    assert!(matches!(step(&mut inv, cancelled, 500), Ok(InventoryAction::ReloadAll)));
    assert_eq!(inv.held_amount(10, &out_token().address), 0);
}

#[test]
fn a_hold_of_an_unknown_order_cannot_be_released() {
    let mut inv = InventoryManager::new(false, 0);
    inv.set_balance(out_token(), 1_000);
    publish(step(&mut inv, hold("stray", out_token(), 10, false), 0));
    let done = OrderCompletedEvent::new("stray".to_string(), "0x".to_string());
    match step(&mut inv, SolverEvent::OrderCompleted(done), 0) {
        Err(SolverError::OrderNotFound(id)) => assert_eq!(id, "stray"),
        other => panic!("unexpected {:?}", other),
    }
}

#[test]
fn balances_reload_every_two_minutes() {
    let mut inv = InventoryManager::new(false, 100);
    assert!(publish(step(&mut inv, SolverEvent::Heartbeat(0), 219)).is_empty());
    assert!(matches!(step(&mut inv, SolverEvent::Heartbeat(0), 220), Ok(InventoryAction::ReloadAll)));
    inv.mark_balances_reloaded(220);
    assert!(publish(step(&mut inv, SolverEvent::Heartbeat(0), 221)).is_empty());
}

#[test]
fn a_confirmed_fill_reloads_the_destination_runtime() {
    let mut inv = InventoryManager::new(false, 0);
    let evm = OrderCreatedEvent::new(order(5, 10), "0x".to_string(), 100);
    let svm = OrderCreatedEvent::new(order(6, 1399811149), "0x".to_string(), 100);
    let (ide, ids) = (evm.order_id.clone(), svm.order_id.clone());
    step(&mut inv, SolverEvent::OrderCreated(evm), 0).unwrap();
    step(&mut inv, SolverEvent::OrderCreated(svm), 0).unwrap();
    let fill = SolverEvent::FillOrderSuccessful(FillOrderSuccessfulEvent::new(ide));
    assert!(matches!(step(&mut inv, fill, 0), Ok(InventoryAction::ReloadRuntime(ChainRuntime::Evm))));
    let fill = SolverEvent::FillOrderSuccessful(FillOrderSuccessfulEvent::new(ids));
    assert!(matches!(step(&mut inv, fill, 0), Ok(InventoryAction::ReloadRuntime(ChainRuntime::Svm))));
    let fill = SolverEvent::FillOrderSuccessful(FillOrderSuccessfulEvent::new("nope".to_string()));
    assert!(matches!(step(&mut inv, fill, 0), Err(SolverError::OrderNotFound(_))));
}

fn created_at(id: &str, timestamp: u64) -> SolverEvent {
    let mut e = OrderCreatedEvent::new(order(1, 10), "0x".to_string(), timestamp);
    e.order_id = id.to_string();
    e.timestamp = timestamp;
    SolverEvent::OrderCreated(e)
}

fn completed_at(id: &str, timestamp: u64) -> SolverEvent {
    SolverEvent::OrderCompleted(OrderCompletedEvent {
        order_id: id.to_string(),
        timestamp,
        transaction_hash: "0x".to_string(),
    })
}

#[test]
fn the_timer_reports_time_to_completion() {
    let mut timer = OrderTimer::new();
    assert_eq!(timer.handle_event(&SolverEvent::Start), TimerOutcome::StartPoller);
    assert_eq!(timer.handle_event(&created_at("a", 1_000)), TimerOutcome::Nothing);
    let done = completed_at("a", 1_045);
    assert!(timer.can_handle(&done));
    assert_eq!(timer.handle_event(&done), TimerOutcome::Completed(45));
    // The clock of "a" has stopped.
    assert_eq!(timer.handle_event(&completed_at("a", 2_000)), TimerOutcome::CompletedWithoutStart);
    assert_eq!(timer.handle_event(&SolverEvent::Stop), TimerOutcome::StopPoller);
}

#[test]
fn the_timer_refuses_a_completion_before_creation() {
    let mut timer = OrderTimer::new();
    timer.handle_event(&created_at("a", 1_000));
    assert!(!timer.can_handle(&completed_at("a", 999)));
}

#[test]
fn the_timer_lists_orders_open_over_two_hours() {
    let mut timer = OrderTimer::new();
    timer.handle_event(&created_at("old", 0));
    timer.handle_event(&created_at("edge", 801));
    timer.handle_event(&created_at("new", 5_000));
    assert!(timer.all_started_by(8_000));
    assert!(!timer.all_started_by(4_999));
    let mut late = timer.overdue_orders(8_001);
    late.sort();
    assert_eq!(late, vec![("old".to_string(), 8_001)]);
    let mut late = timer.overdue_orders(8_001 + 800);
    late.sort();
    assert_eq!(late, vec![("edge".to_string(), 8_000), ("old".to_string(), 8_801)]);
}

#[test]
fn the_balance_store_serves_the_last_update() {
    let mut store = BalanceStore::new();
    assert!(store.get_all_balances().is_empty());
    let update = InventoryUpdateEvent::new(vec![(token(1, "a"), 5), (token(2, "b"), 9)]);
    store.handle_event(&SolverEvent::InventoryUpdate(update));
    store.handle_event(&SolverEvent::Start);
    let all = store.get_all_balances();
    assert_eq!(all.len(), 2);
    assert_eq!((all[0].0.address.as_str(), all[0].1), ("a", 5));
    let response = balances_response(&store);
    assert_eq!(response.balances.len(), 2);
    assert_eq!(response.balances[1].balance, "9");
    assert_eq!(response.balances[1].address, "b");
    assert_eq!(response.balances[1].chain, "2");
    assert_eq!(response.count, 2);
}

fn stored(id: &str, created_at: u64, state: OrderState) -> Order {
    Order { id: id.to_string(), state, data: order(1_234, 10), filled_amount: 34, created_at }
}

#[test]
fn orders_are_listed_newest_first() {
    let sorted = sort_newest_first(vec![
        stored("a", 5, OrderState::Created),
        stored("b", 9, OrderState::Filled),
        stored("c", 7, OrderState::Created),
    ]);
    let ids: Vec<&str> = sorted.iter().map(|o| o.id.as_str()).collect();
    assert_eq!(ids, vec!["b", "c", "a"]);

    let mut store = OrderStore::new();
    let e = OrderCreatedEvent::new(order(9, 10), "0x".to_string(), 42);
    store.handle_event(&SolverEvent::OrderCreated(e)).unwrap();
    let r = orders_response(&store);
    assert_eq!(r.count, 1);
    assert_eq!(r.orders[0].created_at, 42);
    assert_eq!(r.orders[0].status, "Created");
}

#[test]
fn order_summaries_use_display_forms() {
    let s = OrderSummary::from_order(&stored("x", 3, OrderState::PartiallyFilled));
    assert_eq!(s.status, "PartiallyFilled");
    assert_eq!(s.amount_out, "1234");
    assert_eq!(s.filled_amount, "34");
    assert_eq!(s.token_out, format_address(&TOKEN_OUT));
    assert_eq!(s.solver, format!("0x{}", "00".repeat(20)));
    let info = OrderInfo::from_order(stored("x", 3, OrderState::Filled));
    assert_eq!(info.state, "Filled");
    assert_eq!(info.amount, 1_234);
    assert_eq!(info.output_token, hex::encode(TOKEN_OUT));
}

#[test]
fn api_defaults() {
    assert_eq!(HealthResponse::default().message, "Healthy");
    assert_eq!(ErrorResponse::default().error, "An unknown server error occurred");
    let b = BalanceSummary::from_asset(&token(8453, "0xabc"), 12);
    assert_eq!(b.balance, "12");
    assert_eq!(b.chain, "8453");
}

#[test]
fn active_orders_can_be_filtered_by_state() {
    let orders = vec![
        stored("a", 1, OrderState::Created),
        stored("b", 2, OrderState::Filled),
        stored("c", 3, OrderState::Created),
    ];
    let all = order_infos(orders.clone(), None);
    assert_eq!(all.len(), 3);
    let created = order_infos(orders.clone(), Some("CREATED".to_string()));
    let ids: Vec<&str> = created.iter().map(|i| i.id.as_str()).collect();
    assert_eq!(ids, vec!["a", "c"]);
    assert!(order_infos(orders, Some("cancelled".to_string())).is_empty());
}

#[test]
fn token_accounts_are_matched_to_assets_by_mint() {
    let usdc = token(1399811149, &bs58::encode([7u8; 32]).into_string());
    let other = token(1399811149, &bs58::encode([8u8; 32]).into_string());
    let unreadable = token(1399811149, "not-a-key");
    let assets = vec![unreadable, usdc.clone(), other.clone()];
    assert_eq!(mint_asset_of(&assets, &[7u8; 32]).unwrap().address, usdc.address);
    assert!(mint_asset_of(&assets, &[9u8; 32]).is_none());

    let mut inv = InventoryManager::new(false, 0);
    inv.record_token_accounts(&assets, &vec![([7u8; 32], 500), ([8u8; 32], 0), ([9u8; 32], 40)]);
    assert_eq!(inv.balance_of(&usdc), 500);
    assert_eq!(inv.balance_of(&other), 0);
    inv.record_token_accounts(&assets, &vec![([7u8; 32], 100), ([8u8; 32], 3)]);
    assert_eq!(inv.balance_of(&usdc), 100);
    assert_eq!(inv.balance_of(&other), 3);
}
