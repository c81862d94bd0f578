//! The events that the solver's components exchange over the event bus.
use vstd::prelude::*;
use crate::bytes::{hex_encode, hex_text};
use crate::hashing::keccak256_digest;
use crate::order_book::OrderData;
use crate::solver::assets::Asset;

verus! {

#[verifier::external_type_specification]
#[verifier::external_body]
pub struct ExSystemTime(std::time::SystemTime);

#[verifier::external_type_specification]
#[verifier::external_body]
pub struct ExSystemTimeError(std::time::SystemTimeError);

/// `SystemTime::now`: the system clock's reading. Nothing is stated of it.
#[verifier::external_body]
fn clock_now() -> std::time::SystemTime {
    std::time::SystemTime::now()
}

/// `SystemTime::duration_since(UNIX_EPOCH)`: the time since the Unix epoch,
/// or an error where the reading is before it. Nothing is stated of which.
#[verifier::external_body]
fn since_unix_epoch(t: std::time::SystemTime) -> std::result::Result<core::time::Duration, std::time::SystemTimeError> {
    t.duration_since(std::time::UNIX_EPOCH)
}

/// `Duration::as_secs`: the whole seconds of a duration. Nothing is stated
/// of them, the duration being opaque here.
#[verifier::external_body]
fn whole_seconds(d: core::time::Duration) -> u64 {
    d.as_secs()
}

/// The seconds since the Unix epoch by the system clock, `None` when the
/// clock is set before the epoch. Nothing is stated of the reading.
pub fn unix_timestamp_secs() -> Option<u64> {
    match since_unix_epoch(clock_now()) {
        Ok(d) => Some(whole_seconds(d)),
        Err(_) => None,
    }
}

/// The clock reading an event is stamped with: the seconds since the Unix
/// epoch, zero when the clock is set before the epoch.
pub fn event_time() -> u64 {
    match unix_timestamp_secs() {
        Some(t) => t,
        None => 0,
    }
}

/// Event: a new order was opened on an order book.
#[derive(Debug, Clone)]
pub struct OrderCreatedEvent {
    pub order_id: String,
    pub timestamp: u64,
    pub created_timestamp: u64,
    pub order: OrderData,
    pub transaction_hash: String,
}

impl OrderCreatedEvent {
    /// The event for `order`; its id is the hexadecimal order id.
    pub fn new(order: OrderData, transaction_hash: String, created_timestamp: u64) -> (event: Self)
        ensures
            event.order_id@ == hex_text(keccak256_digest(order.encoding())),
            event.order == order,
            event.transaction_hash == transaction_hash,
            event.created_timestamp == created_timestamp,
    {
        Self::new_at(order, transaction_hash, created_timestamp, event_time())
    }

    /// The event for `order`, stamped with the clock reading `timestamp`.
    pub fn new_at(order: OrderData, transaction_hash: String, created_timestamp: u64, timestamp: u64) -> (event: Self)
        ensures
            event.order_id@ == hex_text(keccak256_digest(order.encoding())),
            event.order == order,
            event.transaction_hash == transaction_hash,
            event.created_timestamp == created_timestamp,
            event.timestamp == timestamp,
    {
        let id = order.compute_order_id();
        Self { order_id: hex_encode(&id), timestamp, order, transaction_hash, created_timestamp }
    }
}

/// Event: part of an order was filled.
#[derive(Debug, Clone)]
pub struct OrderFillEvent {
    pub order_id: String,
    pub timestamp: u64,
    pub amount: u128,
    pub transaction_hash: String,
}

impl OrderFillEvent {
    pub fn new(order_id: String, amount: u128, transaction_hash: String) -> (event: Self)
        ensures
            event.order_id == order_id,
            event.amount == amount,
            event.transaction_hash == transaction_hash,
    {
        Self::new_at(order_id, amount, transaction_hash, event_time())
    }

    /// The event stamped with the clock reading `timestamp`.
    pub fn new_at(order_id: String, amount: u128, transaction_hash: String, timestamp: u64) -> (event: Self)
        ensures
            event.order_id == order_id,
            event.amount == amount,
            event.transaction_hash == transaction_hash,
            event.timestamp == timestamp,
    {
        Self { order_id, timestamp, amount, transaction_hash }
    }
}

/// Event: the solver declines an order.
#[derive(Debug, Clone)]
pub struct OrderRejectEvent {
    pub order_id: String,
    pub timestamp: u64,
    pub reason: String,
}

impl OrderRejectEvent {
    pub fn new(order_id: String, reason: String) -> (event: Self)
        ensures
            event.order_id == order_id,
            event.reason == reason,
    {
        Self::new_at(order_id, reason, event_time())
    }

    /// The event stamped with the clock reading `timestamp`.
    pub fn new_at(order_id: String, reason: String, timestamp: u64) -> (event: Self)
        ensures
            event.order_id == order_id,
            event.reason == reason,
            event.timestamp == timestamp,
    {
        Self { order_id, reason, timestamp }
    }
}

/// Event: the sender asked to cancel an order.
#[derive(Debug, Clone)]
pub struct OrderCancelRequestEvent {
    pub order_id: String,
    pub requested_at: u64,
    pub transaction_hash: String,
}

impl OrderCancelRequestEvent {
    pub fn new(order_id: String, requested_at: u64, transaction_hash: String) -> (event: Self)
        ensures
            event.order_id == order_id,
            event.requested_at == requested_at,
            event.transaction_hash == transaction_hash,
    {
        Self { order_id, requested_at, transaction_hash }
    }
}

/// Event: an order was cancelled on its origin chain.
#[derive(Debug, Clone)]
pub struct OrderCancelledEvent {
    pub order_id: String,
    pub transaction_hash: String,
}

/// Event: the sender claimed the refund of an unfilled order.
#[derive(Debug, Clone)]
pub struct OrderRefundClaimedEvent {
    pub order_id: String,
    pub timestamp: u64,
    pub sender: String,
    pub amount_refunded: u128,
    pub transaction_hash: String,
}

impl OrderRefundClaimedEvent {
    pub fn new(order_id: String, sender: String, amount_refunded: u128, transaction_hash: String) -> (event: Self)
        ensures
            event.order_id == order_id,
            event.sender == sender,
            event.amount_refunded == amount_refunded,
            event.transaction_hash == transaction_hash,
    {
        Self::new_at(order_id, sender, amount_refunded, transaction_hash, event_time())
    }

    /// The event stamped with the clock reading `timestamp`.
    pub fn new_at(
        order_id: String,
        sender: String,
        amount_refunded: u128,
        transaction_hash: String,
        timestamp: u64,
    ) -> (event: Self)
        ensures
            event.order_id == order_id,
            event.sender == sender,
            event.amount_refunded == amount_refunded,
            event.transaction_hash == transaction_hash,
            event.timestamp == timestamp,
    {
        Self { order_id, timestamp, sender, amount_refunded, transaction_hash }
    }
}

/// Event: an order was completely filled and settled.
#[derive(Debug, Clone)]
pub struct OrderCompletedEvent {
    pub order_id: String,
    pub timestamp: u64,
    pub transaction_hash: String,
}

impl OrderCompletedEvent {
    pub fn new(order_id: String, transaction_hash: String) -> (event: Self)
        ensures
            event.order_id == order_id,
            event.transaction_hash == transaction_hash,
    {
        Self::new_at(order_id, transaction_hash, event_time())
    }

    /// The event stamped with the clock reading `timestamp`.
    pub fn new_at(order_id: String, transaction_hash: String, timestamp: u64) -> (event: Self)
        ensures
            event.order_id == order_id,
            event.transaction_hash == transaction_hash,
            event.timestamp == timestamp,
    {
        Self { order_id, timestamp, transaction_hash }
    }
}

/// Event: reserve inventory of an asset for an order.
#[derive(Debug, Clone)]
pub struct RequestHoldEvent {
    pub order_id: String,
    pub asset: Asset,
    pub amount: u128,
    pub allow_partial_hold: bool,
}

impl RequestHoldEvent {
    pub fn new(order_id: String, asset: Asset, amount: u128, allow_partial_hold: bool) -> (event: Self)
        ensures
            event.order_id == order_id,
            event.asset == asset,
            event.amount == amount,
            event.allow_partial_hold == allow_partial_hold,
    {
        Self { order_id, asset, amount, allow_partial_hold }
    }
}

/// Event: inventory was reserved for an order.
#[derive(Debug, Clone)]
pub struct HoldSuccessfulEvent {
    pub order_id: String,
    pub hold_amount: u128,
}

impl HoldSuccessfulEvent {
    pub fn new(order_id: String, hold_amount: u128) -> (event: Self)
        ensures
            event.order_id == order_id,
            event.hold_amount == hold_amount,
    {
        Self { order_id, hold_amount }
    }
}

/// Event: the signer's balances, one entry per asset.
#[derive(Debug, Clone)]
pub struct InventoryUpdateEvent {
    pub balances: Vec<(Asset, u128)>,
    pub timestamp: u64,
}

impl InventoryUpdateEvent {
    pub fn new(balances: Vec<(Asset, u128)>) -> (event: Self)
        ensures
            event.balances == balances,
    {
        Self::new_at(balances, event_time())
    }

    /// The event stamped with the clock reading `timestamp`.
    pub fn new_at(balances: Vec<(Asset, u128)>, timestamp: u64) -> (event: Self)
        ensures
            event.balances == balances,
            event.timestamp == timestamp,
    {
        Self { balances, timestamp }
    }
}

/// Event: fill `amount` of an order on its destination chain.
#[derive(Debug, Clone)]
pub struct RequestFillOrderEvent {
    pub order_id: String,
    pub amount: u128,
}

impl RequestFillOrderEvent {
    pub fn new(order_id: String, amount: u128) -> (event: Self)
        ensures
            event.order_id == order_id,
            event.amount == amount,
    {
        Self { order_id, amount }
    }
}

/// Event: a fill transaction was confirmed.
#[derive(Debug, Clone)]
pub struct FillOrderSuccessfulEvent {
    pub order_id: String,
}

impl FillOrderSuccessfulEvent {
    pub fn new(order_id: String) -> (event: Self)
        ensures
            event.order_id == order_id,
    {
        Self { order_id }
    }
}

/// Event: swap `amount_in` of one asset into another to rebalance inventory.
#[derive(Debug, Clone)]
pub struct RequestSwapEvent {
    pub order_id: String,
    pub token_in: Asset,
    pub token_out: Asset,
    pub amount_in: u128,
}

impl RequestSwapEvent {
    pub fn new(order_id: String, token_in: Asset, token_out: Asset, amount_in: u128) -> (event: Self)
        ensures
            event.order_id == order_id,
            event.token_in == token_in,
            event.token_out == token_out,
            event.amount_in == amount_in,
    {
        Self { order_id, token_in, token_out, amount_in }
    }
}

/// Event: a rebalancing swap succeeded.
#[derive(Debug, Clone)]
pub struct SwapSuccessfulEvent {
    pub order_id: String,
}

/// A quote request as it arrives from the quote stream.
#[derive(Debug, Clone)]
pub struct QuoteRequest {
    pub input_token: String,
    pub input_chain_id: u32,
    pub output_token: String,
    pub output_chain_id: u32,
    pub amount_in: u64,
}

/// The solver's answer to a quote request.
#[derive(Debug, Clone)]
pub struct QuoteResponse {
    pub quote_id: String,
    pub fee_bps: u32,
    pub output_amount: u64,
    pub est_fill_time_seconds: u64,
    pub expires_at: String,
    pub rejected: bool,
    pub reject_reason: Option<String>,
    pub solver_address: String,
    pub requires_exclusivity: bool,
}

impl Default for QuoteResponse {
    /// An empty, rejected quote.
    fn default() -> (response: Self)
        ensures
            response.quote_id@ == Seq::<char>::empty(),
            response.fee_bps == 0,
            response.output_amount == 0,
            response.est_fill_time_seconds == 0,
            response.expires_at@ == Seq::<char>::empty(),
            response.rejected,
            response.reject_reason is None,
            response.solver_address@ == Seq::<char>::empty(),
            !response.requires_exclusivity,
    {
        QuoteResponse {
            quote_id: String::new(),
            fee_bps: 0,
            output_amount: 0,
            est_fill_time_seconds: 0,
            expires_at: String::new(),
            rejected: true,
            reject_reason: None,
            solver_address: String::new(),
            requires_exclusivity: false,
        }
    }
}

/// Event: a quote was requested; the tokens are already decoded to 32 bytes.
#[derive(Debug, Clone)]
pub struct RequestQuoteEvent {
    pub request: QuoteRequest,
    pub id: String,
    pub parsed_input_token: [u8; 32],
    pub parsed_output_token: [u8; 32],
}

/// Event: the answer to the quote request `id`.
#[derive(Debug, Clone)]
pub struct QuoteResponseEvent {
    pub response: QuoteResponse,
    pub id: String,
}

/// Every event of the solver.
#[derive(Debug, Clone)]
pub enum SolverEvent {
    Start,
    Stop,
    /// Periodic tick carrying the time in milliseconds since the Unix epoch.
    Heartbeat(u128),
    OrderCreated(OrderCreatedEvent),
    OrderFill(OrderFillEvent),
    OrderRejected(OrderRejectEvent),
    OrderCancelRequest(OrderCancelRequestEvent),
    OrderCancelled(OrderCancelledEvent),
    OrderRefundClaimed(OrderRefundClaimedEvent),
    OrderCompleted(OrderCompletedEvent),
    RequestHold(RequestHoldEvent),
    HoldSuccessful(HoldSuccessfulEvent),
    InventoryUpdate(InventoryUpdateEvent),
    RequestFillOrder(RequestFillOrderEvent),
    FillOrderSuccessful(FillOrderSuccessfulEvent),
    RequestSwap(RequestSwapEvent),
    SwapSuccessful(SwapSuccessfulEvent),
    RequestQuote(RequestQuoteEvent),
    QuoteResponse(QuoteResponseEvent),
}

/// The order an event is about, for the events that carry an order id.
pub open spec fn event_order_id(event: SolverEvent) -> Option<String> {
    match event {
        SolverEvent::OrderCreated(e) => Some(e.order_id),
        SolverEvent::OrderFill(e) => Some(e.order_id),
        SolverEvent::OrderRejected(e) => Some(e.order_id),
        SolverEvent::OrderCancelRequest(e) => Some(e.order_id),
        SolverEvent::OrderCancelled(e) => Some(e.order_id),
        SolverEvent::OrderRefundClaimed(e) => Some(e.order_id),
        SolverEvent::OrderCompleted(e) => Some(e.order_id),
        SolverEvent::RequestHold(e) => Some(e.order_id),
        SolverEvent::HoldSuccessful(e) => Some(e.order_id),
        SolverEvent::RequestFillOrder(e) => Some(e.order_id),
        SolverEvent::FillOrderSuccessful(e) => Some(e.order_id),
        SolverEvent::RequestSwap(e) => Some(e.order_id),
        SolverEvent::SwapSuccessful(e) => Some(e.order_id),
        _ => None,
    }
}

impl SolverEvent {
    /// The order id of events that contain one.
    pub fn order_id(&self) -> (id: Option<String>)
        ensures
            id == event_order_id(*self),
    {
        match self {
            SolverEvent::OrderCreated(e) => Some(e.order_id.clone()),
            SolverEvent::OrderFill(e) => Some(e.order_id.clone()),
            SolverEvent::OrderRejected(e) => Some(e.order_id.clone()),
            SolverEvent::OrderCancelRequest(e) => Some(e.order_id.clone()),
            SolverEvent::OrderCancelled(e) => Some(e.order_id.clone()),
            SolverEvent::OrderRefundClaimed(e) => Some(e.order_id.clone()),
            SolverEvent::OrderCompleted(e) => Some(e.order_id.clone()),
            SolverEvent::RequestHold(e) => Some(e.order_id.clone()),
            SolverEvent::HoldSuccessful(e) => Some(e.order_id.clone()),
            SolverEvent::RequestFillOrder(e) => Some(e.order_id.clone()),
            SolverEvent::FillOrderSuccessful(e) => Some(e.order_id.clone()),
            SolverEvent::RequestSwap(e) => Some(e.order_id.clone()),
            SolverEvent::SwapSuccessful(e) => Some(e.order_id.clone()),
            _ => None,
        }
    }
}

} // verus!
