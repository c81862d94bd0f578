//! The solver events that the order books' own events become, on EVM
//! chains (logs) and on Solana (emitted program events).
use vstd::prelude::*;
use vstd::utf8::encode_utf8;
use crate::bytes::{base58_encode, base58_encoding, hex_encode, hex_text};
use crate::hashing::{keccak256, keccak256_digest};
use crate::order_book::OrderData;
use crate::quoter::tracking::EvmOrderOpened;
use crate::quoter::transactions::{encode_hex_0x, hex_0x, zeros};
use crate::solver::program_events::EventFields;
use crate::solver::events::{
    OrderCancelRequestEvent, OrderCompletedEvent, OrderCreatedEvent, OrderFillEvent,
    OrderRefundClaimedEvent, SolverEvent,
};

verus! {

broadcast use vstd::array::group_array_axioms;

/// The order-book events on EVM chains.
#[derive(Debug, Clone, Copy, PartialEq, Eq, Structural)]
pub enum EvmEventKind {
    OrderOpened,
    OrderFilled,
    CancelRequested,
    RefundClaimed,
    OrderCompleted,
}

impl EvmEventKind {
    /// The event's signature.
    pub open spec fn signature(self) -> Seq<char> {
        match self {
            EvmEventKind::OrderOpened => "OrderOpened(bytes32,address,address,uint128,uint32,bytes32,uint128,bytes32)"@,
            EvmEventKind::OrderFilled => "OrderFilled(bytes32,address,uint128,uint128)"@,
            EvmEventKind::CancelRequested => "CancelRequested(bytes32,uint32)"@,
            EvmEventKind::RefundClaimed => "RefundClaimed(bytes32,address,uint128)"@,
            EvmEventKind::OrderCompleted => "OrderCompleted(bytes32)"@,
        }
    }
}

/// The topic that identifies an event: the Keccak-256 digest of its
/// signature.
pub open spec fn event_topic(kind: EvmEventKind) -> Seq<u8> {
    keccak256_digest(encode_utf8(kind.signature()))
}

/// The event whose topic a log's first topic is, tried in the listener's
/// order.
pub open spec fn evm_event_of(topic0: Seq<u8>) -> Option<EvmEventKind> {
    if topic0 == event_topic(EvmEventKind::OrderOpened) {
        Some(EvmEventKind::OrderOpened)
    } else if topic0 == event_topic(EvmEventKind::OrderFilled) {
        Some(EvmEventKind::OrderFilled)
    } else if topic0 == event_topic(EvmEventKind::CancelRequested) {
        Some(EvmEventKind::CancelRequested)
    } else if topic0 == event_topic(EvmEventKind::RefundClaimed) {
        Some(EvmEventKind::RefundClaimed)
    } else if topic0 == event_topic(EvmEventKind::OrderCompleted) {
        Some(EvmEventKind::OrderCompleted)
    } else {
        None
    }
}

fn same32(a: &[u8; 32], b: &[u8; 32]) -> (same: bool)
    ensures
        same == (a@ == b@),
{
    let mut i: usize = 0;
    while i < 32
        invariant
            i <= 32,
            forall|j: int| 0 <= j < i ==> a@[j] == b@[j],
        decreases 32 - i,
    {
        if a[i] != b[i] {
            return false;
        }
        i = i + 1;
    }
    proof {
        assert(a@ =~= b@);
    }
    true
}

/// The event a log's first topic identifies, if the order book emits it.
pub fn evm_event_kind(topic0: &[u8; 32]) -> (kind: Option<EvmEventKind>)
    ensures
        kind == evm_event_of(topic0@),
{
    if same32(topic0, &keccak256("OrderOpened(bytes32,address,address,uint128,uint32,bytes32,uint128,bytes32)".as_bytes())) {
        Some(EvmEventKind::OrderOpened)
    } else if same32(topic0, &keccak256("OrderFilled(bytes32,address,uint128,uint128)".as_bytes())) {
        Some(EvmEventKind::OrderFilled)
    } else if same32(topic0, &keccak256("CancelRequested(bytes32,uint32)".as_bytes())) {
        Some(EvmEventKind::CancelRequested)
    } else if same32(topic0, &keccak256("RefundClaimed(bytes32,address,uint128)".as_bytes())) {
        Some(EvmEventKind::RefundClaimed)
    } else if same32(topic0, &keccak256("OrderCompleted(bytes32)".as_bytes())) {
        Some(EvmEventKind::OrderCompleted)
    } else {
        None
    }
}

/// What the EVM order book's `getOrder` gives that a new order needs.
#[derive(Debug, Clone, Copy)]
pub struct OrderRecord {
    pub version: u16,
    pub nonce: u64,
    pub created_at: u32,
    pub fill_deadline: u32,
    pub recipient: [u8; 32],
}

/// A 20-byte address left-padded to 32 bytes.
fn pad20(a: &[u8; 20]) -> (b: [u8; 32])
    ensures
        b@ == zeros(12) + a@,
{
    let mut b = [0u8; 32];
    let mut i: usize = 0;
    while i < 20
        invariant
            i <= 20,
            b@.len() == 32,
            forall|j: int| 0 <= j < 12 ==> b@[j] == 0,
            forall|j: int| 12 <= j < 12 + i ==> b@[j] == a@[j - 12],
            forall|j: int| 12 + i <= j < 32 ==> b@[j] == 0,
        decreases 20 - i,
    {
        b[12 + i] = a[i];
        i = i + 1;
    }
    proof {
        assert(b@ =~= zeros(12) + a@);
    }
    b
}

/// The order an EVM order-opened log introduces, completed from the order
/// book's record: addresses left-padded to 32 bytes, the origin the
/// listening chain.
pub open spec fn evm_opened_order(chain_id: u32, ev: EvmOrderOpened, r: OrderRecord, o: OrderData) -> bool {
    &&& o.version == r.version
    &&& o.origin_chain_id == chain_id
    &&& o.sender@ == zeros(12) + ev.sender@
    &&& o.nonce == r.nonce
    &&& o.dest_chain_id == ev.dest_chain_id
    &&& o.created_at == r.created_at as u64
    &&& o.fill_deadline == r.fill_deadline as u64
    &&& o.token_in@ == zeros(12) + ev.token_in@
    &&& o.token_out == ev.token_out
    &&& o.recipient == r.recipient
    &&& o.amount_in == ev.amount_in
    &&& o.amount_out == ev.amount_out
    &&& o.solver == ev.solver
}

/// The order-created event of an EVM order-opened log.
pub fn order_created_from_evm(chain_id: u32, ev: &EvmOrderOpened, record: &OrderRecord, transaction_hash: String) -> (event: SolverEvent)
    ensures
        event matches SolverEvent::OrderCreated(c) && evm_opened_order(chain_id, *ev, *record, c.order)
            && c.transaction_hash == transaction_hash && c.created_timestamp == record.created_at as u64,
{
    let order = OrderData {
        version: record.version,
        sender: pad20(&ev.sender),
        nonce: record.nonce,
        origin_chain_id: chain_id,
        dest_chain_id: ev.dest_chain_id,
        created_at: record.created_at as u64,
        fill_deadline: record.fill_deadline as u64,
        token_in: pad20(&ev.token_in),
        token_out: ev.token_out,
        amount_in: ev.amount_in,
        amount_out: ev.amount_out,
        recipient: record.recipient,
        solver: ev.solver,
    };
    SolverEvent::OrderCreated(OrderCreatedEvent::new(order, transaction_hash, record.created_at as u64))
}

/// The fill event of an order-filled (or fill-reported) event: the order
/// id in plain hexadecimal.
pub fn fill_event(order_id: &[u8; 32], amount_out_filled: u128, transaction_hash: String) -> (event: SolverEvent)
    ensures
        event matches SolverEvent::OrderFill(f) && f.order_id@ == hex_text(order_id@) && f.amount
            == amount_out_filled && f.transaction_hash == transaction_hash,
{
    SolverEvent::OrderFill(OrderFillEvent::new(hex_encode(order_id), amount_out_filled, transaction_hash))
}

/// The cancel-request event of a cancel-requested event.
pub fn cancel_request_event(order_id: &[u8; 32], requested_at: u64, transaction_hash: String) -> (event: SolverEvent)
    ensures
        event matches SolverEvent::OrderCancelRequest(c) && c.order_id@ == hex_text(order_id@)
            && c.requested_at == requested_at && c.transaction_hash == transaction_hash,
{
    SolverEvent::OrderCancelRequest(
        OrderCancelRequestEvent::new(hex_encode(order_id), requested_at, transaction_hash),
    )
}

/// The completion event of an order-completed event.
pub fn completed_event(order_id: &[u8; 32], transaction_hash: String) -> (event: SolverEvent)
    ensures
        event matches SolverEvent::OrderCompleted(c) && c.order_id@ == hex_text(order_id@)
            && c.transaction_hash == transaction_hash,
{
    SolverEvent::OrderCompleted(OrderCompletedEvent::new(hex_encode(order_id), transaction_hash))
}

/// The refund event of an EVM refund-claimed log: the sender as a `0x`
/// address.
pub fn evm_refund_event(order_id: &[u8; 32], sender: &[u8; 20], amount: u128, transaction_hash: String) -> (event: SolverEvent)
    ensures
        event matches SolverEvent::OrderRefundClaimed(r) && r.order_id@ == hex_text(order_id@)
            && r.sender@ == hex_0x(sender@) && r.amount_refunded == amount && r.transaction_hash
            == transaction_hash,
{
    SolverEvent::OrderRefundClaimed(
        OrderRefundClaimedEvent::new(hex_encode(order_id), encode_hex_0x(sender), amount, transaction_hash),
    )
}

/// The refund event of a Solana refund-claimed event: the sender in base58.
pub fn svm_refund_event(order_id: &[u8; 32], sender: &[u8; 32], amount: u64, signature: String) -> (event: SolverEvent)
    ensures
        event matches SolverEvent::OrderRefundClaimed(r) && r.order_id@ == hex_text(order_id@)
            && r.sender@ == base58_encoding(sender@) && r.amount_refunded == amount as u128
            && r.transaction_hash == signature,
{
    SolverEvent::OrderRefundClaimed(
        OrderRefundClaimedEvent::new(hex_encode(order_id), base58_encode(sender), amount as u128, signature),
    )
}

/// The creation time of an order seen on Solana: the block's time where
/// the transaction has one, the clock's otherwise.
pub fn svm_created_timestamp(block_time: Option<i64>, now_secs: u64) -> (ts: u64)
    ensures
        ts == match block_time {
            Some(t) => t as u64,
            None => now_secs,
        },
{
    match block_time {
        Some(t) => t as u64,
        None => now_secs,
    }
}

/// The solver event that a decoded Solana program event becomes, from the
/// transaction `signature`: fills (reported or direct) become fills of the
/// amount out filled, and completions, cancel requests and refunds their
/// events; an opened order gives none here, since its order data comes
/// from the order's account.
pub fn svm_solver_event(fields: &EventFields, signature: String) -> (event: Option<SolverEvent>)
    ensures
        match *fields {
            EventFields::OrderOpened(_) => event is None,
            EventFields::OrderFilled(e) => event matches Some(SolverEvent::OrderFill(f)) && f.order_id@
                == hex_text(e.order_id@) && f.amount == e.amount_out_filled && f.transaction_hash
                == signature,
            EventFields::FillReported(e) => event matches Some(SolverEvent::OrderFill(f)) && f.order_id@
                == hex_text(e.order_id@) && f.amount == e.amount_out_filled && f.transaction_hash
                == signature,
            EventFields::OrderCompleted(id) => event matches Some(SolverEvent::OrderCompleted(c))
                && c.order_id@ == hex_text(id@) && c.transaction_hash == signature,
            EventFields::CancelRequested(e) => event matches Some(SolverEvent::OrderCancelRequest(c))
                && c.order_id@ == hex_text(e.order_id@) && c.requested_at == e.cancel_requested_at
                && c.transaction_hash == signature,
            EventFields::RefundClaimed(e) => event matches Some(SolverEvent::OrderRefundClaimed(r))
                && r.order_id@ == hex_text(e.order_id@) && r.sender@ == base58_encoding(e.sender@)
                && r.amount_refunded == e.amount as u128 && r.transaction_hash == signature,
        },
{
    match fields {
        EventFields::OrderOpened(_) => None,
        EventFields::OrderFilled(e) => Some(fill_event(&e.order_id, e.amount_out_filled, signature)),
        EventFields::FillReported(e) => Some(fill_event(&e.order_id, e.amount_out_filled, signature)),
        EventFields::OrderCompleted(id) => Some(completed_event(id, signature)),
        EventFields::CancelRequested(e) => Some(
            cancel_request_event(&e.order_id, e.cancel_requested_at, signature),
        ),
        EventFields::RefundClaimed(e) => Some(svm_refund_event(&e.order_id, &e.sender, e.amount, signature)),
    }
}

} // verus!
