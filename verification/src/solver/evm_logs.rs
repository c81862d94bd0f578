//! The decoding of the EVM order book's logs: the first topic names the
//! event, the indexed fields are the further topics, and the other fields
//! are the 32-byte words of the log's data, in declaration order. Values
//! are read as the ABI decoder reads them without validation: an address
//! is the last 20 bytes of its word and a `uintN` the last `N / 8` bytes,
//! big-endian; a log whose topics are more than the event has, or whose
//! data is shorter than its words, does not decode.
use vstd::prelude::*;
use crate::bytes::{be_value, read_be, read_bytes32};
use crate::quoter::tracking::EvmOrderOpened;
use crate::solver::chain_events::{
    cancel_request_event, completed_event, evm_event_kind, evm_event_of, evm_refund_event,
    fill_event, EvmEventKind,
};
use crate::bytes::hex_text;
use crate::quoter::transactions::hex_0x;
use crate::solver::events::SolverEvent;

verus! {

broadcast use vstd::array::group_array_axioms;

/// A decoded log of the order book.
#[derive(Debug, Clone, Copy)]
pub enum EvmLogEvent {
    OrderOpened(EvmOrderOpened),
    OrderFilled {
        order_id: [u8; 32],
        solver: [u8; 20],
        amount_in_to_release: u128,
        amount_out_filled: u128,
    },
    CancelRequested { order_id: [u8; 32], cancel_requested_at: u32 },
    RefundClaimed { order_id: [u8; 32], sender: [u8; 20], amount_in_refunded: u128 },
    OrderCompleted { order_id: [u8; 32] },
}

/// What a log is to the listener.
#[derive(Debug, Clone, Copy)]
pub enum LogDecoding {
    /// No topics, or a first topic that names no order-book event.
    Ignored,
    /// More than four topics: not a log at all.
    Invalid,
    /// An order-book event whose topics or data do not fit its layout.
    Malformed(EvmEventKind),
    Decoded(EvmLogEvent),
}

/// The event a decoded log is.
pub open spec fn log_event_kind(e: EvmLogEvent) -> EvmEventKind {
    match e {
        EvmLogEvent::OrderOpened(_) => EvmEventKind::OrderOpened,
        EvmLogEvent::OrderFilled { .. } => EvmEventKind::OrderFilled,
        EvmLogEvent::CancelRequested { .. } => EvmEventKind::CancelRequested,
        EvmLogEvent::RefundClaimed { .. } => EvmEventKind::RefundClaimed,
        EvmLogEvent::OrderCompleted { .. } => EvmEventKind::OrderCompleted,
    }
}

/// The number of topics of each event, its signature first:
/// `OrderOpened(bytes32 indexed orderId, address sender, address tokenIn,
/// uint128 amountIn, uint32 indexed destChainId, bytes32 tokenOut, uint128
/// amountOut, bytes32 indexed solver)`, `OrderFilled(bytes32 indexed
/// orderId, address indexed solver, uint128 amountInToRelease, uint128
/// amountOutFilled)`, `CancelRequested(bytes32 indexed orderId, uint32
/// cancelRequestedAt)`, `RefundClaimed(bytes32 indexed orderId, address
/// indexed sender, uint128 amountInRefunded)`, `OrderCompleted(bytes32
/// orderId)`.
pub open spec fn topic_count(k: EvmEventKind) -> nat {
    match k {
        EvmEventKind::OrderOpened => 4,
        EvmEventKind::OrderFilled => 3,
        EvmEventKind::CancelRequested => 2,
        EvmEventKind::RefundClaimed => 3,
        EvmEventKind::OrderCompleted => 1,
    }
}

/// The number of data words of each event (its fields that are not
/// indexed).
pub open spec fn word_count(k: EvmEventKind) -> nat {
    match k {
        EvmEventKind::OrderOpened => 5,
        EvmEventKind::OrderFilled => 2,
        EvmEventKind::CancelRequested => 1,
        EvmEventKind::RefundClaimed => 1,
        EvmEventKind::OrderCompleted => 1,
    }
}

/// The topics of a log as byte strings.
pub open spec fn topic_words(topics: Seq<[u8; 32]>) -> Seq<Seq<u8>> {
    topics.map_values(|t: [u8; 32]| t@)
}

/// The `i`-th 32-byte word of `data`.
pub open spec fn abi_word(data: Seq<u8>, i: int) -> Seq<u8> {
    data.subrange(32 * i, 32 * i + 32)
}

/// The address a word holds: its last 20 bytes.
pub open spec fn word_address(w: Seq<u8>) -> Seq<u8> {
    w.subrange(12, 32)
}

/// The unsigned integer of `bytes` bytes a word holds: its last `bytes`
/// bytes, big-endian.
pub open spec fn word_uint(w: Seq<u8>, bytes: int) -> nat {
    be_value(w.subrange(32 - bytes, 32))
}

/// The fields of `e` are those the topics and data of a log hold.
pub open spec fn log_fields(topics: Seq<Seq<u8>>, data: Seq<u8>, e: EvmLogEvent) -> bool {
    match e {
        EvmLogEvent::OrderOpened(o) => {
            &&& o.order_id@ == topics[1]
            &&& o.dest_chain_id == word_uint(topics[2], 4)
            &&& o.solver@ == topics[3]
            &&& o.sender@ == word_address(abi_word(data, 0))
            &&& o.token_in@ == word_address(abi_word(data, 1))
            &&& o.amount_in == word_uint(abi_word(data, 2), 16)
            &&& o.token_out@ == abi_word(data, 3)
            &&& o.amount_out == word_uint(abi_word(data, 4), 16)
        },
        EvmLogEvent::OrderFilled { order_id, solver, amount_in_to_release, amount_out_filled } => {
            &&& order_id@ == topics[1]
            &&& solver@ == word_address(topics[2])
            &&& amount_in_to_release == word_uint(abi_word(data, 0), 16)
            &&& amount_out_filled == word_uint(abi_word(data, 1), 16)
        },
        EvmLogEvent::CancelRequested { order_id, cancel_requested_at } => {
            &&& order_id@ == topics[1]
            &&& cancel_requested_at == word_uint(abi_word(data, 0), 4)
        },
        EvmLogEvent::RefundClaimed { order_id, sender, amount_in_refunded } => {
            &&& order_id@ == topics[1]
            &&& sender@ == word_address(topics[2])
            &&& amount_in_refunded == word_uint(abi_word(data, 0), 16)
        },
        EvmLogEvent::OrderCompleted { order_id } => order_id@ == abi_word(data, 0),
    }
}

/// What a log with `topics` and `data` is (see `LogDecoding`).
pub open spec fn log_decoding_of(topics: Seq<Seq<u8>>, data: Seq<u8>, d: LogDecoding) -> bool {
    if topics.len() == 0 {
        d is Ignored
    } else if topics.len() > 4 {
        d is Invalid
    } else {
        match evm_event_of(topics[0]) {
            None => d is Ignored,
            Some(k) => if topics.len() == topic_count(k) && data.len() >= 32 * word_count(k) {
                d matches LogDecoding::Decoded(e) && log_event_kind(e) == k && log_fields(topics, data, e)
            } else {
                d == LogDecoding::Malformed(k)
            },
        }
    }
}

/// The address in the word of `data` at `start`.
fn read_address(data: &[u8], start: usize) -> (a: [u8; 20])
    requires
        start + 32 <= data.len(),
    ensures
        a@ == word_address(data@.subrange(start as int, start + 32)),
{
    let mut a = [0u8; 20];
    for i in 0..20
        invariant
            start + 32 <= data.len(),
            a@.len() == 20,
            forall|j: int| 0 <= j < i ==> a@[j] == data@[start + 12 + j],
    {
        a[i] = data[start + 12 + i];
    }
    proof {
        assert(a@ =~= word_address(data@.subrange(start as int, start + 32)));
    }
    a
}

/// The `uint128` in the word of `data` at `start`.
fn read_u128_word(data: &[u8], start: usize) -> (v: u128)
    requires
        start + 32 <= data.len(),
    ensures
        v == word_uint(data@.subrange(start as int, start + 32), 16),
{
    let v = read_be(data, start + 16, 16);
    proof {
        assert(data@.subrange(start as int, start + 32).subrange(16, 32) =~= data@.subrange(
            start + 16,
            start + 32,
        ));
    }
    v
}

/// The `uint32` in the word of `data` at `start`.
fn read_u32_word(data: &[u8], start: usize) -> (v: u32)
    requires
        start + 32 <= data.len(),
    ensures
        v == word_uint(data@.subrange(start as int, start + 32), 4),
{
    let v = read_be(data, start + 28, 4);
    proof {
        assert(data@.subrange(start as int, start + 32).subrange(28, 32) =~= data@.subrange(
            start + 28,
            start + 32,
        ));
        crate::bytes::lemma_be_value_bound(data@.subrange(start + 28, start + 32));
        assert(crate::bytes::pow256(4) == 0x1_0000_0000) by {
            reveal_with_fuel(crate::bytes::pow256, 5);
        }
    }
    v as u32
}

/// Decodes a log of the order book (see `log_decoding_of`).
pub fn decode_evm_log(topics: &Vec<[u8; 32]>, data: &Vec<u8>) -> (d: LogDecoding)
    ensures
        log_decoding_of(topic_words(topics@), data@, d),
{
    let ghost ts = topics@.map_values(|t: [u8; 32]| t@);
    let n = topics.len();
    if n == 0 {
        return LogDecoding::Ignored;
    }
    if n > 4 {
        return LogDecoding::Invalid;
    }
    let kind = match evm_event_kind(&topics[0]) {
        Some(k) => k,
        None => return LogDecoding::Ignored,
    };
    assert(ts[0] == topics@[0]@);
    let d = data.as_slice();
    match kind {
        EvmEventKind::OrderOpened => {
            if n != 4 || data.len() < 160 {
                return LogDecoding::Malformed(kind);
            }
            let sender = read_address(d, 0);
            let token_in = read_address(d, 32);
            let amount_in = read_u128_word(d, 64);
            let token_out = read_bytes32(d, 96);
            let amount_out = read_u128_word(d, 128);
            let dest_chain_id = read_u32_word(topics[2].as_slice(), 0);
            proof {
                assert(topics@[2]@.subrange(0, 32) =~= topics@[2]@);
            }
            LogDecoding::Decoded(
                EvmLogEvent::OrderOpened(
                    EvmOrderOpened {
                        order_id: topics[1],
                        sender,
                        token_in,
                        amount_in,
                        dest_chain_id,
                        token_out,
                        amount_out,
                        solver: topics[3],
                    },
                ),
            )
        },
        EvmEventKind::OrderFilled => {
            if n != 3 || data.len() < 64 {
                return LogDecoding::Malformed(kind);
            }
            let solver = read_address(topics[2].as_slice(), 0);
            let amount_in_to_release = read_u128_word(d, 0);
            let amount_out_filled = read_u128_word(d, 32);
            proof {
                assert(topics@[2]@.subrange(0, 32) =~= topics@[2]@);
            }
            LogDecoding::Decoded(
                EvmLogEvent::OrderFilled {
                    order_id: topics[1],
                    solver,
                    amount_in_to_release,
                    amount_out_filled,
                },
            )
        },
        EvmEventKind::CancelRequested => {
            if n != 2 || data.len() < 32 {
                return LogDecoding::Malformed(kind);
            }
            let cancel_requested_at = read_u32_word(d, 0);
            LogDecoding::Decoded(EvmLogEvent::CancelRequested { order_id: topics[1], cancel_requested_at })
        },
        EvmEventKind::RefundClaimed => {
            if n != 3 || data.len() < 32 {
                return LogDecoding::Malformed(kind);
            }
            let sender = read_address(topics[2].as_slice(), 0);
            let amount_in_refunded = read_u128_word(d, 0);
            proof {
                assert(topics@[2]@.subrange(0, 32) =~= topics@[2]@);
            }
            LogDecoding::Decoded(
                EvmLogEvent::RefundClaimed { order_id: topics[1], sender, amount_in_refunded },
            )
        },
        EvmEventKind::OrderCompleted => {
            if n != 1 || data.len() < 32 {
                return LogDecoding::Malformed(kind);
            }
            let order_id = read_bytes32(d, 0);
            LogDecoding::Decoded(EvmLogEvent::OrderCompleted { order_id })
        },
    }
}


/// `event` is the solver event the decoded log `e` of transaction
/// `transaction_hash` becomes: a fill of the amount out filled, a cancel
/// request at its time, a refund to the sender (a `0x` address), a
/// completion, each with the order id in plain hexadecimal; none for an
/// opened order, whose order needs the order book's record of it (see
/// `order_created_from_evm`).
pub open spec fn log_event_of(e: EvmLogEvent, transaction_hash: String, event: Option<SolverEvent>) -> bool {
    match e {
        EvmLogEvent::OrderOpened(_) => event is None,
        EvmLogEvent::OrderFilled { order_id, amount_out_filled, .. } => event matches Some(
            SolverEvent::OrderFill(f),
        ) && f.order_id@ == hex_text(order_id@) && f.amount == amount_out_filled && f.transaction_hash
            == transaction_hash,
        EvmLogEvent::CancelRequested { order_id, cancel_requested_at } => event matches Some(
            SolverEvent::OrderCancelRequest(c),
        ) && c.order_id@ == hex_text(order_id@) && c.requested_at == cancel_requested_at as u64
            && c.transaction_hash == transaction_hash,
        EvmLogEvent::RefundClaimed { order_id, sender, amount_in_refunded } => event matches Some(
            SolverEvent::OrderRefundClaimed(r),
        ) && r.order_id@ == hex_text(order_id@) && r.sender@ == hex_0x(sender@) && r.amount_refunded
            == amount_in_refunded && r.transaction_hash == transaction_hash,
        EvmLogEvent::OrderCompleted { order_id } => event matches Some(SolverEvent::OrderCompleted(c))
            && c.order_id@ == hex_text(order_id@) && c.transaction_hash == transaction_hash,
    }
}

/// The solver event of a decoded log (see `log_event_of`).
pub fn log_solver_event(e: &EvmLogEvent, transaction_hash: String) -> (event: Option<SolverEvent>)
    ensures
        log_event_of(*e, transaction_hash, event),
{
    match e {
        EvmLogEvent::OrderOpened(_) => None,
        EvmLogEvent::OrderFilled { order_id, amount_out_filled, .. } => Some(
            fill_event(order_id, *amount_out_filled, transaction_hash),
        ),
        EvmLogEvent::CancelRequested { order_id, cancel_requested_at } => Some(
            cancel_request_event(order_id, *cancel_requested_at as u64, transaction_hash),
        ),
        EvmLogEvent::RefundClaimed { order_id, sender, amount_in_refunded } => Some(
            evm_refund_event(order_id, sender, *amount_in_refunded, transaction_hash),
        ),
        EvmLogEvent::OrderCompleted { order_id } => Some(completed_event(order_id, transaction_hash)),
    }
}

/// The solver event of a log of transaction `transaction_hash`: the log
/// is decoded (see `log_decoding_of`), and a decoded event becomes its
/// solver event (see `log_event_of`); a log that does not decode gives
/// none.
pub fn evm_log_event(topics: &Vec<[u8; 32]>, data: &Vec<u8>, transaction_hash: String) -> (event: Option<SolverEvent>)
    ensures
        exists|d: LogDecoding|
            #[trigger] log_decoding_of(topic_words(topics@), data@, d) && match d {
                LogDecoding::Decoded(e) => log_event_of(e, transaction_hash, event),
                _ => event is None,
            },
{
    let d = decode_evm_log(topics, data);
    match d {
        LogDecoding::Decoded(e) => log_solver_event(&e, transaction_hash),
        _ => None,
    }
}

} // verus!
