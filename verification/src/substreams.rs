//! The order-book events as the indexing modules emit them, and the framing
//! those modules read them from: the events the Solana program emits
//! through self-invocation, and the logs of the EVM order book.
use vstd::prelude::*;
use crate::bytes::{base58_encode, base58_encoding};
use crate::quoter::transactions::{encode_hex_0x, hex_0x};
use crate::solver::program_events::cpi_event_prefix;
use crate::text::{decimal, parse_u128, u128_numeral, u128_to_decimal};

verus! {

/// A cancellation reported back to the origin chain.
#[derive(Debug, Clone, PartialEq)]
pub struct CancelReported {
    pub id: String,
    pub ts: u64,
    pub chain_id: u32,
    pub transaction_hash: String,
    pub order_id: String,
}

/// A fill reported back to the origin chain.
#[derive(Debug, Clone, PartialEq)]
pub struct FillReported {
    pub id: String,
    pub ts: u64,
    pub chain_id: u32,
    pub transaction_hash: String,
    pub order_id: String,
    pub amount_in_to_release: u64,
    pub amount_out_filled: u64,
    pub origin_recipient: String,
}

/// An order cancelled.
#[derive(Debug, Clone, PartialEq)]
pub struct OrderCancelled {
    pub id: String,
    pub ts: u64,
    pub chain_id: u32,
    pub transaction_hash: String,
    pub order_id: String,
}

/// An order completed.
#[derive(Debug, Clone, PartialEq)]
pub struct OrderCompleted {
    pub id: String,
    pub ts: u64,
    pub chain_id: u32,
    pub transaction_hash: String,
    pub order_id: String,
}

/// An order (partly) filled.
#[derive(Debug, Clone, PartialEq)]
pub struct OrderFilled {
    pub id: String,
    pub ts: u64,
    pub chain_id: u32,
    pub transaction_hash: String,
    pub order_id: String,
    pub solver: String,
    pub amount_in_to_release: u64,
    pub amount_out_filled: u64,
}

/// An order opened.
#[derive(Debug, Clone, PartialEq)]
pub struct OrderOpened {
    pub id: String,
    pub ts: u64,
    pub chain_id: u32,
    pub transaction_hash: String,
    pub order_id: String,
    pub sender: String,
    pub token_in: String,
    pub amount_in: u64,
    pub dest_chain_id: u32,
    pub token_out: String,
    pub amount_out: u64,
    pub solver: String,
}

/// A refund claimed.
#[derive(Debug, Clone, PartialEq)]
pub struct RefundClaimed {
    pub id: String,
    pub ts: u64,
    pub chain_id: u32,
    pub transaction_hash: String,
    pub order_id: String,
    pub sender: String,
    pub amount: u64,
}

/// The events of one block, by kind.
#[derive(Debug, Clone)]
pub struct Data {
    pub cancel_reported_event_list: Vec<CancelReported>,
    pub fill_reported_event_list: Vec<FillReported>,
    pub order_cancelled_event_list: Vec<OrderCancelled>,
    pub order_completed_event_list: Vec<OrderCompleted>,
    pub order_filled_event_list: Vec<OrderFilled>,
    pub order_opened_event_list: Vec<OrderOpened>,
    pub refund_claimed_event_list: Vec<RefundClaimed>,
}

impl Default for Data {
    /// A block without events.
    fn default() -> (d: Self)
        ensures
            d.cancel_reported_event_list@.len() == 0,
            d.fill_reported_event_list@.len() == 0,
            d.order_cancelled_event_list@.len() == 0,
            d.order_completed_event_list@.len() == 0,
            d.order_filled_event_list@.len() == 0,
            d.order_opened_event_list@.len() == 0,
            d.refund_claimed_event_list@.len() == 0,
    {
        Data {
            cancel_reported_event_list: Vec::new(),
            fill_reported_event_list: Vec::new(),
            order_cancelled_event_list: Vec::new(),
            order_completed_event_list: Vec::new(),
            order_filled_event_list: Vec::new(),
            order_opened_event_list: Vec::new(),
            refund_claimed_event_list: Vec::new(),
        }
    }
}

/// A 32-byte value as `0x` and its hexadecimal digits.
pub fn encode_hex(data: [u8; 32]) -> (text: String)
    ensures
        text@ == hex_0x(data@),
{
    encode_hex_0x(&data)
}

/// The chain id a module is given as text: its value where it is a `u32`
/// numeral, zero otherwise.
pub open spec fn parse_chain_id_of(text: Seq<char>) -> u32 {
    match u128_numeral(text) {
        Some(v) => if v <= u32::MAX {
            v as u32
        } else {
            0
        },
        None => 0,
    }
}

/// The chain id a module is given as text (see `parse_chain_id_of`).
pub fn parse_chain_id(text: &str) -> (chain_id: u32)
    ensures
        chain_id == parse_chain_id_of(text@),
{
    match parse_u128(text) {
        Some(v) => if v <= u32::MAX as u128 {
            v as u32
        } else {
            0
        },
        None => 0,
    }
}

/// The id of an event: the transaction's hash and, after a colon, the
/// event's position counted from one.
pub open spec fn event_id_text(transaction_hash: Seq<char>, index: nat) -> Seq<char> {
    transaction_hash + ":"@ + decimal(index + 1)
}

/// The id of the event at `index` (from zero) of a transaction.
pub fn event_id(transaction_hash: &str, index: usize) -> (id: String)
    requires
        index < usize::MAX,
    ensures
        id@ == event_id_text(transaction_hash@, index as nat),
{
    let n = u128_to_decimal(index as u128 + 1);
    transaction_hash.to_owned().concat(":").concat(n.as_str())
}

/// The seconds of a block's time, zero where the block has none.
pub open spec fn block_timestamp_of(block_time: Option<i64>) -> u64 {
    match block_time {
        Some(t) => t as u64,
        None => 0,
    }
}

/// The seconds of a block's time (see `block_timestamp_of`).
pub fn block_timestamp(block_time: Option<i64>) -> (ts: u64)
    ensures
        ts == block_timestamp_of(block_time),
{
    match block_time {
        Some(t) => t as u64,
        None => 0,
    }
}

/// The data of the instructions that carry emitted events, without the
/// event prefix, in order.
pub open spec fn cpi_payloads(datas: Seq<Seq<u8>>) -> Seq<Seq<u8>>
    decreases datas.len(),
{
    if datas.len() == 0 {
        Seq::empty()
    } else {
        let rest = cpi_payloads(datas.drop_last());
        let d = datas.last();
        if d.len() >= 8 && d.subrange(0, 8) == cpi_event_prefix() {
            rest.push(d.subrange(8, d.len() as int))
        } else {
            rest
        }
    }
}

pub(crate) fn has_cpi_prefix(d: &Vec<u8>) -> (found: bool)
    ensures
        found == (d@.len() >= 8 && d@.subrange(0, 8) == cpi_event_prefix()),
{
    if d.len() < 8 {
        return false;
    }
    let prefix: [u8; 8] = [228, 69, 165, 46, 81, 203, 154, 29];
    let mut i: usize = 0;
    while i < 8
        invariant
            i <= 8,
            d@.len() >= 8,
            prefix@ == cpi_event_prefix(),
            forall|j: int| 0 <= j < i ==> d@[j] == prefix@[j],
        decreases 8 - i,
    {
        if d[i] != prefix[i] {
            proof {
                if d@.subrange(0, 8) == cpi_event_prefix() {
                    assert(d@.subrange(0, 8)[i as int] == d@[i as int]);
                }
            }
            return false;
        }
        i = i + 1;
    }
    proof {
        assert(d@.subrange(0, 8) =~= cpi_event_prefix());
    }
    true
}

/// The emitted events among a transaction's inner instructions (see
/// `cpi_payloads`).
pub fn cpi_event_payloads(datas: &Vec<Vec<u8>>) -> (payloads: Vec<Vec<u8>>)
    ensures
        payloads@.map_values(|p: Vec<u8>| p@) == cpi_payloads(datas@.map_values(|d: Vec<u8>| d@)),
{
    let ghost all = datas@.map_values(|d: Vec<u8>| d@);
    let n = datas.len();
    let mut out: Vec<Vec<u8>> = Vec::new();
    for i in 0..n
        invariant
            n == datas@.len(),
            all == datas@.map_values(|d: Vec<u8>| d@),
            out@.map_values(|p: Vec<u8>| p@) == cpi_payloads(all.subrange(0, i as int)),
    {
        proof {
            assert(all.subrange(0, i + 1).drop_last() =~= all.subrange(0, i as int));
        }
        let d = &datas[i];
        if has_cpi_prefix(d) {
            let ghost before = out@;
            let rest = vstd::slice::slice_subrange(d.as_slice(), 8, d.len());
            let payload = vstd::slice::slice_to_vec(rest);
            out.push(payload);
            proof {
                assert(out@.map_values(|p: Vec<u8>| p@) =~= before.map_values(|p: Vec<u8>| p@).push(
                    d@.subrange(8, d@.len() as int),
                ));
            }
        }
    }
    proof {
        assert(all.subrange(0, n as int) =~= all);
    }
    out
}

/// Splits an event's payload into its eight-byte discriminator and its
/// fields.
pub fn split_discriminator(payload: &[u8]) -> (parts: (Vec<u8>, Vec<u8>))
    requires
        payload@.len() >= 8,
    ensures
        parts.0@ == payload@.subrange(0, 8),
        parts.1@ == payload@.subrange(8, payload@.len() as int),
{
    let head = vstd::slice::slice_to_vec(vstd::slice::slice_subrange(payload, 0, 8));
    let tail = vstd::slice::slice_to_vec(vstd::slice::slice_subrange(payload, 8, payload.len()));
    (head, tail)
}

/// The address of the EVM order book whose logs the module reads.
pub open spec fn evm_orderbook_contract() -> Seq<u8> {
    seq![
        0xe3u8, 0x9bu8, 0x01u8, 0x2au8, 0xb3u8, 0xb2u8, 0x0eu8, 0x94u8, 0xa9u8, 0xbeu8,
        0xeau8, 0x55u8, 0x7eu8, 0xb0u8, 0xdeu8, 0x41u8, 0x71u8, 0xd4u8, 0xd3u8, 0xe4u8,
    ]
}

/// Whether a log comes from the order book.
pub fn is_orderbook_log(address: &[u8]) -> (found: bool)
    ensures
        found == (address@ == evm_orderbook_contract()),
{
    let contract: [u8; 20] = [
        0xe3, 0x9b, 0x01, 0x2a, 0xb3, 0xb2, 0x0e, 0x94, 0xa9, 0xbe, 0xea, 0x55, 0x7e, 0xb0, 0xde,
        0x41, 0x71, 0xd4, 0xd3, 0xe4,
    ];
    if address.len() != 20 {
        return false;
    }
    let mut i: usize = 0;
    while i < 20
        invariant
            i <= 20,
            address@.len() == 20,
            contract@ == evm_orderbook_contract(),
            forall|j: int| 0 <= j < i ==> address@[j] == contract@[j],
        decreases 20 - i,
    {
        if address[i] != contract[i] {
            return false;
        }
        i = i + 1;
    }
    proof {
        assert(address@ =~= evm_orderbook_contract());
    }
    true
}

/// The hash of an EVM transaction as `0x` and its hexadecimal digits.
pub fn evm_transaction_hash(hash: &[u8]) -> (text: String)
    ensures
        text@ == hex_0x(hash@),
{
    encode_hex_0x(hash)
}

/// A Solana order-book event as the program's interface decodes it, in
/// plain values (keys and ids as their 32 bytes).
#[derive(Debug, Clone, Copy)]
pub enum ProgramRecordEvent {
    CancelReported { order_id: [u8; 32] },
    FillReported {
        order_id: [u8; 32],
        amount_in_to_release: u128,
        amount_out_filled: u128,
        origin_recipient: [u8; 32],
    },
    OrderCancelled { order_id: [u8; 32] },
    OrderCompleted { order_id: [u8; 32] },
    OrderFilled {
        order_id: [u8; 32],
        solver: [u8; 32],
        amount_in_to_release: u128,
        amount_out_filled: u128,
    },
    OrderOpened {
        order_id: [u8; 32],
        sender: [u8; 32],
        token_in: [u8; 32],
        amount_in: u64,
        dest_chain_id: u32,
        token_out: [u8; 32],
        amount_out: u128,
        solver: [u8; 32],
    },
    RefundClaimed { order_id: [u8; 32], sender: [u8; 32], amount: u64 },
}

/// One record of the module's output.
#[derive(Debug, Clone)]
pub enum Record {
    CancelReported(CancelReported),
    FillReported(FillReported),
    OrderCancelled(OrderCancelled),
    OrderCompleted(OrderCompleted),
    OrderFilled(OrderFilled),
    OrderOpened(OrderOpened),
    RefundClaimed(RefundClaimed),
}

/// The record of the event at `index` of a transaction, on chain
/// `chain_id`, in a block of time `ts`: its id is the transaction hash and
/// the position from one; ids, output tokens, solvers of opened orders and
/// origin recipients are `0x` hexadecimal, Solana keys base58, and the
/// `u128` amounts are cut to their low 64 bits.
pub open spec fn svm_record_of(
    chain_id: u32,
    ts: u64,
    tx: Seq<char>,
    index: nat,
    event: ProgramRecordEvent,
    r: Record,
) -> bool {
    let id = event_id_text(tx, index);
    match event {
        ProgramRecordEvent::CancelReported { order_id } => r matches Record::CancelReported(c) && c.id@ == id
            && c.ts == ts && c.chain_id == chain_id && c.transaction_hash@ == tx && c.order_id@ == hex_0x(
            order_id@,
        ),
        ProgramRecordEvent::FillReported {
            order_id,
            amount_in_to_release,
            amount_out_filled,
            origin_recipient,
        } => r matches Record::FillReported(c) && c.id@ == id && c.ts == ts && c.chain_id == chain_id
            && c.transaction_hash@ == tx && c.order_id@ == hex_0x(order_id@) && c.amount_in_to_release
            == amount_in_to_release as u64 && c.amount_out_filled == amount_out_filled as u64
            && c.origin_recipient@ == hex_0x(origin_recipient@),
        ProgramRecordEvent::OrderCancelled { order_id } => r matches Record::OrderCancelled(c) && c.id@ == id
            && c.ts == ts && c.chain_id == chain_id && c.transaction_hash@ == tx && c.order_id@ == hex_0x(
            order_id@,
        ),
        ProgramRecordEvent::OrderCompleted { order_id } => r matches Record::OrderCompleted(c) && c.id@ == id
            && c.ts == ts && c.chain_id == chain_id && c.transaction_hash@ == tx && c.order_id@ == hex_0x(
            order_id@,
        ),
        ProgramRecordEvent::OrderFilled { order_id, solver, amount_in_to_release, amount_out_filled } => r matches Record::OrderFilled(
            c,
        ) && c.id@ == id && c.ts == ts && c.chain_id == chain_id && c.transaction_hash@ == tx
            && c.order_id@ == hex_0x(order_id@) && c.solver@ == base58_encoding(solver@)
            && c.amount_in_to_release == amount_in_to_release as u64 && c.amount_out_filled
            == amount_out_filled as u64,
        ProgramRecordEvent::OrderOpened {
            order_id,
            sender,
            token_in,
            amount_in,
            dest_chain_id,
            token_out,
            amount_out,
            solver,
        } => r matches Record::OrderOpened(c) && c.id@ == id && c.ts == ts && c.chain_id == chain_id
            && c.transaction_hash@ == tx && c.order_id@ == hex_0x(order_id@) && c.sender@
            == base58_encoding(sender@) && c.token_in@ == base58_encoding(token_in@) && c.amount_in
            == amount_in && c.dest_chain_id == dest_chain_id && c.token_out@ == hex_0x(token_out@)
            && c.amount_out == amount_out as u64 && c.solver@ == hex_0x(solver@),
        ProgramRecordEvent::RefundClaimed { order_id, sender, amount } => r matches Record::RefundClaimed(c)
            && c.id@ == id && c.ts == ts && c.chain_id == chain_id && c.transaction_hash@ == tx
            && c.order_id@ == hex_0x(order_id@) && c.sender@ == base58_encoding(sender@) && c.amount
            == amount,
    }
}

/// The record of a Solana order-book event (see `svm_record_of`).
pub fn svm_record(
    chain_id: u32,
    ts: u64,
    transaction_hash: &str,
    index: usize,
    event: ProgramRecordEvent,
) -> (r: Record)
    requires
        index < usize::MAX,
    ensures
        svm_record_of(chain_id, ts, transaction_hash@, index as nat, event, r),
{
    let id = event_id(transaction_hash, index);
    let tx = transaction_hash.to_owned();
    match event {
        ProgramRecordEvent::CancelReported { order_id } => Record::CancelReported(
            CancelReported { id, ts, chain_id, transaction_hash: tx, order_id: encode_hex(order_id) },
        ),
        ProgramRecordEvent::FillReported {
            order_id,
            amount_in_to_release,
            amount_out_filled,
            origin_recipient,
        } => Record::FillReported(
            FillReported {
                id,
                ts,
                chain_id,
                transaction_hash: tx,
                order_id: encode_hex(order_id),
                amount_in_to_release: amount_in_to_release as u64,
                amount_out_filled: amount_out_filled as u64,
                origin_recipient: encode_hex(origin_recipient),
            },
        ),
        ProgramRecordEvent::OrderCancelled { order_id } => Record::OrderCancelled(
            OrderCancelled { id, ts, chain_id, transaction_hash: tx, order_id: encode_hex(order_id) },
        ),
        ProgramRecordEvent::OrderCompleted { order_id } => Record::OrderCompleted(
            OrderCompleted { id, ts, chain_id, transaction_hash: tx, order_id: encode_hex(order_id) },
        ),
        ProgramRecordEvent::OrderFilled { order_id, solver, amount_in_to_release, amount_out_filled } => Record::OrderFilled(
            OrderFilled {
                id,
                ts,
                chain_id,
                transaction_hash: tx,
                order_id: encode_hex(order_id),
                solver: base58_encode(&solver),
                amount_in_to_release: amount_in_to_release as u64,
                amount_out_filled: amount_out_filled as u64,
            },
        ),
        ProgramRecordEvent::OrderOpened {
            order_id,
            sender,
            token_in,
            amount_in,
            dest_chain_id,
            token_out,
            amount_out,
            solver,
        } => Record::OrderOpened(
            OrderOpened {
                id,
                ts,
                chain_id,
                transaction_hash: tx,
                order_id: encode_hex(order_id),
                sender: base58_encode(&sender),
                token_in: base58_encode(&token_in),
                amount_in,
                dest_chain_id,
                token_out: encode_hex(token_out),
                amount_out: amount_out as u64,
                solver: encode_hex(solver),
            },
        ),
        ProgramRecordEvent::RefundClaimed { order_id, sender, amount } => Record::RefundClaimed(
            RefundClaimed {
                id,
                ts,
                chain_id,
                transaction_hash: tx,
                order_id: encode_hex(order_id),
                sender: base58_encode(&sender),
                amount,
            },
        ),
    }
}

/// Adds a record to the block's output, at the end of its kind's list.
pub fn push_record(data: &mut Data, r: Record)
    ensures
        match r {
            Record::CancelReported(c) => final(data).cancel_reported_event_list@ == old(data).cancel_reported_event_list@.push(c),
            Record::FillReported(c) => final(data).fill_reported_event_list@ == old(data).fill_reported_event_list@.push(c),
            Record::OrderCancelled(c) => final(data).order_cancelled_event_list@ == old(data).order_cancelled_event_list@.push(c),
            Record::OrderCompleted(c) => final(data).order_completed_event_list@ == old(data).order_completed_event_list@.push(c),
            Record::OrderFilled(c) => final(data).order_filled_event_list@ == old(data).order_filled_event_list@.push(c),
            Record::OrderOpened(c) => final(data).order_opened_event_list@ == old(data).order_opened_event_list@.push(c),
            Record::RefundClaimed(c) => final(data).refund_claimed_event_list@ == old(data).refund_claimed_event_list@.push(c),
        },
        !(r is CancelReported) ==> final(data).cancel_reported_event_list == old(data).cancel_reported_event_list,
        !(r is FillReported) ==> final(data).fill_reported_event_list == old(data).fill_reported_event_list,
        !(r is OrderCancelled) ==> final(data).order_cancelled_event_list == old(data).order_cancelled_event_list,
        !(r is OrderCompleted) ==> final(data).order_completed_event_list == old(data).order_completed_event_list,
        !(r is OrderFilled) ==> final(data).order_filled_event_list == old(data).order_filled_event_list,
        !(r is OrderOpened) ==> final(data).order_opened_event_list == old(data).order_opened_event_list,
        !(r is RefundClaimed) ==> final(data).refund_claimed_event_list == old(data).refund_claimed_event_list,
{
    match r {
        Record::CancelReported(c) => data.cancel_reported_event_list.push(c),
        Record::FillReported(c) => data.fill_reported_event_list.push(c),
        Record::OrderCancelled(c) => data.order_cancelled_event_list.push(c),
        Record::OrderCompleted(c) => data.order_completed_event_list.push(c),
        Record::OrderFilled(c) => data.order_filled_event_list.push(c),
        Record::OrderOpened(c) => data.order_opened_event_list.push(c),
        Record::RefundClaimed(c) => data.refund_claimed_event_list.push(c),
    }
}

/// An EVM order-book log as the contract's interface decodes it, in plain
/// values (amounts already as `u64`, addresses as their 20 bytes).
#[derive(Debug, Clone, Copy)]
pub enum EvmRecordEvent {
    CancelReported { order_id: [u8; 32] },
    FillReported {
        order_id: [u8; 32],
        amount_in_to_release: u64,
        amount_out_filled: u64,
        origin_recipient: [u8; 32],
    },
    OrderCancelled { order_id: [u8; 32] },
    OrderCompleted { order_id: [u8; 32] },
    OrderFilled { order_id: [u8; 32], solver: [u8; 20], amount_in_to_release: u64, amount_out_filled: u64 },
    OrderOpened {
        order_id: [u8; 32],
        sender: [u8; 20],
        token_in: [u8; 20],
        amount_in: u64,
        dest_chain_id: u32,
        token_out: [u8; 32],
        amount_out: u64,
        solver: [u8; 32],
    },
    RefundClaimed { order_id: [u8; 32], sender: [u8; 20], amount: u64 },
}

/// The record of an EVM log of the transaction at receipt `index` of a
/// block of time `ts`: its id is the transaction hash and the receipt's
/// position from one; every id, address and 32-byte value is `0x`
/// hexadecimal.
pub open spec fn evm_record_of(
    chain_id: u32,
    ts: u64,
    tx: Seq<char>,
    index: nat,
    event: EvmRecordEvent,
    r: Record,
) -> bool {
    let id = event_id_text(tx, index);
    match event {
        EvmRecordEvent::CancelReported { order_id } => r matches Record::CancelReported(c) && c.id@ == id
            && c.ts == ts && c.chain_id == chain_id && c.transaction_hash@ == tx && c.order_id@ == hex_0x(
            order_id@,
        ),
        EvmRecordEvent::FillReported { order_id, amount_in_to_release, amount_out_filled, origin_recipient } => r matches Record::FillReported(
            c,
        ) && c.id@ == id && c.ts == ts && c.chain_id == chain_id && c.transaction_hash@ == tx
            && c.order_id@ == hex_0x(order_id@) && c.amount_in_to_release == amount_in_to_release
            && c.amount_out_filled == amount_out_filled && c.origin_recipient@ == hex_0x(
            origin_recipient@,
        ),
        EvmRecordEvent::OrderCancelled { order_id } => r matches Record::OrderCancelled(c) && c.id@ == id
            && c.ts == ts && c.chain_id == chain_id && c.transaction_hash@ == tx && c.order_id@ == hex_0x(
            order_id@,
        ),
        EvmRecordEvent::OrderCompleted { order_id } => r matches Record::OrderCompleted(c) && c.id@ == id
            && c.ts == ts && c.chain_id == chain_id && c.transaction_hash@ == tx && c.order_id@ == hex_0x(
            order_id@,
        ),
        EvmRecordEvent::OrderFilled { order_id, solver, amount_in_to_release, amount_out_filled } => r matches Record::OrderFilled(
            c,
        ) && c.id@ == id && c.ts == ts && c.chain_id == chain_id && c.transaction_hash@ == tx
            && c.order_id@ == hex_0x(order_id@) && c.solver@ == hex_0x(solver@) && c.amount_in_to_release
            == amount_in_to_release && c.amount_out_filled == amount_out_filled,
        EvmRecordEvent::OrderOpened {
            order_id,
            sender,
            token_in,
            amount_in,
            dest_chain_id,
            token_out,
            amount_out,
            solver,
        } => r matches Record::OrderOpened(c) && c.id@ == id && c.ts == ts && c.chain_id == chain_id
            && c.transaction_hash@ == tx && c.order_id@ == hex_0x(order_id@) && c.sender@ == hex_0x(
            sender@,
        ) && c.token_in@ == hex_0x(token_in@) && c.amount_in == amount_in && c.dest_chain_id
            == dest_chain_id && c.token_out@ == hex_0x(token_out@) && c.amount_out == amount_out
            && c.solver@ == hex_0x(solver@),
        EvmRecordEvent::RefundClaimed { order_id, sender, amount } => r matches Record::RefundClaimed(c)
            && c.id@ == id && c.ts == ts && c.chain_id == chain_id && c.transaction_hash@ == tx
            && c.order_id@ == hex_0x(order_id@) && c.sender@ == hex_0x(sender@) && c.amount == amount,
    }
}

/// The record of an EVM order-book log (see `evm_record_of`).
pub fn evm_record(chain_id: u32, ts: u64, transaction_hash: &str, index: usize, event: EvmRecordEvent) -> (r: Record)
    requires
        index < usize::MAX,
    ensures
        evm_record_of(chain_id, ts, transaction_hash@, index as nat, event, r),
{
    let id = event_id(transaction_hash, index);
    let tx = transaction_hash.to_owned();
    match event {
        EvmRecordEvent::CancelReported { order_id } => Record::CancelReported(
            CancelReported { id, ts, chain_id, transaction_hash: tx, order_id: encode_hex(order_id) },
        ),
        EvmRecordEvent::FillReported { order_id, amount_in_to_release, amount_out_filled, origin_recipient } => Record::FillReported(
            FillReported {
                id,
                ts,
                chain_id,
                transaction_hash: tx,
                order_id: encode_hex(order_id),
                amount_in_to_release,
                amount_out_filled,
                origin_recipient: encode_hex(origin_recipient),
            },
        ),
        EvmRecordEvent::OrderCancelled { order_id } => Record::OrderCancelled(
            OrderCancelled { id, ts, chain_id, transaction_hash: tx, order_id: encode_hex(order_id) },
        ),
        EvmRecordEvent::OrderCompleted { order_id } => Record::OrderCompleted(
            OrderCompleted { id, ts, chain_id, transaction_hash: tx, order_id: encode_hex(order_id) },
        ),
        EvmRecordEvent::OrderFilled { order_id, solver, amount_in_to_release, amount_out_filled } => Record::OrderFilled(
            OrderFilled {
                id,
                ts,
                chain_id,
                transaction_hash: tx,
                order_id: encode_hex(order_id),
                solver: encode_hex_0x(&solver),
                amount_in_to_release,
                amount_out_filled,
            },
        ),
        EvmRecordEvent::OrderOpened {
            order_id,
            sender,
            token_in,
            amount_in,
            dest_chain_id,
            token_out,
            amount_out,
            solver,
        } => Record::OrderOpened(
            OrderOpened {
                id,
                ts,
                chain_id,
                transaction_hash: tx,
                order_id: encode_hex(order_id),
                sender: encode_hex_0x(&sender),
                token_in: encode_hex_0x(&token_in),
                amount_in,
                dest_chain_id,
                token_out: encode_hex(token_out),
                amount_out,
                solver: encode_hex(solver),
            },
        ),
        EvmRecordEvent::RefundClaimed { order_id, sender, amount } => Record::RefundClaimed(
            RefundClaimed {
                id,
                ts,
                chain_id,
                transaction_hash: tx,
                order_id: encode_hex(order_id),
                sender: encode_hex_0x(&sender),
                amount,
            },
        ),
    }
}


/// The position of a record's kind among the lists of `Data`.
pub open spec fn record_kind(r: Record) -> nat {
    match r {
        Record::CancelReported(_) => 0,
        Record::FillReported(_) => 1,
        Record::OrderCancelled(_) => 2,
        Record::OrderCompleted(_) => 3,
        Record::OrderFilled(_) => 4,
        Record::OrderOpened(_) => 5,
        Record::RefundClaimed(_) => 6,
    }
}

/// The records of kind `k` (below seven) that `data` holds, in order.
pub open spec fn data_list(data: Data, k: nat) -> Seq<Record> {
    if k == 0 {
        data.cancel_reported_event_list@.map_values(|c: CancelReported| Record::CancelReported(c))
    } else if k == 1 {
        data.fill_reported_event_list@.map_values(|c: FillReported| Record::FillReported(c))
    } else if k == 2 {
        data.order_cancelled_event_list@.map_values(|c: OrderCancelled| Record::OrderCancelled(c))
    } else if k == 3 {
        data.order_completed_event_list@.map_values(|c: OrderCompleted| Record::OrderCompleted(c))
    } else if k == 4 {
        data.order_filled_event_list@.map_values(|c: OrderFilled| Record::OrderFilled(c))
    } else if k == 5 {
        data.order_opened_event_list@.map_values(|c: OrderOpened| Record::OrderOpened(c))
    } else {
        data.refund_claimed_event_list@.map_values(|c: RefundClaimed| Record::RefundClaimed(c))
    }
}

/// The records of kind `k` among `records`, in order.
pub open spec fn records_of_kind(records: Seq<Record>, k: nat) -> Seq<Record> {
    records.filter(|r: Record| record_kind(r) == k)
}

proof fn lemma_records_of_kind_push(records: Seq<Record>, r: Record, k: nat)
    ensures
        records_of_kind(records.push(r), k) == if record_kind(r) == k {
            records_of_kind(records, k).push(r)
        } else {
            records_of_kind(records, k)
        },
{
    reveal(Seq::filter);
    assert(records.push(r).drop_last() =~= records);
    assert(records.push(r).last() == r);
}

/// Adds a record at the end of its kind's list (see `push_record`), as the
/// lists of kinds read it.
fn push_to_lists(data: &mut Data, r: Record)
    ensures
        forall|k: nat|
            k < 7 ==> #[trigger] data_list(*final(data), k) == if record_kind(r) == k {
                data_list(*old(data), k).push(r)
            } else {
                data_list(*old(data), k)
            },
{
    let ghost before = *data;
    let ghost rr = r;
    push_record(data, r);
    proof {
        let after = *data;
        match rr {
            Record::CancelReported(c) => assert(data_list(after, 0) =~= data_list(before, 0).push(rr)),
            Record::FillReported(c) => assert(data_list(after, 1) =~= data_list(before, 1).push(rr)),
            Record::OrderCancelled(c) => assert(data_list(after, 2) =~= data_list(before, 2).push(rr)),
            Record::OrderCompleted(c) => assert(data_list(after, 3) =~= data_list(before, 3).push(rr)),
            Record::OrderFilled(c) => assert(data_list(after, 4) =~= data_list(before, 4).push(rr)),
            Record::OrderOpened(c) => assert(data_list(after, 5) =~= data_list(before, 5).push(rr)),
            Record::RefundClaimed(c) => assert(data_list(after, 6) =~= data_list(before, 6).push(rr)),
        }
    }
}

/// A block's output: each record at the end of its kind's list, in the
/// order given.
pub fn records_data(records: Vec<Record>) -> (data: Data)
    ensures
        data_holds(data, records@),
{
    let ghost all = records@;
    let mut data = Data::default();
    let mut rest = records;
    let n = rest.len();
    let mut i: usize = 0;
    proof {
        assert forall|k: nat| k < 7 implies #[trigger] data_list(data, k) == records_of_kind(
            all.subrange(0, 0),
            k,
        ) by {
            assert(data_list(data, k) =~= Seq::<Record>::empty());
            assert(all.subrange(0, 0) =~= Seq::<Record>::empty());
        }
    }
    while i < n
        invariant
            n == all.len(),
            i <= n,
            rest@ == all.subrange(i as int, n as int),
            forall|k: nat|
                k < 7 ==> #[trigger] data_list(data, k) == records_of_kind(all.subrange(0, i as int), k),
        decreases n - i,
    {
        let r = rest.remove(0);
        proof {
            assert(r == all[i as int]);
            assert(rest@ =~= all.subrange(i + 1, n as int));
            assert(all.subrange(0, i + 1) =~= all.subrange(0, i as int).push(r));
            assert forall|k: nat| k < 7 implies records_of_kind(all.subrange(0, i + 1), k) == if record_kind(r) == k {
                records_of_kind(all.subrange(0, i as int), k).push(r)
            } else {
                records_of_kind(all.subrange(0, i as int), k)
            } by {
                lemma_records_of_kind_push(all.subrange(0, i as int), r, k);
            }
        }
        push_to_lists(&mut data, r);
        i = i + 1;
    }
    proof {
        assert(all.subrange(0, n as int) =~= all);
    }
    data
}

/// `data` holds each of `records` at the end of its kind's list, in order.
pub open spec fn data_holds(data: Data, records: Seq<Record>) -> bool {
    forall|k: nat| k < 7 ==> #[trigger] data_list(data, k) == records_of_kind(records, k)
}

/// The number of `records` whose kind is below `n`.
pub open spec fn kinds_total(records: Seq<Record>, n: nat) -> nat
    decreases n,
{
    if n == 0 {
        0
    } else {
        kinds_total(records, (n - 1) as nat) + records_of_kind(records, (n - 1) as nat).len()
    }
}

proof fn lemma_kinds_total_push(records: Seq<Record>, r: Record, n: nat)
    ensures
        kinds_total(records.push(r), n) == kinds_total(records, n) + if record_kind(r) < n {
            1nat
        } else {
            0nat
        },
    decreases n,
{
    if n > 0 {
        lemma_kinds_total_push(records, r, (n - 1) as nat);
        lemma_records_of_kind_push(records, r, (n - 1) as nat);
    }
}

proof fn lemma_kinds_total_all(records: Seq<Record>)
    ensures
        kinds_total(records, 7) == records.len(),
    decreases records.len(),
{
    if records.len() == 0 {
        reveal(Seq::filter);
        assert(kinds_total(records, 7) == 0) by {
            reveal_with_fuel(kinds_total, 8);
        }
    } else {
        let rest = records.drop_last();
        lemma_kinds_total_all(rest);
        lemma_kinds_total_push(rest, records.last(), 7);
        assert(rest.push(records.last()) =~= records);
    }
}

/// Every record of a block's output stands in exactly one list: where
/// `data` holds `records`, its lists hold as many records as there are.
pub proof fn law_each_record_in_one_list(data: Data, records: Seq<Record>)
    requires
        data_holds(data, records),
    ensures
        data.cancel_reported_event_list@.len() + data.fill_reported_event_list@.len()
            + data.order_cancelled_event_list@.len() + data.order_completed_event_list@.len()
            + data.order_filled_event_list@.len() + data.order_opened_event_list@.len()
            + data.refund_claimed_event_list@.len() == records.len(),
{
    lemma_kinds_total_all(records);
    reveal_with_fuel(kinds_total, 8);
    assert(data_list(data, 0).len() == records_of_kind(records, 0).len());
    assert(data_list(data, 1).len() == records_of_kind(records, 1).len());
    assert(data_list(data, 2).len() == records_of_kind(records, 2).len());
    assert(data_list(data, 3).len() == records_of_kind(records, 3).len());
    assert(data_list(data, 4).len() == records_of_kind(records, 4).len());
    assert(data_list(data, 5).len() == records_of_kind(records, 5).len());
    assert(data_list(data, 6).len() == records_of_kind(records, 6).len());
}

/// `records` are the records of the Solana `events`, one for one (see
/// `svm_record_of`).
pub open spec fn svm_records_of(
    chain_id: u32,
    ts: u64,
    events: Seq<(Seq<char>, nat, ProgramRecordEvent)>,
    records: Seq<Record>,
) -> bool {
    &&& records.len() == events.len()
    &&& forall|j: int|
        0 <= j < records.len() ==> svm_record_of(
            chain_id,
            ts,
            events[j].0,
            events[j].1,
            events[j].2,
            #[trigger] records[j],
        )
}

/// `records` are the records of the EVM `events`, one for one (see
/// `evm_record_of`).
pub open spec fn evm_records_of(
    chain_id: u32,
    ts: u64,
    events: Seq<(Seq<char>, nat, EvmRecordEvent)>,
    records: Seq<Record>,
) -> bool {
    &&& records.len() == events.len()
    &&& forall|j: int|
        0 <= j < records.len() ==> evm_record_of(
            chain_id,
            ts,
            events[j].0,
            events[j].1,
            events[j].2,
            #[trigger] records[j],
        )
}

/// The decoded order-book events of one Solana transaction: its id, and
/// for each event its inner instructions emit (in order), the event where
/// the program's interface decodes it.
pub struct SvmTransactionEvents {
    pub transaction_hash: String,
    pub events: Vec<Option<ProgramRecordEvent>>,
}

/// The decoded events of a transaction `tx` with their positions (from
/// zero) among all its emitted events.
pub open spec fn indexed_events<E>(tx: Seq<char>, events: Seq<Option<E>>) -> Seq<(Seq<char>, nat, E)>
    decreases events.len(),
{
    if events.len() == 0 {
        Seq::empty()
    } else {
        let rest = indexed_events(tx, events.drop_last());
        match events.last() {
            Some(e) => rest.push((tx, (events.len() - 1) as nat, e)),
            None => rest,
        }
    }
}

/// The decoded events of a Solana block, transaction after transaction.
pub open spec fn svm_block_events(txs: Seq<SvmTransactionEvents>) -> Seq<(Seq<char>, nat, ProgramRecordEvent)>
    decreases txs.len(),
{
    if txs.len() == 0 {
        Seq::empty()
    } else {
        svm_block_events(txs.drop_last()) + indexed_events(
            txs.last().transaction_hash@,
            txs.last().events@,
        )
    }
}

/// The records of a Solana block: one per decoded event, in order (see
/// `svm_record_of`).
pub fn svm_block_records(chain_id: u32, ts: u64, txs: &Vec<SvmTransactionEvents>) -> (records: Vec<Record>)
    ensures
        svm_records_of(chain_id, ts, svm_block_events(txs@), records@),
{
    let mut records: Vec<Record> = Vec::new();
    let n = txs.len();
    for i in 0..n
        invariant
            n == txs@.len(),
            svm_records_of(chain_id, ts, svm_block_events(txs@.subrange(0, i as int)), records@),
    {
        let tx = &txs[i];
        let ghost head = svm_block_events(txs@.subrange(0, i as int));
        let m = tx.events.len();
        for k in 0..m
            invariant
                m == tx.events@.len(),
                svm_records_of(
                    chain_id,
                    ts,
                    head + indexed_events(tx.transaction_hash@, tx.events@.subrange(0, k as int)),
                    records@,
                ),
        {
            let ghost sub = tx.events@.subrange(0, k as int);
            let ghost before = head + indexed_events(tx.transaction_hash@, sub);
            proof {
                assert(tx.events@.subrange(0, k + 1).drop_last() =~= sub);
            }
            match tx.events[k] {
                Some(e) => {
                    let r = svm_record(chain_id, ts, tx.transaction_hash.as_str(), k, e);
                    let ghost old_records = records@;
                    records.push(r);
                    proof {
                        lemma_svm_records_push(chain_id, ts, before, old_records, (tx.transaction_hash@, k as nat, e), r);
                        assert(head + indexed_events(tx.transaction_hash@, tx.events@.subrange(0, k + 1))
                            =~= before.push((tx.transaction_hash@, k as nat, e)));
                    }
                },
                None => {},
            }
        }
        proof {
            assert(tx.events@.subrange(0, m as int) =~= tx.events@);
            assert(txs@.subrange(0, i + 1).drop_last() =~= txs@.subrange(0, i as int));
        }
    }
    proof {
        assert(txs@.subrange(0, n as int) =~= txs@);
    }
    records
}

proof fn lemma_svm_records_push(
    chain_id: u32,
    ts: u64,
    events: Seq<(Seq<char>, nat, ProgramRecordEvent)>,
    records: Seq<Record>,
    t: (Seq<char>, nat, ProgramRecordEvent),
    r: Record,
)
    requires
        svm_records_of(chain_id, ts, events, records),
        svm_record_of(chain_id, ts, t.0, t.1, t.2, r),
    ensures
        svm_records_of(chain_id, ts, events.push(t), records.push(r)),
{
    assert forall|j: int| 0 <= j < records.push(r).len() implies svm_record_of(
        chain_id,
        ts,
        events.push(t)[j].0,
        events.push(t)[j].1,
        events.push(t)[j].2,
        #[trigger] records.push(r)[j],
    ) by {
        if j < records.len() {
            assert(records.push(r)[j] == records[j]);
            assert(events.push(t)[j] == events[j]);
        }
    }
}

/// The output of a Solana block for chain `chain_id_str` (see
/// `parse_chain_id`) at `block_time` (see `block_timestamp`): the record of
/// each decoded event, at the end of its kind's list.
pub fn svm_block_data(chain_id_str: &str, block_time: Option<i64>, txs: &Vec<SvmTransactionEvents>) -> (data: Data)
    ensures
        exists|records: Seq<Record>|
            #[trigger] svm_records_of(
                parse_chain_id_of(chain_id_str@),
                block_timestamp_of(block_time),
                svm_block_events(txs@),
                records,
            ) && data_holds(data, records),
{
    let chain_id = parse_chain_id(chain_id_str);
    let ts = block_timestamp(block_time);
    let records = svm_block_records(chain_id, ts, txs);
    let ghost rs = records@;
    let data = records_data(records);
    proof {
        assert(data_holds(data, rs));
    }
    data
}

/// One log of an EVM receipt: the emitting address and the order-book
/// event the contract's interface decodes from it, if any.
pub struct EvmLog {
    pub address: Vec<u8>,
    pub event: Option<EvmRecordEvent>,
}

/// The logs of one EVM transaction receipt, with the transaction's hash.
pub struct EvmReceiptLogs {
    pub transaction_hash: Vec<u8>,
    pub logs: Vec<EvmLog>,
}

/// The decoded events of the order book's logs in receipt `index`.
pub open spec fn receipt_events(tx: Seq<char>, index: nat, logs: Seq<EvmLog>) -> Seq<(Seq<char>, nat, EvmRecordEvent)>
    decreases logs.len(),
{
    if logs.len() == 0 {
        Seq::empty()
    } else {
        let rest = receipt_events(tx, index, logs.drop_last());
        let l = logs.last();
        if l.address@ == evm_orderbook_contract() && l.event is Some {
            rest.push((tx, index, l.event->Some_0))
        } else {
            rest
        }
    }
}

/// The decoded order-book events of an EVM block, receipt after receipt,
/// each with its transaction's hash in `0x` hexadecimal and its receipt's
/// position.
pub open spec fn evm_block_events(receipts: Seq<EvmReceiptLogs>) -> Seq<(Seq<char>, nat, EvmRecordEvent)>
    decreases receipts.len(),
{
    if receipts.len() == 0 {
        Seq::empty()
    } else {
        evm_block_events(receipts.drop_last()) + receipt_events(
            hex_0x(receipts.last().transaction_hash@),
            (receipts.len() - 1) as nat,
            receipts.last().logs@,
        )
    }
}

/// The records of an EVM block: one per decoded log of the order book, in
/// order (see `evm_record_of`).
pub fn evm_block_records(chain_id: u32, ts: u64, receipts: &Vec<EvmReceiptLogs>) -> (records: Vec<Record>)
    ensures
        evm_records_of(chain_id, ts, evm_block_events(receipts@), records@),
{
    let mut records: Vec<Record> = Vec::new();
    let n = receipts.len();
    for i in 0..n
        invariant
            n == receipts@.len(),
            evm_records_of(chain_id, ts, evm_block_events(receipts@.subrange(0, i as int)), records@),
    {
        let rcpt = &receipts[i];
        let tx = evm_transaction_hash(rcpt.transaction_hash.as_slice());
        let ghost head = evm_block_events(receipts@.subrange(0, i as int));
        let m = rcpt.logs.len();
        for k in 0..m
            invariant
                m == rcpt.logs@.len(),
                i < n,
                tx@ == hex_0x(rcpt.transaction_hash@),
                evm_records_of(
                    chain_id,
                    ts,
                    head + receipt_events(tx@, i as nat, rcpt.logs@.subrange(0, k as int)),
                    records@,
                ),
        {
            let ghost sub = rcpt.logs@.subrange(0, k as int);
            let ghost before = head + receipt_events(tx@, i as nat, sub);
            proof {
                assert(rcpt.logs@.subrange(0, k + 1).drop_last() =~= sub);
            }
            let log = &rcpt.logs[k];
            if is_orderbook_log(log.address.as_slice()) {
                match log.event {
                    Some(e) => {
                        let r = evm_record(chain_id, ts, tx.as_str(), i, e);
                        let ghost old_records = records@;
                        records.push(r);
                        proof {
                            lemma_evm_records_push(chain_id, ts, before, old_records, (tx@, i as nat, e), r);
                            assert(head + receipt_events(tx@, i as nat, rcpt.logs@.subrange(0, k + 1))
                                =~= before.push((tx@, i as nat, e)));
                        }
                    },
                    None => {},
                }
            }
        }
        proof {
            assert(rcpt.logs@.subrange(0, m as int) =~= rcpt.logs@);
            assert(receipts@.subrange(0, i + 1).drop_last() =~= receipts@.subrange(0, i as int));
        }
    }
    proof {
        assert(receipts@.subrange(0, n as int) =~= receipts@);
    }
    records
}

proof fn lemma_evm_records_push(
    chain_id: u32,
    ts: u64,
    events: Seq<(Seq<char>, nat, EvmRecordEvent)>,
    records: Seq<Record>,
    t: (Seq<char>, nat, EvmRecordEvent),
    r: Record,
)
    requires
        evm_records_of(chain_id, ts, events, records),
        evm_record_of(chain_id, ts, t.0, t.1, t.2, r),
    ensures
        evm_records_of(chain_id, ts, events.push(t), records.push(r)),
{
    assert forall|j: int| 0 <= j < records.push(r).len() implies evm_record_of(
        chain_id,
        ts,
        events.push(t)[j].0,
        events.push(t)[j].1,
        events.push(t)[j].2,
        #[trigger] records.push(r)[j],
    ) by {
        if j < records.len() {
            assert(records.push(r)[j] == records[j]);
            assert(events.push(t)[j] == events[j]);
        }
    }
}

/// The output of an EVM block for chain `chain_id_str` (see
/// `parse_chain_id`) whose time is `seconds`: the record of each decoded
/// order-book log, at the end of its kind's list.
pub fn evm_block_data(chain_id_str: &str, seconds: i64, receipts: &Vec<EvmReceiptLogs>) -> (data: Data)
    ensures
        exists|records: Seq<Record>|
            #[trigger] evm_records_of(
                parse_chain_id_of(chain_id_str@),
                seconds as u64,
                evm_block_events(receipts@),
                records,
            ) && data_holds(data, records),
{
    let chain_id = parse_chain_id(chain_id_str);
    let records = evm_block_records(chain_id, seconds as u64, receipts);
    let ghost rs = records@;
    let data = records_data(records);
    proof {
        assert(data_holds(data, rs));
    }
    data
}


/// Every field of an EVM log's record carries the like-named field of the
/// decoded log (ids, addresses and 32-byte values as `0x` hexadecimal,
/// amounts as they are), under the record's id, time, chain and
/// transaction: no two fields are exchanged.
pub proof fn law_evm_record_fields(chain_id: u32, ts: u64, tx: Seq<char>, index: nat, event: EvmRecordEvent, r: Record)
    requires
        evm_record_of(chain_id, ts, tx, index, event, r),
    ensures
        event matches EvmRecordEvent::CancelReported { order_id } ==> (r matches Record::CancelReported(c) && c.id@ == event_id_text(tx, index) && c.ts == ts && c.chain_id == chain_id && c.transaction_hash@ == tx && c.order_id@ == hex_0x(order_id@)),
        event matches EvmRecordEvent::FillReported { order_id, amount_in_to_release, amount_out_filled, origin_recipient } ==> (r matches Record::FillReported(c) && c.id@ == event_id_text(tx, index) && c.ts == ts && c.chain_id == chain_id && c.transaction_hash@ == tx && c.order_id@ == hex_0x(order_id@) && c.amount_in_to_release == amount_in_to_release && c.amount_out_filled == amount_out_filled && c.origin_recipient@ == hex_0x(origin_recipient@)),
        event matches EvmRecordEvent::OrderCancelled { order_id } ==> (r matches Record::OrderCancelled(c) && c.id@ == event_id_text(tx, index) && c.ts == ts && c.chain_id == chain_id && c.transaction_hash@ == tx && c.order_id@ == hex_0x(order_id@)),
        event matches EvmRecordEvent::OrderCompleted { order_id } ==> (r matches Record::OrderCompleted(c) && c.id@ == event_id_text(tx, index) && c.ts == ts && c.chain_id == chain_id && c.transaction_hash@ == tx && c.order_id@ == hex_0x(order_id@)),
        event matches EvmRecordEvent::OrderFilled { order_id, solver, amount_in_to_release, amount_out_filled } ==> (r matches Record::OrderFilled(c) && c.id@ == event_id_text(tx, index) && c.ts == ts && c.chain_id == chain_id && c.transaction_hash@ == tx && c.order_id@ == hex_0x(order_id@) && c.solver@ == hex_0x(solver@) && c.amount_in_to_release == amount_in_to_release && c.amount_out_filled == amount_out_filled),
        event matches EvmRecordEvent::OrderOpened { order_id, sender, token_in, amount_in, dest_chain_id, token_out, amount_out, solver } ==> (r matches Record::OrderOpened(c) && c.id@ == event_id_text(tx, index) && c.ts == ts && c.chain_id == chain_id && c.transaction_hash@ == tx && c.order_id@ == hex_0x(order_id@) && c.sender@ == hex_0x(sender@) && c.token_in@ == hex_0x(token_in@) && c.amount_in == amount_in && c.dest_chain_id == dest_chain_id && c.token_out@ == hex_0x(token_out@) && c.amount_out == amount_out && c.solver@ == hex_0x(solver@)),
        event matches EvmRecordEvent::RefundClaimed { order_id, sender, amount } ==> (r matches Record::RefundClaimed(c) && c.id@ == event_id_text(tx, index) && c.ts == ts && c.chain_id == chain_id && c.transaction_hash@ == tx && c.order_id@ == hex_0x(order_id@) && c.sender@ == hex_0x(sender@) && c.amount == amount),
{
}

/// Every field of a Solana event's record carries the like-named field of
/// the decoded event (ids and 32-byte values as `0x` hexadecimal, keys in
/// base58, `u128` amounts cut to 64 bits), under the record's id, time,
/// chain and transaction: no two fields are exchanged.
pub proof fn law_svm_record_fields(chain_id: u32, ts: u64, tx: Seq<char>, index: nat, event: ProgramRecordEvent, r: Record)
    requires
        svm_record_of(chain_id, ts, tx, index, event, r),
    ensures
        event matches ProgramRecordEvent::CancelReported { order_id } ==> (r matches Record::CancelReported(c) && c.id@ == event_id_text(tx, index) && c.ts == ts && c.chain_id == chain_id && c.transaction_hash@ == tx && c.order_id@ == hex_0x(order_id@)),
        event matches ProgramRecordEvent::FillReported { order_id, amount_in_to_release, amount_out_filled, origin_recipient } ==> (r matches Record::FillReported(c) && c.id@ == event_id_text(tx, index) && c.ts == ts && c.chain_id == chain_id && c.transaction_hash@ == tx && c.order_id@ == hex_0x(order_id@) && c.amount_in_to_release == amount_in_to_release as u64 && c.amount_out_filled == amount_out_filled as u64 && c.origin_recipient@ == hex_0x(origin_recipient@)),
        event matches ProgramRecordEvent::OrderCancelled { order_id } ==> (r matches Record::OrderCancelled(c) && c.id@ == event_id_text(tx, index) && c.ts == ts && c.chain_id == chain_id && c.transaction_hash@ == tx && c.order_id@ == hex_0x(order_id@)),
        event matches ProgramRecordEvent::OrderCompleted { order_id } ==> (r matches Record::OrderCompleted(c) && c.id@ == event_id_text(tx, index) && c.ts == ts && c.chain_id == chain_id && c.transaction_hash@ == tx && c.order_id@ == hex_0x(order_id@)),
        event matches ProgramRecordEvent::OrderFilled { order_id, solver, amount_in_to_release, amount_out_filled } ==> (r matches Record::OrderFilled(c) && c.id@ == event_id_text(tx, index) && c.ts == ts && c.chain_id == chain_id && c.transaction_hash@ == tx && c.order_id@ == hex_0x(order_id@) && c.solver@ == base58_encoding(solver@) && c.amount_in_to_release == amount_in_to_release as u64 && c.amount_out_filled == amount_out_filled as u64),
        event matches ProgramRecordEvent::OrderOpened { order_id, sender, token_in, amount_in, dest_chain_id, token_out, amount_out, solver } ==> (r matches Record::OrderOpened(c) && c.id@ == event_id_text(tx, index) && c.ts == ts && c.chain_id == chain_id && c.transaction_hash@ == tx && c.order_id@ == hex_0x(order_id@) && c.sender@ == base58_encoding(sender@) && c.token_in@ == base58_encoding(token_in@) && c.amount_in == amount_in && c.dest_chain_id == dest_chain_id && c.token_out@ == hex_0x(token_out@) && c.amount_out == amount_out as u64 && c.solver@ == hex_0x(solver@)),
        event matches ProgramRecordEvent::RefundClaimed { order_id, sender, amount } ==> (r matches Record::RefundClaimed(c) && c.id@ == event_id_text(tx, index) && c.ts == ts && c.chain_id == chain_id && c.transaction_hash@ == tx && c.order_id@ == hex_0x(order_id@) && c.sender@ == base58_encoding(sender@) && c.amount == amount),
{
}

} // verus!
