//! The order-book events the Solana program emits, as the indexing modules
//! read them from a block's transactions: each inner instruction that
//! carries an emitted event gives the event its discriminator names, with
//! its fields decoded from the Borsh form that follows.
use vstd::prelude::*;
use crate::bytes::{lemma_le_value_bound, lemma_pow256_values, le_value, read_bytes32, read_le};
use crate::program_data::{map_program_data, program_block_events, program_data_holds, program_records_of, ProgramData, ProgramRecord};
use crate::solver::program_events::{
    cpi_event_prefix, decode_event_fields, event_discriminator, event_hash, same_bytes,
    EventFields, ProgramEventKind,
};
use crate::substreams::{
    block_timestamp_of, data_holds, has_cpi_prefix, parse_chain_id_of, svm_block_data, svm_block_events,
    svm_records_of, Data, ProgramRecordEvent, Record, SvmTransactionEvents,
};

verus! {

/// The program events the indexing modules record.
#[derive(Debug, Clone, Copy, PartialEq, Eq, Structural)]
pub enum RecordEventKind {
    CancelReported,
    FillReported,
    OrderCancelled,
    OrderCompleted,
    OrderFilled,
    OrderOpened,
    RefundClaimed,
}

/// The event whose discriminator is `d`, tried in the modules' order.
pub open spec fn record_kind_with_discriminator(d: Seq<u8>) -> Option<RecordEventKind> {
    if d == event_discriminator("CancelReported"@) {
        Some(RecordEventKind::CancelReported)
    } else if d == event_discriminator("FillReported"@) {
        Some(RecordEventKind::FillReported)
    } else if d == event_discriminator("OrderCancelled"@) {
        Some(RecordEventKind::OrderCancelled)
    } else if d == event_discriminator("OrderCompleted"@) {
        Some(RecordEventKind::OrderCompleted)
    } else if d == event_discriminator("OrderFilled"@) {
        Some(RecordEventKind::OrderFilled)
    } else if d == event_discriminator("OrderOpened"@) {
        Some(RecordEventKind::OrderOpened)
    } else if d == event_discriminator("RefundClaimed"@) {
        Some(RecordEventKind::RefundClaimed)
    } else {
        None
    }
}

/// The number of bytes each event's fields take.
pub open spec fn record_fields_size(k: RecordEventKind) -> int {
    match k {
        RecordEventKind::CancelReported => 32,
        RecordEventKind::FillReported => 96,
        RecordEventKind::OrderCancelled => 32,
        RecordEventKind::OrderCompleted => 32,
        RecordEventKind::OrderFilled => 96,
        RecordEventKind::OrderOpened => 188,
        RecordEventKind::RefundClaimed => 72,
    }
}

/// The event a decoded event is.
pub open spec fn record_event_kind(e: ProgramRecordEvent) -> RecordEventKind {
    match e {
        ProgramRecordEvent::CancelReported { .. } => RecordEventKind::CancelReported,
        ProgramRecordEvent::FillReported { .. } => RecordEventKind::FillReported,
        ProgramRecordEvent::OrderCancelled { .. } => RecordEventKind::OrderCancelled,
        ProgramRecordEvent::OrderCompleted { .. } => RecordEventKind::OrderCompleted,
        ProgramRecordEvent::OrderFilled { .. } => RecordEventKind::OrderFilled,
        ProgramRecordEvent::OrderOpened { .. } => RecordEventKind::OrderOpened,
        ProgramRecordEvent::RefundClaimed { .. } => RecordEventKind::RefundClaimed,
    }
}

/// The Borsh layout of each event's fields, in declaration order, integers
/// little-endian: `b` starts with the fields of `e`. Cancel reported,
/// order cancelled, order completed: the id. Fill reported: id, amount in
/// to release, amount out filled (`u128` each), origin recipient. Order
/// filled: id, solver, amount in to release, amount out filled (`u128`
/// each). Order opened: id, sender, input token, amount in (`u64`),
/// destination chain (`u32`), output token, amount out (`u128`), solver.
/// Refund claimed: id, sender, amount (`u64`).
pub open spec fn record_layout(b: Seq<u8>, e: ProgramRecordEvent) -> bool {
    match e {
        ProgramRecordEvent::CancelReported { order_id } => order_id@ == b.subrange(0, 32),
        ProgramRecordEvent::FillReported { order_id, amount_in_to_release, amount_out_filled, origin_recipient } => {
            &&& order_id@ == b.subrange(0, 32)
            &&& amount_in_to_release == le_value(b.subrange(32, 48))
            &&& amount_out_filled == le_value(b.subrange(48, 64))
            &&& origin_recipient@ == b.subrange(64, 96)
        },
        ProgramRecordEvent::OrderCancelled { order_id } => order_id@ == b.subrange(0, 32),
        ProgramRecordEvent::OrderCompleted { order_id } => order_id@ == b.subrange(0, 32),
        ProgramRecordEvent::OrderFilled { order_id, solver, amount_in_to_release, amount_out_filled } => {
            &&& order_id@ == b.subrange(0, 32)
            &&& solver@ == b.subrange(32, 64)
            &&& amount_in_to_release == le_value(b.subrange(64, 80))
            &&& amount_out_filled == le_value(b.subrange(80, 96))
        },
        ProgramRecordEvent::OrderOpened {
            order_id,
            sender,
            token_in,
            amount_in,
            dest_chain_id,
            token_out,
            amount_out,
            solver,
        } => {
            &&& order_id@ == b.subrange(0, 32)
            &&& sender@ == b.subrange(32, 64)
            &&& token_in@ == b.subrange(64, 96)
            &&& amount_in == le_value(b.subrange(96, 104))
            &&& dest_chain_id == le_value(b.subrange(104, 108))
            &&& token_out@ == b.subrange(108, 140)
            &&& amount_out == le_value(b.subrange(140, 156))
            &&& solver@ == b.subrange(156, 188)
        },
        ProgramRecordEvent::RefundClaimed { order_id, sender, amount } => {
            &&& order_id@ == b.subrange(0, 32)
            &&& sender@ == b.subrange(32, 64)
            &&& amount == le_value(b.subrange(64, 72))
        },
    }
}

/// The event an inner instruction's data carries: the data must start with
/// the event prefix, then a known event's discriminator, then at least
/// that event's fields (anything after them is left unread); otherwise it
/// carries none.
pub open spec fn emitted_event_of(data: Seq<u8>, e: Option<ProgramRecordEvent>) -> bool {
    if data.len() < 16 || data.subrange(0, 8) != cpi_event_prefix() {
        e is None
    } else {
        match record_kind_with_discriminator(data.subrange(8, 16)) {
            None => e is None,
            Some(k) => if data.len() >= 16 + record_fields_size(k) {
                e matches Some(ev) && record_event_kind(ev) == k && record_layout(
                    data.subrange(16, data.len() as int),
                    ev,
                )
            } else {
                e is None
            },
        }
    }
}

fn has_prefix(data: &[u8]) -> (found: bool)
    requires
        data@.len() >= 16,
    ensures
        found == (data@.subrange(0, 8) == cpi_event_prefix()),
{
    let prefix: [u8; 8] = [228, 69, 165, 46, 81, 203, 154, 29];
    let head = vstd::slice::slice_subrange(data, 0, 8);
    same_bytes(head, &prefix)
}

/// The kind an emitted event's discriminator names.
fn record_kind(d: &[u8]) -> (kind: Option<RecordEventKind>)
    requires
        d@.len() == 8,
    ensures
        kind == record_kind_with_discriminator(d@),
{
    if same_bytes(d, &event_hash("CancelReported")) {
        Some(RecordEventKind::CancelReported)
    } else if same_bytes(d, &event_hash("FillReported")) {
        Some(RecordEventKind::FillReported)
    } else if same_bytes(d, &event_hash("OrderCancelled")) {
        Some(RecordEventKind::OrderCancelled)
    } else if same_bytes(d, &event_hash("OrderCompleted")) {
        Some(RecordEventKind::OrderCompleted)
    } else if same_bytes(d, &event_hash("OrderFilled")) {
        Some(RecordEventKind::OrderFilled)
    } else if same_bytes(d, &event_hash("OrderOpened")) {
        Some(RecordEventKind::OrderOpened)
    } else if same_bytes(d, &event_hash("RefundClaimed")) {
        Some(RecordEventKind::RefundClaimed)
    } else {
        None
    }
}

fn read_opened(data: &[u8]) -> (e: ProgramRecordEvent)
    requires
        data@.len() >= 16 + 188,
    ensures
        record_event_kind(e) == RecordEventKind::OrderOpened,
        record_layout(data@.subrange(16, data@.len() as int), e),
{
    let ghost b = data@.subrange(16, data@.len() as int);
    proof {
        assert forall|i: int, j: int| 0 <= i <= j <= b.len() implies #[trigger] b.subrange(i, j)
            == data@.subrange(16 + i, 16 + j) by {
            assert(b.subrange(i, j) =~= data@.subrange(16 + i, 16 + j));
        }
        lemma_le_value_bound(data@.subrange(112, 120));
        lemma_le_value_bound(data@.subrange(120, 124));
        lemma_pow256_values();
        assert(b.subrange(0, 32) == data@.subrange(16, 48));
        assert(b.subrange(32, 64) == data@.subrange(48, 80));
        assert(b.subrange(64, 96) == data@.subrange(80, 112));
        assert(b.subrange(96, 104) == data@.subrange(112, 120));
        assert(b.subrange(104, 108) == data@.subrange(120, 124));
        assert(b.subrange(108, 140) == data@.subrange(124, 156));
        assert(b.subrange(140, 156) == data@.subrange(156, 172));
        assert(b.subrange(156, 188) == data@.subrange(172, 204));
    }
    ProgramRecordEvent::OrderOpened {
        order_id: read_bytes32(data, 16),
        sender: read_bytes32(data, 48),
        token_in: read_bytes32(data, 80),
        amount_in: read_le(data, 112, 8) as u64,
        dest_chain_id: read_le(data, 120, 4) as u32,
        token_out: read_bytes32(data, 124),
        amount_out: read_le(data, 156, 16),
        solver: read_bytes32(data, 172),
    }
}

/// The event an inner instruction's data carries (see `emitted_event_of`).
pub fn decode_emitted_event(data: &[u8]) -> (e: Option<ProgramRecordEvent>)
    ensures
        emitted_event_of(data@, e),
{
    if data.len() < 16 {
        return None;
    }
    if !has_prefix(data) {
        return None;
    }
    let kind = match record_kind(vstd::slice::slice_subrange(data, 8, 16)) {
        Some(k) => k,
        None => return None,
    };
    let ghost b = data@.subrange(16, data@.len() as int);
    let n = data.len();
    match kind {
        RecordEventKind::CancelReported => {
            if n < 48 {
                return None;
            }
            proof {
                assert(b.subrange(0, 32) =~= data@.subrange(16, 48));
            }
            Some(ProgramRecordEvent::CancelReported { order_id: read_bytes32(data, 16) })
        },
        RecordEventKind::OrderCancelled => {
            if n < 48 {
                return None;
            }
            proof {
                assert(b.subrange(0, 32) =~= data@.subrange(16, 48));
            }
            Some(ProgramRecordEvent::OrderCancelled { order_id: read_bytes32(data, 16) })
        },
        RecordEventKind::OrderOpened => {
            if n < 16 + 188 {
                return None;
            }
            Some(read_opened(data))
        },
        RecordEventKind::FillReported => {
            if n < 16 + 96 {
                return None;
            }
            match decode_event_fields(ProgramEventKind::FillReported, data) {
                EventFields::FillReported(f) => Some(
                    ProgramRecordEvent::FillReported {
                        order_id: f.order_id,
                        amount_in_to_release: f.amount_in_to_release,
                        amount_out_filled: f.amount_out_filled,
                        origin_recipient: f.origin_recipient,
                    },
                ),
                _ => None,
            }
        },
        RecordEventKind::OrderCompleted => {
            if n < 16 + 32 {
                return None;
            }
            match decode_event_fields(ProgramEventKind::OrderCompleted, data) {
                EventFields::OrderCompleted(id) => Some(ProgramRecordEvent::OrderCompleted { order_id: id }),
                _ => None,
            }
        },
        RecordEventKind::OrderFilled => {
            if n < 16 + 96 {
                return None;
            }
            match decode_event_fields(ProgramEventKind::OrderFilled, data) {
                EventFields::OrderFilled(f) => Some(
                    ProgramRecordEvent::OrderFilled {
                        order_id: f.order_id,
                        solver: f.solver,
                        amount_in_to_release: f.amount_in_to_release,
                        amount_out_filled: f.amount_out_filled,
                    },
                ),
                _ => None,
            }
        },
        RecordEventKind::RefundClaimed => {
            if n < 16 + 72 {
                return None;
            }
            match decode_event_fields(ProgramEventKind::RefundClaimed, data) {
                EventFields::RefundClaimed(f) => Some(
                    ProgramRecordEvent::RefundClaimed { order_id: f.order_id, sender: f.sender, amount: f.amount },
                ),
                _ => None,
            }
        },
    }
}


/// A Solana transaction as the modules read it: its id and the data of its
/// inner instructions, in order (none where the transaction carries no
/// metadata).
pub struct SvmTransaction {
    pub transaction_hash: String,
    pub inner_instructions: Vec<Vec<u8>>,
}

/// The data of instructions as byte strings.
pub open spec fn instruction_bytes(datas: Seq<Vec<u8>>) -> Seq<Seq<u8>> {
    datas.map_values(|d: Vec<u8>| d@)
}

/// The inner instructions that carry an emitted event (by their prefix),
/// in order.
pub open spec fn cpi_instructions(datas: Seq<Seq<u8>>) -> Seq<Seq<u8>>
    decreases datas.len(),
{
    if datas.len() == 0 {
        Seq::empty()
    } else {
        let rest = cpi_instructions(datas.drop_last());
        let d = datas.last();
        if d.len() >= 8 && d.subrange(0, 8) == cpi_event_prefix() {
            rest.push(d)
        } else {
            rest
        }
    }
}

/// `events` are the events of a transaction whose inner instructions are
/// `datas`: one per instruction that carries an emitted event, in order,
/// the event it carries where it decodes (see `emitted_event_of`).
pub open spec fn transaction_events_of(datas: Seq<Seq<u8>>, events: Seq<Option<ProgramRecordEvent>>) -> bool {
    &&& events.len() == cpi_instructions(datas).len()
    &&& forall|j: int|
        0 <= j < events.len() ==> emitted_event_of(cpi_instructions(datas)[j], #[trigger] events[j])
}

proof fn lemma_transaction_events_push(
    datas: Seq<Seq<u8>>,
    d: Seq<u8>,
    events: Seq<Option<ProgramRecordEvent>>,
    e: Option<ProgramRecordEvent>,
)
    requires
        transaction_events_of(datas, events),
        d.len() >= 8 && d.subrange(0, 8) == cpi_event_prefix(),
        emitted_event_of(d, e),
    ensures
        transaction_events_of(datas.push(d), events.push(e)),
{
    assert(datas.push(d).drop_last() =~= datas);
    let c = cpi_instructions(datas.push(d));
    assert(c == cpi_instructions(datas).push(d));
    assert forall|j: int| 0 <= j < events.push(e).len() implies emitted_event_of(
        c[j],
        #[trigger] events.push(e)[j],
    ) by {
        if j < events.len() {
            assert(events.push(e)[j] == events[j]);
            assert(c[j] == cpi_instructions(datas)[j]);
        }
    }
}

/// The events of a transaction (see `transaction_events_of`).
pub fn transaction_events(tx: &SvmTransaction) -> (t: SvmTransactionEvents)
    ensures
        t.transaction_hash@ == tx.transaction_hash@,
        transaction_events_of(instruction_bytes(tx.inner_instructions@), t.events@),
{
    let ghost all = instruction_bytes(tx.inner_instructions@);
    let n = tx.inner_instructions.len();
    let mut events: Vec<Option<ProgramRecordEvent>> = Vec::new();
    proof {
        assert(all.subrange(0, 0) =~= Seq::<Seq<u8>>::empty());
    }
    for i in 0..n
        invariant
            n == tx.inner_instructions@.len(),
            all == instruction_bytes(tx.inner_instructions@),
            transaction_events_of(all.subrange(0, i as int), events@),
    {
        let d = &tx.inner_instructions[i];
        proof {
            assert(all.subrange(0, i + 1) =~= all.subrange(0, i as int).push(d@));
            assert(all.subrange(0, i + 1).drop_last() =~= all.subrange(0, i as int));
        }
        if has_cpi_prefix(d) {
            let e = decode_emitted_event(d.as_slice());
            let ghost before = events@;
            events.push(e);
            proof {
                lemma_transaction_events_push(all.subrange(0, i as int), d@, before, e);
            }
        }
    }
    proof {
        assert(all.subrange(0, n as int) =~= all);
    }
    SvmTransactionEvents { transaction_hash: tx.transaction_hash.clone(), events }
}

/// `decoded` are the events of the transactions `txs`, one for one.
pub open spec fn decoded_transactions(txs: Seq<SvmTransaction>, decoded: Seq<SvmTransactionEvents>) -> bool {
    &&& decoded.len() == txs.len()
    &&& forall|j: int|
        0 <= j < txs.len() ==> {
            &&& (#[trigger] decoded[j]).transaction_hash@ == txs[j].transaction_hash@
            &&& transaction_events_of(instruction_bytes(txs[j].inner_instructions@), decoded[j].events@)
        }
}

/// The events of a block's transactions (see `transaction_events`).
pub fn block_transaction_events(txs: &Vec<SvmTransaction>) -> (decoded: Vec<SvmTransactionEvents>)
    ensures
        decoded_transactions(txs@, decoded@),
{
    let mut decoded: Vec<SvmTransactionEvents> = Vec::new();
    let n = txs.len();
    for i in 0..n
        invariant
            n == txs@.len(),
            decoded@.len() == i,
            forall|j: int|
                0 <= j < i ==> {
                    &&& (#[trigger] decoded@[j]).transaction_hash@ == txs@[j].transaction_hash@
                    &&& transaction_events_of(
                        instruction_bytes(txs@[j].inner_instructions@),
                        decoded@[j].events@,
                    )
                },
    {
        let t = transaction_events(&txs[i]);
        decoded.push(t);
    }
    decoded
}

/// The output of the Solana events module for a block of chain
/// `chain_id_str` at `block_time`, from its transactions: the events of
/// each transaction (see `transaction_events`) become their records (see
/// `svm_block_data`).
pub fn map_svm_events(chain_id_str: &str, block_time: Option<i64>, txs: &Vec<SvmTransaction>) -> (data: Data)
    ensures
        exists|decoded: Seq<SvmTransactionEvents>|
            #[trigger] decoded_transactions(txs@, decoded) && exists|records: Seq<Record>|
                #[trigger] svm_records_of(
                    parse_chain_id_of(chain_id_str@),
                    block_timestamp_of(block_time),
                    svm_block_events(decoded),
                    records,
                ) && data_holds(data, records),
{
    let decoded = block_transaction_events(txs);
    let ghost dg = decoded@;
    let data = svm_block_data(chain_id_str, block_time, &decoded);
    proof {
        assert(decoded_transactions(txs@, dg));
    }
    data
}

/// The output of the Solana program-data module for a block, from its
/// transactions: the events of each transaction (see
/// `transaction_events`) become their records (see `map_program_data`).
/// Instructions of sixteen bytes or fewer carry no event, so they give
/// none here either.
pub fn map_program_data_of_block(txs: &Vec<SvmTransaction>) -> (data: ProgramData)
    ensures
        exists|decoded: Seq<SvmTransactionEvents>|
            #[trigger] decoded_transactions(txs@, decoded) && exists|records: Seq<ProgramRecord>|
                #[trigger] program_records_of(program_block_events(decoded), records) && program_data_holds(
                    data,
                    records,
                ),
{
    let decoded = block_transaction_events(txs);
    let ghost dg = decoded@;
    let data = map_program_data(&decoded);
    proof {
        assert(decoded_transactions(txs@, dg));
    }
    data
}

} // verus!
