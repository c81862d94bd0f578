//! The records the Solana program-data indexing module keeps of the
//! order-book events a block's transactions emit: each event with the
//! transaction it came from, sorted into one list per kind of event.
use vstd::prelude::*;
use crate::bytes::{base58_encode, base58_encoding};
use crate::quoter::transactions::hex_0x;
use crate::solver::program_events::cpi_event_prefix;
use crate::substreams::{encode_hex, has_cpi_prefix, indexed_events, ProgramRecordEvent, SvmTransactionEvents};

verus! {

/// A cancellation reported back to the origin chain.
#[derive(Debug, Clone, PartialEq)]
pub struct CancelReported {
    pub transaction_hash: String,
    pub order_id: String,
}

/// A fill reported back to the origin chain.
#[derive(Debug, Clone, PartialEq)]
pub struct FillReported {
    pub transaction_hash: String,
    pub order_id: String,
    pub amount_in_to_release: u64,
    pub amount_out_filled: u64,
    pub origin_recipient: String,
}

/// An order cancelled.
#[derive(Debug, Clone, PartialEq)]
pub struct OrderCancelled {
    pub transaction_hash: String,
    pub order_id: String,
}

/// An order completed.
#[derive(Debug, Clone, PartialEq)]
pub struct OrderCompleted {
    pub transaction_hash: String,
    pub order_id: String,
}

/// A fill of an order.
#[derive(Debug, Clone, PartialEq)]
pub struct OrderFilled {
    pub transaction_hash: String,
    pub order_id: String,
    pub solver: String,
    pub amount_in_to_release: u64,
    pub amount_out_filled: u64,
}

/// An order opened.
#[derive(Debug, Clone, PartialEq)]
pub struct OrderOpened {
    pub transaction_hash: String,
    pub order_id: String,
    pub sender: String,
    pub token_in: String,
    pub amount_in: u64,
    pub dest_chain_id: u32,
    pub token_out: String,
    pub amount_out: u64,
    pub solver: String,
}

/// A refund claimed.
#[derive(Debug, Clone, PartialEq)]
pub struct RefundClaimed {
    pub transaction_hash: String,
    pub order_id: String,
    pub sender: String,
    pub amount: u64,
}

/// The records of a block, one list per kind of event.
#[derive(Debug, Clone, PartialEq)]
pub struct ProgramData {
    pub cancel_reported_event_list: Vec<CancelReported>,
    pub fill_reported_event_list: Vec<FillReported>,
    pub order_cancelled_event_list: Vec<OrderCancelled>,
    pub order_completed_event_list: Vec<OrderCompleted>,
    pub order_filled_event_list: Vec<OrderFilled>,
    pub order_opened_event_list: Vec<OrderOpened>,
    pub refund_claimed_event_list: Vec<RefundClaimed>,
}

/// One record of the module's output.
#[derive(Debug, Clone)]
pub enum ProgramRecord {
    CancelReported(CancelReported),
    FillReported(FillReported),
    OrderCancelled(OrderCancelled),
    OrderCompleted(OrderCompleted),
    OrderFilled(OrderFilled),
    OrderOpened(OrderOpened),
    RefundClaimed(RefundClaimed),
}

/// The data of the inner instructions that carry emitted events and hold
/// more than sixteen bytes, without the event prefix, in order.
pub open spec fn program_payloads(datas: Seq<Seq<u8>>) -> Seq<Seq<u8>>
    decreases datas.len(),
{
    if datas.len() == 0 {
        Seq::empty()
    } else {
        let rest = program_payloads(datas.drop_last());
        let d = datas.last();
        if d.len() > 16 && d.subrange(0, 8) == cpi_event_prefix() {
            rest.push(d.subrange(8, d.len() as int))
        } else {
            rest
        }
    }
}

/// The emitted events among a transaction's inner instructions (see
/// `program_payloads`).
pub fn program_event_payloads(datas: &Vec<Vec<u8>>) -> (payloads: Vec<Vec<u8>>)
    ensures
        payloads@.map_values(|p: Vec<u8>| p@) == program_payloads(datas@.map_values(|d: Vec<u8>| d@)),
{
    let ghost all = datas@.map_values(|d: Vec<u8>| d@);
    let n = datas.len();
    let mut out: Vec<Vec<u8>> = Vec::new();
    for i in 0..n
        invariant
            n == datas@.len(),
            all == datas@.map_values(|d: Vec<u8>| d@),
            out@.map_values(|p: Vec<u8>| p@) == program_payloads(all.subrange(0, i as int)),
    {
        proof {
            assert(all.subrange(0, i + 1).drop_last() =~= all.subrange(0, i as int));
        }
        let d = &datas[i];
        if d.len() > 16 && has_cpi_prefix(d) {
            let ghost before = out@;
            let rest = vstd::slice::slice_subrange(d.as_slice(), 8, d.len());
            let payload = vstd::slice::slice_to_vec(rest);
            out.push(payload);
            proof {
                assert(out@.map_values(|p: Vec<u8>| p@) =~= before.map_values(|p: Vec<u8>| p@).push(
                    d@.subrange(8, d@.len() as int),
                ));
            }
        }
    }
    proof {
        assert(all.subrange(0, n as int) =~= all);
    }
    out
}

/// The record of a Solana order-book event of transaction `tx`: ids,
/// output tokens, solvers of opened orders and origin recipients are `0x`
/// hexadecimal, Solana keys base58, and the `u128` amounts are cut to their
/// low 64 bits.
pub open spec fn program_record_of(tx: Seq<char>, event: ProgramRecordEvent, r: ProgramRecord) -> bool {
    match event {
        ProgramRecordEvent::CancelReported { order_id } => r matches ProgramRecord::CancelReported(c)
            && c.transaction_hash@ == tx && c.order_id@ == hex_0x(order_id@),
        ProgramRecordEvent::FillReported {
            order_id,
            amount_in_to_release,
            amount_out_filled,
            origin_recipient,
        } => r matches ProgramRecord::FillReported(c) && c.transaction_hash@ == tx && c.order_id@
            == hex_0x(order_id@) && c.amount_in_to_release == amount_in_to_release as u64
            && c.amount_out_filled == amount_out_filled as u64 && c.origin_recipient@ == hex_0x(
            origin_recipient@,
        ),
        ProgramRecordEvent::OrderCancelled { order_id } => r matches ProgramRecord::OrderCancelled(c)
            && c.transaction_hash@ == tx && c.order_id@ == hex_0x(order_id@),
        ProgramRecordEvent::OrderCompleted { order_id } => r matches ProgramRecord::OrderCompleted(c)
            && c.transaction_hash@ == tx && c.order_id@ == hex_0x(order_id@),
        ProgramRecordEvent::OrderFilled { order_id, solver, amount_in_to_release, amount_out_filled } => r matches ProgramRecord::OrderFilled(
            c,
        ) && c.transaction_hash@ == tx && c.order_id@ == hex_0x(order_id@) && c.solver@
            == base58_encoding(solver@) && c.amount_in_to_release == amount_in_to_release as u64
            && c.amount_out_filled == amount_out_filled as u64,
        ProgramRecordEvent::OrderOpened {
            order_id,
            sender,
            token_in,
            amount_in,
            dest_chain_id,
            token_out,
            amount_out,
            solver,
        } => r matches ProgramRecord::OrderOpened(c) && c.transaction_hash@ == tx && c.order_id@
            == hex_0x(order_id@) && c.sender@ == base58_encoding(sender@) && c.token_in@
            == base58_encoding(token_in@) && c.amount_in == amount_in && c.dest_chain_id == dest_chain_id
            && c.token_out@ == hex_0x(token_out@) && c.amount_out == amount_out as u64 && c.solver@
            == hex_0x(solver@),
        ProgramRecordEvent::RefundClaimed { order_id, sender, amount } => r matches ProgramRecord::RefundClaimed(
            c,
        ) && c.transaction_hash@ == tx && c.order_id@ == hex_0x(order_id@) && c.sender@
            == base58_encoding(sender@) && c.amount == amount,
    }
}

/// The record of a Solana order-book event (see `program_record_of`).
pub fn program_record(transaction_hash: &str, event: ProgramRecordEvent) -> (r: ProgramRecord)
    ensures
        program_record_of(transaction_hash@, event, r),
{
    let tx = transaction_hash.to_owned();
    match event {
        ProgramRecordEvent::CancelReported { order_id } => ProgramRecord::CancelReported(
            CancelReported { transaction_hash: tx, order_id: encode_hex(order_id) },
        ),
        ProgramRecordEvent::FillReported {
            order_id,
            amount_in_to_release,
            amount_out_filled,
            origin_recipient,
        } => ProgramRecord::FillReported(
            FillReported {
                transaction_hash: tx,
                order_id: encode_hex(order_id),
                amount_in_to_release: amount_in_to_release as u64,
                amount_out_filled: amount_out_filled as u64,
                origin_recipient: encode_hex(origin_recipient),
            },
        ),
        ProgramRecordEvent::OrderCancelled { order_id } => ProgramRecord::OrderCancelled(
            OrderCancelled { transaction_hash: tx, order_id: encode_hex(order_id) },
        ),
        ProgramRecordEvent::OrderCompleted { order_id } => ProgramRecord::OrderCompleted(
            OrderCompleted { transaction_hash: tx, order_id: encode_hex(order_id) },
        ),
        ProgramRecordEvent::OrderFilled { order_id, solver, amount_in_to_release, amount_out_filled } => ProgramRecord::OrderFilled(
            OrderFilled {
                transaction_hash: tx,
                order_id: encode_hex(order_id),
                solver: base58_encode(&solver),
                amount_in_to_release: amount_in_to_release as u64,
                amount_out_filled: amount_out_filled as u64,
            },
        ),
        ProgramRecordEvent::OrderOpened {
            order_id,
            sender,
            token_in,
            amount_in,
            dest_chain_id,
            token_out,
            amount_out,
            solver,
        } => ProgramRecord::OrderOpened(
            OrderOpened {
                transaction_hash: tx,
                order_id: encode_hex(order_id),
                sender: base58_encode(&sender),
                token_in: base58_encode(&token_in),
                amount_in,
                dest_chain_id,
                token_out: encode_hex(token_out),
                amount_out: amount_out as u64,
                solver: encode_hex(solver),
            },
        ),
        ProgramRecordEvent::RefundClaimed { order_id, sender, amount } => ProgramRecord::RefundClaimed(
            RefundClaimed {
                transaction_hash: tx,
                order_id: encode_hex(order_id),
                sender: base58_encode(&sender),
                amount,
            },
        ),
    }
}

/// The position of a record's kind among the lists of `ProgramData`.
pub open spec fn program_record_kind(r: ProgramRecord) -> nat {
    match r {
        ProgramRecord::CancelReported(_) => 0,
        ProgramRecord::FillReported(_) => 1,
        ProgramRecord::OrderCancelled(_) => 2,
        ProgramRecord::OrderCompleted(_) => 3,
        ProgramRecord::OrderFilled(_) => 4,
        ProgramRecord::OrderOpened(_) => 5,
        ProgramRecord::RefundClaimed(_) => 6,
    }
}

/// The records of kind `k` (below seven) that `data` holds, in order.
pub open spec fn program_data_list(data: ProgramData, k: nat) -> Seq<ProgramRecord> {
    if k == 0 {
        data.cancel_reported_event_list@.map_values(|c: CancelReported| ProgramRecord::CancelReported(c))
    } else if k == 1 {
        data.fill_reported_event_list@.map_values(|c: FillReported| ProgramRecord::FillReported(c))
    } else if k == 2 {
        data.order_cancelled_event_list@.map_values(|c: OrderCancelled| ProgramRecord::OrderCancelled(c))
    } else if k == 3 {
        data.order_completed_event_list@.map_values(|c: OrderCompleted| ProgramRecord::OrderCompleted(c))
    } else if k == 4 {
        data.order_filled_event_list@.map_values(|c: OrderFilled| ProgramRecord::OrderFilled(c))
    } else if k == 5 {
        data.order_opened_event_list@.map_values(|c: OrderOpened| ProgramRecord::OrderOpened(c))
    } else {
        data.refund_claimed_event_list@.map_values(|c: RefundClaimed| ProgramRecord::RefundClaimed(c))
    }
}

/// The records of kind `k` among `records`, in order.
pub open spec fn program_records_of_kind(records: Seq<ProgramRecord>, k: nat) -> Seq<ProgramRecord> {
    records.filter(|r: ProgramRecord| program_record_kind(r) == k)
}

proof fn lemma_program_records_of_kind_push(records: Seq<ProgramRecord>, r: ProgramRecord, k: nat)
    ensures
        program_records_of_kind(records.push(r), k) == if program_record_kind(r) == k {
            program_records_of_kind(records, k).push(r)
        } else {
            program_records_of_kind(records, k)
        },
{
    reveal(Seq::filter);
    assert(records.push(r).drop_last() =~= records);
    assert(records.push(r).last() == r);
}

impl ProgramData {
    /// No records.
    pub fn new() -> (data: Self)
        ensures
            forall|k: nat| k < 7 ==> #[trigger] program_data_list(data, k) == Seq::<ProgramRecord>::empty(),
    {
        let data = ProgramData {
            cancel_reported_event_list: Vec::new(),
            fill_reported_event_list: Vec::new(),
            order_cancelled_event_list: Vec::new(),
            order_completed_event_list: Vec::new(),
            order_filled_event_list: Vec::new(),
            order_opened_event_list: Vec::new(),
            refund_claimed_event_list: Vec::new(),
        };
        proof {
            assert forall|k: nat| k < 7 implies #[trigger] program_data_list(data, k)
                =~= Seq::<ProgramRecord>::empty() by {}
        }
        data
    }

    /// Adds a record at the end of its kind's list.
    pub fn push_record(&mut self, r: ProgramRecord)
        ensures
            forall|k: nat|
                k < 7 ==> #[trigger] program_data_list(*final(self), k) == if program_record_kind(r) == k {
                    program_data_list(*old(self), k).push(r)
                } else {
                    program_data_list(*old(self), k)
                },
    {
        let ghost before = *self;
        let ghost rr = r;
        match r {
            ProgramRecord::CancelReported(c) => self.cancel_reported_event_list.push(c),
            ProgramRecord::FillReported(c) => self.fill_reported_event_list.push(c),
            ProgramRecord::OrderCancelled(c) => self.order_cancelled_event_list.push(c),
            ProgramRecord::OrderCompleted(c) => self.order_completed_event_list.push(c),
            ProgramRecord::OrderFilled(c) => self.order_filled_event_list.push(c),
            ProgramRecord::OrderOpened(c) => self.order_opened_event_list.push(c),
            ProgramRecord::RefundClaimed(c) => self.refund_claimed_event_list.push(c),
        }
        proof {
            let k = program_record_kind(rr);
            assert(program_data_list(*self, k) =~= program_data_list(before, k).push(rr));
        }
    }
}

/// The decoded events of a Solana block, transaction after transaction,
/// each with its transaction's id.
pub open spec fn program_block_events(txs: Seq<SvmTransactionEvents>) -> Seq<(Seq<char>, ProgramRecordEvent)>
    decreases txs.len(),
{
    if txs.len() == 0 {
        Seq::empty()
    } else {
        program_block_events(txs.drop_last()) + indexed_events(
            txs.last().transaction_hash@,
            txs.last().events@,
        ).map_values(|t: (Seq<char>, nat, ProgramRecordEvent)| (t.0, t.2))
    }
}

/// `records` are the records of `events`, one for one (see
/// `program_record_of`).
pub open spec fn program_records_of(events: Seq<(Seq<char>, ProgramRecordEvent)>, records: Seq<ProgramRecord>) -> bool {
    &&& records.len() == events.len()
    &&& forall|j: int|
        0 <= j < records.len() ==> program_record_of(events[j].0, events[j].1, #[trigger] records[j])
}

/// `data` holds each of `records` at the end of its kind's list, in order.
pub open spec fn program_data_holds(data: ProgramData, records: Seq<ProgramRecord>) -> bool {
    forall|k: nat| k < 7 ==> #[trigger] program_data_list(data, k) == program_records_of_kind(records, k)
}

proof fn lemma_program_records_push(
    events: Seq<(Seq<char>, ProgramRecordEvent)>,
    records: Seq<ProgramRecord>,
    t: (Seq<char>, ProgramRecordEvent),
    r: ProgramRecord,
)
    requires
        program_records_of(events, records),
        program_record_of(t.0, t.1, r),
    ensures
        program_records_of(events.push(t), records.push(r)),
{
    assert forall|j: int| 0 <= j < records.push(r).len() implies program_record_of(
        events.push(t)[j].0,
        events.push(t)[j].1,
        #[trigger] records.push(r)[j],
    ) by {
        if j < records.len() {
            assert(records.push(r)[j] == records[j]);
            assert(events.push(t)[j] == events[j]);
        }
    }
}

proof fn lemma_indexed_events_step(tx: Seq<char>, events: Seq<Option<ProgramRecordEvent>>, k: int)
    requires
        0 <= k < events.len(),
    ensures
        indexed_events(tx, events.subrange(0, k + 1)).map_values(
            |t: (Seq<char>, nat, ProgramRecordEvent)| (t.0, t.2),
        ) == match events[k] {
            Some(e) => indexed_events(tx, events.subrange(0, k)).map_values(
                |t: (Seq<char>, nat, ProgramRecordEvent)| (t.0, t.2),
            ).push((tx, e)),
            None => indexed_events(tx, events.subrange(0, k)).map_values(
                |t: (Seq<char>, nat, ProgramRecordEvent)| (t.0, t.2),
            ),
        },
{
    assert(events.subrange(0, k + 1).drop_last() =~= events.subrange(0, k));
    let before = indexed_events(tx, events.subrange(0, k));
    match events[k] {
        Some(e) => {
            assert(indexed_events(tx, events.subrange(0, k + 1)) == before.push((tx, k as nat, e)));
            assert(before.push((tx, k as nat, e)).map_values(
                |t: (Seq<char>, nat, ProgramRecordEvent)| (t.0, t.2),
            ) =~= before.map_values(|t: (Seq<char>, nat, ProgramRecordEvent)| (t.0, t.2)).push((tx, e)));
        },
        None => {},
    }
}

/// The records of a Solana block's decoded events, in order, each at the
/// end of its kind's list.
pub fn map_program_data(txs: &Vec<SvmTransactionEvents>) -> (data: ProgramData)
    ensures
        exists|records: Seq<ProgramRecord>|
            #[trigger] program_records_of(program_block_events(txs@), records) && program_data_holds(
                data,
                records,
            ),
{
    let mut data = ProgramData::new();
    let ghost mut records: Seq<ProgramRecord> = Seq::empty();
    let n = txs.len();
    proof {
        assert(program_block_events(txs@.subrange(0, 0)) =~= Seq::<(Seq<char>, ProgramRecordEvent)>::empty());
        assert forall|k: nat| k < 7 implies #[trigger] program_data_list(data, k)
            == program_records_of_kind(records, k) by {
            reveal(Seq::filter);
        }
    }
    for i in 0..n
        invariant
            n == txs@.len(),
            program_records_of(program_block_events(txs@.subrange(0, i as int)), records),
            program_data_holds(data, records),
    {
        let tx = &txs[i];
        let ghost head = program_block_events(txs@.subrange(0, i as int));
        let m = tx.events.len();
        for k in 0..m
            invariant
                m == tx.events@.len(),
                program_records_of(
                    head + indexed_events(tx.transaction_hash@, tx.events@.subrange(0, k as int)).map_values(
                        |t: (Seq<char>, nat, ProgramRecordEvent)| (t.0, t.2),
                    ),
                    records,
                ),
                program_data_holds(data, records),
        {
            let ghost before_events = head + indexed_events(
                tx.transaction_hash@,
                tx.events@.subrange(0, k as int),
            ).map_values(|t: (Seq<char>, nat, ProgramRecordEvent)| (t.0, t.2));
            proof {
                lemma_indexed_events_step(tx.transaction_hash@, tx.events@, k as int);
            }
            match tx.events[k] {
                Some(e) => {
                    let r = program_record(tx.transaction_hash.as_str(), e);
                    let ghost rr = r;
                    let ghost old_records = records;
                    proof {
                        lemma_program_records_push(before_events, old_records, (tx.transaction_hash@, e), rr);
                        assert forall|kk: nat| kk < 7 implies program_records_of_kind(old_records.push(rr), kk)
                            == if program_record_kind(rr) == kk {
                            program_records_of_kind(old_records, kk).push(rr)
                        } else {
                            program_records_of_kind(old_records, kk)
                        } by {
                            lemma_program_records_of_kind_push(old_records, rr, kk);
                        }
                        records = old_records.push(rr);
                        assert(head + indexed_events(tx.transaction_hash@, tx.events@.subrange(0, k + 1)).map_values(
                            |t: (Seq<char>, nat, ProgramRecordEvent)| (t.0, t.2),
                        ) =~= before_events.push((tx.transaction_hash@, e)));
                    }
                    data.push_record(r);
                },
                None => {
                    proof {
                        assert(head + indexed_events(tx.transaction_hash@, tx.events@.subrange(0, k + 1)).map_values(
                            |t: (Seq<char>, nat, ProgramRecordEvent)| (t.0, t.2),
                        ) =~= before_events);
                    }
                },
            }
        }
        proof {
            assert(tx.events@.subrange(0, m as int) =~= tx.events@);
            assert(txs@.subrange(0, i + 1).drop_last() =~= txs@.subrange(0, i as int));
        }
    }
    proof {
        assert(txs@.subrange(0, n as int) =~= txs@);
    }
    data
}


/// Every field of an event's record carries the like-named field of the
/// decoded event (ids and 32-byte values as `0x` hexadecimal, keys in
/// base58, `u128` amounts cut to 64 bits), under the event's transaction:
/// no two fields are exchanged.
pub proof fn law_program_record_fields(tx: Seq<char>, event: ProgramRecordEvent, r: ProgramRecord)
    requires
        program_record_of(tx, event, r),
    ensures
        event matches ProgramRecordEvent::CancelReported { order_id } ==> (r matches ProgramRecord::CancelReported(c) && c.transaction_hash@ == tx && c.order_id@ == hex_0x(order_id@)),
        event matches ProgramRecordEvent::FillReported { order_id, amount_in_to_release, amount_out_filled, origin_recipient } ==> (r matches ProgramRecord::FillReported(c) && c.transaction_hash@ == tx && c.order_id@ == hex_0x(order_id@) && c.amount_in_to_release == amount_in_to_release as u64 && c.amount_out_filled == amount_out_filled as u64 && c.origin_recipient@ == hex_0x(origin_recipient@)),
        event matches ProgramRecordEvent::OrderCancelled { order_id } ==> (r matches ProgramRecord::OrderCancelled(c) && c.transaction_hash@ == tx && c.order_id@ == hex_0x(order_id@)),
        event matches ProgramRecordEvent::OrderCompleted { order_id } ==> (r matches ProgramRecord::OrderCompleted(c) && c.transaction_hash@ == tx && c.order_id@ == hex_0x(order_id@)),
        event matches ProgramRecordEvent::OrderFilled { order_id, solver, amount_in_to_release, amount_out_filled } ==> (r matches ProgramRecord::OrderFilled(c) && c.transaction_hash@ == tx && c.order_id@ == hex_0x(order_id@) && c.solver@ == base58_encoding(solver@) && c.amount_in_to_release == amount_in_to_release as u64 && c.amount_out_filled == amount_out_filled as u64),
        event matches ProgramRecordEvent::OrderOpened { order_id, sender, token_in, amount_in, dest_chain_id, token_out, amount_out, solver } ==> (r matches ProgramRecord::OrderOpened(c) && c.transaction_hash@ == tx && c.order_id@ == hex_0x(order_id@) && c.sender@ == base58_encoding(sender@) && c.token_in@ == base58_encoding(token_in@) && c.amount_in == amount_in && c.dest_chain_id == dest_chain_id && c.token_out@ == hex_0x(token_out@) && c.amount_out == amount_out as u64 && c.solver@ == hex_0x(solver@)),
        event matches ProgramRecordEvent::RefundClaimed { order_id, sender, amount } ==> (r matches ProgramRecord::RefundClaimed(c) && c.transaction_hash@ == tx && c.order_id@ == hex_0x(order_id@) && c.sender@ == base58_encoding(sender@) && c.amount == amount),
{
}

} // verus!
