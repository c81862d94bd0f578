//! The records the EVM order-book indexing module keeps of every log of
//! the order book: each decoded event with the transaction, log index,
//! block time and block number it was found at, sorted into one list per
//! kind of event.
use vstd::prelude::*;
use crate::bytes::{hex_encode, hex_text};
use crate::substreams::{evm_orderbook_contract, is_orderbook_log};

verus! {

/// A block's time as the chain reports it.
#[derive(Debug, Clone, Copy, PartialEq, Eq)]
pub struct BlockTime {
    pub seconds: i64,
    pub nanos: i32,
}

/// A log of the order book as the contract's interface decodes it:
/// addresses and fixed-size values as their bytes, 256-bit amounts as
/// their decimal text.
#[derive(Debug)]
pub enum OrderbookLog {
    AdminChanged { new_admin: Vec<u8>, previous_admin: Vec<u8> },
    CancelReported { order_id: Vec<u8> },
    DestinationSupportUpdated { dest_chain_id: u64, is_supported: bool },
    Eip712DomainChanged,
    FillReported {
        amount_in_to_release: String,
        amount_out_filled: String,
        order_id: Vec<u8>,
        origin_recipient: Vec<u8>,
    },
    Initialized { version: u64 },
    OrderCancelled { message_id: Vec<u8>, order_id: Vec<u8> },
    OrderCompleted { order_id: Vec<u8> },
    OrderFilled {
        amount_in_to_release: String,
        amount_out_filled: String,
        message_id: Vec<u8>,
        order_id: Vec<u8>,
        solver: Vec<u8>,
    },
    OrderOpened {
        amount_in: String,
        amount_out: String,
        dest_chain_id: u64,
        order_id: Vec<u8>,
        sender: Vec<u8>,
        solver: Vec<u8>,
        token_in: Vec<u8>,
        token_out: Vec<u8>,
    },
    Paused { account: Vec<u8> },
    RefundClaimed { amount_in_refunded: String, order_id: Vec<u8>, sender: Vec<u8> },
    RoleAdminChanged { new_admin_role: Vec<u8>, previous_admin_role: Vec<u8>, role: Vec<u8> },
    RoleGranted { account: Vec<u8>, role: Vec<u8>, sender: Vec<u8> },
    RoleRevoked { account: Vec<u8>, role: Vec<u8>, sender: Vec<u8> },
    Unpaused { account: Vec<u8> },
    Upgraded { implementation: Vec<u8> },
}

/// An order-book event with where it was found.
#[derive(Debug)]
pub struct OrderbookRecord {
    pub evt_tx_hash: String,
    pub evt_index: u32,
    pub evt_block_time: Option<BlockTime>,
    pub evt_block_number: u64,
    pub event: OrderbookLog,
}

/// The records of a block, one list per kind of event.
#[derive(Debug)]
pub struct OrderbookEvents {
    pub orderbook_admin_changeds: Vec<OrderbookRecord>,
    pub orderbook_cancel_reporteds: Vec<OrderbookRecord>,
    pub orderbook_destination_support_updateds: Vec<OrderbookRecord>,
    pub orderbook_eip712_domain_changeds: Vec<OrderbookRecord>,
    pub orderbook_fill_reporteds: Vec<OrderbookRecord>,
    pub orderbook_initializeds: Vec<OrderbookRecord>,
    pub orderbook_order_cancelleds: Vec<OrderbookRecord>,
    pub orderbook_order_completeds: Vec<OrderbookRecord>,
    pub orderbook_order_filleds: Vec<OrderbookRecord>,
    pub orderbook_order_openeds: Vec<OrderbookRecord>,
    pub orderbook_pauseds: Vec<OrderbookRecord>,
    pub orderbook_refund_claimeds: Vec<OrderbookRecord>,
    pub orderbook_role_admin_changeds: Vec<OrderbookRecord>,
    pub orderbook_role_granteds: Vec<OrderbookRecord>,
    pub orderbook_role_revokeds: Vec<OrderbookRecord>,
    pub orderbook_unpauseds: Vec<OrderbookRecord>,
    pub orderbook_upgradeds: Vec<OrderbookRecord>,
}

/// The position of an event's kind among the lists of `OrderbookEvents`.
pub open spec fn log_kind(e: OrderbookLog) -> nat {
    match e {
        OrderbookLog::AdminChanged { .. } => 0,
        OrderbookLog::CancelReported { .. } => 1,
        OrderbookLog::DestinationSupportUpdated { .. } => 2,
        OrderbookLog::Eip712DomainChanged => 3,
        OrderbookLog::FillReported { .. } => 4,
        OrderbookLog::Initialized { .. } => 5,
        OrderbookLog::OrderCancelled { .. } => 6,
        OrderbookLog::OrderCompleted { .. } => 7,
        OrderbookLog::OrderFilled { .. } => 8,
        OrderbookLog::OrderOpened { .. } => 9,
        OrderbookLog::Paused { .. } => 10,
        OrderbookLog::RefundClaimed { .. } => 11,
        OrderbookLog::RoleAdminChanged { .. } => 12,
        OrderbookLog::RoleGranted { .. } => 13,
        OrderbookLog::RoleRevoked { .. } => 14,
        OrderbookLog::Unpaused { .. } => 15,
        OrderbookLog::Upgraded { .. } => 16,
    }
}

/// The kind of an event (see `log_kind`).
pub fn orderbook_log_kind(e: &OrderbookLog) -> (k: u8)
    ensures
        k == log_kind(*e),
        k < 17,
{
    match e {
        OrderbookLog::AdminChanged { .. } => 0,
        OrderbookLog::CancelReported { .. } => 1,
        OrderbookLog::DestinationSupportUpdated { .. } => 2,
        OrderbookLog::Eip712DomainChanged => 3,
        OrderbookLog::FillReported { .. } => 4,
        OrderbookLog::Initialized { .. } => 5,
        OrderbookLog::OrderCancelled { .. } => 6,
        OrderbookLog::OrderCompleted { .. } => 7,
        OrderbookLog::OrderFilled { .. } => 8,
        OrderbookLog::OrderOpened { .. } => 9,
        OrderbookLog::Paused { .. } => 10,
        OrderbookLog::RefundClaimed { .. } => 11,
        OrderbookLog::RoleAdminChanged { .. } => 12,
        OrderbookLog::RoleGranted { .. } => 13,
        OrderbookLog::RoleRevoked { .. } => 14,
        OrderbookLog::Unpaused { .. } => 15,
        OrderbookLog::Upgraded { .. } => 16,
    }
}

/// The records of kind `k` that `events` holds, in order.
pub open spec fn kind_list(events: OrderbookEvents, k: nat) -> Seq<OrderbookRecord> {
    if k == 0 {
        events.orderbook_admin_changeds@
    } else if k == 1 {
        events.orderbook_cancel_reporteds@
    } else if k == 2 {
        events.orderbook_destination_support_updateds@
    } else if k == 3 {
        events.orderbook_eip712_domain_changeds@
    } else if k == 4 {
        events.orderbook_fill_reporteds@
    } else if k == 5 {
        events.orderbook_initializeds@
    } else if k == 6 {
        events.orderbook_order_cancelleds@
    } else if k == 7 {
        events.orderbook_order_completeds@
    } else if k == 8 {
        events.orderbook_order_filleds@
    } else if k == 9 {
        events.orderbook_order_openeds@
    } else if k == 10 {
        events.orderbook_pauseds@
    } else if k == 11 {
        events.orderbook_refund_claimeds@
    } else if k == 12 {
        events.orderbook_role_admin_changeds@
    } else if k == 13 {
        events.orderbook_role_granteds@
    } else if k == 14 {
        events.orderbook_role_revokeds@
    } else if k == 15 {
        events.orderbook_unpauseds@
    } else {
        events.orderbook_upgradeds@
    }
}

impl OrderbookEvents {
    /// No records.
    pub fn new() -> (events: Self)
        ensures
            forall|k: nat| k < 17 ==> #[trigger] kind_list(events, k).len() == 0,
    {
        OrderbookEvents {
            orderbook_admin_changeds: Vec::new(),
            orderbook_cancel_reporteds: Vec::new(),
            orderbook_destination_support_updateds: Vec::new(),
            orderbook_eip712_domain_changeds: Vec::new(),
            orderbook_fill_reporteds: Vec::new(),
            orderbook_initializeds: Vec::new(),
            orderbook_order_cancelleds: Vec::new(),
            orderbook_order_completeds: Vec::new(),
            orderbook_order_filleds: Vec::new(),
            orderbook_order_openeds: Vec::new(),
            orderbook_pauseds: Vec::new(),
            orderbook_refund_claimeds: Vec::new(),
            orderbook_role_admin_changeds: Vec::new(),
            orderbook_role_granteds: Vec::new(),
            orderbook_role_revokeds: Vec::new(),
            orderbook_unpauseds: Vec::new(),
            orderbook_upgradeds: Vec::new(),
        }
    }

    /// Adds a record at the end of its kind's list.
    pub fn push_record(&mut self, r: OrderbookRecord)
        ensures
            forall|k: nat|
                k < 17 ==> #[trigger] kind_list(*final(self), k) == if log_kind(r.event) == k {
                    kind_list(*old(self), k).push(r)
                } else {
                    kind_list(*old(self), k)
                },
    {
        let k = orderbook_log_kind(&r.event);
        if k == 0 {
            self.orderbook_admin_changeds.push(r);
        } else if k == 1 {
            self.orderbook_cancel_reporteds.push(r);
        } else if k == 2 {
            self.orderbook_destination_support_updateds.push(r);
        } else if k == 3 {
            self.orderbook_eip712_domain_changeds.push(r);
        } else if k == 4 {
            self.orderbook_fill_reporteds.push(r);
        } else if k == 5 {
            self.orderbook_initializeds.push(r);
        } else if k == 6 {
            self.orderbook_order_cancelleds.push(r);
        } else if k == 7 {
            self.orderbook_order_completeds.push(r);
        } else if k == 8 {
            self.orderbook_order_filleds.push(r);
        } else if k == 9 {
            self.orderbook_order_openeds.push(r);
        } else if k == 10 {
            self.orderbook_pauseds.push(r);
        } else if k == 11 {
            self.orderbook_refund_claimeds.push(r);
        } else if k == 12 {
            self.orderbook_role_admin_changeds.push(r);
        } else if k == 13 {
            self.orderbook_role_granteds.push(r);
        } else if k == 14 {
            self.orderbook_role_revokeds.push(r);
        } else if k == 15 {
            self.orderbook_unpauseds.push(r);
        } else {
            self.orderbook_upgradeds.push(r);
        }
    }
}

/// One log of a receipt: the emitting address, the log's index in the
/// block, and the order-book event the contract's interface decodes from
/// it, if any.
pub struct OrderbookLogEntry {
    pub address: Vec<u8>,
    pub block_index: u32,
    pub event: Option<OrderbookLog>,
}

/// The logs of one transaction receipt, with the transaction's hash.
pub struct OrderbookReceipt {
    pub transaction_hash: Vec<u8>,
    pub logs: Vec<OrderbookLogEntry>,
}

/// The decoded order-book events among the logs of transaction `tx`, each
/// with the log's index in the block.
pub open spec fn receipt_logs(tx: Seq<char>, logs: Seq<OrderbookLogEntry>) -> Seq<(Seq<char>, u32, OrderbookLog)>
    decreases logs.len(),
{
    if logs.len() == 0 {
        Seq::empty()
    } else {
        let rest = receipt_logs(tx, logs.drop_last());
        let l = logs.last();
        if l.address@ == evm_orderbook_contract() && l.event is Some {
            rest.push((tx, l.block_index, l.event->Some_0))
        } else {
            rest
        }
    }
}

/// The decoded order-book events of a block, receipt after receipt, each
/// with its transaction's hash in lower-case hexadecimal.
pub open spec fn block_logs(receipts: Seq<OrderbookReceipt>) -> Seq<(Seq<char>, u32, OrderbookLog)>
    decreases receipts.len(),
{
    if receipts.len() == 0 {
        Seq::empty()
    } else {
        block_logs(receipts.drop_last()) + receipt_logs(
            hex_text(receipts.last().transaction_hash@),
            receipts.last().logs@,
        )
    }
}

/// `records` are the records of `logs` found in the block of `number` and
/// time `time`, one for one.
pub open spec fn records_of_logs(
    number: u64,
    time: BlockTime,
    logs: Seq<(Seq<char>, u32, OrderbookLog)>,
    records: Seq<OrderbookRecord>,
) -> bool {
    &&& records.len() == logs.len()
    &&& forall|j: int|
        0 <= j < records.len() ==> {
            let r = #[trigger] records[j];
            &&& r.evt_tx_hash@ == logs[j].0
            &&& r.evt_index == logs[j].1
            &&& r.evt_block_time == Some(time)
            &&& r.evt_block_number == number
            &&& r.event == logs[j].2
        }
}

/// The records of kind `k` among `records`, in order.
pub open spec fn records_of_log_kind(records: Seq<OrderbookRecord>, k: nat) -> Seq<OrderbookRecord> {
    records.filter(|r: OrderbookRecord| log_kind(r.event) == k)
}

proof fn lemma_records_of_log_kind_push(records: Seq<OrderbookRecord>, r: OrderbookRecord, k: nat)
    ensures
        records_of_log_kind(records.push(r), k) == if log_kind(r.event) == k {
            records_of_log_kind(records, k).push(r)
        } else {
            records_of_log_kind(records, k)
        },
{
    reveal(Seq::filter);
    assert(records.push(r).drop_last() =~= records);
    assert(records.push(r).last() == r);
}

proof fn lemma_records_of_logs_push(
    number: u64,
    time: BlockTime,
    logs: Seq<(Seq<char>, u32, OrderbookLog)>,
    records: Seq<OrderbookRecord>,
    t: (Seq<char>, u32, OrderbookLog),
    r: OrderbookRecord,
)
    requires
        records_of_logs(number, time, logs, records),
        r.evt_tx_hash@ == t.0,
        r.evt_index == t.1,
        r.evt_block_time == Some(time),
        r.evt_block_number == number,
        r.event == t.2,
    ensures
        records_of_logs(number, time, logs.push(t), records.push(r)),
{
    assert forall|j: int| 0 <= j < records.push(r).len() implies {
        let x = #[trigger] records.push(r)[j];
        &&& x.evt_tx_hash@ == logs.push(t)[j].0
        &&& x.evt_index == logs.push(t)[j].1
        &&& x.evt_block_time == Some(time)
        &&& x.evt_block_number == number
        &&& x.event == logs.push(t)[j].2
    } by {
        if j < records.len() {
            assert(records.push(r)[j] == records[j]);
            assert(logs.push(t)[j] == logs[j]);
        }
    }
}

/// The records of the order book's logs in a block of `number` and time
/// `time`, in the order of the receipts and of their logs.
pub fn block_records(number: u64, time: BlockTime, receipts: Vec<OrderbookReceipt>) -> (records: Vec<OrderbookRecord>)
    ensures
        records_of_logs(number, time, block_logs(receipts@), records@),
{
    let ghost all = receipts@;
    let n = receipts.len();
    let mut rest = receipts;
    let mut records: Vec<OrderbookRecord> = Vec::new();
    let mut i: usize = 0;
    while i < n
        invariant
            n == all.len(),
            i <= n,
            rest@ == all.subrange(i as int, n as int),
            records_of_logs(number, time, block_logs(all.subrange(0, i as int)), records@),
        decreases n - i,
    {
        let rcpt = rest.remove(0);
        proof {
            assert(rcpt == all[i as int]);
            assert(rest@ =~= all.subrange(i + 1, n as int));
        }
        let ghost head = block_logs(all.subrange(0, i as int));
        let ghost logs_all = rcpt.logs@;
        let ghost hash = rcpt.transaction_hash@;
        let OrderbookReceipt { transaction_hash, logs } = rcpt;
        let m = logs.len();
        let mut pending = logs;
        let mut j: usize = 0;
        while j < m
            invariant
                m == logs_all.len(),
                j <= m,
                transaction_hash@ == hash,
                pending@ == logs_all.subrange(j as int, m as int),
                records_of_logs(
                    number,
                    time,
                    head + receipt_logs(hex_text(hash), logs_all.subrange(0, j as int)),
                    records@,
                ),
            decreases m - j,
        {
            let entry = pending.remove(0);
            let ghost sub = logs_all.subrange(0, j as int);
            let ghost before = head + receipt_logs(hex_text(hash), sub);
            proof {
                assert(entry == logs_all[j as int]);
                assert(pending@ =~= logs_all.subrange(j + 1, m as int));
                assert(logs_all.subrange(0, j + 1).drop_last() =~= sub);
            }
            let OrderbookLogEntry { address, block_index, event } = entry;
            if is_orderbook_log(address.as_slice()) {
                match event {
                    Some(e) => {
                        let ghost eg = e;
                        let r = OrderbookRecord {
                            evt_tx_hash: hex_encode(transaction_hash.as_slice()),
                            evt_index: block_index,
                            evt_block_time: Some(time),
                            evt_block_number: number,
                            event: e,
                        };
                        let ghost old_records = records@;
                        records.push(r);
                        proof {
                            lemma_records_of_logs_push(
                                number,
                                time,
                                before,
                                old_records,
                                (hex_text(hash), block_index, eg),
                                r,
                            );
                            assert(head + receipt_logs(hex_text(hash), logs_all.subrange(0, j + 1))
                                =~= before.push((hex_text(hash), block_index, eg)));
                        }
                    },
                    None => {},
                }
            }
            j = j + 1;
        }
        proof {
            assert(logs_all.subrange(0, m as int) =~= logs_all);
            assert(all.subrange(0, i + 1).drop_last() =~= all.subrange(0, i as int));
            assert(all.subrange(0, i + 1).last() == all[i as int]);
        }
        i = i + 1;
    }
    proof {
        assert(all.subrange(0, n as int) =~= all);
    }
    records
}

/// Adds each of `records`, in order, at the end of its kind's list.
pub fn push_records(events: &mut OrderbookEvents, records: Vec<OrderbookRecord>)
    ensures
        forall|k: nat|
            k < 17 ==> #[trigger] kind_list(*final(events), k) == kind_list(*old(events), k) + records_of_log_kind(
                records@,
                k,
            ),
{
    let ghost all = records@;
    let ghost start = *events;
    let n = records.len();
    let mut rest = records;
    let mut i: usize = 0;
    proof {
        assert forall|k: nat| k < 17 implies #[trigger] kind_list(*events, k) == kind_list(start, k)
            + records_of_log_kind(all.subrange(0, 0), k) by {
            assert(all.subrange(0, 0) =~= Seq::<OrderbookRecord>::empty());
            reveal(Seq::filter);
            assert(kind_list(start, k) + records_of_log_kind(all.subrange(0, 0), k) =~= kind_list(start, k));
        }
    }
    while i < n
        invariant
            n == all.len(),
            i <= n,
            rest@ == all.subrange(i as int, n as int),
            forall|k: nat|
                k < 17 ==> #[trigger] kind_list(*events, k) == kind_list(start, k) + records_of_log_kind(
                    all.subrange(0, i as int),
                    k,
                ),
        decreases n - i,
    {
        let r = rest.remove(0);
        proof {
            assert(r == all[i as int]);
            assert(rest@ =~= all.subrange(i + 1, n as int));
            assert(all.subrange(0, i + 1) =~= all.subrange(0, i as int).push(r));
            assert forall|k: nat| k < 17 implies records_of_log_kind(all.subrange(0, i + 1), k) == if log_kind(r.event) == k {
                records_of_log_kind(all.subrange(0, i as int), k).push(r)
            } else {
                records_of_log_kind(all.subrange(0, i as int), k)
            } by {
                lemma_records_of_log_kind_push(all.subrange(0, i as int), r, k);
            }
        }
        let ghost before = *events;
        events.push_record(r);
        proof {
            assert forall|k: nat| k < 17 implies #[trigger] kind_list(*events, k) == kind_list(start, k)
                + records_of_log_kind(all.subrange(0, i + 1), k) by {
                if log_kind(r.event) == k {
                    assert(kind_list(start, k) + records_of_log_kind(all.subrange(0, i as int), k).push(r)
                        =~= (kind_list(start, k) + records_of_log_kind(all.subrange(0, i as int), k)).push(r));
                }
            }
        }
        i = i + 1;
    }
    proof {
        assert(all.subrange(0, n as int) =~= all);
    }
}

/// Records the order book's logs of a block of `number` and time `time`:
/// each log the contract's interface decodes becomes a record at the end
/// of its kind's list, in the order of the receipts and of their logs.
pub fn map_orderbook_events(number: u64, time: BlockTime, receipts: Vec<OrderbookReceipt>, events: &mut OrderbookEvents)
    ensures
        exists|records: Seq<OrderbookRecord>|
            #[trigger] records_of_logs(number, time, block_logs(receipts@), records) && forall|k: nat|
                k < 17 ==> #[trigger] kind_list(*final(events), k) == kind_list(*old(events), k)
                    + records_of_log_kind(records, k),
{
    let records = block_records(number, time, receipts);
    let ghost rs = records@;
    push_records(events, records);
    proof {
        assert(records_of_logs(number, time, block_logs(receipts@), rs));
    }
}

/// The records of a block's order-book logs (see `map_orderbook_events`),
/// starting from no records.
pub fn map_events(number: u64, time: BlockTime, receipts: Vec<OrderbookReceipt>) -> (events: OrderbookEvents)
    ensures
        exists|records: Seq<OrderbookRecord>|
            #[trigger] records_of_logs(number, time, block_logs(receipts@), records) && forall|k: nat|
                k < 17 ==> #[trigger] kind_list(events, k) == records_of_log_kind(records, k),
{
    let mut events = OrderbookEvents::new();
    let ghost start = events;
    map_orderbook_events(number, time, receipts, &mut events);
    proof {
        assert forall|k: nat| k < 17 implies #[trigger] kind_list(start, k) =~= Seq::<OrderbookRecord>::empty() by {}
        let rs = choose|records: Seq<OrderbookRecord>|
            #[trigger] records_of_logs(number, time, block_logs(receipts@), records) && forall|k: nat|
                k < 17 ==> #[trigger] kind_list(events, k) == kind_list(start, k)
                    + records_of_log_kind(records, k);
        assert forall|k: nat| k < 17 implies #[trigger] kind_list(events, k) == records_of_log_kind(rs, k) by {
            assert(kind_list(start, k) + records_of_log_kind(rs, k) =~= records_of_log_kind(rs, k));
        }
        assert(records_of_logs(number, time, block_logs(receipts@), rs));
    }
    events
}

} // verus!
