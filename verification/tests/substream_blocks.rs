use alloy::signers::k256::sha2::{Digest, Sha256};
use liquidity_delivery::emitted_events::{decode_emitted_event, map_program_data_of_block, map_svm_events, SvmTransaction};
use liquidity_delivery::contract_events::{
    map_events, map_orderbook_events, BlockTime, OrderbookEvents, OrderbookLog, OrderbookLogEntry,
    OrderbookReceipt,
};
use liquidity_delivery::program_data::{map_program_data, program_event_payloads, ProgramData};
use liquidity_delivery::substreams::{
    evm_block_data, records_data, svm_block_data, svm_block_records, EvmLog, EvmReceiptLogs,
    EvmRecordEvent, ProgramRecordEvent, Record, SvmTransactionEvents,
};

const BOOK: [u8; 20] = [
    0xe3, 0x9b, 0x01, 0x2a, 0xb3, 0xb2, 0x0e, 0x94, 0xa9, 0xbe, 0xea, 0x55, 0x7e, 0xb0, 0xde, 0x41,
    0x71, 0xd4, 0xd3, 0xe4,
];

#[test]
fn solana_blocks_number_events_within_their_transaction() {
    let txs = vec![
        SvmTransactionEvents {
            transaction_hash: "tx1".to_string(),
            events: vec![
                Some(ProgramRecordEvent::OrderCompleted { order_id: [1; 32] }),
                None,
                Some(ProgramRecordEvent::CancelReported { order_id: [2; 32] }),
            ],
        },
        SvmTransactionEvents { transaction_hash: "tx2".to_string(), events: vec![] },
        SvmTransactionEvents {
            transaction_hash: "tx3".to_string(),
            events: vec![Some(ProgramRecordEvent::OrderCompleted { order_id: [3; 32] })],
        },
    ];
    let records = svm_block_records(7, 99, &txs);
    assert_eq!(records.len(), 3);
    match &records[1] {
        Record::CancelReported(c) => {
            assert_eq!(c.id, "tx1:3");
            assert_eq!(c.ts, 99);
            assert_eq!(c.chain_id, 7);
        }
        _ => panic!("a cancellation report"),
    }
    let data = svm_block_data("1399811149", Some(1_700_000_000), &txs);
    let ids: Vec<&str> = data.order_completed_event_list.iter().map(|c| c.id.as_str()).collect();
    assert_eq!(ids, vec!["tx1:1", "tx3:1"]);
    assert_eq!(data.order_completed_event_list[0].chain_id, 1399811149);
    assert_eq!(data.order_completed_event_list[1].ts, 1_700_000_000);
    assert_eq!(data.order_completed_event_list[1].order_id, format!("0x{}", "03".repeat(32)));
    assert_eq!(data.cancel_reported_event_list.len(), 1);
    assert!(data.order_opened_event_list.is_empty());
    let total = data.cancel_reported_event_list.len()
        + data.fill_reported_event_list.len()
        + data.order_cancelled_event_list.len()
        + data.order_completed_event_list.len()
        + data.order_filled_event_list.len()
        + data.order_opened_event_list.len()
        + data.refund_claimed_event_list.len();
    assert_eq!(total, records.len());
    let data = svm_block_data("not a number", None, &txs);
    assert_eq!(data.cancel_reported_event_list[0].chain_id, 0);
    assert_eq!(data.cancel_reported_event_list[0].ts, 0);
    let empty = records_data(vec![]);
    assert!(empty.order_completed_event_list.is_empty());
}

#[test]
fn evm_blocks_keep_only_the_order_books_decoded_logs() {
    let receipts = vec![
        EvmReceiptLogs {
            transaction_hash: vec![0xaa, 0xbb],
            logs: vec![
                EvmLog { address: BOOK.to_vec(), event: Some(EvmRecordEvent::OrderCompleted { order_id: [1; 32] }) },
                EvmLog { address: vec![1; 20], event: Some(EvmRecordEvent::OrderCompleted { order_id: [2; 32] }) },
                EvmLog { address: BOOK.to_vec(), event: None },
            ],
        },
        EvmReceiptLogs {
            transaction_hash: vec![0xcc],
            logs: vec![EvmLog {
                address: BOOK.to_vec(),
                event: Some(EvmRecordEvent::OrderCancelled { order_id: [3; 32] }),
            }],
        },
    ];
    let data = evm_block_data("1", 1_700_000_000, &receipts);
    assert_eq!(data.order_completed_event_list.len(), 1);
    assert_eq!(data.order_completed_event_list[0].id, "0xaabb:1");
    assert_eq!(data.order_completed_event_list[0].transaction_hash, "0xaabb");
    assert_eq!(data.order_cancelled_event_list.len(), 1);
    assert_eq!(data.order_cancelled_event_list[0].id, "0xcc:2");
    assert_eq!(data.order_cancelled_event_list[0].ts, 1_700_000_000);
    assert_eq!(data.order_cancelled_event_list[0].chain_id, 1);
}

fn entry(address: &[u8], index: u32, event: Option<OrderbookLog>) -> OrderbookLogEntry {
    OrderbookLogEntry { address: address.to_vec(), block_index: index, event }
}

#[test]
fn order_book_logs_are_sorted_by_kind() {
    let time = BlockTime { seconds: 1_700_000_000, nanos: 5 };
    let receipts = vec![
        OrderbookReceipt {
            transaction_hash: vec![0xab, 0xcd],
            logs: vec![
                entry(&BOOK, 3, Some(OrderbookLog::Paused { account: vec![1; 20] })),
                entry(&[9; 20], 4, Some(OrderbookLog::Unpaused { account: vec![2; 20] })),
                entry(&BOOK, 5, None),
                entry(
                    &BOOK,
                    6,
                    Some(OrderbookLog::OrderFilled {
                        amount_in_to_release: "340282366920938463463374607431768211456".to_string(),
                        amount_out_filled: "1".to_string(),
                        message_id: vec![4; 32],
                        order_id: vec![5; 32],
                        solver: vec![6; 20],
                    }),
                ),
            ],
        },
        OrderbookReceipt {
            transaction_hash: vec![0x01],
            logs: vec![
                entry(&BOOK, 9, Some(OrderbookLog::Paused { account: vec![3; 20] })),
                entry(&BOOK, 10, Some(OrderbookLog::Eip712DomainChanged)),
            ],
        },
    ];
    let events = map_events(42, time, receipts);
    assert_eq!(events.orderbook_pauseds.len(), 2);
    assert_eq!(events.orderbook_pauseds[0].evt_tx_hash, "abcd");
    assert_eq!(events.orderbook_pauseds[0].evt_index, 3);
    assert_eq!(events.orderbook_pauseds[0].evt_block_number, 42);
    assert_eq!(events.orderbook_pauseds[0].evt_block_time, Some(time));
    assert_eq!(events.orderbook_pauseds[1].evt_tx_hash, "01");
    assert_eq!(events.orderbook_pauseds[1].evt_index, 9);
    assert!(events.orderbook_unpauseds.is_empty());
    assert_eq!(events.orderbook_order_filleds.len(), 1);
    match &events.orderbook_order_filleds[0].event {
        OrderbookLog::OrderFilled { amount_in_to_release, order_id, .. } => {
            assert_eq!(amount_in_to_release, "340282366920938463463374607431768211456");
            assert_eq!(order_id, &vec![5; 32]);
        }
        _ => panic!("an order fill"),
    }
    assert_eq!(events.orderbook_eip712_domain_changeds.len(), 1);

    let mut more = OrderbookEvents::new();
    more.orderbook_pauseds.push(events.orderbook_pauseds.into_iter().next().unwrap());
    map_orderbook_events(
        43,
        time,
        vec![OrderbookReceipt {
            transaction_hash: vec![0x02],
            logs: vec![entry(&BOOK, 0, Some(OrderbookLog::Paused { account: vec![7; 20] }))],
        }],
        &mut more,
    );
    assert_eq!(more.orderbook_pauseds.len(), 2);
    assert_eq!(more.orderbook_pauseds[0].evt_block_number, 42);
    assert_eq!(more.orderbook_pauseds[1].evt_block_number, 43);
}

#[test]
fn program_data_keeps_each_event_with_its_transaction() {
    let prefix = [228u8, 69, 165, 46, 81, 203, 154, 29];
    let mut long = prefix.to_vec();
    long.extend_from_slice(&[7u8; 9]);
    let mut short = prefix.to_vec();
    short.extend_from_slice(&[7u8; 8]);
    let mut other = vec![0u8; 8];
    other.extend_from_slice(&[7u8; 9]);
    let payloads = program_event_payloads(&vec![short, long, other]);
    assert_eq!(payloads, vec![vec![7u8; 9]]);

    let txs = vec![
        SvmTransactionEvents {
            transaction_hash: "sig1".to_string(),
            events: vec![
                None,
                Some(ProgramRecordEvent::RefundClaimed { order_id: [1; 32], sender: [0; 32], amount: 5 }),
            ],
        },
        SvmTransactionEvents {
            transaction_hash: "sig2".to_string(),
            events: vec![Some(ProgramRecordEvent::RefundClaimed { order_id: [2; 32], sender: [0; 32], amount: 6 })],
        },
    ];
    let data = map_program_data(&txs);
    assert_eq!(data.refund_claimed_event_list.len(), 2);
    assert_eq!(data.refund_claimed_event_list[0].transaction_hash, "sig1");
    assert_eq!(data.refund_claimed_event_list[0].sender, "11111111111111111111111111111111");
    assert_eq!(data.refund_claimed_event_list[1].amount, 6);
    assert_eq!(data.refund_claimed_event_list[1].order_id, format!("0x{}", "02".repeat(32)));
    assert_eq!(map_program_data(&vec![]), ProgramData::new());
}

fn emitted(name: &str, fields: &[u8]) -> Vec<u8> {
    let mut d = vec![228u8, 69, 165, 46, 81, 203, 154, 29];
    let digest = Sha256::digest(format!("event:{}", name).as_bytes());
    d.extend_from_slice(&digest[..8]);
    d.extend_from_slice(fields);
    d
}

fn opened_fields() -> Vec<u8> {
    let mut f = Vec::new();
    f.extend_from_slice(&[1u8; 32]);
    f.extend_from_slice(&[2u8; 32]);
    f.extend_from_slice(&[3u8; 32]);
    f.extend_from_slice(&1000u64.to_le_bytes());
    f.extend_from_slice(&8453u32.to_le_bytes());
    f.extend_from_slice(&[4u8; 32]);
    f.extend_from_slice(&990u128.to_le_bytes());
    f.extend_from_slice(&[5u8; 32]);
    f
}

#[test]
fn emitted_events_are_decoded_by_discriminator() {
    match decode_emitted_event(&emitted("OrderOpened", &opened_fields())) {
        Some(ProgramRecordEvent::OrderOpened { order_id, amount_in, dest_chain_id, amount_out, solver, .. }) => {
            assert_eq!(order_id, [1; 32]);
            assert_eq!(amount_in, 1000);
            assert_eq!(dest_chain_id, 8453);
            assert_eq!(amount_out, 990);
            assert_eq!(solver, [5; 32]);
        }
        other => panic!("an opened order, not {:?}", other),
    }
    let mut refund = vec![6u8; 32];
    refund.extend_from_slice(&[7u8; 32]);
    refund.extend_from_slice(&42u64.to_le_bytes());
    assert!(matches!(decode_emitted_event(&emitted("RefundClaimed", &refund)),
        Some(ProgramRecordEvent::RefundClaimed { amount: 42, .. })));
    assert!(matches!(decode_emitted_event(&emitted("OrderCancelled", &[8u8; 32])),
        Some(ProgramRecordEvent::OrderCancelled { order_id }) if order_id == [8; 32]));
    assert!(decode_emitted_event(&emitted("OrderCancelled", &[8u8; 31])).is_none());
    assert!(decode_emitted_event(&emitted("Unknown", &[8u8; 64])).is_none());
    let mut wrong_prefix = emitted("OrderCompleted", &[9u8; 32]);
    wrong_prefix[0] = 0;
    assert!(decode_emitted_event(&wrong_prefix).is_none());
}

#[test]
fn blocks_are_read_from_their_transactions() {
    let txs = vec![SvmTransaction {
        transaction_hash: "sig".to_string(),
        inner_instructions: vec![
            vec![1, 2, 3],
            emitted("Unknown", &[0u8; 32]),
            emitted("OrderCompleted", &[9u8; 32]),
        ],
    }];
    let data = map_svm_events("1399811149", Some(5), &txs);
    assert_eq!(data.order_completed_event_list.len(), 1);
    assert_eq!(data.order_completed_event_list[0].id, "sig:2");
    assert_eq!(data.order_completed_event_list[0].order_id, format!("0x{}", "09".repeat(32)));
    let program = map_program_data_of_block(&txs);
    assert_eq!(program.order_completed_event_list.len(), 1);
    assert_eq!(program.order_completed_event_list[0].transaction_hash, "sig");
}
