use alloy::sol_types::{sol_data, SolType};
use liquidity_delivery::quoter::order_store::OrderStore;
use liquidity_delivery::quoter::tracking::track_evm_log;
use liquidity_delivery::solver::chain_events::EvmEventKind;
use liquidity_delivery::solver::events::SolverEvent;
use liquidity_delivery::solver::evm_logs::{decode_evm_log, evm_log_event, EvmLogEvent, LogDecoding};

fn topic(signature: &str) -> [u8; 32] {
    alloy::primitives::keccak256(signature.as_bytes()).0
}

const OPENED: &str = "OrderOpened(bytes32,address,address,uint128,uint32,bytes32,uint128,bytes32)";

fn word_u128(v: u128) -> [u8; 32] {
    let mut w = [0u8; 32];
    w[16..].copy_from_slice(&v.to_be_bytes());
    w
}

fn word_address(a: [u8; 20]) -> [u8; 32] {
    let mut w = [0u8; 32];
    w[12..].copy_from_slice(&a);
    w
}

fn opened_log() -> (Vec<[u8; 32]>, Vec<u8>) {
    let mut chain = [0u8; 32];
    chain[28..].copy_from_slice(&8453u32.to_be_bytes());
    let topics = vec![topic(OPENED), [0xaa; 32], chain, [0x55; 32]];
    let mut data = Vec::new();
    data.extend_from_slice(&word_address([0x11; 20]));
    data.extend_from_slice(&word_address([0x22; 20]));
    data.extend_from_slice(&word_u128(1000));
    data.extend_from_slice(&[0x33; 32]);
    data.extend_from_slice(&word_u128(990));
    (topics, data)
}

#[test]
fn an_order_opened_log_decodes_as_the_abi_decoder_reads_it() {
    let (topics, data) = opened_log();
    match decode_evm_log(&topics, &data) {
        LogDecoding::Decoded(EvmLogEvent::OrderOpened(o)) => {
            assert_eq!(o.order_id, [0xaa; 32]);
            assert_eq!(o.dest_chain_id, 8453);
            assert_eq!(o.solver, [0x55; 32]);
            assert_eq!(o.sender, [0x11; 20]);
            assert_eq!(o.token_in, [0x22; 20]);
            assert_eq!(o.amount_in, 1000);
            assert_eq!(o.token_out, [0x33; 32]);
            assert_eq!(o.amount_out, 990);
            type Body = (
                sol_data::Address,
                sol_data::Address,
                sol_data::Uint<128>,
                sol_data::FixedBytes<32>,
                sol_data::Uint<128>,
            );
            let (sender, token_in, amount_in, token_out, amount_out) =
                <Body as SolType>::abi_decode_sequence(&data).unwrap();
            assert_eq!(sender.0 .0, o.sender);
            assert_eq!(token_in.0 .0, o.token_in);
            assert_eq!(amount_in, o.amount_in);
            assert_eq!(token_out.0, o.token_out);
            assert_eq!(amount_out, o.amount_out);
        }
        other => panic!("an opened order, not {:?}", other),
    }
}

#[test]
fn dirty_high_bytes_are_ignored_as_without_validation() {
    let (topics, mut data) = opened_log();
    data[0] = 0xff;
    data[32 * 2] = 0xff;
    data.extend_from_slice(&[7u8; 5]);
    match decode_evm_log(&topics, &data) {
        LogDecoding::Decoded(EvmLogEvent::OrderOpened(o)) => {
            assert_eq!(o.sender, [0x11; 20]);
            assert_eq!(o.amount_in, 1000);
            let (sender, _, amount_in, _, _) = <(
                sol_data::Address,
                sol_data::Address,
                sol_data::Uint<128>,
                sol_data::FixedBytes<32>,
                sol_data::Uint<128>,
            ) as SolType>::abi_decode_sequence(&data)
            .unwrap();
            assert_eq!(sender.0 .0, o.sender);
            assert_eq!(amount_in, o.amount_in);
        }
        other => panic!("an opened order, not {:?}", other),
    }
}

#[test]
fn logs_that_do_not_fit_do_not_decode() {
    let (topics, data) = opened_log();
    assert!(matches!(decode_evm_log(&topics, &data[..159].to_vec()), LogDecoding::Malformed(EvmEventKind::OrderOpened)));
    assert!(matches!(decode_evm_log(&topics[..3].to_vec(), &data), LogDecoding::Malformed(EvmEventKind::OrderOpened)));
    let mut five = topics.clone();
    five.push([0; 32]);
    assert!(matches!(decode_evm_log(&five, &data), LogDecoding::Invalid));
    assert!(matches!(decode_evm_log(&vec![], &data), LogDecoding::Ignored));
    assert!(matches!(decode_evm_log(&vec![[9; 32]], &data), LogDecoding::Ignored));
}

#[test]
fn decoded_logs_become_solver_events() {
    let filled = vec![topic("OrderFilled(bytes32,address,uint128,uint128)"), [0xab; 32], word_address([0x44; 20])];
    let mut data = word_u128(5).to_vec();
    data.extend_from_slice(&word_u128(7));
    match evm_log_event(&filled, &data, "0xtx".to_string()) {
        Some(SolverEvent::OrderFill(f)) => {
            assert_eq!(f.order_id, "ab".repeat(32));
            assert_eq!(f.amount, 7);
            assert_eq!(f.transaction_hash, "0xtx");
        }
        other => panic!("a fill, not {:?}", other),
    }
    let mut at = [0u8; 32];
    at[28..].copy_from_slice(&1_700_000_000u32.to_be_bytes());
    let cancel = vec![topic("CancelRequested(bytes32,uint32)"), [0xcd; 32]];
    match evm_log_event(&cancel, &at.to_vec(), "t".to_string()) {
        Some(SolverEvent::OrderCancelRequest(c)) => assert_eq!(c.requested_at, 1_700_000_000),
        other => panic!("a cancel request, not {:?}", other),
    }
    let refund = vec![topic("RefundClaimed(bytes32,address,uint128)"), [0xef; 32], word_address([0x12; 20])];
    match evm_log_event(&refund, &word_u128(9).to_vec(), "t".to_string()) {
        Some(SolverEvent::OrderRefundClaimed(r)) => {
            assert_eq!(r.sender, format!("0x{}", "12".repeat(20)));
            assert_eq!(r.amount_refunded, 9);
        }
        other => panic!("a refund, not {:?}", other),
    }
    let completed = vec![topic("OrderCompleted(bytes32)")];
    match evm_log_event(&completed, &[0x01; 32].to_vec(), "t".to_string()) {
        Some(SolverEvent::OrderCompleted(c)) => assert_eq!(c.order_id, "01".repeat(32)),
        other => panic!("a completion, not {:?}", other),
    }
    let (topics, data) = opened_log();
    assert!(evm_log_event(&topics, &data, "t".to_string()).is_none());
    assert!(evm_log_event(&completed, &vec![1, 2], "t".to_string()).is_none());
}

#[test]
fn the_quoter_tracks_order_opened_logs() {
    let mut store = OrderStore::new();
    let (topics, data) = opened_log();
    assert_eq!(track_evm_log(&mut store, 1, &topics, &data), Some(true));
    assert_eq!(track_evm_log(&mut store, 1, &topics, &data), Some(false));
    let kept = store.get_order(&"aa".repeat(32)).unwrap();
    assert_eq!(kept.sender, format!("0x{}", "11".repeat(20)));
    assert_eq!(kept.amount_out, "990");
    assert_eq!(kept.dest_chain_id, 8453);
    assert_eq!(track_evm_log(&mut store, 1, &vec![], &data), Some(false));
    let completed = vec![topic("OrderCompleted(bytes32)")];
    assert_eq!(track_evm_log(&mut store, 1, &completed, &[1u8; 32].to_vec()), None);
    assert_eq!(store.get_all_orders().len(), 1);
}
