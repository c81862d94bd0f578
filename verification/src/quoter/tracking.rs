//! Reading opened orders off the chains: the Solana program's event and
//! order account layouts (Borsh), and the tracked order each chain's event
//! becomes.
use vstd::prelude::*;
use vstd::utf8::encode_utf8;
use crate::bytes::{
    base58_decode, base58_decoding, base58_encode, base58_encoding, hex_encode, hex_text,
    le_value, lemma_le_value_bound, lemma_pow256_values, read_bytes32, read_le,
};
use crate::solver::evm_logs::{decode_evm_log, log_decoding_of, topic_words, EvmLogEvent, LogDecoding};
use crate::quoter::order_store::{after_insert, OrderStore, OrderStoreView, TrackedOrder};
use crate::quoter::transactions::{encode_hex_0x, hex_0x};
use crate::text::{contains_str, contains_text, decimal, u128_to_decimal};

verus! {

broadcast use vstd::array::group_array_axioms;

/// The prefix of the program's self-invoked event instructions.
pub open spec fn event_instruction_prefix() -> Seq<u8> {
    seq![228u8, 69u8, 165u8, 46u8, 81u8, 203u8, 154u8, 29u8]
}

/// The discriminator of the program's order-opened event.
pub open spec fn order_opened_discriminator() -> Seq<u8> {
    seq![66u8, 178u8, 244u8, 109u8, 33u8, 137u8, 241u8, 61u8]
}

/// The order-opened event of the Solana program.
#[derive(Debug, Clone, Copy)]
pub struct OrderOpenedEvent {
    pub order_id: [u8; 32],
    pub sender: [u8; 32],
    pub token_in: [u8; 32],
    pub amount_in: u128,
    pub dest_chain_id: u32,
    pub token_out: [u8; 32],
    pub amount_out: u128,
    pub solver: [u8; 32],
}

/// The number of bytes the event's Borsh form takes.
pub open spec fn order_opened_size() -> int {
    196
}

/// `ev` is what the Borsh form at the start of `b` says: the fields in
/// order, integers little-endian.
pub open spec fn order_opened_layout(b: Seq<u8>, ev: OrderOpenedEvent) -> bool {
    &&& ev.order_id@ == b.subrange(0, 32)
    &&& ev.sender@ == b.subrange(32, 64)
    &&& ev.token_in@ == b.subrange(64, 96)
    &&& ev.amount_in == le_value(b.subrange(96, 112))
    &&& ev.dest_chain_id == le_value(b.subrange(112, 116))
    &&& ev.token_out@ == b.subrange(116, 148)
    &&& ev.amount_out == le_value(b.subrange(148, 164))
    &&& ev.solver@ == b.subrange(164, 196)
}

/// The instruction data of an order-opened event: the event prefix, the
/// event's discriminator, then its fields (anything after them is left
/// unread).
pub open spec fn is_order_opened_data(data: Seq<u8>) -> bool {
    &&& data.len() >= 16 + order_opened_size()
    &&& data.subrange(0, 8) == event_instruction_prefix()
    &&& data.subrange(8, 16) == order_opened_discriminator()
}

proof fn lemma_le_fits(b: Seq<u8>, n: nat)
    requires
        b.len() == n,
        n <= 16,
    ensures
        n <= 4 ==> le_value(b) < 0x1_0000_0000,
        le_value(b) < 0x1_0000_0000_0000_0000_0000_0000_0000_0000,
{
    lemma_le_value_bound(b);
    lemma_pow256_values();
    crate::bytes::lemma_pow256_mono(n, 16);
    if n <= 4 {
        crate::bytes::lemma_pow256_mono(n, 4);
    }
}

/// Reads the order-opened event whose Borsh form starts at `start`.
pub fn read_order_opened(data: &[u8], start: usize) -> (ev: OrderOpenedEvent)
    requires
        start + order_opened_size() <= data@.len(),
    ensures
        order_opened_layout(data@.subrange(start as int, data@.len() as int), ev),
{
    let ghost b = data@.subrange(start as int, data@.len() as int);
    let len = data.len();
    assert(start + 196 <= len);
    proof {
        lemma_le_fits(data@.subrange(start + 112, start + 116), 4);
        assert(b.subrange(96, 112) =~= data@.subrange(start + 96, start + 112));
        assert(b.subrange(112, 116) =~= data@.subrange(start + 112, start + 116));
        assert(b.subrange(148, 164) =~= data@.subrange(start + 148, start + 164));
        assert(b.subrange(0, 32) =~= data@.subrange(start as int, start + 32));
        assert(b.subrange(32, 64) =~= data@.subrange(start + 32, start + 64));
        assert(b.subrange(64, 96) =~= data@.subrange(start + 64, start + 96));
        assert(b.subrange(116, 148) =~= data@.subrange(start + 116, start + 148));
        assert(b.subrange(164, 196) =~= data@.subrange(start + 164, start + 196));
    }
    OrderOpenedEvent {
        order_id: read_bytes32(data, start),
        sender: read_bytes32(data, start + 32),
        token_in: read_bytes32(data, start + 64),
        amount_in: read_le(data, start + 96, 16),
        dest_chain_id: read_le(data, start + 112, 4) as u32,
        token_out: read_bytes32(data, start + 116),
        amount_out: read_le(data, start + 148, 16),
        solver: read_bytes32(data, start + 164),
    }
}

/// The order-opened event in an instruction's data, if it holds one.
pub fn decode_order_opened(data: &[u8]) -> (ev: Option<OrderOpenedEvent>)
    ensures
        match ev {
            Some(e) => is_order_opened_data(data@) && order_opened_layout(
                data@.subrange(16, data@.len() as int),
                e,
            ),
            None => !is_order_opened_data(data@),
        },
{
    if data.len() < 16 + 196 {
        return None;
    }
    let prefix: [u8; 8] = [228, 69, 165, 46, 81, 203, 154, 29];
    let disc: [u8; 8] = [66, 178, 244, 109, 33, 137, 241, 61];
    for i in 0..8
        invariant
            data@.len() >= 16 + 196,
            prefix@ == event_instruction_prefix(),
            disc@ == order_opened_discriminator(),
            forall|j: int| 0 <= j < i ==> data@[j] == prefix@[j] && data@[8 + j] == disc@[j],
    {
        if data[i] != prefix[i] || data[8 + i] != disc[i] {
            proof {
                if data@.subrange(0, 8) == event_instruction_prefix() {
                    assert(data@.subrange(0, 8)[i as int] == data@[i as int]);
                }
                if data@.subrange(8, 16) == order_opened_discriminator() {
                    assert(data@.subrange(8, 16)[i as int] == data@[8 + i]);
                }
            }
            return None;
        }
    }
    proof {
        assert(data@.subrange(0, 8) =~= event_instruction_prefix());
        assert(data@.subrange(8, 16) =~= order_opened_discriminator());
    }
    Some(read_order_opened(data, 16))
}

/// The first order-opened event among instruction data texts (base58, in
/// transaction order): texts that are not base58 or hold no such event are
/// passed over.
pub open spec fn first_order_opened(texts: Seq<Seq<u8>>) -> Option<int>
    decreases texts.len(),
{
    if texts.len() == 0 {
        None
    } else {
        match first_order_opened(texts.drop_last()) {
            Some(i) => Some(i),
            None => match base58_decoding(texts.last()) {
                Some(d) => if is_order_opened_data(d) {
                    Some(texts.len() - 1)
                } else {
                    None
                },
                None => None,
            },
        }
    }
}

/// The text that `first_order_opened` picks decodes to order-opened data.
proof fn lemma_first_order_opened(texts: Seq<Seq<u8>>)
    ensures
        first_order_opened(texts) matches Some(i) ==> 0 <= i < texts.len() && base58_decoding(
            texts[i],
        ) is Some && is_order_opened_data(base58_decoding(texts[i])->Some_0),
    decreases texts.len(),
{
    if texts.len() > 0 {
        lemma_first_order_opened(texts.drop_last());
        if first_order_opened(texts.drop_last()) is Some {
            let i = first_order_opened(texts.drop_last())->Some_0;
            assert(texts.drop_last()[i] == texts[i]);
        }
    }
}

/// The bytes of a list of texts.
pub open spec fn text_bytes(texts: Seq<String>) -> Seq<Seq<u8>> {
    texts.map_values(|t: String| encode_utf8(t@))
}

/// The order-opened event of a transaction, from the data of its inner
/// instructions (base58 texts, in order): the first that decodes to one.
pub fn parse_order_opened_event(instruction_data: &Vec<String>) -> (ev: Option<OrderOpenedEvent>)
    ensures
        match first_order_opened(text_bytes(instruction_data@)) {
            Some(i) => ev matches Some(e) && order_opened_layout(
                base58_decoding(text_bytes(instruction_data@)[i])->Some_0.subrange(
                    16,
                    base58_decoding(text_bytes(instruction_data@)[i])->Some_0.len() as int,
                ),
                e,
            ),
            None => ev is None,
        },
{
    let n = instruction_data.len();
    for i in 0..n
        invariant
            n == instruction_data@.len(),
            first_order_opened(text_bytes(instruction_data@).subrange(0, i as int)) is None,
    {
        let ghost all = text_bytes(instruction_data@);
        proof {
            assert(all.subrange(0, i + 1).drop_last() =~= all.subrange(0, i as int));
            assert(all.subrange(0, i + 1).last() == all[i as int]);
        }
        let bytes = instruction_data[i].as_str().as_bytes();
        match base58_decode(bytes) {
            Ok(decoded) => {
                match decode_order_opened(decoded.as_slice()) {
                    Some(e) => {
                        proof {
                            lemma_first_order_opened_extends(all, i as int);
                        }
                        return Some(e);
                    },
                    None => {},
                }
            },
            Err(_) => {},
        }
    }
    proof {
        assert(text_bytes(instruction_data@).subrange(0, n as int) =~= text_bytes(instruction_data@));
    }
    None
}

/// Where the first `i` texts hold no event and text `i` does, the first
/// event of the whole list is text `i`.
proof fn lemma_first_order_opened_extends(all: Seq<Seq<u8>>, i: int)
    requires
        0 <= i < all.len(),
        first_order_opened(all.subrange(0, i)) is None,
        first_order_opened(all.subrange(0, i + 1)) == Some(i),
    ensures
        first_order_opened(all) == Some(i),
    decreases all.len() - i,
{
    if i + 1 < all.len() {
        lemma_first_order_opened_prefix(all, i + 1, i);
    } else {
        assert(all.subrange(0, i + 1) =~= all);
    }
}

/// A list keeps the first event of any prefix that has one.
proof fn lemma_first_order_opened_prefix(all: Seq<Seq<u8>>, k: int, i: int)
    requires
        0 < k <= all.len(),
        first_order_opened(all.subrange(0, k)) == Some(i),
    ensures
        first_order_opened(all) == Some(i),
    decreases all.len() - k,
{
    if k == all.len() {
        assert(all.subrange(0, k) =~= all);
    } else {
        assert(all.subrange(0, k + 1).drop_last() =~= all.subrange(0, k));
        lemma_first_order_opened_prefix(all, k + 1, i);
    }
}

/// The status of an order account.
#[derive(Debug, Clone, Copy, PartialEq, Eq, Structural)]
pub enum SvmOrderStatus {
    DoesNotExist,
    Created,
    CancelRequested,
    Completed,
}

/// Whether an order account holds a native or a foreign order.
#[derive(Debug, Clone, Copy, PartialEq, Eq, Structural)]
pub enum SvmOrderType {
    Native,
    Foreign,
}

/// The order data of an order account.
#[derive(Debug, Clone, Copy)]
pub struct SvmNativeOrder {
    pub status: SvmOrderStatus,
    pub version: u16,
    pub sender: [u8; 32],
    pub nonce: u64,
    pub dest_chain_id: u32,
    pub fill_deadline: u64,
    pub cancel_requested_at: u64,
    pub token_in: [u8; 32],
    pub token_out: [u8; 32],
    pub amount_in: u128,
    pub amount_out: u128,
    pub recipient: [u8; 32],
    pub solver: [u8; 32],
    pub amount_in_released: u128,
    pub amount_out_filled: u128,
}

/// An order account of the Solana program.
#[derive(Debug, Clone, Copy)]
pub struct SvmOrder {
    pub order_type: SvmOrderType,
    pub bump: u8,
    pub data: SvmNativeOrder,
}

/// The order type a Borsh tag stands for.
pub open spec fn order_type_of(tag: u8) -> Option<SvmOrderType> {
    if tag == 0 {
        Some(SvmOrderType::Native)
    } else if tag == 1 {
        Some(SvmOrderType::Foreign)
    } else {
        None
    }
}

/// The status a Borsh tag stands for.
pub open spec fn status_of(tag: u8) -> Option<SvmOrderStatus> {
    if tag == 0 {
        Some(SvmOrderStatus::DoesNotExist)
    } else if tag == 1 {
        Some(SvmOrderStatus::Created)
    } else if tag == 2 {
        Some(SvmOrderStatus::CancelRequested)
    } else if tag == 3 {
        Some(SvmOrderStatus::Completed)
    } else {
        None
    }
}

/// The number of bytes an order's Borsh form takes.
pub open spec fn svm_order_size() -> int {
    257
}

/// An account's data holds an order: the eight-byte account discriminator,
/// then an order whose tags are known.
pub open spec fn holds_svm_order(data: Seq<u8>) -> bool {
    &&& data.len() >= 8 + svm_order_size()
    &&& order_type_of(data[8]) is Some
    &&& status_of(data[10]) is Some
}

/// `o` is what the order's Borsh form at the start of `b` says.
pub open spec fn svm_order_layout(b: Seq<u8>, o: SvmOrder) -> bool {
    &&& order_type_of(b[0]) == Some(o.order_type)
    &&& o.bump == b[1]
    &&& status_of(b[2]) == Some(o.data.status)
    &&& o.data.version == le_value(b.subrange(3, 5))
    &&& o.data.sender@ == b.subrange(5, 37)
    &&& o.data.nonce == le_value(b.subrange(37, 45))
    &&& o.data.dest_chain_id == le_value(b.subrange(45, 49))
    &&& o.data.fill_deadline == le_value(b.subrange(49, 57))
    &&& o.data.cancel_requested_at == le_value(b.subrange(57, 65))
    &&& o.data.token_in@ == b.subrange(65, 97)
    &&& o.data.token_out@ == b.subrange(97, 129)
    &&& o.data.amount_in == le_value(b.subrange(129, 145))
    &&& o.data.amount_out == le_value(b.subrange(145, 161))
    &&& o.data.recipient@ == b.subrange(161, 193)
    &&& o.data.solver@ == b.subrange(193, 225)
    &&& o.data.amount_in_released == le_value(b.subrange(225, 241))
    &&& o.data.amount_out_filled == le_value(b.subrange(241, 257))
}

/// Reads an unsigned integer of `n <= 16` little-endian bytes at `start`,
/// with the bound its width gives.
fn read_uint(data: &[u8], start: usize, n: usize) -> (v: u128)
    requires
        n <= 16,
        start + n <= data@.len(),
    ensures
        v == le_value(data@.subrange(start as int, start + n)),
        n <= 2 ==> v < 0x1_0000,
        n <= 4 ==> v < 0x1_0000_0000,
        n <= 8 ==> v < 0x1_0000_0000_0000_0000,
{
    let v = read_le(data, start, n);
    proof {
        lemma_le_value_bound(data@.subrange(start as int, start + n));
        lemma_pow256_values();
        if n <= 2 {
            crate::bytes::lemma_pow256_mono(n as nat, 2);
        }
        if n <= 4 {
            crate::bytes::lemma_pow256_mono(n as nat, 4);
        }
        if n <= 8 {
            crate::bytes::lemma_pow256_mono(n as nat, 8);
        }
    }
    v
}

/// The order in an order account's data, if it holds one.
pub fn decode_svm_order(data: &[u8]) -> (order: Option<SvmOrder>)
    ensures
        match order {
            Some(o) => holds_svm_order(data@) && svm_order_layout(
                data@.subrange(8, data@.len() as int),
                o,
            ),
            None => !holds_svm_order(data@),
        },
{
    let len = data.len();
    if len < 8 + 257 {
        return None;
    }
    let order_type = if data[8] == 0 {
        SvmOrderType::Native
    } else if data[8] == 1 {
        SvmOrderType::Foreign
    } else {
        return None;
    };
    let status = if data[10] == 0 {
        SvmOrderStatus::DoesNotExist
    } else if data[10] == 1 {
        SvmOrderStatus::Created
    } else if data[10] == 2 {
        SvmOrderStatus::CancelRequested
    } else if data[10] == 3 {
        SvmOrderStatus::Completed
    } else {
        return None;
    };
    let b: usize = 8;
    let order = SvmOrder {
        order_type,
        bump: data[9],
        data: SvmNativeOrder {
            status,
            version: read_uint(data, b + 3, 2) as u16,
            sender: read_bytes32(data, b + 5),
            nonce: read_uint(data, b + 37, 8) as u64,
            dest_chain_id: read_uint(data, b + 45, 4) as u32,
            fill_deadline: read_uint(data, b + 49, 8) as u64,
            cancel_requested_at: read_uint(data, b + 57, 8) as u64,
            token_in: read_bytes32(data, b + 65),
            token_out: read_bytes32(data, b + 97),
            amount_in: read_uint(data, b + 129, 16),
            amount_out: read_uint(data, b + 145, 16),
            recipient: read_bytes32(data, b + 161),
            solver: read_bytes32(data, b + 193),
            amount_in_released: read_uint(data, b + 225, 16),
            amount_out_filled: read_uint(data, b + 241, 16),
        },
    };
    proof {
        let s = data@.subrange(8, data@.len() as int);
        assert(s.subrange(3, 5) =~= data@.subrange(11, 13));
        assert(s.subrange(5, 37) =~= data@.subrange(13, 45));
        assert(s.subrange(37, 45) =~= data@.subrange(45, 53));
        assert(s.subrange(45, 49) =~= data@.subrange(53, 57));
        assert(s.subrange(49, 57) =~= data@.subrange(57, 65));
        assert(s.subrange(57, 65) =~= data@.subrange(65, 73));
        assert(s.subrange(65, 97) =~= data@.subrange(73, 105));
        assert(s.subrange(97, 129) =~= data@.subrange(105, 137));
        assert(s.subrange(129, 145) =~= data@.subrange(137, 153));
        assert(s.subrange(145, 161) =~= data@.subrange(153, 169));
        assert(s.subrange(161, 193) =~= data@.subrange(169, 201));
        assert(s.subrange(193, 225) =~= data@.subrange(201, 233));
        assert(s.subrange(225, 241) =~= data@.subrange(233, 249));
        assert(s.subrange(241, 257) =~= data@.subrange(249, 265));
    }
    Some(order)
}

/// Whether a transaction's logs show a call of `OpenOrder`.
pub open spec fn mentions_open_order_spec(logs: Seq<String>) -> bool {
    exists|i: int| 0 <= i < logs.len() && contains_text(logs[i]@, "Program log: Instruction: OpenOrder"@)
}

/// Whether a transaction's logs show a call of `OpenOrder`.
pub fn mentions_open_order(logs: &Vec<String>) -> (found: bool)
    ensures
        found == mentions_open_order_spec(logs@),
{
    let n = logs.len();
    for i in 0..n
        invariant
            n == logs@.len(),
            forall|j: int|
                0 <= j < i ==> !contains_text(logs@[j]@, "Program log: Instruction: OpenOrder"@),
    {
        if contains_str(logs[i].as_str(), "Program log: Instruction: OpenOrder") {
            return true;
        }
    }
    false
}

/// The id under which a Solana order is tracked: `0x` and its hexadecimal
/// digits.
pub fn svm_order_key(ev: &OrderOpenedEvent) -> (id: String)
    ensures
        id@ == hex_0x(ev.order_id@),
{
    encode_hex_0x(&ev.order_id)
}

/// The tracked order of a Solana order: addresses in base58, 32-byte values
/// in `0x` hexadecimal, amounts in decimal.
pub open spec fn is_svm_tracked(t: TrackedOrder, chain_id: u32, ev: OrderOpenedEvent, o: SvmOrder) -> bool {
    &&& t.order_id@ == hex_0x(ev.order_id@)
    &&& t.origin_chain_id == chain_id
    &&& t.sender@ == base58_encoding(o.data.sender@)
    &&& t.token_in@ == base58_encoding(o.data.token_in@)
    &&& t.amount_in@ == decimal(o.data.amount_in as nat)
    &&& t.dest_chain_id == o.data.dest_chain_id
    &&& t.token_out@ == hex_0x(o.data.token_out@)
    &&& t.amount_out@ == decimal(o.data.amount_out as nat)
    &&& t.solver@ == hex_0x(o.data.solver@)
}

/// The tracked order of a Solana order.
pub fn tracked_from_svm(chain_id: u32, ev: &OrderOpenedEvent, order: &SvmOrder) -> (t: TrackedOrder)
    ensures
        is_svm_tracked(t, chain_id, *ev, *order),
{
    TrackedOrder {
        order_id: encode_hex_0x(&ev.order_id),
        origin_chain_id: chain_id,
        sender: base58_encode(&order.data.sender),
        token_in: base58_encode(&order.data.token_in),
        amount_in: u128_to_decimal(order.data.amount_in),
        dest_chain_id: order.data.dest_chain_id,
        token_out: encode_hex_0x(&order.data.token_out),
        amount_out: u128_to_decimal(order.data.amount_out),
        solver: encode_hex_0x(&order.data.solver),
    }
}

/// What recording a Solana order does to the store `v` (giving `w` and
/// `kept`): an order id already tracked is skipped; otherwise the order of
/// the account's data is recorded, or nothing where the data holds no
/// order.
pub open spec fn svm_track_step(
    v: OrderStoreView,
    chain_id: u32,
    ev: OrderOpenedEvent,
    account: Seq<u8>,
    kept: Option<TrackedOrder>,
    w: OrderStoreView,
) -> bool {
    if v.orders.contains_key(hex_0x(ev.order_id@)) {
        kept is None && w == v
    } else {
        match kept {
            Some(t) => holds_svm_order(account) && (exists|o: SvmOrder|
                svm_order_layout(account.subrange(8, account.len() as int), o) && is_svm_tracked(
                    t,
                    chain_id,
                    ev,
                    o,
                )) && w == after_insert(v, t),
            None => !holds_svm_order(account) && w == v,
        }
    }
}

/// Records a Solana order from its account's data unless its id is already
/// tracked (see `svm_track_step`).
pub fn track_svm_order(store: &mut OrderStore, chain_id: u32, ev: &OrderOpenedEvent, account: &[u8]) -> (kept: Option<TrackedOrder>)
    requires
        old(store).wf(),
    ensures
        final(store).wf(),
        svm_track_step(old(store)@, chain_id, *ev, account@, kept, final(store)@),
{
    let id = svm_order_key(ev);
    if store.has_order(id.as_str()) {
        return None;
    }
    match decode_svm_order(account) {
        None => None,
        Some(order) => {
            let t = tracked_from_svm(chain_id, ev, &order);
            store.insert_order(t.duplicate());
            Some(t)
        },
    }
}

/// A tracked Solana order is never replaced: recording an order leaves
/// every order that was already tracked as it was.
pub proof fn law_tracked_svm_orders_never_replaced(
    v: OrderStoreView,
    chain_id: u32,
    ev: OrderOpenedEvent,
    account: Seq<u8>,
    kept: Option<TrackedOrder>,
    w: OrderStoreView,
    id: Seq<char>,
)
    requires
        svm_track_step(v, chain_id, ev, account, kept, w),
        v.orders.contains_key(id),
    ensures
        w.orders.contains_key(id),
        w.orders[id] == v.orders[id],
{
}

/// The order-opened event of the EVM order book, as plain values.
#[derive(Debug, Clone, Copy)]
pub struct EvmOrderOpened {
    pub order_id: [u8; 32],
    pub sender: [u8; 20],
    pub token_in: [u8; 20],
    pub amount_in: u128,
    pub dest_chain_id: u32,
    pub token_out: [u8; 32],
    pub amount_out: u128,
    pub solver: [u8; 32],
}

/// The tracked order of an EVM order: the order id, output token and solver
/// in plain hexadecimal, the sender and input token as `0x` addresses,
/// amounts in decimal.
pub open spec fn is_evm_tracked(t: TrackedOrder, chain_id: u32, ev: EvmOrderOpened) -> bool {
    &&& t.order_id@ == hex_text(ev.order_id@)
    &&& t.origin_chain_id == chain_id
    &&& t.sender@ == hex_0x(ev.sender@)
    &&& t.token_in@ == hex_0x(ev.token_in@)
    &&& t.amount_in@ == decimal(ev.amount_in as nat)
    &&& t.dest_chain_id == ev.dest_chain_id
    &&& t.token_out@ == hex_text(ev.token_out@)
    &&& t.amount_out@ == decimal(ev.amount_out as nat)
    &&& t.solver@ == hex_text(ev.solver@)
}

/// The tracked order of an EVM order.
pub fn tracked_from_evm(chain_id: u32, ev: &EvmOrderOpened) -> (t: TrackedOrder)
    ensures
        is_evm_tracked(t, chain_id, *ev),
{
    TrackedOrder {
        order_id: hex_encode(&ev.order_id),
        origin_chain_id: chain_id,
        sender: encode_hex_0x(&ev.sender),
        token_in: encode_hex_0x(&ev.token_in),
        amount_in: u128_to_decimal(ev.amount_in),
        dest_chain_id: ev.dest_chain_id,
        token_out: hex_encode(&ev.token_out),
        amount_out: u128_to_decimal(ev.amount_out),
        solver: hex_encode(&ev.solver),
    }
}

/// Records an EVM order unless its id is already tracked; returns whether
/// it was recorded.
pub fn track_evm_order(store: &mut OrderStore, chain_id: u32, ev: &EvmOrderOpened) -> (recorded: bool)
    requires
        old(store).wf(),
    ensures
        final(store).wf(),
        recorded == !old(store)@.orders.contains_key(hex_text(ev.order_id@)),
        recorded ==> exists|t: TrackedOrder|
            is_evm_tracked(t, chain_id, *ev) && final(store)@ == after_insert(old(store)@, t),
        !recorded ==> final(store)@ == old(store)@,
{
    let t = tracked_from_evm(chain_id, ev);
    if store.has_order(t.order_id.as_str()) {
        return false;
    }
    store.insert_order(t);
    true
}

/// The data of the order-opened event a transaction's inner instructions
/// carry, where one does.
pub open spec fn opened_event_data(instructions: Seq<String>) -> Option<Seq<u8>> {
    match first_order_opened(text_bytes(instructions)) {
        Some(i) => Some(base58_decoding(text_bytes(instructions)[i])->Some_0),
        None => None,
    }
}

/// A log update gives nothing to track: its logs show no `OpenOrder`, its
/// transaction carries no order-opened event, or the event's order is
/// already tracked.
pub open spec fn no_update_event(v: OrderStoreView, logs: Seq<String>, instructions: Seq<String>) -> bool {
    ||| !mentions_open_order_spec(logs)
    ||| opened_event_data(instructions) is None
    ||| v.orders.contains_key(hex_0x(opened_event_data(instructions)->Some_0.subrange(16, 48)))
}

/// `e` is the order-opened event of a log update that is to be tracked.
pub open spec fn update_event(
    v: OrderStoreView,
    logs: Seq<String>,
    instructions: Seq<String>,
    e: OrderOpenedEvent,
) -> bool {
    &&& !no_update_event(v, logs, instructions)
    &&& order_opened_layout(
        opened_event_data(instructions)->Some_0.subrange(
            16,
            opened_event_data(instructions)->Some_0.len() as int,
        ),
        e,
    )
}

/// What a log update does to the store `v` (giving `w` and `kept`), the
/// order account having been read as `account` (`None` where the read
/// failed): nothing where the update gives nothing to track or the read
/// failed; otherwise what recording the order does (see `svm_track_step`).
pub open spec fn svm_update_outcome(
    v: OrderStoreView,
    chain_id: u32,
    logs: Seq<String>,
    instructions: Seq<String>,
    e: OrderOpenedEvent,
    account: Option<Seq<u8>>,
    kept: Option<TrackedOrder>,
    w: OrderStoreView,
) -> bool {
    if no_update_event(v, logs, instructions) {
        kept is None && w == v
    } else {
        update_event(v, logs, instructions, e) && match account {
            None => kept is None && w == v,
            Some(d) => svm_track_step(v, chain_id, e, d, kept, w),
        }
    }
}

/// The order-opened event of a log update that is to be tracked, if any
/// (see `update_event`).
pub fn svm_update_event(store: &OrderStore, logs: &Vec<String>, instructions: &Vec<String>) -> (ev: Option<
    OrderOpenedEvent,
>)
    requires
        store.wf(),
    ensures
        match ev {
            Some(e) => update_event(store@, logs@, instructions@, e),
            None => no_update_event(store@, logs@, instructions@),
        },
{
    if !mentions_open_order(logs) {
        return None;
    }
    let e = match parse_order_opened_event(instructions) {
        Some(e) => e,
        None => return None,
    };
    proof {
        lemma_first_order_opened(text_bytes(instructions@));
        let d = opened_event_data(instructions@)->Some_0;
        assert(e.order_id@ == d.subrange(16, d.len() as int).subrange(0, 32));
        assert(d.subrange(16, d.len() as int).subrange(0, 32) =~= d.subrange(16, 48));
    }
    let id = svm_order_key(&e);
    if store.has_order(id.as_str()) {
        None
    } else {
        Some(e)
    }
}

/// Handles a log update of the Solana order book: where it shows an
/// `OpenOrder` call whose transaction carries an order-opened event of an
/// order not yet tracked, the order's account is read with `read_account`
/// (given the order id) and the order it holds is recorded (see
/// `svm_update_outcome`).
pub fn track_svm_update<F: Fn([u8; 32]) -> Option<Vec<u8>>>(
    store: &mut OrderStore,
    chain_id: u32,
    logs: &Vec<String>,
    instructions: &Vec<String>,
    read_account: F,
) -> (kept: Option<TrackedOrder>)
    requires
        old(store).wf(),
        forall|id: [u8; 32]| call_requires(read_account, (id,)),
    ensures
        final(store).wf(),
        no_update_event(old(store)@, logs@, instructions@) ==> kept is None && final(store)@ == old(
            store,
        )@,
        !no_update_event(old(store)@, logs@, instructions@) ==> exists|
            e: OrderOpenedEvent,
            account: Option<Vec<u8>>,
        |
            #[trigger] call_ensures(read_account, (e.order_id,), account) && svm_update_outcome(
                old(store)@,
                chain_id,
                logs@,
                instructions@,
                e,
                match account {
                    Some(a) => Some(a@),
                    None => None,
                },
                kept,
                final(store)@,
            ),
{
    let e = match svm_update_event(store, logs, instructions) {
        Some(e) => e,
        None => return None,
    };
    let account = read_account(e.order_id);
    match account {
        None => None,
        Some(a) => {
            let ghost a_ghost = a;
            let kept = track_svm_order(store, chain_id, &e, a.as_slice());
            proof {
                assert(call_ensures(read_account, (e.order_id,), Some(a_ghost)));
            }
            kept
        },
    }
}

/// A log update adds at most one order and replaces none: either the store
/// is as it was, or the update's logs show `OpenOrder`, its transaction
/// carries an order-opened event of an untracked order, the order's
/// account holds an order, and exactly that order is added under `0x` and
/// the event's id, with the listening chain as its origin.
pub proof fn law_svm_update_adds_at_most_one_order(
    v: OrderStoreView,
    chain_id: u32,
    logs: Seq<String>,
    instructions: Seq<String>,
    e: OrderOpenedEvent,
    account: Option<Seq<u8>>,
    kept: Option<TrackedOrder>,
    w: OrderStoreView,
    id: Seq<char>,
)
    requires
        svm_update_outcome(v, chain_id, logs, instructions, e, account, kept, w),
    ensures
        (kept is None && w == v) || (kept matches Some(t) && (mentions_open_order_spec(logs)
            && opened_event_data(instructions) is Some && (account matches Some(d) && holds_svm_order(d))
            && t.order_id@ == hex_0x(e.order_id@) && !v.orders.contains_key(t.order_id@)
            && t.origin_chain_id == chain_id && w == after_insert(v, t))),
        v.orders.contains_key(id) ==> w.orders.contains_key(id) && w.orders[id] == v.orders[id],
{
}


/// Tracks the order an order-opened log of the EVM order book introduces
/// (see `log_decoding_of`): a log without topics is passed over
/// (`Some(false)`); a log that is not an order-opened event or does not
/// decode is refused (`None`); otherwise the order is recorded unless its
/// id is already tracked (see `track_evm_order`), and `Some` says whether
/// it was.
pub fn track_evm_log(store: &mut OrderStore, chain_id: u32, topics: &Vec<[u8; 32]>, data: &Vec<u8>) -> (recorded: Option<bool>)
    requires
        old(store).wf(),
    ensures
        final(store).wf(),
        topics@.len() == 0 ==> recorded == Some(false) && final(store)@ == old(store)@,
        exists|d: LogDecoding|
            #[trigger] log_decoding_of(topic_words(topics@), data@, d) && match d {
                LogDecoding::Decoded(EvmLogEvent::OrderOpened(o)) => {
                    &&& recorded == Some(!old(store)@.orders.contains_key(hex_text(o.order_id@)))
                    &&& recorded == Some(true) ==> exists|t: TrackedOrder|
                        is_evm_tracked(t, chain_id, o) && final(store)@ == after_insert(old(store)@, t)
                    &&& recorded == Some(false) ==> final(store)@ == old(store)@
                },
                _ => final(store)@ == old(store)@ && (topics@.len() > 0 ==> recorded is None),
            },
{
    if topics.len() == 0 {
        proof {
            assert(log_decoding_of(topic_words(topics@), data@, LogDecoding::Ignored));
        }
        return Some(false);
    }
    let d = decode_evm_log(topics, data);
    match d {
        LogDecoding::Decoded(EvmLogEvent::OrderOpened(o)) => Some(track_evm_order(store, chain_id, &o)),
        _ => None,
    }
}

} // verus!
