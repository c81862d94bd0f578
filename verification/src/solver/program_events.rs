//! Discriminators of the order-book program's events on Solana: the first
//! eight bytes of the SHA-256 digest of `event:` and the event's name.
use vstd::prelude::*;
use vstd::utf8::encode_utf8;
use crate::hashing::{sha256, sha256_digest};
use crate::bytes::{
    base58_decode, base58_decoding, lemma_le_value_bound, lemma_pow256_values, le_value, read_bytes32,
    read_le,
};
use crate::quoter::tracking::{order_opened_layout, read_order_opened, OrderOpenedEvent};

verus! {

/// The eight-byte discriminator of the program event called `name`.
pub open spec fn event_discriminator(name: Seq<char>) -> Seq<u8> {
    sha256_digest(encode_utf8("event:"@ + name)).subrange(0, 8)
}

/// The eight-byte discriminator of the program event called `name`.
pub fn event_hash(name: &str) -> (hash: [u8; 8])
    ensures
        hash@ == event_discriminator(name@),
{
    let text = String::from_str("event:").concat(name);
    let digest = sha256(text.as_str().as_bytes());
    let hash: [u8; 8] = [
        digest[0],
        digest[1],
        digest[2],
        digest[3],
        digest[4],
        digest[5],
        digest[6],
        digest[7],
    ];
    proof {
        reveal_strlit("event:");
        assert(hash@ =~= digest@.subrange(0, 8));
    }
    hash
}

/// The program events the solver recognises by discriminator.
#[derive(Debug, Clone, Copy, PartialEq, Eq, Structural)]
pub enum EventDiscriminator {
    OrderOpened,
}

impl EventDiscriminator {
    /// The event's name in the program.
    pub open spec fn name(self) -> Seq<char> {
        match self {
            EventDiscriminator::OrderOpened => "OrderOpened"@,
        }
    }

    /// The event's eight-byte discriminator.
    pub fn discriminator(&self) -> (hash: [u8; 8])
        ensures
            hash@ == event_discriminator(self.name()),
    {
        match self {
            EventDiscriminator::OrderOpened => event_hash("OrderOpened"),
        }
    }
}

/// The eight-byte discriminator of the program instruction called `name`.
pub open spec fn instruction_discriminator(name: Seq<char>) -> Seq<u8> {
    sha256_digest(encode_utf8("global:"@ + name)).subrange(0, 8)
}

/// The eight-byte discriminator of the program instruction called `name`.
pub fn anchor_discriminator(name: &str) -> (hash: Vec<u8>)
    ensures
        hash@ == instruction_discriminator(name@),
{
    let text = String::from_str("global:").concat(name);
    let digest = sha256(text.as_str().as_bytes());
    let mut hash: Vec<u8> = Vec::new();
    let mut i: usize = 0;
    while i < 8
        invariant
            i <= 8,
            digest@.len() == 32,
            hash@ == digest@.subrange(0, i as int),
        decreases 8 - i,
    {
        hash.push(digest[i]);
        proof {
            assert(digest@.subrange(0, i + 1) =~= digest@.subrange(0, i as int).push(digest@[i as int]));
        }
        i = i + 1;
    }
    hash
}

/// The prefix of the instructions through which the program emits events
/// (Anchor's `emit_cpi`).
pub open spec fn cpi_event_prefix() -> Seq<u8> {
    seq![228u8, 69u8, 165u8, 46u8, 81u8, 203u8, 154u8, 29u8]
}

/// The events of the order-book program.
#[derive(Debug, Clone, Copy, PartialEq, Eq, Structural)]
pub enum ProgramEventKind {
    OrderOpened,
    OrderFilled,
    OrderCompleted,
    CancelRequested,
    FillReported,
    RefundClaimed,
}

impl ProgramEventKind {
    /// The event's name in the program.
    pub open spec fn name(self) -> Seq<char> {
        match self {
            ProgramEventKind::OrderOpened => "OrderOpened"@,
            ProgramEventKind::OrderFilled => "OrderFilled"@,
            ProgramEventKind::OrderCompleted => "OrderCompleted"@,
            ProgramEventKind::CancelRequested => "CancelRequested"@,
            ProgramEventKind::FillReported => "FillReported"@,
            ProgramEventKind::RefundClaimed => "RefundClaimed"@,
        }
    }
}

/// The event whose discriminator is `d`, trying the events in the order
/// the listener does.
pub open spec fn event_with_discriminator(d: Seq<u8>) -> Option<ProgramEventKind> {
    if d == event_discriminator("OrderOpened"@) {
        Some(ProgramEventKind::OrderOpened)
    } else if d == event_discriminator("OrderFilled"@) {
        Some(ProgramEventKind::OrderFilled)
    } else if d == event_discriminator("OrderCompleted"@) {
        Some(ProgramEventKind::OrderCompleted)
    } else if d == event_discriminator("CancelRequested"@) {
        Some(ProgramEventKind::CancelRequested)
    } else if d == event_discriminator("FillReported"@) {
        Some(ProgramEventKind::FillReported)
    } else if d == event_discriminator("RefundClaimed"@) {
        Some(ProgramEventKind::RefundClaimed)
    } else {
        None
    }
}

pub(crate) fn same_bytes(a: &[u8], b: &[u8; 8]) -> (same: bool)
    requires
        a@.len() == 8,
    ensures
        same == (a@ == b@),
{
    let mut i: usize = 0;
    while i < 8
        invariant
            i <= 8,
            a@.len() == 8,
            forall|j: int| 0 <= j < i ==> a@[j] == b@[j],
        decreases 8 - i,
    {
        if a[i] != b[i] {
            return false;
        }
        i = i + 1;
    }
    proof {
        assert(a@ =~= b@);
    }
    true
}

/// The program event an emitted instruction's data carries: the data must
/// start with the event prefix, then a known event's discriminator; the
/// event's fields follow (from byte 16).
pub open spec fn program_event_of(data: Seq<u8>) -> Option<ProgramEventKind> {
    if data.len() < 16 || data.subrange(0, 8) != cpi_event_prefix() {
        None
    } else {
        event_with_discriminator(data.subrange(8, 16))
    }
}

/// The program event an emitted instruction's data carries.
pub fn classify_program_event(data: &[u8]) -> (kind: Option<ProgramEventKind>)
    ensures
        kind == program_event_of(data@),
{
    if data.len() < 16 {
        return None;
    }
    let prefix: [u8; 8] = [228, 69, 165, 46, 81, 203, 154, 29];
    let head = vstd::slice::slice_subrange(data, 0, 8);
    if !same_bytes(head, &prefix) {
        return None;
    }
    let d = vstd::slice::slice_subrange(data, 8, 16);
    if same_bytes(d, &event_hash("OrderOpened")) {
        Some(ProgramEventKind::OrderOpened)
    } else if same_bytes(d, &event_hash("OrderFilled")) {
        Some(ProgramEventKind::OrderFilled)
    } else if same_bytes(d, &event_hash("OrderCompleted")) {
        Some(ProgramEventKind::OrderCompleted)
    } else if same_bytes(d, &event_hash("CancelRequested")) {
        Some(ProgramEventKind::CancelRequested)
    } else if same_bytes(d, &event_hash("FillReported")) {
        Some(ProgramEventKind::FillReported)
    } else if same_bytes(d, &event_hash("RefundClaimed")) {
        Some(ProgramEventKind::RefundClaimed)
    } else {
        None
    }
}

/// The fields of an order-filled event.
#[derive(Debug, Clone, Copy)]
pub struct OrderFilledFields {
    pub order_id: [u8; 32],
    pub solver: [u8; 32],
    pub amount_in_to_release: u128,
    pub amount_out_filled: u128,
}

/// The fields of a cancel-requested event.
#[derive(Debug, Clone, Copy)]
pub struct CancelRequestedFields {
    pub order_id: [u8; 32],
    pub cancel_requested_at: u64,
}

/// The fields of a fill-reported event.
#[derive(Debug, Clone, Copy)]
pub struct FillReportedFields {
    pub order_id: [u8; 32],
    pub amount_in_to_release: u128,
    pub amount_out_filled: u128,
    pub origin_recipient: [u8; 32],
}

/// The fields of a refund-claimed event.
#[derive(Debug, Clone, Copy)]
pub struct RefundClaimedFields {
    pub order_id: [u8; 32],
    pub sender: [u8; 32],
    pub amount: u64,
}

/// The decoded fields of a program event.
#[derive(Debug, Clone, Copy)]
pub enum EventFields {
    OrderOpened(OrderOpenedEvent),
    OrderFilled(OrderFilledFields),
    OrderCompleted([u8; 32]),
    CancelRequested(CancelRequestedFields),
    FillReported(FillReportedFields),
    RefundClaimed(RefundClaimedFields),
}

/// The number of bytes the Borsh form of each event's fields takes (32-byte
/// keys and ids, `u128` and `u64` amounts, the `u32` chain id).
pub open spec fn fields_size(kind: ProgramEventKind) -> int {
    match kind {
        ProgramEventKind::OrderOpened => 196,
        ProgramEventKind::OrderFilled => 96,
        ProgramEventKind::OrderCompleted => 32,
        ProgramEventKind::CancelRequested => 40,
        ProgramEventKind::FillReported => 96,
        ProgramEventKind::RefundClaimed => 72,
    }
}

/// The event a set of fields belongs to.
pub open spec fn fields_kind(f: EventFields) -> ProgramEventKind {
    match f {
        EventFields::OrderOpened(_) => ProgramEventKind::OrderOpened,
        EventFields::OrderFilled(_) => ProgramEventKind::OrderFilled,
        EventFields::OrderCompleted(_) => ProgramEventKind::OrderCompleted,
        EventFields::CancelRequested(_) => ProgramEventKind::CancelRequested,
        EventFields::FillReported(_) => ProgramEventKind::FillReported,
        EventFields::RefundClaimed(_) => ProgramEventKind::RefundClaimed,
    }
}

/// The Borsh layout of each event's fields, in declaration order, integers
/// little-endian: `b` (the bytes after the discriminator) starts with `f`.
/// Order opened: id, sender, input token, amount in (`u128`), destination
/// chain (`u32`), output token, amount out (`u128`), solver. Order filled:
/// id, solver, amount in to release, amount out filled (`u128` each).
/// Order completed: id. Cancel requested: id, time of the request (`u64`).
/// Fill reported: id, amount in to release, amount out filled (`u128`
/// each), origin recipient. Refund claimed: id, sender, amount (`u64`).
pub open spec fn fields_layout(b: Seq<u8>, f: EventFields) -> bool {
    match f {
        EventFields::OrderOpened(e) => order_opened_layout(b, e),
        EventFields::OrderFilled(e) => {
            &&& e.order_id@ == b.subrange(0, 32)
            &&& e.solver@ == b.subrange(32, 64)
            &&& e.amount_in_to_release == le_value(b.subrange(64, 80))
            &&& e.amount_out_filled == le_value(b.subrange(80, 96))
        },
        EventFields::OrderCompleted(id) => id@ == b.subrange(0, 32),
        EventFields::CancelRequested(e) => {
            &&& e.order_id@ == b.subrange(0, 32)
            &&& e.cancel_requested_at == le_value(b.subrange(32, 40))
        },
        EventFields::FillReported(e) => {
            &&& e.order_id@ == b.subrange(0, 32)
            &&& e.amount_in_to_release == le_value(b.subrange(32, 48))
            &&& e.amount_out_filled == le_value(b.subrange(48, 64))
            &&& e.origin_recipient@ == b.subrange(64, 96)
        },
        EventFields::RefundClaimed(e) => {
            &&& e.order_id@ == b.subrange(0, 32)
            &&& e.sender@ == b.subrange(32, 64)
            &&& e.amount == le_value(b.subrange(64, 72))
        },
    }
}

proof fn lemma_le_bounds(b: Seq<u8>)
    ensures
        b.len() == 8 ==> le_value(b) <= u64::MAX,
        b.len() == 16 ==> le_value(b) <= u128::MAX,
{
    lemma_le_value_bound(b);
    lemma_pow256_values();
}

/// Decodes the fields of an event of `kind` from `data` (the event prefix
/// and discriminator, then the fields from byte 16).
pub fn decode_event_fields(kind: ProgramEventKind, data: &[u8]) -> (f: EventFields)
    requires
        data@.len() >= 16 + fields_size(kind),
    ensures
        fields_kind(f) == kind,
        fields_layout(data@.subrange(16, data@.len() as int), f),
{
    let ghost b = data@.subrange(16, data@.len() as int);
    proof {
        assert forall|i: int, j: int| 0 <= i <= j <= b.len() implies #[trigger] b.subrange(i, j)
            == data@.subrange(16 + i, 16 + j) by {
            assert(b.subrange(i, j) =~= data@.subrange(16 + i, 16 + j));
        }
        lemma_le_bounds(data@.subrange(48, 56));
        lemma_le_bounds(data@.subrange(56, 64));
        lemma_le_bounds(data@.subrange(80, 96));
        lemma_le_bounds(data@.subrange(64, 80));
        lemma_le_bounds(data@.subrange(96, 112));
        lemma_le_bounds(data@.subrange(80, 88));
    }
    match kind {
        ProgramEventKind::OrderOpened => EventFields::OrderOpened(read_order_opened(data, 16)),
        ProgramEventKind::OrderFilled => {
            let e = OrderFilledFields {
                order_id: read_bytes32(data, 16),
                solver: read_bytes32(data, 48),
                amount_in_to_release: read_le(data, 80, 16),
                amount_out_filled: read_le(data, 96, 16),
            };
            proof {
                assert(b.subrange(0, 32) == data@.subrange(16, 48));
                assert(b.subrange(32, 64) == data@.subrange(48, 80));
                assert(b.subrange(64, 80) == data@.subrange(80, 96));
                assert(b.subrange(80, 96) == data@.subrange(96, 112));
            }
            EventFields::OrderFilled(e)
        },
        ProgramEventKind::OrderCompleted => {
            let id = read_bytes32(data, 16);
            proof {
                assert(b.subrange(0, 32) == data@.subrange(16, 48));
            }
            EventFields::OrderCompleted(id)
        },
        ProgramEventKind::CancelRequested => {
            let at = read_le(data, 48, 8);
            proof {
                assert(b.subrange(0, 32) == data@.subrange(16, 48));
                assert(b.subrange(32, 40) == data@.subrange(48, 56));
            }
            EventFields::CancelRequested(
                CancelRequestedFields { order_id: read_bytes32(data, 16), cancel_requested_at: at as u64 },
            )
        },
        ProgramEventKind::FillReported => {
            let e = FillReportedFields {
                order_id: read_bytes32(data, 16),
                amount_in_to_release: read_le(data, 48, 16),
                amount_out_filled: read_le(data, 64, 16),
                origin_recipient: read_bytes32(data, 80),
            };
            proof {
                assert(b.subrange(0, 32) == data@.subrange(16, 48));
                assert(b.subrange(32, 48) == data@.subrange(48, 64));
                assert(b.subrange(48, 64) == data@.subrange(64, 80));
                assert(b.subrange(64, 96) == data@.subrange(80, 112));
            }
            EventFields::FillReported(e)
        },
        ProgramEventKind::RefundClaimed => {
            let amount = read_le(data, 80, 8);
            proof {
                assert(b.subrange(0, 32) == data@.subrange(16, 48));
                assert(b.subrange(32, 64) == data@.subrange(48, 80));
                assert(b.subrange(64, 72) == data@.subrange(80, 88));
            }
            EventFields::RefundClaimed(
                RefundClaimedFields {
                    order_id: read_bytes32(data, 16),
                    sender: read_bytes32(data, 48),
                    amount: amount as u64,
                },
            )
        },
    }
}

/// An emitted program event: its kind, its data (from the prefix on) and
/// its decoded fields.
#[derive(Debug, Clone)]
pub struct ProgramEvent {
    pub kind: ProgramEventKind,
    pub data: Vec<u8>,
    pub fields: EventFields,
}

/// The program events among a transaction's inner instructions, whose data
/// are base58 texts in transaction order: texts that do not decode, do not
/// carry a known event, or are too short for that event's fields are
/// passed over.
pub open spec fn program_events_in(texts: Seq<Seq<u8>>) -> Seq<(ProgramEventKind, Seq<u8>)>
    decreases texts.len(),
{
    if texts.len() == 0 {
        Seq::empty()
    } else {
        let rest = program_events_in(texts.drop_last());
        match base58_decoding(texts.last()) {
            Some(d) => match program_event_of(d) {
                Some(k) => if d.len() >= 16 + fields_size(k) {
                    rest.push((k, d))
                } else {
                    rest
                },
                None => rest,
            },
            None => rest,
        }
    }
}

/// The program events of a transaction (see `program_events_in`), each with
/// its fields decoded (see `fields_layout`).
pub fn parse_program_events(instruction_data: &Vec<String>) -> (events: Vec<ProgramEvent>)
    ensures
        events@.map_values(|e: ProgramEvent| (e.kind, e.data@)) == program_events_in(
            instruction_data@.map_values(|t: String| encode_utf8(t@)),
        ),
        forall|i: int|
            0 <= i < events@.len() ==> fields_kind(#[trigger] events@[i].fields) == events@[i].kind
                && fields_layout(
                events@[i].data@.subrange(16, events@[i].data@.len() as int),
                events@[i].fields,
            ),
{
    let ghost all = instruction_data@.map_values(|t: String| encode_utf8(t@));
    let n = instruction_data.len();
    let mut events: Vec<ProgramEvent> = Vec::new();
    for i in 0..n
        invariant
            n == instruction_data@.len(),
            all == instruction_data@.map_values(|t: String| encode_utf8(t@)),
            events@.map_values(|e: ProgramEvent| (e.kind, e.data@)) == program_events_in(
                all.subrange(0, i as int),
            ),
            forall|j: int|
                0 <= j < events@.len() ==> fields_kind(#[trigger] events@[j].fields) == events@[j].kind
                    && fields_layout(
                    events@[j].data@.subrange(16, events@[j].data@.len() as int),
                    events@[j].fields,
                ),
    {
        proof {
            assert(all.subrange(0, i + 1).drop_last() =~= all.subrange(0, i as int));
        }
        let ghost before = events@;
        match base58_decode(instruction_data[i].as_str().as_bytes()) {
            Ok(decoded) => match classify_program_event(decoded.as_slice()) {
                Some(kind) => {
                    if fits_fields(kind, decoded.len()) {
                        let fields = decode_event_fields(kind, decoded.as_slice());
                        events.push(ProgramEvent { kind, data: decoded, fields });
                        proof {
                            assert(events@.map_values(|e: ProgramEvent| (e.kind, e.data@)) =~= before.map_values(
                                |e: ProgramEvent| (e.kind, e.data@),
                            ).push((kind, decoded@)));
                        }
                    }
                },
                None => {},
            },
            Err(_) => {},
        }
    }
    proof {
        assert(all.subrange(0, n as int) =~= all);
    }
    events
}

/// Whether data of `len` bytes holds the prefix, the discriminator and the
/// fields of an event of `kind`.
fn fits_fields(kind: ProgramEventKind, len: usize) -> (fits: bool)
    ensures
        fits == (len >= 16 + fields_size(kind)),
{
    let size: usize = match kind {
        ProgramEventKind::OrderOpened => 196,
        ProgramEventKind::OrderFilled => 96,
        ProgramEventKind::OrderCompleted => 32,
        ProgramEventKind::CancelRequested => 40,
        ProgramEventKind::FillReported => 96,
        ProgramEventKind::RefundClaimed => 72,
    };
    len >= 16 && len - 16 >= size
}

} // verus!
