//! What the quoter's HTTP API answers: orders by sender, order details read
//! from the chains, and the open-order inputs built for quotes.
use vstd::prelude::*;
use vstd::utf8::encode_utf8;
use crate::bytes::{
    base58_decode, base58_decoding, base58_encode, base58_encoding, base58_error_text, hex_bytes,
    hex_decode, hex_encode, hex_error_text, hex_text, left_pad_32,
};
use crate::quoter::config::ChainConfig;
use crate::quoter::models::{QuoteRequest, QuoteResponse};
use crate::quoter::order_store::{found_orders, ids_of, OrderStore, TrackedOrder, order_key};
use crate::quoter::tracking::{decode_svm_order, holds_svm_order, svm_order_layout, SvmOrder, SvmOrderStatus};
use crate::quoter::transactions::{
    encode_hex_0x, fixed_hex, hex_0x, strip_0x, strip_hex_prefix, OpenOrderInput,
};
use crate::solver::asset_store::lemma_hex_bytes_len;
use crate::table::{keys_unique, table_map};
use crate::text::{decimal, lowercase, u128_to_decimal};

verus! {

broadcast use vstd::array::group_array_axioms;

/// The query of the orders endpoint.
#[derive(Debug, Clone)]
pub struct OrdersQuery {
    pub sender: Option<String>,
}

/// The answer of the orders endpoint.
#[derive(Debug, Clone)]
pub struct OrdersResponse {
    pub orders: Vec<TrackedOrder>,
    pub count: usize,
}

/// The orders endpoint: the sender's orders when the query names one,
/// every order otherwise, with their number.
pub fn orders_response(store: &OrderStore, query: &OrdersQuery) -> (response: OrdersResponse)
    requires
        store.wf(),
    ensures
        response.count == response.orders@.len(),
        match query.sender {
            Some(s) => response.orders@ == found_orders(ids_of(store@, lowercase(s@)), store@.orders),
            None => keys_unique(response.orders@, order_key()) && table_map(
                response.orders@,
                order_key(),
            ) == store@.orders,
        },
{
    let orders = match &query.sender {
        Some(s) => store.get_orders_by_sender(s.as_str()),
        None => store.get_all_orders(),
    };
    let count = orders.len();
    OrdersResponse { orders, count }
}

/// Full order details, as read from a chain.
#[derive(Debug, Clone)]
pub struct OrderDetails {
    pub order_id: String,
    pub status: String,
    pub version: u16,
    pub sender: String,
    pub nonce: u64,
    pub origin_chain_id: u32,
    pub dest_chain_id: u32,
    pub fill_deadline: u32,
    pub cancel_requested_at: u32,
    pub token_in: String,
    pub token_out: String,
    pub amount_in: String,
    pub amount_out: String,
    pub recipient: String,
    pub solver: String,
}

/// The answer of the order-detail endpoint.
#[derive(Debug, Clone)]
pub struct OrderDetailResponse {
    pub order: Option<OrderDetails>,
    pub error: Option<String>,
}

/// An HTTP status with the body of the order-detail endpoint.
#[derive(Debug, Clone)]
pub struct OrderDetailReply {
    pub status: u16,
    pub body: OrderDetailResponse,
}

/// The reply that carries an error message.
pub fn detail_error(status: u16, message: String) -> (reply: OrderDetailReply)
    ensures
        reply.status == status,
        reply.body.order is None,
        reply.body.error == Some(message),
{
    OrderDetailReply { status, body: OrderDetailResponse { order: None, error: Some(message) } }
}

/// The reply that carries the details of an order.
pub fn detail_found(details: OrderDetails) -> (reply: OrderDetailReply)
    ensures
        reply.status == 200,
        reply.body.order == Some(details),
        reply.body.error is None,
{
    OrderDetailReply { status: 200, body: OrderDetailResponse { order: Some(details), error: None } }
}

/// `FixedBytes::<32>::from_str`: the 32 bytes of a hexadecimal order id.
#[verifier::external_body]
pub fn parse_order_id(text: &str) -> (id: Option<[u8; 32]>)
    ensures
        match id {
            Some(b) => fixed_hex(text@, 32) == Some(b@),
            None => fixed_hex(text@, 32) is None,
        },
{
    text.parse::<alloy::primitives::FixedBytes<32>>().ok().map(|b| b.0)
}

/// The position of the first chain with this id.
pub fn find_chain(chains: &Vec<ChainConfig>, chain_id: u32) -> (pos: Option<usize>)
    ensures
        match pos {
            Some(i) => i < chains@.len() && chains@[i as int].chain_id == chain_id && forall|j: int|
                0 <= j < i ==> chains@[j].chain_id != chain_id,
            None => forall|j: int| 0 <= j < chains@.len() ==> chains@[j].chain_id != chain_id,
        },
{
    let n = chains.len();
    for i in 0..n
        invariant
            n == chains@.len(),
            forall|j: int| 0 <= j < i ==> chains@[j].chain_id != chain_id,
    {
        if chains[i].chain_id == chain_id {
            return Some(i);
        }
    }
    None
}

/// The chain to read an order from: the origin chain of the tracked order,
/// when the order is tracked and its chain is configured.
pub fn detail_chain(store: &OrderStore, chains: &Vec<ChainConfig>, order_id: &str) -> (pos: Option<usize>)
    requires
        store.wf(),
    ensures
        match pos {
            Some(i) => i < chains@.len() && store@.orders.contains_key(order_id@)
                && chains@[i as int].chain_id == store@.orders[order_id@].origin_chain_id && forall|j: int|
                0 <= j < i ==> chains@[j].chain_id != store@.orders[order_id@].origin_chain_id,
            None => !store@.orders.contains_key(order_id@) || forall|j: int|
                0 <= j < chains@.len() ==> chains@[j].chain_id
                    != store@.orders[order_id@].origin_chain_id,
        },
{
    match store.get_order(order_id) {
        Some(o) => find_chain(chains, o.origin_chain_id),
        None => None,
    }
}

/// An order as the EVM order book's `getOrder` returns it.
#[derive(Debug, Clone, Copy)]
pub struct EvmOrderRecord {
    pub status: u8,
    pub version: u16,
    pub sender: [u8; 20],
    pub nonce: u64,
    pub dest_chain_id: u32,
    pub fill_deadline: u32,
    pub cancel_requested_at: u32,
    pub token_in: [u8; 20],
    pub token_out: [u8; 32],
    pub amount_in: u128,
    pub amount_out: u128,
    pub recipient: [u8; 32],
    pub solver: [u8; 32],
}

/// The name of an EVM order status.
pub open spec fn evm_status_name(status: u8) -> Seq<char> {
    if status == 1 {
        "created"@
    } else if status == 2 {
        "cancel_requested"@
    } else if status == 3 {
        "completed"@
    } else {
        "unknown"@
    }
}

/// The details of an EVM order: none where it does not exist (status 0);
/// ids and 32-byte values in plain hexadecimal, addresses as `0x`
/// addresses, amounts in decimal.
pub fn evm_order_details(order_id: &[u8; 32], chain_id: u32, r: &EvmOrderRecord) -> (details: Option<OrderDetails>)
    ensures
        r.status == 0 ==> details is None,
        r.status != 0 ==> (details matches Some(d) && d.order_id@ == hex_text(order_id@) && d.status@
            == evm_status_name(r.status) && d.version == r.version && d.sender@ == hex_0x(r.sender@)
            && d.nonce == r.nonce && d.origin_chain_id == chain_id && d.dest_chain_id
            == r.dest_chain_id && d.fill_deadline == r.fill_deadline && d.cancel_requested_at
            == r.cancel_requested_at && d.token_in@ == hex_0x(r.token_in@) && d.token_out@
            == hex_text(r.token_out@) && d.amount_in@ == decimal(r.amount_in as nat) && d.amount_out@
            == decimal(r.amount_out as nat) && d.recipient@ == hex_text(r.recipient@) && d.solver@
            == hex_text(r.solver@)),
{
    if r.status == 0 {
        return None;
    }
    let status = if r.status == 1 {
        "created"
    } else if r.status == 2 {
        "cancel_requested"
    } else if r.status == 3 {
        "completed"
    } else {
        "unknown"
    };
    Some(
        OrderDetails {
            order_id: hex_encode(order_id),
            status: status.to_owned(),
            version: r.version,
            sender: encode_hex_0x(&r.sender),
            nonce: r.nonce,
            origin_chain_id: chain_id,
            dest_chain_id: r.dest_chain_id,
            fill_deadline: r.fill_deadline,
            cancel_requested_at: r.cancel_requested_at,
            token_in: encode_hex_0x(&r.token_in),
            token_out: hex_encode(&r.token_out),
            amount_in: u128_to_decimal(r.amount_in),
            amount_out: u128_to_decimal(r.amount_out),
            recipient: hex_encode(&r.recipient),
            solver: hex_encode(&r.solver),
        },
    )
}

/// The name of a Solana order status.
pub open spec fn svm_status_name(status: SvmOrderStatus) -> Seq<char> {
    match status {
        SvmOrderStatus::DoesNotExist => "does_not_exist"@,
        SvmOrderStatus::Created => "created"@,
        SvmOrderStatus::CancelRequested => "cancel_requested"@,
        SvmOrderStatus::Completed => "completed"@,
    }
}

/// `d` holds the details of the Solana order `o`.
pub open spec fn svm_details_of(d: OrderDetails, order_id: Seq<u8>, chain_id: u32, o: SvmOrder) -> bool {
    &&& d.order_id@ == hex_text(order_id)
    &&& d.status@ == svm_status_name(o.data.status)
    &&& d.version == o.data.version
    &&& d.sender@ == base58_encoding(o.data.sender@)
    &&& d.nonce == o.data.nonce
    &&& d.origin_chain_id == chain_id
    &&& d.dest_chain_id == o.data.dest_chain_id
    &&& d.fill_deadline == o.data.fill_deadline as u32
    &&& d.cancel_requested_at == o.data.cancel_requested_at as u32
    &&& d.token_in@ == base58_encoding(o.data.token_in@)
    &&& d.token_out@ == hex_text(o.data.token_out@)
    &&& d.amount_in@ == decimal(o.data.amount_in as nat)
    &&& d.amount_out@ == decimal(o.data.amount_out as nat)
    &&& d.recipient@ == hex_text(o.data.recipient@)
    &&& d.solver@ == hex_text(o.data.solver@)
}

/// The details of a Solana order from its account's data: none where the
/// data is shorter than its discriminator or the order does not exist, an
/// error where the rest does not hold an order.
pub fn svm_order_details(order_id: &[u8], chain_id: u32, account: &[u8]) -> (details: Result<
    Option<OrderDetails>,
    (),
>)
    ensures
        account@.len() < 8 ==> details == Ok::<Option<OrderDetails>, ()>(None),
        account@.len() >= 8 && !holds_svm_order(account@) ==> details is Err,
        holds_svm_order(account@) ==> exists|o: SvmOrder|
            svm_order_layout(account@.subrange(8, account@.len() as int), o) && if o.data.status
                == SvmOrderStatus::DoesNotExist {
                details == Ok::<Option<OrderDetails>, ()>(None)
            } else {
                details matches Ok(Some(d)) && svm_details_of(d, order_id@, chain_id, o)
            },
{
    if account.len() < 8 {
        return Ok(None);
    }
    let order = match decode_svm_order(account) {
        Some(o) => o,
        None => return Err(()),
    };
    let status = match order.data.status {
        SvmOrderStatus::DoesNotExist => {
            return Ok(None);
        },
        SvmOrderStatus::Created => "created",
        SvmOrderStatus::CancelRequested => "cancel_requested",
        SvmOrderStatus::Completed => "completed",
    };
    Ok(
        Some(
            OrderDetails {
                order_id: hex_encode(order_id),
                status: status.to_owned(),
                version: order.data.version,
                sender: base58_encode(&order.data.sender),
                nonce: order.data.nonce,
                origin_chain_id: chain_id,
                dest_chain_id: order.data.dest_chain_id,
                fill_deadline: order.data.fill_deadline as u32,
                cancel_requested_at: order.data.cancel_requested_at as u32,
                token_in: base58_encode(&order.data.token_in),
                token_out: hex_encode(&order.data.token_out),
                amount_in: u128_to_decimal(order.data.amount_in),
                amount_out: u128_to_decimal(order.data.amount_out),
                recipient: hex_encode(&order.data.recipient),
                solver: hex_encode(&order.data.solver),
            },
        ),
    )
}

/// How the API reads an address as 32 bytes: after an optional `0x`, 40
/// hexadecimal digits are an EVM address (left-padded with zeros) and 64
/// are the bytes; otherwise the whole text must be base58 of 32 bytes.
pub open spec fn api_bytes32(text: Seq<char>) -> Result<Seq<u8>, Seq<char>> {
    let t = strip_0x(text);
    let b = encode_utf8(t);
    if b.len() == 40 {
        match hex_bytes(b) {
            Some(d) => Ok(Seq::new(12, |i: int| 0u8) + d),
            None => Err(hex_error_text(b)),
        }
    } else if b.len() == 64 {
        match hex_bytes(b) {
            Some(d) => Ok(d),
            None => Err(hex_error_text(b)),
        }
    } else {
        match base58_decoding(encode_utf8(text)) {
            None => Err(base58_error_text(encode_utf8(text))),
            Some(d) => if d.len() == 32 {
                Ok(d)
            } else {
                Err("Cannot parse address: "@ + text)
            },
        }
    }
}

/// Parses an address (hex or base58) as 32 bytes (see `api_bytes32`).
pub fn parse_address_to_bytes32(address: &str) -> (parsed: Result<[u8; 32], String>)
    ensures
        match api_bytes32(address@) {
            Ok(b) => parsed matches Ok(p) && p@ == b,
            Err(m) => parsed matches Err(e) && e@ == m,
        },
{
    let t = strip_hex_prefix(address);
    let b = t.as_bytes();
    if b.len() == 40 || b.len() == 64 {
        match hex_decode(b) {
            Err(e) => Err(e),
            Ok(d) => {
                proof {
                    lemma_hex_bytes_len(b@);
                }
                let padded = left_pad_32(&d);
                proof {
                    if b@.len() == 64 {
                        assert(padded@ =~= d@);
                    }
                }
                Ok(padded)
            },
        }
    } else {
        match base58_decode(address.as_bytes()) {
            Err(e) => Err(e),
            Ok(d) => {
                if d.len() == 32 {
                    let padded = left_pad_32(&d);
                    proof {
                        assert(padded@ =~= d@);
                    }
                    Ok(padded)
                } else {
                    Err(String::from_str("Cannot parse address: ").concat(address))
                }
            },
        }
    }
}

/// The open-order input for an accepted quote: the recipient defaults to
/// the sender, a quote without a solver address (or with one that does not
/// parse) leaves the order open to any solver, and a recipient that does
/// not parse means no input.
pub open spec fn quote_input_spec(
    request: QuoteRequest,
    sender: String,
    quote: QuoteResponse,
    fill_deadline: u64,
    input: OpenOrderInput,
) -> bool {
    let recipient = match request.recipient {
        Some(r) => r,
        None => sender,
    };
    &&& api_bytes32(recipient@) matches Ok(r) && input.recipient@ == r
    &&& input.solver@ == (if quote.solver_address@.len() == 0 {
        Seq::new(32, |i: int| 0u8)
    } else {
        match api_bytes32(quote.solver_address@) {
            Ok(s) => s,
            Err(_) => Seq::new(32, |i: int| 0u8),
        }
    })
    &&& input.sender_address == sender
    &&& input.token_in == request.input_token
    &&& input.token_out == request.output_token
    &&& input.amount_in == request.amount_in
    &&& input.amount_out == quote.output_amount as u128
    &&& input.dest_chain_id == request.output_chain_id
    &&& input.fill_deadline == fill_deadline
}

/// The open-order input for a quote that was not rejected (see
/// `quote_input_spec`); `None` where the recipient does not parse.
pub fn quote_order_input(
    request: &QuoteRequest,
    sender: &String,
    quote: &QuoteResponse,
    fill_deadline: u64,
) -> (input: Option<OpenOrderInput>)
    ensures
        match input {
            Some(i) => quote_input_spec(*request, *sender, *quote, fill_deadline, i),
            None => api_bytes32(
                match request.recipient {
                    Some(r) => r,
                    None => *sender,
                }@,
            ) is Err,
        },
{
    let recipient_text = match &request.recipient {
        Some(r) => r,
        None => sender,
    };
    let recipient = match parse_address_to_bytes32(recipient_text.as_str()) {
        Ok(b) => b,
        Err(_) => return None,
    };
    let solver = if quote.solver_address.unicode_len() == 0 {
        [0u8; 32]
    } else {
        match parse_address_to_bytes32(quote.solver_address.as_str()) {
            Ok(b) => b,
            Err(_) => [0u8; 32],
        }
    };
    let input = OpenOrderInput {
        sender_address: sender.clone(),
        token_in: request.input_token.clone(),
        token_out: request.output_token.clone(),
        amount_in: request.amount_in,
        amount_out: quote.output_amount as u128,
        recipient,
        solver,
        dest_chain_id: request.output_chain_id,
        fill_deadline,
    };
    proof {
        assert(quote.solver_address@.len() == 0 ==> input.solver@ =~= Seq::new(32, |i: int| 0u8));
        assert(input.solver@ =~= (if quote.solver_address@.len() == 0 {
            Seq::new(32, |i: int| 0u8)
        } else {
            match api_bytes32(quote.solver_address@) {
                Ok(s) => s,
                Err(_) => Seq::new(32, |i: int| 0u8),
            }
        }));
    }
    Some(input)
}

/// What the order-detail endpoint does with a request: refuse it, read the
/// order from one chain (the tracked order's origin), or try every chain.
#[derive(Debug, Clone)]
pub enum DetailPlan {
    Refuse(OrderDetailReply),
    AskChain(usize, [u8; 32]),
    AskAll([u8; 32]),
}

/// The plan for a detail request: an id that is not 32 bytes in hexadecimal
/// is refused with status 400; otherwise the tracked order's origin chain
/// is asked where it is configured, and every chain otherwise.
pub fn plan_order_detail(store: &OrderStore, chains: &Vec<ChainConfig>, order_id: &str) -> (plan: DetailPlan)
    requires
        store.wf(),
    ensures
        match fixed_hex(order_id@, 32) {
            None => plan matches DetailPlan::Refuse(r) && r.status == 400 && r.body.order is None
                && (r.body.error matches Some(m) && m@ == "Invalid order_id format"@),
            Some(id) => match plan {
                DetailPlan::AskChain(i, b) => b@ == id && i < chains@.len()
                    && store@.orders.contains_key(order_id@) && chains@[i as int].chain_id
                    == store@.orders[order_id@].origin_chain_id && forall|j: int|
                    0 <= j < i ==> chains@[j].chain_id != store@.orders[order_id@].origin_chain_id,
                DetailPlan::AskAll(b) => b@ == id && (!store@.orders.contains_key(order_id@)
                    || forall|j: int|
                    0 <= j < chains@.len() ==> chains@[j].chain_id
                        != store@.orders[order_id@].origin_chain_id),
                DetailPlan::Refuse(_) => false,
            },
        },
{
    let pos = detail_chain(store, chains, order_id);
    let id = match parse_order_id(order_id) {
        Some(b) => b,
        None => return DetailPlan::Refuse(
            detail_error(400, String::from_str("Invalid order_id format")),
        ),
    };
    match pos {
        Some(i) => DetailPlan::AskChain(i, id),
        None => DetailPlan::AskAll(id),
    }
}

/// The reply to a read from the order's own chain: the details (200), not
/// found (404), or the error of the read (500).
pub fn chain_answer_reply(answer: Result<Option<OrderDetails>, String>) -> (reply: OrderDetailReply)
    ensures
        match answer {
            Ok(Some(d)) => reply.status == 200 && reply.body.order == Some(d) && reply.body.error is None,
            Ok(None) => reply.status == 404 && reply.body.order is None && (reply.body.error matches Some(
                m,
            ) && m@ == "Order not found"@),
            Err(e) => reply.status == 500 && reply.body.order is None && (reply.body.error matches Some(
                m,
            ) && m@ == "Error fetching order: "@ + e@),
        },
{
    match answer {
        Ok(Some(d)) => detail_found(d),
        Ok(None) => detail_error(404, String::from_str("Order not found")),
        Err(e) => detail_error(500, String::from_str("Error fetching order: ").concat(e.as_str())),
    }
}

/// The reply after trying every chain: the first details found (200), or
/// not found on any chain (404).
pub fn scan_reply(found: Option<OrderDetails>) -> (reply: OrderDetailReply)
    ensures
        match found {
            Some(d) => reply.status == 200 && reply.body.order == Some(d) && reply.body.error is None,
            None => reply.status == 404 && reply.body.order is None && (reply.body.error matches Some(m)
                && m@ == "Order not found on any chain"@),
        },
{
    match found {
        Some(d) => detail_found(d),
        None => detail_error(404, String::from_str("Order not found on any chain")),
    }
}

/// The open-order inputs of a list of quotes, one per quote: none without a
/// sender, for a rejected quote, or where the recipient does not parse
/// (see `quote_order_input`).
pub fn quote_inputs(request: &QuoteRequest, quotes: &Vec<QuoteResponse>, fill_deadline: u64) -> (inputs: Vec<
    Option<OpenOrderInput>,
>)
    ensures
        inputs@.len() == quotes@.len(),
        forall|i: int|
            0 <= i < quotes@.len() ==> match #[trigger] inputs@[i] {
                Some(input) => request.sender_address matches Some(sender) && !quotes@[i].rejected
                    && quote_input_spec(*request, sender, quotes@[i], fill_deadline, input),
                None => request.sender_address is None || quotes@[i].rejected || api_bytes32(
                    match request.recipient {
                        Some(r) => r,
                        None => request.sender_address->Some_0,
                    }@,
                ) is Err,
            },
{
    let n = quotes.len();
    let mut inputs: Vec<Option<OpenOrderInput>> = Vec::new();
    for i in 0..n
        invariant
            n == quotes@.len(),
            inputs@.len() == i,
            forall|k: int|
                0 <= k < i ==> match #[trigger] inputs@[k] {
                    Some(input) => request.sender_address matches Some(sender) && !quotes@[k].rejected
                        && quote_input_spec(*request, sender, quotes@[k], fill_deadline, input),
                    None => request.sender_address is None || quotes@[k].rejected || api_bytes32(
                        match request.recipient {
                            Some(r) => r,
                            None => request.sender_address->Some_0,
                        }@,
                    ) is Err,
                },
    {
        let q = &quotes[i];
        let input = match &request.sender_address {
            None => None,
            Some(sender) => if q.rejected {
                None
            } else {
                quote_order_input(request, sender, q, fill_deadline)
            },
        };
        inputs.push(input);
    }
    inputs
}

} // verus!
