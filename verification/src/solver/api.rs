//! What the solver's HTTP API answers: order and balance summaries, the
//! quote request it takes and the health and error bodies.
use vstd::prelude::*;
use vstd::multiset::Multiset;
use crate::bytes::{hex_encode, hex_text};
use crate::solver::assets::{address_text, format_address, Asset};
use crate::solver::balance_store::BalanceStore;
use crate::solver::order_store::{order_state_name, Order, OrderStore};
use crate::text::{decimal, lowercase, to_lowercase, u128_to_decimal};

verus! {

broadcast use {vstd::multiset::group_multiset_axioms, vstd::seq_lib::group_to_multiset_ensures};

/// A quote request as the API takes it.
#[derive(Debug, Clone)]
pub struct QuoteRequest {
    /// EVM or SVM token address.
    pub input_token: String,
    pub input_chain_id: u32,
    /// EVM or SVM token address.
    pub output_token: String,
    pub output_chain_id: u32,
    pub amount_in: u64,
    pub amount_out: u64,
}

/// The API's answer to a quote request.
#[derive(Debug, Clone)]
pub struct QuoteResponse {
    pub can_process: bool,
    pub estimated_time_seconds: u64,
    pub reason: Option<String>,
}

impl Default for QuoteResponse {
    /// A quote the solver cannot process, with no reason given.
    fn default() -> (r: Self)
        ensures
            !r.can_process,
            r.estimated_time_seconds == 0,
            r.reason is None,
    {
        QuoteResponse { can_process: false, estimated_time_seconds: 0, reason: None }
    }
}

/// Order information for API responses.
#[derive(Debug, Clone)]
pub struct OrderInfo {
    pub id: String,
    pub state: String,
    pub filled_amount: u64,
    pub amount: u64,
    pub input_token: String,
    pub output_token: String,
    pub input_chain_id: u32,
    pub output_chain_id: u32,
}

impl OrderInfo {
    /// The information of an order: its state by name, amounts cut to 64
    /// bits, tokens in hexadecimal.
    pub fn from_order(order: Order) -> (info: Self)
        ensures
            info.id == order.id,
            info.state@ == order_state_name(order.state),
            info.filled_amount == order.filled_amount as u64,
            info.amount == order.data.amount_out as u64,
            info.input_token@ == hex_text(order.data.token_in@),
            info.output_token@ == hex_text(order.data.token_out@),
            info.input_chain_id == order.data.origin_chain_id,
            info.output_chain_id == order.data.dest_chain_id,
    {
        OrderInfo {
            state: order.state.name().to_owned(),
            filled_amount: order.filled_amount as u64,
            amount: order.data.amount_out as u64,
            input_token: hex_encode(&order.data.token_in),
            output_token: hex_encode(&order.data.token_out),
            input_chain_id: order.data.origin_chain_id,
            output_chain_id: order.data.dest_chain_id,
            id: order.id,
        }
    }
}

/// The body of the health endpoint.
#[derive(Debug, Clone)]
pub struct HealthResponse {
    pub message: String,
}

impl Default for HealthResponse {
    fn default() -> (r: Self)
        ensures
            r.message@ == "Healthy"@,
    {
        HealthResponse { message: String::from_str("Healthy") }
    }
}

/// The body of an error.
#[derive(Debug, Clone)]
pub struct ErrorResponse {
    pub error: String,
}

impl Default for ErrorResponse {
    fn default() -> (r: Self)
        ensures
            r.error@ == "An unknown server error occurred"@,
    {
        ErrorResponse { error: String::from_str("An unknown server error occurred") }
    }
}

/// An order as the orders endpoint lists it.
#[derive(Debug, Clone)]
pub struct OrderSummary {
    pub order_id: String,
    pub status: String,
    pub version: u16,
    pub nonce: u64,
    pub origin_chain_id: u32,
    pub dest_chain_id: u32,
    pub fill_deadline: u64,
    pub sender: String,
    pub recipient: String,
    pub token_in: String,
    pub token_out: String,
    pub amount_in: String,
    pub amount_out: String,
    pub filled_amount: String,
    pub solver: String,
    pub created_at: u64,
}

/// `s` summarises order `o`: addresses in their display form, amounts in
/// decimal.
pub open spec fn summarises(s: OrderSummary, o: Order) -> bool {
    &&& s.order_id == o.id
    &&& s.status@ == order_state_name(o.state)
    &&& s.version == o.data.version
    &&& s.nonce == o.data.nonce
    &&& s.origin_chain_id == o.data.origin_chain_id
    &&& s.dest_chain_id == o.data.dest_chain_id
    &&& s.fill_deadline == o.data.fill_deadline
    &&& s.sender@ == address_text(o.data.sender@)
    &&& s.recipient@ == address_text(o.data.recipient@)
    &&& s.token_in@ == address_text(o.data.token_in@)
    &&& s.token_out@ == address_text(o.data.token_out@)
    &&& s.amount_in@ == decimal(o.data.amount_in as nat)
    &&& s.amount_out@ == decimal(o.data.amount_out as nat)
    &&& s.filled_amount@ == decimal(o.filled_amount as nat)
    &&& s.solver@ == address_text(o.data.solver@)
    &&& s.created_at == o.created_at
}

impl OrderSummary {
    /// The summary of an order.
    pub fn from_order(order: &Order) -> (s: Self)
        ensures
            summarises(s, *order),
    {
        OrderSummary {
            order_id: order.id.clone(),
            status: order.state.name().to_owned(),
            version: order.data.version,
            nonce: order.data.nonce,
            origin_chain_id: order.data.origin_chain_id,
            dest_chain_id: order.data.dest_chain_id,
            fill_deadline: order.data.fill_deadline,
            sender: format_address(&order.data.sender),
            recipient: format_address(&order.data.recipient),
            token_in: format_address(&order.data.token_in),
            token_out: format_address(&order.data.token_out),
            amount_in: u128_to_decimal(order.data.amount_in),
            amount_out: u128_to_decimal(order.data.amount_out),
            filled_amount: u128_to_decimal(order.filled_amount),
            solver: format_address(&order.data.solver),
            created_at: order.created_at,
        }
    }
}

/// The answer of the orders endpoint.
#[derive(Debug, Clone)]
pub struct OrdersResponse {
    pub orders: Vec<OrderSummary>,
    pub count: usize,
}

/// Newest first: no order was created after one listed before it.
pub open spec fn newest_first(s: Seq<Order>) -> bool {
    forall|i: int, j: int| 0 <= i < j < s.len() ==> s[i].created_at >= s[j].created_at
}

/// The orders sorted newest first.
pub fn sort_newest_first(items: Vec<Order>) -> (sorted: Vec<Order>)
    ensures
        newest_first(sorted@),
        sorted@.to_multiset() == items@.to_multiset(),
{
    let ghost all = items@;
    let mut rest = items;
    let mut out: Vec<Order> = Vec::new();
    proof {
        assert(out@.to_multiset().len() == 0);
        assert(out@.to_multiset() =~= Multiset::<Order>::empty());
        assert(out@.to_multiset().add(rest@.to_multiset()) =~= all.to_multiset());
    }
    while rest.len() > 0
        invariant
            newest_first(out@),
            out@.to_multiset().add(rest@.to_multiset()) == all.to_multiset(),
        decreases rest@.len(),
    {
        let ghost before = rest@;
        let item = rest.pop().unwrap();
        proof {
            assert(before =~= rest@.push(item));
            vstd::seq_lib::to_multiset_build(rest@, item);
        }
        let mut j: usize = 0;
        while j < out.len() && out[j].created_at >= item.created_at
            invariant
                j <= out@.len(),
                forall|k: int| 0 <= k < j ==> out@[k].created_at >= item.created_at,
            decreases out@.len() - j,
        {
            j = j + 1;
        }
        let ghost prior = out@;
        out.insert(j, item);
        proof {
            vstd::seq_lib::to_multiset_insert(prior, j as int, item);
            assert(out@.to_multiset().add(rest@.to_multiset()) =~= all.to_multiset());
            assert forall|a: int, b: int| 0 <= a < b < out@.len() implies out@[a].created_at
                >= out@[b].created_at by {
                if b < j {
                    assert(out@[a] == prior[a] && out@[b] == prior[b]);
                } else if b == j {
                    assert(out@[a] == prior[a]);
                } else if a == j {
                    assert(out@[b] == prior[b - 1]);
                    assert(prior[j as int].created_at < item.created_at);
                } else if a < j {
                    assert(out@[a] == prior[a] && out@[b] == prior[b - 1]);
                } else {
                    assert(out@[a] == prior[a - 1] && out@[b] == prior[b - 1]);
                }
            }
        }
    }
    proof {
        assert(rest@.to_multiset().len() == 0);
        assert(rest@.to_multiset() =~= Multiset::<Order>::empty());
        assert(out@.to_multiset().add(rest@.to_multiset()) =~= out@.to_multiset());
    }
    out
}

/// The orders endpoint: a summary of every order, newest first, with their
/// number.
pub fn orders_response(store: &OrderStore) -> (response: OrdersResponse)
    requires
        store.wf(),
    ensures
        response.count == response.orders@.len(),
        exists|listed: Seq<Order>, sorted: Seq<Order>|
            {
                &&& crate::table::keys_unique(listed, crate::solver::order_store::order_key())
                &&& crate::table::table_map(listed, crate::solver::order_store::order_key()) == store@
                &&& #[trigger] sorted.to_multiset() == #[trigger] listed.to_multiset()
                &&& newest_first(sorted)
                &&& sorted.len() == response.orders@.len()
                &&& forall|i: int| 0 <= i < sorted.len() ==> summarises(response.orders@[i], sorted[i])
            },
{
    let orders = store.get_all_orders();
    let ghost listed = orders@;
    let sorted = sort_newest_first(orders);
    let n = sorted.len();
    let mut summaries: Vec<OrderSummary> = Vec::new();
    for i in 0..n
        invariant
            n == sorted@.len(),
            summaries@.len() == i,
            forall|k: int| 0 <= k < i ==> summarises(summaries@[k], sorted@[k]),
    {
        summaries.push(OrderSummary::from_order(&sorted[i]));
    }
    let count = summaries.len();
    OrdersResponse { orders: summaries, count }
}

/// `info` describes `order` (see `OrderInfo::from_order`).
pub open spec fn describes(info: OrderInfo, order: Order) -> bool {
    &&& info.id == order.id
    &&& info.state@ == order_state_name(order.state)
    &&& info.filled_amount == order.filled_amount as u64
    &&& info.amount == order.data.amount_out as u64
    &&& info.input_token@ == hex_text(order.data.token_in@)
    &&& info.output_token@ == hex_text(order.data.token_out@)
    &&& info.input_chain_id == order.data.origin_chain_id
    &&& info.output_chain_id == order.data.dest_chain_id
}

/// An order passes the state filter: there is none, or its state's name
/// equals the filter once both are lower-cased.
pub open spec fn passes_state_filter(order: Order, filter: Option<String>) -> bool {
    match filter {
        None => true,
        Some(f) => lowercase(order_state_name(order.state)) == lowercase(f@),
    }
}

/// The orders that pass the state filter, in their order.
pub open spec fn kept_orders(orders: Seq<Order>, filter: Option<String>) -> Seq<Order>
    decreases orders.len(),
{
    if orders.len() == 0 {
        Seq::empty()
    } else {
        let rest = kept_orders(orders.drop_last(), filter);
        if passes_state_filter(orders.last(), filter) {
            rest.push(orders.last())
        } else {
            rest
        }
    }
}

/// The active-orders endpoint: the information of each order whose state
/// passes the filter, in the order given.
pub fn order_infos(orders: Vec<Order>, state: Option<String>) -> (infos: Vec<OrderInfo>)
    ensures
        infos@.len() == kept_orders(orders@, state).len(),
        forall|i: int|
            0 <= i < infos@.len() ==> describes(#[trigger] infos@[i], kept_orders(orders@, state)[i]),
{
    let ghost all = orders@;
    let wanted = match &state {
        Some(f) => Some(to_lowercase(f.as_str())),
        None => None,
    };
    let n = orders.len();
    let mut infos: Vec<OrderInfo> = Vec::new();
    for i in 0..n
        invariant
            n == all.len(),
            orders@ == all,
            match state {
                Some(f) => wanted matches Some(w) && w@ == lowercase(f@),
                None => wanted is None,
            },
            infos@.len() == kept_orders(all.subrange(0, i as int), state).len(),
            forall|k: int|
                0 <= k < infos@.len() ==> describes(
                    #[trigger] infos@[k],
                    kept_orders(all.subrange(0, i as int), state)[k],
                ),
    {
        let o = &orders[i];
        proof {
            let s = all.subrange(0, i + 1);
            assert(s.drop_last() =~= all.subrange(0, i as int));
            assert(s.last() == all[i as int]);
        }
        let keep = match &wanted {
            None => true,
            Some(w) => {
                let name = to_lowercase(o.state.name());
                name == *w
            },
        };
        if keep {
            let info = OrderInfo::from_order(o.duplicate());
            infos.push(info);
        }
    }
    proof {
        assert(all.subrange(0, n as int) =~= all);
    }
    infos
}

/// A balance as the balances endpoint lists it.
#[derive(Debug, Clone)]
pub struct BalanceSummary {
    pub chain: String,
    pub address: String,
    pub symbol: String,
    pub decimals: i64,
    pub balance: String,
}

/// `s` summarises the balance `amount` of `asset`: the chain by its id and
/// the amount in decimal.
pub open spec fn summarises_balance(s: BalanceSummary, asset: Asset, amount: u128) -> bool {
    &&& s.chain@ == decimal(asset.chain_id as nat)
    &&& s.address == asset.address
    &&& s.symbol == asset.symbol
    &&& s.decimals == asset.decimals
    &&& s.balance@ == decimal(amount as nat)
}

impl BalanceSummary {
    /// The summary of one balance.
    pub fn from_asset(asset: &Asset, balance: u128) -> (s: Self)
        ensures
            summarises_balance(s, *asset, balance),
    {
        BalanceSummary {
            chain: u128_to_decimal(asset.chain_id as u128),
            address: asset.address.clone(),
            symbol: asset.symbol.clone(),
            decimals: asset.decimals,
            balance: u128_to_decimal(balance),
        }
    }
}

/// The answer of the balances endpoint.
#[derive(Debug, Clone)]
pub struct BalancesResponse {
    pub balances: Vec<BalanceSummary>,
    pub count: usize,
}

/// The balances endpoint: a summary of each balance the store holds, in
/// its order, with their number.
pub fn balances_response(store: &BalanceStore) -> (response: BalancesResponse)
    ensures
        response.count == response.balances@.len(),
        response.balances@.len() == store@.len(),
        forall|i: int|
            0 <= i < store@.len() ==> summarises_balance(
                #[trigger] response.balances@[i],
                store@[i].0,
                store@[i].1,
            ),
{
    let balances = store.get_all_balances();
    let n = balances.len();
    let mut out: Vec<BalanceSummary> = Vec::new();
    for i in 0..n
        invariant
            n == balances@.len(),
            balances@ == store@,
            out@.len() == i,
            forall|k: int| 0 <= k < i ==> summarises_balance(out@[k], balances@[k].0, balances@[k].1),
    {
        out.push(BalanceSummary::from_asset(&balances[i].0, balances[i].1));
    }
    let count = out.len();
    BalancesResponse { balances: out, count }
}

} // verus!
