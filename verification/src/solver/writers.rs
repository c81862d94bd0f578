//! The writers' decisions: which fills a destination chain's writer takes,
//! when it may send them, what it sends (the `fillOrder` call data and the
//! spending approval on EVM chains, the fill instruction and the relay
//! request on Solana), and what it reports back. The reading of allowances,
//! quotes and relay sequences and the sending of transactions are left to
//! the loop that runs a writer.
use vstd::prelude::*;
use vstd::utf8::encode_utf8;
use crate::bytes::{
    append_be, append_le, be_bytes, extend_bytes, hex_bytes, hex_decode, hex_error_text, le_bytes,
    left_pad_32,
};
use crate::order_book::OrderData;
use crate::bytes::{be_value, lemma_pow256_values};
use crate::quoter::transactions::{call_word, lemma_uint_word, lemma_be_value_zero_padded};
use crate::quoter::api::parse_order_id;
use crate::quoter::transactions::{
    address_word, approve_calldata, encode_approve_call, encode_hex_0x, evm_address, fixed_hex,
    function_selector, hex_0x, parse_evm_address, parse_pubkey, push_uint_word, push_zeros,
    selector_of, solana_pubkey, strip_0x, strip_hex_prefix, uint_word, zeros,
};
use crate::solver::asset_store::{asset_address_key, parse_asset_address, lemma_hex_bytes_len};
use crate::solver::assets::{chain_runtime, runtime_of, ChainRuntime};
use crate::solver::config::{chain_position, copy_chains, first_chain, ChainConfig, Network};
use crate::solver::error::SolverError;
use crate::solver::events::{FillOrderSuccessfulEvent, SolverEvent};
use crate::solver::order_store::{fill_fits, store_step, Order, OrderStore};
use crate::solver::program_events::{anchor_discriminator, instruction_discriminator};
use crate::text::{decimal, u128_numeral, parse_u128, u128_to_decimal};

verus! {

/// The gas limit and message value asked of the Wormhole relayer.
pub const DEFAULT_GAS_LIMIT: u128 = 500_000;
pub const DEFAULT_MSG_VALUE: u128 = 20_000_000;

/// The seconds a fill waits so that the chain's clock, taken 15 seconds
/// behind `now_secs`, has reached the order's creation time.
pub open spec fn fill_wait(now_secs: u64, created_at: u64) -> u64 {
    let now = now_secs - 15;
    if now < created_at {
        (created_at - now) as u64
    } else {
        0
    }
}

/// The seconds a fill waits (see `fill_wait`).
pub fn fill_wait_secs(now_secs: u64, created_at: u64) -> (wait: u64)
    requires
        now_secs >= 15,
    ensures
        wait == fill_wait(now_secs, created_at),
{
    let now = now_secs - 15;
    if now < created_at {
        created_at - now
    } else {
        0
    }
}

/// The relay instructions of the Wormhole executor: the gas instruction
/// tag 1, then the gas limit and the message value as 16-byte big-endian
/// integers, in `0x` hexadecimal.
pub open spec fn relay_instructions(gas_limit: u128, msg_value: u128) -> Seq<char> {
    hex_0x(seq![1u8] + be_bytes(gas_limit as nat, 16) + be_bytes(msg_value as nat, 16))
}

/// Encodes the Wormhole relay instructions (see `relay_instructions`).
pub fn encode_relay_instructions(gas_limit: u128, msg_value: u128) -> (text: String)
    ensures
        text@ == relay_instructions(gas_limit, msg_value),
{
    let mut data: Vec<u8> = Vec::with_capacity(33);
    data.push(1u8);
    append_be(&mut data, gas_limit, 16);
    append_be(&mut data, msg_value, 16);
    proof {
        assert(data@ =~= seq![1u8] + be_bytes(gas_limit as nat, 16) + be_bytes(msg_value as nat, 16));
    }
    encode_hex_0x(data.as_slice())
}

/// The Wormhole executor's quote endpoint for a network.
pub open spec fn executor_quote_api(network: Network) -> Seq<char> {
    match network {
        Network::Mainnet => "https://executor.labsapis.com/v0/quote"@,
        _ => "https://executor-testnet.labsapis.com/v0/quote"@,
    }
}

/// The Wormhole executor's quote endpoint for a network.
pub fn executor_quote_url(network: Network) -> (url: &'static str)
    ensures
        url@ == executor_quote_api(network),
{
    match network {
        Network::Devnet | Network::Local => "https://executor-testnet.labsapis.com/v0/quote",
        Network::Mainnet => "https://executor.labsapis.com/v0/quote",
    }
}

/// A signed quote of the Wormhole executor and its estimated cost.
#[derive(Debug, Clone)]
pub struct WormholeQuote {
    pub signed_quote: Vec<u8>,
    pub estimated_cost: u128,
}

/// Reads the executor's answer: the signed quote is hexadecimal (with or
/// without `0x`), the estimated cost a decimal numeral, zero when absent or
/// unreadable.
pub fn wormhole_quote_from_response(signed_quote: &str, estimated_cost: &Option<String>) -> (quote: Result<WormholeQuote, SolverError>)
    ensures
        match hex_bytes(encode_utf8(strip_0x(signed_quote@))) {
            None => quote matches Err(SolverError::Component(m)) && m@ == "Failed to decode signed quote hex: "@
                + hex_error_text(encode_utf8(strip_0x(signed_quote@))),
            Some(b) => quote matches Ok(q) && q.signed_quote@ == b && q.estimated_cost == match estimated_cost {
                Some(c) => match u128_numeral(c@) {
                    Some(v) => v,
                    None => 0,
                },
                None => 0,
            },
        },
{
    let digits = strip_hex_prefix(signed_quote);
    let bytes = match hex_decode(digits.as_bytes()) {
        Ok(b) => b,
        Err(e) => {
            return Err(
                SolverError::Component(
                    String::from_str("Failed to decode signed quote hex: ").concat(e.as_str()),
                ),
            );
        },
    };
    let cost = match estimated_cost {
        Some(c) => match parse_u128(c.as_str()) {
            Some(v) => v,
            None => 0,
        },
        None => 0,
    };
    Ok(WormholeQuote { signed_quote: bytes, estimated_cost: cost })
}

/// A spending approval is sent where the allowance is below the amount.
pub fn needs_approval(allowance: u128, amount: u128) -> (needed: bool)
    ensures
        needed == (allowance < amount),
{
    allowance < amount
}

/// What a writer reports after sending a fill: the success of the order's
/// fill once the transaction is confirmed, nothing otherwise.
pub fn fill_outcome(order_id: String, confirmed: bool) -> (events: Vec<SolverEvent>)
    ensures
        confirmed ==> events@ == seq![
            SolverEvent::FillOrderSuccessful(FillOrderSuccessfulEvent { order_id }),
        ],
        !confirmed ==> events@.len() == 0,
{
    let mut events: Vec<SolverEvent> = Vec::new();
    if confirmed {
        events.push(SolverEvent::FillOrderSuccessful(FillOrderSuccessfulEvent::new(order_id)));
        proof {
            assert(events@ =~= seq![
                SolverEvent::FillOrderSuccessful(FillOrderSuccessfulEvent { order_id }),
            ]);
        }
    }
    events
}

/// The 32 bytes of an order id in hexadecimal.
pub open spec fn order_id_bytes(id: Seq<char>) -> Option<Seq<u8>> {
    fixed_hex(id, 32)
}

/// The orders a writer knows after an event (an unknown order leaves them
/// as they were).
pub open spec fn writer_orders(orders: Map<Seq<char>, Order>, event: SolverEvent) -> Map<Seq<char>, Order> {
    match store_step(orders, event) {
        Ok(o) => o,
        Err(_) => orders,
    }
}

/// How the fill's cross-chain report travels.
#[derive(Debug, Clone)]
pub enum Bridge {
    /// Through the Wormhole adapter, paid with a quote of the executor.
    Wormhole {
        adapter: [u8; 20],
        quote_url: String,
        relay_instructions: String,
        source_chain_id: u32,
        target_chain_id: u32,
    },
    /// Through the portal's default adapter, paid with the portal's quote.
    Portal { portal: [u8; 20], origin_chain_id: u32 },
}

/// An EVM fill ready to be sent, once the wait has passed.
#[derive(Debug, Clone)]
pub struct EvmFill {
    pub order_id: [u8; 32],
    pub order: OrderData,
    pub amount: u128,
    /// The solver's address, left-padded to 32 bytes, paid on the origin
    /// chain and refunded to.
    pub origin_recipient: [u8; 32],
    pub order_book: [u8; 20],
    pub wait_secs: u64,
    pub bridge: Bridge,
    /// The fill parameters of the call: the amount, and the solver as the
    /// origin recipient and the refund address.
    pub fill_params: EvmFillParams,
    /// The bridge adapter of the call: the Wormhole adapter, or the zero
    /// address for the portal's default adapter.
    pub bridge_adapter: [u8; 20],
}

/// The fill parameters of the order book's `fillOrder`.
#[derive(Debug, Clone, Copy)]
pub struct EvmFillParams {
    pub amount_out_to_fill: u128,
    pub origin_recipient: [u8; 32],
    pub refund_address: [u8; 32],
}

/// The signature of the order book's `fillOrder`.
pub open spec fn fill_order_signature() -> Seq<char> {
    "fillOrder(bytes32,(uint16,bytes32,uint64,uint32,uint32,uint64,uint64,bytes32,bytes32,uint128,uint128,bytes32,bytes32),(uint128,bytes32,bytes32),address,bytes)"@
}

/// The ABI words of the order data: its thirteen static fields, one word
/// each.
pub open spec fn order_data_words(o: OrderData) -> Seq<u8> {
    uint_word(o.version as nat, 2) + o.sender@ + uint_word(o.nonce as nat, 8) + uint_word(
        o.origin_chain_id as nat,
        4,
    ) + uint_word(o.dest_chain_id as nat, 4) + uint_word(o.created_at as nat, 8) + uint_word(
        o.fill_deadline as nat,
        8,
    ) + o.token_in@ + o.token_out@ + uint_word(o.amount_in as nat, 16) + uint_word(
        o.amount_out as nat,
        16,
    ) + o.recipient@ + o.solver@
}

/// The zero bytes that pad `n` bytes to a whole number of words.
pub open spec fn word_padding(n: nat) -> nat {
    ((32 - n % 32) % 32) as nat
}

/// The call data of `fillOrder(orderId, orderData, fillParams, adapter,
/// adapterArgs)`: the selector; the id, the order data's thirteen words and
/// the parameters' three words in place; the adapter; the offset of the
/// adapter arguments (19 words); then their length and their bytes padded
/// to a whole word.
pub open spec fn fill_order_calldata(
    order_id: Seq<u8>,
    o: OrderData,
    p: EvmFillParams,
    adapter: Seq<u8>,
    args: Seq<u8>,
) -> Seq<u8> {
    selector_of(fill_order_signature()) + order_id + order_data_words(o) + uint_word(
        p.amount_out_to_fill as nat,
        16,
    ) + p.origin_recipient@ + p.refund_address@ + address_word(adapter) + uint_word(608, 16)
        + uint_word(args.len(), 16) + args + zeros(word_padding(args.len()))
}

/// `data` is the `fillOrder(orderId, orderData, fillParams, adapter,
/// adapterArgs)` call as the ABI lays it out: the selector; word 0 the
/// order id; words 1 to 13 the order's fields in the struct's order
/// (version, sender, nonce, origin chain, destination chain, creation
/// time, fill deadline, input token, output token, amount in, amount out,
/// recipient, solver); words 14 to 16 the fill parameters (amount, origin
/// recipient, refund address); word 17 the adapter's address in its last
/// 20 bytes; word 18 the offset of the arguments (19 words); word 19 their
/// length; then their bytes, padded with zeros to a whole word. Integers
/// are big-endian.
pub open spec fn fill_order_layout(
    data: Seq<u8>,
    order_id: Seq<u8>,
    o: OrderData,
    p: EvmFillParams,
    adapter: Seq<u8>,
    args: Seq<u8>,
) -> bool {
    &&& data.len() == 644 + args.len() + word_padding(args.len())
    &&& data.subrange(0, 4) == selector_of(fill_order_signature())
    &&& call_word(data, 0) == order_id
    &&& be_value(call_word(data, 1)) == o.version
    &&& call_word(data, 2) == o.sender@
    &&& be_value(call_word(data, 3)) == o.nonce
    &&& be_value(call_word(data, 4)) == o.origin_chain_id
    &&& be_value(call_word(data, 5)) == o.dest_chain_id
    &&& be_value(call_word(data, 6)) == o.created_at
    &&& be_value(call_word(data, 7)) == o.fill_deadline
    &&& call_word(data, 8) == o.token_in@
    &&& call_word(data, 9) == o.token_out@
    &&& be_value(call_word(data, 10)) == o.amount_in
    &&& be_value(call_word(data, 11)) == o.amount_out
    &&& call_word(data, 12) == o.recipient@
    &&& call_word(data, 13) == o.solver@
    &&& be_value(call_word(data, 14)) == p.amount_out_to_fill
    &&& call_word(data, 15) == p.origin_recipient@
    &&& call_word(data, 16) == p.refund_address@
    &&& be_value(call_word(data, 17).subrange(0, 12)) == 0
    &&& call_word(data, 17).subrange(12, 32) == adapter
    &&& be_value(call_word(data, 18)) == 608
    &&& be_value(call_word(data, 19)) == args.len()
    &&& data.subrange(644, 644 + args.len() as int) == args
    &&& forall|j: int| 644 + args.len() <= j < data.len() ==> data[j] == 0
}

/// The `fillOrder` call data of a fill carries each field in its own word,
/// in the order of the function's and the order struct's declarations:
/// the order id in word 0, the input token in word 8 and the output token
/// in word 9, each integer big-endian in its word (see
/// `fill_order_layout`).
pub proof fn law_fill_order_call_layout(
    order_id: Seq<u8>,
    o: OrderData,
    p: EvmFillParams,
    adapter: Seq<u8>,
    args: Seq<u8>,
    d: Seq<u8>,
)
    requires
        order_id.len() == 32,
        adapter.len() == 20,
        args.len() <= u64::MAX,
        d == fill_order_calldata(order_id, o, p, adapter, args),
        d.len() == 644 + args.len() + word_padding(args.len()),
    ensures
        fill_order_layout(d, order_id, o, p, adapter, args),
{
    lemma_pow256_values();
    crate::bytes::lemma_pow256_mono(8, 16);
    lemma_uint_word(o.version as nat, 2);
    lemma_uint_word(o.nonce as nat, 8);
    lemma_uint_word(o.origin_chain_id as nat, 4);
    lemma_uint_word(o.dest_chain_id as nat, 4);
    lemma_uint_word(o.created_at as nat, 8);
    lemma_uint_word(o.fill_deadline as nat, 8);
    lemma_uint_word(o.amount_in as nat, 16);
    lemma_uint_word(o.amount_out as nat, 16);
    lemma_uint_word(p.amount_out_to_fill as nat, 16);
    lemma_uint_word(608, 16);
    lemma_uint_word(args.len(), 16);
    lemma_be_value_zero_padded(12, Seq::empty());
    let sel = selector_of(fill_order_signature());
    assert(sel.len() == 4);
    assert(d.subrange(0, 4) =~= sel);
    assert(call_word(d, 0) =~= order_id);
    assert(call_word(d, 1) =~= uint_word(o.version as nat, 2));
    assert(call_word(d, 2) =~= o.sender@);
    assert(call_word(d, 3) =~= uint_word(o.nonce as nat, 8));
    assert(call_word(d, 4) =~= uint_word(o.origin_chain_id as nat, 4));
    assert(call_word(d, 5) =~= uint_word(o.dest_chain_id as nat, 4));
    assert(call_word(d, 6) =~= uint_word(o.created_at as nat, 8));
    assert(call_word(d, 7) =~= uint_word(o.fill_deadline as nat, 8));
    assert(call_word(d, 8) =~= o.token_in@);
    assert(call_word(d, 9) =~= o.token_out@);
    assert(call_word(d, 10) =~= uint_word(o.amount_in as nat, 16));
    assert(call_word(d, 11) =~= uint_word(o.amount_out as nat, 16));
    assert(call_word(d, 12) =~= o.recipient@);
    assert(call_word(d, 13) =~= o.solver@);
    assert(call_word(d, 14) =~= uint_word(p.amount_out_to_fill as nat, 16));
    assert(call_word(d, 15) =~= p.origin_recipient@);
    assert(call_word(d, 16) =~= p.refund_address@);
    assert(call_word(d, 17) =~= address_word(adapter));
    assert(call_word(d, 17).subrange(0, 12) =~= zeros(12) + Seq::<u8>::empty());
    assert(call_word(d, 17).subrange(12, 32) =~= adapter);
    assert(call_word(d, 18) =~= uint_word(608, 16));
    assert(call_word(d, 19) =~= uint_word(args.len(), 16));
    assert(d.subrange(644, 644 + args.len() as int) =~= args);
    assert forall|j: int| 644 + args.len() <= j < d.len() implies d[j] == 0 by {
        assert(d[j] == zeros(word_padding(args.len()))[j - 644 - args.len()]);
    }
}

/// Encodes the `fillOrder` call of a planned fill, with the bridge adapter's
/// arguments (the executor's signed quote for Wormhole, none for the
/// portal).
pub fn encode_fill_order_call(fill: &EvmFill, adapter_args: &[u8]) -> (data: Vec<u8>)
    ensures
        data@ == fill_order_calldata(
            fill.order_id@,
            fill.order,
            fill.fill_params,
            fill.bridge_adapter@,
            adapter_args@,
        ),
        fill_order_layout(
            data@,
            fill.order_id@,
            fill.order,
            fill.fill_params,
            fill.bridge_adapter@,
            adapter_args@,
        ),
{
    let o = &fill.order;
    let mut data = function_selector(
        "fillOrder(bytes32,(uint16,bytes32,uint64,uint32,uint32,uint64,uint64,bytes32,bytes32,uint128,uint128,bytes32,bytes32),(uint128,bytes32,bytes32),address,bytes)",
    );
    extend_bytes(&mut data, &fill.order_id);
    push_uint_word(&mut data, o.version as u128, 2);
    extend_bytes(&mut data, &o.sender);
    push_uint_word(&mut data, o.nonce as u128, 8);
    push_uint_word(&mut data, o.origin_chain_id as u128, 4);
    push_uint_word(&mut data, o.dest_chain_id as u128, 4);
    push_uint_word(&mut data, o.created_at as u128, 8);
    push_uint_word(&mut data, o.fill_deadline as u128, 8);
    extend_bytes(&mut data, &o.token_in);
    extend_bytes(&mut data, &o.token_out);
    push_uint_word(&mut data, o.amount_in, 16);
    push_uint_word(&mut data, o.amount_out, 16);
    extend_bytes(&mut data, &o.recipient);
    extend_bytes(&mut data, &o.solver);
    push_uint_word(&mut data, fill.fill_params.amount_out_to_fill, 16);
    extend_bytes(&mut data, &fill.fill_params.origin_recipient);
    extend_bytes(&mut data, &fill.fill_params.refund_address);
    push_zeros(&mut data, 12);
    extend_bytes(&mut data, &fill.bridge_adapter);
    push_uint_word(&mut data, 608, 16);
    let n = adapter_args.len();
    push_uint_word(&mut data, n as u128, 16);
    let ghost head = data@;
    for i in 0..n
        invariant
            n == adapter_args@.len(),
            data@ == head + adapter_args@.subrange(0, i as int),
    {
        data.push(adapter_args[i]);
        proof {
            assert(adapter_args@.subrange(0, i + 1) =~= adapter_args@.subrange(0, i as int).push(
                adapter_args@[i as int],
            ));
        }
    }
    proof {
        assert(adapter_args@.subrange(0, n as int) =~= adapter_args@);
    }
    push_zeros(&mut data, (32 - n % 32) % 32);
    proof {
        assert(data@ =~= fill_order_calldata(
            fill.order_id@,
            fill.order,
            fill.fill_params,
            fill.bridge_adapter@,
            adapter_args@,
        ));
        lemma_pow256_values();
        crate::bytes::lemma_pow256_mono(8, 16);
        lemma_uint_word(o.version as nat, 2);
        lemma_uint_word(o.nonce as nat, 8);
        lemma_uint_word(o.origin_chain_id as nat, 4);
        lemma_uint_word(o.dest_chain_id as nat, 4);
        lemma_uint_word(o.created_at as nat, 8);
        lemma_uint_word(o.fill_deadline as nat, 8);
        lemma_uint_word(o.amount_in as nat, 16);
        lemma_uint_word(o.amount_out as nat, 16);
        lemma_uint_word(fill.fill_params.amount_out_to_fill as nat, 16);
        lemma_uint_word(608, 16);
        lemma_uint_word(n as nat, 16);
        law_fill_order_call_layout(
            fill.order_id@,
            fill.order,
            fill.fill_params,
            fill.bridge_adapter@,
            adapter_args@,
            data@,
        );
    }
    data
}

/// The spending approval a fill needs: `approve(orderBook, amount)` where
/// the allowance is below the amount, none otherwise.
pub fn approval_call(allowance: u128, amount: u128, order_book: &[u8; 20]) -> (call: Option<Vec<u8>>)
    ensures
        allowance < amount ==> (call matches Some(d) && d@ == approve_calldata(order_book@, amount)),
        allowance >= amount ==> call is None,
{
    if needs_approval(allowance, amount) {
        Some(encode_approve_call(order_book, amount))
    } else {
        None
    }
}

/// Writes fills on EVM destination chains.
pub struct EvmWriter {
    pub order_store: OrderStore,
    pub chains: Vec<ChainConfig>,
    pub network: Network,
    pub solver_address: [u8; 20],
}

/// The settings an EVM fill reads from the configuration parse: the
/// destination's order book, and its portal or bridge adapter.
pub open spec fn evm_fill_addresses_parse(chains: Seq<ChainConfig>, o: Order) -> bool {
    let dest = o.data.dest_chain_id;
    match first_chain(chains, dest) {
        None => true,
        Some(i) => {
            &&& evm_address(chains[i].order_book_address@) is Some
            &&& (runtime_of(o.data.origin_chain_id) == ChainRuntime::Svm ==> match chains[i].bridge_adapter {
                Some(a) => evm_address(a@) is Some,
                None => true,
            })
            &&& (runtime_of(o.data.origin_chain_id) != ChainRuntime::Svm ==> match chains[i].portal_program_id {
                Some(a) => evm_address(a@) is Some,
                None => true,
            })
        },
    }
}

impl EvmWriter {
    pub fn new(chains: &Vec<ChainConfig>, network: Network, solver_address: [u8; 20]) -> (w: Self)
        ensures
            w.order_store.wf(),
            w.order_store@ == Map::<Seq<char>, Order>::empty(),
            w.chains@ == chains@,
            w.network == network,
            w.solver_address == solver_address,
    {
        EvmWriter {
            order_store: OrderStore::new(),
            chains: copy_chains(chains),
            network,
            solver_address,
        }
    }

    /// The event can be taken: a fill fits the order store, the clock is
    /// past 15 seconds, and the addresses a fill reads parse.
    pub open spec fn handle_defined(&self, event: SolverEvent, now_secs: u64) -> bool {
        &&& fill_fits(self.order_store@, event)
        &&& now_secs >= 15
        &&& (event matches SolverEvent::RequestFillOrder(e) ==> {
            let orders = writer_orders(self.order_store@, event);
            orders.contains_key(e.order_id@) ==> evm_fill_addresses_parse(
                self.chains@,
                orders[e.order_id@],
            )
        })
    }

    /// Whether the settings a fill of `o` reads parse (see
    /// `evm_fill_addresses_parse`).
    fn fill_addresses_parse(&self, o: &Order) -> (ok: bool)
        ensures
            ok == evm_fill_addresses_parse(self.chains@, *o),
    {
        match chain_position(&self.chains, o.data.dest_chain_id) {
            None => true,
            Some(i) => {
                let c = &self.chains[i];
                if parse_evm_address(c.order_book_address.as_str()).is_err() {
                    return false;
                }
                if chain_runtime(o.data.origin_chain_id) == ChainRuntime::Svm {
                    match &c.bridge_adapter {
                        Some(a) => parse_evm_address(a.as_str()).is_ok(),
                        None => true,
                    }
                } else {
                    match &c.portal_program_id {
                        Some(a) => parse_evm_address(a.as_str()).is_ok(),
                        None => true,
                    }
                }
            },
        }
    }

    /// Whether `handle_event` can take `event` at `now_secs` (see
    /// `handle_defined`).
    pub fn can_handle(&self, event: &SolverEvent, now_secs: u64) -> (ok: bool)
        requires
            self.order_store.wf(),
        ensures
            ok == self.handle_defined(*event, now_secs),
    {
        if now_secs < 15 {
            return false;
        }
        match event {
            SolverEvent::OrderFill(e) => match self.order_store.get_order(&e.order_id) {
                Some(o) => o.filled_amount.checked_add(e.amount).is_some(),
                None => true,
            },
            SolverEvent::RequestFillOrder(e) => match self.order_store.get_order(&e.order_id) {
                Some(o) => self.fill_addresses_parse(&o),
                None => true,
            },
            _ => true,
        }
    }

    /// Takes an event: a fill request for an order whose destination is an
    /// EVM chain becomes a fill to send; anything else gives none.
    pub fn handle_event(&mut self, event: SolverEvent, now_secs: u64) -> (result: Result<Option<EvmFill>, SolverError>)
        requires
            old(self).order_store.wf(),
            old(self).handle_defined(event, now_secs),
        ensures
            final(self).order_store.wf(),
            final(self).order_store@ == writer_orders(old(self).order_store@, event),
            final(self).chains == old(self).chains,
            final(self).network == old(self).network,
            final(self).solver_address == old(self).solver_address,
            !(event is RequestFillOrder) ==> result == Ok::<Option<EvmFill>, SolverError>(None),
            event matches SolverEvent::RequestFillOrder(e) ==> evm_fill_result(
                *old(self),
                final(self).order_store@,
                e.order_id,
                e.amount,
                now_secs,
                result,
            ),
    {
        let _ = self.order_store.handle_event(&event);
        match event {
            SolverEvent::RequestFillOrder(e) => self.plan_fill(e.order_id, e.amount, now_secs),
            _ => Ok(None),
        }
    }

    #[verifier::rlimit(60)]
    fn plan_fill(&self, order_id: String, amount: u128, now_secs: u64) -> (result: Result<Option<EvmFill>, SolverError>)
        requires
            self.order_store.wf(),
            now_secs >= 15,
            self.order_store@.contains_key(order_id@) ==> evm_fill_addresses_parse(
                self.chains@,
                self.order_store@[order_id@],
            ),
        ensures
            evm_fill_result(*self, self.order_store@, order_id, amount, now_secs, result),
    {
        let order = match self.order_store.get_order(&order_id) {
            Some(o) => o,
            None => return Err(SolverError::OrderNotFound(order_id)),
        };
        let dest = order.data.dest_chain_id;
        if chain_runtime(dest) != ChainRuntime::Evm {
            return Ok(None);
        }
        let wait_secs = fill_wait_secs(now_secs, order.data.created_at);
        let pos = chain_position(&self.chains, dest);
        let chain = match pos {
            Some(i) => &self.chains[i],
            None => {
                return Err(
                    SolverError::Component(
                        String::from_str("No transaction lock for chain ").concat(
                            u128_to_decimal(dest as u128).as_str(),
                        ),
                    ),
                );
            },
        };
        proof {
            assert(evm_fill_addresses_parse(self.chains@, order));
            assert(first_chain(self.chains@, dest) == Some(pos->Some_0 as int));
            assert(*chain == self.chains@[pos->Some_0 as int]);
        }
        let order_book = match parse_evm_address(chain.order_book_address.as_str()) {
            Ok(a) => a,
            Err(_) => return Err(SolverError::Component(String::from_str("Order book address not found for chain"))),
        };
        let id_bytes = match parse_order_id(order_id.as_str()) {
            Some(b) => b,
            None => return Err(SolverError::Component(String::from_str("Invalid order id"))),
        };
        let mut solver: Vec<u8> = Vec::new();
        extend_bytes(&mut solver, &self.solver_address);
        let origin_recipient = left_pad_32(&solver);
        let planned = plan_bridge(chain, self.network, order.data.origin_chain_id, dest);
        let bridge = match planned {
            Ok(b) => b,
            Err(e) => {
                proof {
                    assert(bridge_for(*chain, self.network, order.data.origin_chain_id, dest, planned));
                }
                return Err(e);
            },
        };
        proof {
            assert(bridge_for(*chain, self.network, order.data.origin_chain_id, dest, planned));
            assert(origin_recipient@ =~= zeros(12) + self.solver_address@);
        }
        let bridge_adapter = match &bridge {
            Bridge::Wormhole { adapter, .. } => *adapter,
            Bridge::Portal { .. } => [0u8; 20],
        };
        proof {
            if bridge is Portal {
                assert(bridge_adapter@ =~= zeros(20));
            }
        }
        let fill_params = EvmFillParams {
            amount_out_to_fill: amount,
            origin_recipient,
            refund_address: origin_recipient,
        };
        Ok(
            Some(
                EvmFill {
                    order_id: id_bytes,
                    order: order.data,
                    amount,
                    origin_recipient,
                    order_book,
                    wait_secs,
                    bridge,
                    fill_params,
                    bridge_adapter,
                },
            ),
        )
    }
}

/// How the report of a fill on `c` (chain `dest`) of an order from
/// `origin` travels: through the configured Wormhole adapter for Solana
/// origins, through the configured portal otherwise.
pub open spec fn bridge_for(
    c: ChainConfig,
    network: Network,
    origin: u32,
    dest: u32,
    result: Result<Bridge, SolverError>,
) -> bool {
    if runtime_of(origin) == ChainRuntime::Svm {
        match c.bridge_adapter {
            None => result matches Err(SolverError::Component(m)) && m@
                == "Wormhole adapter address not found for chain"@,
            Some(a) => evm_address(a@) is Some ==> (result matches Ok(Bridge::Wormhole {
                adapter,
                quote_url,
                relay_instructions: r,
                source_chain_id,
                target_chain_id,
            }) && evm_address(a@) == Some(adapter@) && quote_url@ == executor_quote_api(network) && r@
                == relay_instructions(DEFAULT_GAS_LIMIT, DEFAULT_MSG_VALUE) && source_chain_id == dest
                && target_chain_id == origin),
        }
    } else {
        match c.portal_program_id {
            None => result matches Err(SolverError::Component(m)) && m@
                == "Portal address not found for chain"@,
            Some(a) => evm_address(a@) is Some ==> (result matches Ok(Bridge::Portal {
                portal,
                origin_chain_id,
            }) && evm_address(a@) == Some(portal@) && origin_chain_id == origin),
        }
    }
}

/// The bridge of a fill (see `bridge_for`).
pub fn plan_bridge(c: &ChainConfig, network: Network, origin: u32, dest: u32) -> (result: Result<Bridge, SolverError>)
    ensures
        bridge_for(*c, network, origin, dest, result),
{
    if chain_runtime(origin) == ChainRuntime::Svm {
        let adapter = match &c.bridge_adapter {
            Some(a) => match parse_evm_address(a.as_str()) {
                Ok(b) => b,
                Err(_) => {
                    return Err(
                        SolverError::Component(
                            String::from_str("Wormhole adapter address not found for chain"),
                        ),
                    );
                },
            },
            None => {
                return Err(
                    SolverError::Component(
                        String::from_str("Wormhole adapter address not found for chain"),
                    ),
                );
            },
        };
        Ok(
            Bridge::Wormhole {
                adapter,
                quote_url: executor_quote_url(network).to_owned(),
                relay_instructions: encode_relay_instructions(DEFAULT_GAS_LIMIT, DEFAULT_MSG_VALUE),
                source_chain_id: dest,
                target_chain_id: origin,
            },
        )
    } else {
        let portal = match &c.portal_program_id {
            Some(a) => match parse_evm_address(a.as_str()) {
                Ok(b) => b,
                Err(_) => {
                    return Err(
                        SolverError::Component(String::from_str("Portal address not found for chain")),
                    );
                },
            },
            None => {
                return Err(
                    SolverError::Component(String::from_str("Portal address not found for chain")),
                );
            },
        };
        Ok(Bridge::Portal { portal, origin_chain_id: origin })
    }
}

/// What a fill request gives an EVM writer: an unknown order is an error;
/// an order bound elsewhere than an EVM chain gives no fill; a destination
/// that is not configured has no transaction lock; an id that is not
/// hexadecimal is refused; otherwise the fill of the request's amount of
/// the order through the destination's order book, after the wait, with
/// the Wormhole adapter for Solana origins and the portal otherwise (each
/// must be configured).
pub open spec fn evm_fill_result(
    w: EvmWriter,
    orders: Map<Seq<char>, Order>,
    order_id: String,
    amount: u128,
    now_secs: u64,
    result: Result<Option<EvmFill>, SolverError>,
) -> bool {
    if !orders.contains_key(order_id@) {
        result matches Err(SolverError::OrderNotFound(m)) && m@ == order_id@
    } else {
        let o = orders[order_id@];
        let dest = o.data.dest_chain_id;
        if runtime_of(dest) != ChainRuntime::Evm {
            result == Ok::<Option<EvmFill>, SolverError>(None)
        } else {
            match first_chain(w.chains@, dest) {
                None => result matches Err(SolverError::Component(m)) && m@ == "No transaction lock for chain "@
                    + decimal(dest as nat),
                Some(i) => {
                    let c = w.chains@[i];
                    match order_id_bytes(order_id@) {
                        None => result matches Err(SolverError::Component(m)) && m@ == "Invalid order id"@,
                        Some(id) => exists|b: Result<Bridge, SolverError>|
                            #[trigger] bridge_for(c, w.network, o.data.origin_chain_id, dest, b) && match b {
                                Err(e) => result == Err::<Option<EvmFill>, SolverError>(e),
                                Ok(bridge) => result matches Ok(Some(f)) && {
                                    &&& f.order_id@ == id
                                    &&& f.order == o.data
                                    &&& f.amount == amount
                                    &&& f.origin_recipient@ == zeros(12) + w.solver_address@
                                    &&& evm_address(c.order_book_address@) == Some(f.order_book@)
                                    &&& f.wait_secs == fill_wait(now_secs, o.data.created_at)
                                    &&& f.bridge == bridge
                                    &&& f.fill_params.amount_out_to_fill == amount
                                    &&& f.fill_params.origin_recipient@ == zeros(12) + w.solver_address@
                                    &&& f.fill_params.refund_address@ == zeros(12) + w.solver_address@
                                    &&& f.bridge_adapter@ == match bridge {
                                        Bridge::Wormhole { adapter, .. } => adapter@,
                                        Bridge::Portal { .. } => zeros(20),
                                    }
                                },
                            },
                    }
                },
            }
        }
    }
}

/// Whether a Solana fill fills an order opened on the same chain (native)
/// or on another (foreign).
#[derive(Debug, Clone, Copy, PartialEq, Eq, Structural)]
pub enum SvmFillKind {
    Native,
    Foreign,
}

/// The name of the program instruction of a fill.
pub open spec fn fill_instruction_name(kind: SvmFillKind) -> Seq<char> {
    match kind {
        SvmFillKind::Native => "fill_native_order"@,
        SvmFillKind::Foreign => "fill_foreign_order"@,
    }
}

/// The fill parameters of the Solana program.
#[derive(Debug, Clone, Copy)]
pub struct FillParams {
    pub amount_out_to_fill: u64,
    pub origin_recipient: [u8; 32],
}

/// The data of a fill instruction: its discriminator, the order id, the
/// order and the fill parameters in Borsh form.
pub open spec fn fill_instruction_data(kind: SvmFillKind, order_id: Seq<u8>, o: OrderData, p: FillParams) -> Seq<u8> {
    instruction_discriminator(fill_instruction_name(kind)) + order_id + o.borsh() + le_bytes(
        p.amount_out_to_fill as nat,
        8,
    ) + p.origin_recipient@
}

/// Encodes a fill instruction (see `fill_instruction_data`).
pub fn encode_fill_instruction(kind: SvmFillKind, order_id: &[u8; 32], order: &OrderData, params: &FillParams) -> (data: Vec<u8>)
    ensures
        data@ == fill_instruction_data(kind, order_id@, *order, *params),
{
    let mut data = match kind {
        SvmFillKind::Native => anchor_discriminator("fill_native_order"),
        SvmFillKind::Foreign => anchor_discriminator("fill_foreign_order"),
    };
    extend_bytes(&mut data, order_id);
    order.serialize(&mut data);
    append_le(&mut data, params.amount_out_to_fill as u128, 8);
    extend_bytes(&mut data, &params.origin_recipient);
    proof {
        assert(data@ =~= fill_instruction_data(kind, order_id@, *order, *params));
    }
    data
}

/// A Solana fill ready to be sent, once the wait has passed.
#[derive(Debug, Clone)]
pub struct SvmFill {
    pub order_id: [u8; 32],
    pub order: OrderData,
    pub amount: u128,
    pub kind: SvmFillKind,
    /// The order book program on the destination chain.
    pub program_id: [u8; 32],
    pub instruction_data: Vec<u8>,
    pub wait_secs: u64,
    /// For a foreign fill, the Wormhole adapter on the origin chain that
    /// the relay is addressed to.
    pub wormhole_adapter: Option<[u8; 32]>,
    pub is_devnet: bool,
    /// For a foreign fill, the Wormhole relay request that follows the fill
    /// instruction in the same transaction.
    pub relay: Option<RelayRequest>,
}

/// The relay request of a foreign fill: executed on the order's origin
/// chain, through its Wormhole adapter, with the default gas limit and
/// message value.
#[derive(Debug, Clone, Copy)]
pub struct RelayRequest {
    pub target_chain_id: u32,
    pub adapter: [u8; 32],
    pub gas_limit: u128,
    pub msg_value: u128,
}

/// One instruction of a Solana fill transaction.
#[derive(Debug, Clone, Copy)]
pub enum SvmFillStep {
    /// Creates (idempotently) the solver's associated account for the
    /// order's input token, paid by and owned by the solver.
    CreateSolverTokenInAccount { mint: [u8; 32] },
    /// The fill instruction (`SvmFill::instruction_data`).
    Fill,
    /// The Wormhole relay request of a foreign fill.
    Relay(RelayRequest),
}

/// The instructions of a Solana fill's transaction, in order: a native
/// fill first creates the solver's input-token account where it does not
/// exist yet, then fills; a foreign fill fills, then asks for its relay.
pub open spec fn svm_fill_steps_of(fill: SvmFill, solver_token_in_exists: bool) -> Seq<SvmFillStep> {
    match fill.kind {
        SvmFillKind::Native => if solver_token_in_exists {
            seq![SvmFillStep::Fill]
        } else {
            seq![SvmFillStep::CreateSolverTokenInAccount { mint: fill.order.token_in }, SvmFillStep::Fill]
        },
        SvmFillKind::Foreign => match fill.relay {
            Some(r) => seq![SvmFillStep::Fill, SvmFillStep::Relay(r)],
            None => seq![SvmFillStep::Fill],
        },
    }
}

/// The instructions of a Solana fill's transaction, once it is known
/// whether the solver's input-token account exists (see
/// `svm_fill_steps_of`).
pub fn svm_fill_steps(fill: &SvmFill, solver_token_in_exists: bool) -> (steps: Vec<SvmFillStep>)
    ensures
        steps@ == svm_fill_steps_of(*fill, solver_token_in_exists),
{
    let mut steps: Vec<SvmFillStep> = Vec::new();
    match fill.kind {
        SvmFillKind::Native => {
            if !solver_token_in_exists {
                steps.push(SvmFillStep::CreateSolverTokenInAccount { mint: fill.order.token_in });
            }
            steps.push(SvmFillStep::Fill);
        },
        SvmFillKind::Foreign => {
            steps.push(SvmFillStep::Fill);
            match fill.relay {
                Some(r) => steps.push(SvmFillStep::Relay(r)),
                None => {},
            }
        },
    }
    proof {
        assert(steps@ =~= svm_fill_steps_of(*fill, solver_token_in_exists));
    }
    steps
}

/// The Wormhole adapter on a fill's origin chain, as configured (EVM
/// addresses in hexadecimal, Solana ones in base58).
pub open spec fn destination_adapter(chains: Seq<ChainConfig>, origin: u32, result: Result<[u8; 32], SolverError>) -> bool {
    match first_chain(chains, origin) {
        None => result matches Err(SolverError::Component(m)) && m@ == "Destination chain config not found"@,
        Some(i) => match chains[i].bridge_adapter {
            Some(a) => match asset_address_key(origin, encode_utf8(a@)) {
                Some(k) => result matches Ok(b) && b@ == k,
                None => result matches Err(SolverError::Component(m)) && m@
                    == "Failed to decode wormhole adapter"@,
            },
            None => result matches Err(SolverError::Component(m)) && m@
                == "Failed to decode wormhole adapter"@,
        },
    }
}

/// Finds the Wormhole adapter on a fill's origin chain.
pub fn get_destination_wormhole_adapter(chains: &Vec<ChainConfig>, origin: u32) -> (result: Result<[u8; 32], SolverError>)
    ensures
        destination_adapter(chains@, origin, result),
{
    let c = match chain_position(chains, origin) {
        Some(i) => &chains[i],
        None => return Err(SolverError::Component(String::from_str("Destination chain config not found"))),
    };
    match &c.bridge_adapter {
        Some(a) => match parse_asset_address(origin, a.as_str()) {
            Some(k) => Ok(k),
            None => Err(SolverError::Component(String::from_str("Failed to decode wormhole adapter"))),
        },
        None => Err(SolverError::Component(String::from_str("Failed to decode wormhole adapter"))),
    }
}

/// Writes fills on Solana destination chains.
pub struct SvmWriter {
    pub order_store: OrderStore,
    pub chains: Vec<ChainConfig>,
    pub network: Network,
    pub solver_pubkey: [u8; 32],
    pub evm_solver: [u8; 20],
}

/// The program a Solana fill goes to parses as a Solana address.
pub open spec fn svm_program_parses(chains: Seq<ChainConfig>, o: Order) -> bool {
    match first_chain(chains, o.data.dest_chain_id) {
        None => true,
        Some(i) => solana_pubkey(chains[i].order_book_address@) is Some,
    }
}

/// What a fill request gives a Solana writer: an unknown order is an
/// error; an order bound elsewhere than a Solana chain gives no fill; the
/// destination's order book program must be configured and the id
/// hexadecimal; a same-chain order is filled natively (paying the solver's
/// Solana key), another through the foreign fill (paying the solver's EVM
/// address), which also needs the origin's Wormhole adapter.
pub open spec fn svm_fill_result(
    w: SvmWriter,
    orders: Map<Seq<char>, Order>,
    order_id: String,
    amount: u128,
    now_secs: u64,
    result: Result<Option<SvmFill>, SolverError>,
) -> bool {
    if !orders.contains_key(order_id@) {
        result matches Err(SolverError::OrderNotFound(m)) && m@ == order_id@
    } else {
        let o = orders[order_id@];
        let dest = o.data.dest_chain_id;
        if runtime_of(dest) != ChainRuntime::Svm {
            result == Ok::<Option<SvmFill>, SolverError>(None)
        } else {
            match first_chain(w.chains@, dest) {
                None => result matches Err(SolverError::Component(m)) && m@
                    == "Order book program ID not found for chain"@,
                Some(i) => match order_id_bytes(order_id@) {
                    None => result matches Err(SolverError::Component(m)) && m@ == "Invalid order id"@,
                    Some(id) => {
                        let native = o.data.origin_chain_id == dest;
                        let kind = if native {
                            SvmFillKind::Native
                        } else {
                            SvmFillKind::Foreign
                        };
                        let recipient = if native {
                            w.solver_pubkey@
                        } else {
                            zeros(12) + w.evm_solver@
                        };
                        let fits = |f: SvmFill|
                            {
                                &&& f.order_id@ == id
                                &&& f.order == o.data
                                &&& f.amount == amount
                                &&& f.kind == kind
                                &&& solana_pubkey(w.chains@[i].order_book_address@) == Some(
                                    f.program_id@,
                                )
                                &&& f.order_id@ == id
                                &&& exists|p: FillParams|
                                    #![trigger fill_instruction_data(kind, id, o.data, p)]
                                    p.amount_out_to_fill == amount as u64 && p.origin_recipient@
                                        == recipient && f.instruction_data@
                                        == fill_instruction_data(kind, id, o.data, p)
                                &&& f.wait_secs == fill_wait(now_secs, o.data.created_at)
                                &&& f.is_devnet == (w.network == Network::Devnet)
                            };
                        if native {
                            result matches Ok(Some(f)) && fits(f) && f.wormhole_adapter is None
                                && f.relay is None
                        } else {
                            exists|a: Result<[u8; 32], SolverError>|
                                #[trigger] destination_adapter(w.chains@, o.data.origin_chain_id, a)
                                    && match a {
                                    Err(e) => result == Err::<Option<SvmFill>, SolverError>(e),
                                    Ok(adapter) => result matches Ok(Some(f)) && fits(f)
                                        && f.wormhole_adapter == Some(adapter) && f.relay == Some(
                                        RelayRequest {
                                            target_chain_id: o.data.origin_chain_id,
                                            adapter,
                                            gas_limit: DEFAULT_GAS_LIMIT,
                                            msg_value: DEFAULT_MSG_VALUE,
                                        },
                                    ),
                                }
                        }
                    },
                },
            }
        }
    }
}

impl SvmWriter {
    pub fn new(chains: &Vec<ChainConfig>, network: Network, solver_pubkey: [u8; 32], evm_solver: [u8; 20]) -> (w: Self)
        ensures
            w.order_store.wf(),
            w.order_store@ == Map::<Seq<char>, Order>::empty(),
            w.chains@ == chains@,
            w.network == network,
            w.solver_pubkey == solver_pubkey,
            w.evm_solver == evm_solver,
    {
        SvmWriter {
            order_store: OrderStore::new(),
            chains: copy_chains(chains),
            network,
            solver_pubkey,
            evm_solver,
        }
    }

    /// The event can be taken: a fill fits the order store, the clock is
    /// past 15 seconds, and the program a fill goes to parses.
    pub open spec fn handle_defined(&self, event: SolverEvent, now_secs: u64) -> bool {
        &&& fill_fits(self.order_store@, event)
        &&& now_secs >= 15
        &&& (event matches SolverEvent::RequestFillOrder(e) ==> {
            let orders = writer_orders(self.order_store@, event);
            orders.contains_key(e.order_id@) ==> svm_program_parses(self.chains@, orders[e.order_id@])
        })
    }

    /// Whether the program a fill of `o` goes to parses (see
    /// `svm_program_parses`).
    fn program_parses(&self, o: &Order) -> (ok: bool)
        ensures
            ok == svm_program_parses(self.chains@, *o),
    {
        match chain_position(&self.chains, o.data.dest_chain_id) {
            Some(i) => parse_pubkey(self.chains[i].order_book_address.as_str()).is_some(),
            None => true,
        }
    }

    /// Whether `handle_event` can take `event` at `now_secs` (see
    /// `handle_defined`).
    pub fn can_handle(&self, event: &SolverEvent, now_secs: u64) -> (ok: bool)
        requires
            self.order_store.wf(),
        ensures
            ok == self.handle_defined(*event, now_secs),
    {
        if now_secs < 15 {
            return false;
        }
        match event {
            SolverEvent::OrderFill(e) => match self.order_store.get_order(&e.order_id) {
                Some(o) => o.filled_amount.checked_add(e.amount).is_some(),
                None => true,
            },
            SolverEvent::RequestFillOrder(e) => match self.order_store.get_order(&e.order_id) {
                Some(o) => self.program_parses(&o),
                None => true,
            },
            _ => true,
        }
    }

    /// Takes an event: a fill request for an order whose destination is a
    /// Solana chain becomes a fill to send; anything else gives none.
    pub fn handle_event(&mut self, event: SolverEvent, now_secs: u64) -> (result: Result<Option<SvmFill>, SolverError>)
        requires
            old(self).order_store.wf(),
            old(self).handle_defined(event, now_secs),
        ensures
            final(self).order_store.wf(),
            final(self).order_store@ == writer_orders(old(self).order_store@, event),
            final(self).chains == old(self).chains,
            final(self).network == old(self).network,
            final(self).solver_pubkey == old(self).solver_pubkey,
            final(self).evm_solver == old(self).evm_solver,
            !(event is RequestFillOrder) ==> result == Ok::<Option<SvmFill>, SolverError>(None),
            event matches SolverEvent::RequestFillOrder(e) ==> svm_fill_result(
                *old(self),
                final(self).order_store@,
                e.order_id,
                e.amount,
                now_secs,
                result,
            ),
    {
        let _ = self.order_store.handle_event(&event);
        match event {
            SolverEvent::RequestFillOrder(e) => self.plan_fill(e.order_id, e.amount, now_secs),
            _ => Ok(None),
        }
    }

    #[verifier::rlimit(60)]
    fn plan_fill(&self, order_id: String, amount: u128, now_secs: u64) -> (result: Result<Option<SvmFill>, SolverError>)
        requires
            self.order_store.wf(),
            now_secs >= 15,
            self.order_store@.contains_key(order_id@) ==> svm_program_parses(
                self.chains@,
                self.order_store@[order_id@],
            ),
        ensures
            svm_fill_result(*self, self.order_store@, order_id, amount, now_secs, result),
    {
        let order = match self.order_store.get_order(&order_id) {
            Some(o) => o,
            None => return Err(SolverError::OrderNotFound(order_id)),
        };
        let dest = order.data.dest_chain_id;
        if chain_runtime(dest) != ChainRuntime::Svm {
            return Ok(None);
        }
        let wait_secs = fill_wait_secs(now_secs, order.data.created_at);
        let pos = chain_position(&self.chains, dest);
        let chain = match pos {
            Some(i) => &self.chains[i],
            None => {
                return Err(
                    SolverError::Component(String::from_str("Order book program ID not found for chain")),
                );
            },
        };
        proof {
            assert(svm_program_parses(self.chains@, order));
            assert(*chain == self.chains@[pos->Some_0 as int]);
        }
        let program_id = match parse_pubkey(chain.order_book_address.as_str()) {
            Some(k) => k,
            None => {
                return Err(
                    SolverError::Component(String::from_str("Order book program ID not found for chain")),
                );
            },
        };
        let id_bytes = match parse_order_id(order_id.as_str()) {
            Some(b) => b,
            None => return Err(SolverError::Component(String::from_str("Invalid order id"))),
        };
        let native = order.data.origin_chain_id == dest;
        let kind = if native {
            SvmFillKind::Native
        } else {
            SvmFillKind::Foreign
        };
        let recipient = if native {
            self.solver_pubkey
        } else {
            let mut evm: Vec<u8> = Vec::new();
            extend_bytes(&mut evm, &self.evm_solver);
            let padded = left_pad_32(&evm);
            proof {
                assert(padded@ =~= zeros(12) + self.evm_solver@);
            }
            padded
        };
        let params = FillParams { amount_out_to_fill: amount as u64, origin_recipient: recipient };
        let instruction_data = encode_fill_instruction(kind, &id_bytes, &order.data, &params);
        let wormhole_adapter = if native {
            None
        } else {
            let found = get_destination_wormhole_adapter(&self.chains, order.data.origin_chain_id);
            match found {
                Ok(a) => Some(a),
                Err(e) => {
                    proof {
                        assert(destination_adapter(self.chains@, order.data.origin_chain_id, found));
                    }
                    return Err(e);
                },
            }
        };
        let relay = match wormhole_adapter {
            Some(adapter) => Some(
                RelayRequest {
                    target_chain_id: order.data.origin_chain_id,
                    adapter,
                    gas_limit: DEFAULT_GAS_LIMIT,
                    msg_value: DEFAULT_MSG_VALUE,
                },
            ),
            None => None,
        };
        let fill = SvmFill {
            order_id: id_bytes,
            order: order.data,
            amount,
            kind,
            program_id,
            instruction_data,
            wait_secs,
            wormhole_adapter,
            is_devnet: self.network == Network::Devnet,
            relay,
        };
        proof {
            assert(fill_instruction_data(kind, id_bytes@, order.data, params) == fill.instruction_data@);
        }
        Ok(Some(fill))
    }
}

} // verus!
