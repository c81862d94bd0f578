//! The order processor: it decides which orders the solver fills and how
//! much at a time, and answers quote requests.
use vstd::prelude::*;
use crate::solver::asset_store::{AssetEntry, AssetStore};
use crate::solver::assets::{Asset, ChainRuntime, chain_runtime, runtime_of};
use crate::solver::config::{Config, SupportedAssets};
use crate::solver::error::SolverError;
use crate::solver::events::{
    OrderCreatedEvent, OrderRejectEvent, QuoteResponse, QuoteResponseEvent, RequestFillOrderEvent,
    RequestHoldEvent, RequestQuoteEvent, SolverEvent,
};
use crate::solver::order_store::{fill_fits, store_step, Order, OrderStore};
use crate::text::{checked_pow10, decimal, join3, pow10, ten_pow, u128_to_decimal};

verus! {

/// The asset listed for a token on a chain.
pub open spec fn asset_for(assets: Map<(Seq<u8>, u32), AssetEntry>, token: [u8; 32], chain_id: u32) -> Option<Asset> {
    if assets.contains_key((token@, chain_id)) {
        Some(assets[(token@, chain_id)].asset)
    } else {
        None
    }
}

/// The asset of a token if the solver trades it, or why not.
pub open spec fn supported_asset(
    assets: Map<(Seq<u8>, u32), AssetEntry>,
    supported: SupportedAssets,
    token: [u8; 32],
    chain_id: u32,
) -> Result<Asset, Seq<char>> {
    match asset_for(assets, token, chain_id) {
        None => Err("Asset not supported"@),
        Some(a) => if supported.supports(a) {
            Ok(a)
        } else {
            Err("Asset "@ + a.address@ + " not supported"@)
        },
    }
}

/// The input and output assets of a swap if the solver takes it, or why
/// not: both must be traded, one must be an M0 extension, and they must
/// differ.
pub open spec fn supported_pair(
    assets: Map<(Seq<u8>, u32), AssetEntry>,
    supported: SupportedAssets,
    input_token: [u8; 32],
    input_chain_id: u32,
    output_token: [u8; 32],
    output_chain_id: u32,
) -> Result<(Asset, Asset), Seq<char>> {
    match supported_asset(assets, supported, input_token, input_chain_id) {
        Err(r) => Err("input_token: "@ + r),
        Ok(a) => match supported_asset(assets, supported, output_token, output_chain_id) {
            Err(r) => Err("output_token: "@ + r),
            Ok(b) => if !a.m0_extension && !b.m0_extension {
                Err("At least one asset must be an M0 extension"@)
            } else if a@ == b@ {
                Err("Must be different assets or different chains"@)
            } else {
                Ok((a, b))
            },
        },
    }
}

/// The smallest output the solver accepts for `amount_in` after its fee.
pub open spec fn min_amount_out(amount_in: u128, fee_bps: u128) -> int {
    amount_in * (10_000 - fee_bps) / 10_000
}

/// The largest fill of one clip, in the asset's smallest unit.
pub open spec fn clip_amount(max_clip: u128, decimals: i64) -> int {
    max_clip * ten_pow((decimals as u32) as nat)
}

/// The clip size of an asset is representable.
pub open spec fn clip_fits(max_clip: u128, decimals: i64) -> bool {
    ten_pow((decimals as u32) as nat) <= u128::MAX && clip_amount(max_clip, decimals) <= u128::MAX
}

/// Why an order whose output does not cover the fee is rejected.
pub open spec fn fee_reason(amount_out: u128, min_out: int) -> Seq<char> {
    "Order amount_out "@ + decimal(amount_out as nat) + " does not cover fee-inclusive amount_out "@
        + decimal(min_out as nat)
}

/// `ev` rejects order `id` for `reason`.
pub open spec fn is_rejection(ev: SolverEvent, id: Seq<char>, reason: Seq<char>) -> bool {
    match ev {
        SolverEvent::OrderRejected(r) => r.order_id@ == id && r.reason@ == reason,
        _ => false,
    }
}

/// The request to hold `amount` of `asset` for order `id` (partial holds
/// allowed).
pub open spec fn hold_request(id: String, asset: Asset, amount: u128) -> SolverEvent {
    SolverEvent::RequestHold(RequestHoldEvent { order_id: id, asset, amount, allow_partial_hold: true })
}

/// The number of leading queue entries that are due at `ts`.
pub open spec fn due_count(queue: Seq<(String, u128)>, ts: u128) -> nat
    decreases queue.len(),
{
    if queue.len() == 0 || queue[0].1 > ts {
        0
    } else {
        1 + due_count(queue.subrange(1, queue.len() as int), ts)
    }
}

/// The number of leading queue entries, among the first `n`, whose orders
/// the store knows.
pub open spec fn known_count(queue: Seq<(String, u128)>, orders: Map<Seq<char>, Order>, n: nat) -> nat
    decreases n,
{
    if n == 0 {
        0
    } else if known_count(queue, orders, (n - 1) as nat) == n - 1 && orders.contains_key(
        queue[n - 1].0@,
    ) {
        n
    } else {
        known_count(queue, orders, (n - 1) as nat)
    }
}

/// What remains to fill of an order.
pub open spec fn remaining(o: Order) -> int {
    o.data.amount_out - o.filled_amount
}

impl OrderProcessor {
    /// The order of queue entry `j`.
    pub open spec fn queued_order(&self, j: int) -> Order {
        self.order_store@[self.reprocess_queue@[j].0@]
    }

    /// The destination asset of the order of queue entry `j`.
    pub open spec fn queued_asset(&self, j: int) -> Asset {
        asset_for(
            self.asset_store@.assets,
            self.queued_order(j).data.token_out,
            self.queued_order(j).data.dest_chain_id,
        )->Some_0
    }

    /// The next clip of the order of queue entry `j`.
    pub open spec fn queued_fill(&self, j: int) -> u128 {
        let max = clip_amount(self.max_clip_size, self.queued_asset(j).decimals);
        let rest = remaining(self.queued_order(j));
        if rest > max {
            max as u128
        } else {
            rest as u128
        }
    }

    /// The order of queue entry `j` needs more clips after the next.
    pub open spec fn queued_again(&self, j: int) -> bool {
        remaining(self.queued_order(j)) > clip_amount(self.max_clip_size, self.queued_asset(j).decimals)
    }

    /// The hold requests for the first `n` queue entries.
    pub open spec fn due_holds(&self, n: nat) -> Seq<SolverEvent>
        decreases n,
    {
        if n == 0 {
            Seq::empty()
        } else {
            self.due_holds((n - 1) as nat).push(
                hold_request(
                    self.reprocess_queue@[n - 1].0,
                    self.queued_asset(n - 1),
                    self.queued_fill(n - 1),
                ),
            )
        }
    }

    /// The orders among the first `n` queue entries that need more clips.
    pub open spec fn requeued(&self, n: nat) -> Seq<String>
        decreases n,
    {
        if n == 0 {
            Seq::empty()
        } else if self.queued_again(n - 1) {
            self.requeued((n - 1) as nat).push(self.queued_order(n - 1).id)
        } else {
            self.requeued((n - 1) as nat)
        }
    }

    /// Queue entry `j` can be processed without overflow.
    pub open spec fn queued_defined(&self, j: int, now_ms: u128) -> bool {
        &&& asset_for(
            self.asset_store@.assets,
            self.queued_order(j).data.token_out,
            self.queued_order(j).data.dest_chain_id,
        ) is Some
        &&& self.queued_order(j).filled_amount <= self.queued_order(j).data.amount_out
        &&& clip_fits(self.max_clip_size, self.queued_asset(j).decimals)
        &&& (self.queued_again(j) ==> now_ms + self.clip_process_delay * 1000 <= u128::MAX)
    }

    /// The processor can handle `event` at time `now_ms` without arithmetic
    /// overflow or a missing asset.
    pub open spec fn handle_defined(&self, event: SolverEvent, now_ms: u128) -> bool {
        &&& fill_fits(self.order_store@, event)
        &&& match event {
            SolverEvent::OrderCreated(e) => match supported_pair(
                self.asset_store@.assets,
                self.supported_assets,
                e.order.token_in,
                e.order.origin_chain_id,
                e.order.token_out,
                e.order.dest_chain_id,
            ) {
                Err(_) => true,
                Ok((_, out)) => {
                    &&& self.fee_bps <= 10_000
                    &&& e.order.amount_in * (10_000 - self.fee_bps) <= u128::MAX
                    &&& (min_amount_out(e.order.amount_in, self.fee_bps) >= e.order.amount_out ==> {
                        &&& clip_fits(self.max_clip_size, out.decimals)
                        &&& (e.order.amount_out > clip_amount(self.max_clip_size, out.decimals) ==> now_ms
                            + self.clip_process_delay * 1000 <= u128::MAX)
                    })
                },
            },
            SolverEvent::Heartbeat(ts) => {
                let stepped = store_step(self.order_store@, event)->Ok_0;
                let n = known_count(
                    self.reprocess_queue@,
                    stepped,
                    due_count(self.reprocess_queue@, ts),
                );
                forall|j: int| 0 <= j < n ==> #[trigger] self.queued_defined(j, now_ms)
            },
            SolverEvent::RequestQuote(r) => match supported_pair(
                self.asset_store@.assets,
                self.supported_assets,
                r.parsed_input_token,
                r.request.input_chain_id,
                r.parsed_output_token,
                r.request.output_chain_id,
            ) {
                Err(_) => true,
                Ok((_, out)) => {
                    &&& self.fee_bps <= 10_000
                    &&& clip_fits(self.max_clip_size, out.decimals)
                    &&& (clip_amount(self.max_clip_size, out.decimals) as u64) != 0
                    &&& quote_output(r.request.amount_in, self.fee_bps) / (clip_amount(
                        self.max_clip_size,
                        out.decimals,
                    ) as u64) * self.clip_process_delay <= u64::MAX
                },
            },
            _ => true,
        }
    }
}

/// The output the solver quotes for `amount_in` after its fee.
pub open spec fn quote_output(amount_in: u64, fee_bps: u128) -> u64 {
    ((amount_in * (10_000 - fee_bps)) / 10_000) as u64
}

/// The order processor's state and settings.
pub struct OrderProcessor {
    pub order_store: OrderStore,
    pub asset_store: AssetStore,
    pub supported_assets: SupportedAssets,
    pub max_clip_size: u128,
    pub clip_process_delay: u64,
    pub fee_bps: u128,
    /// Orders waiting for their next clip, with the time (ms) it is due.
    pub reprocess_queue: Vec<(String, u128)>,
    pub solver_address_evm: String,
    pub solver_address_svm: String,
}


/// `ev` answers the quote request `r` as a processor with these settings does.
pub open spec fn answers_quote(p: OrderProcessor, r: RequestQuoteEvent, ev: SolverEvent) -> bool {
    match ev {
        SolverEvent::QuoteResponse(q) => {
            &&& q.id == r.id
            &&& q.response.quote_id@ == Seq::<char>::empty()
            &&& q.response.fee_bps == p.fee_bps as u32
            &&& q.response.expires_at@ == Seq::<char>::empty()
            &&& !q.response.requires_exclusivity
            &&& match supported_pair(
                p.asset_store@.assets,
                p.supported_assets,
                r.parsed_input_token,
                r.request.input_chain_id,
                r.parsed_output_token,
                r.request.output_chain_id,
            ) {
                Err(reason) => {
                    &&& q.response.rejected
                    &&& match q.response.reject_reason {
                        Some(m) => m@ == reason,
                        None => false,
                    }
                    &&& q.response.output_amount == 0
                    &&& q.response.est_fill_time_seconds == 0
                    &&& q.response.solver_address@ == Seq::<char>::empty()
                },
                Ok((_, out)) => {
                    let output = quote_output(r.request.amount_in, p.fee_bps);
                    &&& !q.response.rejected
                    &&& q.response.reject_reason is None
                    &&& q.response.output_amount == output
                    &&& q.response.est_fill_time_seconds == output / (clip_amount(
                        p.max_clip_size,
                        out.decimals,
                    ) as u64) * p.clip_process_delay
                    &&& q.response.solver_address == if runtime_of(r.request.output_chain_id)
                        == ChainRuntime::Svm {
                        p.solver_address_svm
                    } else {
                        p.solver_address_evm
                    }
                },
            }
        },
        _ => false,
    }
}

/// The events and the new reprocess queue that `event` gives a processor in
/// state `p` at time `now_ms`.
pub open spec fn processed(
    p: OrderProcessor,
    event: SolverEvent,
    now_ms: u128,
    result: Result<Vec<SolverEvent>, SolverError>,
    queue: Seq<(String, u128)>,
) -> bool {
    let due_at = (now_ms + p.clip_process_delay * 1000) as u128;
    match event {
        SolverEvent::OrderCreated(e) => match supported_pair(
            p.asset_store@.assets,
            p.supported_assets,
            e.order.token_in,
            e.order.origin_chain_id,
            e.order.token_out,
            e.order.dest_chain_id,
        ) {
            Err(reason) => result matches Ok(evs) && evs@.len() == 1 && is_rejection(
                evs@[0],
                e.order_id@,
                reason,
            ) && queue == p.reprocess_queue@,
            Ok((_, out)) => {
                let min = min_amount_out(e.order.amount_in, p.fee_bps);
                let max = clip_amount(p.max_clip_size, out.decimals);
                if min < e.order.amount_out {
                    result matches Ok(evs) && evs@.len() == 1 && is_rejection(
                        evs@[0],
                        e.order_id@,
                        fee_reason(e.order.amount_out, min),
                    ) && queue == p.reprocess_queue@
                } else if e.order.amount_out > max {
                    result matches Ok(evs) && evs@ == seq![hold_request(e.order_id, out, max as u128)]
                        && queue == p.reprocess_queue@.push((e.order_id, due_at))
                } else {
                    result matches Ok(evs) && evs@ == seq![
                        hold_request(e.order_id, out, e.order.amount_out),
                    ] && queue == p.reprocess_queue@
                }
            },
        },
        SolverEvent::HoldSuccessful(e) => result matches Ok(evs) && evs@ == seq![
            SolverEvent::RequestFillOrder(
                RequestFillOrderEvent { order_id: e.order_id, amount: e.hold_amount },
            ),
        ] && queue == p.reprocess_queue@,
        SolverEvent::Heartbeat(ts) => {
            let n = due_count(p.reprocess_queue@, ts);
            let k = known_count(p.reprocess_queue@, p.order_store@, n);
            if k < n {
                result matches Err(SolverError::OrderNotFound(m)) && m@ == p.reprocess_queue@[k as int].0@
                    && queue == p.reprocess_queue@
            } else {
                result matches Ok(evs) && evs@ == p.due_holds(n) && queue == p.reprocess_queue@.subrange(
                    n as int,
                    p.reprocess_queue@.len() as int,
                ) + p.requeued(n).map_values(|id: String| (id, due_at))
            }
        },
        SolverEvent::RequestQuote(r) => result matches Ok(evs) && evs@.len() == 1 && answers_quote(
            p,
            r,
            evs@[0],
        ) && queue == p.reprocess_queue@,
        _ => result matches Ok(evs) && evs@.len() == 0 && queue == p.reprocess_queue@,
    }
}

/// A copy of a list of texts.
pub fn clone_texts(texts: &Vec<String>) -> (copy: Vec<String>)
    ensures
        copy@ == texts@,
{
    let n = texts.len();
    let mut out: Vec<String> = Vec::new();
    for i in 0..n
        invariant
            n == texts@.len(),
            out@ == texts@.subrange(0, i as int),
    {
        out.push(texts[i].clone());
        proof {
            assert(texts@.subrange(0, i + 1) =~= texts@.subrange(0, i as int).push(texts@[i as int]));
        }
    }
    proof {
        assert(texts@.subrange(0, n as int) =~= texts@);
    }
    out
}

impl OrderProcessor {
    pub open spec fn wf(&self) -> bool {
        &&& self.order_store.wf()
        &&& self.asset_store.wf()
    }

    /// A processor with the given settings and empty stores.
    pub fn new(config: &Config, solver_address_evm: String, solver_address_svm: String) -> (p: Self)
        ensures
            p.wf(),
            p.order_store@ == Map::<Seq<char>, Order>::empty(),
            p.asset_store@.assets == Map::<(Seq<u8>, u32), AssetEntry>::empty(),
            p.asset_store.api_url() == config.liquidity_api_url,
            p.supported_assets.third_party_whitelist@ == config.supported_assets.third_party_whitelist@,
            p.supported_assets.first_party_blacklist@ == config.supported_assets.first_party_blacklist@,
            p.max_clip_size == config.max_order_clip_size,
            p.clip_process_delay == config.max_clip_reprocess_delay_sec,
            p.fee_bps == config.solver_fee_bps,
            p.reprocess_queue@.len() == 0,
            p.solver_address_evm == solver_address_evm,
            p.solver_address_svm == solver_address_svm,
    {
        OrderProcessor {
            order_store: OrderStore::new(),
            asset_store: AssetStore::new(config.liquidity_api_url.clone()),
            supported_assets: SupportedAssets {
                third_party_whitelist: clone_texts(&config.supported_assets.third_party_whitelist),
                first_party_blacklist: clone_texts(&config.supported_assets.first_party_blacklist),
            },
            max_clip_size: config.max_order_clip_size as u128,
            clip_process_delay: config.max_clip_reprocess_delay_sec,
            fee_bps: config.solver_fee_bps as u128,
            reprocess_queue: Vec::new(),
            solver_address_evm,
            solver_address_svm,
        }
    }

    /// The asset of a token if the solver trades it, or why not.
    pub fn get_supported_asset(&self, token_address: [u8; 32], chain_id: u32) -> (asset: Result<Asset, String>)
        requires
            self.wf(),
        ensures
            match supported_asset(self.asset_store@.assets, self.supported_assets, token_address, chain_id) {
                Ok(a) => asset == Ok::<Asset, String>(a),
                Err(reason) => asset matches Err(m) && m@ == reason,
            },
    {
        let asset = match self.asset_store.get_asset(token_address, chain_id) {
            Some(a) => a,
            None => return Err(String::from_str("Asset not supported")),
        };
        if !self.supported_assets.is_asset_supported(&asset) {
            return Err(join3("Asset ", asset.address.as_str(), " not supported"));
        }
        Ok(asset)
    }

    /// The input and output assets of a swap if the solver takes it, or why
    /// not.
    pub fn get_supported_assets(
        &self,
        input_token: [u8; 32],
        input_chain_id: u32,
        output_token: [u8; 32],
        output_id: u32,
    ) -> (assets: Result<(Asset, Asset), String>)
        requires
            self.wf(),
        ensures
            match supported_pair(
                self.asset_store@.assets,
                self.supported_assets,
                input_token,
                input_chain_id,
                output_token,
                output_id,
            ) {
                Ok(pair) => assets == Ok::<(Asset, Asset), String>(pair),
                Err(reason) => assets matches Err(m) && m@ == reason,
            },
    {
        let input_asset = match self.get_supported_asset(input_token, input_chain_id) {
            Ok(a) => a,
            Err(e) => return Err(String::from_str("input_token: ").concat(e.as_str())),
        };
        let output_asset = match self.get_supported_asset(output_token, output_id) {
            Ok(a) => a,
            Err(e) => return Err(String::from_str("output_token: ").concat(e.as_str())),
        };
        if !input_asset.m0_extension && !output_asset.m0_extension {
            return Err(String::from_str("At least one asset must be an M0 extension"));
        }
        if input_asset.same_as(&output_asset) {
            return Err(String::from_str("Must be different assets or different chains"));
        }
        Ok((input_asset, output_asset))
    }

    /// When an order clipped at `now_ms` is due again.
    pub fn get_reprocess_time(&self, now_ms: u128) -> (due: u128)
        requires
            now_ms + self.clip_process_delay * 1000 <= u128::MAX,
        ensures
            due == now_ms + self.clip_process_delay * 1000,
    {
        now_ms + self.clip_process_delay as u128 * 1000
    }

    /// The largest fill of one clip of an asset with `decimals` decimals.
    fn clip_size(&self, decimals: i64) -> (max: u128)
        requires
            clip_fits(self.max_clip_size, decimals),
        ensures
            max == clip_amount(self.max_clip_size, decimals),
    {
        self.max_clip_size * pow10(decimals as u32)
    }
}


impl OrderProcessor {
    /// The processor's decision for one event (after its order store has
    /// taken the event in): see `processed`.
    pub fn handle_event(&mut self, event: SolverEvent, now_ms: u128) -> (result: Result<
        Vec<SolverEvent>,
        SolverError,
    >)
        requires
            old(self).wf(),
            old(self).handle_defined(event, now_ms),
        ensures
            final(self).wf(),
            final(self).order_store@ == match store_step(old(self).order_store@, event) {
                Ok(orders) => orders,
                Err(_) => old(self).order_store@,
            },
            final(self).asset_store == old(self).asset_store,
            final(self).supported_assets == old(self).supported_assets,
            final(self).max_clip_size == old(self).max_clip_size,
            final(self).clip_process_delay == old(self).clip_process_delay,
            final(self).fee_bps == old(self).fee_bps,
            final(self).solver_address_evm == old(self).solver_address_evm,
            final(self).solver_address_svm == old(self).solver_address_svm,
            processed(
                OrderProcessor { order_store: final(self).order_store, ..*old(self) },
                event,
                now_ms,
                result,
                final(self).reprocess_queue@,
            ),
    {
        let ghost pre = *old(self);
        let _ = self.order_store.handle_event(&event);
        match event {
            SolverEvent::OrderCreated(e) => self.handle_created(e, now_ms),
            SolverEvent::HoldSuccessful(e) => {
                let mut events = Vec::new();
                events.push(SolverEvent::RequestFillOrder(RequestFillOrderEvent::new(e.order_id, e.hold_amount)));
                Ok(events)
            },
            SolverEvent::Heartbeat(ts) => {
                proof {
                    let n = known_count(
                        pre.reprocess_queue@,
                        pre.order_store@,
                        due_count(pre.reprocess_queue@, ts),
                    );
                    assert forall|j: int| 0 <= j < n implies #[trigger] self.queued_defined(j, now_ms) by {
                        assert(pre.queued_defined(j, now_ms));
                    }
                }
                self.handle_heartbeat(ts, now_ms)
            },
            SolverEvent::RequestQuote(r) => {
                let mut events = Vec::new();
                events.push(SolverEvent::QuoteResponse(self.answer_quote(r)));
                Ok(events)
            },
            _ => Ok(Vec::new()),
        }
    }

    fn handle_created(&mut self, e: OrderCreatedEvent, now_ms: u128) -> (result: Result<Vec<SolverEvent>, SolverError>)
        requires
            old(self).wf(),
            old(self).handle_defined(SolverEvent::OrderCreated(e), now_ms),
        ensures
            final(self).wf(),
            final(self).order_store == old(self).order_store,
            final(self).asset_store == old(self).asset_store,
            final(self).supported_assets == old(self).supported_assets,
            final(self).max_clip_size == old(self).max_clip_size,
            final(self).clip_process_delay == old(self).clip_process_delay,
            final(self).fee_bps == old(self).fee_bps,
            final(self).solver_address_evm == old(self).solver_address_evm,
            final(self).solver_address_svm == old(self).solver_address_svm,
            processed(*old(self), SolverEvent::OrderCreated(e), now_ms, result, final(self).reprocess_queue@),
    {
        let (_, destination_asset) = match self.get_supported_assets(
            e.order.token_in,
            e.order.origin_chain_id,
            e.order.token_out,
            e.order.dest_chain_id,
        ) {
            Ok(assets) => assets,
            Err(reason) => {
                let mut events = Vec::new();
                events.push(SolverEvent::OrderRejected(OrderRejectEvent::new(e.order_id, reason)));
                return Ok(events);
            },
        };
        let min_amount_out = e.order.amount_in * (10_000 - self.fee_bps) / 10_000;
        if min_amount_out < e.order.amount_out {
            let reason = String::from_str("Order amount_out ").concat(
                u128_to_decimal(e.order.amount_out).as_str(),
            ).concat(" does not cover fee-inclusive amount_out ").concat(
                u128_to_decimal(min_amount_out).as_str(),
            );
            let mut events = Vec::new();
            events.push(SolverEvent::OrderRejected(OrderRejectEvent::new(e.order_id, reason)));
            return Ok(events);
        }
        let max_size = self.clip_size(destination_asset.decimals);
        let fill_amount = if e.order.amount_out > max_size {
            let due = self.get_reprocess_time(now_ms);
            self.reprocess_queue.push((e.order_id.clone(), due));
            max_size
        } else {
            e.order.amount_out
        };
        let mut events = Vec::new();
        events.push(SolverEvent::RequestHold(RequestHoldEvent::new(e.order_id, destination_asset, fill_amount, true)));
        Ok(events)
    }

    fn answer_quote(&self, request_event: RequestQuoteEvent) -> (answer: QuoteResponseEvent)
        requires
            self.wf(),
            self.handle_defined(SolverEvent::RequestQuote(request_event), 0),
        ensures
            answers_quote(*self, request_event, SolverEvent::QuoteResponse(answer)),
    {
        let ghost r = request_event;
        let req = request_event.request;
        let mut resp = QuoteResponseEvent {
            id: request_event.id,
            response: QuoteResponse { fee_bps: self.fee_bps as u32, ..Default::default() },
        };
        let (_, output_asset) = match self.get_supported_assets(
            request_event.parsed_input_token,
            req.input_chain_id,
            request_event.parsed_output_token,
            req.output_chain_id,
        ) {
            Ok(assets) => assets,
            Err(reason) => {
                resp.response.reject_reason = Some(reason);
                return resp;
            },
        };
        resp.response.rejected = false;
        proof {
            let a = req.amount_in as u128;
            let f = (10_000 - self.fee_bps) as u128;
            assert(a * f <= 0xffff_ffff_ffff_ffff * 10_000) by (nonlinear_arith)
                requires
                    a <= 0xffff_ffff_ffff_ffff,
                    f <= 10_000,
            ;
            assert(a * f / 10_000 <= a) by (nonlinear_arith)
                requires
                    f <= 10_000,
            ;
        }
        resp.response.output_amount = (req.amount_in as u128 * (10_000 - self.fee_bps) / 10_000) as u64;
        let max_size = self.clip_size(output_asset.decimals);
        resp.response.est_fill_time_seconds = resp.response.output_amount / max_size as u64
            * self.clip_process_delay;
        resp.response.solver_address = if chain_runtime(req.output_chain_id) == ChainRuntime::Svm {
            self.solver_address_svm.clone()
        } else {
            self.solver_address_evm.clone()
        };
        resp
    }
}


pub proof fn lemma_due_count(queue: Seq<(String, u128)>, ts: u128, i: int)
    requires
        0 <= i <= queue.len(),
        forall|j: int| 0 <= j < i ==> queue[j].1 <= ts,
    ensures
        due_count(queue, ts) >= i,
        due_count(queue, ts) <= queue.len(),
        i < queue.len() && queue[i].1 > ts ==> due_count(queue, ts) == i,
        i == queue.len() ==> due_count(queue, ts) == i,
    decreases queue.len(),
{
    if queue.len() > 0 {
        let rest = queue.subrange(1, queue.len() as int);
        if i > 0 {
            assert forall|j: int| 0 <= j < i - 1 implies rest[j].1 <= ts by {
                assert(rest[j] == queue[j + 1]);
            }
            lemma_due_count(rest, ts, i - 1);
            if i < queue.len() {
                assert(rest[i - 1] == queue[i]);
            }
        } else {
            lemma_due_count_bound(queue, ts);
        }
    }
}

pub proof fn lemma_due_count_bound(queue: Seq<(String, u128)>, ts: u128)
    ensures
        due_count(queue, ts) <= queue.len(),
    decreases queue.len(),
{
    if queue.len() > 0 {
        lemma_due_count_bound(queue.subrange(1, queue.len() as int), ts);
    }
}

pub proof fn lemma_known_count(queue: Seq<(String, u128)>, orders: Map<Seq<char>, Order>, m: nat, n: nat)
    requires
        m <= n,
    ensures
        known_count(queue, orders, n) <= n,
        known_count(queue, orders, m) == m ==> known_count(queue, orders, n) >= m,
        known_count(queue, orders, m) < m ==> known_count(queue, orders, n) == known_count(
            queue,
            orders,
            m,
        ),
    decreases n,
{
    if n > 0 {
        if m < n {
            lemma_known_count(queue, orders, m, (n - 1) as nat);
        } else {
            lemma_known_count(queue, orders, (n - 1) as nat, (n - 1) as nat);
        }
    }
}

impl OrderProcessor {
    fn handle_heartbeat(&mut self, ts: u128, now_ms: u128) -> (result: Result<Vec<SolverEvent>, SolverError>)
        requires
            old(self).wf(),
            old(self).handle_defined(SolverEvent::Heartbeat(ts), now_ms),
        ensures
            final(self).wf(),
            final(self).order_store == old(self).order_store,
            final(self).asset_store == old(self).asset_store,
            final(self).supported_assets == old(self).supported_assets,
            final(self).max_clip_size == old(self).max_clip_size,
            final(self).clip_process_delay == old(self).clip_process_delay,
            final(self).fee_bps == old(self).fee_bps,
            final(self).solver_address_evm == old(self).solver_address_evm,
            final(self).solver_address_svm == old(self).solver_address_svm,
            processed(*old(self), SolverEvent::Heartbeat(ts), now_ms, result, final(self).reprocess_queue@),
    {
        let ghost q = self.reprocess_queue@;
        let ghost orders = self.order_store@;
        let ghost n = due_count(q, ts);
        let ghost k = known_count(q, orders, n);
        proof {
            lemma_due_count_bound(q, ts);
        }
        let mut events: Vec<SolverEvent> = Vec::new();
        let mut requeue: Vec<String> = Vec::new();
        let len = self.reprocess_queue.len();
        let mut i: usize = 0;
        while i < len
            invariant
                len == q.len(),
                self.reprocess_queue@ == q,
                self.order_store@ == orders,
                self.wf(),
                *self == *old(self),
                n == due_count(q, ts),
                k == known_count(q, orders, n),
                n <= q.len(),
                i <= n,
                forall|j: int| 0 <= j < i ==> q[j].1 <= ts,
                known_count(q, orders, i as nat) == i,
                forall|j: int| 0 <= j < k ==> #[trigger] old(self).queued_defined(j, now_ms),
                events@ == old(self).due_holds(i as nat),
                requeue@ == old(self).requeued(i as nat),
                requeue@.len() > 0 ==> now_ms + self.clip_process_delay * 1000 <= u128::MAX,
                i == len ==> n == i,
            ensures
                i == n,
                known_count(q, orders, i as nat) == i,
                events@ == old(self).due_holds(i as nat),
                requeue@ == old(self).requeued(i as nat),
                requeue@.len() > 0 ==> now_ms + self.clip_process_delay * 1000 <= u128::MAX,
                self.reprocess_queue@ == q,
                *self == *old(self),
            decreases len - i,
        {
            let entry = &self.reprocess_queue[i];
            if entry.1 > ts {
                proof {
                    lemma_due_count(q, ts, i as int);
                }
                break;
            }
            proof {
                lemma_due_count(q, ts, i as int);
                assert forall|j: int| 0 <= j < i + 1 implies q[j].1 <= ts by {}
                lemma_due_count(q, ts, i + 1);
            }
            let order = match self.order_store.get_order(&entry.0) {
                Some(o) => o,
                None => {
                    proof {
                        assert(known_count(q, orders, (i + 1) as nat) == i);
                        lemma_known_count(q, orders, (i + 1) as nat, n);
                    }
                    return Err(SolverError::OrderNotFound(entry.0.clone()));
                },
            };
            proof {
                assert(known_count(q, orders, (i + 1) as nat) == i + 1);
                lemma_known_count(q, orders, (i + 1) as nat, n);
                assert(old(self).queued_defined(i as int, now_ms));
            }
            let dest_asset = match self.asset_store.get_asset(order.data.token_out, order.data.dest_chain_id) {
                Some(a) => a,
                None => {
                    proof {
                        assert(false);
                    }
                    return Err(SolverError::Store(String::new()));
                },
            };
            let rest = order.data.amount_out - order.filled_amount;
            let max_size = self.clip_size(dest_asset.decimals);
            let fill_amount = if rest > max_size {
                requeue.push(order.id.clone());
                max_size
            } else {
                rest
            };
            events.push(SolverEvent::RequestHold(RequestHoldEvent::new(entry.0.clone(), dest_asset, fill_amount, true)));
            i = i + 1;
            proof {
                lemma_due_count(q, ts, i as int);
            }
        }
        proof {
            lemma_known_count(q, orders, n, n);
        }
        let mut rest = self.reprocess_queue.split_off(i);
        let ghost tail = rest@;
        proof {
            assert(tail =~= q.subrange(n as int, q.len() as int));
        }
        let m = requeue.len();
        for j in 0..m
            invariant
                m == requeue@.len(),
                requeue@ == old(self).requeued(n),
                m > 0 ==> now_ms + self.clip_process_delay * 1000 <= u128::MAX,
                self.clip_process_delay == old(self).clip_process_delay,
                rest@ == tail + requeue@.subrange(0, j as int).map_values(
                    |id: String| (id, (now_ms + old(self).clip_process_delay * 1000) as u128),
                ),
        {
            let due = now_ms + self.clip_process_delay as u128 * 1000;
            rest.push((requeue[j].clone(), due));
            proof {
                assert(requeue@.subrange(0, j + 1).map_values(
                    |id: String| (id, (now_ms + old(self).clip_process_delay * 1000) as u128),
                ) =~= requeue@.subrange(0, j as int).map_values(
                    |id: String| (id, (now_ms + old(self).clip_process_delay * 1000) as u128),
                ).push((requeue@[j as int], due)));
            }
        }
        proof {
            assert(requeue@.subrange(0, m as int) =~= requeue@);
        }
        self.reprocess_queue = rest;
        Ok(events)
    }
}


impl OrderProcessor {
    /// Whether the clip size of an asset with `decimals` decimals is
    /// representable.
    pub fn clip_size_fits(&self, decimals: i64) -> (fits: bool)
        ensures
            fits == clip_fits(self.max_clip_size, decimals),
    {
        match checked_pow10(decimals as u32) {
            Some(p) => self.max_clip_size.checked_mul(p).is_some(),
            None => false,
        }
    }

    /// Whether the processor can handle `event` at `now_ms` (see
    /// `handle_defined`); where it cannot, the event would overflow an
    /// amount or miss an asset.
    pub fn can_handle(&self, event: &SolverEvent, now_ms: u128) -> (ok: bool)
        requires
            self.wf(),
        ensures
            ok == self.handle_defined(*event, now_ms),
    {
        let fits = match event {
            SolverEvent::OrderFill(e) => match self.order_store.get_order(&e.order_id) {
                Some(o) => o.filled_amount.checked_add(e.amount).is_some(),
                None => true,
            },
            _ => true,
        };
        if !fits {
            return false;
        }
        let due_fits = now_ms.checked_add(self.clip_process_delay as u128 * 1000).is_some();
        match event {
            SolverEvent::OrderCreated(e) => match self.get_supported_assets(
                e.order.token_in,
                e.order.origin_chain_id,
                e.order.token_out,
                e.order.dest_chain_id,
            ) {
                Err(_) => true,
                Ok((_, out)) => {
                    if self.fee_bps > 10_000 {
                        return false;
                    }
                    let product = match e.order.amount_in.checked_mul(10_000 - self.fee_bps) {
                        Some(v) => v,
                        None => return false,
                    };
                    if product / 10_000 < e.order.amount_out {
                        return true;
                    }
                    if !self.clip_size_fits(out.decimals) {
                        return false;
                    }
                    let max_size = self.clip_size(out.decimals);
                    e.order.amount_out <= max_size || due_fits
                },
            },
            SolverEvent::Heartbeat(ts) => self.heartbeat_defined(*ts, now_ms),
            SolverEvent::RequestQuote(r) => match self.get_supported_assets(
                r.parsed_input_token,
                r.request.input_chain_id,
                r.parsed_output_token,
                r.request.output_chain_id,
            ) {
                Err(_) => true,
                Ok((_, out)) => {
                    if self.fee_bps > 10_000 || !self.clip_size_fits(out.decimals) {
                        return false;
                    }
                    let max_size = self.clip_size(out.decimals) as u64;
                    if max_size == 0 {
                        return false;
                    }
                    proof {
                        let a = r.request.amount_in as u128;
                        let f = (10_000 - self.fee_bps) as u128;
                        assert(a * f <= 0xffff_ffff_ffff_ffff * 10_000) by (nonlinear_arith)
                            requires
                                a <= 0xffff_ffff_ffff_ffff,
                                f <= 10_000,
                        ;
                        assert(a * f / 10_000 <= a) by (nonlinear_arith)
                            requires
                                f <= 10_000,
                        ;
                    }
                    let output = (r.request.amount_in as u128 * (10_000 - self.fee_bps) / 10_000) as u64;
                    (output / max_size).checked_mul(self.clip_process_delay).is_some()
                },
            },
            _ => true,
        }
    }

    fn heartbeat_defined(&self, ts: u128, now_ms: u128) -> (ok: bool)
        requires
            self.wf(),
        ensures
            ok == self.handle_defined(SolverEvent::Heartbeat(ts), now_ms),
    {
        let ghost q = self.reprocess_queue@;
        let ghost orders = self.order_store@;
        let ghost n = due_count(q, ts);
        proof {
            lemma_due_count_bound(q, ts);
        }
        let due_fits = now_ms.checked_add(self.clip_process_delay as u128 * 1000).is_some();
        let len = self.reprocess_queue.len();
        let mut i: usize = 0;
        while i < len
            invariant
                len == q.len(),
                self.reprocess_queue@ == q,
                self.order_store@ == orders,
                self.wf(),
                n == due_count(q, ts),
                n <= q.len(),
                i <= n,
                forall|j: int| 0 <= j < i ==> q[j].1 <= ts,
                known_count(q, orders, i as nat) == i,
                forall|j: int| 0 <= j < i ==> #[trigger] self.queued_defined(j, now_ms),
                due_fits == (now_ms + self.clip_process_delay * 1000 <= u128::MAX),
                i == len ==> n == i,
            decreases len - i,
        {
            let entry = &self.reprocess_queue[i];
            if entry.1 > ts {
                proof {
                    lemma_due_count(q, ts, i as int);
                    lemma_known_count(q, orders, n, n);
                }
                return true;
            }
            proof {
                assert forall|j: int| 0 <= j < i + 1 implies q[j].1 <= ts by {}
                lemma_due_count(q, ts, i + 1);
            }
            let order = match self.order_store.get_order(&entry.0) {
                Some(o) => o,
                None => {
                    proof {
                        assert(known_count(q, orders, (i + 1) as nat) == i);
                        lemma_known_count(q, orders, (i + 1) as nat, n);
                    }
                    return true;
                },
            };
            proof {
                assert(known_count(q, orders, (i + 1) as nat) == i + 1);
                lemma_known_count(q, orders, (i + 1) as nat, n);
            }
            let dest_asset = match self.asset_store.get_asset(order.data.token_out, order.data.dest_chain_id) {
                Some(a) => a,
                None => {
                    proof {
                        assert(!self.queued_defined(i as int, now_ms));
                    }
                    return false;
                },
            };
            if order.filled_amount > order.data.amount_out || !self.clip_size_fits(dest_asset.decimals) {
                proof {
                    assert(!self.queued_defined(i as int, now_ms));
                }
                return false;
            }
            let max_size = self.clip_size(dest_asset.decimals);
            if order.data.amount_out - order.filled_amount > max_size && !due_fits {
                proof {
                    assert(!self.queued_defined(i as int, now_ms));
                }
                return false;
            }
            proof {
                assert(self.queued_defined(i as int, now_ms));
            }
            i = i + 1;
            proof {
                lemma_due_count(q, ts, i as int);
            }
        }
        proof {
            lemma_known_count(q, orders, n, n);
        }
        true
    }
}

/// The solver only takes an order whose output its fee covers: when an
/// order is answered with a hold request, both assets are traded and the
/// order's amount out is at most the fee-inclusive amount.
pub proof fn law_accepted_orders_cover_the_fee(
    p: OrderProcessor,
    e: OrderCreatedEvent,
    now_ms: u128,
    result: Result<Vec<SolverEvent>, SolverError>,
    queue: Seq<(String, u128)>,
)
    requires
        processed(p, SolverEvent::OrderCreated(e), now_ms, result, queue),
        result matches Ok(evs) && evs@.len() > 0 && evs@[0] is RequestHold,
    ensures
        supported_pair(
            p.asset_store@.assets,
            p.supported_assets,
            e.order.token_in,
            e.order.origin_chain_id,
            e.order.token_out,
            e.order.dest_chain_id,
        ) is Ok,
        e.order.amount_out <= min_amount_out(e.order.amount_in, p.fee_bps),
{
}

/// The first hold for an accepted order is its whole amount out, or one
/// clip where the amount out is larger; the order is queued for its next
/// clip exactly in the second case.
pub proof fn law_first_hold_is_one_clip(
    p: OrderProcessor,
    e: OrderCreatedEvent,
    now_ms: u128,
    result: Result<Vec<SolverEvent>, SolverError>,
    queue: Seq<(String, u128)>,
)
    requires
        processed(p, SolverEvent::OrderCreated(e), now_ms, result, queue),
        result matches Ok(evs) && evs@.len() > 0 && evs@[0] is RequestHold,
    ensures
        ({
            let out = supported_pair(
                p.asset_store@.assets,
                p.supported_assets,
                e.order.token_in,
                e.order.origin_chain_id,
                e.order.token_out,
                e.order.dest_chain_id,
            )->Ok_0.1;
            let max = clip_amount(p.max_clip_size, out.decimals);
            let hold = result->Ok_0@[0]->RequestHold_0;
            &&& hold.order_id == e.order_id
            &&& hold.asset == out
            &&& hold.allow_partial_hold
            &&& hold.amount <= e.order.amount_out
            &&& hold.amount <= max
            &&& (hold.amount == e.order.amount_out || hold.amount == max)
            &&& (e.order.amount_out > max <==> queue.len() == p.reprocess_queue@.len() + 1)
            &&& queue.subrange(0, p.reprocess_queue@.len() as int) == p.reprocess_queue@
        }),
{
    let n = p.reprocess_queue@.len() as int;
    assert(p.reprocess_queue@.subrange(0, n) =~= p.reprocess_queue@);
    assert(queue.len() > n ==> queue.subrange(0, n) =~= p.reprocess_queue@);
}

/// A successful hold is always followed by a request to fill exactly the
/// held amount of the same order.
pub proof fn law_hold_leads_to_fill_of_held_amount(
    p: OrderProcessor,
    e: crate::solver::events::HoldSuccessfulEvent,
    now_ms: u128,
    result: Result<Vec<SolverEvent>, SolverError>,
    queue: Seq<(String, u128)>,
)
    requires
        processed(p, SolverEvent::HoldSuccessful(e), now_ms, result, queue),
    ensures
        result matches Ok(evs) && evs@.len() == 1 && (evs@[0] matches SolverEvent::RequestFillOrder(f)
            && f.order_id == e.order_id && f.amount == e.hold_amount),
        queue == p.reprocess_queue@,
{
}

/// A quote never promises more than was put in: with a fee of at most
/// 100%, an accepted quote's output is at most its input.
pub proof fn law_quote_output_within_input(
    p: OrderProcessor,
    r: RequestQuoteEvent,
    now_ms: u128,
    result: Result<Vec<SolverEvent>, SolverError>,
    queue: Seq<(String, u128)>,
)
    requires
        processed(p, SolverEvent::RequestQuote(r), now_ms, result, queue),
        p.fee_bps <= 10_000,
    ensures
        result matches Ok(evs) && evs@.len() == 1 && (evs@[0] matches SolverEvent::QuoteResponse(q)
            && q.response.output_amount <= r.request.amount_in),
        queue == p.reprocess_queue@,
{
    let a = r.request.amount_in as int;
    let f = p.fee_bps as int;
    assert(a * (10_000 - f) <= a * 10_000) by (nonlinear_arith)
        requires
            0 <= a,
            0 <= f <= 10_000,
    ;
    assert(a * (10_000 - f) / 10_000 <= a) by (nonlinear_arith)
        requires
            0 <= a,
            0 <= a * (10_000 - f) <= a * 10_000,
    ;
    assert(0 <= a * (10_000 - f)) by (nonlinear_arith)
        requires
            0 <= a,
            0 <= f <= 10_000,
    ;
}

/// A heartbeat that finds every due order takes the due entries off the
/// front of the queue, keeps the rest in order, and puts at the back only
/// orders it has just clipped.
pub proof fn law_heartbeat_takes_due_prefix(
    p: OrderProcessor,
    ts: u128,
    now_ms: u128,
    result: Result<Vec<SolverEvent>, SolverError>,
    queue: Seq<(String, u128)>,
)
    requires
        processed(p, SolverEvent::Heartbeat(ts), now_ms, result, queue),
        result is Ok,
    ensures
        ({
            let n = due_count(p.reprocess_queue@, ts) as int;
            let rest = p.reprocess_queue@.len() - n;
            &&& 0 <= n <= p.reprocess_queue@.len()
            &&& forall|j: int| 0 <= j < n ==> #[trigger] p.reprocess_queue@[j].1 <= ts
            &&& queue.len() >= rest
            &&& queue.subrange(0, rest) == p.reprocess_queue@.subrange(n, p.reprocess_queue@.len() as int)
            &&& queue.len() - rest <= n
            &&& result->Ok_0@.len() == n
        }),
{
    let q = p.reprocess_queue@;
    let n = due_count(q, ts);
    lemma_due_count_bound(q, ts);
    lemma_due_prefix(q, ts);
    lemma_known_count(q, p.order_store@, n, n);
    lemma_due_holds_len(p, n);
    lemma_requeued_len(p, n);
    let rest = q.subrange(n as int, q.len() as int);
    assert(queue.subrange(0, rest.len() as int) =~= rest);
}

/// A clip never overfills: every hold a heartbeat asks for is for the
/// order of its queue entry, and at most what remains of that order and at
/// most one clip of its asset.
pub proof fn law_clips_never_overfill(
    p: OrderProcessor,
    ts: u128,
    now_ms: u128,
    result: Result<Vec<SolverEvent>, SolverError>,
    queue: Seq<(String, u128)>,
)
    requires
        p.handle_defined(SolverEvent::Heartbeat(ts), now_ms),
        processed(p, SolverEvent::Heartbeat(ts), now_ms, result, queue),
        result is Ok,
    ensures
        forall|j: int|
            0 <= j < result->Ok_0@.len() ==> (#[trigger] result->Ok_0@[j] matches SolverEvent::RequestHold(h)
                && h.order_id == p.reprocess_queue@[j].0 && h.amount <= remaining(p.queued_order(j))
                && h.amount <= clip_amount(p.max_clip_size, p.queued_asset(j).decimals)),
{
    let q = p.reprocess_queue@;
    let n = due_count(q, ts);
    lemma_due_count_bound(q, ts);
    lemma_known_count(q, p.order_store@, n, n);
    lemma_due_holds_len(p, n);
    assert forall|j: int| 0 <= j < result->Ok_0@.len() implies (#[trigger] result->Ok_0@[j] matches SolverEvent::RequestHold(h)
        && h.order_id == p.reprocess_queue@[j].0 && h.amount <= remaining(p.queued_order(j))
        && h.amount <= clip_amount(p.max_clip_size, p.queued_asset(j).decimals)) by {
        lemma_due_holds_index(p, n, j);
        assert(p.queued_defined(j, now_ms));
    }
}

/// Entry `j` of the first `n` due holds is the hold of queue entry `j`.
proof fn lemma_due_holds_index(p: OrderProcessor, n: nat, j: int)
    requires
        0 <= j < n,
    ensures
        p.due_holds(n)[j] == hold_request(p.reprocess_queue@[j].0, p.queued_asset(j), p.queued_fill(j)),
    decreases n,
{
    lemma_due_holds_len(p, (n - 1) as nat);
    if j < n - 1 {
        lemma_due_holds_index(p, (n - 1) as nat, j);
    }
}

/// Every entry counted as due is due.
pub proof fn lemma_due_prefix(queue: Seq<(String, u128)>, ts: u128)
    ensures
        forall|j: int| 0 <= j < due_count(queue, ts) ==> #[trigger] queue[j].1 <= ts,
    decreases queue.len(),
{
    if queue.len() > 0 && queue[0].1 <= ts {
        let rest = queue.subrange(1, queue.len() as int);
        lemma_due_prefix(rest, ts);
        lemma_due_count_bound(rest, ts);
        assert forall|j: int| 0 <= j < due_count(queue, ts) implies #[trigger] queue[j].1 <= ts by {
            if j > 0 {
                assert(queue[j] == rest[j - 1]);
            }
        }
    }
}

proof fn lemma_due_holds_len(p: OrderProcessor, n: nat)
    ensures
        p.due_holds(n).len() == n,
    decreases n,
{
    if n > 0 {
        lemma_due_holds_len(p, (n - 1) as nat);
    }
}

proof fn lemma_requeued_len(p: OrderProcessor, n: nat)
    ensures
        p.requeued(n).len() <= n,
    decreases n,
{
    if n > 0 {
        lemma_requeued_len(p, (n - 1) as nat);
    }
}

} // verus!
