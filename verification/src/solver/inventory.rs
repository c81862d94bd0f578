//! The signer's inventory: its balance of each asset, and the amounts held
//! back for orders that are being filled.
use vstd::prelude::*;
use crate::solver::assets::{
    address_text, chain_runtime, format_address, runtime_of, Asset, AssetView, ChainRuntime,
};
use crate::quoter::transactions::{parse_pubkey, solana_pubkey};
use crate::solver::asset_store::bytes32_eq;
use crate::solver::error::SolverError;
use crate::solver::events::{
    HoldSuccessfulEvent, InventoryUpdateEvent, RequestHoldEvent, RequestSwapEvent, SolverEvent,
};
use crate::solver::order_store::{fill_fits, store_step, Order};
use crate::table::{
    keys_unique, lemma_table_absent, lemma_table_index, lemma_table_push, lemma_table_remove,
    lemma_table_update, lemma_values_insert, lemma_values_remove, table_map,
};

verus! {

/// The amount held back on one token of one chain.
#[derive(Debug, Clone)]
pub struct HoldEntry {
    pub chain_id: u32,
    pub address: String,
    pub amount: u128,
}

/// The amount held back for one order.
#[derive(Debug, Clone)]
pub struct OrderHold {
    pub order_id: String,
    pub amount: u128,
}

/// Balances are keyed by the whole asset.
pub open spec fn balance_key() -> spec_fn((Asset, u128)) -> AssetView {
    |b: (Asset, u128)| b.0@
}

/// Holds are keyed by chain and token address.
pub open spec fn hold_key() -> spec_fn(HoldEntry) -> (u32, Seq<char>) {
    |h: HoldEntry| (h.chain_id, h.address@)
}

/// Order holds are keyed by order id.
pub open spec fn order_hold_key() -> spec_fn(OrderHold) -> Seq<char> {
    |h: OrderHold| h.order_id@
}

/// The value of a list of balances: the balance of each asset in it.
pub open spec fn balances_of(entries: Seq<(Asset, u128)>) -> Map<AssetView, u128> {
    table_map(entries, balance_key()).map_values(|b: (Asset, u128)| b.1)
}

/// `entries` lists each asset once, with the balance that `balances` gives it.
pub open spec fn lists_balances(entries: Seq<(Asset, u128)>, balances: Map<AssetView, u128>) -> bool {
    keys_unique(entries, balance_key()) && balances_of(entries) == balances
}

/// The amount a map gives a key, zero where it has none.
pub open spec fn amount_or_zero<K>(m: Map<K, u128>, k: K) -> u128 {
    if m.contains_key(k) {
        m[k]
    } else {
        0
    }
}

/// The table that holds are kept in for an asset: its chain and address.
pub open spec fn hold_slot(asset: AssetView) -> (u32, Seq<char>) {
    (asset.chain_id, asset.address)
}

/// The whole state of the inventory.
pub struct InventoryView {
    /// The orders, as the inventory's own order store has them.
    pub orders: Map<Seq<char>, crate::solver::order_store::Order>,
    /// The last known balance of each asset.
    pub balances: Map<AssetView, u128>,
    /// The amount held back per chain and token address.
    pub holds: Map<(u32, Seq<char>), u128>,
    /// The amount held back per order.
    pub order_holds: Map<Seq<char>, u128>,
    /// Whether a short hold asks for a rebalancing swap.
    pub auto_rebalance: bool,
    /// When the balances were last reloaded, in seconds of a monotonic clock.
    pub last_reload: u64,
}

/// Tracks the signer's balances and reserves inventory for orders.
pub struct InventoryManager {
    order_store: crate::solver::order_store::OrderStore,
    balances: Vec<(Asset, u128)>,
    holds: Vec<HoldEntry>,
    order_holds: Vec<OrderHold>,
    auto_rebalance: bool,
    last_balance_reload: u64,
}

impl View for InventoryManager {
    type V = InventoryView;

    closed spec fn view(&self) -> InventoryView {
        InventoryView {
            orders: self.order_store@,
            balances: balances_of(self.balances@),
            holds: table_map(self.holds@, hold_key()).map_values(|h: HoldEntry| h.amount),
            order_holds: table_map(self.order_holds@, order_hold_key()).map_values(
                |h: OrderHold| h.amount,
            ),
            auto_rebalance: self.auto_rebalance,
            last_reload: self.last_balance_reload,
        }
    }
}

/// The last of `assets` whose address is the Solana key `mint`.
pub open spec fn mint_asset(assets: Seq<Asset>, mint: Seq<u8>) -> Option<Asset>
    decreases assets.len(),
{
    if assets.len() == 0 {
        None
    } else if solana_pubkey(assets.last().address@) == Some(mint) {
        Some(assets.last())
    } else {
        mint_asset(assets.drop_last(), mint)
    }
}

/// The balances after recording token accounts in order: an account with a
/// positive amount whose mint is an asset's address sets that asset's
/// balance; the others change nothing.
pub open spec fn token_balances(
    balances: Map<AssetView, u128>,
    assets: Seq<Asset>,
    accounts: Seq<([u8; 32], u128)>,
) -> Map<AssetView, u128>
    decreases accounts.len(),
{
    if accounts.len() == 0 {
        balances
    } else {
        let before = token_balances(balances, assets, accounts.drop_last());
        let (mint, amount) = accounts.last();
        match mint_asset(assets, mint@) {
            Some(a) => if amount > 0 {
                before.insert(a@, amount)
            } else {
                before
            },
            None => before,
        }
    }
}

/// The last of `assets` whose address is the Solana key `mint` (see
/// `mint_asset`).
pub fn mint_asset_of(assets: &Vec<Asset>, mint: &[u8; 32]) -> (found: Option<Asset>)
    ensures
        found == mint_asset(assets@, mint@),
{
    let mut i = assets.len();
    proof {
        assert(assets@.subrange(0, i as int) =~= assets@);
    }
    while i > 0
        invariant
            i <= assets@.len(),
            mint_asset(assets@, mint@) == mint_asset(assets@.subrange(0, i as int), mint@),
        decreases i,
    {
        let ghost s = assets@.subrange(0, i as int);
        proof {
            assert(s.drop_last() =~= assets@.subrange(0, i - 1));
            assert(s.last() == assets@[i - 1]);
        }
        match parse_pubkey(assets[i - 1].address.as_str()) {
            Some(k) => {
                if bytes32_eq(&k, mint) {
                    return Some(assets[i - 1].duplicate());
                }
            },
            None => {},
        }
        i = i - 1;
    }
    None
}

impl InventoryManager {
    /// The internal invariant: each table has one entry per key.
    pub closed spec fn wf(&self) -> bool {
        &&& self.order_store.wf()
        &&& keys_unique(self.balances@, balance_key())
        &&& keys_unique(self.holds@, hold_key())
        &&& keys_unique(self.order_holds@, order_hold_key())
    }

    /// An inventory with no balances and nothing held; `now_secs` is the
    /// time of the first balance load.
    pub fn new(auto_rebalance: bool, now_secs: u64) -> (inventory: Self)
        ensures
            inventory.wf(),
            inventory@.orders == Map::<Seq<char>, crate::solver::order_store::Order>::empty(),
            inventory@.balances == Map::<AssetView, u128>::empty(),
            inventory@.holds == Map::<(u32, Seq<char>), u128>::empty(),
            inventory@.order_holds == Map::<Seq<char>, u128>::empty(),
            inventory@.auto_rebalance == auto_rebalance,
            inventory@.last_reload == now_secs,
    {
        let inventory = InventoryManager {
            order_store: crate::solver::order_store::OrderStore::new(),
            balances: Vec::new(),
            holds: Vec::new(),
            order_holds: Vec::new(),
            auto_rebalance,
            last_balance_reload: now_secs,
        };
        proof {
            assert(inventory@.balances =~= Map::<AssetView, u128>::empty());
            assert(inventory@.holds =~= Map::<(u32, Seq<char>), u128>::empty());
            assert(inventory@.order_holds =~= Map::<Seq<char>, u128>::empty());
        }
        inventory
    }

    /// Records the balance of a Solana token account: only a positive
    /// amount is recorded.
    pub fn record_token_account(&mut self, asset: Asset, amount: u128)
        requires
            old(self).wf(),
        ensures
            final(self).wf(),
            amount > 0 ==> final(self)@ == (InventoryView {
                balances: old(self)@.balances.insert(asset@, amount),
                ..old(self)@
            }),
            amount == 0 ==> final(self)@ == old(self)@,
    {
        if amount > 0 {
            self.set_balance(asset, amount);
        }
    }

    /// Records the balances of the signer's Solana token accounts: each
    /// account with a positive amount whose mint is one of `assets` (see
    /// `token_balances`).
    pub fn record_token_accounts(&mut self, assets: &Vec<Asset>, accounts: &Vec<([u8; 32], u128)>)
        requires
            old(self).wf(),
        ensures
            final(self).wf(),
            final(self)@ == (InventoryView {
                balances: token_balances(old(self)@.balances, assets@, accounts@),
                ..old(self)@
            }),
    {
        let n = accounts.len();
        for i in 0..n
            invariant
                n == accounts@.len(),
                self.wf(),
                self@ == (InventoryView {
                    balances: token_balances(old(self)@.balances, assets@, accounts@.subrange(0, i as int)),
                    ..old(self)@
                }),
        {
            proof {
                let s = accounts@.subrange(0, i + 1);
                assert(s.drop_last() =~= accounts@.subrange(0, i as int));
                assert(s.last() == accounts@[i as int]);
            }
            let (mint, amount) = accounts[i];
            if amount > 0 {
                match mint_asset_of(assets, &mint) {
                    Some(asset) => self.record_token_account(asset, amount),
                    None => {},
                }
            }
        }
        proof {
            assert(accounts@.subrange(0, n as int) =~= accounts@);
        }
    }

    /// The position of the balance of `asset`, if there is one.
    fn balance_position(&self, asset: &Asset) -> (pos: Option<usize>)
        requires
            self.wf(),
        ensures
            match pos {
                Some(i) => i < self.balances@.len() && self.balances@[i as int].0@ == asset@
                    && self@.balances.contains_key(asset@) && self@.balances[asset@]
                    == self.balances@[i as int].1,
                None => !self@.balances.contains_key(asset@),
            },
    {
        let n = self.balances.len();
        for i in 0..n
            invariant
                n == self.balances@.len(),
                keys_unique(self.balances@, balance_key()),
                forall|j: int| 0 <= j < i ==> #[trigger] balance_key()(self.balances@[j]) != asset@,
        {
            if self.balances[i].0.same_as(asset) {
                proof {
                    lemma_table_index(self.balances@, balance_key(), i as int);
                }
                return Some(i);
            }
        }
        proof {
            lemma_table_absent(self.balances@, balance_key(), asset@);
        }
        None
    }

    /// The last known balance of `asset`, zero if none is known.
    pub fn balance_of(&self, asset: &Asset) -> (amount: u128)
        requires
            self.wf(),
        ensures
            amount == amount_or_zero(self@.balances, asset@),
    {
        match self.balance_position(asset) {
            Some(i) => self.balances[i].1,
            None => 0,
        }
    }

    /// Records `amount` as the balance of `asset`.
    pub fn set_balance(&mut self, asset: Asset, amount: u128)
        requires
            old(self).wf(),
        ensures
            final(self).wf(),
            final(self)@ == (InventoryView {
                balances: old(self)@.balances.insert(asset@, amount),
                ..old(self)@
            }),
    {
        let ghost key = asset@;
        let entry = (asset, amount);
        match self.balance_position(&entry.0) {
            Some(i) => {
                proof {
                    lemma_table_update(self.balances@, balance_key(), i as int, entry);
                    lemma_values_insert(
                        table_map(self.balances@, balance_key()),
                        key,
                        entry,
                        |b: (Asset, u128)| b.1,
                    );
                }
                self.balances.set(i, entry);
            },
            None => {
                proof {
                    lemma_table_push(self.balances@, balance_key(), entry);
                    lemma_values_insert(
                        table_map(self.balances@, balance_key()),
                        key,
                        entry,
                        |b: (Asset, u128)| b.1,
                    );
                }
                self.balances.push(entry);
            },
        }
    }

    fn hold_position(&self, chain_id: u32, address: &String) -> (pos: Option<usize>)
        requires
            self.wf(),
        ensures
            match pos {
                Some(i) => i < self.holds@.len() && hold_key()(self.holds@[i as int]) == (
                    chain_id,
                    address@,
                ) && self@.holds.contains_key((chain_id, address@)) && self@.holds[(
                    chain_id,
                    address@,
                )] == self.holds@[i as int].amount,
                None => !self@.holds.contains_key((chain_id, address@)),
            },
    {
        let n = self.holds.len();
        for i in 0..n
            invariant
                n == self.holds@.len(),
                keys_unique(self.holds@, hold_key()),
                forall|j: int|
                    0 <= j < i ==> #[trigger] hold_key()(self.holds@[j]) != (chain_id, address@),
        {
            if self.holds[i].chain_id == chain_id && self.holds[i].address == *address {
                proof {
                    lemma_table_index(self.holds@, hold_key(), i as int);
                }
                return Some(i);
            }
        }
        proof {
            lemma_table_absent(self.holds@, hold_key(), (chain_id, address@));
        }
        None
    }

    /// The amount held back on a token of a chain, zero if none.
    pub fn held_amount(&self, chain_id: u32, address: &String) -> (amount: u128)
        requires
            self.wf(),
        ensures
            amount == amount_or_zero(self@.holds, (chain_id, address@)),
    {
        match self.hold_position(chain_id, address) {
            Some(i) => self.holds[i].amount,
            None => 0,
        }
    }

    /// Sets the amount held back on a token of a chain.
    fn set_hold(&mut self, chain_id: u32, address: String, amount: u128)
        requires
            old(self).wf(),
        ensures
            final(self).wf(),
            final(self)@ == (InventoryView {
                holds: old(self)@.holds.insert((chain_id, address@), amount),
                ..old(self)@
            }),
    {
        let entry = HoldEntry { chain_id, address, amount };
        let ghost slot = (chain_id, entry.address@);
        match self.hold_position(chain_id, &entry.address) {
            Some(i) => {
                proof {
                    lemma_table_update(self.holds@, hold_key(), i as int, entry);
                    lemma_values_insert(
                        table_map(self.holds@, hold_key()),
                        slot,
                        entry,
                        |h: HoldEntry| h.amount,
                    );
                }
                self.holds.set(i, entry);
            },
            None => {
                proof {
                    lemma_table_push(self.holds@, hold_key(), entry);
                    lemma_values_insert(
                        table_map(self.holds@, hold_key()),
                        slot,
                        entry,
                        |h: HoldEntry| h.amount,
                    );
                }
                self.holds.push(entry);
            },
        }
    }

    /// Lowers the amount held back on a token of a chain by `held` (not
    /// below zero), where an amount is held on it.
    fn release_hold(&mut self, chain_id: u32, address: &String, held: u128)
        requires
            old(self).wf(),
        ensures
            final(self).wf(),
            final(self)@ == (InventoryView {
                holds: released(old(self)@.holds, (chain_id, address@), held),
                ..old(self)@
            }),
    {
        match self.hold_position(chain_id, address) {
            Some(i) => {
                let amount = self.holds[i].amount.saturating_sub(held);
                self.set_hold(chain_id, address.clone(), amount);
            },
            None => {},
        }
    }

    fn order_hold_position(&self, order_id: &String) -> (pos: Option<usize>)
        requires
            self.wf(),
        ensures
            match pos {
                Some(i) => i < self.order_holds@.len() && self.order_holds@[i as int].order_id@
                    == order_id@ && self@.order_holds.contains_key(order_id@)
                    && self@.order_holds[order_id@] == self.order_holds@[i as int].amount,
                None => !self@.order_holds.contains_key(order_id@),
            },
    {
        let n = self.order_holds.len();
        for i in 0..n
            invariant
                n == self.order_holds@.len(),
                keys_unique(self.order_holds@, order_hold_key()),
                forall|j: int|
                    0 <= j < i ==> #[trigger] order_hold_key()(self.order_holds@[j]) != order_id@,
        {
            if self.order_holds[i].order_id == *order_id {
                proof {
                    lemma_table_index(self.order_holds@, order_hold_key(), i as int);
                }
                return Some(i);
            }
        }
        proof {
            lemma_table_absent(self.order_holds@, order_hold_key(), order_id@);
        }
        None
    }

    /// The amount held back for an order, zero if none.
    pub fn order_hold(&self, order_id: &String) -> (amount: u128)
        requires
            self.wf(),
        ensures
            amount == amount_or_zero(self@.order_holds, order_id@),
    {
        match self.order_hold_position(order_id) {
            Some(i) => self.order_holds[i].amount,
            None => 0,
        }
    }

    /// Adds `amount` to what is held back for an order.
    fn add_order_hold(&mut self, order_id: &String, amount: u128)
        requires
            old(self).wf(),
            amount_or_zero(old(self)@.order_holds, order_id@) + amount <= u128::MAX,
        ensures
            final(self).wf(),
            final(self)@ == (InventoryView {
                order_holds: old(self)@.order_holds.insert(
                    order_id@,
                    (amount_or_zero(old(self)@.order_holds, order_id@) + amount) as u128,
                ),
                ..old(self)@
            }),
    {
        let (entry, pos) = match self.order_hold_position(order_id) {
            Some(i) => (
                OrderHold { order_id: order_id.clone(), amount: self.order_holds[i].amount + amount },
                Some(i),
            ),
            None => (OrderHold { order_id: order_id.clone(), amount }, None),
        };
        proof {
            lemma_values_insert(
                table_map(self.order_holds@, order_hold_key()),
                order_id@,
                entry,
                |h: OrderHold| h.amount,
            );
        }
        match pos {
            Some(i) => {
                proof {
                    lemma_table_update(self.order_holds@, order_hold_key(), i as int, entry);
                }
                self.order_holds.set(i, entry);
            },
            None => {
                proof {
                    lemma_table_push(self.order_holds@, order_hold_key(), entry);
                }
                self.order_holds.push(entry);
            },
        }
    }

    /// Forgets what is held back for an order and returns it (zero if
    /// nothing was).
    fn take_order_hold(&mut self, order_id: &String) -> (held: u128)
        requires
            old(self).wf(),
        ensures
            final(self).wf(),
            held == amount_or_zero(old(self)@.order_holds, order_id@),
            final(self)@ == (InventoryView {
                order_holds: old(self)@.order_holds.remove(order_id@),
                ..old(self)@
            }),
    {
        match self.order_hold_position(order_id) {
            Some(i) => {
                proof {
                    lemma_table_remove(self.order_holds@, order_hold_key(), i as int);
                    lemma_values_remove(
                        table_map(self.order_holds@, order_hold_key()),
                        order_id@,
                        |h: OrderHold| h.amount,
                    );
                }
                let entry = self.order_holds.remove(i);
                entry.amount
            },
            None => {
                proof {
                    assert(self@.order_holds.remove(order_id@) =~= self@.order_holds);
                }
                0
            },
        }
    }
}

/// `a - b`, or zero where `b` is the larger.
pub open spec fn saturating_sub(a: u128, b: u128) -> u128 {
    if a >= b {
        (a - b) as u128
    } else {
        0
    }
}

/// The holds after `held` is released from a slot: the slot's amount goes
/// down by `held` (not below zero); a slot with no hold is left alone.
pub open spec fn released(holds: Map<(u32, Seq<char>), u128>, slot: (u32, Seq<char>), held: u128) -> Map<(u32, Seq<char>), u128> {
    if holds.contains_key(slot) {
        holds.insert(slot, saturating_sub(holds[slot], held))
    } else {
        holds
    }
}

/// The amount held back on the token of `asset`.
pub open spec fn held_for(v: InventoryView, asset: AssetView) -> u128 {
    amount_or_zero(v.holds, hold_slot(asset))
}

/// What may still be held of `asset`: its balance less what is held back
/// on its token, zero where the holds exceed the balance.
pub open spec fn available(v: InventoryView, asset: AssetView) -> u128 {
    saturating_sub(amount_or_zero(v.balances, asset), held_for(v, asset))
}

/// Whether a hold request reserves anything: it does when the whole amount
/// is available, or when it accepts a partial hold.
pub open spec fn hold_taken(v: InventoryView, e: RequestHoldEvent) -> bool {
    available(v, e.asset@) >= e.amount || e.allow_partial_hold
}

/// The amount a hold request reserves: all of it when available, else what
/// is available if it accepts a partial hold, else nothing.
pub open spec fn granted(v: InventoryView, e: RequestHoldEvent) -> u128 {
    if available(v, e.asset@) >= e.amount {
        e.amount
    } else if e.allow_partial_hold {
        available(v, e.asset@)
    } else {
        0
    }
}

/// The amount a rebalancing swap asks for: the shortfall plus five percent.
pub open spec fn swap_amount(v: InventoryView, e: RequestHoldEvent) -> int {
    (e.amount - available(v, e.asset@)) * 105 / 100
}

/// A hold request keeps every amount within `u128`: what the order has held
/// plus what it is granted, and the shortfall times 105 of a swap.
pub open spec fn hold_fits(v: InventoryView, e: RequestHoldEvent) -> bool {
    &&& hold_taken(v, e) ==> amount_or_zero(v.order_holds, e.order_id@) + granted(v, e) <= u128::MAX
    &&& (v.auto_rebalance && available(v, e.asset@) < e.amount) ==> (e.amount - available(
        v,
        e.asset@,
    )) * 105 <= u128::MAX
}

/// The holds after a hold request.
pub open spec fn holds_after_request(v: InventoryView, e: RequestHoldEvent) -> Map<(u32, Seq<char>), u128> {
    if hold_taken(v, e) {
        v.holds.insert(hold_slot(e.asset@), (held_for(v, e.asset@) + granted(v, e)) as u128)
    } else {
        v.holds
    }
}

/// The order holds after a hold request.
pub open spec fn order_holds_after_request(v: InventoryView, e: RequestHoldEvent) -> Map<Seq<char>, u128> {
    if hold_taken(v, e) {
        v.order_holds.insert(
            e.order_id@,
            (amount_or_zero(v.order_holds, e.order_id@) + granted(v, e)) as u128,
        )
    } else {
        v.order_holds
    }
}

/// An asset that could be swapped into `target`: another asset with a known
/// balance on the same chain.
pub open spec fn swap_candidate(balances: Map<AssetView, u128>, target: AssetView, a: AssetView) -> bool {
    balances.contains_key(a) && a.chain_id == target.chain_id && a != target
}

/// A candidate whose balance no other candidate exceeds.
pub open spec fn is_largest_swap_source(balances: Map<AssetView, u128>, target: AssetView, a: AssetView) -> bool {
    &&& swap_candidate(balances, target, a)
    &&& forall|b: AssetView| #[trigger] swap_candidate(balances, target, b) ==> balances[b] <= balances[a]
}

/// The event that reports a hold of `amount` for the order of `e`.
pub open spec fn hold_granted_event(e: RequestHoldEvent, amount: u128) -> SolverEvent {
    SolverEvent::HoldSuccessful(HoldSuccessfulEvent { order_id: e.order_id, hold_amount: amount })
}

/// The hold events of a request that could not be held in full.
pub open spec fn partial_hold_events(v: InventoryView, e: RequestHoldEvent) -> Seq<SolverEvent> {
    if e.allow_partial_hold {
        seq![hold_granted_event(e, available(v, e.asset@))]
    } else {
        Seq::empty()
    }
}

/// `event` asks to swap, for the order of `e`, the largest other balance on
/// the chain into the asset of `e`: the smaller of that balance and the
/// swap amount.
pub open spec fn is_swap_request(v: InventoryView, e: RequestHoldEvent, event: SolverEvent) -> bool {
    event matches SolverEvent::RequestSwap(s) && s.order_id == e.order_id && s.token_out == e.asset
        && is_largest_swap_source(v.balances, e.asset@, s.token_in@) && s.amount_in == (if v.balances[s.token_in@]
        < swap_amount(v, e) {
        v.balances[s.token_in@] as int
    } else {
        swap_amount(v, e)
    })
}

/// The events that answer a hold request: a hold of the whole amount where
/// it is available; otherwise the partial hold (if accepted) and, with
/// rebalancing on and a candidate on the chain, a swap request.
pub open spec fn request_hold_events(v: InventoryView, e: RequestHoldEvent, events: Seq<SolverEvent>) -> bool {
    if available(v, e.asset@) >= e.amount {
        events == seq![hold_granted_event(e, e.amount)]
    } else {
        let held = partial_hold_events(v, e);
        if v.auto_rebalance && exists|a: AssetView| #[trigger] swap_candidate(v.balances, e.asset@, a) {
            &&& events.len() == held.len() + 1
            &&& events.take(held.len() as int) == held
            &&& is_swap_request(v, e, events.last())
        } else {
            events == held
        }
    }
}

impl InventoryManager {
    /// The position of the largest balance that could be swapped into
    /// `target` (the last of equal largest ones), if there is a candidate.
    fn largest_swap_source(&self, target: &Asset) -> (pos: Option<usize>)
        requires
            self.wf(),
        ensures
            match pos {
                Some(i) => i < self.balances@.len() && is_largest_swap_source(
                    self@.balances,
                    target@,
                    self.balances@[i as int].0@,
                ) && self@.balances[self.balances@[i as int].0@] == self.balances@[i as int].1,
                None => forall|a: AssetView| !#[trigger] swap_candidate(self@.balances, target@, a),
            },
    {
        let n = self.balances.len();
        let mut best: Option<usize> = None;
        for i in 0..n
            invariant
                n == self.balances@.len(),
                keys_unique(self.balances@, balance_key()),
                match best {
                    Some(b) => b < i && self.balances@[b as int].0@.chain_id == target@.chain_id
                        && self.balances@[b as int].0@ != target@ && forall|j: int|
                        0 <= j < i && #[trigger] self.balances@[j].0@.chain_id == target@.chain_id
                            && self.balances@[j].0@ != target@ ==> self.balances@[j].1
                            <= self.balances@[b as int].1,
                    None => forall|j: int|
                        0 <= j < i ==> !(#[trigger] self.balances@[j].0@.chain_id == target@.chain_id
                            && self.balances@[j].0@ != target@),
                },
        {
            let entry = &self.balances[i];
            if entry.0.chain_id == target.chain_id && !entry.0.same_as(target) {
                match best {
                    None => {
                        best = Some(i);
                    },
                    Some(b) => {
                        if entry.1 >= self.balances[b].1 {
                            best = Some(i);
                        }
                    },
                }
            }
        }
        proof {
            let v = self@;
            match best {
                Some(b) => {
                    lemma_table_index(self.balances@, balance_key(), b as int);
                    assert forall|a: AssetView| #[trigger] swap_candidate(v.balances, target@, a) implies v.balances[a]
                        <= v.balances[self.balances@[b as int].0@] by {
                        let j = crate::table::key_position(self.balances@, balance_key(), a);
                        lemma_table_index(self.balances@, balance_key(), j);
                        assert(self.balances@[j].0@ == a);
                    }
                },
                None => {
                    assert forall|a: AssetView| !#[trigger] swap_candidate(v.balances, target@, a) by {
                        if swap_candidate(v.balances, target@, a) {
                            let j = crate::table::key_position(self.balances@, balance_key(), a);
                            lemma_table_index(self.balances@, balance_key(), j);
                            assert(self.balances@[j].0@ == a);
                        }
                    }
                },
            }
        }
        best
    }

    /// Answers a hold request. Where the whole amount is available it is
    /// held for the order. Otherwise what is available is held if the
    /// request accepts a partial hold, and with rebalancing on, a swap of
    /// the largest other balance on the chain is asked for: the shortfall
    /// plus five percent, at most that balance.
    pub fn request_hold(&mut self, e: RequestHoldEvent) -> (events: Vec<SolverEvent>)
        requires
            old(self).wf(),
            hold_fits(old(self)@, e),
        ensures
            final(self).wf(),
            final(self)@ == (InventoryView {
                holds: holds_after_request(old(self)@, e),
                order_holds: order_holds_after_request(old(self)@, e),
                ..old(self)@
            }),
            request_hold_events(old(self)@, e, events@),
    {
        let ghost v = self@;
        let chain_id = e.asset.chain_id;
        let active = self.held_amount(chain_id, &e.asset.address);
        let raw = self.balance_of(&e.asset);
        let free = raw.saturating_sub(active);
        let mut events: Vec<SolverEvent> = Vec::new();
        if free >= e.amount {
            self.set_hold(chain_id, e.asset.address.clone(), active + e.amount);
            self.add_order_hold(&e.order_id, e.amount);
            events.push(SolverEvent::HoldSuccessful(HoldSuccessfulEvent::new(e.order_id, e.amount)));
            proof {
                assert(events@ =~= seq![hold_granted_event(e, e.amount)]);
            }
            return events;
        }
        if e.allow_partial_hold {
            self.set_hold(chain_id, e.asset.address.clone(), active + free);
            self.add_order_hold(&e.order_id, free);
            events.push(
                SolverEvent::HoldSuccessful(HoldSuccessfulEvent::new(e.order_id.clone(), free)),
            );
        }
        proof {
            assert(events@ =~= partial_hold_events(v, e));
        }
        if !self.auto_rebalance {
            return events;
        }
        let wanted = (e.amount - free) * 105 / 100;
        match self.largest_swap_source(&e.asset) {
            Some(i) => {
                let balance = self.balances[i].1;
                let token = self.balances[i].0.duplicate();
                let amount_in = if balance < wanted {
                    balance
                } else {
                    wanted
                };
                let ghost held = events@;
                events.push(
                    SolverEvent::RequestSwap(
                        RequestSwapEvent::new(e.order_id.clone(), token, e.asset, amount_in),
                    ),
                );
                proof {
                    assert(events@.take(held.len() as int) =~= held);
                    assert(self@.balances == v.balances);
                    assert(swap_candidate(v.balances, e.asset@, token@));
                    assert(is_largest_swap_source(v.balances, e.asset@, token@));
                    assert(free == available(v, e.asset@));
                    assert(wanted == swap_amount(v, e));
                    assert(is_swap_request(v, e, events@.last()));
                }
            },
            None => {
                proof {
                    assert(self@.balances == v.balances);
                    assert(forall|a: AssetView| !#[trigger] swap_candidate(v.balances, e.asset@, a));
                }
            },
        }
        events
    }
}

/// Seconds between two periodic reloads of the balances.
pub const BALANCE_RELOAD_INTERVAL_SECS: u64 = 120;

/// What the inventory asks of the loop that runs it after an event.
#[derive(Debug)]
pub enum InventoryAction {
    /// Publish these events.
    Publish(Vec<SolverEvent>),
    /// Reload the balances on the chains of this runtime, then publish the
    /// inventory.
    ReloadRuntime(ChainRuntime),
    /// Reload every balance, record the time of the reload, then publish
    /// the inventory.
    ReloadAll,
}

/// The periodic reload is due once its interval has passed since the last.
pub open spec fn reload_due(v: InventoryView, now_secs: u64) -> bool {
    now_secs >= v.last_reload + BALANCE_RELOAD_INTERVAL_SECS
}

/// The action after an event that leaves the balances alone: a reload of
/// everything when one is due, else nothing to publish.
pub open spec fn is_reload_decision(v: InventoryView, now_secs: u64, action: InventoryAction) -> bool {
    if reload_due(v, now_secs) {
        action is ReloadAll
    } else {
        action matches InventoryAction::Publish(events) && events@.len() == 0
    }
}

/// The orders once the inventory's order store has seen an event.
pub open spec fn orders_after(v: InventoryView, event: SolverEvent) -> Map<Seq<char>, Order> {
    match store_step(v.orders, event) {
        Ok(orders) => orders,
        Err(_) => v.orders,
    }
}

/// The hold slot an order is filled from: its destination chain and the
/// display form of its output token.
pub open spec fn fill_slot(o: Order) -> (u32, Seq<char>) {
    (o.data.dest_chain_id, address_text(o.data.token_out@))
}

/// An event the inventory can take without an overflow.
pub open spec fn handle_defined(v: InventoryView, event: SolverEvent) -> bool {
    &&& fill_fits(v.orders, event)
    &&& (event matches SolverEvent::RequestHold(e) ==> hold_fits(v, e))
}

/// What the end of an order (completed or cancelled) does: the order's hold
/// is forgotten and, where it held something, released from the order's
/// fill slot; the order must then be known.
pub open spec fn release_outcome(
    v: InventoryView,
    orders: Map<Seq<char>, Order>,
    id: Seq<char>,
    now_secs: u64,
    w: InventoryView,
    result: Result<InventoryAction, SolverError>,
) -> bool {
    let held = amount_or_zero(v.order_holds, id);
    &&& w.order_holds == v.order_holds.remove(id)
    &&& if held > 0 && !orders.contains_key(id) {
        &&& w.holds == v.holds
        &&& result matches Err(SolverError::OrderNotFound(missing)) && missing@ == id
    } else {
        &&& w.holds == (if held > 0 {
            released(v.holds, fill_slot(orders[id]), held)
        } else {
            v.holds
        })
        &&& result matches Ok(action) && is_reload_decision(v, now_secs, action)
    }
}

/// `event` publishes exactly these balances.
pub open spec fn publishes_balances(event: SolverEvent, balances: Map<AssetView, u128>) -> bool {
    event matches SolverEvent::InventoryUpdate(u) && lists_balances(u.balances@, balances)
}

/// What an event does to the inventory, `w` being the inventory after it
/// and `result` what is returned.
pub open spec fn inventory_handled(
    v: InventoryView,
    event: SolverEvent,
    now_secs: u64,
    w: InventoryView,
    result: Result<InventoryAction, SolverError>,
) -> bool {
    let orders = orders_after(v, event);
    &&& w.orders == orders
    &&& w.balances == v.balances
    &&& w.auto_rebalance == v.auto_rebalance
    &&& w.last_reload == v.last_reload
    &&& match event {
        SolverEvent::Start => {
            &&& w.holds == v.holds
            &&& w.order_holds == v.order_holds
            &&& result matches Ok(InventoryAction::Publish(events)) && events@.len() == 1
                && publishes_balances(events@[0], v.balances)
        },
        SolverEvent::RequestHold(e) => {
            &&& w.holds == holds_after_request(v, e)
            &&& w.order_holds == order_holds_after_request(v, e)
            &&& result matches Ok(InventoryAction::Publish(events)) && request_hold_events(
                v,
                e,
                events@,
            )
        },
        SolverEvent::OrderCompleted(e) => release_outcome(v, orders, e.order_id@, now_secs, w, result),
        SolverEvent::OrderCancelled(e) => release_outcome(v, orders, e.order_id@, now_secs, w, result),
        SolverEvent::FillOrderSuccessful(e) => {
            &&& w.holds == v.holds
            &&& w.order_holds == v.order_holds
            &&& if orders.contains_key(e.order_id@) {
                result == Ok::<InventoryAction, SolverError>(
                    InventoryAction::ReloadRuntime(runtime_of(orders[e.order_id@].data.dest_chain_id)),
                )
            } else {
                result matches Err(SolverError::OrderNotFound(missing)) && missing@ == e.order_id@
            }
        },
        _ => {
            &&& w.holds == v.holds
            &&& w.order_holds == v.order_holds
            &&& result matches Ok(action) && is_reload_decision(v, now_secs, action)
        },
    }
}

impl InventoryManager {
    /// The event that publishes every balance.
    pub fn inventory_update(&self) -> (event: SolverEvent)
        requires
            self.wf(),
        ensures
            publishes_balances(event, self@.balances),
    {
        let n = self.balances.len();
        let mut entries: Vec<(Asset, u128)> = Vec::new();
        for i in 0..n
            invariant
                n == self.balances@.len(),
                entries@ == self.balances@.subrange(0, i as int),
        {
            let entry = &self.balances[i];
            entries.push((entry.0.duplicate(), entry.1));
            proof {
                assert(self.balances@.subrange(0, i + 1) =~= self.balances@.subrange(0, i as int).push(
                    self.balances@[i as int],
                ));
            }
        }
        proof {
            assert(self.balances@.subrange(0, n as int) =~= self.balances@);
        }
        SolverEvent::InventoryUpdate(InventoryUpdateEvent::new(entries))
    }

    /// Records that every balance was reloaded at `now_secs`.
    pub fn mark_balances_reloaded(&mut self, now_secs: u64)
        requires
            old(self).wf(),
        ensures
            final(self).wf(),
            final(self)@ == (InventoryView { last_reload: now_secs, ..old(self)@ }),
    {
        self.last_balance_reload = now_secs;
    }

    /// A reload of every balance when one is due, else nothing.
    fn reload_decision(&self, now_secs: u64) -> (action: InventoryAction)
        ensures
            is_reload_decision(self@, now_secs, action),
    {
        if now_secs >= self.last_balance_reload && now_secs - self.last_balance_reload
            >= BALANCE_RELOAD_INTERVAL_SECS {
            InventoryAction::ReloadAll
        } else {
            InventoryAction::Publish(Vec::new())
        }
    }

    /// The end of an order: forget its hold and release what it held.
    fn release_order(&mut self, order_id: &String, now_secs: u64) -> (result: Result<
        InventoryAction,
        SolverError,
    >)
        requires
            old(self).wf(),
        ensures
            final(self).wf(),
            final(self)@.orders == old(self)@.orders,
            final(self)@.balances == old(self)@.balances,
            final(self)@.auto_rebalance == old(self)@.auto_rebalance,
            final(self)@.last_reload == old(self)@.last_reload,
            release_outcome(old(self)@, old(self)@.orders, order_id@, now_secs, final(self)@, result),
    {
        let held = self.take_order_hold(order_id);
        if held > 0 {
            match self.order_store.get_order(order_id) {
                None => {
                    return Err(SolverError::OrderNotFound(order_id.clone()));
                },
                Some(order) => {
                    let token = format_address(&order.data.token_out);
                    self.release_hold(order.data.dest_chain_id, &token, held);
                },
            }
        }
        Ok(self.reload_decision(now_secs))
    }

    /// Whether `handle_event` can take `event` (see `handle_defined`).
    pub fn can_handle(&self, event: &SolverEvent) -> (ok: bool)
        requires
            self.wf(),
        ensures
            ok == handle_defined(self@, *event),
    {
        let fits = match event {
            SolverEvent::OrderFill(e) => match self.order_store.get_order(&e.order_id) {
                Some(o) => o.filled_amount.checked_add(e.amount).is_some(),
                None => true,
            },
            _ => true,
        };
        let hold_ok = match event {
            SolverEvent::RequestHold(e) => {
                let active = self.held_amount(e.asset.chain_id, &e.asset.address);
                let free = self.balance_of(&e.asset).saturating_sub(active);
                let taken = free >= e.amount || e.allow_partial_hold;
                let granted = if free >= e.amount {
                    e.amount
                } else if e.allow_partial_hold {
                    free
                } else {
                    0
                };
                let order_ok = !taken || self.order_hold(&e.order_id).checked_add(granted).is_some();
                let swap_ok = !(self.auto_rebalance && free < e.amount) || (e.amount
                    - free).checked_mul(105).is_some();
                order_ok && swap_ok
            },
            _ => true,
        };
        fits && hold_ok
    }

    /// Takes an event: the inventory's order store sees it first; then a
    /// start publishes the balances, a hold request is answered (see
    /// `request_hold`), a completed or cancelled order releases its hold, a
    /// confirmed fill asks for a reload of the balances on the order's
    /// destination runtime, and any other event asks for the periodic
    /// reload when it is due.
    pub fn handle_event(&mut self, event: SolverEvent, now_secs: u64) -> (result: Result<
        InventoryAction,
        SolverError,
    >)
        requires
            old(self).wf(),
            handle_defined(old(self)@, event),
        ensures
            final(self).wf(),
            inventory_handled(old(self)@, event, now_secs, final(self)@, result),
    {
        let ghost v = self@;
        let _ = self.order_store.handle_event(&event);
        let ghost mid = self@;
        proof {
            assert(mid == InventoryView { orders: orders_after(v, event), ..v });
        }
        match event {
            SolverEvent::Start => {
                let mut events: Vec<SolverEvent> = Vec::new();
                events.push(self.inventory_update());
                Ok(InventoryAction::Publish(events))
            },
            SolverEvent::RequestHold(e) => {
                let events = self.request_hold(e);
                Ok(InventoryAction::Publish(events))
            },
            SolverEvent::OrderCompleted(e) => self.release_order(&e.order_id, now_secs),
            SolverEvent::OrderCancelled(e) => self.release_order(&e.order_id, now_secs),
            SolverEvent::FillOrderSuccessful(e) => match self.order_store.get_order(&e.order_id) {
                Some(order) => Ok(InventoryAction::ReloadRuntime(chain_runtime(order.data.dest_chain_id))),
                None => Err(SolverError::OrderNotFound(e.order_id)),
            },
            _ => Ok(self.reload_decision(now_secs)),
        }
    }
}

/// The total of the holds that a list of events reports.
pub open spec fn reported_holds(events: Seq<SolverEvent>) -> int
    decreases events.len(),
{
    if events.len() == 0 {
        0
    } else {
        reported_holds(events.drop_last()) + match events.last() {
            SolverEvent::HoldSuccessful(h) => h.hold_amount as int,
            _ => 0,
        }
    }
}

/// A hold request holds back exactly what its events report: the order's
/// hold grows by the reported amount, and so does the hold on the token.
pub proof fn law_hold_grows_by_reported_amount(
    v: InventoryView,
    e: RequestHoldEvent,
    now_secs: u64,
    w: InventoryView,
    result: Result<InventoryAction, SolverError>,
)
    requires
        hold_fits(v, e),
        inventory_handled(v, SolverEvent::RequestHold(e), now_secs, w, result),
    ensures
        result matches Ok(InventoryAction::Publish(events)) && amount_or_zero(
            w.order_holds,
            e.order_id@,
        ) == amount_or_zero(v.order_holds, e.order_id@) + reported_holds(events@) && amount_or_zero(
            w.holds,
            hold_slot(e.asset@),
        ) == held_for(v, e.asset@) + reported_holds(events@),
{
    let events = result->Ok_0->Publish_0@;
    let held = partial_hold_events(v, e);
    let free = available(v, e.asset@);
    if free >= e.amount {
        assert(events.drop_last() =~= Seq::<SolverEvent>::empty());
        assert(reported_holds(events) == e.amount) by {
            reveal_with_fuel(reported_holds, 2);
        }
    }
    if free < e.amount {
        if e.allow_partial_hold {
            assert(held.drop_last() =~= Seq::<SolverEvent>::empty());
            assert(reported_holds(held) == free) by {
                reveal_with_fuel(reported_holds, 2);
            }
        } else {
            assert(reported_holds(held) == 0);
        }
        if events.len() == held.len() + 1 {
            assert(events.drop_last() =~= held);
            assert(events.last() is RequestSwap);
            assert(reported_holds(events) == reported_holds(held));
        }
    }
}

/// A hold request is never granted more than it asked for.
pub proof fn law_hold_grants_at_most_request(
    v: InventoryView,
    e: RequestHoldEvent,
    now_secs: u64,
    w: InventoryView,
    result: Result<InventoryAction, SolverError>,
)
    requires
        inventory_handled(v, SolverEvent::RequestHold(e), now_secs, w, result),
    ensures
        result matches Ok(InventoryAction::Publish(events)) && reported_holds(events@) <= e.amount,
{
    let events = result->Ok_0->Publish_0@;
    let held = partial_hold_events(v, e);
    let free = available(v, e.asset@);
    if free >= e.amount {
        assert(events.drop_last() =~= Seq::<SolverEvent>::empty());
        assert(reported_holds(events) == e.amount) by {
            reveal_with_fuel(reported_holds, 2);
        }
    } else {
        if e.allow_partial_hold {
            assert(held.drop_last() =~= Seq::<SolverEvent>::empty());
            assert(reported_holds(held) == free) by {
                reveal_with_fuel(reported_holds, 2);
            }
        } else {
            assert(reported_holds(held) == 0);
        }
        if events.len() == held.len() + 1 {
            assert(events.drop_last() =~= held);
            assert(events.last() is RequestSwap);
            assert(reported_holds(events) == reported_holds(held));
        }
    }
}

/// A hold never takes more than is free: where the holds on a token were
/// within the balance of the asset, they still are after a hold request.
pub proof fn law_hold_stays_within_balance(
    v: InventoryView,
    e: RequestHoldEvent,
    now_secs: u64,
    w: InventoryView,
    result: Result<InventoryAction, SolverError>,
)
    requires
        inventory_handled(v, SolverEvent::RequestHold(e), now_secs, w, result),
        held_for(v, e.asset@) <= amount_or_zero(v.balances, e.asset@),
    ensures
        held_for(w, e.asset@) <= amount_or_zero(w.balances, e.asset@),
{
}

/// A hold request touches only the hold on its own token and the hold of
/// its own order.
pub proof fn law_hold_touches_only_its_slot(
    v: InventoryView,
    e: RequestHoldEvent,
    now_secs: u64,
    w: InventoryView,
    result: Result<InventoryAction, SolverError>,
    slot: (u32, Seq<char>),
    id: Seq<char>,
)
    requires
        inventory_handled(v, SolverEvent::RequestHold(e), now_secs, w, result),
        slot != hold_slot(e.asset@),
        id != e.order_id@,
    ensures
        amount_or_zero(w.holds, slot) == amount_or_zero(v.holds, slot),
        amount_or_zero(w.order_holds, id) == amount_or_zero(v.order_holds, id),
{
}

/// A rebalancing swap spends another asset of the same chain, never more
/// than its balance, and only when the request could not be held in full.
pub proof fn law_swap_within_source_balance(
    v: InventoryView,
    e: RequestHoldEvent,
    now_secs: u64,
    w: InventoryView,
    result: Result<InventoryAction, SolverError>,
    i: int,
)
    requires
        inventory_handled(v, SolverEvent::RequestHold(e), now_secs, w, result),
        result matches Ok(InventoryAction::Publish(events)) && 0 <= i < events@.len()
            && events@[i] is RequestSwap,
    ensures
        ({
            let s = result->Ok_0->Publish_0@[i]->RequestSwap_0;
            &&& available(v, e.asset@) < e.amount
            &&& v.auto_rebalance
            &&& v.balances.contains_key(s.token_in@)
            &&& s.token_in@.chain_id == e.asset@.chain_id
            &&& s.token_in@ != e.asset@
            &&& s.amount_in <= v.balances[s.token_in@]
            &&& s.amount_in <= swap_amount(v, e)
        }),
{
    let events = result->Ok_0->Publish_0@;
    let held = partial_hold_events(v, e);
    if available(v, e.asset@) < e.amount && v.auto_rebalance && exists|a: AssetView|
        #[trigger] swap_candidate(v.balances, e.asset@, a) {
        if i < held.len() {
            assert(events[i] == events.take(held.len() as int)[i]);
        }
    }
}

/// The end of an order (completed or cancelled) always forgets its hold,
/// and never raises the hold on any token.
pub proof fn law_end_of_order_releases(
    v: InventoryView,
    event: SolverEvent,
    now_secs: u64,
    w: InventoryView,
    result: Result<InventoryAction, SolverError>,
    slot: (u32, Seq<char>),
)
    requires
        event is OrderCompleted || event is OrderCancelled,
        inventory_handled(v, event, now_secs, w, result),
    ensures
        !w.order_holds.contains_key(event_order(event)),
        amount_or_zero(w.holds, slot) <= amount_or_zero(v.holds, slot),
{
}

/// The order a completed or cancelled event names.
pub open spec fn event_order(event: SolverEvent) -> Seq<char> {
    match event {
        SolverEvent::OrderCompleted(e) => e.order_id@,
        SolverEvent::OrderCancelled(e) => e.order_id@,
        _ => Seq::empty(),
    }
}

/// No event changes the balances; only a reload does.
pub proof fn law_events_keep_balances(
    v: InventoryView,
    event: SolverEvent,
    now_secs: u64,
    w: InventoryView,
    result: Result<InventoryAction, SolverError>,
)
    requires
        inventory_handled(v, event, now_secs, w, result),
    ensures
        w.balances == v.balances,
{
}

} // verus!
