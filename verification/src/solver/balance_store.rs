//! The latest balances the inventory published.
use vstd::prelude::*;
use crate::solver::assets::{Asset, AssetView};
use crate::solver::events::SolverEvent;
use crate::solver::inventory::{lists_balances, publishes_balances};

verus! {

/// Keeps the balances of the last inventory update.
pub struct BalanceStore {
    balances: Vec<(Asset, u128)>,
}

impl View for BalanceStore {
    type V = Seq<(Asset, u128)>;

    closed spec fn view(&self) -> Seq<(Asset, u128)> {
        self.balances@
    }
}

/// A copy of a list of balances.
pub fn copy_balances(entries: &Vec<(Asset, u128)>) -> (copy: Vec<(Asset, u128)>)
    ensures
        copy@ == entries@,
{
    let n = entries.len();
    let mut out: Vec<(Asset, u128)> = Vec::new();
    for i in 0..n
        invariant
            n == entries@.len(),
            out@ == entries@.subrange(0, i as int),
    {
        out.push((entries[i].0.duplicate(), entries[i].1));
        proof {
            assert(entries@.subrange(0, i + 1) =~= entries@.subrange(0, i as int).push(
                entries@[i as int],
            ));
        }
    }
    proof {
        assert(entries@.subrange(0, n as int) =~= entries@);
    }
    out
}

impl BalanceStore {
    pub fn new() -> (store: Self)
        ensures
            store@.len() == 0,
    {
        BalanceStore { balances: Vec::new() }
    }

    /// The balances, as the last inventory update listed them.
    pub fn get_all_balances(&self) -> (balances: Vec<(Asset, u128)>)
        ensures
            balances@ == self@,
    {
        copy_balances(&self.balances)
    }

    /// An inventory update replaces every balance; other events change
    /// nothing.
    pub fn handle_event(&mut self, event: &SolverEvent)
        ensures
            match *event {
                SolverEvent::InventoryUpdate(e) => final(self)@ == e.balances@,
                _ => final(self)@ == old(self)@,
            },
    {
        if let SolverEvent::InventoryUpdate(e) = event {
            self.balances = copy_balances(&e.balances);
        }
    }
}

/// What the inventory publishes is what the balance store serves: after
/// the store takes an update that lists the inventory's balances, it lists
/// each asset once, with the inventory's balance for it.
pub proof fn law_store_serves_published_balances(
    balances: Map<AssetView, u128>,
    event: SolverEvent,
    after: Seq<(Asset, u128)>,
)
    requires
        publishes_balances(event, balances),
        after == event->InventoryUpdate_0.balances@,
    ensures
        lists_balances(after, balances),
{
}

} // verus!
