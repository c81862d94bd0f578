//! The solver's record of every order it has seen and where each stands.
use vstd::prelude::*;
use crate::order_book::OrderData;
use crate::solver::error::SolverError;
use crate::solver::events::{OrderCreatedEvent, SolverEvent};
use crate::table::{
    has_key, keys_unique, lemma_table_absent, lemma_table_index, lemma_table_push,
    lemma_table_update, table_map,
};

verus! {

/// Where an order stands.
#[derive(Debug, Clone, Copy, PartialEq, Eq, Structural)]
pub enum OrderState {
    Created,
    PartiallyFilled,
    Filled,
    Completed,
    Rejected,
    Cancelled,
}

impl OrderState {
    /// The state's name.
    pub fn name(&self) -> (text: &'static str)
        ensures
            text@ == order_state_name(*self),
    {
        match self {
            OrderState::Created => "Created",
            OrderState::PartiallyFilled => "PartiallyFilled",
            OrderState::Filled => "Filled",
            OrderState::Completed => "Completed",
            OrderState::Rejected => "Rejected",
            OrderState::Cancelled => "Cancelled",
        }
    }
}

pub open spec fn order_state_name(state: OrderState) -> Seq<char> {
    match state {
        OrderState::Created => "Created"@,
        OrderState::PartiallyFilled => "PartiallyFilled"@,
        OrderState::Filled => "Filled"@,
        OrderState::Completed => "Completed"@,
        OrderState::Rejected => "Rejected"@,
        OrderState::Cancelled => "Cancelled"@,
    }
}

/// An order as the solver tracks it.
#[derive(Debug, Clone)]
pub struct Order {
    pub id: String,
    pub state: OrderState,
    pub data: OrderData,
    pub filled_amount: u128,
    pub created_at: u64,
}

impl Order {
    /// A copy of this order.
    pub fn duplicate(&self) -> (copy: Order)
        ensures
            copy == *self,
    {
        Order {
            id: self.id.clone(),
            state: self.state,
            data: self.data,
            filled_amount: self.filled_amount,
            created_at: self.created_at,
        }
    }
}

/// Orders are keyed by their id.
pub open spec fn order_key() -> spec_fn(Order) -> Seq<char> {
    |o: Order| o.id@
}

/// The order that an order-created event introduces.
pub open spec fn created_order(e: OrderCreatedEvent) -> Order {
    Order {
        id: e.order_id,
        state: OrderState::Created,
        data: e.order,
        filled_amount: 0,
        created_at: e.created_timestamp,
    }
}

/// An order after `amount` more of it was filled.
pub open spec fn order_after_fill(o: Order, amount: u128) -> Order {
    let filled = (o.filled_amount + amount) as u128;
    Order {
        state: if filled >= o.data.amount_out {
            OrderState::Filled
        } else {
            OrderState::PartiallyFilled
        },
        filled_amount: filled,
        ..o
    }
}

/// An order moved to another state, nothing else changed.
pub open spec fn order_in_state(o: Order, state: OrderState) -> Order {
    Order { state, ..o }
}

/// A fill never carries the filled amount of an order past `u128::MAX`.
pub open spec fn fill_fits(orders: Map<Seq<char>, Order>, event: SolverEvent) -> bool {
    match event {
        SolverEvent::OrderFill(e) => orders.contains_key(e.order_id@) ==> orders[e.order_id@].filled_amount
            + e.amount <= u128::MAX,
        _ => true,
    }
}

/// What an event does to the orders: the new orders, or the id of the
/// unknown order that the event needed.
pub open spec fn store_step(orders: Map<Seq<char>, Order>, event: SolverEvent) -> Result<Map<Seq<char>, Order>, Seq<char>> {
    match event {
        SolverEvent::OrderCreated(e) => Ok(orders.insert(e.order_id@, created_order(e))),
        SolverEvent::OrderFill(e) => if orders.contains_key(e.order_id@) {
            Ok(orders.insert(e.order_id@, order_after_fill(orders[e.order_id@], e.amount)))
        } else {
            Err(e.order_id@)
        },
        SolverEvent::OrderRejected(e) => if orders.contains_key(e.order_id@) {
            Ok(orders.insert(e.order_id@, order_in_state(orders[e.order_id@], OrderState::Rejected)))
        } else {
            Err(e.order_id@)
        },
        SolverEvent::OrderCancelRequest(e) => if orders.contains_key(e.order_id@) {
            Ok(orders.insert(e.order_id@, order_in_state(orders[e.order_id@], OrderState::Cancelled)))
        } else {
            Err(e.order_id@)
        },
        SolverEvent::OrderRefundClaimed(e) => if orders.contains_key(e.order_id@) {
            Ok(orders.insert(e.order_id@, order_in_state(orders[e.order_id@], OrderState::Rejected)))
        } else {
            Ok(orders)
        },
        SolverEvent::OrderCompleted(e) => if orders.contains_key(e.order_id@) {
            Ok(orders.insert(e.order_id@, order_in_state(orders[e.order_id@], OrderState::Completed)))
        } else {
            Ok(orders)
        },
        _ => Ok(orders),
    }
}

/// Event store for tracking order status.
pub struct OrderStore {
    orders: Vec<Order>,
}

impl View for OrderStore {
    type V = Map<Seq<char>, Order>;

    closed spec fn view(&self) -> Map<Seq<char>, Order> {
        table_map(self.orders@, order_key())
    }
}

impl OrderStore {
    /// The store's internal invariant: one record per order id.
    pub closed spec fn wf(&self) -> bool {
        keys_unique(self.orders@, order_key())
    }

    pub fn new() -> (store: Self)
        ensures
            store.wf(),
            store@ == Map::<Seq<char>, Order>::empty(),
    {
        let store = OrderStore { orders: Vec::new() };
        proof {
            assert(store@ =~= Map::<Seq<char>, Order>::empty());
        }
        store
    }

    /// The position of the order with id `id`, if the store has it.
    fn position(&self, id: &String) -> (pos: Option<usize>)
        requires
            self.wf(),
        ensures
            match pos {
                Some(i) => i < self.orders@.len() && self.orders@[i as int].id@ == id@,
                None => !self@.contains_key(id@),
            },
    {
        let n = self.orders.len();
        for i in 0..n
            invariant
                n == self.orders@.len(),
                forall|j: int| 0 <= j < i ==> #[trigger] self.orders@[j].id@ != id@,
        {
            if self.orders[i].id == *id {
                return Some(i);
            }
        }
        proof {
            lemma_table_absent(self.orders@, order_key(), id@);
        }
        None
    }

    /// The order with id `order_id`, if the store has it.
    pub fn get_order(&self, order_id: &String) -> (order: Option<Order>)
        requires
            self.wf(),
        ensures
            match order {
                Some(o) => self@.contains_key(order_id@) && o == self@[order_id@],
                None => !self@.contains_key(order_id@),
            },
    {
        match self.position(order_id) {
            Some(i) => {
                proof {
                    lemma_table_index(self.orders@, order_key(), i as int);
                }
                Some(self.orders[i].duplicate())
            },
            None => None,
        }
    }

    /// Every order of the store, each once.
    pub fn get_all_orders(&self) -> (orders: Vec<Order>)
        requires
            self.wf(),
        ensures
            keys_unique(orders@, order_key()),
            table_map(orders@, order_key()) == self@,
    {
        let n = self.orders.len();
        let mut out: Vec<Order> = Vec::new();
        for i in 0..n
            invariant
                n == self.orders@.len(),
                out@ == self.orders@.subrange(0, i as int),
        {
            out.push(self.orders[i].duplicate());
            proof {
                assert(self.orders@.subrange(0, i + 1) =~= self.orders@.subrange(0, i as int).push(
                    self.orders@[i as int],
                ));
            }
        }
        proof {
            assert(self.orders@.subrange(0, n as int) =~= self.orders@);
        }
        out
    }

    /// Every order of the store that is in `state`, each once.
    pub fn get_orders_by_state(&self, state: OrderState) -> (orders: Vec<Order>)
        requires
            self.wf(),
        ensures
            keys_unique(orders@, order_key()),
            table_map(orders@, order_key()) == self@.restrict(
                self@.dom().filter(|k: Seq<char>| self@[k].state == state),
            ),
    {
        let n = self.orders.len();
        let mut out: Vec<Order> = Vec::new();
        for i in 0..n
            invariant
                n == self.orders@.len(),
                keys_unique(self.orders@, order_key()),
                keys_unique(out@, order_key()),
                forall|j: int|
                    0 <= j < out@.len() ==> {
                        &&& #[trigger] out@[j].state == state
                        &&& self@.contains_key(out@[j].id@)
                        &&& self@[out@[j].id@] == out@[j]
                        &&& crate::table::key_position(self.orders@, order_key(), out@[j].id@) < i
                    },
                forall|k: int|
                    0 <= k < i && #[trigger] self.orders@[k].state == state ==> has_key(
                        out@,
                        order_key(),
                        self.orders@[k].id@,
                    ),
        {
            let o = &self.orders[i];
            proof {
                lemma_table_index(self.orders@, order_key(), i as int);
            }
            if o.state == state {
                proof {
                    assert forall|j: int| 0 <= j < out@.len() implies #[trigger] order_key()(out@[j])
                        != self.orders@[i as int].id@ by {
                        assert(out@[j].state == state);
                        if out@[j].id@ == self.orders@[i as int].id@ {
                            assert(crate::table::key_position(self.orders@, order_key(), out@[j].id@) == i);
                        }
                    }
                    lemma_table_absent(out@, order_key(), self.orders@[i as int].id@);
                    lemma_table_push(out@, order_key(), self.orders@[i as int]);
                }
                let ghost before = out@;
                out.push(o.duplicate());
                proof {
                    assert forall|k: int|
                        0 <= k < i + 1 && #[trigger] self.orders@[k].state == state implies has_key(
                        out@,
                        order_key(),
                        self.orders@[k].id@,
                    ) by {
                        if k < i {
                            let j = choose|j: int|
                                0 <= j < before.len() && #[trigger] order_key()(before[j])
                                    == self.orders@[k].id@;
                            assert(out@[j] == before[j]);
                            assert(order_key()(out@[j]) == self.orders@[k].id@);
                        } else {
                            assert(order_key()(out@[before.len() as int]) == self.orders@[k].id@);
                        }
                    }
                }
            }
        }
        proof {
            let want = self@.restrict(self@.dom().filter(|k: Seq<char>| self@[k].state == state));
            let got = table_map(out@, order_key());
            assert forall|key: Seq<char>| #[trigger] got.contains_key(key) == want.contains_key(
                key,
            ) by {
                if got.contains_key(key) {
                    let j = choose|j: int| 0 <= j < out@.len() && #[trigger] order_key()(out@[j]) == key;
                    assert(out@[j].state == state);
                }
                if want.contains_key(key) {
                    let k = choose|k: int| 0 <= k < n && #[trigger] order_key()(self.orders@[k]) == key;
                    lemma_table_index(self.orders@, order_key(), k);
                }
            }
            assert forall|key: Seq<char>| #[trigger] got.contains_key(key) implies got[key]
                == want[key] by {
                let j = crate::table::key_position(out@, order_key(), key);
                lemma_table_index(out@, order_key(), j);
                assert(out@[j].state == state);
            }
            assert(got =~= want);
        }
        out
    }

    /// Applies an event to the orders (see `store_step`): a created order is
    /// recorded (replacing one with the same id), a fill adds to the filled
    /// amount and marks the order filled once it covers the amount out,
    /// rejections, cancel requests, refunds and completions set the state.
    pub fn handle_event(&mut self, event: &SolverEvent) -> (result: Result<(), SolverError>)
        requires
            old(self).wf(),
            fill_fits(old(self)@, *event),
        ensures
            final(self).wf(),
            match store_step(old(self)@, *event) {
                Ok(orders) => result is Ok && final(self)@ == orders,
                Err(id) => result matches Err(SolverError::OrderNotFound(missing)) && missing@ == id
                    && final(self)@ == old(self)@,
            },
    {
        match event {
            SolverEvent::OrderCreated(e) => {
                let order = Order {
                    id: e.order_id.clone(),
                    state: OrderState::Created,
                    data: e.order,
                    filled_amount: 0,
                    created_at: e.created_timestamp,
                };
                self.put(order);
                Ok(())
            },
            SolverEvent::OrderFill(e) => match self.position(&e.order_id) {
                Some(i) => {
                    proof {
                        lemma_table_index(self.orders@, order_key(), i as int);
                    }
                    let old_order = &self.orders[i];
                    let filled = old_order.filled_amount + e.amount;
                    let state = if filled >= old_order.data.amount_out {
                        OrderState::Filled
                    } else {
                        OrderState::PartiallyFilled
                    };
                    let order = Order {
                        id: old_order.id.clone(),
                        state,
                        data: old_order.data,
                        filled_amount: filled,
                        created_at: old_order.created_at,
                    };
                    self.replace_at(i, order);
                    Ok(())
                },
                None => Err(SolverError::OrderNotFound(e.order_id.clone())),
            },
            SolverEvent::OrderRejected(e) => match self.position(&e.order_id) {
                Some(i) => {
                    self.set_state(i, OrderState::Rejected);
                    Ok(())
                },
                None => Err(SolverError::OrderNotFound(e.order_id.clone())),
            },
            SolverEvent::OrderCancelRequest(e) => match self.position(&e.order_id) {
                Some(i) => {
                    self.set_state(i, OrderState::Cancelled);
                    Ok(())
                },
                None => Err(SolverError::OrderNotFound(e.order_id.clone())),
            },
            SolverEvent::OrderRefundClaimed(e) => {
                if let Some(i) = self.position(&e.order_id) {
                    self.set_state(i, OrderState::Rejected);
                }
                Ok(())
            },
            SolverEvent::OrderCompleted(e) => {
                if let Some(i) = self.position(&e.order_id) {
                    self.set_state(i, OrderState::Completed);
                }
                Ok(())
            },
            _ => Ok(()),
        }
    }

    /// Records `order`, replacing the order with the same id if there is one.
    fn put(&mut self, order: Order)
        requires
            old(self).wf(),
        ensures
            final(self).wf(),
            final(self)@ == old(self)@.insert(order.id@, order),
    {
        match self.position(&order.id) {
            Some(i) => self.replace_at(i, order),
            None => {
                proof {
                    lemma_table_push(self.orders@, order_key(), order);
                }
                self.orders.push(order);
            },
        }
    }

    fn replace_at(&mut self, i: usize, order: Order)
        requires
            old(self).wf(),
            i < old(self).orders@.len(),
            old(self).orders@[i as int].id@ == order.id@,
        ensures
            final(self).wf(),
            final(self)@ == old(self)@.insert(order.id@, order),
    {
        proof {
            lemma_table_update(self.orders@, order_key(), i as int, order);
        }
        self.orders.set(i, order);
    }

    fn set_state(&mut self, i: usize, state: OrderState)
        requires
            old(self).wf(),
            i < old(self).orders@.len(),
        ensures
            final(self).wf(),
            old(self)@.contains_key(old(self).orders@[i as int].id@),
            final(self)@ == old(self)@.insert(
                old(self).orders@[i as int].id@,
                order_in_state(old(self)@[old(self).orders@[i as int].id@], state),
            ),
    {
        proof {
            lemma_table_index(self.orders@, order_key(), i as int);
        }
        let o = &self.orders[i];
        let order = Order {
            id: o.id.clone(),
            state,
            data: o.data,
            filled_amount: o.filled_amount,
            created_at: o.created_at,
        };
        self.replace_at(i, order);
    }
}

/// No event makes the store forget an order.
pub proof fn law_orders_are_never_forgotten(orders: Map<Seq<char>, Order>, event: SolverEvent, id: Seq<char>)
    requires
        orders.contains_key(id),
        store_step(orders, event) is Ok,
    ensures
        store_step(orders, event)->Ok_0.contains_key(id),
{
}

/// The filled amount of an order never goes down, unless the order is
/// created again (which restarts it at zero).
pub proof fn law_filled_amount_never_decreases(orders: Map<Seq<char>, Order>, event: SolverEvent, id: Seq<char>)
    requires
        orders.contains_key(id),
        store_step(orders, event) is Ok,
        fill_fits(orders, event),
        !(event matches SolverEvent::OrderCreated(e) && e.order_id@ == id),
    ensures
        store_step(orders, event)->Ok_0[id].filled_amount >= orders[id].filled_amount,
{
}

/// An event changes at most the order it names; every other order stays
/// exactly as it was.
pub proof fn law_other_orders_untouched(orders: Map<Seq<char>, Order>, event: SolverEvent, id: Seq<char>)
    requires
        store_step(orders, event) is Ok,
        !(event_order_id_is(event, id)),
    ensures
        store_step(orders, event)->Ok_0.contains_key(id) == orders.contains_key(id),
        orders.contains_key(id) ==> store_step(orders, event)->Ok_0[id] == orders[id],
{
}

/// The event names the order `id`.
pub open spec fn event_order_id_is(event: SolverEvent, id: Seq<char>) -> bool {
    match crate::solver::events::event_order_id(event) {
        Some(s) => s@ == id,
        None => false,
    }
}

/// After a fill of a known order, the order is filled exactly when its
/// filled amount reaches the amount out, and partially filled otherwise.
pub proof fn law_fill_marks_filled_at_amount_out(orders: Map<Seq<char>, Order>, event: SolverEvent)
    requires
        event is OrderFill,
        orders.contains_key(event->OrderFill_0.order_id@),
        fill_fits(orders, event),
    ensures
        ({
            let id = event->OrderFill_0.order_id@;
            let after = store_step(orders, event)->Ok_0[id];
            &&& after.filled_amount == orders[id].filled_amount + event->OrderFill_0.amount
            &&& (after.state == OrderState::Filled) == (after.filled_amount >= orders[id].data.amount_out)
            &&& (after.state != OrderState::Filled ==> after.state == OrderState::PartiallyFilled)
        }),
{
}

} // verus!
