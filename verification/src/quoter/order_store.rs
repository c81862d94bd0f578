//! The orders the quoter has seen opened, by id and by sender.
use vstd::prelude::*;
use crate::table::{
    keys_unique, lemma_table_absent, lemma_table_index, lemma_table_push, lemma_table_update,
    table_map,
};
use crate::text::{lowercase, to_lowercase};

verus! {

/// An order taken from an order-opened event.
#[derive(Debug, Clone)]
pub struct TrackedOrder {
    pub order_id: String,
    pub origin_chain_id: u32,
    pub sender: String,
    pub token_in: String,
    pub amount_in: String,
    pub dest_chain_id: u32,
    pub token_out: String,
    pub amount_out: String,
    pub solver: String,
}

impl TrackedOrder {
    /// A copy of this order.
    pub fn duplicate(&self) -> (copy: Self)
        ensures
            copy == *self,
    {
        TrackedOrder {
            order_id: self.order_id.clone(),
            origin_chain_id: self.origin_chain_id,
            sender: self.sender.clone(),
            token_in: self.token_in.clone(),
            amount_in: self.amount_in.clone(),
            dest_chain_id: self.dest_chain_id,
            token_out: self.token_out.clone(),
            amount_out: self.amount_out.clone(),
            solver: self.solver.clone(),
        }
    }
}

/// The ids of the orders of one sender (its address in lower case), in the
/// order they were recorded.
#[derive(Debug)]
pub struct SenderOrders {
    pub sender: String,
    pub order_ids: Vec<String>,
}

pub open spec fn order_key() -> spec_fn(TrackedOrder) -> Seq<char> {
    |o: TrackedOrder| o.order_id@
}

pub open spec fn sender_key() -> spec_fn(SenderOrders) -> Seq<char> {
    |s: SenderOrders| s.sender@
}

/// The texts of a list of strings.
pub open spec fn texts(ids: Seq<String>) -> Seq<Seq<char>> {
    ids.map_values(|id: String| id@)
}

/// The value of the store: each order by id, and each sender's order ids.
pub struct OrderStoreView {
    pub orders: Map<Seq<char>, TrackedOrder>,
    pub by_sender: Map<Seq<char>, Seq<Seq<char>>>,
}

/// Tracks the orders opened on the order books.
pub struct OrderStore {
    orders: Vec<TrackedOrder>,
    by_sender: Vec<SenderOrders>,
}

impl View for OrderStore {
    type V = OrderStoreView;

    closed spec fn view(&self) -> OrderStoreView {
        OrderStoreView {
            orders: table_map(self.orders@, order_key()),
            by_sender: table_map(self.by_sender@, sender_key()).map_values(
                |s: SenderOrders| texts(s.order_ids@),
            ),
        }
    }
}

/// The ids a sender key lists, none where it lists nothing.
pub open spec fn ids_of(v: OrderStoreView, key: Seq<char>) -> Seq<Seq<char>> {
    if v.by_sender.contains_key(key) {
        v.by_sender[key]
    } else {
        Seq::empty()
    }
}

/// The orders of a list of ids, skipping ids the store does not have.
pub open spec fn found_orders(ids: Seq<Seq<char>>, orders: Map<Seq<char>, TrackedOrder>) -> Seq<TrackedOrder>
    decreases ids.len(),
{
    if ids.len() == 0 {
        Seq::empty()
    } else if orders.contains_key(ids.last()) {
        found_orders(ids.drop_last(), orders).push(orders[ids.last()])
    } else {
        found_orders(ids.drop_last(), orders)
    }
}

/// The store after recording `order`: it replaces any order with its id,
/// and its id is appended to the list of its sender (in lower case).
pub open spec fn after_insert(v: OrderStoreView, order: TrackedOrder) -> OrderStoreView {
    let key = lowercase(order.sender@);
    OrderStoreView {
        orders: v.orders.insert(order.order_id@, order),
        by_sender: v.by_sender.insert(key, ids_of(v, key).push(order.order_id@)),
    }
}

impl OrderStore {
    /// Each order and each sender is recorded once.
    pub closed spec fn wf(&self) -> bool {
        keys_unique(self.orders@, order_key()) && keys_unique(self.by_sender@, sender_key())
    }

    pub fn new() -> (store: Self)
        ensures
            store.wf(),
            store@.orders == Map::<Seq<char>, TrackedOrder>::empty(),
            store@.by_sender == Map::<Seq<char>, Seq<Seq<char>>>::empty(),
    {
        let store = OrderStore { orders: Vec::new(), by_sender: Vec::new() };
        proof {
            assert(store@.orders =~= Map::<Seq<char>, TrackedOrder>::empty());
            assert(store@.by_sender =~= Map::<Seq<char>, Seq<Seq<char>>>::empty());
        }
        store
    }

    fn order_position(&self, order_id: &str) -> (pos: Option<usize>)
        requires
            self.wf(),
        ensures
            match pos {
                Some(i) => i < self.orders@.len() && self.orders@[i as int].order_id@ == order_id@
                    && self@.orders.contains_key(order_id@) && self@.orders[order_id@]
                    == self.orders@[i as int],
                None => !self@.orders.contains_key(order_id@),
            },
    {
        let target = order_id.to_owned();
        let n = self.orders.len();
        for i in 0..n
            invariant
                n == self.orders@.len(),
                target@ == order_id@,
                keys_unique(self.orders@, order_key()),
                forall|j: int| 0 <= j < i ==> #[trigger] order_key()(self.orders@[j]) != order_id@,
        {
            if self.orders[i].order_id == target {
                proof {
                    lemma_table_index(self.orders@, order_key(), i as int);
                }
                return Some(i);
            }
        }
        proof {
            lemma_table_absent(self.orders@, order_key(), order_id@);
        }
        None
    }

    fn sender_position(&self, key: &String) -> (pos: Option<usize>)
        requires
            self.wf(),
        ensures
            match pos {
                Some(i) => i < self.by_sender@.len() && self.by_sender@[i as int].sender@ == key@
                    && self@.by_sender.contains_key(key@) && self@.by_sender[key@] == texts(
                    self.by_sender@[i as int].order_ids@,
                ),
                None => !self@.by_sender.contains_key(key@),
            },
    {
        let n = self.by_sender.len();
        for i in 0..n
            invariant
                n == self.by_sender@.len(),
                keys_unique(self.by_sender@, sender_key()),
                forall|j: int| 0 <= j < i ==> #[trigger] sender_key()(self.by_sender@[j]) != key@,
        {
            if self.by_sender[i].sender == *key {
                proof {
                    lemma_table_index(self.by_sender@, sender_key(), i as int);
                }
                return Some(i);
            }
        }
        proof {
            lemma_table_absent(self.by_sender@, sender_key(), key@);
        }
        None
    }

    /// Records an order under its id and under its sender's address in
    /// lower case (see `after_insert`).
    pub fn insert_order(&mut self, order: TrackedOrder)
        requires
            old(self).wf(),
        ensures
            final(self).wf(),
            final(self)@ == after_insert(old(self)@, order),
    {
        let ghost v = self@;
        let order_id = order.order_id.clone();
        let key = to_lowercase(order.sender.as_str());
        let ghost entry = order;
        match self.order_position(order.order_id.as_str()) {
            Some(i) => {
                proof {
                    lemma_table_update(self.orders@, order_key(), i as int, order);
                }
                self.orders.set(i, order);
            },
            None => {
                proof {
                    lemma_table_push(self.orders@, order_key(), order);
                }
                self.orders.push(order);
            },
        }
        match self.sender_position(&key) {
            Some(i) => {
                let mut ids: Vec<String> = Vec::new();
                let n = self.by_sender[i].order_ids.len();
                for j in 0..n
                    invariant
                        i < self.by_sender@.len(),
                        n == self.by_sender@[i as int].order_ids@.len(),
                        ids@ == self.by_sender@[i as int].order_ids@.subrange(0, j as int),
                {
                    ids.push(self.by_sender[i].order_ids[j].clone());
                    proof {
                        assert(self.by_sender@[i as int].order_ids@.subrange(0, j + 1)
                            =~= self.by_sender@[i as int].order_ids@.subrange(0, j as int).push(
                            self.by_sender@[i as int].order_ids@[j as int],
                        ));
                    }
                }
                proof {
                    assert(self.by_sender@[i as int].order_ids@.subrange(0, n as int)
                        =~= self.by_sender@[i as int].order_ids@);
                }
                let ghost before = ids@;
                ids.push(order_id);
                let updated = SenderOrders { sender: key, order_ids: ids };
                proof {
                    assert(texts(updated.order_ids@) =~= texts(before).push(entry.order_id@));
                    lemma_table_update(self.by_sender@, sender_key(), i as int, updated);
                    crate::table::lemma_values_insert(
                        table_map(self.by_sender@, sender_key()),
                        updated.sender@,
                        updated,
                        |s: SenderOrders| texts(s.order_ids@),
                    );
                }
                self.by_sender.set(i, updated);
            },
            None => {
                let mut ids: Vec<String> = Vec::new();
                ids.push(order_id);
                let added = SenderOrders { sender: key, order_ids: ids };
                proof {
                    assert(texts(added.order_ids@) =~= Seq::<Seq<char>>::empty().push(entry.order_id@));
                    lemma_table_push(self.by_sender@, sender_key(), added);
                    crate::table::lemma_values_insert(
                        table_map(self.by_sender@, sender_key()),
                        added.sender@,
                        added,
                        |s: SenderOrders| texts(s.order_ids@),
                    );
                }
                self.by_sender.push(added);
            },
        }
        proof {
            assert(self@.orders == v.orders.insert(entry.order_id@, entry));
        }
    }

    /// Every order, each once.
    pub fn get_all_orders(&self) -> (orders: Vec<TrackedOrder>)
        requires
            self.wf(),
        ensures
            keys_unique(orders@, order_key()),
            table_map(orders@, order_key()) == self@.orders,
    {
        let n = self.orders.len();
        let mut out: Vec<TrackedOrder> = Vec::new();
        for i in 0..n
            invariant
                n == self.orders@.len(),
                out@ == self.orders@.subrange(0, i as int),
        {
            out.push(self.orders[i].duplicate());
            proof {
                assert(self.orders@.subrange(0, i + 1) =~= self.orders@.subrange(0, i as int).push(
                    self.orders@[i as int],
                ));
            }
        }
        proof {
            assert(self.orders@.subrange(0, n as int) =~= self.orders@);
        }
        out
    }

    /// The orders of a sender, the address compared in lower case, in the
    /// order they were recorded.
    pub fn get_orders_by_sender(&self, sender: &str) -> (orders: Vec<TrackedOrder>)
        requires
            self.wf(),
        ensures
            orders@ == found_orders(ids_of(self@, lowercase(sender@)), self@.orders),
    {
        let key = to_lowercase(sender);
        match self.sender_position(&key) {
            None => {
                proof {
                    assert(ids_of(self@, key@) =~= Seq::<Seq<char>>::empty());
                }
                Vec::new()
            },
            Some(i) => {
                let ids = &self.by_sender[i].order_ids;
                let n = ids.len();
                let mut out: Vec<TrackedOrder> = Vec::new();
                for j in 0..n
                    invariant
                        self.wf(),
                        n == ids@.len(),
                        out@ == found_orders(texts(ids@.subrange(0, j as int)), self@.orders),
                {
                    proof {
                        assert(texts(ids@.subrange(0, j + 1)).drop_last() =~= texts(
                            ids@.subrange(0, j as int),
                        ));
                    }
                    match self.order_position(ids[j].as_str()) {
                        Some(p) => out.push(self.orders[p].duplicate()),
                        None => {},
                    }
                }
                proof {
                    assert(ids@.subrange(0, n as int) =~= ids@);
                }
                out
            },
        }
    }

    /// The order with this id, if the store has it.
    pub fn get_order(&self, order_id: &str) -> (order: Option<TrackedOrder>)
        requires
            self.wf(),
        ensures
            match order {
                Some(o) => self@.orders.contains_key(order_id@) && o == self@.orders[order_id@],
                None => !self@.orders.contains_key(order_id@),
            },
    {
        match self.order_position(order_id) {
            Some(i) => Some(self.orders[i].duplicate()),
            None => None,
        }
    }

    /// Whether the store has the order with this id.
    pub fn has_order(&self, order_id: &str) -> (found: bool)
        requires
            self.wf(),
        ensures
            found == self@.orders.contains_key(order_id@),
    {
        self.order_position(order_id).is_some()
    }
}

/// What was recorded is read back: after an order is inserted, looking up
/// its id gives exactly that order.
pub proof fn law_insert_then_get(v: OrderStoreView, order: TrackedOrder)
    ensures
        after_insert(v, order).orders.contains_key(order.order_id@),
        after_insert(v, order).orders[order.order_id@] == order,
{
}

/// An inserted order is listed last among the orders of its sender, for
/// every spelling of the sender's address that lower-cases alike.
pub proof fn law_insert_then_listed_by_sender(v: OrderStoreView, order: TrackedOrder, query: Seq<char>)
    requires
        lowercase(query) == lowercase(order.sender@),
    ensures
        ({
            let w = after_insert(v, order);
            let listed = found_orders(ids_of(w, lowercase(query)), w.orders);
            listed.len() > 0 && listed.last() == order
        }),
{
    let w = after_insert(v, order);
    let ids = ids_of(w, lowercase(query));
    assert(ids.drop_last() =~= ids_of(v, lowercase(query)));
}

/// Inserting an order leaves the other orders, and the lists of the other
/// senders, as they were.
pub proof fn law_insert_keeps_others(v: OrderStoreView, order: TrackedOrder, id: Seq<char>, key: Seq<char>)
    requires
        id != order.order_id@,
        key != lowercase(order.sender@),
    ensures
        after_insert(v, order).orders.contains_key(id) == v.orders.contains_key(id),
        v.orders.contains_key(id) ==> after_insert(v, order).orders[id] == v.orders[id],
        ids_of(after_insert(v, order), key) == ids_of(v, key),
{
}

} // verus!
