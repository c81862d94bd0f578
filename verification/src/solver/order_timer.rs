//! How long orders take: the start time of each open order, the time to
//! completion, and the orders open longer than the warning threshold.
use vstd::prelude::*;
use crate::solver::events::SolverEvent;
use crate::table::{
    keys_unique, lemma_table_absent, lemma_table_index, lemma_table_push, lemma_table_remove,
    lemma_table_update, lemma_values_insert, lemma_values_remove, table_map,
};

verus! {

/// Seconds after which an open order is reported.
pub const ORDER_WARNING_THRESHOLD_SECONDS: u64 = 7200;

/// An open order and when it was created.
#[derive(Debug, Clone)]
pub struct ActiveOrder {
    pub order_id: String,
    pub start_time: u64,
}

pub open spec fn active_key() -> spec_fn(ActiveOrder) -> Seq<char> {
    |a: ActiveOrder| a.order_id@
}

/// What the timer makes of an event.
#[derive(Debug, Clone, PartialEq, Eq)]
pub enum TimerOutcome {
    Nothing,
    /// Start the periodic check of open orders.
    StartPoller,
    /// Stop the periodic check.
    StopPoller,
    /// An order completed this many seconds after it was created.
    Completed(u64),
    /// An order completed whose creation the timer never saw.
    CompletedWithoutStart,
}

/// The start times of the open orders.
pub struct OrderTimer {
    active_orders: Vec<ActiveOrder>,
}

impl View for OrderTimer {
    type V = Map<Seq<char>, u64>;

    closed spec fn view(&self) -> Map<Seq<char>, u64> {
        table_map(self.active_orders@, active_key()).map_values(|a: ActiveOrder| a.start_time)
    }
}

/// A completion never comes before the creation of its order.
pub open spec fn timer_defined(active: Map<Seq<char>, u64>, event: SolverEvent) -> bool {
    match event {
        SolverEvent::OrderCompleted(e) => active.contains_key(e.order_id@) ==> active[e.order_id@]
            <= e.timestamp,
        _ => true,
    }
}

/// The timer after an event, and what it reports.
pub open spec fn timer_step(active: Map<Seq<char>, u64>, event: SolverEvent) -> (Map<Seq<char>, u64>, TimerOutcome) {
    match event {
        SolverEvent::OrderCreated(e) => (active.insert(e.order_id@, e.timestamp), TimerOutcome::Nothing),
        SolverEvent::OrderCompleted(e) => if active.contains_key(e.order_id@) {
            (
                active.remove(e.order_id@),
                TimerOutcome::Completed((e.timestamp - active[e.order_id@]) as u64),
            )
        } else {
            (active, TimerOutcome::CompletedWithoutStart)
        },
        SolverEvent::Start => (active, TimerOutcome::StartPoller),
        SolverEvent::Stop => (active, TimerOutcome::StopPoller),
        _ => (active, TimerOutcome::Nothing),
    }
}

/// The open orders older than the threshold at `now`, with their ages.
pub open spec fn overdue(active: Map<Seq<char>, u64>, now: u64) -> Map<Seq<char>, int> {
    Map::new(
        |k: Seq<char>| active.contains_key(k) && now - active[k] > ORDER_WARNING_THRESHOLD_SECONDS,
        |k: Seq<char>| now - active[k],
    )
}

impl OrderTimer {
    pub closed spec fn wf(&self) -> bool {
        keys_unique(self.active_orders@, active_key())
    }

    pub fn new() -> (timer: Self)
        ensures
            timer.wf(),
            timer@ == Map::<Seq<char>, u64>::empty(),
    {
        let timer = OrderTimer { active_orders: Vec::new() };
        proof {
            assert(timer@ =~= Map::<Seq<char>, u64>::empty());
        }
        timer
    }

    fn position(&self, order_id: &String) -> (pos: Option<usize>)
        requires
            self.wf(),
        ensures
            match pos {
                Some(i) => i < self.active_orders@.len() && self.active_orders@[i as int].order_id@
                    == order_id@ && self@.contains_key(order_id@) && self@[order_id@]
                    == self.active_orders@[i as int].start_time,
                None => !self@.contains_key(order_id@),
            },
    {
        let n = self.active_orders.len();
        for i in 0..n
            invariant
                n == self.active_orders@.len(),
                keys_unique(self.active_orders@, active_key()),
                forall|j: int| 0 <= j < i ==> #[trigger] active_key()(self.active_orders@[j]) != order_id@,
        {
            if self.active_orders[i].order_id == *order_id {
                proof {
                    lemma_table_index(self.active_orders@, active_key(), i as int);
                }
                return Some(i);
            }
        }
        proof {
            lemma_table_absent(self.active_orders@, active_key(), order_id@);
        }
        None
    }

    /// Whether `handle_event` can take `event` (see `timer_defined`).
    pub fn can_handle(&self, event: &SolverEvent) -> (ok: bool)
        requires
            self.wf(),
        ensures
            ok == timer_defined(self@, *event),
    {
        match event {
            SolverEvent::OrderCompleted(e) => match self.position(&e.order_id) {
                Some(i) => self.active_orders[i].start_time <= e.timestamp,
                None => true,
            },
            _ => true,
        }
    }

    /// Takes an event (see `timer_step`): a created order starts its clock,
    /// a completed one stops it and reports how long it took.
    pub fn handle_event(&mut self, event: &SolverEvent) -> (outcome: TimerOutcome)
        requires
            old(self).wf(),
            timer_defined(old(self)@, *event),
        ensures
            final(self).wf(),
            (final(self)@, outcome) == timer_step(old(self)@, *event),
    {
        match event {
            SolverEvent::OrderCreated(e) => {
                let entry = ActiveOrder { order_id: e.order_id.clone(), start_time: e.timestamp };
                proof {
                    lemma_values_insert(
                        table_map(self.active_orders@, active_key()),
                        entry.order_id@,
                        entry,
                        |a: ActiveOrder| a.start_time,
                    );
                }
                match self.position(&e.order_id) {
                    Some(i) => {
                        proof {
                            lemma_table_update(self.active_orders@, active_key(), i as int, entry);
                        }
                        self.active_orders.set(i, entry);
                    },
                    None => {
                        proof {
                            lemma_table_push(self.active_orders@, active_key(), entry);
                        }
                        self.active_orders.push(entry);
                    },
                }
                TimerOutcome::Nothing
            },
            SolverEvent::OrderCompleted(e) => match self.position(&e.order_id) {
                Some(i) => {
                    let duration = e.timestamp - self.active_orders[i].start_time;
                    proof {
                        lemma_table_remove(self.active_orders@, active_key(), i as int);
                        lemma_values_remove(
                            table_map(self.active_orders@, active_key()),
                            e.order_id@,
                            |a: ActiveOrder| a.start_time,
                        );
                    }
                    self.active_orders.remove(i);
                    TimerOutcome::Completed(duration)
                },
                None => TimerOutcome::CompletedWithoutStart,
            },
            SolverEvent::Start => TimerOutcome::StartPoller,
            SolverEvent::Stop => TimerOutcome::StopPoller,
            _ => TimerOutcome::Nothing,
        }
    }

    /// Whether every open order started at or before `now`.
    pub fn all_started_by(&self, now: u64) -> (ok: bool)
        requires
            self.wf(),
        ensures
            ok == forall|k: Seq<char>| self@.contains_key(k) ==> self@[k] <= now,
    {
        let n = self.active_orders.len();
        for i in 0..n
            invariant
                n == self.active_orders@.len(),
                keys_unique(self.active_orders@, active_key()),
                forall|j: int| 0 <= j < i ==> self.active_orders@[j].start_time <= now,
        {
            if self.active_orders[i].start_time > now {
                proof {
                    lemma_table_index(self.active_orders@, active_key(), i as int);
                    assert(self@.contains_key(self.active_orders@[i as int].order_id@));
                }
                return false;
            }
        }
        proof {
            assert forall|k: Seq<char>| self@.contains_key(k) implies self@[k] <= now by {
                let j = crate::table::key_position(self.active_orders@, active_key(), k);
                lemma_table_index(self.active_orders@, active_key(), j);
            }
        }
        true
    }

    /// The open orders older than the threshold at `now`, each with its age.
    pub fn overdue_orders(&self, now: u64) -> (late: Vec<(String, u64)>)
        requires
            self.wf(),
            forall|k: Seq<char>| self@.contains_key(k) ==> self@[k] <= now,
        ensures
            keys_unique(late@, |e: (String, u64)| e.0@),
            table_map(late@, |e: (String, u64)| e.0@).map_values(|e: (String, u64)| e.1 as int)
                == overdue(self@, now),
    {
        let n = self.active_orders.len();
        let mut late: Vec<(String, u64)> = Vec::new();
        let ghost key = |e: (String, u64)| e.0@;
        for i in 0..n
            invariant
                n == self.active_orders@.len(),
                keys_unique(self.active_orders@, active_key()),
                forall|k: Seq<char>| self@.contains_key(k) ==> self@[k] <= now,
                key == (|e: (String, u64)| e.0@),
                keys_unique(late@, key),
                forall|j: int|
                    0 <= j < late@.len() ==> {
                        &&& self@.contains_key(#[trigger] late@[j].0@)
                        &&& late@[j].1 == now - self@[late@[j].0@]
                        &&& now - self@[late@[j].0@] > ORDER_WARNING_THRESHOLD_SECONDS
                        &&& crate::table::key_position(self.active_orders@, active_key(), late@[j].0@) < i
                    },
                forall|k: int|
                    0 <= k < i && now - self.active_orders@[k].start_time
                        > ORDER_WARNING_THRESHOLD_SECONDS ==> crate::table::has_key(
                        late@,
                        key,
                        #[trigger] self.active_orders@[k].order_id@,
                    ),
        {
            let a = &self.active_orders[i];
            proof {
                lemma_table_index(self.active_orders@, active_key(), i as int);
                assert(self@.contains_key(self.active_orders@[i as int].order_id@));
                assert(self@[self.active_orders@[i as int].order_id@] == a.start_time);
            }
            let age = now - a.start_time;
            if age > ORDER_WARNING_THRESHOLD_SECONDS {
                let entry = (a.order_id.clone(), age);
                proof {
                    assert forall|j: int| 0 <= j < late@.len() implies #[trigger] key(late@[j])
                        != entry.0@ by {
                        if late@[j].0@ == entry.0@ {
                            assert(crate::table::key_position(self.active_orders@, active_key(), late@[j].0@)
                                == i);
                        }
                    }
                    lemma_table_absent(late@, key, entry.0@);
                    lemma_table_push(late@, key, entry);
                }
                let ghost before = late@;
                late.push(entry);
                proof {
                    assert forall|k: int|
                        0 <= k < i + 1 && now - self.active_orders@[k].start_time
                            > ORDER_WARNING_THRESHOLD_SECONDS implies crate::table::has_key(
                        late@,
                        key,
                        #[trigger] self.active_orders@[k].order_id@,
                    ) by {
                        if k < i {
                            let j = choose|j: int|
                                0 <= j < before.len() && #[trigger] key(before[j])
                                    == self.active_orders@[k].order_id@;
                            assert(late@[j] == before[j]);
                            assert(key(late@[j]) == self.active_orders@[k].order_id@);
                        } else {
                            assert(key(late@[before.len() as int]) == self.active_orders@[k].order_id@);
                        }
                    }
                }
            }
        }
        proof {
            let want = overdue(self@, now);
            let got = table_map(late@, key).map_values(|e: (String, u64)| e.1 as int);
            assert forall|k: Seq<char>| #[trigger] got.contains_key(k) == want.contains_key(k) by {
                if got.contains_key(k) {
                    let j = choose|j: int| 0 <= j < late@.len() && #[trigger] key(late@[j]) == k;
                    assert(late@[j].0@ == k);
                }
                if want.contains_key(k) {
                    let p = crate::table::key_position(self.active_orders@, active_key(), k);
                    lemma_table_index(self.active_orders@, active_key(), p);
                }
            }
            assert forall|k: Seq<char>| #[trigger] got.contains_key(k) implies got[k] == want[k] by {
                let j = crate::table::key_position(late@, key, k);
                lemma_table_index(late@, key, j);
            }
            assert(got =~= want);
        }
        late
    }
}

/// A completed order's clock is stopped: it is no longer open, and the
/// reported time is its completion time less its creation time.
pub proof fn law_completion_stops_the_clock(active: Map<Seq<char>, u64>, event: SolverEvent)
    requires
        event is OrderCompleted,
        active.contains_key(event->OrderCompleted_0.order_id@),
        timer_defined(active, event),
    ensures
        ({
            let e = event->OrderCompleted_0;
            let (after, outcome) = timer_step(active, event);
            &&& !after.contains_key(e.order_id@)
            &&& outcome == TimerOutcome::Completed((e.timestamp - active[e.order_id@]) as u64)
            &&& e.timestamp - active[e.order_id@] <= u64::MAX
        }),
{
}

} // verus!
