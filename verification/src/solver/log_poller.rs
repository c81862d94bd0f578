//! The EVM listener's bookkeeping: which block range each poll of a chain
//! asks for, and which logs were already published (a log arrives both on
//! the live subscription and in the polls).
use vstd::prelude::*;
use crate::quoter::transactions::{address_error_text, evm_address, parse_evm_address};
use crate::solver::assets::{chain_runtime, runtime_of, ChainRuntime};
use crate::solver::config::{ChainConfig, Network};
use crate::solver::error::SolverError;
use crate::table::{
    keys_unique, lemma_table_absent, lemma_table_index, lemma_table_push, lemma_table_update,
    lemma_values_insert, table_map,
};

verus! {

/// How many blocks the first poll of a chain reaches back.
pub const FIRST_POLL_DEPTH: u64 = 1000;

/// The milliseconds between two polls: one second on a local network,
/// five elsewhere.
pub fn polling_interval_ms(network: Network) -> (ms: u64)
    ensures
        ms == (if network == Network::Local {
            1000u64
        } else {
            5000u64
        }),
{
    match network {
        Network::Local => 1000,
        _ => 5000,
    }
}

/// The blocks a poll asks for when the chain's head is `head`: from the
/// block after the last one polled (or `FIRST_POLL_DEPTH` blocks back on
/// the first poll) up to the head; nothing when no block is new.
pub open spec fn poll_range_of(last_polled: Option<u64>, head: u64) -> Option<(u64, u64)> {
    let from = match last_polled {
        Some(b) => b,
        None => if head >= FIRST_POLL_DEPTH {
            (head - FIRST_POLL_DEPTH) as u64
        } else {
            0u64
        },
    };
    if from >= head {
        None
    } else {
        Some(((from + 1) as u64, head))
    }
}

/// The blocks a poll asks for (see `poll_range_of`).
pub fn poll_range(last_polled: Option<u64>, head: u64) -> (range: Option<(u64, u64)>)
    ensures
        range == poll_range_of(last_polled, head),
{
    let from = match last_polled {
        Some(b) => b,
        None => head.saturating_sub(FIRST_POLL_DEPTH),
    };
    if from >= head {
        None
    } else {
        Some((from + 1, head))
    }
}

/// A log: its chain, block number and index in the block.
pub type LogKey = (u32, u64, u64);

pub open spec fn polled_key() -> spec_fn((u32, u64)) -> u32 {
    |e: (u32, u64)| e.0
}

/// The poller's state: the logs seen so far and the last block polled on
/// each chain.
pub struct LogPollerView {
    pub seen: Set<LogKey>,
    pub last_polled: Map<u32, u64>,
}

/// The logs seen so far, and the last block polled on each chain.
pub struct LogPoller {
    seen: Vec<LogKey>,
    last_polled: Vec<(u32, u64)>,
}

impl View for LogPoller {
    type V = LogPollerView;

    closed spec fn view(&self) -> LogPollerView {
        LogPollerView {
            seen: Set::new(|k: LogKey| self.seen@.contains(k)),
            last_polled: table_map(self.last_polled@, polled_key()).map_values(|e: (u32, u64)| e.1),
        }
    }
}

/// The last block polled on a chain, if any.
pub open spec fn last_polled_on(v: LogPollerView, chain_id: u32) -> Option<u64> {
    if v.last_polled.contains_key(chain_id) {
        Some(v.last_polled[chain_id])
    } else {
        None
    }
}

impl LogPoller {
    pub closed spec fn wf(&self) -> bool {
        keys_unique(self.last_polled@, polled_key())
    }

    /// A poller that has seen nothing and polled nothing.
    pub fn new() -> (p: Self)
        ensures
            p.wf(),
            p@.seen == Set::<LogKey>::empty(),
            p@.last_polled == Map::<u32, u64>::empty(),
    {
        let p = LogPoller { seen: Vec::new(), last_polled: Vec::new() };
        proof {
            assert(p@.seen =~= Set::<LogKey>::empty());
            assert(p@.last_polled =~= Map::<u32, u64>::empty());
        }
        p
    }

    fn polled_position(&self, chain_id: u32) -> (pos: Option<usize>)
        requires
            self.wf(),
        ensures
            match pos {
                Some(i) => i < self.last_polled@.len() && self.last_polled@[i as int].0 == chain_id
                    && last_polled_on(self@, chain_id) == Some(self.last_polled@[i as int].1),
                None => last_polled_on(self@, chain_id) is None,
            },
    {
        let n = self.last_polled.len();
        for i in 0..n
            invariant
                n == self.last_polled@.len(),
                keys_unique(self.last_polled@, polled_key()),
                forall|j: int| 0 <= j < i ==> #[trigger] polled_key()(self.last_polled@[j]) != chain_id,
        {
            if self.last_polled[i].0 == chain_id {
                proof {
                    lemma_table_index(self.last_polled@, polled_key(), i as int);
                }
                return Some(i);
            }
        }
        proof {
            lemma_table_absent(self.last_polled@, polled_key(), chain_id);
        }
        None
    }

    /// The last block polled on a chain, if any.
    pub fn last_polled(&self, chain_id: u32) -> (block: Option<u64>)
        requires
            self.wf(),
        ensures
            block == last_polled_on(self@, chain_id),
    {
        match self.polled_position(chain_id) {
            Some(i) => Some(self.last_polled[i].1),
            None => None,
        }
    }

    /// The blocks the next poll of a chain asks for.
    pub fn next_range(&self, chain_id: u32, head: u64) -> (range: Option<(u64, u64)>)
        requires
            self.wf(),
        ensures
            range == poll_range_of(last_polled_on(self@, chain_id), head),
    {
        poll_range(self.last_polled(chain_id), head)
    }

    /// Records that a chain was polled up to `block`.
    pub fn record_polled(&mut self, chain_id: u32, block: u64)
        requires
            old(self).wf(),
        ensures
            final(self).wf(),
            final(self)@.seen == old(self)@.seen,
            final(self)@.last_polled == old(self)@.last_polled.insert(chain_id, block),
    {
        let entry = (chain_id, block);
        proof {
            lemma_values_insert(
                table_map(self.last_polled@, polled_key()),
                chain_id,
                entry,
                |e: (u32, u64)| e.1,
            );
        }
        match self.polled_position(chain_id) {
            Some(i) => {
                proof {
                    lemma_table_update(self.last_polled@, polled_key(), i as int, entry);
                }
                self.last_polled.set(i, entry);
            },
            None => {
                proof {
                    lemma_table_push(self.last_polled@, polled_key(), entry);
                }
                self.last_polled.push(entry);
            },
        }
    }

    /// Whether a log was seen before.
    pub fn has_seen(&self, log: LogKey) -> (seen: bool)
        ensures
            seen == self@.seen.contains(log),
    {
        let n = self.seen.len();
        for i in 0..n
            invariant
                n == self.seen@.len(),
                forall|j: int| 0 <= j < i ==> self.seen@[j] != log,
        {
            let s = self.seen[i];
            if s.0 == log.0 && s.1 == log.1 && s.2 == log.2 {
                proof {
                    assert(self.seen@[i as int] == log);
                }
                return true;
            }
        }
        false
    }

    /// Marks a log as seen; true when it was not seen before (it is then to
    /// be published), false when it was.
    pub fn first_sighting(&mut self, log: LogKey) -> (fresh: bool)
        requires
            old(self).wf(),
        ensures
            final(self).wf(),
            fresh == !old(self)@.seen.contains(log),
            final(self)@.seen == old(self)@.seen.insert(log),
            final(self)@.last_polled == old(self)@.last_polled,
    {
        if self.has_seen(log) {
            proof {
                assert(self@.seen.insert(log) =~= self@.seen);
            }
            return false;
        }
        let ghost before = self.seen@;
        self.seen.push(log);
        proof {
            assert forall|k: LogKey| #[trigger] self.seen@.contains(k) == (before.contains(k) || k == log) by {
                if self.seen@.contains(k) {
                    let j = choose|j: int| 0 <= j < self.seen@.len() && self.seen@[j] == k;
                    if j < before.len() {
                        assert(before[j] == k);
                    }
                }
                if before.contains(k) {
                    let j = choose|j: int| 0 <= j < before.len() && before[j] == k;
                    assert(self.seen@[j] == k);
                }
                if k == log {
                    assert(self.seen@[before.len() as int] == k);
                }
            }
            assert(self@.seen =~= old(self)@.seen.insert(log));
        }
        true
    }
}

/// Each log is published once: after a log's first sighting, every later
/// sighting of it reports it as seen.
pub proof fn law_log_published_once(v: LogPollerView, w: LogPollerView, log: LogKey)
    requires
        w.seen == v.seen.insert(log),
    ensures
        w.seen.contains(log),
{
}

/// Polls of a chain do not overlap and leave no gap: once a chain has been
/// polled up to `block`, the next poll starts at the block after it.
pub proof fn law_polls_continue_where_they_stopped(v: LogPollerView, chain_id: u32, block: u64, head: u64)
    requires
        head > block,
    ensures
        poll_range_of(
            last_polled_on(LogPollerView { last_polled: v.last_polled.insert(chain_id, block), ..v }, chain_id),
            head,
        ) == Some(((block + 1) as u64, head)),
{
}

/// The order book an EVM listener watches on a chain: none on a chain that
/// is not EVM; the configured address, which must parse.
pub fn listener_contract(chain: &ChainConfig) -> (contract: Result<Option<[u8; 20]>, SolverError>)
    ensures
        runtime_of(chain.chain_id) != ChainRuntime::Evm ==> contract == Ok::<
            Option<[u8; 20]>,
            SolverError,
        >(None),
        runtime_of(chain.chain_id) == ChainRuntime::Evm ==> match evm_address(
            chain.order_book_address@,
        ) {
            Some(a) => contract matches Ok(Some(c)) && c@ == a,
            None => contract matches Err(SolverError::Component(m)) && m@ == "Invalid contract address: "@
                + address_error_text(chain.order_book_address@),
        },
{
    if chain_runtime(chain.chain_id) != ChainRuntime::Evm {
        return Ok(None);
    }
    match parse_evm_address(chain.order_book_address.as_str()) {
        Ok(a) => Ok(Some(a)),
        Err(e) => Err(SolverError::Component(String::from_str("Invalid contract address: ").concat(e.as_str()))),
    }
}

} // verus!
