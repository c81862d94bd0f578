//! Verified core of the M0 liquidity delivery solver and quoter: order
//! encoding and identifiers, the order, asset, balance and hold ledgers,
//! the order-processing and inventory decisions, and the byte formats that
//! the on-chain programs emit.
use vstd::prelude::*;

pub mod bytes;
pub mod hashing;
pub mod order_book;
pub mod table;
pub mod text;
pub mod solver;
pub mod quoter;
pub mod substreams;
pub mod contract_events;
pub mod program_data;
pub mod emitted_events;

verus! {

} // verus!
