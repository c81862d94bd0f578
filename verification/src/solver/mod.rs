//! The solver: it watches the order books, decides which orders to fill,
//! reserves inventory for them and tracks their life cycle.
pub mod assets;
pub mod error;
pub mod events;

pub mod order_store;
pub mod config;
pub mod asset_store;
pub mod order_processor;
pub mod inventory;
pub mod log_poller;
pub mod program_events;
pub mod balance_store;
pub mod order_timer;
pub mod api;
pub mod writers;
pub mod chain_events;
pub mod evm_logs;
pub mod quote_stream;
