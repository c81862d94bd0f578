//! The quoter: it tracks the orders opened on the order books, serves them
//! by sender, and builds the transactions that open new orders.
pub mod order_id;
pub mod transactions;
pub mod config;
pub mod order_store;
pub mod tracking;
pub mod models;
pub mod api;
pub mod quote_relay;
