//! The quote messages the quoter relays between clients and solvers.
use vstd::prelude::*;

verus! {

/// A client's request for quotes.
#[derive(Debug, Clone)]
pub struct QuoteRequest {
    pub input_token: String,
    pub input_chain_id: u32,
    pub output_token: String,
    pub output_chain_id: u32,
    pub amount_in: u64,
    /// The wallet that will open the order, when the client wants the
    /// transactions built.
    pub sender_address: Option<String>,
    /// Where the output goes; the sender when absent.
    pub recipient: Option<String>,
}

/// A solver's quote as the quoter returns it.
#[derive(Debug, Clone)]
pub struct QuoteResponse {
    pub quote_id: String,
    pub fee_bps: u32,
    pub output_amount: u64,
    pub est_fill_time_seconds: u64,
    pub expires_at: String,
    pub rejected: bool,
    pub reject_reason: String,
    pub solver_address: String,
    pub requires_exclusivity: bool,
}

} // verus!
