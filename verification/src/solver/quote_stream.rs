//! The solver's side of the quoter's quote stream: which requests it puts
//! on the event bus, and the answers it sends back.
use vstd::prelude::*;
use vstd::utf8::encode_utf8;
use crate::solver::asset_store::{asset_address_key, parse_asset_address};
use crate::solver::events::{QuoteRequest, QuoteResponse, RequestQuoteEvent};

verus! {

/// A quote request as the stream delivers it.
#[derive(Debug, Clone)]
pub struct QuoteRequestProto {
    pub request_id: String,
    pub input_token: String,
    pub input_chain_id: u32,
    pub output_token: String,
    pub output_chain_id: u32,
    pub amount_in: u64,
}

/// An answer as the stream takes it.
#[derive(Debug, Clone)]
pub struct QuoteResponseProto {
    pub request_id: String,
    pub quote_id: String,
    pub fee_bps: u32,
    pub output_amount: u64,
    pub est_fill_time_seconds: u64,
    pub expires_at: String,
    pub rejected: bool,
    pub reject_reason: String,
    pub solver_address: String,
    pub requires_exclusivity: bool,
}

/// A rejection of a request, under a fresh quote id.
pub fn rejection(request_id: String, quote_id: String, reason: &str) -> (r: QuoteResponseProto)
    ensures
        r.request_id == request_id,
        r.quote_id == quote_id,
        r.rejected,
        r.reject_reason@ == reason@,
        r.fee_bps == 0,
        r.output_amount == 0,
        r.est_fill_time_seconds == 0,
        r.expires_at@.len() == 0,
        r.solver_address@.len() == 0,
        !r.requires_exclusivity,
{
    QuoteResponseProto {
        request_id,
        quote_id,
        fee_bps: 0,
        output_amount: 0,
        est_fill_time_seconds: 0,
        expires_at: String::new(),
        rejected: true,
        reject_reason: reason.to_owned(),
        solver_address: String::new(),
        requires_exclusivity: false,
    }
}

/// The event a stream request becomes, or why it is rejected: both tokens
/// must decode as addresses of their chains (hexadecimal EVM addresses,
/// base58 Solana keys).
pub open spec fn admitted(r: QuoteRequestProto, result: Result<RequestQuoteEvent, &str>) -> bool {
    match asset_address_key(r.input_chain_id, encode_utf8(r.input_token@)) {
        None => result matches Err(m) && m@ == "Invalid input token"@,
        Some(input) => match asset_address_key(r.output_chain_id, encode_utf8(r.output_token@)) {
            None => result matches Err(m) && m@ == "Invalid output token"@,
            Some(output) => result matches Ok(e) && e.id == r.request_id && e.parsed_input_token@
                == input && e.parsed_output_token@ == output && e.request.input_token == r.input_token
                && e.request.input_chain_id == r.input_chain_id && e.request.output_token
                == r.output_token && e.request.output_chain_id == r.output_chain_id
                && e.request.amount_in == r.amount_in,
        },
    }
}

/// Turns a stream request into a quote-request event (see `admitted`).
pub fn admit_quote_request(r: QuoteRequestProto) -> (result: Result<RequestQuoteEvent, &'static str>)
    ensures
        admitted(r, result),
{
    let input = match parse_asset_address(r.input_chain_id, r.input_token.as_str()) {
        Some(k) => k,
        None => return Err("Invalid input token"),
    };
    let output = match parse_asset_address(r.output_chain_id, r.output_token.as_str()) {
        Some(k) => k,
        None => return Err("Invalid output token"),
    };
    Ok(
        RequestQuoteEvent {
            request: QuoteRequest {
                input_token: r.input_token,
                input_chain_id: r.input_chain_id,
                output_token: r.output_token,
                output_chain_id: r.output_chain_id,
                amount_in: r.amount_in,
            },
            id: r.request_id,
            parsed_input_token: input,
            parsed_output_token: output,
        },
    )
}

/// The answer sent back for a request: the solver's quote, with an absent
/// rejection reason sent as an empty text.
pub fn response_proto(request_id: String, quote: QuoteResponse) -> (r: QuoteResponseProto)
    ensures
        r.request_id == request_id,
        r.quote_id == quote.quote_id,
        r.fee_bps == quote.fee_bps,
        r.output_amount == quote.output_amount,
        r.est_fill_time_seconds == quote.est_fill_time_seconds,
        r.expires_at == quote.expires_at,
        r.rejected == quote.rejected,
        r.reject_reason@ == match quote.reject_reason {
            Some(m) => m@,
            None => Seq::<char>::empty(),
        },
        r.solver_address == quote.solver_address,
        r.requires_exclusivity == quote.requires_exclusivity,
{
    QuoteResponseProto {
        request_id,
        quote_id: quote.quote_id,
        fee_bps: quote.fee_bps,
        output_amount: quote.output_amount,
        est_fill_time_seconds: quote.est_fill_time_seconds,
        expires_at: quote.expires_at,
        rejected: quote.rejected,
        reject_reason: match quote.reject_reason {
            Some(m) => m,
            None => String::new(),
        },
        solver_address: quote.solver_address,
        requires_exclusivity: quote.requires_exclusivity,
    }
}

} // verus!
