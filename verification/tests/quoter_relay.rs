use liquidity_delivery::quoter::models::{QuoteRequest, QuoteResponse};
use liquidity_delivery::quoter::quote_relay::{proto_request, QuoteCollectors};
use liquidity_delivery::solver::quote_stream::QuoteResponseProto;

fn answer(request_id: &str, quote_id: &str, output: u64) -> QuoteResponseProto {
    QuoteResponseProto {
        request_id: request_id.to_string(),
        quote_id: quote_id.to_string(),
        fee_bps: 5,
        output_amount: output,
        est_fill_time_seconds: 60,
        expires_at: String::new(),
        rejected: false,
        reject_reason: String::new(),
        solver_address: "0xsolver".to_string(),
        requires_exclusivity: false,
    }
}

#[test]
fn requests_go_out_under_their_id() {
    let r = QuoteRequest {
        input_token: "0xin".to_string(),
        input_chain_id: 1,
        output_token: "0xout".to_string(),
        output_chain_id: 10,
        amount_in: 42,
        sender_address: None,
        recipient: None,
    };
    let p = proto_request("id-1".to_string(), r);
    assert_eq!(p.request_id, "id-1");
    assert_eq!((p.input_token.as_str(), p.output_token.as_str()), ("0xin", "0xout"));
    assert_eq!((p.input_chain_id, p.output_chain_id, p.amount_in), (1, 10, 42));
}

#[test]
fn answers_become_quotes() {
    let q = QuoteResponse::from_proto(answer("r", "q", 7));
    assert_eq!(q.quote_id, "q");
    assert_eq!(q.output_amount, 7);
    assert_eq!(q.fee_bps, 5);
    assert_eq!(q.solver_address, "0xsolver");
}

#[test]
fn answers_are_collected_while_the_request_is_open() {
    let mut c = QuoteCollectors::new();
    let a = "a".to_string();
    let b = "b".to_string();
    assert!(!c.route(answer("a", "early", 1)));
    c.open_request(a.clone());
    c.open_request(b.clone());
    assert!(c.is_open(&a));
    assert!(c.route(answer("a", "q1", 10)));
    assert!(c.route(answer("b", "q2", 20)));
    assert!(c.route(answer("a", "q3", 30)));
    assert!(!c.route(answer("z", "q4", 40)));
    let got: Vec<String> = c.close_request(&a).into_iter().map(|q| q.quote_id).collect();
    assert_eq!(got, vec!["q1".to_string(), "q3".to_string()]);
    assert!(!c.is_open(&a));
    assert!(!c.route(answer("a", "late", 50)));
    assert!(c.close_request(&a).is_empty());
    assert_eq!(c.close_request(&b).len(), 1);
}
