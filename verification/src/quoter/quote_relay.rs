//! The quoter's relay of quote requests to the solvers' streams: each
//! request goes out under a fresh id, and the answers that carry that id
//! are collected until the request is closed.
use vstd::prelude::*;
use crate::quoter::models::{QuoteRequest, QuoteResponse};
use crate::solver::quote_stream::{QuoteRequestProto, QuoteResponseProto};

verus! {

/// The stream message of a client's request, under the id `request_id`.
pub fn proto_request(request_id: String, request: QuoteRequest) -> (p: QuoteRequestProto)
    ensures
        p.request_id == request_id,
        p.input_token == request.input_token,
        p.input_chain_id == request.input_chain_id,
        p.output_token == request.output_token,
        p.output_chain_id == request.output_chain_id,
        p.amount_in == request.amount_in,
{
    QuoteRequestProto {
        request_id,
        input_token: request.input_token,
        input_chain_id: request.input_chain_id,
        output_token: request.output_token,
        output_chain_id: request.output_chain_id,
        amount_in: request.amount_in,
    }
}

impl QuoteResponse {
    /// The quote a solver's stream answer carries (every field but the
    /// request id).
    pub fn from_proto(proto: QuoteResponseProto) -> (q: QuoteResponse)
        ensures
            q.quote_id == proto.quote_id,
            q.fee_bps == proto.fee_bps,
            q.output_amount == proto.output_amount,
            q.est_fill_time_seconds == proto.est_fill_time_seconds,
            q.expires_at == proto.expires_at,
            q.rejected == proto.rejected,
            q.reject_reason == proto.reject_reason,
            q.solver_address == proto.solver_address,
            q.requires_exclusivity == proto.requires_exclusivity,
    {
        QuoteResponse {
            quote_id: proto.quote_id,
            fee_bps: proto.fee_bps,
            output_amount: proto.output_amount,
            est_fill_time_seconds: proto.est_fill_time_seconds,
            expires_at: proto.expires_at,
            rejected: proto.rejected,
            reject_reason: proto.reject_reason,
            solver_address: proto.solver_address,
            requires_exclusivity: proto.requires_exclusivity,
        }
    }
}

/// The requests still collecting answers, each with the answers so far.
pub struct QuoteCollectors {
    open: Vec<(String, Vec<QuoteResponse>)>,
}

/// The collected answers of each open request, by request id.
pub open spec fn collected_of(entries: Seq<(String, Vec<QuoteResponse>)>) -> Map<Seq<char>, Seq<QuoteResponse>> {
    Map::new(
        |id: Seq<char>| exists|i: int| 0 <= i < entries.len() && #[trigger] entries[i].0@ == id,
        |id: Seq<char>|
            entries[choose|i: int| 0 <= i < entries.len() && #[trigger] entries[i].0@ == id].1@,
    )
}

/// No request id is open twice.
pub open spec fn ids_unique(entries: Seq<(String, Vec<QuoteResponse>)>) -> bool {
    forall|i: int, j: int|
        0 <= i < entries.len() && 0 <= j < entries.len() && #[trigger] entries[i].0@
            == #[trigger] entries[j].0@ ==> i == j
}

impl View for QuoteCollectors {
    type V = Map<Seq<char>, Seq<QuoteResponse>>;

    closed spec fn view(&self) -> Map<Seq<char>, Seq<QuoteResponse>> {
        collected_of(self.open@)
    }
}

impl QuoteCollectors {
    pub closed spec fn wf(&self) -> bool {
        ids_unique(self.open@)
    }

    /// No request is open.
    pub fn new() -> (c: Self)
        ensures
            c.wf(),
            c@ == Map::<Seq<char>, Seq<QuoteResponse>>::empty(),
    {
        let c = QuoteCollectors { open: Vec::new() };
        proof {
            assert(c@ =~= Map::<Seq<char>, Seq<QuoteResponse>>::empty());
        }
        c
    }

    fn position(&self, request_id: &String) -> (pos: Option<usize>)
        requires
            self.wf(),
        ensures
            match pos {
                Some(i) => i < self.open@.len() && self.open@[i as int].0@ == request_id@
                    && self@.contains_key(request_id@) && self@[request_id@]
                    == self.open@[i as int].1@,
                None => !self@.contains_key(request_id@),
            },
    {
        let n = self.open.len();
        for i in 0..n
            invariant
                n == self.open@.len(),
                ids_unique(self.open@),
                forall|j: int| 0 <= j < i ==> #[trigger] self.open@[j].0@ != request_id@,
        {
            if self.open[i].0 == *request_id {
                proof {
                    assert(self.open@[i as int].0@ == request_id@);
                    let k = choose|k: int| 0 <= k < self.open@.len() && #[trigger] self.open@[k].0@
                        == request_id@;
                    assert(k == i);
                }
                return Some(i);
            }
        }
        None
    }

    /// Whether answers to `request_id` are being collected.
    pub fn is_open(&self, request_id: &String) -> (open: bool)
        requires
            self.wf(),
        ensures
            open == self@.contains_key(request_id@),
    {
        self.position(request_id).is_some()
    }

    /// Starts collecting answers to `request_id` (a request already open
    /// keeps what it collected).
    pub fn open_request(&mut self, request_id: String)
        requires
            old(self).wf(),
        ensures
            final(self).wf(),
            old(self)@.contains_key(request_id@) ==> final(self)@ == old(self)@,
            !old(self)@.contains_key(request_id@) ==> final(self)@ == old(self)@.insert(
                request_id@,
                Seq::<QuoteResponse>::empty(),
            ),
    {
        if self.position(&request_id).is_some() {
            return;
        }
        let ghost before = self.open@;
        let ghost id = request_id@;
        self.open.push((request_id, Vec::new()));
        proof {
            let after = self.open@;
            let n = before.len() as int;
            assert(after[n].0@ == id);
            assert forall|i: int, j: int|
                0 <= i < after.len() && 0 <= j < after.len() && #[trigger] after[i].0@
                    == #[trigger] after[j].0@ implies i == j by {
                if i < n && j < n {
                    assert(before[i].0@ == before[j].0@);
                } else if i < n {
                    assert(before[i].0@ == id);
                    assert(collected_of(before).contains_key(id));
                } else if j < n {
                    assert(before[j].0@ == id);
                    assert(collected_of(before).contains_key(id));
                }
            }
            let want = collected_of(before).insert(id, Seq::<QuoteResponse>::empty());
            assert forall|k: Seq<char>| #[trigger] collected_of(after).contains_key(k) == want.contains_key(k) by {
                if collected_of(after).contains_key(k) {
                    let i = choose|i: int| 0 <= i < after.len() && #[trigger] after[i].0@ == k;
                    if i < n {
                        assert(before[i].0@ == k);
                    }
                }
                if collected_of(before).contains_key(k) {
                    let i = choose|i: int| 0 <= i < before.len() && #[trigger] before[i].0@ == k;
                    assert(after[i].0@ == k);
                }
            }
            assert forall|k: Seq<char>| #[trigger] collected_of(after).contains_key(k) implies collected_of(after)[k]
                == want[k] by {
                let i = choose|i: int| 0 <= i < after.len() && #[trigger] after[i].0@ == k;
                if k == id {
                    assert(after[n].0@ == k);
                    assert(i == n);
                } else {
                    assert(before[i].0@ == k);
                    let j = choose|j: int| 0 <= j < before.len() && #[trigger] before[j].0@ == k;
                    assert(after[j].0@ == k);
                    assert(i == j);
                }
            }
            assert(collected_of(after) =~= want);
        }
    }

    /// Routes a solver's answer to its request: kept, as a quote, when the
    /// request is open (and true returned), dropped otherwise.
    pub fn route(&mut self, response: QuoteResponseProto) -> (routed: bool)
        requires
            old(self).wf(),
        ensures
            final(self).wf(),
            routed == old(self)@.contains_key(response.request_id@),
            routed ==> exists|q: QuoteResponse|
                #[trigger] is_quote_of(q, response) && final(self)@ == old(self)@.insert(
                    response.request_id@,
                    old(self)@[response.request_id@].push(q),
                ),
            !routed ==> final(self)@ == old(self)@,
    {
        let pos = self.position(&response.request_id);
        match pos {
            None => false,
            Some(i) => {
                let ghost before = self.open@;
                let ghost id = response.request_id@;
                let ghost answer = response;
                let q = QuoteResponse::from_proto(response);
                let ghost q_ghost = q;
                let mut entry = self.open.remove(i);
                entry.1.push(q);
                self.open.insert(i, entry);
                proof {
                    let after = self.open@;
                    assert(after.len() == before.len());
                    assert forall|j: int| 0 <= j < after.len() && j != i implies after[j] == before[j] by {
                    }
                    assert(after[i as int].0@ == id);
                    assert(after[i as int].1@ == before[i as int].1@.push(q_ghost));
                    assert forall|a: int, b: int|
                        0 <= a < after.len() && 0 <= b < after.len() && #[trigger] after[a].0@
                            == #[trigger] after[b].0@ implies a == b by {
                        assert(after[a].0@ == before[a].0@);
                        assert(after[b].0@ == before[b].0@);
                    }
                    let want = collected_of(before).insert(id, collected_of(before)[id].push(q_ghost));
                    assert forall|k: Seq<char>| #[trigger] collected_of(after).contains_key(k) == want.contains_key(k) by {
                        if collected_of(after).contains_key(k) {
                            let j = choose|j: int| 0 <= j < after.len() && #[trigger] after[j].0@ == k;
                            assert(before[j].0@ == k);
                        }
                        if collected_of(before).contains_key(k) {
                            let j = choose|j: int| 0 <= j < before.len() && #[trigger] before[j].0@ == k;
                            assert(after[j].0@ == k);
                        }
                    }
                    assert forall|k: Seq<char>| #[trigger] collected_of(after).contains_key(k) implies collected_of(after)[k]
                        == want[k] by {
                        let j = choose|j: int| 0 <= j < after.len() && #[trigger] after[j].0@ == k;
                        let jb = choose|jb: int| 0 <= jb < before.len() && #[trigger] before[jb].0@ == k;
                        assert(after[jb].0@ == before[jb].0@);
                        assert(j == jb);
                        if k == id {
                            assert(j == i);
                        }
                    }
                    assert(collected_of(after) =~= want);
                    assert(is_quote_of(q_ghost, answer));
                }
                true
            },
        }
    }

    /// Stops collecting answers to `request_id` and hands over what came.
    pub fn close_request(&mut self, request_id: &String) -> (answers: Vec<QuoteResponse>)
        requires
            old(self).wf(),
        ensures
            final(self).wf(),
            final(self)@ == old(self)@.remove(request_id@),
            answers@ == (if old(self)@.contains_key(request_id@) {
                old(self)@[request_id@]
            } else {
                Seq::<QuoteResponse>::empty()
            }),
    {
        match self.position(request_id) {
            None => {
                proof {
                    assert(self@.remove(request_id@) =~= self@);
                }
                Vec::new()
            },
            Some(i) => {
                let ghost before = self.open@;
                let ghost id = request_id@;
                let entry = self.open.remove(i);
                proof {
                    let after = self.open@;
                    assert forall|a: int, b: int|
                        0 <= a < after.len() && 0 <= b < after.len() && #[trigger] after[a].0@
                            == #[trigger] after[b].0@ implies a == b by {
                        let a0 = if a < i { a } else { a + 1 };
                        let b0 = if b < i { b } else { b + 1 };
                        assert(after[a] == before[a0]);
                        assert(after[b] == before[b0]);
                    }
                    let want = collected_of(before).remove(id);
                    assert forall|k: Seq<char>| #[trigger] collected_of(after).contains_key(k) == want.contains_key(k) by {
                        if collected_of(after).contains_key(k) {
                            let j = choose|j: int| 0 <= j < after.len() && #[trigger] after[j].0@ == k;
                            let j0 = if j < i { j } else { j + 1 };
                            assert(after[j] == before[j0]);
                            assert(before[j0].0@ == k);
                            assert(j0 != i);
                        }
                        if want.contains_key(k) {
                            let j = choose|j: int| 0 <= j < before.len() && #[trigger] before[j].0@ == k;
                            assert(j != i);
                            let j1 = if j < i { j } else { j - 1 };
                            assert(after[j1] == before[j]);
                            assert(after[j1].0@ == k);
                        }
                    }
                    assert forall|k: Seq<char>| #[trigger] collected_of(after).contains_key(k) implies collected_of(after)[k]
                        == want[k] by {
                        let j = choose|j: int| 0 <= j < after.len() && #[trigger] after[j].0@ == k;
                        let j0 = if j < i { j } else { j + 1 };
                        assert(after[j] == before[j0]);
                        let jb = choose|jb: int| 0 <= jb < before.len() && #[trigger] before[jb].0@ == k;
                        assert(before[j0].0@ == k);
                        assert(jb == j0);
                    }
                    assert(collected_of(after) =~= want);
                }
                entry.1
            },
        }
    }
}

/// `q` is the quote that the answer `p` carries.
pub open spec fn is_quote_of(q: QuoteResponse, p: QuoteResponseProto) -> bool {
    &&& q.quote_id == p.quote_id
    &&& q.fee_bps == p.fee_bps
    &&& q.output_amount == p.output_amount
    &&& q.est_fill_time_seconds == p.est_fill_time_seconds
    &&& q.expires_at == p.expires_at
    &&& q.rejected == p.rejected
    &&& q.reject_reason == p.reject_reason
    &&& q.solver_address == p.solver_address
    &&& q.requires_exclusivity == p.requires_exclusivity
}

/// A closed request collects nothing more: once `request_id` is closed,
/// routing an answer to it is refused and leaves the collectors as they
/// are.
pub proof fn law_closed_requests_take_no_answers(
    before: Map<Seq<char>, Seq<QuoteResponse>>,
    request_id: Seq<char>,
)
    ensures
        !before.remove(request_id).contains_key(request_id),
{
}

} // verus!
