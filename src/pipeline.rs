use vstd::prelude::*;

use crate::aggregate::{outcome_of, DispatchError, OutcomeView, ResponseAggregate};
use crate::backend::{url_of, Backend};
use crate::message::{copy_bytes, Headers, OutboundRequest, RequestCapture, Response};
use crate::registry::{
    distinct_backend_names, lemma_participants_distinct, participants_of, string_views, ProxyServer,
};

verus! {

/// The status sent to the client when the production backend cannot be
/// reached.
pub const UPSTREAM_FAILURE_STATUS: u16 = 502;

/// Where the handling of one request stands.
#[derive(Clone, Copy, Debug, PartialEq, Eq, Structural)]
pub enum Stage {
    /// The participants are known; the shadow requests are under way.
    Selected,
    /// Every sandbox participant has an outcome.
    ShadowJoined,
    /// The production response went to the client and into the aggregate.
    ClientRelayed,
    /// The production backend could not be reached.
    Failed,
    /// The completion hook had its turn.
    Done,
}

/// The outbound requests for `targets`, one per target and in the same
/// order. Each carries the captured method and body unchanged, and headers
/// that `munge` made for that target alone from its own copy of the captured
/// headers.
pub fn outbound_requests<F: Fn(Headers, &Backend) -> Headers>(
    capture: &RequestCapture,
    targets: &Vec<Backend>,
    munge: &F,
) -> (r: Vec<OutboundRequest>)
    requires
        forall|h: Headers, b: &Backend| munge.requires((h, b)),
    ensures
        r.len() == targets.len(),
        forall|i: int|
            0 <= i < r.len() ==> {
                &&& (#[trigger] r[i]).url@ == url_of(targets[i].host@, targets[i].port, capture.uri@)
                &&& r[i].method == capture.method
                &&& r[i].body@ == capture.body@
                &&& exists|h: Headers| h@ == capture.headers@ && #[trigger] munge.ensures((h, &targets[i]), r[i].headers)
            },
{
    let mut r: Vec<OutboundRequest> = Vec::new();
    let mut i: usize = 0;
    while i < targets.len()
        invariant
            i <= targets.len(),
            r.len() == i,
            forall|h: Headers, b: &Backend| munge.requires((h, b)),
            forall|j: int|
                0 <= j < i ==> {
                    &&& (#[trigger] r[j]).url@ == url_of(targets[j].host@, targets[j].port, capture.uri@)
                    &&& r[j].method == capture.method
                    &&& r[j].body@ == capture.body@
                    &&& exists|h: Headers| h@ == capture.headers@ && #[trigger] munge.ensures((h, &targets[j]), r[j].headers)
                },
        decreases targets.len() - i,
    {
        let mut req = capture.outbound_for(&targets[i]);
        let own = capture.headers.duplicate();
        let ghost given = own;
        req.headers = munge(own, &targets[i]);
        assert(given@ == capture.headers@ && munge.ensures((given, &targets[i as int]), req.headers));
        r.push(req);
        i = i + 1;
    }
    r
}

/// The response sent to the client when the production backend cannot be
/// reached: the upstream-failure status, no headers, no body.
pub fn upstream_failure() -> (r: Response)
    ensures
        r@ == (UPSTREAM_FAILURE_STATUS, Seq::<(Seq<char>, Seq<u8>)>::empty(), Seq::<u8>::empty()),
{
    Response::new(UPSTREAM_FAILURE_STATUS, Headers::new(), Vec::new())
}

/// Makes `client` the exact production response: its status, its header
/// set in place of whatever `client` held, and its body.
pub fn relay_response(client: &mut Response, production: &Response)
    ensures
        final(client)@ == production@,
{
    client.status = production.status;
    client.headers.clear();
    let mut i: usize = 0;
    while i < production.headers.entries.len()
        invariant
            i <= production.headers.entries.len(),
            client.status == production.status,
            client.headers@ == production.headers@.subrange(0, i as int),
        decreases production.headers.entries.len() - i,
    {
        let name = production.headers.entries[i].name.clone();
        let value = copy_bytes(&production.headers.entries[i].value);
        client.headers.append_raw(name, value);
        i = i + 1;
        assert(client.headers@ =~= production.headers@.subrange(0, i as int));
    }
    assert(production.headers@.subrange(0, i as int) =~= production.headers@);
    client.body = copy_bytes(&production.body);
}

/// The handling of one inbound request, from selection to the completion
/// hook.
#[derive(Debug)]
pub struct RequestHandling {
    capture: RequestCapture,
    participants: Vec<Backend>,
    aggregate: ResponseAggregate,
    stage: Stage,
}

impl RequestHandling {
    pub closed spec fn capture_spec(&self) -> RequestCapture {
        self.capture
    }

    pub closed spec fn participants_spec(&self) -> Seq<Backend> {
        self.participants@
    }

    pub closed spec fn aggregate_spec(&self) -> ResponseAggregate {
        self.aggregate
    }

    pub closed spec fn stage_spec(&self) -> Stage {
        self.stage
    }

    /// Whether `name` has an outcome in the aggregate.
    pub open spec fn has_outcome(&self, name: Seq<char>) -> bool {
        self.aggregate_spec().outcome(name) is Some
    }

    /// The participants have distinct names, production first, and the
    /// aggregate holds what the stage says: nothing while the shadow
    /// requests run, one outcome per sandbox once they are joined, one per
    /// participant once the production response is in.
    pub open spec fn wf(&self) -> bool {
        let p = self.participants_spec();
        let a = self.aggregate_spec();
        &&& distinct_backend_names(p)
        &&& p.len() >= 1
        &&& a.wf()
        &&& self.stage_spec() == Stage::Selected ==> a@.len() == 0
        &&& self.stage_spec() == Stage::ShadowJoined ==> {
            &&& a@.len() == p.len() - 1
            &&& !self.has_outcome(p[0].name@)
            &&& forall|k: int| 1 <= k < p.len() ==> self.has_outcome(#[trigger] p[k].name@)
        }
        &&& (self.stage_spec() == Stage::ClientRelayed || self.stage_spec() == Stage::Done) ==> {
            &&& a@.len() == p.len()
            &&& forall|k: int| 0 <= k < p.len() ==> self.has_outcome(#[trigger] p[k].name@)
        }
    }

    /// Whether the completion hook is to run now: one is set, the client
    /// has its response, and every participant has exactly one outcome.
    pub open spec fn completion_due(&self, hook_set: bool) -> bool {
        &&& hook_set
        &&& self.stage_spec() == Stage::ClientRelayed
        &&& self.aggregate_spec()@.len() == self.participants_spec().len()
    }

    /// Starts handling `capture`, given what the selection hook returned
    /// for its method (`None` where no hook is set).
    pub fn start(server: &ProxyServer, capture: RequestCapture, selection: Option<Vec<String>>) -> (r: RequestHandling)
        requires
            server.wf(),
        ensures
            r.wf(),
            r.stage_spec() == Stage::Selected,
            r.capture_spec() == capture,
            r.participants_spec() == participants_of(
                server.production_spec(),
                server.sandboxes_spec(),
                match selection {
                    None => None,
                    Some(n) => Some(string_views(n@)),
                },
            ),
            r.aggregate_spec()@.len() == 0,
    {
        let participants = server.participants(&selection);
        proof {
            lemma_participants_distinct(
                server.production_spec(),
                server.sandboxes_spec(),
                match selection {
                    None => None,
                    Some(n) => Some(string_views(n@)),
                },
            );
        }
        RequestHandling { capture, participants, aggregate: ResponseAggregate::new(), stage: Stage::Selected }
    }

    pub fn capture(&self) -> (r: &RequestCapture)
        ensures
            *r == self.capture_spec(),
    {
        &self.capture
    }

    /// The participants: production first, then the selected sandboxes in
    /// registry order.
    pub fn participants(&self) -> (r: &Vec<Backend>)
        ensures
            r@ == self.participants_spec(),
    {
        &self.participants
    }

    pub fn aggregate(&self) -> (r: &ResponseAggregate)
        ensures
            *r == self.aggregate_spec(),
    {
        &self.aggregate
    }

    pub fn stage(&self) -> (r: Stage)
        ensures
            r == self.stage_spec(),
    {
        self.stage
    }

    /// The outbound request of every participant, in participant order;
    /// see `outbound_requests`.
    pub fn requests<F: Fn(Headers, &Backend) -> Headers>(&self, munge: &F) -> (r: Vec<OutboundRequest>)
        requires
            forall|h: Headers, b: &Backend| munge.requires((h, b)),
        ensures
            r.len() == self.participants_spec().len(),
            forall|i: int|
                0 <= i < r.len() ==> {
                    &&& (#[trigger] r[i]).url@ == url_of(
                        self.participants_spec()[i].host@,
                        self.participants_spec()[i].port,
                        self.capture_spec().uri@,
                    )
                    &&& r[i].method == self.capture_spec().method
                    &&& r[i].body@ == self.capture_spec().body@
                    &&& exists|h: Headers|
                        h@ == self.capture_spec().headers@ && #[trigger] munge.ensures(
                            (h, &self.participants_spec()[i]),
                            r[i].headers,
                        )
                },
    {
        outbound_requests(&self.capture, &self.participants, munge)
    }

    /// Records the outcomes of the shadow requests once all of them are in:
    /// `results[k]` is what the sandbox participant `k + 1` gave, and a
    /// failure is recorded as a failure outcome.
    pub fn join_shadows(&mut self, results: Vec<Result<Response, DispatchError>>)
        requires
            old(self).wf(),
            old(self).stage_spec() == Stage::Selected,
            results.len() == old(self).participants_spec().len() - 1,
        ensures
            final(self).wf(),
            final(self).stage_spec() == Stage::ShadowJoined,
            final(self).capture_spec() == old(self).capture_spec(),
            final(self).participants_spec() == old(self).participants_spec(),
            forall|k: int|
                0 <= k < results.len() ==> final(self).aggregate_spec().outcome(
                    old(self).participants_spec()[k + 1].name@,
                ) == Some(outcome_of(#[trigger] results[k])),
    {
        let ghost orig = results@;
        let ghost p = self.participants@;
        let mut results = results;
        let mut k: usize = results.len();
        while k > 0
            invariant
                self.aggregate.wf(),
                self.participants@ == p,
                self.capture == old(self).capture,
                distinct_backend_names(p),
                p.len() == orig.len() + 1,
                k <= orig.len(),
                results@ == orig.subrange(0, k as int),
                self.aggregate@.len() == orig.len() - k,
                forall|m: int|
                    k < m < p.len() ==> self.aggregate.outcome(#[trigger] p[m].name@) == Some(
                        outcome_of(orig[m - 1]),
                    ),
                forall|n: Seq<char>|
                    #[trigger] self.aggregate.outcome(n) is Some ==> exists|m: int|
                        k < m < p.len() && p[m].name@ == n,
            decreases k,
        {
            let r = results.pop().unwrap();
            k = k - 1;
            assert(r == orig[k as int]);
            let name = self.participants[k + 1].name.clone();
            proof {
                if self.aggregate.outcome(name@) is Some {
                    let m = choose|m: int| k + 1 < m < p.len() && p[m].name@ == name@;
                    assert(p[m].name@ != p[k + 1].name@);
                }
            }
            let ghost before = self.aggregate;
            self.aggregate.record(name, r);
            proof {
                assert forall|n: Seq<char>| #[trigger] self.aggregate.outcome(n) is Some implies exists|m: int|
                    k < m < p.len() && p[m].name@ == n by {
                    if n != p[k + 1].name@ {
                        assert(before.outcome(n) is Some);
                    }
                }
            }
        }
        proof {
            if self.aggregate.outcome(p[0].name@) is Some {
                let m = choose|m: int| 0 < m < p.len() && #[trigger] p[m].name@ == p[0].name@;
            }
            assert forall|j: int| 0 <= j < orig.len() implies self.aggregate.outcome(
                p[j + 1].name@,
            ) == Some(outcome_of(#[trigger] orig[j])) by {
                assert(self.aggregate.outcome(p[j + 1].name@) == Some(outcome_of(orig[(j + 1) - 1])));
            }
        }
        self.stage = Stage::ShadowJoined;
    }

    /// Takes what the production backend gave and returns what the client
    /// receives: the production response exactly, which also goes into the
    /// aggregate; or, where the backend could not be reached, the
    /// upstream-failure response, with the aggregate left as it was.
    pub fn finish_production(&mut self, result: Result<Response, DispatchError>) -> (r: Response)
        requires
            old(self).wf(),
            old(self).stage_spec() == Stage::ShadowJoined,
        ensures
            final(self).wf(),
            final(self).capture_spec() == old(self).capture_spec(),
            final(self).participants_spec() == old(self).participants_spec(),
            match result {
                Ok(p) => {
                    &&& r@ == p@
                    &&& final(self).stage_spec() == Stage::ClientRelayed
                    &&& final(self).aggregate_spec().outcome(old(self).participants_spec()[0].name@) == Some(
                        OutcomeView::Success(p@),
                    )
                    &&& forall|n: Seq<char>|
                        n != old(self).participants_spec()[0].name@ ==> #[trigger] final(self).aggregate_spec().outcome(n)
                            == old(self).aggregate_spec().outcome(n)
                    &&& forall|b: bool| #[trigger] final(self).completion_due(b) == b
                },
                Err(_) => {
                    &&& r@ == (UPSTREAM_FAILURE_STATUS, Seq::<(Seq<char>, Seq<u8>)>::empty(), Seq::<u8>::empty())
                    &&& final(self).stage_spec() == Stage::Failed
                    &&& final(self).aggregate_spec() == old(self).aggregate_spec()
                    &&& forall|b: bool| !#[trigger] final(self).completion_due(b)
                },
            },
    {
        match result {
            Ok(resp) => {
                let client = resp.duplicate();
                let name = self.participants[0].name.clone();
                let ghost before = self.aggregate;
                let ghost p = self.participants@;
                self.aggregate.record(name, Ok(resp));
                self.stage = Stage::ClientRelayed;
                proof {
                    assert forall|k: int| 0 <= k < p.len() implies self.has_outcome(#[trigger] p[k].name@) by {
                        if k > 0 {
                            assert(p[k].name@ != p[0].name@);
                            assert(before.outcome(p[k].name@) is Some);
                        }
                    }
                }
                client
            },
            Err(_) => {
                self.stage = Stage::Failed;
                upstream_failure()
            },
        }
    }

    /// Whether to run the completion hook now (`hook_set`: one is set).
    /// It is due at most once: afterwards the handling is done, and no step
    /// makes it due again.
    pub fn take_completion(&mut self, hook_set: bool) -> (r: bool)
        requires
            old(self).wf(),
        ensures
            final(self).wf(),
            r == old(self).completion_due(hook_set),
            r ==> forall|k: int|
                0 <= k < old(self).participants_spec().len() ==> old(self).has_outcome(
                    #[trigger] old(self).participants_spec()[k].name@,
                ),
            final(self).stage_spec() == if old(self).stage_spec() == Stage::ClientRelayed {
                Stage::Done
            } else {
                old(self).stage_spec()
            },
            final(self).capture_spec() == old(self).capture_spec(),
            final(self).participants_spec() == old(self).participants_spec(),
            final(self).aggregate_spec() == old(self).aggregate_spec(),
            forall|b: bool| !#[trigger] final(self).completion_due(b),
    {
        let due = hook_set && self.stage == Stage::ClientRelayed && self.aggregate.len() == self.participants.len();
        if self.stage == Stage::ClientRelayed {
            self.stage = Stage::Done;
        }
        due
    }
}

} // verus!
