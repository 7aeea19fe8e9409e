//! The state of the calls and the bridges.

use crate::call::bridges;
use crate::call::bridges::Bridges;
use crate::call::calls;
use crate::call::calls::SipCalls;
use crate::call::fax_sessions;
use crate::call::fax_sessions::FaxSessions;
use crate::routing;
use crate::routing::{OutboundCallDiagnostics, OutboundCallLegFailure, OutboundCallRequest};
use crate::table;
use crate::table::{table_contains, table_insert, table_keys, table_remove, Stored};
use crate::time;
use crate::time::{Duration, Instant};
use dashmap::DashMap;
use vstd::prelude::*;

verus! {

/// The failures of the legs of one outbound call.
#[derive(Debug)]
pub struct LegFailures {
    pub list: Vec<OutboundCallLegFailure>,
}

impl View for LegFailures {
    type V = Seq<routing::LegFailureView>;

    open spec fn view(&self) -> Seq<routing::LegFailureView> {
        routing::leg_views(self.list@)
    }
}

/// The contents of the table of outbound requests.
pub uninterp spec fn request_entries(table: DashMap<String, OutboundCallRequest>) -> Map<
    Seq<char>,
    routing::OutboundRequestView,
>;

impl Stored<String> for OutboundCallRequest {
    open spec fn entries(table: DashMap<String, OutboundCallRequest>) -> Map<
        Seq<char>,
        routing::OutboundRequestView,
    > {
        request_entries(table)
    }
}

/// `DashMap::new`: an empty table.
#[verifier::external_body]
fn new_request_table() -> (table: DashMap<String, OutboundCallRequest>)
    ensures
        request_entries(table) == (Map::<Seq<char>, routing::OutboundRequestView>::empty()),
{
    DashMap::new()
}

/// The contents of the table of leg failures.
pub uninterp spec fn failure_entries(table: DashMap<String, LegFailures>) -> Map<
    Seq<char>,
    Seq<routing::LegFailureView>,
>;

impl Stored<String> for LegFailures {
    open spec fn entries(table: DashMap<String, LegFailures>) -> Map<
        Seq<char>,
        Seq<routing::LegFailureView>,
    > {
        failure_entries(table)
    }
}

/// `DashMap::new`: an empty table.
#[verifier::external_body]
fn new_failure_table() -> (table: DashMap<String, LegFailures>)
    ensures
        failure_entries(table) == (Map::<Seq<char>, Seq<routing::LegFailureView>>::empty()),
{
    DashMap::new()
}

/// The outbound calls that are not answered yet.
pub struct OutboundCalls {
    requests: DashMap<String, OutboundCallRequest>,
    failures: DashMap<String, LegFailures>,
}

/// The outbound calls in the model.
pub ghost struct OutboundView {
    /// The requests, by tracking id.
    pub requests: Map<Seq<char>, routing::OutboundRequestView>,
    /// The failures of legs, by tracking id.
    pub failures: Map<Seq<char>, Seq<routing::LegFailureView>>,
}

impl View for OutboundCalls {
    type V = OutboundView;

    closed spec fn view(&self) -> OutboundView {
        OutboundView {
            requests: request_entries(self.requests),
            failures: failure_entries(self.failures),
        }
    }
}

impl OutboundView {
    /// The failures of a call's legs.
    pub open spec fn failures_of(self, id: Seq<char>) -> Seq<routing::LegFailureView> {
        if self.failures.contains_key(id) {
            self.failures[id]
        } else {
            Seq::empty()
        }
    }

    /// The calls with a request put in.
    pub open spec fn with_request(self, request: routing::OutboundRequestView) -> OutboundView {
        OutboundView { requests: self.requests.insert(request.call_id, request), ..self }
    }

    /// The calls without the request of one.
    pub open spec fn without_request(self, id: Seq<char>) -> OutboundView {
        OutboundView { requests: self.requests.remove(id), ..self }
    }

    /// The calls with the failure of one more leg.
    pub open spec fn with_failure(
        self,
        id: Seq<char>,
        failure: routing::LegFailureView,
    ) -> OutboundView {
        OutboundView {
            failures: self.failures.insert(id, self.failures_of(id).push(failure)),
            ..self
        }
    }

    /// The calls without the failures of one.
    pub open spec fn without_failures(self, id: Seq<char>) -> OutboundView {
        OutboundView { failures: self.failures.remove(id), ..self }
    }

    /// The milliseconds since a call was requested, if its request is there.
    pub open spec fn elapsed_ms(self, id: Seq<char>, now: Instant) -> Option<u64> {
        if self.requests.contains_key(id) {
            Some(time::millis_between(self.requests[id].created_at, now) as u64)
        } else {
            None
        }
    }

    /// Whether a request is younger than a number of nanoseconds.
    pub open spec fn is_fresh(self, id: Seq<char>, nanos: nat, now: Instant) -> bool {
        self.requests.contains_key(id) && time::nanos_between(self.requests[id].created_at, now)
            < nanos
    }

    /// The calls without the requests that are `nanos` old, and without the
    /// failures of calls that have no request.
    pub open spec fn swept(self, nanos: nat, now: Instant) -> OutboundView {
        let kept = |id: Seq<char>| self.is_fresh(id, nanos, now);
        OutboundView {
            requests: self.requests.restrict(self.requests.dom().filter(kept)),
            failures: self.failures.restrict(self.failures.dom().filter(kept)),
        }
    }
}

impl OutboundCalls {
    pub fn new() -> (calls: OutboundCalls)
        ensures
            calls@ == (OutboundView { requests: Map::empty(), failures: Map::empty() }),
    {
        OutboundCalls { requests: new_request_table(), failures: new_failure_table() }
    }

    /// Stores a request.
    pub fn insert_request(&mut self, request: OutboundCallRequest)
        ensures
            final(self)@ == old(self)@.with_request(request@),
    {
        table_insert(&mut self.requests, request.call_id.clone(), request);
    }

    /// Takes a request out.
    pub fn take_request(&mut self, id: &str) -> (taken: Option<OutboundCallRequest>)
        ensures
            final(self)@ == old(self)@.without_request(id@),
            taken is Some <==> old(self)@.requests.contains_key(id@),
            taken matches Some(request) ==> request@ == old(self)@.requests[id@],
    {
        table_remove(&mut self.requests, &id.to_owned())
    }

    /// Stores the failure of a leg.
    pub fn push_failure(&mut self, id: &str, failure: OutboundCallLegFailure)
        ensures
            final(self)@ == old(self)@.with_failure(id@, failure@),
    {
        let ghost before = self@;
        let mut failures = self.take_failures(id);
        let ghost earlier = failures@;
        failures.push(failure);
        assert(routing::leg_views(failures@) =~= routing::leg_views(earlier).push(failure@));
        table_insert(&mut self.failures, id.to_owned(), LegFailures { list: failures });
        assert(self@.failures =~= before.with_failure(id@, failure@).failures);
    }

    /// Takes the failures of a call's legs out.
    pub fn take_failures(&mut self, id: &str) -> (taken: Vec<OutboundCallLegFailure>)
        ensures
            final(self)@ == old(self)@.without_failures(id@),
            routing::leg_views(taken@) == old(self)@.failures_of(id@),
    {
        match table_remove(&mut self.failures, &id.to_owned()) {
            Some(failures) => failures.list,
            None => {
                let none: Vec<OutboundCallLegFailure> = Vec::new();
                assert(routing::leg_views(none@) =~= Seq::<routing::LegFailureView>::empty());
                none
            },
        }
    }

    /// Removes the requests that are too old, and the failures of calls that
    /// have no request. Returns the number of requests removed.
    pub fn sweep(&mut self, max_age: Duration, now: Instant) -> (swept: usize)
        ensures
            final(self)@ == old(self)@.swept(max_age.nanos as nat, now),
            swept == old(self)@.requests.dom().len() - final(self)@.requests.dom().len(),
    {
        let ghost before = self@;
        let ghost nanos = max_age.nanos as nat;
        let ghost kept = |id: Seq<char>| before.is_fresh(id, nanos, now);
        let keys = table_keys(&self.requests);
        let ghost order = table::key_views(keys@);
        let mut removed: usize = 0;
        proof {
            table::lemma_enumerates(order, before.requests.dom());
        }
        for i in 0..keys.len()
            invariant
                order == table::key_views(keys@),
                order.len() == keys@.len(),
                table::enumerates(order, before.requests.dom()),
                kept == (|id: Seq<char>| before.is_fresh(id, nanos, now)),
                nanos == max_age.nanos,
                self@.failures == before.failures,
                forall|id: Seq<char>| #[trigger]
                    self@.requests.contains_key(id) <==> before.requests.contains_key(id) && (
                    order.take(i as int).contains(id) ==> kept(id)),
                forall|id: Seq<char>| #[trigger]
                    self@.requests.contains_key(id) ==> self@.requests[id] == before.requests[id],
                self@.requests.dom().finite(),
                removed <= i,
                removed + self@.requests.dom().len() == order.len(),
        {
            let ghost mid = self@;
            let ghost id = order[i as int];
            assert(id == keys@[i as int]@);
            assert(order.contains(id));
            assert(before.requests.contains_key(id));
            assert(order.take(i + 1) =~= order.take(i as int).push(id));
            assert(!order.take(i as int).contains(id)) by {
                if order.take(i as int).contains(id) {
                    let k = choose|k: int| 0 <= k < i && order.take(i as int)[k] == id;
                    assert(order[k] == order[i as int]);
                }
            }
            assert(mid.requests.contains_key(id));
            match self.take_request(keys[i].as_str()) {
                Some(request) => {
                    if request.created_at.elapsed(now).nanos < max_age.nanos {
                        table_insert(&mut self.requests, keys[i].clone(), request);
                        assert(self@.requests =~= mid.requests);
                    } else {
                        removed = removed + 1;
                    }
                },
                None => {},
            }
            assert forall|k: Seq<char>| #[trigger]
                self@.requests.contains_key(k) <==> before.requests.contains_key(k) && (
                order.take(i + 1).contains(k) ==> kept(k)) by {
                table::lemma_push_contains(order.take(i as int), id, k);
                assert(mid.requests.contains_key(k) <==> before.requests.contains_key(k) && (
                order.take(i as int).contains(k) ==> kept(k)));
            }
        }
        let ghost swept_requests = before.swept(nanos, now).requests;
        assert(order.take(order.len() as int) =~= order);
        assert(self@.requests =~= swept_requests) by {
            assert forall|id: Seq<char>| #[trigger]
                self@.requests.contains_key(id) == swept_requests.contains_key(id) by {
                assert(order.contains(id) <==> before.requests.dom().contains(id));
            }
        }
        let failure_keys = table_keys(&self.failures);
        let ghost failure_order = table::key_views(failure_keys@);
        for i in 0..failure_keys.len()
            invariant
                failure_order == table::key_views(failure_keys@),
                failure_order.len() == failure_keys@.len(),
                table::enumerates(failure_order, before.failures.dom()),
                kept == (|id: Seq<char>| before.is_fresh(id, nanos, now)),
                self@.requests == swept_requests,
                swept_requests == before.swept(nanos, now).requests,
                forall|id: Seq<char>| #[trigger]
                    self@.failures.contains_key(id) <==> before.failures.contains_key(id) && (
                    failure_order.take(i as int).contains(id) ==> kept(id)),
                forall|id: Seq<char>| #[trigger]
                    self@.failures.contains_key(id) ==> self@.failures[id] == before.failures[id],
        {
            let ghost mid = self@;
            let ghost id = failure_order[i as int];
            assert(id == failure_keys@[i as int]@);
            assert(failure_order.take(i + 1) =~= failure_order.take(i as int).push(id));
            assert(kept(id) <==> swept_requests.contains_key(id));
            if !table_contains(&self.requests, &failure_keys[i]) {
                let _ = self.take_failures(failure_keys[i].as_str());
            }
            assert forall|k: Seq<char>| #[trigger]
                self@.failures.contains_key(k) <==> before.failures.contains_key(k) && (
                failure_order.take(i + 1).contains(k) ==> kept(k)) by {
                table::lemma_push_contains(failure_order.take(i as int), id, k);
                assert(mid.failures.contains_key(k) <==> before.failures.contains_key(k) && (
                failure_order.take(i as int).contains(k) ==> kept(k)));
            }
        }
        assert(failure_order.take(failure_order.len() as int) =~= failure_order);
        assert(self@.failures =~= before.swept(nanos, now).failures) by {
            assert forall|id: Seq<char>| #[trigger]
                self@.failures.contains_key(id) == before.swept(
                    nanos,
                    now,
                ).failures.contains_key(id) by {
                assert(failure_order.contains(id) <==> before.failures.dom().contains(id));
            }
        }
        removed
    }
}

/// The state of the calls and the bridges.
pub struct BridgeCoordinator {
    pub sip_calls: SipCalls,
    pub bridges: Bridges,
    pub fax_sessions: FaxSessions,
    pub outbound: OutboundCalls,
}

/// The state in the model.
pub ghost struct CoordView {
    pub calls: calls::CallsView,
    pub bridges: bridges::BridgesView,
    pub fax: fax_sessions::FaxView,
    pub outbound: OutboundView,
}

impl View for BridgeCoordinator {
    type V = CoordView;

    open spec fn view(&self) -> CoordView {
        CoordView {
            calls: self.sip_calls@,
            bridges: self.bridges@,
            fax: self.fax_sessions@,
            outbound: self.outbound@,
        }
    }
}

impl BridgeCoordinator {
    /// A coordinator without calls.
    pub fn new() -> (coordinator: BridgeCoordinator)
        ensures
            coordinator@ == (CoordView {
                calls: calls::CallsView { calls: Map::empty(), next_instance: 1 },
                bridges: bridges::BridgesView { bridges: Map::empty(), pending: Set::empty() },
                fax: fax_sessions::FaxView { sessions: Map::empty() },
                outbound: OutboundView { requests: Map::empty(), failures: Map::empty() },
            }),
    {
        BridgeCoordinator {
            sip_calls: SipCalls::new(),
            bridges: Bridges::new(),
            fax_sessions: FaxSessions::new(),
            outbound: OutboundCalls::new(),
        }
    }
}

/// Diagnostics with a phase, a detail and a time only.
pub open spec fn brief(phase: Seq<char>, detail: Seq<char>, elapsed_ms: Option<u64>) -> routing::DiagnosticsView {
    routing::DiagnosticsView {
        phase,
        detail: Some(detail),
        elapsed_ms,
        registration: None,
        leg_failures: Seq::empty(),
    }
}

/// Diagnostics with a phase, a detail and a time only.
pub fn brief_diagnostics(phase: &str, detail: String, elapsed_ms: Option<u64>) -> (d:
    OutboundCallDiagnostics)
    ensures
        d@ == brief(phase@, detail@, elapsed_ms),
{
    let none: Vec<OutboundCallLegFailure> = Vec::new();
    assert(routing::leg_views(none@) =~= Seq::<routing::LegFailureView>::empty());
    OutboundCallDiagnostics {
        phase: phase.to_owned(),
        detail: Some(detail),
        elapsed_ms,
        registration: None,
        leg_failures: none,
    }
}

} // verus!
