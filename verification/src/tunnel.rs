//! The tunnel forwarder.
//!
//! It runs the same connect + trust + authenticate flow as an interactive
//! session, then binds a local TCP listener and relays each accepted
//! connection through its own forwarded channel on the one shared session.
//! Forwards are independent: one ending or failing affects neither the other
//! active forwards nor the accept loop. Only cancellation ends the accept
//! loop.

use vstd::prelude::*;

use crate::auth::{
    ascending_above, attempt_inv, attempts_of, auth_floor, emitted_ranks, lemma_ascending_concat,
    lemma_attempts_of_add, lemma_attempts_of_none, lemma_auth_step_status_order,
    lemma_emitted_ranks_add, lemma_emitted_ranks_none, lemma_new_key_reports_add,
    lemma_new_key_reports_none, lemma_step_trace, new_key_reports, AuthEvent, AuthFlow, AuthPhase,
};
use crate::events::Action;

verus! {

/// What the driver reports to the forwarder.
pub enum TunnelEvent {
    /// The transport opened; carries the server key's fingerprint.
    Connected { fingerprint: String },
    /// The transport could not be opened.
    ConnectFailed { timeout: bool },
    /// The user's answer to a newly reported key.
    TrustDecision(bool),
    /// Whether the method just attempted succeeded.
    MethodResult(bool),
    /// The listener accepted a local connection, under a driver-chosen id.
    Accepted(u64),
    /// A forwarded connection ended, by either side closing or by failure.
    ForwardEnded(u64),
    /// Cancellation was signalled.
    Cancelled,
}

/// The forwarder's state as contracts speak of it.
pub struct TunnelModel {
    pub auth: AuthFlow,
    /// Whether the local listener is accepting connections.
    pub listening: bool,
    /// Whether the tunnel is over.
    pub closed: bool,
    /// The ids of the forwards currently relaying.
    pub active: Seq<u64>,
}

impl TunnelModel {
    /// No forward id is active twice.
    pub open spec fn wf(self) -> bool {
        forall|i: int, j: int|
            0 <= i < self.active.len() && 0 <= j < self.active.len() && i != j
                ==> self.active[i] != self.active[j]
    }
}

/// The tunnel forwarder: the shared authenticated flow plus the set of live
/// forwards.
pub struct TunnelForwarder {
    /// The embedded connect/trust/authenticate flow of the shared session.
    pub auth: AuthFlow,
    /// Whether the local listener is accepting connections.
    pub listening: bool,
    /// Whether the tunnel is over.
    pub closed: bool,
    /// The ids of the forwards currently relaying.
    pub active: Vec<u64>,
}

impl View for TunnelForwarder {
    type V = TunnelModel;

    open spec fn view(&self) -> TunnelModel {
        TunnelModel {
            auth: self.auth,
            listening: self.listening,
            closed: self.closed,
            active: self.active@,
        }
    }
}

/// The active forwards with one id's first occurrence removed.
pub open spec fn remove_id(s: Seq<u64>, id: u64) -> Seq<u64> {
    if s.contains(id) {
        let k = s.index_of(id);
        s.subrange(0, k) + s.subrange(k + 1, s.len() as int)
    } else {
        s
    }
}

/// How an authentication outcome advances the tunnel: success binds the local
/// listener, failure closes the tunnel.
pub open spec fn tunnel_auth_dispatch(m: TunnelModel, ae: AuthEvent) -> (TunnelModel, Seq<
    Action,
>) {
    if m.listening {
        (m, Seq::empty())
    } else {
        let res = m.auth.step_model(ae);
        if res.0.phase == AuthPhase::Authenticated {
            (TunnelModel { auth: res.0, listening: true, ..m }, res.1 + seq![Action::BindListener])
        } else if res.0.phase matches AuthPhase::Failed(_) {
            (TunnelModel { auth: res.0, closed: true, ..m }, res.1)
        } else {
            (TunnelModel { auth: res.0, ..m }, res.1)
        }
    }
}

/// What one step of the tunnel forwarder does.
pub open spec fn tunnel_step_model(m: TunnelModel, e: TunnelEvent) -> (TunnelModel, Seq<Action>) {
    if m.closed {
        (m, Seq::empty())
    } else {
        match e {
            TunnelEvent::Cancelled => (
                TunnelModel { listening: false, closed: true, ..m },
                seq![Action::Disconnect],
            ),
            TunnelEvent::Accepted(id) => if m.listening && !m.active.contains(id) {
                (TunnelModel { active: m.active.push(id), ..m }, seq![Action::OpenForward(id)])
            } else {
                (m, Seq::empty())
            },
            TunnelEvent::ForwardEnded(id) => (
                TunnelModel { active: remove_id(m.active, id), ..m },
                Seq::empty(),
            ),
            TunnelEvent::Connected { fingerprint } => tunnel_auth_dispatch(
                m,
                AuthEvent::Connected { fingerprint },
            ),
            TunnelEvent::ConnectFailed { timeout } => tunnel_auth_dispatch(
                m,
                AuthEvent::ConnectFailed { timeout },
            ),
            TunnelEvent::TrustDecision(trust) => tunnel_auth_dispatch(
                m,
                AuthEvent::TrustDecision(trust),
            ),
            TunnelEvent::MethodResult(res) => tunnel_auth_dispatch(m, AuthEvent::MethodResult(res)),
        }
    }
}

impl TunnelForwarder {
    /// A forwarder for a host with the given stored fingerprint and resolved
    /// credential shape.
    pub fn new(stored_fingerprint: Option<String>, has_password: bool, has_key: bool) -> (r: Self)
        ensures
            r@.auth == (AuthFlow {
                stored_fingerprint,
                has_password,
                has_key,
                phase: AuthPhase::Idle,
            }),
            !r@.listening,
            !r@.closed,
            r@.active == Seq::<u64>::empty(),
            r@.wf(),
    {
        let r = TunnelForwarder {
            auth: AuthFlow::new(stored_fingerprint, has_password, has_key),
            listening: false,
            closed: false,
            active: Vec::new(),
        };
        proof {
            assert(r.active@ =~= Seq::<u64>::empty());
        }
        r
    }

    /// Announces and opens the transport.
    pub fn start(self) -> (r: (Self, Vec<Action>))
        ensures
            r.0@.auth == self@.auth.start_model().0,
            r.0@.listening == self@.listening,
            r.0@.closed == self@.closed,
            r.0@.active == self@.active,
            r.1@ == self@.auth.start_model().1,
    {
        let TunnelForwarder { auth, listening, closed, active } = self;
        let (auth, acts) = auth.start();
        (TunnelForwarder { auth, listening, closed, active }, acts)
    }

    /// Whether a forward is currently relaying under this id.
    pub fn is_active(&self, id: u64) -> (r: bool)
        ensures
            r == self@.active.contains(id),
    {
        let mut k: usize = 0;
        while k < self.active.len()
            invariant
                0 <= k <= self.active.len(),
                forall|j: int| 0 <= j < k ==> self.active@[j] != id,
            decreases self.active.len() - k,
        {
            if self.active[k] == id {
                assert(self.active@[k as int] == id);
                return true;
            }
            k += 1;
        }
        false
    }

    /// Advances the tunnel by one event and returns the actions to perform,
    /// exactly as the model says; forwards stay unique.
    pub fn step(self, e: TunnelEvent) -> (r: (Self, Vec<Action>))
        requires
            self@.wf(),
        ensures
            (r.0@, r.1@) == tunnel_step_model(self@, e),
            r.0@.wf(),
    {
        let ghost m = self@;
        let ghost model = tunnel_step_model(self@, e);
        let mut acts: Vec<Action> = Vec::new();
        if self.closed {
            proof {
                assert(acts@ =~= model.1);
            }
            return (self, acts);
        }
        let TunnelForwarder { auth, listening, closed, mut active } = self;
        let r = match e {
            TunnelEvent::Cancelled => {
                acts.push(Action::Disconnect);
                TunnelForwarder { auth, listening: false, closed: true, active }
            },
            TunnelEvent::Accepted(id) => {
                let t = TunnelForwarder { auth, listening, closed, active };
                if t.listening && !t.is_active(id) {
                    let TunnelForwarder { auth, listening, closed, mut active } = t;
                    active.push(id);
                    acts.push(Action::OpenForward(id));
                    proof {
                        assert forall|i: int, j: int|
                            0 <= i < active@.len() && 0 <= j < active@.len() && i != j
                            implies active@[i] != active@[j] by {
                            if i == active@.len() - 1 {
                                assert(m.active.contains(active@[j]));
                            } else if j == active@.len() - 1 {
                                assert(m.active.contains(active@[i]));
                            }
                        }
                    }
                    TunnelForwarder { auth, listening, closed, active }
                } else {
                    t
                }
            },
            TunnelEvent::ForwardEnded(id) => {
                let mut k: usize = 0;
                let mut found = false;
                while k < active.len() && !found
                    invariant
                        0 <= k <= active.len(),
                        active@ == m.active,
                        found ==> k < active@.len() && active@[k as int] == id,
                        !found ==> forall|j: int| 0 <= j < k ==> active@[j] != id,
                    decreases active.len() - k, (if found { 0int } else { 1int }),
                {
                    if active[k] == id {
                        found = true;
                    } else {
                        k += 1;
                    }
                }
                if found {
                    active.remove(k);
                    proof {
                        assert(m.active.contains(id));
                        let w = m.active.index_of(id);
                        assert(m.active[w] == id);
                        assert(w == k);
                        assert(active@ =~= remove_id(m.active, id));
                        assert forall|i: int, j: int|
                            0 <= i < active@.len() && 0 <= j < active@.len() && i != j
                            implies active@[i] != active@[j] by {
                            let fi = if i < k as int { i } else { i + 1 };
                            let fj = if j < k as int { j } else { j + 1 };
                            assert(active@[i] == m.active[fi]);
                            assert(active@[j] == m.active[fj]);
                        }
                    }
                } else {
                    proof {
                        assert(!m.active.contains(id));
                        assert(active@ =~= remove_id(m.active, id));
                    }
                }
                TunnelForwarder { auth, listening, closed, active }
            },
            TunnelEvent::Connected { fingerprint } => {
                let (t, aacts) = Self::dispatch_auth(
                    auth,
                    listening,
                    closed,
                    active,
                    AuthEvent::Connected { fingerprint },
                );
                acts = aacts;
                t
            },
            TunnelEvent::ConnectFailed { timeout } => {
                let (t, aacts) = Self::dispatch_auth(
                    auth,
                    listening,
                    closed,
                    active,
                    AuthEvent::ConnectFailed { timeout },
                );
                acts = aacts;
                t
            },
            TunnelEvent::TrustDecision(trust) => {
                let (t, aacts) = Self::dispatch_auth(
                    auth,
                    listening,
                    closed,
                    active,
                    AuthEvent::TrustDecision(trust),
                );
                acts = aacts;
                t
            },
            TunnelEvent::MethodResult(res) => {
                let (t, aacts) = Self::dispatch_auth(
                    auth,
                    listening,
                    closed,
                    active,
                    AuthEvent::MethodResult(res),
                );
                acts = aacts;
                t
            },
        };
        proof {
            assert(acts@ =~= model.1);
            assert(r@.active =~= model.0.active);
        }
        (r, acts)
    }

    /// Feeds one event to the embedded flow and advances the tunnel on its
    /// outcome, returning the flow's actions.
    fn dispatch_auth(
        auth: AuthFlow,
        listening: bool,
        closed: bool,
        active: Vec<u64>,
        ae: AuthEvent,
    ) -> (r: (Self, Vec<Action>))
        ensures
            ({
                let m = TunnelModel { auth, listening, closed, active: active@ };
                let res = tunnel_auth_dispatch(m, ae);
                r.0@ == res.0 && r.1@ == res.1
            }),
    {
        let ghost m = TunnelModel { auth, listening, closed, active: active@ };
        if listening {
            let aacts: Vec<Action> = Vec::new();
            proof {
                assert(aacts@ =~= tunnel_auth_dispatch(m, ae).1);
            }
            (TunnelForwarder { auth, listening, closed, active }, aacts)
        } else {
            let (auth, mut aacts) = auth.step(ae);
            match auth.phase {
                AuthPhase::Authenticated => {
                    let ghost flow_acts = aacts@;
                    aacts.push(Action::BindListener);
                    proof {
                        assert(aacts@ =~= flow_acts + seq![Action::BindListener]);
                    }
                    (TunnelForwarder { auth, listening: true, closed, active }, aacts)
                },
                AuthPhase::Failed(_) => (
                    TunnelForwarder { auth, listening, closed: true, active },
                    aacts,
                ),
                _ => (TunnelForwarder { auth, listening, closed, active }, aacts),
            }
        }
    }
}

/// LAW: until it listens, the tunnel is exactly its embedded flow: each
/// connect, trust or method event advances the flow as the flow's own model
/// says, and the tunnel adds no status, no attempt and no key report of its
/// own — only the listener bind after success. The flow's laws on attempt
/// order and key reports therefore carry over to the tunnel unchanged: both
/// machines run the same connect + trust + authenticate sequence.
pub proof fn lemma_tunnel_runs_auth_flow(m: TunnelModel, ae: AuthEvent)
    requires
        !m.listening,
    ensures
        ({
            let res = m.auth.step_model(ae);
            let (m1, acts) = tunnel_auth_dispatch(m, ae);
            &&& m1.auth == res.0
            &&& m1.active == m.active
            &&& attempts_of(acts) == attempts_of(res.1)
            &&& new_key_reports(acts) == new_key_reports(res.1)
            &&& emitted_ranks(acts, m.auth.has_password) == emitted_ranks(
                res.1,
                m.auth.has_password,
            )
        }),
{
    let res = m.auth.step_model(ae);
    let (m1, acts) = tunnel_auth_dispatch(m, ae);
    if res.0.phase == AuthPhase::Authenticated {
        let tail = seq![Action::BindListener];
        lemma_attempts_of_none(tail);
        lemma_attempts_of_add(res.1, tail);
        lemma_new_key_reports_none(tail);
        lemma_new_key_reports_add(res.1, tail);
        lemma_emitted_ranks_none(tail, m.auth.has_password);
        lemma_emitted_ranks_add(res.1, tail, m.auth.has_password);
        assert(attempts_of(acts) =~= attempts_of(res.1));
        assert(emitted_ranks(acts, m.auth.has_password) =~= emitted_ranks(
            res.1,
            m.auth.has_password,
        ));
    }
}

/// Running the forwarder over a whole event sequence, collecting every action.
pub open spec fn tunnel_run(m: TunnelModel, es: Seq<TunnelEvent>) -> (TunnelModel, Seq<Action>)
    decreases es.len(),
{
    if es.len() == 0 {
        (m, Seq::empty())
    } else {
        let head = tunnel_step_model(m, es.first());
        let rest = tunnel_run(head.0, es.drop_first());
        (rest.0, head.1 + rest.1)
    }
}

/// The rank every status a tunnel in this state has already emitted stays at
/// or under; whatever it emits next lies strictly above.
pub open spec fn tunnel_floor(m: TunnelModel) -> int {
    if m.closed {
        100
    } else if m.listening {
        7
    } else {
        auth_floor(m.auth)
    }
}

/// What one step contributes to the status order.
proof fn lemma_tunnel_step_status_order(m: TunnelModel, e: TunnelEvent)
    requires
        attempt_inv(m.auth),
    ensures
        ({
            let (m1, acts) = tunnel_step_model(m, e);
            let ranks = emitted_ranks(acts, m.auth.has_password);
            &&& m1.auth.has_password == m.auth.has_password
            &&& attempt_inv(m1.auth)
            &&& ascending_above(ranks, tunnel_floor(m))
            &&& tunnel_floor(m1) >= tunnel_floor(m)
            &&& ranks.len() > 0 ==> tunnel_floor(m1) >= ranks.last()
        }),
{
    let (m1, acts) = tunnel_step_model(m, e);
    let pw = m.auth.has_password;
    if m.closed {
        lemma_emitted_ranks_none(acts, pw);
        return ;
    }
    match e {
        TunnelEvent::Connected { .. }
        | TunnelEvent::ConnectFailed { .. }
        | TunnelEvent::TrustDecision(_)
        | TunnelEvent::MethodResult(_) => {
            if !m.listening {
                let ae = match e {
                    TunnelEvent::Connected { fingerprint } => AuthEvent::Connected { fingerprint },
                    TunnelEvent::ConnectFailed { timeout } => AuthEvent::ConnectFailed { timeout },
                    TunnelEvent::TrustDecision(trust) => AuthEvent::TrustDecision(trust),
                    TunnelEvent::MethodResult(res) => AuthEvent::MethodResult(res),
                    _ => AuthEvent::Cancelled,
                };
                let res = m.auth.step_model(ae);
                lemma_auth_step_status_order(m.auth, ae);
                lemma_step_trace(m.auth, ae);
                if res.0.phase == AuthPhase::Authenticated {
                    lemma_emitted_ranks_none(seq![Action::BindListener], pw);
                    lemma_emitted_ranks_add(res.1, seq![Action::BindListener], pw);
                    assert(emitted_ranks(acts, pw) =~= emitted_ranks(res.1, pw));
                }
            } else {
                lemma_emitted_ranks_none(acts, pw);
            }
        },
        _ => {
            lemma_emitted_ranks_none(acts, pw);
        },
    }
}

/// LAW: a tunnel reports its statuses strictly in the order of the shared
/// connect + trust + authenticate sequence, never repeating one; once it
/// listens, accepting and ending forwards reports nothing further.
pub proof fn lemma_tunnel_status_order(m: TunnelModel, es: Seq<TunnelEvent>)
    requires
        attempt_inv(m.auth),
    ensures
        ({
            let (m2, tr) = tunnel_run(m, es);
            let ranks = emitted_ranks(tr, m.auth.has_password);
            &&& ascending_above(ranks, tunnel_floor(m))
            &&& tunnel_floor(m2) >= tunnel_floor(m)
            &&& ranks.len() > 0 ==> tunnel_floor(m2) >= ranks.last()
        }),
    decreases es.len(),
{
    if es.len() != 0 {
        let (m1, a1) = tunnel_step_model(m, es.first());
        let rest = tunnel_run(m1, es.drop_first());
        lemma_tunnel_step_status_order(m, es.first());
        lemma_tunnel_status_order(m1, es.drop_first());
        lemma_emitted_ranks_add(a1, rest.1, m.auth.has_password);
        lemma_ascending_concat(
            emitted_ranks(a1, m.auth.has_password),
            emitted_ranks(rest.1, m.auth.has_password),
            tunnel_floor(m),
            tunnel_floor(m1),
        );
    }
}

/// LAW: one forward ending affects nothing else: the ended id leaves the
/// active set, every other forward stays, the accept loop keeps listening and
/// the tunnel stays open.
pub proof fn lemma_forward_ends_independently(m: TunnelModel, id: u64)
    requires
        m.wf(),
        !m.closed,
    ensures
        ({
            let (m2, acts) = tunnel_step_model(m, TunnelEvent::ForwardEnded(id));
            &&& !m2.active.contains(id)
            &&& forall|other: u64| other != id ==> m2.active.contains(other) == m.active.contains(
                other,
            )
            &&& m2.listening == m.listening
            &&& !m2.closed
            &&& m2.auth == m.auth
            &&& acts == Seq::<Action>::empty()
        }),
{
    let (m2, acts) = tunnel_step_model(m, TunnelEvent::ForwardEnded(id));
    if m.active.contains(id) {
        let k = m.active.index_of(id);
        assert forall|j: int| 0 <= j < m2.active.len() implies m2.active[j] != id by {
            let fj = if j < k {
                j
            } else {
                j + 1
            };
            assert(m2.active[j] == m.active[fj]);
        }
        assert forall|other: u64|
            other != id && m.active.contains(other) implies m2.active.contains(other) by {
            let w = choose|w: int| 0 <= w < m.active.len() && m.active[w] == other;
            if w < k {
                assert(m2.active[w] == other);
            } else {
                assert(m2.active[w - 1] == other);
            }
        }
        assert forall|other: u64|
            other != id && m2.active.contains(other) implies m.active.contains(other) by {
            let w = choose|w: int| 0 <= w < m2.active.len() && m2.active[w] == other;
            if w < k {
                assert(m.active[w] == other);
            } else {
                assert(m.active[w + 1] == other);
            }
        }
    }
}

/// LAW: while listening, each newly accepted connection opens exactly one new
/// forward for its id and disturbs no existing forward; forwards accepted
/// earlier keep relaying, so any number relay concurrently.
pub proof fn lemma_accept_adds_forward(m: TunnelModel, id: u64)
    requires
        m.wf(),
        !m.closed,
        m.listening,
        !m.active.contains(id),
    ensures
        ({
            let (m2, acts) = tunnel_step_model(m, TunnelEvent::Accepted(id));
            &&& m2.active.contains(id)
            &&& m2.active.len() == m.active.len() + 1
            &&& forall|other: u64| other != id ==> m2.active.contains(other) == m.active.contains(
                other,
            )
            &&& m2.listening
            &&& !m2.closed
            &&& acts == seq![Action::OpenForward(id)]
        }),
{
    let (m2, acts) = tunnel_step_model(m, TunnelEvent::Accepted(id));
    assert(m2.active.last() == id);
    assert forall|other: u64|
        other != id && m2.active.contains(other) implies m.active.contains(other) by {
        let w = choose|w: int| 0 <= w < m2.active.len() && m2.active[w] == other;
        assert(m.active[w] == other);
    }
    assert forall|other: u64|
        other != id && m.active.contains(other) implies m2.active.contains(other) by {
        let w = choose|w: int| 0 <= w < m.active.len() && m.active[w] == other;
        assert(m2.active[w] == other);
    }
}

/// LAW: only cancellation ends the accept loop: it stops listening, closes the
/// tunnel, and releases the transport.
pub proof fn lemma_only_cancel_stops_accepting(m: TunnelModel, e: TunnelEvent)
    requires
        !m.closed,
        m.listening,
    ensures
        ({
            let (m2, acts) = tunnel_step_model(m, e);
            &&& (e == TunnelEvent::Cancelled ==> !m2.listening && m2.closed && acts == seq![
                Action::Disconnect,
            ])
            &&& (e != TunnelEvent::Cancelled ==> m2.listening && !m2.closed)
        }),
{
}

} // verus!
