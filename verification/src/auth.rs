//! The host-key trust and authentication machine.
//!
//! One connection is carried from its first transport attempt through host-key
//! verification and the fixed-order authentication sequence: keyboard-
//! interactive first, then password, then public key, skipping methods with no
//! resolved credential. The first success stops the sequence. The machine is a
//! pure step function; its driver performs the returned actions and feeds the
//! outcome back as the next event.

use vstd::prelude::*;

use crate::events::{Action, AuthMethod, StatusType};

verus! {

/// Why a flow ended without an authenticated session.
#[derive(Clone, Copy, PartialEq, Eq, Structural, Debug)]
pub enum CloseReason {
    /// The transport could not be opened.
    ConnectFailed,
    /// The transport attempt timed out.
    ConnectTimeout,
    /// The user rejected the reported host key.
    KeyRejected,
    /// Every available method was tried and failed.
    AuthExhausted,
    /// The session was cancelled.
    Cancelled,
}

/// Where the flow stands.
#[derive(Clone, Copy, PartialEq, Eq, Structural, Debug)]
pub enum AuthPhase {
    /// Nothing attempted yet.
    Idle,
    /// The transport is being opened.
    Connecting,
    /// A key with no stored match was reported; waiting for the user.
    AwaitingTrust,
    /// One method is being attempted.
    Trying(AuthMethod),
    /// A method succeeded.
    Authenticated,
    /// The flow ended without success.
    Failed(CloseReason),
}

/// The connect + trust + authenticate machine for one session.
pub struct AuthFlow {
    /// The fingerprint trusted on an earlier connection, if any.
    pub stored_fingerprint: Option<String>,
    /// Whether a password was resolved for this host.
    pub has_password: bool,
    /// Whether private-key material was resolved for this host.
    pub has_key: bool,
    pub phase: AuthPhase,
}

/// What the driver reports back to the flow.
pub enum AuthEvent {
    /// The transport opened; carries the server key's fingerprint.
    Connected { fingerprint: String },
    /// The transport could not be opened.
    ConnectFailed { timeout: bool },
    /// The user's answer to a newly reported key.
    TrustDecision(bool),
    /// Whether the method just attempted succeeded.
    MethodResult(bool),
    /// Cancellation was signalled.
    Cancelled,
}

/// The methods attempted for a host, in attempt order: keyboard-interactive
/// always, password only when one was resolved, public key only when key
/// material was resolved.
pub open spec fn method_order(has_password: bool, has_key: bool) -> Seq<AuthMethod> {
    seq![AuthMethod::KeyboardInteractive] + (if has_password {
        seq![AuthMethod::Password]
    } else {
        Seq::empty()
    }) + (if has_key {
        seq![AuthMethod::PublicKey]
    } else {
        Seq::empty()
    })
}

/// The method attempted after `m` fails, if any remains.
pub open spec fn next_method(m: AuthMethod, has_password: bool, has_key: bool) -> Option<
    AuthMethod,
> {
    match m {
        AuthMethod::KeyboardInteractive => if has_password {
            Some(AuthMethod::Password)
        } else if has_key {
            Some(AuthMethod::PublicKey)
        } else {
            None
        },
        AuthMethod::Password => if has_key {
            Some(AuthMethod::PublicKey)
        } else {
            None
        },
        AuthMethod::PublicKey => None,
    }
}

/// Whether the reported fingerprint matches the stored one.
pub open spec fn spec_trusts(stored: Option<String>, fingerprint: String) -> bool {
    match stored {
        Some(s) => s@ == fingerprint@,
        None => false,
    }
}

/// The actions that start an attempt of `m`: announce it, then try it.
pub open spec fn attempt_actions(m: AuthMethod) -> Seq<Action> {
    seq![Action::Emit(StatusType::TryingToAuthenticate(m)), Action::Attempt(m)]
}

impl AuthFlow {
    /// A flow for a host with the given stored fingerprint and resolved
    /// credential shape, with nothing attempted yet.
    pub fn new(stored_fingerprint: Option<String>, has_password: bool, has_key: bool) -> (r: Self)
        ensures
            r == (AuthFlow {
                stored_fingerprint,
                has_password,
                has_key,
                phase: AuthPhase::Idle,
            }),
    {
        AuthFlow { stored_fingerprint, has_password, has_key, phase: AuthPhase::Idle }
    }

    /// What `start` does: announce the connection attempt and open the
    /// transport.
    pub open spec fn start_model(self) -> (AuthFlow, Seq<Action>) {
        match self.phase {
            AuthPhase::Idle => (
                AuthFlow { phase: AuthPhase::Connecting, ..self },
                seq![Action::Emit(StatusType::Connecting), Action::Connect],
            ),
            _ => (self, Seq::empty()),
        }
    }

    /// What one step does for each phase and event.
    pub open spec fn step_model(self, e: AuthEvent) -> (AuthFlow, Seq<Action>) {
        match (self.phase, e) {
            (AuthPhase::Connecting, AuthEvent::Connected { fingerprint }) => {
                if spec_trusts(self.stored_fingerprint, fingerprint) {
                    (
                        AuthFlow {
                            phase: AuthPhase::Trying(AuthMethod::KeyboardInteractive),
                            ..self
                        },
                        seq![Action::Emit(StatusType::PublicKeyVerified)] + attempt_actions(
                            AuthMethod::KeyboardInteractive,
                        ),
                    )
                } else {
                    (
                        AuthFlow { phase: AuthPhase::AwaitingTrust, ..self },
                        seq![Action::Emit(StatusType::NewPublicKeyFound(fingerprint))],
                    )
                }
            },
            (AuthPhase::Connecting, AuthEvent::ConnectFailed { timeout }) => {
                if timeout {
                    (
                        AuthFlow { phase: AuthPhase::Failed(CloseReason::ConnectTimeout), ..self },
                        seq![Action::Emit(StatusType::ConnectionTimeout)],
                    )
                } else {
                    (
                        AuthFlow { phase: AuthPhase::Failed(CloseReason::ConnectFailed), ..self },
                        seq![Action::Emit(StatusType::ConnectionFailed)],
                    )
                }
            },
            (AuthPhase::AwaitingTrust, AuthEvent::TrustDecision(trust)) => {
                if trust {
                    (
                        AuthFlow {
                            phase: AuthPhase::Trying(AuthMethod::KeyboardInteractive),
                            ..self
                        },
                        seq![Action::Emit(StatusType::SessionCreated)] + attempt_actions(
                            AuthMethod::KeyboardInteractive,
                        ),
                    )
                } else {
                    (
                        AuthFlow { phase: AuthPhase::Failed(CloseReason::KeyRejected), ..self },
                        seq![Action::Disconnect],
                    )
                }
            },
            (AuthPhase::Trying(_), AuthEvent::MethodResult(true)) => (
                AuthFlow { phase: AuthPhase::Authenticated, ..self },
                seq![Action::Emit(StatusType::AuthSuccess)],
            ),
            (AuthPhase::Trying(m), AuthEvent::MethodResult(false)) => {
                match next_method(m, self.has_password, self.has_key) {
                    Some(n) => (
                        AuthFlow { phase: AuthPhase::Trying(n), ..self },
                        attempt_actions(n),
                    ),
                    None => (
                        AuthFlow { phase: AuthPhase::Failed(CloseReason::AuthExhausted), ..self },
                        seq![Action::Emit(StatusType::AuthFailed), Action::Disconnect],
                    ),
                }
            },
            (AuthPhase::Failed(_), AuthEvent::Cancelled) => (self, Seq::empty()),
            (_, AuthEvent::Cancelled) => (
                AuthFlow { phase: AuthPhase::Failed(CloseReason::Cancelled), ..self },
                seq![Action::Disconnect],
            ),
            _ => (self, Seq::empty()),
        }
    }

    /// Announces and opens the transport; a no-op unless nothing was attempted
    /// yet.
    pub fn start(self) -> (r: (AuthFlow, Vec<Action>))
        ensures
            (r.0, r.1@) == self.start_model(),
    {
        match self.phase {
            AuthPhase::Idle => {
                let mut acts: Vec<Action> = Vec::new();
                acts.push(Action::Emit(StatusType::Connecting));
                acts.push(Action::Connect);
                let next = AuthFlow { phase: AuthPhase::Connecting, ..self };
                proof {
                    assert(acts@ =~= self.start_model().1);
                }
                (next, acts)
            },
            _ => {
                let acts: Vec<Action> = Vec::new();
                proof {
                    assert(acts@ =~= self.start_model().1);
                }
                (self, acts)
            },
        }
    }

    /// Advances the flow by one event and returns the actions to perform.
    pub fn step(self, e: AuthEvent) -> (r: (AuthFlow, Vec<Action>))
        ensures
            (r.0, r.1@) == self.step_model(e),
    {
        let ghost model = self.step_model(e);
        let mut acts: Vec<Action> = Vec::new();
        let next = match (self.phase, e) {
            (AuthPhase::Connecting, AuthEvent::Connected { fingerprint }) => {
                let trusted = match &self.stored_fingerprint {
                    Some(s) => *s == fingerprint,
                    None => false,
                };
                if trusted {
                    acts.push(Action::Emit(StatusType::PublicKeyVerified));
                    acts.push(
                        Action::Emit(
                            StatusType::TryingToAuthenticate(AuthMethod::KeyboardInteractive),
                        ),
                    );
                    acts.push(Action::Attempt(AuthMethod::KeyboardInteractive));
                    AuthFlow { phase: AuthPhase::Trying(AuthMethod::KeyboardInteractive), ..self }
                } else {
                    acts.push(Action::Emit(StatusType::NewPublicKeyFound(fingerprint)));
                    AuthFlow { phase: AuthPhase::AwaitingTrust, ..self }
                }
            },
            (AuthPhase::Connecting, AuthEvent::ConnectFailed { timeout }) => {
                if timeout {
                    acts.push(Action::Emit(StatusType::ConnectionTimeout));
                    AuthFlow { phase: AuthPhase::Failed(CloseReason::ConnectTimeout), ..self }
                } else {
                    acts.push(Action::Emit(StatusType::ConnectionFailed));
                    AuthFlow { phase: AuthPhase::Failed(CloseReason::ConnectFailed), ..self }
                }
            },
            (AuthPhase::AwaitingTrust, AuthEvent::TrustDecision(trust)) => {
                if trust {
                    acts.push(Action::Emit(StatusType::SessionCreated));
                    acts.push(
                        Action::Emit(
                            StatusType::TryingToAuthenticate(AuthMethod::KeyboardInteractive),
                        ),
                    );
                    acts.push(Action::Attempt(AuthMethod::KeyboardInteractive));
                    AuthFlow { phase: AuthPhase::Trying(AuthMethod::KeyboardInteractive), ..self }
                } else {
                    acts.push(Action::Disconnect);
                    AuthFlow { phase: AuthPhase::Failed(CloseReason::KeyRejected), ..self }
                }
            },
            (AuthPhase::Trying(_), AuthEvent::MethodResult(true)) => {
                acts.push(Action::Emit(StatusType::AuthSuccess));
                AuthFlow { phase: AuthPhase::Authenticated, ..self }
            },
            (AuthPhase::Trying(m), AuthEvent::MethodResult(false)) => {
                let next_m = match m {
                    AuthMethod::KeyboardInteractive => {
                        if self.has_password {
                            Some(AuthMethod::Password)
                        } else if self.has_key {
                            Some(AuthMethod::PublicKey)
                        } else {
                            None
                        }
                    },
                    AuthMethod::Password => {
                        if self.has_key {
                            Some(AuthMethod::PublicKey)
                        } else {
                            None
                        }
                    },
                    AuthMethod::PublicKey => None,
                };
                match next_m {
                    Some(n) => {
                        acts.push(Action::Emit(StatusType::TryingToAuthenticate(n)));
                        acts.push(Action::Attempt(n));
                        AuthFlow { phase: AuthPhase::Trying(n), ..self }
                    },
                    None => {
                        acts.push(Action::Emit(StatusType::AuthFailed));
                        acts.push(Action::Disconnect);
                        AuthFlow { phase: AuthPhase::Failed(CloseReason::AuthExhausted), ..self }
                    },
                }
            },
            (AuthPhase::Failed(_), AuthEvent::Cancelled) => self,
            (_, AuthEvent::Cancelled) => {
                acts.push(Action::Disconnect);
                AuthFlow { phase: AuthPhase::Failed(CloseReason::Cancelled), ..self }
            },
            _ => self,
        };
        proof {
            assert(acts@ =~= model.1);
        }
        (next, acts)
    }
}

/// Whether an action is an authentication attempt.
pub open spec fn is_attempt(a: Action) -> bool {
    match a {
        Action::Attempt(_) => true,
        _ => false,
    }
}

/// The method of an attempt action.
pub open spec fn attempt_method(a: Action) -> AuthMethod
    recommends
        is_attempt(a),
{
    match a {
        Action::Attempt(m) => m,
        _ => AuthMethod::KeyboardInteractive,
    }
}

/// The authentication methods attempted in a trace, in attempt order.
pub open spec fn attempts_of(actions: Seq<Action>) -> Seq<AuthMethod>
    decreases actions.len(),
{
    if actions.len() == 0 {
        Seq::empty()
    } else if is_attempt(actions.first()) {
        seq![attempt_method(actions.first())] + attempts_of(actions.drop_first())
    } else {
        attempts_of(actions.drop_first())
    }
}

/// Whether an action reports a key with no stored match.
pub open spec fn is_new_key_report(a: Action) -> bool {
    match a {
        Action::Emit(StatusType::NewPublicKeyFound(_)) => true,
        _ => false,
    }
}

/// How many times a trace reports a key with no stored match.
pub open spec fn new_key_reports(actions: Seq<Action>) -> nat
    decreases actions.len(),
{
    if actions.len() == 0 {
        0
    } else {
        (if is_new_key_report(actions.first()) {
            1nat
        } else {
            0nat
        }) + new_key_reports(actions.drop_first())
    }
}

/// Running the flow over a whole event sequence, collecting every action.
pub open spec fn run(f: AuthFlow, es: Seq<AuthEvent>) -> (AuthFlow, Seq<Action>)
    decreases es.len(),
{
    if es.len() == 0 {
        (f, Seq::empty())
    } else {
        let head = f.step_model(es.first());
        let rest = run(head.0, es.drop_first());
        (rest.0, head.1 + rest.1)
    }
}

/// Whether a method is available for a host with the given resolved
/// credential shape.
pub open spec fn valid_method(m: AuthMethod, has_password: bool, has_key: bool) -> bool {
    match m {
        AuthMethod::KeyboardInteractive => true,
        AuthMethod::Password => has_password,
        AuthMethod::PublicKey => has_key,
    }
}

/// The position of an available method in the attempt order.
pub open spec fn method_pos(m: AuthMethod, has_password: bool) -> int {
    match m {
        AuthMethod::KeyboardInteractive => 0,
        AuthMethod::Password => 1,
        AuthMethod::PublicKey => 1 + if has_password {
            1int
        } else {
            0int
        },
    }
}

/// How many methods a flow in this phase has attempted so far, when the phase
/// determines it; `None` for the terminal phases.
pub open spec fn tried_count(f: AuthFlow) -> Option<int> {
    match f.phase {
        AuthPhase::Idle => Some(0int),
        AuthPhase::Connecting => Some(0int),
        AuthPhase::AwaitingTrust => Some(0int),
        AuthPhase::Trying(m) => Some(method_pos(m, f.has_password) + 1),
        AuthPhase::Authenticated => None,
        AuthPhase::Failed(_) => None,
    }
}

/// A method under attempt is always one that is available.
pub open spec fn attempt_inv(f: AuthFlow) -> bool {
    match f.phase {
        AuthPhase::Trying(m) => valid_method(m, f.has_password, f.has_key),
        _ => true,
    }
}

/// Phases from which a key report can still be emitted.
pub open spec fn may_report(f: AuthFlow) -> bool {
    f.phase == AuthPhase::Idle || f.phase == AuthPhase::Connecting
}

pub proof fn lemma_attempts_of_none(s: Seq<Action>)
    requires
        forall|i: int| 0 <= i < s.len() ==> !is_attempt(s[i]),
    ensures
        attempts_of(s) == Seq::<AuthMethod>::empty(),
    decreases s.len(),
{
    if s.len() != 0 {
        lemma_attempts_of_none(s.drop_first());
    }
}

proof fn lemma_attempts_of_single(s: Seq<Action>, j: int)
    requires
        0 <= j < s.len(),
        is_attempt(s[j]),
        forall|i: int| 0 <= i < s.len() && i != j ==> !is_attempt(s[i]),
    ensures
        attempts_of(s) == seq![attempt_method(s[j])],
    decreases s.len(),
{
    if j == 0 {
        lemma_attempts_of_none(s.drop_first());
        assert(attempts_of(s) =~= seq![attempt_method(s[0])]);
    } else {
        lemma_attempts_of_single(s.drop_first(), j - 1);
    }
}

pub proof fn lemma_attempts_of_add(a: Seq<Action>, b: Seq<Action>)
    ensures
        attempts_of(a + b) == attempts_of(a) + attempts_of(b),
    decreases a.len(),
{
    if a.len() == 0 {
        assert(a + b =~= b);
        assert(attempts_of(a) + attempts_of(b) =~= attempts_of(b));
    } else {
        assert((a + b).drop_first() =~= a.drop_first() + b);
        lemma_attempts_of_add(a.drop_first(), b);
        assert((a + b).first() == a.first());
        assert(attempts_of(a + b) =~= attempts_of(a) + attempts_of(b));
    }
}

pub proof fn lemma_new_key_reports_none(s: Seq<Action>)
    requires
        forall|i: int| 0 <= i < s.len() ==> !is_new_key_report(s[i]),
    ensures
        new_key_reports(s) == 0,
    decreases s.len(),
{
    if s.len() != 0 {
        lemma_new_key_reports_none(s.drop_first());
    }
}

proof fn lemma_new_key_reports_single(s: Seq<Action>, j: int)
    requires
        0 <= j < s.len(),
        is_new_key_report(s[j]),
        forall|i: int| 0 <= i < s.len() && i != j ==> !is_new_key_report(s[i]),
    ensures
        new_key_reports(s) == 1,
    decreases s.len(),
{
    if j == 0 {
        lemma_new_key_reports_none(s.drop_first());
    } else {
        lemma_new_key_reports_single(s.drop_first(), j - 1);
    }
}

pub proof fn lemma_new_key_reports_add(a: Seq<Action>, b: Seq<Action>)
    ensures
        new_key_reports(a + b) == new_key_reports(a) + new_key_reports(b),
    decreases a.len(),
{
    if a.len() == 0 {
        assert(a + b =~= b);
    } else {
        assert((a + b).drop_first() =~= a.drop_first() + b);
        lemma_new_key_reports_add(a.drop_first(), b);
        assert((a + b).first() == a.first());
    }
}

/// In the attempt order, each available method sits at its position and is
/// followed exactly by the next available method.
proof fn lemma_method_order(has_password: bool, has_key: bool, m: AuthMethod)
    requires
        valid_method(m, has_password, has_key),
    ensures
        0 <= method_pos(m, has_password) < method_order(has_password, has_key).len(),
        method_order(has_password, has_key)[method_pos(m, has_password)] == m,
        match next_method(m, has_password, has_key) {
            Some(n) => valid_method(n, has_password, has_key) && method_pos(n, has_password)
                == method_pos(m, has_password) + 1,
            None => method_pos(m, has_password) + 1 == method_order(has_password, has_key).len(),
        },
{
    let order = method_order(has_password, has_key);
    if has_password {
        if has_key {
            assert(order =~= seq![
                AuthMethod::KeyboardInteractive,
                AuthMethod::Password,
                AuthMethod::PublicKey,
            ]);
        } else {
            assert(order =~= seq![AuthMethod::KeyboardInteractive, AuthMethod::Password]);
        }
    } else {
        if has_key {
            assert(order =~= seq![AuthMethod::KeyboardInteractive, AuthMethod::PublicKey]);
        } else {
            assert(order =~= seq![AuthMethod::KeyboardInteractive]);
        }
    }
}

/// Everything one step preserves and contributes to a trace: the host
/// configuration is untouched, attempts extend the attempt order by exactly
/// the segment the phase change accounts for, and a key is reported exactly on
/// the transition into `AwaitingTrust`.
pub proof fn lemma_step_trace(f: AuthFlow, e: AuthEvent)
    requires
        attempt_inv(f),
    ensures
        ({
            let (f1, acts) = f.step_model(e);
            let order = method_order(f.has_password, f.has_key);
            &&& f1.stored_fingerprint == f.stored_fingerprint
            &&& f1.has_password == f.has_password
            &&& f1.has_key == f.has_key
            &&& attempt_inv(f1)
            &&& match (tried_count(f), tried_count(f1)) {
                (Some(n), Some(n1)) => 0 <= n <= n1 <= order.len() && attempts_of(acts)
                    == order.subrange(n, n1),
                (Some(n), None) => attempts_of(acts) == Seq::<AuthMethod>::empty() && (f1.phase
                    == AuthPhase::Failed(CloseReason::AuthExhausted) ==> n == order.len()),
                (None, Some(_)) => false,
                (None, None) => attempts_of(acts) == Seq::<AuthMethod>::empty(),
            }
            &&& new_key_reports(acts) == (if f.phase == AuthPhase::Connecting && f1.phase
                == AuthPhase::AwaitingTrust {
                1nat
            } else {
                0nat
            })
            &&& (f1.phase == AuthPhase::AwaitingTrust ==> f.phase == AuthPhase::Connecting
                || f.phase == AuthPhase::AwaitingTrust)
            &&& (!may_report(f) ==> !may_report(f1))
        }),
{
    let (f1, acts) = f.step_model(e);
    let order = method_order(f.has_password, f.has_key);
    match (f.phase, e) {
        (AuthPhase::Connecting, AuthEvent::Connected { fingerprint }) => {
            if spec_trusts(f.stored_fingerprint, fingerprint) {
                lemma_method_order(f.has_password, f.has_key, AuthMethod::KeyboardInteractive);
                lemma_attempts_of_single(acts, 2);
                assert(attempts_of(acts) =~= order.subrange(0, 1));
                lemma_new_key_reports_none(acts);
            } else {
                lemma_attempts_of_none(acts);
                assert(attempts_of(acts) =~= order.subrange(0, 0));
                lemma_new_key_reports_single(acts, 0);
            }
        },
        (AuthPhase::Connecting, AuthEvent::ConnectFailed { .. }) => {
            lemma_attempts_of_none(acts);
            lemma_new_key_reports_none(acts);
        },
        (AuthPhase::AwaitingTrust, AuthEvent::TrustDecision(trust)) => {
            if trust {
                lemma_method_order(f.has_password, f.has_key, AuthMethod::KeyboardInteractive);
                lemma_attempts_of_single(acts, 2);
                assert(attempts_of(acts) =~= order.subrange(0, 1));
            } else {
                lemma_attempts_of_none(acts);
            }
            lemma_new_key_reports_none(acts);
        },
        (AuthPhase::Trying(m), AuthEvent::MethodResult(res)) => {
            lemma_method_order(f.has_password, f.has_key, m);
            if res {
                lemma_attempts_of_none(acts);
            } else {
                match next_method(m, f.has_password, f.has_key) {
                    Some(n) => {
                        lemma_attempts_of_single(acts, 1);
                        let p = method_pos(m, f.has_password) + 1;
                        assert(attempts_of(acts) =~= order.subrange(p, p + 1));
                    },
                    None => {
                        lemma_attempts_of_none(acts);
                    },
                }
            }
            lemma_new_key_reports_none(acts);
        },
        _ => {
            lemma_attempts_of_none(acts);
            lemma_new_key_reports_none(acts);
            if tried_count(f).is_some() && tried_count(f1).is_some() {
                let n = tried_count(f).unwrap();
                assert(attempts_of(acts) =~= order.subrange(n, n));
            }
        },
    }
}

/// Everything a whole run preserves and contributes: the attempts form one
/// consecutive segment of the attempt order starting where the initial phase
/// left off; exhaustion means the whole order was attempted; at most one key
/// is ever reported, exactly one when the run stands at `AwaitingTrust`.
proof fn lemma_run_trace(f: AuthFlow, es: Seq<AuthEvent>)
    requires
        attempt_inv(f),
    ensures
        ({
            let (f2, tr) = run(f, es);
            let order = method_order(f.has_password, f.has_key);
            &&& f2.stored_fingerprint == f.stored_fingerprint
            &&& f2.has_password == f.has_password
            &&& f2.has_key == f.has_key
            &&& attempt_inv(f2)
            &&& match (tried_count(f), tried_count(f2)) {
                (Some(n), Some(n2)) => 0 <= n <= n2 <= order.len() && attempts_of(tr)
                    == order.subrange(n, n2),
                (Some(n), None) => (exists|k: int|
                    n <= k <= order.len() && attempts_of(tr) == order.subrange(n, k)) && (f2.phase
                    == AuthPhase::Failed(CloseReason::AuthExhausted) ==> attempts_of(tr)
                    == order.subrange(n, order.len() as int)),
                (None, Some(_)) => false,
                (None, None) => attempts_of(tr) == Seq::<AuthMethod>::empty(),
            }
            &&& (may_report(f) ==> new_key_reports(tr) <= 1 && (f2.phase
                == AuthPhase::AwaitingTrust ==> new_key_reports(tr) == 1))
            &&& (!may_report(f) ==> new_key_reports(tr) == 0 && !may_report(f2) && (f2.phase
                == AuthPhase::AwaitingTrust ==> f.phase == AuthPhase::AwaitingTrust))
        }),
    decreases es.len(),
{
    let (f2, tr) = run(f, es);
    let order = method_order(f.has_password, f.has_key);
    if es.len() == 0 {
        if tried_count(f).is_some() {
            let n = tried_count(f).unwrap();
            assert(attempts_of(tr) =~= order.subrange(n, n));
        }
    } else {
        let (f1, a1) = f.step_model(es.first());
        let rest = run(f1, es.drop_first());
        lemma_step_trace(f, es.first());
        lemma_run_trace(f1, es.drop_first());
        lemma_attempts_of_add(a1, rest.1);
        lemma_new_key_reports_add(a1, rest.1);
        match (tried_count(f), tried_count(f1), tried_count(f2)) {
            (Some(n), Some(n1), Some(n2)) => {
                assert(attempts_of(tr) =~= order.subrange(n, n2));
            },
            (Some(n), Some(n1), None) => {
                let k = choose|k: int|
                    n1 <= k <= order.len() && attempts_of(rest.1) == order.subrange(n1, k);
                assert(attempts_of(tr) =~= order.subrange(n, k));
                assert(n <= k <= order.len() && attempts_of(tr) == order.subrange(n, k));
                if f2.phase == AuthPhase::Failed(CloseReason::AuthExhausted) {
                    assert(attempts_of(tr) =~= order.subrange(n, order.len() as int));
                }
            },
            (Some(n), None, None) => {
                assert(attempts_of(rest.1) =~= Seq::<AuthMethod>::empty());
                assert(attempts_of(tr) =~= attempts_of(a1));
                assert(attempts_of(tr) =~= order.subrange(n, n));
                assert(n <= n <= order.len() && attempts_of(tr) == order.subrange(n, n));
                if f2.phase == AuthPhase::Failed(CloseReason::AuthExhausted) {
                    if f1.phase matches AuthPhase::Failed(_) {
                        lemma_terminal_reason_stable(f1, es.drop_first());
                    } else {
                        lemma_terminal_phase_stable(f1, es.drop_first());
                        assert(false);
                    }
                    assert(attempts_of(tr) =~= order.subrange(n, order.len() as int));
                }
            },
            (None, None, None) => {
                assert(attempts_of(tr) =~= Seq::<AuthMethod>::empty());
            },
            _ => {},
        }
    }
}

/// A terminal phase never changes again.
proof fn lemma_terminal_phase_stable(f: AuthFlow, es: Seq<AuthEvent>)
    requires
        tried_count(f).is_none(),
    ensures
        run(f, es).0.phase == f.phase || (f.phase == AuthPhase::Authenticated && run(f, es).0.phase
            == AuthPhase::Failed(CloseReason::Cancelled)),
    decreases es.len(),
{
    if es.len() != 0 {
        let (f1, _) = f.step_model(es.first());
        lemma_terminal_phase_stable(f1, es.drop_first());
    }
}

/// A failure reason never changes again.
proof fn lemma_terminal_reason_stable(f: AuthFlow, es: Seq<AuthEvent>)
    requires
        f.phase matches AuthPhase::Failed(_),
    ensures
        run(f, es).0.phase == f.phase,
    decreases es.len(),
{
    if es.len() != 0 {
        let (f1, _) = f.step_model(es.first());
        lemma_terminal_reason_stable(f1, es.drop_first());
    }
}

/// LAW: starting from a fresh flow, the methods attempted over any run are a
/// prefix of the fixed order keyboard-interactive, password, public key, with
/// the methods lacking a resolved credential skipped; and a run that ends
/// exhausted attempted that whole order.
pub proof fn lemma_auth_attempt_order(f: AuthFlow, es: Seq<AuthEvent>)
    requires
        f.phase == AuthPhase::Idle || f.phase == AuthPhase::Connecting,
    ensures
        ({
            let (f2, tr) = run(f, es);
            let order = method_order(f.has_password, f.has_key);
            &&& attempts_of(tr).len() <= order.len()
            &&& attempts_of(tr) == order.take(attempts_of(tr).len() as int)
            &&& (f2.phase == AuthPhase::Failed(CloseReason::AuthExhausted) ==> attempts_of(tr)
                == order)
        }),
{
    let (f2, tr) = run(f, es);
    let order = method_order(f.has_password, f.has_key);
    lemma_run_trace(f, es);
    match tried_count(f2) {
        Some(n2) => {
            assert(attempts_of(tr) == order.subrange(0, n2));
            assert(order.take(n2) =~= order.subrange(0, n2));
        },
        None => {
            let k = choose|k: int|
                0 <= k <= order.len() && attempts_of(tr) == order.subrange(0, k);
            assert(order.take(k) =~= order.subrange(0, k));
            if f2.phase == AuthPhase::Failed(CloseReason::AuthExhausted) {
                assert(order.subrange(0, order.len() as int) =~= order);
            }
        },
    }
}

/// LAW: the first success halts the sequence; an authenticated flow never
/// attempts another method.
pub proof fn lemma_success_halts(f: AuthFlow, es: Seq<AuthEvent>)
    requires
        f.phase == AuthPhase::Authenticated,
    ensures
        attempts_of(run(f, es).1).len() == 0,
{
    lemma_run_trace(f, es);
}

/// LAW: over any run from a fresh flow at most one new key is ever reported,
/// and a run standing at the trust decision has reported exactly one.
pub proof fn lemma_new_key_reported_once(f: AuthFlow, es: Seq<AuthEvent>)
    requires
        f.phase == AuthPhase::Idle || f.phase == AuthPhase::Connecting,
    ensures
        new_key_reports(run(f, es).1) <= 1,
        run(f, es).0.phase == AuthPhase::AwaitingTrust ==> new_key_reports(run(f, es).1) == 1,
{
    lemma_run_trace(f, es);
}

/// LAW: while a trust decision is pending every event other than the decision
/// or cancellation is ignored: the flow blocks.
pub proof fn lemma_awaiting_trust_blocks(f: AuthFlow, e: AuthEvent)
    requires
        f.phase == AuthPhase::AwaitingTrust,
        !(e matches AuthEvent::TrustDecision(_)),
        e != AuthEvent::Cancelled,
    ensures
        f.step_model(e) == (f, Seq::<Action>::empty()),
{
}

/// LAW: rejecting the reported key ends the flow with a key-rejection error;
/// accepting it proceeds directly to the first authentication attempt.
pub proof fn lemma_trust_decision(f: AuthFlow, trust: bool)
    requires
        f.phase == AuthPhase::AwaitingTrust,
    ensures
        ({
            let (f1, acts) = f.step_model(AuthEvent::TrustDecision(trust));
            if trust {
                f1.phase == AuthPhase::Trying(AuthMethod::KeyboardInteractive) && acts
                    == seq![Action::Emit(StatusType::SessionCreated)] + attempt_actions(
                    AuthMethod::KeyboardInteractive,
                )
            } else {
                f1.phase == AuthPhase::Failed(CloseReason::KeyRejected) && acts
                    == seq![Action::Disconnect]
            }
        }),
{
}

/// LAW: a reported fingerprint that matches the stored one is trusted
/// silently: no key is reported and authentication starts immediately.
pub proof fn lemma_stored_match_proceeds(f: AuthFlow, fingerprint: String)
    requires
        f.phase == AuthPhase::Connecting,
        spec_trusts(f.stored_fingerprint, fingerprint),
    ensures
        ({
            let (f1, acts) = f.step_model(AuthEvent::Connected { fingerprint });
            &&& f1.phase == AuthPhase::Trying(AuthMethod::KeyboardInteractive)
            &&& acts == seq![Action::Emit(StatusType::PublicKeyVerified)] + attempt_actions(
                AuthMethod::KeyboardInteractive,
            )
            &&& new_key_reports(acts) == 0
        }),
{
    let (f1, acts) = f.step_model(AuthEvent::Connected { fingerprint });
    lemma_new_key_reports_none(acts);
}

/// Whether an event is no connection report, or one whose fingerprint reads
/// `s`.
pub open spec fn reports_fingerprint(e: AuthEvent, s: String) -> bool {
    match e {
        AuthEvent::Connected { fingerprint } => fingerprint@ == s@,
        _ => true,
    }
}

/// LAW: a host whose stored fingerprint matches everything the server reports
/// never sees a new-key report over any run.
pub proof fn lemma_stored_fingerprint_match(f: AuthFlow, es: Seq<AuthEvent>, s: String)
    requires
        attempt_inv(f),
        f.stored_fingerprint == Some(s),
        f.phase != AuthPhase::AwaitingTrust,
        forall|i: int| 0 <= i < es.len() ==> #[trigger] reports_fingerprint(es[i], s),
    ensures
        new_key_reports(run(f, es).1) == 0,
    decreases es.len(),
{
    if es.len() != 0 {
        let (f1, a1) = f.step_model(es.first());
        lemma_step_trace(f, es.first());
        assert(reports_fingerprint(es[0], s));
        assert(new_key_reports(a1) == 0);
        assert(forall|i: int|
            0 <= i < es.drop_first().len() ==> #[trigger] reports_fingerprint(
                es.drop_first()[i],
                s,
            ));
        lemma_stored_fingerprint_match(f1, es.drop_first(), s);
        lemma_new_key_reports_add(a1, run(f1, es.drop_first()).1);
    }
}

/// The place of a status in the fixed order of a session's phases. Statuses
/// of one rank exclude each other: no run emits two of them.
pub open spec fn status_rank(s: StatusType, has_password: bool) -> int {
    match s {
        StatusType::Pending => 0,
        StatusType::Connecting => 1,
        StatusType::ConnectionFailed => 2,
        StatusType::ConnectionTimeout => 2,
        StatusType::NewPublicKeyFound(_) => 2,
        StatusType::SessionCreated => 3,
        StatusType::PublicKeyVerified => 3,
        StatusType::TryingToAuthenticate(m) => 4 + method_pos(m, has_password),
        StatusType::AuthSuccess => 7,
        StatusType::AuthFailed => 7,
        StatusType::ChannelOpened => 8,
        StatusType::StartStreaming => 9,
    }
}

/// The rank every status a flow in this phase has already emitted stays at or
/// under; whatever it emits next lies strictly above.
pub open spec fn auth_floor(f: AuthFlow) -> int {
    match f.phase {
        AuthPhase::Idle => 0,
        AuthPhase::Connecting => 1,
        AuthPhase::AwaitingTrust => 2,
        AuthPhase::Trying(m) => 4 + method_pos(m, f.has_password),
        AuthPhase::Authenticated => 7,
        AuthPhase::Failed(_) => 100,
    }
}

/// Whether an action reports a status.
pub open spec fn is_emit(a: Action) -> bool {
    match a {
        Action::Emit(_) => true,
        _ => false,
    }
}

/// The rank of the status an emitting action reports.
pub open spec fn emit_rank(a: Action, has_password: bool) -> int
    recommends
        is_emit(a),
{
    match a {
        Action::Emit(s) => status_rank(s, has_password),
        _ => 0,
    }
}

/// The ranks of the statuses a trace reports, in emission order.
pub open spec fn emitted_ranks(actions: Seq<Action>, has_password: bool) -> Seq<int>
    decreases actions.len(),
{
    if actions.len() == 0 {
        Seq::empty()
    } else if is_emit(actions.first()) {
        seq![emit_rank(actions.first(), has_password)] + emitted_ranks(
            actions.drop_first(),
            has_password,
        )
    } else {
        emitted_ranks(actions.drop_first(), has_password)
    }
}

/// Whether a rank sequence strictly ascends and stays strictly above a floor.
pub open spec fn ascending_above(s: Seq<int>, floor: int) -> bool {
    &&& forall|i: int| 0 <= i < s.len() ==> #[trigger] s[i] > floor
    &&& forall|i: int, j: int| 0 <= i < j < s.len() ==> s[i] < s[j]
}

pub proof fn lemma_emitted_ranks_none(s: Seq<Action>, has_password: bool)
    requires
        forall|i: int| 0 <= i < s.len() ==> !is_emit(s[i]),
    ensures
        emitted_ranks(s, has_password) == Seq::<int>::empty(),
    decreases s.len(),
{
    if s.len() != 0 {
        lemma_emitted_ranks_none(s.drop_first(), has_password);
    }
}

proof fn lemma_emitted_ranks_single(s: Seq<Action>, has_password: bool, j: int)
    requires
        0 <= j < s.len(),
        is_emit(s[j]),
        forall|i: int| 0 <= i < s.len() && i != j ==> !is_emit(s[i]),
    ensures
        emitted_ranks(s, has_password) == seq![emit_rank(s[j], has_password)],
    decreases s.len(),
{
    if j == 0 {
        lemma_emitted_ranks_none(s.drop_first(), has_password);
        assert(emitted_ranks(s, has_password) =~= seq![emit_rank(s[0], has_password)]);
    } else {
        lemma_emitted_ranks_single(s.drop_first(), has_password, j - 1);
    }
}

proof fn lemma_emitted_ranks_two(s: Seq<Action>, has_password: bool, j1: int, j2: int)
    requires
        0 <= j1 < j2 < s.len(),
        is_emit(s[j1]),
        is_emit(s[j2]),
        forall|i: int| 0 <= i < s.len() && i != j1 && i != j2 ==> !is_emit(s[i]),
    ensures
        emitted_ranks(s, has_password) == seq![
            emit_rank(s[j1], has_password),
            emit_rank(s[j2], has_password),
        ],
    decreases s.len(),
{
    if j1 == 0 {
        lemma_emitted_ranks_single(s.drop_first(), has_password, j2 - 1);
        assert(emitted_ranks(s, has_password) =~= seq![
            emit_rank(s[0], has_password),
            emit_rank(s[j2], has_password),
        ]);
    } else {
        lemma_emitted_ranks_two(s.drop_first(), has_password, j1 - 1, j2 - 1);
    }
}

pub proof fn lemma_emitted_ranks_add(a: Seq<Action>, b: Seq<Action>, has_password: bool)
    ensures
        emitted_ranks(a + b, has_password) == emitted_ranks(a, has_password) + emitted_ranks(
            b,
            has_password,
        ),
    decreases a.len(),
{
    if a.len() == 0 {
        assert(a + b =~= b);
        assert(emitted_ranks(a, has_password) + emitted_ranks(b, has_password) =~= emitted_ranks(
            b,
            has_password,
        ));
    } else {
        assert((a + b).drop_first() =~= a.drop_first() + b);
        lemma_emitted_ranks_add(a.drop_first(), b, has_password);
        assert((a + b).first() == a.first());
        assert(emitted_ranks(a + b, has_password) =~= emitted_ranks(a, has_password)
            + emitted_ranks(b, has_password));
    }
}

/// Two ascending runs concatenate when the second's floor covers the first's
/// last rank.
pub proof fn lemma_ascending_concat(a: Seq<int>, b: Seq<int>, floor: int, mid: int)
    requires
        ascending_above(a, floor),
        ascending_above(b, mid),
        mid >= floor,
        a.len() > 0 ==> mid >= a.last(),
    ensures
        ascending_above(a + b, floor),
{
    assert forall|i: int| 0 <= i < (a + b).len() implies #[trigger] (a + b)[i] > floor by {
        if i < a.len() {
            assert(a[i] > floor);
        } else {
            assert(b[i - a.len()] > mid);
        }
    }
    assert forall|i: int, j: int| 0 <= i < j < (a + b).len() implies (a + b)[i] < (a + b)[j] by {
        if j < a.len() {
            assert(a[i] < a[j]);
        } else if i >= a.len() {
            assert(b[i - a.len()] < b[j - a.len()]);
        } else {
            assert(a[i] <= a.last());
            assert(b[j - a.len()] > mid);
        }
    }
}

/// What one step contributes to the status order: every status it reports lies
/// strictly above the phase's floor, in strictly ascending ranks, and the next
/// phase's floor covers the last report.
pub proof fn lemma_auth_step_status_order(f: AuthFlow, e: AuthEvent)
    requires
        attempt_inv(f),
    ensures
        ({
            let (f1, acts) = f.step_model(e);
            let ranks = emitted_ranks(acts, f.has_password);
            &&& ascending_above(ranks, auth_floor(f))
            &&& auth_floor(f1) >= auth_floor(f)
            &&& ranks.len() > 0 ==> auth_floor(f1) >= ranks.last()
        }),
{
    let (f1, acts) = f.step_model(e);
    match (f.phase, e) {
        (AuthPhase::Connecting, AuthEvent::Connected { fingerprint }) => {
            if spec_trusts(f.stored_fingerprint, fingerprint) {
                lemma_emitted_ranks_two(acts, f.has_password, 0, 1);
            } else {
                lemma_emitted_ranks_single(acts, f.has_password, 0);
            }
        },
        (AuthPhase::Connecting, AuthEvent::ConnectFailed { .. }) => {
            lemma_emitted_ranks_single(acts, f.has_password, 0);
        },
        (AuthPhase::AwaitingTrust, AuthEvent::TrustDecision(trust)) => {
            if trust {
                lemma_emitted_ranks_two(acts, f.has_password, 0, 1);
            } else {
                lemma_emitted_ranks_none(acts, f.has_password);
            }
        },
        (AuthPhase::Trying(m), AuthEvent::MethodResult(res)) => {
            lemma_method_order(f.has_password, f.has_key, m);
            if res {
                lemma_emitted_ranks_single(acts, f.has_password, 0);
            } else {
                match next_method(m, f.has_password, f.has_key) {
                    Some(_) => {
                        lemma_emitted_ranks_single(acts, f.has_password, 0);
                    },
                    None => {
                        lemma_emitted_ranks_single(acts, f.has_password, 0);
                    },
                }
            }
        },
        _ => {
            lemma_emitted_ranks_none(acts, f.has_password);
        },
    }
}

/// LAW: over any run, the statuses a flow reports are strictly ordered by the
/// phases they announce: each phase's status comes after every earlier phase's
/// and no status is ever repeated.
pub proof fn lemma_auth_status_order(f: AuthFlow, es: Seq<AuthEvent>)
    requires
        attempt_inv(f),
    ensures
        ({
            let (f2, tr) = run(f, es);
            let ranks = emitted_ranks(tr, f.has_password);
            &&& ascending_above(ranks, auth_floor(f))
            &&& auth_floor(f2) >= auth_floor(f)
            &&& ranks.len() > 0 ==> auth_floor(f2) >= ranks.last()
        }),
    decreases es.len(),
{
    if es.len() != 0 {
        let (f1, a1) = f.step_model(es.first());
        let rest = run(f1, es.drop_first());
        lemma_auth_step_status_order(f, es.first());
        lemma_step_trace(f, es.first());
        lemma_auth_status_order(f1, es.drop_first());
        lemma_emitted_ranks_add(a1, rest.1, f.has_password);
        lemma_ascending_concat(
            emitted_ranks(a1, f.has_password),
            emitted_ranks(rest.1, f.has_password),
            auth_floor(f),
            auth_floor(f1),
        );
    }
}

/// Whether a prompt is the literal password prompt the machine answers.
pub open spec fn is_password_prompt(q: String) -> bool {
    q@ == "Password: "@
}

/// Builds the answers to one round of keyboard-interactive prompts: every
/// literal password prompt is answered with the resolved password, in prompt
/// order; all other prompts are left unanswered.
pub fn kbd_interactive_responses(prompts: &Vec<String>, password: &Option<String>) -> (r: Vec<
    String,
>)
    ensures
        match password {
            None => r@.len() == 0,
            Some(p) => {
                &&& r@.len() == prompts@.filter(|q: String| is_password_prompt(q)).len()
                &&& forall|i: int| 0 <= i < r@.len() ==> #[trigger] r@[i]@ == p@
            },
        },
{
    let password_prompt: String = "Password: ".to_owned();
    let mut r: Vec<String> = Vec::new();
    let mut k: usize = 0;
    while k < prompts.len()
        invariant
            0 <= k <= prompts@.len(),
            password_prompt@ == "Password: "@,
            match password {
                None => r@.len() == 0,
                Some(p) => {
                    &&& r@.len() == prompts@.take(k as int).filter(
                        |q: String| is_password_prompt(q),
                    ).len()
                    &&& forall|i: int| 0 <= i < r@.len() ==> #[trigger] r@[i]@ == p@
                },
            },
        decreases prompts@.len() - k,
    {
        let matched = prompts[k] == password_prompt;
        if matched {
            if let Some(p) = password {
                r.push(p.clone());
            }
        }
        proof {
            let f = |q: String| is_password_prompt(q);
            reveal(Seq::filter);
            assert(prompts@.take(k as int + 1).drop_last() =~= prompts@.take(k as int));
            assert(prompts@.take(k as int + 1).last() == prompts@[k as int]);
        }
        k += 1;
    }
    proof {
        assert(prompts@.take(prompts@.len() as int) =~= prompts@);
    }
    r
}

} // verus!
