//! The controller of one interactive session.
//!
//! It embeds the connect/trust/authenticate flow, opens the interactive
//! channel on success, and then relays: client input to the channel in arrival
//! order, channel output to the front end in production order, resizes to the
//! channel's window control. Client data arriving before the channel exists is
//! queued and acted on, in order, once streaming starts. Cancellation or a
//! channel end closes the session; a closed session does nothing ever after.

use vstd::prelude::*;

use crate::auth::{
    ascending_above, attempt_inv, attempts_of, auth_floor, emitted_ranks, lemma_ascending_concat,
    lemma_attempts_of_add, lemma_attempts_of_none, lemma_auth_step_status_order,
    lemma_emitted_ranks_add, lemma_emitted_ranks_none, lemma_new_key_reports_add,
    lemma_new_key_reports_none, lemma_step_trace, may_report, new_key_reports, AuthEvent, AuthFlow,
    AuthPhase,
};
use crate::events::{Action, StatusType};

verus! {

/// Where the session's channel stands.
#[derive(Clone, Copy, PartialEq, Eq, Structural, Debug)]
pub enum ChannelPhase {
    /// Authentication has not succeeded yet.
    Inactive,
    /// The interactive channel was requested.
    Opening,
    /// Bytes are being relayed.
    Streaming,
    /// The session is over; nothing further happens.
    Closed,
}

/// A client data event that arrived before the channel existed.
pub enum PendingIo {
    In(String),
    Size(u32, u32),
}

impl Clone for PendingIo {
    fn clone(&self) -> (r: Self)
        ensures
            r == *self,
    {
        match self {
            PendingIo::In(d) => PendingIo::In(d.clone()),
            PendingIo::Size(cols, rows) => PendingIo::Size(*cols, *rows),
        }
    }
}

/// What the driver reports to the controller.
pub enum SessionEvent {
    /// The transport opened; carries the server key's fingerprint.
    Connected { fingerprint: String },
    /// The transport could not be opened.
    ConnectFailed { timeout: bool },
    /// The user's answer to a newly reported key.
    TrustDecision(bool),
    /// Whether the method just attempted succeeded.
    MethodResult(bool),
    /// The channel, pseudo-terminal and shell are ready.
    ChannelReady,
    /// The channel could not be opened.
    ChannelFailed,
    /// Client input for the remote.
    Input(String),
    /// A client resize request: columns and rows.
    Resize(u32, u32),
    /// A chunk the remote produced.
    ChannelData(Vec<u8>),
    /// The remote closed the channel.
    ChannelEof,
    /// Cancellation was signalled.
    Cancelled,
}

/// The controller's state as contracts speak of it.
pub struct SessionModel {
    pub auth: AuthFlow,
    pub channel: ChannelPhase,
    pub pending: Seq<PendingIo>,
}

/// The controller of one interactive session.
pub struct SessionController {
    /// The embedded connect/trust/authenticate flow.
    pub auth: AuthFlow,
    /// Where the channel stands.
    pub channel: ChannelPhase,
    /// Client data queued until the channel exists.
    pub pending: Vec<PendingIo>,
}

impl View for SessionController {
    type V = SessionModel;

    open spec fn view(&self) -> SessionModel {
        SessionModel { auth: self.auth, channel: self.channel, pending: self.pending@ }
    }
}

/// The action a queued client data event turns into once the channel exists.
pub open spec fn io_action(p: PendingIo) -> Action {
    match p {
        PendingIo::In(d) => Action::Write(d),
        PendingIo::Size(cols, rows) => Action::WindowChange(cols, rows),
    }
}

/// The actions that act on a whole queue, in arrival order.
pub open spec fn flush_actions(pending: Seq<PendingIo>) -> Seq<Action> {
    pending.map_values(|p: PendingIo| io_action(p))
}

/// How an authentication outcome advances the session: success requests the
/// interactive channel, failure closes the session.
pub open spec fn auth_dispatch(m: SessionModel, ae: AuthEvent) -> (SessionModel, Seq<Action>) {
    if m.channel != ChannelPhase::Inactive {
        (m, Seq::empty())
    } else {
        let res = m.auth.step_model(ae);
        if res.0.phase == AuthPhase::Authenticated {
            (
                SessionModel { auth: res.0, channel: ChannelPhase::Opening, ..m },
                res.1 + seq![Action::OpenShellChannel],
            )
        } else if res.0.phase matches AuthPhase::Failed(_) {
            (SessionModel { auth: res.0, channel: ChannelPhase::Closed, ..m }, res.1)
        } else {
            (SessionModel { auth: res.0, ..m }, res.1)
        }
    }
}

/// What one step of the session controller does.
pub open spec fn session_step_model(m: SessionModel, e: SessionEvent) -> (SessionModel, Seq<
    Action,
>) {
    if m.channel == ChannelPhase::Closed {
        (m, Seq::empty())
    } else {
        match e {
            SessionEvent::Cancelled => (
                SessionModel { channel: ChannelPhase::Closed, ..m },
                seq![Action::Disconnect],
            ),
            SessionEvent::Input(d) => if m.channel == ChannelPhase::Streaming {
                (m, seq![Action::Write(d)])
            } else {
                (SessionModel { pending: m.pending.push(PendingIo::In(d)), ..m }, Seq::empty())
            },
            SessionEvent::Resize(cols, rows) => if m.channel == ChannelPhase::Streaming {
                (m, seq![Action::WindowChange(cols, rows)])
            } else {
                (
                    SessionModel { pending: m.pending.push(PendingIo::Size(cols, rows)), ..m },
                    Seq::empty(),
                )
            },
            SessionEvent::ChannelData(bytes) => if m.channel == ChannelPhase::Streaming {
                (m, seq![Action::Output(bytes)])
            } else {
                (m, Seq::empty())
            },
            SessionEvent::ChannelEof => if m.channel == ChannelPhase::Streaming || m.channel
                == ChannelPhase::Opening {
                (SessionModel { channel: ChannelPhase::Closed, ..m }, seq![Action::Disconnect])
            } else {
                (m, Seq::empty())
            },
            SessionEvent::ChannelReady => if m.channel == ChannelPhase::Opening {
                (
                    SessionModel {
                        channel: ChannelPhase::Streaming,
                        pending: Seq::empty(),
                        ..m
                    },
                    seq![
                        Action::Emit(StatusType::ChannelOpened),
                        Action::Emit(StatusType::StartStreaming),
                    ] + flush_actions(m.pending),
                )
            } else {
                (m, Seq::empty())
            },
            SessionEvent::ChannelFailed => if m.channel == ChannelPhase::Opening {
                (SessionModel { channel: ChannelPhase::Closed, ..m }, seq![Action::Disconnect])
            } else {
                (m, Seq::empty())
            },
            SessionEvent::Connected { fingerprint } => auth_dispatch(
                m,
                AuthEvent::Connected { fingerprint },
            ),
            SessionEvent::ConnectFailed { timeout } => auth_dispatch(
                m,
                AuthEvent::ConnectFailed { timeout },
            ),
            SessionEvent::TrustDecision(trust) => auth_dispatch(m, AuthEvent::TrustDecision(trust)),
            SessionEvent::MethodResult(res) => auth_dispatch(m, AuthEvent::MethodResult(res)),
        }
    }
}

/// Running the controller over a whole event sequence, collecting every
/// action.
pub open spec fn session_run(m: SessionModel, es: Seq<SessionEvent>) -> (SessionModel, Seq<Action>)
    decreases es.len(),
{
    if es.len() == 0 {
        (m, Seq::empty())
    } else {
        let head = session_step_model(m, es.first());
        let rest = session_run(head.0, es.drop_first());
        (rest.0, head.1 + rest.1)
    }
}

/// Whether an action writes client input to the channel.
pub open spec fn is_write(a: Action) -> bool {
    match a {
        Action::Write(_) => true,
        _ => false,
    }
}

/// The characters a write action carries.
pub open spec fn write_payload(a: Action) -> Seq<char>
    recommends
        is_write(a),
{
    match a {
        Action::Write(d) => d@,
        _ => Seq::empty(),
    }
}

/// Everything a trace writes to the channel, in order.
pub open spec fn writes_of(actions: Seq<Action>) -> Seq<Seq<char>>
    decreases actions.len(),
{
    if actions.len() == 0 {
        Seq::empty()
    } else if is_write(actions.first()) {
        seq![write_payload(actions.first())] + writes_of(actions.drop_first())
    } else {
        writes_of(actions.drop_first())
    }
}

/// Whether an action delivers remote output to the front end.
pub open spec fn is_output(a: Action) -> bool {
    match a {
        Action::Output(_) => true,
        _ => false,
    }
}

/// The bytes an output action carries.
pub open spec fn output_payload(a: Action) -> Seq<u8>
    recommends
        is_output(a),
{
    match a {
        Action::Output(b) => b@,
        _ => Seq::empty(),
    }
}

/// Everything a trace delivers to the front end, in order.
pub open spec fn outputs_of(actions: Seq<Action>) -> Seq<Seq<u8>>
    decreases actions.len(),
{
    if actions.len() == 0 {
        Seq::empty()
    } else if is_output(actions.first()) {
        seq![output_payload(actions.first())] + outputs_of(actions.drop_first())
    } else {
        outputs_of(actions.drop_first())
    }
}

/// Every client input in an event sequence, in arrival order.
pub open spec fn inputs_of(es: Seq<SessionEvent>) -> Seq<Seq<char>>
    decreases es.len(),
{
    if es.len() == 0 {
        Seq::empty()
    } else {
        let rest = inputs_of(es.drop_first());
        match es.first() {
            SessionEvent::Input(d) => seq![d@] + rest,
            _ => rest,
        }
    }
}

/// Every remote chunk in an event sequence, in production order.
pub open spec fn chandata_of(es: Seq<SessionEvent>) -> Seq<Seq<u8>>
    decreases es.len(),
{
    if es.len() == 0 {
        Seq::empty()
    } else {
        let rest = chandata_of(es.drop_first());
        match es.first() {
            SessionEvent::ChannelData(b) => seq![b@] + rest,
            _ => rest,
        }
    }
}

/// Whether an event only carries stream data: input, a resize, or a remote
/// chunk.
pub open spec fn is_stream_data(e: SessionEvent) -> bool {
    match e {
        SessionEvent::Input(_) => true,
        SessionEvent::Resize(_, _) => true,
        SessionEvent::ChannelData(_) => true,
        _ => false,
    }
}

proof fn lemma_writes_of_none(s: Seq<Action>)
    requires
        forall|i: int| 0 <= i < s.len() ==> !is_write(s[i]),
    ensures
        writes_of(s) == Seq::<Seq<char>>::empty(),
    decreases s.len(),
{
    if s.len() != 0 {
        lemma_writes_of_none(s.drop_first());
    }
}

proof fn lemma_writes_of_single(s: Seq<Action>, j: int)
    requires
        0 <= j < s.len(),
        is_write(s[j]),
        forall|i: int| 0 <= i < s.len() && i != j ==> !is_write(s[i]),
    ensures
        writes_of(s) == seq![write_payload(s[j])],
    decreases s.len(),
{
    if j == 0 {
        lemma_writes_of_none(s.drop_first());
        assert(writes_of(s) =~= seq![write_payload(s[0])]);
    } else {
        lemma_writes_of_single(s.drop_first(), j - 1);
    }
}

proof fn lemma_outputs_of_none(s: Seq<Action>)
    requires
        forall|i: int| 0 <= i < s.len() ==> !is_output(s[i]),
    ensures
        outputs_of(s) == Seq::<Seq<u8>>::empty(),
    decreases s.len(),
{
    if s.len() != 0 {
        lemma_outputs_of_none(s.drop_first());
    }
}

proof fn lemma_outputs_of_single(s: Seq<Action>, j: int)
    requires
        0 <= j < s.len(),
        is_output(s[j]),
        forall|i: int| 0 <= i < s.len() && i != j ==> !is_output(s[i]),
    ensures
        outputs_of(s) == seq![output_payload(s[j])],
    decreases s.len(),
{
    if j == 0 {
        lemma_outputs_of_none(s.drop_first());
        assert(outputs_of(s) =~= seq![output_payload(s[0])]);
    } else {
        lemma_outputs_of_single(s.drop_first(), j - 1);
    }
}

proof fn lemma_writes_of_add(a: Seq<Action>, b: Seq<Action>)
    ensures
        writes_of(a + b) == writes_of(a) + writes_of(b),
    decreases a.len(),
{
    if a.len() == 0 {
        assert(a + b =~= b);
        assert(writes_of(a) + writes_of(b) =~= writes_of(b));
    } else {
        assert((a + b).drop_first() =~= a.drop_first() + b);
        lemma_writes_of_add(a.drop_first(), b);
        assert((a + b).first() == a.first());
        assert(writes_of(a + b) =~= writes_of(a) + writes_of(b));
    }
}

proof fn lemma_outputs_of_add(a: Seq<Action>, b: Seq<Action>)
    ensures
        outputs_of(a + b) == outputs_of(a) + outputs_of(b),
    decreases a.len(),
{
    if a.len() == 0 {
        assert(a + b =~= b);
        assert(outputs_of(a) + outputs_of(b) =~= outputs_of(b));
    } else {
        assert((a + b).drop_first() =~= a.drop_first() + b);
        lemma_outputs_of_add(a.drop_first(), b);
        assert((a + b).first() == a.first());
        assert(outputs_of(a + b) =~= outputs_of(a) + outputs_of(b));
    }
}

/// LAW: a closed session does nothing ever after: no state change, no action,
/// in particular no further output.
pub proof fn lemma_closed_absorbs(m: SessionModel, es: Seq<SessionEvent>)
    requires
        m.channel == ChannelPhase::Closed,
    ensures
        session_run(m, es) == (m, Seq::<Action>::empty()),
    decreases es.len(),
{
    if es.len() != 0 {
        lemma_closed_absorbs(m, es.drop_first());
        assert(session_run(m, es).1 =~= Seq::<Action>::empty());
    }
}

/// LAW: cancellation closes the session at once; whatever arrives afterwards,
/// the only action ever performed is the final cleanup, so nothing further is
/// written or output.
pub proof fn lemma_cancel_stops_all(m: SessionModel, es: Seq<SessionEvent>)
    requires
        m.channel != ChannelPhase::Closed,
    ensures
        ({
            let (m2, tr) = session_run(m, seq![SessionEvent::Cancelled] + es);
            &&& m2.channel == ChannelPhase::Closed
            &&& tr == seq![Action::Disconnect]
            &&& writes_of(tr) == Seq::<Seq<char>>::empty()
            &&& outputs_of(tr) == Seq::<Seq<u8>>::empty()
        }),
{
    let es0 = seq![SessionEvent::Cancelled] + es;
    assert(es0.first() == SessionEvent::Cancelled);
    assert(es0.drop_first() =~= es);
    let head = session_step_model(m, SessionEvent::Cancelled);
    lemma_closed_absorbs(head.0, es);
    assert(session_run(m, es0).1 =~= seq![Action::Disconnect]);
    lemma_writes_of_none(seq![Action::Disconnect]);
    lemma_outputs_of_none(seq![Action::Disconnect]);
}

/// LAW: while streaming, client input reaches the channel and remote output
/// reaches the front end with the same content and in the same order as they
/// arrived, and the session's state does not change.
pub proof fn lemma_streaming_relay(m: SessionModel, es: Seq<SessionEvent>)
    requires
        m.channel == ChannelPhase::Streaming,
        forall|i: int| 0 <= i < es.len() ==> is_stream_data(#[trigger] es[i]),
    ensures
        ({
            let (m2, tr) = session_run(m, es);
            &&& m2 == m
            &&& writes_of(tr) == inputs_of(es)
            &&& outputs_of(tr) == chandata_of(es)
        }),
    decreases es.len(),
{
    if es.len() != 0 {
        let head = session_step_model(m, es.first());
        assert(is_stream_data(es[0]));
        assert(head.0 == m);
        lemma_streaming_relay(m, es.drop_first());
        let rest = session_run(m, es.drop_first());
        lemma_writes_of_add(head.1, rest.1);
        lemma_outputs_of_add(head.1, rest.1);
        match es.first() {
            SessionEvent::Input(d) => {
                lemma_writes_of_single(head.1, 0);
                lemma_outputs_of_none(head.1);
            },
            SessionEvent::Resize(c, r) => {
                lemma_writes_of_none(head.1);
                lemma_outputs_of_none(head.1);
            },
            SessionEvent::ChannelData(b) => {
                lemma_writes_of_none(head.1);
                lemma_outputs_of_single(head.1, 0);
            },
            _ => {},
        }
        assert(writes_of(session_run(m, es).1) =~= inputs_of(es));
        assert(outputs_of(session_run(m, es).1) =~= chandata_of(es));
    }
}

/// LAW: a client data event arriving before the channel exists is queued, in
/// arrival order, and acted on only once the channel opens, when the whole
/// queue is flushed in that order.
pub proof fn lemma_data_queued_until_channel(m: SessionModel, e: SessionEvent)
    requires
        m.channel == ChannelPhase::Inactive || m.channel == ChannelPhase::Opening,
    ensures
        session_step_model(m, SessionEvent::ChannelReady).1 =~= (if m.channel
            == ChannelPhase::Opening {
            seq![
                Action::Emit(StatusType::ChannelOpened),
                Action::Emit(StatusType::StartStreaming),
            ] + flush_actions(m.pending)
        } else {
            Seq::<Action>::empty()
        }),
        (e matches SessionEvent::Input(d) ==> session_step_model(m, e) == (SessionModel {
            pending: m.pending.push(PendingIo::In(d)),
            ..m
        }, Seq::<Action>::empty())),
        (e matches SessionEvent::Resize(c, r) ==> session_step_model(m, e) == (SessionModel {
            pending: m.pending.push(PendingIo::Size(c, r)),
            ..m
        }, Seq::<Action>::empty())),
{
}

/// LAW: until its channel opens, the session is exactly its embedded flow:
/// each connect, trust or method event advances the flow as the flow's own
/// model says, and the session adds no status, no attempt and no key report of
/// its own — only the channel request after success. The flow's laws on
/// attempt order and key reports therefore carry over to the session
/// unchanged.
pub proof fn lemma_session_runs_auth_flow(m: SessionModel, ae: AuthEvent)
    requires
        m.channel == ChannelPhase::Inactive,
    ensures
        ({
            let res = m.auth.step_model(ae);
            let (m1, acts) = auth_dispatch(m, ae);
            &&& m1.auth == res.0
            &&& m1.pending == m.pending
            &&& attempts_of(acts) == attempts_of(res.1)
            &&& new_key_reports(acts) == new_key_reports(res.1)
            &&& emitted_ranks(acts, m.auth.has_password) == emitted_ranks(
                res.1,
                m.auth.has_password,
            )
        }),
{
    let res = m.auth.step_model(ae);
    let (m1, acts) = auth_dispatch(m, ae);
    if res.0.phase == AuthPhase::Authenticated {
        let tail = seq![Action::OpenShellChannel];
        lemma_attempts_of_none(tail);
        lemma_attempts_of_add(res.1, tail);
        lemma_new_key_reports_none(tail);
        lemma_new_key_reports_add(res.1, tail);
        lemma_emitted_ranks_none(tail, m.auth.has_password);
        lemma_emitted_ranks_add(res.1, tail, m.auth.has_password);
        assert(attempts_of(acts) =~= attempts_of(res.1));
        assert(emitted_ranks(acts, m.auth.has_password) =~= emitted_ranks(
            res.1,
            m.auth.has_password,
        ));
    }
}

/// Whether the session can still report a key with no stored match.
pub open spec fn session_may_report(m: SessionModel) -> bool {
    m.channel == ChannelPhase::Inactive && may_report(m.auth)
}

/// Whether the session stands at the trust decision.
pub open spec fn session_awaiting_trust(m: SessionModel) -> bool {
    m.channel == ChannelPhase::Inactive && m.auth.phase == AuthPhase::AwaitingTrust
}

/// What one step contributes to the key reports.
proof fn lemma_session_step_key_reports(m: SessionModel, e: SessionEvent)
    requires
        attempt_inv(m.auth),
    ensures
        ({
            let (m1, acts) = session_step_model(m, e);
            &&& attempt_inv(m1.auth)
            &&& new_key_reports(acts) <= 1
            &&& (new_key_reports(acts) == 1 ==> session_may_report(m) && session_awaiting_trust(
                m1,
            ))
            &&& (session_awaiting_trust(m1) ==> session_awaiting_trust(m) || new_key_reports(acts)
                == 1)
            &&& (!session_may_report(m) ==> new_key_reports(acts) == 0 && !session_may_report(m1))
        }),
{
    let (m1, acts) = session_step_model(m, e);
    if m.channel == ChannelPhase::Closed {
        lemma_new_key_reports_none(acts);
        return ;
    }
    match e {
        SessionEvent::Connected { .. }
        | SessionEvent::ConnectFailed { .. }
        | SessionEvent::TrustDecision(_)
        | SessionEvent::MethodResult(_) => {
            if m.channel == ChannelPhase::Inactive {
                let ae = match e {
                    SessionEvent::Connected { fingerprint } => AuthEvent::Connected { fingerprint },
                    SessionEvent::ConnectFailed { timeout } => AuthEvent::ConnectFailed { timeout },
                    SessionEvent::TrustDecision(trust) => AuthEvent::TrustDecision(trust),
                    SessionEvent::MethodResult(res) => AuthEvent::MethodResult(res),
                    _ => AuthEvent::Cancelled,
                };
                lemma_session_runs_auth_flow(m, ae);
                lemma_step_trace(m.auth, ae);
            } else {
                lemma_new_key_reports_none(acts);
            }
        },
        _ => {
            lemma_new_key_reports_none(acts);
        },
    }
}

/// LAW: a session connecting with no usable stored fingerprint reports the
/// newly found key to the front end exactly once — never twice — and stands at
/// the trust decision when it has; a session past that point reports none.
pub proof fn lemma_session_new_key_reported_once(m: SessionModel, es: Seq<SessionEvent>)
    requires
        attempt_inv(m.auth),
    ensures
        ({
            let (m2, tr) = session_run(m, es);
            &&& (session_may_report(m) ==> new_key_reports(tr) <= 1 && (session_awaiting_trust(m2)
                ==> new_key_reports(tr) == 1))
            &&& (!session_may_report(m) ==> new_key_reports(tr) == 0 && (session_awaiting_trust(m2)
                ==> session_awaiting_trust(m)))
        }),
    decreases es.len(),
{
    if es.len() != 0 {
        let (m1, a1) = session_step_model(m, es.first());
        let rest = session_run(m1, es.drop_first());
        lemma_session_step_key_reports(m, es.first());
        lemma_session_new_key_reported_once(m1, es.drop_first());
        lemma_new_key_reports_add(a1, rest.1);
    }
}

/// Whether an event is no connection report, or one whose fingerprint reads
/// `s`.
pub open spec fn session_reports_fingerprint(e: SessionEvent, s: String) -> bool {
    match e {
        SessionEvent::Connected { fingerprint } => fingerprint@ == s@,
        _ => true,
    }
}

/// LAW: a host with a stored fingerprint connecting to a server that reports
/// that same fingerprint never sees a new-key report: authentication proceeds
/// without a trust decision.
pub proof fn lemma_session_stored_fingerprint_match(
    m: SessionModel,
    es: Seq<SessionEvent>,
    s: String,
)
    requires
        attempt_inv(m.auth),
        m.auth.stored_fingerprint == Some(s),
        !session_awaiting_trust(m),
        forall|i: int| 0 <= i < es.len() ==> #[trigger] session_reports_fingerprint(es[i], s),
    ensures
        new_key_reports(session_run(m, es).1) == 0,
    decreases es.len(),
{
    if es.len() != 0 {
        let (m1, a1) = session_step_model(m, es.first());
        lemma_session_step_key_reports(m, es.first());
        assert(session_reports_fingerprint(es[0], s));
        if new_key_reports(a1) == 1 {
            // a report needs a flow in `Connecting` and an unmatched
            // fingerprint, which the hypothesis rules out
            let ae = match es.first() {
                SessionEvent::Connected { fingerprint } => AuthEvent::Connected { fingerprint },
                _ => AuthEvent::Cancelled,
            };
            lemma_session_runs_auth_flow(m, ae);
            lemma_step_trace(m.auth, ae);
            assert(false);
        }
        assert(m1.auth.stored_fingerprint == Some(s) && attempt_inv(m1.auth)
            && !session_awaiting_trust(m1)) by {
            if m.channel == ChannelPhase::Inactive {
                let ae = match es.first() {
                    SessionEvent::Connected { fingerprint } => AuthEvent::Connected {
                        fingerprint,
                    },
                    SessionEvent::ConnectFailed { timeout } => AuthEvent::ConnectFailed { timeout },
                    SessionEvent::TrustDecision(trust) => AuthEvent::TrustDecision(trust),
                    SessionEvent::MethodResult(res) => AuthEvent::MethodResult(res),
                    _ => AuthEvent::Cancelled,
                };
                if m1.auth != m.auth {
                    lemma_step_trace(m.auth, ae);
                }
            }
        }
        assert(forall|i: int|
            0 <= i < es.drop_first().len() ==> #[trigger] session_reports_fingerprint(
                es.drop_first()[i],
                s,
            ));
        lemma_session_stored_fingerprint_match(m1, es.drop_first(), s);
        lemma_new_key_reports_add(a1, session_run(m1, es.drop_first()).1);
    }
}

/// The rank every status a session in this state has already emitted stays at
/// or under; whatever it emits next lies strictly above.
pub open spec fn session_floor(m: SessionModel) -> int {
    match m.channel {
        ChannelPhase::Inactive => auth_floor(m.auth),
        ChannelPhase::Opening => 7,
        ChannelPhase::Streaming => 9,
        ChannelPhase::Closed => 100,
    }
}

/// What one step contributes to the status order.
proof fn lemma_session_step_status_order(m: SessionModel, e: SessionEvent)
    requires
        attempt_inv(m.auth),
    ensures
        ({
            let (m1, acts) = session_step_model(m, e);
            let ranks = emitted_ranks(acts, m.auth.has_password);
            &&& m1.auth.has_password == m.auth.has_password
            &&& attempt_inv(m1.auth)
            &&& ascending_above(ranks, session_floor(m))
            &&& session_floor(m1) >= session_floor(m)
            &&& ranks.len() > 0 ==> session_floor(m1) >= ranks.last()
        }),
{
    let (m1, acts) = session_step_model(m, e);
    let pw = m.auth.has_password;
    if m.channel == ChannelPhase::Closed {
        lemma_emitted_ranks_none(acts, pw);
        return ;
    }
    match e {
        SessionEvent::Connected { .. }
        | SessionEvent::ConnectFailed { .. }
        | SessionEvent::TrustDecision(_)
        | SessionEvent::MethodResult(_) => {
            if m.channel == ChannelPhase::Inactive {
                let ae = match e {
                    SessionEvent::Connected { fingerprint } => AuthEvent::Connected { fingerprint },
                    SessionEvent::ConnectFailed { timeout } => AuthEvent::ConnectFailed { timeout },
                    SessionEvent::TrustDecision(trust) => AuthEvent::TrustDecision(trust),
                    SessionEvent::MethodResult(res) => AuthEvent::MethodResult(res),
                    _ => AuthEvent::Cancelled,
                };
                let res = m.auth.step_model(ae);
                lemma_auth_step_status_order(m.auth, ae);
                lemma_step_trace(m.auth, ae);
                if res.0.phase == AuthPhase::Authenticated {
                    lemma_emitted_ranks_none(seq![Action::OpenShellChannel], pw);
                    lemma_emitted_ranks_add(res.1, seq![Action::OpenShellChannel], pw);
                    assert(emitted_ranks(acts, pw) =~= emitted_ranks(res.1, pw));
                }
            } else {
                lemma_emitted_ranks_none(acts, pw);
            }
        },
        SessionEvent::ChannelReady => {
            if m.channel == ChannelPhase::Opening {
                let head = seq![
                    Action::Emit(StatusType::ChannelOpened),
                    Action::Emit(StatusType::StartStreaming),
                ];
                let tail = flush_actions(m.pending);
                assert(forall|i: int| 0 <= i < tail.len() ==> !crate::auth::is_emit(#[trigger] tail[i]));
                lemma_emitted_ranks_none(tail, pw);
                lemma_emitted_ranks_add(head, tail, pw);
                assert(emitted_ranks(head, pw) =~= seq![8int, 9int]) by {
                    reveal_with_fuel(emitted_ranks, 4);
                    assert(head.drop_first() =~= seq![Action::Emit(StatusType::StartStreaming)]);
                    assert(head.drop_first().drop_first() =~= Seq::<Action>::empty());
                }
                assert(emitted_ranks(acts, pw) =~= seq![8int, 9int]);
            } else {
                lemma_emitted_ranks_none(acts, pw);
            }
        },
        _ => {
            lemma_emitted_ranks_none(acts, pw);
        },
    }
}

/// LAW: over any run, a session's status notifications come out strictly in
/// the order of its phases — connecting, key trust, each authentication
/// attempt, success, channel opened, streaming — and no status is ever
/// repeated.
pub proof fn lemma_session_status_order(m: SessionModel, es: Seq<SessionEvent>)
    requires
        attempt_inv(m.auth),
    ensures
        ({
            let (m2, tr) = session_run(m, es);
            let ranks = emitted_ranks(tr, m.auth.has_password);
            &&& ascending_above(ranks, session_floor(m))
            &&& session_floor(m2) >= session_floor(m)
            &&& ranks.len() > 0 ==> session_floor(m2) >= ranks.last()
        }),
    decreases es.len(),
{
    if es.len() != 0 {
        let (m1, a1) = session_step_model(m, es.first());
        let rest = session_run(m1, es.drop_first());
        lemma_session_step_status_order(m, es.first());
        lemma_session_status_order(m1, es.drop_first());
        lemma_emitted_ranks_add(a1, rest.1, m.auth.has_password);
        lemma_ascending_concat(
            emitted_ranks(a1, m.auth.has_password),
            emitted_ranks(rest.1, m.auth.has_password),
            session_floor(m),
            session_floor(m1),
        );
    }
}

impl SessionController {
    /// A controller for a host with the given stored fingerprint and resolved
    /// credential shape.
    pub fn new(stored_fingerprint: Option<String>, has_password: bool, has_key: bool) -> (r: Self)
        ensures
            r@.auth == (AuthFlow {
                stored_fingerprint,
                has_password,
                has_key,
                phase: AuthPhase::Idle,
            }),
            r@.channel == ChannelPhase::Inactive,
            r@.pending == Seq::<PendingIo>::empty(),
    {
        let r = SessionController {
            auth: AuthFlow::new(stored_fingerprint, has_password, has_key),
            channel: ChannelPhase::Inactive,
            pending: Vec::new(),
        };
        proof {
            assert(r.pending@ =~= Seq::<PendingIo>::empty());
        }
        r
    }

    /// Announces and opens the transport.
    pub fn start(self) -> (r: (Self, Vec<Action>))
        ensures
            r.0@.auth == self@.auth.start_model().0,
            r.0@.channel == self@.channel,
            r.0@.pending == self@.pending,
            r.1@ == self@.auth.start_model().1,
    {
        let SessionController { auth, channel, pending } = self;
        let (auth, acts) = auth.start();
        (SessionController { auth, channel, pending }, acts)
    }

    /// Advances the session by one event and returns the actions to perform,
    /// exactly as the model says.
    pub fn step(self, e: SessionEvent) -> (r: (Self, Vec<Action>))
        ensures
            (r.0@, r.1@) == session_step_model(self@, e),
    {
        let ghost model = session_step_model(self@, e);
        if let ChannelPhase::Closed = self.channel {
            let acts: Vec<Action> = Vec::new();
            proof {
                assert(acts@ =~= model.1);
            }
            return (self, acts);
        }
        let SessionController { auth, channel, mut pending } = self;
        let mut acts: Vec<Action> = Vec::new();
        let r = match e {
            SessionEvent::Cancelled => {
                acts.push(Action::Disconnect);
                SessionController { auth, channel: ChannelPhase::Closed, pending }
            },
            SessionEvent::Input(d) => {
                if let ChannelPhase::Streaming = channel {
                    acts.push(Action::Write(d));
                    SessionController { auth, channel, pending }
                } else {
                    pending.push(PendingIo::In(d));
                    SessionController { auth, channel, pending }
                }
            },
            SessionEvent::Resize(cols, rows) => {
                if let ChannelPhase::Streaming = channel {
                    acts.push(Action::WindowChange(cols, rows));
                    SessionController { auth, channel, pending }
                } else {
                    pending.push(PendingIo::Size(cols, rows));
                    SessionController { auth, channel, pending }
                }
            },
            SessionEvent::ChannelData(bytes) => {
                if let ChannelPhase::Streaming = channel {
                    acts.push(Action::Output(bytes));
                }
                SessionController { auth, channel, pending }
            },
            SessionEvent::ChannelEof => {
                match channel {
                    ChannelPhase::Streaming | ChannelPhase::Opening => {
                        acts.push(Action::Disconnect);
                        SessionController { auth, channel: ChannelPhase::Closed, pending }
                    },
                    _ => SessionController { auth, channel, pending },
                }
            },
            SessionEvent::ChannelReady => {
                if let ChannelPhase::Opening = channel {
                    acts.push(Action::Emit(StatusType::ChannelOpened));
                    acts.push(Action::Emit(StatusType::StartStreaming));
                    let ghost queued = pending@;
                    let mut k: usize = 0;
                    while k < pending.len()
                        invariant
                            0 <= k <= pending.len(),
                            pending@ == queued,
                            acts@ == seq![
                                Action::Emit(StatusType::ChannelOpened),
                                Action::Emit(StatusType::StartStreaming),
                            ] + flush_actions(queued.take(k as int)),
                        decreases pending.len() - k,
                    {
                        let p = pending[k].clone();
                        let a = match p {
                            PendingIo::In(d) => Action::Write(d),
                            PendingIo::Size(cols, rows) => Action::WindowChange(cols, rows),
                        };
                        acts.push(a);
                        proof {
                            assert(flush_actions(queued.take(k as int + 1)) =~= flush_actions(
                                queued.take(k as int),
                            ).push(io_action(queued[k as int])));
                        }
                        k += 1;
                    }
                    proof {
                        assert(queued.take(queued.len() as int) =~= queued);
                    }
                    SessionController {
                        auth,
                        channel: ChannelPhase::Streaming,
                        pending: Vec::new(),
                    }
                } else {
                    SessionController { auth, channel, pending }
                }
            },
            SessionEvent::ChannelFailed => {
                if let ChannelPhase::Opening = channel {
                    acts.push(Action::Disconnect);
                    SessionController { auth, channel: ChannelPhase::Closed, pending }
                } else {
                    SessionController { auth, channel, pending }
                }
            },
            SessionEvent::Connected { fingerprint } => {
                let (r, aacts) = Self::dispatch_auth(
                    auth,
                    channel,
                    pending,
                    AuthEvent::Connected { fingerprint },
                );
                acts = aacts;
                r
            },
            SessionEvent::ConnectFailed { timeout } => {
                let (r, aacts) = Self::dispatch_auth(
                    auth,
                    channel,
                    pending,
                    AuthEvent::ConnectFailed { timeout },
                );
                acts = aacts;
                r
            },
            SessionEvent::TrustDecision(trust) => {
                let (r, aacts) = Self::dispatch_auth(
                    auth,
                    channel,
                    pending,
                    AuthEvent::TrustDecision(trust),
                );
                acts = aacts;
                r
            },
            SessionEvent::MethodResult(res) => {
                let (r, aacts) = Self::dispatch_auth(
                    auth,
                    channel,
                    pending,
                    AuthEvent::MethodResult(res),
                );
                acts = aacts;
                r
            },
        };
        proof {
            assert(acts@ =~= model.1);
            assert(r@.pending =~= model.0.pending);
        }
        (r, acts)
    }

    /// Feeds one event to the embedded flow and advances the channel phase on
    /// its outcome, returning the flow's actions.
    fn dispatch_auth(
        auth: AuthFlow,
        channel: ChannelPhase,
        pending: Vec<PendingIo>,
        ae: AuthEvent,
    ) -> (r: (Self, Vec<Action>))
        requires
            channel != ChannelPhase::Closed,
        ensures
            ({
                let m = SessionModel { auth, channel, pending: pending@ };
                let res = auth_dispatch(m, ae);
                r.0@ == res.0 && r.1@ == res.1
            }),
    {
        let ghost m = SessionModel { auth, channel, pending: pending@ };
        if let ChannelPhase::Inactive = channel {
            let (auth, mut aacts) = auth.step(ae);
            match auth.phase {
                AuthPhase::Authenticated => {
                    let ghost flow_acts = aacts@;
                    aacts.push(Action::OpenShellChannel);
                    proof {
                        assert(aacts@ =~= flow_acts + seq![Action::OpenShellChannel]);
                    }
                    (SessionController { auth, channel: ChannelPhase::Opening, pending }, aacts)
                },
                AuthPhase::Failed(_) => (
                    SessionController { auth, channel: ChannelPhase::Closed, pending },
                    aacts,
                ),
                _ => (SessionController { auth, channel, pending }, aacts),
            }
        } else {
            let aacts: Vec<Action> = Vec::new();
            proof {
                assert(aacts@ =~= auth_dispatch(m, ae).1);
            }
            (SessionController { auth, channel, pending }, aacts)
        }
    }
}

} // verus!
