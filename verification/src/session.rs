//! Connection-session state machine.
//!
//! One session owns one peer connection's lifecycle: the SDP offer/answer
//! exchange through the relay, candidate buffering on both sides, the
//! data-channel hand-off and the two-phase teardown.  All decisions live in
//! one `handle` entry point from event to actions; the shell around the
//! crate performs each action (transport calls, relay sends, notifications)
//! and feeds the results back in as further events.  Within one session the
//! externally observable state only ever moves forward; a reconnect builds a
//! fresh session.

use vstd::prelude::*;
use crate::codec;
use crate::envelope::Tag;
use crate::queue::{PendingCandidateQueue, QueueModel};

verus! {

/// Lifecycle of one session, in order of progress.
#[derive(Clone, Copy, PartialEq, Eq, Structural, Debug)]
pub enum ConnectionState {
    Idle,
    WaitingForRelay,
    WaitingForPeer,
    Negotiating,
    Connected,
    Disconnected,
    Failed,
    Closed,
}

/// Progress order of the states; the three terminal states share a rank.
pub open spec fn state_rank(s: ConnectionState) -> int {
    match s {
        ConnectionState::Idle => 0,
        ConnectionState::WaitingForRelay => 1,
        ConnectionState::WaitingForPeer => 2,
        ConnectionState::Negotiating => 3,
        ConnectionState::Connected => 4,
        ConnectionState::Disconnected => 5,
        ConnectionState::Failed => 5,
        ConnectionState::Closed => 5,
    }
}

pub open spec fn is_terminal(s: ConnectionState) -> bool {
    state_rank(s) == 5
}

/// How a completed session reports back to the supervisor.
#[derive(Clone, Copy, PartialEq, Eq, Structural, Debug)]
pub enum SessionOutcome {
    /// The peer went away or never finished connecting: reconnect.
    Disconnect,
    /// An external stop: leave the reconnect loop.
    Stop,
}

/// Status events surfaced to the host shell.
#[derive(Clone, Copy, PartialEq, Eq, Structural, Debug)]
pub enum FrontEndEvent {
    UserConnecting,
    UserConnected,
    UserDisconnected,
}

/// Everything that can happen to a session.
#[derive(PartialEq, Eq, Debug)]
pub enum SessionEvent {
    /// The peer's SDP offer arrived through the relay.
    RemoteOffer { sdp: Vec<u8> },
    /// The transport produced the local answer requested by `ProduceAnswer`.
    AnswerReady { sdp: Vec<u8> },
    /// A remote ICE candidate arrived through the relay.
    RemoteCandidate { candidate: Vec<u8> },
    /// The transport gathered a local ICE candidate.
    LocalCandidate { candidate: Vec<u8> },
    /// The transport reports the peer connection established.
    TransportConnected,
    /// The transport reports the peer connection lost.
    TransportDisconnected,
    /// The transport reports the peer connection failed.
    TransportFailed,
    /// The data channel opened.
    DataChannelOpen,
    /// The data channel closed.
    DataChannelClosed,
    /// An external stop request.
    StopRequested,
}

/// What the shell must do in response to an event, in order.
#[derive(PartialEq, Eq, Debug)]
pub enum SessionAction {
    /// Apply the remote offer to the transport.
    ApplyRemoteOffer { sdp: Vec<u8> },
    /// Ask the transport for an answer; its result returns as `AnswerReady`.
    ProduceAnswer,
    /// Set the local description on the transport.
    ApplyLocalAnswer { sdp: Vec<u8> },
    /// Send an envelope to the peer through the relay.
    SignalEnvelope { tag: Tag, payload: Vec<u8> },
    /// Apply a remote candidate to the transport.
    ApplyRemoteCandidate { candidate: Vec<u8> },
    /// Send a message over the data channel.
    SendData { message: Vec<u8> },
    /// Ask the signaling pump for a graceful close after its grace period.
    RequestGracefulSignalingClose,
    /// Ask the signaling pump to close at once.
    RequestImmediateSignalingClose,
    /// Close the peer transport.
    CloseTransport,
    /// Surface a status event to the host shell.
    NotifyFrontEnd { event: FrontEndEvent },
}

/// Model of an event.
pub ghost enum EventModel {
    RemoteOffer { sdp: Seq<u8> },
    AnswerReady { sdp: Seq<u8> },
    RemoteCandidate { candidate: Seq<u8> },
    LocalCandidate { candidate: Seq<u8> },
    TransportConnected,
    TransportDisconnected,
    TransportFailed,
    DataChannelOpen,
    DataChannelClosed,
    StopRequested,
}

/// Model of an action.
pub ghost enum ActionModel {
    ApplyRemoteOffer { sdp: Seq<u8> },
    ProduceAnswer,
    ApplyLocalAnswer { sdp: Seq<u8> },
    SignalEnvelope { tag: Tag, payload: Seq<u8> },
    ApplyRemoteCandidate { candidate: Seq<u8> },
    SendData { message: Seq<u8> },
    RequestGracefulSignalingClose,
    RequestImmediateSignalingClose,
    CloseTransport,
    NotifyFrontEnd { event: FrontEndEvent },
}

impl View for SessionEvent {
    type V = EventModel;

    open spec fn view(&self) -> EventModel {
        match self {
            SessionEvent::RemoteOffer { sdp } => EventModel::RemoteOffer { sdp: sdp@ },
            SessionEvent::AnswerReady { sdp } => EventModel::AnswerReady { sdp: sdp@ },
            SessionEvent::RemoteCandidate { candidate } => EventModel::RemoteCandidate {
                candidate: candidate@,
            },
            SessionEvent::LocalCandidate { candidate } => EventModel::LocalCandidate {
                candidate: candidate@,
            },
            SessionEvent::TransportConnected => EventModel::TransportConnected,
            SessionEvent::TransportDisconnected => EventModel::TransportDisconnected,
            SessionEvent::TransportFailed => EventModel::TransportFailed,
            SessionEvent::DataChannelOpen => EventModel::DataChannelOpen,
            SessionEvent::DataChannelClosed => EventModel::DataChannelClosed,
            SessionEvent::StopRequested => EventModel::StopRequested,
        }
    }
}

impl View for SessionAction {
    type V = ActionModel;

    open spec fn view(&self) -> ActionModel {
        match self {
            SessionAction::ApplyRemoteOffer { sdp } => ActionModel::ApplyRemoteOffer { sdp: sdp@ },
            SessionAction::ProduceAnswer => ActionModel::ProduceAnswer,
            SessionAction::ApplyLocalAnswer { sdp } => ActionModel::ApplyLocalAnswer { sdp: sdp@ },
            SessionAction::SignalEnvelope { tag, payload } => ActionModel::SignalEnvelope {
                tag: *tag,
                payload: payload@,
            },
            SessionAction::ApplyRemoteCandidate { candidate } => ActionModel::ApplyRemoteCandidate {
                candidate: candidate@,
            },
            SessionAction::SendData { message } => ActionModel::SendData { message: message@ },
            SessionAction::RequestGracefulSignalingClose =>
                ActionModel::RequestGracefulSignalingClose,
            SessionAction::RequestImmediateSignalingClose =>
                ActionModel::RequestImmediateSignalingClose,
            SessionAction::CloseTransport => ActionModel::CloseTransport,
            SessionAction::NotifyFrontEnd { event } => ActionModel::NotifyFrontEnd {
                event: *event,
            },
        }
    }
}

impl DeepView for SessionAction {
    type V = ActionModel;

    open spec fn deep_view(&self) -> ActionModel {
        self.view()
    }
}

/// Model of a session.
pub ghost struct SessionModel {
    pub state: ConnectionState,
    pub local_pending: QueueModel,
    pub remote_pending: QueueModel,
    pub outcome: Option<SessionOutcome>,
    pub desktop_info: Seq<u8>,
}

/// The actions applying a run of buffered remote candidates, in order.
pub open spec fn apply_candidate_actions(cs: Seq<Seq<u8>>) -> Seq<ActionModel>
    decreases cs.len(),
{
    if cs.len() == 0 {
        Seq::empty()
    } else {
        seq![ActionModel::ApplyRemoteCandidate { candidate: cs[0] }] + apply_candidate_actions(
            cs.skip(1),
        )
    }
}

/// The actions signaling a run of buffered local candidates, in order.
pub open spec fn signal_candidate_actions(cs: Seq<Seq<u8>>) -> Seq<ActionModel>
    decreases cs.len(),
{
    if cs.len() == 0 {
        Seq::empty()
    } else {
        seq![
            ActionModel::SignalEnvelope { tag: Tag::IceCandidate, payload: cs[0] },
        ] + signal_candidate_actions(cs.skip(1))
    }
}

pub proof fn lemma_apply_candidate_snoc(cs: Seq<Seq<u8>>, i: int)
    requires
        0 <= i < cs.len(),
    ensures
        apply_candidate_actions(cs.take(i + 1)) == apply_candidate_actions(cs.take(i)) + seq![
            ActionModel::ApplyRemoteCandidate { candidate: cs[i] },
        ],
    decreases i,
{
    let t1 = cs.take(i + 1);
    let t0 = cs.take(i);
    if i == 0 {
        assert(t1 =~= seq![cs[0]]);
        assert(t1.skip(1) =~= Seq::<Seq<u8>>::empty());
        assert(t0 =~= Seq::<Seq<u8>>::empty());
        assert(apply_candidate_actions(t1) =~= apply_candidate_actions(t0) + seq![
            ActionModel::ApplyRemoteCandidate { candidate: cs[0] },
        ]);
    } else {
        lemma_apply_candidate_snoc(cs.skip(1), i - 1);
        assert(t1.skip(1) =~= cs.skip(1).take(i));
        assert(t0.skip(1) =~= cs.skip(1).take(i - 1));
        assert(cs.skip(1)[i - 1] == cs[i]);
        assert(apply_candidate_actions(t1) =~= apply_candidate_actions(t0) + seq![
            ActionModel::ApplyRemoteCandidate { candidate: cs[i] },
        ]);
    }
}

pub proof fn lemma_signal_candidate_snoc(cs: Seq<Seq<u8>>, i: int)
    requires
        0 <= i < cs.len(),
    ensures
        signal_candidate_actions(cs.take(i + 1)) == signal_candidate_actions(cs.take(i)) + seq![
            ActionModel::SignalEnvelope { tag: Tag::IceCandidate, payload: cs[i] },
        ],
    decreases i,
{
    let t1 = cs.take(i + 1);
    let t0 = cs.take(i);
    if i == 0 {
        assert(t1 =~= seq![cs[0]]);
        assert(t1.skip(1) =~= Seq::<Seq<u8>>::empty());
        assert(t0 =~= Seq::<Seq<u8>>::empty());
        assert(signal_candidate_actions(t1) =~= signal_candidate_actions(t0) + seq![
            ActionModel::SignalEnvelope { tag: Tag::IceCandidate, payload: cs[0] },
        ]);
    } else {
        lemma_signal_candidate_snoc(cs.skip(1), i - 1);
        assert(t1.skip(1) =~= cs.skip(1).take(i));
        assert(t0.skip(1) =~= cs.skip(1).take(i - 1));
        assert(cs.skip(1)[i - 1] == cs[i]);
        assert(signal_candidate_actions(t1) =~= signal_candidate_actions(t0) + seq![
            ActionModel::SignalEnvelope { tag: Tag::IceCandidate, payload: cs[i] },
        ]);
    }
}

/// Record an outcome only once; a later one never overwrites it.
pub open spec fn record_outcome(
    o: Option<SessionOutcome>,
    new: SessionOutcome,
) -> Option<SessionOutcome> {
    if o is Some {
        o
    } else {
        Some(new)
    }
}

/// The whole decision table: what one event does to the session state and
/// which actions it asks of the shell, in order.
pub open spec fn spec_handle(m: SessionModel, e: EventModel) -> (SessionModel, Seq<ActionModel>) {
    match e {
        EventModel::RemoteOffer { sdp } => {
            if m.state == ConnectionState::WaitingForPeer {
                let flushed = m.remote_pending.pending;
                (
                    SessionModel {
                        state: ConnectionState::Negotiating,
                        remote_pending: QueueModel { pending: Seq::empty(), remote_set: true },
                        ..m
                    },
                    seq![
                        ActionModel::NotifyFrontEnd { event: FrontEndEvent::UserConnecting },
                        ActionModel::ApplyRemoteOffer { sdp },
                    ] + apply_candidate_actions(flushed) + seq![ActionModel::ProduceAnswer],
                )
            } else {
                (m, Seq::empty())
            }
        },
        EventModel::AnswerReady { sdp } => {
            if m.state == ConnectionState::Negotiating {
                let flushed = m.local_pending.pending;
                (
                    SessionModel {
                        local_pending: QueueModel { pending: Seq::empty(), remote_set: true },
                        ..m
                    },
                    seq![
                        ActionModel::SignalEnvelope { tag: Tag::SessionDescription, payload: sdp },
                        ActionModel::ApplyLocalAnswer { sdp },
                    ] + signal_candidate_actions(flushed),
                )
            } else {
                (m, Seq::empty())
            }
        },
        EventModel::RemoteCandidate { candidate } => {
            if m.remote_pending.remote_set {
                (m, seq![ActionModel::ApplyRemoteCandidate { candidate }])
            } else {
                (
                    SessionModel {
                        remote_pending: QueueModel {
                            pending: m.remote_pending.pending.push(candidate),
                            remote_set: false,
                        },
                        ..m
                    },
                    Seq::empty(),
                )
            }
        },
        EventModel::LocalCandidate { candidate } => {
            if m.remote_pending.remote_set || m.local_pending.remote_set {
                (
                    m,
                    seq![
                        ActionModel::SignalEnvelope { tag: Tag::IceCandidate, payload: candidate },
                    ],
                )
            } else {
                (
                    SessionModel {
                        local_pending: QueueModel {
                            pending: m.local_pending.pending.push(candidate),
                            remote_set: false,
                        },
                        ..m
                    },
                    Seq::empty(),
                )
            }
        },
        EventModel::TransportConnected => {
            if !is_terminal(m.state) && m.state != ConnectionState::Connected {
                (
                    SessionModel { state: ConnectionState::Connected, ..m },
                    seq![ActionModel::RequestGracefulSignalingClose],
                )
            } else {
                (m, Seq::empty())
            }
        },
        EventModel::TransportDisconnected => {
            if !is_terminal(m.state) {
                (
                    SessionModel {
                        state: ConnectionState::Disconnected,
                        outcome: record_outcome(m.outcome, SessionOutcome::Disconnect),
                        ..m
                    },
                    seq![
                        ActionModel::RequestImmediateSignalingClose,
                        ActionModel::CloseTransport,
                    ],
                )
            } else {
                (m, Seq::empty())
            }
        },
        EventModel::TransportFailed => {
            if !is_terminal(m.state) {
                (
                    SessionModel {
                        state: ConnectionState::Failed,
                        outcome: record_outcome(m.outcome, SessionOutcome::Disconnect),
                        ..m
                    },
                    seq![
                        ActionModel::RequestImmediateSignalingClose,
                        ActionModel::CloseTransport,
                    ],
                )
            } else {
                (m, Seq::empty())
            }
        },
        EventModel::DataChannelOpen => {
            (
                m,
                seq![
                    ActionModel::NotifyFrontEnd { event: FrontEndEvent::UserConnected },
                    ActionModel::SendData {
                        message: codec::spec_desktopinfo_message(m.desktop_info),
                    },
                ],
            )
        },
        EventModel::DataChannelClosed => {
            if !is_terminal(m.state) {
                (
                    SessionModel {
                        state: ConnectionState::Disconnected,
                        outcome: record_outcome(m.outcome, SessionOutcome::Disconnect),
                        ..m
                    },
                    seq![
                        ActionModel::NotifyFrontEnd { event: FrontEndEvent::UserDisconnected },
                        ActionModel::RequestImmediateSignalingClose,
                        ActionModel::CloseTransport,
                    ],
                )
            } else {
                (m, seq![ActionModel::NotifyFrontEnd { event: FrontEndEvent::UserDisconnected }])
            }
        },
        EventModel::StopRequested => {
            (
                SessionModel {
                    state: ConnectionState::Closed,
                    outcome: Some(SessionOutcome::Stop),
                    ..m
                },
                seq![
                    ActionModel::RequestImmediateSignalingClose,
                    ActionModel::CloseTransport,
                ],
            )
        },
    }
}

/// Within one session the observable state never moves backward, whatever
/// the event.
pub proof fn lemma_session_state_monotonic(m: SessionModel, e: EventModel)
    ensures
        state_rank(spec_handle(m, e).0.state) >= state_rank(m.state),
{
}

/// Append one action, tracking the model sequence.
fn push_action(actions: &mut Vec<SessionAction>, a: SessionAction)
    ensures
        final(actions).deep_view() == old(actions).deep_view() + seq![a@],
{
    let ghost av = a@;
    actions.push(a);
    proof {
        assert forall|i: int|
            0 <= i < actions@.len() implies #[trigger] actions.deep_view()[i] == (old(
            actions,
        ).deep_view() + seq![av])[i] by {
            if i < old(actions)@.len() {
                assert(actions@[i] == old(actions)@[i]);
            } else {
                assert(actions@[i] == a);
            }
        }
        assert(actions.deep_view() =~= old(actions).deep_view() + seq![av]);
    }
}

/// One peer connection's lifecycle.
pub struct ConnectionSession {
    state: ConnectionState,
    local_pending: PendingCandidateQueue,
    remote_pending: PendingCandidateQueue,
    outcome: Option<SessionOutcome>,
    desktop_info_json: Vec<u8>,
}

impl View for ConnectionSession {
    type V = SessionModel;

    closed spec fn view(&self) -> SessionModel {
        SessionModel {
            state: self.state,
            local_pending: self.local_pending@,
            remote_pending: self.remote_pending@,
            outcome: self.outcome,
            desktop_info: self.desktop_info_json@,
        }
    }
}

impl ConnectionSession {
    pub open spec fn wf(&self) -> bool {
        &&& (self@.local_pending.remote_set ==> self@.local_pending.pending.len() == 0)
        &&& (self@.remote_pending.remote_set ==> self@.remote_pending.pending.len() == 0)
    }

    /// A fresh session, created once the relay connection stands and the ICE
    /// servers are known; it now waits for the peer's offer.
    pub fn new(desktop_info_json: Vec<u8>) -> (r: Self)
        ensures
            r.wf(),
            r@.state == ConnectionState::WaitingForPeer,
            r@.local_pending.pending.len() == 0,
            !r@.local_pending.remote_set,
            r@.remote_pending.pending.len() == 0,
            !r@.remote_pending.remote_set,
            r@.outcome is None,
            r@.desktop_info == desktop_info_json@,
    {
        ConnectionSession {
            state: ConnectionState::WaitingForPeer,
            local_pending: PendingCandidateQueue::new(),
            remote_pending: PendingCandidateQueue::new(),
            outcome: None,
            desktop_info_json,
        }
    }

    pub fn current_state(&self) -> (r: ConnectionState)
        ensures
            r == self@.state,
    {
        self.state
    }

    pub fn current_outcome(&self) -> (r: Option<SessionOutcome>)
        ensures
            r == self@.outcome,
    {
        self.outcome
    }

    /// Feed one event through the decision table; the returned actions are
    /// performed by the shell in order.
    pub fn handle(&mut self, e: SessionEvent) -> (actions: Vec<SessionAction>)
        requires
            old(self).wf(),
        ensures
            final(self).wf(),
            final(self)@ == spec_handle(old(self)@, e@).0,
            actions.deep_view() == spec_handle(old(self)@, e@).1,
    {
        let ghost m0 = self@;
        let ghost ev = e@;
        let mut actions: Vec<SessionAction> = Vec::new();
        proof {
            assert(actions.deep_view() =~= Seq::<ActionModel>::empty());
        }
        match e {
            SessionEvent::RemoteOffer { sdp } => {
                if self.state == ConnectionState::WaitingForPeer {
                    let ghost flushed_model = self@.remote_pending.pending;
                    push_action(
                        &mut actions,
                        SessionAction::NotifyFrontEnd { event: FrontEndEvent::UserConnecting },
                    );
                    push_action(&mut actions, SessionAction::ApplyRemoteOffer { sdp });
                    let ghost base = actions.deep_view();
                    let flushed = self.remote_pending.flush();
                    proof {
                        assert(self@.remote_pending.pending =~= Seq::<Seq<u8>>::empty());
                    }
                    let n = flushed.len();
                    let mut i: usize = 0;
                    while i < n
                        invariant
                            0 <= i <= n,
                            n == flushed@.len(),
                            flushed.deep_view() == flushed_model,
                            actions.deep_view() == base + apply_candidate_actions(
                                flushed_model.take(i as int),
                            ),
                        decreases n - i,
                    {
                        proof {
                            assert(flushed_model[i as int] == flushed@[i as int].deep_view());
                            assert(flushed@[i as int]@ =~= flushed_model[i as int]);
                        }
                        let cvec = vstd::slice::slice_to_vec(flushed[i].as_slice());
                        proof {
                            assert(cvec@ == flushed_model[i as int]);
                        }
                        push_action(
                            &mut actions,
                            SessionAction::ApplyRemoteCandidate { candidate: cvec },
                        );
                        proof {
                            lemma_apply_candidate_snoc(flushed_model, i as int);
                            assert(actions.deep_view() =~= base + apply_candidate_actions(
                                flushed_model.take(i as int + 1),
                            ));
                        }
                        i = i + 1;
                    }
                    self.state = ConnectionState::Negotiating;
                    push_action(&mut actions, SessionAction::ProduceAnswer);
                    proof {
                        assert(flushed_model.take(n as int) =~= flushed_model);
                        assert(actions.deep_view() =~= spec_handle(m0, ev).1);
                    }
                }
            },
            SessionEvent::AnswerReady { sdp } => {
                if self.state == ConnectionState::Negotiating {
                    let ghost flushed_model = self@.local_pending.pending;
                    push_action(
                        &mut actions,
                        SessionAction::SignalEnvelope {
                            tag: Tag::SessionDescription,
                            payload: sdp.clone(),
                        },
                    );
                    push_action(&mut actions, SessionAction::ApplyLocalAnswer { sdp });
                    let ghost base = actions.deep_view();
                    let flushed = self.local_pending.flush();
                    proof {
                        assert(self@.local_pending.pending =~= Seq::<Seq<u8>>::empty());
                    }
                    let n = flushed.len();
                    let mut i: usize = 0;
                    while i < n
                        invariant
                            0 <= i <= n,
                            n == flushed@.len(),
                            flushed.deep_view() == flushed_model,
                            actions.deep_view() == base + signal_candidate_actions(
                                flushed_model.take(i as int),
                            ),
                        decreases n - i,
                    {
                        proof {
                            assert(flushed_model[i as int] == flushed@[i as int].deep_view());
                            assert(flushed@[i as int]@ =~= flushed_model[i as int]);
                        }
                        let cvec = vstd::slice::slice_to_vec(flushed[i].as_slice());
                        proof {
                            assert(cvec@ == flushed_model[i as int]);
                        }
                        push_action(
                            &mut actions,
                            SessionAction::SignalEnvelope {
                                tag: Tag::IceCandidate,
                                payload: cvec,
                            },
                        );
                        proof {
                            lemma_signal_candidate_snoc(flushed_model, i as int);
                            assert(actions.deep_view() =~= base + signal_candidate_actions(
                                flushed_model.take(i as int + 1),
                            ));
                        }
                        i = i + 1;
                    }
                    proof {
                        assert(flushed_model.take(n as int) =~= flushed_model);
                        assert(actions.deep_view() =~= spec_handle(m0, ev).1);
                    }
                }
            },
            SessionEvent::RemoteCandidate { candidate } => {
                match self.remote_pending.offer(candidate) {
                    Some(c) => {
                        push_action(&mut actions, SessionAction::ApplyRemoteCandidate {
                            candidate: c,
                        });
                    },
                    None => {
                    },
                }
            },
            SessionEvent::LocalCandidate { candidate } => {
                if self.remote_pending.remote_is_set() || self.local_pending.remote_is_set() {
                    push_action(
                        &mut actions,
                        SessionAction::SignalEnvelope {
                            tag: Tag::IceCandidate,
                            payload: candidate,
                        },
                    );
                } else {
                    let buffered = self.local_pending.offer(candidate);
                    proof {
                        assert(buffered is None);
                    }
                }
            },
            SessionEvent::TransportConnected => {
                if self.state != ConnectionState::Disconnected && self.state
                    != ConnectionState::Failed && self.state != ConnectionState::Closed
                    && self.state != ConnectionState::Connected {
                    self.state = ConnectionState::Connected;
                    push_action(&mut actions, SessionAction::RequestGracefulSignalingClose);
                }
            },
            SessionEvent::TransportDisconnected => {
                if self.state != ConnectionState::Disconnected && self.state
                    != ConnectionState::Failed && self.state != ConnectionState::Closed {
                    self.state = ConnectionState::Disconnected;
                    if self.outcome.is_none() {
                        self.outcome = Some(SessionOutcome::Disconnect);
                    }
                    push_action(&mut actions, SessionAction::RequestImmediateSignalingClose);
                    push_action(&mut actions, SessionAction::CloseTransport);
                }
            },
            SessionEvent::TransportFailed => {
                if self.state != ConnectionState::Disconnected && self.state
                    != ConnectionState::Failed && self.state != ConnectionState::Closed {
                    self.state = ConnectionState::Failed;
                    if self.outcome.is_none() {
                        self.outcome = Some(SessionOutcome::Disconnect);
                    }
                    push_action(&mut actions, SessionAction::RequestImmediateSignalingClose);
                    push_action(&mut actions, SessionAction::CloseTransport);
                }
            },
            SessionEvent::DataChannelOpen => {
                push_action(
                    &mut actions,
                    SessionAction::NotifyFrontEnd { event: FrontEndEvent::UserConnected },
                );
                let message = codec::encode_desktopinfo(self.desktop_info_json.as_slice());
                push_action(&mut actions, SessionAction::SendData { message });
            },
            SessionEvent::DataChannelClosed => {
                if self.state != ConnectionState::Disconnected && self.state
                    != ConnectionState::Failed && self.state != ConnectionState::Closed {
                    self.state = ConnectionState::Disconnected;
                    if self.outcome.is_none() {
                        self.outcome = Some(SessionOutcome::Disconnect);
                    }
                    push_action(
                        &mut actions,
                        SessionAction::NotifyFrontEnd { event: FrontEndEvent::UserDisconnected },
                    );
                    push_action(&mut actions, SessionAction::RequestImmediateSignalingClose);
                    push_action(&mut actions, SessionAction::CloseTransport);
                } else {
                    push_action(
                        &mut actions,
                        SessionAction::NotifyFrontEnd { event: FrontEndEvent::UserDisconnected },
                    );
                }
            },
            SessionEvent::StopRequested => {
                self.state = ConnectionState::Closed;
                self.outcome = Some(SessionOutcome::Stop);
                push_action(&mut actions, SessionAction::RequestImmediateSignalingClose);
                push_action(&mut actions, SessionAction::CloseTransport);
            },
        }
        proof {
            assert(actions.deep_view() =~= spec_handle(m0, ev).1);
        }
        actions
    }
}

} // verus!
