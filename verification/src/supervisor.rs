//! Decisions of the session supervisor: which child a supervision event concerns, when
//! audio is held back or dropped, when a child is restarted, and when the session
//! melts down.
//!
//! The front end owns the actors, the restart budget and the retries; it performs each
//! action and hands back what came of it as an event. Children are known by their ids.

use vstd::prelude::*;
use crate::pipeline::ListenerRouting;
use crate::command_popup::{contains_text, contains_seq};
use crate::text::{concat, str_eq};

verus! {

/// A child of the session.
#[derive(Clone, Copy, Debug, PartialEq, Eq, Structural)]
pub enum ChildKind {
    Source,
    Listener,
    Recorder,
}

/// What is kept of a session's audio.
#[derive(Clone, Copy, Debug, PartialEq, Eq, Structural)]
pub enum AudioRetention {
    NotKept,
    Memory,
    Disk,
}

/// What becomes of audio held in memory when the session stops.
#[derive(Clone, Copy, Debug, PartialEq, Eq, Structural)]
pub enum InMemoryAudioDisposition {
    Discard,
    Persist,
}

/// How a session is asked to stop.
#[derive(Clone, Copy, Debug, PartialEq, Eq, Structural)]
pub struct StopSessionParams {
    pub in_memory_audio: Option<InMemoryAudioDisposition>,
}

/// Why a session runs without live transcription.
#[derive(Debug)]
pub enum DegradedError {
    UpstreamUnavailable { message: String },
    StreamError { message: String },
    ConnectionTimeout,
}

/// The message a session accepts.
#[derive(Clone, Copy, Debug)]
pub enum SessionMsg {
    Shutdown(StopSessionParams),
}

/// The supervisor of one session's children.
#[derive(Clone, Copy, Debug)]
pub struct SessionActor;

/// Why children are stopped.
#[derive(Clone, Copy, Debug, PartialEq, Eq, Structural)]
pub enum StopReason {
    SessionStop,
    Meltdown,
}

/// What the supervisor learns.
#[derive(Debug)]
pub enum SupervisorEvent {
    ActorStarted,
    ProcessGroupChanged,
    /// A child stopped, with the reason it gave and that reason read as a degraded error
    /// where it is one.
    ActorTerminated { child: u64, reason: Option<String>, parsed_reason: Option<DegradedError> },
    /// A child failed, with the error it reported.
    ActorFailed { child: u64, error: String },
    /// A restart of the source was attempted: the new source, or none when the budget or
    /// the retries ran out.
    SourceRestarted(Option<u64>),
    /// A restart of the recorder was attempted, likewise.
    RecorderRestarted(Option<u64>),
    /// The listener was spawned, or could not be.
    ListenerSpawned(Option<u64>),
}

/// What the supervisor asks its front end to do, in order.
#[derive(Debug)]
pub enum SupervisorAction {
    /// Tell the source where its audio goes now.
    SetListenerRouting { source: u64, routing: ListenerRouting },
    /// Tell the source which recorder receives its audio.
    SetRecorder { source: u64, recorder: Option<u64> },
    /// Report that the session is active without live transcription.
    EmitDegraded(DegradedError),
    /// Spawn a new source, counting the restart against the budget or not.
    RestartSource { count_against_budget: bool, recorder: Option<u64>, routing: ListenerRouting },
    /// Spawn a new recorder, counting the restart against the budget.
    RestartRecorder,
    /// Tell the recorder what to do with audio held in memory, and wait for it.
    SetStopDisposition { recorder_id: u64, disposition: InMemoryAudioDisposition },
    /// Stop a child and wait for it.
    StopChild { child: u64, kind: ChildKind, reason: StopReason },
    /// Stop the supervisor itself, with a reason or none.
    StopSelf { restart_limit_exceeded: bool },
}

/// The supervisor's state.
pub struct SessionState {
    pub base_url: String,
    pub audio_retention: AudioRetention,
    pub source: Option<u64>,
    pub listener: Option<u64>,
    pub recorder: Option<u64>,
    pub listener_buffering_enabled: bool,
    pub shutting_down: bool,
}

/// The child that `id` names: the source first, then the listener, then the recorder.
pub open spec fn child_of(source: Option<u64>, listener: Option<u64>, recorder: Option<u64>, id: u64) -> Option<ChildKind> {
    if source == Some(id) {
        Some(ChildKind::Source)
    } else if listener == Some(id) {
        Some(ChildKind::Listener)
    } else if recorder == Some(id) {
        Some(ChildKind::Recorder)
    } else {
        None
    }
}

/// Where the source sends audio: to the listener while one is attached, else held back
/// while buffering is enabled, else nowhere.
pub open spec fn routing_for(listener: Option<u64>, buffering: bool) -> ListenerRouting {
    match listener {
        Some(id) => ListenerRouting::Attached(id),
        None => if buffering {
            ListenerRouting::Buffering
        } else {
            ListenerRouting::Dropped
        },
    }
}

/// The message shown when the transcription server at `base_url` cannot be reached.
pub open spec fn connection_failure_text(base_url: Seq<char>) -> Seq<char> {
    if contains_seq(base_url, "localhost"@) || contains_seq(base_url, "127.0.0.1"@) {
        "Local transcription server is not running"@
    } else {
        "Cannot reach transcription server at "@ + base_url
    }
}

/// Says why the transcription server at `base_url` cannot be reached: a local server is
/// not running, or the named server is out of reach.
pub fn classify_connection_failure(base_url: &str) -> (r: String)
    ensures
        r@ == connection_failure_text(base_url@),
{
    if contains_text(base_url, "localhost") || contains_text(base_url, "127.0.0.1") {
        "Local transcription server is not running".to_owned()
    } else {
        concat("Cannot reach transcription server at ", base_url)
    }
}

/// The text of a degraded error's message, where it has one.
pub open spec fn degraded_message(e: DegradedError) -> Option<Seq<char>> {
    match e {
        DegradedError::UpstreamUnavailable { message } => Some(message@),
        DegradedError::StreamError { message } => Some(message@),
        DegradedError::ConnectionTimeout => None,
    }
}

/// Why the listener stopped: the reason it gave, read as a degraded error (`parsed`),
/// else a stream error carrying the reason's text, or a stock text when it gave none.
pub fn degraded_reason(reason: Option<String>, parsed: Option<DegradedError>) -> (r: DegradedError)
    ensures
        parsed is Some ==> r == parsed->0,
        parsed is None ==> r is StreamError && degraded_message(r) == Some(
            match reason {
                Some(t) => t@,
                None => "listener terminated without reason"@,
            },
        ),
{
    match parsed {
        Some(e) => e,
        None => DegradedError::StreamError {
            message: match reason {
                Some(t) => t,
                None => "listener terminated without reason".to_owned(),
            },
        },
    }
}

impl SessionState {
    /// The state is valid: the children that are present have different ids, as the actor
    /// runtime gives every live actor its own id.
    pub open spec fn wf(self) -> bool {
        &&& self.source is Some && self.listener is Some ==> self.source != self.listener
        &&& self.source is Some && self.recorder is Some ==> self.source != self.recorder
        &&& self.listener is Some && self.recorder is Some ==> self.listener != self.recorder
    }

    /// A child that an event brings has an id that no other present child has.
    pub open spec fn event_ids_fresh(self, event: SupervisorEvent) -> bool {
        match event {
            SupervisorEvent::SourceRestarted(Some(id)) => self.listener != Some(id) && self.recorder != Some(id),
            SupervisorEvent::RecorderRestarted(Some(id)) => self.source != Some(id) && self.listener != Some(id),
            SupervisorEvent::ListenerSpawned(Some(id)) => self.source != Some(id) && self.recorder != Some(id),
            _ => true,
        }
    }

    /// A session whose source was spawned with audio held back, and whose recorder was
    /// spawned where audio is kept.
    pub fn new(base_url: String, audio_retention: AudioRetention, source: u64, recorder: Option<u64>) -> (r: Self)
        requires
            recorder != Some(source),
        ensures
            r.wf(),
            r.base_url == base_url,
            r.audio_retention == audio_retention,
            r.source == Some(source),
            r.listener is None,
            r.recorder == recorder,
            r.listener_buffering_enabled,
            !r.shutting_down,
    {
        SessionState {
            base_url,
            audio_retention,
            source: Some(source),
            listener: None,
            recorder,
            listener_buffering_enabled: true,
            shutting_down: false,
        }
    }

    /// The child that `id` names.
    pub fn identify_child(&self, id: u64) -> (r: Option<ChildKind>)
        ensures
            r == child_of(self.source, self.listener, self.recorder, id),
    {
        if self.source == Some(id) {
            Some(ChildKind::Source)
        } else if self.listener == Some(id) {
            Some(ChildKind::Listener)
        } else if self.recorder == Some(id) {
            Some(ChildKind::Recorder)
        } else {
            None
        }
    }

    /// Where the source sends audio now.
    pub fn current_listener_routing(&self) -> (r: ListenerRouting)
        ensures
            r == routing_for(self.listener, self.listener_buffering_enabled),
    {
        match self.listener {
            Some(id) => ListenerRouting::Attached(id),
            None => if self.listener_buffering_enabled {
                ListenerRouting::Buffering
            } else {
                ListenerRouting::Dropped
            },
        }
    }

    /// The action that tells the source the current routing, if there is a source.
    pub open spec fn attach_actions(self) -> Seq<SupervisorAction> {
        match self.source {
            Some(s) => seq![
                SupervisorAction::SetListenerRouting {
                    source: s,
                    routing: routing_for(self.listener, self.listener_buffering_enabled),
                },
            ],
            None => Seq::empty(),
        }
    }

    /// The action that tells the source the current recorder, if there is a source.
    pub open spec fn sync_recorder_actions(self) -> Seq<SupervisorAction> {
        match self.source {
            Some(s) => seq![SupervisorAction::SetRecorder { source: s, recorder: self.recorder }],
            None => Seq::empty(),
        }
    }

    /// The actions that stop every child, the source first, then the listener, then the
    /// recorder.
    pub open spec fn stop_actions(self, reason: StopReason) -> Seq<SupervisorAction> {
        let s = match self.source {
            Some(c) => seq![SupervisorAction::StopChild { child: c, kind: ChildKind::Source, reason }],
            None => Seq::empty(),
        };
        let l = match self.listener {
            Some(c) => seq![SupervisorAction::StopChild { child: c, kind: ChildKind::Listener, reason }],
            None => Seq::empty(),
        };
        let r = match self.recorder {
            Some(c) => seq![SupervisorAction::StopChild { child: c, kind: ChildKind::Recorder, reason }],
            None => Seq::empty(),
        };
        s + l + r
    }

    fn attach_listener_to_source(&self, actions: &mut Vec<SupervisorAction>)
        ensures
            final(actions)@ == old(actions)@ + self.attach_actions(),
    {
        match self.source {
            Some(s) => {
                actions.push(
                    SupervisorAction::SetListenerRouting { source: s, routing: self.current_listener_routing() },
                );
            },
            None => {
                assert(old(actions)@ + Seq::<SupervisorAction>::empty() =~= old(actions)@);
            },
        }
    }

    fn sync_source_recorder(&self, actions: &mut Vec<SupervisorAction>)
        ensures
            final(actions)@ == old(actions)@ + self.sync_recorder_actions(),
    {
        match self.source {
            Some(s) => {
                actions.push(SupervisorAction::SetRecorder { source: s, recorder: self.recorder });
            },
            None => {
                assert(old(actions)@ + Seq::<SupervisorAction>::empty() =~= old(actions)@);
            },
        }
    }

    /// Stops every child in order and forgets them.
    fn shutdown_children(&mut self, reason: StopReason, actions: &mut Vec<SupervisorAction>)
        ensures
            final(actions)@ == old(actions)@ + old(self).stop_actions(reason),
            final(self).source is None,
            final(self).listener is None,
            final(self).recorder is None,
            final(self).base_url == old(self).base_url,
            final(self).audio_retention == old(self).audio_retention,
            final(self).listener_buffering_enabled == old(self).listener_buffering_enabled,
            final(self).shutting_down == old(self).shutting_down,
    {
        let ghost a0 = actions@;
        let ghost st = *self;
        match self.source {
            Some(c) => actions.push(SupervisorAction::StopChild { child: c, kind: ChildKind::Source, reason }),
            None => {},
        }
        let ghost a1 = actions@;
        match self.listener {
            Some(c) => actions.push(SupervisorAction::StopChild { child: c, kind: ChildKind::Listener, reason }),
            None => {},
        }
        let ghost a2 = actions@;
        match self.recorder {
            Some(c) => actions.push(SupervisorAction::StopChild { child: c, kind: ChildKind::Recorder, reason }),
            None => {},
        }
        self.source = None;
        self.listener = None;
        self.recorder = None;
        proof {
            assert(actions@ =~= a0 + st.stop_actions(reason));
        }
    }

    /// The session gives up: every child is stopped and the supervisor stops, reporting
    /// that the restart limit was exceeded.
    pub open spec fn meltdown_post(self, next: Self, actions: Seq<SupervisorAction>) -> bool {
        &&& next == SessionState { source: None, listener: None, recorder: None, shutting_down: true, ..self }
        &&& actions == self.stop_actions(StopReason::Meltdown) + seq![
            SupervisorAction::StopSelf { restart_limit_exceeded: true },
        ]
    }

    fn meltdown(&mut self, actions: &mut Vec<SupervisorAction>)
        requires
            old(actions)@.len() == 0,
        ensures
            old(self).meltdown_post(*final(self), final(actions)@),
    {
        let ghost st = *self;
        self.shutting_down = true;
        self.shutdown_children(StopReason::Meltdown, actions);
        actions.push(SupervisorAction::StopSelf { restart_limit_exceeded: true });
        proof {
            assert(st.stop_actions(StopReason::Meltdown) == SessionState { shutting_down: true, ..st }.stop_actions(
                StopReason::Meltdown,
            ));
            assert(actions@ =~= st.stop_actions(StopReason::Meltdown) + seq![
                SupervisorAction::StopSelf { restart_limit_exceeded: true },
            ]);
        }
    }

    /// Live transcription is given up for the session: audio is no longer held back, the
    /// source is told so, and the reason is reported.
    pub open spec fn degraded_post(self, reason: DegradedError, next: Self, actions: Seq<SupervisorAction>) -> bool {
        let after = SessionState { listener_buffering_enabled: false, ..self };
        &&& next == after
        &&& actions.len() == after.attach_actions().len() + 1
        &&& actions.drop_last() == after.attach_actions()
        &&& actions.last() == SupervisorAction::EmitDegraded(reason)
    }

    fn enter_degraded_mode(&mut self, reason: DegradedError, actions: &mut Vec<SupervisorAction>)
        requires
            old(actions)@.len() == 0,
        ensures
            old(self).degraded_post(reason, *final(self), final(actions)@),
    {
        self.listener_buffering_enabled = false;
        self.attach_listener_to_source(actions);
        let ghost attached = actions@;
        actions.push(SupervisorAction::EmitDegraded(reason));
        assert(Seq::<SupervisorAction>::empty() + self.attach_actions() =~= self.attach_actions());
        assert(actions@.drop_last() =~= attached);
    }

    /// What losing the source does: a new one is asked for, with the current recorder and
    /// routing; `counted` says whether the restart counts against the budget.
    pub open spec fn source_lost_post(self, counted: bool, next: Self, actions: Seq<SupervisorAction>) -> bool {
        let after = SessionState { source: None, ..self };
        &&& next == after
        &&& actions == seq![
            SupervisorAction::RestartSource {
                count_against_budget: counted,
                recorder: self.recorder,
                routing: routing_for(self.listener, self.listener_buffering_enabled),
            },
        ]
    }

    /// What losing the recorder does: the source is told it has none, and a new one is
    /// asked for where audio is kept.
    pub open spec fn recorder_lost_post(self, next: Self, actions: Seq<SupervisorAction>) -> bool {
        let after = SessionState { recorder: None, ..self };
        &&& next == after
        &&& actions == if self.audio_retention == AudioRetention::NotKept {
            after.sync_recorder_actions()
        } else {
            after.sync_recorder_actions().push(SupervisorAction::RestartRecorder)
        }
    }

    /// What a supervision event does.
    pub open spec fn event_post(self, event: SupervisorEvent, next: Self, actions: Seq<SupervisorAction>) -> bool {
        match event {
            SupervisorEvent::ActorStarted => next == self && actions.len() == 0,
            SupervisorEvent::ProcessGroupChanged => next == self && actions.len() == 0,
            SupervisorEvent::ActorTerminated { child, reason, parsed_reason } => if self.shutting_down {
                next == self && actions.len() == 0
            } else {
                match child_of(self.source, self.listener, self.recorder, child) {
                    Some(ChildKind::Listener) => {
                        let after = SessionState { listener: None, listener_buffering_enabled: false, ..self };
                        &&& next == after
                        &&& actions.len() == after.attach_actions().len() + 1
                        &&& actions.drop_last() == after.attach_actions()
                        &&& actions.last() matches SupervisorAction::EmitDegraded(e)
                        &&& parsed_reason is Some ==> e == parsed_reason->0
                        &&& parsed_reason is None ==> e is StreamError && degraded_message(e) == Some(
                            match reason {
                                Some(t) => t@,
                                None => "listener terminated without reason"@,
                            },
                        )
                    },
                    Some(ChildKind::Source) => self.source_lost_post(
                        !(reason matches Some(t) && t@ == "device_change"@),
                        next,
                        actions,
                    ),
                    Some(ChildKind::Recorder) => self.recorder_lost_post(next, actions),
                    None => next == self && actions.len() == 0,
                }
            },
            SupervisorEvent::ActorFailed { child, error } => if self.shutting_down {
                next == self && actions.len() == 0
            } else {
                match child_of(self.source, self.listener, self.recorder, child) {
                    Some(ChildKind::Listener) => {
                        let after = SessionState { listener: None, listener_buffering_enabled: false, ..self };
                        &&& next == after
                        &&& actions.len() == after.attach_actions().len() + 1
                        &&& actions.drop_last() == after.attach_actions()
                        &&& actions.last() matches SupervisorAction::EmitDegraded(e)
                        &&& e is StreamError && degraded_message(e) == Some(error@)
                    },
                    Some(ChildKind::Source) => self.source_lost_post(true, next, actions),
                    Some(ChildKind::Recorder) => self.recorder_lost_post(next, actions),
                    None => next == self && actions.len() == 0,
                }
            },
            SupervisorEvent::SourceRestarted(outcome) => match outcome {
                Some(id) => next == SessionState { source: Some(id), ..self } && actions.len() == 0,
                None => self.meltdown_post(next, actions),
            },
            SupervisorEvent::RecorderRestarted(outcome) => match outcome {
                Some(id) => {
                    let after = SessionState { recorder: Some(id), ..self };
                    next == after && actions == after.sync_recorder_actions()
                },
                None => self.meltdown_post(next, actions),
            },
            SupervisorEvent::ListenerSpawned(outcome) => match outcome {
                Some(id) => {
                    let after = SessionState { listener: Some(id), ..self };
                    next == after && actions == after.attach_actions()
                },
                None => {
                    let after = SessionState { listener_buffering_enabled: false, ..self };
                    &&& next == after
                    &&& actions.len() == after.attach_actions().len() + 1
                    &&& actions.drop_last() == after.attach_actions()
                    &&& actions.last() matches SupervisorAction::EmitDegraded(e)
                    &&& e is UpstreamUnavailable && degraded_message(e) == Some(
                        connection_failure_text(self.base_url@),
                    )
                },
            },
        }
    }

    fn lose_source(&mut self, counted: bool, actions: &mut Vec<SupervisorAction>)
        requires
            old(actions)@.len() == 0,
        ensures
            old(self).source_lost_post(counted, *final(self), final(actions)@),
    {
        let routing = self.current_listener_routing();
        self.source = None;
        actions.push(
            SupervisorAction::RestartSource { count_against_budget: counted, recorder: self.recorder, routing },
        );
        assert(actions@ =~= seq![
            SupervisorAction::RestartSource { count_against_budget: counted, recorder: self.recorder, routing },
        ]);
    }

    fn lose_recorder(&mut self, actions: &mut Vec<SupervisorAction>)
        requires
            old(actions)@.len() == 0,
        ensures
            old(self).recorder_lost_post(*final(self), final(actions)@),
    {
        self.recorder = None;
        self.sync_source_recorder(actions);
        assert(Seq::<SupervisorAction>::empty() + self.sync_recorder_actions() =~= self.sync_recorder_actions());
        if self.audio_retention != AudioRetention::NotKept {
            actions.push(SupervisorAction::RestartRecorder);
        }
    }

    /// Decides what a supervision event does and what the front end should do about it.
    pub fn handle_event(&mut self, event: SupervisorEvent) -> (actions: Vec<SupervisorAction>)
        requires
            old(self).wf(),
            old(self).event_ids_fresh(event),
        ensures
            final(self).wf(),
            old(self).event_post(event, *final(self), actions@),
    {
        let mut actions: Vec<SupervisorAction> = Vec::new();
        match event {
            SupervisorEvent::ActorStarted => {},
            SupervisorEvent::ProcessGroupChanged => {},
            SupervisorEvent::ActorTerminated { child, reason, parsed_reason } => {
                if self.shutting_down {
                    return actions;
                }
                match self.identify_child(child) {
                    Some(ChildKind::Listener) => {
                        self.listener = None;
                        let degraded = degraded_reason(reason, parsed_reason);
                        self.enter_degraded_mode(degraded, &mut actions);
                    },
                    Some(ChildKind::Source) => {
                        let is_device_change = match &reason {
                            Some(t) => str_eq(t.as_str(), "device_change"),
                            None => false,
                        };
                        self.lose_source(!is_device_change, &mut actions);
                    },
                    Some(ChildKind::Recorder) => {
                        self.lose_recorder(&mut actions);
                    },
                    None => {},
                }
            },
            SupervisorEvent::ActorFailed { child, error } => {
                if self.shutting_down {
                    return actions;
                }
                match self.identify_child(child) {
                    Some(ChildKind::Listener) => {
                        self.listener = None;
                        self.enter_degraded_mode(DegradedError::StreamError { message: error }, &mut actions);
                    },
                    Some(ChildKind::Source) => {
                        self.lose_source(true, &mut actions);
                    },
                    Some(ChildKind::Recorder) => {
                        self.lose_recorder(&mut actions);
                    },
                    None => {},
                }
            },
            SupervisorEvent::SourceRestarted(outcome) => match outcome {
                Some(id) => {
                    self.source = Some(id);
                },
                None => {
                    self.meltdown(&mut actions);
                },
            },
            SupervisorEvent::RecorderRestarted(outcome) => match outcome {
                Some(id) => {
                    self.recorder = Some(id);
                    self.sync_source_recorder(&mut actions);
                    assert(Seq::<SupervisorAction>::empty() + self.sync_recorder_actions()
                        =~= self.sync_recorder_actions());
                },
                None => {
                    self.meltdown(&mut actions);
                },
            },
            SupervisorEvent::ListenerSpawned(outcome) => match outcome {
                Some(id) => {
                    self.listener = Some(id);
                    self.attach_listener_to_source(&mut actions);
                    assert(Seq::<SupervisorAction>::empty() + self.attach_actions() =~= self.attach_actions());
                },
                None => {
                    let message = classify_connection_failure(self.base_url.as_str());
                    self.enter_degraded_mode(DegradedError::UpstreamUnavailable { message }, &mut actions);
                },
            },
        }
        actions
    }

    /// What stopping the session does: audio held in memory gets its disposition
    /// (discarded unless said otherwise), every child is stopped in order, then the
    /// supervisor.
    pub open spec fn shutdown_post(self, params: StopSessionParams, next: Self, actions: Seq<SupervisorAction>) -> bool {
        let disposition = match params.in_memory_audio {
            Some(d) => d,
            None => InMemoryAudioDisposition::Discard,
        };
        let first = if self.audio_retention == AudioRetention::Memory && self.recorder is Some {
            seq![SupervisorAction::SetStopDisposition { recorder_id: self.recorder->0, disposition }]
        } else {
            Seq::empty()
        };
        &&& next == SessionState { source: None, listener: None, recorder: None, shutting_down: true, ..self }
        &&& actions == first + self.stop_actions(StopReason::SessionStop) + seq![
            SupervisorAction::StopSelf { restart_limit_exceeded: false },
        ]
    }

    /// Handles a message sent to the session.
    pub fn handle_message(&mut self, message: SessionMsg) -> (actions: Vec<SupervisorAction>)
        requires
            old(self).wf(),
        ensures
            final(self).wf(),
            match message {
                SessionMsg::Shutdown(params) => old(self).shutdown_post(params, *final(self), actions@),
            },
    {
        let mut actions: Vec<SupervisorAction> = Vec::new();
        match message {
            SessionMsg::Shutdown(params) => {
                let ghost st = *self;
                self.shutting_down = true;
                if self.audio_retention == AudioRetention::Memory {
                    let disposition = match params.in_memory_audio {
                        Some(d) => d,
                        None => InMemoryAudioDisposition::Discard,
                    };
                    match self.recorder {
                        Some(r) => actions.push(SupervisorAction::SetStopDisposition { recorder_id: r, disposition }),
                        None => {},
                    }
                }
                let ghost first = actions@;
                self.shutdown_children(StopReason::SessionStop, &mut actions);
                actions.push(SupervisorAction::StopSelf { restart_limit_exceeded: false });
                proof {
                    assert(st.stop_actions(StopReason::SessionStop) == SessionState { shutting_down: true, ..st }.stop_actions(StopReason::SessionStop));
                    let disposition = match params.in_memory_audio {
                        Some(d) => d,
                        None => InMemoryAudioDisposition::Discard,
                    };
                    let f = if st.audio_retention == AudioRetention::Memory && st.recorder is Some {
                        seq![SupervisorAction::SetStopDisposition { recorder_id: st.recorder->0, disposition }]
                    } else {
                        Seq::empty()
                    };
                    assert(first =~= f);
                    assert(actions@ =~= f + st.stop_actions(StopReason::SessionStop) + seq![
                        SupervisorAction::StopSelf { restart_limit_exceeded: false },
                    ]);
                }
            },
        }
        actions
    }
}

/// Once the session is shutting down, a child that stops or fails changes nothing and
/// asks for nothing.
pub proof fn law_shutting_down_ignores_children(
    s: SessionState,
    event: SupervisorEvent,
    next: SessionState,
    actions: Seq<SupervisorAction>,
)
    requires
        s.shutting_down,
        event is ActorTerminated || event is ActorFailed,
        s.event_post(event, next, actions),
    ensures
        next == s,
        actions.len() == 0,
{
}

/// The place of a stop in the order children are stopped: source, listener, recorder.
pub open spec fn stop_rank(a: SupervisorAction) -> int {
    match a {
        SupervisorAction::StopChild { kind, .. } => match kind {
            ChildKind::Source => 0,
            ChildKind::Listener => 1,
            ChildKind::Recorder => 2,
        },
        _ => -1,
    }
}

/// The stops of `actions` come source first, then listener, then recorder.
pub open spec fn stops_in_order(actions: Seq<SupervisorAction>) -> bool {
    forall|i: int, j: int|
        0 <= i < j < actions.len() && (#[trigger] actions[i]) is StopChild && (#[trigger] actions[j]) is StopChild
            ==> stop_rank(actions[i]) < stop_rank(actions[j])
}

/// Stopping the session, or melting it down, leaves no child and marks the session as
/// shutting down; the children are stopped source first, then listener, then recorder.
pub proof fn law_stop_leaves_no_children(
    s: SessionState,
    params: StopSessionParams,
    next: SessionState,
    actions: Seq<SupervisorAction>,
)
    requires
        s.shutdown_post(params, next, actions) || s.meltdown_post(next, actions),
    ensures
        next.shutting_down,
        next.source is None && next.listener is None && next.recorder is None,
        stops_in_order(actions),
{
}

/// The event says that the child `id` stopped or failed.
pub open spec fn concerns(event: SupervisorEvent, id: u64) -> bool {
    match event {
        SupervisorEvent::ActorTerminated { child, .. } => child == id,
        SupervisorEvent::ActorFailed { child, .. } => child == id,
        _ => false,
    }
}

/// The children keep different ids: no event, and no stop, makes two of them share one,
/// as long as a child that an event brings has an id of its own.
pub proof fn law_children_stay_distinct(
    s: SessionState,
    event: SupervisorEvent,
    next: SessionState,
    actions: Seq<SupervisorAction>,
)
    requires
        s.wf(),
        s.event_ids_fresh(event),
        s.event_post(event, next, actions),
    ensures
        next.wf(),
{
}

/// Stopping the session keeps the children's ids distinct, having no child left.
pub proof fn law_stop_keeps_children_distinct(
    s: SessionState,
    params: StopSessionParams,
    next: SessionState,
    actions: Seq<SupervisorAction>,
)
    requires
        s.shutdown_post(params, next, actions),
    ensures
        next.wf(),
{
}

/// Losing the source asks for exactly one new source, fed by the current recorder and
/// sending audio where it went before: to the attached listener, else held back while
/// buffering is on, else nowhere. The restart counts against the budget unless the source
/// stopped because its device changed.
pub proof fn law_lost_source_is_restarted(
    s: SessionState,
    event: SupervisorEvent,
    next: SessionState,
    actions: Seq<SupervisorAction>,
    id: u64,
)
    requires
        !s.shutting_down,
        s.source == Some(id),
        concerns(event, id),
        s.event_post(event, next, actions),
    ensures
        next.source is None,
        next.listener == s.listener && next.recorder == s.recorder,
        actions.len() == 1,
        actions[0] matches SupervisorAction::RestartSource { count_against_budget: c, recorder: r, routing: ro } && r
            == s.recorder && (s.listener matches Some(l) ==> ro == ListenerRouting::Attached(l)) && (s.listener is None
            && s.listener_buffering_enabled ==> ro == ListenerRouting::Buffering) && (s.listener is None
            && !s.listener_buffering_enabled ==> ro == ListenerRouting::Dropped) && (event is ActorFailed ==> c) && (
        event matches SupervisorEvent::ActorTerminated { reason, .. } ==> (c <==> !(reason matches Some(t) && t@
            == "device_change"@))),
{
}

/// Losing the recorder restarts it exactly when audio is kept: in memory or on disk the
/// last action restarts the recorder, and when audio is not kept no action does. Either
/// way the source is first told that it has no recorder, and the other children stay.
pub proof fn law_lost_recorder_restarts_when_audio_is_kept(
    s: SessionState,
    event: SupervisorEvent,
    next: SessionState,
    actions: Seq<SupervisorAction>,
    id: u64,
)
    requires
        !s.shutting_down,
        s.wf(),
        s.recorder == Some(id),
        concerns(event, id),
        s.event_post(event, next, actions),
    ensures
        next.recorder is None,
        next.source == s.source && next.listener == s.listener,
        (s.audio_retention == AudioRetention::Memory || s.audio_retention == AudioRetention::Disk) ==> actions.len()
            > 0 && actions.last() == SupervisorAction::RestartRecorder,
        s.audio_retention == AudioRetention::NotKept ==> forall|i: int|
            0 <= i < actions.len() ==> #[trigger] actions[i] != SupervisorAction::RestartRecorder,
        s.source matches Some(src) ==> actions.len() > 0 && actions[0] == (SupervisorAction::SetRecorder {
            source: src,
            recorder: None,
        }),
{
}

/// Audio goes to a listener only while one is attached; once live transcription is given
/// up after the listener stopped or failed, audio is neither sent nor held back.
pub proof fn law_lost_listener_drops_audio(
    s: SessionState,
    event: SupervisorEvent,
    next: SessionState,
    actions: Seq<SupervisorAction>,
    id: u64,
)
    requires
        !s.shutting_down,
        s.wf(),
        s.listener == Some(id),
        concerns(event, id),
        s.event_post(event, next, actions),
    ensures
        next.listener is None,
        !next.listener_buffering_enabled,
        routing_for(next.listener, next.listener_buffering_enabled) == ListenerRouting::Dropped,
        next.source == s.source && next.recorder == s.recorder && !next.shutting_down,
        actions == (match s.source {
            Some(src) => seq![SupervisorAction::SetListenerRouting { source: src, routing: ListenerRouting::Dropped }],
            None => Seq::empty(),
        }).push(actions.last()),
        actions.last() is EmitDegraded,
{
}

} // verus!
