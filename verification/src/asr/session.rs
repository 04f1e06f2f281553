//! The course of a FunASR session, from the first message to the final
//! acknowledgement.

use vstd::prelude::*;

use crate::asr::funasr;
use crate::asr::funasr::{EventView, FunAsrConfig, TranscriptEvent};
use crate::asr::protocol;
use crate::asr::protocol::{disconnected, handle_incoming, FinishMessage, Incoming, StartMessage};
use crate::audio::Pcm16Chunk;
use crate::error;
use crate::error::{Error, ErrorView};
use crate::text;

verus! {

/// Why no connection was made.
pub enum ConnectFailure {
    TimedOut,
    Failed(String),
}

/// Reports that no connection was made.
pub fn connect_error(failure: ConnectFailure) -> (error: Error)
    ensures
        error@ == ErrorView::Network(
            match failure {
                ConnectFailure::TimedOut => "FunASR connection timed out"@,
                ConnectFailure::Failed(reason) => reason@,
            },
        ),
{
    match failure {
        ConnectFailure::TimedOut => Error::Network("FunASR connection timed out".to_owned()),
        ConnectFailure::Failed(reason) => Error::Network(reason),
    }
}

/// What the user of a session hands in.
pub enum InputMessage {
    Audio(Pcm16Chunk),
    /// There will be no more speech.
    Finish,
}

/// What happens in a session.
pub enum SessionEvent {
    /// The message last handed out was sent.
    Sent,
    /// It could not be sent.
    SendFailed(String),
    Input(InputMessage),
    /// The user of the session is gone.
    InputClosed,
    Incoming(Incoming),
    /// The final result was waited for in vain.
    TimedOut,
}

/// What is to be done next in a session.
pub enum SessionAction {
    SendText(String),
    SendBinary(Vec<u8>),
    /// Report that the session has started, and wait for input or an answer.
    Ready,
    /// Wait for input, or for an answer.
    Listen,
    /// Wait for an answer, but not beyond the limit for the final result, which
    /// runs from the first of these actions on.
    AwaitFinal,
    /// The session ended well: close the connection.
    Close,
    /// The session is over.
    Stop(Result<(), Error>),
    /// The event was not waited for: nothing is to be done.
    Ignore,
}

/// The value of a [`SessionAction`].
#[verifier::ext_equal]
pub enum ActionView {
    SendText(Seq<char>),
    SendBinary(Seq<u8>),
    Ready,
    Listen,
    AwaitFinal,
    Close,
    Stop(Result<(), ErrorView>),
    Ignore,
}

impl View for SessionAction {
    type V = ActionView;

    open spec fn view(&self) -> ActionView {
        match self {
            SessionAction::SendText(text) => ActionView::SendText(text@),
            SessionAction::SendBinary(bytes) => ActionView::SendBinary(bytes@),
            SessionAction::Ready => ActionView::Ready,
            SessionAction::Listen => ActionView::Listen,
            SessionAction::AwaitFinal => ActionView::AwaitFinal,
            SessionAction::Close => ActionView::Close,
            SessionAction::Stop(result) => ActionView::Stop(error::outcome(*result)),
            SessionAction::Ignore => ActionView::Ignore,
        }
    }
}

/// How far a session has come.
#[derive(Clone, Copy, Debug, Eq, PartialEq, Structural)]
pub enum SessionPhase {
    /// The start message is being sent.
    Starting,
    /// Speech is taken and answers are read.
    Streaming,
    /// A chunk of speech is being sent.
    Sending,
    /// The finish message is being sent.
    Ending,
    /// The final result is waited for.
    Draining,
    Closed,
}

/// A connected session.
pub struct Connection {
    pub phase: SessionPhase,
}

/// The first message of a session.
pub open spec fn start_text(config: FunAsrConfig) -> Seq<char> {
    "{\"mode\":"@ + text::json_quoted(config.mode.protocol_name()) + ",\"wav_name\":"@
        + text::json_quoted(config.wav_name@) + ",\"wav_format\":"@ + text::json_quoted("pcm"@)
        + ",\"audio_fs\":"@ + text::decimal(16_000) + ",\"chunk_size\":["@ + text::decimal(5)
        + ","@ + text::decimal(10) + ","@ + text::decimal(5) + "],\"chunk_interval\":"@
        + text::decimal(10) + ",\"is_speaking\":"@ + protocol::json_bool(true) + ",\"itn\":"@
        + protocol::json_bool(config.use_itn) + (match config.hotwords {
        Some(hotwords) => ",\"hotwords\":"@ + text::json_quoted(hotwords@),
        None => Seq::empty(),
    }) + "}"@
}

/// The last message of a session.
pub open spec fn finish_text() -> Seq<char> {
    protocol::finish_json(false, true)
}

/// What an answer does to a session: the phase after it, the events and the
/// next action. `stays` is the phase of a session that goes on, and `wait` how it
/// waits on; `success` ends one that is acknowledged.
pub open spec fn answered(
    stays: SessionPhase,
    incoming: Incoming,
    wait: ActionView,
    success: ActionView,
) -> (SessionPhase, Seq<EventView>, ActionView) {
    match incoming.verdict() {
        Ok(true) => (SessionPhase::Closed, incoming.events(), success),
        Ok(false) => (stays, incoming.events(), wait),
        Err(error) => (SessionPhase::Closed, incoming.events(), ActionView::Stop(Err(error))),
    }
}

/// What an event does to a session: the phase after it, the events that are
/// reported, and what is to be done next.
pub open spec fn session_step(phase: SessionPhase, event: SessionEvent) -> (
    SessionPhase,
    Seq<EventView>,
    ActionView,
) {
    match (phase, event) {
        (SessionPhase::Starting, SessionEvent::Sent) => (
            SessionPhase::Streaming,
            Seq::empty(),
            ActionView::Ready,
        ),
        (SessionPhase::Starting, SessionEvent::SendFailed(reason)) => (
            SessionPhase::Closed,
            Seq::empty(),
            ActionView::Stop(Err(ErrorView::Network(reason@))),
        ),
        (SessionPhase::Streaming, SessionEvent::Input(InputMessage::Audio(chunk))) => (
            SessionPhase::Sending,
            Seq::empty(),
            ActionView::SendBinary(chunk.bytes@),
        ),
        (SessionPhase::Streaming, SessionEvent::Input(InputMessage::Finish)) => (
            SessionPhase::Ending,
            Seq::empty(),
            ActionView::SendText(finish_text()),
        ),
        (SessionPhase::Streaming, SessionEvent::InputClosed) => (
            SessionPhase::Ending,
            Seq::empty(),
            ActionView::SendText(finish_text()),
        ),
        (SessionPhase::Streaming, SessionEvent::Incoming(incoming)) => answered(
            SessionPhase::Streaming,
            incoming,
            ActionView::Listen,
            ActionView::Stop(Ok(())),
        ),
        (SessionPhase::Sending, SessionEvent::Sent) => (
            SessionPhase::Streaming,
            Seq::empty(),
            ActionView::Listen,
        ),
        (SessionPhase::Sending, SessionEvent::SendFailed(reason)) => (
            SessionPhase::Closed,
            seq![EventView::Disconnected { reason: reason@ }],
            ActionView::Stop(Err(ErrorView::Network(reason@))),
        ),
        (SessionPhase::Ending, SessionEvent::Sent) => (
            SessionPhase::Draining,
            Seq::empty(),
            ActionView::AwaitFinal,
        ),
        (SessionPhase::Ending, SessionEvent::SendFailed(reason)) => (
            SessionPhase::Closed,
            Seq::empty(),
            ActionView::Stop(Err(ErrorView::Network(reason@))),
        ),
        (SessionPhase::Draining, SessionEvent::Incoming(incoming)) => answered(
            SessionPhase::Draining,
            incoming,
            ActionView::AwaitFinal,
            ActionView::Close,
        ),
        (SessionPhase::Draining, SessionEvent::TimedOut) => (
            SessionPhase::Closed,
            Seq::empty(),
            ActionView::Stop(
                Err(ErrorView::Network("timed out waiting for final FunASR result"@)),
            ),
        ),
        _ => (phase, Seq::empty(), ActionView::Ignore),
    }
}

impl Connection {
    /// Begins a session over a new connection. The message is to be sent first.
    pub fn open(config: &FunAsrConfig) -> (r: (Connection, String))
        ensures
            r.0.phase == SessionPhase::Starting,
            r.1@ == start_text(*config),
    {
        let message = StartMessage::for_config(config);
        (Connection { phase: SessionPhase::Starting }, message.to_json())
    }

    fn stop(&mut self, result: Result<(), Error>) -> (action: SessionAction)
        ensures
            final(self).phase == SessionPhase::Closed,
            action@ == ActionView::Stop(error::outcome(result)),
    {
        self.phase = SessionPhase::Closed;
        SessionAction::Stop(result)
    }

    fn finish(&mut self) -> (action: SessionAction)
        ensures
            final(self).phase == SessionPhase::Ending,
            action@ == ActionView::SendText(finish_text()),
    {
        self.phase = SessionPhase::Ending;
        SessionAction::SendText(FinishMessage::new().to_json())
    }

    /// Goes on with a session after an event. What is to be reported is added to
    /// `events`.
    pub fn advance(&mut self, event: SessionEvent, events: &mut Vec<TranscriptEvent>) -> (action:
        SessionAction)
        ensures
            final(self).phase == session_step(old(self).phase, event).0,
            funasr::event_views(final(events)@) == funasr::event_views(old(events)@)
                + session_step(old(self).phase, event).1,
            action@ == session_step(old(self).phase, event).2,
    {
        let ghost before = funasr::event_views(events@);
        assert(before + Seq::<EventView>::empty() =~= before);
        match (self.phase, event) {
            (SessionPhase::Starting, SessionEvent::Sent) => {
                self.phase = SessionPhase::Streaming;
                SessionAction::Ready
            },
            (SessionPhase::Starting, SessionEvent::SendFailed(reason)) => self.stop(
                Err(Error::Network(reason)),
            ),
            (SessionPhase::Streaming, SessionEvent::Input(InputMessage::Audio(chunk))) => {
                self.phase = SessionPhase::Sending;
                SessionAction::SendBinary(chunk.bytes)
            },
            (SessionPhase::Streaming, SessionEvent::Input(InputMessage::Finish)) => self.finish(),
            (SessionPhase::Streaming, SessionEvent::InputClosed) => self.finish(),
            (SessionPhase::Streaming, SessionEvent::Incoming(incoming)) => match handle_incoming(
                incoming,
                events,
            ) {
                Ok(true) => self.stop(Ok(())),
                Ok(false) => SessionAction::Listen,
                Err(error) => self.stop(Err(error)),
            },
            (SessionPhase::Sending, SessionEvent::Sent) => {
                self.phase = SessionPhase::Streaming;
                SessionAction::Listen
            },
            (SessionPhase::Sending, SessionEvent::SendFailed(reason)) => {
                let error = disconnected(events, reason);
                self.stop(Err(error))
            },
            (SessionPhase::Ending, SessionEvent::Sent) => {
                self.phase = SessionPhase::Draining;
                SessionAction::AwaitFinal
            },
            (SessionPhase::Ending, SessionEvent::SendFailed(reason)) => self.stop(
                Err(Error::Network(reason)),
            ),
            (SessionPhase::Draining, SessionEvent::Incoming(incoming)) => match handle_incoming(
                incoming,
                events,
            ) {
                Ok(true) => {
                    self.phase = SessionPhase::Closed;
                    SessionAction::Close
                },
                Ok(false) => SessionAction::AwaitFinal,
                Err(error) => self.stop(Err(error)),
            },
            (SessionPhase::Draining, SessionEvent::TimedOut) => self.stop(
                Err(Error::Network("timed out waiting for final FunASR result".to_owned())),
            ),
            _ => SessionAction::Ignore,
        }
    }
}

/// The phase after several events.
pub open spec fn phase_after(phase: SessionPhase, inputs: Seq<SessionEvent>) -> SessionPhase
    decreases inputs.len(),
{
    if inputs.len() == 0 {
        phase
    } else {
        session_step(phase_after(phase, inputs.drop_last()), inputs.last()).0
    }
}

/// What is reported over several events.
pub open spec fn events_over(phase: SessionPhase, inputs: Seq<SessionEvent>) -> Seq<EventView>
    decreases inputs.len(),
{
    if inputs.len() == 0 {
        Seq::empty()
    } else {
        events_over(phase, inputs.drop_last()) + session_step(
            phase_after(phase, inputs.drop_last()),
            inputs.last(),
        ).1
    }
}

/// What is done over several events.
pub open spec fn actions_over(phase: SessionPhase, inputs: Seq<SessionEvent>) -> Seq<ActionView>
    decreases inputs.len(),
{
    if inputs.len() == 0 {
        Seq::empty()
    } else {
        actions_over(phase, inputs.drop_last()).push(
            session_step(phase_after(phase, inputs.drop_last()), inputs.last()).2,
        )
    }
}

/// Whether an action says that the session ended well.
pub open spec fn is_success(action: ActionView) -> bool {
    action == ActionView::Close || action == ActionView::Stop(Ok::<(), ErrorView>(()))
}

/// Whether an action ends the session.
pub open spec fn is_over(action: ActionView) -> bool {
    action == ActionView::Close || action is Stop
}

/// Whether the input of a session has ended.
pub open spec fn input_ended(phase: SessionPhase) -> bool {
    phase == SessionPhase::Ending || phase == SessionPhase::Draining || phase
        == SessionPhase::Closed
}

/// No speech is altered, and none is sent twice or made up: what is sent in a
/// binary message is a chunk that was just handed in, and every chunk that is
/// handed in while the session listens is sent.
pub proof fn law_speech_is_forwarded(phase: SessionPhase, event: SessionEvent)
    ensures
        session_step(phase, event).2 is SendBinary <==> phase == SessionPhase::Streaming && event
            matches SessionEvent::Input(InputMessage::Audio(_)),
        phase == SessionPhase::Streaming ==> (event matches SessionEvent::Input(
            InputMessage::Audio(chunk),
        ) ==> session_step(phase, event).2 == ActionView::SendBinary(chunk.bytes@)),
{
}

/// Once the input of a session has ended, no more speech is sent, whatever
/// happens, and the input does not begin again.
pub proof fn law_no_speech_after_the_end(phase: SessionPhase, inputs: Seq<SessionEvent>)
    requires
        input_ended(phase),
    ensures
        input_ended(phase_after(phase, inputs)),
        forall|i: int|
            0 <= i < inputs.len() ==> !(#[trigger] actions_over(phase, inputs)[i] is SendBinary),
    decreases inputs.len(),
{
    if inputs.len() > 0 {
        law_no_speech_after_the_end(phase, inputs.drop_last());
        lemma_one_action_per_event(phase, inputs.drop_last());
    }
}

proof fn lemma_one_action_per_event(phase: SessionPhase, inputs: Seq<SessionEvent>)
    ensures
        actions_over(phase, inputs).len() == inputs.len(),
    decreases inputs.len(),
{
    if inputs.len() > 0 {
        lemma_one_action_per_event(phase, inputs.drop_last());
    }
}

/// A session that is over does and reports nothing more, whatever happens.
pub proof fn law_a_closed_session_is_silent(inputs: Seq<SessionEvent>)
    ensures
        phase_after(SessionPhase::Closed, inputs) == SessionPhase::Closed,
        events_over(SessionPhase::Closed, inputs) == Seq::<EventView>::empty(),
        forall|i: int|
            0 <= i < inputs.len() ==> #[trigger] actions_over(SessionPhase::Closed, inputs)[i]
                == ActionView::Ignore,
    decreases inputs.len(),
{
    if inputs.len() > 0 {
        law_a_closed_session_is_silent(inputs.drop_last());
        lemma_one_action_per_event(SessionPhase::Closed, inputs.drop_last());
    }
}

/// A session is over exactly when it is closed: the action that ends it is the
/// one that closes it.
pub proof fn law_a_session_ends_once(phase: SessionPhase, event: SessionEvent)
    requires
        phase != SessionPhase::Closed,
    ensures
        is_over(session_step(phase, event).2) <==> session_step(phase, event).0
            == SessionPhase::Closed,
{
}

/// A session ends well exactly when the service has acknowledged the end: the
/// last event that it reports is then `End`, and `End` is reported in no other
/// case.
pub proof fn law_success_needs_an_acknowledgement(phase: SessionPhase, event: SessionEvent)
    ensures
        is_success(session_step(phase, event).2) <==> session_step(phase, event).1.contains(
            EventView::End,
        ),
        is_success(session_step(phase, event).2) ==> session_step(phase, event).1.last()
            == EventView::End,
{
    if let SessionEvent::Incoming(incoming) = event {
        protocol::law_success_is_announced(incoming);
    }
}

/// Over a whole session, `End` is reported only as the last event, and only if
/// the session is over.
pub proof fn law_end_comes_last(phase: SessionPhase, inputs: Seq<SessionEvent>)
    ensures
        events_over(phase, inputs).contains(EventView::End) ==> {
            &&& phase_after(phase, inputs) == SessionPhase::Closed
            &&& events_over(phase, inputs).last() == EventView::End
        },
    decreases inputs.len(),
{
    if inputs.len() > 0 {
        let earlier = inputs.drop_last();
        let step = session_step(phase_after(phase, earlier), inputs.last());
        law_end_comes_last(phase, earlier);
        law_success_needs_an_acknowledgement(phase_after(phase, earlier), inputs.last());
        let events = events_over(phase, inputs);
        if events.contains(EventView::End) {
            let i = choose|i: int| 0 <= i < events.len() && events[i] == EventView::End;
            let n = events_over(phase, earlier).len();
            if i < n {
                assert(events_over(phase, earlier)[i] == EventView::End);
                assert(step.1 =~= Seq::<EventView>::empty());
                assert(events =~= events_over(phase, earlier));
            } else {
                assert(step.1[i - n] == EventView::End);
                assert(step.1.len() > 0);
                assert(events.last() == step.1.last());
            }
        }
    }
}

/// A lost connection and an error of the service are always reported, both as
/// an event and as the result: neither passes for silence or success.
pub proof fn law_failures_are_visible(phase: SessionPhase, event: SessionEvent)
    ensures
        forall|i: int|
            #![trigger session_step(phase, event).1[i]]
            0 <= i < session_step(phase, event).1.len() && (session_step(phase, event).1[i]
                is Disconnected || session_step(phase, event).1[i] is ServerError)
                ==> session_step(phase, event).2 matches ActionView::Stop(Err(_)),
        phase == SessionPhase::Streaming || phase == SessionPhase::Draining ==> (event
            matches SessionEvent::Incoming(incoming) ==> (incoming.verdict() is Err
            ==> session_step(phase, event).2 == ActionView::Stop(
            Err::<(), ErrorView>(incoming.verdict()->Err_0),
        ))),
{
}

/// Whether an action waits without a limit.
pub open spec fn waits_without_limit(action: ActionView) -> bool {
    action == ActionView::Ready || action == ActionView::Listen
}

/// Every wait for the final result is limited: a session begins to drain with
/// `AwaitFinal`, which sets the limit, and after that, whatever happens, it
/// never waits without one. It drains once: what it leaves is only the end.
pub proof fn law_the_final_wait_is_limited(phase: SessionPhase, event: SessionEvent)
    ensures
        session_step(phase, event).0 == SessionPhase::Draining ==> {
            ||| session_step(phase, event).2 == ActionView::AwaitFinal
            ||| phase == SessionPhase::Draining && session_step(phase, event).2
                == ActionView::Ignore
        },
        session_step(phase, event).2 == ActionView::AwaitFinal ==> session_step(phase, event).0
            == SessionPhase::Draining,
        waits_without_limit(session_step(phase, event).2) ==> session_step(phase, event).0
            == SessionPhase::Streaming,
        phase == SessionPhase::Draining ==> session_step(phase, event).0 == SessionPhase::Draining
            || session_step(phase, event).0 == SessionPhase::Closed,
{
}

/// Over a whole session: once it drains, no later action waits without a limit.
pub proof fn law_no_wait_outlasts_the_limit(inputs: Seq<SessionEvent>)
    ensures
        forall|i: int|
            0 <= i < inputs.len() ==> !waits_without_limit(
                #[trigger] actions_over(SessionPhase::Draining, inputs)[i],
            ),
        phase_after(SessionPhase::Draining, inputs) == SessionPhase::Draining || phase_after(
            SessionPhase::Draining,
            inputs,
        ) == SessionPhase::Closed,
    decreases inputs.len(),
{
    if inputs.len() > 0 {
        law_no_wait_outlasts_the_limit(inputs.drop_last());
        lemma_one_action_per_event(SessionPhase::Draining, inputs.drop_last());
    }
}

} // verus!
