//! Settings of a FunASR connection and the events it yields.

use std::time::Duration;

use vstd::prelude::*;

use crate::capture;
use crate::error;
use crate::error::{Error, ErrorView};
use crate::text;
use crate::text::trim;
use crate::time;
use crate::time::duration;

verus! {

/// How speech is recognized.
#[derive(Clone, Copy, Debug, Eq, PartialEq, Structural)]
pub enum AsrMode {
    Online,
    Offline,
    TwoPass,
}

impl Default for AsrMode {
    fn default() -> (mode: Self)
        ensures
            mode == AsrMode::TwoPass,
    {
        AsrMode::TwoPass
    }
}

impl AsrMode {
    /// The name of the mode in the protocol.
    pub open spec fn protocol_name(self) -> Seq<char> {
        match self {
            AsrMode::Online => "online"@,
            AsrMode::Offline => "offline"@,
            AsrMode::TwoPass => "2pass"@,
        }
    }

    /// Names the mode as the protocol does.
    pub fn as_protocol_str(self) -> (name: &'static str)
        ensures
            name@ == self.protocol_name(),
    {
        match self {
            AsrMode::Online => "online",
            AsrMode::Offline => "offline",
            AsrMode::TwoPass => "2pass",
        }
    }
}

/// Connection and protocol settings for a remote FunASR WebSocket service.
pub struct FunAsrConfig {
    pub url: String,
    pub mode: AsrMode,
    pub wav_name: String,
    /// Optional JSON hotword object, for example `{"Vapor Tap": 20}`.
    pub hotwords: Option<String>,
    pub use_itn: bool,
    pub bearer_token: Option<String>,
    pub audio_queue_capacity: usize,
    pub connect_timeout: Duration,
    pub final_result_timeout: Duration,
}

fn clone_text(text: &Option<String>) -> (r: Option<String>)
    ensures
        capture::text_view(r) == capture::text_view(*text),
{
    match text {
        Some(text) => Some(text.clone()),
        None => None,
    }
}

impl Clone for FunAsrConfig {
    fn clone(&self) -> (r: Self)
        ensures
            r.url@ == self.url@,
            r.mode == self.mode,
            r.wav_name@ == self.wav_name@,
            capture::text_view(r.hotwords) == capture::text_view(self.hotwords),
            r.use_itn == self.use_itn,
            capture::text_view(r.bearer_token) == capture::text_view(self.bearer_token),
            r.audio_queue_capacity == self.audio_queue_capacity,
            r.connect_timeout == self.connect_timeout,
            r.final_result_timeout == self.final_result_timeout,
    {
        FunAsrConfig {
            url: self.url.clone(),
            mode: self.mode,
            wav_name: self.wav_name.clone(),
            hotwords: clone_text(&self.hotwords),
            use_itn: self.use_itn,
            bearer_token: clone_text(&self.bearer_token),
            audio_queue_capacity: self.audio_queue_capacity,
            connect_timeout: self.connect_timeout,
            final_result_timeout: self.final_result_timeout,
        }
    }
}

impl FunAsrConfig {
    /// The usual settings for a service.
    pub fn new(url: &str) -> (config: Self)
        ensures
            config.url@ == url@,
            config.mode == AsrMode::TwoPass,
            config.wav_name@ == "vapor-tap"@,
            config.hotwords is None,
            config.use_itn,
            config.bearer_token is None,
            config.audio_queue_capacity == 128,
            config.connect_timeout == time::duration_of(10, 0),
            config.final_result_timeout == time::duration_of(30, 0),
    {
        FunAsrConfig {
            url: url.to_owned(),
            mode: AsrMode::TwoPass,
            wav_name: "vapor-tap".to_owned(),
            hotwords: None,
            use_itn: true,
            bearer_token: None,
            audio_queue_capacity: 128,
            connect_timeout: duration(10, 0),
            final_result_timeout: duration(30, 0),
        }
    }

    /// Checks the settings before a connection is made with them.
    pub fn validate(&self) -> (r: Result<(), Error>)
        ensures
            error::outcome(r) == if self.audio_queue_capacity == 0 {
                Err(
                    ErrorView::InvalidArgument(
                        "FunASR audio queue capacity must be non-zero"@,
                    ),
                )
            } else if text::trimmed(self.url@).len() == 0 {
                Err(ErrorView::InvalidArgument("FunASR URL must be non-empty"@))
            } else {
                Ok(())
            },
    {
        if self.audio_queue_capacity == 0 {
            return Err(
                Error::InvalidArgument("FunASR audio queue capacity must be non-zero"),
            );
        }
        if trim(self.url.as_str()).is_empty() {
            return Err(Error::InvalidArgument("FunASR URL must be non-empty"));
        }
        Ok(())
    }
}

/// Takes a bearer token from where it was looked up; an empty one is none.
pub fn usable_token(token: Option<String>) -> (r: Option<String>)
    ensures
        capture::text_view(r) == match token {
            Some(token) => if token@.len() == 0 {
                None
            } else {
                Some(token@)
            },
            None => None,
        },
{
    match token {
        Some(token) => if token.as_str().is_empty() {
            None
        } else {
            Some(token)
        },
        None => None,
    }
}

/// What a session reports.
#[derive(Clone, Debug, PartialEq)]
pub enum TranscriptEvent {
    Partial { text: String },
    Final { text: String, timestamp: Option<String> },
    ServerError { message: String },
    End,
    Disconnected { reason: String },
}

/// The value of a [`TranscriptEvent`].
#[verifier::ext_equal]
pub enum EventView {
    Partial { text: Seq<char> },
    Final { text: Seq<char>, timestamp: Option<Seq<char>> },
    ServerError { message: Seq<char> },
    End,
    Disconnected { reason: Seq<char> },
}

impl View for TranscriptEvent {
    type V = EventView;

    open spec fn view(&self) -> EventView {
        match self {
            TranscriptEvent::Partial { text } => EventView::Partial { text: text@ },
            TranscriptEvent::Final { text, timestamp } => EventView::Final {
                text: text@,
                timestamp: capture::text_view(*timestamp),
            },
            TranscriptEvent::ServerError { message } => EventView::ServerError {
                message: message@,
            },
            TranscriptEvent::End => EventView::End,
            TranscriptEvent::Disconnected { reason } => EventView::Disconnected {
                reason: reason@,
            },
        }
    }
}

/// The values of some events.
pub open spec fn event_views(events: Seq<TranscriptEvent>) -> Seq<EventView> {
    events.map_values(|event: TranscriptEvent| event@)
}

/// Why the bounded audio queue did not take a chunk.
#[derive(Clone, Copy, Debug, Eq, PartialEq, Structural)]
pub enum QueueFailure {
    Full,
    Closed,
}

/// Reports a chunk that the queue did not take. Queue overflow is reported
/// explicitly because dropping speech corrupts a transcript.
pub fn queue_error(failure: QueueFailure) -> (error: Error)
    ensures
        error@ == match failure {
            QueueFailure::Full => ErrorView::AudioQueueFull,
            QueueFailure::Closed => ErrorView::Network("FunASR connection is closed"@),
        },
{
    match failure {
        QueueFailure::Full => Error::AudioQueueFull,
        QueueFailure::Closed => Error::Network("FunASR connection is closed".to_owned()),
    }
}

/// Hands the receiving end of the events out, once.
pub fn take_events<T>(events: &mut Option<T>) -> (r: Result<T, Error>)
    ensures
        *final(events) is None,
        match *old(events) {
            Some(receiver) => r == Ok::<_, Error>(receiver),
            None => error::outcome(r) == Err::<T, _>(
                ErrorView::InvalidArgument("FunASR events were already taken"@),
            ),
        },
{
    match events.take() {
        Some(receiver) => Ok(receiver),
        None => Err(Error::InvalidArgument("FunASR events were already taken")),
    }
}

/// What is said of a connection that ended before it was ready.
pub fn startup_message(result: &Result<(), Error>) -> (message: String)
    ensures
        message@ == match *result {
            Ok(_) => "FunASR connection ended during startup"@,
            Err(error) => error@.message(),
        },
{
    match result {
        Ok(_) => "FunASR connection ended during startup".to_owned(),
        Err(error) => error.message(),
    }
}

/// Reads whether a connection became ready: what its task reported, or `None`
/// where the task ended without a word.
pub fn startup_result(report: Option<Result<(), String>>) -> (r: Result<(), Error>)
    ensures
        error::outcome(r) == match report {
            Some(Ok(_)) => Ok(()),
            Some(Err(message)) => Err(ErrorView::Network(message@)),
            None => Err(ErrorView::Network("FunASR connection task ended during startup"@)),
        },
{
    match report {
        Some(Ok(_)) => Ok(()),
        Some(Err(message)) => Err(Error::Network(message)),
        None => Err(Error::Network("FunASR connection task ended during startup".to_owned())),
    }
}

} // verus!
