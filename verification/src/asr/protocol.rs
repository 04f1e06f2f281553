//! The messages of the FunASR WebSocket protocol.

use vstd::prelude::*;

use crate::asr::funasr;
use crate::asr::funasr::{EventView, FunAsrConfig, TranscriptEvent};
use crate::capture;
use crate::error;
use crate::error::{Error, ErrorView};
use crate::text;
use crate::text::{decimal_text, json_text};

verus! {

/// A flag in JSON.
pub open spec fn json_bool(flag: bool) -> Seq<char> {
    if flag {
        "true"@
    } else {
        "false"@
    }
}

fn json_bool_text(flag: bool) -> (r: &'static str)
    ensures
        r@ == json_bool(flag),
{
    if flag {
        "true"
    } else {
        "false"
    }
}

/// The first message of a session, which says what audio will come.
pub struct StartMessage {
    pub mode: &'static str,
    pub wav_name: String,
    pub wav_format: &'static str,
    pub audio_fs: u32,
    pub chunk_size: [u32; 3],
    pub chunk_interval: u32,
    pub is_speaking: bool,
    pub itn: bool,
    pub hotwords: Option<String>,
}

/// The text of a start message.
pub open spec fn start_json(message: StartMessage) -> Seq<char> {
    "{\"mode\":"@ + text::json_quoted(message.mode@) + ",\"wav_name\":"@ + text::json_quoted(
        message.wav_name@,
    ) + ",\"wav_format\":"@ + text::json_quoted(message.wav_format@) + ",\"audio_fs\":"@
        + text::decimal(message.audio_fs as nat) + ",\"chunk_size\":["@ + text::decimal(
        message.chunk_size@[0] as nat,
    ) + ","@ + text::decimal(message.chunk_size@[1] as nat) + ","@ + text::decimal(
        message.chunk_size@[2] as nat,
    ) + "],\"chunk_interval\":"@ + text::decimal(message.chunk_interval as nat)
        + ",\"is_speaking\":"@ + json_bool(message.is_speaking) + ",\"itn\":"@ + json_bool(
        message.itn,
    ) + (match message.hotwords {
        Some(hotwords) => ",\"hotwords\":"@ + text::json_quoted(hotwords@),
        None => Seq::empty(),
    }) + "}"@
}

impl StartMessage {
    /// The start message for a connection: mono 16-bit PCM at 16 kHz.
    pub fn for_config(config: &FunAsrConfig) -> (message: StartMessage)
        ensures
            message.mode@ == config.mode.protocol_name(),
            message.wav_name@ == config.wav_name@,
            message.wav_format@ == "pcm"@,
            message.audio_fs == 16_000,
            message.chunk_size@ == seq![5u32, 10, 5],
            message.chunk_interval == 10,
            message.is_speaking,
            message.itn == config.use_itn,
            capture::text_view(message.hotwords) == capture::text_view(config.hotwords),
    {
        let hotwords = match &config.hotwords {
            Some(hotwords) => Some(hotwords.clone()),
            None => None,
        };
        let chunk_size: [u32; 3] = [5, 10, 5];
        assert(chunk_size@ =~= seq![5u32, 10, 5]);
        StartMessage {
            mode: config.mode.as_protocol_str(),
            wav_name: config.wav_name.clone(),
            wav_format: "pcm",
            audio_fs: 16_000,
            chunk_size,
            chunk_interval: 10,
            is_speaking: true,
            itn: config.use_itn,
            hotwords,
        }
    }

    /// Writes the message as JSON.
    pub fn to_json(&self) -> (json: String)
        ensures
            json@ == start_json(*self),
    {
        let mut json = "{\"mode\":".to_owned();
        json.append(json_text(self.mode).as_str());
        json.append(",\"wav_name\":");
        json.append(json_text(self.wav_name.as_str()).as_str());
        json.append(",\"wav_format\":");
        json.append(json_text(self.wav_format).as_str());
        json.append(",\"audio_fs\":");
        json.append(decimal_text(self.audio_fs).as_str());
        json.append(",\"chunk_size\":[");
        json.append(decimal_text(self.chunk_size[0]).as_str());
        json.append(",");
        json.append(decimal_text(self.chunk_size[1]).as_str());
        json.append(",");
        json.append(decimal_text(self.chunk_size[2]).as_str());
        json.append("],\"chunk_interval\":");
        json.append(decimal_text(self.chunk_interval).as_str());
        json.append(",\"is_speaking\":");
        json.append(json_bool_text(self.is_speaking));
        json.append(",\"itn\":");
        json.append(json_bool_text(self.itn));
        match &self.hotwords {
            Some(hotwords) => {
                let ghost before = json@;
                json.append(",\"hotwords\":");
                json.append(json_text(hotwords.as_str()).as_str());
                assert(json@ =~= before + (",\"hotwords\":"@ + text::json_quoted(hotwords@)));
            },
            None => {
                assert(json@ + Seq::<char>::empty() =~= json@);
            },
        }
        json.append("}");
        json
    }
}

/// The message that ends the input of a session.
pub struct FinishMessage {
    pub is_speaking: bool,
    pub is_end: bool,
}

/// The text of a finish message.
pub open spec fn finish_json(is_speaking: bool, is_end: bool) -> Seq<char> {
    "{\"is_speaking\":"@ + json_bool(is_speaking) + ",\"is_end\":"@ + json_bool(is_end) + "}"@
}

impl FinishMessage {
    /// The end of speech.
    pub fn new() -> (message: FinishMessage)
        ensures
            !message.is_speaking,
            message.is_end,
    {
        FinishMessage { is_speaking: false, is_end: true }
    }

    /// Writes the message as JSON.
    pub fn to_json(&self) -> (json: String)
        ensures
            json@ == finish_json(self.is_speaking, self.is_end),
    {
        let mut json = "{\"is_speaking\":".to_owned();
        json.append(json_bool_text(self.is_speaking));
        json.append(",\"is_end\":");
        json.append(json_bool_text(self.is_end));
        json.append("}");
        json
    }
}

/// Whether a text can stand in an HTTP header: no control characters but tabs.
pub open spec fn is_header_text(s: Seq<char>) -> bool {
    forall|i: int|
        0 <= i < s.len() ==> (#[trigger] s[i] == '\t' || (s[i] as u32 >= 32 && s[i] as u32 != 127))
}

/// Calls `HeaderValue::from_str`. Trusted: it accepts a text without control
/// characters, tabs excepted, and rejects any other with the same message.
#[verifier::external_body]
fn check_header_text(value: &str) -> (r: Result<(), String>)
    ensures
        match r {
            Ok(_) => is_header_text(value@),
            Err(message) => {
                &&& !is_header_text(value@)
                &&& message@ == "failed to parse header value"@
            },
        },
{
    match tokio_tungstenite::tungstenite::http::HeaderValue::from_str(value) {
        Ok(_) => Ok(()),
        Err(error) => Err(error.to_string()),
    }
}

/// Makes the value of the authorization header for a connection, where there is
/// a bearer token.
pub fn authorization(config: &FunAsrConfig) -> (r: Result<Option<String>, Error>)
    ensures
        match config.bearer_token {
            None => r == Ok::<Option<String>, Error>(None),
            Some(token) => if is_header_text("Bearer "@ + token@) {
                &&& r matches Ok(Some(value))
                &&& value@ == "Bearer "@ + token@
            } else {
                error::outcome(r) == Err::<Option<String>, _>(
                    ErrorView::Network(
                        "invalid bearer token: "@ + "failed to parse header value"@,
                    ),
                )
            },
        },
{
    match &config.bearer_token {
        None => Ok(None),
        Some(token) => {
            let value = "Bearer ".to_owned().concat(token.as_str());
            match check_header_text(value.as_str()) {
                Ok(_) => Ok(Some(value)),
                Err(message) => Err(
                    Error::Network("invalid bearer token: ".to_owned().concat(message.as_str())),
                ),
            }
        },
    }
}

/// Why `IntoClientRequest::into_client_request` refuses to make a request for a
/// URL, if it does.
pub uninterp spec fn url_refusal(url: Seq<char>) -> Option<Seq<char>>;

/// Calls `IntoClientRequest::into_client_request`. Trusted: whether a request
/// can be made, and what is said where it cannot, depend on the URL alone. The
/// request itself holds a random key and is not kept.
#[verifier::external_body]
fn check_url(url: &str) -> (r: Result<(), String>)
    ensures
        match r {
            Ok(_) => url_refusal(url@) is None,
            Err(message) => url_refusal(url@) == Some(message@),
        },
{
    match tokio_tungstenite::tungstenite::client::IntoClientRequest::into_client_request(url) {
        Ok(_) => Ok(()),
        Err(error) => Err(error.to_string()),
    }
}

/// A header of the request that opens a connection.
#[derive(Clone, Debug, Eq, PartialEq)]
pub struct RequestHeader {
    pub name: &'static str,
    pub value: String,
}

/// The names and values of some headers.
pub open spec fn header_views(headers: Seq<RequestHeader>) -> Seq<(Seq<char>, Seq<char>)> {
    headers.map_values(|header: RequestHeader| (header.name@, header.value@))
}

/// The headers that a connection is opened with, beside those of every
/// WebSocket: the subprotocol and, where there is a token, the authorization. A
/// URL that is refused comes first among the errors.
pub open spec fn opening_headers(refusal: Option<Seq<char>>, token: Option<Seq<char>>) -> Result<
    Seq<(Seq<char>, Seq<char>)>,
    ErrorView,
> {
    match (refusal, token) {
        (Some(reason), _) => Err(ErrorView::Network("invalid FunASR URL: "@ + reason)),
        (None, None) => Ok(seq![("sec-websocket-protocol"@, "binary"@)]),
        (None, Some(token)) => if is_header_text("Bearer "@ + token) {
            Ok(
                seq![
                    ("sec-websocket-protocol"@, "binary"@),
                    ("authorization"@, "Bearer "@ + token),
                ],
            )
        } else {
            Err(
                ErrorView::Network("invalid bearer token: "@ + "failed to parse header value"@),
            )
        },
    }
}

/// Headers by their values.
pub open spec fn headers_outcome(r: Result<Vec<RequestHeader>, Error>) -> Result<
    Seq<(Seq<char>, Seq<char>)>,
    ErrorView,
> {
    match r {
        Ok(headers) => Ok(header_views(headers@)),
        Err(error) => Err(error@),
    }
}

/// Makes the headers that a connection is opened with, where `checked` says
/// whether a request can be made for its URL.
pub fn headers_for(config: &FunAsrConfig, checked: Result<(), String>) -> (r: Result<
    Vec<RequestHeader>,
    Error,
>)
    ensures
        headers_outcome(r) == opening_headers(
            match checked {
                Ok(_) => None,
                Err(reason) => Some(reason@),
            },
            capture::text_view(config.bearer_token),
        ),
{
    if let Err(reason) = checked {
        return Err(Error::Network("invalid FunASR URL: ".to_owned().concat(reason.as_str())));
    }
    let mut headers: Vec<RequestHeader> = Vec::new();
    headers.push(
        RequestHeader { name: "sec-websocket-protocol", value: "binary".to_owned() },
    );
    assert(header_views(headers@) =~= seq![("sec-websocket-protocol"@, "binary"@)]);
    match authorization(config) {
        Ok(None) => Ok(headers),
        Ok(Some(value)) => {
            let ghost before = headers@;
            headers.push(RequestHeader { name: "authorization", value });
            assert(header_views(headers@) =~= header_views(before).push(
                ("authorization"@, value@),
            ));
            assert(header_views(headers@) =~= seq![
                ("sec-websocket-protocol"@, "binary"@),
                ("authorization"@, value@),
            ]);
            Ok(headers)
        },
        Err(error) => Err(error),
    }
}

/// Makes the headers that a connection is opened with, once its URL is checked.
pub fn request_headers(config: &FunAsrConfig) -> (r: Result<Vec<RequestHeader>, Error>)
    ensures
        headers_outcome(r) == opening_headers(
            url_refusal(config.url@),
            capture::text_view(config.bearer_token),
        ),
{
    headers_for(config, check_url(config.url.as_str()))
}

/// What the timestamp of a server message holds.
pub enum TimestampField {
    Null,
    Text(String),
    /// Any other JSON value, written as JSON.
    Other(String),
}

/// Reads the timestamp of a server message, if it has one.
pub fn timestamp_text(field: Option<TimestampField>) -> (r: Option<String>)
    ensures
        capture::text_view(r) == match field {
            None => None,
            Some(TimestampField::Null) => None,
            Some(TimestampField::Text(text)) => Some(text@),
            Some(TimestampField::Other(json)) => Some(json@),
        },
{
    match field {
        None => None,
        Some(TimestampField::Null) => None,
        Some(TimestampField::Text(text)) => Some(text),
        Some(TimestampField::Other(json)) => Some(json),
    }
}

/// A message from the server.
#[derive(Debug)]
pub struct ServerMessage {
    pub mode: String,
    pub text: String,
    pub timestamp: Option<String>,
    pub is_final: bool,
    pub is_end: bool,
    pub error: Option<String>,
}

impl ServerMessage {
    /// Whether the message reports an error.
    pub open spec fn has_error(self) -> bool {
        self.error matches Some(error) && error@.len() > 0
    }

    /// Whether the text of the message is final.
    pub open spec fn has_final_text(self) -> bool {
        self.is_final || self.mode@ == "offline"@ || self.mode@ == "2pass-offline"@
    }

    /// The event for the text of the message, if it has a text.
    pub open spec fn text_events(self) -> Seq<EventView> {
        if self.text@.len() == 0 {
            Seq::empty()
        } else if self.has_final_text() {
            seq![
                EventView::Final {
                    text: self.text@,
                    timestamp: capture::text_view(self.timestamp),
                },
            ]
        } else {
            seq![EventView::Partial { text: self.text@ }]
        }
    }

    /// The events for the message.
    pub open spec fn events(self) -> Seq<EventView> {
        if self.has_error() {
            seq![EventView::ServerError { message: self.error->0@ }]
        } else if self.is_end && !self.is_final {
            self.text_events().push(
                EventView::ServerError {
                    message: "FunASR ended the session without a final acknowledgement"@,
                },
            )
        } else if self.is_end {
            self.text_events().push(EventView::End)
        } else {
            self.text_events()
        }
    }

    /// Whether the message ends the session, or why the session fails.
    pub open spec fn verdict(self) -> Result<bool, ErrorView> {
        if self.has_error() {
            Err(ErrorView::Protocol("FunASR server error: "@ + self.error->0@))
        } else if self.is_end && !self.is_final {
            Err(
                ErrorView::Protocol(
                    "FunASR ended the session without a final acknowledgement"@,
                ),
            )
        } else {
            Ok(self.is_end)
        }
    }
}

/// Adds an event.
fn emit(events: &mut Vec<TranscriptEvent>, event: TranscriptEvent)
    ensures
        funasr::event_views(final(events)@) == funasr::event_views(old(events)@).push(event@),
{
    let ghost before = events@;
    events.push(event);
    assert(funasr::event_views(events@) =~= funasr::event_views(before).push(event@));
}

/// Turns a server message into events, and tells whether it ends the session.
pub fn emit_server_message(message: ServerMessage, events: &mut Vec<TranscriptEvent>) -> (r: Result<
    bool,
    Error,
>)
    ensures
        funasr::event_views(final(events)@) == funasr::event_views(old(events)@)
            + message.events(),
        error::outcome(r) == message.verdict(),
{
    let ghost before = funasr::event_views(events@);
    if let Some(error) = &message.error {
        if !error.as_str().is_empty() {
            emit(events, TranscriptEvent::ServerError { message: error.clone() });
            assert(funasr::event_views(events@) =~= before + message.events());
            return Err(
                Error::Protocol("FunASR server error: ".to_owned().concat(error.as_str())),
            );
        }
    }
    let is_final: bool = message.is_final || message.mode == "offline".to_owned() || message.mode
        == "2pass-offline".to_owned();
    if !message.text.as_str().is_empty() {
        if is_final {
            let timestamp = match &message.timestamp {
                Some(timestamp) => Some(timestamp.clone()),
                None => None,
            };
            emit(events, TranscriptEvent::Final { text: message.text.clone(), timestamp });
        } else {
            emit(events, TranscriptEvent::Partial { text: message.text.clone() });
        }
    }
    assert(funasr::event_views(events@) =~= before + message.text_events());
    if message.is_end {
        if !message.is_final {
            let text = "FunASR ended the session without a final acknowledgement";
            emit(events, TranscriptEvent::ServerError { message: text.to_owned() });
            assert(funasr::event_views(events@) =~= before + message.events());
            return Err(Error::Protocol(text.to_owned()));
        }
        emit(events, TranscriptEvent::End);
        assert(funasr::event_views(events@) =~= before + message.events());
        return Ok(true);
    }
    Ok(false)
}

/// What came from the server.
pub enum Incoming {
    /// A text message that could be read.
    Message(ServerMessage),
    /// A text message that could not be read, and why.
    Malformed { error: String, text: String },
    /// The server closed the connection, with a reason or without.
    Close(Option<String>),
    /// A message that carries nothing for this protocol.
    Other,
    /// Receiving failed.
    Failed(String),
    /// The stream ended.
    Ended,
}

impl Incoming {
    /// Why the connection is lost, if it is.
    pub open spec fn lost(self) -> Option<Seq<char>> {
        match self {
            Incoming::Close(Some(reason)) => Some(reason@),
            Incoming::Close(None) => Some("server closed the WebSocket"@),
            Incoming::Failed(reason) => Some(reason@),
            Incoming::Ended => Some("FunASR stream ended"@),
            _ => None,
        }
    }

    /// The events for what came.
    pub open spec fn events(self) -> Seq<EventView> {
        match self.lost() {
            Some(reason) => seq![EventView::Disconnected { reason }],
            None => match self {
                Incoming::Message(message) => message.events(),
                _ => Seq::empty(),
            },
        }
    }

    /// Whether what came ends the session, or why the session fails.
    pub open spec fn verdict(self) -> Result<bool, ErrorView> {
        match self.lost() {
            Some(reason) => Err(ErrorView::Network(reason)),
            None => match self {
                Incoming::Message(message) => message.verdict(),
                Incoming::Malformed { error, text } => Err(
                    ErrorView::Protocol(error@ + "; message="@ + text@),
                ),
                _ => Ok(false),
            },
        }
    }
}

/// Reports a lost connection.
pub fn disconnected(events: &mut Vec<TranscriptEvent>, reason: String) -> (error: Error)
    ensures
        funasr::event_views(final(events)@) == funasr::event_views(old(events)@)
            + seq![EventView::Disconnected { reason: reason@ }],
        error@ == ErrorView::Network(reason@),
{
    let ghost before = funasr::event_views(events@);
    emit(events, TranscriptEvent::Disconnected { reason: reason.clone() });
    assert(funasr::event_views(events@) =~= before + seq![
        EventView::Disconnected { reason: reason@ },
    ]);
    Error::Network(reason)
}

/// Turns what came from the server into events, and tells whether it ends the
/// session.
pub fn handle_incoming(incoming: Incoming, events: &mut Vec<TranscriptEvent>) -> (r: Result<
    bool,
    Error,
>)
    ensures
        funasr::event_views(final(events)@) == funasr::event_views(old(events)@)
            + incoming.events(),
        error::outcome(r) == incoming.verdict(),
{
    let ghost before = funasr::event_views(events@);
    assert(before + Seq::<EventView>::empty() =~= before);
    match incoming {
        Incoming::Message(message) => emit_server_message(message, events),
        Incoming::Malformed { error, text } => Err(
            Error::Protocol(error.concat("; message=").concat(text.as_str())),
        ),
        Incoming::Close(Some(reason)) => Err(disconnected(events, reason)),
        Incoming::Close(None) => Err(
            disconnected(events, "server closed the WebSocket".to_owned()),
        ),
        Incoming::Other => Ok(false),
        Incoming::Failed(reason) => Err(disconnected(events, reason)),
        Incoming::Ended => Err(disconnected(events, "FunASR stream ended".to_owned())),
    }
}

/// A session ends well exactly with an `End` event: it is the last event of
/// what ends the session, and it comes with nothing else.
pub proof fn law_success_is_announced(incoming: Incoming)
    ensures
        incoming.verdict() == Ok::<bool, ErrorView>(true) <==> incoming.events().contains(
            EventView::End,
        ),
        incoming.verdict() == Ok::<bool, ErrorView>(true) ==> incoming.events().last()
            == EventView::End,
{
    if let Incoming::Message(message) = incoming {
        let events = message.events();
        let texts = message.text_events();
        assert forall|i: int| 0 <= i < texts.len() implies texts[i] != EventView::End by {}
        if message.verdict() == Ok::<bool, ErrorView>(true) {
            assert(events[events.len() - 1] == EventView::End);
            assert(incoming.events().contains(EventView::End));
        } else {
            assert forall|i: int| 0 <= i < events.len() implies events[i] != EventView::End by {
                if i < texts.len() {
                    assert(events[i] == texts[i] || message.has_error());
                }
            }
        }
    } else {
        assert(!incoming.events().contains(EventView::End));
    }
}

/// No failure is mistaken for silence: what makes a session fail is announced by
/// an event, unless the message could not be read at all.
pub proof fn law_failure_is_announced(incoming: Incoming)
    ensures
        incoming.verdict() is Err && !(incoming is Malformed) ==> {
            &&& incoming.events().len() > 0
            &&& incoming.events().last() is ServerError || incoming.events().last() is Disconnected
        },
{
}

/// Text is never lost: a message with text and without an error yields it as
/// the first event, final exactly where the message says so.
pub proof fn law_text_is_reported(message: ServerMessage)
    requires
        message.text@.len() > 0,
        !message.has_error(),
    ensures
        message.events().len() > 0,
        message.events()[0] == if message.has_final_text() {
            EventView::Final {
                text: message.text@,
                timestamp: capture::text_view(message.timestamp),
            }
        } else {
            EventView::Partial { text: message.text@ }
        },
{
}

} // verus!
