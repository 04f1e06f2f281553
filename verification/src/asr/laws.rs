//! What a FunASR session says and reports, in terms of what went into it.

use vstd::prelude::*;

use crate::asr::funasr;
use crate::asr::funasr::{AsrMode, EventView, FunAsrConfig, TranscriptEvent};
use crate::asr::protocol;
use crate::asr::protocol::{Incoming, ServerMessage, StartMessage};
use crate::asr::session;
use crate::asr::session::{ActionView, InputMessage, SessionEvent, SessionPhase};
use crate::audio::Pcm16Chunk;
use crate::error::{Error, ErrorView};
use crate::text;

verus! {

/// The first message says what the settings say: the mode under its name, the
/// name of the sound, mono 16-bit PCM at 16 kHz, the size of the chunks, whether
/// numbers are normalized and, exactly where there are hotwords, the hotwords.
/// It is JSON, whatever the texts hold.
pub proof fn law_the_first_message_says_the_settings(config: FunAsrConfig)
    ensures
        session::start_text(config) == (match config.mode {
            AsrMode::Online => "{\"mode\":\"online\",\"wav_name\":"@,
            AsrMode::Offline => "{\"mode\":\"offline\",\"wav_name\":"@,
            AsrMode::TwoPass => "{\"mode\":\"2pass\",\"wav_name\":"@,
        }) + text::json_quoted(config.wav_name@)
            + ",\"wav_format\":\"pcm\",\"audio_fs\":16000,\"chunk_size\":[5,10,5],\"chunk_interval\":10,\"is_speaking\":true,\"itn\":"@
            + (if config.use_itn {
            "true"@
        } else {
            "false"@
        }) + (match config.hotwords {
            Some(hotwords) => ",\"hotwords\":"@ + text::json_quoted(hotwords@) + "}"@,
            None => "}"@,
        }),
{
    let start = "{\"mode\":"@;
    let sound = ",\"wav_format\":"@ + text::json_quoted("pcm"@) + ",\"audio_fs\":"@
        + text::decimal(16_000) + ",\"chunk_size\":["@ + text::decimal(5) + ","@
        + text::decimal(10) + ","@ + text::decimal(5) + "],\"chunk_interval\":"@
        + text::decimal(10) + ",\"is_speaking\":"@ + protocol::json_bool(true) + ",\"itn\":"@;
    let mode = text::json_quoted(config.mode.protocol_name());
    let flag = protocol::json_bool(config.use_itn);
    let last = match config.hotwords {
        Some(hotwords) => ",\"hotwords\":"@ + text::json_quoted(hotwords@),
        None => Seq::empty(),
    };
    lemma_fixed_part_of_the_first_message();
    lemma_mode_in_the_first_message(config.mode);
    assert(session::start_text(config) =~= (start + mode + ",\"wav_name\":"@) + text::json_quoted(
        config.wav_name@,
    ) + sound + flag + (last + "}"@));
    assert(Seq::<char>::empty() + "}"@ =~= "}"@);
}

proof fn lemma_plain_text_is_quoted_as_it_is(s: Seq<char>)
    requires
        forall|i: int|
            0 <= i < s.len() ==> #[trigger] s[i] as u32 >= 32 && s[i] != '"' && s[i] != '\\',
    ensures
        text::json_escaped(s) == s,
        text::json_quoted(s) == seq!['"'] + s + seq!['"'],
    decreases s.len(),
{
    if s.len() > 0 {
        let front = s.drop_last();
        assert forall|i: int| 0 <= i < front.len() implies #[trigger] front[i] as u32 >= 32
            && front[i] != '"' && front[i] != '\\' by {
            assert(front[i] == s[i]);
        }
        lemma_plain_text_is_quoted_as_it_is(front);
        let last = s[s.len() - 1];
        assert(text::json_escape(last) =~= seq![last]);
        assert(text::json_escaped(s) =~= s);
    }
}

proof fn lemma_mode_in_the_first_message(mode: AsrMode)
    ensures
        "{\"mode\":"@ + text::json_quoted(mode.protocol_name()) + ",\"wav_name\":"@ == match mode {
            AsrMode::Online => "{\"mode\":\"online\",\"wav_name\":"@,
            AsrMode::Offline => "{\"mode\":\"offline\",\"wav_name\":"@,
            AsrMode::TwoPass => "{\"mode\":\"2pass\",\"wav_name\":"@,
        },
{
    reveal_strlit("{\"mode\":");
    reveal_strlit(",\"wav_name\":");
    reveal_strlit("online");
    reveal_strlit("offline");
    reveal_strlit("2pass");
    reveal_strlit("{\"mode\":\"online\",\"wav_name\":");
    reveal_strlit("{\"mode\":\"offline\",\"wav_name\":");
    reveal_strlit("{\"mode\":\"2pass\",\"wav_name\":");
    lemma_plain_text_is_quoted_as_it_is(mode.protocol_name());
    let all = "{\"mode\":"@ + text::json_quoted(mode.protocol_name()) + ",\"wav_name\":"@;
    match mode {
        AsrMode::Online => {
            assert(all =~= "{\"mode\":\"online\",\"wav_name\":"@);
        },
        AsrMode::Offline => {
            assert(all =~= "{\"mode\":\"offline\",\"wav_name\":"@);
        },
        AsrMode::TwoPass => {
            assert(all =~= "{\"mode\":\"2pass\",\"wav_name\":"@);
        },
    }
}

proof fn lemma_fixed_part_of_the_first_message()
    ensures
        ",\"wav_format\":"@ + text::json_quoted("pcm"@) + ",\"audio_fs\":"@ + text::decimal(16_000)
            + ",\"chunk_size\":["@ + text::decimal(5) + ","@ + text::decimal(10) + ","@
            + text::decimal(5) + "],\"chunk_interval\":"@ + text::decimal(10)
            + ",\"is_speaking\":"@ + protocol::json_bool(true) + ",\"itn\":"@
            == ",\"wav_format\":\"pcm\",\"audio_fs\":16000,\"chunk_size\":[5,10,5],\"chunk_interval\":10,\"is_speaking\":true,\"itn\":"@,
{
    reveal_strlit(",\"wav_format\":");
    reveal_strlit("pcm");
    reveal_strlit(",\"audio_fs\":");
    reveal_strlit(",\"chunk_size\":[");
    reveal_strlit(",");
    reveal_strlit("],\"chunk_interval\":");
    reveal_strlit(",\"is_speaking\":");
    reveal_strlit("true");
    reveal_strlit(",\"itn\":");
    reveal_strlit(
        ",\"wav_format\":\"pcm\",\"audio_fs\":16000,\"chunk_size\":[5,10,5],\"chunk_interval\":10,\"is_speaking\":true,\"itn\":",
    );
    lemma_plain_text_is_quoted_as_it_is("pcm"@);
    reveal_with_fuel(text::decimal, 6);
    assert(text::decimal(16_000) =~= seq!['1', '6', '0', '0', '0']);
    assert(text::decimal(5) =~= seq!['5']);
    assert(text::decimal(10) =~= seq!['1', '0']);
    assert(text::json_quoted("pcm"@) =~= seq!['"', 'p', 'c', 'm', '"']);
    assert(",\"wav_format\":"@ + text::json_quoted("pcm"@) + ",\"audio_fs\":"@ + text::decimal(
        16_000,
    ) + ",\"chunk_size\":["@ + text::decimal(5) + ","@ + text::decimal(10) + ","@
        + text::decimal(5) + "],\"chunk_interval\":"@ + text::decimal(10) + ",\"is_speaking\":"@
        + protocol::json_bool(true) + ",\"itn\":"@
        =~= ",\"wav_format\":\"pcm\",\"audio_fs\":16000,\"chunk_size\":[5,10,5],\"chunk_interval\":10,\"is_speaking\":true,\"itn\":"@);
}

/// The settings can be told from the first message: none of them is left out or
/// changed on the way.
pub proof fn law_settings_are_told_by_the_first_message(a: FunAsrConfig, b: FunAsrConfig)
    requires
        session::start_text(a) == session::start_text(b),
    ensures
        a.mode == b.mode,
        a.wav_name@ == b.wav_name@,
        a.use_itn == b.use_itn,
        a.hotwords is Some == b.hotwords is Some,
        a.hotwords is Some ==> a.hotwords->0@ == b.hotwords->0@,
{
    let sound =
        ",\"wav_format\":\"pcm\",\"audio_fs\":16000,\"chunk_size\":[5,10,5],\"chunk_interval\":10,\"is_speaking\":true,\"itn\":"@;
    let rest_a = sound + (flag_part(a) + last_part(a));
    let rest_b = sound + (flag_part(b) + last_part(b));
    let behind_a = text::json_quoted(a.wav_name@) + rest_a;
    let behind_b = text::json_quoted(b.wav_name@) + rest_b;
    lemma_parts_of_the_first_message(a);
    lemma_parts_of_the_first_message(b);
    lemma_modes_are_told_apart(a, b, behind_a, behind_b);
    lemma_same_start(first_part(a), behind_a, behind_b);
    text::law_json_strings_read_back(a.wav_name@, b.wav_name@, rest_a, rest_b);
    lemma_same_start(sound, flag_part(a) + last_part(a), flag_part(b) + last_part(b));
    lemma_flags_are_told_apart(a, b);
    lemma_same_start(flag_part(a), last_part(a), last_part(b));
    lemma_hotwords_are_told_apart(a, b);
}

proof fn lemma_same_start(start: Seq<char>, a: Seq<char>, b: Seq<char>)
    requires
        start + a == start + b,
    ensures
        a == b,
{
    assert((start + a).skip(start.len() as int) =~= a);
    assert((start + b).skip(start.len() as int) =~= b);
}

proof fn lemma_parts_of_the_first_message(config: FunAsrConfig)
    ensures
        session::start_text(config) == first_part(config) + (text::json_quoted(config.wav_name@) + (
        ",\"wav_format\":\"pcm\",\"audio_fs\":16000,\"chunk_size\":[5,10,5],\"chunk_interval\":10,\"is_speaking\":true,\"itn\":"@
            + (flag_part(config) + last_part(config)))),
{
    law_the_first_message_says_the_settings(config);
    let quoted = text::json_quoted(config.wav_name@);
    let sound =
        ",\"wav_format\":\"pcm\",\"audio_fs\":16000,\"chunk_size\":[5,10,5],\"chunk_interval\":10,\"is_speaking\":true,\"itn\":"@;
    assert(first_part(config) + quoted + sound + flag_part(config) + last_part(config)
        =~= first_part(config) + (quoted + (sound + (flag_part(config) + last_part(config)))));
}

proof fn lemma_modes_are_told_apart(
    a: FunAsrConfig,
    b: FunAsrConfig,
    behind_a: Seq<char>,
    behind_b: Seq<char>,
)
    requires
        first_part(a) + behind_a == first_part(b) + behind_b,
    ensures
        a.mode == b.mode,
{
    reveal_strlit("{\"mode\":\"online\",\"wav_name\":");
    reveal_strlit("{\"mode\":\"offline\",\"wav_name\":");
    reveal_strlit("{\"mode\":\"2pass\",\"wav_name\":");
    assert((first_part(a) + behind_a)[9] == first_part(a)[9]);
    assert((first_part(b) + behind_b)[9] == first_part(b)[9]);
    assert((first_part(a) + behind_a)[10] == first_part(a)[10]);
    assert((first_part(b) + behind_b)[10] == first_part(b)[10]);
}

proof fn lemma_flags_are_told_apart(a: FunAsrConfig, b: FunAsrConfig)
    requires
        flag_part(a) + last_part(a) == flag_part(b) + last_part(b),
    ensures
        a.use_itn == b.use_itn,
{
    reveal_strlit("true");
    reveal_strlit("false");
    assert((flag_part(a) + last_part(a))[0] == flag_part(a)[0]);
    assert((flag_part(b) + last_part(b))[0] == flag_part(b)[0]);
}

proof fn lemma_hotwords_are_told_apart(a: FunAsrConfig, b: FunAsrConfig)
    requires
        last_part(a) == last_part(b),
    ensures
        a.hotwords is Some == b.hotwords is Some,
        a.hotwords is Some ==> a.hotwords->0@ == b.hotwords->0@,
{
    reveal_strlit(",\"hotwords\":");
    reveal_strlit("}");
    let key = ",\"hotwords\":"@;
    let end = "}"@;
    assert(a.hotwords is Some ==> last_part(a)[0] == key[0]);
    assert(b.hotwords is Some ==> last_part(b)[0] == key[0]);
    if a.hotwords is Some && b.hotwords is Some {
        let quoted_a = text::json_quoted(a.hotwords->0@);
        let quoted_b = text::json_quoted(b.hotwords->0@);
        assert(key + quoted_a + end =~= key + (quoted_a + end));
        assert(key + quoted_b + end =~= key + (quoted_b + end));
        lemma_same_start(key, quoted_a + end, quoted_b + end);
        text::law_json_strings_read_back(a.hotwords->0@, b.hotwords->0@, end, end);
    }
}

spec fn flag_part(config: FunAsrConfig) -> Seq<char> {
    if config.use_itn {
        "true"@
    } else {
        "false"@
    }
}

spec fn first_part(config: FunAsrConfig) -> Seq<char> {
    match config.mode {
        AsrMode::Online => "{\"mode\":\"online\",\"wav_name\":"@,
        AsrMode::Offline => "{\"mode\":\"offline\",\"wav_name\":"@,
        AsrMode::TwoPass => "{\"mode\":\"2pass\",\"wav_name\":"@,
    }
}

spec fn last_part(config: FunAsrConfig) -> Seq<char> {
    match config.hotwords {
        Some(hotwords) => ",\"hotwords\":"@ + text::json_quoted(hotwords@) + "}"@,
        None => "}"@,
    }
}

/// A start message says each of its fields under its key, and the hotwords
/// exactly where it has some.
pub proof fn law_a_start_message_says_its_fields(message: StartMessage)
    ensures
        protocol::start_json(message) == "{\"mode\":"@ + text::json_quoted(message.mode@)
            + ",\"wav_name\":"@ + text::json_quoted(message.wav_name@) + ",\"wav_format\":"@
            + text::json_quoted(message.wav_format@) + ",\"audio_fs\":"@ + text::decimal(
            message.audio_fs as nat,
        ) + ",\"chunk_size\":["@ + text::decimal(message.chunk_size@[0] as nat) + ","@
            + text::decimal(message.chunk_size@[1] as nat) + ","@ + text::decimal(
            message.chunk_size@[2] as nat,
        ) + "],\"chunk_interval\":"@ + text::decimal(message.chunk_interval as nat) + (
        if message.is_speaking {
            ",\"is_speaking\":true,\"itn\":"@
        } else {
            ",\"is_speaking\":false,\"itn\":"@
        }) + (if message.itn {
            "true"@
        } else {
            "false"@
        }) + (match message.hotwords {
            Some(hotwords) => ",\"hotwords\":"@ + text::json_quoted(hotwords@) + "}"@,
            None => "}"@,
        }),
{
    reveal_strlit(",\"is_speaking\":");
    reveal_strlit("true");
    reveal_strlit("false");
    reveal_strlit(",\"itn\":");
    reveal_strlit(",\"is_speaking\":true,\"itn\":");
    reveal_strlit(",\"is_speaking\":false,\"itn\":");
    let start = "{\"mode\":"@ + text::json_quoted(message.mode@) + ",\"wav_name\":"@
        + text::json_quoted(message.wav_name@) + ",\"wav_format\":"@ + text::json_quoted(
        message.wav_format@,
    ) + ",\"audio_fs\":"@ + text::decimal(message.audio_fs as nat) + ",\"chunk_size\":["@
        + text::decimal(message.chunk_size@[0] as nat) + ","@ + text::decimal(
        message.chunk_size@[1] as nat,
    ) + ","@ + text::decimal(message.chunk_size@[2] as nat) + "],\"chunk_interval\":"@
        + text::decimal(message.chunk_interval as nat);
    let speaking = ",\"is_speaking\":"@ + protocol::json_bool(message.is_speaking) + ",\"itn\":"@;
    let last = match message.hotwords {
        Some(hotwords) => ",\"hotwords\":"@ + text::json_quoted(hotwords@),
        None => Seq::empty(),
    };
    assert(speaking =~= if message.is_speaking {
        ",\"is_speaking\":true,\"itn\":"@
    } else {
        ",\"is_speaking\":false,\"itn\":"@
    });
    assert(protocol::start_json(message) =~= start + speaking + protocol::json_bool(message.itn) + (
    last + "}"@));
    assert(Seq::<char>::empty() + "}"@ =~= "}"@);
}

/// The last message says that speech is over and that this is the end.
pub proof fn law_the_last_message_ends_the_speech(is_speaking: bool, is_end: bool)
    ensures
        session::finish_text() == "{\"is_speaking\":false,\"is_end\":true}"@,
        protocol::finish_json(is_speaking, is_end) == if is_speaking && is_end {
            "{\"is_speaking\":true,\"is_end\":true}"@
        } else if is_speaking {
            "{\"is_speaking\":true,\"is_end\":false}"@
        } else if is_end {
            "{\"is_speaking\":false,\"is_end\":true}"@
        } else {
            "{\"is_speaking\":false,\"is_end\":false}"@
        },
{
    reveal_strlit("{\"is_speaking\":");
    reveal_strlit(",\"is_end\":");
    reveal_strlit("}");
    reveal_strlit("true");
    reveal_strlit("false");
    reveal_strlit("{\"is_speaking\":true,\"is_end\":true}");
    reveal_strlit("{\"is_speaking\":true,\"is_end\":false}");
    reveal_strlit("{\"is_speaking\":false,\"is_end\":true}");
    reveal_strlit("{\"is_speaking\":false,\"is_end\":false}");
    assert(session::finish_text() =~= "{\"is_speaking\":false,\"is_end\":true}"@);
    let all = protocol::finish_json(is_speaking, is_end);
    if is_speaking && is_end {
        assert(all =~= "{\"is_speaking\":true,\"is_end\":true}"@);
    } else if is_speaking {
        assert(all =~= "{\"is_speaking\":true,\"is_end\":false}"@);
    } else if is_end {
        assert(all =~= "{\"is_speaking\":false,\"is_end\":true}"@);
    } else {
        assert(all =~= "{\"is_speaking\":false,\"is_end\":false}"@);
    }
}

/// The text of a message without an error is reported first, and it is reported
/// as final where the message is marked as final, whatever its mode, and where
/// its mode is one that only gives final texts; in every other case it is
/// reported as partial. No other event carries a text, and a message without a
/// text reports none.
pub proof fn law_marked_text_is_final(message: ServerMessage)
    requires
        message.error is None || message.error->0@.len() == 0,
    ensures
        message.text@.len() > 0 && message.is_final ==> message.events().len() > 0
            && message.events()[0] == (EventView::Final {
            text: message.text@,
            timestamp: match message.timestamp {
                Some(timestamp) => Some(timestamp@),
                None => None,
            },
        }),
        message.text@.len() > 0 && (message.mode@ == "offline"@ || message.mode@
            == "2pass-offline"@) ==> message.events().len() > 0 && message.events()[0] == (
        EventView::Final {
            text: message.text@,
            timestamp: match message.timestamp {
                Some(timestamp) => Some(timestamp@),
                None => None,
            },
        }),
        message.text@.len() > 0 && !message.is_final && message.mode@ != "offline"@ && message.mode@
            != "2pass-offline"@ ==> message.events().len() > 0 && message.events()[0] == (
        EventView::Partial { text: message.text@ }),
        forall|i: int|
            0 <= i < message.events().len() && (i > 0 || message.text@.len() == 0)
                ==> #[trigger] message.events()[i] is End || message.events()[i] is ServerError,
{
}

/// How a message ends a session. An error fails it, and nothing else of the
/// message counts. An end that is not marked as final fails it too; one that is
/// ends it well. Any other message leaves it open. What ends a session is the
/// last event of the message, and it is reported once.
pub proof fn law_how_a_message_ends_a_session(message: ServerMessage)
    ensures
        message.error is Some && message.error->0@.len() > 0 ==> {
            &&& message.events() == seq![EventView::ServerError { message: message.error->0@ }]
            &&& message.verdict() == Err::<bool, _>(
                ErrorView::Protocol("FunASR server error: "@ + message.error->0@),
            )
        },
        message.error is None || message.error->0@.len() == 0 ==> {
            let texts: int = if message.text@.len() == 0 {
                0
            } else {
                1
            };
            &&& message.is_end && message.is_final ==> {
                &&& message.events().len() == texts + 1
                &&& message.events().last() == EventView::End
                &&& message.verdict() == Ok::<_, ErrorView>(true)
            }
            &&& message.is_end && !message.is_final ==> {
                &&& message.events().len() == texts + 1
                &&& message.events().last() == (EventView::ServerError {
                    message: "FunASR ended the session without a final acknowledgement"@,
                })
                &&& message.verdict() == Err::<bool, _>(
                    ErrorView::Protocol(
                        "FunASR ended the session without a final acknowledgement"@,
                    ),
                )
            }
            &&& !message.is_end ==> {
                &&& message.events().len() == texts
                &&& message.verdict() == Ok::<_, ErrorView>(false)
            }
        },
{
}

/// What came from the server is reported for what it is: a message by its own
/// events, a lost connection once and with its reason, and a text that cannot be
/// read as an error that quotes it. Anything else passes without a trace.
pub proof fn law_what_comes_is_reported(incoming: Incoming)
    ensures
        match incoming {
            Incoming::Message(message) => {
                &&& incoming.events() == message.events()
                &&& incoming.verdict() == message.verdict()
            },
            Incoming::Malformed { error, text } => {
                &&& incoming.events().len() == 0
                &&& incoming.verdict() == Err::<bool, _>(
                    ErrorView::Protocol(error@ + "; message="@ + text@),
                )
            },
            Incoming::Close(Some(reason)) => {
                &&& incoming.events() == seq![EventView::Disconnected { reason: reason@ }]
                &&& incoming.verdict() == Err::<bool, _>(ErrorView::Network(reason@))
            },
            Incoming::Close(None) => {
                &&& incoming.events() == seq![
                    EventView::Disconnected { reason: "server closed the WebSocket"@ },
                ]
                &&& incoming.verdict() == Err::<bool, _>(
                    ErrorView::Network("server closed the WebSocket"@),
                )
            },
            Incoming::Other => {
                &&& incoming.events().len() == 0
                &&& incoming.verdict() == Ok::<_, ErrorView>(false)
            },
            Incoming::Failed(reason) => {
                &&& incoming.events() == seq![EventView::Disconnected { reason: reason@ }]
                &&& incoming.verdict() == Err::<bool, _>(ErrorView::Network(reason@))
            },
            Incoming::Ended => {
                &&& incoming.events() == seq![
                    EventView::Disconnected { reason: "FunASR stream ended"@ },
                ]
                &&& incoming.verdict() == Err::<bool, _>(
                    ErrorView::Network("FunASR stream ended"@),
                )
            },
        },
{
}

/// A session takes its course: it is ready once its first message is sent, sends
/// each chunk of speech and listens again, ends its input with the last message
/// when it is told to or its user is gone, and then waits for the final result.
/// Nothing of that is reported as an event.
pub proof fn law_a_session_takes_its_course(chunk: Pcm16Chunk)
    ensures
        session::session_step(SessionPhase::Starting, SessionEvent::Sent) == (
            SessionPhase::Streaming,
            Seq::<EventView>::empty(),
            ActionView::Ready,
        ),
        session::session_step(
            SessionPhase::Streaming,
            SessionEvent::Input(InputMessage::Audio(chunk)),
        ) == (
            SessionPhase::Sending,
            Seq::<EventView>::empty(),
            ActionView::SendBinary(chunk.bytes@),
        ),
        session::session_step(SessionPhase::Sending, SessionEvent::Sent) == (
            SessionPhase::Streaming,
            Seq::<EventView>::empty(),
            ActionView::Listen,
        ),
        session::session_step(SessionPhase::Streaming, SessionEvent::Input(InputMessage::Finish))
            == (
            SessionPhase::Ending,
            Seq::<EventView>::empty(),
            ActionView::SendText("{\"is_speaking\":false,\"is_end\":true}"@),
        ),
        session::session_step(SessionPhase::Streaming, SessionEvent::InputClosed) == (
            SessionPhase::Ending,
            Seq::<EventView>::empty(),
            ActionView::SendText("{\"is_speaking\":false,\"is_end\":true}"@),
        ),
        session::session_step(SessionPhase::Ending, SessionEvent::Sent) == (
            SessionPhase::Draining,
            Seq::<EventView>::empty(),
            ActionView::AwaitFinal,
        ),
{
    law_the_last_message_ends_the_speech(false, true);
}

/// What comes while a session listens or waits for the final result is reported,
/// all of it. The session goes on where it is left open, waiting as before; it
/// stops with the error where it fails; and where it is acknowledged it is over,
/// and the connection is closed if the end was asked for.
pub proof fn law_answers_decide_a_session(phase: SessionPhase, incoming: Incoming)
    requires
        phase == SessionPhase::Streaming || phase == SessionPhase::Draining,
    ensures
        ({
            let step = session::session_step(phase, SessionEvent::Incoming(incoming));
            &&& step.1 == incoming.events()
            &&& incoming.verdict() == Ok::<_, ErrorView>(false) ==> step.0 == phase && step.2 == (
            if phase == SessionPhase::Streaming {
                ActionView::Listen
            } else {
                ActionView::AwaitFinal
            })
            &&& incoming.verdict() == Ok::<_, ErrorView>(true) ==> step.0 == SessionPhase::Closed
                && step.2 == (if phase == SessionPhase::Streaming {
                ActionView::Stop(Ok::<(), ErrorView>(()))
            } else {
                ActionView::Close
            })
            &&& incoming.verdict() matches Err(error) ==> step.0 == SessionPhase::Closed && step.2
                == ActionView::Stop(Err::<(), ErrorView>(error))
        }),
{
}

/// What cannot be sent stops a session with the reason; a chunk that cannot be
/// sent is reported as a lost connection too. So does a final result that does
/// not come in time.
pub proof fn law_a_broken_session_stops(reason: String)
    ensures
        session::session_step(SessionPhase::Starting, SessionEvent::SendFailed(reason)) == (
            SessionPhase::Closed,
            Seq::<EventView>::empty(),
            ActionView::Stop(Err::<(), ErrorView>(ErrorView::Network(reason@))),
        ),
        session::session_step(SessionPhase::Sending, SessionEvent::SendFailed(reason)) == (
            SessionPhase::Closed,
            seq![EventView::Disconnected { reason: reason@ }],
            ActionView::Stop(Err::<(), ErrorView>(ErrorView::Network(reason@))),
        ),
        session::session_step(SessionPhase::Ending, SessionEvent::SendFailed(reason)) == (
            SessionPhase::Closed,
            Seq::<EventView>::empty(),
            ActionView::Stop(Err::<(), ErrorView>(ErrorView::Network(reason@))),
        ),
        session::session_step(SessionPhase::Draining, SessionEvent::TimedOut) == (
            SessionPhase::Closed,
            Seq::<EventView>::empty(),
            ActionView::Stop(
                Err::<(), ErrorView>(
                    ErrorView::Network("timed out waiting for final FunASR result"@),
                ),
            ),
        ),
{
}

/// An event that a session does not wait for changes nothing: none while it is
/// over, only the outcome of sending while it sends, no outcome of sending while
/// it listens, and only what comes while it waits for the final result.
pub proof fn law_unexpected_events_change_nothing(phase: SessionPhase, event: SessionEvent)
    requires
        match phase {
            SessionPhase::Starting => !(event is Sent) && !(event is SendFailed),
            SessionPhase::Sending => !(event is Sent) && !(event is SendFailed),
            SessionPhase::Ending => !(event is Sent) && !(event is SendFailed),
            SessionPhase::Streaming => event is Sent || event is SendFailed || event is TimedOut,
            SessionPhase::Draining => !(event is Incoming) && !(event is TimedOut),
            SessionPhase::Closed => true,
        },
    ensures
        session::session_step(phase, event) == (
            phase,
            Seq::<EventView>::empty(),
            ActionView::Ignore,
        ),
{
}

/// A connection is asked for with the subprotocol and, exactly where there is a
/// token, with the token behind the word for its kind. A URL that is refused is
/// reported with the reason, before anything else, and so is a token that cannot
/// stand in a header.
pub proof fn law_a_token_is_presented(refusal: Option<Seq<char>>, token: Option<Seq<char>>)
    ensures
        refusal matches Some(reason) ==> protocol::opening_headers(refusal, token) == Err::<
            Seq<(Seq<char>, Seq<char>)>,
            _,
        >(ErrorView::Network("invalid FunASR URL: "@ + reason)),
        refusal is None && token is None ==> protocol::opening_headers(refusal, token) == Ok::<
            _,
            ErrorView,
        >(seq![("sec-websocket-protocol"@, "binary"@)]),
        refusal is None ==> (token matches Some(token_text) ==> {
            let value = "Bearer "@ + token_text;
            let clean = forall|i: int|
                0 <= i < value.len() ==> (#[trigger] value[i] == '\t' || (value[i] as u32 >= 32
                    && value[i] as u32 != 127));
            &&& clean ==> protocol::opening_headers(refusal, token) == Ok::<_, ErrorView>(
                seq![("sec-websocket-protocol"@, "binary"@), ("authorization"@, value)],
            )
            &&& !clean ==> protocol::opening_headers(refusal, token) == Err::<
                Seq<(Seq<char>, Seq<char>)>,
                _,
            >(ErrorView::Network("invalid bearer token: "@ + "failed to parse header value"@))
        }),
{
}

/// Events and headers lose nothing in what is said of them: each is seen by all
/// its parts, in its place.
pub proof fn law_events_are_seen_whole(
    events: Seq<TranscriptEvent>,
    headers: Seq<protocol::RequestHeader>,
    made: Vec<protocol::RequestHeader>,
    error: Error,
    i: int,
)
    ensures
        protocol::headers_outcome(Ok(made)) == Ok::<_, ErrorView>(protocol::header_views(made@)),
        protocol::headers_outcome(Err(error)) == Err::<Seq<(Seq<char>, Seq<char>)>, _>(error@),
        funasr::event_views(events).len() == events.len(),
        0 <= i < events.len() ==> funasr::event_views(events)[i] == match events[i] {
            TranscriptEvent::Partial { text } => EventView::Partial { text: text@ },
            TranscriptEvent::Final { text, timestamp: Some(timestamp) } => EventView::Final {
                text: text@,
                timestamp: Some(timestamp@),
            },
            TranscriptEvent::Final { text, timestamp: None } => EventView::Final {
                text: text@,
                timestamp: None,
            },
            TranscriptEvent::ServerError { message } => EventView::ServerError {
                message: message@,
            },
            TranscriptEvent::End => EventView::End,
            TranscriptEvent::Disconnected { reason } => EventView::Disconnected {
                reason: reason@,
            },
        },
        protocol::header_views(headers).len() == headers.len(),
        0 <= i < headers.len() ==> protocol::header_views(headers)[i] == (
            headers[i].name@,
            headers[i].value@,
        ),
{
}

/// What a session does next is seen whole.
pub proof fn law_actions_are_seen_whole(action: session::SessionAction)
    ensures
        action@ == match action {
            session::SessionAction::SendText(text) => ActionView::SendText(text@),
            session::SessionAction::SendBinary(bytes) => ActionView::SendBinary(bytes@),
            session::SessionAction::Ready => ActionView::Ready,
            session::SessionAction::Listen => ActionView::Listen,
            session::SessionAction::AwaitFinal => ActionView::AwaitFinal,
            session::SessionAction::Close => ActionView::Close,
            session::SessionAction::Stop(Ok(_)) => ActionView::Stop(Ok(())),
            session::SessionAction::Stop(Err(error)) => ActionView::Stop(Err(error@)),
            session::SessionAction::Ignore => ActionView::Ignore,
        },
{
}

/// Each mode has the name that the protocol gives it.
pub proof fn law_modes_have_their_names(mode: AsrMode)
    ensures
        mode.protocol_name() == match mode {
            AsrMode::Online => "online"@,
            AsrMode::Offline => "offline"@,
            AsrMode::TwoPass => "2pass"@,
        },
{
}

} // verus!
