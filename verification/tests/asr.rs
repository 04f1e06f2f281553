use std::time::Duration;

use serde_json::Value;
use vapor_tap::asr::funasr::{
    queue_error, startup_message, startup_result, take_events, usable_token, QueueFailure,
};
use vapor_tap::asr::protocol::{
    authorization, disconnected, emit_server_message, handle_incoming, headers_for,
    request_headers, timestamp_text, FinishMessage, Incoming, ServerMessage, StartMessage,
    TimestampField,
};
use vapor_tap::asr::session::{
    connect_error, ConnectFailure, InputMessage, SessionAction, SessionEvent, SessionPhase,
};
use vapor_tap::asr::{AsrMode, Connection, FunAsrConfig, TranscriptEvent};
use vapor_tap::audio::Pcm16Chunk;
use vapor_tap::transcript::render;
use vapor_tap::Error;

fn message(json: &str) -> ServerMessage {
    let value: Value = serde_json::from_str(json).unwrap();
    let text = |key: &str| value[key].as_str().unwrap_or("").to_owned();
    ServerMessage {
        mode: text("mode"),
        text: text("text"),
        timestamp: timestamp_text(value.get("timestamp").map(|field| match field {
            Value::Null => TimestampField::Null,
            Value::String(text) => TimestampField::Text(text.clone()),
            other => TimestampField::Other(other.to_string()),
        })),
        is_final: value["is_final"].as_bool().unwrap_or(false),
        is_end: value["is_end"].as_bool().unwrap_or(false),
        error: value["error"].as_str().map(str::to_owned),
    }
}

fn received(json: &str) -> SessionEvent {
    SessionEvent::Incoming(Incoming::Message(message(json)))
}

fn chunk(byte: u8, samples: usize) -> Pcm16Chunk {
    Pcm16Chunk {
        bytes: vec![byte; 2 * samples],
        samples,
    }
}

fn parsed(action: SessionAction) -> Value {
    match action {
        SessionAction::SendText(text) => serde_json::from_str(&text).unwrap(),
        _ => panic!("expected JSON"),
    }
}

fn streaming(events: &mut Vec<TranscriptEvent>) -> Connection {
    let (mut connection, _) = Connection::open(&FunAsrConfig::new("ws://localhost"));
    assert!(matches!(connection.advance(SessionEvent::Sent, events), SessionAction::Ready));
    connection
}

fn stopped(action: SessionAction) -> Error {
    match action {
        SessionAction::Stop(Err(error)) => error,
        _ => panic!("expected a failure"),
    }
}

#[test]
fn maps_online_and_offline_messages() {
    let mut events = Vec::new();
    emit_server_message(
        ServerMessage {
            mode: "2pass-online".into(),
            text: "临时".into(),
            timestamp: None,
            is_final: false,
            is_end: false,
            error: None,
        },
        &mut events,
    )
    .unwrap();
    emit_server_message(
        ServerMessage {
            mode: "2pass-offline".into(),
            text: "最终。".into(),
            timestamp: Some("[[0,100]]".into()),
            is_final: true,
            is_end: true,
            error: None,
        },
        &mut events,
    )
    .unwrap();

    let mut receiver = events.into_iter();
    assert_eq!(
        receiver.next().unwrap(),
        TranscriptEvent::Partial {
            text: "临时".into()
        }
    );
    assert!(matches!(
        receiver.next().unwrap(),
        TranscriptEvent::Final { .. }
    ));
    assert_eq!(receiver.next().unwrap(), TranscriptEvent::End);
}

#[test]
fn streams_pcm_to_a_remote_websocket_and_receives_text() {
    let mut events = Vec::new();
    let config = FunAsrConfig::new("ws://127.0.0.1:0");
    let (mut connection, start) = Connection::open(&config);
    let start: Value = serde_json::from_str(&start).unwrap();
    assert_eq!(start["mode"], "2pass");
    assert_eq!(start["audio_fs"], 16_000);
    assert_eq!(start["wav_format"], "pcm");
    assert!(matches!(
        connection.advance(SessionEvent::Sent, &mut events),
        SessionAction::Ready
    ));
    assert!(matches!(
        connection.advance(received(r#"{"mode":"2pass-online","text":"hello"}"#), &mut events),
        SessionAction::Listen
    ));
    let input = InputMessage::Audio(Pcm16Chunk {
        bytes: vec![0; 1_920],
        samples: 960,
    });
    match connection.advance(SessionEvent::Input(input), &mut events) {
        SessionAction::SendBinary(audio) => assert_eq!(audio.len(), 1_920),
        _ => panic!("expected binary PCM"),
    }
    assert!(matches!(
        connection.advance(SessionEvent::Sent, &mut events),
        SessionAction::Listen
    ));
    let finish = parsed(connection.advance(SessionEvent::Input(InputMessage::Finish), &mut events));
    assert_eq!(finish["is_speaking"], false);
    assert_eq!(finish["is_end"], true);
    assert!(matches!(
        connection.advance(SessionEvent::Sent, &mut events),
        SessionAction::AwaitFinal
    ));
    assert!(matches!(
        connection.advance(
            received(
                r#"{"mode":"2pass-offline","text":"hello.","timestamp":[[0,100]],"is_final":true,"is_end":true}"#
            ),
            &mut events
        ),
        SessionAction::Close
    ));

    let mut events = events.into_iter();
    assert!(matches!(
        events.next().unwrap(),
        TranscriptEvent::Partial { .. }
    ));
    assert_eq!(
        events.next().unwrap(),
        TranscriptEvent::Final {
            text: "hello.".into(),
            timestamp: Some("[[0,100]]".into()),
        }
    );
    assert_eq!(events.next().unwrap(), TranscriptEvent::End);
}

#[test]
fn rejects_a_failed_end_of_input_acknowledgement() {
    let mut events = Vec::new();
    let mut connection = streaming(&mut events);
    let finish = parsed(connection.advance(SessionEvent::Input(InputMessage::Finish), &mut events));
    assert_eq!(finish["is_speaking"], false);
    assert_eq!(finish["is_end"], true);
    connection.advance(SessionEvent::Sent, &mut events);
    let error = stopped(connection.advance(
        received(r#"{"is_end":true,"is_final":false,"error":"model failed"}"#),
        &mut events,
    ));

    assert!(matches!(error, Error::Protocol(message) if message.contains("model failed")));
    let mut events = events.into_iter();
    assert_eq!(
        events.next().unwrap(),
        TranscriptEvent::ServerError {
            message: "model failed".into()
        }
    );
    assert!(events.next().is_none());
}

#[test]
fn two_pass_recognition_is_the_default() {
    assert_eq!(AsrMode::default(), AsrMode::TwoPass);
    assert_eq!(AsrMode::Online.as_protocol_str(), "online");
    assert_eq!(AsrMode::Offline.as_protocol_str(), "offline");
    assert_eq!(AsrMode::TwoPass.as_protocol_str(), "2pass");
    let config = FunAsrConfig::new("ws://host");
    assert_eq!(config.url, "ws://host");
    assert_eq!(config.mode, AsrMode::TwoPass);
    assert_eq!(config.wav_name, "vapor-tap");
    assert_eq!(config.hotwords, None);
    assert!(config.use_itn);
    assert_eq!(config.bearer_token, None);
    assert_eq!(config.audio_queue_capacity, 128);
    assert_eq!(config.connect_timeout, Duration::from_secs(10));
    assert_eq!(config.final_result_timeout, Duration::from_secs(30));
}

#[test]
fn settings_are_checked_before_connecting() {
    let mut config = FunAsrConfig::new(" \t ");
    assert!(matches!(
        config.validate(),
        Err(Error::InvalidArgument("FunASR URL must be non-empty"))
    ));
    config.audio_queue_capacity = 0;
    assert!(matches!(
        config.validate(),
        Err(Error::InvalidArgument("FunASR audio queue capacity must be non-zero"))
    ));
    assert!(FunAsrConfig::new("ws://host").validate().is_ok());
}

#[test]
fn start_messages_are_exact() {
    let mut config = FunAsrConfig::new("ws://host");
    assert_eq!(
        StartMessage::for_config(&config).to_json(),
        r#"{"mode":"2pass","wav_name":"vapor-tap","wav_format":"pcm","audio_fs":16000,"chunk_size":[5,10,5],"chunk_interval":10,"is_speaking":true,"itn":true}"#
    );
    config.mode = AsrMode::Online;
    config.use_itn = false;
    config.wav_name = "a\"b\\c\n\u{1}\u{e9}".into();
    config.hotwords = Some("{\"Vapor Tap\": 20}".into());
    let (_, text) = Connection::open(&config.clone());
    assert_eq!(
        text,
        "{\"mode\":\"online\",\"wav_name\":\"a\\\"b\\\\c\\n\\u0001\u{e9}\",\"wav_format\":\"pcm\",\"audio_fs\":16000,\"chunk_size\":[5,10,5],\"chunk_interval\":10,\"is_speaking\":true,\"itn\":false,\"hotwords\":\"{\\\"Vapor Tap\\\": 20}\"}"
    );
    let value: Value = serde_json::from_str(&text).unwrap();
    assert_eq!(value["wav_name"], config.wav_name.as_str());
    assert_eq!(value["hotwords"], "{\"Vapor Tap\": 20}");
}

#[test]
fn finish_messages_are_exact() {
    assert_eq!(FinishMessage::new().to_json(), r#"{"is_speaking":false,"is_end":true}"#);
}

#[test]
fn bearer_tokens_go_to_the_authorization_header() {
    let mut config = FunAsrConfig::new("ws://host");
    assert_eq!(authorization(&config).unwrap(), None);
    config.bearer_token = Some("secret".into());
    assert_eq!(authorization(&config).unwrap(), Some("Bearer secret".into()));
    config.bearer_token = Some("tab\tand \u{e9}".into());
    assert_eq!(authorization(&config).unwrap(), Some("Bearer tab\tand \u{e9}".into()));
    for invalid in ["line\nbreak", "null\0", "delete\u{7f}"] {
        config.bearer_token = Some(invalid.into());
        match authorization(&config) {
            Err(Error::Network(text)) => {
                assert_eq!(text, "invalid bearer token: failed to parse header value")
            }
            other => panic!("unexpected {other:?}"),
        }
    }
}

#[test]
fn connections_are_opened_with_the_subprotocol_and_the_token() {
    let mut config = FunAsrConfig::new("ws://127.0.0.1:10095");
    let headers = request_headers(&config).unwrap();
    assert_eq!(headers.len(), 1);
    assert_eq!(headers[0].name, "sec-websocket-protocol");
    assert_eq!(headers[0].value, "binary");
    config.bearer_token = Some("secret".into());
    let headers = request_headers(&config).unwrap();
    assert_eq!(headers.len(), 2);
    assert_eq!(headers[1].name, "authorization");
    assert_eq!(headers[1].value, "Bearer secret");
}

#[test]
fn invalid_urls_are_refused_before_tokens() {
    let mut config = FunAsrConfig::new("not a url");
    config.bearer_token = Some("line\nbreak".into());
    match request_headers(&config) {
        Err(Error::Network(text)) => assert!(text.starts_with("invalid FunASR URL: ")),
        other => panic!("unexpected {other:?}"),
    }
    config.url = "/path".into();
    match request_headers(&config) {
        Err(Error::Network(text)) => {
            assert_eq!(text, "invalid FunASR URL: URL error: No host name in the URL")
        }
        other => panic!("unexpected {other:?}"),
    }
    match headers_for(&config, Err("odd".into())) {
        Err(Error::Network(text)) => assert_eq!(text, "invalid FunASR URL: odd"),
        other => panic!("unexpected {other:?}"),
    }
    match headers_for(&config, Ok(())) {
        Err(Error::Network(text)) => {
            assert_eq!(text, "invalid bearer token: failed to parse header value")
        }
        other => panic!("unexpected {other:?}"),
    }
}

#[test]
fn empty_tokens_are_none() {
    assert_eq!(usable_token(Some(String::new())), None);
    assert_eq!(usable_token(Some("x".into())), Some("x".into()));
    assert_eq!(usable_token(None), None);
}

#[test]
fn queue_pressure_is_reported() {
    assert!(matches!(queue_error(QueueFailure::Full), Error::AudioQueueFull));
    assert!(matches!(
        queue_error(QueueFailure::Closed),
        Error::Network(text) if text == "FunASR connection is closed"
    ));
}

#[test]
fn events_are_handed_out_once() {
    let mut slot = Some(7);
    assert_eq!(take_events(&mut slot).unwrap(), 7);
    assert!(matches!(
        take_events(&mut slot),
        Err(Error::InvalidArgument("FunASR events were already taken"))
    ));
}

#[test]
fn startup_failures_are_reported() {
    assert_eq!(startup_message(&Ok(())), "FunASR connection ended during startup");
    assert_eq!(
        startup_message(&Err(Error::Network("refused".into()))),
        "FunASR network operation failed: refused"
    );
    assert!(startup_result(Some(Ok(()))).is_ok());
    assert!(matches!(
        startup_result(Some(Err("x".into()))),
        Err(Error::Network(text)) if text == "x"
    ));
    assert!(matches!(
        startup_result(None),
        Err(Error::Network(text)) if text == "FunASR connection task ended during startup"
    ));
}

#[test]
fn connection_failures_are_reported() {
    let text = |failure: ConnectFailure| match connect_error(failure) {
        Error::Network(text) => text,
        other => panic!("unexpected {other:?}"),
    };
    assert_eq!(text(ConnectFailure::TimedOut), "FunASR connection timed out");
    assert_eq!(text(ConnectFailure::Failed("refused".into())), "refused");
}

#[test]
fn timestamps_become_text() {
    assert_eq!(timestamp_text(None), None);
    assert_eq!(timestamp_text(Some(TimestampField::Null)), None);
    assert_eq!(timestamp_text(Some(TimestampField::Text("1".into()))), Some("1".into()));
    assert_eq!(timestamp_text(Some(TimestampField::Other("[1]".into()))), Some("[1]".into()));
}

#[test]
fn an_end_without_acknowledgement_fails() {
    let mut events = Vec::new();
    let error = emit_server_message(message(r#"{"text":"x","is_end":true}"#), &mut events)
        .unwrap_err();
    let text = "FunASR ended the session without a final acknowledgement";
    assert!(matches!(error, Error::Protocol(message) if message == text));
    assert_eq!(
        events,
        vec![
            TranscriptEvent::Partial { text: "x".into() },
            TranscriptEvent::ServerError { message: text.into() }
        ]
    );
}

#[test]
fn offline_text_is_final_without_a_flag() {
    let mut events = Vec::new();
    assert!(!emit_server_message(message(r#"{"mode":"offline","text":"a"}"#), &mut events).unwrap());
    assert!(
        !emit_server_message(message(r#"{"mode":"2pass-offline","text":"b"}"#), &mut events)
            .unwrap()
    );
    assert!(!emit_server_message(message(r#"{"mode":"online","text":""}"#), &mut events).unwrap());
    assert!(!emit_server_message(message(r#"{"text":"c","error":""}"#), &mut events).unwrap());
    assert_eq!(
        events,
        vec![
            TranscriptEvent::Final { text: "a".into(), timestamp: None },
            TranscriptEvent::Final { text: "b".into(), timestamp: None },
            TranscriptEvent::Partial { text: "c".into() }
        ]
    );
}

#[test]
fn lost_connections_are_announced() {
    let reason = |incoming: Incoming| {
        let mut events = Vec::new();
        let error = handle_incoming(incoming, &mut events).unwrap_err();
        match (error, events.pop()) {
            (Error::Network(text), Some(TranscriptEvent::Disconnected { reason })) => {
                assert_eq!(text, reason);
                assert!(events.is_empty());
                reason
            }
            other => panic!("unexpected {other:?}"),
        }
    };
    assert_eq!(reason(Incoming::Close(None)), "server closed the WebSocket");
    assert_eq!(reason(Incoming::Close(Some("busy".into()))), "busy");
    assert_eq!(reason(Incoming::Failed("reset".into())), "reset");
    assert_eq!(reason(Incoming::Ended), "FunASR stream ended");
    let mut events = Vec::new();
    assert!(!handle_incoming(Incoming::Other, &mut events).unwrap());
    assert!(events.is_empty());
    assert!(matches!(
        disconnected(&mut events, "gone".into()),
        Error::Network(text) if text == "gone"
    ));
    assert_eq!(events.len(), 1);
}

#[test]
fn unreadable_messages_are_protocol_errors() {
    let mut events = Vec::new();
    let error = handle_incoming(
        Incoming::Malformed { error: "expected value".into(), text: "<html>".into() },
        &mut events,
    )
    .unwrap_err();
    assert!(
        matches!(error, Error::Protocol(text) if text == "expected value; message=<html>")
    );
    assert!(events.is_empty());
}

#[test]
fn a_session_that_cannot_start_stops() {
    let mut events = Vec::new();
    let (mut connection, _) = Connection::open(&FunAsrConfig::new("ws://host"));
    let error = stopped(connection.advance(SessionEvent::SendFailed("broken".into()), &mut events));
    assert!(matches!(error, Error::Network(text) if text == "broken"));
    assert!(events.is_empty());
    assert_eq!(connection.phase, SessionPhase::Closed);
}

#[test]
fn speech_that_cannot_be_sent_is_a_disconnect() {
    let mut events = Vec::new();
    let mut connection = streaming(&mut events);
    match connection.advance(SessionEvent::Input(InputMessage::Audio(chunk(9, 2))), &mut events) {
        SessionAction::SendBinary(bytes) => assert_eq!(bytes, vec![9; 4]),
        _ => panic!("expected binary PCM"),
    }
    let error = stopped(connection.advance(SessionEvent::SendFailed("reset".into()), &mut events));
    assert!(matches!(error, Error::Network(text) if text == "reset"));
    assert_eq!(events, vec![TranscriptEvent::Disconnected { reason: "reset".into() }]);
}

#[test]
fn no_speech_is_sent_after_the_end() {
    let mut events = Vec::new();
    let mut connection = streaming(&mut events);
    assert!(matches!(
        connection.advance(SessionEvent::InputClosed, &mut events),
        SessionAction::SendText(_)
    ));
    assert!(matches!(
        connection.advance(SessionEvent::Input(InputMessage::Audio(chunk(1, 1))), &mut events),
        SessionAction::Ignore
    ));
    connection.advance(SessionEvent::Sent, &mut events);
    assert!(matches!(
        connection.advance(SessionEvent::Input(InputMessage::Audio(chunk(1, 1))), &mut events),
        SessionAction::Ignore
    ));
    assert_eq!(connection.phase, SessionPhase::Draining);
}

#[test]
fn a_final_result_that_does_not_come_times_out() {
    let mut events = Vec::new();
    let mut connection = streaming(&mut events);
    assert!(matches!(
        connection.advance(SessionEvent::TimedOut, &mut events),
        SessionAction::Ignore
    ));
    connection.advance(SessionEvent::Input(InputMessage::Finish), &mut events);
    connection.advance(SessionEvent::Sent, &mut events);
    let error = stopped(connection.advance(SessionEvent::TimedOut, &mut events));
    assert!(
        matches!(error, Error::Network(text) if text == "timed out waiting for final FunASR result")
    );
    assert!(matches!(
        connection.advance(received(r#"{"is_final":true,"is_end":true}"#), &mut events),
        SessionAction::Ignore
    ));
    assert!(events.is_empty());
}

#[test]
fn every_wait_for_the_final_result_is_limited() {
    let mut events = Vec::new();
    let mut connection = streaming(&mut events);
    connection.advance(SessionEvent::Input(InputMessage::Finish), &mut events);
    connection.advance(SessionEvent::Sent, &mut events);
    assert!(matches!(
        connection.advance(received(r#"{"mode":"2pass-online","text":"late"}"#), &mut events),
        SessionAction::AwaitFinal
    ));
    assert!(matches!(
        connection.advance(SessionEvent::Incoming(Incoming::Other), &mut events),
        SessionAction::AwaitFinal
    ));
    assert_eq!(connection.phase, SessionPhase::Draining);
}

#[test]
fn a_service_may_end_a_session_early() {
    let mut events = Vec::new();
    let mut connection = streaming(&mut events);
    assert!(matches!(
        connection.advance(received(r#"{"is_final":true,"is_end":true}"#), &mut events),
        SessionAction::Stop(Ok(()))
    ));
    assert_eq!(events, vec![TranscriptEvent::End]);
}

#[test]
fn a_finish_message_that_cannot_be_sent_stops_the_session() {
    let mut events = Vec::new();
    let mut connection = streaming(&mut events);
    connection.advance(SessionEvent::Input(InputMessage::Finish), &mut events);
    let error = stopped(connection.advance(SessionEvent::SendFailed("gone".into()), &mut events));
    assert!(matches!(error, Error::Network(text) if text == "gone"));
    assert!(events.is_empty());
}

fn json_object(entries: &[(&str, Value)]) -> String {
    let mut map = serde_json::Map::new();
    for (key, value) in entries {
        map.insert((*key).to_owned(), value.clone());
    }
    Value::Object(map).to_string()
}

fn text_value(text: &str) -> Value {
    Value::String(text.to_owned())
}

#[test]
fn events_are_rendered_for_every_output() {
    let tricky = "say \"hi\"\\\n\t\u{8}\u{c}\r\u{1f}\u{7f}\u{2028}\u{1f600}";
    let partial = render(&TranscriptEvent::Partial { text: tricky.into() });
    assert_eq!(partial.shown, Some(format!("[partial] {tricky}")));
    assert_eq!(partial.complained, None);
    assert_eq!(partial.text_line, None);
    assert_eq!(
        partial.json_line,
        Some(json_object(&[("type", text_value("partial")), ("text", text_value(tricky))]))
    );
    assert!(!partial.ends);

    let last = render(&TranscriptEvent::Final {
        text: "done".into(),
        timestamp: Some("[[0,1]]".into()),
    });
    assert_eq!(last.shown, Some("done".into()));
    assert_eq!(last.text_line, Some("done".into()));
    assert_eq!(
        last.json_line,
        Some(json_object(&[
            ("type", text_value("final")),
            ("text", text_value("done")),
            ("timestamp", text_value("[[0,1]]"))
        ]))
    );
    let untimed = render(&TranscriptEvent::Final { text: "done".into(), timestamp: None });
    assert_eq!(
        untimed.json_line,
        Some(json_object(&[
            ("type", text_value("final")),
            ("text", text_value("done")),
            ("timestamp", Value::Null)
        ]))
    );

    let failed = render(&TranscriptEvent::ServerError { message: "no model".into() });
    assert_eq!(failed.complained, Some("FunASR server error: no model".into()));
    assert_eq!(failed.shown, None);
    assert_eq!(
        failed.json_line,
        Some(json_object(&[
            ("type", text_value("server_error")),
            ("message", text_value("no model"))
        ]))
    );

    let lost = render(&TranscriptEvent::Disconnected { reason: "reset".into() });
    assert_eq!(lost.complained, Some("FunASR disconnected: reset".into()));
    assert_eq!(
        lost.json_line,
        Some(json_object(&[("type", text_value("disconnected")), ("reason", text_value("reset"))]))
    );
    assert_eq!(lost.text_line, None);

    let end = render(&TranscriptEvent::End);
    assert!(end.ends);
    assert_eq!(end.shown, None);
    assert_eq!(end.json_line, None);
}

#[test]
fn json_lines_never_break() {
    let text: String = (0u32..128).filter_map(char::from_u32).collect();
    let line = render(&TranscriptEvent::Partial { text: text.clone() }).json_line.unwrap();
    assert!(!line.chars().any(|c| c < ' '));
    let value: Value = serde_json::from_str(&line).unwrap();
    assert_eq!(value["text"], text.as_str());
}

#[test]
fn json_lines_tell_events_apart() {
    let line = |event: TranscriptEvent| render(&event).json_line.unwrap();
    let lines = vec![
        line(TranscriptEvent::Partial { text: "a".into() }),
        line(TranscriptEvent::Final { text: "a".into(), timestamp: None }),
        line(TranscriptEvent::Final { text: "a".into(), timestamp: Some("null".into()) }),
        line(TranscriptEvent::ServerError { message: "a".into() }),
        line(TranscriptEvent::Disconnected { reason: "a".into() }),
        line(TranscriptEvent::Partial { text: "a\"".into() }),
        line(TranscriptEvent::Partial { text: "a\\\"".into() }),
    ];
    for (i, a) in lines.iter().enumerate() {
        for b in &lines[i + 1..] {
            assert_ne!(a, b);
        }
    }
}

#[test]
fn final_texts_become_lines_of_the_text_file() {
    let mut events = Vec::new();
    emit_server_message(message(r#"{"mode":"2pass-online","text":"a"}"#), &mut events).unwrap();
    emit_server_message(message(r#"{"mode":"2pass-offline","text":"b"}"#), &mut events).unwrap();
    emit_server_message(
        message(r#"{"mode":"2pass-offline","text":"c","is_final":true,"is_end":true}"#),
        &mut events,
    )
    .unwrap();
    let lines: Vec<String> = events.iter().filter_map(|event| render(event).text_line).collect();
    assert_eq!(lines, vec!["b", "c"]);
}

/// The lines of both files, written as long as the transcript has not ended.
fn files(events: &[TranscriptEvent]) -> (Vec<String>, Vec<String>) {
    let mut text = Vec::new();
    let mut json = Vec::new();
    for event in events {
        let rendering = render(event);
        text.extend(rendering.text_line);
        json.extend(rendering.json_line);
        if rendering.ends {
            break;
        }
    }
    (text, json)
}

#[test]
fn a_transcript_holds_everything_before_its_end() {
    let last = |text: &str| TranscriptEvent::Final { text: text.into(), timestamp: None };
    let mut events = vec![
        TranscriptEvent::Partial { text: "on".into() },
        last("one"),
        TranscriptEvent::ServerError { message: "busy".into() },
        last("two"),
    ];
    let written = files(&events);
    assert_eq!(written.0, vec!["one", "two"]);
    assert_eq!(
        written.1,
        vec![
            r#"{"text":"on","type":"partial"}"#,
            r#"{"text":"one","timestamp":null,"type":"final"}"#,
            r#"{"message":"busy","type":"server_error"}"#,
            r#"{"text":"two","timestamp":null,"type":"final"}"#,
        ]
    );
    events.push(TranscriptEvent::End);
    events.push(last("late"));
    events.push(TranscriptEvent::Disconnected { reason: "reset".into() });
    assert_eq!(files(&events), written);
    assert_eq!(files(&[TranscriptEvent::End, last("late")]), (vec![], vec![]));
}
