//! Transcript output: what is shown and what is written for the events of a
//! session.

use vstd::prelude::*;

use crate::asr::funasr::{EventView, TranscriptEvent};
use crate::asr::protocol;
use crate::asr::protocol::ServerMessage;
use crate::capture;
use crate::text;
use crate::text::json_text;

verus! {

/// What one event adds to the transcript's outputs. Lines come without the line
/// break at their end.
pub struct Rendering {
    /// A line for the user.
    pub shown: Option<String>,
    /// A line for the user about something that went wrong.
    pub complained: Option<String>,
    /// A line for the text file.
    pub text_line: Option<String>,
    /// A line for the JSON Lines file.
    pub json_line: Option<String>,
    /// Whether the transcript ends here.
    pub ends: bool,
}

/// The value of a [`Rendering`].
#[verifier::ext_equal]
pub struct RenderingView {
    pub shown: Option<Seq<char>>,
    pub complained: Option<Seq<char>>,
    pub text_line: Option<Seq<char>>,
    pub json_line: Option<Seq<char>>,
    pub ends: bool,
}

impl View for Rendering {
    type V = RenderingView;

    open spec fn view(&self) -> RenderingView {
        RenderingView {
            shown: capture::text_view(self.shown),
            complained: capture::text_view(self.complained),
            text_line: capture::text_view(self.text_line),
            json_line: capture::text_view(self.json_line),
            ends: self.ends,
        }
    }
}

/// The JSON line of an event; its keys come in alphabetical order. The end of a
/// transcript has none.
pub open spec fn json_line(event: EventView) -> Option<Seq<char>> {
    match event {
        EventView::Partial { text } => Some(
            "{\"text\":"@ + text::json_quoted(text) + ",\"type\":\"partial\"}"@,
        ),
        EventView::Final { text, timestamp } => Some(
            "{\"text\":"@ + text::json_quoted(text) + ",\"timestamp\":"@ + (match timestamp {
                Some(timestamp) => text::json_quoted(timestamp),
                None => "null"@,
            }) + ",\"type\":\"final\"}"@,
        ),
        EventView::ServerError { message } => Some(
            "{\"message\":"@ + text::json_quoted(message) + ",\"type\":\"server_error\"}"@,
        ),
        EventView::Disconnected { reason } => Some(
            "{\"reason\":"@ + text::json_quoted(reason) + ",\"type\":\"disconnected\"}"@,
        ),
        EventView::End => None,
    }
}

/// What an event adds to the outputs.
pub open spec fn rendered(event: EventView) -> RenderingView {
    RenderingView {
        shown: match event {
            EventView::Partial { text } => Some("[partial] "@ + text),
            EventView::Final { text, .. } => Some(text),
            _ => None,
        },
        complained: match event {
            EventView::ServerError { message } => Some("FunASR server error: "@ + message),
            EventView::Disconnected { reason } => Some("FunASR disconnected: "@ + reason),
            _ => None,
        },
        text_line: match event {
            EventView::Final { text, .. } => Some(text),
            _ => None,
        },
        json_line: json_line(event),
        ends: event is End,
    }
}

/// The events before the first end of the transcript: all of them where it does
/// not end.
pub open spec fn before_end(events: Seq<EventView>) -> Seq<EventView>
    decreases events.len(),
{
    if events.len() == 0 || events[0] is End {
        Seq::empty()
    } else {
        seq![events[0]] + before_end(events.skip(1))
    }
}

/// A line, where there is one.
pub open spec fn as_lines(line: Option<Seq<char>>) -> Seq<Seq<char>> {
    match line {
        Some(line) => seq![line],
        None => Seq::empty(),
    }
}

/// The lines of the text file once these events are rendered one after the
/// other, up to the one that ends the transcript.
pub open spec fn text_file(events: Seq<EventView>) -> Seq<Seq<char>>
    decreases events.len(),
{
    if events.len() == 0 {
        Seq::empty()
    } else if rendered(events[0]).ends {
        as_lines(rendered(events[0]).text_line)
    } else {
        as_lines(rendered(events[0]).text_line) + text_file(events.skip(1))
    }
}

/// The lines of the JSON Lines file once these events are rendered one after the
/// other, up to the one that ends the transcript.
pub open spec fn json_file(events: Seq<EventView>) -> Seq<Seq<char>>
    decreases events.len(),
{
    if events.len() == 0 {
        Seq::empty()
    } else if rendered(events[0]).ends {
        as_lines(rendered(events[0]).json_line)
    } else {
        as_lines(rendered(events[0]).json_line) + json_file(events.skip(1))
    }
}

/// The texts of the final events, in order.
pub open spec fn final_texts(events: Seq<EventView>) -> Seq<Seq<char>> {
    events.filter(|event: EventView| event is Final).map_values(
        |event: EventView| event->Final_text,
    )
}

/// Renders an event.
pub fn render(event: &TranscriptEvent) -> (rendering: Rendering)
    ensures
        rendering@ == rendered(event@),
{
    match event {
        TranscriptEvent::Partial { text } => {
            let json = "{\"text\":".to_owned().concat(json_text(text.as_str()).as_str()).concat(
                ",\"type\":\"partial\"}",
            );
            Rendering {
                shown: Some("[partial] ".to_owned().concat(text.as_str())),
                complained: None,
                text_line: None,
                json_line: Some(json),
                ends: false,
            }
        },
        TranscriptEvent::Final { text, timestamp } => {
            let time = match timestamp {
                Some(timestamp) => json_text(timestamp.as_str()),
                None => "null".to_owned(),
            };
            let json = "{\"text\":".to_owned().concat(json_text(text.as_str()).as_str()).concat(
                ",\"timestamp\":",
            ).concat(time.as_str()).concat(",\"type\":\"final\"}");
            Rendering {
                shown: Some(text.clone()),
                complained: None,
                text_line: Some(text.clone()),
                json_line: Some(json),
                ends: false,
            }
        },
        TranscriptEvent::ServerError { message } => {
            let json = "{\"message\":".to_owned().concat(
                json_text(message.as_str()).as_str(),
            ).concat(",\"type\":\"server_error\"}");
            Rendering {
                shown: None,
                complained: Some("FunASR server error: ".to_owned().concat(message.as_str())),
                text_line: None,
                json_line: Some(json),
                ends: false,
            }
        },
        TranscriptEvent::Disconnected { reason } => {
            let json = "{\"reason\":".to_owned().concat(json_text(reason.as_str()).as_str()).concat(
                ",\"type\":\"disconnected\"}",
            );
            Rendering {
                shown: None,
                complained: Some("FunASR disconnected: ".to_owned().concat(reason.as_str())),
                text_line: None,
                json_line: Some(json),
                ends: false,
            }
        },
        TranscriptEvent::End => Rendering {
            shown: None,
            complained: None,
            text_line: None,
            json_line: None,
            ends: true,
        },
    }
}

/// Whether a text holds no control character, and so no line break.
pub open spec fn is_one_line(s: Seq<char>) -> bool {
    forall|i: int| 0 <= i < s.len() ==> #[trigger] s[i] as u32 >= 32
}

proof fn lemma_one_line_joins(a: Seq<char>, b: Seq<char>)
    requires
        is_one_line(a),
        is_one_line(b),
    ensures
        is_one_line(a + b),
{
    assert forall|i: int| 0 <= i < (a + b).len() implies #[trigger] (a + b)[i] as u32 >= 32 by {
        if i < a.len() {
            assert((a + b)[i] == a[i]);
        } else {
            assert((a + b)[i] == b[i - a.len()]);
        }
    }
}

proof fn lemma_quoted_is_one_line(s: Seq<char>)
    ensures
        is_one_line(text::json_quoted(s)),
{
    assert forall|i: int| 0 <= i < text::json_quoted(s).len() implies #[trigger] text::json_quoted(
        s,
    )[i] as u32 >= 32 by {
        text::law_json_strings_stay_on_one_line(s, i);
    }
}

/// Every event is one line of the JSON Lines file, whatever its texts hold.
pub proof fn law_events_are_single_lines(event: EventView)
    ensures
        json_line(event) matches Some(line) ==> is_one_line(line),
{
    reveal_strlit("{\"text\":");
    reveal_strlit("{\"message\":");
    reveal_strlit("{\"reason\":");
    reveal_strlit(",\"timestamp\":");
    reveal_strlit("null");
    reveal_strlit(",\"type\":\"partial\"}");
    reveal_strlit(",\"type\":\"final\"}");
    reveal_strlit(",\"type\":\"server_error\"}");
    reveal_strlit(",\"type\":\"disconnected\"}");
    match event {
        EventView::Partial { text } => {
            let quoted = text::json_quoted(text);
            lemma_quoted_is_one_line(text);
            lemma_one_line_joins("{\"text\":"@, quoted);
            lemma_one_line_joins("{\"text\":"@ + quoted, ",\"type\":\"partial\"}"@);
        },
        EventView::Final { text, timestamp } => {
            let start = "{\"text\":"@ + text::json_quoted(text) + ",\"timestamp\":"@;
            let time = match timestamp {
                Some(timestamp) => text::json_quoted(timestamp),
                None => "null"@,
            };
            lemma_quoted_is_one_line(text);
            lemma_one_line_joins("{\"text\":"@, text::json_quoted(text));
            lemma_one_line_joins("{\"text\":"@ + text::json_quoted(text), ",\"timestamp\":"@);
            if let Some(timestamp) = timestamp {
                lemma_quoted_is_one_line(timestamp);
            }
            lemma_one_line_joins(start, time);
            lemma_one_line_joins(start + time, ",\"type\":\"final\"}"@);
        },
        EventView::ServerError { message } => {
            let quoted = text::json_quoted(message);
            lemma_quoted_is_one_line(message);
            lemma_one_line_joins("{\"message\":"@, quoted);
            lemma_one_line_joins("{\"message\":"@ + quoted, ",\"type\":\"server_error\"}"@);
        },
        EventView::Disconnected { reason } => {
            let quoted = text::json_quoted(reason);
            lemma_quoted_is_one_line(reason);
            lemma_one_line_joins("{\"reason\":"@, quoted);
            lemma_one_line_joins("{\"reason\":"@ + quoted, ",\"type\":\"disconnected\"}"@);
        },
        EventView::End => {},
    }
}

/// The text behind the first key of an event's JSON line.
spec fn first_text(event: EventView) -> Seq<char> {
    match event {
        EventView::Partial { text } => text,
        EventView::Final { text, .. } => text,
        EventView::ServerError { message } => message,
        EventView::Disconnected { reason } => reason,
        EventView::End => Seq::empty(),
    }
}

spec fn first_key(event: EventView) -> Seq<char> {
    match event {
        EventView::Partial { .. } => "{\"text\":"@,
        EventView::Final { .. } => "{\"text\":"@,
        EventView::ServerError { .. } => "{\"message\":"@,
        EventView::Disconnected { .. } => "{\"reason\":"@,
        EventView::End => Seq::empty(),
    }
}

spec fn rest_of_line(event: EventView) -> Seq<char> {
    match event {
        EventView::Partial { .. } => ",\"type\":\"partial\"}"@,
        EventView::Final { timestamp, .. } => ",\"timestamp\":"@ + ((match timestamp {
            Some(timestamp) => text::json_quoted(timestamp),
            None => "null"@,
        }) + ",\"type\":\"final\"}"@),
        EventView::ServerError { .. } => ",\"type\":\"server_error\"}"@,
        EventView::Disconnected { .. } => ",\"type\":\"disconnected\"}"@,
        EventView::End => Seq::empty(),
    }
}

proof fn lemma_parts_of_line(event: EventView)
    requires
        !(event is End),
    ensures
        json_line(event) == Some(
            first_key(event) + (text::json_quoted(first_text(event)) + rest_of_line(event)),
        ),
{
    let line = first_key(event) + (text::json_quoted(first_text(event)) + rest_of_line(event));
    assert(json_line(event)->0 =~= line);
}

/// The JSON Lines file loses nothing: an event can be told from its line, its
/// kind as well as its texts.
pub proof fn law_lines_tell_events_apart(a: EventView, b: EventView)
    requires
        json_line(a) is Some,
        json_line(a) == json_line(b),
    ensures
        a == b,
{
    reveal_strlit("{\"text\":");
    reveal_strlit("{\"message\":");
    reveal_strlit("{\"reason\":");
    reveal_strlit(",\"timestamp\":");
    reveal_strlit("null");
    reveal_strlit(",\"type\":\"partial\"}");
    reveal_strlit(",\"type\":\"final\"}");
    lemma_parts_of_line(a);
    lemma_parts_of_line(b);
    let line = json_line(a)->0;
    assert(line[2] == first_key(a)[2]);
    assert(line[2] == first_key(b)[2]);
    assert(first_key(a) == first_key(b));
    let behind_a = text::json_quoted(first_text(a)) + rest_of_line(a);
    let behind_b = text::json_quoted(first_text(b)) + rest_of_line(b);
    assert(behind_a =~= line.skip(first_key(a).len() as int));
    assert(behind_b =~= line.skip(first_key(b).len() as int));
    text::law_json_strings_read_back(
        first_text(a),
        first_text(b),
        rest_of_line(a),
        rest_of_line(b),
    );
    if a is Partial || a is Final {
        assert(rest_of_line(a)[3] == rest_of_line(b)[3]);
        if let EventView::Final { timestamp, .. } = a {
            if let EventView::Final { timestamp: other, .. } = b {
                lemma_timestamps_are_told_apart(timestamp, other, rest_of_line(a), rest_of_line(b));
            }
        }
    }
}

proof fn lemma_timestamps_are_told_apart(
    a: Option<Seq<char>>,
    b: Option<Seq<char>>,
    rest_a: Seq<char>,
    rest_b: Seq<char>,
)
    requires
        rest_a == rest_b,
        rest_a == rest_of_line(EventView::Final { text: Seq::empty(), timestamp: a }),
        rest_b == rest_of_line(EventView::Final { text: Seq::empty(), timestamp: b }),
    ensures
        a == b,
{
    let end = ",\"type\":\"final\"}"@;
    let n = ",\"timestamp\":"@.len() as int;
    reveal_strlit("null");
    let time_a = match a {
        Some(timestamp) => text::json_quoted(timestamp),
        None => "null"@,
    };
    let time_b = match b {
        Some(timestamp) => text::json_quoted(timestamp),
        None => "null"@,
    };
    assert(rest_a.skip(n) =~= time_a + end);
    assert(rest_b.skip(n) =~= time_b + end);
    assert((time_a + end)[0] == time_a[0]);
    assert((time_b + end)[0] == time_b[0]);
    if a is Some && b is Some {
        text::law_json_strings_read_back(a->0, b->0, end, end);
    }
}

/// The events before the end are the first ones: none of them is an end, and
/// where they are not all, the next one is.
pub proof fn law_the_first_end_ends_the_transcript(events: Seq<EventView>)
    ensures
        before_end(events).len() <= events.len(),
        before_end(events) == events.take(before_end(events).len() as int),
        forall|i: int| 0 <= i < before_end(events).len() ==> !(#[trigger] events[i] is End),
        before_end(events).len() < events.len() ==> events[before_end(events).len() as int] is End,
    decreases events.len(),
{
    if events.len() > 0 && !(events[0] is End) {
        let rest = events.skip(1);
        let n = before_end(rest).len() as int;
        law_the_first_end_ends_the_transcript(rest);
        assert(before_end(events) =~= events.take(n + 1));
        assert forall|i: int| 0 <= i < n + 1 implies !(#[trigger] events[i] is End) by {
            if i > 0 {
                assert(events[i] == rest[i - 1]);
            }
        }
        if n < rest.len() {
            assert(events[n + 1] == rest[n]);
        }
    } else {
        assert(before_end(events) =~= events.take(0));
    }
}

/// The text file holds the text of every final event before the end, in order
/// and each once, and nothing else.
pub proof fn law_the_text_file_holds_the_final_texts(events: Seq<EventView>)
    ensures
        text_file(events) == final_texts(before_end(events)),
    decreases events.len(),
{
    let is_final = |event: EventView| event is Final;
    reveal(Seq::filter);
    if events.len() > 0 && !(events[0] is End) {
        let head = seq![events[0]];
        let rest = before_end(events.skip(1));
        law_the_text_file_holds_the_final_texts(events.skip(1));
        Seq::filter_distributes_over_add(head, rest, is_final);
        assert(head.drop_last() =~= Seq::empty());
        assert(head.drop_last().filter(is_final) =~= Seq::empty());
        assert(head.filter(is_final) =~= if events[0] is Final {
            head
        } else {
            Seq::empty()
        });
        assert(final_texts(head) =~= as_lines(rendered(events[0]).text_line));
        assert(final_texts(head + rest) =~= final_texts(head) + final_texts(rest));
    } else {
        assert(final_texts(before_end(events)) =~= Seq::empty());
    }
}

/// The JSON Lines file holds one line for every event before the end, in order,
/// and nothing else.
pub proof fn law_the_json_file_holds_a_line_per_event(events: Seq<EventView>)
    ensures
        json_file(events).len() == before_end(events).len(),
        forall|i: int|
            0 <= i < json_file(events).len() ==> Some(#[trigger] json_file(events)[i]) == json_line(
                before_end(events)[i],
            ),
    decreases events.len(),
{
    if events.len() > 0 && !(events[0] is End) {
        let rest = events.skip(1);
        law_the_json_file_holds_a_line_per_event(rest);
        assert forall|i: int| 0 <= i < json_file(events).len() implies Some(
            #[trigger] json_file(events)[i],
        ) == json_line(before_end(events)[i]) by {
            if i > 0 {
                assert(json_file(events)[i] == json_file(rest)[i - 1]);
                assert(before_end(events)[i] == before_end(rest)[i - 1]);
            }
        }
    }
}

/// Nothing is written after the end, whatever comes.
pub proof fn law_nothing_follows_the_end(events: Seq<EventView>, later: Seq<EventView>)
    ensures
        before_end(events.push(EventView::End) + later) == before_end(events),
        text_file(events.push(EventView::End) + later) == text_file(events),
        json_file(events.push(EventView::End) + later) == json_file(events),
    decreases events.len(),
{
    let all = events.push(EventView::End) + later;
    if events.len() > 0 {
        assert(all[0] == events[0]);
        if !(events[0] is End) {
            law_nothing_follows_the_end(events.skip(1), later);
            assert(all.skip(1) =~= events.skip(1).push(EventView::End) + later);
        }
    } else {
        assert(all[0] == EventView::End);
    }
}

/// Lines that were written stay: each event adds its own behind them, as long as
/// the transcript has not ended.
pub proof fn law_each_event_adds_its_lines(events: Seq<EventView>, event: EventView)
    requires
        before_end(events) == events,
    ensures
        text_file(events.push(event)) == text_file(events) + as_lines(rendered(event).text_line),
        json_file(events.push(event)) == json_file(events) + as_lines(rendered(event).json_line),
    decreases events.len(),
{
    let all = events.push(event);
    assert(all[0] == if events.len() > 0 {
        events[0]
    } else {
        event
    });
    if events.len() > 0 {
        let rest = events.skip(1);
        assert(before_end(rest) =~= (seq![events[0]] + before_end(rest)).skip(1));
        law_each_event_adds_its_lines(rest, event);
        assert(all.skip(1) =~= rest.push(event));
    } else {
        assert(all.skip(1) =~= Seq::empty());
    }
    assert(text_file(all) =~= text_file(events) + as_lines(rendered(event).text_line));
    assert(json_file(all) =~= json_file(events) + as_lines(rendered(event).json_line));
}

/// The text file gets every final text and nothing else: the text of a message
/// is a line of it exactly where the message says that it is final.
pub proof fn law_final_text_is_written(message: ServerMessage)
    requires
        message.text@.len() > 0,
        !message.has_error(),
    ensures
        message.events().len() > 0,
        rendered(message.events()[0]).text_line == if message.has_final_text() {
            Some(message.text@)
        } else {
            None
        },
        forall|i: int|
            0 < i < message.events().len() ==> rendered(
                #[trigger] message.events()[i],
            ).text_line is None,
{
    protocol::law_text_is_reported(message);
}

/// What each event adds. A partial text is shown behind a mark and written as a
/// JSON line; a final one is shown and written as it is, and as a JSON line with
/// its timestamp; what went wrong is complained about and written as a JSON line.
/// The end adds nothing, and only it ends the transcript.
pub proof fn law_what_each_event_adds(event: EventView)
    ensures
        ({
            let added = rendered(event);
            &&& added.ends <==> event == EventView::End
            &&& match event {
                EventView::Partial { text } => {
                    &&& added.shown == Some("[partial] "@ + text)
                    &&& added.complained is None
                    &&& added.text_line is None
                    &&& added.json_line == Some(
                        "{\"text\":"@ + text::json_quoted(text) + ",\"type\":\"partial\"}"@,
                    )
                },
                EventView::Final { text, timestamp: Some(timestamp) } => {
                    &&& added.shown == Some(text)
                    &&& added.complained is None
                    &&& added.text_line == Some(text)
                    &&& added.json_line == Some(
                        "{\"text\":"@ + text::json_quoted(text) + ",\"timestamp\":"@
                            + text::json_quoted(timestamp) + ",\"type\":\"final\"}"@,
                    )
                },
                EventView::Final { text, timestamp: None } => {
                    &&& added.shown == Some(text)
                    &&& added.complained is None
                    &&& added.text_line == Some(text)
                    &&& added.json_line == Some(
                        "{\"text\":"@ + text::json_quoted(text)
                            + ",\"timestamp\":null,\"type\":\"final\"}"@,
                    )
                },
                EventView::ServerError { message } => {
                    &&& added.shown is None
                    &&& added.complained == Some("FunASR server error: "@ + message)
                    &&& added.text_line is None
                    &&& added.json_line == Some(
                        "{\"message\":"@ + text::json_quoted(message)
                            + ",\"type\":\"server_error\"}"@,
                    )
                },
                EventView::Disconnected { reason } => {
                    &&& added.shown is None
                    &&& added.complained == Some("FunASR disconnected: "@ + reason)
                    &&& added.text_line is None
                    &&& added.json_line == Some(
                        "{\"reason\":"@ + text::json_quoted(reason)
                            + ",\"type\":\"disconnected\"}"@,
                    )
                },
                EventView::End => {
                    &&& added.shown is None
                    &&& added.complained is None
                    &&& added.text_line is None
                    &&& added.json_line is None
                },
            }
        }),
{
    if let EventView::Final { text, timestamp: None } = event {
        reveal_strlit(",\"timestamp\":");
        reveal_strlit("null");
        reveal_strlit(",\"type\":\"final\"}");
        reveal_strlit(",\"timestamp\":null,\"type\":\"final\"}");
        assert(",\"timestamp\":"@ + "null"@ + ",\"type\":\"final\"}"@
            =~= ",\"timestamp\":null,\"type\":\"final\"}"@);
        let start = "{\"text\":"@ + text::json_quoted(text);
        assert(start + ",\"timestamp\":"@ + "null"@ + ",\"type\":\"final\"}"@ =~= start + (
        ",\"timestamp\":"@ + "null"@ + ",\"type\":\"final\"}"@));
    }
}

/// What an event adds is seen whole.
pub proof fn law_renderings_are_seen_whole(rendering: Rendering)
    ensures
        rendering.shown matches Some(line) ==> rendering@.shown == Some(line@),
        rendering.shown is None ==> rendering@.shown is None,
        rendering.complained matches Some(line) ==> rendering@.complained == Some(line@),
        rendering.complained is None ==> rendering@.complained is None,
        rendering.text_line matches Some(line) ==> rendering@.text_line == Some(line@),
        rendering.text_line is None ==> rendering@.text_line is None,
        rendering.json_line matches Some(line) ==> rendering@.json_line == Some(line@),
        rendering.json_line is None ==> rendering@.json_line is None,
        rendering@.ends == rendering.ends,
{
}

} // verus!
