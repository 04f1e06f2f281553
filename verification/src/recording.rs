//! Recording a capture to a WAV file: when to wait for packets, and what they
//! add to the file.

use vstd::prelude::*;

use crate::capture::{AudioFormat, AudioFrame, CaptureMode};
use crate::error;
use crate::error::{Error, ErrorView};
use crate::text;
use crate::text::padded_decimal_text;
use crate::wav;
use crate::wav::WavWriter;

verus! {

/// The longest single wait for a packet, in nanoseconds, so that the end of the
/// recording is noticed in time.
pub const LONGEST_WAIT: u64 = 250_000_000;

/// Tells how many nanoseconds to wait for the next packet, or that the recording
/// is over. A recording without a limit goes on until it is interrupted.
pub fn next_wait(interrupted: bool, remaining: Option<u64>) -> (r: Option<u64>)
    ensures
        r == if interrupted || remaining == Some(0u64) {
            None
        } else {
            match remaining {
                Some(remaining) => if remaining < 250_000_000 {
                    Some(remaining)
                } else {
                    Some(250_000_000)
                },
                None => Some(250_000_000),
            }
        },
{
    if interrupted {
        return None;
    }
    match remaining {
        None => Some(LONGEST_WAIT),
        Some(remaining) => if remaining == 0 {
            None
        } else if remaining < LONGEST_WAIT {
            Some(remaining)
        } else {
            Some(LONGEST_WAIT)
        },
    }
}

/// What a wait for a packet gave.
pub enum Received<S> {
    Frame(AudioFrame<S>),
    /// No packet came in time.
    TimedOut,
    /// No packet will come any more.
    Disconnected,
}

/// Takes a packet that came, if one did. A capture that ended by itself is an
/// error, so that it does not pass for silence.
pub fn take_received<S>(received: Received<S>) -> (r: Result<Option<AudioFrame<S>>, Error>)
    ensures
        match received {
            Received::Frame(frame) => r == Ok::<_, Error>(Some(frame)),
            Received::TimedOut => r == Ok::<Option<AudioFrame<S>>, Error>(None),
            Received::Disconnected => error::outcome(r) == Err::<Option<AudioFrame<S>>, _>(
                ErrorView::Native("audio capture ended unexpectedly"@),
            ),
        },
{
    match received {
        Received::Frame(frame) => Ok(Some(frame)),
        Received::TimedOut => Ok(None),
        Received::Disconnected => Err(
            Error::Native("audio capture ended unexpectedly".to_owned()),
        ),
    }
}

/// A warning for a capture that was asked for one process and takes the whole
/// output instead.
pub fn isolation_warning(pid: Option<u32>, mode: CaptureMode) -> (warning: Option<&'static str>)
    ensures
        match warning {
            Some(text) => {
                &&& pid is Some
                &&& mode == CaptureMode::OutputLoopback
                &&& text@
                    == "this system cannot isolate a process; capturing the default output mix"@
            },
            None => pid is None || mode == CaptureMode::ProcessLoopback,
        },
{
    match (pid, mode) {
        (Some(_), CaptureMode::OutputLoopback) => Some(
            "this system cannot isolate a process; capturing the default output mix",
        ),
        _ => None,
    }
}

/// A local time of day on a date.
#[derive(Clone, Copy, Debug, Eq, PartialEq, Structural)]
pub struct LocalTime {
    pub year: u32,
    pub month: u32,
    pub day: u32,
    pub hour: u32,
    pub minute: u32,
    pub second: u32,
}

/// A time as it stands in a file name: `YYYYMMDD-HHMMSS`.
pub open spec fn time_stamp(time: LocalTime) -> Seq<char> {
    text::padded_decimal(time.year as nat, 4) + text::padded_decimal(time.month as nat, 2)
        + text::padded_decimal(time.day as nat, 2) + "-"@ + text::padded_decimal(
        time.hour as nat,
        2,
    ) + text::padded_decimal(time.minute as nat, 2) + text::padded_decimal(time.second as nat, 2)
}

fn stamped_name(prefix: &str, time: LocalTime, suffix: &str) -> (name: String)
    ensures
        name@ == prefix@ + time_stamp(time) + suffix@,
{
    let mut name = prefix.to_owned();
    name.append(padded_decimal_text(time.year, 4).as_str());
    name.append(padded_decimal_text(time.month, 2).as_str());
    name.append(padded_decimal_text(time.day, 2).as_str());
    name.append("-");
    name.append(padded_decimal_text(time.hour, 2).as_str());
    name.append(padded_decimal_text(time.minute, 2).as_str());
    name.append(padded_decimal_text(time.second, 2).as_str());
    assert(name@ =~= prefix@ + time_stamp(time));
    name.append(suffix);
    name
}

/// Names a recording that was given no name.
pub fn recording_name(time: LocalTime) -> (name: String)
    ensures
        name@ == "captured-"@ + time_stamp(time) + ".wav"@,
{
    stamped_name("captured-", time, ".wav")
}

/// Names a transcript that was given no name.
pub fn transcript_name(time: LocalTime) -> (name: String)
    ensures
        name@ == "transcript-"@ + time_stamp(time) + ".txt"@,
{
    stamped_name("transcript-", time, ".txt")
}

/// A WAV recording: opened by the first packet, with the format of that packet.
#[derive(Debug)]
pub struct WavRecording {
    wav: Option<WavWriter>,
    sample_frames: u64,
}

/// The value of a [`WavRecording`].
#[verifier::ext_equal]
pub struct RecordingView {
    /// The format and the number of bytes of samples, once there is a packet.
    pub opened: Option<(AudioFormat, nat)>,
    pub sample_frames: nat,
}

impl View for WavRecording {
    type V = RecordingView;

    closed spec fn view(&self) -> RecordingView {
        RecordingView {
            opened: match self.wav {
                Some(wav) => Some((wav.format(), wav.data_bytes())),
                None => None,
            },
            sample_frames: self.sample_frames as nat,
        }
    }
}

impl RecordingView {
    /// Why a packet is refused, if it is.
    pub open spec fn refusal<S>(self, frame: AudioFrame<S>) -> Option<Seq<char>> {
        match self.opened {
            Some((format, data_bytes)) => wav::frame_refusal(format, data_bytes, frame),
            None => if frame.format.channels == 0 || frame.format.sample_rate == 0 {
                Some("invalid WAV format"@)
            } else {
                wav::frame_refusal(frame.format, 0, frame)
            },
        }
    }

    /// The format and size before a packet is written: a first packet with a
    /// valid format opens the file.
    pub open spec fn opened_for<S>(self, frame: AudioFrame<S>) -> Option<(AudioFormat, nat)> {
        if self.opened is None && frame.format.channels != 0 && frame.format.sample_rate != 0 {
            Some((frame.format, 0))
        } else {
            self.opened
        }
    }

    /// How many bytes of samples were recorded.
    pub open spec fn size(self) -> nat {
        match self.opened {
            Some((_, data_bytes)) => data_bytes,
            None => 0,
        }
    }

    /// What opening the file for a packet writes: the empty place of the header.
    pub open spec fn opening<S>(self, frame: AudioFrame<S>) -> Seq<u8> {
        if self.opened is None && self.opened_for(frame) is Some {
            Seq::new(44, |i: int| 0u8)
        } else {
            Seq::empty()
        }
    }
}

/// What a packet did to a recording, and what it wrote, where `words` are the
/// bits of its samples.
pub open spec fn recorded<S, B: Fn(S) -> u32>(
    before: RecordingView,
    after: RecordingView,
    frame: AudioFrame<S>,
    bits: B,
    words: Seq<u32>,
    written: Seq<u8>,
    r: Result<(), Error>,
) -> bool {
    match before.refusal(frame) {
        Some(text) => {
            &&& error::outcome(r) == Err::<(), _>(ErrorView::InvalidArgument(text))
            &&& after == RecordingView { opened: before.opened_for(frame), ..before }
            &&& written == before.opening(frame)
        },
        None => {
            let size = before.size();
            &&& r is Ok
            &&& wav::may_have_bits(bits, frame.samples@, words)
            &&& after == RecordingView {
                opened: Some((frame.format, size + 4 * frame.samples@.len())),
                sample_frames: before.sample_frames + frame.samples@.len()
                    / frame.format.channels as nat,
            }
            &&& written == before.opening(frame) + wav::sample_bytes(words)
        },
    }
}

impl WavRecording {
    /// What every recording satisfies.
    pub closed spec fn wf(&self) -> bool {
        match self.wav {
            Some(wav) => {
                &&& wav.format().channels != 0
                &&& 4 * self.sample_frames <= wav.data_bytes() <= u32::MAX
            },
            None => self.sample_frames == 0,
        }
    }

    /// A recording without packets.
    pub fn new() -> (recording: WavRecording)
        ensures
            recording.wf(),
            recording@ == (RecordingView { opened: None, sample_frames: 0 }),
    {
        WavRecording { wav: None, sample_frames: 0 }
    }

    /// Adds a packet, and appends to `out` what is to be written to the file.
    /// `bits` gives the 32 bits of a sample.
    pub fn record<S, B>(&mut self, frame: &AudioFrame<S>, bits: B, out: &mut Vec<u8>) -> (r: Result<
        (),
        Error,
    >) where S: Copy, B: Fn(S) -> u32
        requires
            old(self).wf(),
            forall|sample: S| #[trigger] bits.requires((sample,)),
        ensures
            final(self).wf(),
            exists|words: Seq<u32>, written: Seq<u8>|
                {
                    &&& #[trigger] recorded(old(self)@, final(self)@, *frame, bits, words, written, r)
                    &&& final(out)@ == old(out)@ + written
                },
    {
        let ghost before = self@;
        let ghost start = out@;
        let mut wav = match self.wav.take() {
            Some(wav) => wav,
            None => match WavWriter::create(frame.format, out) {
                Ok(wav) => wav,
                Err(error) => {
                    assert(out@ =~= start + before.opening(*frame));
                    assert(recorded(
                        before,
                        self@,
                        *frame,
                        bits,
                        Seq::empty(),
                        before.opening(*frame),
                        Err(error),
                    ));
                    return Err(error);
                },
            },
        };
        let ghost size = wav.data_bytes();
        assert(out@ =~= start + before.opening(*frame));
        assert(before.opened_for(*frame) == Some((wav.format(), size)));
        let r = wav.write_frame(frame, bits, out);
        self.wav = Some(wav);
        match r {
            Ok(_) => {
                let ghost words = choose|words: Seq<u32>| #[trigger]
                    wav::may_have_bits(bits, frame.samples@, words) && out@ == start
                        + before.opening(*frame) + wav::sample_bytes(words);
                let count: usize = frame.frame_count();
                proof {
                    let length = frame.samples@.len() as int;
                    let channels = frame.format.channels as int;
                    assert(length / channels <= length) by (nonlinear_arith)
                        requires
                            length >= 0,
                            channels >= 1,
                    ;
                    assert(out@ =~= start + (before.opening(*frame) + wav::sample_bytes(words)));
                }
                self.sample_frames = self.sample_frames + count as u64;
                assert(recorded(
                    before,
                    self@,
                    *frame,
                    bits,
                    words,
                    before.opening(*frame) + wav::sample_bytes(words),
                    Ok(()),
                ));
                Ok(())
            },
            Err(error) => {
                assert(recorded(
                    before,
                    self@,
                    *frame,
                    bits,
                    Seq::empty(),
                    before.opening(*frame),
                    Err(error),
                ));
                Err(error)
            },
        }
    }

    /// How many sample frames were recorded.
    pub fn sample_frames(&self) -> (count: u64)
        ensures
            count == self@.sample_frames,
    {
        self.sample_frames
    }

    /// The header of the file so far, which belongs at its start. There is none
    /// before the first packet, nor where a size or rate does not fit in its
    /// field.
    pub fn header(&self) -> (header: Option<Vec<u8>>)
        ensures
            match header {
                Some(header) => {
                    &&& self@.opened matches Some((format, data_bytes))
                    &&& wav::header_fits(format, data_bytes)
                    &&& header@ == wav::wav_header(format, data_bytes)
                },
                None => self@.opened matches Some((format, data_bytes)) ==> !wav::header_fits(
                    format,
                    data_bytes,
                ),
            },
    {
        match &self.wav {
            Some(wav) => if wav.can_finish() {
                Some(wav.header())
            } else {
                None
            },
            None => None,
        }
    }
}

/// Whether a file, its header still empty, holds these samples and nothing else,
/// as a recording says.
pub open spec fn holds(recording: RecordingView, file: Seq<u8>, words: Seq<u32>) -> bool {
    match recording.opened {
        Some((_, data_bytes)) => {
            &&& data_bytes == 4 * words.len()
            &&& file == Seq::new(44, |i: int| 0u8) + wav::sample_bytes(words)
        },
        None => file.len() == 0 && words.len() == 0,
    }
}

/// A recording loses nothing and adds nothing: what is written for a packet
/// makes a file of the earlier samples one of the earlier samples and those of
/// the packet, and a refused packet leaves the samples as they were.
pub proof fn law_packets_accumulate<S, B: Fn(S) -> u32>(
    before: RecordingView,
    after: RecordingView,
    frame: AudioFrame<S>,
    bits: B,
    words: Seq<u32>,
    written: Seq<u8>,
    r: Result<(), Error>,
    file: Seq<u8>,
    earlier: Seq<u32>,
)
    requires
        recorded(before, after, frame, bits, words, written, r),
        holds(before, file, earlier),
    ensures
        r is Ok ==> holds(after, file + written, earlier + words),
        r is Err ==> holds(after, file + written, earlier),
{
    let empty = Seq::new(44, |i: int| 0u8);
    wav::law_frames_append(frame.format, earlier, words);
    if r is Ok {
        if before.opened is None {
            assert(earlier + words =~= words);
            assert(file + written =~= empty + wav::sample_bytes(words));
        } else {
            assert(file + written =~= empty + (wav::sample_bytes(earlier) + wav::sample_bytes(
                words,
            )));
        }
    } else if before.opened is None {
        assert(wav::sample_bytes(earlier) == Seq::<u8>::empty());
        assert(file + written =~= written);
        assert(before.opening(frame) =~= empty + Seq::<u8>::empty() || before.opening(frame)
            =~= Seq::<u8>::empty());
    } else {
        assert(file + written =~= file);
    }
}

/// A finished recording is the WAV file of its samples: the header of its
/// writer, and then everything that was written behind the place of the header.
pub proof fn law_a_finished_recording_is_a_file(
    recording: RecordingView,
    format: AudioFormat,
    data_bytes: nat,
    file: Seq<u8>,
    words: Seq<u32>,
)
    requires
        recording.opened == Some((format, data_bytes)),
        holds(recording, file, words),
    ensures
        wav::wav_header(format, data_bytes) + file.skip(44) == wav::wav_file(format, words),
{
    assert(file.skip(44) =~= wav::sample_bytes(words));
}

/// Recordings that are begun at different seconds get different names.
pub proof fn law_names_tell_times_apart(a: LocalTime, b: LocalTime)
    requires
        a.year < 10_000 && b.year < 10_000,
        a.month < 100 && b.month < 100,
        a.day < 100 && b.day < 100,
        a.hour < 100 && b.hour < 100,
        a.minute < 100 && b.minute < 100,
        a.second < 100 && b.second < 100,
        time_stamp(a) == time_stamp(b),
    ensures
        a == b,
{
    reveal_strlit("-");
    let s = time_stamp(a);
    let t = time_stamp(b);
    text::lemma_padded_decimal(a.year as nat, b.year as nat, 4);
    text::lemma_padded_decimal(a.month as nat, b.month as nat, 2);
    text::lemma_padded_decimal(a.day as nat, b.day as nat, 2);
    text::lemma_padded_decimal(a.hour as nat, b.hour as nat, 2);
    text::lemma_padded_decimal(a.minute as nat, b.minute as nat, 2);
    text::lemma_padded_decimal(a.second as nat, b.second as nat, 2);
    assert(s.subrange(0, 4) =~= text::padded_decimal(a.year as nat, 4));
    assert(t.subrange(0, 4) =~= text::padded_decimal(b.year as nat, 4));
    assert(s.subrange(4, 6) =~= text::padded_decimal(a.month as nat, 2));
    assert(t.subrange(4, 6) =~= text::padded_decimal(b.month as nat, 2));
    assert(s.subrange(6, 8) =~= text::padded_decimal(a.day as nat, 2));
    assert(t.subrange(6, 8) =~= text::padded_decimal(b.day as nat, 2));
    assert(s.subrange(9, 11) =~= text::padded_decimal(a.hour as nat, 2));
    assert(t.subrange(9, 11) =~= text::padded_decimal(b.hour as nat, 2));
    assert(s.subrange(11, 13) =~= text::padded_decimal(a.minute as nat, 2));
    assert(t.subrange(11, 13) =~= text::padded_decimal(b.minute as nat, 2));
    assert(s.subrange(13, 15) =~= text::padded_decimal(a.second as nat, 2));
    assert(t.subrange(13, 15) =~= text::padded_decimal(b.second as nat, 2));
}

/// What a packet is refused for: the first one for a format without channels or
/// without a rate, a later one for another format, and any for more data than a
/// file can hold.
pub proof fn law_which_packets_are_recorded<S>(recording: RecordingView, frame: AudioFrame<S>)
    ensures
        ({
            let refusal = recording.refusal(frame);
            let size = 4 * frame.samples@.len();
            &&& recording.opened is None ==> (refusal is None <==> frame.format.channels != 0
                && frame.format.sample_rate != 0 && size <= usize::MAX && size < 4_294_967_296)
            &&& recording.opened is None && (frame.format.channels == 0 || frame.format.sample_rate
                == 0) ==> refusal == Some("invalid WAV format"@)
            &&& recording.opened matches Some((format, data_bytes)) ==> {
                &&& refusal is None <==> frame.format == format && size <= usize::MAX && data_bytes
                    + size < 4_294_967_296
                &&& frame.format != format ==> refusal == Some(
                    "audio format changed during WAV output"@,
                )
                &&& frame.format == format && size > usize::MAX ==> refusal == Some(
                    "audio packet is too large for WAV"@,
                )
                &&& frame.format == format && size <= usize::MAX && data_bytes + size
                    >= 4_294_967_296 ==> refusal == Some("WAV exceeds 4 GiB"@)
            }
            &&& recording.opened is None && frame.format.channels != 0 && frame.format.sample_rate
                != 0 && size > usize::MAX ==> refusal == Some("audio packet is too large for WAV"@)
            &&& recording.opened is None && frame.format.channels != 0 && frame.format.sample_rate
                != 0 && size <= usize::MAX && size >= 4_294_967_296 ==> refusal == Some(
                "WAV exceeds 4 GiB"@,
            )
        }),
{
}

/// What a packet writes, byte by byte. The first packet with a valid format leaves
/// 44 zeros for the header. Behind them, or right away, stand the bits of every
/// sample in order, four bytes each with the lowest first, where the packet is
/// recorded; where it is refused, nothing. The recording counts the bytes and the
/// frames.
pub proof fn law_a_packet_is_written_sample_by_sample<S, B: Fn(S) -> u32>(
    before: RecordingView,
    after: RecordingView,
    frame: AudioFrame<S>,
    bits: B,
    words: Seq<u32>,
    written: Seq<u8>,
    r: Result<(), Error>,
)
    requires
        recorded(before, after, frame, bits, words, written, r),
    ensures
        ({
            let opens = before.opened is None && frame.format.channels != 0
                && frame.format.sample_rate != 0;
            let start: int = if opens {
                44
            } else {
                0
            };
            let size: nat = match before.opened {
                Some((_, data_bytes)) => data_bytes,
                None => 0,
            };
            &&& forall|i: int| 0 <= i < start ==> #[trigger] written[i] == 0
            &&& before.refusal(frame) matches Some(text) ==> {
                &&& r matches Err(error)
                &&& error@ == ErrorView::InvalidArgument(text)
                &&& written.len() == start
                &&& after.sample_frames == before.sample_frames
                &&& after.opened == if opens {
                    Some((frame.format, 0))
                } else {
                    before.opened
                }
            }
            &&& before.refusal(frame) is None ==> {
                &&& r is Ok
                &&& words.len() == frame.samples@.len()
                &&& forall|i: int|
                    0 <= i < words.len() ==> bits.ensures(
                        (frame.samples@[i],),
                        #[trigger] words[i],
                    )
                &&& written.len() == start + 4 * words.len()
                &&& forall|i: int|
                    0 <= i < words.len() ==> written[start + 4 * i] + 256 * written[start + 4 * i
                        + 1] + 65_536 * written[start + 4 * i + 2] + 16_777_216 * written[start + 4
                        * i + 3] == #[trigger] words[i]
                &&& after.opened == Some((frame.format, size + 4 * frame.samples@.len()))
                &&& after.sample_frames == before.sample_frames + frame.samples@.len()
                    / frame.format.channels as nat
            }
        }),
{
    let start: int = if before.opened is None && frame.format.channels != 0
        && frame.format.sample_rate != 0 {
        44
    } else {
        0
    };
    assert(before.opening(frame).len() == start);
    if before.refusal(frame) is None {
        let data = wav::sample_bytes(words);
        wav::law_samples_are_written_bit_for_bit(words, 0);
        assert forall|i: int| 0 <= i < words.len() implies written[start + 4 * i] + 256
            * written[start + 4 * i + 1] + 65_536 * written[start + 4 * i + 2] + 16_777_216
            * written[start + 4 * i + 3] == #[trigger] words[i] by {
            wav::law_samples_are_written_bit_for_bit(words, i);
            assert(written[start + 4 * i] == data[4 * i]);
            assert(written[start + 4 * i + 1] == data[4 * i + 1]);
            assert(written[start + 4 * i + 2] == data[4 * i + 2]);
            assert(written[start + 4 * i + 3] == data[4 * i + 3]);
        }
    }
}

/// A time stamp has the year in four digits, the month and the day in two, a
/// hyphen, and the hour, the minute and the second in two each; each digit is
/// that of its number.
pub proof fn law_time_stamps_read_as_times(time: LocalTime)
    ensures
        ({
            let s = time_stamp(time);
            &&& s.len() == 15
            &&& s.subrange(0, 4) == text::padded_decimal(time.year as nat, 4)
            &&& s.subrange(4, 6) == text::padded_decimal(time.month as nat, 2)
            &&& s.subrange(6, 8) == text::padded_decimal(time.day as nat, 2)
            &&& s[8] == '-'
            &&& s.subrange(9, 11) == text::padded_decimal(time.hour as nat, 2)
            &&& s.subrange(11, 13) == text::padded_decimal(time.minute as nat, 2)
            &&& s.subrange(13, 15) == text::padded_decimal(time.second as nat, 2)
        }),
{
    reveal_strlit("-");
    let s = time_stamp(time);
    text::law_padded_numbers_keep_their_width(time.year as nat, 4);
    text::law_padded_numbers_keep_their_width(time.month as nat, 2);
    text::law_padded_numbers_keep_their_width(time.day as nat, 2);
    text::law_padded_numbers_keep_their_width(time.hour as nat, 2);
    text::law_padded_numbers_keep_their_width(time.minute as nat, 2);
    text::law_padded_numbers_keep_their_width(time.second as nat, 2);
    assert(s.subrange(0, 4) =~= text::padded_decimal(time.year as nat, 4));
    assert(s.subrange(4, 6) =~= text::padded_decimal(time.month as nat, 2));
    assert(s.subrange(6, 8) =~= text::padded_decimal(time.day as nat, 2));
    assert(s.subrange(9, 11) =~= text::padded_decimal(time.hour as nat, 2));
    assert(s.subrange(11, 13) =~= text::padded_decimal(time.minute as nat, 2));
    assert(s.subrange(13, 15) =~= text::padded_decimal(time.second as nat, 2));
}

} // verus!
