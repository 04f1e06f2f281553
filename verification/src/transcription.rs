//! Transcribing a capture: what packets become speech input, and how the parts
//! of a transcription end.

use vstd::prelude::*;

use crate::audio::normalize;
use crate::audio::normalize::{
    Conversion, NormalizerView, Pcm16Chunk, Run, SpeechNormalizer,
};
use crate::capture::AudioFrame;
use crate::error;
use crate::error::{Error, ErrorView};
use crate::recording;
use crate::recording::{RecordingView, WavRecording};

verus! {

/// The length of a chunk of speech input, in milliseconds.
pub const CHUNK_MILLISECONDS: u32 = 60;

/// The audio side of a transcription: every packet becomes speech input and,
/// where the audio is kept, part of a WAV file.
pub struct Transcriber<S> {
    recording: Option<WavRecording>,
    normalizer: Option<SpeechNormalizer<S>>,
}

/// The value of a [`Transcriber`].
#[verifier::ext_equal]
pub struct TranscriberView<S> {
    /// The recording, where the audio is kept.
    pub recording: Option<RecordingView>,
    /// The conversion, once there is a packet.
    pub normalizer: Option<NormalizerView<S>>,
}

impl<S> View for Transcriber<S> {
    type V = TranscriberView<S>;

    closed spec fn view(&self) -> TranscriberView<S> {
        TranscriberView {
            recording: match self.recording {
                Some(recording) => Some(recording@),
                None => None,
            },
            normalizer: match self.normalizer {
                Some(normalizer) => Some(normalizer@),
                None => None,
            },
        }
    }
}

impl<S> TranscriberView<S> {
    /// Why the recording refuses a packet, if it does.
    pub open spec fn recording_refusal(self, frame: AudioFrame<S>) -> Option<Seq<char>> {
        match self.recording {
            Some(recording) => recording.refusal(frame),
            None => None,
        }
    }

    /// The number of channels that the conversion of a packet has.
    pub open spec fn channels_of(self, frame: AudioFrame<S>) -> u16 {
        match self.normalizer {
            Some(normalizer) => normalizer.format.channels,
            None => frame.format.channels,
        }
    }

    /// The conversion that a packet goes to: that of the first packet, in chunks
    /// of 60 milliseconds. None where the first packet has no valid format.
    pub open spec fn conversion_of(self, frame: AudioFrame<S>) -> Option<NormalizerView<S>> {
        if self.normalizer is Some {
            self.normalizer
        } else if frame.format.sample_rate == 0 || frame.format.channels == 0 {
            None
        } else {
            Some(
                NormalizerView {
                    format: frame.format,
                    pending: Seq::empty(),
                    ready: Seq::empty(),
                    chunk: 960,
                    started: false,
                    finished: false,
                },
            )
        }
    }
}

/// What the recording, where there is one, does with a packet.
pub open spec fn kept<S, B: Fn(S) -> u32>(
    before: Option<RecordingView>,
    after: Option<RecordingView>,
    frame: AudioFrame<S>,
    bits: B,
    written: Seq<u8>,
) -> bool {
    match before {
        None => after is None && written == Seq::<u8>::empty(),
        Some(before) => exists|words: Seq<u32>, r: Result<(), Error>| #[trigger]
            recording::recorded(before, after->0, frame, bits, words, written, r) && after is Some,
    }
}

/// What the conversion does with a packet that the recording did not refuse, and
/// what it does to the resampler.
pub open spec fn spoken<S, R, D, C, Q>(
    before: TranscriberView<S>,
    after: Option<NormalizerView<S>>,
    frame: AudioFrame<S>,
    downmix: D,
    resample: C,
    quantize: Q,
    resampler: R,
    r: (R, Result<Vec<Pcm16Chunk>, Error>),
) -> bool where
    D: Fn(&[S]) -> S,
    C: Fn(R, Conversion, &[S]) -> (R, Result<Vec<S>, String>),
    Q: Fn(S) -> i16,
 {
    match before.conversion_of(frame) {
        None => {
            &&& error::outcome(r.1) == Err::<Vec<Pcm16Chunk>, _>(
                ErrorView::InvalidArgument("invalid input audio format"@),
            )
            &&& r.0 == resampler
            &&& after is None
        },
        Some(conversion) => {
            &&& after is Some
            &&& match conversion.refusal(frame) {
                Some(text) => {
                    &&& error::outcome(r.1) == Err::<Vec<Pcm16Chunk>, _>(
                        ErrorView::InvalidArgument(text),
                    )
                    &&& r.0 == resampler
                    &&& after == Some(conversion)
                },
                None => exists|run: Run<S, R>| #[trigger]
                    normalize::pushed(
                        conversion,
                        after->0,
                        frame.samples@,
                        downmix,
                        resample,
                        quantize,
                        resampler,
                        run,
                        r,
                    ),
            }
        },
    }
}

impl<S: Copy> Transcriber<S> {
    /// What every transcriber satisfies.
    pub closed spec fn wf(&self) -> bool {
        &&& self.recording matches Some(recording) ==> recording.wf()
        &&& self.normalizer matches Some(normalizer) ==> normalizer.wf()
    }

    /// A transcriber without packets, which keeps the audio or does not.
    pub fn new(keep_audio: bool) -> (transcriber: Self)
        ensures
            transcriber.wf(),
            transcriber@ == (TranscriberView::<S> {
                recording: if keep_audio {
                    Some(RecordingView { opened: None, sample_frames: 0 })
                } else {
                    None
                },
                normalizer: None,
            }),
    {
        if keep_audio {
            Transcriber { recording: Some(WavRecording::new()), normalizer: None }
        } else {
            Transcriber { recording: None, normalizer: None }
        }
    }

    fn keep<B>(&mut self, frame: &AudioFrame<S>, bits: B, out: &mut Vec<u8>) -> (r: Result<
        (),
        Error,
    >) where B: Fn(S) -> u32
        requires
            old(self).wf(),
            forall|sample: S| #[trigger] bits.requires((sample,)),
        ensures
            final(self).wf(),
            final(self)@.normalizer == old(self)@.normalizer,
            exists|written: Seq<u8>|
                {
                    &&& #[trigger] kept(
                        old(self)@.recording,
                        final(self)@.recording,
                        *frame,
                        bits,
                        written,
                    )
                    &&& final(out)@ == old(out)@ + written
                },
            match old(self)@.recording_refusal(*frame) {
                Some(text) => error::outcome(r) == Err::<(), _>(ErrorView::InvalidArgument(text)),
                None => r is Ok,
            },
    {
        let ghost before = self@;
        match self.recording.take() {
            None => {
                assert(out@ =~= old(out)@ + Seq::<u8>::empty());
                assert(kept(before.recording, self@.recording, *frame, bits, Seq::empty()));
                Ok(())
            },
            Some(recording) => {
                let mut recording = recording;
                let ghost earlier = recording@;
                let r = recording.record(frame, bits, out);
                self.recording = Some(recording);
                proof {
                    let (words, written) = choose|words: Seq<u32>, written: Seq<u8>|
                        {
                            &&& #[trigger] recording::recorded(
                                earlier,
                                recording@,
                                *frame,
                                bits,
                                words,
                                written,
                                r,
                            )
                            &&& out@ == old(out)@ + written
                        };
                    assert(recording::recorded(
                        earlier,
                        self@.recording->0,
                        *frame,
                        bits,
                        words,
                        written,
                        r,
                    ));
                    assert(kept(before.recording, self@.recording, *frame, bits, written));
                }
                r
            },
        }
    }

    /// Takes a packet: appends to `out` what is to be written to the recording,
    /// and returns the chunks of speech that are complete now. `bits` gives the
    /// 32 bits of a sample; the other functions and `resampler` are as in
    /// [`SpeechNormalizer::push`].
    pub fn accept<R, B, D, C, Q>(
        &mut self,
        frame: &AudioFrame<S>,
        bits: B,
        downmix: D,
        resample: C,
        quantize: Q,
        resampler: R,
        out: &mut Vec<u8>,
    ) -> (r: (R, Result<Vec<Pcm16Chunk>, Error>)) where
        B: Fn(S) -> u32,
        D: Fn(&[S]) -> S,
        C: Fn(R, Conversion, &[S]) -> (R, Result<Vec<S>, String>),
        Q: Fn(S) -> i16,

        requires
            old(self).wf(),
            forall|sample: S| #[trigger] bits.requires((sample,)),
            forall|group: &[S]|
                0 < group@.len() && group@.len() == old(self)@.channels_of(*frame)
                    ==> #[trigger] downmix.requires((group,)),
            forall|state: R, kind: Conversion, input: &[S]| #[trigger]
                resample.requires((state, kind, input)),
            forall|sample: S| #[trigger] quantize.requires((sample,)),
        ensures
            final(self).wf(),
            exists|written: Seq<u8>|
                {
                    &&& #[trigger] kept(
                        old(self)@.recording,
                        final(self)@.recording,
                        *frame,
                        bits,
                        written,
                    )
                    &&& final(out)@ == old(out)@ + written
                },
            match old(self)@.recording_refusal(*frame) {
                Some(text) => {
                    &&& error::outcome(r.1) == Err::<Vec<Pcm16Chunk>, _>(
                        ErrorView::InvalidArgument(text),
                    )
                    &&& r.0 == resampler
                    &&& final(self)@.normalizer == old(self)@.normalizer
                },
                None => spoken(
                    old(self)@,
                    final(self)@.normalizer,
                    *frame,
                    downmix,
                    resample,
                    quantize,
                    resampler,
                    r,
                ),
            },
    {
        let ghost before = self@;
        match self.keep(frame, bits, out) {
            Ok(_) => {},
            Err(error) => return (resampler, Err(error)),
        }
        let mut normalizer = match self.normalizer.take() {
            Some(normalizer) => normalizer,
            None => match SpeechNormalizer::new(frame.format, CHUNK_MILLISECONDS) {
                Ok(normalizer) => normalizer,
                Err(error) => {
                    return (resampler, Err(error));
                },
            },
        };
        let ghost conversion = normalizer@;
        let ghost first = resampler;
        proof {
            normalizer.law_settings_stay_valid();
            assert(before.conversion_of(*frame) == Some(conversion));
        }
        let r = normalizer.push(frame, downmix, resample, quantize, resampler);
        self.normalizer = Some(normalizer);
        proof {
            if conversion.refusal(*frame) is None {
                let run = choose|run: Run<S, R>| #[trigger]
                    normalize::pushed(
                        conversion,
                        normalizer@,
                        frame.samples@,
                        downmix,
                        resample,
                        quantize,
                        first,
                        run,
                        r,
                    );
                assert(normalize::pushed(
                    conversion,
                    self@.normalizer->0,
                    frame.samples@,
                    downmix,
                    resample,
                    quantize,
                    first,
                    run,
                    r,
                ));
            }
        }
        r
    }

    /// Ends the input: returns the last chunks of speech, if there was a packet.
    pub fn finish<R, C, Q>(&mut self, resample: C, quantize: Q, resampler: R) -> (r: (
        R,
        Result<Vec<Pcm16Chunk>, Error>,
    )) where
        C: Fn(R, Conversion, &[S]) -> (R, Result<Vec<S>, String>),
        Q: Fn(S) -> i16,

        requires
            old(self).wf(),
            forall|state: R, kind: Conversion, input: &[S]| #[trigger]
                resample.requires((state, kind, input)),
            forall|sample: S| #[trigger] quantize.requires((sample,)),
        ensures
            final(self).wf(),
            final(self)@.recording == old(self)@.recording,
            match old(self)@.normalizer {
                None => {
                    &&& final(self)@.normalizer is None
                    &&& r.0 == resampler
                    &&& r.1 matches Ok(chunks)
                    &&& chunks@.len() == 0
                },
                Some(normalizer) => {
                    &&& final(self)@.normalizer matches Some(after)
                    &&& if normalizer.finished {
                        &&& after == normalizer
                        &&& r.0 == resampler
                        &&& r.1 matches Ok(chunks)
                        &&& chunks@.len() == 0
                    } else {
                        exists|run: Run<S, R>| #[trigger]
                            normalize::ended(
                                normalizer,
                                after,
                                resample,
                                quantize,
                                resampler,
                                run,
                                r,
                            )
                    }
                },
            },
    {
        match self.normalizer.take() {
            None => (resampler, Ok(Vec::new())),
            Some(normalizer) => {
                let mut normalizer = normalizer;
                let ghost before = normalizer@;
                let ghost first = resampler;
                let r = normalizer.finish(resample, quantize, resampler);
                self.normalizer = Some(normalizer);
                proof {
                    if !before.finished {
                        let run = choose|run: Run<S, R>| #[trigger]
                            normalize::ended(
                                before,
                                normalizer@,
                                resample,
                                quantize,
                                first,
                                run,
                                r,
                            );
                        assert(normalize::ended(
                            before,
                            self@.normalizer->0,
                            resample,
                            quantize,
                            first,
                            run,
                            r,
                        ));
                    }
                }
                r
            },
        }
    }

    /// The recording, where the audio is kept.
    pub fn recording(&self) -> (recording: Option<&WavRecording>)
        ensures
            match recording {
                Some(recording) => {
                    &&& self@.recording == Some(recording@)
                    &&& self.wf() ==> recording.wf()
                },
                None => self@.recording is None,
            },
    {
        match &self.recording {
            Some(recording) => Some(recording),
            None => None,
        }
    }
}

/// A part of the work that runs by itself.
#[derive(Clone, Copy, Debug, Eq, PartialEq, Structural)]
pub enum Task {
    Capture,
    AudioConversion,
    TranscriptWriter,
    FunAsr,
}

/// Reports that a part of the work broke off, and why.
pub fn task_error(task: Task, reason: &str) -> (error: Error)
    ensures
        error@ == match task {
            Task::Capture => ErrorView::Native("capture task failed: "@ + reason@),
            Task::AudioConversion => ErrorView::Native(
                "audio conversion task failed: "@ + reason@,
            ),
            Task::TranscriptWriter => ErrorView::Native(
                "transcript writer task failed: "@ + reason@,
            ),
            Task::FunAsr => ErrorView::Network("FunASR task failed: "@ + reason@),
        },
{
    match task {
        Task::Capture => Error::Native("capture task failed: ".to_owned().concat(reason)),
        Task::AudioConversion => Error::Native(
            "audio conversion task failed: ".to_owned().concat(reason),
        ),
        Task::TranscriptWriter => Error::Native(
            "transcript writer task failed: ".to_owned().concat(reason),
        ),
        Task::FunAsr => Error::Network("FunASR task failed: ".to_owned().concat(reason)),
    }
}

/// Reads how a transcription ended from how its parts did: it sent that many
/// chunks, or failed with what failed first on the way of the audio: the
/// conversion, the session, or the writing of its events.
pub fn transcription_outcome(
    audio: Result<u64, Error>,
    session: Result<(), Error>,
    events: Result<(), Error>,
) -> (r: Result<u64, Error>)
    ensures
        r == if audio is Err {
            audio
        } else if session is Err {
            Err(session->Err_0)
        } else if events is Err {
            Err(events->Err_0)
        } else {
            audio
        },
        r is Ok <==> audio is Ok && session is Ok && events is Ok,
{
    match audio {
        Err(error) => Err(error),
        Ok(sent_chunks) => match session {
            Err(error) => Err(error),
            Ok(_) => match events {
                Err(error) => Err(error),
                Ok(_) => Ok(sent_chunks),
            },
        },
    }
}

/// Keeping the audio changes nothing about the speech that is sent: what becomes
/// of a packet that the recording does not refuse is what becomes of it without
/// a recording.
pub proof fn law_keeping_audio_does_not_change_speech<S, R, D, C, Q>(
    keeping: TranscriberView<S>,
    plain: TranscriberView<S>,
    after: Option<NormalizerView<S>>,
    frame: AudioFrame<S>,
    downmix: D,
    resample: C,
    quantize: Q,
    resampler: R,
    r: (R, Result<Vec<Pcm16Chunk>, Error>),
) where
    D: Fn(&[S]) -> S,
    C: Fn(R, Conversion, &[S]) -> (R, Result<Vec<S>, String>),
    Q: Fn(S) -> i16,

    requires
        keeping.normalizer == plain.normalizer,
        plain.recording is None,
    ensures
        plain.recording_refusal(frame) is None,
        spoken(keeping, after, frame, downmix, resample, quantize, resampler, r) == spoken(
            plain,
            after,
            frame,
            downmix,
            resample,
            quantize,
            resampler,
            r,
        ),
{
}

/// Which conversion a packet goes to: the one that the first packet began, with
/// the format of that packet and in chunks of 960 samples, which are 60
/// milliseconds at 16 kHz. What the conversion refuses is reported and changes
/// nothing.
pub proof fn law_all_packets_go_to_one_conversion<S, R, D, C, Q>(
    before: TranscriberView<S>,
    conversion: NormalizerView<S>,
    after: Option<NormalizerView<S>>,
    frame: AudioFrame<S>,
    downmix: D,
    resample: C,
    quantize: Q,
    resampler: R,
    r: (R, Result<Vec<Pcm16Chunk>, Error>),
) where
    D: Fn(&[S]) -> S,
    C: Fn(R, Conversion, &[S]) -> (R, Result<Vec<S>, String>),
    Q: Fn(S) -> i16,

    requires
        spoken(before, after, frame, downmix, resample, quantize, resampler, r),
        match before.normalizer {
            Some(begun) => conversion == begun,
            None => {
                &&& frame.format.sample_rate != 0
                &&& frame.format.channels != 0
                &&& conversion.format == frame.format
                &&& conversion.pending == Seq::<S>::empty()
                &&& conversion.ready == Seq::<i16>::empty()
                &&& conversion.chunk == 960
                &&& !conversion.started
                &&& !conversion.finished
            },
        },
    ensures
        after is Some,
        conversion.refusal(frame) matches Some(text) ==> {
            &&& after == Some(conversion)
            &&& r.0 == resampler
            &&& r.1 matches Err(error)
            &&& error@ == ErrorView::InvalidArgument(text)
        },
        conversion.refusal(frame) is None ==> exists|run: Run<S, R>| #[trigger]
            normalize::pushed(
                conversion,
                after->0,
                frame.samples@,
                downmix,
                resample,
                quantize,
                resampler,
                run,
                r,
            ),
{
    assert(before.conversion_of(frame) == Some(conversion));
}

/// A first packet without channels or without a rate is refused and begins no
/// conversion.
pub proof fn law_a_conversion_needs_a_format<S, R, D, C, Q>(
    before: TranscriberView<S>,
    after: Option<NormalizerView<S>>,
    frame: AudioFrame<S>,
    downmix: D,
    resample: C,
    quantize: Q,
    resampler: R,
    r: (R, Result<Vec<Pcm16Chunk>, Error>),
) where
    D: Fn(&[S]) -> S,
    C: Fn(R, Conversion, &[S]) -> (R, Result<Vec<S>, String>),
    Q: Fn(S) -> i16,

    requires
        spoken(before, after, frame, downmix, resample, quantize, resampler, r),
        before.normalizer is None,
        frame.format.sample_rate == 0 || frame.format.channels == 0,
    ensures
        after is None,
        r.0 == resampler,
        r.1 matches Err(error) && error@ == ErrorView::InvalidArgument(
            "invalid input audio format"@,
        ),
{
}

/// A packet is written to the recording exactly where the audio is kept, and
/// there as a recording writes it; the recording refuses it or not as it does by
/// itself.
pub proof fn law_audio_is_kept_as_recorded<S, B: Fn(S) -> u32>(
    transcriber: TranscriberView<S>,
    after: Option<RecordingView>,
    frame: AudioFrame<S>,
    bits: B,
    written: Seq<u8>,
)
    requires
        kept(transcriber.recording, after, frame, bits, written),
    ensures
        transcriber.recording is None ==> after is None && written.len() == 0
            && transcriber.recording_refusal(frame) is None,
        transcriber.recording matches Some(recording) ==> {
            &&& transcriber.recording_refusal(frame) == recording.refusal(frame)
            &&& after is Some
            &&& exists|words: Seq<u32>, r: Result<(), Error>| #[trigger]
                recording::recorded(recording, after->0, frame, bits, words, written, r)
        },
{
}

} // verus!
