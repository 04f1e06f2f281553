//! Conversion of captured audio to the PCM that speech recognition takes.

use std::time::Duration;

use vstd::prelude::*;

use crate::capture::{AudioFormat, AudioFrame};
use crate::error;
use crate::error::Error;
use crate::pieces;
use crate::time;
use crate::time::duration;

verus! {

const OUTPUT_RATE: u32 = 16_000;

const RESAMPLER_INPUT_FRAMES: usize = 1_024;

/// The length of the resampler's filter, in input frames.
const RESAMPLER_FILTER_FRAMES: usize = 128;

/// One chunk of mono, 16 kHz, signed 16-bit little-endian PCM.
#[derive(Clone, Debug, Eq, PartialEq)]
pub struct Pcm16Chunk {
    pub bytes: Vec<u8>,
    pub samples: usize,
}

impl Pcm16Chunk {
    /// How long the chunk plays: a second for every 16000 samples.
    pub fn duration(&self) -> (r: Duration)
        ensures
            r == time::duration_of(
                (self.samples / 16_000) as u64,
                (self.samples % 16_000 * 62_500) as u32,
            ),
    {
        duration((self.samples / 16_000) as u64, (self.samples % 16_000) as u32 * 62_500)
    }
}

/// The two's complement of a 16-bit value.
pub open spec fn word16(value: i16) -> int {
    if value < 0 {
        value + 65_536
    } else {
        value as int
    }
}

/// 16-bit values as little-endian bytes.
pub open spec fn pcm16_bytes(values: Seq<i16>) -> Seq<u8> {
    Seq::new(
        2 * values.len(),
        |i: int|
            if i % 2 == 0 {
                (word16(values[i / 2]) % 256) as u8
            } else {
                (word16(values[i / 2]) / 256) as u8
            },
    )
}

/// Packs samples into one chunk.
pub fn pcm_chunk(samples: &[i16]) -> (chunk: Pcm16Chunk)
    ensures
        chunk.bytes@ == pcm16_bytes(samples@),
        chunk.samples == samples@.len(),
{
    let mut bytes: Vec<u8> = Vec::new();
    let count: usize = samples.len();
    for i in 0..count
        invariant
            count == samples@.len(),
            bytes@ == pcm16_bytes(samples@.take(i as int)),
    {
        let value: i16 = samples[i];
        let word: u32 = if value < 0 {
            (value as i32 + 65_536) as u32
        } else {
            value as u32
        };
        let ghost before = bytes@;
        bytes.push((word % 256) as u8);
        bytes.push((word / 256) as u8);
        proof {
            let taken = samples@.take(i as int);
            let longer = samples@.take(i + 1);
            assert forall|k: int| 0 <= k < bytes@.len() implies bytes@[k] == pcm16_bytes(
                longer,
            )[k] by {
                if k < before.len() {
                    assert(bytes@[k] == before[k]);
                    assert(taken[k / 2] == longer[k / 2]);
                }
            }
            assert(bytes@ =~= pcm16_bytes(longer));
        }
    }
    assert(samples@.take(count as int) == samples@);
    Pcm16Chunk { bytes, samples: count }
}

/// What the resampler is asked to convert.
#[derive(Clone, Copy, Debug, Eq, PartialEq, Structural)]
pub enum Conversion {
    /// A full block of samples.
    Block,
    /// The last samples, fewer than a block; none at all where only what the
    /// resampler still holds back is asked for.
    Tail,
}

/// What a normalizer holds, as far as its results depend on it.
#[verifier::ext_equal]
pub struct NormalizerView<S> {
    /// The format of every frame that is accepted.
    pub format: AudioFormat,
    /// Mono samples that are not converted yet.
    pub pending: Seq<S>,
    /// Converted samples that are not delivered yet.
    pub ready: Seq<i16>,
    /// The number of samples in a chunk.
    pub chunk: nat,
    /// Whether there was any sample yet.
    pub started: bool,
    pub finished: bool,
}

impl<S> NormalizerView<S> {
    /// Whether the capture rate differs from the output rate.
    pub open spec fn resampling(self) -> bool {
        self.format.sample_rate != 16_000
    }

    /// Why a frame is refused, if it is.
    pub open spec fn refusal(self, frame: AudioFrame<S>) -> Option<Seq<char>> {
        if self.finished {
            Some("normalizer is already finished"@)
        } else if frame.format != self.format {
            Some("audio format changed during transcription"@)
        } else if frame.samples@.len() % self.format.channels as nat != 0 {
            Some("audio packet is not aligned to its channel count"@)
        } else {
            None
        }
    }

    /// The full blocks that are pending.
    pub open spec fn blocks(self) -> Seq<Seq<S>> {
        pieces::pieces(self.pending, 1_024)
    }

    /// What the resampler is asked for while more frames may come, in order.
    /// Where the rates are equal it is not needed.
    pub open spec fn due(self) -> Seq<(Conversion, Seq<S>)> {
        if self.resampling() {
            self.blocks().map_values(|block: Seq<S>| (Conversion::Block, block))
        } else {
            Seq::empty()
        }
    }

    /// How many input samples the resampler may hold back: the length of its
    /// filter, and those that make one output sample.
    pub open spec fn held_back(self) -> nat {
        128 + self.format.sample_rate as nat / 16_000
    }

    /// What the resampler is asked for at the end, after the full blocks: the
    /// samples that remain and, where a block that begins with those leaves too
    /// little room behind them to get everything out, one more time nothing.
    pub open spec fn tails(self) -> Seq<(Conversion, Seq<S>)> {
        let rest = pieces::remainder(self.pending, 1_024);
        if !self.resampling() || !self.started {
            Seq::empty()
        } else if rest.len() == 0 {
            seq![(Conversion::Tail, Seq::empty())]
        } else if rest.len() + self.held_back() > 1_024 {
            seq![(Conversion::Tail, rest), (Conversion::Tail, Seq::empty())]
        } else {
            seq![(Conversion::Tail, rest)]
        }
    }

    /// What the resampler is asked for, now or at the end of the input.
    pub open spec fn requests(self, last: bool) -> Seq<(Conversion, Seq<S>)> {
        if last {
            self.due() + self.tails()
        } else {
            self.due()
        }
    }

    /// How many pending samples are converted once the first `count` requests
    /// are answered. Where the rates are equal, all of them are at once.
    pub open spec fn taken(self, count: nat) -> int {
        if self.resampling() && count <= self.blocks().len() {
            1_024 * count as int
        } else {
            self.pending.len() as int
        }
    }

    /// The samples at the output rate that these answers give. Where the rates
    /// are equal, those are the pending ones.
    pub open spec fn at_output_rate(self, answers: Seq<Vec<S>>) -> Seq<S> {
        if self.resampling() {
            samples_of(answers)
        } else {
            self.pending
        }
    }

    /// With `mono` behind what is pending.
    pub open spec fn with_mono(self, mono: Seq<S>) -> Self {
        NormalizerView {
            pending: self.pending + mono,
            started: self.started || mono.len() > 0,
            ..self
        }
    }

    /// With the first `consumed` pending samples converted to `samples`.
    pub open spec fn with_converted(self, consumed: int, samples: Seq<i16>) -> Self {
        NormalizerView {
            pending: self.pending.skip(consumed),
            ready: self.ready + samples,
            ..self
        }
    }

    /// Without the complete chunks that were ready.
    pub open spec fn without_chunks(self) -> Self {
        NormalizerView { ready: pieces::remainder(self.ready, self.chunk), ..self }
    }
}

/// Stateful conversion from captured frames to PCM for speech recognition.
///
/// The arithmetic on samples is the caller's: `push` and `finish` take it as
/// functions. What is kept here is which samples are averaged together, what is
/// handed to the resampler when and how often, and how the results are cut into
/// chunks. The resampler's own state goes into each call that is made of it and
/// comes back out of it.
pub struct SpeechNormalizer<S> {
    input_format: AudioFormat,
    mono_input: Vec<S>,
    mono_offset: usize,
    output: Vec<i16>,
    output_offset: usize,
    output_chunk_samples: usize,
    started: bool,
    finished: bool,
}

impl<S> View for SpeechNormalizer<S> {
    type V = NormalizerView<S>;

    closed spec fn view(&self) -> NormalizerView<S> {
        NormalizerView {
            format: self.input_format,
            pending: self.mono_input@.skip(self.mono_offset as int),
            ready: self.output@.skip(self.output_offset as int),
            chunk: self.output_chunk_samples as nat,
            started: self.started,
            finished: self.finished,
        }
    }
}

impl<S> SpeechNormalizer<S> {
    /// What every normalizer satisfies.
    pub closed spec fn wf(&self) -> bool {
        &&& self.input_format.sample_rate != 0
        &&& self.input_format.channels != 0
        &&& self.output_chunk_samples > 0
        &&& self.mono_offset <= self.mono_input@.len()
        &&& self.output_offset <= self.output@.len()
        &&& self.mono_offset < self.mono_input@.len() ==> self.started
    }

    /// Every normalizer has a format that can be captured, and delivers chunks
    /// that hold something; pending samples have come.
    pub proof fn law_settings_stay_valid(&self)
        requires
            self.wf(),
        ensures
            self@.format.sample_rate != 0,
            self@.format.channels != 0,
            self@.chunk > 0,
            self@.pending.len() > 0 ==> self@.started,
    {
    }

    /// Creates a converter. `chunk_duration_ms` normally uses 60 ms for
    /// low-latency delivery.
    pub fn new(input_format: AudioFormat, chunk_duration_ms: u32) -> (r: Result<Self, Error>)
        requires
            16 * chunk_duration_ms <= usize::MAX,
        ensures
            match r {
                Ok(normalizer) => {
                    &&& input_format.sample_rate != 0
                    &&& input_format.channels != 0
                    &&& chunk_duration_ms != 0
                    &&& normalizer.wf()
                    &&& normalizer@ == NormalizerView::<S> {
                        format: input_format,
                        pending: Seq::empty(),
                        ready: Seq::empty(),
                        chunk: 16 * chunk_duration_ms as nat,
                        started: false,
                        finished: false,
                    }
                },
                Err(error) => if input_format.sample_rate == 0 || input_format.channels == 0 {
                    error@ == error::ErrorView::InvalidArgument("invalid input audio format"@)
                } else {
                    &&& chunk_duration_ms == 0
                    &&& error@ == error::ErrorView::InvalidArgument(
                        "chunk duration must be non-zero"@,
                    )
                },
            },
    {
        if input_format.sample_rate == 0 || input_format.channels == 0 {
            return Err(Error::InvalidArgument("invalid input audio format"));
        }
        if chunk_duration_ms == 0 {
            return Err(Error::InvalidArgument("chunk duration must be non-zero"));
        }
        assert(OUTPUT_RATE as int * chunk_duration_ms as int == 16_000 * chunk_duration_ms as int)
            by (nonlinear_arith)
            requires
                OUTPUT_RATE == 16_000,
        ;
        let output_chunk_samples: usize = (OUTPUT_RATE as u64 * chunk_duration_ms as u64
            / 1_000) as usize;
        let normalizer = SpeechNormalizer {
            input_format,
            mono_input: Vec::new(),
            mono_offset: 0,
            output: Vec::new(),
            output_offset: 0,
            output_chunk_samples,
            started: false,
            finished: false,
        };
        assert(normalizer@.pending =~= Seq::empty());
        assert(normalizer@.ready =~= Seq::empty());
        Ok(normalizer)
    }

    /// The format of the converted audio.
    pub fn output_format() -> (format: AudioFormat)
        ensures
            format == (AudioFormat { sample_rate: 16_000, channels: 1 }),
    {
        AudioFormat { sample_rate: OUTPUT_RATE, channels: 1 }
    }
}

/// How the functions that were handed in answered in one call.
#[verifier::ext_equal]
pub struct Run<S, R> {
    /// The averages of the groups of samples, in order.
    pub mono: Seq<S>,
    /// The resampler's states: before its first answer and after each.
    pub states: Seq<R>,
    /// The resampler's answers, in order.
    pub answers: Seq<Vec<S>>,
    /// The 16-bit values of the samples at the output rate, in order.
    pub values: Seq<i16>,
}

/// Whether the resampler, in this state, may answer a request with `outcome` and
/// go to the state `next`.
pub open spec fn may_resample<S, R, C>(
    resample: C,
    state: R,
    request: (Conversion, Seq<S>),
    next: R,
    outcome: Result<Vec<S>, String>,
) -> bool where C: Fn(R, Conversion, &[S]) -> (R, Result<Vec<S>, String>) {
    exists|input: &[S]|
        input@ == request.1 && #[trigger] resample.ensures(
            (state, request.0, input),
            (next, outcome),
        )
}

/// Whether the first requests may have been answered like this: each once and in
/// order, and each in the state that the one before it left.
pub open spec fn may_answer<S, R, C>(
    resample: C,
    requests: Seq<(Conversion, Seq<S>)>,
    states: Seq<R>,
    answers: Seq<Vec<S>>,
) -> bool where C: Fn(R, Conversion, &[S]) -> (R, Result<Vec<S>, String>) {
    &&& answers.len() <= requests.len()
    &&& states.len() == answers.len() + 1
    &&& forall|i: int|
        0 <= i < answers.len() ==> may_resample(
            resample,
            states[i],
            requests[i],
            states[i + 1],
            Ok(#[trigger] answers[i]),
        )
}

/// Whether all requests were answered, and the resampler is left in the state
/// after the last, or the next one failed with an error that reports why.
pub open spec fn concluded<S, R, C>(
    resample: C,
    requests: Seq<(Conversion, Seq<S>)>,
    run: Run<S, R>,
    resampler: R,
    error: Option<Error>,
) -> bool where C: Fn(R, Conversion, &[S]) -> (R, Result<Vec<S>, String>) {
    match error {
        None => run.answers.len() == requests.len() && resampler == run.states.last(),
        Some(error) => {
            &&& run.answers.len() < requests.len()
            &&& may_fail(
                resample,
                run.states.last(),
                requests[run.answers.len() as int],
                resampler,
                error,
            )
        },
    }
}

/// Whether the resampler, in this state, may fail at a request for a reason that
/// an error reports, and go to the state `next`.
pub open spec fn may_fail<S, R, C>(
    resample: C,
    state: R,
    request: (Conversion, Seq<S>),
    next: R,
    error: Error,
) -> bool where C: Fn(R, Conversion, &[S]) -> (R, Result<Vec<S>, String>) {
    exists|message: String| #[trigger]
        may_resample(resample, state, request, next, Err(message)) && error@
            == error::ErrorView::AudioConversion(message@)
}

/// All the samples of some answers, in order.
pub open spec fn samples_of<S>(answers: Seq<Vec<S>>) -> Seq<S>
    decreases answers.len(),
{
    if answers.len() == 0 {
        Seq::empty()
    } else {
        samples_of(answers.drop_last()) + answers.last()@
    }
}

/// Whether `quantize` may have given these values for these samples.
pub open spec fn may_quantize<S, Q: Fn(S) -> i16>(
    quantize: Q,
    samples: Seq<S>,
    values: Seq<i16>,
) -> bool {
    &&& values.len() == samples.len()
    &&& forall|i: int|
        0 <= i < values.len() ==> quantize.ensures((samples[i],), #[trigger] values[i])
}

/// Whether `downmix` may have averaged interleaved samples to `mono`: each
/// group of one sample per channel gives one mono sample.
pub open spec fn may_downmix<S, D: Fn(&[S]) -> S>(
    downmix: D,
    samples: Seq<S>,
    channels: nat,
    mono: Seq<S>,
) -> bool {
    let groups = pieces::pieces(samples, channels);
    &&& mono.len() == groups.len()
    &&& forall|i: int|
        0 <= i < mono.len() ==> may_average(downmix, groups[i], #[trigger] mono[i])
}

/// Whether `downmix` may answer `average` for this group of samples.
pub open spec fn may_average<S, D: Fn(&[S]) -> S>(downmix: D, group: Seq<S>, average: S) -> bool {
    exists|input: &[S]| input@ == group && #[trigger] downmix.ensures((input,), average)
}

/// The normalizer after the conversions that a run made.
pub open spec fn after_run<S, R>(before: NormalizerView<S>, run: Run<S, R>) -> NormalizerView<S> {
    before.with_converted(before.taken(run.answers.len()), run.values)
}

/// Whether a run may have made the first of the conversions that are asked for,
/// now or at the end, starting with the resampler in state `first`.
pub open spec fn ran<S, R, C, Q>(
    before: NormalizerView<S>,
    last: bool,
    resample: C,
    quantize: Q,
    first: R,
    run: Run<S, R>,
) -> bool where
    C: Fn(R, Conversion, &[S]) -> (R, Result<Vec<S>, String>),
    Q: Fn(S) -> i16,
 {
    &&& may_answer(resample, before.requests(last), run.states, run.answers)
    &&& run.states[0] == first
    &&& may_quantize(quantize, before.at_output_rate(run.answers), run.values)
}

/// Whether a run may have made the conversions that are asked for, and left the
/// resampler in state `resampler`: all of them, or those before the one that
/// failed.
pub open spec fn converted<S, R, C, Q>(
    before: NormalizerView<S>,
    last: bool,
    resample: C,
    quantize: Q,
    first: R,
    run: Run<S, R>,
    resampler: R,
    error: Option<Error>,
) -> bool where
    C: Fn(R, Conversion, &[S]) -> (R, Result<Vec<S>, String>),
    Q: Fn(S) -> i16,
 {
    &&& ran(before, last, resample, quantize, first, run)
    &&& concluded(resample, before.requests(last), run, resampler, error)
}

/// What a frame whose samples could be converted did to a normalizer and to the
/// resampler, and which chunks it gave.
pub open spec fn delivered<S, R, D, C, Q>(
    before: NormalizerView<S>,
    after: NormalizerView<S>,
    samples: Seq<S>,
    downmix: D,
    resample: C,
    quantize: Q,
    first: R,
    run: Run<S, R>,
    resampler: R,
    chunks: Seq<Pcm16Chunk>,
) -> bool where
    D: Fn(&[S]) -> S,
    C: Fn(R, Conversion, &[S]) -> (R, Result<Vec<S>, String>),
    Q: Fn(S) -> i16,
 {
    let loaded = before.with_mono(run.mono);
    let done = after_run(loaded, run);
    &&& may_downmix(downmix, samples, before.format.channels as nat, run.mono)
    &&& converted(loaded, false, resample, quantize, first, run, resampler, None)
    &&& are_chunks(chunks, chunk_bytes(done.ready, before.chunk), before.chunk)
    &&& after == done.without_chunks()
}

/// What an accepted frame did to a normalizer and to the resampler, and what it
/// gave.
pub open spec fn pushed<S, R, D, C, Q>(
    before: NormalizerView<S>,
    after: NormalizerView<S>,
    samples: Seq<S>,
    downmix: D,
    resample: C,
    quantize: Q,
    first: R,
    run: Run<S, R>,
    r: (R, Result<Vec<Pcm16Chunk>, Error>),
) -> bool where
    D: Fn(&[S]) -> S,
    C: Fn(R, Conversion, &[S]) -> (R, Result<Vec<S>, String>),
    Q: Fn(S) -> i16,
 {
    match r.1 {
        Ok(chunks) => delivered(
            before,
            after,
            samples,
            downmix,
            resample,
            quantize,
            first,
            run,
            r.0,
            chunks@,
        ),
        Err(error) => {
            let loaded = before.with_mono(run.mono);
            &&& may_downmix(downmix, samples, before.format.channels as nat, run.mono)
            &&& converted(loaded, false, resample, quantize, first, run, r.0, Some(error))
            &&& after == after_run(loaded, run)
        },
    }
}

/// What the end of the input did to a normalizer that was not finished and to
/// the resampler, and what it gave.
pub open spec fn ended<S, R, C, Q>(
    before: NormalizerView<S>,
    after: NormalizerView<S>,
    resample: C,
    quantize: Q,
    first: R,
    run: Run<S, R>,
    r: (R, Result<Vec<Pcm16Chunk>, Error>),
) -> bool where
    C: Fn(R, Conversion, &[S]) -> (R, Result<Vec<S>, String>),
    Q: Fn(S) -> i16,
 {
    let done = after_run(before, run);
    match r.1 {
        Ok(chunks) => {
            &&& converted(before, true, resample, quantize, first, run, r.0, None)
            &&& are_chunks(chunks@, final_chunk_bytes(done.ready, before.chunk), before.chunk)
            &&& after == NormalizerView::<S> {
                pending: Seq::empty(),
                ready: Seq::empty(),
                finished: true,
                ..before
            }
        },
        Err(error) => {
            &&& converted(before, true, resample, quantize, first, run, r.0, Some(error))
            &&& after == NormalizerView::<S> { finished: true, ..done }
        },
    }
}

/// The error of a result, if it is one.
pub open spec fn error_of<T>(r: Result<T, Error>) -> Option<Error> {
    match r {
        Ok(_) => None,
        Err(error) => Some(error),
    }
}

/// What flushing the resampler, with less than a block pending, did.
spec fn flushed<S, R, C, Q>(
    before: NormalizerView<S>,
    resample: C,
    quantize: Q,
    first: R,
    run: Run<S, R>,
    resampler: R,
    error: Option<Error>,
) -> bool where
    C: Fn(R, Conversion, &[S]) -> (R, Result<Vec<S>, String>),
    Q: Fn(S) -> i16,
 {
    &&& may_answer(resample, before.tails(), run.states, run.answers)
    &&& run.states[0] == first
    &&& may_quantize(quantize, samples_of(run.answers), run.values)
    &&& concluded(resample, before.tails(), run, resampler, error)
}

/// The normalizer after the answers of a flush: the first takes what is pending.
spec fn flushed_view<S, R>(before: NormalizerView<S>, run: Run<S, R>) -> NormalizerView<S> {
    before.with_converted(
        if run.answers.len() == 0 {
            0
        } else {
            before.pending.len() as int
        },
        run.values,
    )
}

/// Two runs, the second of which goes on where the first ended.
pub open spec fn joined<S, R>(one: Run<S, R>, two: Run<S, R>) -> Run<S, R> {
    Run {
        mono: one.mono + two.mono,
        states: one.states.drop_last() + two.states,
        answers: one.answers + two.answers,
        values: one.values + two.values,
    }
}

/// The samples of some answers and then others are those of all of them.
pub proof fn lemma_samples_of_concatenates<S>(a: Seq<Vec<S>>, b: Seq<Vec<S>>)
    ensures
        samples_of(a + b) == samples_of(a) + samples_of(b),
    decreases b.len(),
{
    if b.len() == 0 {
        assert(a + b =~= a);
        assert(samples_of(a) + samples_of(b) =~= samples_of(a));
    } else {
        lemma_samples_of_concatenates(a, b.drop_last());
        assert((a + b).drop_last() =~= a + b.drop_last());
        assert(samples_of(a + b) =~= samples_of(a) + samples_of(b));
    }
}

/// Answers to some requests and then, from the state they left, to others are
/// answers to all of them.
pub proof fn lemma_answers_join<S, R, C>(
    resample: C,
    requests: Seq<(Conversion, Seq<S>)>,
    more: Seq<(Conversion, Seq<S>)>,
    one: Run<S, R>,
    two: Run<S, R>,
) where C: Fn(R, Conversion, &[S]) -> (R, Result<Vec<S>, String>)
    requires
        may_answer(resample, requests, one.states, one.answers),
        one.answers.len() == requests.len(),
        may_answer(resample, more, two.states, two.answers),
        two.states[0] == one.states.last(),
    ensures
        may_answer(
            resample,
            requests + more,
            joined(one, two).states,
            joined(one, two).answers,
        ),
        joined(one, two).states[0] == one.states[0],
        joined(one, two).states.last() == two.states.last(),
{
    let both = joined(one, two);
    let n = one.answers.len() as int;
    let all = requests + more;
    assert forall|i: int| 0 <= i < both.answers.len() implies may_resample(
        resample,
        both.states[i],
        all[i],
        both.states[i + 1],
        Ok(#[trigger] both.answers[i]),
    ) by {
        if i < n {
            assert(both.answers[i] == one.answers[i]);
            assert(both.states[i] == one.states[i]);
            assert(both.states[i + 1] == one.states[i + 1]);
        } else {
            assert(both.answers[i] == two.answers[i - n]);
            assert(both.states[i] == two.states[i - n]);
            assert(both.states[i + 1] == two.states[i + 1 - n]);
        }
    }
}

proof fn lemma_blocks_come_first<S, R, C, Q>(
    before: NormalizerView<S>,
    started: NormalizerView<S>,
    resample: C,
    quantize: Q,
    first: R,
    run: Run<S, R>,
) where C: Fn(R, Conversion, &[S]) -> (R, Result<Vec<S>, String>), Q: Fn(S) -> i16
    requires
        started == (NormalizerView::<S> { finished: true, ..before }),
        ran(started, false, resample, quantize, first, run),
    ensures
        ran(before, true, resample, quantize, first, run),
{
    assert forall|i: int| 0 <= i < run.answers.len() implies may_resample(
        resample,
        run.states[i],
        before.requests(true)[i],
        run.states[i + 1],
        Ok(#[trigger] run.answers[i]),
    ) by {
        assert(before.requests(true)[i] == started.requests(false)[i]);
    }
}

proof fn lemma_flush_follows_blocks<S, R, C, Q>(
    before: NormalizerView<S>,
    middle: NormalizerView<S>,
    resample: C,
    quantize: Q,
    first: R,
    state: R,
    blocks: Run<S, R>,
    tails: Run<S, R>,
    ending: R,
    error: Option<Error>,
) where C: Fn(R, Conversion, &[S]) -> (R, Result<Vec<S>, String>), Q: Fn(S) -> i16
    requires
        before.pending.len() > 0 ==> before.started,
        converted(
            NormalizerView::<S> { finished: true, ..before },
            false,
            resample,
            quantize,
            first,
            blocks,
            state,
            None,
        ),
        middle == after_run(NormalizerView::<S> { finished: true, ..before }, blocks),
        flushed(middle, resample, quantize, state, tails, ending, error),
    ensures
        converted(before, true, resample, quantize, first, joined(blocks, tails), ending, error),
        flushed_view(middle, tails) == (NormalizerView::<S> {
            finished: true,
            ..after_run(before, joined(blocks, tails))
        }),
        error is None ==> flushed_view(middle, tails).pending.len() == 0,
{
    let run = joined(blocks, tails);
    let n = blocks.answers.len();
    pieces::law_cutting_conserves(before.pending, 1_024);
    pieces::lemma_remainder_follows_pieces(before.pending, 1_024);
    if before.resampling() {
        let rest = pieces::remainder(before.pending, 1_024);
        assert(middle.pending == rest);
        assert(pieces::remainder(rest, 1_024) == rest);
        assert(middle.tails() == before.tails());
    } else {
        assert(middle.tails() =~= Seq::empty());
        assert(before.tails() =~= Seq::empty());
    }
    lemma_answers_join(resample, before.due(), before.tails(), blocks, tails);
    assert(before.requests(true) == before.due() + before.tails());
    if before.resampling() {
        lemma_samples_of_concatenates(blocks.answers, tails.answers);
        lemma_quantize_concatenates(
            quantize,
            samples_of(blocks.answers),
            samples_of(tails.answers),
            blocks.values,
            tails.values,
        );
    } else {
        assert(tails.answers.len() == 0);
        assert(samples_of(tails.answers) == Seq::<S>::empty());
        assert(tails.values =~= Seq::empty());
        assert(run.values =~= blocks.values);
    }
    assert(ran(before, true, resample, quantize, first, run));
    if error is Some {
        assert(before.requests(true)[run.answers.len() as int]
            == before.tails()[tails.answers.len() as int]);
    }
    let after = after_run(before, run);
    let view = flushed_view(middle, tails);
    assert(view.ready =~= after.ready);
    if tails.answers.len() == 0 {
        assert(run.answers.len() == n);
        assert(view.pending =~= after.pending);
    } else {
        assert(before.resampling());
        assert(n == before.blocks().len());
        assert(view.pending =~= after.pending);
    }
    if error is None && before.resampling() && before.started {
        assert(before.tails().len() > 0);
    }
}

/// A run with one more answer.
spec fn extended<S, R>(run: Run<S, R>, next: R, answer: Vec<S>, values: Seq<i16>) -> Run<S, R> {
    Run {
        mono: run.mono,
        states: run.states.push(next),
        answers: run.answers.push(answer),
        values: run.values + values,
    }
}

proof fn lemma_run_extends<S, R, C, Q>(
    before: NormalizerView<S>,
    last: bool,
    resample: C,
    quantize: Q,
    first: R,
    run: Run<S, R>,
    next: R,
    answer: Vec<S>,
    values: Seq<i16>,
) where C: Fn(R, Conversion, &[S]) -> (R, Result<Vec<S>, String>), Q: Fn(S) -> i16
    requires
        before.resampling(),
        ran(before, last, resample, quantize, first, run),
        run.answers.len() < before.requests(last).len(),
        may_resample(
            resample,
            run.states.last(),
            before.requests(last)[run.answers.len() as int],
            next,
            Ok(answer),
        ),
        may_quantize(quantize, answer@, values),
    ensures
        ran(before, last, resample, quantize, first, extended(run, next, answer, values)),
        extended(run, next, answer, values).states.last() == next,
{
    let longer = extended(run, next, answer, values);
    let requests = before.requests(last);
    assert(longer.answers.drop_last() =~= run.answers);
    assert forall|i: int| 0 <= i < longer.answers.len() implies may_resample(
        resample,
        longer.states[i],
        requests[i],
        longer.states[i + 1],
        Ok(#[trigger] longer.answers[i]),
    ) by {
        if i < run.answers.len() {
            assert(longer.answers[i] == run.answers[i]);
        }
    }
    let samples = samples_of(run.answers) + answer@;
    assert(samples_of(longer.answers) == samples);
    lemma_quantize_concatenates(quantize, samples_of(run.answers), answer@, run.values, values);
}

/// The values of some samples and then others are those of all of them.
pub proof fn lemma_quantize_concatenates<S, Q: Fn(S) -> i16>(
    quantize: Q,
    a: Seq<S>,
    b: Seq<S>,
    x: Seq<i16>,
    y: Seq<i16>,
)
    requires
        may_quantize(quantize, a, x),
        may_quantize(quantize, b, y),
    ensures
        may_quantize(quantize, a + b, x + y),
{
    assert forall|i: int| 0 <= i < (x + y).len() implies quantize.ensures(
        ((a + b)[i],),
        #[trigger] (x + y)[i],
    ) by {
        if i < x.len() {
            assert((x + y)[i] == x[i]);
        } else {
            assert((x + y)[i] == y[i - x.len()]);
        }
    }
}

/// What an answer of the resampler to the first `consumed` pending samples did.
spec fn asked<S, R, C, Q>(
    before: NormalizerView<S>,
    after: NormalizerView<S>,
    kind: Conversion,
    consumed: int,
    resample: C,
    quantize: Q,
    state: R,
    next: R,
    answer: Vec<S>,
    values: Seq<i16>,
) -> bool where
    C: Fn(R, Conversion, &[S]) -> (R, Result<Vec<S>, String>),
    Q: Fn(S) -> i16,
 {
    &&& may_resample(resample, state, (kind, before.pending.take(consumed)), next, Ok(answer))
    &&& may_quantize(quantize, answer@, values)
    &&& after == before.with_converted(consumed, values)
}

/// The chunks that carry the last `ready` samples: the complete ones and, where
/// samples remain, one that is filled up with zeros.
pub open spec fn final_chunk_bytes(ready: Seq<i16>, chunk: nat) -> Seq<Seq<u8>> {
    let tail = pieces::remainder(ready, chunk);
    if tail.len() == 0 {
        chunk_bytes(ready, chunk)
    } else {
        chunk_bytes(ready, chunk).push(pcm16_bytes(filled_up(tail, chunk)))
    }
}

/// Samples followed by as many zeros as `chunk` samples need.
pub open spec fn filled_up(tail: Seq<i16>, chunk: nat) -> Seq<i16> {
    tail + Seq::new((chunk - tail.len()) as nat, |i: int| 0i16)
}

/// The chunks that `ready` samples fill.
pub open spec fn chunk_bytes(ready: Seq<i16>, chunk: nat) -> Seq<Seq<u8>> {
    pieces::pieces(ready, chunk).map_values(|samples: Seq<i16>| pcm16_bytes(samples))
}

/// Whether each of `chunks` has these bytes and counts `samples` samples.
pub open spec fn are_chunks(chunks: Seq<Pcm16Chunk>, bytes: Seq<Seq<u8>>, samples: nat) -> bool {
    &&& chunks.len() == bytes.len()
    &&& forall|i: int|
        0 <= i < chunks.len() ==> (#[trigger] chunks[i]).bytes@ == bytes[i] && chunks[i].samples
            == samples
}

/// A buffer whose first `offset` elements were consumed, and how many of those it
/// still holds, once they are dropped where they are at least `limit`.
spec fn compacted<T>(buffer: Seq<T>, offset: usize, limit: int) -> (Seq<T>, usize) {
    if offset >= limit {
        (buffer.skip(offset as int), 0)
    } else {
        (buffer, offset)
    }
}

impl<S: Copy> SpeechNormalizer<S> {
    /// Drops what was consumed once that is much: four blocks of mono samples, or
    /// four chunks of converted ones.
    fn compact_buffers(&mut self)
        requires
            old(self).wf(),
        ensures
            final(self).wf(),
            final(self)@ == old(self)@,
            final(self).input_format == old(self).input_format,
            final(self).output_chunk_samples == old(self).output_chunk_samples,
            final(self).started == old(self).started,
            final(self).finished == old(self).finished,
            (final(self).mono_input@, final(self).mono_offset) == compacted(
                old(self).mono_input@,
                old(self).mono_offset,
                4_096,
            ),
            (final(self).output@, final(self).output_offset) == compacted(
                old(self).output@,
                old(self).output_offset,
                4 * old(self).output_chunk_samples as int,
            ),
    {
        if self.mono_offset >= RESAMPLER_INPUT_FRAMES * 4 {
            let kept = self.mono_input.split_off(self.mono_offset);
            self.mono_input = kept;
            self.mono_offset = 0;
        }
        if self.output_offset / 4 >= self.output_chunk_samples {
            let kept = self.output.split_off(self.output_offset);
            self.output = kept;
            self.output_offset = 0;
        }
        assert(self@.pending =~= old(self)@.pending);
        assert(self@.ready =~= old(self)@.ready);
    }

    /// Takes in the samples at the output rate that the first `consumed` pending
    /// samples were converted to.
    fn accept_converted<Q: Fn(S) -> i16>(
        &mut self,
        consumed: usize,
        samples: &[S],
        quantize: &Q,
    ) -> (values: Ghost<Seq<i16>>)
        requires
            old(self).wf(),
            consumed <= old(self)@.pending.len(),
            forall|sample: S| #[trigger] quantize.requires((sample,)),
        ensures
            final(self).wf(),
            may_quantize(*quantize, samples@, values@),
            final(self)@ == old(self)@.with_converted(consumed as int, values@),
    {
        let ghost before = self.output@;
        let ghost mut values: Seq<i16> = Seq::empty();
        let count: usize = samples.len();
        assert(self.output@ =~= before + values);
        for i in 0..count
            invariant
                count == samples@.len(),
                self.wf(),
                self.input_format == old(self).input_format,
                self.mono_input == old(self).mono_input,
                self.mono_offset == old(self).mono_offset,
                self.output_offset == old(self).output_offset,
                self.output_chunk_samples == old(self).output_chunk_samples,
                self.started == old(self).started,
                self.finished == old(self).finished,
                before == old(self).output@,
                forall|sample: S| #[trigger] quantize.requires((sample,)),
                values.len() == i,
                forall|k: int|
                    0 <= k < i ==> quantize.ensures((samples@[k],), #[trigger] values[k]),
                self.output@ == before + values,
        {
            let value: i16 = quantize(samples[i]);
            self.output.push(value);
            proof {
                assert(before + values.push(value) =~= (before + values).push(value));
                values = values.push(value);
            }
        }
        assert(self.mono_offset + consumed <= self.mono_input.len());
        self.mono_offset = self.mono_offset + consumed;
        assert(self@.pending =~= old(self)@.pending.skip(consumed as int));
        assert(self@.ready =~= old(self)@.ready + values);
        Ghost(values)
    }

    /// Asks the resampler to convert the first `consumed` pending samples, and
    /// takes its answer in.
    fn ask<R, C, Q>(
        &mut self,
        kind: Conversion,
        consumed: usize,
        resample: &C,
        quantize: &Q,
        resampler: R,
    ) -> (r: (R, Result<(), Error>)) where
        C: Fn(R, Conversion, &[S]) -> (R, Result<Vec<S>, String>),
        Q: Fn(S) -> i16,

        requires
            old(self).wf(),
            consumed <= old(self)@.pending.len(),
            forall|state: R, kind: Conversion, input: &[S]| #[trigger]
                resample.requires((state, kind, input)),
            forall|sample: S| #[trigger] quantize.requires((sample,)),
        ensures
            final(self).wf(),
            match r.1 {
                Ok(_) => exists|answer: Vec<S>, values: Seq<i16>| #[trigger]
                    asked(
                        old(self)@,
                        final(self)@,
                        kind,
                        consumed as int,
                        *resample,
                        *quantize,
                        resampler,
                        r.0,
                        answer,
                        values,
                    ),
                Err(error) => {
                    &&& final(self)@ == old(self)@
                    &&& may_fail(
                        *resample,
                        resampler,
                        (kind, old(self)@.pending.take(consumed as int)),
                        r.0,
                        error,
                    )
                },
            },
    {
        assert(consumed <= self.mono_input@.len() - self.mono_offset);
        assert(self.mono_offset + consumed <= self.mono_input.len());
        let end: usize = self.mono_offset + consumed;
        let input = vstd::slice::slice_subrange(self.mono_input.as_slice(), self.mono_offset, end);
        let ghost before = self@;
        let ghost request = (kind, before.pending.take(consumed as int));
        assert(input@ =~= request.1);
        let (next, answer) = resample(resampler, kind, input);
        assert(resample.ensures((resampler, request.0, input), (next, answer)));
        match answer {
            Ok(samples) => {
                assert(may_resample(*resample, resampler, request, next, Ok(samples)));
                let Ghost(values) = self.accept_converted(consumed, samples.as_slice(), quantize);
                let r = (next, Ok(()));
                assert(asked(
                    before,
                    self@,
                    kind,
                    consumed as int,
                    *resample,
                    *quantize,
                    resampler,
                    r.0,
                    samples,
                    values,
                ));
                r
            },
            Err(message) => {
                assert(may_resample(*resample, resampler, request, next, Err(message)));
                (next, Err(Error::AudioConversion(message)))
            },
        }
    }

    /// Converts the full blocks that are pending, or everything where the rates
    /// are equal.
    fn process_complete_resampler_chunks<R, C, Q>(
        &mut self,
        resample: &C,
        quantize: &Q,
        resampler: R,
    ) -> (r: (R, Result<(), Error>)) where
        C: Fn(R, Conversion, &[S]) -> (R, Result<Vec<S>, String>),
        Q: Fn(S) -> i16,

        requires
            old(self).wf(),
            forall|state: R, kind: Conversion, input: &[S]| #[trigger]
                resample.requires((state, kind, input)),
            forall|sample: S| #[trigger] quantize.requires((sample,)),
        ensures
            final(self).wf(),
            exists|run: Run<S, R>|
                {
                    &&& #[trigger] converted(
                        old(self)@,
                        false,
                        *resample,
                        *quantize,
                        resampler,
                        run,
                        r.0,
                        error_of(r.1),
                    )
                    &&& final(self)@ == after_run(old(self)@, run)
                },
    {
        let ghost before = self@;
        let ghost first = resampler;
        let ghost mut run: Run<S, R> = Run {
            mono: Seq::empty(),
            states: seq![first],
            answers: Seq::empty(),
            values: Seq::empty(),
        };
        if self.input_format.sample_rate == OUTPUT_RATE {
            let len: usize = self.mono_input.len();
            let mut copied: Vec<S> = Vec::new();
            for i in self.mono_offset..len
                invariant
                    self@ == before,
                    self.wf(),
                    len == self.mono_input@.len(),
                    self.mono_offset <= i,
                    before.pending == self.mono_input@.skip(self.mono_offset as int),
                    copied@ == before.pending.take(i - self.mono_offset),
            {
                copied.push(self.mono_input[i]);
                assert(copied@ =~= before.pending.take(i + 1 - self.mono_offset));
            }
            assert(copied@ =~= before.pending);
            let count: usize = len - self.mono_offset;
            let Ghost(values) = self.accept_converted(count, copied.as_slice(), quantize);
            self.compact_buffers();
            let r: (R, Result<(), Error>) = (resampler, Ok(()));
            proof {
                run = Run { values, ..run };
                assert(self@ =~= after_run(before, run));
                assert(converted(
                    before,
                    false,
                    *resample,
                    *quantize,
                    first,
                    run,
                    r.0,
                    error_of(r.1),
                ));
            }
            return r;
        }
        let mut state = resampler;
        assert(before.pending.skip(0) =~= before.pending);
        assert(before.ready + run.values =~= before.ready);
        assert(before.blocks().skip(0) =~= before.blocks());
        while self.mono_input.len() - self.mono_offset >= RESAMPLER_INPUT_FRAMES
            invariant
                self.wf(),
                forall|state: R, kind: Conversion, input: &[S]| #[trigger]
                    resample.requires((state, kind, input)),
                forall|sample: S| #[trigger] quantize.requires((sample,)),
                before == old(self)@,
                first == resampler,
                before.resampling(),
                ran(before, false, *resample, *quantize, first, run),
                run.states.last() == state,
                self@ == before.with_converted(1_024 * run.answers.len() as int, run.values),
                pieces::pieces(self@.pending, 1_024) == before.blocks().skip(
                    run.answers.len() as int,
                ),
                1_024 * run.answers.len() <= before.pending.len(),
                run.answers.len() <= before.blocks().len(),
            decreases self@.pending.len(),
        {
            let ghost pending = self@.pending;
            let ghost current = self@;
            let ghost done = run.answers.len() as int;
            let ghost earlier = state;
            proof {
                assert(pieces::pieces(pending, 1_024)[0] == pending.take(1_024));
                assert(pieces::pieces(pending, 1_024).len() == before.blocks().len() - done);
                assert(before.blocks().skip(done)[0] == before.blocks()[done]);
                assert(before.due()[done] == (Conversion::Block, pending.take(1_024)));
            }
            let (next, answered) = self.ask(
                Conversion::Block,
                RESAMPLER_INPUT_FRAMES,
                resample,
                quantize,
                state,
            );
            match answered {
                Ok(_) => {
                    proof {
                        let (answer, values) = choose|answer: Vec<S>, values: Seq<i16>| #[trigger]
                            asked(
                                current,
                                self@,
                                Conversion::Block,
                                1_024,
                                *resample,
                                *quantize,
                                earlier,
                                next,
                                answer,
                                values,
                            );
                        lemma_run_extends(
                            before,
                            false,
                            *resample,
                            *quantize,
                            first,
                            run,
                            next,
                            answer,
                            values,
                        );
                        let longer = extended(run, next, answer, values);
                        assert(self@.pending =~= before.pending.skip(
                            1_024 * longer.answers.len() as int,
                        ));
                        assert(self@.ready =~= before.ready + longer.values);
                        assert(pieces::pieces(pending, 1_024).drop_first() =~= pieces::pieces(
                            self@.pending,
                            1_024,
                        ));
                        assert(before.blocks().skip(done).drop_first() =~= before.blocks().skip(
                            done + 1,
                        ));
                        run = longer;
                    }
                },
                Err(error) => {
                    assert(converted(
                        before,
                        false,
                        *resample,
                        *quantize,
                        first,
                        run,
                        next,
                        error_of(Err::<(), Error>(error)),
                    ));
                    return (next, Err(error));
                },
            }
            state = next;
        }
        let r: (R, Result<(), Error>) = (state, Ok(()));
        proof {
            assert(pieces::pieces(self@.pending, 1_024).len() == 0);
            assert(self@ =~= after_run(before, run));
            assert(converted(
                before,
                false,
                *resample,
                *quantize,
                first,
                run,
                r.0,
                error_of(r.1),
            ));
        }
        self.compact_buffers();
        r
    }

    /// Adds a captured packet and returns every complete chunk now available.
    /// `downmix` averages one sample of each channel; `resample` converts mono
    /// samples to the output rate, and `quantize` a sample to 16 bits. Where
    /// `resample` fails, what was converted before stays, and what was not stays
    /// pending. `resampler` is the state of the resampler; it comes back.
    pub fn push<R, D, C, Q>(
        &mut self,
        frame: &AudioFrame<S>,
        downmix: D,
        resample: C,
        quantize: Q,
        resampler: R,
    ) -> (r: (R, Result<Vec<Pcm16Chunk>, Error>)) where
        D: Fn(&[S]) -> S,
        C: Fn(R, Conversion, &[S]) -> (R, Result<Vec<S>, String>),
        Q: Fn(S) -> i16,

        requires
            old(self).wf(),
            forall|group: &[S]|
                group@.len() == old(self)@.format.channels ==> #[trigger] downmix.requires(
                    (group,),
                ),
            forall|state: R, kind: Conversion, input: &[S]| #[trigger]
                resample.requires((state, kind, input)),
            forall|sample: S| #[trigger] quantize.requires((sample,)),
        ensures
            final(self).wf(),
            match old(self)@.refusal(*frame) {
                Some(text) => {
                    &&& error::outcome(r.1) == Err::<Vec<Pcm16Chunk>, _>(
                        error::ErrorView::InvalidArgument(text),
                    )
                    &&& r.0 == resampler
                    &&& final(self)@ == old(self)@
                },
                None => exists|run: Run<S, R>| #[trigger]
                    pushed(
                        old(self)@,
                        final(self)@,
                        frame.samples@,
                        downmix,
                        resample,
                        quantize,
                        resampler,
                        run,
                        r,
                    ),
            },
    {
        let ghost before = self@;
        if self.finished {
            return (
                resampler,
                Err(Error::InvalidArgument("normalizer is already finished")),
            );
        }
        if frame.format != self.input_format {
            return (
                resampler,
                Err(Error::InvalidArgument("audio format changed during transcription")),
            );
        }
        let channels: usize = self.input_format.channels as usize;
        if frame.samples.len() % channels != 0 {
            return (
                resampler,
                Err(Error::InvalidArgument("audio packet is not aligned to its channel count")),
            );
        }
        let ghost samples = frame.samples@;
        let ghost groups = pieces::pieces(samples, channels as nat);
        let ghost mut mono: Seq<S> = Seq::empty();
        let mut offset: usize = 0;
        proof {
            assert(samples.skip(0) =~= samples);
            assert(groups.skip(0) =~= groups);
            assert(before.with_mono(mono) =~= before);
        }
        while frame.samples.len() - offset >= channels
            invariant
                self.wf(),
                before == old(self)@,
                channels == before.format.channels,
                channels > 0,
                forall|group: &[S]|
                    group@.len() == before.format.channels ==> #[trigger] downmix.requires(
                        (group,),
                    ),
                samples == frame.samples@,
                offset <= samples.len(),
                groups == pieces::pieces(samples, channels as nat),
                pieces::pieces(samples.skip(offset as int), channels as nat) == groups.skip(
                    mono.len() as int,
                ),
                mono.len() <= groups.len(),
                forall|i: int|
                    0 <= i < mono.len() ==> may_average(downmix, groups[i], #[trigger] mono[i]),
                self@ == before.with_mono(mono),
            decreases samples.len() - offset,
        {
            let end: usize = offset + channels;
            let group = vstd::slice::slice_subrange(frame.samples.as_slice(), offset, end);
            let ghost left = samples.skip(offset as int);
            let ghost done = mono.len() as int;
            let ghost pending = self@.pending;
            proof {
                let count = channels as nat;
                assert(group@ =~= left.take(count as int));
                assert(pieces::pieces(left, count)[0] == left.take(count as int));
                assert(pieces::pieces(left, count).len() == groups.len() - done);
                assert(groups.skip(done)[0] == groups[done]);
            }
            let average = downmix(group);
            assert(downmix.ensures((group,), average));
            self.started = true;
            self.mono_input.push(average);
            offset = end;
            proof {
                let count = channels as nat;
                assert(may_average(downmix, groups[done], average));
                assert(samples.skip(end as int) =~= left.skip(count as int));
                assert(pieces::pieces(left, count).drop_first() =~= pieces::pieces(
                    left.skip(count as int),
                    count,
                ));
                assert(groups.skip(done).drop_first() =~= groups.skip(done + 1));
                mono = mono.push(average);
                assert(self@.pending =~= pending.push(average));
                assert(self@.pending =~= before.pending + mono);
                assert(self@ == before.with_mono(mono));
            }
        }
        proof {
            assert(pieces::pieces(samples.skip(offset as int), channels as nat).len() == 0);
            assert(may_downmix(downmix, samples, channels as nat, mono));
        }
        let ghost loaded = self@;
        let ghost first = resampler;
        let (state, processed) = self.process_complete_resampler_chunks(
            &resample,
            &quantize,
            resampler,
        );
        let ghost made = choose|run: Run<S, R>|
            {
                &&& #[trigger] converted(
                    loaded,
                    false,
                    resample,
                    quantize,
                    first,
                    run,
                    state,
                    error_of(processed),
                )
                &&& self@ == after_run(loaded, run)
            };
        let ghost run = Run { mono, ..made };
        match processed {
            Ok(_) => {
                let chunks = self.take_complete_output_chunks();
                assert(converted(loaded, false, resample, quantize, first, run, state, None));
                assert(pushed(
                    before,
                    self@,
                    samples,
                    downmix,
                    resample,
                    quantize,
                    first,
                    run,
                    (state, Ok(chunks)),
                ));
                (state, Ok(chunks))
            },
            Err(error) => {
                assert(error_of(processed) == Some(error));
                assert(converted(
                    loaded,
                    false,
                    resample,
                    quantize,
                    first,
                    run,
                    state,
                    Some(error),
                ));
                assert(pushed(
                    before,
                    self@,
                    samples,
                    downmix,
                    resample,
                    quantize,
                    first,
                    run,
                    (state, Err(error)),
                ));
                (state, Err(error))
            },
        }
    }

    /// Asks the resampler for everything that is left: the samples that are
    /// pending, fewer than a block, and what it holds back itself.
    fn flush_resampler<R, C, Q>(&mut self, resample: &C, quantize: &Q, resampler: R) -> (r: (
        R,
        Result<(), Error>,
    )) where
        C: Fn(R, Conversion, &[S]) -> (R, Result<Vec<S>, String>),
        Q: Fn(S) -> i16,

        requires
            old(self).wf(),
            old(self)@.resampling() ==> old(self)@.pending.len() < 1_024,
            forall|state: R, kind: Conversion, input: &[S]| #[trigger]
                resample.requires((state, kind, input)),
            forall|sample: S| #[trigger] quantize.requires((sample,)),
        ensures
            final(self).wf(),
            exists|run: Run<S, R>|
                {
                    &&& #[trigger] flushed(
                        old(self)@,
                        *resample,
                        *quantize,
                        resampler,
                        run,
                        r.0,
                        error_of(r.1),
                    )
                    &&& final(self)@ == flushed_view(old(self)@, run)
                },
    {
        let ghost before = self@;
        let ghost first = resampler;
        let ghost mut run: Run<S, R> = Run {
            mono: Seq::empty(),
            states: seq![first],
            answers: Seq::empty(),
            values: Seq::empty(),
        };
        proof {
            assert(before.ready + run.values =~= before.ready);
            assert(before.pending.skip(0) =~= before.pending);
            assert(self@ == flushed_view(before, run));
        }
        if self.input_format.sample_rate == OUTPUT_RATE || !self.started {
            let r: (R, Result<(), Error>) = (resampler, Ok(()));
            assert(flushed(before, *resample, *quantize, first, run, r.0, error_of(r.1)));
            return r;
        }
        let rest: usize = self.mono_input.len() - self.mono_offset;
        let held_back: usize = RESAMPLER_FILTER_FRAMES + (self.input_format.sample_rate
            / OUTPUT_RATE) as usize;
        let again: bool = rest > 0 && rest + held_back > RESAMPLER_INPUT_FRAMES;
        let ghost tails = before.tails();
        proof {
            assert(pieces::remainder(before.pending, 1_024) == before.pending);
            assert(before.pending.take(rest as int) =~= before.pending);
            assert(tails[0] == (Conversion::Tail, before.pending.take(rest as int))) by {
                if rest == 0 {
                    assert(before.pending.take(0) =~= Seq::empty());
                }
            }
        }
        let (state, answered) = self.ask(Conversion::Tail, rest, resample, quantize, resampler);
        match answered {
            Ok(_) => {
                proof {
                    let (answer, values) = choose|answer: Vec<S>, values: Seq<i16>| #[trigger]
                        asked(
                            before,
                            self@,
                            Conversion::Tail,
                            rest as int,
                            *resample,
                            *quantize,
                            first,
                            state,
                            answer,
                            values,
                        );
                    let longer = extended(run, state, answer, values);
                    assert(longer.answers.drop_last() =~= Seq::empty());
                    assert(samples_of(longer.answers.drop_last()) == Seq::<S>::empty());
                    assert(samples_of(longer.answers) =~= answer@);
                    assert(longer.values =~= values);
                    run = longer;
                    assert(self@ == flushed_view(before, run));
                }
            },
            Err(error) => {
                assert(tails[run.answers.len() as int] == tails[0]);
                assert(flushed(
                    before,
                    *resample,
                    *quantize,
                    first,
                    run,
                    state,
                    error_of(Err::<(), Error>(error)),
                ));
                return (state, Err(error));
            },
        }
        if !again {
            let r: (R, Result<(), Error>) = (state, Ok(()));
            assert(flushed(before, *resample, *quantize, first, run, r.0, error_of(r.1)));
            return r;
        }
        let ghost current = self@;
        assert(current.pending.take(0) =~= Seq::empty());
        let (ending, answered) = self.ask(Conversion::Tail, 0, resample, quantize, state);
        match answered {
            Ok(_) => {
                proof {
                    let (answer, values) = choose|answer: Vec<S>, values: Seq<i16>| #[trigger]
                        asked(
                            current,
                            self@,
                            Conversion::Tail,
                            0,
                            *resample,
                            *quantize,
                            state,
                            ending,
                            answer,
                            values,
                        );
                    let longer = extended(run, ending, answer, values);
                    assert(longer.answers.drop_last() =~= run.answers);
                    assert(samples_of(longer.answers) == samples_of(run.answers) + answer@);
                    lemma_quantize_concatenates(
                        *quantize,
                        samples_of(run.answers),
                        answer@,
                        run.values,
                        values,
                    );
                    assert(current.pending.skip(0) =~= current.pending);
                    assert(self@.ready =~= before.ready + longer.values);
                    run = longer;
                    assert(self@ == flushed_view(before, run));
                }
                let r: (R, Result<(), Error>) = (ending, Ok(()));
                assert(flushed(before, *resample, *quantize, first, run, r.0, error_of(r.1)));
                r
            },
            Err(error) => {
                assert(tails[run.answers.len() as int] == tails[1]);
                assert(flushed(
                    before,
                    *resample,
                    *quantize,
                    first,
                    run,
                    ending,
                    error_of(Err::<(), Error>(error)),
                ));
                (ending, Err(error))
            },
        }
    }

    /// Ends the input: converts what is pending, flushes the resampler, and
    /// returns the last chunks, the very last one filled up with silence. Ending
    /// twice returns nothing more. The functions and `resampler` are as in
    /// [`SpeechNormalizer::push`].
    pub fn finish<R, C, Q>(&mut self, resample: C, quantize: Q, resampler: R) -> (r: (
        R,
        Result<Vec<Pcm16Chunk>, Error>,
    )) where
        C: Fn(R, Conversion, &[S]) -> (R, Result<Vec<S>, String>),
        Q: Fn(S) -> i16,

        requires
            old(self).wf(),
            forall|state: R, kind: Conversion, input: &[S]| #[trigger]
                resample.requires((state, kind, input)),
            forall|sample: S| #[trigger] quantize.requires((sample,)),
        ensures
            final(self).wf(),
            if old(self)@.finished {
                &&& final(self)@ == old(self)@
                &&& r.0 == resampler
                &&& r.1 matches Ok(chunks)
                &&& chunks@.len() == 0
            } else {
                exists|run: Run<S, R>| #[trigger]
                    ended(old(self)@, final(self)@, resample, quantize, resampler, run, r)
            },
    {
        if self.finished {
            return (resampler, Ok(Vec::new()));
        }
        let ghost before = self@;
        let ghost first = resampler;
        self.finished = true;
        let ghost started = self@;
        let (state, processed) = self.process_complete_resampler_chunks(
            &resample,
            &quantize,
            resampler,
        );
        let ghost blocks = choose|run: Run<S, R>|
            {
                &&& #[trigger] converted(
                    started,
                    false,
                    resample,
                    quantize,
                    first,
                    run,
                    state,
                    error_of(processed),
                )
                &&& self@ == after_run(started, run)
            };
        if let Err(error) = processed {
            proof {
                lemma_blocks_come_first(before, started, resample, quantize, first, blocks);
                assert(before.requests(true)[blocks.answers.len() as int] == started.requests(
                    false,
                )[blocks.answers.len() as int]);
                assert(converted(
                    before,
                    true,
                    resample,
                    quantize,
                    first,
                    blocks,
                    state,
                    Some(error),
                ));
                assert(ended(
                    before,
                    self@,
                    resample,
                    quantize,
                    first,
                    blocks,
                    (state, Err(error)),
                ));
            }
            return (state, Err(error));
        }
        let ghost middle = self@;
        proof {
            pieces::law_cutting_conserves(before.pending, 1_024);
            if before.resampling() {
                pieces::lemma_remainder_follows_pieces(before.pending, 1_024);
                assert(middle.pending == pieces::remainder(before.pending, 1_024));
            }
        }
        let (ending, flushed) = self.flush_resampler(&resample, &quantize, state);
        let ghost tails = choose|run: Run<S, R>|
            {
                &&& #[trigger] self::flushed(
                    middle,
                    resample,
                    quantize,
                    state,
                    run,
                    ending,
                    error_of(flushed),
                )
                &&& self@ == flushed_view(middle, run)
            };
        let ghost run = joined(blocks, tails);
        proof {
            lemma_flush_follows_blocks(
                before,
                middle,
                resample,
                quantize,
                first,
                state,
                blocks,
                tails,
                ending,
                error_of(flushed),
            );
            assert(self@ =~= NormalizerView::<S> { finished: true, ..after_run(before, run) });
        }
        if let Err(error) = flushed {
            assert(ended(
                before,
                self@,
                resample,
                quantize,
                first,
                run,
                (ending, Err(error)),
            ));
            return (ending, Err(error));
        }
        let ghost ready = self@.ready;
        assert(self@.pending =~= Seq::empty());
        let mut chunks = self.take_complete_output_chunks();
        let ghost complete = chunks@;
        let ghost tail = self@.ready;
        proof {
            pieces::law_cutting_conserves(ready, before.chunk);
        }
        let total: usize = self.output.len();
        if self.output_offset < total {
            let mut padded: Vec<i16> = Vec::new();
            let mut next: usize = self.output_offset;
            while next < total
                invariant
                    self.wf(),
                    total == self.output@.len(),
                    self.output_offset <= next <= total,
                    tail == self.output@.skip(self.output_offset as int),
                    padded@ == tail.take(next - self.output_offset),
                decreases total - next,
            {
                padded.push(self.output[next]);
                next = next + 1;
                assert(padded@ =~= tail.take(next - self.output_offset));
            }
            assert(tail.take(total - self.output_offset) =~= tail);
            while padded.len() < self.output_chunk_samples
                invariant
                    tail.len() <= padded@.len() <= self.output_chunk_samples,
                    padded@ == tail + Seq::new((padded@.len() - tail.len()) as nat, |i: int| 0i16),
                decreases self.output_chunk_samples - padded.len(),
            {
                padded.push(0);
                assert(padded@ =~= tail + Seq::new(
                    (padded@.len() - tail.len()) as nat,
                    |i: int| 0i16,
                ));
            }
            chunks.push(pcm_chunk(padded.as_slice()));
            self.output_offset = total;
        }
        assert(self@.ready =~= Seq::empty());
        self.compact_buffers();
        assert(ended(before, self@, resample, quantize, first, run, (ending, Ok(chunks))));
        (ending, Ok(chunks))
    }

    /// Delivers every chunk that is complete.
    fn take_complete_output_chunks(&mut self) -> (chunks: Vec<Pcm16Chunk>)
        requires
            old(self).wf(),
        ensures
            final(self).wf(),
            final(self)@ == old(self)@.without_chunks(),
            are_chunks(
                chunks@,
                chunk_bytes(old(self)@.ready, old(self)@.chunk),
                old(self)@.chunk,
            ),
    {
        let ghost all = chunk_bytes(self@.ready, self@.chunk);
        let mut chunks: Vec<Pcm16Chunk> = Vec::new();
        while self.output.len() - self.output_offset >= self.output_chunk_samples
            invariant
                self.wf(),
                self.input_format == old(self).input_format,
                self.mono_input == old(self).mono_input,
                self.mono_offset == old(self).mono_offset,
                self.output == old(self).output,
                self.output_chunk_samples == old(self).output_chunk_samples,
                self.started == old(self).started,
                self.finished == old(self).finished,
                all == chunk_bytes(old(self)@.ready, old(self)@.chunk),
                chunks@.len() <= all.len(),
                chunk_bytes(self@.ready, self@.chunk) == all.skip(chunks@.len() as int),
                are_chunks(chunks@, all.take(chunks@.len() as int), self@.chunk),
                pieces::remainder(self@.ready, self@.chunk) == pieces::remainder(
                    old(self)@.ready,
                    self@.chunk,
                ),
            decreases self.output.len() - self.output_offset,
        {
            let end: usize = self.output_offset + self.output_chunk_samples;
            let ghost ready = self@.ready;
            let ghost size = self@.chunk;
            let ghost count: int = chunks@.len() as int;
            let ghost left = chunk_bytes(ready, size);
            proof {
                assert(pieces::pieces(ready, size) == seq![ready.take(size as int)]
                    + pieces::pieces(ready.skip(size as int), size));
                assert(left[0] == pcm16_bytes(ready.take(size as int)));
                assert(left.len() == all.len() - count);
                assert(all.skip(count)[0] == all[count]);
                assert(self.output@.subrange(self.output_offset as int, end as int) == ready.take(
                    size as int,
                ));
            }
            chunks.push(
                pcm_chunk(
                    vstd::slice::slice_subrange(self.output.as_slice(), self.output_offset, end),
                ),
            );
            self.output_offset = end;
            proof {
                assert(self@.ready == ready.skip(size as int));
                assert(chunk_bytes(self@.ready, size) == left.drop_first());
                assert(left.drop_first() == all.skip(count + 1));
                assert(all.take(count + 1) == all.take(count).push(all[count]));
            }
        }
        proof {
            assert(chunk_bytes(self@.ready, self@.chunk).len() == 0);
            assert(all.take(chunks@.len() as int) == all);
            assert(self@.ready == pieces::remainder(old(self)@.ready, self@.chunk));
        }
        self.compact_buffers();
        chunks
    }
}

} // verus!
