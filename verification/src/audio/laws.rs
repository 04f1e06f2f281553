//! What holds of the conversion of captured audio as a whole.

use vstd::prelude::*;

use crate::audio::normalize;
use crate::audio::normalize::{Conversion, NormalizerView, Pcm16Chunk, Run};
use crate::capture::AudioFrame;
use crate::error::{Error, ErrorView};
use crate::pieces;

verus! {

/// The 16-bit value that two little-endian bytes write.
pub open spec fn pcm16_value(low: u8, high: u8) -> int {
    let word = low + 256 * high;
    if word < 32_768 {
        word
    } else {
        word - 65_536
    }
}

/// Nothing is lost in a chunk's bytes: reading them gives the samples back. Each
/// has two bytes, the low one first, and what they write differs from it by
/// nothing or by 65536.
pub proof fn law_pcm_bytes_read_back(values: Seq<i16>, i: int)
    requires
        0 <= i < values.len(),
    ensures
        normalize::pcm16_bytes(values).len() == 2 * values.len(),
        pcm16_value(
            normalize::pcm16_bytes(values)[2 * i],
            normalize::pcm16_bytes(values)[2 * i + 1],
        ) == values[i],
        (normalize::pcm16_bytes(values)[2 * i] + 256 * normalize::pcm16_bytes(values)[2 * i + 1]
            - values[i]) % 65_536 == 0,
{
}

proof fn lemma_pcm_bytes_concatenate(a: Seq<i16>, b: Seq<i16>)
    ensures
        normalize::pcm16_bytes(a + b) == normalize::pcm16_bytes(a) + normalize::pcm16_bytes(b),
{
    let parts = normalize::pcm16_bytes(a) + normalize::pcm16_bytes(b);
    assert forall|k: int| 0 <= k < 2 * (a.len() + b.len()) implies normalize::pcm16_bytes(
        a + b,
    )[k] == parts[k] by {
        if k < 2 * a.len() {
            assert((a + b)[k / 2] == a[k / 2]);
        } else {
            assert((a + b)[k / 2] == b[k / 2 - a.len()]);
            assert((k - 2 * a.len()) / 2 == k / 2 - a.len());
        }
    }
    assert(normalize::pcm16_bytes(a + b) =~= parts);
}

/// Every sample that is ready is delivered once and in order: the bytes of the
/// chunks, and then those of the samples that are kept, are the bytes of all of
/// them. Every chunk has two bytes for each sample of a chunk.
pub proof fn law_delivery_conserves_samples(ready: Seq<i16>, chunk: nat)
    requires
        chunk > 0,
    ensures
        normalize::chunk_bytes(ready, chunk).flatten() + normalize::pcm16_bytes(
            pieces::remainder(ready, chunk),
        ) == normalize::pcm16_bytes(ready),
        pieces::remainder(ready, chunk).len() < chunk,
        forall|i: int|
            0 <= i < normalize::chunk_bytes(ready, chunk).len()
                ==> (#[trigger] normalize::chunk_bytes(ready, chunk)[i]).len() == 2 * chunk,
    decreases ready.len(),
{
    pieces::law_cutting_conserves(ready, chunk);
    let all = normalize::chunk_bytes(ready, chunk);
    if ready.len() >= chunk {
        let head = ready.take(chunk as int);
        let tail = ready.skip(chunk as int);
        law_delivery_conserves_samples(tail, chunk);
        lemma_pcm_bytes_concatenate(head, tail);
        assert(head + tail == ready);
        assert(all.first() == normalize::pcm16_bytes(head));
        assert(all.drop_first() =~= normalize::chunk_bytes(tail, chunk));
        assert forall|i: int| 0 <= i < all.len() implies (#[trigger] all[i]).len() == 2 * chunk by {
            assert(pieces::pieces(ready, chunk)[i].len() == chunk);
        }
        assert(all.flatten() + normalize::pcm16_bytes(pieces::remainder(ready, chunk))
            =~= normalize::pcm16_bytes(ready));
    } else {
        assert(all.flatten() + normalize::pcm16_bytes(ready) =~= normalize::pcm16_bytes(ready));
    }
}

/// The last chunks have the size of the others, and after the bytes of the
/// samples that were ready they hold only silence.
pub proof fn law_last_chunks_end_in_silence(ready: Seq<i16>, chunk: nat)
    requires
        chunk > 0,
    ensures
        forall|i: int|
            0 <= i < normalize::final_chunk_bytes(ready, chunk).len()
                ==> (#[trigger] normalize::final_chunk_bytes(ready, chunk)[i]).len() == 2 * chunk,
        normalize::final_chunk_bytes(ready, chunk).flatten().take(2 * ready.len() as int)
            == normalize::pcm16_bytes(ready),
        forall|k: int|
            2 * ready.len() <= k < normalize::final_chunk_bytes(ready, chunk).flatten().len()
                ==> #[trigger] normalize::final_chunk_bytes(ready, chunk).flatten()[k] == 0,
        normalize::final_chunk_bytes(ready, chunk).flatten().len() < 2 * (ready.len() + chunk),
{
    law_delivery_conserves_samples(ready, chunk);
    let complete = normalize::chunk_bytes(ready, chunk);
    let tail = pieces::remainder(ready, chunk);
    let all = normalize::final_chunk_bytes(ready, chunk);
    if tail.len() == 0 {
        assert(normalize::pcm16_bytes(tail) =~= Seq::empty());
        assert(complete.flatten() =~= normalize::pcm16_bytes(ready));
        assert(all.flatten().take(2 * ready.len() as int) =~= normalize::pcm16_bytes(ready));
    } else {
        let zeros = Seq::new((chunk - tail.len()) as nat, |i: int| 0i16);
        let last = normalize::pcm16_bytes(normalize::filled_up(tail, chunk));
        lemma_pcm_bytes_concatenate(tail, zeros);
        complete.lemma_flatten_push(last);
        assert(all.flatten() == complete.flatten() + last);
        assert(all.flatten() =~= normalize::pcm16_bytes(ready) + normalize::pcm16_bytes(zeros));
        assert(all.flatten().take(2 * ready.len() as int) =~= normalize::pcm16_bytes(ready));
        assert forall|k: int|
            2 * ready.len() <= k < all.flatten().len() implies #[trigger] all.flatten()[k] == 0 by {
            assert(all.flatten()[k] == normalize::pcm16_bytes(zeros)[k - 2 * ready.len()]);
        }
    }
}

/// Packet boundaries do not show in the chunks: samples that become ready in
/// two parts are cut as they are when they become ready at once.
pub proof fn law_chunks_do_not_depend_on_packets(a: Seq<i16>, b: Seq<i16>, chunk: nat)
    ensures
        normalize::chunk_bytes(a + b, chunk) == normalize::chunk_bytes(a, chunk)
            + normalize::chunk_bytes(pieces::remainder(a, chunk) + b, chunk),
        pieces::remainder(a + b, chunk) == pieces::remainder(
            pieces::remainder(a, chunk) + b,
            chunk,
        ),
{
    pieces::law_cutting_is_incremental(a, b, chunk);
    assert(normalize::chunk_bytes(a + b, chunk) =~= normalize::chunk_bytes(a, chunk)
        + normalize::chunk_bytes(pieces::remainder(a, chunk) + b, chunk));
}

/// Packet boundaries do not show in what the resampler is given either: mono
/// samples that come in two packets make the blocks that they make in one.
pub proof fn law_blocks_do_not_depend_on_packets<S>(
    normalizer: NormalizerView<S>,
    first: Seq<S>,
    samples: Seq<i16>,
    second: Seq<S>,
)
    requires
        normalizer.resampling(),
    ensures
        ({
            let one = normalizer.with_mono(first);
            let two = one.with_converted(one.taken(one.due().len()), samples).with_mono(
                second,
            );
            one.due() + two.due() == normalizer.with_mono(first + second).due()
        }),
{
    let one = normalizer.with_mono(first);
    let two = one.with_converted(one.taken(one.due().len()), samples).with_mono(second);
    let whole = normalizer.with_mono(first + second);
    pieces::lemma_remainder_follows_pieces(one.pending, 1_024);
    pieces::law_cutting_is_incremental(one.pending, second, 1_024);
    assert(two.pending =~= pieces::remainder(one.pending, 1_024) + second);
    assert(whole.pending =~= one.pending + second);
    assert(one.due() + two.due() =~= whole.due());
}

/// Once the conversions that are due are made, less than a block is pending,
/// and once the complete chunks are taken, less than a chunk is ready.
pub proof fn law_little_is_kept<S>(normalizer: NormalizerView<S>, samples: Seq<i16>)
    requires
        normalizer.chunk > 0,
    ensures
        ({
            let after = normalizer.with_converted(
                normalizer.taken(normalizer.due().len()),
                samples,
            ).without_chunks();
            &&& after.pending.len() < 1_024
            &&& after.ready.len() < after.chunk
        }),
{
    let converted = normalizer.with_converted(
        normalizer.taken(normalizer.due().len()),
        samples,
    );
    pieces::law_cutting_conserves(converted.ready, normalizer.chunk);
    if normalizer.resampling() {
        pieces::lemma_remainder_follows_pieces(normalizer.pending, 1_024);
        pieces::law_cutting_conserves(normalizer.pending, 1_024);
    }
}

/// The end of the input gets everything out: all pending samples are handed to
/// the resampler, and the last request leaves room behind its samples for what
/// the resampler holds back, so that this comes out too. Of a format with a rate
/// so high that a whole block is held back, only the former is said.
pub proof fn law_the_end_flushes_the_resampler<S>(normalizer: NormalizerView<S>)
    requires
        normalizer.resampling(),
        normalizer.started,
    ensures
        normalizer.requests(true).map_values(|request: (Conversion, Seq<S>)| request.1).flatten()
            == normalizer.pending,
        normalizer.requests(true).last().0 == Conversion::Tail,
        normalizer.held_back() <= 1_024 ==> normalizer.requests(true).last().1.len()
            + normalizer.held_back() <= 1_024,
{
    let rest = pieces::remainder(normalizer.pending, 1_024);
    let blocks = normalizer.blocks();
    let requests = normalizer.requests(true);
    let inputs = requests.map_values(|request: (Conversion, Seq<S>)| request.1);
    let nothing = Seq::<S>::empty();
    pieces::law_cutting_conserves(normalizer.pending, 1_024);
    blocks.lemma_flatten_push(rest);
    if rest.len() == 0 {
        assert(rest =~= nothing);
        assert(inputs =~= blocks.push(nothing));
    } else if rest.len() + normalizer.held_back() > 1_024 {
        assert(inputs =~= blocks.push(rest).push(nothing));
        blocks.push(rest).lemma_flatten_push(nothing);
        assert(blocks.flatten() + rest + nothing =~= blocks.flatten() + rest);
    } else {
        assert(inputs =~= blocks.push(rest));
    }
}

/// Packet boundaries do not matter: what two packets give one after the other,
/// one packet of both may give, with the same samples averaged together, the
/// resampler taken through the same states, and the same chunks.
pub proof fn law_two_packets_are_like_one<S, R, D, C, Q>(
    before: NormalizerView<S>,
    between: NormalizerView<S>,
    after: NormalizerView<S>,
    a: Seq<S>,
    b: Seq<S>,
    downmix: D,
    resample: C,
    quantize: Q,
    first: R,
    one: Run<S, R>,
    two: Run<S, R>,
    middle: R,
    ending: R,
    chunks_a: Seq<Pcm16Chunk>,
    chunks_b: Seq<Pcm16Chunk>,
) where
    D: Fn(&[S]) -> S,
    C: Fn(R, Conversion, &[S]) -> (R, Result<Vec<S>, String>),
    Q: Fn(S) -> i16,

    requires
        before.format.channels > 0,
        before.chunk > 0,
        a.len() % before.format.channels as nat == 0,
        normalize::delivered(
            before,
            between,
            a,
            downmix,
            resample,
            quantize,
            first,
            one,
            middle,
            chunks_a,
        ),
        normalize::delivered(
            between,
            after,
            b,
            downmix,
            resample,
            quantize,
            middle,
            two,
            ending,
            chunks_b,
        ),
    ensures
        normalize::delivered(
            before,
            after,
            a + b,
            downmix,
            resample,
            quantize,
            first,
            normalize::joined(one, two),
            ending,
            chunks_a + chunks_b,
        ),
{
    let both = normalize::joined(one, two);
    let channels = before.format.channels as nat;
    let loaded_one = before.with_mono(one.mono);
    let loaded_two = between.with_mono(two.mono);
    let loaded = before.with_mono(both.mono);
    let done_one = normalize::after_run(loaded_one, one);
    let done_two = normalize::after_run(loaded_two, two);
    let done = normalize::after_run(loaded, both);
    lemma_whole_groups(a, b, channels);
    assert(normalize::may_downmix(downmix, a + b, channels, both.mono)) by {
        let groups = pieces::pieces(a + b, channels);
        assert forall|i: int| 0 <= i < both.mono.len() implies normalize::may_average(
            downmix,
            groups[i],
            #[trigger] both.mono[i],
        ) by {
            if i < one.mono.len() {
                assert(both.mono[i] == one.mono[i]);
            } else {
                assert(both.mono[i] == two.mono[i - one.mono.len()]);
            }
        }
    }
    assert(loaded.pending =~= loaded_one.pending + two.mono);
    if before.resampling() {
        law_blocks_do_not_depend_on_packets(before, one.mono, one.values, two.mono);
        pieces::lemma_remainder_follows_pieces(loaded_one.pending, 1_024);
        assert(loaded_two.due() == done_one.with_mono(two.mono).due());
        assert(loaded.due() == loaded_one.due() + loaded_two.due());
        normalize::lemma_samples_of_concatenates(one.answers, two.answers);
        pieces::lemma_remainder_follows_pieces(loaded_two.pending, 1_024);
        pieces::lemma_remainder_follows_pieces(loaded.pending, 1_024);
        pieces::law_cutting_is_incremental(loaded_one.pending, two.mono, 1_024);
        assert(loaded.blocks().len() == loaded.due().len());
        assert(loaded_two.pending =~= pieces::remainder(loaded_one.pending, 1_024) + two.mono);
        assert(done.pending == pieces::remainder(loaded.pending, 1_024));
        assert(done_two.pending == pieces::remainder(loaded_two.pending, 1_024));
        assert(loaded.at_output_rate(both.answers) == loaded_one.at_output_rate(one.answers)
            + loaded_two.at_output_rate(two.answers));
    } else {
        assert(between.pending =~= Seq::empty());
        assert(loaded_two.pending =~= two.mono);
        assert(loaded.due() =~= loaded_one.due() + loaded_two.due());
        assert(done.pending =~= done_two.pending);
    }
    normalize::lemma_answers_join(resample, loaded_one.due(), loaded_two.due(), one, two);
    normalize::lemma_quantize_concatenates(
        quantize,
        loaded_one.at_output_rate(one.answers),
        loaded_two.at_output_rate(two.answers),
        one.values,
        two.values,
    );
    assert(normalize::converted(loaded, false, resample, quantize, first, both, ending, None));
    let chunks = chunks_a + chunks_b;
    let chunk = before.chunk;
    law_chunks_do_not_depend_on_packets(done_one.ready, two.values, chunk);
    assert(done.ready =~= done_one.ready + two.values);
    assert(done_two.ready == pieces::remainder(done_one.ready, chunk) + two.values);
    assert(normalize::are_chunks(chunks, normalize::chunk_bytes(done.ready, chunk), chunk)) by {
        let bytes = normalize::chunk_bytes(done.ready, chunk);
        assert forall|i: int| 0 <= i < chunks.len() implies (#[trigger] chunks[i]).bytes@
            == bytes[i] && chunks[i].samples == chunk by {
            if i < chunks_a.len() {
                assert(chunks[i] == chunks_a[i]);
            } else {
                assert(chunks[i] == chunks_b[i - chunks_a.len()]);
            }
        }
    }
    assert(after =~= done.without_chunks());
}

proof fn lemma_whole_groups<S>(a: Seq<S>, b: Seq<S>, n: nat)
    requires
        n > 0,
        a.len() % n == 0,
    ensures
        pieces::pieces(a + b, n) == pieces::pieces(a, n) + pieces::pieces(b, n),
{
    lemma_nothing_remains(a, n);
    pieces::law_cutting_is_incremental(a, b, n);
    assert(pieces::remainder(a, n) + b =~= b);
}

proof fn lemma_nothing_remains<S>(s: Seq<S>, n: nat)
    requires
        n > 0,
        s.len() % n == 0,
    ensures
        pieces::remainder(s, n).len() == 0,
    decreases s.len(),
{
    if s.len() >= n {
        vstd::arithmetic::div_mod::lemma_mod_sub_multiples_vanish(s.len() as int, n as int);
        assert(s.skip(n as int).len() % n == 0);
        lemma_nothing_remains(s.skip(n as int), n);
    } else {
        vstd::arithmetic::div_mod::lemma_small_mod(s.len(), n);
    }
}

proof fn lemma_samples_are_flattened_answers<S>(answers: Seq<Vec<S>>)
    ensures
        normalize::samples_of(answers) == answers.map_values(|answer: Vec<S>| answer@).flatten(),
    decreases answers.len(),
{
    let all = answers.map_values(|answer: Vec<S>| answer@);
    if answers.len() > 0 {
        let front = all.drop_last();
        lemma_samples_are_flattened_answers(answers.drop_last());
        assert(front =~= answers.drop_last().map_values(|answer: Vec<S>| answer@));
        front.lemma_flatten_push(answers.last()@);
        assert(all =~= front.push(answers.last()@));
    }
}

proof fn lemma_chunk_place(chunk: int, count: int, k: int, j: int)
    requires
        0 <= k < count,
        0 <= j < chunk,
    ensures
        0 <= chunk * k + j < chunk * count,
        0 <= chunk * k,
        chunk * k + chunk <= chunk * count,
{
    assert(0 <= chunk * k && chunk * k + chunk <= chunk * count) by (nonlinear_arith)
        requires
            0 <= k < count,
            0 <= j < chunk,
    ;
}

/// The complete chunks say, sample by sample, what was ready; what remains is
/// ready still.
proof fn lemma_chunks_say_what_was_ready(
    chunks: Seq<Pcm16Chunk>,
    all: Seq<i16>,
    chunk: nat,
)
    requires
        chunk > 0,
        normalize::are_chunks(chunks, normalize::chunk_bytes(all, chunk), chunk),
    ensures
        chunks.len() == all.len() / chunk,
        chunk * chunks.len() <= all.len() < chunk * chunks.len() + chunk,
        pieces::remainder(all, chunk) == all.skip((chunk * chunks.len()) as int),
        forall|k: int|
            0 <= k < chunks.len() ==> (#[trigger] chunks[k]).samples == chunk
                && chunks[k].bytes@.len() == 2 * chunk,
        forall|k: int, j: int|
            0 <= k < chunks.len() && 0 <= j < chunk ==> ((#[trigger] chunks[k].bytes@[2 * j]) + 256
                * chunks[k].bytes@[2 * j + 1] - all[chunk * k + j]) % 65_536 == 0,
{
    pieces::law_pieces_lie_in_order(all, chunk);
    let parts = pieces::pieces(all, chunk);
    assert(normalize::chunk_bytes(all, chunk).len() == parts.len());
    assert forall|k: int| 0 <= k < chunks.len() implies (#[trigger] chunks[k]).samples == chunk
        && chunks[k].bytes@.len() == 2 * chunk by {
        lemma_chunk_place(chunk as int, parts.len() as int, k, 0);
        assert(chunks[k].bytes@ == normalize::pcm16_bytes(parts[k]));
        law_pcm_bytes_read_back(parts[k], 0);
    }
    assert forall|k: int, j: int| 0 <= k < chunks.len() && 0 <= j < chunk implies (
    (#[trigger] chunks[k].bytes@[2 * j]) + 256 * chunks[k].bytes@[2 * j + 1] - all[chunk * k + j])
        % 65_536 == 0 by {
        lemma_chunk_place(chunk as int, parts.len() as int, k, j);
        assert(chunks[k].bytes@ == normalize::pcm16_bytes(parts[k]));
        law_pcm_bytes_read_back(parts[k], j);
        assert(parts[k][j] == all[chunk * k + j]);
    }
}

proof fn lemma_averages_of_groups<S, D: Fn(&[S]) -> S>(
    downmix: D,
    samples: Seq<S>,
    channels: nat,
    mono: Seq<S>,
)
    requires
        channels > 0,
        samples.len() % channels == 0,
        normalize::may_downmix(downmix, samples, channels, mono),
    ensures
        mono.len() * channels == samples.len(),
        forall|i: int|
            0 <= i < mono.len() ==> normalize::may_average(
                downmix,
                samples.subrange(channels * i, channels * i + channels),
                #[trigger] mono[i],
            ),
{
    pieces::law_pieces_lie_in_order(samples, channels);
    vstd::arithmetic::div_mod::lemma_fundamental_div_mod(samples.len() as int, channels as int);
    assert(mono.len() * channels == channels * mono.len()) by (nonlinear_arith);
    assert forall|i: int| 0 <= i < mono.len() implies normalize::may_average(
        downmix,
        samples.subrange(channels * i, channels * i + channels),
        #[trigger] mono[i],
    ) by {
        assert(pieces::pieces(samples, channels)[i] == samples.subrange(
            channels * i,
            channels * i + channels,
        ));
    }
}

/// What a packet gives, from its samples to the bytes that are sent. The samples
/// of each frame are averaged. At 16 kHz the averages go on as they are;
/// otherwise each block of 1024 that is complete, of what was pending and then
/// the averages, is handed to the resampler, in order and each in the state that
/// the one before left, and what it answers goes on. Each of these samples is
/// quantized, and its 16-bit value is sent as it is: read as little-endian
/// numbers, the chunks and then what stays ready are what was ready before and
/// then these values.
pub proof fn law_a_packet_is_sent_sample_by_sample<S, R, D, C, Q>(
    before: NormalizerView<S>,
    after: NormalizerView<S>,
    samples: Seq<S>,
    downmix: D,
    resample: C,
    quantize: Q,
    first: R,
    run: Run<S, R>,
    r: (R, Result<Vec<Pcm16Chunk>, Error>),
) where
    D: Fn(&[S]) -> S,
    C: Fn(R, Conversion, &[S]) -> (R, Result<Vec<S>, String>),
    Q: Fn(S) -> i16,

    requires
        before.format.channels > 0,
        before.chunk > 0,
        samples.len() % before.format.channels as nat == 0,
        normalize::pushed(before, after, samples, downmix, resample, quantize, first, run, r),
    ensures
        run.mono.len() * before.format.channels == samples.len(),
        forall|i: int|
            0 <= i < run.mono.len() ==> normalize::may_average(
                downmix,
                samples.subrange(
                    before.format.channels * i,
                    before.format.channels * i + before.format.channels,
                ),
                #[trigger] run.mono[i],
            ),
        ({
            let pending = before.pending + run.mono;
            let blocks = if before.format.sample_rate == 16_000 {
                0
            } else {
                pending.len() as int / 1_024
            };
            let sound = if before.format.sample_rate == 16_000 {
                pending
            } else {
                run.answers.map_values(|answer: Vec<S>| answer@).flatten()
            };
            let all = before.ready + run.values;
            let n = run.answers.len() as int;
            &&& run.states.len() == n + 1
            &&& run.states[0] == first
            &&& forall|i: int|
                0 <= i < n ==> normalize::may_resample(
                    resample,
                    run.states[i],
                    (Conversion::Block, pending.subrange(1_024 * i, 1_024 * i + 1_024)),
                    run.states[i + 1],
                    Ok(#[trigger] run.answers[i]),
                )
            &&& run.values.len() == sound.len()
            &&& forall|i: int|
                0 <= i < sound.len() ==> quantize.ensures((sound[i],), #[trigger] run.values[i])
            &&& after.format == before.format
            &&& after.chunk == before.chunk
            &&& after.finished == before.finished
            &&& after.started == (before.started || samples.len() > 0)
            &&& after.pending == if before.format.sample_rate == 16_000 {
                Seq::empty()
            } else {
                pending.skip(1_024 * n)
            }
            &&& match r.1 {
                Ok(chunks) => {
                    let sent = before.chunk * chunks@.len();
                    &&& n == blocks
                    &&& r.0 == run.states[n]
                    &&& sent <= all.len() < sent + before.chunk
                    &&& after.ready == all.skip(sent as int)
                    &&& forall|k: int|
                        0 <= k < chunks@.len() ==> (#[trigger] chunks@[k]).samples == before.chunk
                            && chunks@[k].bytes@.len() == 2 * before.chunk
                    &&& forall|k: int, j: int|
                        0 <= k < chunks@.len() && 0 <= j < before.chunk ==> (
                        (#[trigger] chunks@[k].bytes@[2 * j]) + 256 * chunks@[k].bytes@[2 * j + 1]
                            - all[before.chunk * k + j]) % 65_536 == 0
                },
                Err(error) => {
                    &&& n < blocks
                    &&& after.ready == all
                    &&& normalize::may_fail(
                        resample,
                        run.states[n],
                        (Conversion::Block, pending.subrange(1_024 * n, 1_024 * n + 1_024)),
                        r.0,
                        error,
                    )
                },
            }
        }),
{
    let channels = before.format.channels as nat;
    let loaded = before.with_mono(run.mono);
    let pending = before.pending + run.mono;
    let n = run.answers.len() as int;
    let all = before.ready + run.values;
    lemma_averages_of_groups(downmix, samples, channels, run.mono);
    assert(run.mono.len() > 0 <==> samples.len() > 0) by (nonlinear_arith)
        requires
            run.mono.len() * channels == samples.len(),
            channels > 0,
    ;
    lemma_samples_are_flattened_answers(run.answers);
    pieces::law_pieces_lie_in_order(pending, 1_024);
    assert(loaded.pending == pending);
    assert forall|i: int| 0 <= i < n implies normalize::may_resample(
        resample,
        run.states[i],
        (Conversion::Block, pending.subrange(1_024 * i, 1_024 * i + 1_024)),
        run.states[i + 1],
        Ok(#[trigger] run.answers[i]),
    ) by {
        assert(loaded.requests(false)[i] == (Conversion::Block, loaded.blocks()[i]));
    }
    if before.format.sample_rate == 16_000 {
        assert(loaded.pending.skip(loaded.pending.len() as int) =~= Seq::empty());
    }
    match r.1 {
        Ok(chunks) => {
            assert(normalize::after_run(loaded, run).ready == all);
            lemma_chunks_say_what_was_ready(chunks@, all, before.chunk);
        },
        Err(error) => {
            assert(loaded.requests(false)[n] == (Conversion::Block, loaded.blocks()[n]));
            assert(loaded.blocks()[n] == pending.subrange(1_024 * n, 1_024 * n + 1_024));
        },
    }
}

/// An average is what the function that averages gives for the samples of one
/// frame, and an answer is what the function that resamples gives for the samples
/// it is asked to convert, in the state that it is in. A failure is reported with
/// its own words.
pub proof fn law_answers_come_from_the_functions<S, R, D, C>(
    downmix: D,
    resample: C,
    group: Seq<S>,
    average: S,
    state: R,
    request: (Conversion, Seq<S>),
    next: R,
    outcome: Result<Vec<S>, String>,
    error: Error,
) where D: Fn(&[S]) -> S, C: Fn(R, Conversion, &[S]) -> (R, Result<Vec<S>, String>)
    ensures
        normalize::may_average(downmix, group, average) ==> exists|input: &[S]|
            input@ == group && #[trigger] downmix.ensures((input,), average),
        normalize::may_resample(resample, state, request, next, outcome) ==> exists|input: &[S]|
            input@ == request.1 && #[trigger] resample.ensures(
                (state, request.0, input),
                (next, outcome),
            ),
        normalize::may_fail(resample, state, request, next, error) ==> exists|
            input: &[S],
            message: String,
        |
            input@ == request.1 && #[trigger] resample.ensures(
                (state, request.0, input),
                (next, Err(message)),
            ) && error@ == ErrorView::AudioConversion(message@),
{
    if normalize::may_fail(resample, state, request, next, error) {
        let message = choose|message: String| #[trigger]
            normalize::may_resample(resample, state, request, next, Err(message)) && error@
                == ErrorView::AudioConversion(message@);
        assert(normalize::may_resample(resample, state, request, next, Err(message)));
    }
}

/// A packet is refused once the input has ended, where its format is not that of
/// the capture, or where it does not hold whole frames, and in no other case.
pub proof fn law_only_whole_packets_of_the_capture_are_taken<S>(
    normalizer: NormalizerView<S>,
    frame: AudioFrame<S>,
)
    requires
        normalizer.format.channels > 0,
    ensures
        normalizer.refusal(frame) is None <==> !normalizer.finished && frame.format
            == normalizer.format && frame.samples@.len() % frame.format.channels as nat == 0,
        normalizer.finished ==> normalizer.refusal(frame) == Some(
            "normalizer is already finished"@,
        ),
        !normalizer.finished && frame.format != normalizer.format ==> normalizer.refusal(frame)
            == Some("audio format changed during transcription"@),
        !normalizer.finished && frame.format == normalizer.format && frame.samples@.len()
            % frame.format.channels as nat != 0 ==> normalizer.refusal(frame) == Some(
            "audio packet is not aligned to its channel count"@,
        ),
{
}

/// What the end gives. Of what is pending, the blocks of 1024 that are complete
/// go to the resampler first, then the rest as a tail; where a block that begins
/// with the rest leaves too little room for what the filter of 128 holds back,
/// one more tail without samples follows. A capture without any sample, and one
/// at 16 kHz, needs no resampler. Each sample that is left is quantized and sent,
/// and after the last one the chunk is filled up with zeros.
pub proof fn law_the_end_is_sent_sample_by_sample<S, R, C, Q>(
    before: NormalizerView<S>,
    after: NormalizerView<S>,
    resample: C,
    quantize: Q,
    first: R,
    run: Run<S, R>,
    r: (R, Result<Vec<Pcm16Chunk>, Error>),
) where C: Fn(R, Conversion, &[S]) -> (R, Result<Vec<S>, String>), Q: Fn(S) -> i16
    requires
        before.chunk > 0,
        before.pending.len() > 0 ==> before.started,
        normalize::ended(before, after, resample, quantize, first, run, r),
    ensures
        ({
            let pending = before.pending;
            let idle = before.format.sample_rate == 16_000 || !before.started;
            let blocks = pending.len() as int / 1_024;
            let rest = pending.skip(1_024 * blocks);
            let requests = if idle {
                0
            } else if rest.len() > 0 && rest.len() + 128 + before.format.sample_rate as int / 16_000
                > 1_024 {
                blocks + 2
            } else {
                blocks + 1
            };
            let sound = if before.format.sample_rate == 16_000 {
                pending
            } else {
                run.answers.map_values(|answer: Vec<S>| answer@).flatten()
            };
            let all = before.ready + run.values;
            let n = run.answers.len() as int;
            &&& run.states.len() == n + 1
            &&& run.states[0] == first
            &&& n <= requests
            &&& forall|i: int|
                0 <= i < n && i < blocks ==> normalize::may_resample(
                    resample,
                    run.states[i],
                    (Conversion::Block, pending.subrange(1_024 * i, 1_024 * i + 1_024)),
                    run.states[i + 1],
                    Ok(#[trigger] run.answers[i]),
                )
            &&& n > blocks ==> normalize::may_resample(
                resample,
                run.states[blocks],
                (Conversion::Tail, rest),
                run.states[blocks + 1],
                Ok(run.answers[blocks]),
            )
            &&& n > blocks + 1 ==> normalize::may_resample(
                resample,
                run.states[blocks + 1],
                (Conversion::Tail, Seq::empty()),
                run.states[blocks + 2],
                Ok(run.answers[blocks + 1]),
            )
            &&& run.values.len() == sound.len()
            &&& forall|i: int|
                0 <= i < sound.len() ==> quantize.ensures((sound[i],), #[trigger] run.values[i])
            &&& after.format == before.format
            &&& after.chunk == before.chunk
            &&& after.started == before.started
            &&& after.finished
            &&& match r.1 {
                Ok(chunks) => {
                    let sent = before.chunk * chunks@.len();
                    &&& n == requests
                    &&& r.0 == run.states[n]
                    &&& after.pending.len() == 0
                    &&& after.ready.len() == 0
                    &&& all.len() <= sent < all.len() + before.chunk
                    &&& forall|k: int|
                        0 <= k < chunks@.len() ==> (#[trigger] chunks@[k]).samples == before.chunk
                            && chunks@[k].bytes@.len() == 2 * before.chunk
                    &&& forall|k: int, j: int|
                        0 <= k < chunks@.len() && 0 <= j < before.chunk ==> (
                        (#[trigger] chunks@[k].bytes@[2 * j]) + 256 * chunks@[k].bytes@[2 * j + 1] - (
                        if before.chunk * k + j < all.len() {
                            all[before.chunk * k + j] as int
                        } else {
                            0
                        })) % 65_536 == 0
                },
                Err(error) => {
                    &&& n < requests
                    &&& after.ready == all
                    &&& after.pending == if n <= blocks {
                        pending.skip(1_024 * n)
                    } else {
                        Seq::empty()
                    }
                    &&& normalize::may_fail(
                        resample,
                        run.states[n],
                        if n < blocks {
                            (Conversion::Block, pending.subrange(1_024 * n, 1_024 * n + 1_024))
                        } else if n == blocks {
                            (Conversion::Tail, rest)
                        } else {
                            (Conversion::Tail, Seq::empty())
                        },
                        r.0,
                        error,
                    )
                },
            }
        }),
{
    let pending = before.pending;
    let n = run.answers.len() as int;
    let all = before.ready + run.values;
    let blocks = pending.len() as int / 1_024;
    let rest = pending.skip(1_024 * blocks);
    let requests = before.requests(true);
    pieces::law_pieces_lie_in_order(pending, 1_024);
    lemma_samples_are_flattened_answers(run.answers);
    assert(pieces::remainder(pending, 1_024) == rest);
    if before.resampling() && before.started {
        assert(before.due().len() == blocks);
        assert(rest.len() == 0 ==> rest =~= Seq::empty());
        assert(requests[blocks] == before.tails()[0]);
        assert(requests[blocks] == (Conversion::Tail, rest));
        if before.tails().len() > 1 {
            assert(requests[blocks + 1] == before.tails()[1]);
        }
    } else {
        assert(pending.len() > 0 ==> !before.resampling());
        assert(requests =~= Seq::empty());
    }
    assert forall|i: int| 0 <= i < n && i < blocks implies normalize::may_resample(
        resample,
        run.states[i],
        (Conversion::Block, pending.subrange(1_024 * i, 1_024 * i + 1_024)),
        run.states[i + 1],
        Ok(#[trigger] run.answers[i]),
    ) by {
        assert(requests[i] == (Conversion::Block, before.blocks()[i]));
    }
    if n > blocks {
        assert(normalize::may_resample(
            resample,
            run.states[blocks],
            requests[blocks],
            run.states[blocks + 1],
            Ok(run.answers[blocks]),
        ));
    }
    if n > blocks + 1 {
        assert(normalize::may_resample(
            resample,
            run.states[blocks + 1],
            requests[blocks + 1],
            run.states[blocks + 2],
            Ok(run.answers[blocks + 1]),
        ));
    }
    assert(normalize::after_run(before, run).ready == all);
    match r.1 {
        Ok(chunks) => {
            lemma_last_chunks_say_what_was_ready(chunks@, all, before.chunk);
        },
        Err(error) => {
            if n < blocks {
                assert(requests[n] == (Conversion::Block, before.blocks()[n]));
                assert(before.blocks()[n] == pending.subrange(1_024 * n, 1_024 * n + 1_024));
            }
            assert(pending.skip(pending.len() as int) =~= Seq::empty());
        },
    }
}

proof fn lemma_last_chunks_say_what_was_ready(
    chunks: Seq<Pcm16Chunk>,
    all: Seq<i16>,
    chunk: nat,
)
    requires
        chunk > 0,
        normalize::are_chunks(chunks, normalize::final_chunk_bytes(all, chunk), chunk),
    ensures
        all.len() <= chunk * chunks.len() < all.len() + chunk,
        forall|k: int|
            0 <= k < chunks.len() ==> (#[trigger] chunks[k]).samples == chunk
                && chunks[k].bytes@.len() == 2 * chunk,
        forall|k: int, j: int|
            0 <= k < chunks.len() && 0 <= j < chunk ==> ((#[trigger] chunks[k].bytes@[2 * j]) + 256
                * chunks[k].bytes@[2 * j + 1] - (if chunk * k + j < all.len() {
                all[chunk * k + j] as int
            } else {
                0
            })) % 65_536 == 0,
{
    pieces::law_pieces_lie_in_order(all, chunk);
    let size = chunk as int;
    let tail = pieces::remainder(all, chunk);
    let complete = (all.len() / chunk) as int;
    let front = chunks.take(complete);
    let bytes = normalize::chunk_bytes(all, chunk);
    assert(bytes.len() == complete);
    lemma_chunks_say_what_was_ready(front, all, chunk);
    assert(size * (complete + 1) == size * complete + size) by (nonlinear_arith);
    assert forall|k: int| 0 <= k < chunks.len() implies (#[trigger] chunks[k]).samples == chunk
        && chunks[k].bytes@.len() == 2 * chunk by {
        if k < complete {
            assert(front[k] == chunks[k]);
        } else {
            law_pcm_bytes_read_back(normalize::filled_up(tail, chunk), 0);
        }
    }
    assert forall|k: int, j: int| 0 <= k < chunks.len() && 0 <= j < chunk implies (
    (#[trigger] chunks[k].bytes@[2 * j]) + 256 * chunks[k].bytes@[2 * j + 1] - (if chunk * k + j
        < all.len() {
        all[chunk * k + j] as int
    } else {
        0
    })) % 65_536 == 0 by {
        if k < complete {
            lemma_chunk_place(size, complete, k, j);
            assert(front[k] == chunks[k]);
            assert((front[k].bytes@[2 * j] + 256 * front[k].bytes@[2 * j + 1] - all[chunk * k + j])
                % 65_536 == 0);
        } else {
            assert(k == complete);
            let filled = normalize::filled_up(tail, chunk);
            law_pcm_bytes_read_back(filled, j);
            assert(filled[j] == if j < tail.len() {
                tail[j]
            } else {
                0
            });
        }
    }
}

/// Whether equal groups always have equal averages.
pub open spec fn averages_alike<S, D: Fn(&[S]) -> S>(downmix: D) -> bool {
    forall|x: &[S], y: &[S], p: S, q: S|
        x@ == y@ && #[trigger] downmix.ensures((x,), p) && #[trigger] downmix.ensures((y,), q)
            ==> p == q
}

/// Whether equal samples always have equal 16-bit values.
pub open spec fn quantizes_alike<S, Q: Fn(S) -> i16>(quantize: Q) -> bool {
    forall|sample: S, p: i16, q: i16| #[trigger]
        quantize.ensures((sample,), p) && #[trigger] quantize.ensures((sample,), q) ==> p == q
}

/// Whether a resampler in equal states always answers equal samples alike, and
/// is then in equal states again.
pub open spec fn resamples_alike<S, R, C>(resample: C) -> bool where
    C: Fn(R, Conversion, &[S]) -> (R, Result<Vec<S>, String>),
 {
    forall|
        state: R,
        kind: Conversion,
        x: &[S],
        y: &[S],
        p: (R, Result<Vec<S>, String>),
        q: (R, Result<Vec<S>, String>),
    |
        x@ == y@ && #[trigger] resample.ensures((state, kind, x), p) && #[trigger] resample.ensures(
            (state, kind, y),
            q,
        ) ==> {
            &&& p.0 == q.0
            &&& p.1 is Ok == q.1 is Ok
            &&& p.1 is Ok ==> p.1->Ok_0@ == q.1->Ok_0@
        }
}

/// The chunks do not depend on how the audio is cut into packets. Where the
/// functions that are called always answer alike, the chunks of two packets, one
/// after the other, are those of one packet that holds the samples of both, byte
/// for byte; and what is kept for the chunks to come, the resampler's state among
/// it, is the same.
pub proof fn law_chunks_do_not_depend_on_how_audio_is_cut<S, R, D, C, Q>(
    before: NormalizerView<S>,
    between: NormalizerView<S>,
    after: NormalizerView<S>,
    after_one: NormalizerView<S>,
    a: Seq<S>,
    b: Seq<S>,
    downmix: D,
    resample: C,
    quantize: Q,
    first: R,
    one: Run<S, R>,
    two: Run<S, R>,
    whole: Run<S, R>,
    middle: R,
    ending: R,
    ending_at_once: R,
    chunks_a: Seq<Pcm16Chunk>,
    chunks_b: Seq<Pcm16Chunk>,
    chunks: Seq<Pcm16Chunk>,
) where
    D: Fn(&[S]) -> S,
    C: Fn(R, Conversion, &[S]) -> (R, Result<Vec<S>, String>),
    Q: Fn(S) -> i16,

    requires
        before.format.channels > 0,
        before.chunk > 0,
        a.len() % before.format.channels as nat == 0,
        averages_alike(downmix),
        quantizes_alike(quantize),
        before.resampling() ==> resamples_alike(resample),
        normalize::delivered(
            before,
            between,
            a,
            downmix,
            resample,
            quantize,
            first,
            one,
            middle,
            chunks_a,
        ),
        normalize::delivered(
            between,
            after,
            b,
            downmix,
            resample,
            quantize,
            middle,
            two,
            ending,
            chunks_b,
        ),
        normalize::delivered(
            before,
            after_one,
            a + b,
            downmix,
            resample,
            quantize,
            first,
            whole,
            ending_at_once,
            chunks,
        ),
    ensures
        after_one == after,
        ending_at_once == ending,
        chunks.len() == chunks_a.len() + chunks_b.len(),
        forall|i: int|
            0 <= i < chunks.len() ==> (#[trigger] chunks[i]).bytes@ == (chunks_a
                + chunks_b)[i].bytes@ && chunks[i].samples == (chunks_a + chunks_b)[i].samples,
{
    let run = normalize::joined(one, two);
    law_two_packets_are_like_one(
        before,
        between,
        after,
        a,
        b,
        downmix,
        resample,
        quantize,
        first,
        one,
        two,
        middle,
        ending,
        chunks_a,
        chunks_b,
    );
    let loaded = before.with_mono(run.mono);
    let other = before.with_mono(whole.mono);
    assert(run.mono =~= whole.mono) by {
        let groups = pieces::pieces(a + b, before.format.channels as nat);
        assert forall|i: int| 0 <= i < run.mono.len() implies run.mono[i] == whole.mono[i] by {
            assert(normalize::may_average(downmix, groups[i], run.mono[i]));
            assert(normalize::may_average(downmix, groups[i], whole.mono[i]));
        }
    }
    if before.resampling() {
        lemma_answers_are_determined(resample, loaded.due(), run, whole, run.answers.len());
    }
    lemma_samples_of_equal_answers(run.answers, whole.answers);
    let samples = loaded.at_output_rate(run.answers);
    assert(samples == other.at_output_rate(whole.answers));
    assert(run.values =~= whole.values) by {
        assert forall|i: int| 0 <= i < run.values.len() implies run.values[i]
            == whole.values[i] by {
            assert(quantize.ensures((samples[i],), run.values[i]));
            assert(quantize.ensures((samples[i],), whole.values[i]));
        }
    }
    assert(normalize::after_run(loaded, run) == normalize::after_run(other, whole));
}

/// Nor do the last chunks depend on it: normalizers that keep the same, with
/// resamplers in the same state, end with the same chunks, byte for byte, where
/// the functions that are called always answer alike.
pub proof fn law_the_end_depends_on_what_is_kept<S, R, C, Q>(
    before: NormalizerView<S>,
    after: NormalizerView<S>,
    after_other: NormalizerView<S>,
    resample: C,
    quantize: Q,
    first: R,
    run: Run<S, R>,
    other: Run<S, R>,
    r: (R, Result<Vec<Pcm16Chunk>, Error>),
    r_other: (R, Result<Vec<Pcm16Chunk>, Error>),
) where C: Fn(R, Conversion, &[S]) -> (R, Result<Vec<S>, String>), Q: Fn(S) -> i16
    requires
        quantizes_alike(quantize),
        before.resampling() ==> resamples_alike(resample),
        normalize::ended(before, after, resample, quantize, first, run, r),
        normalize::ended(before, after_other, resample, quantize, first, other, r_other),
        r.1 is Ok,
        r_other.1 is Ok,
    ensures
        after_other == after,
        r_other.0 == r.0,
        r_other.1->Ok_0@.len() == r.1->Ok_0@.len(),
        forall|i: int|
            0 <= i < r.1->Ok_0@.len() ==> (#[trigger] r.1->Ok_0@[i]).bytes@
                == r_other.1->Ok_0@[i].bytes@ && r.1->Ok_0@[i].samples
                == r_other.1->Ok_0@[i].samples,
{
    let requests = before.requests(true);
    if before.resampling() {
        lemma_answers_are_determined(resample, requests, run, other, run.answers.len());
    } else {
        assert(requests =~= Seq::empty());
    }
    lemma_samples_of_equal_answers(run.answers, other.answers);
    let samples = before.at_output_rate(run.answers);
    assert(samples == before.at_output_rate(other.answers));
    assert(run.values =~= other.values) by {
        assert forall|i: int| 0 <= i < run.values.len() implies run.values[i]
            == other.values[i] by {
            assert(quantize.ensures((samples[i],), run.values[i]));
            assert(quantize.ensures((samples[i],), other.values[i]));
        }
    }
    assert(normalize::after_run(before, run).ready == normalize::after_run(before, other).ready);
}

proof fn lemma_answers_are_determined<S, R, C>(
    resample: C,
    requests: Seq<(Conversion, Seq<S>)>,
    one: Run<S, R>,
    other: Run<S, R>,
    count: nat,
) where C: Fn(R, Conversion, &[S]) -> (R, Result<Vec<S>, String>)
    requires
        resamples_alike(resample),
        normalize::may_answer(resample, requests, one.states, one.answers),
        normalize::may_answer(resample, requests, other.states, other.answers),
        one.states[0] == other.states[0],
        count <= one.answers.len(),
        count <= other.answers.len(),
    ensures
        one.states[count as int] == other.states[count as int],
        forall|i: int| 0 <= i < count ==> (#[trigger] one.answers[i])@ == other.answers[i]@,
    decreases count,
{
    if count > 0 {
        let last = count - 1;
        lemma_answers_are_determined(resample, requests, one, other, last as nat);
        assert(normalize::may_resample(
            resample,
            one.states[last],
            requests[last],
            one.states[last + 1],
            Ok(one.answers[last]),
        ));
        assert(normalize::may_resample(
            resample,
            other.states[last],
            requests[last],
            other.states[last + 1],
            Ok(other.answers[last]),
        ));
    }
}

proof fn lemma_samples_of_equal_answers<S>(a: Seq<Vec<S>>, b: Seq<Vec<S>>)
    requires
        a.len() == b.len(),
        forall|i: int| 0 <= i < a.len() ==> (#[trigger] a[i])@ == b[i]@,
    ensures
        normalize::samples_of(a) == normalize::samples_of(b),
    decreases a.len(),
{
    if a.len() > 0 {
        assert forall|i: int| 0 <= i < a.drop_last().len() implies (#[trigger] a.drop_last()[i])@
            == b.drop_last()[i]@ by {
            assert(a[i]@ == b[i]@);
        }
        lemma_samples_of_equal_answers(a.drop_last(), b.drop_last());
        assert(a[a.len() - 1]@ == b[a.len() - 1]@);
    }
}

} // verus!
