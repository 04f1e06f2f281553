use std::time::Duration;

use rubato::{
    calculate_cutoff, Resampler, SincFixedIn, SincInterpolationParameters, SincInterpolationType,
    WindowFunction,
};
use vapor_tap::audio::normalize::pcm_chunk;
use vapor_tap::audio::{Conversion, Pcm16Chunk, SpeechNormalizer};
use vapor_tap::capture::{AudioFormat, AudioFrame};
use vapor_tap::Error;

fn format(rate: u32, channels: u16) -> AudioFormat {
    AudioFormat {
        sample_rate: rate,
        channels,
    }
}

fn downmix(group: &[f32]) -> f32 {
    let sum: f32 = group.iter().copied().sum();
    sum / group.len() as f32
}

fn quantize(sample: f32) -> i16 {
    (sample.clamp(-1.0, 1.0) * i16::MAX as f32).round() as i16
}

/// A converter that is not asked.
fn unused(_: (), _: Conversion, _: &[f32]) -> ((), Result<Vec<f32>, String>) {
    panic!("the rates are equal")
}

type Filter = SincFixedIn<f32>;

fn resample(
    mut filter: Filter,
    kind: Conversion,
    samples: &[f32],
) -> (Filter, Result<Vec<f32>, String>) {
    let resampled = match kind {
        Conversion::Block => filter.process(&[samples], None),
        Conversion::Tail if samples.is_empty() => filter.process_partial::<&[f32]>(None, None),
        Conversion::Tail => filter.process_partial(Some(&[samples]), None),
    };
    let answer = resampled
        .map(|mut channels| channels.swap_remove(0))
        .map_err(|error| error.to_string());
    (filter, answer)
}

/// A converter whose state counts its calls and whose answers are its inputs.
fn counting(
    calls: Vec<(Conversion, usize)>,
    kind: Conversion,
    samples: &[i16],
) -> (Vec<(Conversion, usize)>, Result<Vec<i16>, String>) {
    let mut calls = calls;
    calls.push((kind, samples.len()));
    (calls, Ok(samples.to_vec()))
}

fn same(sample: i16) -> i16 {
    sample
}

fn resampler(rate: u32) -> Filter {
    let sinc_len = 128;
    let window = WindowFunction::Blackman2;
    let parameters = SincInterpolationParameters {
        sinc_len,
        f_cutoff: calculate_cutoff(sinc_len, window),
        oversampling_factor: 128,
        interpolation: SincInterpolationType::Cubic,
        window,
    };
    SincFixedIn::<f32>::new(16_000.0 / rate as f64, 1.0, parameters, 1_024, 1).unwrap()
}

fn average(group: &[i16]) -> i16 {
    (group.iter().map(|sample| *sample as i32).sum::<i32>() / group.len() as i32) as i16
}

fn whole(samples: Vec<i16>) -> AudioFrame<i16> {
    AudioFrame { format: format(16_000, 1), samples }
}

fn values(chunk: &Pcm16Chunk) -> Vec<i16> {
    chunk
        .bytes
        .chunks_exact(2)
        .map(|pair| i16::from_le_bytes([pair[0], pair[1]]))
        .collect()
}

#[test]
fn downmixes_and_chunks_16k_stereo() {
    let mut normalizer = SpeechNormalizer::new(format(16_000, 2), 60).unwrap();
    let mut samples = Vec::new();
    for _ in 0..960 {
        samples.extend_from_slice(&[0.5, -0.5]);
    }
    let chunks = normalizer
        .push(
            &AudioFrame {
                format: format(16_000, 2),
                samples,
            },
            downmix,
            unused,
            quantize,
            (),
        )
        .1
        .unwrap();
    assert_eq!(chunks.len(), 1);
    assert_eq!(chunks[0].samples, 960);
    assert!(chunks[0].bytes.iter().all(|byte| *byte == 0));
    assert_eq!(chunks[0].duration(), Duration::from_millis(60));
}

#[test]
fn resamples_48k_and_flushes_a_final_chunk() {
    let mut normalizer = SpeechNormalizer::new(format(48_000, 1), 60).unwrap();
    let frame = AudioFrame {
        format: format(48_000, 1),
        samples: vec![0.25; 4_800],
    };
    let (filter, pushed) = normalizer.push(&frame, downmix, resample, quantize, resampler(48_000));
    let mut chunks = pushed.unwrap();
    chunks.extend(normalizer.finish(resample, quantize, filter).1.unwrap());
    assert!(!chunks.is_empty());
    assert!(chunks.iter().all(|chunk| chunk.bytes.len() == 1_920));
}

#[test]
fn rejects_format_changes() {
    let mut normalizer = SpeechNormalizer::new(format(48_000, 2), 60).unwrap();
    let error = normalizer
        .push(
            &AudioFrame {
                format: format(44_100, 2),
                samples: vec![0.0; 200],
            },
            downmix,
            unused,
            quantize,
            (),
        )
        .1
        .unwrap_err();
    assert!(matches!(error, Error::InvalidArgument(_)));
}

#[test]
fn invalid_settings_are_refused() {
    for invalid in [format(0, 2), format(48_000, 0)] {
        assert!(matches!(
            SpeechNormalizer::<f32>::new(invalid, 60),
            Err(Error::InvalidArgument("invalid input audio format"))
        ));
    }
    assert!(matches!(
        SpeechNormalizer::<f32>::new(format(48_000, 2), 0),
        Err(Error::InvalidArgument("chunk duration must be non-zero"))
    ));
}

#[test]
fn output_is_mono_at_16_khz() {
    assert_eq!(SpeechNormalizer::<f32>::output_format(), format(16_000, 1));
}

#[test]
fn unaligned_packets_are_refused() {
    let mut normalizer = SpeechNormalizer::new(format(16_000, 2), 60).unwrap();
    let frame = AudioFrame { format: format(16_000, 2), samples: vec![0.0; 3] };
    assert!(matches!(
        normalizer.push(&frame, downmix, unused, quantize, ()).1,
        Err(Error::InvalidArgument("audio packet is not aligned to its channel count"))
    ));
}

#[test]
fn a_finished_normalizer_takes_nothing_more() {
    let mut normalizer = SpeechNormalizer::new(format(16_000, 1), 1).unwrap();
    let frame = AudioFrame { format: format(16_000, 1), samples: vec![0.0; 4] };
    normalizer.push(&frame, downmix, unused, quantize, ()).1.unwrap();
    assert_eq!(normalizer.finish(unused, quantize, ()).1.unwrap().len(), 1);
    assert!(normalizer.finish(unused, quantize, ()).1.unwrap().is_empty());
    assert!(matches!(
        normalizer.push(&frame, downmix, unused, quantize, ()).1,
        Err(Error::InvalidArgument("normalizer is already finished"))
    ));
}

#[test]
fn chunks_do_not_depend_on_packets() {
    let samples: Vec<i16> = (0..100).map(|k| k * 37 - 900).collect();
    let mut at_once = SpeechNormalizer::new(format(16_000, 1), 1).unwrap();
    let expected =
        at_once.push(&whole(samples.clone()), average, counting, same, Vec::new()).1.unwrap();
    let mut in_parts = SpeechNormalizer::new(format(16_000, 1), 1).unwrap();
    let mut chunks = Vec::new();
    for part in samples.chunks(7) {
        let part = whole(part.to_vec());
        chunks.extend(in_parts.push(&part, average, counting, same, Vec::new()).1.unwrap());
    }
    assert_eq!(chunks, expected);
    assert_eq!(chunks.len(), 6);
    let last = in_parts.finish(counting, same, Vec::new()).1.unwrap();
    assert_eq!(last, at_once.finish(counting, same, Vec::new()).1.unwrap());
    assert_eq!(last.len(), 1);
    let mut delivered: Vec<i16> = chunks.iter().flat_map(values).collect();
    delivered.extend(values(&last[0]));
    let mut padded = samples;
    padded.resize(112, 0);
    assert_eq!(delivered, padded);
}

#[test]
fn resampled_chunks_do_not_depend_on_packets() {
    let sound: Vec<f32> = (0..6_000).map(|k| (k as f32 * 0.05).sin() * 0.5).collect();
    let deliver = |size: usize| {
        let mut normalizer = SpeechNormalizer::new(format(44_100, 2), 10).unwrap();
        let mut filter = resampler(44_100);
        let mut chunks = Vec::new();
        for part in sound.chunks(size) {
            let frame = AudioFrame { format: format(44_100, 2), samples: part.to_vec() };
            let (next, pushed) = normalizer.push(&frame, downmix, resample, quantize, filter);
            filter = next;
            chunks.extend(pushed.unwrap());
        }
        chunks.extend(normalizer.finish(resample, quantize, filter).1.unwrap());
        chunks
    };
    let expected = deliver(6_000);
    assert!(expected.len() > 6);
    assert_eq!(deliver(2), expected);
    assert_eq!(deliver(1_500), expected);
}

fn calls_for(pushes: &[usize]) -> Vec<(Conversion, usize)> {
    let mut normalizer = SpeechNormalizer::new(format(48_000, 2), 60).unwrap();
    let mut calls = Vec::new();
    for count in pushes {
        let frame = AudioFrame { format: format(48_000, 2), samples: vec![5; 2 * count] };
        let (next, pushed) = normalizer.push(&frame, average, counting, same, calls);
        pushed.unwrap();
        calls = next;
    }
    let (calls, last) = normalizer.finish(counting, same, calls);
    last.unwrap();
    calls
}

#[test]
fn the_resampler_gets_blocks_and_the_rest_at_the_end() {
    let block = (Conversion::Block, 1_024);
    let nothing = (Conversion::Tail, 0);
    assert_eq!(calls_for(&[]), vec![]);
    assert_eq!(calls_for(&[0]), vec![]);
    assert_eq!(calls_for(&[1]), vec![(Conversion::Tail, 1)]);
    assert_eq!(calls_for(&[1_024]), vec![block, nothing]);
    assert_eq!(calls_for(&[1_500, 1_400]), vec![block, block, (Conversion::Tail, 852)]);
    assert_eq!(
        calls_for(&[1_500, 1_500]),
        vec![block, block, (Conversion::Tail, 952), nothing]
    );
    assert_eq!(calls_for(&[893]), vec![(Conversion::Tail, 893)]);
    assert_eq!(calls_for(&[894]), vec![(Conversion::Tail, 894), nothing]);
}

fn heard(count: usize) -> Vec<i16> {
    let mut normalizer = SpeechNormalizer::new(format(48_000, 1), 10).unwrap();
    let frame = AudioFrame { format: format(48_000, 1), samples: vec![0.25; count] };
    let (filter, pushed) = normalizer.push(&frame, downmix, resample, quantize, resampler(48_000));
    let mut chunks = pushed.unwrap();
    chunks.extend(normalizer.finish(resample, quantize, filter).1.unwrap());
    assert!(chunks.iter().all(|chunk| chunk.samples == 160 && chunk.bytes.len() == 320));
    chunks.iter().flat_map(values).collect()
}

#[test]
fn finishing_flushes_the_resampler_after_a_full_block() {
    let delivered = heard(1_024);
    assert!(delivered.len() >= 342);
    assert!(delivered[20..320].iter().all(|value| (value - 8_192).abs() < 200));
    assert!(delivered[320..335].iter().all(|value| (value - 8_192).abs() < 2_000));
    assert!(delivered[400..].iter().all(|value| value.abs() < 200));
}

#[test]
fn finishing_flushes_the_resampler_after_a_long_tail() {
    let delivered = heard(1_000);
    assert!(delivered.len() >= 334);
    assert!(delivered[320..328].iter().all(|value| (value - 8_192).abs() < 2_000));
}

#[test]
fn each_group_of_channels_is_averaged() {
    let mut normalizer = SpeechNormalizer::new(format(16_000, 3), 1).unwrap();
    let frame = AudioFrame {
        format: format(16_000, 3),
        samples: (0..48).collect(),
    };
    let (calls, chunks) = normalizer.push(&frame, average, counting, same, Vec::new());
    assert!(calls.is_empty());
    assert_eq!(
        values(&chunks.unwrap()[0]),
        (0..16).map(|k| 3 * k + 1).collect::<Vec<i16>>()
    );
}

#[test]
fn a_failed_conversion_is_reported() {
    let fail = |calls: u32, _: Conversion, _: &[i16]| -> (u32, Result<Vec<i16>, String>) {
        (calls + 1, Err("broken".to_owned()))
    };
    let mut normalizer = SpeechNormalizer::new(format(8_000, 1), 1).unwrap();
    let frame = AudioFrame { format: format(8_000, 1), samples: vec![1; 2_048] };
    let (calls, pushed) = normalizer.push(&frame, average, fail, same, 0);
    assert_eq!(calls, 1);
    assert!(matches!(pushed, Err(Error::AudioConversion(text)) if text == "broken"));
    let (calls, finished) = normalizer.finish(fail, same, calls);
    assert_eq!(calls, 2);
    assert!(matches!(finished, Err(Error::AudioConversion(text)) if text == "broken"));
    let (calls, finished) = normalizer.finish(fail, same, calls);
    assert_eq!(calls, 2);
    assert!(finished.unwrap().is_empty());
}

#[test]
fn what_a_failure_left_pending_is_converted_at_the_end() {
    let fail = |calls: Vec<(Conversion, usize)>, _: Conversion, _: &[i16]| {
        (calls, Err::<Vec<i16>, String>("broken".to_owned()))
    };
    let mut normalizer = SpeechNormalizer::new(format(8_000, 1), 1).unwrap();
    let frame = AudioFrame { format: format(8_000, 1), samples: vec![1; 1_100] };
    let (calls, pushed) = normalizer.push(&frame, average, fail, same, Vec::new());
    assert!(pushed.is_err());
    let (calls, last) = normalizer.finish(counting, same, calls);
    assert_eq!(calls, vec![(Conversion::Block, 1_024), (Conversion::Tail, 76)]);
    assert_eq!(last.unwrap().len(), 69);
}

#[test]
fn much_audio_passes_through() {
    let mut normalizer = SpeechNormalizer::new(format(44_100, 1), 20).unwrap();
    let frame = AudioFrame { format: format(44_100, 1), samples: vec![3; 5_000] };
    let mut count = 0;
    let mut calls = Vec::new();
    for _ in 0..50 {
        let (next, pushed) = normalizer.push(&frame, average, counting, same, calls);
        calls = next;
        for chunk in pushed.unwrap() {
            assert_eq!(chunk.samples, 320);
            count += 1;
        }
    }
    assert_eq!(calls.len(), 250_000 / 1_024);
    assert_eq!(count, 250_000 / 1_024 * 1_024 / 320);
}

#[test]
fn pcm_is_little_endian() {
    let chunk = pcm_chunk(&[1, -1, 256, i16::MIN, i16::MAX]);
    assert_eq!(chunk.bytes, vec![1, 0, 255, 255, 0, 1, 0, 128, 255, 127]);
    assert_eq!(chunk.samples, 5);
}

#[test]
fn durations_are_exact() {
    let chunk = |samples: usize| Pcm16Chunk { bytes: Vec::new(), samples };
    assert_eq!(chunk(0).duration(), Duration::ZERO);
    assert_eq!(chunk(1).duration(), Duration::from_nanos(62_500));
    assert_eq!(chunk(40_000).duration(), Duration::from_millis(2_500));
}
