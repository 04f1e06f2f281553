use vapor_tap::audio::{Conversion, Pcm16Chunk};
use vapor_tap::capture::{AudioFormat, AudioFrame, CaptureMode};
use vapor_tap::recording::{
    isolation_warning, next_wait, recording_name, take_received, transcript_name, LocalTime,
    Received, WavRecording,
};
use vapor_tap::transcription::{task_error, transcription_outcome, Task, Transcriber};
use vapor_tap::{Error, WavWriter};

fn format(rate: u32, channels: u16) -> AudioFormat {
    AudioFormat { sample_rate: rate, channels }
}

fn frame(format: AudioFormat, samples: Vec<f32>) -> AudioFrame<f32> {
    AudioFrame { format, samples }
}

fn downmix(group: &[f32]) -> f32 {
    let sum: f32 = group.iter().copied().sum();
    sum / group.len() as f32
}

/// A converter whose state lists the sizes of its inputs, which it hands back.
fn listing(
    sizes: Vec<usize>,
    _: Conversion,
    samples: &[f32],
) -> (Vec<usize>, Result<Vec<f32>, String>) {
    let mut sizes = sizes;
    sizes.push(samples.len());
    (sizes, Ok(samples.to_vec()))
}

fn whole_number(sample: f32) -> i16 {
    sample as i16
}

fn accept(
    transcriber: &mut Transcriber<f32>,
    packet: &AudioFrame<f32>,
    file: &mut Vec<u8>,
) -> Result<Vec<Pcm16Chunk>, Error> {
    transcriber
        .accept(packet, f32::to_bits, downmix, listing, whole_number, Vec::new(), file)
        .1
}

fn finish(transcriber: &mut Transcriber<f32>) -> Vec<Pcm16Chunk> {
    transcriber.finish(listing, whole_number, Vec::new()).1.unwrap()
}

fn write_all(writer: WavWriter, mut file: Vec<u8>) -> Vec<u8> {
    assert!(writer.can_finish());
    let header = writer.finish();
    file[..header.len()].copy_from_slice(&header);
    file
}

#[test]
fn writes_float_wav_header_and_samples() {
    let mut bytes = Vec::new();
    let format = AudioFormat {
        sample_rate: 48_000,
        channels: 2,
    };
    let mut writer = WavWriter::create(format, &mut bytes).unwrap();
    writer
        .write_frame(
            &AudioFrame {
                format,
                samples: vec![0.25, -0.25, 0.5, -0.5],
            },
            f32::to_bits,
            &mut bytes,
        )
        .unwrap();
    let bytes = write_all(writer, bytes);

    assert_eq!(&bytes[0..4], b"RIFF");
    assert_eq!(&bytes[8..12], b"WAVE");
    assert_eq!(u16::from_le_bytes(bytes[20..22].try_into().unwrap()), 3);
    assert_eq!(u32::from_le_bytes(bytes[40..44].try_into().unwrap()), 16);
    assert_eq!(bytes.len(), 60);
}

#[test]
fn every_header_field_is_exact() {
    let mut bytes = Vec::new();
    let mut writer = WavWriter::create(format(44_100, 2), &mut bytes).unwrap();
    assert_eq!(bytes, vec![0; 44]);
    writer
        .write_frame(&frame(format(44_100, 2), vec![1.0, -2.5]), f32::to_bits, &mut bytes)
        .unwrap();
    let bytes = write_all(writer, bytes);
    let mut expected = Vec::new();
    expected.extend_from_slice(b"RIFF");
    expected.extend_from_slice(&44_u32.to_le_bytes());
    expected.extend_from_slice(b"WAVEfmt ");
    expected.extend_from_slice(&16_u32.to_le_bytes());
    expected.extend_from_slice(&3_u16.to_le_bytes());
    expected.extend_from_slice(&2_u16.to_le_bytes());
    expected.extend_from_slice(&44_100_u32.to_le_bytes());
    expected.extend_from_slice(&352_800_u32.to_le_bytes());
    expected.extend_from_slice(&8_u16.to_le_bytes());
    expected.extend_from_slice(&32_u16.to_le_bytes());
    expected.extend_from_slice(b"data");
    expected.extend_from_slice(&8_u32.to_le_bytes());
    expected.extend_from_slice(&1.0_f32.to_le_bytes());
    expected.extend_from_slice(&(-2.5_f32).to_le_bytes());
    assert_eq!(bytes, expected);
}

#[test]
fn invalid_wav_formats_are_refused() {
    for invalid in [format(0, 2), format(48_000, 0)] {
        let mut out = Vec::new();
        assert!(matches!(
            WavWriter::create(invalid, &mut out),
            Err(Error::InvalidArgument("invalid WAV format"))
        ));
        assert!(out.is_empty());
    }
}

#[test]
fn a_wav_file_keeps_its_format() {
    let mut out = Vec::new();
    let mut writer = WavWriter::create(format(48_000, 2), &mut out).unwrap();
    assert!(matches!(
        writer.write_frame(&frame(format(48_000, 1), vec![0.0]), f32::to_bits, &mut out),
        Err(Error::InvalidArgument("audio format changed during WAV output"))
    ));
    assert_eq!(out.len(), 44);
}

#[test]
fn headers_that_cannot_be_stated_are_noticed() {
    let mut out = Vec::new();
    let writer = WavWriter::create(format(48_000, 20_000), &mut out).unwrap();
    assert!(!writer.can_finish());
    let writer = WavWriter::create(format(u32::MAX, 1), &mut out).unwrap();
    assert!(!writer.can_finish());
    let writer = WavWriter::create(format(192_000, 8), &mut out).unwrap();
    assert!(writer.can_finish());
}

#[test]
fn a_recording_is_one_file_of_all_packets() {
    let mut recording = WavRecording::new();
    assert!(recording.header().is_none());
    let mut file = Vec::new();
    let packet = format(48_000, 2);
    recording
        .record(&frame(packet, vec![0.5, 0.25]), f32::to_bits, &mut file)
        .unwrap();
    recording
        .record(&frame(packet, vec![1.0, 2.0, 3.0, 4.0]), f32::to_bits, &mut file)
        .unwrap();
    assert_eq!(recording.sample_frames(), 3);
    let header = recording.header().unwrap();
    let mut bytes = file;
    bytes[..44].copy_from_slice(&header);
    let samples: Vec<f32> = bytes[44..]
        .chunks_exact(4)
        .map(|sample| f32::from_le_bytes(sample.try_into().unwrap()))
        .collect();
    assert_eq!(samples, vec![0.5, 0.25, 1.0, 2.0, 3.0, 4.0]);
    assert_eq!(u32::from_le_bytes(bytes[40..44].try_into().unwrap()), 24);
}

#[test]
fn a_recording_refuses_what_does_not_fit() {
    let mut recording = WavRecording::new();
    let mut file = Vec::new();
    assert!(matches!(
        recording.record(&frame(format(0, 1), vec![0.0]), f32::to_bits, &mut file),
        Err(Error::InvalidArgument("invalid WAV format"))
    ));
    recording
        .record(&frame(format(8_000, 1), vec![0.0]), f32::to_bits, &mut file)
        .unwrap();
    assert!(matches!(
        recording.record(&frame(format(8_000, 2), vec![0.0]), f32::to_bits, &mut file),
        Err(Error::InvalidArgument("audio format changed during WAV output"))
    ));
    assert_eq!(recording.sample_frames(), 1);
    assert_eq!(file.len(), 48);
}

#[test]
fn waits_are_short_and_end() {
    assert_eq!(next_wait(false, None), Some(250_000_000));
    assert_eq!(next_wait(true, None), None);
    assert_eq!(next_wait(false, Some(0)), None);
    assert_eq!(next_wait(false, Some(1)), Some(1));
    assert_eq!(next_wait(false, Some(1_000_000_000)), Some(250_000_000));
    assert_eq!(next_wait(true, Some(5)), None);
}

#[test]
fn a_capture_that_ends_by_itself_is_an_error() {
    let packet = frame(format(8_000, 1), vec![0.5]);
    let taken = take_received(Received::Frame(packet)).unwrap().unwrap();
    assert_eq!(taken.samples, vec![0.5]);
    assert!(take_received::<f32>(Received::TimedOut).unwrap().is_none());
    assert!(matches!(
        take_received::<f32>(Received::Disconnected),
        Err(Error::Native(_))
    ));
}

#[test]
fn a_lost_isolation_is_warned_about() {
    assert!(isolation_warning(Some(1), CaptureMode::OutputLoopback).is_some());
    assert!(isolation_warning(Some(1), CaptureMode::ProcessLoopback).is_none());
    assert!(isolation_warning(None, CaptureMode::OutputLoopback).is_none());
}

#[test]
fn default_names_hold_the_local_time() {
    let time = LocalTime { year: 2026, month: 8, day: 24, hour: 15, minute: 30, second: 45 };
    assert_eq!(recording_name(time), "captured-20260824-153045.wav");
    assert_eq!(transcript_name(time), "transcript-20260824-153045.txt");
    let early = LocalTime { year: 987, month: 1, day: 2, hour: 3, minute: 4, second: 5 };
    assert_eq!(recording_name(early), "captured-09870102-030405.wav");
}

#[test]
fn packets_become_chunks_and_a_recording() {
    let mut transcriber = Transcriber::new(true);
    let mut file = Vec::new();
    let packet = frame(format(16_000, 2), vec![2.0; 2 * 1_000]);
    let chunks = accept(&mut transcriber, &packet, &mut file).unwrap();
    assert_eq!(chunks.len(), 1);
    assert_eq!(chunks[0].samples, 960);
    assert_eq!(chunks[0].bytes[..4], [2, 0, 2, 0]);
    assert_eq!(file.len(), 44 + 4 * 2_000);
    let last = finish(&mut transcriber);
    assert_eq!(last.len(), 1);
    assert_eq!(last[0].bytes[78..82], [2, 0, 0, 0]);
    assert_eq!(transcriber.recording().unwrap().sample_frames(), 1_000);
}

#[test]
fn without_a_recording_nothing_is_kept() {
    let mut transcriber = Transcriber::new(false);
    let mut file = Vec::new();
    let packet = frame(format(16_000, 1), vec![0.0; 960]);
    let chunks = accept(&mut transcriber, &packet, &mut file).unwrap();
    assert_eq!(chunks.len(), 1);
    assert!(file.is_empty());
    assert!(transcriber.recording().is_none());
}

#[test]
fn a_transcription_without_packets_is_empty() {
    let mut transcriber = Transcriber::<f32>::new(true);
    assert!(finish(&mut transcriber).is_empty());
    assert!(transcriber.recording().unwrap().header().is_none());
}

#[test]
fn transcription_refuses_what_the_parts_refuse() {
    let mut file = Vec::new();
    let invalid = frame(format(0, 1), vec![0.0]);
    let mut keeping = Transcriber::new(true);
    assert!(matches!(
        accept(&mut keeping, &invalid, &mut file),
        Err(Error::InvalidArgument("invalid WAV format"))
    ));
    let mut plain = Transcriber::new(false);
    assert!(matches!(
        accept(&mut plain, &invalid, &mut file),
        Err(Error::InvalidArgument("invalid input audio format"))
    ));
    let valid = frame(format(16_000, 1), vec![0.0]);
    accept(&mut plain, &valid, &mut file).unwrap();
    assert!(matches!(
        accept(&mut plain, &frame(format(16_000, 2), vec![0.0, 0.0]), &mut file),
        Err(Error::InvalidArgument("audio format changed during transcription"))
    ));
}

#[test]
fn keeping_audio_does_not_change_speech() {
    let packet = frame(format(48_000, 2), vec![7.0; 6_000]);
    let mut keeping = Transcriber::new(true);
    let mut plain = Transcriber::new(false);
    let mut file = Vec::new();
    let mut nothing = Vec::new();
    let (sizes, kept) = keeping.accept(
        &packet,
        f32::to_bits,
        downmix,
        listing,
        whole_number,
        Vec::new(),
        &mut file,
    );
    let (sizes, sent) = plain.accept(
        &packet,
        f32::to_bits,
        downmix,
        listing,
        whole_number,
        sizes,
        &mut nothing,
    );
    assert_eq!(kept.unwrap(), sent.unwrap());
    assert_eq!(sizes, vec![1_024, 1_024, 1_024, 1_024]);
}

#[test]
fn the_first_failure_of_a_transcription_is_reported() {
    let network = || Err(Error::Network("lost".into()));
    assert_eq!(transcription_outcome(Ok(5), Ok(()), Ok(())).unwrap(), 5);
    assert!(matches!(
        transcription_outcome(Err(Error::AudioQueueFull), network(), Ok(())),
        Err(Error::AudioQueueFull)
    ));
    assert!(matches!(
        transcription_outcome(Ok(5), network(), Err(Error::Io("full".into()))),
        Err(Error::Network(_))
    ));
    assert!(matches!(
        transcription_outcome(Ok(5), Ok(()), Err(Error::Io("full".into()))),
        Err(Error::Io(_))
    ));
}

#[test]
fn broken_tasks_are_named() {
    assert_eq!(
        task_error(Task::Capture, "x").message(),
        "native audio operation failed: capture task failed: x"
    );
    assert_eq!(
        task_error(Task::AudioConversion, "x").message(),
        "native audio operation failed: audio conversion task failed: x"
    );
    assert_eq!(
        task_error(Task::TranscriptWriter, "x").message(),
        "native audio operation failed: transcript writer task failed: x"
    );
    assert_eq!(
        task_error(Task::FunAsr, "x").message(),
        "FunASR network operation failed: FunASR task failed: x"
    );
}
