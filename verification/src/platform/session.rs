//! A capture session's worker threads and buffers.

use vstd::prelude::*;

use crate::capture::{AudioFormat, AudioFrame};
use crate::error;
use crate::error::{Error, ErrorView};

verus! {

/// A worker thread of a capture session.
#[derive(Clone, Copy, Debug, Eq, PartialEq, Structural)]
pub enum Worker {
    /// The thread that holds the native capture.
    Capture,
    /// The thread that turns captured samples into packets.
    Drain,
}

/// What is left to be done to stop a session.
#[derive(Clone, Copy, Debug, Eq, PartialEq, Structural)]
pub enum StopStep {
    /// Wait for this worker to end.
    Join(Worker),
    /// The session is stopped.
    Stopped,
}

/// Which workers of a session are still to be waited for.
#[derive(Clone, Copy, Debug, Eq, PartialEq, Structural)]
pub struct StopSequence {
    pub capture: bool,
    pub drain: bool,
    pub stopped: bool,
}

/// The next step of stopping a session, and what is left after it.
pub open spec fn stop_step(sequence: StopSequence) -> (StopSequence, StopStep) {
    if sequence.stopped {
        (sequence, StopStep::Stopped)
    } else if sequence.capture {
        (StopSequence { capture: false, ..sequence }, StopStep::Join(Worker::Capture))
    } else if sequence.drain {
        (StopSequence { drain: false, ..sequence }, StopStep::Join(Worker::Drain))
    } else {
        (StopSequence { stopped: true, ..sequence }, StopStep::Stopped)
    }
}

impl StopSequence {
    /// The sequence for a session whose native capture runs in a thread of its
    /// own, or does not.
    pub fn new(has_capture_thread: bool) -> (sequence: StopSequence)
        ensures
            sequence == (StopSequence {
                capture: has_capture_thread,
                drain: true,
                stopped: false,
            }),
    {
        StopSequence { capture: has_capture_thread, drain: true, stopped: false }
    }

    /// Takes the next step. A worker is waited for once, also where the wait
    /// fails and stopping is tried again.
    pub fn advance(&mut self) -> (step: StopStep)
        ensures
            (*final(self), step) == stop_step(*old(self)),
    {
        if self.stopped {
            StopStep::Stopped
        } else if self.capture {
            self.capture = false;
            StopStep::Join(Worker::Capture)
        } else if self.drain {
            self.drain = false;
            StopStep::Join(Worker::Drain)
        } else {
            self.stopped = true;
            StopStep::Stopped
        }
    }
}

/// The error for a worker that panicked.
pub fn worker_panicked(worker: Worker) -> (error: Error)
    ensures
        error@ == ErrorView::Native(
            match worker {
                Worker::Capture => "Core Audio capture thread panicked"@,
                Worker::Drain => "PCM drain thread panicked"@,
            },
        ),
{
    match worker {
        Worker::Capture => Error::Native("Core Audio capture thread panicked".to_owned()),
        Worker::Drain => Error::Native("PCM drain thread panicked".to_owned()),
    }
}

/// How a capture thread started.
pub enum Startup {
    Started(AudioFormat),
    Failed(Error),
    /// The thread ended without a word.
    Exited,
}

/// Reads how a capture thread started.
pub fn startup_result(startup: Startup) -> (r: Result<AudioFormat, Error>)
    ensures
        match startup {
            Startup::Started(format) => r == Ok::<_, Error>(format),
            Startup::Failed(error) => r == Err::<AudioFormat, _>(error),
            Startup::Exited => error::outcome(r) == Err::<AudioFormat, _>(
                ErrorView::Native("Core Audio capture thread exited during startup"@),
            ),
        },
{
    match startup {
        Startup::Started(format) => Ok(format),
        Startup::Failed(error) => Err(error),
        Startup::Exited => Err(
            Error::Native("Core Audio capture thread exited during startup".to_owned()),
        ),
    }
}

/// The native audio system that captures.
#[derive(Clone, Copy, Debug, Eq, PartialEq, Structural)]
pub enum AudioSystem {
    Wasapi,
    CoreAudio,
}

/// The number of frames in a packet: those of a fiftieth of a second. With WASAPI
/// it is at least one.
pub open spec fn packet_frames(system: AudioSystem, sample_rate: u32) -> int {
    if system == AudioSystem::Wasapi && sample_rate < 50 {
        1
    } else {
        sample_rate as int / 50
    }
}

/// The number of samples in a packet: one of each channel for every frame.
pub open spec fn packet_size(system: AudioSystem, format: AudioFormat) -> int {
    packet_frames(system, format.sample_rate) * format.channels
}

/// Tells how many samples make a packet.
pub fn packet_samples(system: AudioSystem, format: AudioFormat) -> (samples: usize)
    requires
        packet_size(system, format) <= usize::MAX,
    ensures
        samples == packet_size(system, format),
{
    let frames: u32 = match system {
        AudioSystem::Wasapi if format.sample_rate < 50 => 1,
        _ => format.sample_rate / 50,
    };
    frames as usize * format.channels as usize
}

/// Tells how many samples the ring between capture and packets holds: two
/// seconds.
pub fn ring_samples(format: AudioFormat) -> (samples: usize)
    requires
        format.sample_rate * format.channels * 2 <= usize::MAX,
    ensures
        samples == format.sample_rate * format.channels * 2,
{
    assert(format.sample_rate * format.channels <= usize::MAX);
    format.sample_rate as usize * format.channels as usize * 2
}

/// Makes a packet of `samples`, of which the first `count` were filled in. Only
/// a whole packet is delivered.
pub fn whole_packet<S: Copy>(format: AudioFormat, samples: &[S], count: usize) -> (r: Option<
    AudioFrame<S>,
>)
    ensures
        match r {
            Some(frame) => {
                &&& count == samples@.len()
                &&& frame.format == format
                &&& frame.samples@ == samples@
            },
            None => count != samples@.len(),
        },
{
    let length: usize = samples.len();
    if count != length {
        return None;
    }
    let mut copied: Vec<S> = Vec::new();
    for i in 0..length
        invariant
            length == samples@.len(),
            copied@ == samples@.take(i as int),
    {
        copied.push(samples[i]);
        assert(copied@ =~= samples@.take(i + 1));
    }
    assert(copied@ =~= samples@);
    Some(AudioFrame { format, samples: copied })
}

/// Packets are whole: one that is delivered with the size for its format holds
/// the same number of samples of each channel. It holds something, unless Core
/// Audio captures fewer than fifty frames in a second.
pub proof fn law_packets_are_aligned(system: AudioSystem, format: AudioFormat)
    requires
        format.channels > 0,
    ensures
        packet_size(system, format) % format.channels as int == 0,
        packet_size(system, format) > 0 <==> system == AudioSystem::Wasapi || format.sample_rate
            >= 50,
{
    let frames = packet_frames(system, format.sample_rate);
    let channels = format.channels as int;
    vstd::arithmetic::div_mod::lemma_mod_multiples_basic(frames, channels);
    assert(frames * channels > 0 <==> frames > 0) by (nonlinear_arith)
        requires
            frames >= 0,
            channels > 0,
    ;
}

/// Stopping ends: a session that has no more workers to wait for is stopped at
/// the next step, and a stopped session stays stopped, so that stopping again
/// does nothing.
pub proof fn law_stopping_is_idempotent(sequence: StopSequence)
    ensures
        stop_step(sequence).1 == StopStep::Stopped ==> stop_step(stop_step(sequence).0) == (
            stop_step(sequence).0,
            StopStep::Stopped,
        ),
        !sequence.capture && !sequence.drain ==> stop_step(sequence).1 == StopStep::Stopped,
{
}

/// No worker is waited for twice.
pub proof fn law_a_worker_is_joined_once(sequence: StopSequence)
    ensures
        stop_step(sequence).1 == StopStep::Join(Worker::Capture) ==> !stop_step(
            sequence,
        ).0.capture,
        stop_step(sequence).1 == StopStep::Join(Worker::Drain) ==> !stop_step(sequence).0.drain,
        stop_step(sequence).0.capture ==> sequence.capture,
        stop_step(sequence).0.drain ==> sequence.drain,
{
}

/// The ring always has room for a packet, wherever there is anything to capture.
pub proof fn law_the_ring_holds_packets(system: AudioSystem, format: AudioFormat)
    requires
        format.sample_rate > 0,
    ensures
        packet_size(system, format) <= format.sample_rate * format.channels * 2,
{
    let frames = packet_frames(system, format.sample_rate);
    assert(frames * format.channels <= format.sample_rate * format.channels * 2)
        by (nonlinear_arith)
        requires
            frames <= format.sample_rate,
            format.channels >= 0,
            format.sample_rate >= 0,
    ;
}

} // verus!
