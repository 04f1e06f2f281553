//! The chain of native objects behind a macOS capture: a tap, a private
//! aggregate device that holds it, and a callback that the device runs.

use vstd::prelude::*;

use crate::capture::AudioFormat;
use crate::error::{Error, ErrorView};
use crate::platform::macos;
use crate::platform::macos::{check_status, native_error, tap_format};

verus! {

/// What a chain waits for.
#[derive(Clone, Copy, Debug, Eq, PartialEq, Structural)]
pub enum TapStage {
    CreatingTap,
    ReadingFormat,
    CreatingAggregate,
    CreatingIoProc,
    Starting,
    Running,
    Ended,
}

/// The outcome of a native call.
#[derive(Clone, Copy, Debug, Eq, PartialEq, Structural)]
pub enum TapEvent {
    TapCreated { status: i32, tap_id: u32 },
    FormatRead { status: i32, format_flags: u32, sample_rate: u32, channels_per_frame: u32 },
    AggregateCreated { status: i32, aggregate_id: u32 },
    IoProcCreated { status: i32, created: bool },
    DeviceStarted { status: i32 },
}

/// A native object that is given up.
#[derive(Clone, Copy, Debug, Eq, PartialEq, Structural)]
pub enum TapRelease {
    StopDevice,
    DestroyIoProc,
    DestroyAggregate,
    DestroyTap,
}

/// What is to be done next.
pub enum TapAction {
    ReadFormat { tap_id: u32 },
    CreateAggregate,
    CreateIoProc { aggregate_id: u32 },
    StartDevice { aggregate_id: u32 },
    /// The chain runs, with this format.
    Run { format: AudioFormat },
    /// The chain failed: release these objects in this order and report the
    /// error.
    Fail { error: Error, releases: Vec<TapRelease> },
    /// The event is not the one that was waited for: nothing is to be done.
    Ignore,
}

/// The value of a [`TapAction`].
#[verifier::ext_equal]
pub enum TapActionView {
    ReadFormat { tap_id: u32 },
    CreateAggregate,
    CreateIoProc { aggregate_id: u32 },
    StartDevice { aggregate_id: u32 },
    Run { format: AudioFormat },
    Fail { error: ErrorView, releases: Seq<TapRelease> },
    Ignore,
}

impl View for TapAction {
    type V = TapActionView;

    open spec fn view(&self) -> TapActionView {
        match self {
            TapAction::ReadFormat { tap_id } => TapActionView::ReadFormat { tap_id: *tap_id },
            TapAction::CreateAggregate => TapActionView::CreateAggregate,
            TapAction::CreateIoProc { aggregate_id } => TapActionView::CreateIoProc {
                aggregate_id: *aggregate_id,
            },
            TapAction::StartDevice { aggregate_id } => TapActionView::StartDevice {
                aggregate_id: *aggregate_id,
            },
            TapAction::Run { format } => TapActionView::Run { format: *format },
            TapAction::Fail { error, releases } => TapActionView::Fail {
                error: error@,
                releases: releases@,
            },
            TapAction::Ignore => TapActionView::Ignore,
        }
    }
}

/// A chain that is being built, runs, or has ended. An identifier of zero, or
/// no callback, means that there is no such object.
#[derive(Clone, Copy, Debug, Eq, PartialEq, Structural)]
pub struct TapChain {
    pub stage: TapStage,
    pub tap_id: u32,
    pub aggregate_id: u32,
    pub io_proc: bool,
    pub format: AudioFormat,
}

/// The objects of a chain, the newest first.
pub open spec fn held(chain: TapChain) -> Seq<TapRelease> {
    (if chain.io_proc {
        seq![TapRelease::DestroyIoProc]
    } else {
        Seq::empty()
    }) + (if chain.aggregate_id != 0 {
        seq![TapRelease::DestroyAggregate]
    } else {
        Seq::empty()
    }) + (if chain.tap_id != 0 {
        seq![TapRelease::DestroyTap]
    } else {
        Seq::empty()
    })
}

/// A chain that has nothing.
pub open spec fn without_objects(chain: TapChain) -> TapChain {
    TapChain { stage: TapStage::Ended, tap_id: 0, aggregate_id: 0, io_proc: false, ..chain }
}

/// A chain has the objects that its stage needs, and no others.
pub open spec fn is_consistent(chain: TapChain) -> bool {
    match chain.stage {
        TapStage::CreatingTap => chain.tap_id == 0 && chain.aggregate_id == 0 && !chain.io_proc,
        TapStage::ReadingFormat => chain.tap_id != 0 && chain.aggregate_id == 0 && !chain.io_proc,
        TapStage::CreatingAggregate => chain.tap_id != 0 && chain.aggregate_id == 0
            && !chain.io_proc,
        TapStage::CreatingIoProc => chain.tap_id != 0 && chain.aggregate_id != 0 && !chain.io_proc,
        TapStage::Starting => chain.tap_id != 0 && chain.aggregate_id != 0 && chain.io_proc,
        TapStage::Running => chain.tap_id != 0 && chain.aggregate_id != 0 && chain.io_proc,
        TapStage::Ended => chain.tap_id == 0 && chain.aggregate_id == 0 && !chain.io_proc,
    }
}

/// A failure: everything is released.
pub open spec fn failed(chain: TapChain, error: ErrorView) -> (TapChain, TapActionView) {
    (without_objects(chain), TapActionView::Fail { error, releases: held(chain) })
}

/// What an event does to a chain, and what is to be done next.
pub open spec fn tap_step(chain: TapChain, event: TapEvent) -> (TapChain, TapActionView) {
    match (chain.stage, event) {
        (TapStage::CreatingTap, TapEvent::TapCreated { status, tap_id }) => if status != 0 {
            failed(chain, macos::status_error("create process tap"@, status))
        } else if tap_id == 0 {
            failed(chain, ErrorView::Native("Core Audio returned an empty tap ID"@))
        } else {
            (
                TapChain { stage: TapStage::ReadingFormat, tap_id, ..chain },
                TapActionView::ReadFormat { tap_id },
            )
        },
        (
            TapStage::ReadingFormat,
            TapEvent::FormatRead { status, format_flags, sample_rate, channels_per_frame },
        ) => match macos::announced_format(
            status,
            format_flags,
            sample_rate,
            channels_per_frame,
        ) {
            Ok(format) => (
                TapChain { stage: TapStage::CreatingAggregate, format, ..chain },
                TapActionView::CreateAggregate,
            ),
            Err(error) => failed(chain, error),
        },
        (TapStage::CreatingAggregate, TapEvent::AggregateCreated { status, aggregate_id }) =>
            if status != 0 {
            failed(chain, macos::status_error("create private aggregate device"@, status))
        } else if aggregate_id == 0 {
            failed(chain, ErrorView::Native("Core Audio returned an empty aggregate device ID"@))
        } else {
            (
                TapChain { stage: TapStage::CreatingIoProc, aggregate_id, ..chain },
                TapActionView::CreateIoProc { aggregate_id },
            )
        },
        (TapStage::CreatingIoProc, TapEvent::IoProcCreated { status, created }) => if status != 0
            || !created {
            failed(chain, macos::status_error("create Core Audio IOProc"@, status))
        } else {
            (
                TapChain { stage: TapStage::Starting, io_proc: true, ..chain },
                TapActionView::StartDevice { aggregate_id: chain.aggregate_id },
            )
        },
        (TapStage::Starting, TapEvent::DeviceStarted { status }) => if status != 0 {
            failed(chain, macos::status_error("start Core Audio aggregate device"@, status))
        } else {
            (
                TapChain { stage: TapStage::Running, ..chain },
                TapActionView::Run { format: chain.format },
            )
        },
        _ => (chain, TapActionView::Ignore),
    }
}

impl TapChain {
    /// A chain whose tap is being created.
    pub fn new() -> (chain: TapChain)
        ensures
            is_consistent(chain),
            chain == (TapChain {
                stage: TapStage::CreatingTap,
                tap_id: 0,
                aggregate_id: 0,
                io_proc: false,
                format: AudioFormat { sample_rate: 0, channels: 0 },
            }),
    {
        TapChain {
            stage: TapStage::CreatingTap,
            tap_id: 0,
            aggregate_id: 0,
            io_proc: false,
            format: AudioFormat { sample_rate: 0, channels: 0 },
        }
    }

    /// Gives up all objects.
    fn release(&mut self) -> (releases: Vec<TapRelease>)
        ensures
            releases@ == held(*old(self)),
            *final(self) == without_objects(*old(self)),
    {
        let mut releases: Vec<TapRelease> = Vec::new();
        if self.io_proc {
            releases.push(TapRelease::DestroyIoProc);
        }
        if self.aggregate_id != 0 {
            releases.push(TapRelease::DestroyAggregate);
        }
        if self.tap_id != 0 {
            releases.push(TapRelease::DestroyTap);
        }
        assert(releases@ =~= held(*self));
        self.stage = TapStage::Ended;
        self.tap_id = 0;
        self.aggregate_id = 0;
        self.io_proc = false;
        releases
    }

    fn fail(&mut self, error: Error) -> (action: TapAction)
        ensures
            (*final(self), action@) == failed(*old(self), error@),
    {
        let releases = self.release();
        TapAction::Fail { error, releases }
    }

    /// Takes in the outcome of a native call and says what to do next.
    pub fn advance(&mut self, event: TapEvent) -> (action: TapAction)
        ensures
            (*final(self), action@) == tap_step(*old(self), event),
    {
        match (self.stage, event) {
            (TapStage::CreatingTap, TapEvent::TapCreated { status, tap_id }) => {
                match check_status("create process tap", status) {
                    Ok(_) => {},
                    Err(error) => return self.fail(error),
                }
                if tap_id == 0 {
                    return self.fail(
                        Error::Native("Core Audio returned an empty tap ID".to_owned()),
                    );
                }
                self.stage = TapStage::ReadingFormat;
                self.tap_id = tap_id;
                TapAction::ReadFormat { tap_id }
            },
            (
                TapStage::ReadingFormat,
                TapEvent::FormatRead { status, format_flags, sample_rate, channels_per_frame },
            ) => match tap_format(status, format_flags, sample_rate, channels_per_frame) {
                Ok(format) => {
                    self.stage = TapStage::CreatingAggregate;
                    self.format = format;
                    TapAction::CreateAggregate
                },
                Err(error) => self.fail(error),
            },
            (TapStage::CreatingAggregate, TapEvent::AggregateCreated { status, aggregate_id }) => {
                match check_status("create private aggregate device", status) {
                    Ok(_) => {},
                    Err(error) => return self.fail(error),
                }
                if aggregate_id == 0 {
                    return self.fail(
                        Error::Native(
                            "Core Audio returned an empty aggregate device ID".to_owned(),
                        ),
                    );
                }
                self.stage = TapStage::CreatingIoProc;
                self.aggregate_id = aggregate_id;
                TapAction::CreateIoProc { aggregate_id }
            },
            (TapStage::CreatingIoProc, TapEvent::IoProcCreated { status, created }) => {
                if status != 0 || !created {
                    return self.fail(native_error("create Core Audio IOProc", status));
                }
                self.stage = TapStage::Starting;
                self.io_proc = true;
                TapAction::StartDevice { aggregate_id: self.aggregate_id }
            },
            (TapStage::Starting, TapEvent::DeviceStarted { status }) => {
                if status != 0 {
                    return self.fail(native_error("start Core Audio aggregate device", status));
                }
                self.stage = TapStage::Running;
                TapAction::Run { format: self.format }
            },
            _ => TapAction::Ignore,
        }
    }

    /// Ends a chain: says what to stop and release, in order.
    pub fn end(&mut self) -> (releases: Vec<TapRelease>)
        ensures
            releases@ == (if old(self).io_proc {
                seq![TapRelease::StopDevice]
            } else {
                Seq::empty()
            }) + held(*old(self)),
            *final(self) == without_objects(*old(self)),
    {
        let mut releases: Vec<TapRelease> = Vec::new();
        if self.io_proc {
            releases.push(TapRelease::StopDevice);
        }
        let mut objects = self.release();
        releases.append(&mut objects);
        assert(releases@ =~= (if old(self).io_proc {
            seq![TapRelease::StopDevice]
        } else {
            Seq::empty()
        }) + held(*old(self)));
        releases
    }
}

/// A chain has at every step the objects that its stage needs, and no others.
pub proof fn law_chain_stays_consistent(chain: TapChain, event: TapEvent)
    requires
        is_consistent(chain),
    ensures
        is_consistent(tap_step(chain, event).0),
        is_consistent(without_objects(chain)),
{
}

/// A chain that fails leaves nothing behind: whatever it had when the failure
/// came is released, the newest first, and it ends with nothing.
pub proof fn law_failure_leaves_nothing_behind(chain: TapChain, event: TapEvent)
    ensures
        tap_step(chain, event).1 matches TapActionView::Fail { releases, .. } ==> {
            &&& releases == held(chain)
            &&& held(tap_step(chain, event).0) == Seq::<TapRelease>::empty()
            &&& tap_step(chain, event).0.stage == TapStage::Ended
        },
{
    assert(held(without_objects(chain)) =~= Seq::<TapRelease>::empty());
}

/// A chain that was ended has nothing left, so that ending it again releases
/// nothing.
pub proof fn law_ending_leaves_nothing_behind(chain: TapChain)
    ensures
        held(without_objects(chain)) == Seq::<TapRelease>::empty(),
        without_objects(without_objects(chain)) == without_objects(chain),
{
    assert(held(without_objects(chain)) =~= Seq::<TapRelease>::empty());
}

/// A chain that runs was told a format that can be captured.
pub proof fn law_a_running_chain_has_a_format(chain: TapChain, event: TapEvent)
    requires
        chain.stage == TapStage::Starting || chain.stage == TapStage::CreatingIoProc || chain.stage
            == TapStage::CreatingAggregate || chain.stage == TapStage::Running ==> (
        chain.format.sample_rate != 0 && chain.format.channels != 0),
    ensures
        ({
            let next = tap_step(chain, event).0;
            next.stage == TapStage::Starting || next.stage == TapStage::CreatingIoProc || next.stage
                == TapStage::CreatingAggregate || next.stage == TapStage::Running ==> (
            next.format.sample_rate != 0 && next.format.channels != 0)
        }),
        tap_step(chain, event).1 matches TapActionView::Run { format } ==> format.sample_rate != 0
            && format.channels != 0,
{
}

/// What a tap is asked to capture.
pub struct TapDescription {
    pub name: String,
    pub is_private: bool,
    /// The process whose stereo mix is taken; the mix of all processes where
    /// there is none.
    pub process_object: Option<u32>,
}

/// Describes the tap on a process, or on everything.
pub fn describe_tap(process_object: Option<u32>) -> (description: TapDescription)
    ensures
        description.name@ == "Vapor Tap Process Capture"@,
        description.is_private,
        description.process_object == process_object,
{
    TapDescription {
        name: "Vapor Tap Process Capture".to_owned(),
        is_private: true,
        process_object,
    }
}

/// The aggregate device that holds a tap.
pub struct AggregateDescription {
    pub name: String,
    pub uid: String,
    pub is_private: bool,
    pub is_stacked: bool,
    pub tap_auto_start: bool,
    /// The only tap of the device.
    pub tap_uid: String,
    pub drift_compensation: bool,
}

/// Describes the device, with a fresh identifier, that holds a tap: hidden from
/// other programs, not stacked, started together with its tap, and with the
/// drift of the tap's clock compensated.
pub fn describe_aggregate(uid: String, tap_uid: String) -> (description: AggregateDescription)
    ensures
        description.name@ == "Vapor Tap Private Aggregate"@,
        description.uid == uid,
        description.is_private,
        !description.is_stacked,
        description.tap_auto_start,
        description.tap_uid == tap_uid,
        description.drift_compensation,
{
    AggregateDescription {
        name: "Vapor Tap Private Aggregate".to_owned(),
        uid,
        is_private: true,
        is_stacked: false,
        tap_auto_start: true,
        tap_uid,
        drift_compensation: true,
    }
}

} // verus!
