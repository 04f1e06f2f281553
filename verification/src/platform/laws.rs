//! What is captured, listed and reported, in terms of what the operating system
//! says.

use vstd::prelude::*;

use crate::capture::{ApplicationView, AudioFormat, CaptureMode, SourceView};
use crate::error::ErrorView;
use crate::platform;
use crate::platform::macos;
use crate::platform::session;
use crate::platform::session::{AudioSystem, StopSequence, StopStep, Worker};
use crate::platform::tap;
use crate::platform::tap::{TapAction, TapActionView, TapChain, TapEvent, TapRelease, TapStage};
use crate::platform::windows;
use crate::platform::windows::{AudioSession, SessionView};
use crate::platform::{AudioProcess, CapturePlan, OperatingSystem, PlanView, ProcessListing};
use crate::text;

verus! {

/// An output device that is asked for is the one that is captured, on every
/// Windows and whatever its build; without a name it is the default one.
pub proof fn law_the_named_device_is_captured(
    name: Option<Seq<char>>,
    status: i32,
    major: u32,
    build: u32,
)
    ensures
        platform::planned(
            SourceView::OutputDevice { name },
            OperatingSystem::Windows { status, major, build },
        ) == Ok::<_, ErrorView>(PlanView::WindowsOutput { device: name }),
{
}

/// A process that is asked for is the one that is captured, wherever it can be
/// isolated: on a Windows from build 20348 on, and on a macOS from 14.2 on. An
/// older build of a Windows captures the default output, whatever the process. A
/// Windows before the tenth, or one that does not tell its version, and an older
/// macOS capture none.
pub proof fn law_the_process_asked_for_is_captured(
    pid: u32,
    status: i32,
    major: u32,
    build: u32,
    mac_major: i64,
    mac_minor: i64,
)
    ensures
        ({
            let source = SourceView::Process { pid };
            let windows = platform::planned(
                source,
                OperatingSystem::Windows { status, major, build },
            );
            let mac = platform::planned(
                source,
                OperatingSystem::MacOs { major: mac_major, minor: mac_minor },
            );
            let recent = mac_major > 14 || (mac_major == 14 && mac_minor >= 2);
            &&& status >= 0 && major >= 10 && build >= 20_348 ==> windows == Ok::<_, ErrorView>(
                PlanView::WindowsProcess { pid },
            )
            &&& status >= 0 && major >= 10 && build < 20_348 ==> windows == Ok::<_, ErrorView>(
                PlanView::WindowsOutput { device: None },
            )
            &&& status >= 0 && major < 10 ==> windows == Err::<PlanView, _>(
                ErrorView::UnsupportedOsVersion,
            )
            &&& status < 0 ==> windows == Err::<PlanView, _>(
                ErrorView::Native(
                    "RtlGetVersion failed with NTSTATUS 0x"@ + text::hexadecimal(
                        (status + 4_294_967_296) as nat,
                    ),
                ),
            )
            &&& recent ==> mac == Ok::<_, ErrorView>(PlanView::MacProcessTap { pid })
            &&& !recent ==> mac == Err::<PlanView, _>(ErrorView::UnsupportedOsVersion)
            &&& platform::planned(source, OperatingSystem::Other) == Err::<PlanView, _>(
                ErrorView::UnsupportedPlatform("vapor-tap supports Windows 10+ and macOS 14.2+"@),
            )
        }),
{
}

/// Outside Windows an output cannot be chosen by name: on a macOS from 14.2 on all
/// output is captured where none is named, and a name is refused; elsewhere
/// nothing is captured.
pub proof fn law_only_windows_has_named_outputs(
    name: Option<Seq<char>>,
    major: i64,
    minor: i64,
)
    ensures
        ({
            let source = SourceView::OutputDevice { name };
            let mac = platform::planned(source, OperatingSystem::MacOs { major, minor });
            let recent = major > 14 || (major == 14 && minor >= 2);
            &&& recent && name is None ==> mac == Ok::<_, ErrorView>(PlanView::MacGlobalTap)
            &&& recent && name is Some ==> mac == Err::<PlanView, _>(
                ErrorView::UnsupportedPlatform(
                    "named output devices are available only on Windows"@,
                ),
            )
            &&& !recent ==> mac == Err::<PlanView, _>(ErrorView::UnsupportedOsVersion)
            &&& platform::planned(source, OperatingSystem::Other) == Err::<PlanView, _>(
                ErrorView::UnsupportedPlatform("vapor-tap supports Windows 10+ and macOS 14.2+"@),
            )
        }),
{
}

/// Which systems can isolate a process: a Windows from build 20348 on and a macOS
/// from 14.2 on. A Windows 10 before that build cannot, which is no error.
pub proof fn law_which_systems_isolate(system: OperatingSystem)
    ensures
        match system {
            OperatingSystem::Windows { status, major, build } => {
                &&& status >= 0 && major >= 10 ==> platform::isolation(system) == Ok::<
                    _,
                    ErrorView,
                >(build >= 20_348)
                &&& status >= 0 && major < 10 ==> platform::isolation(system) == Err::<bool, _>(
                    ErrorView::UnsupportedOsVersion,
                )
                &&& status < 0 ==> platform::isolation(system) == Err::<bool, _>(
                    ErrorView::Native(
                        "RtlGetVersion failed with NTSTATUS 0x"@ + text::hexadecimal(
                            (status + 4_294_967_296) as nat,
                        ),
                    ),
                )
                &&& windows::build_of(status, major, build) is Ok <==> status >= 0 && major >= 10
                &&& windows::build_of(status, major, build) matches Ok(told) ==> told == build
                &&& windows::build_of(status, major, build) matches Err(error)
                    ==> platform::isolation(system) == Err::<bool, _>(error)
            },
            OperatingSystem::MacOs { major, minor } => {
                let recent = major > 14 || (major == 14 && minor >= 2);
                &&& macos::is_supported_version(major, minor) == recent
                &&& platform::isolation(system) == if recent {
                    Ok::<_, ErrorView>(true)
                } else {
                    Err(ErrorView::UnsupportedOsVersion)
                }
            },
            OperatingSystem::Other => platform::isolation(system) == Err::<bool, _>(
                ErrorView::UnsupportedPlatform(
                    "process audio capture is available only on Windows and macOS"@,
                ),
            ),
        },
{
}

/// A plan is seen whole, and says truly whether it isolates a process.
pub proof fn law_plans_are_seen_whole(plan: CapturePlan)
    ensures
        match plan {
            CapturePlan::WindowsProcess { pid } => plan@ == (PlanView::WindowsProcess { pid })
                && plan@.mode() == CaptureMode::ProcessLoopback,
            CapturePlan::WindowsOutput { device: Some(device) } => plan@ == (
            PlanView::WindowsOutput { device: Some(device@) }) && plan@.mode()
                == CaptureMode::OutputLoopback,
            CapturePlan::WindowsOutput { device: None } => plan@ == (PlanView::WindowsOutput {
                device: None,
            }) && plan@.mode() == CaptureMode::OutputLoopback,
            CapturePlan::MacProcessTap { pid } => plan@ == (PlanView::MacProcessTap { pid })
                && plan@.mode() == CaptureMode::ProcessLoopback,
            CapturePlan::MacGlobalTap => plan@ == PlanView::MacGlobalTap && plan@.mode()
                == CaptureMode::OutputLoopback,
        },
{
}

/// The applications of a process list are those of the processes that have
/// running output, all of them and no others, in the order of the list.
pub proof fn law_running_applications_are_listed(processes: Seq<AudioProcess>)
    ensures
        platform::running_applications(processes) == processes.filter(
            |process: AudioProcess| process.is_running_output,
        ).map_values(|process: AudioProcess| process.application@),
    decreases processes.len(),
{
    reveal(Seq::filter);
    let runs = |process: AudioProcess| process.is_running_output;
    let shown = |process: AudioProcess| process.application@;
    if processes.len() > 0 {
        law_running_applications_are_listed(processes.drop_last());
        let front = processes.drop_last().filter(runs);
        assert(platform::running_applications(processes) =~= processes.filter(runs).map_values(
            shown,
        ));
    } else {
        assert(platform::running_applications(processes) =~= processes.filter(runs).map_values(
            shown,
        ));
    }
}

/// What a process does not change: the applications that are listed of a list of
/// processes are those of its first part and then those of its second.
pub proof fn law_listing_goes_process_by_process(a: Seq<AudioProcess>, b: Seq<AudioProcess>)
    ensures
        platform::running_applications(a + b) == platform::running_applications(a)
            + platform::running_applications(b),
    decreases b.len(),
{
    if b.len() == 0 {
        assert(a + b =~= a);
        assert(platform::running_applications(a) + platform::running_applications(b)
            =~= platform::running_applications(a));
    } else {
        law_listing_goes_process_by_process(a, b.drop_last());
        assert((a + b).drop_last() =~= a + b.drop_last());
        assert(platform::running_applications(a + b) =~= platform::running_applications(a)
            + platform::running_applications(b));
    }
}

/// A listing shows the applications of what it holds; what cannot be listed is
/// an error, and an error is handed on as it is.
pub proof fn law_listings_are_shown(listing: ProcessListing)
    ensures
        match listing {
            ProcessListing::Processes(processes) => platform::listed_applications(listing) == Ok::<
                _,
                ErrorView,
            >(
                processes@.filter(|process: AudioProcess| process.is_running_output).map_values(
                    |process: AudioProcess| process.application@,
                ),
            ),
            ProcessListing::Sessions(sessions) => platform::listed_applications(listing) == Ok::<
                _,
                ErrorView,
            >(
                windows::session_applications(
                    sessions@.map_values(|session: AudioSession| session@),
                ),
            ),
            ProcessListing::Failed(error) => platform::listed_applications(listing) == Err::<
                Seq<ApplicationView>,
                _,
            >(error@),
            ProcessListing::Unavailable => platform::listed_applications(listing) == Err::<
                Seq<ApplicationView>,
                _,
            >(
                ErrorView::UnsupportedPlatform(
                    "audio application discovery is available only on Windows and macOS"@,
                ),
            ),
        },
{
    if let ProcessListing::Processes(processes) = listing {
        law_running_applications_are_listed(processes@);
    }
    if let ProcessListing::Sessions(sessions) = listing {
        assert(windows::session_views(sessions@) =~= sessions@.map_values(
            |session: AudioSession| session@,
        ));
    }
}

/// A session is seen whole, and sessions are seen each in its place.
pub proof fn law_sessions_are_seen_whole(
    session: AudioSession,
    sessions: Seq<AudioSession>,
    i: int,
)
    ensures
        windows::session_views(sessions).len() == sessions.len(),
        0 <= i < sessions.len() ==> windows::session_views(sessions)[i] == sessions[i]@,
        session@.pid == session.pid,
        session@.name == session.name@,
        session.identifier matches Some(identifier) ==> session@.identifier == Some(identifier@),
        session.identifier is None ==> session@.identifier is None,
        session@.device == session.device@,
        session@.is_active == session.is_active,
{
}

/// The name of a file is the end of its path behind the last backslash, and the
/// whole path where there is none.
pub proof fn law_a_file_name_follows_the_last_backslash(path: Seq<char>)
    ensures
        ({
            let name = platform::file_name(path);
            let start = path.len() - name.len();
            &&& 0 <= start
            &&& name == path.skip(start)
            &&& !name.contains('\\')
            &&& start > 0 ==> path[start - 1] == '\\'
        }),
    decreases path.len(),
{
    let name = platform::file_name(path);
    if path.len() == 0 || path.last() == '\\' {
        assert(name =~= path.skip(path.len() as int));
    } else {
        let front = path.drop_last();
        let shorter = platform::file_name(front);
        law_a_file_name_follows_the_last_backslash(front);
        let start = path.len() - name.len();
        assert(name =~= path.skip(start));
        assert forall|i: int| 0 <= i < name.len() implies name[i] != '\\' by {
            if i < shorter.len() {
                assert(shorter.contains(shorter[i]));
            }
        }
    }
}

/// With one more session, everything that was listed stays where it is: each
/// application keeps its PID, its name, its identifier and its endpoints, in
/// order. An active session of a process adds its endpoint to the application of
/// that process, behind the others and only where it is new, or else one
/// application, behind the others, with what the session tells. Any other
/// session adds nothing.
pub proof fn law_a_session_adds_what_it_tells(sessions: Seq<SessionView>, session: SessionView)
    ensures
        ({
            let before = windows::session_applications(sessions);
            let after = windows::session_applications(sessions.push(session));
            let counts = session.is_active && session.pid != 0;
            let known = exists|i: int|
                0 <= i < before.len() && (#[trigger] before[i]).pid == session.pid;
            &&& !counts ==> after == before
            &&& counts && !known ==> {
                &&& after.len() == before.len() + 1
                &&& after.drop_last() == before
                &&& after.last().pid == session.pid
                &&& after.last().name == session.name
                &&& after.last().identifier == session.identifier
                &&& after.last().output_devices == seq![session.device]
            }
            &&& counts && known ==> {
                &&& after.len() == before.len()
                &&& forall|i: int|
                    #![trigger after[i]]
                    0 <= i < after.len() ==> {
                        &&& after[i].pid == before[i].pid
                        &&& after[i].name == before[i].name
                        &&& after[i].identifier == before[i].identifier
                        &&& after[i].output_devices == if before[i].pid == session.pid
                            && !before[i].output_devices.contains(session.device) {
                            before[i].output_devices.push(session.device)
                        } else {
                            before[i].output_devices
                        }
                    }
            }
        }),
        windows::session_applications(Seq::empty()).len() == 0,
{
    let before = windows::session_applications(sessions);
    let all = sessions.push(session);
    let after = windows::session_applications(all);
    assert(all.drop_last() =~= sessions);
    windows::law_applications_are_listed_once(sessions);
    if session.is_active && session.pid != 0 {
        if exists|i: int| 0 <= i < before.len() && (#[trigger] before[i]).pid == session.pid {
            let i = choose|i: int|
                0 <= i < before.len() && (#[trigger] before[i]).pid == session.pid;
            assert forall|k: int| 0 <= k < i implies (#[trigger] before[k]).pid
                != session.pid by {
                assert(before[k].pid != before[i].pid);
            }
            windows::lemma_session_of_known_application(before, session, i);
            assert forall|k: int| 0 <= k < before.len() && k != i implies (
            #[trigger] before[k]).pid != session.pid by {
                if k > i {
                    assert(before[i].pid != before[k].pid);
                }
            }
        } else {
            windows::lemma_session_of_new_application(before, session);
            assert(after.drop_last() =~= before);
        }
    }
}

/// Every endpoint of a listed application is that of one of its active sessions,
/// and none is listed twice.
pub proof fn law_endpoints_come_from_sessions(sessions: Seq<SessionView>, k: int, d: int) -> (place:
    int)
    requires
        0 <= k < windows::session_applications(sessions).len(),
        0 <= d < windows::session_applications(sessions)[k].output_devices.len(),
    ensures
        0 <= place < sessions.len(),
        sessions[place].is_active,
        sessions[place].pid == windows::session_applications(sessions)[k].pid,
        sessions[place].pid != 0,
        sessions[place].device == windows::session_applications(sessions)[k].output_devices[d],
    decreases sessions.len(),
{
    let front = sessions.drop_last();
    let last = sessions.last();
    let before = windows::session_applications(front);
    let after = windows::session_applications(sessions);
    assert(front.push(last) =~= sessions);
    law_a_session_adds_what_it_tells(front, last);
    if k < before.len() && d < before[k].output_devices.len() {
        assert(after[k].output_devices[d] == before[k].output_devices[d]) by {
            assert(after.drop_last() == before ==> after[k] == after.drop_last()[k]);
        }
        law_endpoints_come_from_sessions(front, k, d)
    } else {
        sessions.len() - 1
    }
}

/// How a packet is sized. It holds whole frames, and at a rate of fifty frames in
/// a second or more as many as fit in a fiftieth of it. At a lower rate it holds
/// one frame with WASAPI and none with Core Audio.
pub proof fn law_a_packet_holds_a_fiftieth_of_a_second(system: AudioSystem, format: AudioFormat)
    ensures
        ({
            let size = session::packet_size(system, format);
            let frames = format.sample_rate as int / 50;
            &&& format.sample_rate >= 50 ==> size == frames * format.channels
            &&& format.sample_rate < 50 && system == AudioSystem::Wasapi ==> size == format.channels
            &&& format.sample_rate < 50 && system == AudioSystem::CoreAudio ==> size == 0
        }),
{
    assert(1 * format.channels == format.channels) by (nonlinear_arith);
    assert(0 * format.channels == 0) by (nonlinear_arith);
}

/// Stopping waits for the workers that are left, the capture first, one at each
/// step; only where none is left the session is stopped.
pub proof fn law_stopping_waits_for_every_worker(sequence: StopSequence)
    ensures
        ({
            let (next, step) = session::stop_step(sequence);
            &&& sequence.stopped ==> next == sequence && step == StopStep::Stopped
            &&& !sequence.stopped && sequence.capture ==> step == StopStep::Join(Worker::Capture)
                && !next.capture && next.drain == sequence.drain && !next.stopped
            &&& !sequence.stopped && !sequence.capture && sequence.drain ==> step
                == StopStep::Join(Worker::Drain) && !next.capture && !next.drain && !next.stopped
            &&& !sequence.stopped && !sequence.capture && !sequence.drain ==> step
                == StopStep::Stopped && !next.capture && !next.drain && next.stopped
        }),
{
}

/// A status is shown as its four characters, highest byte first, where all of
/// them are visible, and as a number otherwise. The refused permission is
/// reported as such.
pub proof fn law_statuses_are_shown(context: Seq<char>, status: i32)
    ensures
        ({
            let bits: int = if status < 0 {
                status + 4_294_967_296
            } else {
                status as int
            };
            let a = bits / 16_777_216;
            let b = bits / 65_536 % 256;
            let c = bits / 256 % 256;
            let d = bits % 256;
            let visible = 33 <= a <= 126 && 33 <= b <= 126 && 33 <= c <= 126 && 33 <= d <= 126;
            let shown = macos::status_detail(status);
            &&& windows::status_bits(status) == bits
            &&& visible ==> shown.len() == 6 && shown[0] == '\'' && shown[5] == '\'' && shown[1] as int
                == a && shown[2] as int == b && shown[3] as int == c && shown[4] as int == d
            &&& !visible ==> shown == text::signed_decimal(status as int)
            &&& macos::status_error(context, status) == if status == 0x6e6f_7065 {
                ErrorView::PermissionDenied
            } else {
                ErrorView::Native(context + ": OSStatus "@ + shown)
            }
        }),
{
    let bytes = macos::status_bytes(status);
    assert(bytes.len() == 4);
    if forall|i: int| 0 <= i < 4 ==> macos::is_graphic(#[trigger] bytes[i]) {
        assert(macos::is_graphic(bytes[0]));
        assert(macos::is_graphic(bytes[1]));
        assert(macos::is_graphic(bytes[2]));
        assert(macos::is_graphic(bytes[3]));
    }
}

/// A tap is captured in the format that it announces, if that can be: its call
/// must succeed, its lowest flag tell floating-point samples, and its rate and
/// the lower 16 bits of its channel count not be zero.
pub proof fn law_the_announced_format_is_taken(
    status: i32,
    flags: u32,
    sample_rate: u32,
    channels: u32,
)
    ensures
        ({
            let format = macos::announced_format(status, flags, sample_rate, channels);
            &&& format is Ok <==> status == 0 && flags % 2 == 1 && sample_rate != 0 && channels
                % 65_536 != 0
            &&& format matches Ok(format) ==> format.sample_rate == sample_rate && format.channels
                == channels % 65_536
            &&& status != 0 ==> format == Err::<AudioFormat, _>(
                macos::status_error("read process tap format"@, status),
            )
            &&& status == 0 && flags % 2 == 0 ==> format == Err::<AudioFormat, _>(
                ErrorView::Native("Core Audio process tap did not provide floating-point PCM"@),
            )
            &&& status == 0 && flags % 2 == 1 && (sample_rate == 0 || channels % 65_536 == 0)
                ==> format == Err::<AudioFormat, _>(
                ErrorView::Native("Core Audio returned an invalid tap format"@),
            )
        }),
{
}

/// The shortest buffer sets the length: none is shorter, and one is that short. A
/// missing one counts as empty, and without buffers there is nothing.
pub proof fn law_the_shortest_buffer_sets_the_length<T>(buffers: Seq<Option<&[T]>>)
    ensures
        buffers.len() == 0 ==> macos::shortest(buffers) == 0,
        forall|i: int|
            #![trigger buffers[i]]
            0 <= i < buffers.len() ==> macos::shortest(buffers) <= (match buffers[i] {
                Some(samples) => samples@.len(),
                None => 0,
            }),
        buffers.len() > 0 ==> exists|i: int|
            #![trigger buffers[i]]
            0 <= i < buffers.len() && macos::shortest(buffers) == (match buffers[i] {
                Some(samples) => samples@.len(),
                None => 0,
            }),
    decreases buffers.len(),
{
    if buffers.len() > 0 {
        let front = buffers.drop_last();
        law_the_shortest_buffer_sets_the_length(front);
        assert(buffers.last() == buffers[buffers.len() - 1]);
        assert forall|i: int|
            #![trigger buffers[i]]
            0 <= i < buffers.len() implies macos::shortest(buffers) <= (match buffers[i] {
            Some(samples) => samples@.len(),
            None => 0,
        }) by {
            if i < front.len() {
                assert(front[i] == buffers[i]);
            }
        }
        if front.len() > 0 && macos::shortest(buffers) == macos::shortest(front) {
            let i = choose|i: int|
                #![trigger front[i]]
                0 <= i < front.len() && macos::shortest(front) == (match front[i] {
                    Some(samples) => samples@.len(),
                    None => 0,
                });
            assert(buffers[i] == front[i]);
        }
    }
}

/// What is copied out of buffers: one alone as it is; of several, the first
/// sample of each, then the second of each, as far as the shortest goes. There is
/// nothing to copy without buffers, where one is missing, and where one of
/// several is empty, and in no other case.
pub proof fn law_what_is_copied_out_of_buffers<T>(buffers: Seq<Option<&[T]>>)
    ensures
        buffers.len() == 1 ==> (buffers[0] matches Some(samples) ==> macos::interleaved(buffers)
            == samples@),
        buffers.len() != 1 || buffers[0] is None ==> macos::interleaved(buffers).len()
            == macos::shortest(buffers) * buffers.len(),
        forall|frame: int, channel: int|
            buffers.len() > 1 && 0 <= frame < macos::shortest(buffers) && 0 <= channel
                < buffers.len() ==> #[trigger] macos::interleaved(buffers)[frame * buffers.len()
                + channel] == buffers[channel]->0@[frame],
        macos::is_nothing(buffers) <==> {
            ||| buffers.len() == 0
            ||| exists|i: int| 0 <= i < buffers.len() && (#[trigger] buffers[i]) is None
            ||| buffers.len() > 1 && exists|i: int|
                #![trigger buffers[i]]
                0 <= i < buffers.len() && buffers[i] is Some && buffers[i]->0@.len() == 0
        },
{
    law_the_shortest_buffer_sets_the_length(buffers);
    assert forall|frame: int, channel: int|
        buffers.len() > 1 && 0 <= frame < macos::shortest(buffers) && 0 <= channel
            < buffers.len() implies #[trigger] macos::interleaved(buffers)[frame * buffers.len()
        + channel] == buffers[channel]->0@[frame] by {
        macos::law_samples_stand_in_frame_order(buffers, frame, channel);
    }
    if buffers.len() > 0 && macos::is_nothing(buffers) {
        let i = choose|i: int|
            #![trigger buffers[i]]
            0 <= i < buffers.len() && macos::shortest(buffers) == (match buffers[i] {
                Some(samples) => samples@.len(),
                None => 0,
            });
        assert(buffers[i] is None || buffers[i]->0@.len() == 0);
    }
}

/// How a chain is built, step by step: a tap, its format, an aggregate device, a
/// callback, and then the device is started. Each step keeps what the chain has,
/// adds what was made, and asks for the next with what was made.
pub proof fn law_a_chain_is_built_step_by_step(
    chain: TapChain,
    tap_id: u32,
    aggregate_id: u32,
    flags: u32,
    sample_rate: u32,
    channels: u32,
)
    ensures
        chain.stage == TapStage::CreatingTap && tap_id != 0 ==> tap::tap_step(
            chain,
            TapEvent::TapCreated { status: 0, tap_id },
        ) == (
            TapChain { stage: TapStage::ReadingFormat, tap_id, ..chain },
            TapActionView::ReadFormat { tap_id },
        ),
        chain.stage == TapStage::ReadingFormat ==> (macos::announced_format(
            0,
            flags,
            sample_rate,
            channels,
        ) matches Ok(format) ==> tap::tap_step(
            chain,
            TapEvent::FormatRead {
                status: 0,
                format_flags: flags,
                sample_rate,
                channels_per_frame: channels,
            },
        ) == (
            TapChain { stage: TapStage::CreatingAggregate, format, ..chain },
            TapActionView::CreateAggregate,
        )),
        chain.stage == TapStage::CreatingAggregate && aggregate_id != 0 ==> tap::tap_step(
            chain,
            TapEvent::AggregateCreated { status: 0, aggregate_id },
        ) == (
            TapChain { stage: TapStage::CreatingIoProc, aggregate_id, ..chain },
            TapActionView::CreateIoProc { aggregate_id },
        ),
        chain.stage == TapStage::CreatingIoProc ==> tap::tap_step(
            chain,
            TapEvent::IoProcCreated { status: 0, created: true },
        ) == (
            TapChain { stage: TapStage::Starting, io_proc: true, ..chain },
            TapActionView::StartDevice { aggregate_id: chain.aggregate_id },
        ),
        chain.stage == TapStage::Starting ==> tap::tap_step(
            chain,
            TapEvent::DeviceStarted { status: 0 },
        ) == (
            TapChain { stage: TapStage::Running, ..chain },
            TapActionView::Run { format: chain.format },
        ),
{
}

/// A chain fails exactly where the call that it waits for failed or gave nothing,
/// and says which call it was. Whatever it has is
/// then released, the newest first: the callback, the aggregate device and the
/// tap, each exactly where there is one; and it ends with nothing.
pub proof fn law_a_failed_chain_is_taken_down(chain: TapChain, event: TapEvent)
    ensures
        ({
            let (next, action) = tap::tap_step(chain, event);
            let failure = match (chain.stage, event) {
                (TapStage::CreatingTap, TapEvent::TapCreated { status, tap_id }) => if status != 0 {
                    Some(macos::status_error("create process tap"@, status))
                } else if tap_id == 0 {
                    Some(ErrorView::Native("Core Audio returned an empty tap ID"@))
                } else {
                    None
                },
                (
                    TapStage::ReadingFormat,
                    TapEvent::FormatRead { status, format_flags, sample_rate, channels_per_frame },
                ) => match macos::announced_format(status, format_flags, sample_rate, channels_per_frame) {
                    Err(error) => Some(error),
                    Ok(_) => None,
                },
                (TapStage::CreatingAggregate, TapEvent::AggregateCreated { status, aggregate_id }) =>
                    if status != 0 {
                    Some(macos::status_error("create private aggregate device"@, status))
                } else if aggregate_id == 0 {
                    Some(ErrorView::Native("Core Audio returned an empty aggregate device ID"@))
                } else {
                    None
                },
                (TapStage::CreatingIoProc, TapEvent::IoProcCreated { status, created }) => if status != 0
                    || !created {
                    Some(macos::status_error("create Core Audio IOProc"@, status))
                } else {
                    None
                },
                (TapStage::Starting, TapEvent::DeviceStarted { status }) => if status != 0 {
                    Some(macos::status_error("start Core Audio aggregate device"@, status))
                } else {
                    None
                },
                _ => None,
            };
            &&& action is Fail <==> failure is Some
            &&& failure matches Some(error) ==> {
                &&& action matches TapActionView::Fail { error: reported, releases }
                &&& reported == error
                &&& releases.contains(TapRelease::DestroyIoProc) == chain.io_proc
                &&& releases.contains(TapRelease::DestroyAggregate) == (chain.aggregate_id != 0)
                &&& releases.contains(TapRelease::DestroyTap) == (chain.tap_id != 0)
                &&& !releases.contains(TapRelease::StopDevice)
                &&& next.stage == TapStage::Ended
                &&& next.tap_id == 0
                &&& next.aggregate_id == 0
                &&& !next.io_proc
                &&& next.format == chain.format
            }
        }),
{
    law_objects_are_released_newest_first(chain);
}

/// What a chain has is released once each, and the newest first.
pub proof fn law_objects_are_released_newest_first(chain: TapChain)
    ensures
        ({
            let held = tap::held(chain);
            &&& held.contains(TapRelease::DestroyIoProc) == chain.io_proc
            &&& held.contains(TapRelease::DestroyAggregate) == (chain.aggregate_id != 0)
            &&& held.contains(TapRelease::DestroyTap) == (chain.tap_id != 0)
            &&& !held.contains(TapRelease::StopDevice)
            &&& held.no_duplicates()
            &&& chain.io_proc ==> held[0] == TapRelease::DestroyIoProc
            &&& chain.tap_id != 0 ==> held.last() == TapRelease::DestroyTap
        }),
        tap::without_objects(chain) == (TapChain {
            stage: TapStage::Ended,
            tap_id: 0,
            aggregate_id: 0,
            io_proc: false,
            format: chain.format,
        }),
{
    let held = tap::held(chain);
    let callback: int = if chain.io_proc {
        1
    } else {
        0
    };
    let device: int = if chain.aggregate_id != 0 {
        1
    } else {
        0
    };
    if chain.io_proc {
        assert(held[0] == TapRelease::DestroyIoProc);
    }
    if chain.aggregate_id != 0 {
        assert(held[callback] == TapRelease::DestroyAggregate);
    }
    if chain.tap_id != 0 {
        assert(held[callback + device] == TapRelease::DestroyTap);
    }
}

/// A chain ignores what it does not wait for: nothing changes, and nothing is to
/// be done.
pub proof fn law_a_chain_waits_for_its_step(chain: TapChain, event: TapEvent)
    requires
        match chain.stage {
            TapStage::CreatingTap => !(event is TapCreated),
            TapStage::ReadingFormat => !(event is FormatRead),
            TapStage::CreatingAggregate => !(event is AggregateCreated),
            TapStage::CreatingIoProc => !(event is IoProcCreated),
            TapStage::Starting => !(event is DeviceStarted),
            TapStage::Running => true,
            TapStage::Ended => true,
        },
    ensures
        tap::tap_step(chain, event) == (chain, TapActionView::Ignore),
{
}

/// What a chain asks for next is seen whole.
pub proof fn law_chain_actions_are_seen_whole(action: TapAction)
    ensures
        action@ == match action {
            TapAction::ReadFormat { tap_id } => TapActionView::ReadFormat { tap_id },
            TapAction::CreateAggregate => TapActionView::CreateAggregate,
            TapAction::CreateIoProc { aggregate_id } => TapActionView::CreateIoProc {
                aggregate_id,
            },
            TapAction::StartDevice { aggregate_id } => TapActionView::StartDevice { aggregate_id },
            TapAction::Run { format } => TapActionView::Run { format },
            TapAction::Fail { error, releases } => TapActionView::Fail {
                error: error@,
                releases: releases@,
            },
            TapAction::Ignore => TapActionView::Ignore,
        },
{
}

} // verus!
