//! What each operating system can capture, and how.

pub mod laws;
pub mod macos;
pub mod session;
pub mod tap;
pub mod windows;

use vstd::prelude::*;

use crate::capture;
use crate::capture::{
    ApplicationView, AudioApplication, CaptureConfig, CaptureMode, CaptureSource, OutputDevice,
    SourceView,
};
use crate::error;
use crate::error::{Error, ErrorView};
use crate::platform::macos::ensure_supported_version;
use crate::platform::windows::{
    applications_of_sessions, windows_build, AudioSession, PROCESS_LOOPBACK_BUILD,
};
use crate::selector;
use crate::selector::resolve_audio_application_from;
use crate::text;
use crate::text::decimal_text;

verus! {

/// The running operating system, as it reports itself.
#[derive(Clone, Copy, Debug, Eq, PartialEq, Structural)]
pub enum OperatingSystem {
    /// What `RtlGetVersion` returned and filled in.
    Windows { status: i32, major: u32, build: u32 },
    MacOs { major: i64, minor: i64 },
    Other,
}

/// The output endpoints that a platform reports.
pub enum EndpointListing {
    /// The platform has no endpoints to choose from.
    Unavailable,
    /// Enumeration failed with this message.
    Failed(String),
    Endpoints(Vec<OutputDevice>),
}

/// Lists active Windows render endpoints available for output-loopback capture.
pub fn list_output_devices(listing: EndpointListing) -> (r: Result<Vec<OutputDevice>, Error>)
    ensures
        match listing {
            EndpointListing::Unavailable => error::outcome(r) == Err::<Vec<OutputDevice>, _>(
                ErrorView::UnsupportedPlatform(
                    "output endpoint enumeration is available only on Windows"@,
                ),
            ),
            EndpointListing::Failed(message) => error::outcome(r) == Err::<Vec<OutputDevice>, _>(
                ErrorView::Native(message@),
            ),
            EndpointListing::Endpoints(devices) => r == Ok::<_, Error>(devices),
        },
{
    match listing {
        EndpointListing::Unavailable => Err(
            Error::UnsupportedPlatform("output endpoint enumeration is available only on Windows"),
        ),
        EndpointListing::Failed(message) => Err(Error::Native(message)),
        EndpointListing::Endpoints(devices) => Ok(devices),
    }
}

/// What follows the last backslash of a text: the name of a file, out of its
/// path.
pub open spec fn file_name(path: Seq<char>) -> Seq<char>
    decreases path.len(),
{
    if path.len() == 0 || path.last() == '\\' {
        Seq::empty()
    } else {
        file_name(path.drop_last()).push(path.last())
    }
}

/// Names an application after the file at its path, or what else identifies it;
/// after its PID where nothing does.
pub fn application_name(path: Option<&str>, pid: u32) -> (name: String)
    ensures
        name@ == match path {
            Some(path) => file_name(path@),
            None => "process "@ + text::decimal(pid as nat),
        },
{
    match path {
        Some(path) => {
            let length: usize = path.unicode_len();
            let mut start: usize = length;
            assert(path@.take(length as int) =~= path@);
            assert(path@.subrange(length as int, length as int) =~= Seq::empty());
            assert(file_name(path@) =~= file_name(path@) + Seq::empty());
            while start > 0 && path.get_char(start - 1) != '\\'
                invariant
                    length == path@.len(),
                    start <= length,
                    file_name(path@) == file_name(path@.take(start as int)) + path@.subrange(
                        start as int,
                        length as int,
                    ),
                decreases start,
            {
                proof {
                    let front = path@.take(start as int);
                    assert(front.last() == path@[start - 1]);
                    assert(front.drop_last() =~= path@.take(start - 1));
                    assert(file_name(front) == file_name(front.drop_last()).push(front.last()));
                    assert(file_name(front) + path@.subrange(start as int, length as int)
                        =~= file_name(front.drop_last()) + path@.subrange(
                        start - 1,
                        length as int,
                    ));
                }
                start = start - 1;
            }
            assert(start > 0 ==> path@.take(start as int).last() == path@[start - 1]);
            assert(file_name(path@.take(start as int)) =~= Seq::empty());
            path.substring_char(start, length).to_owned()
        },
        None => "process ".to_owned().concat(decimal_text(pid).as_str()),
    }
}

/// A process that the audio system knows.
pub struct AudioProcess {
    pub application: AudioApplication,
    /// Whether it has a running output stream.
    pub is_running_output: bool,
}

/// The audio processes that a platform reports.
pub enum ProcessListing {
    /// The platform cannot tell.
    Unavailable,
    /// Enumeration failed.
    Failed(Error),
    Processes(Vec<AudioProcess>),
    /// The platform reports the sessions on its render endpoints instead.
    Sessions(Vec<AudioSession>),
}

/// The applications of those processes that have a running output stream.
pub open spec fn running_applications(processes: Seq<AudioProcess>) -> Seq<ApplicationView>
    decreases processes.len(),
{
    if processes.len() == 0 {
        Seq::empty()
    } else if processes.last().is_running_output {
        running_applications(processes.drop_last()).push(processes.last().application@)
    } else {
        running_applications(processes.drop_last())
    }
}

/// The applications that a listing shows.
pub open spec fn listed_applications(listing: ProcessListing) -> Result<
    Seq<ApplicationView>,
    ErrorView,
> {
    match listing {
        ProcessListing::Unavailable => Err(
            ErrorView::UnsupportedPlatform(
                "audio application discovery is available only on Windows and macOS"@,
            ),
        ),
        ProcessListing::Failed(error) => Err(error@),
        ProcessListing::Processes(processes) => Ok(running_applications(processes@)),
        ProcessListing::Sessions(sessions) => Ok(
            windows::session_applications(windows::session_views(sessions@)),
        ),
    }
}

/// Lists applications that currently have a running output audio stream.
/// Start playback before listing so that the application is visible.
pub fn list_audio_applications(listing: ProcessListing) -> (r: Result<
    Vec<AudioApplication>,
    Error,
>)
    ensures
        match r {
            Ok(applications) => listed_applications(listing) == Ok::<_, ErrorView>(
                selector::views(applications@),
            ),
            Err(error) => listed_applications(listing) == Err::<Seq<ApplicationView>, _>(error@),
        },
{
    match listing {
        ProcessListing::Unavailable => Err(
            Error::UnsupportedPlatform(
                "audio application discovery is available only on Windows and macOS",
            ),
        ),
        ProcessListing::Failed(error) => Err(error),
        ProcessListing::Processes(processes) => {
            let mut applications: Vec<AudioApplication> = Vec::new();
            let count: usize = processes.len();
            assert(selector::views(applications@) =~= running_applications(processes@.take(0)));
            for i in 0..count
                invariant
                    count == processes@.len(),
                    selector::views(applications@) == running_applications(
                        processes@.take(i as int),
                    ),
            {
                let ghost before = applications@;
                let process = &processes[i];
                if process.is_running_output {
                    applications.push(process.application.clone());
                }
                proof {
                    let longer = processes@.take(i + 1);
                    assert(longer.drop_last() =~= processes@.take(i as int));
                    assert(longer.last() == processes@[i as int]);
                    assert(selector::views(applications@) =~= running_applications(longer));
                }
            }
            assert(processes@.take(count as int) =~= processes@);
            Ok(applications)
        },
        ProcessListing::Sessions(sessions) => Ok(applications_of_sessions(sessions.as_slice())),
    }
}

/// Resolves a PID, exact application name or identifier, or unique substring to
/// one currently running audio application. The case of ASCII letters does not
/// matter, whatever else the texts hold.
pub fn resolve_audio_application(query: &str, listing: ProcessListing) -> (r: Result<
    AudioApplication,
    Error,
>)
    ensures
        selector::resolution_view(r) == match listed_applications(listing) {
            Ok(applications) => selector::resolution(query@, applications),
            Err(error) => Err(error),
        },
        listed_applications(listing) matches Ok(applications) ==> {
            let selector = text::trimmed(query@);
            &&& text::is_ascii_text(selector) ==> text::lowercase(selector) == text::ascii_lower(
                selector,
            )
            &&& forall|i: int|
                0 <= i < applications.len() ==> selector::keys_are_known(#[trigger] applications[i])
            &&& text::is_ascii_text(selector) && (forall|i: int|
                0 <= i < applications.len() ==> selector::is_ascii_named(
                    #[trigger] applications[i],
                )) ==> selector::resolution_view(r) == selector::ascii_resolution(
                query@,
                applications,
            )
            &&& forall|other: Seq<char>|
                r is Ok && text::ascii_lower(other) == text::ascii_lower(query@)
                    ==> #[trigger] selector::resolution(other, applications)
                    == selector::resolution_view(r)
        },
{
    match list_audio_applications(listing) {
        Ok(applications) => resolve_audio_application_from(query, applications.as_slice()),
        Err(error) => Err(error),
    }
}

/// Whether an operating system can isolate capture by process.
pub open spec fn isolation(system: OperatingSystem) -> Result<bool, ErrorView> {
    match system {
        OperatingSystem::Windows { status, major, build } => match windows::build_of(
            status,
            major,
            build,
        ) {
            Ok(build) => Ok(build >= 20_348),
            Err(error) => Err(error),
        },
        OperatingSystem::MacOs { major, minor } => if macos::is_supported_version(major, minor) {
            Ok(true)
        } else {
            Err(ErrorView::UnsupportedOsVersion)
        },
        OperatingSystem::Other => Err(
            ErrorView::UnsupportedPlatform(
                "process audio capture is available only on Windows and macOS"@,
            ),
        ),
    }
}

/// Returns whether this operating system can isolate capture by process.
/// Windows 10 returns `false`; Windows build 20348+ and macOS 14.2+ return
/// `true`.
pub fn process_isolation_supported(system: OperatingSystem) -> (r: Result<bool, Error>)
    ensures
        error::outcome(r) == isolation(system),
{
    match system {
        OperatingSystem::Windows { status, major, build } => match windows_build(
            status,
            major,
            build,
        ) {
            Ok(build) => Ok(build >= PROCESS_LOOPBACK_BUILD),
            Err(error) => Err(error),
        },
        OperatingSystem::MacOs { major, minor } => match ensure_supported_version(major, minor) {
            Ok(_) => Ok(true),
            Err(error) => Err(error),
        },
        OperatingSystem::Other => Err(
            Error::UnsupportedPlatform(
                "process audio capture is available only on Windows and macOS",
            ),
        ),
    }
}

/// The native capture that a session uses.
#[derive(Clone, Debug, Eq, PartialEq)]
pub enum CapturePlan {
    /// Windows process loopback, child processes included.
    WindowsProcess { pid: u32 },
    /// Windows loopback of one render endpoint, or of the default one.
    WindowsOutput { device: Option<String> },
    /// A Core Audio tap on one process.
    MacProcessTap { pid: u32 },
    /// A Core Audio tap on all output.
    MacGlobalTap,
}

/// The value of a [`CapturePlan`].
#[verifier::ext_equal]
pub enum PlanView {
    WindowsProcess { pid: u32 },
    WindowsOutput { device: Option<Seq<char>> },
    MacProcessTap { pid: u32 },
    MacGlobalTap,
}

impl View for CapturePlan {
    type V = PlanView;

    open spec fn view(&self) -> PlanView {
        match self {
            CapturePlan::WindowsProcess { pid } => PlanView::WindowsProcess { pid: *pid },
            CapturePlan::WindowsOutput { device } => PlanView::WindowsOutput {
                device: capture::text_view(*device),
            },
            CapturePlan::MacProcessTap { pid } => PlanView::MacProcessTap { pid: *pid },
            CapturePlan::MacGlobalTap => PlanView::MacGlobalTap,
        }
    }
}

impl PlanView {
    /// Whether the capture is isolated to a process or takes a whole output.
    pub open spec fn mode(self) -> CaptureMode {
        match self {
            PlanView::WindowsProcess { .. } => CaptureMode::ProcessLoopback,
            PlanView::WindowsOutput { .. } => CaptureMode::OutputLoopback,
            PlanView::MacProcessTap { .. } => CaptureMode::ProcessLoopback,
            PlanView::MacGlobalTap => CaptureMode::OutputLoopback,
        }
    }
}

impl CapturePlan {
    /// Reports whether the capture is truly process-isolated or takes an output
    /// endpoint.
    pub fn mode(&self) -> (mode: CaptureMode)
        ensures
            mode == self@.mode(),
    {
        match self {
            CapturePlan::WindowsProcess { .. } => CaptureMode::ProcessLoopback,
            CapturePlan::WindowsOutput { .. } => CaptureMode::OutputLoopback,
            CapturePlan::MacProcessTap { .. } => CaptureMode::ProcessLoopback,
            CapturePlan::MacGlobalTap => CaptureMode::OutputLoopback,
        }
    }
}

/// The native capture for a source on an operating system.
pub open spec fn planned(source: SourceView, system: OperatingSystem) -> Result<
    PlanView,
    ErrorView,
> {
    match system {
        OperatingSystem::Windows { status, major, build } => match source {
            SourceView::Process { pid } => match windows::build_of(status, major, build) {
                Ok(build) => if build >= 20_348 {
                    Ok(PlanView::WindowsProcess { pid })
                } else {
                    Ok(PlanView::WindowsOutput { device: None })
                },
                Err(error) => Err(error),
            },
            SourceView::OutputDevice { name } => Ok(PlanView::WindowsOutput { device: name }),
        },
        OperatingSystem::MacOs { major, minor } => if !macos::is_supported_version(major, minor) {
            Err(ErrorView::UnsupportedOsVersion)
        } else {
            match source {
                SourceView::Process { pid } => Ok(PlanView::MacProcessTap { pid }),
                SourceView::OutputDevice { name: None } => Ok(PlanView::MacGlobalTap),
                SourceView::OutputDevice { name: Some(_) } => Err(
                    ErrorView::UnsupportedPlatform(
                        "named output devices are available only on Windows"@,
                    ),
                ),
            }
        },
        OperatingSystem::Other => Err(
            ErrorView::UnsupportedPlatform("vapor-tap supports Windows 10+ and macOS 14.2+"@),
        ),
    }
}

/// Chooses the native capture for a configuration, once it is checked. A PID
/// request uses output loopback on Windows 10 for compatibility.
pub fn plan_capture(config: &CaptureConfig, system: OperatingSystem) -> (r: Result<
    CapturePlan,
    Error,
>)
    ensures
        match r {
            Ok(plan) => {
                &&& capture::config_refusal(
                    config.source@,
                    config.channel_capacity as nat,
                ) is None
                &&& planned(config.source@, system) == Ok::<_, ErrorView>(plan@)
            },
            Err(error) => match capture::config_refusal(
                config.source@,
                config.channel_capacity as nat,
            ) {
                Some(text) => error@ == ErrorView::InvalidArgument(text),
                None => planned(config.source@, system) == Err::<PlanView, _>(error@),
            },
        },
{
    match config.validate() {
        Ok(_) => {},
        Err(error) => return Err(error),
    }
    match system {
        OperatingSystem::Windows { status, major, build } => match &config.source {
            CaptureSource::Process { pid } => match windows_build(status, major, build) {
                Ok(build) => if build >= PROCESS_LOOPBACK_BUILD {
                    Ok(CapturePlan::WindowsProcess { pid: *pid })
                } else {
                    Ok(CapturePlan::WindowsOutput { device: None })
                },
                Err(error) => Err(error),
            },
            CaptureSource::OutputDevice { name } => {
                let device = match name {
                    Some(name) => Some(name.clone()),
                    None => None,
                };
                Ok(CapturePlan::WindowsOutput { device })
            },
        },
        OperatingSystem::MacOs { major, minor } => {
            match ensure_supported_version(major, minor) {
                Ok(_) => {},
                Err(error) => return Err(error),
            }
            match &config.source {
                CaptureSource::Process { pid } => Ok(CapturePlan::MacProcessTap { pid: *pid }),
                CaptureSource::OutputDevice { name: None } => Ok(CapturePlan::MacGlobalTap),
                CaptureSource::OutputDevice { name: Some(_) } => Err(
                    Error::UnsupportedPlatform("named output devices are available only on Windows"),
                ),
            }
        },
        OperatingSystem::Other => Err(
            Error::UnsupportedPlatform("vapor-tap supports Windows 10+ and macOS 14.2+"),
        ),
    }
}

/// A session is process-isolated exactly where a process is asked for and the
/// operating system can isolate it; on a Windows that cannot, the process is
/// ignored and the default output is captured.
pub proof fn law_isolation_needs_support(source: SourceView, system: OperatingSystem)
    ensures
        planned(source, system) matches Ok(plan) ==> {
            &&& plan.mode() == CaptureMode::ProcessLoopback <==> source is Process && isolation(
                system,
            ) == Ok::<_, ErrorView>(true)
            &&& source is Process && isolation(system) == Ok::<_, ErrorView>(false) ==> plan
                == (PlanView::WindowsOutput { device: None })
        },
{
}

/// Capturing system audio works wherever capture works at all: whatever a
/// process request gets on an operating system, if not an error, the default
/// output can be captured there.
pub proof fn law_default_output_is_always_available(pid: u32, system: OperatingSystem)
    ensures
        planned(SourceView::Process { pid }, system) is Ok ==> {
            &&& planned(SourceView::OutputDevice { name: None }, system) matches Ok(plan)
            &&& plan.mode() == CaptureMode::OutputLoopback
        },
{
}

} // verus!
