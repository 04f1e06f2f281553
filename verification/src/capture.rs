//! What is captured: formats, frames, sources and the applications heard.

use vstd::prelude::*;

use crate::error;
use crate::error::Error;
use crate::text;
use crate::text::trim;

verus! {

/// Audio format shared by all frames in a capture session.
#[derive(Clone, Copy, Debug, Eq, PartialEq, Structural)]
pub struct AudioFormat {
    pub sample_rate: u32,
    pub channels: u16,
}

/// One packet of interleaved PCM samples. Capture delivers 32-bit
/// floating-point samples; the type of a sample is left open here, since
/// nothing in this library computes with one.
#[derive(Clone, Debug)]
pub struct AudioFrame<S> {
    pub format: AudioFormat,
    pub samples: Vec<S>,
}

impl<S> AudioFrame<S> {
    /// The number of sample frames: one sample of each channel.
    pub fn frame_count(&self) -> (count: usize)
        requires
            self.format.channels != 0,
        ensures
            count == self.samples@.len() / self.format.channels as nat,
    {
        self.samples.len() / self.format.channels as usize
    }
}

/// Selects the native audio source for a capture session.
#[derive(Clone, Debug, Eq, PartialEq)]
pub enum CaptureSource {
    /// Audio rendered by a process tree. On Windows 10 this automatically
    /// falls back to the complete default output mix and the PID is ignored.
    Process { pid: u32 },
    /// The complete mix rendered to one Windows output endpoint. `None` means
    /// the current default output endpoint. This works on Windows 10 and later.
    OutputDevice { name: Option<String> },
}

/// The value of a [`CaptureSource`].
#[verifier::ext_equal]
pub enum SourceView {
    Process { pid: u32 },
    OutputDevice { name: Option<Seq<char>> },
}

/// An optional text by its characters.
pub open spec fn text_view(text: Option<String>) -> Option<Seq<char>> {
    match text {
        Some(text) => Some(text@),
        None => None,
    }
}

impl View for CaptureSource {
    type V = SourceView;

    open spec fn view(&self) -> SourceView {
        match self {
            CaptureSource::Process { pid } => SourceView::Process { pid: *pid },
            CaptureSource::OutputDevice { name } => SourceView::OutputDevice {
                name: text_view(*name),
            },
        }
    }
}

/// An active Windows output endpoint that can be captured through loopback.
#[derive(Clone, Debug, Eq, PartialEq)]
pub struct OutputDevice {
    /// Endpoint selector accepted by [`CaptureConfig::for_output_device`].
    pub name: String,
    pub sample_rate: u32,
    pub channels: u16,
    pub is_default: bool,
}

/// An application with a currently running audio output stream.
#[derive(Debug, PartialEq)]
pub struct AudioApplication {
    pub pid: u32,
    /// Human-readable process or application name.
    pub name: String,
    /// Executable path on Windows or bundle identifier on macOS, when known.
    pub identifier: Option<String>,
    /// Windows output endpoint names used by this application, when known.
    pub output_devices: Vec<String>,
}

/// The value of an [`AudioApplication`].
#[verifier::ext_equal]
pub struct ApplicationView {
    pub pid: u32,
    pub name: Seq<char>,
    pub identifier: Option<Seq<char>>,
    pub output_devices: Seq<Seq<char>>,
}

impl View for AudioApplication {
    type V = ApplicationView;

    open spec fn view(&self) -> ApplicationView {
        ApplicationView {
            pid: self.pid,
            name: self.name@,
            identifier: text_view(self.identifier),
            output_devices: self.output_devices@.map_values(|device: String| device@),
        }
    }
}

impl Clone for AudioApplication {
    fn clone(&self) -> (r: Self)
        ensures
            r@ == self@,
    {
        let mut output_devices: Vec<String> = Vec::new();
        let count: usize = self.output_devices.len();
        for i in 0..count
            invariant
                count == self.output_devices@.len(),
                output_devices@ == self.output_devices@.take(i as int),
        {
            output_devices.push(self.output_devices[i].clone());
            assert(output_devices@ =~= self.output_devices@.take(i + 1));
        }
        assert(output_devices@ =~= self.output_devices@);
        let identifier = match &self.identifier {
            Some(identifier) => Some(identifier.clone()),
            None => None,
        };
        AudioApplication { pid: self.pid, name: self.name.clone(), identifier, output_devices }
    }
}

/// Native mechanism selected for a running capture session.
#[derive(Clone, Copy, Debug, Eq, PartialEq, Structural)]
pub enum CaptureMode {
    /// The operating system isolates one process tree.
    ProcessLoopback,
    /// The complete mix sent to one output endpoint is captured.
    OutputLoopback,
}

/// Configures an audio capture session.
#[derive(Clone, Debug)]
pub struct CaptureConfig {
    pub source: CaptureSource,
    /// Capacity of the bounded packet channel between the realtime capture
    /// thread and the consumer. New packets are dropped when it is full.
    pub channel_capacity: usize,
}

/// Why a capture session with this source and capacity is refused, if it is.
pub open spec fn config_refusal(source: SourceView, channel_capacity: nat) -> Option<Seq<char>> {
    if source == (SourceView::Process { pid: 0 }) {
        Some("pid must be non-zero"@)
    } else if source matches SourceView::OutputDevice { name: Some(name) } && text::trimmed(
        name,
    ).len() == 0 {
        Some("output device name must not be empty"@)
    } else if channel_capacity == 0 {
        Some("channel_capacity must be non-zero"@)
    } else {
        None
    }
}

impl CaptureConfig {
    /// Captures the audio of one process.
    pub fn for_pid(pid: u32) -> (config: Self)
        ensures
            config.source@ == (SourceView::Process { pid }),
            config.channel_capacity == 64,
    {
        CaptureConfig { source: CaptureSource::Process { pid }, channel_capacity: 64 }
    }

    /// Captures the complete mix sent to the named Windows output endpoint.
    /// This can capture any physical or virtual Windows render endpoint.
    pub fn for_output_device(name: &str) -> (config: Self)
        ensures
            config.source@ == (SourceView::OutputDevice { name: Some(name@) }),
            config.channel_capacity == 64,
    {
        CaptureConfig {
            source: CaptureSource::OutputDevice { name: Some(name.to_owned()) },
            channel_capacity: 64,
        }
    }

    /// Captures the complete mix sent to the current default Windows output.
    pub fn for_default_output() -> (config: Self)
        ensures
            config.source@ == (SourceView::OutputDevice { name: None }),
            config.channel_capacity == 64,
    {
        CaptureConfig { source: CaptureSource::OutputDevice { name: None }, channel_capacity: 64 }
    }

    /// Captures one process where one is asked for, and system audio otherwise.
    pub fn for_request(pid: Option<u32>) -> (config: Self)
        ensures
            config.source@ == match pid {
                Some(pid) => SourceView::Process { pid },
                None => SourceView::OutputDevice { name: None },
            },
            config.channel_capacity == 64,
    {
        match pid {
            Some(pid) => CaptureConfig::for_pid(pid),
            None => CaptureConfig::for_default_output(),
        }
    }

    /// Checks a configuration before a session is started with it.
    pub fn validate(&self) -> (r: Result<(), Error>)
        ensures
            match config_refusal(self.source@, self.channel_capacity as nat) {
                Some(text) => error::outcome(r) == Err::<(), _>(
                    error::ErrorView::InvalidArgument(text),
                ),
                None => r is Ok,
            },
    {
        match &self.source {
            CaptureSource::Process { pid } => {
                if *pid == 0 {
                    return Err(Error::InvalidArgument("pid must be non-zero"));
                }
            },
            CaptureSource::OutputDevice { name: Some(name) } => {
                if trim(name.as_str()).is_empty() {
                    return Err(Error::InvalidArgument("output device name must not be empty"));
                }
            },
            CaptureSource::OutputDevice { name: None } => {},
        }
        if self.channel_capacity == 0 {
            return Err(Error::InvalidArgument("channel_capacity must be non-zero"));
        }
        Ok(())
    }
}

/// A session is refused where its process has no PID, where the name of its
/// device is blank, or where its channel has no room, and in no other case. The
/// source is looked at first.
pub proof fn law_which_configurations_are_refused(source: SourceView, channel_capacity: nat)
    ensures
        source matches SourceView::Process { pid } ==> {
            &&& config_refusal(source, channel_capacity) is None <==> pid != 0 && channel_capacity
                != 0
            &&& pid == 0 ==> config_refusal(source, channel_capacity) == Some(
                "pid must be non-zero"@,
            )
        },
        source matches SourceView::OutputDevice { name: Some(name) } ==> {
            &&& config_refusal(source, channel_capacity) is None <==> channel_capacity != 0
                && exists|i: int| 0 <= i < name.len() && !text::is_white_space(#[trigger] name[i])
            &&& (forall|i: int| 0 <= i < name.len() ==> text::is_white_space(#[trigger] name[i]))
                ==> config_refusal(source, channel_capacity) == Some(
                "output device name must not be empty"@,
            )
        },
        source matches SourceView::OutputDevice { name: None } ==> (config_refusal(
            source,
            channel_capacity,
        ) is None <==> channel_capacity != 0),
        channel_capacity == 0 ==> config_refusal(source, channel_capacity) is Some,
        channel_capacity == 0 && config_refusal(source, 1) is None ==> config_refusal(
            source,
            channel_capacity,
        ) == Some("channel_capacity must be non-zero"@),
{
    if let SourceView::OutputDevice { name: Some(name) } = source {
        text::law_blank_text_trims_to_nothing(name);
    }
}

/// A source and an application are seen whole.
pub proof fn law_captures_are_seen_whole(source: CaptureSource, application: AudioApplication)
    ensures
        match source {
            CaptureSource::Process { pid } => source@ == (SourceView::Process { pid }),
            CaptureSource::OutputDevice { name: Some(name) } => source@ == (
            SourceView::OutputDevice { name: Some(name@) }),
            CaptureSource::OutputDevice { name: None } => source@ == (SourceView::OutputDevice {
                name: None,
            }),
        },
        application@.pid == application.pid,
        application@.name == application.name@,
        application.identifier matches Some(identifier) ==> application@.identifier == Some(
            identifier@,
        ),
        application.identifier is None ==> application@.identifier is None,
        application@.output_devices.len() == application.output_devices@.len(),
        forall|i: int|
            0 <= i < application.output_devices@.len() ==> #[trigger] application@.output_devices[i]
                == application.output_devices@[i]@,
{
}

/// An optional text is seen by its characters, where there is one.
pub proof fn law_optional_texts_are_seen_whole(text: Option<String>)
    ensures
        text matches Some(told) ==> text_view(text) == Some(told@),
        text is None ==> text_view(text) is None,
{
}

} // verus!
