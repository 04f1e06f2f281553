use vapor_tap::capture::{
    AudioApplication, AudioFormat, AudioFrame, CaptureConfig, CaptureMode, CaptureSource,
    OutputDevice,
};
use vapor_tap::platform::session::{
    packet_samples, ring_samples, startup_result, whole_packet, worker_panicked, AudioSystem,
    Startup, StopSequence,
    StopStep, Worker,
};
use vapor_tap::platform::windows::{windows_build, AudioSession};
use vapor_tap::platform::{
    application_name, list_audio_applications, list_output_devices, plan_capture, process_isolation_supported,
    resolve_audio_application, AudioProcess, CapturePlan, EndpointListing, OperatingSystem,
    ProcessListing,
};
use vapor_tap::resolve_audio_application_from;
use vapor_tap::Error;

fn application(pid: u32, name: &str, identifier: Option<&str>) -> AudioApplication {
    AudioApplication {
        pid,
        name: name.to_owned(),
        identifier: identifier.map(str::to_owned),
        output_devices: vec![],
    }
}

fn windows(build: u32) -> OperatingSystem {
    OperatingSystem::Windows { status: 0, major: 10, build }
}

fn mac(major: i64, minor: i64) -> OperatingSystem {
    OperatingSystem::MacOs { major, minor }
}

#[test]
fn frame_count_uses_channel_count() {
    let frame = AudioFrame {
        format: AudioFormat {
            sample_rate: 48_000,
            channels: 2,
        },
        samples: vec![0.0f32; 20],
    };
    assert_eq!(frame.frame_count(), 10);
}

#[test]
fn constructors_select_the_expected_source() {
    assert_eq!(
        CaptureConfig::for_pid(42).source,
        CaptureSource::Process { pid: 42 }
    );
    assert_eq!(
        CaptureConfig::for_output_device("Vapor Tap").source,
        CaptureSource::OutputDevice {
            name: Some("Vapor Tap".into())
        }
    );
    assert_eq!(
        CaptureConfig::for_default_output().source,
        CaptureSource::OutputDevice { name: None }
    );
}

#[test]
fn application_model_can_describe_an_output_session() {
    let application = AudioApplication {
        pid: 42,
        name: "player.exe".into(),
        identifier: Some("C:\\Apps\\player.exe".into()),
        output_devices: vec!["Speakers".into()],
    };
    assert_eq!(application.pid, 42);
    assert_eq!(application.name, "player.exe");
}

#[test]
fn application_selector_supports_exact_and_unique_substring_matches() {
    let applications = vec![
        AudioApplication {
            pid: 10,
            name: "WeChat.exe".into(),
            identifier: Some("C:\\Apps\\WeChat.exe".into()),
            output_devices: vec!["Speakers".into()],
        },
        AudioApplication {
            pid: 20,
            name: "chrome.exe".into(),
            identifier: Some("C:\\Apps\\chrome.exe".into()),
            output_devices: vec!["Speakers".into()],
        },
    ];
    assert_eq!(
        resolve_audio_application_from("wechat", &applications)
            .unwrap()
            .pid,
        10
    );
    assert_eq!(
        resolve_audio_application_from("CHROME.EXE", &applications)
            .unwrap()
            .pid,
        20
    );
    assert_eq!(
        resolve_audio_application_from("20", &applications)
            .unwrap()
            .pid,
        20
    );
}

#[test]
fn application_selector_reports_ambiguity() {
    let applications = vec![
        AudioApplication {
            pid: 10,
            name: "chrome.exe".into(),
            identifier: None,
            output_devices: vec![],
        },
        AudioApplication {
            pid: 20,
            name: "chrome.exe".into(),
            identifier: None,
            output_devices: vec![],
        },
    ];
    assert!(matches!(
        resolve_audio_application_from("chrome", &applications),
        Err(Error::ApplicationAmbiguous { .. })
    ));
}

#[test]
fn ambiguity_lists_every_match_in_order() {
    let applications = vec![
        application(10, "chrome.exe", None),
        application(15, "player.exe", None),
        application(20, "Chrome Helper", Some("com.google.chrome")),
    ];
    match resolve_audio_application_from("  CHROME ", &applications) {
        Err(Error::ApplicationAmbiguous { query, matches }) => {
            assert_eq!(query, "CHROME");
            assert_eq!(matches, "chrome.exe (PID 10), Chrome Helper (PID 20)");
        }
        other => panic!("unexpected {other:?}"),
    }
}

#[test]
fn selector_refuses_blank_and_unknown_queries() {
    let applications = vec![application(10, "chrome.exe", None)];
    assert!(matches!(
        resolve_audio_application_from(" \t\n", &applications),
        Err(Error::InvalidArgument("application selector must not be empty"))
    ));
    match resolve_audio_application_from(" firefox ", &applications) {
        Err(Error::ApplicationNotFound(query)) => assert_eq!(query, "firefox"),
        other => panic!("unexpected {other:?}"),
    }
}

#[test]
fn an_exact_name_wins_over_substrings() {
    let applications = vec![
        application(10, "Music Helper", None),
        application(20, "music", None),
    ];
    assert_eq!(
        resolve_audio_application_from("Music", &applications).unwrap().pid,
        20
    );
    assert_eq!(
        resolve_audio_application_from("helper", &applications).unwrap().pid,
        10
    );
}

#[test]
fn an_identifier_is_matched_like_a_name() {
    let applications = vec![
        application(10, "Player", Some("com.example.player")),
        application(20, "Browser", Some("com.example.browser")),
    ];
    assert_eq!(
        resolve_audio_application_from("COM.EXAMPLE.BROWSER", &applications).unwrap().pid,
        20
    );
    assert_eq!(
        resolve_audio_application_from("example.pl", &applications).unwrap().pid,
        10
    );
}

#[test]
fn applications_are_named_after_their_files() {
    assert_eq!(application_name(Some("C:\\Apps\\player.exe"), 4), "player.exe");
    assert_eq!(application_name(Some("com.example.player"), 4), "com.example.player");
    assert_eq!(application_name(Some("C:\\"), 4), "");
    assert_eq!(application_name(None, 42), "process 42");
}

#[test]
fn white_space_and_ascii_case_do_not_matter_beside_other_letters() {
    let applications = vec![application(10, "\u{3a3}igma Radi\u{3a3}", None)];
    let found = resolve_audio_application_from("\u{3a3}igma radi\u{3a3}", &applications);
    assert_eq!(found.unwrap().pid, 10);
    let found = resolve_audio_application_from("\u{3000}\u{3a3}IGMA RADI\u{3a3}\t", &applications);
    assert_eq!(found.unwrap().pid, 10);
}

#[test]
fn one_foreign_name_does_not_hide_the_others() {
    let applications = vec![
        application(10, "chrome.exe", None),
        application(11, "\u{30e9}\u{30b8}\u{30aa}", None),
    ];
    let found = resolve_audio_application_from("CHROME.EXE", &applications);
    assert_eq!(found.unwrap().pid, 10);
    let found = resolve_audio_application_from("\u{30b8}", &applications);
    assert_eq!(found.unwrap().pid, 11);
}

#[test]
fn letter_case_is_ignored_beyond_ascii() {
    let applications = vec![application(10, "\u{dc}BUNG", None), application(20, "Radio", None)];
    assert_eq!(
        resolve_audio_application_from("\u{fc}bung", &applications).unwrap().pid,
        10
    );
}

#[test]
fn a_number_that_is_no_pid_is_looked_up_as_a_name() {
    let applications = vec![application(10, "player 42", None), application(11, "radio", None)];
    assert_eq!(resolve_audio_application_from("42", &applications).unwrap().pid, 10);
    assert_eq!(resolve_audio_application_from("+10", &applications).unwrap().pid, 10);
    assert!(matches!(
        resolve_audio_application_from("99999999999", &applications),
        Err(Error::ApplicationNotFound(_))
    ));
}

#[test]
fn resolution_returns_the_whole_application() {
    let applications = vec![AudioApplication {
        pid: 7,
        name: "Player".into(),
        identifier: Some("id".into()),
        output_devices: vec!["Speakers".into(), "Headset".into()],
    }];
    assert_eq!(
        resolve_audio_application_from("player", &applications).unwrap(),
        applications[0]
    );
}

#[test]
fn configurations_are_checked() {
    assert_eq!(CaptureConfig::for_pid(1).channel_capacity, 64);
    assert!(CaptureConfig::for_pid(1).validate().is_ok());
    assert!(matches!(
        CaptureConfig::for_pid(0).validate(),
        Err(Error::InvalidArgument("pid must be non-zero"))
    ));
    assert!(matches!(
        CaptureConfig::for_output_device(" \u{3000} ").validate(),
        Err(Error::InvalidArgument("output device name must not be empty"))
    ));
    let mut config = CaptureConfig::for_default_output();
    config.channel_capacity = 0;
    assert!(matches!(
        config.validate(),
        Err(Error::InvalidArgument("channel_capacity must be non-zero"))
    ));
}

#[test]
fn a_request_without_a_process_captures_system_audio() {
    assert_eq!(
        CaptureConfig::for_request(None).source,
        CaptureSource::OutputDevice { name: None }
    );
    assert_eq!(
        CaptureConfig::for_request(Some(9)).source,
        CaptureSource::Process { pid: 9 }
    );
}

#[test]
fn windows_versions_decide_about_isolation() {
    assert_eq!(process_isolation_supported(windows(19_045)).unwrap(), false);
    assert_eq!(process_isolation_supported(windows(20_347)).unwrap(), false);
    assert_eq!(process_isolation_supported(windows(20_348)).unwrap(), true);
    assert!(matches!(
        process_isolation_supported(OperatingSystem::Windows { status: 0, major: 6, build: 9_600 }),
        Err(Error::UnsupportedOsVersion)
    ));
    match windows_build(-1_073_741_823, 10, 20_348) {
        Err(Error::Native(text)) => {
            assert_eq!(text, "RtlGetVersion failed with NTSTATUS 0xc0000001")
        }
        other => panic!("unexpected {other:?}"),
    }
}

#[test]
fn mac_versions_decide_about_support() {
    assert_eq!(process_isolation_supported(mac(14, 2)).unwrap(), true);
    assert_eq!(process_isolation_supported(mac(15, 0)).unwrap(), true);
    assert!(matches!(
        process_isolation_supported(mac(14, 1)),
        Err(Error::UnsupportedOsVersion)
    ));
    assert!(matches!(
        process_isolation_supported(mac(13, 9)),
        Err(Error::UnsupportedOsVersion)
    ));
    assert!(matches!(
        process_isolation_supported(OperatingSystem::Other),
        Err(Error::UnsupportedPlatform(
            "process audio capture is available only on Windows and macOS"
        ))
    ));
}

#[test]
fn a_process_request_falls_back_to_the_output_mix_on_windows_10() {
    let config = CaptureConfig::for_pid(42);
    let plan = plan_capture(&config, windows(19_045)).unwrap();
    assert_eq!(plan, CapturePlan::WindowsOutput { device: None });
    assert_eq!(plan.mode(), CaptureMode::OutputLoopback);
    let plan = plan_capture(&config, windows(22_000)).unwrap();
    assert_eq!(plan, CapturePlan::WindowsProcess { pid: 42 });
    assert_eq!(plan.mode(), CaptureMode::ProcessLoopback);
}

#[test]
fn an_output_device_is_captured_on_windows_only() {
    let config = CaptureConfig::for_output_device("Speakers");
    assert_eq!(
        plan_capture(&config, windows(19_045)).unwrap(),
        CapturePlan::WindowsOutput { device: Some("Speakers".into()) }
    );
    assert!(matches!(
        plan_capture(&config, mac(15, 0)),
        Err(Error::UnsupportedPlatform(_))
    ));
}

#[test]
fn a_mac_taps_a_process_or_everything() {
    assert_eq!(
        plan_capture(&CaptureConfig::for_pid(5), mac(14, 2)).unwrap(),
        CapturePlan::MacProcessTap { pid: 5 }
    );
    let plan = plan_capture(&CaptureConfig::for_default_output(), mac(14, 2)).unwrap();
    assert_eq!(plan, CapturePlan::MacGlobalTap);
    assert_eq!(plan.mode(), CaptureMode::OutputLoopback);
    assert!(matches!(
        plan_capture(&CaptureConfig::for_pid(5), mac(14, 1)),
        Err(Error::UnsupportedOsVersion)
    ));
}

#[test]
fn a_plan_needs_a_valid_configuration_and_a_supported_system() {
    assert!(matches!(
        plan_capture(&CaptureConfig::for_pid(0), OperatingSystem::Other),
        Err(Error::InvalidArgument("pid must be non-zero"))
    ));
    assert!(matches!(
        plan_capture(&CaptureConfig::for_pid(1), OperatingSystem::Other),
        Err(Error::UnsupportedPlatform("vapor-tap supports Windows 10+ and macOS 14.2+"))
    ));
}

#[test]
fn endpoints_are_listed_as_reported() {
    let device = OutputDevice {
        name: "Speakers".into(),
        sample_rate: 48_000,
        channels: 2,
        is_default: true,
    };
    assert_eq!(
        list_output_devices(EndpointListing::Endpoints(vec![device.clone()])).unwrap(),
        vec![device]
    );
    assert!(matches!(
        list_output_devices(EndpointListing::Failed("no service".into())),
        Err(Error::Native(text)) if text == "no service"
    ));
    assert!(matches!(
        list_output_devices(EndpointListing::Unavailable),
        Err(Error::UnsupportedPlatform(
            "output endpoint enumeration is available only on Windows"
        ))
    ));
}

#[test]
fn only_processes_with_running_output_are_listed() {
    let processes = vec![
        AudioProcess { application: application(1, "a", None), is_running_output: false },
        AudioProcess { application: application(2, "b", None), is_running_output: true },
        AudioProcess { application: application(3, "c", None), is_running_output: true },
    ];
    let listed = list_audio_applications(ProcessListing::Processes(processes)).unwrap();
    assert_eq!(listed, vec![application(2, "b", None), application(3, "c", None)]);
    assert!(matches!(
        list_audio_applications(ProcessListing::Unavailable),
        Err(Error::UnsupportedPlatform(
            "audio application discovery is available only on Windows and macOS"
        ))
    ));
}

#[test]
fn resolving_uses_the_listing() {
    let processes = vec![
        AudioProcess { application: application(1, "player", None), is_running_output: false },
        AudioProcess { application: application(2, "player two", None), is_running_output: true },
    ];
    assert_eq!(
        resolve_audio_application("player", ProcessListing::Processes(processes)).unwrap().pid,
        2
    );
    assert!(matches!(
        resolve_audio_application("player", ProcessListing::Failed(Error::PermissionDenied)),
        Err(Error::PermissionDenied)
    ));
}

#[test]
fn packets_hold_a_fiftieth_of_a_second() {
    let format = AudioFormat { sample_rate: 48_000, channels: 2 };
    assert_eq!(packet_samples(AudioSystem::Wasapi, format), 1_920);
    assert_eq!(packet_samples(AudioSystem::CoreAudio, format), 1_920);
    assert_eq!(ring_samples(format), 192_000);
    let slow = AudioFormat { sample_rate: 40, channels: 3 };
    assert_eq!(packet_samples(AudioSystem::Wasapi, slow), 3);
    assert_eq!(packet_samples(AudioSystem::CoreAudio, slow), 0);
}

#[test]
fn only_whole_packets_are_delivered() {
    let format = AudioFormat { sample_rate: 48_000, channels: 2 };
    let frame = whole_packet(format, &[1, 2, 3, 4], 4).unwrap();
    assert_eq!(frame.samples, vec![1, 2, 3, 4]);
    assert_eq!(frame.format, format);
    assert!(whole_packet(format, &[1, 2, 3, 4], 3).is_none());
}

#[test]
fn stopping_joins_each_worker_once() {
    let mut sequence = StopSequence::new(true);
    assert_eq!(sequence.advance(), StopStep::Join(Worker::Capture));
    assert_eq!(sequence.advance(), StopStep::Join(Worker::Drain));
    assert_eq!(sequence.advance(), StopStep::Stopped);
    assert_eq!(sequence.advance(), StopStep::Stopped);
    let mut sequence = StopSequence::new(false);
    assert_eq!(sequence.advance(), StopStep::Join(Worker::Drain));
    assert_eq!(sequence.advance(), StopStep::Stopped);
}

#[test]
fn broken_workers_are_reported() {
    assert_eq!(
        worker_panicked(Worker::Capture).message(),
        "native audio operation failed: Core Audio capture thread panicked"
    );
    assert_eq!(
        worker_panicked(Worker::Drain).message(),
        "native audio operation failed: PCM drain thread panicked"
    );
}

#[test]
fn startup_is_read_from_the_capture_thread() {
    let format = AudioFormat { sample_rate: 44_100, channels: 2 };
    assert_eq!(startup_result(Startup::Started(format)).unwrap(), format);
    assert!(matches!(
        startup_result(Startup::Failed(Error::ProcessNotFound(3))),
        Err(Error::ProcessNotFound(3))
    ));
    assert_eq!(
        startup_result(Startup::Exited).unwrap_err().message(),
        "native audio operation failed: Core Audio capture thread exited during startup"
    );
}

#[test]
fn errors_say_what_went_wrong() {
    assert_eq!(Error::InvalidArgument("x").message(), "invalid argument: x");
    assert_eq!(Error::UnsupportedPlatform("x").message(), "unsupported operating system: x");
    assert_eq!(
        Error::UnsupportedOsVersion.message(),
        "the operating system version does not support the requested audio capture mode"
    );
    assert_eq!(Error::PermissionDenied.message(), "audio capture permission was denied");
    assert_eq!(
        Error::ProcessNotFound(4_294_967_295).message(),
        "target process 4294967295 has no active audio object"
    );
    assert_eq!(Error::AudioConversion("x".into()).message(), "audio conversion failed: x");
    assert_eq!(Error::Network("x".into()).message(), "FunASR network operation failed: x");
    assert_eq!(Error::Protocol("x".into()).message(), "invalid FunASR protocol message: x");
    assert_eq!(
        Error::AudioQueueFull.message(),
        "FunASR audio queue is full; audio continuity was lost"
    );
    assert_eq!(Error::Io("disk full".into()).message(), "disk full");
}

fn session(pid: u32, device: &str, is_active: bool) -> AudioSession {
    AudioSession {
        pid,
        name: format!("app{pid}.exe"),
        identifier: Some(format!("C:\\app{pid}.exe")),
        device: device.to_owned(),
        is_active,
    }
}

#[test]
fn sessions_of_one_process_make_one_application() {
    let sessions = vec![
        session(0, "Speakers", true),
        session(5, "Speakers", true),
        session(6, "Speakers", false),
        session(7, "Headset", true),
        session(5, "Headset", true),
        session(5, "Speakers", true),
    ];
    let applications = list_audio_applications(ProcessListing::Sessions(sessions)).unwrap();
    assert_eq!(
        applications,
        vec![
            AudioApplication {
                pid: 5,
                name: "app5.exe".into(),
                identifier: Some("C:\\app5.exe".into()),
                output_devices: vec!["Speakers".into(), "Headset".into()],
            },
            AudioApplication {
                pid: 7,
                name: "app7.exe".into(),
                identifier: Some("C:\\app7.exe".into()),
                output_devices: vec!["Headset".into()],
            }
        ]
    );
}
