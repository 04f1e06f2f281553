use vapor_tap::capture::AudioFormat;
use vapor_tap::platform::macos::{
    check_status, copy_buffer_list, ensure_supported_version, native_error, process_object,
    tap_format,
};
use vapor_tap::platform::tap::{
    describe_aggregate, describe_tap, TapAction, TapChain, TapEvent, TapRelease,
};
use vapor_tap::Error;

#[test]
fn statuses_are_named_where_they_are_codes() {
    assert!(check_status("open", 0).is_ok());
    assert_eq!(
        native_error("open", i32::from_be_bytes(*b"!obj")).message(),
        "native audio operation failed: open: OSStatus '!obj'"
    );
    assert_eq!(
        native_error("open", -50).message(),
        "native audio operation failed: open: OSStatus -50"
    );
    assert_eq!(
        native_error("open", i32::from_be_bytes(*b"a bc")).message(),
        format!("native audio operation failed: open: OSStatus {}", i32::from_be_bytes(*b"a bc"))
    );
    assert!(matches!(
        native_error("open", i32::from_be_bytes(*b"nope")),
        Error::PermissionDenied
    ));
}

#[test]
fn supported_versions_begin_at_14_2() {
    assert!(ensure_supported_version(14, 2).is_ok());
    assert!(matches!(ensure_supported_version(14, 1), Err(Error::UnsupportedOsVersion)));
    assert!(ensure_supported_version(15, 0).is_ok());
}

#[test]
fn a_process_without_audio_is_not_found() {
    assert_eq!(process_object(7, 0, 99).unwrap(), 99);
    assert!(matches!(process_object(7, 0, 0), Err(Error::ProcessNotFound(7))));
    assert_eq!(
        process_object(7, -1, 99).unwrap_err().message(),
        "native audio operation failed: translate PID to audio process: OSStatus -1"
    );
}

#[test]
fn tap_formats_must_be_floating_point_and_valid() {
    assert_eq!(
        tap_format(0, 9, 48_000, 2).unwrap(),
        AudioFormat { sample_rate: 48_000, channels: 2 }
    );
    assert_eq!(
        tap_format(0, 8, 48_000, 2).unwrap_err().message(),
        "native audio operation failed: Core Audio process tap did not provide floating-point PCM"
    );
    assert_eq!(
        tap_format(0, 1, 0, 2).unwrap_err().message(),
        "native audio operation failed: Core Audio returned an invalid tap format"
    );
    assert!(tap_format(0, 1, 48_000, 65_536).is_err());
}

#[test]
fn buffers_are_interleaved() {
    let left: &[i32] = &[1, 2, 3];
    let right: &[i32] = &[10, 20, 30, 40];
    let mut scratch = vec![7, 7];
    assert_eq!(copy_buffer_list(&[Some(left), Some(right)], &mut scratch), 6);
    assert_eq!(scratch, vec![1, 10, 2, 20, 3, 30]);
    assert_eq!(copy_buffer_list(&[Some(right)], &mut scratch), 4);
    assert_eq!(scratch, vec![10, 20, 30, 40]);
}

#[test]
fn scratch_stays_where_nothing_is_copied() {
    let left: &[i32] = &[1, 2, 3];
    let empty: &[i32] = &[];
    let mut scratch = vec![7, 7];
    let none: [Option<&[i32]>; 0] = [];
    assert_eq!(copy_buffer_list(&none, &mut scratch), 0);
    assert_eq!(copy_buffer_list(&[None], &mut scratch), 0);
    assert_eq!(copy_buffer_list(&[Some(left), None], &mut scratch), 0);
    assert_eq!(copy_buffer_list(&[Some(left), Some(empty)], &mut scratch), 0);
    assert_eq!(scratch, vec![7, 7]);
    assert_eq!(copy_buffer_list(&[Some(empty)], &mut scratch), 0);
    assert!(scratch.is_empty());
}

#[test]
fn a_chain_is_built_step_by_step() {
    let mut chain = TapChain::new();
    assert!(matches!(
        chain.advance(TapEvent::TapCreated { status: 0, tap_id: 5 }),
        TapAction::ReadFormat { tap_id: 5 }
    ));
    assert!(matches!(
        chain.advance(TapEvent::FormatRead {
            status: 0,
            format_flags: 1,
            sample_rate: 44_100,
            channels_per_frame: 2,
        }),
        TapAction::CreateAggregate
    ));
    assert!(matches!(
        chain.advance(TapEvent::AggregateCreated { status: 0, aggregate_id: 6 }),
        TapAction::CreateIoProc { aggregate_id: 6 }
    ));
    assert!(matches!(
        chain.advance(TapEvent::IoProcCreated { status: 0, created: true }),
        TapAction::StartDevice { aggregate_id: 6 }
    ));
    match chain.advance(TapEvent::DeviceStarted { status: 0 }) {
        TapAction::Run { format } => {
            assert_eq!(format, AudioFormat { sample_rate: 44_100, channels: 2 })
        }
        _ => panic!("expected a running chain"),
    }
    assert_eq!(
        chain.end(),
        vec![
            TapRelease::StopDevice,
            TapRelease::DestroyIoProc,
            TapRelease::DestroyAggregate,
            TapRelease::DestroyTap
        ]
    );
    assert!(chain.end().is_empty());
}

fn failure(action: TapAction) -> (String, Vec<TapRelease>) {
    match action {
        TapAction::Fail { error, releases } => (error.message(), releases),
        _ => panic!("expected a failure"),
    }
}

fn chain_after(count: usize) -> TapChain {
    let events = [
        TapEvent::TapCreated { status: 0, tap_id: 5 },
        TapEvent::FormatRead {
            status: 0,
            format_flags: 1,
            sample_rate: 48_000,
            channels_per_frame: 2,
        },
        TapEvent::AggregateCreated { status: 0, aggregate_id: 6 },
        TapEvent::IoProcCreated { status: 0, created: true },
    ];
    let mut chain = TapChain::new();
    for event in &events[..count] {
        chain.advance(*event);
    }
    chain
}

#[test]
fn a_failed_chain_releases_what_it_holds() {
    let (text, releases) =
        failure(chain_after(0).advance(TapEvent::TapCreated { status: 0, tap_id: 0 }));
    assert_eq!(text, "native audio operation failed: Core Audio returned an empty tap ID");
    assert!(releases.is_empty());

    let (text, releases) = failure(chain_after(1).advance(TapEvent::FormatRead {
        status: 0,
        format_flags: 0,
        sample_rate: 48_000,
        channels_per_frame: 2,
    }));
    assert!(text.contains("floating-point"));
    assert_eq!(releases, vec![TapRelease::DestroyTap]);

    let (text, releases) =
        failure(chain_after(2).advance(TapEvent::AggregateCreated { status: 0, aggregate_id: 0 }));
    assert_eq!(
        text,
        "native audio operation failed: Core Audio returned an empty aggregate device ID"
    );
    assert_eq!(releases, vec![TapRelease::DestroyTap]);

    let (text, releases) =
        failure(chain_after(3).advance(TapEvent::IoProcCreated { status: -1, created: false }));
    assert_eq!(text, "native audio operation failed: create Core Audio IOProc: OSStatus -1");
    assert_eq!(releases, vec![TapRelease::DestroyAggregate, TapRelease::DestroyTap]);

    let (text, releases) =
        failure(chain_after(4).advance(TapEvent::DeviceStarted { status: -2 }));
    assert_eq!(
        text,
        "native audio operation failed: start Core Audio aggregate device: OSStatus -2"
    );
    assert_eq!(
        releases,
        vec![TapRelease::DestroyIoProc, TapRelease::DestroyAggregate, TapRelease::DestroyTap]
    );
}

#[test]
fn an_unexpected_event_is_ignored() {
    let mut chain = chain_after(1);
    assert!(matches!(
        chain.advance(TapEvent::DeviceStarted { status: -2 }),
        TapAction::Ignore
    ));
    assert_eq!(chain.end(), vec![TapRelease::DestroyTap]);
}

#[test]
fn native_objects_are_private() {
    let tap = describe_tap(Some(3));
    assert_eq!(tap.name, "Vapor Tap Process Capture");
    assert!(tap.is_private);
    assert_eq!(tap.process_object, Some(3));
    let device = describe_aggregate("device".into(), "tap".into());
    assert_eq!(device.name, "Vapor Tap Private Aggregate");
    assert_eq!((device.uid.as_str(), device.tap_uid.as_str()), ("device", "tap"));
    assert!(device.is_private && device.tap_auto_start && device.drift_compensation);
    assert!(!device.is_stacked);
}
