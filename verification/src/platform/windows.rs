//! Windows versions and audio sessions.

use vstd::prelude::*;

use crate::capture;
use crate::capture::{ApplicationView, AudioApplication};
use crate::error;
use crate::error::{Error, ErrorView};
use crate::selector;
use crate::text;
use crate::text::hexadecimal_text;

verus! {

/// The first build whose WASAPI can isolate a process.
pub const PROCESS_LOOPBACK_BUILD: u32 = 20_348;

/// The 32 bits of a status, as a number.
pub open spec fn status_bits(status: i32) -> nat {
    if status < 0 {
        (status + 4_294_967_296) as nat
    } else {
        status as nat
    }
}

/// The build of a Windows that reports these numbers.
pub open spec fn build_of(status: i32, major: u32, build: u32) -> Result<u32, ErrorView> {
    if status < 0 {
        Err(
            ErrorView::Native(
                "RtlGetVersion failed with NTSTATUS 0x"@ + text::hexadecimal(status_bits(status)),
            ),
        )
    } else if major < 10 {
        Err(ErrorView::UnsupportedOsVersion)
    } else {
        Ok(build)
    }
}

/// Reads the Windows build out of what `RtlGetVersion` returned and filled in.
pub fn windows_build(status: i32, major: u32, build: u32) -> (r: Result<u32, Error>)
    ensures
        error::outcome(r) == build_of(status, major, build),
{
    if status < 0 {
        let bits: u32 = (status as i64 + 4_294_967_296) as u32;
        return Err(
            Error::Native(
                "RtlGetVersion failed with NTSTATUS 0x".to_owned().concat(
                    hexadecimal_text(bits).as_str(),
                ),
            ),
        );
    }
    if major < 10 {
        return Err(Error::UnsupportedOsVersion);
    }
    Ok(build)
}

/// An audio session of a process on a render endpoint.
pub struct AudioSession {
    /// The process; zero where there is none.
    pub pid: u32,
    /// The name of the executable.
    pub name: String,
    /// The path of the executable, when known.
    pub identifier: Option<String>,
    /// The endpoint that the session renders to.
    pub device: String,
    pub is_active: bool,
}

/// The value of an [`AudioSession`].
#[verifier::ext_equal]
pub struct SessionView {
    pub pid: u32,
    pub name: Seq<char>,
    pub identifier: Option<Seq<char>>,
    pub device: Seq<char>,
    pub is_active: bool,
}

impl View for AudioSession {
    type V = SessionView;

    open spec fn view(&self) -> SessionView {
        SessionView {
            pid: self.pid,
            name: self.name@,
            identifier: capture::text_view(self.identifier),
            device: self.device@,
            is_active: self.is_active,
        }
    }
}

/// Applications together with one more active session: a further endpoint of
/// the application with that PID, or a new application.
pub open spec fn with_session(
    applications: Seq<ApplicationView>,
    session: SessionView,
) -> Seq<ApplicationView>
    decreases applications.len(),
{
    if applications.len() == 0 {
        seq![
            ApplicationView {
                pid: session.pid,
                name: session.name,
                identifier: session.identifier,
                output_devices: seq![session.device],
            },
        ]
    } else if applications[0].pid == session.pid {
        seq![with_device(applications[0], session.device)] + applications.drop_first()
    } else {
        seq![applications[0]] + with_session(applications.drop_first(), session)
    }
}

/// An application together with an endpoint, which is named once.
pub open spec fn with_device(
    application: ApplicationView,
    device: Seq<char>,
) -> ApplicationView {
    if application.output_devices.contains(device) {
        application
    } else {
        ApplicationView {
            output_devices: application.output_devices.push(device),
            ..application
        }
    }
}

/// The applications behind the active sessions of processes, in the order in
/// which they first appear.
pub open spec fn session_applications(sessions: Seq<SessionView>) -> Seq<ApplicationView>
    decreases sessions.len(),
{
    if sessions.len() == 0 {
        Seq::empty()
    } else {
        let before = session_applications(sessions.drop_last());
        let session = sessions.last();
        if session.is_active && session.pid != 0 {
            with_session(before, session)
        } else {
            before
        }
    }
}

/// The values of some sessions.
pub open spec fn session_views(sessions: Seq<AudioSession>) -> Seq<SessionView> {
    sessions.map_values(|session: AudioSession| session@)
}

/// Adds an endpoint to an application, unless it is named already.
fn add_device(application: &AudioApplication, device: &String) -> (r: AudioApplication)
    ensures
        r@ == with_device(application@, device@),
{
    let mut r = application.clone();
    let count: usize = r.output_devices.len();
    let ghost devices = r@.output_devices;
    for i in 0..count
        invariant
            count == r.output_devices@.len(),
            r@ == application@,
            devices == r@.output_devices,
            devices.len() == count,
            forall|k: int| 0 <= k < i ==> #[trigger] devices[k] != device@,
    {
        if r.output_devices[i] == *device {
            assert(devices[i as int] == device@);
            return r;
        }
        assert(devices[i as int] == r.output_devices@[i as int]@);
    }
    assert(!devices.contains(device@));
    r.output_devices.push(device.clone());
    assert(r@.output_devices =~= devices.push(device@));
    r
}

/// Adds an active session to the applications.
fn add_session(applications: &mut Vec<AudioApplication>, session: &AudioSession)
    ensures
        selector::views(final(applications)@) == with_session(
            selector::views(old(applications)@),
            session@,
        ),
{
    let ghost before = selector::views(applications@);
    let count: usize = applications.len();
    for i in 0..count
        invariant
            applications@ == old(applications)@,
            before == selector::views(applications@),
            count == applications@.len(),
            forall|k: int| 0 <= k < i ==> (#[trigger] before[k]).pid != session.pid,
    {
        assert(before[i as int] == applications@[i as int]@);
        if applications[i].pid == session.pid {
            let updated = add_device(&applications[i], &session.device);
            applications.set(i, updated);
            proof {
                lemma_session_of_known_application(before, session@, i as int);
                assert(selector::views(applications@) =~= before.update(
                    i as int,
                    with_device(before[i as int], session.device@),
                ));
            }
            return;
        }
    }
    let mut output_devices: Vec<String> = Vec::new();
    output_devices.push(session.device.clone());
    let identifier = match &session.identifier {
        Some(identifier) => Some(identifier.clone()),
        None => None,
    };
    let application = AudioApplication {
        pid: session.pid,
        name: session.name.clone(),
        identifier,
        output_devices,
    };
    assert(application@.output_devices =~= seq![session.device@]);
    applications.push(application);
    proof {
        lemma_session_of_new_application(before, session@);
        assert(selector::views(applications@) =~= before.push(application@));
    }
}

pub proof fn lemma_session_of_known_application(
    applications: Seq<ApplicationView>,
    session: SessionView,
    i: int,
)
    requires
        0 <= i < applications.len(),
        applications[i].pid == session.pid,
        forall|k: int| 0 <= k < i ==> (#[trigger] applications[k]).pid != session.pid,
    ensures
        with_session(applications, session) == applications.update(
            i,
            with_device(applications[i], session.device),
        ),
    decreases applications.len(),
{
    let all = with_session(applications, session);
    let updated = applications.update(i, with_device(applications[i], session.device));
    if i > 0 {
        let rest = applications.drop_first();
        assert forall|k: int| 0 <= k < i - 1 implies (#[trigger] rest[k]).pid != session.pid by {
            assert(rest[k] == applications[k + 1]);
        }
        lemma_session_of_known_application(rest, session, i - 1);
        assert(applications[0].pid != session.pid);
    }
    assert(all =~= updated);
}

pub proof fn lemma_session_of_new_application(
    applications: Seq<ApplicationView>,
    session: SessionView,
)
    requires
        forall|k: int|
            0 <= k < applications.len() ==> (#[trigger] applications[k]).pid != session.pid,
    ensures
        with_session(applications, session) == applications.push(
            ApplicationView {
                pid: session.pid,
                name: session.name,
                identifier: session.identifier,
                output_devices: seq![session.device],
            },
        ),
    decreases applications.len(),
{
    if applications.len() > 0 {
        let rest = applications.drop_first();
        assert forall|k: int| 0 <= k < rest.len() implies (#[trigger] rest[k]).pid
            != session.pid by {
            assert(rest[k] == applications[k + 1]);
        }
        lemma_session_of_new_application(rest, session);
        assert(applications[0].pid != session.pid);
    }
    assert(with_session(applications, session) =~= applications.push(
        ApplicationView {
            pid: session.pid,
            name: session.name,
            identifier: session.identifier,
            output_devices: seq![session.device],
        },
    ));
}

/// Finds the applications behind audio sessions: the processes that have an
/// active one, each once and with all its endpoints.
pub fn applications_of_sessions(sessions: &[AudioSession]) -> (applications: Vec<AudioApplication>)
    ensures
        selector::views(applications@) == session_applications(session_views(sessions@)),
{
    let mut applications: Vec<AudioApplication> = Vec::new();
    let count: usize = sessions.len();
    let ghost all = session_views(sessions@);
    assert(selector::views(applications@) =~= session_applications(all.take(0)));
    for i in 0..count
        invariant
            count == sessions@.len(),
            all == session_views(sessions@),
            selector::views(applications@) == session_applications(all.take(i as int)),
    {
        let session = &sessions[i];
        proof {
            assert(all.take(i + 1).drop_last() =~= all.take(i as int));
            assert(all.take(i + 1).last() == session@);
        }
        if session.is_active && session.pid != 0 {
            add_session(&mut applications, session);
        }
    }
    assert(all.take(count as int) =~= all);
    applications
}

/// Whether no two applications have the same PID.
pub open spec fn pids_are_distinct(applications: Seq<ApplicationView>) -> bool {
    forall|i: int, j: int|
        0 <= i < j < applications.len() ==> (#[trigger] applications[i]).pid != (
        #[trigger] applications[j]).pid
}

/// Every application is listed once, however many sessions it has.
pub proof fn law_applications_are_listed_once(sessions: Seq<SessionView>)
    ensures
        pids_are_distinct(session_applications(sessions)),
    decreases sessions.len(),
{
    if sessions.len() > 0 {
        law_applications_are_listed_once(sessions.drop_last());
        let before = session_applications(sessions.drop_last());
        let session = sessions.last();
        if forall|k: int| 0 <= k < before.len() ==> (#[trigger] before[k]).pid != session.pid {
            lemma_session_of_new_application(before, session);
        } else {
            let i = choose|i: int|
                0 <= i < before.len() && (#[trigger] before[i]).pid == session.pid;
            assert forall|k: int| 0 <= k < i implies (#[trigger] before[k]).pid
                != session.pid by {
                assert(before[k].pid != before[i].pid);
            }
            lemma_session_of_known_application(before, session, i);
        }
    }
}

/// Whether the application at place `k` is that of a session, with its endpoint.
pub open spec fn is_heard_at(
    applications: Seq<ApplicationView>,
    session: SessionView,
    k: int,
) -> bool {
    &&& 0 <= k < applications.len()
    &&& applications[k].pid == session.pid
    &&& applications[k].output_devices.contains(session.device)
}

/// Every process with an active session is listed, with the endpoint of each of
/// its sessions.
pub proof fn law_every_session_is_listed(sessions: Seq<SessionView>, place: int) -> (k: int)
    requires
        0 <= place < sessions.len(),
        sessions[place].is_active,
        sessions[place].pid != 0,
    ensures
        is_heard_at(session_applications(sessions), sessions[place], k),
    decreases sessions.len(),
{
    let before = session_applications(sessions.drop_last());
    let after = session_applications(sessions);
    let session = sessions.last();
    let known = exists|i: int| 0 <= i < before.len() && (#[trigger] before[i]).pid == session.pid;
    let i = choose|i: int| 0 <= i < before.len() && (#[trigger] before[i]).pid == session.pid;
    law_applications_are_listed_once(sessions.drop_last());
    if session.is_active && session.pid != 0 {
        if known {
            assert forall|j: int| 0 <= j < i implies (#[trigger] before[j]).pid != session.pid by {
                assert(before[j].pid != before[i].pid);
            }
            lemma_session_of_known_application(before, session, i);
        } else {
            lemma_session_of_new_application(before, session);
        }
    }
    if place < sessions.len() - 1 {
        assert(sessions.drop_last()[place] == sessions[place]);
        let k = law_every_session_is_listed(sessions.drop_last(), place);
        if session.is_active && session.pid != 0 && known && k == i {
            let devices = before[i].output_devices;
            let d = choose|d: int| 0 <= d < devices.len() && devices[d] == sessions[place].device;
            assert(after[k].output_devices[d] == sessions[place].device);
        } else {
            assert(after[k] == before[k]);
        }
        k
    } else if known {
        let devices = before[i].output_devices;
        if !devices.contains(session.device) {
            assert(after[i].output_devices[devices.len() as int] == session.device);
        }
        i
    } else {
        let k = before.len() as int;
        assert(after[k].output_devices[0] == session.device);
        k
    }
}

} // verus!
