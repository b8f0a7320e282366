//! The decisions behind a playback request: where the DACP endpoint comes
//! from, and the order in which the ways of reaching the source are tried.
//! The caller performs each requested action and reports its outcome.

use vstd::prelude::*;
use crate::text::{chars_of, string_of};
use crate::dacp::{
    PlaybackControl, dacp_command, spec_dacp_command, mpris_control_method,
    native_control_method, spec_dbus_method, control_failure_message, DacpCredentials,
    parse_uxplay_dacp, spec_parse_uxplay_dacp, incomplete_export_message, shairport_endpoint,
    spec_shairport_endpoint, endpoint_view, cached_endpoint, spec_cached_endpoint,
    remember_endpoint, dacp_service_name,
};
use crate::session::{SessionState, SessionView, EndpointView};

verus! {

/// Where a playback request stands.
pub enum ControlState {
    /// Waiting for the DACP endpoint.
    Resolving,
    /// The DACP command was sent; waiting for its answer.
    Sending,
    /// DACP was unavailable; Shairport's MPRIS interface was called.
    TryingMpris { dacp_error: String },
    /// MPRIS failed too; Shairport's own D-Bus interface was called.
    TryingNative { dacp_error: String, mpris_error: String },
    /// The request has been answered.
    Done,
}

/// What the caller reports back.
pub enum ControlEvent {
    /// The DACP endpoint (host, port, Active-Remote token), or why there is none.
    Endpoint(Result<(String, u16, String), String>),
    /// The outcome of the last command sent (DACP or D-Bus).
    Answered(Result<(), String>),
}

/// What the caller is to do next.
pub enum ControlAction {
    /// Find the DACP endpoint and report it.
    ResolveEndpoint,
    /// Send the DACP command to the endpoint and report the outcome.
    SendDacp { host: String, port: u16, active_remote: String, command: &'static str },
    /// Call a D-Bus method and report the outcome.
    CallDbus { service: &'static str, path: &'static str, method: String },
    /// The request is over, with this result.
    Finish(Result<(), String>),
    /// Nothing new: the event was not the one awaited.
    Wait,
}

impl ControlState {
    /// A new request: it starts by asking for the DACP endpoint.
    pub fn start() -> (res: (ControlState, ControlAction))
        ensures
            res.0 is Resolving,
            res.1 is ResolveEndpoint,
    {
        (ControlState::Resolving, ControlAction::ResolveEndpoint)
    }
}

/// The D-Bus call on Shairport Sync's MPRIS interface.
pub open spec fn is_mpris_call(action: ControlAction, control: PlaybackControl) -> bool {
    action matches ControlAction::CallDbus { service, path, method } && service@
        == "org.mpris.MediaPlayer2.ShairportSync"@ && path@ == "/org/mpris/MediaPlayer2"@
        && method@ == "org.mpris.MediaPlayer2.Player."@ + spec_dbus_method(control)
}

/// The D-Bus call on Shairport Sync's own remote-control interface.
pub open spec fn is_native_call(action: ControlAction, control: PlaybackControl) -> bool {
    action matches ControlAction::CallDbus { service, path, method } && service@
        == "org.gnome.ShairportSync"@ && path@ == "/org/gnome/ShairportSync"@ && method@
        == "org.gnome.ShairportSync.RemoteControl."@ + spec_dbus_method(control)
}

/// The error of a request for which nothing worked.
pub open spec fn spec_failure(dacp_error: Seq<char>, mpris_error: Seq<char>, native_error: Seq<char>) -> Seq<char> {
    "DACP control is unavailable: "@ + dacp_error + ". Shairport MPRIS control failed: "@
        + mpris_error + ". Native control failed: "@ + native_error
}

/// The next step of a playback request: DACP where an endpoint is known
/// (its answer is the result), else Shairport's MPRIS interface, else its
/// own D-Bus interface, else an error that gives all three reasons.
pub fn next_control_action(control: PlaybackControl, state: ControlState, event: ControlEvent) -> (res: (ControlState, ControlAction))
    ensures
        match (state, event) {
            (ControlState::Resolving, ControlEvent::Endpoint(Ok((host, port, remote)))) => {
                &&& res.0 is Sending
                &&& res.1 matches ControlAction::SendDacp { host: h, port: p, active_remote: r, command: c }
                    && h@ == host@ && p == port && r@ == remote@ && c@ == spec_dacp_command(control)
            },
            (ControlState::Resolving, ControlEvent::Endpoint(Err(e))) => {
                &&& res.0 matches ControlState::TryingMpris { dacp_error } && dacp_error@ == e@
                &&& is_mpris_call(res.1, control)
            },
            (ControlState::Sending, ControlEvent::Answered(r)) => {
                &&& res.0 is Done
                &&& res.1 matches ControlAction::Finish(f) && f == r
            },
            (ControlState::TryingMpris { dacp_error }, ControlEvent::Answered(Ok(()))) => {
                &&& res.0 is Done
                &&& res.1 matches ControlAction::Finish(f) && f is Ok
            },
            (ControlState::TryingMpris { dacp_error }, ControlEvent::Answered(Err(m))) => {
                &&& res.0 matches ControlState::TryingNative { dacp_error: d, mpris_error: me }
                    && d@ == dacp_error@ && me@ == m@
                &&& is_native_call(res.1, control)
            },
            (ControlState::TryingNative { dacp_error, mpris_error }, ControlEvent::Answered(Ok(()))) => {
                &&& res.0 is Done
                &&& res.1 matches ControlAction::Finish(f) && f is Ok
            },
            (ControlState::TryingNative { dacp_error, mpris_error }, ControlEvent::Answered(Err(n))) => {
                &&& res.0 is Done
                &&& res.1 matches ControlAction::Finish(f) && f matches Err(msg) && msg@
                    == spec_failure(dacp_error@, mpris_error@, n@)
            },
            (s, _) => res.0 == s && res.1 is Wait,
        },
{
    match (state, event) {
        (ControlState::Resolving, ControlEvent::Endpoint(Ok((host, port, active_remote)))) => (
            ControlState::Sending,
            ControlAction::SendDacp { host, port, active_remote, command: dacp_command(control) },
        ),
        (ControlState::Resolving, ControlEvent::Endpoint(Err(dacp_error))) => (
            ControlState::TryingMpris { dacp_error },
            ControlAction::CallDbus {
                service: "org.mpris.MediaPlayer2.ShairportSync",
                path: "/org/mpris/MediaPlayer2",
                method: mpris_control_method(control),
            },
        ),
        (ControlState::Sending, ControlEvent::Answered(r)) => (ControlState::Done, ControlAction::Finish(r)),
        (ControlState::TryingMpris { dacp_error }, ControlEvent::Answered(r)) => match r {
            Ok(()) => (ControlState::Done, ControlAction::Finish(Ok(()))),
            Err(mpris_error) => (
                ControlState::TryingNative { dacp_error, mpris_error },
                ControlAction::CallDbus {
                    service: "org.gnome.ShairportSync",
                    path: "/org/gnome/ShairportSync",
                    method: native_control_method(control),
                },
            ),
        },
        (ControlState::TryingNative { dacp_error, mpris_error }, ControlEvent::Answered(r)) => match r {
            Ok(()) => (ControlState::Done, ControlAction::Finish(Ok(()))),
            Err(native_error) => (
                ControlState::Done,
                ControlAction::Finish(
                    Err(control_failure_message(dacp_error.as_str(), mpris_error.as_str(), native_error.as_str())),
                ),
            ),
        },
        (s, _) => (s, ControlAction::Wait),
    }
}

/// Where the search for a DACP endpoint stands, once Shairport's own
/// values turned out incomplete.
pub enum EndpointState {
    /// Waiting for UxPlay's export to be read.
    ReadingExport,
    /// Waiting for the service of these credentials to be resolved.
    Resolving { credentials: DacpCredentials },
    /// The search is over.
    Done,
}

/// What the caller reports back.
pub enum EndpointEvent {
    /// The place of the export could not be found, for this reason.
    NoExportPath(String),
    /// The export's contents, or why it could not be read.
    ExportRead(Result<String, String>),
    /// The resolved host and port, or why resolving failed.
    Resolved(Result<(String, u16), String>),
}

/// What the caller is to do next.
pub enum EndpointAction {
    /// Read UxPlay's DACP export and report it.
    ReadExport,
    /// Resolve the DNS-SD service of this name and report it.
    Resolve { service_name: String },
    /// The search is over: the endpoint (host, port, Active-Remote token),
    /// or why there is none.
    Finish(Result<(String, u16, String), String>),
    /// Nothing new: the event was not the one awaited.
    Wait,
}

/// The error of an export that could not be read.
pub open spec fn unreadable_export(error: Seq<char>) -> Seq<char> {
    "UxPlay has not exported DACP credentials: "@ + error
}

impl EndpointState {
    /// The start of a search: Shairport's values where they are complete,
    /// else UxPlay's export is to be read.
    pub fn start(session: &SessionState) -> (res: (EndpointState, EndpointAction))
        ensures
            match spec_shairport_endpoint(session@) {
                Some(e) => res.0 is Done && (res.1 matches EndpointAction::Finish(Ok(x)) && endpoint_view(x) == e),
                None => res.0 is ReadingExport && res.1 is ReadExport,
            },
    {
        match shairport_endpoint(session) {
            Some(e) => (EndpointState::Done, EndpointAction::Finish(Ok(e))),
            None => (EndpointState::ReadingExport, EndpointAction::ReadExport),
        }
    }
}

/// The next step of the search for a DACP endpoint: UxPlay's export is
/// parsed, the endpoint resolved before for the same credentials is reused,
/// and otherwise the source's service is resolved and remembered.
pub fn next_endpoint_action(session: &mut SessionState, state: EndpointState, event: EndpointEvent) -> (res: (EndpointState, EndpointAction))
    ensures
        match (state, event) {
            (EndpointState::ReadingExport, EndpointEvent::NoExportPath(e)) => {
                &&& final(session)@ == old(session)@
                &&& res.0 is Done
                &&& res.1 matches EndpointAction::Finish(Err(m)) && m@ == e@
            },
            (EndpointState::ReadingExport, EndpointEvent::ExportRead(Err(e))) => {
                &&& final(session)@ == old(session)@
                &&& res.0 is Done
                &&& res.1 matches EndpointAction::Finish(Err(m)) && m@ == unreadable_export(e@)
            },
            (EndpointState::ReadingExport, EndpointEvent::ExportRead(Ok(contents))) => {
                &&& final(session)@ == old(session)@
                &&& match spec_parse_uxplay_dacp(contents@) {
                    None => res.0 is Done && (res.1 matches EndpointAction::Finish(Err(m)) && m@
                        == incomplete_export_message()),
                    Some((d, a)) => match spec_cached_endpoint(old(session)@, d, a) {
                        Some(e) => res.0 is Done && (res.1 matches EndpointAction::Finish(Ok(x))
                            && endpoint_view(x) == e),
                        None => {
                            &&& res.0 matches EndpointState::Resolving { credentials }
                                && credentials.dacp_id@ == d && credentials.active_remote@ == a
                            &&& res.1 matches EndpointAction::Resolve { service_name }
                                && service_name@ == "iTunes_Ctrl_"@ + d
                        },
                    },
                }
            },
            (EndpointState::Resolving { credentials }, EndpointEvent::Resolved(Ok((host, port)))) => {
                &&& final(session)@ == (SessionView {
                    uxplay_endpoint: Some(
                        EndpointView {
                            dacp_id: credentials.dacp_id@,
                            active_remote: credentials.active_remote@,
                            host: host@,
                            port,
                        },
                    ),
                    ..old(session)@
                })
                &&& res.0 is Done
                &&& res.1 matches EndpointAction::Finish(Ok(x)) && endpoint_view(x) == (
                    host@,
                    port,
                    credentials.active_remote@,
                )
            },
            (EndpointState::Resolving { credentials }, EndpointEvent::Resolved(Err(e))) => {
                &&& final(session)@ == old(session)@
                &&& res.0 is Done
                &&& res.1 matches EndpointAction::Finish(Err(m)) && m@ == e@
            },
            (s, _) => final(session)@ == old(session)@ && res.0 == s && res.1 is Wait,
        },
{
    match (state, event) {
        (EndpointState::ReadingExport, EndpointEvent::NoExportPath(e)) => (
            EndpointState::Done,
            EndpointAction::Finish(Err(e)),
        ),
        (EndpointState::ReadingExport, EndpointEvent::ExportRead(Err(e))) => {
            let mut message = chars_of("UxPlay has not exported DACP credentials: ");
            message.append(&mut chars_of(e.as_str()));
            (EndpointState::Done, EndpointAction::Finish(Err(string_of(message.as_slice()))))
        },
        (EndpointState::ReadingExport, EndpointEvent::ExportRead(Ok(contents))) => {
            match parse_uxplay_dacp(contents.as_str()) {
                Err(e) => (EndpointState::Done, EndpointAction::Finish(Err(e))),
                Ok(credentials) => match cached_endpoint(session, &credentials) {
                    Some(e) => (EndpointState::Done, EndpointAction::Finish(Ok(e))),
                    None => {
                        let service_name = dacp_service_name(credentials.dacp_id.as_str());
                        (EndpointState::Resolving { credentials }, EndpointAction::Resolve { service_name })
                    },
                },
            }
        },
        (EndpointState::Resolving { credentials }, EndpointEvent::Resolved(r)) => match r {
            Ok((host, port)) => {
                let e = remember_endpoint(session, credentials, host, port);
                (EndpointState::Done, EndpointAction::Finish(Ok(e)))
            },
            Err(e) => (EndpointState::Done, EndpointAction::Finish(Err(e))),
        },
        (s, _) => (s, EndpointAction::Wait),
    }
}

} // verus!
