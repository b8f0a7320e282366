use uiplay::control::{
    next_control_action, next_endpoint_action, ControlAction, ControlEvent, ControlState,
    EndpointAction, EndpointEvent, EndpointState,
};
use uiplay::dacp::PlaybackControl;
use uiplay::restart::{next_kill_action, KillCommand, KillEvent, KillState, ProcessCheck};
use uiplay::session::SessionState;

#[test]
fn control_uses_dacp_when_an_endpoint_is_known() {
    let (state, action) = ControlState::start();
    assert!(matches!(action, ControlAction::ResolveEndpoint));
    let (state, action) = next_control_action(
        PlaybackControl::Next,
        state,
        ControlEvent::Endpoint(Ok(("10.0.0.2".to_string(), 3689, "42".to_string()))),
    );
    match action {
        ControlAction::SendDacp { host, port, active_remote, command } => {
            assert_eq!(host, "10.0.0.2");
            assert_eq!(port, 3689);
            assert_eq!(active_remote, "42");
            assert_eq!(command, "nextitem");
        }
        _ => panic!("expected a DACP command"),
    }
    let (state, action) =
        next_control_action(PlaybackControl::Next, state, ControlEvent::Answered(Err("no".into())));
    assert!(matches!(state, ControlState::Done));
    assert!(matches!(action, ControlAction::Finish(Err(e)) if e == "no"));
}

#[test]
fn control_falls_back_to_dbus_in_order() {
    let control = PlaybackControl::PlayPause;
    let (state, _) = ControlState::start();
    let (state, action) =
        next_control_action(control, state, ControlEvent::Endpoint(Err("no export".into())));
    match &action {
        ControlAction::CallDbus { service, path, method } => {
            assert_eq!(*service, "org.mpris.MediaPlayer2.ShairportSync");
            assert_eq!(*path, "/org/mpris/MediaPlayer2");
            assert_eq!(method, "org.mpris.MediaPlayer2.Player.PlayPause");
        }
        _ => panic!("expected the MPRIS call"),
    }
    let (state, action) =
        next_control_action(control, state, ControlEvent::Answered(Err("mpris down".into())));
    match &action {
        ControlAction::CallDbus { service, path, method } => {
            assert_eq!(*service, "org.gnome.ShairportSync");
            assert_eq!(*path, "/org/gnome/ShairportSync");
            assert_eq!(method, "org.gnome.ShairportSync.RemoteControl.PlayPause");
        }
        _ => panic!("expected the native call"),
    }
    let (state, action) =
        next_control_action(control, state, ControlEvent::Answered(Err("native down".into())));
    assert!(matches!(state, ControlState::Done));
    match action {
        ControlAction::Finish(Err(e)) => assert_eq!(
            e,
            "DACP control is unavailable: no export. Shairport MPRIS control failed: mpris down. Native control failed: native down"
        ),
        _ => panic!("expected the failure"),
    }
}

#[test]
fn control_stops_at_the_first_dbus_success() {
    let (state, _) = ControlState::start();
    let (state, _) =
        next_control_action(PlaybackControl::Previous, state, ControlEvent::Endpoint(Err("x".into())));
    let (state, action) =
        next_control_action(PlaybackControl::Previous, state, ControlEvent::Answered(Ok(())));
    assert!(matches!(state, ControlState::Done));
    assert!(matches!(action, ControlAction::Finish(Ok(()))));
    let (_, action) =
        next_control_action(PlaybackControl::Previous, ControlState::Done, ControlEvent::Answered(Ok(())));
    assert!(matches!(action, ControlAction::Wait));
}

#[test]
fn endpoint_prefers_shairport_values() {
    let mut session = SessionState::new();
    session.client_ip = "10.0.0.9".into();
    session.dacp_port = "3689".into();
    session.active_remote = "77".into();
    let (state, action) = EndpointState::start(&session);
    assert!(matches!(state, EndpointState::Done));
    assert!(matches!(action, EndpointAction::Finish(Ok((h, 3689, r))) if h == "10.0.0.9" && r == "77"));
}

#[test]
fn endpoint_reads_resolves_and_caches() {
    let mut session = SessionState::new();
    let (state, action) = EndpointState::start(&session);
    assert!(matches!(action, EndpointAction::ReadExport));
    let export = "DACP-ID: ABC\nActive-Remote: 123\n".to_string();
    let (state, action) =
        next_endpoint_action(&mut session, state, EndpointEvent::ExportRead(Ok(export.clone())));
    match &action {
        EndpointAction::Resolve { service_name } => assert_eq!(service_name, "iTunes_Ctrl_ABC"),
        _ => panic!("expected a resolution"),
    }
    let (state, action) = next_endpoint_action(
        &mut session,
        state,
        EndpointEvent::Resolved(Ok(("10.0.0.2".into(), 3689))),
    );
    assert!(matches!(state, EndpointState::Done));
    assert!(matches!(action, EndpointAction::Finish(Ok((h, 3689, r))) if h == "10.0.0.2" && r == "123"));
    // The same credentials again: the remembered endpoint, no resolution.
    let (state, _) = EndpointState::start(&session);
    let (_, action) = next_endpoint_action(&mut session, state, EndpointEvent::ExportRead(Ok(export)));
    assert!(matches!(action, EndpointAction::Finish(Ok((h, 3689, r))) if h == "10.0.0.2" && r == "123"));
}

#[test]
fn endpoint_errors() {
    let mut session = SessionState::new();
    let (state, _) = EndpointState::start(&session);
    let (_, action) =
        next_endpoint_action(&mut session, state, EndpointEvent::ExportRead(Err("missing".into())));
    assert!(matches!(action, EndpointAction::Finish(Err(e)) if e == "UxPlay has not exported DACP credentials: missing"));
    let (state, _) = EndpointState::start(&session);
    let (_, action) =
        next_endpoint_action(&mut session, state, EndpointEvent::ExportRead(Ok("DACP-ID: A\n".into())));
    assert!(matches!(action, EndpointAction::Finish(Err(e)) if e == "UxPlay's DACP export is incomplete"));
    let (state, _) = EndpointState::start(&session);
    let (_, action) = next_endpoint_action(&mut session, state, EndpointEvent::NoExportPath("no config".into()));
    assert!(matches!(action, EndpointAction::Finish(Err(e)) if e == "no config"));
}

#[test]
fn kill_when_not_running() {
    let (state, action) = KillState::start();
    assert_eq!(action.command, KillCommand::CheckRunning);
    let (state, action) = next_kill_action(state, KillEvent::Checked(ProcessCheck::NotRunning));
    assert_eq!(state, KillState::Done);
    assert_eq!(action.log.as_deref(), Some("UxPlay is not running, starting a new instance..."));
    assert_eq!(action.command, KillCommand::Finish);
}

#[test]
fn kill_checks_at_most_ten_times() {
    let (state, _) = KillState::start();
    let (mut state, action) = next_kill_action(state, KillEvent::Checked(ProcessCheck::Running));
    assert_eq!(action.log.as_deref(), Some("UxPlay is already running, restarting..."));
    assert_eq!(action.command, KillCommand::Kill);
    let (s, mut action) = next_kill_action(state, KillEvent::KillSent(Ok(())));
    state = s;
    let mut checks = 0;
    let mut log = Vec::new();
    loop {
        if let Some(line) = action.log.take() {
            log.push(line);
        }
        let event = match action.command {
            KillCommand::CheckRunning => {
                checks += 1;
                KillEvent::Checked(ProcessCheck::Running)
            }
            KillCommand::Pause => KillEvent::Paused,
            _ => break,
        };
        let (s, a) = next_kill_action(state, event);
        state = s;
        action = a;
    }
    assert_eq!(checks, 10);
    assert_eq!(state, KillState::Done);
    assert_eq!(log, vec!["UxPlay process killed successfully.".to_string()]);
}

#[test]
fn kill_failures_are_logged() {
    let (_, action) = next_kill_action(KillState::Checking, KillEvent::Checked(ProcessCheck::Failed("boom".into())));
    assert_eq!(action.log.as_deref(), Some("Failed to check if UxPlay is running: boom"));
    let (state, action) = next_kill_action(KillState::Killing, KillEvent::KillSent(Err("denied".into())));
    assert_eq!(state, KillState::Done);
    assert_eq!(action.log.as_deref(), Some("Failed to kill UxPlay: denied"));
    let (state, action) = next_kill_action(KillState::Waiting { checks: 3 }, KillEvent::Checked(ProcessCheck::NotRunning));
    assert_eq!(state, KillState::Done);
    assert_eq!(action.log.as_deref(), Some("UxPlay process killed successfully."));
}
