use sidgate::agent::service::launcher::{
    active_console_session, command_line, launch, to_wide, Worker, WorkerIdentity, NO_SESSION,
};
use sidgate::agent::service::manager::{
    explain, install, start_access, start_message, state_label, status_lines, stop_access,
    stop_message, wait_for, WaitStep, DESCRIPTION, ERROR_ACCESS_DENIED,
};
use sidgate::agent::service::{
    control_handler, manager, status_of, wide, worker_identity, ControlReply, Reconciliation,
    Report, ServiceEvent, Supervisor, ACCEPT_SESSIONCHANGE, ACCEPT_SHUTDOWN, ACCEPT_STOP,
    SERVICE_NAME, STATE_RUNNING, STATE_START_PENDING, STATE_STOPPED, STATE_STOP_PENDING,
};

#[test]
fn launcher_wide_strings_are_null_terminated() {
    let wide = to_wide("abc");
    assert_eq!(wide, vec![b'a' as u16, b'b' as u16, b'c' as u16, 0]);
    assert_eq!(to_wide(""), vec![0]);
}

#[test]
fn wide_strings_survive_non_ascii() {
    let wide = to_wide("é");
    assert_eq!(wide.last(), Some(&0));
    assert_eq!(String::from_utf16(&wide[..wide.len() - 1]).unwrap(), "é");
}

#[test]
fn wide_strings_match_the_standard_encoding() {
    let text = "a\u{d7ff}\u{e000}\u{ffff}\u{10000}\u{1f600}\u{10ffff}";
    let expected: Vec<u16> = text.encode_utf16().chain([0u16]).collect();
    assert_eq!(wide(text), expected);
}

#[test]
fn the_sentinel_session_reads_as_absent() {
    assert_eq!(NO_SESSION, u32::MAX);
    assert_ne!(NO_SESSION, 0, "session 0 is that of the services");
    assert_eq!(active_console_session(NO_SESSION), None);
}

#[test]
fn active_session_is_either_absent_or_plausible() {
    for reported in [0, 1, 2, 0xFFFF_FFFE, 0xFFFF_FFFF] {
        if let Some(session) = active_console_session(reported) {
            assert_ne!(session, NO_SESSION);
            assert_eq!(session, reported);
        }
    }
}

#[test]
fn the_binary_path_is_quoted() {
    let path = r"C:\Program Files\sidgate\sidgate.exe";
    let command = command_line(path, "service run");
    assert!(command.starts_with('"'));
    assert!(command.contains("\" service run"));
    assert_eq!(install(path).binary, wide(&command));
}

#[test]
fn access_denied_becomes_actionable_advice() {
    let message = explain(ERROR_ACCESS_DENIED, "Accès refusé.");
    assert!(message.contains("administrateur"), "it must say what to do: {message}");
}

#[test]
fn other_errors_keep_their_original_text() {
    let message = explain(0x8007_0002, "Le fichier spécifié est introuvable.");
    assert!(!message.contains("administrateur"));
    assert_eq!(message, "Le fichier spécifié est introuvable.");
}

#[test]
fn manager_wide_strings_are_null_terminated() {
    assert_eq!(*manager::wide(DESCRIPTION).last().unwrap(), 0);
}

#[test]
fn mod_wide_strings_are_null_terminated() {
    assert_eq!(*wide(SERVICE_NAME).last().unwrap(), 0);
    assert_eq!(wide("ab").len(), 3);
}

#[test]
fn identity_defaults_to_the_logged_in_user() {
    assert_eq!(worker_identity(None), WorkerIdentity::User);
    assert_eq!(worker_identity(Some("utilisateur")), WorkerIdentity::User);
    assert_eq!(worker_identity(Some("SYSTEM")), WorkerIdentity::User);
    assert_eq!(worker_identity(Some("system")), WorkerIdentity::System);
}

#[test]
fn only_the_running_state_accepts_controls() {
    for state in [STATE_START_PENDING, STATE_STOP_PENDING, STATE_STOPPED] {
        assert_ne!(state, STATE_RUNNING);
        let status = status_of(Report { state, wait_hint_ms: 3_000 });
        assert_eq!(status.controls_accepted, 0);
        assert_eq!(status.wait_hint_ms, 3_000);
    }
    assert_eq!(
        ACCEPT_STOP | ACCEPT_SHUTDOWN | ACCEPT_SESSIONCHANGE,
        ACCEPT_STOP + ACCEPT_SHUTDOWN + ACCEPT_SESSIONCHANGE,
        "the flags must be disjoint"
    );
    let running = status_of(Report { state: STATE_RUNNING, wait_hint_ms: 0 });
    assert_eq!(running.controls_accepted, ACCEPT_STOP | ACCEPT_SHUTDOWN | ACCEPT_SESSIONCHANGE);
    assert_eq!(running.current_state, STATE_RUNNING);
    assert_eq!(running.service_type, 0x10);
}

#[test]
fn orders_of_the_system_are_answered() {
    let stop = ControlReply {
        report: Some(Report { state: STATE_STOP_PENDING, wait_hint_ms: 5_000 }),
        event: Some(ServiceEvent::Stop),
        code: 0,
    };
    assert_eq!(control_handler(1), stop);
    assert_eq!(control_handler(5), stop);
    assert_eq!(control_handler(14).event, Some(ServiceEvent::SessionChanged));
    assert_eq!(control_handler(14).report, None);
    assert_eq!(control_handler(4).event, None);
    assert_eq!(
        control_handler(4).report,
        Some(Report { state: STATE_RUNNING, wait_hint_ms: 0 })
    );
    assert_eq!(control_handler(2), ControlReply { report: None, event: None, code: 120 });
}

#[test]
fn the_worker_follows_the_session() {
    let mut s = Supervisor::new();
    assert_eq!(s.reconcile(None, false), Reconciliation { terminate: false, launch: None });
    assert_eq!(s.reconcile(Some(1), false), Reconciliation { terminate: false, launch: Some(1) });
    s.launched(1);
    assert_eq!(s.worker(), Some(1));
    assert_eq!(s.reconcile(Some(1), true), Reconciliation { terminate: false, launch: None });
    assert_eq!(s.reconcile(Some(2), true), Reconciliation { terminate: true, launch: Some(2) });
    s.launched(2);
    assert_eq!(s.reconcile(Some(2), false), Reconciliation { terminate: true, launch: Some(2) });
    s.launched(2);
    assert_eq!(s.reconcile(None, true), Reconciliation { terminate: true, launch: None });
    assert_eq!(s.worker(), None);
}

#[test]
fn failed_launches_back_off() {
    let mut s = Supervisor::new();
    let pauses: Vec<u64> = (0..7).map(|_| s.launch_failed()).collect();
    assert_eq!(pauses, vec![1, 2, 4, 8, 16, 30, 30]);
    s.launched(1);
    assert_eq!(s.launch_failed(), 1);
}

#[test]
fn supervision_ends_on_order() {
    assert!(Supervisor::goes_on(None, false));
    assert!(Supervisor::goes_on(Some(ServiceEvent::SessionChanged), false));
    assert!(!Supervisor::goes_on(Some(ServiceEvent::Stop), false));
    assert!(!Supervisor::goes_on(None, true));
}

#[test]
fn a_launch_names_its_desktop() {
    let plan = launch(r"C:\s.exe", "worker", true);
    assert_eq!(plan.application, wide(r"C:\s.exe"));
    assert_eq!(plan.command_line, wide("\"C:\\s.exe\" worker"));
    assert_eq!(plan.desktop, wide("winsta0\\default"));
    assert_eq!(plan.flags, 0x0800_0420);
    assert_eq!(launch("s", "worker", false).flags, 0x0800_0020);
    assert!(Worker::is_running(Some(259)));
    assert!(!Worker::is_running(Some(0)));
    assert!(!Worker::is_running(None));
}

#[test]
fn an_installation_is_fully_described() {
    let plan = install(r"C:\s.exe");
    assert_eq!(plan.name, wide("sidgate"));
    assert_eq!(plan.display, wide("sidgate — accès distant"));
    assert_eq!(plan.description, wide(DESCRIPTION));
    assert_eq!((plan.manager_access, plan.access), (3, 0xF01FF));
    assert_eq!((plan.service_type, plan.start_type, plan.error_control), (0x10, 2, 1));
    assert_eq!(
        plan.report,
        vec![
            "service installé : sidgate — accès distant",
            "  binaire   : C:\\s.exe service run",
            "  démarrage : automatique, sous le compte système",
            "",
            "Démarrer maintenant :  sidgate service start",
        ]
    );
    assert_eq!((start_access(), stop_access()), (0x14, 0x24));
}

#[test]
fn the_state_is_worded() {
    assert_eq!(state_label(Some(STATE_RUNNING)), "en marche");
    assert_eq!(state_label(Some(STATE_STOPPED)), "arrêté");
    assert_eq!(state_label(Some(STATE_START_PENDING)), "en transition");
    assert_eq!(state_label(None), "en transition");
    assert_eq!(
        status_lines(Some(STATE_RUNNING), Some(12)),
        vec!["service : en marche", "session interactive : 12"]
    );
    assert_eq!(status_lines(None, None)[1], "session interactive : aucune");
    assert_eq!(start_message(true), "service démarré");
    assert_eq!(stop_message(true), "service arrêté");
    assert_ne!(start_message(false), stop_message(false));
    assert_eq!(wait_for(0, Some(4), 4), WaitStep::Reached);
    assert_eq!(wait_for(14_999, Some(2), 4), WaitStep::Again);
    assert_eq!(wait_for(100, None, 4), WaitStep::Again);
    assert_eq!(wait_for(15_000, Some(4), 4), WaitStep::TimedOut);
}
