use petri::process::{exit_code_of, KillStep, StartInfo, Supervisor, SupervisorState};
use petri::process_mgr::{ProcessError, ProcessManager};

#[test]
fn kill_then_exit_then_kill() {
    let mut s = Supervisor::new();
    assert_eq!(s.state(), SupervisorState::Running);
    assert_eq!(s.kill(), KillStep::SignalAndWait);
    assert_eq!(s.state(), SupervisorState::Terminating);
    assert_eq!(s.kill(), KillStep::Wait);
    assert!(s.exited(15));
    assert_eq!(s.state(), SupervisorState::Terminated(15));
    assert_eq!(s.kill(), KillStep::Done(15));
    assert_eq!(s.kill(), KillStep::Done(15));
}

#[test]
fn exit_is_published_once() {
    let mut s = Supervisor::new();
    assert!(s.exited(0));
    assert!(!s.exited(0));
    assert!(!s.exited(9));
    assert_eq!(s.state(), SupervisorState::Terminated(0));
}

#[test]
fn signal_killed_child_reports_one() {
    assert_eq!(exit_code_of(None), 1);
    assert_eq!(exit_code_of(Some(0)), 0);
    assert_eq!(exit_code_of(Some(-3)), -3);
}

#[test]
fn start_info_cmd_line() {
    let info = StartInfo {
        program: "/bin/echo".to_string(),
        args: Some(vec!["hi".to_string(), "there".to_string()]),
        cwd: "/".to_string(),
        env: vec![],
        log_path: None,
    };
    assert_eq!(info.cmd(), "/bin/echo hi there");
    let bare = StartInfo { args: None, ..info };
    assert_eq!(bare.cmd(), "/bin/echo");
}

#[test]
fn manager_tracks_processes_in_order() {
    let mut mgr: ProcessManager<&str, u8> = ProcessManager::new();
    mgr.add_process(30, "c");
    mgr.add_process(10, "a");
    mgr.add_process(20, "b");
    let pids: Vec<u32> = mgr.processes().iter().map(|e| e.0).collect();
    assert_eq!(pids, vec![30, 10, 20]);
    assert_eq!(mgr.process_with_id(10), Some(&"a"));
    assert_eq!(mgr.stop_target(99).unwrap_err(), ProcessError::UnknownPid);
    assert_eq!(mgr.handle_process_exit(10), Some("a"));
    assert_eq!(mgr.process_with_id(10), None);
    assert_eq!(mgr.handle_process_exit(10), None);
    let pids: Vec<u32> = mgr.processes().iter().map(|e| e.0).collect();
    assert_eq!(pids, vec![30, 20]);
}

#[test]
fn manager_event_handlers() {
    let mut mgr: ProcessManager<&str, u8> = ProcessManager::new();
    let a = mgr.add_event_handler(1).unwrap();
    let b = mgr.add_event_handler(2).unwrap();
    assert_ne!(a, b);
    assert_eq!(mgr.event_handlers().len(), 2);
    assert_eq!(mgr.remove_event_handler(a), Some(1));
    assert_eq!(mgr.remove_event_handler(a), None);
    assert_eq!(mgr.event_handlers().len(), 1);
    assert_eq!(mgr.event_handlers()[0].1, 2);
}
