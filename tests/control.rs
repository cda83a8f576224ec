use petri::client::{socket_path, ClientAction, ConnectOutcome, RetryState, SocketPathError};
use petri::control::{
    first_line_len, frame, log_step, started_message, stop_message, ClientEnv, Command,
    JobSubcommand, ListSubcommand, LogAction, LogEvent, LogSubcommand, OwnedIpcMessagePacket,
    PsSubcommand, ResponseMode, RunError, RunSubcommand, StopSubcommand, STOP_FAILED_MESSAGE,
};
use petri::control::{dialog_step, DialogAction};
use petri::process::env_names_unique;
use petri::process_mgr::ProcessError;

#[test]
fn run_reports_pid() {
    assert_eq!(started_message(4242), "process started (pid: 4242)\n");
    assert_eq!(started_message(0), "process started (pid: 0)\n");
}

#[test]
fn stop_unknown_pid_message() {
    assert_eq!(
        stop_message(Err(ProcessError::UnknownPid)),
        "failed to stop the process (is it running?)\n"
    );
    assert_eq!(STOP_FAILED_MESSAGE, "failed to stop the process (is it running?)\n");
}

#[test]
fn stop_reports_exit_code() {
    assert_eq!(stop_message(Ok(0)), "process stopped with exit code 0\n");
    assert_eq!(stop_message(Ok(143)), "process stopped with exit code 143\n");
    assert_eq!(stop_message(Ok(-1)), "process stopped with exit code -1\n");
    assert_eq!(
        stop_message(Ok(i32::MIN)),
        "process stopped with exit code -2147483648\n"
    );
}

#[test]
fn run_splits_command_line() {
    let env = ClientEnv::new("/home".to_string(), vec![("K".to_string(), "V".to_string())]);
    let run = RunSubcommand {
        log_path: None,
        cmd_line: vec!["/bin/echo".to_string(), "hi".to_string()],
    };
    let info = run.into_start_info(env).unwrap();
    assert_eq!(info.program, "/bin/echo");
    assert_eq!(info.args, Some(vec!["hi".to_string()]));
    assert_eq!(info.cwd, "/home");
    assert_eq!(info.env, vec![("K".to_string(), "V".to_string())]);
    assert_eq!(info.cmd(), "/bin/echo hi");
}

#[test]
fn run_without_args_or_program() {
    let env = ClientEnv::new("/".to_string(), vec![]);
    let run = RunSubcommand { log_path: Some("/logs".to_string()), cmd_line: vec!["ls".to_string()] };
    let info = run.into_start_info(env).unwrap();
    assert_eq!(info.args, None);
    assert_eq!(info.log_path, Some("/logs".to_string()));

    let env = ClientEnv::new("/".to_string(), vec![]);
    let empty = RunSubcommand { log_path: None, cmd_line: vec![] };
    assert_eq!(empty.into_start_info(env).unwrap_err(), RunError::NoProgram);
}

#[test]
fn client_env_accessors() {
    let env = ClientEnv::new("/w".to_string(), vec![("A".to_string(), "b".to_string())]);
    assert_eq!(env.cwd(), "/w");
    assert_eq!(env.env().len(), 1);
}

#[test]
fn packets() {
    let out: OwnedIpcMessagePacket<u8> = OwnedIpcMessagePacket::Output("text".to_string());
    assert_eq!(out.to_output(), Some("text"));
    assert_eq!(out.into_response(), None);
    let resp: OwnedIpcMessagePacket<u8> = OwnedIpcMessagePacket::Response(7);
    assert_eq!(resp.to_output(), None);
    assert_eq!(resp.into_response(), Some(7));
}

#[test]
fn response_modes() {
    assert_eq!(Command::Ps(PsSubcommand { show_all: true }).response_mode(), ResponseMode::Table);
    assert_eq!(Command::Job(JobSubcommand::Ls(ListSubcommand)).response_mode(), ResponseMode::Table);
    assert_eq!(Command::Stop(StopSubcommand { pid: 1 }).response_mode(), ResponseMode::Stream);
    assert_eq!(Command::Log(LogSubcommand { pid: 1 }).response_mode(), ResponseMode::Stream);
}

#[test]
fn log_handler_decisions() {
    assert!(matches!(log_step(LogEvent::Chunk(vec![1, 2])), LogAction::Forward(ref b) if b == &vec![1, 2]));
    assert!(matches!(log_step(LogEvent::ChannelClosed), LogAction::Finish { peer_closed: false }));
    assert!(matches!(log_step(LogEvent::ClientRead(0)), LogAction::Finish { peer_closed: true }));
    assert!(matches!(log_step(LogEvent::ClientRead(1)), LogAction::Continue));
}

#[test]
fn framing() {
    assert_eq!(frame("{\"Output\":\"x\"}"), "{\"Output\":\"x\"}\n");
    assert_eq!(first_line_len(b"abc\ndef"), Some(3));
    assert_eq!(first_line_len(b"\n"), Some(0));
    assert_eq!(first_line_len(b"abc"), None);
}

#[test]
fn client_retries_four_times_then_gives_up() {
    let mut s = RetryState::new();
    assert_eq!(s.next(ConnectOutcome::ServerNotStarted), ClientAction::Retry { start_daemon: true });
    assert_eq!(s.next(ConnectOutcome::ServerNotStarted), ClientAction::Retry { start_daemon: false });
    assert_eq!(s.next(ConnectOutcome::OtherError), ClientAction::Retry { start_daemon: false });
    assert_eq!(s.next(ConnectOutcome::ServerNotStarted), ClientAction::Retry { start_daemon: false });
    assert_eq!(s.next(ConnectOutcome::ServerNotStarted), ClientAction::GiveUp { start_daemon: false });
}

#[test]
fn client_finishes_on_success() {
    let mut s = RetryState::new();
    assert_eq!(s.next(ConnectOutcome::ServerNotStarted), ClientAction::Retry { start_daemon: true });
    assert_eq!(s.next(ConnectOutcome::Done), ClientAction::Finish);
}

#[test]
fn socket_location() {
    assert_eq!(socket_path(true), Ok("/tmp/petri.sock".to_string()));
    assert_eq!(socket_path(false), Err(SocketPathError::Unavailable));
}

#[test]
fn client_dialog_decisions() {
    let out: OwnedIpcMessagePacket<u8> = OwnedIpcMessagePacket::Output("hi\n".to_string());
    assert!(matches!(dialog_step(out, ResponseMode::Stream), DialogAction::Print(ref s) if s == "hi\n"));
    let resp: OwnedIpcMessagePacket<u8> = OwnedIpcMessagePacket::Response(3);
    assert!(matches!(dialog_step(resp, ResponseMode::Table), DialogAction::Render(3)));
    let resp: OwnedIpcMessagePacket<u8> = OwnedIpcMessagePacket::Response(3);
    assert!(matches!(dialog_step(resp, ResponseMode::Stream), DialogAction::End));
}

#[test]
fn environment_names_must_be_unique() {
    let pair = |k: &str, v: &str| (k.to_string(), v.to_string());
    assert!(env_names_unique(&vec![]));
    assert!(env_names_unique(&vec![pair("A", "1"), pair("B", "1")]));
    assert!(!env_names_unique(&vec![pair("A", "1"), pair("B", "2"), pair("A", "3")]));
}
