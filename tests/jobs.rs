use petri::jid::JobDescription;
use petri::job_mgr::{JobError, JobManager, Timestamp};
use petri::process::StartInfo;

fn desc(program: &str) -> JobDescription {
    JobDescription {
        start_info: StartInfo {
            program: program.to_string(),
            args: None,
            cwd: "/".to_string(),
            env: vec![],
            log_path: None,
        },
        auto_restart: false,
    }
}

fn at(secs: i64) -> Timestamp {
    Timestamp { secs, nanos: 0 }
}

#[test]
fn add_job_returns_digest() {
    let mut mgr = JobManager::new();
    let d = desc("p");
    let expected = d.digest(0);
    let jid = mgr.add_job(d, 0, at(5)).unwrap();
    assert_eq!(jid, expected);
    assert_eq!(mgr.jobs().len(), 1);
    let job = mgr.job(&jid).unwrap();
    assert_eq!(job.id(), jid);
    assert_eq!(job.pid(), None);
    assert_eq!(job.last_exit_code(), None);
    assert_eq!(job.created_at(), at(5));
    assert_eq!(job.description().start_info.program, "p");
}

#[test]
fn add_job_twice_is_duplicate() {
    let mut mgr = JobManager::new();
    mgr.add_job(desc("p"), 7, at(1)).unwrap();
    assert_eq!(mgr.add_job(desc("p"), 7, at(2)).unwrap_err(), JobError::DuplicateJid);
    assert_eq!(mgr.jobs().len(), 1);
    assert!(mgr.add_job(desc("p"), 8, at(2)).is_ok());
    assert_eq!(mgr.jobs().len(), 2);
}

#[test]
fn start_job_errors() {
    let mut mgr = JobManager::new();
    let jid = mgr.add_job(desc("p"), 0, at(1)).unwrap();
    let unknown = "nope".to_string();
    assert_eq!(mgr.start_job(&unknown, 10).unwrap_err(), JobError::UnknownJid);
    assert!(mgr.start_info_for(&unknown).is_err());
    assert_eq!(mgr.start_info_for(&jid).unwrap().program, "p");
    assert_eq!(mgr.start_job(&jid, 10), Ok(10));
    assert_eq!(mgr.job(&jid).unwrap().pid(), Some(10));
    assert_eq!(mgr.start_job(&jid, 11).unwrap_err(), JobError::AlreadyRunning);
    assert_eq!(mgr.start_info_for(&jid).unwrap_err(), JobError::AlreadyRunning);
}

#[test]
fn exit_event_clears_pid_and_keeps_code() {
    let mut mgr = JobManager::new();
    let a = mgr.add_job(desc("a"), 0, at(1)).unwrap();
    let b = mgr.add_job(desc("b"), 0, at(2)).unwrap();
    mgr.start_job(&a, 100).unwrap();
    mgr.start_job(&b, 200).unwrap();
    mgr.handle_process_exit(100, 3);
    let ja = mgr.job(&a).unwrap();
    assert_eq!(ja.pid(), None);
    assert_eq!(ja.last_exit_code(), Some(3));
    let jb = mgr.job(&b).unwrap();
    assert_eq!(jb.pid(), Some(200));
    assert_eq!(jb.last_exit_code(), None);
}

#[test]
fn exit_event_for_unknown_pid_is_ignored() {
    let mut mgr = JobManager::new();
    let a = mgr.add_job(desc("a"), 0, at(1)).unwrap();
    mgr.start_job(&a, 100).unwrap();
    mgr.handle_process_exit(999, 1);
    assert_eq!(mgr.job(&a).unwrap().pid(), Some(100));
    assert_eq!(mgr.job(&a).unwrap().last_exit_code(), None);
}

#[test]
fn job_can_restart_after_exit() {
    let mut mgr = JobManager::new();
    let a = mgr.add_job(desc("a"), 0, at(1)).unwrap();
    mgr.start_job(&a, 100).unwrap();
    mgr.handle_process_exit(100, 0);
    assert_eq!(mgr.start_job(&a, 101), Ok(101));
    assert_eq!(mgr.job(&a).unwrap().last_exit_code(), Some(0));
}

#[test]
fn start_job_refuses_linked_pid() {
    let mut mgr = JobManager::new();
    let a = mgr.add_job(desc("a"), 0, at(1)).unwrap();
    let b = mgr.add_job(desc("b"), 0, at(2)).unwrap();
    mgr.start_job(&a, 100).unwrap();
    assert_eq!(mgr.start_job(&b, 100).unwrap_err(), JobError::PidInUse);
    assert_eq!(mgr.job(&b).unwrap().pid(), None);
    mgr.handle_process_exit(100, 4);
    assert_eq!(mgr.start_job(&b, 100), Ok(100));
    assert_eq!(mgr.job(&a).unwrap().last_exit_code(), Some(4));
}
