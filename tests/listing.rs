use petri::job_mgr::{JobManager, Timestamp};
use petri::jid::JobDescription;
use petri::listing::{job_rows, job_snapshots, job_table, ps_table, sort_by_created, JobRow};
use petri::process::StartInfo;
use petri::ps::{ps_rows, JobSnapshot, ProcessSnapshot, PsProcess};

fn ts(secs: i64, nanos: u32) -> Timestamp {
    Timestamp { secs, nanos }
}

fn proc_snapshot(pid: u32, cmd: &str, secs: i64) -> ProcessSnapshot {
    ProcessSnapshot { pid, cmd: cmd.to_string(), started_at: ts(secs, 0), uptime_secs: 1 }
}

fn job_snapshot(jid: &str, pid: Option<u32>, secs: i64, code: Option<i32>) -> JobSnapshot {
    JobSnapshot {
        jid: jid.to_string(),
        pid,
        cmd: "job cmd".to_string(),
        created_at: ts(secs, 0),
        last_exit_code: code,
    }
}

#[test]
fn ps_lists_single_process() {
    let rows = ps_rows(vec![proc_snapshot(7, "/bin/echo hi", 100)], vec![], false);
    assert_eq!(rows.len(), 1);
    assert_eq!(rows[0].cmd, "/bin/echo hi");
    assert_eq!(rows[0].pid, Some(7));
    assert_eq!(rows[0].jid, None);
    assert_eq!(rows[0].last_exit_code, None);
    assert!(rows[0].uptime_secs <= 1);
}

#[test]
fn ps_marks_job_processes() {
    let rows = ps_rows(
        vec![proc_snapshot(7, "a", 100), proc_snapshot(8, "b", 101)],
        vec![job_snapshot("j1", Some(8), 50, None), job_snapshot("j2", None, 60, Some(2))],
        false,
    );
    assert_eq!(rows.len(), 2);
    assert_eq!(rows[1].jid, Some("j1".to_string()));
    assert_eq!(rows[1].created_at_ts, ts(50, 0));
    assert_eq!(rows[0].jid, None);
}

#[test]
fn ps_all_adds_idle_jobs() {
    let rows = ps_rows(
        vec![proc_snapshot(7, "a", 100)],
        vec![job_snapshot("j1", Some(99), 50, None), job_snapshot("j2", None, 60, Some(2))],
        true,
    );
    assert_eq!(rows.len(), 3);
    assert_eq!(rows[1].pid, None);
    assert_eq!(rows[1].jid, Some("j1".to_string()));
    assert_eq!(rows[2].last_exit_code, Some(2));
    assert_eq!(rows[2].uptime_secs, 0);
}

#[test]
fn ps_table_rendering() {
    let rows = vec![
        PsProcess {
            jid: None,
            pid: Some(12),
            cmd: "/bin/sleep 60".to_string(),
            created_at_ts: ts(20, 0),
            uptime_secs: 90,
            last_exit_code: None,
        },
        PsProcess {
            jid: Some("0123456789abcdef".to_string()),
            pid: None,
            cmd: "x".to_string(),
            created_at_ts: ts(10, 0),
            uptime_secs: 0,
            last_exit_code: Some(3),
        },
    ];
    let table = ps_table(rows);
    assert_eq!(
        table,
        "PID JID       STATUS               CMD\n    01234567  Exited with code 3   x\n 12           Up 1 minute          /bin/sleep 60"
    );
}

#[test]
fn sorting_is_stable() {
    let rows = vec![
        JobRow { jid: "b".to_string(), pid: None, cmd: "".to_string(), created_at_ts: ts(5, 1) },
        JobRow { jid: "a".to_string(), pid: None, cmd: "".to_string(), created_at_ts: ts(5, 0) },
        JobRow { jid: "c".to_string(), pid: None, cmd: "".to_string(), created_at_ts: ts(5, 1) },
        JobRow { jid: "d".to_string(), pid: None, cmd: "".to_string(), created_at_ts: ts(1, 9) },
    ];
    let sorted = sort_by_created(rows);
    let ids: Vec<&str> = sorted.iter().map(|r| r.jid.as_str()).collect();
    assert_eq!(ids, vec!["d", "a", "b", "c"]);
}

#[test]
fn job_listing_from_registry() {
    let mut mgr = JobManager::new();
    let desc = JobDescription {
        start_info: StartInfo {
            program: "/bin/sleep".to_string(),
            args: Some(vec!["5".to_string()]),
            cwd: "/".to_string(),
            env: vec![],
            log_path: None,
        },
        auto_restart: false,
    };
    let jid = mgr.add_job(desc, 0, ts(3, 0)).unwrap();
    mgr.start_job(&jid, 44).unwrap();
    let rows = job_rows(mgr.jobs());
    assert_eq!(rows.len(), 1);
    assert_eq!(rows[0].jid, jid);
    assert_eq!(rows[0].pid, Some(44));
    assert_eq!(rows[0].cmd, "/bin/sleep 5");
    let snaps = job_snapshots(mgr.jobs());
    assert_eq!(snaps[0].last_exit_code, None);
    let table = job_table(rows);
    assert_eq!(table, format!("JID{} PID  CMD\n{}  44  /bin/sleep 5", " ".repeat(37), jid));
}
