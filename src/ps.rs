//! The `ps` listing: merging live processes with jobs on the server, and
//! sorting and rendering the rows on the client.
use vstd::prelude::*;
use crate::job_mgr::Timestamp;

verus! {

/// A live process as `ps` sees it.
#[derive(Debug)]
pub struct ProcessSnapshot {
    pub pid: u32,
    pub cmd: String,
    pub started_at: Timestamp,
    pub uptime_secs: u64,
}

/// A job as `ps` sees it.
#[derive(Debug)]
pub struct JobSnapshot {
    pub jid: String,
    pub pid: Option<u32>,
    pub cmd: String,
    pub created_at: Timestamp,
    pub last_exit_code: Option<i32>,
}

/// One row of the `ps` response.
#[derive(Debug)]
pub struct PsProcess {
    pub jid: Option<String>,
    pub pid: Option<u32>,
    pub cmd: String,
    pub created_at_ts: Timestamp,
    pub uptime_secs: u64,
    pub last_exit_code: Option<i32>,
}

/// The row of a live process: no job yet, started at its start time.
pub open spec fn proc_row(p: ProcessSnapshot) -> PsProcess {
    PsProcess {
        jid: None,
        pid: Some(p.pid),
        cmd: p.cmd,
        created_at_ts: p.started_at,
        uptime_secs: p.uptime_secs,
        last_exit_code: None,
    }
}

/// Whether `i` is the first row of `rows` with pid `pid`.
pub open spec fn is_first_row(rows: Seq<PsProcess>, pid: u32, i: int) -> bool {
    &&& 0 <= i < rows.len()
    &&& rows[i].pid == Some(pid)
    &&& forall|k: int| 0 <= k < i ==> #[trigger] rows[k].pid != Some(pid)
}

/// Whether some row of `rows` has pid `pid`.
pub open spec fn has_row(rows: Seq<PsProcess>, pid: u32) -> bool {
    exists|i: int| 0 <= i < rows.len() && #[trigger] rows[i].pid == Some(pid)
}

/// The first row of `rows` with pid `pid`.
pub open spec fn first_row(rows: Seq<PsProcess>, pid: u32) -> int {
    choose|i: int| is_first_row(rows, pid, i)
}

/// The rows after job `j` is merged in: a job running a listed process marks
/// that process's row with its id and creation time; with `show_all`, any
/// other job adds a row of its own, without pid or uptime.
pub open spec fn merge_job(rows: Seq<PsProcess>, j: JobSnapshot, show_all: bool) -> Seq<PsProcess> {
    if j.pid is Some && has_row(rows, j.pid->Some_0) {
        let i = first_row(rows, j.pid->Some_0);
        rows.update(i, PsProcess { jid: Some(j.jid), created_at_ts: j.created_at, ..rows[i] })
    } else if show_all {
        rows.push(
            PsProcess {
                jid: Some(j.jid),
                pid: None,
                cmd: j.cmd,
                created_at_ts: j.created_at,
                uptime_secs: 0,
                last_exit_code: j.last_exit_code,
            },
        )
    } else {
        rows
    }
}

/// The `ps` rows for live processes `procs` and jobs `jobs`: one row per
/// process in order, then each job merged in turn.
pub open spec fn merged(procs: Seq<ProcessSnapshot>, jobs: Seq<JobSnapshot>, show_all: bool) -> Seq<
    PsProcess,
>
    decreases jobs.len(),
{
    if jobs.len() == 0 {
        procs.map_values(|p: ProcessSnapshot| proc_row(p))
    } else {
        merge_job(merged(procs, jobs.drop_last(), show_all), jobs.last(), show_all)
    }
}

/// The position of the first row with pid `pid`, if any.
fn find_row(rows: &Vec<PsProcess>, pid: u32) -> (r: Option<usize>)
    ensures
        match r {
            Some(i) => i < rows@.len() && has_row(rows@, pid) && is_first_row(rows@, pid, i as int)
                && i == first_row(rows@, pid),
            None => !has_row(rows@, pid),
        },
{
    let mut i: usize = 0;
    while i < rows.len()
        invariant
            i <= rows@.len(),
            forall|k: int| 0 <= k < i ==> #[trigger] rows@[k].pid != Some(pid),
        decreases rows@.len() - i,
    {
        if rows[i].pid == Some(pid) {
            assert(is_first_row(rows@, pid, i as int));
            let ghost c = first_row(rows@, pid);
            assert(is_first_row(rows@, pid, c));
            assert(c == i as int) by {
                if c < i as int {
                    assert(rows@[c].pid != Some(pid));
                } else if c > i as int {
                    assert(rows@[i as int].pid != Some(pid));
                }
            }
            return Some(i);
        }
        i = i + 1;
    }
    None
}

/// Merges job `j` into `rows` as `merge_job` says.
fn merge_job_into(rows: &mut Vec<PsProcess>, j: JobSnapshot, show_all: bool)
    ensures
        final(rows)@ == merge_job(old(rows)@, j, show_all),
{
    let ghost jv = j;
    let JobSnapshot { jid, pid, cmd, created_at, last_exit_code } = j;
    let found = match pid {
        Some(p) => find_row(rows, p),
        None => None,
    };
    match found {
        Some(i) => {
            let mut row = rows.remove(i);
            row.jid = Some(jid);
            row.created_at_ts = created_at;
            rows.insert(i, row);
            assert(rows@ =~= merge_job(old(rows)@, jv, show_all));
        },
        None => {
            if show_all {
                rows.push(
                    PsProcess {
                        jid: Some(jid),
                        pid: None,
                        cmd,
                        created_at_ts: created_at,
                        uptime_secs: 0,
                        last_exit_code,
                    },
                );
            }
        },
    }
}

/// The rows of the `ps` response: one per live process, in order, with the
/// id and creation time of the job running it, if any; with `show_all`,
/// followed by a row for each job that runs no listed process.
pub fn ps_rows(procs: Vec<ProcessSnapshot>, jobs: Vec<JobSnapshot>, show_all: bool) -> (r: Vec<
    PsProcess,
>)
    ensures
        r@ == merged(procs@, jobs@, show_all),
{
    let ghost ps = procs@;
    let ghost js = jobs@;
    let mut procs = procs;
    let mut rows: Vec<PsProcess> = Vec::new();
    while procs.len() > 0
        invariant
            rows@.len() + procs@.len() == ps.len(),
            procs@ == ps.subrange(rows@.len() as int, ps.len() as int),
            rows@ == ps.subrange(0, rows@.len() as int).map_values(
                |p: ProcessSnapshot| proc_row(p),
            ),
        decreases procs@.len(),
    {
        let ghost k: int = rows@.len() as int;
        let p = procs.remove(0);
        assert(p == ps[k]);
        assert(procs@ =~= ps.subrange(k + 1, ps.len() as int));
        let ProcessSnapshot { pid, cmd, started_at, uptime_secs } = p;
        rows.push(
            PsProcess {
                jid: None,
                pid: Some(pid),
                cmd,
                created_at_ts: started_at,
                uptime_secs,
                last_exit_code: None,
            },
        );
        assert(rows@ =~= ps.subrange(0, k + 1).map_values(|p: ProcessSnapshot| proc_row(p)));
    }
    assert(ps.subrange(0, ps.len() as int) =~= ps);
    assert(rows@ == merged(ps, js.subrange(0, 0), show_all)) by {
        assert(js.subrange(0, 0).len() == 0);
    }
    let mut jobs = jobs;
    let total = jobs.len();
    let mut done: usize = 0;
    while jobs.len() > 0
        invariant
            done + jobs@.len() == js.len(),
            js.len() == total,
            jobs@ == js.subrange(done as int, js.len() as int),
            rows@ == merged(ps, js.subrange(0, done as int), show_all),
        decreases jobs@.len(),
    {
        let j = jobs.remove(0);
        assert(j == js[done as int]);
        assert(jobs@ =~= js.subrange(done + 1, js.len() as int));
        merge_job_into(&mut rows, j, show_all);
        proof {
            let next = js.subrange(0, done + 1);
            assert(next.drop_last() =~= js.subrange(0, done as int));
            assert(next.last() == js[done as int]);
        }
        done = done + 1;
    }
    assert(js.subrange(0, js.len() as int) =~= js);
    rows
}

/// The row of live process `p` once `jobs` are merged in: marked with the id
/// and creation time of the last job running it, if any.
pub open spec fn marked_row(p: ProcessSnapshot, jobs: Seq<JobSnapshot>) -> PsProcess
    decreases jobs.len(),
{
    if jobs.len() == 0 {
        proc_row(p)
    } else if jobs.last().pid == Some(p.pid) {
        PsProcess { jid: Some(jobs.last().jid), created_at_ts: jobs.last().created_at, ..proc_row(p) }
    } else {
        marked_row(p, jobs.drop_last())
    }
}

/// Whether job `j` runs one of the live processes `procs`.
pub open spec fn runs_listed(procs: Seq<ProcessSnapshot>, j: JobSnapshot) -> bool {
    exists|k: int| 0 <= k < procs.len() && Some(#[trigger] procs[k].pid) == j.pid
}

/// The row of a job that runs none of the live processes.
pub open spec fn idle_row(j: JobSnapshot) -> PsProcess {
    PsProcess {
        jid: Some(j.jid),
        pid: None,
        cmd: j.cmd,
        created_at_ts: j.created_at,
        uptime_secs: 0,
        last_exit_code: j.last_exit_code,
    }
}

/// The rows of the jobs of `jobs` that run none of `procs`, in order.
pub open spec fn idle_rows(procs: Seq<ProcessSnapshot>, jobs: Seq<JobSnapshot>) -> Seq<PsProcess>
    decreases jobs.len(),
{
    if jobs.len() == 0 {
        Seq::empty()
    } else if runs_listed(procs, jobs.last()) {
        idle_rows(procs, jobs.drop_last())
    } else {
        idle_rows(procs, jobs.drop_last()).push(idle_row(jobs.last()))
    }
}

/// No two live processes share a pid.
pub open spec fn unique_proc_pids(procs: Seq<ProcessSnapshot>) -> bool {
    forall|a: int, b: int|
        0 <= a < procs.len() && 0 <= b < procs.len() && a != b ==> #[trigger] procs[a].pid
            != #[trigger] procs[b].pid
}

proof fn lemma_marked_fields(p: ProcessSnapshot, jobs: Seq<JobSnapshot>)
    ensures
        marked_row(p, jobs).pid == Some(p.pid),
        marked_row(p, jobs).cmd == p.cmd,
        marked_row(p, jobs).uptime_secs == p.uptime_secs,
        marked_row(p, jobs).last_exit_code == None::<i32>,
    decreases jobs.len(),
{
    if jobs.len() > 0 {
        lemma_marked_fields(p, jobs.drop_last());
    }
}

proof fn lemma_idle_without_pid(procs: Seq<ProcessSnapshot>, jobs: Seq<JobSnapshot>)
    ensures
        forall|i: int|
            0 <= i < idle_rows(procs, jobs).len() ==> (#[trigger] idle_rows(procs, jobs)[i]).pid
                is None,
    decreases jobs.len(),
{
    if jobs.len() > 0 {
        lemma_idle_without_pid(procs, jobs.drop_last());
    }
}

/// The `ps` rows stated directly: first the live processes, in order, each
/// marked with the id and creation time of the last job running it, if any;
/// then, with `show_all`, one row for each job that runs no live process, in
/// job order.
pub proof fn lemma_merged_rows(procs: Seq<ProcessSnapshot>, jobs: Seq<JobSnapshot>, show_all: bool)
    requires
        unique_proc_pids(procs),
    ensures
        merged(procs, jobs, show_all) == procs.map_values(|p: ProcessSnapshot| marked_row(p, jobs))
            + if show_all {
            idle_rows(procs, jobs)
        } else {
            Seq::<PsProcess>::empty()
        },
    decreases jobs.len(),
{
    let rest: Seq<PsProcess> = if show_all {
        idle_rows(procs, jobs)
    } else {
        Seq::<PsProcess>::empty()
    };
    let m = procs.map_values(|p: ProcessSnapshot| marked_row(p, jobs));
    if jobs.len() == 0 {
        assert(merged(procs, jobs, show_all) =~= m + rest);
    } else {
        let js = jobs.drop_last();
        let j = jobs.last();
        lemma_merged_rows(procs, js, show_all);
        let m0 = procs.map_values(|p: ProcessSnapshot| marked_row(p, js));
        let rest0: Seq<PsProcess> = if show_all {
            idle_rows(procs, js)
        } else {
            Seq::<PsProcess>::empty()
        };
        let rows = m0 + rest0;
        assert(merged(procs, js, show_all) == rows);
        lemma_idle_without_pid(procs, js);
        assert forall|k: int| 0 <= k < procs.len() implies (#[trigger] rows[k]).pid == Some(
            procs[k].pid,
        ) by {
            lemma_marked_fields(procs[k], js);
        }
        if runs_listed(procs, j) {
            let k = choose|k: int| 0 <= k < procs.len() && Some(#[trigger] procs[k].pid) == j.pid;
            let p = j.pid->Some_0;
            assert(rows[k].pid == Some(p));
            assert(has_row(rows, p));
            assert(is_first_row(rows, p, k)) by {
                assert forall|q: int| 0 <= q < k implies #[trigger] rows[q].pid != Some(p) by {
                    assert(procs[q].pid != procs[k].pid);
                }
            }
            let f = first_row(rows, p);
            assert(is_first_row(rows, p, f));
            assert(f == k) by {
                if f < k {
                    assert(rows[f].pid != Some(p));
                } else if f > k {
                    assert(rows[k].pid != Some(p));
                }
            }
            lemma_marked_fields(procs[k], js);
            let after = merge_job(rows, j, show_all);
            assert(after =~= m + rest) by {
                assert forall|q: int| 0 <= q < procs.len() implies #[trigger] after[q] == m[q] by {
                    if q != k {
                        assert(procs[q].pid != procs[k].pid);
                    }
                }
            }
        } else {
            assert forall|q: int| 0 <= q < procs.len() implies #[trigger] m[q] == m0[q] by {
                if procs[q].pid == j.pid->Some_0 && j.pid is Some {
                    assert(Some(procs[q].pid) == j.pid);
                }
            }
            assert(m =~= m0);
            if j.pid is Some {
                let p = j.pid->Some_0;
                if has_row(rows, p) {
                    let q = choose|q: int| 0 <= q < rows.len() && #[trigger] rows[q].pid == Some(p);
                    if q < procs.len() {
                        assert(Some(procs[q].pid) == j.pid);
                    } else {
                        assert(rest0[q - procs.len()].pid is None);
                    }
                }
            }
            assert(merge_job(rows, j, show_all) =~= m + rest);
        }
    }
}

} // verus!
