//! The job registry: named start descriptions, the process each one runs, and
//! the exit code each one last reported.
use vstd::prelude::*;
use crate::jid::{JobDescription, digest_input, hex_of, sha1_of};
use crate::process::StartInfo;

verus! {

/// A wall-clock instant: seconds since the Unix epoch and the nanoseconds
/// within that second.
#[derive(Clone, Copy, PartialEq, Eq, Debug)]
pub struct Timestamp {
    pub secs: i64,
    pub nanos: u32,
}

/// Why a registry operation was refused.
#[derive(Clone, Copy, PartialEq, Eq, Debug)]
pub enum JobError {
    /// A job with the computed identifier already exists.
    DuplicateJid,
    /// No job has the identifier.
    UnknownJid,
    /// The job already has a running process.
    AlreadyRunning,
    /// Another job is already linked to the process.
    PidInUse,
}

/// A registered job.
#[derive(Debug)]
pub struct Job {
    id: String,
    desc: JobDescription,
    created_at: Timestamp,
    pid: Option<u32>,
    last_exit_code: Option<i32>,
}

impl Job {
    pub closed spec fn spec_id(&self) -> Seq<char> {
        self.id@
    }

    pub closed spec fn spec_desc(&self) -> &JobDescription {
        &self.desc
    }

    pub closed spec fn spec_created_at(&self) -> Timestamp {
        self.created_at
    }

    pub closed spec fn spec_pid(&self) -> Option<u32> {
        self.pid
    }

    pub closed spec fn spec_last_exit_code(&self) -> Option<i32> {
        self.last_exit_code
    }

    /// The job's identifier.
    pub fn id(&self) -> (r: &str)
        ensures
            r@ == self.spec_id(),
    {
        self.id.as_str()
    }

    /// The job's description.
    pub fn description(&self) -> (r: &JobDescription)
        ensures
            r == self.spec_desc(),
    {
        &self.desc
    }

    /// When the job was added.
    pub fn created_at(&self) -> (r: Timestamp)
        ensures
            r == self.spec_created_at(),
    {
        self.created_at
    }

    /// The process the job runs, if any.
    pub fn pid(&self) -> (r: Option<u32>)
        ensures
            r == self.spec_pid(),
    {
        self.pid
    }

    /// The exit code of the job's last process, if one has exited.
    pub fn last_exit_code(&self) -> (r: Option<i32>)
        ensures
            r == self.spec_last_exit_code(),
    {
        self.last_exit_code
    }
}

/// Whether a job of `jobs` has identifier `jid`.
pub open spec fn has_jid(jobs: Seq<Job>, jid: Seq<char>) -> bool {
    exists|i: int| 0 <= i < jobs.len() && #[trigger] jobs[i].spec_id() == jid
}

/// The position of the job with identifier `jid` in `jobs`.
pub open spec fn position(jobs: Seq<Job>, jid: Seq<char>) -> int {
    choose|i: int| 0 <= i < jobs.len() && #[trigger] jobs[i].spec_id() == jid
}

/// No two jobs share an identifier.
pub open spec fn unique_ids(jobs: Seq<Job>) -> bool {
    forall|i: int, j: int|
        0 <= i < jobs.len() && 0 <= j < jobs.len() && i != j ==> #[trigger] jobs[i].spec_id()
            != #[trigger] jobs[j].spec_id()
}

/// Whether a job of `jobs` is linked to process `pid`.
pub open spec fn pid_linked(jobs: Seq<Job>, pid: u32) -> bool {
    exists|i: int| 0 <= i < jobs.len() && #[trigger] jobs[i].spec_pid() == Some(pid)
}

/// No two jobs are linked to the same process.
pub open spec fn unique_pids(jobs: Seq<Job>) -> bool {
    forall|i: int, j: int|
        0 <= i < jobs.len() && 0 <= j < jobs.len() && i != j && jobs[i].spec_pid() is Some
            ==> #[trigger] jobs[i].spec_pid() != #[trigger] jobs[j].spec_pid()
}

/// Whether `after` is `before` with its process set to `pid`, all else kept.
pub open spec fn is_started(after: Job, before: Job, pid: u32) -> bool {
    &&& after.spec_id() == before.spec_id()
    &&& after.spec_desc() == before.spec_desc()
    &&& after.spec_created_at() == before.spec_created_at()
    &&& after.spec_last_exit_code() == before.spec_last_exit_code()
    &&& after.spec_pid() == Some(pid)
}

/// Whether `after` is `before` once its process exited with `code`.
pub open spec fn is_exited(after: Job, before: Job, code: i32) -> bool {
    &&& after.spec_id() == before.spec_id()
    &&& after.spec_desc() == before.spec_desc()
    &&& after.spec_created_at() == before.spec_created_at()
    &&& after.spec_last_exit_code() == Some(code)
    &&& after.spec_pid() == None::<u32>
}

/// Whether `after` is `before` once process `pid` exited with `code`: each job
/// linked to `pid` is unlinked and keeps `code`; the others are unchanged.
pub open spec fn exit_applied(after: Seq<Job>, before: Seq<Job>, pid: u32, code: i32) -> bool {
    &&& after.len() == before.len()
    &&& forall|i: int|
        0 <= i < before.len() ==> if before[i].spec_pid() == Some(pid) {
            is_exited(#[trigger] after[i], before[i], code)
        } else {
            after[i] == before[i]
        }
}

/// Whether `job` is a fresh job: identifier `jid`, description `desc`, added
/// at `at`, with no process and no exit code.
pub open spec fn is_fresh(job: Job, jid: Seq<char>, desc: JobDescription, at: Timestamp) -> bool {
    &&& job.spec_id() == jid
    &&& *job.spec_desc() == desc
    &&& job.spec_created_at() == at
    &&& job.spec_pid() == None::<u32>
    &&& job.spec_last_exit_code() == None::<i32>
}

/// The registry of jobs, in the order they were added.
#[derive(Debug)]
pub struct JobManager {
    jobs: Vec<Job>,
}

impl JobManager {
    /// The jobs, oldest first.
    pub closed spec fn spec_jobs(&self) -> Seq<Job> {
        self.jobs@
    }

    /// Identifiers are unique, and each process is linked to one job at most.
    pub open spec fn wf(&self) -> bool {
        unique_ids(self.spec_jobs()) && unique_pids(self.spec_jobs())
    }

    /// An empty registry.
    pub fn new() -> (r: Self)
        ensures
            r.wf(),
            r.spec_jobs() == Seq::<Job>::empty(),
    {
        JobManager { jobs: Vec::new() }
    }

    /// The jobs, oldest first.
    pub fn jobs(&self) -> (r: &Vec<Job>)
        ensures
            r@ == self.spec_jobs(),
    {
        &self.jobs
    }

    /// The position of the job with identifier `jid`, if there is one.
    fn find(&self, jid: &String) -> (r: Option<usize>)
        requires
            self.wf(),
        ensures
            match r {
                Some(i) => i < self.spec_jobs().len() && i == position(self.spec_jobs(), jid@)
                    && has_jid(self.spec_jobs(), jid@),
                None => !has_jid(self.spec_jobs(), jid@),
            },
    {
        let mut i: usize = 0;
        while i < self.jobs.len()
            invariant
                i <= self.jobs@.len(),
                self.wf(),
                forall|k: int| 0 <= k < i ==> #[trigger] self.jobs@[k].spec_id() != jid@,
            decreases self.jobs@.len() - i,
        {
            if self.jobs[i].id.eq(jid) {
                assert(self.jobs@[i as int].spec_id() == jid@);
                assert(has_jid(self.spec_jobs(), jid@));
                let ghost p = position(self.spec_jobs(), jid@);
                assert(0 <= p < self.jobs@.len() && self.jobs@[p].spec_id() == jid@);
                assert(p == i as int) by {
                    if p != i as int {
                        assert(self.jobs@[p].spec_id() != self.jobs@[i as int].spec_id());
                    }
                }
                return Some(i);
            }
            i = i + 1;
        }
        None
    }

    /// Whether a job is linked to process `pid`.
    fn pid_in_use(&self, pid: u32) -> (r: bool)
        ensures
            r == pid_linked(self.spec_jobs(), pid),
    {
        let mut i: usize = 0;
        while i < self.jobs.len()
            invariant
                i <= self.jobs@.len(),
                forall|k: int| 0 <= k < i ==> #[trigger] self.jobs@[k].spec_pid() != Some(pid),
            decreases self.jobs@.len() - i,
        {
            if self.jobs[i].pid == Some(pid) {
                assert(self.jobs@[i as int].spec_pid() == Some(pid));
                return true;
            }
            i = i + 1;
        }
        false
    }

    /// The job with identifier `jid`, if there is one.
    pub fn job(&self, jid: &String) -> (r: Option<&Job>)
        requires
            self.wf(),
        ensures
            match r {
                Some(j) => has_jid(self.spec_jobs(), jid@) && *j == self.spec_jobs()[position(
                    self.spec_jobs(),
                    jid@,
                )],
                None => !has_jid(self.spec_jobs(), jid@),
            },
    {
        match self.find(jid) {
            Some(i) => Some(&self.jobs[i]),
            None => None,
        }
    }

    /// Adds a job under identifier `jid`, created at `created_at`, with no
    /// process and no exit code. Refused with `DuplicateJid` when the
    /// identifier is taken.
    pub fn insert_job(&mut self, jid: String, desc: JobDescription, created_at: Timestamp) -> (r:
        Result<(), JobError>)
        requires
            old(self).wf(),
        ensures
            final(self).wf(),
            match r {
                Ok(()) => !has_jid(old(self).spec_jobs(), jid@) && final(self).spec_jobs().len()
                    == old(self).spec_jobs().len() + 1 && final(self).spec_jobs().drop_last()
                    == old(self).spec_jobs() && is_fresh(
                    final(self).spec_jobs().last(),
                    jid@,
                    desc,
                    created_at,
                ),
                Err(e) => e == JobError::DuplicateJid && has_jid(old(self).spec_jobs(), jid@)
                    && final(self).spec_jobs() == old(self).spec_jobs(),
            },
    {
        if self.find(&jid).is_some() {
            return Err(JobError::DuplicateJid);
        }
        let ghost j = jid@;
        self.jobs.push(Job { id: jid, desc, created_at, pid: None, last_exit_code: None });
        assert(self.jobs@.drop_last() =~= old(self).jobs@);
        assert forall|a: int, b: int|
            0 <= a < self.jobs@.len() && 0 <= b < self.jobs@.len() && a != b implies
            #[trigger] self.jobs@[a].spec_id() != #[trigger] self.jobs@[b].spec_id() by {
            if a < old(self).jobs@.len() && b < old(self).jobs@.len() {
            } else if a < old(self).jobs@.len() {
                assert(old(self).jobs@[a].spec_id() != j);
            } else {
                assert(old(self).jobs@[b].spec_id() != j);
            }
        }
        Ok(())
    }

    /// Adds a job for `desc` whose identifier is the digest of `desc` under
    /// time seed `seed_millis`; returns that identifier. Refused with
    /// `DuplicateJid` when the identifier is taken.
    pub fn add_job(&mut self, desc: JobDescription, seed_millis: u64, created_at: Timestamp) -> (r:
        Result<String, JobError>)
        requires
            old(self).wf(),
        ensures
            final(self).wf(),
            match r {
                Ok(jid) => jid@ == hex_of(sha1_of(digest_input(&desc, seed_millis)))
                    && !has_jid(old(self).spec_jobs(), jid@) && final(self).spec_jobs().len()
                    == old(self).spec_jobs().len() + 1 && final(self).spec_jobs().drop_last()
                    == old(self).spec_jobs() && is_fresh(
                    final(self).spec_jobs().last(),
                    jid@,
                    desc,
                    created_at,
                ),
                Err(e) => e == JobError::DuplicateJid && has_jid(
                    old(self).spec_jobs(),
                    hex_of(sha1_of(digest_input(&desc, seed_millis))),
                ) && final(self).spec_jobs() == old(self).spec_jobs(),
            },
    {
        let jid = desc.digest(seed_millis);
        let kept = jid.clone();
        match self.insert_job(jid, desc, created_at) {
            Ok(()) => Ok(kept),
            Err(e) => Err(e),
        }
    }

    /// The start description of job `jid`, when it may be started: refused
    /// with `UnknownJid` when there is no such job and with `AlreadyRunning`
    /// when it has a process.
    pub fn start_info_for(&self, jid: &String) -> (r: Result<&StartInfo, JobError>)
        requires
            self.wf(),
        ensures
            match r {
                Ok(info) => has_jid(self.spec_jobs(), jid@) && self.spec_jobs()[position(
                    self.spec_jobs(),
                    jid@,
                )].spec_pid() is None && info == &self.spec_jobs()[position(
                    self.spec_jobs(),
                    jid@,
                )].spec_desc().start_info,
                Err(e) => (e == JobError::UnknownJid && !has_jid(self.spec_jobs(), jid@)) || (e
                    == JobError::AlreadyRunning && has_jid(self.spec_jobs(), jid@)
                    && self.spec_jobs()[position(self.spec_jobs(), jid@)].spec_pid() is Some),
            },
    {
        match self.find(jid) {
            None => Err(JobError::UnknownJid),
            Some(i) => {
                if self.jobs[i].pid.is_some() {
                    Err(JobError::AlreadyRunning)
                } else {
                    Ok(&self.jobs[i].desc.start_info)
                }
            },
        }
    }

    /// Links job `jid` to its newly started process `pid` and returns `pid`.
    /// Refused with `UnknownJid` when there is no such job, with
    /// `AlreadyRunning` when it already has a process, and with `PidInUse`
    /// when another job is linked to `pid`.
    pub fn start_job(&mut self, jid: &String, pid: u32) -> (r: Result<u32, JobError>)
        requires
            old(self).wf(),
        ensures
            final(self).wf(),
            match r {
                Ok(p) => {
                    let i = position(old(self).spec_jobs(), jid@);
                    &&& p == pid
                    &&& has_jid(old(self).spec_jobs(), jid@)
                    &&& old(self).spec_jobs()[i].spec_pid() is None
                    &&& final(self).spec_jobs().len() == old(self).spec_jobs().len()
                    &&& is_started(final(self).spec_jobs()[i], old(self).spec_jobs()[i], pid)
                    &&& forall|k: int|
                        0 <= k < old(self).spec_jobs().len() && k != i
                            ==> #[trigger] final(self).spec_jobs()[k]
                            == old(self).spec_jobs()[k]
                },
                Err(e) => final(self).spec_jobs() == old(self).spec_jobs() && ((e
                    == JobError::UnknownJid && !has_jid(old(self).spec_jobs(), jid@)) || (e
                    == JobError::AlreadyRunning && has_jid(old(self).spec_jobs(), jid@)
                    && old(self).spec_jobs()[position(
                    old(self).spec_jobs(),
                    jid@,
                )].spec_pid() is Some) || (e == JobError::PidInUse && has_jid(
                    old(self).spec_jobs(),
                    jid@,
                ) && old(self).spec_jobs()[position(old(self).spec_jobs(), jid@)].spec_pid() is None
                    && pid_linked(old(self).spec_jobs(), pid))),
            },
    {
        match self.find(jid) {
            None => Err(JobError::UnknownJid),
            Some(i) => {
                if self.jobs[i].pid.is_some() {
                    return Err(JobError::AlreadyRunning);
                }
                if self.pid_in_use(pid) {
                    return Err(JobError::PidInUse);
                }
                let mut job = self.jobs.remove(i);
                job.pid = Some(pid);
                self.jobs.insert(i, job);
                proof {
                    assert forall|k: int| 0 <= k < self.jobs@.len() implies #[trigger] self.jobs@[k]
                        == if k == i {
                        self.jobs@[k]
                    } else {
                        old(self).jobs@[k]
                    } by {}
                    assert forall|a: int, b: int|
                        0 <= a < self.jobs@.len() && 0 <= b < self.jobs@.len() && a != b implies
                        #[trigger] self.jobs@[a].spec_id() != #[trigger] self.jobs@[b].spec_id() by {
                        assert(old(self).jobs@[a].spec_id() != old(self).jobs@[b].spec_id());
                    }
                    assert forall|a: int, b: int|
                        0 <= a < self.jobs@.len() && 0 <= b < self.jobs@.len() && a != b
                            && self.jobs@[a].spec_pid() is Some implies #[trigger] self.jobs@[a].spec_pid()
                        != #[trigger] self.jobs@[b].spec_pid() by {
                        if a == i {
                            assert(old(self).jobs@[b].spec_pid() != Some(pid));
                        } else if b == i {
                            assert(old(self).jobs@[a].spec_pid() != Some(pid));
                        } else {
                            assert(old(self).jobs@[a].spec_pid() != old(self).jobs@[b].spec_pid());
                        }
                    }
                }
                Ok(pid)
            },
        }
    }

    /// Records that process `pid` exited with `code`: the job linked to
    /// `pid`, if any (there is one at most), is unlinked and keeps `code` as
    /// its last exit code. An exit of a
    /// process no job runs changes nothing.
    pub fn handle_process_exit(&mut self, pid: u32, code: i32)
        requires
            old(self).wf(),
        ensures
            final(self).wf(),
            exit_applied(final(self).spec_jobs(), old(self).spec_jobs(), pid, code),
    {
        let mut i: usize = 0;
        while i < self.jobs.len()
            invariant
                i <= self.jobs@.len(),
                self.jobs@.len() == old(self).jobs@.len(),
                forall|k: int|
                    0 <= k < self.jobs@.len() ==> #[trigger] self.jobs@[k].spec_id() == old(
                        self,
                    ).jobs@[k].spec_id(),
                forall|k: int|
                    0 <= k < i ==> if old(self).jobs@[k].spec_pid() == Some(pid) {
                        is_exited(#[trigger] self.jobs@[k], old(self).jobs@[k], code)
                    } else {
                        self.jobs@[k] == old(self).jobs@[k]
                    },
                forall|k: int| i <= k < self.jobs@.len() ==> #[trigger] self.jobs@[k] == old(
                    self,
                ).jobs@[k],
            decreases self.jobs@.len() - i,
        {
            if self.jobs[i].pid == Some(pid) {
                let ghost before = self.jobs@;
                let mut job = self.jobs.remove(i);
                job.pid = None;
                job.last_exit_code = Some(code);
                self.jobs.insert(i, job);
                assert forall|k: int| 0 <= k < self.jobs@.len() && k != i implies
                    #[trigger] self.jobs@[k] == before[k] by {}
            }
            i = i + 1;
        }
        assert forall|a: int, b: int|
            0 <= a < self.jobs@.len() && 0 <= b < self.jobs@.len() && a != b implies
            #[trigger] self.jobs@[a].spec_id() != #[trigger] self.jobs@[b].spec_id() by {
            assert(old(self).jobs@[a].spec_id() != old(self).jobs@[b].spec_id());
        }
    }
}

/// When the exit of process `pid` with code `k` is handled, the job with
/// identifier `jid` that ran `pid` is left with no process and with `k` as
/// its last exit code; every other job is unchanged and the order is kept.
pub proof fn lemma_exit_clears_job(
    before: Seq<Job>,
    after: Seq<Job>,
    jid: Seq<char>,
    pid: u32,
    k: i32,
)
    requires
        unique_ids(before),
        unique_pids(before),
        has_jid(before, jid),
        before[position(before, jid)].spec_pid() == Some(pid),
        exit_applied(after, before, pid, k),
    ensures
        has_jid(after, jid),
        position(after, jid) == position(before, jid),
        after[position(after, jid)].spec_pid() == None::<u32>,
        after[position(after, jid)].spec_last_exit_code() == Some(k),
        !pid_linked(after, pid),
        forall|m: int|
            0 <= m < before.len() && m != position(before, jid) ==> #[trigger] after[m] == before[m],
{
    let i = position(before, jid);
    assert(is_exited(after[i], before[i], k));
    assert(after[i].spec_id() == jid);
    let j = position(after, jid);
    assert(0 <= j < after.len() && after[j].spec_id() == jid);
    if j != i {
        if before[j].spec_pid() == Some(pid) {
            assert(is_exited(after[j], before[j], k));
        } else {
            assert(after[j] == before[j]);
        }
        assert(before[j].spec_id() == jid);
        assert(false);
    }
    assert forall|m: int| 0 <= m < before.len() && m != i implies #[trigger] after[m] == before[m] by {
        assert(before[i].spec_pid() != before[m].spec_pid());
    }
    if pid_linked(after, pid) {
        let m = choose|m: int| 0 <= m < after.len() && #[trigger] after[m].spec_pid() == Some(pid);
        if before[m].spec_pid() == Some(pid) {
            assert(is_exited(after[m], before[m], k));
        }
    }
}

} // verus!
