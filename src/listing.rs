//! Client-side rendering of the `ps` and `job ls` responses: rows sorted by
//! creation time, shown as a table.
use vstd::prelude::*;
use vstd::string::*;
use crate::console_table::{Alignment, ColumnCollection, ColumnOptions, ColumnSpec, table_text};
use crate::job_mgr::{Job, Timestamp};
use crate::process::{args_of, cmd_text};
use crate::ps::{JobSnapshot, PsProcess};
use crate::text::{dec, dec_int, push_decimal, push_decimal_i64};
use crate::time::{FormattedUptime, uptime_text};

verus! {

/// Whether instant `a` comes strictly before instant `b`.
pub open spec fn earlier(a: Timestamp, b: Timestamp) -> bool {
    a.secs < b.secs || (a.secs == b.secs && a.nanos < b.nanos)
}

fn is_earlier(a: Timestamp, b: Timestamp) -> (r: bool)
    ensures
        r == earlier(a, b),
{
    a.secs < b.secs || (a.secs == b.secs && a.nanos < b.nanos)
}

/// Something listed with the instant it was created.
pub trait CreatedAt {
    spec fn spec_created(&self) -> Timestamp;

    fn created(&self) -> (r: Timestamp)
        ensures
            r == self.spec_created(),
    ;
}

/// `s`, sorted by creation time, with `x` inserted after every item not
/// created later than it.
pub open spec fn insert_sorted<T: CreatedAt>(s: Seq<T>, x: T) -> Seq<T>
    decreases s.len(),
{
    if s.len() == 0 {
        seq![x]
    } else if earlier(x.spec_created(), s.last().spec_created()) {
        insert_sorted(s.drop_last(), x).push(s.last())
    } else {
        s.push(x)
    }
}

/// `s` sorted by creation time; items created at the same instant keep
/// their order.
pub open spec fn sorted_by_created<T: CreatedAt>(s: Seq<T>) -> Seq<T>
    decreases s.len(),
{
    if s.len() == 0 {
        s
    } else {
        insert_sorted(sorted_by_created(s.drop_last()), s.last())
    }
}

proof fn lemma_insert_at<T: CreatedAt>(s: Seq<T>, x: T, j: int)
    requires
        0 <= j <= s.len(),
        forall|m: int| j <= m < s.len() ==> earlier(x.spec_created(), #[trigger] s[m].spec_created()),
        j == 0 || !earlier(x.spec_created(), s[j - 1].spec_created()),
    ensures
        insert_sorted(s, x) == s.insert(j, x),
    decreases s.len(),
{
    if s.len() == 0 {
        assert(s.insert(j, x) =~= seq![x]);
    } else if j == s.len() {
        assert(s.insert(j, x) =~= s.push(x));
    } else {
        assert(earlier(x.spec_created(), s[s.len() - 1].spec_created()));
        let t = s.drop_last();
        assert forall|m: int| j <= m < t.len() implies earlier(
            x.spec_created(),
            #[trigger] t[m].spec_created(),
        ) by {
            assert(t[m] == s[m]);
        }
        lemma_insert_at(t, x, j);
        assert(t.insert(j, x).push(s.last()) =~= s.insert(j, x));
    }
}

proof fn lemma_insert_len<T: CreatedAt>(s: Seq<T>, x: T)
    ensures
        insert_sorted(s, x).len() == s.len() + 1,
    decreases s.len(),
{
    if s.len() > 0 {
        lemma_insert_len(s.drop_last(), x);
    }
}

/// Sorting keeps the number of items.
pub proof fn lemma_sorted_len<T: CreatedAt>(s: Seq<T>)
    ensures
        sorted_by_created(s).len() == s.len(),
    decreases s.len(),
{
    if s.len() > 0 {
        lemma_sorted_len(s.drop_last());
        lemma_insert_len(sorted_by_created(s.drop_last()), s.last());
    }
}

/// No item of `s` comes after a later one.
pub open spec fn is_sorted_by_created<T: CreatedAt>(s: Seq<T>) -> bool {
    forall|i: int, j: int|
        0 <= i < j < s.len() ==> !earlier(
            #[trigger] s[j].spec_created(),
            #[trigger] s[i].spec_created(),
        )
}

/// Whether an item was created at instant `t`.
pub open spec fn at_time<T: CreatedAt>(t: Timestamp) -> spec_fn(T) -> bool {
    |y: T| y.spec_created() == t
}

/// The items of `s` created at instant `t`, in order.
pub open spec fn created_at<T: CreatedAt>(s: Seq<T>, t: Timestamp) -> Seq<T> {
    s.filter(at_time(t))
}

proof fn lemma_insert_props<T: CreatedAt>(s: Seq<T>, x: T, t: Timestamp)
    requires
        is_sorted_by_created(s),
    ensures
        insert_sorted(s, x).to_multiset() == s.to_multiset().insert(x),
        forall|i: int|
            0 <= i < insert_sorted(s, x).len() ==> #[trigger] insert_sorted(s, x)[i] == x
                || s.contains(insert_sorted(s, x)[i]),
        is_sorted_by_created(insert_sorted(s, x)),
        created_at(insert_sorted(s, x), t) == if x.spec_created() == t {
            created_at(s, t).push(x)
        } else {
            created_at(s, t)
        },
    decreases s.len(),
{
    broadcast use vstd::seq_lib::group_to_multiset_ensures;

    let pred = at_time::<T>(t);
    if s.len() == 0 {
        assert(seq![x] =~= s.push(x));
        s.lemma_filter_push(x, pred);
    } else if earlier(x.spec_created(), s.last().spec_created()) {
        let d = s.drop_last();
        let l = s.last();
        assert(d.push(l) =~= s);
        assert(is_sorted_by_created(d));
        lemma_insert_props(d, x, t);
        let r = insert_sorted(d, x);
        assert(insert_sorted(s, x) == r.push(l));
        assert forall|i: int| 0 <= i < r.push(l).len() implies #[trigger] r.push(l)[i] == x
            || s.contains(r.push(l)[i]) by {
            if i < r.len() && r[i] != x {
                assert(d.contains(r[i]));
                let k = choose|k: int| 0 <= k < d.len() && d[k] == r[i];
                assert(s[k] == r[i]);
            } else if i == r.len() {
                assert(s[s.len() - 1] == l);
            }
        }
        assert forall|a: int, b: int| 0 <= a < b < r.push(l).len() implies !earlier(
            #[trigger] r.push(l)[b].spec_created(),
            #[trigger] r.push(l)[a].spec_created(),
        ) by {
            if b == r.len() {
                if r[a] != x {
                    assert(d.contains(r[a]));
                    let k = choose|k: int| 0 <= k < d.len() && d[k] == r[a];
                    assert(s[k] == r[a]);
                    assert(!earlier(s[s.len() - 1].spec_created(), s[k].spec_created()));
                }
            } else {
                assert(!earlier(r[b].spec_created(), r[a].spec_created()));
            }
        }
        r.lemma_filter_push(l, pred);
        d.lemma_filter_push(l, pred);
    } else {
        s.lemma_filter_push(x, pred);
        assert forall|i: int| 0 <= i < s.push(x).len() implies #[trigger] s.push(x)[i] == x
            || s.contains(s.push(x)[i]) by {
            if i < s.len() {
                assert(s[i] == s.push(x)[i]);
            }
        }
        assert forall|a: int, b: int| 0 <= a < b < s.push(x).len() implies !earlier(
            #[trigger] s.push(x)[b].spec_created(),
            #[trigger] s.push(x)[a].spec_created(),
        ) by {
            if b == s.len() {
                assert(!earlier(s[s.len() - 1].spec_created(), s[a].spec_created()) || a == s.len()
                    - 1);
            }
        }
    }
}

/// Sorting by creation time rearranges the items without adding or losing
/// any, leaves no item after a later one, and keeps the order of the items
/// created at the same instant.
pub proof fn lemma_sorted_by_created<T: CreatedAt>(s: Seq<T>, t: Timestamp)
    ensures
        sorted_by_created(s).to_multiset() == s.to_multiset(),
        is_sorted_by_created(sorted_by_created(s)),
        created_at(sorted_by_created(s), t) == created_at(s, t),
    decreases s.len(),
{
    broadcast use vstd::seq_lib::group_to_multiset_ensures;

    if s.len() > 0 {
        let d = s.drop_last();
        let l = s.last();
        lemma_sorted_by_created(d, t);
        lemma_insert_props(sorted_by_created(d), l, t);
        assert(d.push(l) =~= s);
        d.lemma_filter_push(l, at_time::<T>(t));
    } else {
        assert(s.filter(at_time::<T>(t)) =~= s);
    }
}

/// `items` sorted by creation time, keeping the order of items created at
/// the same instant.
pub fn sort_by_created<T: CreatedAt>(items: Vec<T>) -> (r: Vec<T>)
    ensures
        r@ == sorted_by_created(items@),
{
    let ghost orig = items@;
    let mut items = items;
    let mut out: Vec<T> = Vec::new();
    let total = items.len();
    let mut k: usize = 0;
    while items.len() > 0
        invariant
            k + items@.len() == orig.len(),
            orig.len() == total,
            items@ == orig.subrange(k as int, orig.len() as int),
            out@ == sorted_by_created(orig.subrange(0, k as int)),
        decreases items@.len(),
    {
        let x = items.remove(0);
        assert(x == orig[k as int]);
        assert(items@ =~= orig.subrange(k + 1, orig.len() as int));
        let key = x.created();
        let mut j = out.len();
        loop
            invariant
                j <= out@.len(),
                key == x.spec_created(),
                forall|m: int|
                    j <= m < out@.len() ==> earlier(key, #[trigger] out@[m].spec_created()),
            ensures
                j <= out@.len(),
                forall|m: int|
                    j <= m < out@.len() ==> earlier(key, #[trigger] out@[m].spec_created()),
                j == 0 || !earlier(key, out@[j - 1].spec_created()),
            decreases j,
        {
            if j == 0 {
                break;
            }
            let c = out[j - 1].created();
            if !is_earlier(key, c) {
                break;
            }
            j = j - 1;
        }
        proof {
            lemma_insert_at(out@, x, j as int);
            let next = orig.subrange(0, k + 1);
            assert(next.drop_last() =~= orig.subrange(0, k as int));
            assert(next.last() == x);
        }
        out.insert(j, x);
        k = k + 1;
    }
    assert(orig.subrange(0, orig.len() as int) =~= orig);
    out
}

impl CreatedAt for PsProcess {
    open spec fn spec_created(&self) -> Timestamp {
        self.created_at_ts
    }

    fn created(&self) -> (r: Timestamp) {
        self.created_at_ts
    }
}

/// The PID cell: the pid in decimal, or empty.
pub open spec fn pid_cell(pid: Option<u32>) -> Seq<char> {
    match pid {
        Some(p) => dec(p as nat),
        None => Seq::empty(),
    }
}

/// The short form of a job id: its first eight characters, or all of a
/// shorter one; empty without a job.
pub open spec fn jid_cell(jid: Option<String>) -> Seq<char> {
    match jid {
        Some(j) => if j@.len() < 8 {
            j@
        } else {
            j@.subrange(0, 8)
        },
        None => Seq::empty(),
    }
}

/// The STATUS cell: the uptime of a running process, else the last exit
/// code of a job, else that the job was not started.
pub open spec fn status_cell(row: PsProcess) -> Seq<char> {
    if row.pid is Some {
        "Up "@ + uptime_text(row.uptime_secs as nat)
    } else if row.last_exit_code is Some {
        "Exited with code "@ + dec_int(row.last_exit_code->Some_0 as int)
    } else {
        "Not started"@
    }
}

/// The columns of the `ps` table for `rows`, in order.
pub open spec fn ps_columns(rows: Seq<PsProcess>) -> Seq<ColumnSpec> {
    seq![
        ColumnSpec {
            title: "PID"@,
            alignment: Alignment::Right,
            spacing: 1,
            rows: rows.map_values(|p: PsProcess| pid_cell(p.pid)),
        },
        ColumnSpec {
            title: "JID"@,
            alignment: Alignment::Left,
            spacing: 2,
            rows: rows.map_values(|p: PsProcess| jid_cell(p.jid)),
        },
        ColumnSpec {
            title: "STATUS"@,
            alignment: Alignment::Left,
            spacing: 3,
            rows: rows.map_values(|p: PsProcess| status_cell(p)),
        },
        ColumnSpec {
            title: "CMD"@,
            alignment: Alignment::Left,
            spacing: 1,
            rows: rows.map_values(|p: PsProcess| p.cmd@),
        },
    ]
}

fn pid_string(pid: Option<u32>) -> (r: String)
    ensures
        r@ == pid_cell(pid),
{
    let mut s = String::new();
    if let Some(p) = pid {
        push_decimal(&mut s, p as u64);
    }
    assert(s@ =~= pid_cell(pid));
    s
}

fn jid_string(jid: &Option<String>) -> (r: String)
    ensures
        r@ == jid_cell(*jid),
{
    match jid {
        Some(j) => {
            let n = j.as_str().unicode_len();
            if n < 8 {
                j.clone()
            } else {
                j.as_str().substring_char(0, 8).to_owned()
            }
        },
        None => String::new(),
    }
}

fn status_string(row: &PsProcess) -> (r: String)
    ensures
        r@ == status_cell(*row),
{
    let mut s = String::new();
    if row.pid.is_some() {
        s.append("Up ");
        let u = FormattedUptime::new(row.uptime_secs).to_string();
        s.append(u.as_str());
    } else if let Some(code) = row.last_exit_code {
        s.append("Exited with code ");
        push_decimal_i64(&mut s, code as i64);
    } else {
        s.append("Not started");
    }
    s
}

/// The `ps` table: rows sorted by creation time, with PID, JID, STATUS and
/// CMD columns.
pub fn ps_table(rows: Vec<PsProcess>) -> (r: String)
    requires
        rows@.len() < usize::MAX,
    ensures
        r@ == table_text(ps_columns(sorted_by_created(rows@)), rows@.len()),
{
    let ghost orig = rows@;
    let rows = sort_by_created(rows);
    let ghost sorted = rows@;
    proof {
        lemma_sorted_len(orig);
    }
    let mut b = (
        ColumnOptions::new("PID").alignment(Alignment::Right),
        ColumnOptions::new("JID").spacing(2),
        ColumnOptions::new("STATUS").spacing(3),
        ColumnOptions::new("CMD"),
    ).into_table_builder();
    proof {
        let e = sorted.subrange(0, 0);
        assert(e.map_values(|p: PsProcess| pid_cell(p.pid)) =~= Seq::<Seq<char>>::empty());
        assert(e.map_values(|p: PsProcess| jid_cell(p.jid)) =~= Seq::<Seq<char>>::empty());
        assert(e.map_values(|p: PsProcess| status_cell(p)) =~= Seq::<Seq<char>>::empty());
        assert(e.map_values(|p: PsProcess| p.cmd@) =~= Seq::<Seq<char>>::empty());
        assert(b.spec_columns() =~= ps_columns(e));
    }
    let mut i: usize = 0;
    while i < rows.len()
        invariant
            i <= rows@.len(),
            rows@ == sorted,
            sorted.len() < usize::MAX,
            b.wf(),
            b.spec_row_count() == i,
            b.spec_columns() == ps_columns(sorted.subrange(0, i as int)),
        decreases rows@.len() - i,
    {
        let row = &rows[i];
        let c0 = pid_string(row.pid);
        let c1 = jid_string(&row.jid);
        let c2 = status_string(row);
        let c3 = row.cmd.clone();
        let ghost before = b.spec_columns();
        b.push_row(c0, c1, c2, c3);
        proof {
            let next = sorted.subrange(0, i + 1);
            assert(next =~= sorted.subrange(0, i as int).push(sorted[i as int]));
            assert(b.spec_columns() =~= ps_columns(next)) by {
                assert(b.spec_columns()[0].rows =~= ps_columns(next)[0].rows);
                assert(b.spec_columns()[1].rows =~= ps_columns(next)[1].rows);
                assert(b.spec_columns()[2].rows =~= ps_columns(next)[2].rows);
                assert(b.spec_columns()[3].rows =~= ps_columns(next)[3].rows);
            }
        }
        i = i + 1;
    }
    assert(sorted.subrange(0, sorted.len() as int) =~= sorted);
    b.build()
}

/// One row of the `job ls` response.
#[derive(Debug)]
pub struct JobRow {
    pub jid: String,
    pub pid: Option<u32>,
    pub cmd: String,
    pub created_at_ts: Timestamp,
}

impl CreatedAt for JobRow {
    open spec fn spec_created(&self) -> Timestamp {
        self.created_at_ts
    }

    fn created(&self) -> (r: Timestamp) {
        self.created_at_ts
    }
}

/// The command line of a job.
pub open spec fn job_cmd(job: Job) -> Seq<char> {
    cmd_text(job.spec_desc().start_info.program@, args_of(&job.spec_desc().start_info))
}

/// The rows of the `job ls` response: one per job, in registry order.
pub fn job_rows(jobs: &Vec<Job>) -> (r: Vec<JobRow>)
    ensures
        r@.len() == jobs@.len(),
        forall|i: int|
            0 <= i < jobs@.len() ==> {
                &&& (#[trigger] r@[i]).jid@ == jobs@[i].spec_id()
                &&& r@[i].pid == jobs@[i].spec_pid()
                &&& r@[i].cmd@ == job_cmd(jobs@[i])
                &&& r@[i].created_at_ts == jobs@[i].spec_created_at()
            },
{
    let mut out: Vec<JobRow> = Vec::new();
    let mut i: usize = 0;
    while i < jobs.len()
        invariant
            i <= jobs@.len(),
            out@.len() == i,
            forall|k: int|
                0 <= k < i ==> {
                    &&& (#[trigger] out@[k]).jid@ == jobs@[k].spec_id()
                    &&& out@[k].pid == jobs@[k].spec_pid()
                    &&& out@[k].cmd@ == job_cmd(jobs@[k])
                    &&& out@[k].created_at_ts == jobs@[k].spec_created_at()
                },
        decreases jobs@.len() - i,
    {
        let job = &jobs[i];
        out.push(
            JobRow {
                jid: job.id().to_owned(),
                pid: job.pid(),
                cmd: job.description().start_info.cmd(),
                created_at_ts: job.created_at(),
            },
        );
        i = i + 1;
    }
    out
}

/// The jobs as `ps` merges them: one per job, in registry order.
pub fn job_snapshots(jobs: &Vec<Job>) -> (r: Vec<JobSnapshot>)
    ensures
        r@.len() == jobs@.len(),
        forall|i: int|
            0 <= i < jobs@.len() ==> {
                &&& (#[trigger] r@[i]).jid@ == jobs@[i].spec_id()
                &&& r@[i].pid == jobs@[i].spec_pid()
                &&& r@[i].cmd@ == job_cmd(jobs@[i])
                &&& r@[i].created_at == jobs@[i].spec_created_at()
                &&& r@[i].last_exit_code == jobs@[i].spec_last_exit_code()
            },
{
    let mut out: Vec<JobSnapshot> = Vec::new();
    let mut i: usize = 0;
    while i < jobs.len()
        invariant
            i <= jobs@.len(),
            out@.len() == i,
            forall|k: int|
                0 <= k < i ==> {
                    &&& (#[trigger] out@[k]).jid@ == jobs@[k].spec_id()
                    &&& out@[k].pid == jobs@[k].spec_pid()
                    &&& out@[k].cmd@ == job_cmd(jobs@[k])
                    &&& out@[k].created_at == jobs@[k].spec_created_at()
                    &&& out@[k].last_exit_code == jobs@[k].spec_last_exit_code()
                },
        decreases jobs@.len() - i,
    {
        let job = &jobs[i];
        out.push(
            JobSnapshot {
                jid: job.id().to_owned(),
                pid: job.pid(),
                cmd: job.description().start_info.cmd(),
                created_at: job.created_at(),
                last_exit_code: job.last_exit_code(),
            },
        );
        i = i + 1;
    }
    out
}

/// The columns of the `job ls` table for `rows`, in order.
pub open spec fn job_columns(rows: Seq<JobRow>) -> Seq<ColumnSpec> {
    seq![
        ColumnSpec {
            title: "JID"@,
            alignment: Alignment::Left,
            spacing: 1,
            rows: rows.map_values(|j: JobRow| j.jid@),
        },
        ColumnSpec {
            title: "PID"@,
            alignment: Alignment::Right,
            spacing: 2,
            rows: rows.map_values(|j: JobRow| pid_cell(j.pid)),
        },
        ColumnSpec {
            title: "CMD"@,
            alignment: Alignment::Left,
            spacing: 1,
            rows: rows.map_values(|j: JobRow| j.cmd@),
        },
    ]
}

/// The `job ls` table: rows sorted by creation time, with JID, PID and CMD
/// columns.
pub fn job_table(rows: Vec<JobRow>) -> (r: String)
    requires
        rows@.len() < usize::MAX,
    ensures
        r@ == table_text(job_columns(sorted_by_created(rows@)), rows@.len()),
{
    let ghost orig = rows@;
    let rows = sort_by_created(rows);
    let ghost sorted = rows@;
    proof {
        lemma_sorted_len(orig);
    }
    let mut b = (
        ColumnOptions::new("JID"),
        ColumnOptions::new("PID").alignment(Alignment::Right).spacing(2),
        ColumnOptions::new("CMD"),
    ).into_table_builder();
    proof {
        let e = sorted.subrange(0, 0);
        assert(e.map_values(|j: JobRow| j.jid@) =~= Seq::<Seq<char>>::empty());
        assert(e.map_values(|j: JobRow| pid_cell(j.pid)) =~= Seq::<Seq<char>>::empty());
        assert(e.map_values(|j: JobRow| j.cmd@) =~= Seq::<Seq<char>>::empty());
        assert(b.spec_columns() =~= job_columns(e));
    }
    let mut i: usize = 0;
    while i < rows.len()
        invariant
            i <= rows@.len(),
            rows@ == sorted,
            sorted.len() < usize::MAX,
            b.wf(),
            b.spec_row_count() == i,
            b.spec_columns() == job_columns(sorted.subrange(0, i as int)),
        decreases rows@.len() - i,
    {
        let row = &rows[i];
        let c0 = row.jid.clone();
        let c1 = pid_string(row.pid);
        let c2 = row.cmd.clone();
        b.push_row(c0, c1, c2);
        proof {
            let next = sorted.subrange(0, i + 1);
            assert(next =~= sorted.subrange(0, i as int).push(sorted[i as int]));
            assert(b.spec_columns() =~= job_columns(next)) by {
                assert(b.spec_columns()[0].rows =~= job_columns(next)[0].rows);
                assert(b.spec_columns()[1].rows =~= job_columns(next)[1].rows);
                assert(b.spec_columns()[2].rows =~= job_columns(next)[2].rows);
            }
        }
        i = i + 1;
    }
    assert(sorted.subrange(0, sorted.len() as int) =~= sorted);
    b.build()
}

} // verus!
