//! The process manager: live processes keyed by pid in start order, and the
//! listeners told of each exit.
use vstd::prelude::*;
use crate::subscriber_list::{SubscriberList, has_id};

verus! {

/// Whether some entry of `entries` has pid `pid`.
pub open spec fn has_pid<T>(entries: Seq<(u32, T)>, pid: u32) -> bool {
    exists|i: int| 0 <= i < entries.len() && #[trigger] entries[i].0 == pid
}

/// The position of the entry with pid `pid`.
pub open spec fn pid_position<T>(entries: Seq<(u32, T)>, pid: u32) -> int {
    choose|i: int| 0 <= i < entries.len() && #[trigger] entries[i].0 == pid
}

/// No two entries share a pid.
pub open spec fn unique_pids<T>(entries: Seq<(u32, T)>) -> bool {
    forall|i: int, j: int|
        0 <= i < entries.len() && 0 <= j < entries.len() && i != j ==> #[trigger] entries[i].0
            != #[trigger] entries[j].0
}

/// Why the manager refused an operation.
#[derive(Clone, Copy, PartialEq, Eq, Debug)]
pub enum ProcessError {
    /// No live process has the pid.
    UnknownPid,
}

/// Live processes, each a `P`, and exit listeners, each an `H`. The
/// processes are kept in start order; removing one keeps the order of the
/// others.
pub struct ProcessManager<P, H> {
    processes: Vec<(u32, P)>,
    event_handlers: SubscriberList<H>,
}

impl<P, H> ProcessManager<P, H> {
    /// The live processes with their pids, in start order.
    pub closed spec fn spec_processes(&self) -> Seq<(u32, P)> {
        self.processes@
    }

    /// The exit listeners with their ids, oldest first.
    pub closed spec fn spec_handlers(&self) -> Seq<(u64, H)> {
        self.event_handlers.spec_entries()
    }

    /// The id the next registered listener gets.
    pub closed spec fn spec_next_handler_id(&self) -> u64 {
        self.event_handlers.spec_next_id()
    }

    pub closed spec fn wf(&self) -> bool {
        unique_pids(self.processes@) && self.event_handlers.wf()
    }

    /// A manager with no process and no listener.
    pub fn new() -> (r: Self)
        ensures
            r.wf(),
            r.spec_processes() == Seq::<(u32, P)>::empty(),
            r.spec_handlers() == Seq::<(u64, H)>::empty(),
            r.spec_next_handler_id() == 0,
    {
        ProcessManager { processes: Vec::new(), event_handlers: SubscriberList::new() }
    }

    fn find(&self, pid: u32) -> (r: Option<usize>)
        requires
            self.wf(),
        ensures
            match r {
                Some(i) => has_pid(self.spec_processes(), pid) && i == pid_position(
                    self.spec_processes(),
                    pid,
                ),
                None => !has_pid(self.spec_processes(), pid),
            },
    {
        let mut i: usize = 0;
        while i < self.processes.len()
            invariant
                self.wf(),
                i <= self.processes@.len(),
                forall|k: int| 0 <= k < i ==> #[trigger] self.processes@[k].0 != pid,
            decreases self.processes@.len() - i,
        {
            if self.processes[i].0 == pid {
                assert(self.processes@[i as int].0 == pid);
                let ghost p = pid_position(self.processes@, pid);
                assert(0 <= p < self.processes@.len() && self.processes@[p].0 == pid);
                assert(p == i as int) by {
                    if p != i as int {
                        assert(self.processes@[p].0 != self.processes@[i as int].0);
                    }
                }
                return Some(i);
            }
            i = i + 1;
        }
        None
    }

    /// Records the started process `process` under `pid`. A process already
    /// recorded under `pid` is replaced in its place.
    pub fn add_process(&mut self, pid: u32, process: P)
        requires
            old(self).wf(),
        ensures
            final(self).wf(),
            final(self).spec_handlers() == old(self).spec_handlers(),
            if has_pid(old(self).spec_processes(), pid) {
                final(self).spec_processes() == old(self).spec_processes().update(
                    pid_position(old(self).spec_processes(), pid),
                    (pid, process),
                )
            } else {
                final(self).spec_processes() == old(self).spec_processes().push((pid, process))
            },
    {
        match self.find(pid) {
            Some(i) => {
                self.processes.remove(i);
                self.processes.insert(i, (pid, process));
                assert(self.processes@ =~= old(self).processes@.update(i as int, (pid, process)));
                assert forall|a: int, b: int|
                    0 <= a < self.processes@.len() && 0 <= b < self.processes@.len() && a
                        != b implies #[trigger] self.processes@[a].0
                    != #[trigger] self.processes@[b].0 by {
                    assert(old(self).processes@[a].0 != old(self).processes@[b].0);
                }
            },
            None => {
                self.processes.push((pid, process));
                assert forall|a: int, b: int|
                    0 <= a < self.processes@.len() && 0 <= b < self.processes@.len() && a
                        != b implies #[trigger] self.processes@[a].0
                    != #[trigger] self.processes@[b].0 by {
                    if a < old(self).processes@.len() && b < old(self).processes@.len() {
                        assert(old(self).processes@[a].0 != old(self).processes@[b].0);
                    } else if a < old(self).processes@.len() {
                        assert(old(self).processes@[a].0 != pid);
                    } else {
                        assert(old(self).processes@[b].0 != pid);
                    }
                }
            },
        }
    }

    /// The live process with pid `pid`.
    pub fn process_with_id(&self, pid: u32) -> (r: Option<&P>)
        requires
            self.wf(),
        ensures
            match r {
                Some(p) => has_pid(self.spec_processes(), pid) && *p == self.spec_processes()[pid_position(
                    self.spec_processes(),
                    pid,
                )].1,
                None => !has_pid(self.spec_processes(), pid),
            },
    {
        match self.find(pid) {
            Some(i) => Some(&self.processes[i].1),
            None => None,
        }
    }

    /// The process to stop for pid `pid`; `UnknownPid` when none is live.
    pub fn stop_target(&self, pid: u32) -> (r: Result<&P, ProcessError>)
        requires
            self.wf(),
        ensures
            match r {
                Ok(p) => has_pid(self.spec_processes(), pid) && *p == self.spec_processes()[pid_position(
                    self.spec_processes(),
                    pid,
                )].1,
                Err(e) => e == ProcessError::UnknownPid && !has_pid(self.spec_processes(), pid),
            },
    {
        match self.process_with_id(pid) {
            Some(p) => Ok(p),
            None => Err(ProcessError::UnknownPid),
        }
    }

    /// The live processes with their pids, in start order.
    pub fn processes(&self) -> (r: &Vec<(u32, P)>)
        ensures
            r@ == self.spec_processes(),
    {
        &self.processes
    }

    /// Registers an exit listener; returns its id, which `remove_event_handler`
    /// takes. `None` once every id has been handed out.
    pub fn add_event_handler(&mut self, handler: H) -> (r: Option<u64>)
        requires
            old(self).wf(),
        ensures
            final(self).wf(),
            final(self).spec_processes() == old(self).spec_processes(),
            r is None <==> old(self).spec_next_handler_id() == u64::MAX,
            r is Some ==> r->Some_0 == old(self).spec_next_handler_id()
                && final(self).spec_next_handler_id() == old(self).spec_next_handler_id() + 1,
            match r {
                Some(id) => final(self).spec_handlers() == old(self).spec_handlers().push(
                    (id, handler),
                ),
                None => final(self).spec_handlers() == old(self).spec_handlers(),
            },
    {
        self.event_handlers.subscribe(handler)
    }

    /// Removes the exit listener with id `id`, if registered.
    pub fn remove_event_handler(&mut self, id: u64) -> (r: Option<H>)
        requires
            old(self).wf(),
        ensures
            final(self).wf(),
            final(self).spec_processes() == old(self).spec_processes(),
            match r {
                Some(h) => exists|p: int|
                    0 <= p < old(self).spec_handlers().len() && #[trigger] old(
                        self,
                    ).spec_handlers()[p] == (id, h) && final(self).spec_handlers() == old(
                        self,
                    ).spec_handlers().remove(p),
                None => !has_id(old(self).spec_handlers(), id) && final(self).spec_handlers()
                    == old(self).spec_handlers(),
            },
            final(self).spec_next_handler_id() == old(self).spec_next_handler_id(),
    {
        let r = self.event_handlers.cancel(id);
        proof {
            if r is Some {
                let h = r->Some_0;
                let p = choose|p: int|
                    0 <= p < old(self).event_handlers.spec_entries().len() && #[trigger] old(
                        self,
                    ).event_handlers.spec_entries()[p] == (id, h)
                        && self.event_handlers.spec_entries() == old(
                        self,
                    ).event_handlers.spec_entries().remove(p);
                assert(old(self).spec_handlers()[p] == (id, h));
            }
        }
        r
    }

    /// The exit listeners with their ids, in registration order.
    pub fn event_handlers(&self) -> (r: &Vec<(u64, H)>)
        ensures
            r@ == self.spec_handlers(),
    {
        self.event_handlers.entries()
    }

    /// Handles the exit of process `pid`: removes it from the live processes
    /// and returns it. The caller then tells every listener of
    /// `event_handlers()`, so that a listener that looks the pid up finds no
    /// live process.
    pub fn handle_process_exit(&mut self, pid: u32) -> (r: Option<P>)
        requires
            old(self).wf(),
        ensures
            final(self).wf(),
            final(self).spec_handlers() == old(self).spec_handlers(),
            !has_pid(final(self).spec_processes(), pid),
            match r {
                Some(p) => has_pid(old(self).spec_processes(), pid) && p == old(
                    self,
                ).spec_processes()[pid_position(old(self).spec_processes(), pid)].1
                    && final(self).spec_processes() == old(self).spec_processes().remove(
                    pid_position(old(self).spec_processes(), pid),
                ),
                None => !has_pid(old(self).spec_processes(), pid) && final(self).spec_processes()
                    == old(self).spec_processes(),
            },
    {
        match self.find(pid) {
            Some(i) => {
                let (_, p) = self.processes.remove(i);
                assert forall|a: int, b: int|
                    0 <= a < self.processes@.len() && 0 <= b < self.processes@.len() && a
                        != b implies #[trigger] self.processes@[a].0
                    != #[trigger] self.processes@[b].0 by {
                    let oa = if a < i { a } else { a + 1 };
                    let ob = if b < i { b } else { b + 1 };
                    assert(old(self).processes@[oa].0 != old(self).processes@[ob].0);
                }
                assert forall|k: int| 0 <= k < self.processes@.len() implies #[trigger] self.processes@[k].0
                    != pid by {
                    let ok = if k < i { k } else { k + 1 };
                    assert(old(self).processes@[ok].0 != old(self).processes@[i as int].0);
                }
                Some(p)
            },
            None => None,
        }
    }
}

/// A listener told of each process exit.
pub trait EventHandler {
    /// Called once when process `pid` has exited with `exit_code`.
    fn handle_process_exit(&self, pid: u32, exit_code: i32);
}

/// Tells every listener of `handlers`, in registration order, that process
/// `pid` exited with `exit_code`.
pub fn dispatch_exit<H: EventHandler>(handlers: &Vec<(u64, H)>, pid: u32, exit_code: i32) {
    let mut i: usize = 0;
    while i < handlers.len()
        invariant
            i <= handlers@.len(),
        decreases handlers@.len() - i,
    {
        handlers[i].1.handle_process_exit(pid, exit_code);
        i = i + 1;
    }
}

} // verus!
