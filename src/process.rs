//! What a process is started from, and the life cycle of its supervisor.
use vstd::prelude::*;
use vstd::string::*;
use crate::text::push_char;

verus! {

/// How to start a process.
#[derive(Debug)]
pub struct StartInfo {
    /// Path of the program to run.
    pub program: String,
    /// Arguments, when any were given.
    pub args: Option<Vec<String>>,
    /// Working directory of the child.
    pub cwd: String,
    /// The child's whole environment, as name and value pairs.
    pub env: Vec<(String, String)>,
    /// Directory for log files of the child's output, when logging is wanted.
    pub log_path: Option<String>,
}

/// No two variables of `env` share a name.
pub open spec fn unique_names(env: Seq<(String, String)>) -> bool {
    forall|i: int, j: int|
        0 <= i < env.len() && 0 <= j < env.len() && i != j ==> #[trigger] env[i].0@
            != #[trigger] env[j].0@
}

/// Whether no two variables of `env` share a name.
pub fn env_names_unique(env: &Vec<(String, String)>) -> (r: bool)
    ensures
        r == unique_names(env@),
{
    let mut i: usize = 0;
    while i < env.len()
        invariant
            i <= env@.len(),
            forall|a: int, b: int|
                0 <= a < i && 0 <= b < env@.len() && a != b ==> #[trigger] env@[a].0@
                    != #[trigger] env@[b].0@,
        decreases env@.len() - i,
    {
        let mut j: usize = 0;
        while j < env.len()
            invariant
                i < env@.len(),
                j <= env@.len(),
                forall|a: int, b: int|
                    0 <= a < i && 0 <= b < env@.len() && a != b ==> #[trigger] env@[a].0@
                        != #[trigger] env@[b].0@,
                forall|b: int| 0 <= b < j && b != i ==> env@[i as int].0@ != #[trigger] env@[b].0@,
            decreases env@.len() - j,
        {
            if j != i && env[i].0.eq(&env[j].0) {
                return false;
            }
            j = j + 1;
        }
        i = i + 1;
    }
    true
}

/// The program followed by each argument, separated by single spaces.
pub open spec fn cmd_text(program: Seq<char>, args: Seq<String>) -> Seq<char>
    decreases args.len(),
{
    if args.len() == 0 {
        program
    } else {
        cmd_text(program, args.drop_last()) + seq![' '] + args.last()@
    }
}

/// The arguments of `info`, none when absent.
pub open spec fn args_of(info: &StartInfo) -> Seq<String> {
    match info.args {
        Some(a) => a@,
        None => Seq::empty(),
    }
}

impl StartInfo {
    /// The environment names no variable twice.
    pub open spec fn wf(&self) -> bool {
        unique_names(self.env@)
    }

    /// The command line as one line of text.
    pub fn cmd(&self) -> (r: String)
        ensures
            r@ == cmd_text(self.program@, args_of(self)),
    {
        let mut s = self.program.clone();
        match &self.args {
            Some(args) => {
                let mut i: usize = 0;
                while i < args.len()
                    invariant
                        i <= args@.len(),
                        args@ == args_of(self),
                        s@ == cmd_text(self.program@, args@.subrange(0, i as int)),
                    decreases args@.len() - i,
                {
                    push_char(&mut s, ' ');
                    s.append(args[i].as_str());
                    i = i + 1;
                    assert(args@.subrange(0, i as int).drop_last() =~= args@.subrange(
                        0,
                        i - 1,
                    ));
                }
                assert(args@.subrange(0, args@.len() as int) =~= args@);
            },
            None => {
                assert(cmd_text(self.program@, args_of(self)) == self.program@);
            },
        }
        s
    }
}

/// The state of the supervisor of one child process.
#[derive(Clone, Copy, PartialEq, Eq, Debug)]
pub enum SupervisorState {
    /// The child runs and no termination was asked for.
    Running,
    /// Termination was asked for; the exit is awaited.
    Terminating,
    /// The child has exited with the code; the state no longer changes.
    Terminated(i32),
}

/// What a caller of `kill` does next.
#[derive(Clone, Copy, PartialEq, Eq, Debug)]
pub enum KillStep {
    /// Send the single termination signal, then wait for the exit code.
    SignalAndWait,
    /// A termination is under way: wait for the exit code.
    Wait,
    /// The child has exited with this code.
    Done(i32),
}

/// The exit code reported for an exit status: the status's own code, or 1
/// when there is none (the child was ended by a signal).
pub open spec fn reported_code(code: Option<i32>) -> i32 {
    match code {
        Some(c) => c,
        None => 1,
    }
}

/// The exit code to report for an exit status whose code is `code`.
pub fn exit_code_of(code: Option<i32>) -> (r: i32)
    ensures
        r == reported_code(code),
{
    match code {
        Some(c) => c,
        None => 1,
    }
}

/// The state after a kill request in state `s`, and the step it asks for.
pub open spec fn kill_spec(s: SupervisorState) -> (SupervisorState, KillStep) {
    match s {
        SupervisorState::Running => (SupervisorState::Terminating, KillStep::SignalAndWait),
        SupervisorState::Terminating => (SupervisorState::Terminating, KillStep::Wait),
        SupervisorState::Terminated(c) => (s, KillStep::Done(c)),
    }
}

/// The state after the child's exit with `code` is observed in state `s`, and
/// whether the exit is to be published (only the first time).
pub open spec fn exit_spec(s: SupervisorState, code: i32) -> (SupervisorState, bool) {
    match s {
        SupervisorState::Terminated(_) => (s, false),
        _ => (SupervisorState::Terminated(code), true),
    }
}

/// The life cycle of one supervised child: Running, then possibly
/// Terminating, then Terminated with its exit code.
pub struct Supervisor {
    state: SupervisorState,
}

impl Supervisor {
    /// The current state.
    pub closed spec fn spec_state(&self) -> SupervisorState {
        self.state
    }

    /// A supervisor of a child that was just started.
    pub fn new() -> (r: Self)
        ensures
            r.spec_state() == SupervisorState::Running,
    {
        Supervisor { state: SupervisorState::Running }
    }

    /// The current state.
    pub fn state(&self) -> (r: SupervisorState)
        ensures
            r == self.spec_state(),
    {
        self.state
    }

    /// Records a kill request: a running child is asked to terminate once;
    /// later requests wait for the same exit; after the exit its code is
    /// returned at once.
    pub fn kill(&mut self) -> (r: KillStep)
        ensures
            (final(self).spec_state(), r) == kill_spec(old(self).spec_state()),
    {
        match self.state {
            SupervisorState::Running => {
                self.state = SupervisorState::Terminating;
                KillStep::SignalAndWait
            },
            SupervisorState::Terminating => KillStep::Wait,
            SupervisorState::Terminated(c) => KillStep::Done(c),
        }
    }

    /// Records that the child exited with `code`. Returns whether the exit is
    /// to be published: true the first time only.
    pub fn exited(&mut self, code: i32) -> (r: bool)
        ensures
            (final(self).spec_state(), r) == exit_spec(old(self).spec_state(), code),
    {
        match self.state {
            SupervisorState::Terminated(_) => false,
            _ => {
                self.state = SupervisorState::Terminated(code);
                true
            },
        }
    }
}

/// The state after `n` kill requests from state `s`.
pub open spec fn after_kills(s: SupervisorState, n: nat) -> SupervisorState
    decreases n,
{
    if n == 0 {
        s
    } else {
        kill_spec(after_kills(s, (n - 1) as nat)).0
    }
}

/// The exit of a child is published at most once: after it was published
/// with code `k`, any number of kill requests leaves the state alone and
/// each is answered with `k`, and every later exit is not published.
pub proof fn lemma_exit_published_once(s: SupervisorState, k: i32, n: nat, later: i32)
    requires
        exit_spec(s, k).1,
    ensures
        after_kills(exit_spec(s, k).0, n) == SupervisorState::Terminated(k),
        kill_spec(after_kills(exit_spec(s, k).0, n)).1 == KillStep::Done(k),
        !exit_spec(after_kills(exit_spec(s, k).0, n), later).1,
    decreases n,
{
    if n > 0 {
        lemma_exit_published_once(s, k, (n - 1) as nat, later);
    }
}

/// Kill requests made before the exit, however many, all wait on the same
/// exit: only the first asks for the signal, none is answered before the
/// exit, and once the exit with code `k` is recorded every one gets `k`.
pub proof fn lemma_concurrent_kills_agree(s: SupervisorState, k: i32, n: nat)
    requires
        !(s is Terminated),
    ensures
        n > 0 ==> after_kills(s, n) == SupervisorState::Terminating,
        n > 0 ==> kill_spec(after_kills(s, n)).1 == KillStep::Wait,
        exit_spec(after_kills(s, n), k) == (SupervisorState::Terminated(k), true),
        kill_spec(exit_spec(after_kills(s, n), k).0).1 == KillStep::Done(k),
    decreases n,
{
    if n > 0 {
        lemma_concurrent_kills_agree(s, k, (n - 1) as nat);
    }
}

} // verus!
