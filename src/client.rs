//! The client's connection policy: when to start the daemon, when to retry,
//! and when to give up.
use vstd::prelude::*;

verus! {

/// How many times the client retries after its first attempt.
pub const MAX_RETRIES: u32 = 4;

/// How one attempt to talk to the server ended.
#[derive(Clone, Copy, PartialEq, Eq, Structural, Debug)]
pub enum ConnectOutcome {
    /// The dialog completed.
    Done,
    /// No server listens on the socket.
    ServerNotStarted,
    /// Any other failure.
    OtherError,
}

/// What the client does after an attempt.
#[derive(Clone, Copy, PartialEq, Eq, Debug)]
pub enum ClientAction {
    /// Stop: the dialog completed.
    Finish,
    /// Wait one second and try again, first starting the daemon if
    /// `start_daemon`.
    Retry { start_daemon: bool },
    /// Stop: the retries are used up.
    GiveUp { start_daemon: bool },
}

/// The client's retry state.
#[derive(Clone, Copy, PartialEq, Eq, Debug)]
pub struct RetryState {
    pub server_started_by_us: bool,
    pub retry_count: u32,
}

/// The state and action after an attempt that ended with `outcome` in state `s`.
pub open spec fn next_spec(s: RetryState, outcome: ConnectOutcome) -> (RetryState, ClientAction) {
    if outcome == ConnectOutcome::Done {
        (s, ClientAction::Finish)
    } else {
        let start = outcome == ConnectOutcome::ServerNotStarted && !s.server_started_by_us;
        let started = s.server_started_by_us || start;
        if s.retry_count < MAX_RETRIES {
            (
                RetryState { server_started_by_us: started, retry_count: (s.retry_count + 1) as u32 },
                ClientAction::Retry { start_daemon: start },
            )
        } else {
            (
                RetryState { server_started_by_us: started, retry_count: s.retry_count },
                ClientAction::GiveUp { start_daemon: start },
            )
        }
    }
}

impl RetryState {
    /// The state before the first attempt.
    pub fn new() -> (r: Self)
        ensures
            r == (RetryState { server_started_by_us: false, retry_count: 0 }),
    {
        RetryState { server_started_by_us: false, retry_count: 0 }
    }

    /// Decides what follows an attempt that ended with `outcome`: finish on
    /// success; start the daemon the first time no server is found; retry
    /// after a second up to `MAX_RETRIES` times, then give up.
    pub fn next(&mut self, outcome: ConnectOutcome) -> (r: ClientAction)
        requires
            old(self).retry_count <= MAX_RETRIES,
        ensures
            (*final(self), r) == next_spec(*old(self), outcome),
            final(self).retry_count <= MAX_RETRIES,
    {
        if outcome == ConnectOutcome::Done {
            return ClientAction::Finish;
        }
        let start = outcome == ConnectOutcome::ServerNotStarted && !self.server_started_by_us;
        if start {
            self.server_started_by_us = true;
        }
        if self.retry_count < MAX_RETRIES {
            self.retry_count = self.retry_count + 1;
            ClientAction::Retry { start_daemon: start }
        } else {
            ClientAction::GiveUp { start_daemon: start }
        }
    }
}

/// Once an attempt has started the daemon, the next one does not start it
/// again, however the attempts end.
pub proof fn lemma_daemon_started_once(s: RetryState, o1: ConnectOutcome, o2: ConnectOutcome)
    requires
        s.retry_count <= MAX_RETRIES,
    ensures
        ({
            let (s1, a1) = next_spec(s, o1);
            let (s2, a2) = next_spec(s1, o2);
            (a1 matches ClientAction::Retry { start_daemon: true }) ==> !(a2 matches ClientAction::Retry {
                start_daemon: true,
            }) && !(a2 matches ClientAction::GiveUp { start_daemon: true })
        }),
{
}

/// Printed when the client starts the daemon.
pub const STARTING_DAEMON_MESSAGE: &'static str = "starting the server as daemon...";

/// Printed when the client gives up.
pub const GIVE_UP_MESSAGE: &'static str = "failed to talk to the server";

/// Why no socket path is available.
#[derive(Clone, Copy, PartialEq, Eq, Debug)]
pub enum SocketPathError {
    /// The directory for the socket is missing or not a directory.
    Unavailable,
}

/// The path of the control socket.
pub const SOCKET_PATH: &'static str = "/tmp/petri.sock";

/// The path of the control socket, given whether its directory `/tmp` is a
/// directory.
pub fn socket_path(base_is_dir: bool) -> (r: Result<String, SocketPathError>)
    ensures
        base_is_dir ==> r is Ok && r->Ok_0@ == SOCKET_PATH@,
        !base_is_dir ==> r == Err::<String, SocketPathError>(SocketPathError::Unavailable),
{
    if !base_is_dir {
        return Err(SocketPathError::Unavailable);
    }
    Ok(SOCKET_PATH.to_owned())
}

} // verus!
