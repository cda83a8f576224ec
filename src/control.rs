//! The control protocol: commands, request and response packets, the client
//! environment, and the text the command handlers send back.
use vstd::prelude::*;
use vstd::string::*;
use crate::process::{StartInfo, unique_names};
use crate::process_mgr::ProcessError;
use crate::text::{dec, dec_int, push_decimal, push_decimal_i64};

verus! {

/// `run`: start a program.
#[derive(Debug)]
pub struct RunSubcommand {
    /// Directory for log files of the process's output.
    pub log_path: Option<String>,
    /// The program followed by its arguments.
    pub cmd_line: Vec<String>,
}

/// `stop`: stop the process with a pid.
#[derive(Clone, Copy, PartialEq, Eq, Debug)]
pub struct StopSubcommand {
    pub pid: u32,
}

/// `log`: stream the output of the process with a pid.
#[derive(Clone, Copy, PartialEq, Eq, Debug)]
pub struct LogSubcommand {
    pub pid: u32,
}

/// `ps`: list processes; with `show_all`, jobs without a process too.
#[derive(Clone, Copy, PartialEq, Eq, Debug)]
pub struct PsSubcommand {
    pub show_all: bool,
}

/// `job ls`: list jobs.
#[derive(Clone, Copy, PartialEq, Eq, Debug)]
pub struct ListSubcommand;

/// Subcommands of `job`.
#[derive(Clone, Copy, PartialEq, Eq, Debug)]
pub enum JobSubcommand {
    Ls(ListSubcommand),
}

/// `stop-server`: ask the server to shut down.
#[derive(Clone, Copy, PartialEq, Eq, Debug)]
pub struct StopServerSubcommand;

/// A command sent by a client.
#[derive(Debug)]
pub enum Command {
    Run(RunSubcommand),
    Stop(StopSubcommand),
    Log(LogSubcommand),
    Ps(PsSubcommand),
    Job(JobSubcommand),
    StopServer(StopServerSubcommand),
}

/// How the client handles what the server sends for a command.
#[derive(Clone, Copy, PartialEq, Eq, Debug)]
pub enum ResponseMode {
    /// Print each output frame as it comes; the dialog ends at end of stream.
    Stream,
    /// A typed response frame ends the dialog and is rendered as a table.
    Table,
}

impl Command {
    /// How the client handles the server's frames for this command: `ps`
    /// and `job ls` end with a typed response, the others stream.
    pub fn response_mode(&self) -> (r: ResponseMode)
        ensures
            r == (match self {
                Command::Ps(_) | Command::Job(_) => ResponseMode::Table,
                _ => ResponseMode::Stream,
            }),
    {
        match self {
            Command::Ps(_) | Command::Job(_) => ResponseMode::Table,
            _ => ResponseMode::Stream,
        }
    }
}

/// The first frame a client sends: the command and the client's working
/// directory and environment.
#[derive(Debug)]
pub struct OwnedIpcRequestPacket {
    pub cmd: Command,
    pub cwd: String,
    pub env: Vec<(String, String)>,
}

/// The first frame a client sends, borrowing its command.
pub struct IpcRequestPacket<'c> {
    pub cmd: &'c Command,
    pub cwd: String,
    pub env: Vec<(String, String)>,
}

/// A frame the server sends: text to print, or the typed response that ends
/// the dialog.
#[derive(Debug)]
pub enum OwnedIpcMessagePacket<T> {
    Output(String),
    Response(T),
}

impl<T> OwnedIpcMessagePacket<T> {
    /// The text of an output frame.
    pub fn to_output(&self) -> (r: Option<&str>)
        ensures
            match self {
                OwnedIpcMessagePacket::Output(s) => r is Some && r->Some_0@ == s@,
                OwnedIpcMessagePacket::Response(_) => r is None,
            },
    {
        match self {
            OwnedIpcMessagePacket::Output(value) => Some(value.as_str()),
            _ => None,
        }
    }

    /// The value of a response frame.
    pub fn into_response(self) -> (r: Option<T>)
        ensures
            match self {
                OwnedIpcMessagePacket::Output(_) => r is None,
                OwnedIpcMessagePacket::Response(v) => r == Some(v),
            },
    {
        match self {
            OwnedIpcMessagePacket::Response(value) => Some(value),
            _ => None,
        }
    }
}

/// The working directory and environment of the client a request came from.
#[derive(Debug)]
pub struct ClientEnv {
    cwd: String,
    env: Vec<(String, String)>,
}

impl ClientEnv {
    pub closed spec fn spec_cwd(&self) -> Seq<char> {
        self.cwd@
    }

    pub closed spec fn spec_env(&self) -> Seq<(String, String)> {
        self.env@
    }

    /// The environment names no variable twice.
    pub closed spec fn wf(&self) -> bool {
        unique_names(self.env@)
    }

    /// The environment of a request; no two variables may share a name.
    pub fn new(cwd: String, env: Vec<(String, String)>) -> (r: Self)
        requires
            unique_names(env@),
        ensures
            r.wf(),
            r.spec_cwd() == cwd@,
            r.spec_env() == env@,
    {
        ClientEnv { cwd, env }
    }

    /// The client's working directory.
    pub fn cwd(&self) -> (r: &str)
        ensures
            r@ == self.spec_cwd(),
    {
        self.cwd.as_str()
    }

    /// The client's environment variables.
    pub fn env(&self) -> (r: &Vec<(String, String)>)
        ensures
            r@ == self.spec_env(),
    {
        &self.env
    }
}

/// Why a `run` request was refused.
#[derive(Clone, Copy, PartialEq, Eq, Debug)]
pub enum RunError {
    /// The command line is empty.
    NoProgram,
}

impl RunSubcommand {
    /// What to start for this request under the client's environment: the
    /// first word of the command line is the program, the rest, when there
    /// is any, its arguments. `NoProgram` for an empty command line.
    pub fn into_start_info(self, env: ClientEnv) -> (r: Result<StartInfo, RunError>)
        requires
            env.wf(),
        ensures
            match r {
                Ok(info) => {
                    &&& info.wf()
                    &&& self.cmd_line@.len() > 0
                    &&& info.program == self.cmd_line@[0]
                    &&& (self.cmd_line@.len() == 1 ==> info.args is None)
                    &&& (self.cmd_line@.len() > 1 ==> info.args is Some
                        && info.args->Some_0@ == self.cmd_line@.subrange(
                        1,
                        self.cmd_line@.len() as int,
                    ))
                    &&& info.cwd@ == env.spec_cwd()
                    &&& info.env@ == env.spec_env()
                    &&& info.log_path == self.log_path
                },
                Err(e) => e == RunError::NoProgram && self.cmd_line@.len() == 0,
            },
    {
        let RunSubcommand { log_path, cmd_line } = self;
        let mut args = cmd_line;
        if args.len() == 0 {
            return Err(RunError::NoProgram);
        }
        let program = args.remove(0);
        let ClientEnv { cwd, env } = env;
        let args = if args.len() == 0 {
            None
        } else {
            Some(args)
        };
        Ok(StartInfo { program, args, cwd, env, log_path })
    }
}

/// Sent when a `run` request has no program.
pub const NO_PROGRAM_MESSAGE: &'static str = "program must be specified\n";

/// Sent when the program of a `run` request could not be started.
pub const START_FAILED_MESSAGE: &'static str = "failed to start the process (maybe it exited too early)\n";

/// Sent when a `stop` request names no live process.
pub const STOP_FAILED_MESSAGE: &'static str = "failed to stop the process (is it running?)\n";

/// Sent when a `log` request names no live process.
pub const LOG_FAILED_MESSAGE: &'static str = "failed to stream logs from the process (is it running?)\n";

/// Sent when the server was asked to shut down.
pub const SHUTDOWN_MESSAGE: &'static str = "requested the server to shutdown\n";

/// The text sent when process `pid` was started.
pub open spec fn started_text(pid: nat) -> Seq<char> {
    "process started (pid: "@ + dec(pid) + ")\n"@
}

/// The text sent when a process stopped with `code`.
pub open spec fn stopped_text(code: int) -> Seq<char> {
    "process stopped with exit code "@ + dec_int(code) + "\n"@
}

/// The output frame text for a started process.
pub fn started_message(pid: u32) -> (r: String)
    ensures
        r@ == started_text(pid as nat),
{
    let mut s = String::new();
    s.append("process started (pid: ");
    push_decimal(&mut s, pid as u64);
    s.append(")\n");
    s
}

/// The output frame text answering a `stop` request, whose process manager
/// returned `result`.
pub fn stop_message(result: Result<i32, ProcessError>) -> (r: String)
    ensures
        match result {
            Ok(code) => r@ == stopped_text(code as int),
            Err(_) => r@ == STOP_FAILED_MESSAGE@,
        },
{
    match result {
        Ok(code) => {
            let mut s = String::new();
            s.append("process stopped with exit code ");
            push_decimal_i64(&mut s, code as i64);
            s.append("\n");
            s
        },
        Err(_) => STOP_FAILED_MESSAGE.to_owned(),
    }
}

/// What the `log` handler saw while streaming.
#[derive(Debug)]
pub enum LogEvent {
    /// A chunk of the process's output.
    Chunk(Vec<u8>),
    /// The output channel closed: the process exited or was detached.
    ChannelClosed,
    /// Reading from the client returned this many bytes; zero means the
    /// client hung up.
    ClientRead(usize),
}

/// What the `log` handler does next.
#[derive(Debug)]
pub enum LogAction {
    /// Send the chunk to the client as an output frame, then go on.
    Forward(Vec<u8>),
    /// Ignore the event and go on.
    Continue,
    /// Stop streaming; `peer_closed` tells whether the client hung up.
    Finish { peer_closed: bool },
}

/// The `log` handler's decision for one event: forward chunks, ignore stray
/// client bytes, and finish when the channel closes or the client hangs up.
pub fn log_step(event: LogEvent) -> (r: LogAction)
    ensures
        match event {
            LogEvent::Chunk(b) => r == LogAction::Forward(b),
            LogEvent::ChannelClosed => r == (LogAction::Finish { peer_closed: false }),
            LogEvent::ClientRead(n) => if n == 0 {
                r == (LogAction::Finish { peer_closed: true })
            } else {
                r is Continue
            },
        },
{
    match event {
        LogEvent::Chunk(b) => LogAction::Forward(b),
        LogEvent::ChannelClosed => LogAction::Finish { peer_closed: false },
        LogEvent::ClientRead(n) => {
            if n == 0 {
                LogAction::Finish { peer_closed: true }
            } else {
                LogAction::Continue
            }
        },
    }
}

/// What the client does with a frame from the server.
#[derive(Debug)]
pub enum DialogAction<T> {
    /// Print the text verbatim and read the next frame.
    Print(String),
    /// Render the typed response; the dialog is over.
    Render(T),
    /// The dialog is over; the response is not rendered.
    End,
}

/// The client's decision for one frame: print output frames and go on; the
/// first response frame ends the dialog and is rendered when the command
/// expects a table.
pub fn dialog_step<T>(pkt: OwnedIpcMessagePacket<T>, mode: ResponseMode) -> (r: DialogAction<T>)
    ensures
        match pkt {
            OwnedIpcMessagePacket::Output(s) => r == DialogAction::<T>::Print(s),
            OwnedIpcMessagePacket::Response(v) => if mode == ResponseMode::Table {
                r == DialogAction::Render(v)
            } else {
                r is End
            },
        },
{
    match pkt {
        OwnedIpcMessagePacket::Output(s) => DialogAction::Print(s),
        OwnedIpcMessagePacket::Response(v) => match mode {
            ResponseMode::Table => DialogAction::Render(v),
            ResponseMode::Stream => DialogAction::End,
        },
    }
}

/// The bytes of `text` as one frame: the text and a newline.
pub fn frame(text: &str) -> (r: String)
    ensures
        r@ == text@ + seq!['\n'],
{
    let mut s = String::new();
    s.append(text);
    crate::text::push_char(&mut s, '\n');
    s
}

/// The length of the first line of `buf` without its newline, when `buf`
/// holds a whole line.
pub fn first_line_len(buf: &[u8]) -> (r: Option<usize>)
    ensures
        match r {
            Some(n) => n < buf@.len() && buf@[n as int] == 10 && forall|i: int|
                0 <= i < n ==> #[trigger] buf@[i] != 10,
            None => forall|i: int| 0 <= i < buf@.len() ==> #[trigger] buf@[i] != 10,
        },
{
    let mut i: usize = 0;
    while i < buf.len()
        invariant
            i <= buf@.len(),
            forall|k: int| 0 <= k < i ==> #[trigger] buf@[k] != 10,
        decreases buf@.len() - i,
    {
        if buf[i] == 10 {
            return Some(i);
        }
        i = i + 1;
    }
    None
}

} // verus!
