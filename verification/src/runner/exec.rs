//! Running commands and scripts on the runner: the process to start, what is
//! streamed while it runs, and how it ends.

use vstd::prelude::*;

use crate::number;
use crate::proto::id::RequestId;
use crate::proto::wire::{Command, Event, Frame, RemoteErrorKind, Reply, Request, Response, Shell};
use crate::runner_core::{is_error, os_error, timeout_error, RemoteResult};
use crate::text;

verus! {

/// A process to start: program, arguments and extra environment.
pub struct Process {
    /// Program name.
    pub program: String,
    /// Arguments in order.
    pub args: Vec<String>,
    /// Variables set on top of the runner's own environment.
    pub env: Vec<(String, String)>,
}

/// What is put before a command so that its output is UTF-8.
pub open spec fn encoding_prefix(shell: Shell) -> Seq<char> {
    match shell {
        Shell::PowerShell => "$OutputEncoding = [System.Text.UTF8Encoding]::new($false); try { [Console]::OutputEncoding = [Console]::InputEncoding = $OutputEncoding } catch {}; chcp 65001 > $null; "@,
        Shell::Cmd => "chcp 65001 > nul & "@,
        Shell::Sh => ""@,
    }
}

/// Puts the encoding setup before a command: consoles of the host may default to
/// a legacy code page, while `sh` is UTF-8 already.
pub fn utf8_prefixed(shell: Shell, command: &str) -> (r: String)
    ensures
        r@ == encoding_prefix(shell) + command@,
{
    let prefix = match shell {
        Shell::PowerShell => "$OutputEncoding = [System.Text.UTF8Encoding]::new($false); try { [Console]::OutputEncoding = [Console]::InputEncoding = $OutputEncoding } catch {}; chcp 65001 > $null; ",
        Shell::Cmd => "chcp 65001 > nul & ",
        Shell::Sh => "",
    };
    text::join2(prefix, command)
}

/// The program of an interpreter.
pub open spec fn program_of(shell: Shell) -> Seq<char> {
    match shell {
        Shell::PowerShell => "powershell"@,
        Shell::Cmd => "cmd"@,
        Shell::Sh => "sh"@,
    }
}

fn program(shell: Shell) -> (r: String)
    ensures
        r@ == program_of(shell),
{
    match shell {
        Shell::PowerShell => "powershell".to_owned(),
        Shell::Cmd => "cmd".to_owned(),
        Shell::Sh => "sh".to_owned(),
    }
}

/// The arguments that run an inline command.
pub open spec fn command_args(shell: Shell, command: Seq<char>) -> Seq<Seq<char>> {
    let line = encoding_prefix(shell) + command;
    match shell {
        Shell::PowerShell => seq!["-NoProfile"@, "-NonInteractive"@, "-Command"@, line],
        Shell::Cmd => seq!["/C"@, line],
        Shell::Sh => seq!["-c"@, line],
    }
}

/// The process for an inline command.
pub fn build(shell: Shell, command: &str, env: Vec<(String, String)>) -> (p: Process)
    ensures
        p.program@ == program_of(shell),
        text::texts(p.args@) == command_args(shell, command@),
        p.env@ == env@,
{
    let line = utf8_prefixed(shell, command);
    let mut args: Vec<String> = Vec::new();
    match shell {
        Shell::PowerShell => {
            args.push("-NoProfile".to_owned());
            args.push("-NonInteractive".to_owned());
            args.push("-Command".to_owned());
        },
        Shell::Cmd => {
            args.push("/C".to_owned());
        },
        Shell::Sh => {
            args.push("-c".to_owned());
        },
    }
    args.push(line);
    assert(text::texts(args@) =~= command_args(shell, command@));
    Process { program: program(shell), args, env }
}

/// The extension that an interpreter's script file must have.
pub open spec fn extension_for(shell: Shell) -> Seq<char> {
    match shell {
        Shell::PowerShell => "ps1"@,
        Shell::Cmd => "bat"@,
        Shell::Sh => "sh"@,
    }
}

/// The extension that an interpreter's script file must have.
pub fn script_ext(shell: Shell) -> (r: &'static str)
    ensures
        r@ == extension_for(shell),
{
    match shell {
        Shell::PowerShell => "ps1",
        Shell::Cmd => "bat",
        Shell::Sh => "sh",
    }
}

/// The name of the temporary script of a request.
pub fn script_name(id: RequestId, shell: Shell) -> (r: String)
    ensures
        r@ == "arc-run-#"@ + number::decimal(id.0 as nat) + "."@ + extension_for(shell),
{
    let mut out = text::join3("arc-run-#", number::decimal_text(id.0).as_str(), ".");
    out.append(script_ext(shell));
    out
}

/// The name of the log of a detached script.
pub fn log_name(id: RequestId) -> (r: String)
    ensures
        r@ == "arc-detach-#"@ + number::decimal(id.0 as nat) + ".log"@,
{
    text::join3("arc-detach-#", number::decimal_text(id.0).as_str(), ".log")
}

/// Scripts of different requests have different names.
pub proof fn law_script_names_differ(a: RequestId, b: RequestId, shell: Shell)
    requires
        a != b,
    ensures
        "arc-run-#"@ + number::decimal(a.0 as nat) + "."@ + extension_for(shell) != "arc-run-#"@
            + number::decimal(b.0 as nat) + "."@ + extension_for(shell),
{
    let head = "arc-run-#"@;
    let tail = "."@ + extension_for(shell);
    let da = number::decimal(a.0 as nat);
    let db = number::decimal(b.0 as nat);
    number::law_decimal_denotes(a.0 as nat);
    number::law_decimal_denotes(b.0 as nat);
    let na = head + da + "."@ + extension_for(shell);
    let nb = head + db + "."@ + extension_for(shell);
    assert(na =~= head + da + tail);
    assert(nb =~= head + db + tail);
    if na == nb {
        assert(na.len() == head.len() + da.len() + tail.len());
        assert(nb.len() == head.len() + db.len() + tail.len());
        assert(da =~= na.subrange(head.len() as int, (head.len() + da.len()) as int));
        assert(db =~= nb.subrange(head.len() as int, (head.len() + db.len()) as int));
    }
}

/// The bytes of a script file. PowerShell reads it as UTF-8 only behind a byte
/// order mark, which would spoil the others' first line.
pub open spec fn script_bytes(shell: Shell, content: Seq<char>) -> Seq<u8> {
    if shell == Shell::PowerShell {
        seq![0xEFu8, 0xBBu8, 0xBFu8] + vstd::utf8::encode_utf8(content)
    } else {
        vstd::utf8::encode_utf8(content)
    }
}

/// Makes the bytes of a script file.
pub fn write_temp_script(shell: Shell, content: &str) -> (out: Vec<u8>)
    ensures
        out@ == script_bytes(shell, content@),
{
    let mut out: Vec<u8> = Vec::new();
    if shell == Shell::PowerShell {
        out.push(0xEF);
        out.push(0xBB);
        out.push(0xBF);
    }
    out.extend_from_slice(content.as_bytes());
    assert(out@ =~= script_bytes(shell, content@));
    out
}

/// The arguments that run a script file.
pub open spec fn script_args(shell: Shell, path: Seq<char>, args: Seq<Seq<char>>) -> Seq<
    Seq<char>,
> {
    match shell {
        Shell::PowerShell => seq![
            "-NoProfile"@,
            "-NonInteractive"@,
            "-ExecutionPolicy"@,
            "Bypass"@,
            "-File"@,
            path,
        ] + args,
        Shell::Cmd => seq!["/C"@, path] + args,
        Shell::Sh => seq![path] + args,
    }
}

fn push_all(out: &mut Vec<String>, items: &Vec<String>)
    ensures
        text::texts(final(out)@) == text::texts(old(out)@) + text::texts(items@),
{
    let mut i: usize = 0;
    assert(text::texts(out@) =~= text::texts(old(out)@) + text::texts(items@).take(0));
    while i < items.len()
        invariant
            i <= items@.len(),
            text::texts(out@) == text::texts(old(out)@) + text::texts(items@).take(i as int),
        decreases items@.len() - i,
    {
        let ghost before = out@;
        let item = items[i].clone();
        out.push(item);
        i = i + 1;
        assert(text::texts(out@) =~= text::texts(before).push(item@));
        assert(text::texts(items@).take(i as int) =~= text::texts(items@).take(i - 1).push(
            text::texts(items@)[i - 1],
        ));
        assert(text::texts(out@) =~= text::texts(old(out)@) + text::texts(items@).take(i as int));
    }
    assert(text::texts(items@).take(i as int) =~= text::texts(items@));
}

/// The process that runs a script file with arguments, each passed on as one.
pub fn build_script(
    shell: Shell,
    path: &str,
    args: &Vec<String>,
    env: Vec<(String, String)>,
) -> (p: Process)
    ensures
        p.program@ == program_of(shell),
        text::texts(p.args@) == script_args(shell, path@, text::texts(args@)),
        p.env@ == env@,
{
    let mut out: Vec<String> = Vec::new();
    match shell {
        Shell::PowerShell => {
            out.push("-NoProfile".to_owned());
            out.push("-NonInteractive".to_owned());
            out.push("-ExecutionPolicy".to_owned());
            out.push("Bypass".to_owned());
            out.push("-File".to_owned());
        },
        Shell::Cmd => {
            out.push("/C".to_owned());
        },
        Shell::Sh => {},
    }
    out.push(path.to_owned());
    let ghost head = text::texts(out@);
    push_all(&mut out, args);
    assert(text::texts(out@) =~= script_args(shell, path@, text::texts(args@)));
    Process { program: program(shell), args: out, env }
}

/// How a process ended.
pub enum Outcome {
    /// It exited, with a code unless a signal ended it; or waiting for it failed.
    Exited(Result<Option<i32>, String>),
    /// It was killed after that many milliseconds.
    Timeout(u64),
    /// Nothing was heard of it any more.
    Lost,
}

/// Whether `r` is the answer to a process that ended like that, with that output.
pub open spec fn answers(
    outcome: Outcome,
    stdout: Seq<char>,
    stderr: Seq<char>,
    r: RemoteResult<Reply>,
) -> bool {
    match outcome {
        Outcome::Exited(Ok(code)) => r matches Ok(Reply::CommandOutput {
            stdout: o,
            stderr: e,
            exit_code,
        }) && o@ == stdout && e@ == stderr && exit_code == code,
        Outcome::Exited(Err(e)) => r matches Err(m) && is_error(
            m,
            RemoteErrorKind::Os,
            "wait failed: "@ + e@,
        ),
        Outcome::Timeout(ms) => r matches Err(m) && is_error(
            m,
            RemoteErrorKind::Timeout,
            "exceeded "@ + number::decimal(ms as nat) + " ms"@,
        ),
        Outcome::Lost => r matches Err(m) && is_error(
            m,
            RemoteErrorKind::Os,
            "child monitor task ended unexpectedly"@,
        ),
    }
}

fn settle(outcome: Outcome, stdout: String, stderr: String) -> (r: RemoteResult<Reply>)
    ensures
        answers(outcome, stdout@, stderr@, r),
{
    match outcome {
        Outcome::Exited(Ok(exit_code)) => Ok(Reply::CommandOutput { stdout, stderr, exit_code }),
        Outcome::Exited(Err(e)) => Err(
            os_error(text::join2("wait failed: ", e.as_str()).as_str()),
        ),
        Outcome::Timeout(ms) => Err(
            timeout_error(
                text::join3("exceeded ", number::decimal_text(ms).as_str(), " ms").as_str(),
            ),
        ),
        Outcome::Lost => Err(os_error("child monitor task ended unexpectedly")),
    }
}

/// The answer to a buffered run: how it ended, and what it wrote.
pub fn capture_process(outcome: Outcome, stdout: &[u8], stderr: &[u8]) -> (r: RemoteResult<Reply>)
    ensures
        answers(outcome, text::lossy_text(stdout@), text::lossy_text(stderr@), r),
{
    settle(outcome, text::lossy(stdout), text::lossy(stderr))
}

/// The frame that ends a request.
pub fn done(id: RequestId, result: RemoteResult<Reply>) -> (f: Frame)
    ensures
        f == Frame::Response(Response { id, result }),
{
    Frame::Response(Response { id, result })
}

/// Which stream some output came from.
#[derive(Debug, Clone, Copy, PartialEq, Eq, Structural)]
pub enum Stream {
    /// Standard output.
    Stdout,
    /// Standard error.
    Stderr,
}

/// Whether `f` is the event that carries this output of a request.
pub open spec fn carries(f: Frame, id: RequestId, stream: Stream, chunk: Seq<char>) -> bool {
    match stream {
        Stream::Stdout => f matches Frame::Event(Event::Stdout { id: i, chunk: c }) && i == id
            && c@ == chunk,
        Stream::Stderr => f matches Frame::Event(Event::Stderr { id: i, chunk: c }) && i == id
            && c@ == chunk,
    }
}

/// The event for a stretch of output.
pub fn forward(id: RequestId, stream: Stream, bytes: &[u8]) -> (f: Frame)
    ensures
        carries(f, id, stream, text::lossy_text(bytes@)),
{
    let chunk = text::lossy(bytes);
    match stream {
        Stream::Stdout => Frame::Event(Event::Stdout { id, chunk }),
        Stream::Stderr => Frame::Event(Event::Stderr { id, chunk }),
    }
}

/// What happened to a process whose output is streamed.
pub enum StreamEvent {
    /// It could not be started.
    SpawnFailed(String),
    /// It wrote something.
    Output(Stream, Vec<u8>),
    /// Both of its streams ended.
    PipesClosed,
    /// It ended.
    Ended(Outcome),
    /// Nothing came for 50 milliseconds after it ended.
    Quiet,
    /// Nobody takes its output any more.
    WriterGone,
}

/// Where a streamed run stands. It is finished when the process itself ends, not
/// when its streams do: another process may have inherited them.
pub enum StreamState {
    /// The process runs.
    Running,
    /// Its streams ended, and it is waited for.
    Waiting,
    /// It ended like that, and what it wrote last is passed on.
    Draining(Outcome),
    /// The request is answered, or nobody is left to answer.
    Finished,
}

/// What a streamed run does next.
pub enum StreamAction {
    /// Send this frame.
    Send(Frame),
    /// Wait for the process to end.
    WaitEnd,
    /// Wait for more output, for at most 50 milliseconds.
    Drain,
    /// Send this frame, which answers the request.
    Answer(Frame),
    /// Stop without an answer.
    Abandon,
    /// Nothing.
    Idle,
}

/// Whether `f` answers the request for a streamed process that ended like that:
/// its output was passed on before, so the answer holds none.
pub open spec fn concludes(f: Frame, id: RequestId, outcome: Outcome) -> bool {
    f matches Frame::Response(response) && response.id == id && answers(
        outcome,
        Seq::empty(),
        Seq::empty(),
        response.result,
    )
}

/// The transitions of a streamed run.
pub open spec fn streams(
    id: RequestId,
    state: StreamState,
    event: StreamEvent,
    next: StreamState,
    action: StreamAction,
) -> bool {
    match (state, event) {
        (StreamState::Finished, _) => next is Finished && action is Idle,
        (_, StreamEvent::WriterGone) => next is Finished && action is Abandon,
        (_, StreamEvent::SpawnFailed(e)) => next is Finished && (action matches StreamAction::Answer(
            Frame::Response(response),
        ) && response.id == id && (response.result matches Err(m) && is_error(
            m,
            RemoteErrorKind::Os,
            "spawn failed: "@ + e@,
        ))),
        (s, StreamEvent::Output(stream, bytes)) => next == s && (action matches StreamAction::Send(
            f,
        ) && carries(f, id, stream, text::lossy_text(bytes@))),
        (StreamState::Running, StreamEvent::PipesClosed) => next is Waiting && action is WaitEnd,
        (StreamState::Running, StreamEvent::Ended(outcome)) => next == StreamState::Draining(
            outcome,
        ) && action is Drain,
        (StreamState::Waiting, StreamEvent::Ended(outcome)) => next is Finished && (
        action matches StreamAction::Answer(f) && concludes(f, id, outcome)),
        (StreamState::Draining(outcome), StreamEvent::Quiet) => next is Finished && (
        action matches StreamAction::Answer(f) && concludes(f, id, outcome)),
        (StreamState::Draining(outcome), StreamEvent::PipesClosed) => next is Finished && (
        action matches StreamAction::Answer(f) && concludes(f, id, outcome)),
        (s, _) => next == s && action is Idle,
    }
}

/// Moves a streamed run on.
pub fn stream_process(id: RequestId, state: StreamState, event: StreamEvent) -> (r: (
    StreamState,
    StreamAction,
))
    ensures
        streams(id, state, event, r.0, r.1),
{
    match (state, event) {
        (StreamState::Finished, _) => (StreamState::Finished, StreamAction::Idle),
        (_, StreamEvent::WriterGone) => (StreamState::Finished, StreamAction::Abandon),
        (_, StreamEvent::SpawnFailed(e)) => {
            let failure = os_error(text::join2("spawn failed: ", e.as_str()).as_str());
            (StreamState::Finished, StreamAction::Answer(done(id, Err(failure))))
        },
        (s, StreamEvent::Output(stream, bytes)) => {
            let f = forward(id, stream, &bytes);
            (s, StreamAction::Send(f))
        },
        (StreamState::Running, StreamEvent::PipesClosed) => (
            StreamState::Waiting,
            StreamAction::WaitEnd,
        ),
        (StreamState::Running, StreamEvent::Ended(outcome)) => (
            StreamState::Draining(outcome),
            StreamAction::Drain,
        ),
        (StreamState::Waiting, StreamEvent::Ended(outcome)) => {
            let result = settle(outcome, String::new(), String::new());
            (StreamState::Finished, StreamAction::Answer(done(id, result)))
        },
        (StreamState::Draining(outcome), StreamEvent::Quiet) => {
            let result = settle(outcome, String::new(), String::new());
            (StreamState::Finished, StreamAction::Answer(done(id, result)))
        },
        (StreamState::Draining(outcome), StreamEvent::PipesClosed) => {
            let result = settle(outcome, String::new(), String::new());
            (StreamState::Finished, StreamAction::Answer(done(id, result)))
        },
        (s, _) => (s, StreamAction::Idle),
    }
}

/// A streamed run that is finished says nothing more, so a request gets at most
/// one answer; and every answer finishes it.
pub proof fn law_one_answer(
    id: RequestId,
    state: StreamState,
    event: StreamEvent,
    next: StreamState,
    action: StreamAction,
)
    requires
        streams(id, state, event, next, action),
    ensures
        action is Answer ==> next is Finished && !(state is Finished),
        state is Finished ==> next is Finished && action is Idle,
        action matches StreamAction::Answer(f) ==> (f matches Frame::Response(response)
            && response.id == id),
{
}

/// How a request is served.
pub enum Handling {
    /// Stream the output of a command.
    StreamCommand {
        /// Interpreter.
        shell: Shell,
        /// Command line.
        command: String,
        /// Extra environment.
        env: Vec<(String, String)>,
        /// Time limit.
        timeout_ms: Option<u64>,
    },
    /// Stream the output of a script.
    StreamScript {
        /// Interpreter.
        shell: Shell,
        /// Source.
        content: String,
        /// Arguments.
        args: Vec<String>,
        /// Extra environment.
        env: Vec<(String, String)>,
        /// Time limit.
        timeout_ms: Option<u64>,
    },
    /// Turn the link into a tunnel.
    Tunnel {
        /// Host to dial.
        host: Option<String>,
        /// Port to dial.
        port: u16,
    },
    /// Dispatch it, and send one response.
    Dispatch(Command),
}

/// How a command is served: runs that stream are, forwarding is a tunnel, and all
/// else is dispatched.
pub open spec fn handling(command: Command) -> Handling {
    match command {
        Command::RunCommand { shell, command: c, env, timeout_ms, stream } => if stream {
            Handling::StreamCommand { shell, command: c, env, timeout_ms }
        } else {
            Handling::Dispatch(command)
        },
        Command::RunScript { shell, content, args, env, timeout_ms, stream } => if stream {
            Handling::StreamScript { shell, content, args, env, timeout_ms }
        } else {
            Handling::Dispatch(command)
        },
        Command::Forward { host, port } => Handling::Tunnel { host, port },
        other => Handling::Dispatch(other),
    }
}

/// Decides how a request is served.
pub fn handle(request: Request) -> (r: (RequestId, Handling))
    ensures
        r == (request.id, handling(request.command)),
{
    let id = request.id;
    let h = match request.command {
        Command::RunCommand { shell, command, env, timeout_ms, stream } => {
            if stream {
                Handling::StreamCommand { shell, command, env, timeout_ms }
            } else {
                Handling::Dispatch(Command::RunCommand { shell, command, env, timeout_ms, stream })
            }
        },
        Command::RunScript { shell, content, args, env, timeout_ms, stream } => {
            if stream {
                Handling::StreamScript { shell, content, args, env, timeout_ms }
            } else {
                Handling::Dispatch(
                    Command::RunScript { shell, content, args, env, timeout_ms, stream },
                )
            }
        },
        Command::Forward { host, port } => Handling::Tunnel { host, port },
        other => Handling::Dispatch(other),
    };
    (id, h)
}

/// What a runner does with a frame.
pub enum Served {
    /// Serve this request, beside those in flight.
    Handle(Request),
    /// Pass over a frame that a runner never gets.
    Ignore,
    /// The link ended: abort what is in flight.
    End,
}

/// Treats a frame that a runner receives; none is a link that ended.
pub fn serve(frame: Option<Frame>) -> (r: Served)
    ensures
        r == (match frame {
            Some(Frame::Request(request)) => Served::Handle(request),
            Some(_) => Served::Ignore,
            None => Served::End,
        }),
{
    match frame {
        Some(Frame::Request(request)) => Served::Handle(request),
        Some(_) => Served::Ignore,
        None => Served::End,
    }
}

/// The text of all events for one stream, one after the other, among what is sent.
pub open spec fn sent_to(actions: Seq<StreamAction>, stream: Stream) -> Seq<char>
    decreases actions.len(),
{
    if actions.len() == 0 {
        Seq::empty()
    } else {
        let before = sent_to(actions.drop_last(), stream);
        match (stream, actions.last()) {
            (
                Stream::Stdout,
                StreamAction::Send(Frame::Event(Event::Stdout { id, chunk })),
            ) => before + chunk@,
            (
                Stream::Stderr,
                StreamAction::Send(Frame::Event(Event::Stderr { id, chunk })),
            ) => before + chunk@,
            _ => before,
        }
    }
}

/// What a process wrote to one of its streams, as text.
pub open spec fn wrote(events: Seq<StreamEvent>, stream: Stream) -> Seq<char>
    decreases events.len(),
{
    if events.len() == 0 {
        Seq::empty()
    } else {
        let before = wrote(events.drop_last(), stream);
        match events.last() {
            StreamEvent::Output(s, bytes) => if s == stream {
                before + text::lossy_text(bytes@)
            } else {
                before
            },
            _ => before,
        }
    }
}

/// Whether one step of a streamed run can lead from one state to the next.
pub open spec fn is_stream_step(
    id: RequestId,
    before: StreamState,
    event: StreamEvent,
    after: StreamState,
    action: StreamAction,
) -> bool {
    !(before is Finished) && stream_process.ensures((id, before, event), (after, action))
}

/// Whether this is a streamed run that goes on up to its last event.
pub open spec fn is_stream_run(
    id: RequestId,
    states: Seq<StreamState>,
    events: Seq<StreamEvent>,
    actions: Seq<StreamAction>,
) -> bool {
    &&& states.len() == events.len() + 1
    &&& actions.len() == events.len()
    &&& forall|i: int|
        #![trigger actions[i]]
        0 <= i < events.len() ==> is_stream_step(
            id,
            states[i],
            events[i],
            states[i + 1],
            actions[i],
        )
}

/// While a streamed run goes on, what the process writes to its standard output is
/// sent as standard output, what it writes to its standard error as standard error,
/// all of it, in order, and for its own request.
pub proof fn law_streams_stay_apart(
    id: RequestId,
    states: Seq<StreamState>,
    events: Seq<StreamEvent>,
    actions: Seq<StreamAction>,
)
    requires
        is_stream_run(id, states, events, actions),
    ensures
        sent_to(actions, Stream::Stdout) == wrote(events, Stream::Stdout),
        sent_to(actions, Stream::Stderr) == wrote(events, Stream::Stderr),
        forall|i: int|
            0 <= i < actions.len() ==> (#[trigger] actions[i] matches StreamAction::Send(f) ==> (
            events[i] is Output && (f matches Frame::Event(e) && match e {
                Event::Stdout { id: of, .. } => of == id,
                Event::Stderr { id: of, .. } => of == id,
                Event::Progress { .. } => false,
            }))),
    decreases events.len(),
{
    if events.len() > 0 {
        let n = events.len() - 1;
        let (s, e, a) = (states.drop_last(), events.drop_last(), actions.drop_last());
        assert forall|i: int|
            #![trigger a[i]]
            0 <= i < e.len() implies is_stream_step(id, s[i], e[i], s[i + 1], a[i]) by {
            assert(actions[i] == a[i]);
        }
        law_streams_stay_apart(id, s, e, a);
        assert(actions[n] == actions.last());
        assert(is_stream_step(id, states[n], events[n], states[n + 1], actions[n]));
        assert forall|i: int| 0 <= i < actions.len() implies (#[trigger] actions[i] matches StreamAction::Send(
            f,
        ) ==> (events[i] is Output && (f matches Frame::Event(e) && match e {
            Event::Stdout { id: of, .. } => of == id,
            Event::Stderr { id: of, .. } => of == id,
            Event::Progress { .. } => false,
        }))) by {
            if i < n {
                assert(a[i] == actions[i]);
            }
        }
    }
}

/// A streamed run is answered once the process has ended and nothing more of its
/// output is to come, whichever is known first, and both ways alike: with the exit
/// code if it exited, with the time limit if that passed, and without any output,
/// which was sent before.
pub proof fn law_streamed_run_reports_its_end(
    id: RequestId,
    outcome: Outcome,
    draining: (StreamState, StreamAction),
    waiting: (StreamState, StreamAction),
    quiet: (StreamState, StreamAction),
    closed: (StreamState, StreamAction),
    ended: (StreamState, StreamAction),
)
    requires
        stream_process.ensures((id, StreamState::Running, StreamEvent::Ended(outcome)), draining),
        stream_process.ensures((id, draining.0, StreamEvent::Quiet), quiet),
        stream_process.ensures((id, draining.0, StreamEvent::PipesClosed), closed),
        stream_process.ensures((id, StreamState::Running, StreamEvent::PipesClosed), waiting),
        stream_process.ensures((id, waiting.0, StreamEvent::Ended(outcome)), ended),
    ensures
        !(draining.1 is Answer) && !(waiting.1 is Answer),
        quiet.0 is Finished && closed.0 is Finished && ended.0 is Finished,
        tells_end(id, outcome, quiet.1),
        tells_end(id, outcome, closed.1),
        tells_end(id, outcome, ended.1),
{
}

/// Whether an action answers a request by telling how its process ended.
pub open spec fn tells_end(id: RequestId, outcome: Outcome, action: StreamAction) -> bool {
    action matches StreamAction::Answer(Frame::Response(response)) && response.id == id
        && match outcome {
        Outcome::Exited(Ok(code)) => response.result matches Ok(Reply::CommandOutput {
            stdout,
            stderr,
            exit_code,
        }) && exit_code == code && stdout@.len() == 0 && stderr@.len() == 0,
        Outcome::Timeout(_) => response.result matches Err(e) && e.kind
            == RemoteErrorKind::Timeout,
        _ => response.result matches Err(e) && e.kind == RemoteErrorKind::Os,
    }
}

/// A buffered run is answered with both outputs in their own places and the exit
/// code; swapping the two outputs swaps them in the answer.
pub proof fn law_buffered_outputs_stay_apart(
    code: Option<i32>,
    stdout: &[u8],
    stderr: &[u8],
    r: RemoteResult<Reply>,
    swapped: RemoteResult<Reply>,
)
    requires
        capture_process.ensures((Outcome::Exited(Ok(code)), stdout, stderr), r),
        capture_process.ensures((Outcome::Exited(Ok(code)), stderr, stdout), swapped),
    ensures
        r matches Ok(Reply::CommandOutput { stdout: o, stderr: e, exit_code }) && exit_code == code
            && o@ == text::lossy_text(stdout@) && e@ == text::lossy_text(stderr@) && (
        swapped matches Ok(Reply::CommandOutput { stdout: o2, stderr: e2, exit_code: c2 }) && o2@
            == e@ && e2@ == o@ && c2 == code),
{
}

/// The interpreter that is asked for runs, and no two run the same program.
pub proof fn law_shells_run_their_own_programs(a: Shell, b: Shell, command: &str)
    requires
        a != b,
    ensures
        program_of(a) != program_of(b),
        extension_for(a) != extension_for(b),
        a is Sh ==> program_of(a) == "sh"@ && extension_for(a) == "sh"@,
        a is Cmd ==> program_of(a) == "cmd"@ && extension_for(a) == "bat"@,
        a is PowerShell ==> program_of(a) == "powershell"@ && extension_for(a) == "ps1"@,
{
    reveal_strlit("powershell");
    reveal_strlit("cmd");
    reveal_strlit("sh");
    reveal_strlit("ps1");
    reveal_strlit("bat");
    assert("sh"@[0] != "cmd"@[0]);
    assert("ps1"@[0] != "bat"@[0]);
    assert("sh"@.len() != "ps1"@.len());
}

/// An inline command is one argument, the last one, and ends with the command as it
/// was given; the variables that were given are set, and nothing else depends on
/// them.
pub proof fn law_command_is_passed_as_given(
    shell: Shell,
    command: &str,
    env: Vec<(String, String)>,
    p: Process,
)
    requires
        build.ensures((shell, command, env), p),
    ensures
        p.args@.len() > 0,
        text::finishes(p.args@.last()@, command@),
        shell is Sh ==> p.args@.last()@ == command@,
        forall|i: int|
            0 <= i < p.args@.len() - 1 ==> (#[trigger] p.args@[i])@.len() > 0 && ((p.args@[i])@[0]
                == '-' || (p.args@[i])@[0] == '/'),
        p.env@ == env@,
{
    reveal_strlit("-NoProfile");
    reveal_strlit("-NonInteractive");
    reveal_strlit("-Command");
    reveal_strlit("/C");
    reveal_strlit("-c");
    reveal_strlit("");
    let t = text::texts(p.args@);
    assert(p.args@.len() == t.len());
    assert(t.last() == p.args@.last()@);
    let line = encoding_prefix(shell) + command@;
    assert(t.last() == line);
    text::law_occurrence_is_containment(line, command@, encoding_prefix(shell), Seq::empty());
    assert forall|i: int| 0 <= i < p.args@.len() - 1 implies (#[trigger] p.args@[i])@.len() > 0 && ((
    p.args@[i])@[0] == '-' || (p.args@[i])@[0] == '/') by {
        assert(p.args@[i]@ == t[i]);
    }
    if shell is Sh {
        assert(line =~= command@);
    }
}

/// A script gets exactly the arguments that were given, each as one, in order, right
/// behind its path; the variables that were given are set.
pub proof fn law_script_gets_its_arguments(
    shell: Shell,
    path: &str,
    args: Vec<String>,
    env: Vec<(String, String)>,
    p: Process,
)
    requires
        build_script.ensures((shell, path, &args, env), p),
    ensures
        p.args@.len() > args@.len(),
        p.args@[p.args@.len() - args@.len() - 1]@ == path@,
        forall|i: int|
            0 <= i < args@.len() ==> (#[trigger] p.args@[p.args@.len() - args@.len() + i])@
                == args@[i]@,
        shell is Sh ==> p.args@.len() == args@.len() + 1,
        p.env@ == env@,
{
    let t = text::texts(p.args@);
    let given = text::texts(args@);
    assert(p.args@.len() == t.len());
    assert(given.len() == args@.len());
    let at = t.len() - given.len();
    assert(t[at - 1] == path@);
    assert(p.args@[at - 1]@ == t[at - 1]);
    assert forall|i: int| 0 <= i < args@.len() implies (#[trigger] p.args@[p.args@.len()
        - args@.len() + i])@ == args@[i]@ by {
        assert(p.args@[at + i]@ == t[at + i]);
        assert(given[i] == args@[i]@);
    }
}

/// A script file holds the source as UTF-8, behind a byte order mark for PowerShell
/// and behind nothing for the others.
pub proof fn law_script_file_holds_the_source(content: &str, sh: Vec<u8>, cmd: Vec<u8>, ps: Vec<u8>)
    requires
        write_temp_script.ensures((Shell::Sh, content), sh),
        write_temp_script.ensures((Shell::Cmd, content), cmd),
        write_temp_script.ensures((Shell::PowerShell, content), ps),
    ensures
        sh@ == vstd::utf8::encode_utf8(content@),
        cmd@ == sh@,
        ps@.len() == sh@.len() + 3,
        ps@.skip(3) == sh@,
        ps@[0] == 0xEF && ps@[1] == 0xBB && ps@[2] == 0xBF,
{
    assert(ps@.skip(3) =~= sh@);
}

/// Exactly the runs that ask for it are streamed, with everything that they ask for;
/// exactly a forward becomes a tunnel, to the host and port asked for; every other
/// request is dispatched unchanged. The request keeps its number.
pub proof fn law_requests_are_handled_as_asked(request: Request, r: (RequestId, Handling))
    requires
        handle.ensures((request,), r),
    ensures
        r.0 == request.id,
        r.1 matches Handling::StreamCommand { shell, command, env, timeout_ms } ==> request.command
            == (Command::RunCommand { shell, command, env, timeout_ms, stream: true }),
        r.1 matches Handling::StreamScript { shell, content, args, env, timeout_ms }
            ==> request.command == (Command::RunScript {
            shell,
            content,
            args,
            env,
            timeout_ms,
            stream: true,
        }),
        r.1 matches Handling::Tunnel { host, port } ==> request.command == (Command::Forward {
            host,
            port,
        }),
        r.1 matches Handling::Dispatch(command) ==> request.command == command && !(command is Forward)
            && !(command matches Command::RunCommand { stream: true, .. }) && !(
        command matches Command::RunScript { stream: true, .. }),
{
}

/// A runner serves exactly the requests, and stops exactly when the link ends.
pub proof fn law_runner_serves_requests_only(frame: Option<Frame>, r: Served)
    requires
        serve.ensures((frame,), r),
    ensures
        r matches Served::Handle(request) ==> frame == Some(Frame::Request(request)),
        frame matches Some(Frame::Request(_)) ==> r is Handle,
        r is End <==> frame is None,
{
}

/// A script is stored under the number of its request with the ending that its shell
/// knows, and a detached command logs under its own.
pub proof fn law_script_ending_is_that_of_the_shell(
    id: RequestId,
    shell: Shell,
    ending: &'static str,
    name: String,
    log: String,
)
    requires
        script_ext.ensures((shell,), ending),
        script_name.ensures((id, shell), name),
        log_name.ensures((id,), log),
    ensures
        shell == Shell::PowerShell ==> ending@ == "ps1"@,
        shell == Shell::Cmd ==> ending@ == "bat"@,
        shell == Shell::Sh ==> ending@ == "sh"@,
        name@ == "arc-run-#"@ + number::decimal(id.0 as nat) + "."@ + ending@,
        log@ == "arc-detach-#"@ + number::decimal(id.0 as nat) + ".log"@,
{
}

/// A piece of output goes out as an event of its own stream under the id of the
/// request, and an answer under the same id.
pub proof fn law_output_is_sent_under_its_stream(
    id: RequestId,
    stream: Stream,
    bytes: &[u8],
    f: Frame,
    result: RemoteResult<Reply>,
    end: Frame,
)
    requires
        forward.ensures((id, stream, bytes), f),
        done.ensures((id, result), end),
    ensures
        stream == Stream::Stdout ==> (f matches Frame::Event(Event::Stdout { id: i, chunk }) && i
            == id && chunk@ == text::lossy_text(bytes@)),
        stream == Stream::Stderr ==> (f matches Frame::Event(Event::Stderr { id: i, chunk }) && i
            == id && chunk@ == text::lossy_text(bytes@)),
        end matches Frame::Response(answer) && answer.id == id && answer.result == result,
{
}

} // verus!
