//! Maps a non-streaming [`Command`] to the capability that serves it. Shared by
//! every runner.
//!
//! Streaming runs and port forwarding are handled by a runner's serve loop, which
//! calls this for everything else.

use vstd::prelude::*;

use crate::proto::id::RequestId;
use crate::proto::wire::{Capability, Command, RemoteErrorKind, Reply};
use crate::runner_core::backend::Backend;
use crate::runner_core::{invalid, is_error, RemoteResult};
use crate::text;

verus! {

/// What the runner is: operating system, architecture and version.
pub struct Host {
    /// Operating system name.
    pub os: String,
    /// Processor architecture name.
    pub arch: String,
    /// Version of the runner.
    pub version: String,
}

/// A file operation, which the runner performs the same way on every platform.
pub enum FileOp {
    /// Read a range.
    Read {
        /// Path.
        path: String,
        /// Start.
        offset: u64,
        /// Most bytes, `0` for all.
        max_len: u64,
    },
    /// Write a chunk.
    Write {
        /// Path.
        path: String,
        /// The chunk.
        contents: Vec<u8>,
        /// Where it goes.
        offset: u64,
    },
    /// Hash files.
    Hash {
        /// Base directory.
        root: String,
        /// Relative paths.
        paths: Vec<String>,
    },
    /// List a tree.
    Tree {
        /// Base directory.
        root: String,
        /// Walk every directory.
        all: bool,
    },
    /// Delete a file.
    Delete {
        /// Path.
        path: String,
    },
}

/// What becomes of a request.
pub enum Step {
    /// It was answered.
    Done(RemoteResult<Reply>),
    /// It is a file operation, whose outcome is the answer.
    File(FileOp),
}

/// What every runner can do regardless of platform.
pub open spec fn always() -> Seq<Capability> {
    seq![
        Capability::ReadFile,
        Capability::WriteFile,
        Capability::HashFiles,
        Capability::ListTree,
        Capability::DeleteFile,
        Capability::Forward,
    ]
}

/// Whether `reply` describes the host and lists what the backend declared,
/// followed by what every runner can do.
pub open spec fn describes(reply: Reply, host: Host, declared: Seq<Capability>) -> bool {
    reply matches Reply::Capabilities { os, arch, runner_version, commands } && os == host.os
        && arch == host.arch && runner_version == host.version && commands@ == declared + always()
}

/// The answer to a command that this build does not know.
pub open spec fn too_old(version: Seq<char>) -> Seq<char> {
    "unrecognized command — this runner ("@ + version
        + ") is older than the controller; upgrade it"@
}

/// Whether `step` is what serving `command` with `backend` may come to.
pub open spec fn serves<B: Backend>(
    backend: &B,
    host: Host,
    id: RequestId,
    command: Command,
    step: Step,
) -> bool {
    match command {
        Command::RunCommand { shell, command, env, timeout_ms, .. } => step matches Step::Done(r) && call_ensures(
            B::run_command,
            (backend, shell, command, env, timeout_ms),
            r,
        ),
        Command::RunScript { shell, content, args, env, timeout_ms, .. } => step matches Step::Done(r) && call_ensures(
            B::run_script,
            (backend, id, shell, content, args, env, timeout_ms),
            r,
        ),
        Command::RunDetached { shell, content, args, env } => step matches Step::Done(r) && call_ensures(
            B::run_detached,
            (backend, id, shell, content, args, env),
            r,
        ),
        Command::Screenshot { target, format, settle_ms, settle_await_change } => step matches Step::Done(r) && call_ensures(
            B::screenshot,
            (backend, target, format, settle_ms, settle_await_change),
            r,
        ),
        Command::OpenApp { target, args, watch_ms } => step matches Step::Done(r) && call_ensures(
            B::open_app,
            (backend, target, args, watch_ms),
            r,
        ),
        Command::ProcDump { pid } => step matches Step::Done(r) && call_ensures(
            B::proc_dump,
            (backend, pid),
            r,
        ),
        Command::ListWindows => step matches Step::Done(r) && call_ensures(
            B::list_windows,
            (backend,),
            r,
        ),
        Command::ActivateWindow { window } => step matches Step::Done(r) && call_ensures(
            B::activate_window,
            (backend, window),
            r,
        ),
        Command::ListElements { window } => step matches Step::Done(r) && call_ensures(
            B::list_elements,
            (backend, window),
            r,
        ),
        Command::FindElements { window, query, wait_ms } => step matches Step::Done(r) && call_ensures(
            B::find_elements,
            (backend, window, query, wait_ms),
            r,
        ),
        Command::Click { target } => step matches Step::Done(r) && call_ensures(
            B::click,
            (backend, target),
            r,
        ),
        Command::TypeText { text, into, paste } => step matches Step::Done(r) && call_ensures(
            B::type_text,
            (backend, text, into, paste),
            r,
        ),
        Command::KeyChord { modifiers, key } => step matches Step::Done(r) && call_ensures(
            B::key_chord,
            (backend, modifiers, key),
            r,
        ),
        Command::Mouse { action } => step matches Step::Done(r) && call_ensures(
            B::mouse,
            (backend, action),
            r,
        ),
        Command::SetValue { element, value } => step matches Step::Done(r) && call_ensures(
            B::set_value,
            (backend, element, value),
            r,
        ),
        Command::ReadElement { element } => step matches Step::Done(r) && call_ensures(
            B::read_element,
            (backend, element),
            r,
        ),
        Command::FocusElement { element } => step matches Step::Done(r) && call_ensures(
            B::focus_element,
            (backend, element),
            r,
        ),
        Command::ClipboardGet => step matches Step::Done(r) && call_ensures(
            B::clipboard_get,
            (backend,),
            r,
        ),
        Command::ClipboardSet { text } => step matches Step::Done(r) && call_ensures(
            B::clipboard_set,
            (backend, text),
            r,
        ),
        Command::ListProcesses { filter, with_cpu } => step matches Step::Done(r) && call_ensures(
            B::list_processes,
            (backend, filter, with_cpu),
            r,
        ),
        Command::KillProcess { target, dry_run } => step matches Step::Done(r) && call_ensures(
            B::kill_process,
            (backend, target, dry_run),
            r,
        ),
        Command::Identity => step matches Step::Done(r) && call_ensures(
            B::identity,
            (backend,),
            r,
        ),
        Command::Capabilities => exists|declared: Vec<Capability>| #[trigger]
            call_ensures(B::capabilities, (backend,), declared) && (step matches Step::Done(Ok(reply))
                && describes(reply, host, declared@)),
        Command::ReadFile { path, offset, max_len } => step == Step::File(
            FileOp::Read { path, offset, max_len },
        ),
        Command::WriteFile { path, contents, offset } => step == Step::File(
            FileOp::Write { path, contents, offset },
        ),
        Command::HashFiles { root, paths } => step == Step::File(FileOp::Hash { root, paths }),
        Command::ListTree { root, all } => step == Step::File(FileOp::Tree { root, all }),
        Command::DeleteFile { path } => step == Step::File(FileOp::Delete { path }),
        Command::Forward { .. } => step matches Step::Done(Err(e)) && is_error(
            e,
            RemoteErrorKind::Invalid,
            "forward must be handled by the serve loop"@,
        ),
        Command::Unsupported => step matches Step::Done(Err(e)) && is_error(
            e,
            RemoteErrorKind::Invalid,
            too_old(host.version@),
        ),
    }
}

fn append_always(commands: &mut Vec<Capability>)
    ensures
        final(commands)@ == old(commands)@ + always(),
{
    commands.push(Capability::ReadFile);
    commands.push(Capability::WriteFile);
    commands.push(Capability::HashFiles);
    commands.push(Capability::ListTree);
    commands.push(Capability::DeleteFile);
    commands.push(Capability::Forward);
    assert(commands@ =~= old(commands)@ + always());
}

/// Serves one request: calls the backend's method for the command, or says which
/// file operation it is. `id` tags the request.
pub fn dispatch<B: Backend>(backend: &B, host: Host, id: RequestId, command: Command) -> (step:
    Step)
    ensures
        serves(backend, host, id, command, step),
{
    match command {
        Command::RunCommand { shell, command, env, timeout_ms, .. } =>
        Step::Done(backend.run_command(shell, command, env, timeout_ms)),
        Command::RunScript { shell, content, args, env, timeout_ms, .. } =>
        Step::Done(backend.run_script(id, shell, content, args, env, timeout_ms)),
        Command::RunDetached { shell, content, args, env } =>
        Step::Done(backend.run_detached(id, shell, content, args, env)),
        Command::Screenshot { target, format, settle_ms, settle_await_change } =>
        Step::Done(backend.screenshot(target, format, settle_ms, settle_await_change)),
        Command::OpenApp { target, args, watch_ms } =>
        Step::Done(backend.open_app(target, args, watch_ms)),
        Command::ProcDump { pid } => Step::Done(backend.proc_dump(pid)),
        Command::ListWindows => Step::Done(backend.list_windows()),
        Command::ActivateWindow { window } => Step::Done(backend.activate_window(window)),
        Command::ListElements { window } => Step::Done(backend.list_elements(window)),
        Command::FindElements { window, query, wait_ms } =>
        Step::Done(backend.find_elements(window, query, wait_ms)),
        Command::Click { target } => Step::Done(backend.click(target)),
        Command::TypeText { text, into, paste } => Step::Done(backend.type_text(text, into, paste)),
        Command::KeyChord { modifiers, key } => Step::Done(backend.key_chord(modifiers, key)),
        Command::Mouse { action } => Step::Done(backend.mouse(action)),
        Command::SetValue { element, value } => Step::Done(backend.set_value(element, value)),
        Command::ReadElement { element } => Step::Done(backend.read_element(element)),
        Command::FocusElement { element } => Step::Done(backend.focus_element(element)),
        Command::ClipboardGet => Step::Done(backend.clipboard_get()),
        Command::ClipboardSet { text } => Step::Done(backend.clipboard_set(text)),
        Command::ListProcesses { filter, with_cpu } =>
        Step::Done(backend.list_processes(filter, with_cpu)),
        Command::KillProcess { target, dry_run } =>
        Step::Done(backend.kill_process(target, dry_run)),
        Command::Identity => Step::Done(backend.identity()),
        Command::Capabilities => {
            let mut commands = backend.capabilities();
            let ghost declared = commands;
            append_always(&mut commands);
            let reply = Reply::Capabilities {
                os: host.os,
                arch: host.arch,
                runner_version: host.version,
                commands,
            };
            assert(call_ensures(B::capabilities, (backend,), declared));
            Step::Done(Ok(reply))
        },
        Command::ReadFile { path, offset, max_len } => Step::File(
            FileOp::Read { path, offset, max_len },
        ),
        Command::WriteFile { path, contents, offset } => Step::File(
            FileOp::Write { path, contents, offset },
        ),
        Command::HashFiles { root, paths } => Step::File(FileOp::Hash { root, paths }),
        Command::ListTree { root, all } => Step::File(FileOp::Tree { root, all }),
        Command::DeleteFile { path } => Step::File(FileOp::Delete { path }),
        Command::Forward { .. } => Step::Done(
            Err(invalid("forward must be handled by the serve loop")),
        ),
        Command::Unsupported => Step::Done(
            Err(
                invalid(
                    text::join3(
                        "unrecognized command — this runner (",
                        host.version.as_str(),
                        ") is older than the controller; upgrade it",
                    ).as_str(),
                ),
            ),
        ),
    }
}

/// A request to run, launch, capture or dump something is served by the backend's own
/// method for it, with everything that the request holds.
pub proof fn law_runs_go_to_their_methods<B: Backend>(
    backend: &B,
    host: Host,
    id: RequestId,
    c: Command,
    step: Step,
)
    requires
        call_ensures(dispatch::<B>, (backend, host, id, c), step),
    ensures
        c is RunCommand || c is RunScript || c is RunDetached || c is Screenshot || c is OpenApp || c
            is ProcDump ==> step is Done,
        c matches Command::RunCommand { shell, command, env, timeout_ms, .. } ==> call_ensures(
            B::run_command,
            (backend, shell, command, env, timeout_ms),
            step->Done_0,
        ),
        c matches Command::RunScript { shell, content, args, env, timeout_ms, .. }
            ==> call_ensures(
            B::run_script,
            (backend, id, shell, content, args, env, timeout_ms),
            step->Done_0,
        ),
        c matches Command::RunDetached { shell, content, args, env } ==> call_ensures(
            B::run_detached,
            (backend, id, shell, content, args, env),
            step->Done_0,
        ),
        c matches Command::Screenshot { target, format, settle_ms, settle_await_change }
            ==> call_ensures(
            B::screenshot,
            (backend, target, format, settle_ms, settle_await_change),
            step->Done_0,
        ),
        c matches Command::OpenApp { target, args, watch_ms } ==> call_ensures(
            B::open_app,
            (backend, target, args, watch_ms),
            step->Done_0,
        ),
        c matches Command::ProcDump { pid } ==> call_ensures(
            B::proc_dump,
            (backend, pid),
            step->Done_0,
        ),
{
}

/// A request about windows, elements, keys or the mouse is served by the backend's own
/// method for it, with everything that the request holds.
pub proof fn law_desktop_requests_go_to_their_methods<B: Backend>(
    backend: &B,
    host: Host,
    id: RequestId,
    c: Command,
    step: Step,
)
    requires
        call_ensures(dispatch::<B>, (backend, host, id, c), step),
    ensures
        c is ListWindows ==> call_ensures(B::list_windows, (backend,), step->Done_0),
        c matches Command::ActivateWindow { window } ==> call_ensures(
            B::activate_window,
            (backend, window),
            step->Done_0,
        ),
        c matches Command::ListElements { window } ==> call_ensures(
            B::list_elements,
            (backend, window),
            step->Done_0,
        ),
        c matches Command::FindElements { window, query, wait_ms } ==> call_ensures(
            B::find_elements,
            (backend, window, query, wait_ms),
            step->Done_0,
        ),
        c matches Command::Click { target } ==> call_ensures(
            B::click,
            (backend, target),
            step->Done_0,
        ),
        c matches Command::TypeText { text, into, paste } ==> call_ensures(
            B::type_text,
            (backend, text, into, paste),
            step->Done_0,
        ),
        c matches Command::KeyChord { modifiers, key } ==> call_ensures(
            B::key_chord,
            (backend, modifiers, key),
            step->Done_0,
        ),
        c matches Command::Mouse { action } ==> call_ensures(
            B::mouse,
            (backend, action),
            step->Done_0,
        ),
        c matches Command::SetValue { element, value } ==> call_ensures(
            B::set_value,
            (backend, element, value),
            step->Done_0,
        ),
        c matches Command::ReadElement { element } ==> call_ensures(
            B::read_element,
            (backend, element),
            step->Done_0,
        ),
        c matches Command::FocusElement { element } ==> call_ensures(
            B::focus_element,
            (backend, element),
            step->Done_0,
        ),
{
}

/// A request about the clipboard, processes or the account is served by the backend's
/// own method for it, with everything that the request holds.
pub proof fn law_system_requests_go_to_their_methods<B: Backend>(
    backend: &B,
    host: Host,
    id: RequestId,
    c: Command,
    step: Step,
)
    requires
        call_ensures(dispatch::<B>, (backend, host, id, c), step),
    ensures
        c is ClipboardGet ==> call_ensures(B::clipboard_get, (backend,), step->Done_0),
        c matches Command::ClipboardSet { text } ==> call_ensures(
            B::clipboard_set,
            (backend, text),
            step->Done_0,
        ),
        c matches Command::ListProcesses { filter, with_cpu } ==> call_ensures(
            B::list_processes,
            (backend, filter, with_cpu),
            step->Done_0,
        ),
        c matches Command::KillProcess { target, dry_run } ==> call_ensures(
            B::kill_process,
            (backend, target, dry_run),
            step->Done_0,
        ),
        c is Identity ==> call_ensures(B::identity, (backend,), step->Done_0),
{
}

/// Exactly the requests about files become file operations, with everything that they
/// hold; a tunnel, and a request that is not known, are refused.
pub proof fn law_file_requests_become_operations<B: Backend>(
    backend: &B,
    host: Host,
    id: RequestId,
    c: Command,
    step: Step,
)
    requires
        call_ensures(dispatch::<B>, (backend, host, id, c), step),
    ensures
        step is File <==> c is ReadFile || c is WriteFile || c is HashFiles || c is ListTree || c
            is DeleteFile,
        step matches Step::File(op) ==> match op {
            FileOp::Read { path, offset, max_len } => c == (Command::ReadFile {
                path,
                offset,
                max_len,
            }),
            FileOp::Write { path, contents, offset } => c == (Command::WriteFile {
                path,
                contents,
                offset,
            }),
            FileOp::Hash { root, paths } => c == (Command::HashFiles { root, paths }),
            FileOp::Tree { root, all } => c == (Command::ListTree { root, all }),
            FileOp::Delete { path } => c == (Command::DeleteFile { path }),
        },
        c is Forward || c is Unsupported ==> (step matches Step::Done(Err(e)) && e.kind
            == RemoteErrorKind::Invalid),
{
}

/// A runner says that it can do what its backend declares, and files and tunnels, and
/// nothing else; and it names itself as it is.
pub proof fn law_runner_declares_itself<B: Backend>(
    backend: &B,
    host: Host,
    id: RequestId,
    step: Step,
    cap: Capability,
) -> (declared: Vec<Capability>)
    requires
        call_ensures(dispatch::<B>, (backend, host, id, Command::Capabilities), step),
    ensures
        call_ensures(B::capabilities, (backend,), declared),
        step matches Step::Done(Ok(Reply::Capabilities { os, arch, runner_version, commands })) && os
            == host.os && arch == host.arch && runner_version == host.version && (
        commands@.contains(cap) <==> declared@.contains(cap) || cap is ReadFile || cap is WriteFile
            || cap is HashFiles || cap is ListTree || cap is DeleteFile || cap is Forward),
{
    let declared = choose|declared: Vec<Capability>| #[trigger]
        call_ensures(B::capabilities, (backend,), declared) && (step matches Step::Done(Ok(reply))
            && describes(reply, host, declared@));
    let all = declared@ + always();
    let n = declared@.len() as int;
    assert(all[n] is ReadFile && all[n + 1] is WriteFile && all[n + 2] is HashFiles);
    assert(all[n + 3] is ListTree && all[n + 4] is DeleteFile && all[n + 5] is Forward);
    if declared@.contains(cap) {
        let k = choose|k: int| 0 <= k < n && declared@[k] == cap;
        assert(all[k] == cap);
    }
    if all.contains(cap) {
        let k = choose|k: int| 0 <= k < all.len() && all[k] == cap;
        if k < n {
            assert(declared@[k] == cap);
        }
    }
    declared
}

} // verus!
