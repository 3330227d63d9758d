//! The [`Backend`] trait: what a runner can do on its operating system, one
//! method per operation. Every method has a default that answers "unsupported",
//! so a backend only overrides what it implements. File transfer is not here: it
//! does not depend on the operating system.

use vstd::prelude::*;

use crate::proto::id::{ElementId, RequestId, WindowId};
use crate::proto::wire::{
    Capability, CaptureTarget, ClickTarget, ElementQuery, ImageFormat, Key, Modifier, MouseAction,
    RemoteError, RemoteErrorKind, Reply, Shell,
};
use crate::runner_core::{invalid, is_error, RemoteResult};
use crate::text;

verus! {

/// Whether `r` says that the operation is not supported.
pub open spec fn is_unsupported(r: RemoteResult<Reply>, op: Seq<char>) -> bool {
    r matches Err(e) && is_error(
        e,
        RemoteErrorKind::Invalid,
        "`"@ + op + "` is not supported by this runner"@,
    )
}

/// The answer to an operation that a runner does not have.
pub fn unsupported(op: &str) -> (e: RemoteError)
    ensures
        is_unsupported(Err(e), op@),
{
    invalid(text::join3("`", op, "` is not supported by this runner").as_str())
}

/// A runner's capability surface. Streaming and port forwarding are handled by
/// the platform's serve loop, not here.
pub trait Backend {
    /// The commands this backend implements: every method it overrides. The
    /// dispatcher adds file transfer and the tunnel, which every runner has.
    fn capabilities(&self) -> Vec<Capability>;

    /// Run a command, buffered.
    fn run_command(
        &self,
        shell: Shell,
        command: String,
        env: Vec<(String, String)>,
        timeout_ms: Option<u64>,
    ) -> (r: RemoteResult<Reply>)
        default_ensures
            is_unsupported(r, "run_command"@),
    {
        Err(unsupported("run_command"))
    }

    /// Run a script by content, buffered.
    fn run_script(
        &self,
        id: RequestId,
        shell: Shell,
        content: String,
        args: Vec<String>,
        env: Vec<(String, String)>,
        timeout_ms: Option<u64>,
    ) -> (r: RemoteResult<Reply>)
        default_ensures
            is_unsupported(r, "run_script"@),
    {
        Err(unsupported("run_script"))
    }

    /// Launch a script detached, returning at once with a pid and a log path.
    fn run_detached(
        &self,
        id: RequestId,
        shell: Shell,
        content: String,
        args: Vec<String>,
        env: Vec<(String, String)>,
    ) -> (r: RemoteResult<Reply>)
        default_ensures
            is_unsupported(r, "run_detached"@),
    {
        Err(unsupported("run_detached"))
    }

    /// Capture an image.
    fn screenshot(
        &self,
        target: CaptureTarget,
        format: Option<ImageFormat>,
        settle_ms: Option<u64>,
        settle_await_change: bool,
    ) -> (r: RemoteResult<Reply>)
        default_ensures
            is_unsupported(r, "screenshot"@),
    {
        Err(unsupported("screenshot"))
    }

    /// Launch an application.
    fn open_app(
        &self,
        target: String,
        args: Vec<String>,
        watch_ms: Option<u64>,
    ) -> (r: RemoteResult<Reply>)
        default_ensures
            is_unsupported(r, "open_app"@),
    {
        Err(unsupported("open_app"))
    }

    /// Write a crash dump of a process.
    fn proc_dump(&self, pid: u32) -> (r: RemoteResult<Reply>)
        default_ensures
            is_unsupported(r, "procdump"@),
    {
        Err(unsupported("procdump"))
    }

    /// Enumerate top-level windows.
    fn list_windows(&self) -> (r: RemoteResult<Reply>)
        default_ensures
            is_unsupported(r, "list_windows"@),
    {
        Err(unsupported("list_windows"))
    }

    /// Bring a window to the foreground.
    fn activate_window(&self, window: WindowId) -> (r: RemoteResult<Reply>)
        default_ensures
            is_unsupported(r, "activate_window"@),
    {
        Err(unsupported("activate_window"))
    }

    /// Enumerate the UI elements of a window.
    fn list_elements(&self, window: WindowId) -> (r: RemoteResult<Reply>)
        default_ensures
            is_unsupported(r, "list_elements"@),
    {
        Err(unsupported("list_elements"))
    }

    /// Find UI elements by attributes.
    fn find_elements(
        &self,
        window: WindowId,
        query: ElementQuery,
        wait_ms: Option<u64>,
    ) -> (r: RemoteResult<Reply>)
        default_ensures
            is_unsupported(r, "find_elements"@),
    {
        Err(unsupported("find_elements"))
    }

    /// Click an element or a point.
    fn click(&self, target: ClickTarget) -> (r: RemoteResult<Reply>)
        default_ensures
            is_unsupported(r, "click"@),
    {
        Err(unsupported("click"))
    }

    /// Type text.
    fn type_text(
        &self,
        text: String,
        into: Option<ElementId>,
        paste: bool,
    ) -> (r: RemoteResult<Reply>)
        default_ensures
            is_unsupported(r, "type_text"@),
    {
        Err(unsupported("type_text"))
    }

    /// Press a key with modifiers held.
    fn key_chord(&self, modifiers: Vec<Modifier>, key: Key) -> (r: RemoteResult<Reply>)
        default_ensures
            is_unsupported(r, "key_chord"@),
    {
        Err(unsupported("key_chord"))
    }

    /// Inject a mouse action.
    fn mouse(&self, action: MouseAction) -> (r: RemoteResult<Reply>)
        default_ensures
            is_unsupported(r, "mouse"@),
    {
        Err(unsupported("mouse"))
    }

    /// Set the value of an element.
    fn set_value(&self, element: ElementId, value: String) -> (r: RemoteResult<Reply>)
        default_ensures
            is_unsupported(r, "set_value"@),
    {
        Err(unsupported("set_value"))
    }

    /// Read the text of an element.
    fn read_element(&self, element: ElementId) -> (r: RemoteResult<Reply>)
        default_ensures
            is_unsupported(r, "read_element"@),
    {
        Err(unsupported("read_element"))
    }

    /// Give an element the focus.
    fn focus_element(&self, element: ElementId) -> (r: RemoteResult<Reply>)
        default_ensures
            is_unsupported(r, "focus_element"@),
    {
        Err(unsupported("focus_element"))
    }

    /// List processes.
    fn list_processes(&self, filter: Option<String>, with_cpu: bool) -> (r: RemoteResult<Reply>)
        default_ensures
            is_unsupported(r, "list_processes"@),
    {
        Err(unsupported("list_processes"))
    }

    /// Kill processes by pid or name, or only list them.
    fn kill_process(&self, target: String, dry_run: bool) -> (r: RemoteResult<Reply>)
        default_ensures
            is_unsupported(r, "kill_process"@),
    {
        Err(unsupported("kill_process"))
    }

    /// Report the runner's account as labelled lines.
    fn identity(&self) -> (r: RemoteResult<Reply>)
        default_ensures
            is_unsupported(r, "identity"@),
    {
        Err(unsupported("identity"))
    }

    /// Read the clipboard.
    fn clipboard_get(&self) -> (r: RemoteResult<Reply>)
        default_ensures
            is_unsupported(r, "clipboard_get"@),
    {
        Err(unsupported("clipboard_get"))
    }

    /// Set the clipboard.
    fn clipboard_set(&self, text: String) -> (r: RemoteResult<Reply>)
        default_ensures
            is_unsupported(r, "clipboard_set"@),
    {
        Err(unsupported("clipboard_set"))
    }
}

} // verus!
