//! The end-to-end layer: the commands a controller issues and the results the
//! runner returns. They travel sealed inside the channel and are never visible
//! to the relay.
//!
//! A controller sends a [`Request`]; the runner answers with exactly one
//! terminal [`Response`] and, for long-running work, any number of interim
//! [`Event`]s with the same id.

use vstd::prelude::*;

use crate::number;
use crate::proto::id::{ElementId, RequestId, WindowId};
use crate::text;

verus! {

/// Wall-clock limit (ms) that a controller applies to a command when the caller
/// names none: ten minutes. An explicit `0` means no limit.
pub const DEFAULT_COMMAND_TIMEOUT_MS: u64 = 600_000;

/// Top-level end-to-end message.
#[derive(Debug, PartialEq)]
pub enum Frame {
    /// Controller to runner: perform a command.
    Request(Request),
    /// Runner to controller: terminal result of a command.
    Response(Response),
    /// Runner to controller: interim progress of a command in flight.
    Event(Event),
    /// A stretch of raw bytes of a forwarded connection, either way.
    TunnelData(Vec<u8>),
    /// The sending side of a forwarded connection is done.
    TunnelEof,
}

/// A command to execute on the runner, tagged with a controller-unique id.
#[derive(Debug, Clone, PartialEq)]
pub struct Request {
    /// Correlates the eventual [`Response`] and any [`Event`]s.
    pub id: RequestId,
    /// What to do.
    pub command: Command,
}

/// The terminal outcome of a [`Request`].
#[derive(Debug, PartialEq)]
pub struct Response {
    /// Id of the [`Request`] this answers.
    pub id: RequestId,
    /// Success payload or structured failure.
    pub result: Result<Reply, RemoteError>,
}

/// The operations the runner exposes: semantic first (UI elements by name), and
/// pixels second (screenshots and coordinates).
#[derive(Debug, Clone, PartialEq)]
#[non_exhaustive]
pub enum Command {
    /// Run a shell command and capture its output.
    RunCommand {
        /// Which interpreter to use.
        shell: Shell,
        /// The command line to execute.
        command: String,
        /// Extra environment variables.
        env: Vec<(String, String)>,
        /// Optional wall-clock timeout in milliseconds.
        timeout_ms: Option<u64>,
        /// Whether output is streamed as events before the terminal response.
        stream: bool,
    },
    /// Run a script by content. The runner writes it to a temporary file, runs
    /// it with `args` passed through, and deletes the file.
    RunScript {
        /// Which interpreter to run the script with.
        shell: Shell,
        /// The script source.
        content: String,
        /// Arguments, each a separate process argument.
        args: Vec<String>,
        /// Extra environment variables.
        env: Vec<(String, String)>,
        /// Optional wall-clock timeout in milliseconds.
        timeout_ms: Option<u64>,
        /// Whether output is streamed as events before the terminal response.
        stream: bool,
    },
    /// Launch a script that outlives the request.
    RunDetached {
        /// Which interpreter to run the script with.
        shell: Shell,
        /// The script source.
        content: String,
        /// Arguments, each a separate process argument.
        args: Vec<String>,
        /// Extra environment variables.
        env: Vec<(String, String)>,
    },
    /// Launch an application by path or registered name.
    OpenApp {
        /// Executable path or app name.
        target: String,
        /// Command-line arguments.
        args: Vec<String>,
        /// How long to watch for an early exit, in milliseconds.
        watch_ms: Option<u64>,
    },
    /// Capture an image of the screen, a window, an element, or a region.
    Screenshot {
        /// What to capture.
        target: CaptureTarget,
        /// Preferred encoding; none means WebP.
        format: Option<ImageFormat>,
        /// Re-capture until two consecutive frames agree, for at most this many
        /// milliseconds.
        settle_ms: Option<u64>,
        /// When settling, first wait for the frame to change.
        settle_await_change: bool,
    },
    /// Write a crash dump of a process.
    ProcDump {
        /// The process.
        pid: u32,
    },
    /// Enumerate top-level windows.
    ListWindows,
    /// Bring a window to the foreground.
    ActivateWindow {
        /// The window.
        window: WindowId,
    },
    /// Enumerate the UI elements of a window.
    ListElements {
        /// Window to inspect.
        window: WindowId,
    },
    /// Find the elements of a window that match a query.
    FindElements {
        /// Window to search.
        window: WindowId,
        /// Attribute filter.
        query: ElementQuery,
        /// Poll until there is a match, for at most this many milliseconds.
        wait_ms: Option<u64>,
    },
    /// Click a UI element or a raw screen coordinate.
    Click {
        /// What to click.
        target: ClickTarget,
    },
    /// Type text.
    TypeText {
        /// Text to inject.
        text: String,
        /// Element to focus first.
        into: Option<ElementId>,
        /// Paste from the clipboard rather than send keys.
        paste: bool,
    },
    /// Set the value of a UI element directly.
    SetValue {
        /// Target element.
        element: ElementId,
        /// New value.
        value: String,
    },
    /// Read the text of a UI element.
    ReadElement {
        /// The element.
        element: ElementId,
    },
    /// Give a UI element the focus.
    FocusElement {
        /// The element.
        element: ElementId,
    },
    /// Read the clipboard.
    ClipboardGet,
    /// Set the clipboard.
    ClipboardSet {
        /// New text.
        text: String,
    },
    /// List processes.
    ListProcesses {
        /// Part of the name.
        filter: Option<String>,
        /// Whether to sample processor use.
        with_cpu: bool,
    },
    /// Kill processes by pid or name.
    KillProcess {
        /// Pid or name.
        target: String,
        /// Only list what would be killed.
        dry_run: bool,
    },
    /// Report the account the runner runs as.
    Identity,
    /// Report what the runner can do.
    Capabilities,
    /// Read up to `max_len` bytes of a file from `offset`; `0` reads to the end.
    ReadFile {
        /// Absolute path on the runner.
        path: String,
        /// Byte offset to start reading from.
        offset: u64,
        /// Most bytes to read.
        max_len: u64,
    },
    /// Write a chunk of a file. Offset `0` creates or truncates it.
    WriteFile {
        /// Absolute path on the runner.
        path: String,
        /// This chunk.
        contents: Vec<u8>,
        /// Byte offset to write at.
        offset: u64,
    },
    /// Hash a set of files for incremental sync.
    HashFiles {
        /// Base directory on the runner.
        root: String,
        /// Paths relative to `root`, with forward slashes.
        paths: Vec<String>,
    },
    /// Enumerate the file paths under a directory.
    ListTree {
        /// Base directory on the runner.
        root: String,
        /// Whether build and version-control directories are walked too.
        all: bool,
    },
    /// Delete one file; nothing happens if it is absent.
    DeleteFile {
        /// Absolute path on the runner.
        path: String,
    },
    /// Press a key with modifiers held.
    KeyChord {
        /// Modifier keys held for the duration of the chord.
        modifiers: Vec<Modifier>,
        /// The main key to press.
        key: Key,
    },
    /// Inject a mouse action.
    Mouse {
        /// What the mouse should do.
        action: MouseAction,
    },
    /// Turn the session into a raw tunnel to an address the runner dials.
    Forward {
        /// Host to dial; none means the runner itself.
        host: Option<String>,
        /// Port to dial.
        port: u16,
    },
    /// A command of a newer peer.
    Unsupported,
}

/// What a runner can do, one entry per command family.
#[derive(Debug, Clone, Copy, PartialEq, Eq, Structural)]
pub enum Capability {
    /// [`Command::RunCommand`].
    RunCommand,
    /// [`Command::RunScript`].
    RunScript,
    /// [`Command::RunDetached`].
    RunDetached,
    /// [`Command::Screenshot`].
    Screenshot,
    /// [`Command::OpenApp`].
    OpenApp,
    /// [`Command::ProcDump`].
    ProcDump,
    /// [`Command::ListWindows`].
    ListWindows,
    /// [`Command::ActivateWindow`].
    ActivateWindow,
    /// [`Command::ListElements`].
    ListElements,
    /// [`Command::FindElements`].
    FindElements,
    /// [`Command::Click`].
    Click,
    /// [`Command::TypeText`].
    TypeText,
    /// [`Command::KeyChord`].
    KeyChord,
    /// [`Command::Mouse`].
    Mouse,
    /// [`Command::SetValue`].
    SetValue,
    /// [`Command::ReadElement`].
    ReadElement,
    /// [`Command::FocusElement`].
    FocusElement,
    /// [`Command::ClipboardGet`].
    ClipboardGet,
    /// [`Command::ClipboardSet`].
    ClipboardSet,
    /// [`Command::ListProcesses`].
    ListProcesses,
    /// [`Command::KillProcess`].
    KillProcess,
    /// [`Command::Identity`].
    Identity,
    /// [`Command::ReadFile`].
    ReadFile,
    /// [`Command::WriteFile`].
    WriteFile,
    /// [`Command::HashFiles`].
    HashFiles,
    /// [`Command::ListTree`].
    ListTree,
    /// [`Command::DeleteFile`].
    DeleteFile,
    /// [`Command::Forward`].
    Forward,
    /// A capability of a newer runner.
    Unknown,
}

/// Interpreter selection.
#[derive(Debug, Clone, Copy, PartialEq, Eq, Structural)]
pub enum Shell {
    /// Windows PowerShell or PowerShell Core.
    PowerShell,
    /// Legacy `cmd.exe`.
    Cmd,
    /// POSIX `sh`.
    Sh,
}

/// What a screenshot should capture.
#[derive(Debug, Clone, PartialEq, Eq)]
pub enum CaptureTarget {
    /// The entire virtual desktop.
    FullScreen,
    /// A single window by handle.
    Window(WindowId),
    /// A single UI element, captured as its bounding box.
    Element(ElementId),
    /// A rectangular region in virtual-desktop coordinates.
    Region {
        /// Left edge.
        x: i32,
        /// Top edge.
        y: i32,
        /// Width in pixels.
        width: u32,
        /// Height in pixels.
        height: u32,
    },
}

/// What a click targets.
#[derive(Debug, Clone, PartialEq)]
pub enum ClickTarget {
    /// A UI element.
    Element(ElementId),
    /// A raw screen coordinate.
    Point {
        /// X in virtual-desktop coordinates.
        x: i32,
        /// Y in virtual-desktop coordinates.
        y: i32,
        /// Which mouse button.
        button: MouseButton,
    },
}

/// Mouse button selector.
#[derive(Debug, Clone, Copy, PartialEq, Eq, Structural)]
pub enum MouseButton {
    /// Primary button.
    Left,
    /// Secondary button.
    Right,
    /// Middle button.
    Middle,
}

/// A modifier key held for the duration of a chord.
#[derive(Debug, Clone, Copy, PartialEq, Eq, Structural)]
pub enum Modifier {
    /// Control.
    Ctrl,
    /// Alt or Option.
    Alt,
    /// Shift.
    Shift,
    /// Windows, Meta or Command key.
    Win,
}

/// The main key of a chord.
#[derive(Debug, Clone, Copy, PartialEq, Eq, Structural)]
pub enum Key {
    /// A character key.
    Char(char),
    /// Enter.
    Enter,
    /// Tab.
    Tab,
    /// Spacebar.
    Space,
    /// Backspace.
    Backspace,
    /// Forward delete.
    Delete,
    /// Escape.
    Escape,
    /// Home.
    Home,
    /// End.
    End,
    /// Page up.
    PageUp,
    /// Page down.
    PageDown,
    /// Up arrow.
    Up,
    /// Down arrow.
    Down,
    /// Left arrow.
    Left,
    /// Right arrow.
    Right,
    /// Function key F1 to F24.
    F(u8),
}

/// A mouse action; coordinates are in virtual-desktop pixels.
#[derive(Debug, Clone, Copy, PartialEq, Eq, Structural)]
pub enum MouseAction {
    /// Move the cursor without pressing any button.
    Move {
        /// Target X.
        x: i32,
        /// Target Y.
        y: i32,
    },
    /// Move and click `count` times.
    Click {
        /// Target X.
        x: i32,
        /// Target Y.
        y: i32,
        /// Which button.
        button: MouseButton,
        /// Number of clicks.
        count: u32,
    },
    /// Move and press `button`.
    Down {
        /// Target X.
        x: i32,
        /// Target Y.
        y: i32,
        /// Which button.
        button: MouseButton,
    },
    /// Move and release `button`.
    Up {
        /// Target X.
        x: i32,
        /// Target Y.
        y: i32,
        /// Which button.
        button: MouseButton,
    },
    /// Scroll by notches; positive is right and down.
    Scroll {
        /// Horizontal notches.
        dx: i32,
        /// Vertical notches.
        dy: i32,
    },
    /// Press at the start point, move to the end point, release.
    Drag {
        /// Start X.
        from_x: i32,
        /// Start Y.
        from_y: i32,
        /// End X.
        to_x: i32,
        /// End Y.
        to_y: i32,
        /// Which button.
        button: MouseButton,
    },
}

/// The modifier that a lower-case token names.
pub open spec fn modifier_named(lower: Seq<char>) -> Option<Modifier> {
    if lower == "ctrl"@ || lower == "control"@ {
        Some(Modifier::Ctrl)
    } else if lower == "alt"@ || lower == "option"@ {
        Some(Modifier::Alt)
    } else if lower == "shift"@ {
        Some(Modifier::Shift)
    } else if lower == "win"@ || lower == "meta"@ || lower == "cmd"@ || lower == "super"@ {
        Some(Modifier::Win)
    } else {
        None
    }
}

impl Modifier {
    /// Parses a modifier token: `ctrl`/`control`, `alt`/`option`, `shift`,
    /// `win`/`meta`/`cmd`/`super`, in any case.
    pub fn parse(token: &str) -> (r: Result<Self, String>)
        ensures
            match r {
                Ok(m) => modifier_named(text::lowercase(token@)) == Some(m),
                Err(e) => modifier_named(text::lowercase(token@)) is None && e@
                    == "unknown modifier: "@ + text::lowercase(token@),
            },
    {
        let lower = text::string_of(&text::lowercased(&text::chars_of(token)));
        let t = lower.as_str();
        if text::same(t, "ctrl") || text::same(t, "control") {
            Ok(Modifier::Ctrl)
        } else if text::same(t, "alt") || text::same(t, "option") {
            Ok(Modifier::Alt)
        } else if text::same(t, "shift") {
            Ok(Modifier::Shift)
        } else if text::same(t, "win") || text::same(t, "meta") || text::same(t, "cmd")
            || text::same(t, "super") {
            Ok(Modifier::Win)
        } else {
            Err(text::join2("unknown modifier: ", t))
        }
    }
}

/// The named key that a lower-case token stands for.
pub open spec fn key_named(lower: Seq<char>) -> Option<Key> {
    if lower == "enter"@ || lower == "return"@ {
        Some(Key::Enter)
    } else if lower == "tab"@ {
        Some(Key::Tab)
    } else if lower == "space"@ {
        Some(Key::Space)
    } else if lower == "backspace"@ || lower == "bksp"@ {
        Some(Key::Backspace)
    } else if lower == "delete"@ || lower == "del"@ {
        Some(Key::Delete)
    } else if lower == "escape"@ || lower == "esc"@ {
        Some(Key::Escape)
    } else if lower == "home"@ {
        Some(Key::Home)
    } else if lower == "end"@ {
        Some(Key::End)
    } else if lower == "pageup"@ || lower == "pgup"@ {
        Some(Key::PageUp)
    } else if lower == "pagedown"@ || lower == "pgdn"@ {
        Some(Key::PageDown)
    } else if lower == "up"@ {
        Some(Key::Up)
    } else if lower == "down"@ {
        Some(Key::Down)
    } else if lower == "left"@ {
        Some(Key::Left)
    } else if lower == "right"@ {
        Some(Key::Right)
    } else {
        None
    }
}

/// The number of a function key written `f1` to `f24`.
pub open spec fn function_key(lower: Seq<char>) -> Option<u8> {
    if lower.len() > 0 && lower[0] == 'f' {
        match number::parsed(lower.skip(1), 255) {
            Some(n) => if 1 <= n <= 24 {
                Some(n as u8)
            } else {
                None
            },
            None => None,
        }
    } else {
        None
    }
}

/// The key that a token stands for: a name, a function key, or one character.
pub open spec fn key_of(token: Seq<char>) -> Option<Key> {
    let lower = text::lowercase(token);
    if key_named(lower) is Some {
        key_named(lower)
    } else if function_key(lower) is Some {
        Some(Key::F(function_key(lower)->0))
    } else if token.len() == 1 {
        Some(Key::Char(token[0]))
    } else {
        None
    }
}

fn named_key(t: &str) -> (r: Option<Key>)
    ensures
        r == key_named(t@),
{
    if text::same(t, "enter") || text::same(t, "return") {
        Some(Key::Enter)
    } else if text::same(t, "tab") {
        Some(Key::Tab)
    } else if text::same(t, "space") {
        Some(Key::Space)
    } else if text::same(t, "backspace") || text::same(t, "bksp") {
        Some(Key::Backspace)
    } else if text::same(t, "delete") || text::same(t, "del") {
        Some(Key::Delete)
    } else if text::same(t, "escape") || text::same(t, "esc") {
        Some(Key::Escape)
    } else if text::same(t, "home") {
        Some(Key::Home)
    } else if text::same(t, "end") {
        Some(Key::End)
    } else if text::same(t, "pageup") || text::same(t, "pgup") {
        Some(Key::PageUp)
    } else if text::same(t, "pagedown") || text::same(t, "pgdn") {
        Some(Key::PageDown)
    } else if text::same(t, "up") {
        Some(Key::Up)
    } else if text::same(t, "down") {
        Some(Key::Down)
    } else if text::same(t, "left") {
        Some(Key::Left)
    } else if text::same(t, "right") {
        Some(Key::Right)
    } else {
        None
    }
}

impl Key {
    /// Parses a key token: a named key (`enter`, `esc`, `pageup`), a function
    /// key (`f1` to `f24`), or a single character.
    pub fn parse(token: &str) -> (r: Result<Self, String>)
        ensures
            match r {
                Ok(k) => key_of(token@) == Some(k),
                Err(e) => key_of(token@) is None && e@ == "unknown key: "@ + token@,
            },
    {
        let chars = text::chars_of(token);
        let lower = text::lowercased(&chars);
        let lower_text = text::string_of(&lower);
        if let Some(key) = named_key(lower_text.as_str()) {
            return Ok(key);
        }
        if lower.len() > 0 && lower[0] == 'f' {
            let rest = text::slice_chars(&lower, 1, lower.len());
            assert(rest@ =~= lower@.skip(1));
            if let Some(n) = number::parse_unsigned(&rest, 255) {
                if 1 <= n && n <= 24 {
                    return Ok(Key::F(n as u8));
                }
            }
        }
        if chars.len() == 1 {
            Ok(Key::Char(chars[0]))
        } else {
            Err(text::join2("unknown key: ", token))
        }
    }
}

/// The non-empty, trimmed pieces of a chord between its `+` signs.
pub open spec fn chord_parts(chord: Seq<char>) -> Seq<Seq<char>> {
    text::split(chord, '+').map_values(|p: Seq<char>| text::trim(p)).filter(
        |p: Seq<char>| p.len() > 0,
    )
}

/// Why a chord made of these pieces is refused, looking from piece `i` on: the
/// first piece that is no modifier, or a last piece that is no key.
pub open spec fn chord_error(parts: Seq<Seq<char>>, i: int) -> Option<Seq<char>>
    decreases parts.len() - i,
{
    if parts.len() == 0 {
        Some("empty key chord"@)
    } else if i < parts.len() - 1 {
        if modifier_named(text::lowercase(parts[i])) is None {
            Some("unknown modifier: "@ + text::lowercase(parts[i]))
        } else {
            chord_error(parts, i + 1)
        }
    } else if key_of(parts.last()) is None {
        Some("unknown key: "@ + parts.last())
    } else {
        None
    }
}

fn nonempty_parts(pieces: &Vec<Vec<char>>) -> (out: Vec<String>)
    ensures
        text::texts(out@) == text::views(pieces@).map_values(
            |p: Seq<char>| text::trim(p),
        ).filter(|p: Seq<char>| p.len() > 0),
{
    let ghost trimmed = text::views(pieces@).map_values(|p: Seq<char>| text::trim(p));
    let ghost keep = |p: Seq<char>| p.len() > 0;
    let mut out: Vec<String> = Vec::new();
    let mut i: usize = 0;
    proof {
        reveal(Seq::filter);
        assert(text::texts(out@) =~= trimmed.take(0).filter(keep));
    }
    while i < pieces.len()
        invariant
            i <= pieces@.len(),
            trimmed == text::views(pieces@).map_values(|p: Seq<char>| text::trim(p)),
            keep == (|p: Seq<char>| p.len() > 0),
            text::texts(out@) == trimmed.take(i as int).filter(keep),
        decreases pieces@.len() - i,
    {
        let part = text::trimmed(&pieces[i]);
        proof {
            reveal(Seq::filter);
            assert(trimmed[i as int] == part@);
            assert(trimmed.take(i + 1).drop_last() =~= trimmed.take(i as int));
        }
        if part.len() > 0 {
            let ghost before = out@;
            out.push(text::string_of(&part));
            assert(text::texts(out@) =~= text::texts(before).push(part@));
        }
        i = i + 1;
    }
    assert(trimmed.take(i as int) =~= trimmed);
    out
}

/// Whether a chord names these modifiers and this key.
pub open spec fn is_chord(chord: Seq<char>, modifiers: Seq<Modifier>, key: Key) -> bool {
    let parts = chord_parts(chord);
    &&& modifiers.len() == parts.len() - 1
    &&& forall|i: int|
        0 <= i < modifiers.len() ==> modifier_named(text::lowercase(parts[i])) == Some(
            #[trigger] modifiers[i],
        )
    &&& key_of(parts.last()) == Some(key)
}

/// Parses a chord like `ctrl+shift+esc` into the held modifiers and the main
/// key, which is the last `+`-separated piece.
pub fn parse_chord(chord: &str) -> (r: Result<(Vec<Modifier>, Key), String>)
    ensures
        ({
            let parts = chord_parts(chord@);
            match r {
                Ok((modifiers, key)) => chord_error(parts, 0) is None && is_chord(
                    chord@,
                    modifiers@,
                    key,
                ),
                Err(e) => chord_error(parts, 0) == Some(e@),
            }
        }),
{
    let pieces = text::split_on(&text::chars_of(chord), '+');
    let parts = nonempty_parts(&pieces);
    let ghost texts = chord_parts(chord@);
    assert(text::texts(parts@) == texts);
    if parts.len() == 0 {
        return Err("empty key chord".to_owned());
    }
    let mut modifiers: Vec<Modifier> = Vec::new();
    let mut i: usize = 0;
    while i < parts.len() - 1
        invariant
            parts@.len() > 0,
            text::texts(parts@) == texts,
            i <= parts@.len() - 1,
            modifiers@.len() == i,
            forall|k: int|
                0 <= k < i ==> modifier_named(text::lowercase(texts[k])) == Some(
                    #[trigger] modifiers@[k],
                ),
            chord_error(texts, 0) == chord_error(texts, i as int),
            texts == chord_parts(chord@),
        decreases parts@.len() - i,
    {
        assert(texts[i as int] == parts@[i as int]@);
        match Modifier::parse(parts[i].as_str()) {
            Ok(m) => {
                modifiers.push(m);
            },
            Err(e) => {
                return Err(e);
            },
        }
        i = i + 1;
    }
    assert(texts.last() == parts@[i as int]@);
    match Key::parse(parts[parts.len() - 1].as_str()) {
        Ok(key) => Ok((modifiers, key)),
        Err(e) => Err(e),
    }
}

/// Successful results, one variant per command family.
#[derive(Debug, Clone, PartialEq)]
#[non_exhaustive]
pub enum Reply {
    /// Result of running a command or a script.
    CommandOutput {
        /// Captured standard output.
        stdout: String,
        /// Captured standard error.
        stderr: String,
        /// Process exit code; none if it was killed by the timeout.
        exit_code: Option<i32>,
    },
    /// An encoded image.
    Image(Image),
    /// Top-level windows.
    Windows(Vec<WindowInfo>),
    /// UI elements.
    Elements(Vec<ElementInfo>),
    /// An application was launched.
    AppOpened {
        /// Main window of the launched app, if it surfaced one promptly.
        window: Option<WindowId>,
        /// OS process id.
        pid: u32,
        /// Exit code, if the process ended while it was watched.
        exit_code: Option<i32>,
        /// What is known of an early exit.
        diagnostic: Option<String>,
    },
    /// A detached script was launched.
    Detached {
        /// OS process id.
        pid: u32,
        /// Where its output goes.
        log_path: String,
    },
    /// A crash dump was written.
    Dumped {
        /// Where.
        path: String,
        /// How many bytes.
        size: u64,
    },
    /// Bytes of a file.
    FileContents(Vec<u8>),
    /// Content hashes of files.
    FileHashes(Vec<FileHash>),
    /// Relative file paths under a root.
    Tree(Vec<String>),
    /// Processes.
    Processes(Vec<ProcessInfo>),
    /// Text of an element or of the clipboard.
    Text(String),
    /// Labelled facts about the runner's account.
    Identity(Vec<(String, String)>),
    /// What the runner is and can do.
    Capabilities {
        /// Operating system name.
        os: String,
        /// Processor architecture name.
        arch: String,
        /// Version of the runner.
        runner_version: String,
        /// What it can do.
        commands: Vec<Capability>,
    },
    /// Acknowledgement for commands with no return payload.
    Ack,
}

/// One process.
#[derive(Debug, Clone, PartialEq, Eq)]
pub struct ProcessInfo {
    /// Process id.
    pub pid: u32,
    /// Executable name.
    pub name: String,
    /// Resident memory, if known.
    pub memory_kb: Option<u64>,
    /// Processor use, if sampled: the bits of a single-precision percentage.
    pub cpu_bits: Option<u32>,
}

/// One file's content hash.
#[derive(Debug, Clone, PartialEq, Eq)]
pub struct FileHash {
    /// Path relative to the hashed root, with forward slashes.
    pub path: String,
    /// Lowercase-hex content hash, or none if the file is absent.
    pub hash: Option<String>,
}

/// An encoded screenshot.
#[derive(Debug, Clone, PartialEq, Eq)]
pub struct Image {
    /// Encoding of the data.
    pub format: ImageFormat,
    /// Pixel width.
    pub width: u32,
    /// Pixel height.
    pub height: u32,
    /// Encoded image bytes.
    pub data: Vec<u8>,
}

/// Screenshot encoding.
#[derive(Debug, Clone, Copy, PartialEq, Eq, Structural)]
pub enum ImageFormat {
    /// WebP.
    Webp,
    /// PNG.
    Png,
}

/// A screen rectangle in absolute pixels.
#[derive(Debug, Clone, Copy, PartialEq, Eq, Structural)]
pub struct Rect {
    /// Left edge.
    pub x: i32,
    /// Top edge.
    pub y: i32,
    /// Width.
    pub width: i32,
    /// Height.
    pub height: i32,
}

impl Default for Rect {
    fn default() -> (r: Self)
        ensures
            r == (Rect { x: 0, y: 0, width: 0, height: 0 }),
    {
        Rect { x: 0, y: 0, width: 0, height: 0 }
    }
}

/// Metadata for a top-level window.
#[derive(Debug, Clone, PartialEq, Eq)]
pub struct WindowInfo {
    /// Native handle.
    pub id: WindowId,
    /// Window title.
    pub title: String,
    /// Owning process executable name.
    pub process: String,
    /// Whether the window is currently foreground.
    pub focused: bool,
    /// Screen rectangle of the window.
    pub rect: Rect,
}

/// A node in a window's UI tree.
#[derive(Debug, Clone, PartialEq, Eq)]
pub struct ElementInfo {
    /// Opaque handle for later commands.
    pub id: ElementId,
    /// Control type, such as `Button` or `Edit`.
    pub control_type: String,
    /// Accessible name, if any.
    pub name: Option<String>,
    /// The app-assigned stable identifier, if any.
    pub automation_id: Option<String>,
    /// Current value, if the element exposes one.
    pub value: Option<String>,
    /// Bounding rectangle on screen.
    pub rect: Rect,
    /// Whether the element is enabled and on-screen.
    pub actionable: bool,
}

/// Attribute filter. An element matches when every provided field matches;
/// comparisons ignore the case of ASCII letters.
#[derive(Debug, Clone, PartialEq, Eq)]
pub struct ElementQuery {
    /// Accessible name to match.
    pub name: Option<String>,
    /// Treat `name` as a part rather than the whole name.
    pub name_contains: bool,
    /// App-assigned identifier to match.
    pub automation_id: Option<String>,
    /// Control type to match.
    pub control_type: Option<String>,
    /// Restrict to elements that are enabled and on-screen.
    pub actionable_only: bool,
}

impl Default for ElementQuery {
    fn default() -> (r: Self)
        ensures
            r == (ElementQuery {
                name: None,
                name_contains: false,
                automation_id: None,
                control_type: None,
                actionable_only: false,
            }),
    {
        ElementQuery {
            name: None,
            name_contains: false,
            automation_id: None,
            control_type: None,
            actionable_only: false,
        }
    }
}

impl ElementQuery {
    /// Whether every provided criterion holds of the element.
    pub open spec fn accepts(self, info: ElementInfo) -> bool {
        &&& self.actionable_only ==> info.actionable
        &&& self.control_type matches Some(want) ==> text::same_folded(info.control_type@, want@)
        &&& self.automation_id matches Some(want) ==> (info.automation_id matches Some(have)
            && text::same_folded(have@, want@))
        &&& self.name matches Some(want) ==> (info.name matches Some(have)
            && if self.name_contains {
            text::occurs(text::lowercase(have@), text::lowercase(want@))
        } else {
            text::same_folded(have@, want@)
        })
    }

    /// Whether `info` satisfies every provided criterion.
    #[must_use]
    pub fn matches(&self, info: &ElementInfo) -> (r: bool)
        ensures
            r == self.accepts(*info),
    {
        if self.actionable_only && !info.actionable {
            return false;
        }
        if let Some(want) = &self.control_type {
            if !text::same_ignoring_case(info.control_type.as_str(), want.as_str()) {
                return false;
            }
        }
        if let Some(want) = &self.automation_id {
            match &info.automation_id {
                Some(have) => {
                    if !text::same_ignoring_case(have.as_str(), want.as_str()) {
                        return false;
                    }
                },
                None => {
                    return false;
                },
            }
        }
        if let Some(want) = &self.name {
            match &info.name {
                Some(have) => {
                    if self.name_contains {
                        text::contains(
                            &text::lowercased(&text::chars_of(have.as_str())),
                            &text::lowercased(&text::chars_of(want.as_str())),
                        )
                    } else {
                        text::same_ignoring_case(have.as_str(), want.as_str())
                    }
                },
                None => false,
            }
        } else {
            true
        }
    }
}

/// Interim progress emitted before a [`Response`].
#[derive(Debug, Clone, PartialEq)]
pub enum Event {
    /// A chunk of standard output.
    Stdout {
        /// Owning request.
        id: RequestId,
        /// Output fragment.
        chunk: String,
    },
    /// A chunk of standard error.
    Stderr {
        /// Owning request.
        id: RequestId,
        /// Error fragment.
        chunk: String,
    },
    /// A free-form progress note.
    Progress {
        /// Owning request.
        id: RequestId,
        /// Human-readable status.
        message: String,
    },
}

/// Structured failure of a request.
#[derive(Debug, Clone, PartialEq, Eq)]
pub struct RemoteError {
    /// Machine-readable category.
    pub kind: RemoteErrorKind,
    /// Human-readable detail.
    pub message: String,
}

/// Categories of runner-side failure.
#[derive(Debug, Clone, Copy, PartialEq, Eq, Structural)]
#[non_exhaustive]
pub enum RemoteErrorKind {
    /// The command is not permitted by the runner's policy.
    Denied,
    /// A referenced window, element, file or path was not found.
    NotFound,
    /// The operation exceeded its timeout.
    Timeout,
    /// An OS-level call failed.
    Os,
    /// The request was structurally invalid for the current state.
    Invalid,
}

/// Whether `want` stands somewhere in `have`, up to the case of ASCII letters.
pub open spec fn holds_alike(have: Seq<char>, want: Seq<char>) -> bool {
    exists|at: int|
        0 <= at <= have.len() - want.len() && text::all_alike(
            #[trigger] have.subrange(at, at + want.len()),
            want,
        )
}

proof fn lemma_holds_alike(have: Seq<char>, want: Seq<char>)
    ensures
        text::occurs(text::lowercase(have), text::lowercase(want)) == holds_alike(have, want),
{
    let (h, w) = (text::lowercase(have), text::lowercase(want));
    assert forall|at: int| 0 <= at <= have.len() - want.len() implies #[trigger] text::stands_at(
        h,
        w,
        at,
    ) == text::all_alike(have.subrange(at, at + want.len()), want) by {
        let part = have.subrange(at, at + want.len());
        text::law_folding_ignores_case_only(part, want);
        assert(h.subrange(at, at + want.len()) =~= text::lowercase(part));
    }
    if text::occurs(h, w) {
        let at = choose|at: int| #[trigger] text::stands_at(h, w, at);
        assert(text::all_alike(have.subrange(at, at + want.len()), want));
    }
    if holds_alike(have, want) {
        let at = choose|at: int|
            0 <= at <= have.len() - want.len() && text::all_alike(
                #[trigger] have.subrange(at, at + want.len()),
                want,
            );
        assert(text::stands_at(h, w, at));
    }
}

/// Each criterion that a query gives can reject an element by itself: one that is
/// accepted is actionable if that is asked for, and has the control type, the
/// automation id and the name that are asked for, up to the case of ASCII letters; a
/// name may be asked for in part.
pub proof fn law_each_criterion_can_reject(query: ElementQuery, info: ElementInfo, r: bool)
    requires
        call_ensures(ElementQuery::matches, (&query, &info), r),
    ensures
        r && query.actionable_only ==> info.actionable,
        r ==> (query.control_type matches Some(want) ==> text::all_alike(
            info.control_type@,
            want@,
        )),
        r ==> (query.automation_id matches Some(want) ==> (info.automation_id matches Some(have)
            && text::all_alike(have@, want@))),
        r && !query.name_contains ==> (query.name matches Some(want) ==> (
        info.name matches Some(have) && text::all_alike(have@, want@))),
        r && query.name_contains ==> (query.name matches Some(want) ==> (
        info.name matches Some(have) && holds_alike(have@, want@))),
{
    lemma_criteria(query, info);
}

proof fn lemma_criteria(query: ElementQuery, info: ElementInfo)
    ensures
        query.control_type matches Some(want) ==> text::same_folded(info.control_type@, want@)
            == text::all_alike(info.control_type@, want@),
        query.automation_id matches Some(want) ==> (info.automation_id matches Some(have)
            ==> text::same_folded(have@, want@) == text::all_alike(have@, want@)),
        query.name matches Some(want) ==> (info.name matches Some(have) ==> text::same_folded(
            have@,
            want@,
        ) == text::all_alike(have@, want@) && text::occurs(
            text::lowercase(have@),
            text::lowercase(want@),
        ) == holds_alike(have@, want@)),
{
    if let Some(want) = query.control_type {
        text::law_folding_ignores_case_only(info.control_type@, want@);
    }
    if let Some(want) = query.automation_id {
        if let Some(have) = info.automation_id {
            text::law_folding_ignores_case_only(have@, want@);
        }
    }
    if let Some(want) = query.name {
        if let Some(have) = info.name {
            text::law_folding_ignores_case_only(have@, want@);
            lemma_holds_alike(have@, want@);
        }
    }
}

/// Nothing but the criteria that are given rejects an element: one that is what the
/// query asks for is accepted, and a query that gives no criterion accepts every
/// element.
pub proof fn law_only_criteria_reject(query: ElementQuery, info: ElementInfo, r: bool)
    requires
        call_ensures(ElementQuery::matches, (&query, &info), r),
        query.actionable_only ==> info.actionable,
        query.control_type matches Some(want) ==> text::all_alike(info.control_type@, want@),
        query.automation_id matches Some(want) ==> (info.automation_id matches Some(have)
            && text::all_alike(have@, want@)),
        query.name matches Some(want) ==> (info.name matches Some(have) && if query.name_contains {
            holds_alike(have@, want@)
        } else {
            text::all_alike(have@, want@)
        }),
    ensures
        r,
{
    lemma_criteria(query, info);
}

/// Each name of a modifier, whatever its case, stands for that modifier, and no other
/// text does.
pub proof fn law_modifier_names(token: &str, r: Result<Modifier, String>)
    requires
        call_ensures(Modifier::parse, (token,), r),
    ensures
        ({
            let name = text::lowercase(token@);
            &&& name == "ctrl"@ || name == "control"@ <==> r == Ok::<Modifier, String>(
                Modifier::Ctrl,
            )
            &&& name == "alt"@ || name == "option"@ <==> r == Ok::<Modifier, String>(Modifier::Alt)
            &&& name == "shift"@ <==> r == Ok::<Modifier, String>(Modifier::Shift)
            &&& name == "win"@ || name == "meta"@ || name == "cmd"@ || name == "super"@ <==> r
                == Ok::<Modifier, String>(Modifier::Win)
        }),
{
    reveal_strlit("ctrl");
    reveal_strlit("control");
    reveal_strlit("alt");
    reveal_strlit("option");
    reveal_strlit("shift");
    reveal_strlit("win");
    reveal_strlit("meta");
    reveal_strlit("cmd");
    reveal_strlit("super");
    assert("ctrl"@.len() == 4);
    assert("control"@.len() == 7);
    assert("alt"@.len() == 3);
    assert("option"@.len() == 6);
    assert("shift"@.len() == 5);
    assert("win"@.len() == 3);
    assert("meta"@.len() == 4);
    assert("cmd"@.len() == 3);
    assert("super"@.len() == 5);
    assert("ctrl"@[0] != "meta"@[0]);
    assert("alt"@[0] != "win"@[0]);
    assert("alt"@[0] != "cmd"@[0]);
    assert("shift"@[1] != "super"@[1]);
    assert("win"@[0] != "cmd"@[0]);
}

proof fn lemma_key_names()
    ensures
        key_named("enter"@) == Some(Key::Enter) && key_named("return"@) == Some(Key::Enter),
        key_named("tab"@) == Some(Key::Tab) && key_named("space"@) == Some(Key::Space),
        key_named("backspace"@) == Some(Key::Backspace) && key_named("bksp"@) == Some(
            Key::Backspace,
        ),
        key_named("delete"@) == Some(Key::Delete) && key_named("del"@) == Some(Key::Delete),
        key_named("escape"@) == Some(Key::Escape) && key_named("esc"@) == Some(Key::Escape),
        key_named("home"@) == Some(Key::Home) && key_named("end"@) == Some(Key::End),
        key_named("pageup"@) == Some(Key::PageUp) && key_named("pgup"@) == Some(Key::PageUp),
        key_named("pagedown"@) == Some(Key::PageDown) && key_named("pgdn"@) == Some(Key::PageDown),
        key_named("up"@) == Some(Key::Up) && key_named("down"@) == Some(Key::Down),
        key_named("left"@) == Some(Key::Left) && key_named("right"@) == Some(Key::Right),
{
    reveal_strlit("enter");
    reveal_strlit("return");
    reveal_strlit("tab");
    reveal_strlit("space");
    reveal_strlit("backspace");
    reveal_strlit("bksp");
    reveal_strlit("delete");
    reveal_strlit("del");
    reveal_strlit("escape");
    reveal_strlit("esc");
    reveal_strlit("home");
    reveal_strlit("end");
    reveal_strlit("pageup");
    reveal_strlit("pgup");
    reveal_strlit("pagedown");
    reveal_strlit("pgdn");
    reveal_strlit("up");
    reveal_strlit("down");
    reveal_strlit("left");
    reveal_strlit("right");
    assert("enter"@.len() == 5);
    assert("return"@.len() == 6);
    assert("tab"@.len() == 3);
    assert("space"@.len() == 5);
    assert("backspace"@.len() == 9);
    assert("bksp"@.len() == 4);
    assert("delete"@.len() == 6);
    assert("del"@.len() == 3);
    assert("escape"@.len() == 6);
    assert("esc"@.len() == 3);
    assert("home"@.len() == 4);
    assert("end"@.len() == 3);
    assert("pageup"@.len() == 6);
    assert("pgup"@.len() == 4);
    assert("pagedown"@.len() == 8);
    assert("pgdn"@.len() == 4);
    assert("up"@.len() == 2);
    assert("down"@.len() == 4);
    assert("left"@.len() == 4);
    assert("right"@.len() == 5);
    assert("enter"@[0] != "space"@[0]);
    assert("enter"@[0] != "right"@[0]);
    assert("return"@[0] != "delete"@[0]);
    assert("return"@[0] != "escape"@[0]);
    assert("return"@[0] != "pageup"@[0]);
    assert("tab"@[0] != "del"@[0]);
    assert("tab"@[0] != "esc"@[0]);
    assert("tab"@[0] != "end"@[0]);
    assert("space"@[0] != "right"@[0]);
    assert("bksp"@[0] != "home"@[0]);
    assert("bksp"@[0] != "pgup"@[0]);
    assert("bksp"@[0] != "pgdn"@[0]);
    assert("bksp"@[0] != "down"@[0]);
    assert("bksp"@[0] != "left"@[0]);
    assert("delete"@[0] != "escape"@[0]);
    assert("delete"@[0] != "pageup"@[0]);
    assert("del"@[0] != "esc"@[0]);
    assert("del"@[0] != "end"@[0]);
    assert("escape"@[0] != "pageup"@[0]);
    assert("esc"@[1] != "end"@[1]);
    assert("home"@[0] != "pgup"@[0]);
    assert("home"@[0] != "pgdn"@[0]);
    assert("home"@[0] != "down"@[0]);
    assert("home"@[0] != "left"@[0]);
    assert("pgup"@[2] != "pgdn"@[2]);
    assert("pgup"@[0] != "down"@[0]);
    assert("pgup"@[0] != "left"@[0]);
    assert("pgdn"@[0] != "down"@[0]);
    assert("pgdn"@[0] != "left"@[0]);
    assert("down"@[0] != "left"@[0]);
}

/// Each name of a key, whatever its case, stands for that key. Any other single
/// character is itself, in its own case. An `f` before a number from 1 to 24 is that
/// function key. Nothing else is a key.
pub proof fn law_key_names(token: &str, r: Result<Key, String>, n: Option<u64>, digits: &[char])
    requires
        call_ensures(Key::parse, (token,), r),
        text::lowercase(token@).len() > 0 ==> digits@ == text::lowercase(token@).skip(1),
        number::parse_unsigned.ensures((digits, 255u64), n),
    ensures
        ({
            let name = text::lowercase(token@);
            &&& name == "enter"@ || name == "return"@ ==> r == Ok::<Key, String>(Key::Enter)
            &&& name == "tab"@ ==> r == Ok::<Key, String>(Key::Tab)
            &&& name == "space"@ ==> r == Ok::<Key, String>(Key::Space)
            &&& name == "backspace"@ || name == "bksp"@ ==> r == Ok::<Key, String>(Key::Backspace)
            &&& name == "delete"@ || name == "del"@ ==> r == Ok::<Key, String>(Key::Delete)
            &&& name == "escape"@ || name == "esc"@ ==> r == Ok::<Key, String>(Key::Escape)
            &&& name == "home"@ ==> r == Ok::<Key, String>(Key::Home)
            &&& name == "end"@ ==> r == Ok::<Key, String>(Key::End)
            &&& name == "pageup"@ || name == "pgup"@ ==> r == Ok::<Key, String>(Key::PageUp)
            &&& name == "pagedown"@ || name == "pgdn"@ ==> r == Ok::<Key, String>(Key::PageDown)
            &&& name == "up"@ ==> r == Ok::<Key, String>(Key::Up)
            &&& name == "down"@ ==> r == Ok::<Key, String>(Key::Down)
            &&& name == "left"@ ==> r == Ok::<Key, String>(Key::Left)
            &&& name == "right"@ ==> r == Ok::<Key, String>(Key::Right)
        }),
        token@.len() == 1 ==> r == Ok::<Key, String>(Key::Char(token@[0])),
        r matches Ok(Key::Char(c)) ==> token@ == seq![c],
        r matches Ok(Key::F(k)) ==> text::lowercase(token@)[0] == 'f' && n == Some(k as u64) && 1
            <= k <= 24,
        token@.len() > 1 && text::lowercase(token@)[0] == 'f' && (n matches Some(k) && 1 <= k <= 24)
            ==> (r matches Ok(Key::F(k)) && k == n->0),
{
    lemma_key_names();
    lemma_long_names();
    let name = text::lowercase(token@);
    assert(name.len() == token@.len());
    if token@.len() == 1 {
        assert(name.skip(1).len() == 0);
        assert(key_named(name) is None);
        assert(function_key(name) is None);
    }
    if r is Ok && r->Ok_0 is Char {
        assert(token@ =~= seq![token@[0]]);
    }
    if token@.len() > 1 && name[0] == 'f' {
        assert(key_named(name) is None);
    }
    if key_named(name) is None && function_key(name) is Some {
        assert(name.len() > 0);
    }
}

proof fn lemma_long_names()
    ensures
        forall|name: Seq<char>|
            (#[trigger] key_named(name)) is Some ==> name.len() > 1 && name[0] != 'f',
{
    reveal_strlit("enter");
    reveal_strlit("return");
    reveal_strlit("tab");
    reveal_strlit("space");
    reveal_strlit("backspace");
    reveal_strlit("bksp");
    reveal_strlit("delete");
    reveal_strlit("del");
    reveal_strlit("escape");
    reveal_strlit("esc");
    reveal_strlit("home");
    reveal_strlit("end");
    reveal_strlit("pageup");
    reveal_strlit("pgup");
    reveal_strlit("pagedown");
    reveal_strlit("pgdn");
    reveal_strlit("up");
    reveal_strlit("down");
    reveal_strlit("left");
    reveal_strlit("right");
}

proof fn lemma_parts_of_one(piece: Seq<char>)
    requires
        !piece.contains('+'),
    ensures
        chord_parts(piece) == (if text::trim(piece).len() > 0 {
            seq![text::trim(piece)]
        } else {
            Seq::empty()
        }),
{
    reveal(Seq::filter);
    text::lemma_split_grows(Seq::empty(), piece, '+');
    assert(Seq::<char>::empty() + piece =~= piece);
    let pieces = text::split(piece, '+');
    assert(pieces =~= seq![piece]);
    let trimmed = pieces.map_values(|p: Seq<char>| text::trim(p));
    assert(trimmed =~= seq![text::trim(piece)]);
    assert(trimmed.drop_last() =~= Seq::empty());
    let keep = |p: Seq<char>| p.len() > 0;
    assert(trimmed.drop_last().filter(keep) =~= Seq::empty());
    assert(chord_parts(piece) =~= (if text::trim(piece).len() > 0 {
        seq![text::trim(piece)]
    } else {
        Seq::empty()
    }));
}

proof fn lemma_filter_comes_apart(a: Seq<Seq<char>>, b: Seq<Seq<char>>)
    ensures
        (a + b).filter(|p: Seq<char>| p.len() > 0) == a.filter(|p: Seq<char>| p.len() > 0)
            + b.filter(|p: Seq<char>| p.len() > 0),
    decreases b.len(),
{
    reveal(Seq::filter);
    let keep = |p: Seq<char>| p.len() > 0;
    if b.len() == 0 {
        assert(a + b =~= a);
        assert(b.filter(keep) =~= Seq::empty());
        assert(a.filter(keep) + b.filter(keep) =~= a.filter(keep));
    } else {
        lemma_filter_comes_apart(a, b.drop_last());
        assert((a + b).drop_last() =~= a + b.drop_last());
        assert((a + b).last() == b.last());
        assert((a + b).filter(keep) =~= a.filter(keep) + b.filter(keep));
    }
}

proof fn lemma_chord_errors(parts: Seq<Seq<char>>, i: int)
    requires
        parts.len() > 0,
        0 <= i <= parts.len() - 1,
    ensures
        chord_error(parts, i) is None <==> key_of(parts.last()) is Some && forall|k: int|
            i <= k < parts.len() - 1 ==> modifier_named(text::lowercase(#[trigger] parts[k])) is Some,
    decreases parts.len() - i,
{
    if i < parts.len() - 1 {
        lemma_chord_errors(parts, i + 1);
    }
}

/// A chord without a plus sign is a key alone. A modifier and a plus sign before a
/// chord add that modifier, as the first, and change nothing else; what is no modifier
/// there makes it no chord.
pub proof fn law_chord_adds_modifiers(
    piece: &str,
    plain: &str,
    rest: &str,
    whole: &str,
    modifier: Result<Modifier, String>,
    key: Result<Key, String>,
    alone: Result<(Vec<Modifier>, Key), String>,
    r: Result<(Vec<Modifier>, Key), String>,
    s: Result<(Vec<Modifier>, Key), String>,
)
    requires
        !piece@.contains('+'),
        plain@ == text::trim(piece@),
        plain@.len() > 0,
        whole@ == piece@.push('+') + rest@,
        chord_parts(rest@).len() > 0,
        call_ensures(Modifier::parse, (plain,), modifier),
        call_ensures(Key::parse, (plain,), key),
        parse_chord.ensures((piece,), alone),
        parse_chord.ensures((rest,), r),
        parse_chord.ensures((whole,), s),
    ensures
        alone is Ok <==> key is Ok,
        alone matches Ok(c) ==> c.0@.len() == 0 && c.1 == key->Ok_0,
        s is Ok <==> modifier is Ok && r is Ok,
        s matches Ok(c) ==> c.0@ == seq![modifier->Ok_0] + (r->Ok_0).0@ && c.1 == (r->Ok_0).1,
{
    lemma_parts_of_one(piece@);
    text::law_split_comes_apart(piece@, rest@, '+');
    let (a, b) = (text::split(piece@, '+'), text::split(rest@, '+'));
    let cut = |p: Seq<char>| text::trim(p);
    assert((a + b).map_values(cut) =~= a.map_values(cut) + b.map_values(cut));
    lemma_filter_comes_apart(a.map_values(cut), b.map_values(cut));
    let (mine, after, all) = (chord_parts(piece@), chord_parts(rest@), chord_parts(whole@));
    assert(all == mine + after);
    assert(mine.last() == plain@);
    lemma_chord_errors(mine, 0);
    lemma_chord_errors(after, 0);
    lemma_chord_errors(all, 0);
    assert(all.last() == after.last());
    assert(all[0] == plain@);
    assert forall|k: int| 0 <= k < after.len() implies #[trigger] after[k] == all[k + 1] by {}
    if modifier is Ok && r is Ok {
        assert forall|k: int| 0 <= k < all.len() - 1 implies modifier_named(
            text::lowercase(#[trigger] all[k]),
        ) is Some by {
            if k > 0 {
                assert(all[k] == after[k - 1]);
            }
        }
    }
    if s is Ok {
        assert(modifier_named(text::lowercase(all[0])) is Some);
        assert forall|k: int| 0 <= k < after.len() - 1 implies modifier_named(
            text::lowercase(#[trigger] after[k]),
        ) is Some by {
            assert(after[k] == all[k + 1]);
        }
        let (got, rest_got) = ((s->Ok_0).0@, (r->Ok_0).0@);
        assert forall|k: int| 0 <= k < got.len() implies got[k] == (seq![modifier->Ok_0]
            + rest_got)[k] by {
            if k > 0 {
                assert(all[k] == after[k - 1]);
                assert(modifier_named(text::lowercase(after[k - 1])) == Some(rest_got[k - 1]));
            }
            assert(modifier_named(text::lowercase(all[k])) == Some(got[k]));
        }
        assert(got =~= seq![modifier->Ok_0] + rest_got);
    }
}

} // verus!
