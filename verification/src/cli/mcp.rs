//! The tool server: what each tool asks of the runner, and what it makes of the
//! answer. The link underneath is made on first use and again after it broke.

use vstd::prelude::*;

use crate::cli::ui::{chord_step, print_elements, window_rows, window_text, KeyStep};
use crate::cli::ui::{element_row, window_row};
use crate::net::config::SessionConfig;
use crate::net::controller::ControllerError;
use crate::number;
use crate::proto::id::{ElementId, WindowId};
use crate::proto::wire::{
    chord_error, chord_parts, parse_chord, CaptureTarget, ClickTarget, Command, ElementInfo,
    ElementQuery, Event, ImageFormat, MouseAction, MouseButton, Reply, Shell, WindowInfo,
    DEFAULT_COMMAND_TIMEOUT_MS,
};
use crate::radix64;
use crate::text;

verus! {

/// How many seconds to wait for the runner to appear and the handshake to
/// complete.
pub const CONNECT_TIMEOUT_SECS: u64 = 15;

/// Arguments of [`AgentRc::run_command`].
pub struct RunCommandArgs {
    /// Command line to run on the remote machine.
    pub command: String,
    /// Shell to use: `powershell`, which is the default, or `cmd`.
    pub shell: Option<String>,
    /// Time limit in milliseconds. Without one there is a default limit of ten
    /// minutes; zero is no limit.
    pub timeout_ms: Option<u64>,
}

/// Arguments of [`AgentRc::run_script`].
pub struct RunScriptArgs {
    /// Script source to run on the remote machine.
    pub content: String,
    /// Interpreter: `powershell`, which is the default, or `cmd`.
    pub shell: Option<String>,
    /// Arguments passed through to the script.
    pub args: Vec<String>,
    /// Time limit in milliseconds, as for a command.
    pub timeout_ms: Option<u64>,
}

/// Arguments of [`AgentRc::screenshot`].
pub struct ScreenshotArgs {
    /// Window to capture; the whole screen if omitted.
    pub window: Option<u64>,
    /// Element to capture; takes precedence over the window.
    pub element: Option<String>,
}

/// Arguments of [`AgentRc::list_elements`].
pub struct ListElementsArgs {
    /// Window handle.
    pub window: u64,
}

/// Arguments of [`AgentRc::find_elements`].
pub struct FindElementsArgs {
    /// Window handle.
    pub window: u64,
    /// Match the accessible name.
    pub name: Option<String>,
    /// Match the name as a part rather than as a whole.
    pub name_contains: bool,
    /// Match the automation id.
    pub automation_id: Option<String>,
    /// Match the control type.
    pub control_type: Option<String>,
    /// Only enabled elements on the screen.
    pub actionable_only: bool,
    /// Wait for a match for so many milliseconds.
    pub wait_ms: Option<u64>,
}

/// Arguments of [`AgentRc::click_element`].
pub struct ClickElementArgs {
    /// Element id.
    pub element_id: String,
}

/// Arguments of [`AgentRc::click_point`].
pub struct ClickPointArgs {
    /// X in screen coordinates.
    pub x: i32,
    /// Y in screen coordinates.
    pub y: i32,
    /// `left`, which is the default, `right`, or `middle`.
    pub button: Option<String>,
}

/// Arguments of [`AgentRc::type_text`].
pub struct TypeTextArgs {
    /// Text to type into the focused element.
    pub text: String,
}

/// Arguments of [`AgentRc::press_key`].
pub struct PressKeyArgs {
    /// Chords, pressed in order.
    pub keys: Vec<String>,
}

/// Arguments of [`AgentRc::mouse`].
pub struct MouseArgs {
    /// `move`, `click`, `down`, `up`, `scroll` or `drag`.
    pub action: String,
    /// X, or how far to scroll sideways, or where to drag from.
    pub x: i32,
    /// Y, or how far to scroll down, or where to drag from.
    pub y: i32,
    /// Where to drag to.
    pub to_x: i32,
    /// Where to drag to.
    pub to_y: i32,
    /// `left`, which is the default, `right`, or `middle`.
    pub button: Option<String>,
    /// How many clicks; one if omitted.
    pub count: Option<u32>,
}

/// Arguments of [`AgentRc::set_value`].
pub struct SetValueArgs {
    /// Element id.
    pub element_id: String,
    /// New value.
    pub value: String,
}

/// Arguments of [`AgentRc::open_app`].
pub struct OpenAppArgs {
    /// Executable path or registered name.
    pub target: String,
    /// Command-line arguments.
    pub args: Vec<String>,
}

/// Arguments of [`AgentRc::read_file`].
pub struct ReadFileArgs {
    /// Path on the remote machine.
    pub path: String,
    /// Return base64 instead of text.
    pub base64: Option<bool>,
    /// Where to start reading.
    pub offset: Option<u64>,
    /// Most bytes to read; none or zero reads to the end.
    pub length: Option<u64>,
}

/// Arguments of [`AgentRc::write_file`].
pub struct WriteFileArgs {
    /// Path on the remote machine.
    pub path: String,
    /// Text to write.
    pub content: Option<String>,
    /// Base64 of the bytes to write; takes precedence over the text.
    pub content_base64: Option<String>,
    /// Where to write; zero starts the file anew.
    pub offset: Option<u64>,
}

/// The shell that a name stands for: `cmd`, or else PowerShell.
pub open spec fn named_shell(shell: Option<Seq<char>>) -> Shell {
    if shell == Some("cmd"@) {
        Shell::Cmd
    } else {
        Shell::PowerShell
    }
}

/// The view of an optional text.
pub open spec fn view_of(s: Option<String>) -> Option<Seq<char>> {
    match s {
        Some(v) => Some(v@),
        None => None,
    }
}

/// Reads the name of a shell.
pub fn parse_shell(shell: &Option<String>) -> (r: Shell)
    ensures
        r == named_shell(view_of(*shell)),
{
    match shell {
        Some(s) => if text::same(s.as_str(), "cmd") {
            Shell::Cmd
        } else {
            Shell::PowerShell
        },
        None => Shell::PowerShell,
    }
}

/// The time limit of a request: the default if omitted, none if zero.
pub open spec fn limit(timeout_ms: Option<u64>) -> Option<u64> {
    match timeout_ms {
        None => Some(DEFAULT_COMMAND_TIMEOUT_MS),
        Some(ms) => if ms == 0 {
            None
        } else {
            Some(ms)
        },
    }
}

/// Applies the default time limit: none given means the default, zero means none.
pub fn clamp_timeout(timeout_ms: Option<u64>) -> (r: Option<u64>)
    ensures
        r == limit(timeout_ms),
{
    match timeout_ms {
        None => Some(DEFAULT_COMMAND_TIMEOUT_MS),
        Some(ms) => if ms == 0 {
            None
        } else {
            Some(ms)
        },
    }
}

/// The button that a name stands for: the left one unless it says otherwise.
pub open spec fn named_button(button: Option<Seq<char>>) -> MouseButton {
    if button == Some("right"@) {
        MouseButton::Right
    } else if button == Some("middle"@) {
        MouseButton::Middle
    } else {
        MouseButton::Left
    }
}

/// Reads the name of a button.
fn parse_button(button: &Option<String>) -> (r: MouseButton)
    ensures
        r == named_button(view_of(*button)),
{
    match button {
        Some(b) => if text::same(b.as_str(), "right") {
            MouseButton::Right
        } else if text::same(b.as_str(), "middle") {
            MouseButton::Middle
        } else {
            MouseButton::Left
        },
        None => MouseButton::Left,
    }
}

/// A number, or zero if it is omitted.
pub open spec fn or_zero(n: Option<u64>) -> u64 {
    match n {
        Some(v) => v,
        None => 0,
    }
}

fn zero_if_none(n: Option<u64>) -> (r: u64)
    ensures
        r == or_zero(n),
{
    match n {
        Some(v) => v,
        None => 0,
    }
}

/// The mouse action that the arguments describe, if the name is known.
pub open spec fn described_action(args: MouseArgs) -> Option<MouseAction> {
    let button = named_button(view_of(args.button));
    if args.action@ == "move"@ {
        Some(MouseAction::Move { x: args.x, y: args.y })
    } else if args.action@ == "click"@ {
        Some(
            MouseAction::Click {
                x: args.x,
                y: args.y,
                button,
                count: match args.count {
                    Some(n) => n,
                    None => 1,
                },
            },
        )
    } else if args.action@ == "down"@ {
        Some(MouseAction::Down { x: args.x, y: args.y, button })
    } else if args.action@ == "up"@ {
        Some(MouseAction::Up { x: args.x, y: args.y, button })
    } else if args.action@ == "scroll"@ {
        Some(MouseAction::Scroll { dx: args.x, dy: args.y })
    } else if args.action@ == "drag"@ {
        Some(
            MouseAction::Drag {
                from_x: args.x,
                from_y: args.y,
                to_x: args.to_x,
                to_y: args.to_y,
                button,
            },
        )
    } else {
        None
    }
}

/// A text, or a placeholder if it is empty.
pub open spec fn or_placeholder(text: Seq<char>, placeholder: Seq<char>) -> Seq<char> {
    if text.len() == 0 {
        placeholder
    } else {
        text
    }
}

/// Returns the placeholder when the text is empty.
pub fn blank_as(text: String, placeholder: &str) -> (r: String)
    ensures
        r@ == or_placeholder(text@, placeholder@),
{
    if text.as_str().unicode_len() == 0 {
        placeholder.to_owned()
    } else {
        text
    }
}

/// The rows of elements, one per line.
pub open spec fn element_rows(elements: Seq<ElementInfo>) -> Seq<char> {
    text::joined(elements.map_values(|e: ElementInfo| element_row(e)), "\n"@)
}

/// Lays out elements, one row per line.
pub fn format_elements(elements: &Vec<ElementInfo>) -> (r: String)
    ensures
        r@ == element_rows(elements@),
{
    text::join(&print_elements(elements), "\n")
}

/// What has come in of the output of a run.
pub struct Collected {
    /// Standard output.
    pub stdout: String,
    /// Standard error.
    pub stderr: String,
}

impl Collected {
    /// Nothing yet.
    pub fn new() -> (s: Self)
        ensures
            s.stdout@.len() == 0,
            s.stderr@.len() == 0,
    {
        Collected { stdout: String::new(), stderr: String::new() }
    }

    /// Takes an event, and returns the text to show as progress.
    pub fn absorb(&mut self, event: Event) -> (shown: String)
        ensures
            match event {
                Event::Stdout { chunk, .. } => final(self).stdout@ == old(self).stdout@ + chunk@
                    && final(self).stderr@ == old(self).stderr@ && shown@ == chunk@,
                Event::Stderr { chunk, .. } => final(self).stderr@ == old(self).stderr@ + chunk@
                    && final(self).stdout@ == old(self).stdout@ && shown@ == chunk@,
                Event::Progress { message, .. } => final(self).stdout@ == old(self).stdout@
                    && final(self).stderr@ == old(self).stderr@ && shown@ == message@,
            },
    {
        match event {
            Event::Stdout { chunk, .. } => {
                self.stdout.append(chunk.as_str());
                chunk
            },
            Event::Stderr { chunk, .. } => {
                self.stderr.append(chunk.as_str());
                chunk
            },
            Event::Progress { message, .. } => message,
        }
    }
}

/// What a tool shows of a run: exit code and both outputs, each as the reply has
/// it, or else as it was streamed.
pub open spec fn run_report(
    stdout: Seq<char>,
    stderr: Seq<char>,
    exit_code: Option<i32>,
    streamed_out: Seq<char>,
    streamed_err: Seq<char>,
) -> Seq<char> {
    "exit_code: "@ + (match exit_code {
        Some(code) => number::signed(code as int),
        None => "killed"@,
    }) + "\n--- stdout ---\n"@ + or_placeholder(stdout, streamed_out) + "\n--- stderr ---\n"@
        + or_placeholder(stderr, streamed_err)
}

/// The tool server: its session, and whether there is a link to the runner.
pub struct AgentRc {
    /// The session that links are made with.
    pub config: SessionConfig,
    /// Whether there is a link.
    pub linked: bool,
}

impl AgentRc {
    /// A server without a link.
    #[must_use]
    pub fn new(config: SessionConfig) -> (s: Self)
        ensures
            s.config == config,
            !s.linked,
    {
        AgentRc { config, linked: false }
    }

    /// Whether a link has to be made before a request.
    pub fn connect_if_needed(&self) -> (r: bool)
        ensures
            r == !self.linked,
    {
        !self.linked
    }

    /// Takes the outcome of an attempt to make a link; none is a timeout.
    pub fn connected(&mut self, outcome: Option<Result<(), ControllerError>>) -> (r: Result<
        (),
        String,
    >)
        ensures
            final(self).config == old(self).config,
            match outcome {
                Some(Ok(_)) => r is Ok && final(self).linked,
                Some(Err(e)) => (r matches Err(m) && m@ == e.message()) && final(self).linked
                    == old(self).linked,
                None => (r matches Err(m) && m@ == "timed out connecting to runner via relay"@)
                    && final(self).linked == old(self).linked,
            },
    {
        match outcome {
            Some(Ok(_)) => {
                self.linked = true;
                Ok(())
            },
            Some(Err(e)) => Err(e.to_string()),
            None => Err("timed out connecting to runner via relay".to_string()),
        }
    }

    /// Takes the outcome of a request. An error of the link drops it, so that the
    /// next request makes a new one; an error that the runner reported does not.
    pub fn finish(&mut self, result: Result<Reply, ControllerError>) -> (r: Result<Reply, String>)
        ensures
            final(self).config == old(self).config,
            final(self).linked == (old(self).linked && !(result matches Err(e) && !(e is Remote))),
            match result {
                Ok(reply) => r == Ok::<Reply, String>(reply),
                Err(e) => r matches Err(m) && m@ == e.message(),
            },
    {
        match result {
            Ok(reply) => Ok(reply),
            Err(e) => {
                if e.is_fatal() {
                    self.linked = false;
                }
                Err(e.to_string())
            },
        }
    }

    /// Asks for a run of a command line, with output streaming back.
    pub fn run_command(args: RunCommandArgs) -> (r: Command)
        ensures
            r matches Command::RunCommand { shell, command, env, timeout_ms, stream } && shell
                == named_shell(view_of(args.shell)) && command == args.command && env@.len() == 0
                && timeout_ms == limit(args.timeout_ms) && stream,
    {
        Command::RunCommand {
            shell: parse_shell(&args.shell),
            command: args.command,
            env: Vec::new(),
            timeout_ms: clamp_timeout(args.timeout_ms),
            stream: true,
        }
    }

    /// Asks for a run of a script, with output streaming back.
    pub fn run_script(args: RunScriptArgs) -> (r: Command)
        ensures
            r matches Command::RunScript { shell, content, args: a, env, timeout_ms, stream } && shell
                == named_shell(view_of(args.shell)) && content == args.content && a == args.args
                && env@.len() == 0 && timeout_ms == limit(args.timeout_ms) && stream,
    {
        Command::RunScript {
            shell: parse_shell(&args.shell),
            content: args.content,
            args: args.args,
            env: Vec::new(),
            timeout_ms: clamp_timeout(args.timeout_ms),
            stream: true,
        }
    }

    /// Shows the outcome of a run. Any other reply comes back.
    pub fn stream_to_result(reply: Reply, streamed: Collected) -> (r: Result<String, Reply>)
        ensures
            match r {
                Ok(report) => reply matches Reply::CommandOutput { stdout, stderr, exit_code }
                    && report@ == run_report(
                    stdout@,
                    stderr@,
                    exit_code,
                    streamed.stdout@,
                    streamed.stderr@,
                ),
                Err(other) => !(reply is CommandOutput) && other == reply,
            },
    {
        match reply {
            Reply::CommandOutput { stdout, stderr, exit_code } => {
                let code = match exit_code {
                    Some(c) => number::signed_text(c),
                    None => "killed".to_string(),
                };
                let out = blank_as(stdout, streamed.stdout.as_str());
                let err = blank_as(stderr, streamed.stderr.as_str());
                let mut report = text::join3("exit_code: ", code.as_str(), "\n--- stdout ---\n");
                report.append(out.as_str());
                report.append("\n--- stderr ---\n");
                report.append(err.as_str());
                Ok(report)
            },
            other => Err(other),
        }
    }

    /// Asks for a capture of an element, else of a window, else of the whole
    /// screen.
    pub fn screenshot(args: ScreenshotArgs) -> (r: Command)
        ensures
            r == (Command::Screenshot {
                target: match (args.element, args.window) {
                    (Some(id), _) => CaptureTarget::Element(ElementId(id)),
                    (None, Some(handle)) => CaptureTarget::Window(WindowId(handle)),
                    (None, None) => CaptureTarget::FullScreen,
                },
                format: None,
                settle_ms: None,
                settle_await_change: false,
            }),
    {
        let target = match (args.element, args.window) {
            (Some(id), _) => CaptureTarget::Element(ElementId(id)),
            (None, Some(handle)) => CaptureTarget::Window(WindowId(handle)),
            (None, None) => CaptureTarget::FullScreen,
        };
        Command::Screenshot { target, format: None, settle_ms: None, settle_await_change: false }
    }

    /// Shows a capture as base64 with its media type. Any other reply comes back.
    pub fn screenshot_result(reply: Reply) -> (r: Result<(String, &'static str), Reply>)
        ensures
            match r {
                Ok((data, mime)) => reply matches Reply::Image(image) && data@ == radix64::base64(
                    image.data@,
                ) && mime@ == match image.format {
                    ImageFormat::Png => "image/png"@,
                    ImageFormat::Webp => "image/webp"@,
                },
                Err(other) => !(reply is Image) && other == reply,
            },
    {
        match reply {
            Reply::Image(image) => {
                let mime = match image.format {
                    ImageFormat::Png => "image/png",
                    ImageFormat::Webp => "image/webp",
                };
                Ok((radix64::to_base64(image.data.as_slice()), mime))
            },
            other => Err(other),
        }
    }

    /// Shows the windows, one row per line. Any other reply comes back.
    pub fn list_windows(reply: Reply) -> (r: Result<String, Reply>)
        ensures
            match r {
                Ok(shown) => reply matches Reply::Windows(windows) && shown@ == or_placeholder(
                    text::joined(windows@.map_values(|w: WindowInfo| window_row(w)), "\n"@),
                    "<no windows>"@,
                ),
                Err(other) => !(reply is Windows) && other == reply,
            },
    {
        match reply {
            Reply::Windows(windows) => Ok(
                blank_as(text::join(&window_rows(&windows), "\n"), "<no windows>"),
            ),
            other => Err(other),
        }
    }

    /// Asks for the elements of a window.
    pub fn list_elements(args: ListElementsArgs) -> (r: Command)
        ensures
            r == (Command::ListElements { window: WindowId(args.window) }),
    {
        Command::ListElements { window: WindowId(args.window) }
    }

    /// Shows elements, one row per line, or a placeholder. Any other reply comes
    /// back.
    pub fn elements_result(reply: Reply, placeholder: &str) -> (r: Result<String, Reply>)
        ensures
            match r {
                Ok(shown) => reply matches Reply::Elements(elements) && shown@ == or_placeholder(
                    element_rows(elements@),
                    placeholder@,
                ),
                Err(other) => !(reply is Elements) && other == reply,
            },
    {
        match reply {
            Reply::Elements(elements) => Ok(blank_as(format_elements(&elements), placeholder)),
            other => Err(other),
        }
    }

    /// Asks for the elements of a window that match.
    pub fn find_elements(args: FindElementsArgs) -> (r: Command)
        ensures
            r == (Command::FindElements {
                window: WindowId(args.window),
                query: ElementQuery {
                    name: args.name,
                    name_contains: args.name_contains,
                    automation_id: args.automation_id,
                    control_type: args.control_type,
                    actionable_only: args.actionable_only,
                },
                wait_ms: args.wait_ms,
            }),
    {
        let query = ElementQuery {
            name: args.name,
            name_contains: args.name_contains,
            automation_id: args.automation_id,
            control_type: args.control_type,
            actionable_only: args.actionable_only,
        };
        Command::FindElements { window: WindowId(args.window), query, wait_ms: args.wait_ms }
    }

    /// Asks for a click on an element.
    pub fn click_element(args: ClickElementArgs) -> (r: Command)
        ensures
            r == (Command::Click { target: ClickTarget::Element(ElementId(args.element_id)) }),
    {
        Command::Click { target: ClickTarget::Element(ElementId(args.element_id)) }
    }

    /// Asks for a click at a point.
    pub fn click_point(args: ClickPointArgs) -> (r: Command)
        ensures
            r == (Command::Click {
                target: ClickTarget::Point {
                    x: args.x,
                    y: args.y,
                    button: named_button(view_of(args.button)),
                },
            }),
    {
        Command::Click {
            target: ClickTarget::Point {
                x: args.x,
                y: args.y,
                button: parse_button(&args.button),
            },
        }
    }

    /// Asks for a text to be typed into whatever has the focus.
    pub fn type_text(args: TypeTextArgs) -> (r: Command)
        ensures
            r == (Command::TypeText { text: args.text, into: None, paste: false }),
    {
        Command::TypeText { text: args.text, into: None, paste: false }
    }

    /// Plans the press of the chord at a position. Chords are read one at a time,
    /// so those before a bad one are pressed.
    pub fn press_key(args: &PressKeyArgs, at: usize) -> (r: Result<KeyStep, String>)
        requires
            at < args.keys@.len() || args.keys@.len() == 0,
        ensures
            match r {
                Ok(step) => args.keys@.len() > 0 && chord_step(
                    step,
                    args.keys@[at as int]@,
                    at + 1 == args.keys@.len(),
                ) && chord_error(chord_parts(args.keys@[at as int]@), 0) is None,
                Err(m) => if args.keys@.len() == 0 {
                    m@ == "keys must not be empty"@
                } else {
                    chord_error(chord_parts(args.keys@[at as int]@), 0) matches Some(e) && m@
                        == "invalid key chord '"@ + args.keys@[at as int]@ + "': "@ + e
                },
            },
    {
        if args.keys.len() == 0 {
            return Err("keys must not be empty".to_string());
        }
        let chord = args.keys[at].as_str();
        match parse_chord(chord) {
            Ok((modifiers, key)) => {
                let pause_ms: u64 = if at + 1 == args.keys.len() {
                    0
                } else {
                    16
                };
                Ok(KeyStep { command: Command::KeyChord { modifiers, key }, pause_ms })
            },
            Err(e) => {
                let mut m = text::join3("invalid key chord '", chord, "': ");
                m.append(e.as_str());
                Err(m)
            },
        }
    }

    /// Asks for a mouse action.
    pub fn mouse(args: MouseArgs) -> (r: Result<Command, String>)
        ensures
            match r {
                Ok(command) => described_action(args) matches Some(action) && command
                    == (Command::Mouse { action }),
                Err(m) => described_action(args) is None && m@ == "unknown mouse action: "@
                    + args.action@,
            },
    {
        let button = parse_button(&args.button);
        let name = args.action.as_str();
        let action = if text::same(name, "move") {
            MouseAction::Move { x: args.x, y: args.y }
        } else if text::same(name, "click") {
            let count: u32 = match args.count {
                Some(n) => n,
                None => 1,
            };
            MouseAction::Click { x: args.x, y: args.y, button, count }
        } else if text::same(name, "down") {
            MouseAction::Down { x: args.x, y: args.y, button }
        } else if text::same(name, "up") {
            MouseAction::Up { x: args.x, y: args.y, button }
        } else if text::same(name, "scroll") {
            MouseAction::Scroll { dx: args.x, dy: args.y }
        } else if text::same(name, "drag") {
            MouseAction::Drag {
                from_x: args.x,
                from_y: args.y,
                to_x: args.to_x,
                to_y: args.to_y,
                button,
            }
        } else {
            return Err(text::join2("unknown mouse action: ", name));
        };
        Ok(Command::Mouse { action })
    }

    /// Asks for the value of an element to be set.
    pub fn set_value(args: SetValueArgs) -> (r: Command)
        ensures
            r == (Command::SetValue { element: ElementId(args.element_id), value: args.value }),
    {
        Command::SetValue { element: ElementId(args.element_id), value: args.value }
    }

    /// Asks for an application to be launched.
    pub fn open_app(args: OpenAppArgs) -> (r: Command)
        ensures
            r == (Command::OpenApp { target: args.target, args: args.args, watch_ms: None }),
    {
        Command::OpenApp { target: args.target, args: args.args, watch_ms: None }
    }

    /// Shows a launch. Any other reply comes back.
    pub fn open_app_result(reply: Reply) -> (r: Result<String, Reply>)
        ensures
            match r {
                Ok(shown) => reply matches Reply::AppOpened { window, pid, .. } && shown@
                    == "launched pid="@ + number::decimal(pid as nat) + " window="@ + window_text(
                    window,
                ),
                Err(other) => !(reply is AppOpened) && other == reply,
            },
    {
        match reply {
            Reply::AppOpened { window, pid, .. } => {
                let mut shown = text::join3(
                    "launched pid=",
                    number::decimal_text(pid as u64).as_str(),
                    " window=",
                );
                shown.append(crate::cli::ui::window_label(window).as_str());
                Ok(shown)
            },
            other => Err(other),
        }
    }

    /// Asks for a range of a file.
    pub fn read_file(args: &ReadFileArgs) -> (r: Command)
        ensures
            r matches Command::ReadFile { path, offset, max_len } && path@ == args.path@ && offset
                == or_zero(args.offset) && max_len == or_zero(args.length),
    {
        Command::ReadFile {
            path: args.path.clone(),
            offset: zero_if_none(args.offset),
            max_len: zero_if_none(args.length),
        }
    }

    /// Shows the contents of a file, as base64 or as text. Any other reply comes
    /// back.
    pub fn read_file_result(reply: Reply, base64: Option<bool>) -> (r: Result<String, Reply>)
        ensures
            match r {
                Ok(shown) => reply matches Reply::FileContents(data) && shown@ == if base64 == Some(
                    true,
                ) {
                    radix64::base64(data@)
                } else {
                    text::lossy_text(data@)
                },
                Err(other) => !(reply is FileContents) && other == reply,
            },
    {
        match reply {
            Reply::FileContents(data) => {
                let encode = match base64 {
                    Some(b) => b,
                    None => false,
                };
                if encode {
                    Ok(radix64::to_base64(data.as_slice()))
                } else {
                    Ok(text::lossy(data.as_slice()))
                }
            },
            other => Err(other),
        }
    }

    /// Asks for bytes to be written: those of the base64 if there is one, else
    /// those of the text.
    pub fn write_file(args: WriteFileArgs) -> (r: Result<Command, String>)
        ensures
            match r {
                Ok(command) => command matches Command::WriteFile { path, contents, offset } && path
                    == args.path && offset == or_zero(args.offset) && match (
                    args.content_base64,
                    args.content,
                ) {
                    (Some(encoded), _) => encoded@ == radix64::base64(contents@),
                    (None, Some(content)) => contents@ == vstd::utf8::encode_utf8(content@),
                    (None, None) => false,
                },
                Err(m) => match (args.content_base64, args.content) {
                    (Some(encoded), _) => (forall|data: Seq<u8>| #[trigger]
                        radix64::base64(data) != encoded@) && exists|cause: Seq<char>| #[trigger]
                        ("invalid base64: "@ + cause) == m@,
                    (None, Some(_)) => false,
                    (None, None) => m@ == "provide `content` or `content_base64`"@,
                },
            },
    {
        let contents = match (args.content_base64, args.content) {
            (Some(encoded), _) => match radix64::from_base64(encoded.as_str()) {
                Ok(data) => data,
                Err(e) => {
                    let cause = e.to_string();
                    let m = text::join2("invalid base64: ", cause.as_str());
                    assert(m@ == "invalid base64: "@ + cause@);
                    return Err(m);
                },
            },
            (None, Some(content)) => content.as_str().as_bytes_vec(),
            (None, None) => {
                return Err("provide `content` or `content_base64`".to_string());
            },
        };
        Ok(Command::WriteFile { path: args.path, contents, offset: zero_if_none(args.offset) })
    }

    /// Shows an acknowledgement. Any other reply comes back.
    pub fn ack(reply: Reply) -> (r: Result<&'static str, Reply>)
        ensures
            match r {
                Ok(shown) => reply is Ack && shown@ == "ok"@,
                Err(other) => !(reply is Ack) && other == reply,
            },
    {
        match reply {
            Reply::Ack => Ok("ok"),
            other => Err(other),
        }
    }
}

/// Collecting goes by stream: an event of standard output is added to the collected
/// standard output and to nothing else, likewise standard error, and a note to
/// neither. Each is shown as it is.
pub proof fn law_events_are_collected_by_stream(
    collected: &mut Collected,
    event: Event,
    shown: String,
)
    requires
        call_ensures(Collected::absorb, (collected, event), shown),
    ensures
        event matches Event::Stdout { id, chunk } ==> final(collected).stdout@
            == old(collected).stdout@ + chunk@ && final(collected).stderr@
            == old(collected).stderr@ && shown@ == chunk@,
        event matches Event::Stderr { id, chunk } ==> final(collected).stderr@
            == old(collected).stderr@ + chunk@ && final(collected).stdout@
            == old(collected).stdout@ && shown@ == chunk@,
        event matches Event::Progress { id, message } ==> final(collected).stdout@
            == old(collected).stdout@ && final(collected).stderr@ == old(collected).stderr@ && shown@
            == message@,
{
}

/// A tool runs commands and scripts under PowerShell unless the other interpreter is
/// named, under the limit that is given, ten minutes if none is, and none if it is
/// zero; their output streams.
pub proof fn law_tool_runs_what_is_given(
    command: RunCommandArgs,
    script: RunScriptArgs,
    c: Command,
    s: Command,
)
    requires
        call_ensures(AgentRc::run_command, (command,), c),
        call_ensures(AgentRc::run_script, (script,), s),
    ensures
        c matches Command::RunCommand { shell, command: line, env, timeout_ms, stream } && {
            &&& line == command.command && env@.len() == 0 && stream
            &&& shell == Shell::Cmd <==> (command.shell matches Some(name) && name@ == "cmd"@)
            &&& shell == Shell::Cmd || shell == Shell::PowerShell
            &&& command.timeout_ms is None ==> timeout_ms == Some(600_000u64)
            &&& command.timeout_ms == Some(0u64) ==> timeout_ms is None
            &&& command.timeout_ms matches Some(ms) ==> (ms > 0 ==> timeout_ms == Some(ms))
        },
        s matches Command::RunScript { shell, content, args, env, timeout_ms, stream } && {
            &&& content == script.content && args == script.args && env@.len() == 0 && stream
            &&& shell == Shell::Cmd <==> (script.shell matches Some(name) && name@ == "cmd"@)
            &&& shell == Shell::Cmd || shell == Shell::PowerShell
            &&& script.timeout_ms is None ==> timeout_ms == Some(600_000u64)
            &&& script.timeout_ms == Some(0u64) ==> timeout_ms is None
            &&& script.timeout_ms matches Some(ms) ==> (ms > 0 ==> timeout_ms == Some(ms))
        },
{
}

/// What a tool shows of a run is the exit code, then standard output, then standard
/// error: each from the reply, or, where that is empty, as it was streamed. A run
/// without an exit code was killed.
pub proof fn law_run_is_shown_by_stream(
    stdout: String,
    stderr: String,
    exit_code: Option<i32>,
    streamed: Collected,
    r: Result<String, Reply>,
)
    requires
        call_ensures(
            AgentRc::stream_to_result,
            (Reply::CommandOutput { stdout, stderr, exit_code }, streamed),
            r,
        ),
    ensures
        r matches Ok(report) && report@ == "exit_code: "@ + (if exit_code is Some {
            number::signed(exit_code->0 as int)
        } else {
            "killed"@
        }) + "\n--- stdout ---\n"@ + (if stdout@.len() > 0 {
            stdout@
        } else {
            streamed.stdout@
        }) + "\n--- stderr ---\n"@ + (if stderr@.len() > 0 {
            stderr@
        } else {
            streamed.stderr@
        }),
{
}

/// A failure of the link makes the next request make a new one; one that the runner
/// reported does not. A link is there exactly once it was made.
pub proof fn law_broken_link_is_made_anew(
    server: &mut AgentRc,
    result: Result<Reply, ControllerError>,
    r: Result<Reply, String>,
)
    requires
        call_ensures(AgentRc::finish, (server, result), r),
        old(server).linked,
    ensures
        final(server).linked <==> result is Ok || (result matches Err(e) && e is Remote),
        r is Ok <==> result is Ok,
        r matches Ok(reply) ==> result == Ok::<Reply, ControllerError>(reply),
{
}

/// Only an attempt that succeeds makes a link, and one that fails is no worse than
/// before.
pub proof fn law_link_is_made_by_success(
    server: &mut AgentRc,
    outcome: Option<Result<(), ControllerError>>,
    r: Result<(), String>,
)
    requires
        call_ensures(AgentRc::connected, (server, outcome), r),
    ensures
        r is Ok <==> (outcome matches Some(o) && o is Ok),
        r is Ok ==> final(server).linked,
        r is Err ==> final(server).linked == old(server).linked,
{
}

/// A mouse tool does what its name says, at the point that is given, with the button
/// that is named, the left one if none is, and clicks once unless told otherwise; a
/// drag goes from the first point to the second.
pub proof fn law_mouse_tool(args: MouseArgs, r: Result<Command, String>)
    requires
        call_ensures(AgentRc::mouse, (args,), r),
    ensures
        ({
            let (x, y) = (args.x, args.y);
            &&& args.action@ == "move"@ ==> r == Ok::<Command, String>(
                Command::Mouse { action: MouseAction::Move { x, y } },
            )
            &&& args.action@ == "click"@ ==> (r matches Ok(
                Command::Mouse { action: MouseAction::Click { x: a, y: b, button, count } },
            ) && a == x && b == y && is_named(args.button, button) && (args.count matches Some(n)
                ==> count == n) && (args.count is None ==> count == 1))
            &&& args.action@ == "down"@ ==> (r matches Ok(
                Command::Mouse { action: MouseAction::Down { x: a, y: b, button } },
            ) && a == x && b == y && is_named(args.button, button))
            &&& args.action@ == "up"@ ==> (r matches Ok(
                Command::Mouse { action: MouseAction::Up { x: a, y: b, button } },
            ) && a == x && b == y && is_named(args.button, button))
            &&& args.action@ == "scroll"@ ==> r == Ok::<Command, String>(
                Command::Mouse { action: MouseAction::Scroll { dx: x, dy: y } },
            )
            &&& args.action@ == "drag"@ ==> (r matches Ok(
                Command::Mouse {
                    action: MouseAction::Drag { from_x, from_y, to_x, to_y, button },
                },
            ) && from_x == x && from_y == y && to_x == args.to_x && to_y == args.to_y && is_named(
                args.button,
                button,
            ))
            &&& r is Ok ==> args.action@ == "move"@ || args.action@ == "click"@ || args.action@
                == "down"@ || args.action@ == "up"@ || args.action@ == "scroll"@ || args.action@
                == "drag"@
        }),
{
    reveal_strlit("move");
    reveal_strlit("click");
    reveal_strlit("down");
    reveal_strlit("up");
    reveal_strlit("scroll");
    reveal_strlit("drag");
    assert("move"@.len() == 4 && "click"@.len() == 5 && "up"@.len() == 2 && "scroll"@.len() == 6);
    assert("down"@.len() == 4 && "drag"@.len() == 4);
    assert("move"@[0] != "down"@[0] && "move"@[0] != "drag"@[0] && "down"@[1] != "drag"@[1]);
    lemma_button_names();
}

/// Whether this is the button of that name: the left one without a name that is
/// known.
pub open spec fn is_named(name: Option<String>, button: MouseButton) -> bool {
    &&& button is Right <==> (name matches Some(n) && n@ == "right"@)
    &&& button is Middle <==> (name matches Some(n) && n@ == "middle"@)
}

proof fn lemma_button_names()
    ensures
        "right"@ != "middle"@,
{
    reveal_strlit("right");
    reveal_strlit("middle");
    assert("right"@.len() == 5 && "middle"@.len() == 6);
}

/// A click at a point is at that point, with the button that is named; one on an
/// element is on that element.
pub proof fn law_click_tools(point: ClickPointArgs, element: ClickElementArgs, p: Command, e: Command)
    requires
        call_ensures(AgentRc::click_point, (point,), p),
        call_ensures(AgentRc::click_element, (element,), e),
    ensures
        p matches Command::Click { target: ClickTarget::Point { x, y, button } } && x == point.x && y
            == point.y && is_named(point.button, button),
        e == (Command::Click { target: ClickTarget::Element(ElementId(element.element_id)) }),
{
    lemma_button_names();
}

/// A chord is pressed as it reads, with a pause unless it is the last; one that cannot
/// be read is refused.
pub proof fn law_key_tool_presses_chords(
    args: &PressKeyArgs,
    at: usize,
    chord: &str,
    read: Result<(Vec<crate::proto::wire::Modifier>, crate::proto::wire::Key), String>,
    r: Result<KeyStep, String>,
)
    requires
        at < args.keys@.len(),
        chord@ == args.keys@[at as int]@,
        parse_chord.ensures((chord,), read),
        call_ensures(AgentRc::press_key, (args, at), r),
    ensures
        r is Ok <==> read is Ok,
        r matches Ok(step) ==> (step.command matches Command::KeyChord { modifiers, key }
            && modifiers@ == (read->Ok_0).0@ && key == (read->Ok_0).1) && (step.pause_ms == 0 <==> at
            + 1 == args.keys@.len()),
{
    if let Ok(step) = r {
        let parts = chord_parts(chord@);
        let (mine, theirs) = (step.command->modifiers@, (read->Ok_0).0@);
        assert forall|k: int| 0 <= k < mine.len() implies mine[k] == theirs[k] by {
            assert(crate::proto::wire::modifier_named(text::lowercase(parts[k])) == Some(mine[k]));
            assert(crate::proto::wire::modifier_named(text::lowercase(parts[k])) == Some(theirs[k]));
        }
        assert(mine =~= theirs);
    }
}

/// Tools ask the runner for what the command line asks it for.
pub proof fn law_tools_ask_as_commands_do(
    find: FindElementsArgs,
    list: ListElementsArgs,
    click: ClickElementArgs,
    set: SetValueArgs,
    typing: TypeTextArgs,
    open: OpenAppArgs,
    f: Command,
    l: Command,
    c: Command,
    s: Command,
    t: Command,
    o: Command,
)
    requires
        call_ensures(AgentRc::find_elements, (find,), f),
        call_ensures(AgentRc::list_elements, (list,), l),
        call_ensures(AgentRc::click_element, (click,), c),
        call_ensures(AgentRc::set_value, (set,), s),
        call_ensures(AgentRc::type_text, (typing,), t),
        call_ensures(AgentRc::open_app, (open,), o),
    ensures
        f matches Command::FindElements { window, query, wait_ms } && window.0 == find.window
            && wait_ms == find.wait_ms && query.name == find.name && query.name_contains
            == find.name_contains && query.automation_id == find.automation_id
            && query.control_type == find.control_type && query.actionable_only
            == find.actionable_only,
        l == (Command::ListElements { window: WindowId(list.window) }),
        c == (Command::Click { target: ClickTarget::Element(ElementId(click.element_id)) }),
        s == (Command::SetValue { element: ElementId(set.element_id), value: set.value }),
        t == (Command::TypeText { text: typing.text, into: None, paste: false }),
        o == (Command::OpenApp { target: open.target, args: open.args, watch_ms: None }),
{
}

/// A capture tool captures an element if one is named, else a window if one is, else
/// the whole screen; what it shows is the image's bytes, under its own media type.
pub proof fn law_capture_tool(
    args: ScreenshotArgs,
    image: crate::proto::wire::Image,
    c: Command,
    r: Result<(String, &'static str), Reply>,
)
    requires
        call_ensures(AgentRc::screenshot, (args,), c),
        call_ensures(AgentRc::screenshot_result, (Reply::Image(image),), r),
    ensures
        c matches Command::Screenshot { target, settle_ms, .. } && settle_ms is None && {
            &&& args.element matches Some(id) ==> target == CaptureTarget::Element(ElementId(id))
            &&& args.element is None && args.window is Some ==> target == CaptureTarget::Window(
                WindowId(args.window->0),
            )
            &&& args.element is None && args.window is None ==> target is FullScreen
        },
        r matches Ok(shown) && shown.0@ == radix64::base64(image.data@) && (shown.1@ == "image/png"@
            <==> image.format == ImageFormat::Png) && (shown.1@ == "image/webp"@ <==> image.format
            == ImageFormat::Webp),
{
    reveal_strlit("image/png");
    reveal_strlit("image/webp");
    assert("image/png"@.len() == 9 && "image/webp"@.len() == 10);
}

/// Writing what a tool read of a file, as base64, writes the bytes that were read, at
/// the offset that is given, and at the start if none is. A text is written as it is.
pub proof fn law_file_tools_round_trip(
    read: &ReadFileArgs,
    data: Vec<u8>,
    request: Command,
    shown: Result<String, Reply>,
    write: WriteFileArgs,
    r: Result<Command, String>,
)
    requires
        call_ensures(AgentRc::read_file, (read,), request),
        call_ensures(AgentRc::read_file_result, (Reply::FileContents(data), Some(true)), shown),
        call_ensures(AgentRc::write_file, (write,), r),
    ensures
        request matches Command::ReadFile { path, offset, max_len } && path@ == read.path@ && (
        read.offset matches Some(o) ==> offset == o) && (read.offset is None ==> offset == 0) && (
        read.length matches Some(n) ==> max_len == n) && (read.length is None ==> max_len == 0),
        shown is Ok,
        write.content_base64 matches Some(b) ==> (b@ == shown->Ok_0@ ==> (r matches Ok(
            Command::WriteFile { path, contents, offset },
        ) && contents@ == data@ && path == write.path && (write.offset matches Some(o) ==> offset
            == o) && (write.offset is None ==> offset == 0))),
        write.content_base64 is None ==> (write.content matches Some(t) ==> (r matches Ok(
            Command::WriteFile { path, contents, offset },
        ) && contents@ == vstd::utf8::encode_utf8(t@) && path == write.path && (
        write.offset matches Some(o) ==> offset == o) && (write.offset is None ==> offset == 0))),
        write.content_base64 is None && write.content is None ==> r is Err,
{
    if let Some(b) = write.content_base64 {
        if b@ == shown->Ok_0@ {
            assert(radix64::base64(data@) == b@);
            if let Ok(command) = r {
                let contents = command->contents@;
                radix64::law_base64_is_faithful(contents, data@);
            }
        }
    }
}

/// A shell is the legacy one only if it is called `cmd`; a limit is kept, zero lifts
/// it, and without one a command may run for ten minutes.
pub proof fn law_tool_defaults(
    shell: &Option<String>,
    of_shell: Shell,
    timeout_ms: Option<u64>,
    of_timeout: Option<u64>,
)
    requires
        parse_shell.ensures((shell,), of_shell),
        clamp_timeout.ensures((timeout_ms,), of_timeout),
    ensures
        of_shell == Shell::Cmd <==> (*shell matches Some(s) && s@ == "cmd"@),
        of_shell != Shell::Cmd ==> of_shell == Shell::PowerShell,
        timeout_ms is None ==> of_timeout == Some(600_000u64),
        timeout_ms == Some(0u64) ==> of_timeout is None,
        timeout_ms matches Some(ms) ==> (ms > 0 ==> of_timeout == Some(ms)),
{
}

/// A text is replaced by the placeholder exactly if there is nothing in it.
pub proof fn law_placeholder_fills_the_blank(text: String, placeholder: &str, r: String)
    requires
        blank_as.ensures((text, placeholder), r),
    ensures
        text@.len() == 0 ==> r@ == placeholder@,
        text@.len() > 0 ==> r@ == text@,
{
}

} // verus!
