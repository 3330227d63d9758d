//! The command line: what a user asked for, and what it amounts to.

use vstd::prelude::*;

use crate::proto::id::{ElementId, WindowId};
use crate::proto::wire::{
    ClickTarget, Command, ElementQuery, MouseAction, MouseButton, Reply,
};

verus! {

/// A whole invocation.
pub struct Cli {
    /// Named target from the config file.
    pub target: Option<String>,
    /// Relay URL.
    pub relay: Option<String>,
    /// Address of a directly reachable runner.
    pub direct: Option<String>,
    /// Session id.
    pub session: Option<String>,
    /// Pairing code.
    pub pairing: Option<String>,
    /// Serve tool calls over standard input and output.
    pub mcp: bool,
    /// The command, if any.
    pub command: Option<Cmd>,
}

/// A command of the command line.
pub enum Cmd {
    /// Run a shell command; output streams live.
    Shell {
        /// Use `cmd.exe` instead of PowerShell.
        cmd: bool,
        /// Seconds before the runner kills it.
        timeout: Option<u64>,
        /// `KEY=VALUE` pairs.
        env: Vec<String>,
        /// File with `KEY=VALUE` lines.
        env_file: Option<String>,
        /// The command and its arguments.
        args: Vec<String>,
    },
    /// Run a local script on the runner.
    Run {
        /// Script file, or `-` for standard input.
        script: String,
        /// Interpreter.
        lang: Option<String>,
        /// Return at once, with output going to a log.
        detach: bool,
        /// Seconds before the runner kills it.
        timeout: Option<u64>,
        /// `KEY=VALUE` pairs.
        env: Vec<String>,
        /// File with `KEY=VALUE` lines.
        env_file: Option<String>,
        /// Arguments of the script.
        args: Vec<String>,
    },
    /// Send a file or directory to the runner.
    Push {
        /// Local path.
        local: String,
        /// Path on the runner.
        remote: String,
        /// Delete remote files that are not present locally.
        delete: bool,
        /// Only show what would happen.
        dry_run: bool,
        /// Transfer files that already match too.
        whole: bool,
        /// Include ignored files and build directories.
        no_ignore: bool,
    },
    /// Fetch a file or directory from the runner.
    Pull {
        /// Path on the runner.
        remote: String,
        /// Local path.
        local: String,
        /// Delete local files that are not present on the runner.
        delete: bool,
        /// Only show what would happen.
        dry_run: bool,
        /// Transfer files that already match too.
        whole: bool,
        /// Include build directories.
        no_ignore: bool,
        /// Keep pulling until interrupted.
        watch: bool,
        /// Seconds between polls.
        interval: u64,
    },
    /// Push a directory on every save.
    Watch {
        /// Local directory.
        local: String,
        /// Directory on the runner.
        remote: String,
        /// Command to run after each sync.
        on_change: Option<String>,
        /// Include ignored files and build directories.
        no_ignore: bool,
    },
    /// Print a remote file.
    Cat {
        /// Path on the runner.
        remote: String,
    },
    /// List remote processes.
    Ps {
        /// Part of the name.
        pattern: Option<String>,
        /// Sample processor use.
        cpu: bool,
    },
    /// Report the runner's account.
    Whoami,
    /// Self-check.
    Doctor,
    /// Report what the runner can do.
    Capabilities,
    /// Forward a local port to the runner.
    Forward {
        /// Ports, and optionally a host.
        spec: String,
    },
    /// Kill a remote process.
    Kill {
        /// Pid or name.
        process: String,
        /// Only list the matches.
        dry_run: bool,
    },
    /// Dump a process and fetch the dump.
    Procdump {
        /// The process.
        pid: u32,
        /// Local output file.
        out: Option<String>,
    },
    /// Print the end of a remote file.
    Tail {
        /// Path on the runner.
        remote: String,
        /// How many lines.
        lines: u64,
        /// Keep streaming new lines.
        follow: bool,
    },
    /// Screenshot to a file.
    Screencap {
        /// Output file.
        out: String,
        /// Only this window.
        window: Option<u64>,
        /// Only this element.
        element: Option<String>,
        /// Image to compare with.
        baseline: Option<String>,
        /// Where to write the difference.
        diff: Option<String>,
        /// Bits of the percentage of pixels that may differ.
        threshold_bits: u64,
    },
    /// Launch or find a window, wait for it to render, and screenshot it.
    Shot {
        /// Output file.
        out: String,
        /// Part of a title or process name.
        app: Option<String>,
        /// Exact window.
        window: Option<u64>,
        /// Executable to launch first.
        launch: Option<String>,
        /// Most seconds to wait.
        wait: u64,
    },
    /// List top-level windows.
    Windows {
        /// Structured output.
        json: bool,
        /// Part of a title or process name.
        filter: Option<String>,
    },
    /// List the elements of a window.
    Elements {
        /// The window.
        window: u64,
        /// Structured output.
        json: bool,
    },
    /// Find elements by attribute.
    Find {
        /// The window.
        window: u64,
        /// Accessible name.
        name: Option<String>,
        /// The name is a part.
        contains: bool,
        /// App-assigned identifier.
        automation_id: Option<String>,
        /// Control type.
        control_type: Option<String>,
        /// Only enabled, on-screen elements.
        actionable: bool,
        /// Structured output.
        json: bool,
    },
    /// Wait until a matching element appears.
    Wait {
        /// The window.
        window: u64,
        /// Accessible name.
        name: Option<String>,
        /// The name is a part.
        contains: bool,
        /// App-assigned identifier.
        automation_id: Option<String>,
        /// Control type.
        control_type: Option<String>,
        /// Only enabled, on-screen elements.
        actionable: bool,
        /// Seconds before giving up.
        timeout: u64,
        /// Structured output.
        json: bool,
    },
    /// Launch an application.
    Open {
        /// Milliseconds to watch for an early exit.
        watch: Option<u64>,
        /// Path or name.
        app: String,
        /// Arguments.
        args: Vec<String>,
    },
    /// Bring a window to the foreground.
    Activate {
        /// The window.
        window: u64,
    },
    /// Click an element.
    Click {
        /// The element.
        element_id: String,
    },
    /// Read an element's text.
    Read {
        /// The element.
        element_id: String,
    },
    /// Type text.
    Type {
        /// The text.
        text: String,
        /// Element to focus first.
        into: Option<String>,
        /// Paste from the clipboard.
        paste: bool,
    },
    /// Press key chords in order.
    Key {
        /// The chords.
        chords: Vec<String>,
        /// Element to focus first.
        into: Option<String>,
    },
    /// Inject a mouse action.
    Mouse {
        /// The action.
        action: MouseCmd,
    },
    /// Set an element's value.
    SetValue {
        /// The element.
        element_id: String,
        /// New value.
        value: String,
    },
    /// Read or write the clipboard.
    Clip {
        /// What to do.
        action: ClipCmd,
    },
    /// Print the command reference.
    AgentsMd,
}

/// Clipboard actions.
pub enum ClipCmd {
    /// Print the remote clipboard.
    Get,
    /// Set the remote clipboard.
    Put {
        /// New text, or `-` for standard input.
        text: String,
    },
}

/// Mouse actions; coordinates are virtual-desktop pixels.
#[derive(Debug, Clone, Copy, PartialEq, Eq, Structural)]
pub enum MouseCmd {
    /// Move the cursor.
    Move {
        /// X.
        x: i32,
        /// Y.
        y: i32,
    },
    /// Move and click.
    Click {
        /// X.
        x: i32,
        /// Y.
        y: i32,
        /// Button.
        button: ArcButton,
        /// Number of clicks.
        count: u32,
    },
    /// Move and press.
    Down {
        /// X.
        x: i32,
        /// Y.
        y: i32,
        /// Button.
        button: ArcButton,
    },
    /// Move and release.
    Up {
        /// X.
        x: i32,
        /// Y.
        y: i32,
        /// Button.
        button: ArcButton,
    },
    /// Scroll by notches.
    Scroll {
        /// Horizontal.
        dx: i32,
        /// Vertical.
        dy: i32,
    },
    /// Press, move, release.
    Drag {
        /// Start X.
        from_x: i32,
        /// Start Y.
        from_y: i32,
        /// End X.
        to_x: i32,
        /// End Y.
        to_y: i32,
        /// Button.
        button: ArcButton,
    },
}

/// Mouse-button selector of the command line.
#[derive(Debug, Clone, Copy, PartialEq, Eq, Structural)]
pub enum ArcButton {
    /// Left.
    Left,
    /// Right.
    Right,
    /// Middle.
    Middle,
}

impl ArcButton {
    /// The button it selects.
    pub open spec fn selected(self) -> MouseButton {
        match self {
            ArcButton::Left => MouseButton::Left,
            ArcButton::Right => MouseButton::Right,
            ArcButton::Middle => MouseButton::Middle,
        }
    }

    /// The button it selects.
    pub fn into_button(self) -> (r: MouseButton)
        ensures
            r == self.selected(),
    {
        match self {
            ArcButton::Left => MouseButton::Left,
            ArcButton::Right => MouseButton::Right,
            ArcButton::Middle => MouseButton::Middle,
        }
    }
}

impl MouseCmd {
    /// The action it asks for.
    pub open spec fn action(self) -> MouseAction {
        match self {
            MouseCmd::Move { x, y } => MouseAction::Move { x, y },
            MouseCmd::Click { x, y, button, count } => MouseAction::Click {
                x,
                y,
                button: button.selected(),
                count,
            },
            MouseCmd::Down { x, y, button } =>
            MouseAction::Down { x, y, button: button.selected() },
            MouseCmd::Up { x, y, button } => MouseAction::Up { x, y, button: button.selected() },
            MouseCmd::Scroll { dx, dy } => MouseAction::Scroll { dx, dy },
            MouseCmd::Drag { from_x, from_y, to_x, to_y, button } => MouseAction::Drag {
                from_x,
                from_y,
                to_x,
                to_y,
                button: button.selected(),
            },
        }
    }

    /// The action it asks for.
    pub fn into_action(self) -> (r: MouseAction)
        ensures
            r == self.action(),
    {
        match self {
            MouseCmd::Move { x, y } => MouseAction::Move { x, y },
            MouseCmd::Click { x, y, button, count } => MouseAction::Click {
                x,
                y,
                button: button.into_button(),
                count,
            },
            MouseCmd::Down { x, y, button } => MouseAction::Down {
                x,
                y,
                button: button.into_button(),
            },
            MouseCmd::Up { x, y, button } => MouseAction::Up { x, y, button: button.into_button() },
            MouseCmd::Scroll { dx, dy } => MouseAction::Scroll { dx, dy },
            MouseCmd::Drag { from_x, from_y, to_x, to_y, button } => MouseAction::Drag {
                from_x,
                from_y,
                to_x,
                to_y,
                button: button.into_button(),
            },
        }
    }
}

/// What is done with the reply to a single request.
#[derive(Debug, Clone, Copy, PartialEq, Eq, Structural)]
pub enum Expect {
    /// An acknowledgement, with nothing to print.
    Ack,
    /// A text, printed as one line.
    TextLine,
    /// A text, printed as it is.
    Text,
    /// Elements, printed one per row or as structured records.
    Elements {
        /// Structured output.
        json: bool,
    },
    /// Processes, printed as a table.
    Processes {
        /// With processor use.
        cpu: bool,
    },
    /// Labelled lines of identity.
    Identity,
    /// A launched application.
    Launched,
}

/// What an invocation comes to. All but the reference need a configuration.
pub enum Launch {
    /// Print the command reference, without configuration or connection.
    Reference,
    /// Serve tool calls; connects on the first one.
    Serve,
    /// There is nothing to do: say so.
    Missing,
    /// Forward a port; every connection has a session of its own.
    Forward {
        /// Ports, and optionally a host.
        spec: String,
    },
    /// Connect, send one request, and treat the reply.
    Ask {
        /// The request.
        command: Command,
        /// What is done with the reply.
        expect: Expect,
    },
    /// Connect, send one request for windows, and print those that pass.
    ListWindows {
        /// Structured output.
        json: bool,
        /// Part of a title or process name.
        filter: Option<String>,
    },
    /// Connect, kill, and report.
    Kill {
        /// Pid or name.
        process: String,
        /// Only list the matches.
        dry_run: bool,
    },
    /// Connect and work through several requests.
    Work(Job),
}

/// Work of several requests, or around files of this machine.
pub enum Job {
    /// Run a shell command; output streams live.
    Shell {
        /// Use `cmd.exe` instead of PowerShell.
        cmd: bool,
        /// Seconds before the runner kills it.
        timeout: Option<u64>,
        /// `KEY=VALUE` pairs.
        env: Vec<String>,
        /// File with `KEY=VALUE` lines.
        env_file: Option<String>,
        /// The command and its arguments.
        args: Vec<String>,
    },
    /// Run a local script on the runner.
    Run {
        /// Script file, or `-` for standard input.
        script: String,
        /// Interpreter.
        lang: Option<String>,
        /// Return at once, with output going to a log.
        detach: bool,
        /// Seconds before the runner kills it.
        timeout: Option<u64>,
        /// `KEY=VALUE` pairs.
        env: Vec<String>,
        /// File with `KEY=VALUE` lines.
        env_file: Option<String>,
        /// Arguments of the script.
        args: Vec<String>,
    },
    /// Send a file or directory to the runner.
    Push {
        /// Local path.
        local: String,
        /// Path on the runner.
        remote: String,
        /// Delete remote files that are not present locally.
        delete: bool,
        /// Only show what would happen.
        dry_run: bool,
        /// Transfer files that already match too.
        whole: bool,
        /// Include ignored files and build directories.
        no_ignore: bool,
    },
    /// Fetch a file or directory from the runner.
    Pull {
        /// Path on the runner.
        remote: String,
        /// Local path.
        local: String,
        /// Delete local files that are not present on the runner.
        delete: bool,
        /// Only show what would happen.
        dry_run: bool,
        /// Transfer files that already match too.
        whole: bool,
        /// Include build directories.
        no_ignore: bool,
        /// Keep pulling until interrupted.
        watch: bool,
        /// Seconds between polls.
        interval: u64,
    },
    /// Push a directory on every save.
    Watch {
        /// Local directory.
        local: String,
        /// Directory on the runner.
        remote: String,
        /// Command to run after each sync.
        on_change: Option<String>,
        /// Include ignored files and build directories.
        no_ignore: bool,
    },
    /// Print a remote file.
    Cat {
        /// Path on the runner.
        remote: String,
    },
    /// Self-check.
    Doctor,
    /// Report what the runner can do.
    Capabilities,
    /// Dump a process and fetch the dump.
    Procdump {
        /// The process.
        pid: u32,
        /// Local output file.
        out: Option<String>,
    },
    /// Print the end of a remote file.
    Tail {
        /// Path on the runner.
        remote: String,
        /// How many lines.
        lines: u64,
        /// Keep streaming new lines.
        follow: bool,
    },
    /// Screenshot to a file.
    Screencap {
        /// Output file.
        out: String,
        /// Only this window.
        window: Option<u64>,
        /// Only this element.
        element: Option<String>,
        /// Image to compare with.
        baseline: Option<String>,
        /// Where to write the difference.
        diff: Option<String>,
        /// Bits of the percentage of pixels that may differ.
        threshold_bits: u64,
    },
    /// Launch or find a window, wait for it to render, and screenshot it.
    Shot {
        /// Output file.
        out: String,
        /// Part of a title or process name.
        app: Option<String>,
        /// Exact window.
        window: Option<u64>,
        /// Executable to launch first.
        launch: Option<String>,
        /// Most seconds to wait.
        wait: u64,
    },
    /// Press key chords in order.
    Key {
        /// The chords.
        chords: Vec<String>,
        /// Element to focus first.
        into: Option<String>,
    },
    /// Set the clipboard.
    ClipSet {
        /// New text, or `-` for standard input.
        text: String,
    },
}

/// Seconds as milliseconds, at most the largest number.
pub open spec fn millis(seconds: u64) -> u64 {
    if seconds * 1000 > u64::MAX {
        u64::MAX
    } else {
        (seconds * 1000) as u64
    }
}

/// Seconds as milliseconds, saturating.
pub fn to_millis(seconds: u64) -> (r: u64)
    ensures
        r == millis(seconds),
{
    if seconds > u64::MAX / 1000 {
        u64::MAX
    } else {
        seconds * 1000
    }
}

/// The element that a text names.
pub open spec fn elements_of(text: Option<String>) -> Option<ElementId> {
    match text {
        Some(t) => Some(ElementId(t)),
        None => None,
    }
}

fn into_element(text: Option<String>) -> (r: Option<ElementId>)
    ensures
        r == elements_of(text),
{
    match text {
        Some(t) => Some(ElementId(t)),
        None => None,
    }
}

/// What one command comes to.
pub open spec fn purpose(command: Cmd) -> Launch {
    match command {
        Cmd::Shell { cmd, timeout, env, env_file, args } =>
        Launch::Work(Job::Shell { cmd, timeout, env, env_file, args }),
        Cmd::Run { script, lang, detach, timeout, env, env_file, args } =>
        Launch::Work(Job::Run { script, lang, detach, timeout, env, env_file, args }),
        Cmd::Push { local, remote, delete, dry_run, whole, no_ignore } =>
        Launch::Work(Job::Push { local, remote, delete, dry_run, whole, no_ignore }),
        Cmd::Pull { remote, local, delete, dry_run, whole, no_ignore, watch, interval } =>
        Launch::Work(
            Job::Pull { remote, local, delete, dry_run, whole, no_ignore, watch, interval },
        ),
        Cmd::Watch { local, remote, on_change, no_ignore } =>
        Launch::Work(Job::Watch { local, remote, on_change, no_ignore }),
        Cmd::Cat { remote } => Launch::Work(Job::Cat { remote }),
        Cmd::Doctor => Launch::Work(Job::Doctor),
        Cmd::Capabilities => Launch::Work(Job::Capabilities),
        Cmd::Procdump { pid, out } => Launch::Work(Job::Procdump { pid, out }),
        Cmd::Tail { remote, lines, follow } => Launch::Work(Job::Tail { remote, lines, follow }),
        Cmd::Screencap { out, window, element, baseline, diff, threshold_bits } =>
        Launch::Work(Job::Screencap { out, window, element, baseline, diff, threshold_bits }),
        Cmd::Shot { out, app, window, launch, wait } =>
        Launch::Work(Job::Shot { out, app, window, launch, wait }),
        Cmd::Key { chords, into } => Launch::Work(Job::Key { chords, into }),
        Cmd::Forward { spec } => Launch::Forward { spec },
        Cmd::Ps { pattern, cpu } => Launch::Ask {
            command: Command::ListProcesses { filter: pattern, with_cpu: cpu },
            expect: Expect::Processes { cpu },
        },
        Cmd::Whoami => Launch::Ask { command: Command::Identity, expect: Expect::Identity },
        Cmd::Kill { process, dry_run } => Launch::Kill { process, dry_run },
        Cmd::Windows { json, filter } => Launch::ListWindows { json, filter },
        Cmd::Elements { window, json } => Launch::Ask {
            command: Command::ListElements { window: WindowId(window) },
            expect: Expect::Elements { json },
        },
        Cmd::Find { window, name, contains, automation_id, control_type, actionable, json } =>
        Launch::Ask {
            command: Command::FindElements {
                window: WindowId(window),
                query: ElementQuery {
                    name,
                    name_contains: contains,
                    automation_id,
                    control_type,
                    actionable_only: actionable,
                },
                wait_ms: None,
            },
            expect: Expect::Elements { json },
        },
        Cmd::Wait {
            window,
            name,
            contains,
            automation_id,
            control_type,
            actionable,
            timeout,
            json,
        } => Launch::Ask {
            command: Command::FindElements {
                window: WindowId(window),
                query: ElementQuery {
                    name,
                    name_contains: contains,
                    automation_id,
                    control_type,
                    actionable_only: actionable,
                },
                wait_ms: Some(millis(timeout)),
            },
            expect: Expect::Elements { json },
        },
        Cmd::Open { watch, app, args } => Launch::Ask {
            command: Command::OpenApp { target: app, args, watch_ms: watch },
            expect: Expect::Launched,
        },
        Cmd::Activate { window } => Launch::Ask {
            command: Command::ActivateWindow { window: WindowId(window) },
            expect: Expect::Ack,
        },
        Cmd::Click { element_id } => Launch::Ask {
            command: Command::Click { target: ClickTarget::Element(ElementId(element_id)) },
            expect: Expect::Ack,
        },
        Cmd::Read { element_id } => Launch::Ask {
            command: Command::ReadElement { element: ElementId(element_id) },
            expect: Expect::TextLine,
        },
        Cmd::Type { text, into, paste } => Launch::Ask {
            command: Command::TypeText { text, into: elements_of(into), paste },
            expect: Expect::Ack,
        },
        Cmd::Mouse { action } =>
        Launch::Ask { command: Command::Mouse { action: action.action() }, expect: Expect::Ack },
        Cmd::SetValue { element_id, value } => Launch::Ask {
            command: Command::SetValue { element: ElementId(element_id), value },
            expect: Expect::Ack,
        },
        Cmd::Clip { action: ClipCmd::Get } =>
        Launch::Ask { command: Command::ClipboardGet, expect: Expect::Text },
        Cmd::Clip { action: ClipCmd::Put { text } } => Launch::Work(Job::ClipSet { text }),
        Cmd::AgentsMd => Launch::Reference,
    }
}

/// What an invocation comes to. The reference needs nothing else; serving tool
/// calls takes precedence over a command; without either there is nothing to do.
pub open spec fn intent(mcp: bool, command: Option<Cmd>) -> Launch {
    if command matches Some(Cmd::AgentsMd) {
        Launch::Reference
    } else if mcp {
        Launch::Serve
    } else {
        match command {
            Some(c) => purpose(c),
            None => Launch::Missing,
        }
    }
}

fn classify(command: Cmd) -> (r: Launch)
    ensures
        r == purpose(command),
{
    match command {
        Cmd::Shell { cmd, timeout, env, env_file, args } =>
        Launch::Work(Job::Shell { cmd, timeout, env, env_file, args }),
        Cmd::Run { script, lang, detach, timeout, env, env_file, args } =>
        Launch::Work(Job::Run { script, lang, detach, timeout, env, env_file, args }),
        Cmd::Push { local, remote, delete, dry_run, whole, no_ignore } =>
        Launch::Work(Job::Push { local, remote, delete, dry_run, whole, no_ignore }),
        Cmd::Pull { remote, local, delete, dry_run, whole, no_ignore, watch, interval } =>
        Launch::Work(
            Job::Pull { remote, local, delete, dry_run, whole, no_ignore, watch, interval },
        ),
        Cmd::Watch { local, remote, on_change, no_ignore } =>
        Launch::Work(Job::Watch { local, remote, on_change, no_ignore }),
        Cmd::Cat { remote } => Launch::Work(Job::Cat { remote }),
        Cmd::Doctor => Launch::Work(Job::Doctor),
        Cmd::Capabilities => Launch::Work(Job::Capabilities),
        Cmd::Procdump { pid, out } => Launch::Work(Job::Procdump { pid, out }),
        Cmd::Tail { remote, lines, follow } => Launch::Work(Job::Tail { remote, lines, follow }),
        Cmd::Screencap { out, window, element, baseline, diff, threshold_bits } =>
        Launch::Work(Job::Screencap { out, window, element, baseline, diff, threshold_bits }),
        Cmd::Shot { out, app, window, launch, wait } =>
        Launch::Work(Job::Shot { out, app, window, launch, wait }),
        Cmd::Key { chords, into } => Launch::Work(Job::Key { chords, into }),
        Cmd::Forward { spec } => Launch::Forward { spec },
        Cmd::Ps { pattern, cpu } => Launch::Ask {
            command: Command::ListProcesses { filter: pattern, with_cpu: cpu },
            expect: Expect::Processes { cpu },
        },
        Cmd::Whoami => Launch::Ask { command: Command::Identity, expect: Expect::Identity },
        Cmd::Kill { process, dry_run } => Launch::Kill { process, dry_run },
        Cmd::Windows { json, filter } => Launch::ListWindows { json, filter },
        Cmd::Elements { window, json } => Launch::Ask {
            command: Command::ListElements { window: WindowId(window) },
            expect: Expect::Elements { json },
        },
        Cmd::Find { window, name, contains, automation_id, control_type, actionable, json } =>
        Launch::Ask {
            command: Command::FindElements {
                window: WindowId(window),
                query: ElementQuery {
                    name,
                    name_contains: contains,
                    automation_id,
                    control_type,
                    actionable_only: actionable,
                },
                wait_ms: None,
            },
            expect: Expect::Elements { json },
        },
        Cmd::Wait {
            window,
            name,
            contains,
            automation_id,
            control_type,
            actionable,
            timeout,
            json,
        } => Launch::Ask {
            command: Command::FindElements {
                window: WindowId(window),
                query: ElementQuery {
                    name,
                    name_contains: contains,
                    automation_id,
                    control_type,
                    actionable_only: actionable,
                },
                wait_ms: Some(to_millis(timeout)),
            },
            expect: Expect::Elements { json },
        },
        Cmd::Open { watch, app, args } => Launch::Ask {
            command: Command::OpenApp { target: app, args, watch_ms: watch },
            expect: Expect::Launched,
        },
        Cmd::Activate { window } => Launch::Ask {
            command: Command::ActivateWindow { window: WindowId(window) },
            expect: Expect::Ack,
        },
        Cmd::Click { element_id } => Launch::Ask {
            command: Command::Click { target: ClickTarget::Element(ElementId(element_id)) },
            expect: Expect::Ack,
        },
        Cmd::Read { element_id } => Launch::Ask {
            command: Command::ReadElement { element: ElementId(element_id) },
            expect: Expect::TextLine,
        },
        Cmd::Type { text, into, paste } => Launch::Ask {
            command: Command::TypeText { text, into: into_element(into), paste },
            expect: Expect::Ack,
        },
        Cmd::Mouse { action } => Launch::Ask {
            command: Command::Mouse { action: action.into_action() },
            expect: Expect::Ack,
        },
        Cmd::SetValue { element_id, value } => Launch::Ask {
            command: Command::SetValue { element: ElementId(element_id), value },
            expect: Expect::Ack,
        },
        Cmd::Clip { action: ClipCmd::Get } =>
        Launch::Ask { command: Command::ClipboardGet, expect: Expect::Text },
        Cmd::Clip { action: ClipCmd::Put { text } } => Launch::Work(Job::ClipSet { text }),
        Cmd::AgentsMd => Launch::Reference,
    }
}

/// Works out what an invocation comes to.
pub fn run(mcp: bool, command: Option<Cmd>) -> (r: Launch)
    ensures
        r == intent(mcp, command),
{
    match command {
        Some(Cmd::AgentsMd) => Launch::Reference,
        Some(c) => {
            if mcp {
                Launch::Serve
            } else {
                classify(c)
            }
        },
        None => {
            if mcp {
                Launch::Serve
            } else {
                Launch::Missing
            }
        },
    }
}

/// What is said when there is nothing to do.
pub fn missing_command() -> (r: String)
    ensures
        r@ == "no command — see `arc --help`, or pass `--mcp` to run as an MCP server"@,
{
    "no command — see `arc --help`, or pass `--mcp` to run as an MCP server".to_owned()
}

/// Accepts an acknowledgement, and hands any other reply back.
pub fn ack(reply: Reply) -> (r: Result<(), Reply>)
    ensures
        r == (if reply is Ack {
            Ok::<(), Reply>(())
        } else {
            Err::<(), Reply>(reply)
        }),
{
    match reply {
        Reply::Ack => Ok(()),
        other => Err(other),
    }
}

/// Accepts a text, and hands any other reply back.
pub fn text_of(reply: Reply) -> (r: Result<String, Reply>)
    ensures
        r == (match reply {
            Reply::Text(text) => Ok::<String, Reply>(text),
            other => Err::<String, Reply>(other),
        }),
{
    match reply {
        Reply::Text(text) => Ok(text),
        other => Err(other),
    }
}

/// Serving tool calls is preferred to any command but the reference, which needs
/// nothing; without either there is nothing to do, and nothing else comes to that.
pub proof fn law_serving_before_commands(command: Option<Cmd>, r: Launch, s: Launch)
    requires
        run.ensures((true, command), r),
        run.ensures((false, command), s),
    ensures
        command matches Some(c) && c is AgentsMd ==> r is Reference && s is Reference,
        !(command matches Some(c) && c is AgentsMd) ==> r is Serve && !(s is Reference),
        !(s is Serve),
        s is Missing <==> command is None,
{
}

/// Waiting for an element asks for what finding it asks for, with a time to wait.
pub proof fn law_wait_is_find_with_time(
    window: u64,
    name: Option<String>,
    contains: bool,
    automation_id: Option<String>,
    control_type: Option<String>,
    actionable: bool,
    timeout: u64,
    json: bool,
    ms: u64,
    f: Launch,
    w: Launch,
)
    requires
        to_millis.ensures((timeout,), ms),
        run.ensures(
            (
                false,
                Some(
                    Cmd::Find {
                        window,
                        name,
                        contains,
                        automation_id,
                        control_type,
                        actionable,
                        json,
                    },
                ),
            ),
            f,
        ),
        run.ensures(
            (
                false,
                Some(
                    Cmd::Wait {
                        window,
                        name,
                        contains,
                        automation_id,
                        control_type,
                        actionable,
                        timeout,
                        json,
                    },
                ),
            ),
            w,
        ),
    ensures
        f matches Launch::Ask { command: Command::FindElements { window: id, query, wait_ms }, expect } && {
            &&& id.0 == window && wait_ms is None && expect == (Expect::Elements { json })
            &&& query.name == name && query.name_contains == contains && query.automation_id
                == automation_id && query.control_type == control_type && query.actionable_only
                == actionable
            &&& w == (Launch::Ask {
                command: Command::FindElements { window: id, query, wait_ms: Some(ms) },
                expect,
            })
        },
        timeout * 1000 <= u64::MAX ==> ms == timeout * 1000,
        timeout * 1000 > u64::MAX ==> ms == u64::MAX,
{
}

/// A mouse command keeps its coordinates, its button and how often it clicks.
pub proof fn law_mouse_command_is_kept(action: MouseCmd, r: Launch)
    requires
        run.ensures((false, Some(Cmd::Mouse { action })), r),
    ensures
        r matches Launch::Ask { command: Command::Mouse { action: a }, expect } && expect
            == Expect::Ack && match (action, a) {
            (MouseCmd::Move { x, y }, MouseAction::Move { x: to_x, y: to_y }) => to_x == x && to_y
                == y,
            (
                MouseCmd::Click { x, y, button, count },
                MouseAction::Click { x: to_x, y: to_y, button: b, count: n },
            ) => to_x == x && to_y == y && n == count && same_button(button, b),
            (
                MouseCmd::Down { x, y, button },
                MouseAction::Down { x: to_x, y: to_y, button: b },
            ) => to_x == x && to_y == y && same_button(button, b),
            (
                MouseCmd::Up { x, y, button },
                MouseAction::Up { x: to_x, y: to_y, button: b },
            ) => to_x == x && to_y == y && same_button(button, b),
            (MouseCmd::Scroll { dx, dy }, MouseAction::Scroll { dx: to_dx, dy: to_dy }) => to_dx
                == dx && to_dy == dy,
            (
                MouseCmd::Drag { from_x, from_y, to_x, to_y, button },
                MouseAction::Drag { from_x: fx, from_y: fy, to_x: tx, to_y: ty, button: b },
            ) => fx == from_x && fy == from_y && tx == to_x && ty == to_y && same_button(button, b),
            _ => false,
        },
{
}

/// Whether both name the same mouse button.
pub open spec fn same_button(a: ArcButton, b: MouseButton) -> bool {
    &&& a is Left <==> b is Left
    &&& a is Right <==> b is Right
    &&& a is Middle <==> b is Middle
}

/// Commands on one element or window ask for exactly that.
pub proof fn law_element_commands(
    id: String,
    value: String,
    window: u64,
    json: bool,
    click: Launch,
    read: Launch,
    set: Launch,
    activate: Launch,
    list: Launch,
)
    requires
        run.ensures((false, Some(Cmd::Click { element_id: id })), click),
        run.ensures((false, Some(Cmd::Read { element_id: id })), read),
        run.ensures((false, Some(Cmd::SetValue { element_id: id, value })), set),
        run.ensures((false, Some(Cmd::Activate { window })), activate),
        run.ensures((false, Some(Cmd::Elements { window, json })), list),
    ensures
        click == (Launch::Ask {
            command: Command::Click { target: ClickTarget::Element(ElementId(id)) },
            expect: Expect::Ack,
        }),
        read == (Launch::Ask {
            command: Command::ReadElement { element: ElementId(id) },
            expect: Expect::TextLine,
        }),
        set == (Launch::Ask {
            command: Command::SetValue { element: ElementId(id), value },
            expect: Expect::Ack,
        }),
        activate == (Launch::Ask {
            command: Command::ActivateWindow { window: WindowId(window) },
            expect: Expect::Ack,
        }),
        list == (Launch::Ask {
            command: Command::ListElements { window: WindowId(window) },
            expect: Expect::Elements { json },
        }),
{
}

/// Typing, launching and listing ask for what was given.
pub proof fn law_request_commands(
    text: String,
    into: Option<String>,
    paste: bool,
    watch: Option<u64>,
    app: String,
    args: Vec<String>,
    pattern: Option<String>,
    cpu: bool,
    process: String,
    dry_run: bool,
    typing: Launch,
    opening: Launch,
    listing: Launch,
    killing: Launch,
    reading: Launch,
    setting: Launch,
)
    requires
        run.ensures((false, Some(Cmd::Type { text, into, paste })), typing),
        run.ensures((false, Some(Cmd::Open { watch, app, args })), opening),
        run.ensures((false, Some(Cmd::Ps { pattern, cpu })), listing),
        run.ensures((false, Some(Cmd::Kill { process, dry_run })), killing),
        run.ensures((false, Some(Cmd::Clip { action: ClipCmd::Get })), reading),
        run.ensures((false, Some(Cmd::Clip { action: ClipCmd::Put { text } })), setting),
    ensures
        typing matches Launch::Ask { command: Command::TypeText { text: t, into: i, paste: p }, expect }
            && t == text && p == paste && expect == Expect::Ack && (match (into, i) {
            (Some(id), Some(element)) => element.0 == id,
            (None, None) => true,
            _ => false,
        }),
        opening == (Launch::Ask {
            command: Command::OpenApp { target: app, args, watch_ms: watch },
            expect: Expect::Launched,
        }),
        listing == (Launch::Ask {
            command: Command::ListProcesses { filter: pattern, with_cpu: cpu },
            expect: Expect::Processes { cpu },
        }),
        killing == (Launch::Kill { process, dry_run }),
        reading == (Launch::Ask { command: Command::ClipboardGet, expect: Expect::Text }),
        setting == Launch::Work(Job::ClipSet { text }),
{
}

/// A job has every setting of the command that asked for it.
pub proof fn law_jobs_keep_their_settings(command: Cmd, r: Launch)
    requires
        run.ensures((false, Some(command)), r),
    ensures
        command matches Cmd::Shell { cmd, timeout, env, env_file, args } ==> (r matches Launch::Work(
            Job::Shell { cmd: c, timeout: t, env: e, env_file: f, args: a },
        ) && c == cmd && t == timeout && e == env && f == env_file && a == args),
        command matches Cmd::Run { script, lang, detach, timeout, env, env_file, args } ==> (
        r matches Launch::Work(
            Job::Run {
                script: s,
                lang: l,
                detach: d,
                timeout: t,
                env: e,
                env_file: f,
                args: a,
            },
        ) && s == script && l == lang && d == detach && t == timeout && e == env && f == env_file
            && a == args),
        command matches Cmd::Push { local, remote, delete, dry_run, whole, no_ignore } ==> (
        r matches Launch::Work(
            Job::Push { local: l, remote: m, delete: d, dry_run: y, whole: w, no_ignore: n },
        ) && l == local && m == remote && d == delete && y == dry_run && w == whole && n
            == no_ignore),
        command matches Cmd::Pull {
            remote,
            local,
            delete,
            dry_run,
            whole,
            no_ignore,
            watch,
            interval,
        } ==> (r matches Launch::Work(
            Job::Pull {
                remote: m,
                local: l,
                delete: d,
                dry_run: y,
                whole: w,
                no_ignore: n,
                watch: h,
                interval: v,
            },
        ) && l == local && m == remote && d == delete && y == dry_run && w == whole && n
            == no_ignore && h == watch && v == interval),
        command matches Cmd::Watch { local, remote, on_change, no_ignore } ==> (
        r matches Launch::Work(Job::Watch { local: l, remote: m, on_change: o, no_ignore: n }) && l
            == local && m == remote && o == on_change && n == no_ignore),
        command matches Cmd::Tail { remote, lines, follow } ==> (r matches Launch::Work(
            Job::Tail { remote: m, lines: l, follow: f },
        ) && m == remote && l == lines && f == follow),
        command matches Cmd::Screencap { out, window, element, baseline, diff, threshold_bits } ==> (
        r matches Launch::Work(
            Job::Screencap {
                out: o,
                window: w,
                element: e,
                baseline: b,
                diff: d,
                threshold_bits: t,
            },
        ) && o == out && w == window && e == element && b == baseline && d == diff && t
            == threshold_bits),
        command matches Cmd::Shot { out, app, window, launch, wait } ==> (r matches Launch::Work(
            Job::Shot { out: o, app: a, window: w, launch: l, wait: t },
        ) && o == out && a == app && w == window && l == launch && t == wait),
        command matches Cmd::Key { chords, into } ==> (r matches Launch::Work(
            Job::Key { chords: c, into: i },
        ) && c == chords && i == into),
        command matches Cmd::Procdump { pid, out } ==> (r matches Launch::Work(
            Job::Procdump { pid: p, out: o },
        ) && p == pid && o == out),
        command matches Cmd::Cat { remote } ==> (r matches Launch::Work(Job::Cat { remote: m }) && m
            == remote),
        command matches Cmd::Forward { spec } ==> r == (Launch::Forward { spec }),
        command matches Cmd::Windows { json, filter } ==> r == (Launch::ListWindows {
            json,
            filter,
        }),
{
}

/// Exactly an acknowledgement is accepted as one, and exactly a text as a text; any
/// other reply comes back as it is.
pub proof fn law_replies_are_checked(reply: Reply, a: Result<(), Reply>, t: Result<String, Reply>)
    requires
        ack.ensures((reply,), a),
        text_of.ensures((reply,), t),
    ensures
        a is Ok <==> reply is Ack,
        a matches Err(other) ==> other == reply,
        t is Ok <==> reply is Text,
        t matches Ok(text) ==> reply == Reply::Text(text),
        t matches Err(other) ==> other == reply,
{
}

} // verus!
