use arc::cli::agents_md::{agents_md, render_arg, ArgDoc, CommandDoc};
use arc::cli::args::{
    ack, missing_command, run, text_of, to_millis, ArcButton, Cmd, Expect, Job, Launch, MouseCmd,
};
use arc::cli::capture::{
    find_window, format_from_ext, saved, screencap, shot, shot_request, shot_window, size_differs,
    start_shot, FindStep, ShotAction, ShotEvent, ShotPhase, ShotTask, ShotWindow,
};
use arc::cli::config::{resolve_config, select_target, ConfigFile, Flags, TargetCfg};
use arc::cli::exec::{
    capabilities, choose_script, default_shell_for_runner, detached_lines, doctor, doctor_probe,
    fetch_capabilities, kill, parse_env, print_processes, run_script, shell, shell_for_lang,
    shell_for_script, start_doctor, stream_run, tail, timeout_to_ms, whoami, CapsAnswer,
    DoctorAction, RunnerCaps, ScriptSource,
};
use arc::cli::files::{
    after_sync, count_planned, dump_file, hook_report, needs_pull, print_transfer_summary, prune,
    pull_to, push_bytes, push_plan, pushed_entry, pushed_file, read_request, run_on_change, watch,
    LocalFile, ReadStep, Stats, WatchAction, WatchEvent, WatchState,
};
use arc::cli::forward::{
    downlink, parse_spec, run as forward, tunnel, tunnel_accepted, uplink, Downlink, Uplink,
};
use arc::cli::mcp::{
    AgentRc, ClickPointArgs, Collected, FindElementsArgs, MouseArgs, OpenAppArgs, PressKeyArgs,
    ReadFileArgs, RunCommandArgs, ScreenshotArgs, WriteFileArgs,
};
use arc::cli::ui::{clip, keys, open, print_elements, window_label, window_rows, windows, ClipPlan};
use arc::net::config::{EnvVars, SessionConfig, Transport};
use arc::net::controller::ControllerError;
use arc::net::error::NetError;
use arc::proto::id::{ElementId, RequestId, WindowId};
use arc::proto::wire::{
    parse_chord, Capability, CaptureTarget, ClickTarget, Command, ElementInfo, ElementQuery,
    Event, FileHash, Frame, Image, ImageFormat, Key, Modifier, MouseAction, MouseButton,
    ProcessInfo, Rect, RemoteError, RemoteErrorKind, Reply, Response, Shell, WindowInfo,
};
use arc::runner_core::backend::unsupported;

fn list(items: &[&str]) -> Vec<String> {
    items.iter().map(|s| s.to_string()).collect()
}

fn window(id: u64, process: &str, title: &str) -> WindowInfo {
    WindowInfo {
        id: WindowId(id),
        title: title.to_string(),
        process: process.to_string(),
        focused: false,
        rect: Rect::default(),
    }
}

fn element(name: &str, actionable: bool) -> ElementInfo {
    ElementInfo {
        id: ElementId("7:1".to_string()),
        control_type: "Button".to_string(),
        name: Some(name.to_string()),
        automation_id: None,
        value: None,
        rect: Rect::default(),
        actionable,
    }
}

fn no_env() -> EnvVars {
    EnvVars { direct: None, relay_url: None, session: None, pairing: None }
}

fn flags() -> Flags {
    Flags { target: None, relay: None, direct: None, session: None, pairing: None }
}

fn target() -> TargetCfg {
    TargetCfg { relay: None, direct: None, session: None, pairing: None, trust_tailnet: None }
}

#[test]
fn chords_are_read() {
    assert_eq!(
        parse_chord("ctrl+Shift+esc"),
        Ok((vec![Modifier::Ctrl, Modifier::Shift], Key::Escape))
    );
    assert_eq!(parse_chord("f5"), Ok((vec![], Key::F(5))));
    assert_eq!(parse_chord("a"), Ok((vec![], Key::Char('a'))));
    assert!(parse_chord("hyper+a").is_err());
    assert!(parse_chord("").is_err());
}

#[test]
fn commands_become_requests() {
    assert!(matches!(run(false, None), Launch::Missing));
    assert!(matches!(run(true, None), Launch::Serve));
    assert!(matches!(run(true, Some(Cmd::AgentsMd)), Launch::Reference));
    let forward = Cmd::Forward { spec: "1:2".to_string() };
    assert!(matches!(run(false, Some(forward)), Launch::Forward { spec } if spec == "1:2"));
    match run(false, Some(Cmd::Activate { window: 4 })) {
        Launch::Ask { command, expect } => {
            assert_eq!(command, Command::ActivateWindow { window: WindowId(4) });
            assert_eq!(expect, Expect::Ack);
        }
        _ => panic!("not asked"),
    }
    let wait = Cmd::Wait {
        window: 4,
        name: Some("x".to_string()),
        contains: true,
        automation_id: None,
        control_type: None,
        actionable: false,
        timeout: 3,
        json: true,
    };
    match run(false, Some(wait)) {
        Launch::Ask { command: Command::FindElements { query, wait_ms, .. }, expect } => {
            let want = ElementQuery {
                name: Some("x".to_string()),
                name_contains: true,
                ..ElementQuery::default()
            };
            assert_eq!((query, wait_ms), (want, Some(3000)));
            assert_eq!(expect, Expect::Elements { json: true });
        }
        _ => panic!("not asked"),
    }
    let cat = Cmd::Cat { remote: "f".to_string() };
    assert!(matches!(run(false, Some(cat)), Launch::Work(Job::Cat { .. })));
    assert_eq!(to_millis(u64::MAX), u64::MAX);
    assert_eq!(ack(Reply::Ack), Ok(()));
    assert_eq!(text_of(Reply::Text("x".to_string())), Ok("x".to_string()));
    assert_eq!(text_of(Reply::Ack), Err(Reply::Ack));
}

#[test]
fn mouse_commands_become_actions() {
    let click = MouseCmd::Click { x: 1, y: 2, button: ArcButton::Middle, count: 2 };
    let want = MouseAction::Click { x: 1, y: 2, button: MouseButton::Middle, count: 2 };
    assert_eq!(click.into_action(), want);
    assert_eq!(
        MouseCmd::Scroll { dx: 0, dy: -3 }.into_action(),
        MouseAction::Scroll { dx: 0, dy: -3 }
    );
}

#[test]
fn configuration_is_layered() {
    let file = Some(ConfigFile {
        default: Some("win".to_string()),
        targets: vec![(
            "win".to_string(),
            TargetCfg {
                direct: Some("10.0.0.1:8787".to_string()),
                trust_tailnet: Some(true),
                ..target()
            },
        )],
    });
    let config = resolve_config(&flags(), &file, &no_env()).ok().expect("config");
    assert_eq!(config.transport, Transport::Direct { addr: "10.0.0.1:8787".to_string() });
    assert_eq!(config.session.to_string(), "0".repeat(32));
    let explicit = Flags {
        direct: Some("host:1".to_string()),
        pairing: Some("TEST-1234".to_string()),
        ..flags()
    };
    let config = resolve_config(&explicit, &file, &no_env()).ok().expect("config");
    assert_eq!(config.transport, Transport::Direct { addr: "host:1".to_string() });
    assert_eq!(config.pairing.as_str(), "TEST-1234");
    let named = Flags { target: Some("mac".to_string()), ..flags() };
    assert_eq!(
        resolve_config(&named, &file, &no_env()).err().as_deref(),
        Some("no target 'mac' in config file")
    );
    assert_eq!(
        select_target(&named, &None).err().as_deref(),
        Some("--target 'mac' given but no config file found")
    );
}

#[test]
fn configuration_gaps_are_named() {
    let refused = |f: Flags| resolve_config(&f, &None, &no_env()).err().unwrap_or_default();
    assert!(refused(flags()).starts_with("endpoint: "));
    let relay = Flags { relay: Some("ws://r".to_string()), ..flags() };
    assert!(refused(relay.clone()).starts_with("session: "));
    let session = Flags { session: Some("0f".repeat(16)), ..relay };
    assert!(refused(session.clone()).starts_with("pairing: "));
    let bad = Flags { pairing: Some("x".to_string()), ..session.clone() };
    assert_eq!(refused(bad), "pairing must be XXXX-XXXX");
    let bad = Flags { session: Some("x".to_string()), ..session };
    assert_eq!(refused(bad), "session must be 32 hex chars");
}

#[test]
fn environment_variables_are_parsed() {
    let file = "# comment\n\n A =1=2\nB= x\n";
    let env = parse_env(&list(&["A=3", "C="]), Some(file)).ok().expect("env");
    let pair = |k: &str, v: &str| (k.to_string(), v.to_string());
    assert_eq!(env, vec![pair("A", "1=2"), pair("B", " x"), pair("A", "3"), pair("C", "")]);
    assert_eq!(
        parse_env(&list(&["A"]), None).err().as_deref(),
        Some("--env expects KEY=VALUE, got: A")
    );
    assert_eq!(
        parse_env(&vec![], Some("oops\n")).err().as_deref(),
        Some("env file line missing '=': oops")
    );
}

#[test]
fn timeouts_have_a_default() {
    assert_eq!(timeout_to_ms(None), Some(600_000));
    assert_eq!(timeout_to_ms(Some(0)), None);
    assert_eq!(timeout_to_ms(Some(2)), Some(2000));
    assert_eq!(timeout_to_ms(Some(u64::MAX)), Some(u64::MAX));
}

#[test]
fn shell_command_is_joined() {
    match shell(true, Some(1), vec![], &list(&["dir", "a b"])) {
        Command::RunCommand { shell, command, timeout_ms, stream, .. } => {
            assert_eq!((shell, command.as_str()), (Shell::Cmd, "dir a b"));
            assert_eq!((timeout_ms, stream), (Some(1000), true));
        }
        _ => panic!("no command"),
    }
    match tail("it's.log", 5, true) {
        Command::RunCommand { command, timeout_ms, .. } => {
            assert_eq!(command, "Get-Content -LiteralPath 'it''s.log' -Tail 5 -Wait");
            assert_eq!(timeout_ms, None);
        }
        _ => panic!("no command"),
    }
}

fn caps(os: &str, commands: Vec<Capability>) -> Option<RunnerCaps> {
    Some(RunnerCaps {
        os: os.to_string(),
        arch: "x86_64".to_string(),
        runner_version: "1.2".to_string(),
        commands,
    })
}

#[test]
fn interpreter_is_chosen() {
    assert_eq!(default_shell_for_runner(&None), Shell::PowerShell);
    assert_eq!(default_shell_for_runner(&caps("windows", vec![])), Shell::PowerShell);
    assert_eq!(default_shell_for_runner(&caps("android", vec![])), Shell::Sh);
    assert_eq!(shell_for_lang(Some(".PS1")), Ok(Some(Shell::PowerShell)));
    assert_eq!(shell_for_lang(None), Ok(None));
    assert_eq!(
        shell_for_lang(Some("py")).err().as_deref(),
        Some("unsupported --lang `py` (expected ps1, bat, cmd, or sh)")
    );
    assert_eq!(shell_for_script("a/b.CMD", Shell::PowerShell), Ok(Shell::Cmd));
    assert_eq!(shell_for_script("a/b", Shell::Sh), Ok(Shell::Sh));
    assert_eq!(
        shell_for_script("a/b.py", Shell::PowerShell).err().as_deref(),
        Some("unsupported script type `.py` (expected .ps1, .bat, .cmd, or .sh)")
    );
    assert_eq!(
        shell_for_script("b", Shell::PowerShell).err().as_deref(),
        Some("`b` has no extension; expected .ps1, .bat, .cmd, or .sh")
    );
    assert_eq!(choose_script("-", None, Shell::Sh), Ok((Shell::Sh, ScriptSource::Stdin)));
    assert_eq!(
        choose_script("x.sh", Some("cmd"), Shell::Sh),
        Ok((Shell::Cmd, ScriptSource::File))
    );
}

#[test]
fn script_is_shipped() {
    let run = |detach| run_script(Shell::Sh, "x".to_string(), vec![], vec![], detach, None);
    assert!(matches!(run(true), Command::RunDetached { .. }));
    assert!(matches!(run(false), Command::RunScript { timeout_ms: Some(600_000), stream: true, .. }));
    assert_eq!(
        detached_lines(4, "/l"),
        list(&[
            "detached pid=4",
            "log:    /l",
            "follow: arc tail -f '/l'   (or: arc kill 4)",
        ])
    );
    let output = Reply::CommandOutput {
        stdout: "o".to_string(),
        stderr: "e".to_string(),
        exit_code: None,
    };
    assert_eq!(stream_run(output), Ok(("o".to_string(), "e".to_string(), 0)));
    assert_eq!(stream_run(Reply::Ack), Err(Reply::Ack));
}

#[test]
fn capabilities_are_reported() {
    let reply = Reply::Capabilities {
        os: "android".to_string(),
        arch: "x86_64".to_string(),
        runner_version: "1.2".to_string(),
        commands: vec![Capability::Screenshot, Capability::Click],
    };
    let known = match fetch_capabilities(Some(reply), false) {
        CapsAnswer::Known(caps) => Some(caps),
        _ => panic!("unknown"),
    };
    assert_eq!(
        capabilities(&known),
        list(&["runner   : arc-runner 1.2 (android/x86_64)", "commands : Click, Screenshot"])
    );
    assert!(matches!(fetch_capabilities(None, false), CapsAnswer::Legacy));
    assert!(matches!(fetch_capabilities(None, true), CapsAnswer::Failed));
    assert!(matches!(fetch_capabilities(Some(Reply::Ack), false), CapsAnswer::Unexpected(_)));
    assert!(capabilities(&None)[0].contains("legacy"));
}

fn output(stdout: &str) -> Reply {
    Reply::CommandOutput {
        stdout: stdout.to_string(),
        stderr: String::new(),
        exit_code: Some(0),
    }
}

fn examine(caps: Option<RunnerCaps>, probe: &str, windows: Vec<WindowInfo>) -> Vec<String> {
    let mut turn = start_doctor(caps);
    let mut shown = Vec::new();
    loop {
        shown.extend(turn.lines);
        let reply = match turn.action {
            DoctorAction::Request(Command::RunCommand { shell, command, timeout_ms, .. }) => {
                assert_eq!((shell, timeout_ms), (Shell::PowerShell, Some(30_000)));
                assert!(command.contains("schtasks /query /tn arc-keep-display"));
                output(probe)
            }
            DoctorAction::Request(Command::ListWindows) => Reply::Windows(windows.clone()),
            DoctorAction::Done => return shown,
            _ => panic!("the check failed"),
        };
        turn = doctor(turn.state, reply);
    }
}

#[test]
fn doctor_interprets_the_session() {
    let probe = "account=me\nadmin=True\nsession=1\nsessionState=Active\nkeepDisplay=absent\n";
    let three = vec![window(1, "a", "A"), window(2, "b", "B"), window(3, "c", "C")];
    let shown = examine(None, probe, three);
    assert_eq!(
        shown[..10],
        [
            "arc doctor",
            "  link         : connected",
            "  runner       : legacy (predates capability reporting)",
            "  account      : me",
            "  admin        : True",
            "  integrity    : ?",
            "  session      : 1 (Active)",
            "  keep-display : absent",
            "  uia          : 3 top-level windows visible",
            ""
        ]
    );
    assert!(shown[10].starts_with("session Active "));
    assert_eq!(shown.len(), 11);
    let shown = examine(None, "", vec![]);
    assert!(shown.last().expect("a verdict").starts_with("session ? "));
    let shown = examine(caps("android", vec![Capability::Click]), "", vec![]);
    assert_eq!(shown[3], "  commands     : Click");
    assert!(shown[5].starts_with("runner OS android "));
    assert_eq!(shown.len(), 6);
    let turn = doctor(start_doctor(None).state, Reply::Ack);
    assert!(turn.lines.is_empty());
    assert!(matches!(turn.action, DoctorAction::Unexpected(Reply::Ack)));
    assert!(matches!(doctor_probe(), Command::RunCommand { stream: false, .. }));
}

#[test]
fn launched_app_is_reported() {
    let opened = |window| Reply::AppOpened { window, pid: 7, exit_code: None, diagnostic: None };
    let shown = AgentRc::open_app_result(opened(Some(WindowId(4)))).ok().expect("shown");
    assert!(shown.starts_with("launched pid=7 window="));
    assert!(AgentRc::open_app_result(Reply::Ack).is_err());
    assert!(missing_command().starts_with("no command"));
}

#[test]
fn identity_is_aligned() {
    let pairs = vec![
        ("a".to_string(), "1".to_string()),
        ("long".to_string(), "2".to_string()),
    ];
    assert_eq!(whoami(&pairs), list(&["a    : 1", "long : 2"]));
}

fn process(pid: u32, name: &str) -> ProcessInfo {
    ProcessInfo { pid, name: name.to_string(), memory_kb: None, cpu_bits: None }
}

#[test]
fn processes_are_tabulated() {
    let procs = vec![process(12, "init")];
    let cells = vec![("1.0".to_string(), "2.5".to_string())];
    let plain = print_processes(&procs, &cells, false);
    assert_eq!(plain.len(), 2);
    assert!(plain[1].starts_with("     12  ") && plain[1].ends_with("  init"));
    assert_eq!(print_processes(&procs, &cells, true)[0], "    PID    CPU%         MB  NAME");
    assert_eq!(print_processes(&vec![], &vec![], true), list(&["(no matching processes)"]));
    assert_eq!(kill(&procs, "init", false), (list(&["killed init (PID 12)"]), 0));
    assert_eq!(kill(&procs, "init", true).0, list(&["would kill init (PID 12)"]));
    assert_eq!(kill(&vec![], "x", false), (list(&["no matching process: x"]), 1));
}

#[test]
fn only_changed_files_are_pushed() {
    let local = |rel: &str, hash: &str| LocalFile { rel: rel.to_string(), hash: hash.to_string() };
    let remote = |path: &str, hash: Option<&str>| FileHash {
        path: path.to_string(),
        hash: hash.map(str::to_string),
    };
    let files = vec![local("a", "1"), local("b", "2"), local("c", "3"), local("d", "4")];
    let known = vec![remote("a", Some("1")), remote("b", Some("9")), remote("c", None)];
    assert_eq!(push_plan(&files, &known, false), vec![false, true, true, true]);
    assert_eq!(push_plan(&files, &known, true), vec![true; 4]);
    assert_eq!(count_planned(&vec![true, false, true]), 2);
    assert_eq!(prune(&list(&["a", "x"]), &list(&["a", "b"])), vec![false, true]);
    assert!(!needs_pull("a", &Some("1".to_string()), &known, false));
    assert!(needs_pull("a", &None, &known, false));
    assert!(needs_pull("c", &None, &known, false));
    assert!(needs_pull("a", &Some("1".to_string()), &known, true));
}

#[test]
fn files_are_sent_in_chunks() {
    let size = 8 * 1024 * 1024;
    let data = vec![7u8; size + 1];
    let first = push_bytes("r", &data, 0);
    assert_eq!(first.next, Some(size));
    match first.command {
        Command::WriteFile { contents, offset, .. } => assert_eq!((contents.len(), offset), (size, 0)),
        _ => panic!("no write"),
    }
    let second = push_bytes("r", &data, size);
    assert_eq!(second.next, None);
    match second.command {
        Command::WriteFile { contents, offset, .. } => {
            assert_eq!((contents.len(), offset), (1, size as u64));
        }
        _ => panic!("no write"),
    }
    assert_eq!(push_bytes("r", &[], 0).next, None);
    assert!(matches!(read_request("r", 9), Command::ReadFile { offset: 9, max_len: 8_388_608, .. }));
    assert!(matches!(pull_to(9, Reply::FileContents(vec![1])), ReadStep::End(b, 10) if b == vec![1]));
    assert!(matches!(pull_to(0, Reply::FileContents(vec![0; size])), ReadStep::More(_, n) if n == size as u64));
    assert!(matches!(pull_to(0, Reply::Ack), ReadStep::Unexpected(Reply::Ack)));
}

#[test]
fn transfers_are_summed_up() {
    let stats = Stats { changed: 2, total: 5, bytes: 99, removed: 1 };
    assert_eq!(
        print_transfer_summary(false, stats, true, "a", "b"),
        "transferred 2/5 files (99 bytes), 1 deleted: a -> b"
    );
    assert_eq!(
        print_transfer_summary(true, stats, false, "a", "b"),
        "would transfer 2/5 files (99 bytes): a -> b"
    );
    assert_eq!(pushed_file("a", 3, "b", false), "pushed a (3 bytes) -> b");
    assert_eq!(pushed_entry("a", 3), "\u{2192} a (3 bytes)");
    assert_eq!(dump_file(3, None), "procdump-3.dmp");
    assert_eq!(dump_file(3, Some("x".to_string())), "x");
}

#[test]
fn saves_are_debounced() {
    let (state, action) = watch(WatchState::Idle, WatchEvent::Changed);
    assert_eq!((state, action), (WatchState::Settling, WatchAction::WaitQuiet));
    let (state, action) = watch(state, WatchEvent::Changed);
    assert_eq!((state, action), (WatchState::Settling, WatchAction::WaitQuiet));
    assert_eq!(watch(state, WatchEvent::Quiet), (WatchState::Idle, WatchAction::Sync));
    assert_eq!(watch(WatchState::Settling, WatchEvent::Closed).1, WatchAction::Stop);
    let synced = Stats { changed: 1, total: 1, bytes: 1, removed: 0 };
    assert!(after_sync(synced, true).hook && !after_sync(synced, false).hook);
    assert!(!after_sync(Stats { changed: 0, ..synced }, true).report);
    assert!(matches!(run_on_change("make"), Command::RunCommand { timeout_ms: None, .. }));
    assert_eq!(hook_report(0), None);
    assert_eq!(hook_report(3).as_deref(), Some("arc: on-change exited 3"));
}

#[test]
fn forward_spec_is_parsed() {
    let spec = parse_spec("80:localhost:8080").ok().expect("spec");
    assert_eq!((spec.local, spec.host.as_deref(), spec.remote), (80, Some("localhost"), 8080));
    assert_eq!(parse_spec("80:81").ok().expect("spec").host, None);
    assert!(parse_spec("80").is_err() && parse_spec("80:x").is_err() && parse_spec("1:2:3:4").is_err());
    let direct = forward(&spec, &Transport::Direct { addr: "a".to_string() });
    assert_eq!(direct.bind, "127.0.0.1:80");
    assert_eq!(
        direct.line,
        "forwarding 127.0.0.1:80 -> runner localhost:8080  (Ctrl+C to stop)"
    );
    assert!(direct.warning.is_none());
    assert!(forward(&spec, &Transport::Relay { url: "u".to_string() }).warning.is_some());
}

#[test]
fn tunnel_is_piped() {
    assert!(matches!(
        tunnel(None, 80),
        Frame::Request(r) if r.id == RequestId(1) && r.command == Command::Forward { host: None, port: 80 }
    ));
    let accepted = Frame::Response(Response { id: RequestId(1), result: Ok(Reply::Ack) });
    assert_eq!(tunnel_accepted(Some(accepted)), Ok(()));
    let refused = Frame::Response(Response { id: RequestId(1), result: Err(unsupported("forward")) });
    assert!(tunnel_accepted(Some(refused)).err().expect("refused").starts_with("runner refused forward: "));
    assert_eq!(
        tunnel_accepted(None).err().as_deref(),
        Some("no forward acknowledgement from runner")
    );
    assert!(matches!(uplink(Some(vec![1])), Uplink::Send(Frame::TunnelData(d)) if d == vec![1]));
    assert!(matches!(uplink(Some(vec![])), Uplink::Finish(Frame::TunnelEof)));
    assert!(matches!(uplink(None), Uplink::Stop));
    assert!(matches!(downlink(Some(Frame::TunnelData(vec![2]))), Downlink::Write(d) if d == vec![2]));
    assert!(matches!(downlink(Some(Frame::TunnelEof)), Downlink::Stop));
    assert!(matches!(downlink(None), Downlink::Stop));
}

#[test]
fn windows_are_filtered_and_listed() {
    let all = vec![window(1, "notepad.exe", "\u{c4}BC"), window(2, "calc.exe", "Calc")];
    let hits = windows(all.clone(), Some("\u{e4}b"));
    assert_eq!(window_rows(&hits), list(&["1 | notepad.exe | \u{c4}BC"]));
    assert_eq!(windows(all, None).len(), 2);
    assert_eq!(
        print_elements(&vec![element("OK", true), element("No", false)]),
        list(&["7:1 | Button | actionable |  | OK", "7:1 | Button | inactive |  | No"])
    );
    assert_eq!(window_label(None), "None");
    assert_eq!(window_label(Some(WindowId(3))), "Some(WindowId(3))");
}

#[test]
fn launch_is_reported() {
    let opened = |exit_code, diagnostic: Option<&str>| Reply::AppOpened {
        window: None,
        pid: 9,
        exit_code,
        diagnostic: diagnostic.map(str::to_string),
    };
    assert_eq!(
        open(opened(None, None)),
        Ok((list(&["launched pid=9 window=None"]), 0))
    );
    let (lines, code) = open(opened(Some(3), Some("boom"))).ok().expect("report");
    assert_eq!(code, 1);
    assert!(lines.join("\n").contains('3') && lines.join("\n").contains("boom"));
    assert_eq!(open(Reply::Ack), Err(Reply::Ack));
}

#[test]
fn key_sequences_are_checked_first() {
    let steps = keys(&list(&["ctrl+a", "delete"]), Some("7:1".to_string())).ok().expect("steps");
    assert_eq!(steps.len(), 3);
    assert!(matches!(&steps[0].command, Command::FocusElement { element } if element.0 == "7:1"));
    assert!(matches!(&steps[1].command, Command::KeyChord { key: Key::Char('a'), .. }));
    assert_eq!(steps.iter().map(|s| s.pause_ms).collect::<Vec<_>>(), vec![0, 16, 0]);
    assert!(keys(&list(&["enter", "zz"]), None).err().expect("bad").starts_with("zz: "));
    assert!(matches!(clip("-".to_string()), ClipPlan::ReadStdin));
    assert!(matches!(
        clip("x".to_string()),
        ClipPlan::Send(Command::ClipboardSet { text }) if text == "x"
    ));
}

#[test]
fn screenshots_are_requested_and_saved() {
    assert_eq!(format_from_ext("a.PNG"), Some(ImageFormat::Png));
    assert_eq!(format_from_ext("a.webp"), Some(ImageFormat::Webp));
    assert_eq!(format_from_ext("a.jpg"), None);
    match screencap("a.png", Some(3), Some("7:1".to_string())) {
        Command::Screenshot { target, format, settle_ms, settle_await_change } => {
            assert_eq!(target, CaptureTarget::Element(ElementId("7:1".to_string())));
            assert_eq!(
                (format, settle_ms, settle_await_change),
                (Some(ImageFormat::Png), None, false)
            );
        }
        _ => panic!("no request"),
    }
    let image = Image { format: ImageFormat::Webp, width: 3, height: 4, data: vec![1, 2] };
    assert_eq!(saved("o", None, &image), "saved o (3x4, Webp, 2 bytes)");
    assert_eq!(saved("o", Some(9), &image), "saved o (window 9, 3x4, Webp, 2 bytes)");
    assert_eq!(size_differs(1, 2, 3, 4), "DIFFERS: size 1x2 vs baseline 3x4");
    match shot_request("o.png", 5, 20, true) {
        Command::Screenshot { target, settle_ms, settle_await_change, .. } => {
            assert_eq!(target, CaptureTarget::Window(WindowId(5)));
            assert_eq!((settle_ms, settle_await_change), (Some(1500), true));
        }
        _ => panic!("no request"),
    }
}

#[test]
fn window_is_awaited() {
    let exe = Some("tools/app.exe".to_string());
    assert!(matches!(shot_window(&None, Some(4), &exe), Ok(ShotWindow::Known(4))));
    assert!(matches!(shot_window(&None, None, &exe), Ok(ShotWindow::Named(n)) if n == "app"));
    assert_eq!(
        shot_window(&None, None, &None).err().as_deref(),
        Some("pass --window <handle>, --app <substr>, or --launch <exe>")
    );
    let reply = Reply::Windows(vec![window(8, "app.exe", "Main")]);
    assert!(matches!(find_window(&reply, "APP", false), FindStep::Found(8)));
    assert!(matches!(find_window(&reply, "zz", false), FindStep::Wait(400)));
    assert!(matches!(
        find_window(&reply, "ZZ", true),
        FindStep::GiveUp(m) if m == "no window matching 'zz' appeared within the wait"
    ));
}

fn answer(reply: Reply) -> ShotEvent {
    ShotEvent::Answer { reply, deadline_passed: false, remaining_ms: 2000 }
}

#[test]
fn shot_launches_finds_and_captures() {
    let mut task = ShotTask {
        out: "o.png".to_string(),
        app: None,
        window: None,
        launch: Some("bin/App.exe".to_string()),
    };
    let (phase, action) = start_shot(&task);
    assert!(matches!(
        action,
        ShotAction::Request(Command::OpenApp { target, .. }) if target == "bin/App.exe"
    ));
    let opened = Reply::AppOpened { window: None, pid: 3, exit_code: None, diagnostic: None };
    let (phase, action) = shot(&task, phase, answer(opened));
    assert!(matches!(action, ShotAction::Request(Command::ListWindows)));
    let (phase, action) = shot(&task, phase, answer(Reply::Windows(vec![])));
    assert!(matches!(action, ShotAction::Rest(400)));
    let (phase, action) = shot(&task, phase, ShotEvent::Rested);
    assert!(matches!(action, ShotAction::Request(Command::ListWindows)));
    let found = Reply::Windows(vec![window(8, "app.exe", "Main")]);
    let (phase, action) = shot(&task, phase, answer(found));
    assert!(matches!(
        action,
        ShotAction::Request(Command::ActivateWindow { window: WindowId(8) })
    ));
    let (phase, action) = shot(&task, phase, answer(Reply::Ack));
    assert!(matches!(
        action,
        ShotAction::Request(Command::Screenshot {
            target: CaptureTarget::Window(WindowId(8)),
            format: Some(ImageFormat::Png),
            settle_ms: Some(2000),
            settle_await_change: true,
        })
    ));
    let image = Image { format: ImageFormat::Png, width: 3, height: 4, data: vec![1, 2] };
    let (_, action) = shot(&task, phase, answer(Reply::Image(image)));
    assert!(matches!(
        action,
        ShotAction::Save(_, line) if line == "saved o.png (window 8, 3x4, Png, 2 bytes)"
    ));
    let (_, action) = shot(&task, ShotPhase::Launching, answer(Reply::Ack));
    assert!(matches!(action, ShotAction::NotLaunched(Reply::Ack)));
    let (_, action) = shot(&task, ShotPhase::Activating(8), answer(Reply::Windows(vec![])));
    assert!(matches!(action, ShotAction::Refused(_)));
    let (_, action) = shot(&task, ShotPhase::Capturing(8), answer(Reply::Ack));
    assert!(matches!(action, ShotAction::Unexpected(Reply::Ack)));
    task.launch = None;
    assert!(matches!(start_shot(&task).1, ShotAction::Fail(_)));
    task.window = Some(5);
    assert!(matches!(start_shot(&task).0, ShotPhase::Activating(5)));
}

fn agent() -> AgentRc {
    let config = SessionConfig::from_args_and_env(
        Some("ws://r".to_string()),
        Some("0f".repeat(16)),
        Some("TEST-1234".to_string()),
        no_env(),
    );
    AgentRc::new(config.ok().expect("config"))
}

#[test]
fn link_is_made_when_needed_and_dropped_when_broken() {
    let mut agent = agent();
    assert!(agent.connect_if_needed());
    assert_eq!(
        agent.connected(None).err().as_deref(),
        Some("timed out connecting to runner via relay")
    );
    assert!(agent.connect_if_needed());
    assert_eq!(agent.connected(Some(Ok(()))), Ok(()));
    assert!(!agent.connect_if_needed());
    let denied = RemoteError { kind: RemoteErrorKind::Denied, message: "no".to_string() };
    assert!(agent.finish(Err(ControllerError::Remote(denied))).is_err());
    assert!(!agent.connect_if_needed());
    assert!(agent.finish(Err(ControllerError::Net(NetError::Closed))).is_err());
    assert!(agent.connect_if_needed());
}

#[test]
fn tools_become_commands() {
    let run = RunCommandArgs {
        command: "dir".to_string(),
        shell: Some("cmd".to_string()),
        timeout_ms: Some(0),
    };
    assert!(matches!(
        AgentRc::run_command(run),
        Command::RunCommand { shell: Shell::Cmd, timeout_ms: None, stream: true, .. }
    ));
    let shot = ScreenshotArgs { window: Some(4), element: None };
    assert!(matches!(
        AgentRc::screenshot(shot),
        Command::Screenshot { target: CaptureTarget::Window(WindowId(4)), .. }
    ));
    let point = ClickPointArgs { x: 1, y: 2, button: Some("right".to_string()) };
    assert!(matches!(
        AgentRc::click_point(point),
        Command::Click { target: ClickTarget::Point { x: 1, y: 2, button: MouseButton::Right } }
    ));
    let mouse = |action: &str| MouseArgs {
        action: action.to_string(),
        x: 1,
        y: 2,
        to_x: 3,
        to_y: 4,
        button: None,
        count: None,
    };
    assert!(matches!(
        AgentRc::mouse(mouse("click")),
        Ok(Command::Mouse { action: MouseAction::Click { count: 1, .. } })
    ));
    assert_eq!(AgentRc::mouse(mouse("fly")).err().as_deref(), Some("unknown mouse action: fly"));
    let find = FindElementsArgs {
        window: 5,
        name: None,
        name_contains: false,
        automation_id: None,
        control_type: Some("Edit".to_string()),
        actionable_only: true,
        wait_ms: Some(7),
    };
    assert!(matches!(
        AgentRc::find_elements(find),
        Command::FindElements { window: WindowId(5), wait_ms: Some(7), .. }
    ));
    let open = OpenAppArgs { target: "x".to_string(), args: vec![] };
    assert!(matches!(AgentRc::open_app(open), Command::OpenApp { .. }));
}

#[test]
fn pressed_keys_are_paced() {
    let args = PressKeyArgs { keys: list(&["enter", "tab", "zz"]) };
    let step = AgentRc::press_key(&args, 0).ok().expect("step");
    assert_eq!(step.pause_ms, 16);
    assert!(AgentRc::press_key(&args, 2).err().expect("bad").starts_with("invalid key chord 'zz': "));
    let none = PressKeyArgs { keys: vec![] };
    assert_eq!(AgentRc::press_key(&none, 0).err().as_deref(), Some("keys must not be empty"));
}

#[test]
fn streamed_output_is_collected() {
    let mut collected = Collected::new();
    let id = RequestId(1);
    assert_eq!(collected.absorb(Event::Stdout { id, chunk: "a".to_string() }), "a");
    assert_eq!(collected.absorb(Event::Stderr { id, chunk: "b".to_string() }), "b");
    assert_eq!(collected.absorb(Event::Stdout { id, chunk: "c".to_string() }), "c");
    assert_eq!(collected.absorb(Event::Progress { id, message: "m".to_string() }), "m");
    let output = |exit_code| Reply::CommandOutput {
        stdout: String::new(),
        stderr: String::new(),
        exit_code,
    };
    assert_eq!(
        AgentRc::stream_to_result(output(Some(0)), collected),
        Ok("exit_code: 0\n--- stdout ---\nac\n--- stderr ---\nb".to_string())
    );
    let text = AgentRc::stream_to_result(output(None), Collected::new()).ok().expect("text");
    assert!(text.starts_with("exit_code: killed\n"));
}

#[test]
fn files_travel_as_text_or_base64() {
    let read = |base64| ReadFileArgs { path: "p".to_string(), base64, offset: None, length: None };
    assert!(matches!(
        AgentRc::read_file(&read(None)),
        Command::ReadFile { offset: 0, max_len: 0, .. }
    ));
    let contents = || Reply::FileContents(vec![0xff, 0x41]);
    assert_eq!(AgentRc::read_file_result(contents(), None), Ok("\u{fffd}A".to_string()));
    assert_eq!(AgentRc::read_file_result(contents(), Some(true)), Ok("/0E=".to_string()));
    let write = |content: Option<&str>, encoded: Option<&str>| {
        AgentRc::write_file(WriteFileArgs {
            path: "p".to_string(),
            content: content.map(str::to_string),
            content_base64: encoded.map(str::to_string),
            offset: None,
        })
    };
    assert!(matches!(
        write(Some("x"), Some("/0E=")),
        Ok(Command::WriteFile { contents, offset: 0, .. }) if contents == vec![0xff, 0x41]
    ));
    assert!(matches!(
        write(Some("\u{e4}"), None),
        Ok(Command::WriteFile { contents, .. }) if contents == vec![0xc3, 0xa4]
    ));
    assert_eq!(write(None, None).err().as_deref(), Some("provide `content` or `content_base64`"));
    assert!(write(None, Some("/0F=")).err().expect("bad").starts_with("invalid base64"));
}

#[test]
fn replies_are_shown() {
    assert_eq!(AgentRc::list_windows(Reply::Windows(vec![])), Ok("<no windows>".to_string()));
    assert_eq!(
        AgentRc::list_windows(Reply::Windows(vec![window(1, "p", "t"), window(2, "q", "u")])),
        Ok("1 | p | t\n2 | q | u".to_string())
    );
    assert_eq!(
        AgentRc::elements_result(Reply::Elements(vec![]), "<no match>"),
        Ok("<no match>".to_string())
    );
    let image = Image { format: ImageFormat::Png, width: 1, height: 1, data: vec![0xff, 0x41] };
    assert_eq!(
        AgentRc::screenshot_result(Reply::Image(image)),
        Ok(("/0E=".to_string(), "image/png"))
    );
    assert_eq!(AgentRc::ack(Reply::Ack), Ok("ok"));
    assert!(AgentRc::ack(Reply::Text("x".to_string())).is_err());
}

fn flag(name: &str, help: Option<&str>) -> ArgDoc {
    ArgDoc {
        id: name.to_string(),
        positional: false,
        short: None,
        long: Some(name.to_string()),
        takes_value: false,
        value_name: None,
        help: help.map(str::to_string),
        required: false,
        defaults: vec![],
    }
}

#[test]
fn options_are_rendered() {
    assert_eq!(render_arg(&flag("json", None)), "- `--json`\n");
    let full = ArgDoc {
        short: Some('n'),
        takes_value: true,
        value_name: Some("LINES".to_string()),
        required: true,
        defaults: list(&["10"]),
        ..flag("lines", Some("Count\nof lines"))
    };
    assert_eq!(
        render_arg(&full),
        "- `-n, --lines <LINES>` \u{2014} Count of lines _(required, default: 10)_\n"
    );
    let positional = ArgDoc { positional: true, long: None, ..flag("out", None) };
    assert_eq!(render_arg(&positional), "- `<out>`\n");
}

#[test]
fn reference_lists_commands_in_order() {
    let command = |name: &str, subcommands| CommandDoc {
        name: name.to_string(),
        about: Some(format!("About {name}")),
        long_about: None,
        args: vec![flag("help", None), flag("json", None)],
        subcommands,
    };
    let root = command(
        "arc",
        vec![
            command("ps", vec![]),
            command("agents-md", vec![]),
            command("clip", vec![command("set", vec![]), command("get", vec![])]),
        ],
    );
    let text = agents_md(&root);
    assert!(text.starts_with("# arc \u{2014} agent reference\n"));
    let at = |part: &str| text.find(part).expect("present");
    assert!(at("\n### `arc clip`\n") < at("\n#### `arc clip get`\n"));
    assert!(at("\n#### `arc clip get`\n") < at("\n#### `arc clip set`\n"));
    assert!(at("\n#### `arc clip set`\n") < at("\n### `arc ps`\n"));
    assert!(text.contains("About ps\n\nOptions:\n\n- `--json`\n\n"));
    assert!(!text.contains("`arc agents-md`") && !text.contains("`--help`"));
}
