use arc::proto::id::{ElementId, PairingCode, RequestId, SessionId, WindowId};
use arc::proto::wire::{
    Command, ElementInfo, ElementQuery, Event, Frame, Key, Modifier, MouseAction, MouseButton,
    ProcessInfo, Rect, RemoteErrorKind, Reply, Request, Shell,
};
use arc::runner::apps::{
    dump_name, open_app, opened, process_name, recent_app_error, recent_app_error_query,
    visible_windows, LaunchStep, Polled, SeenWindow,
};
use arc::runner::backend::{
    identity, identity_command, kill_process, list_processes, parse_processes, ps_output,
    ps_where, run_ps, sort_processes, type_text, with_cpu_bits, TypeStep, WindowsBackend,
};
use arc::runner::exec::{
    build, build_script, capture_process, handle, log_name, script_name, serve, stream_process,
    utf8_prefixed, write_temp_script, Handling, Outcome, Served, Stream, StreamAction,
    StreamEvent, StreamState,
};
use arc::runner::files::{
    delete_file, hash_file, list_tree, open_failed, read_file, transfer_failed, write_file, EntryKind,
    Fault,
    Filling, Visit, ReadMode, WriteMode,
};
use arc::runner::input::{
    key_chord, map_key, modifier_key, mouse, Direction, InputOp, Injection, KeySym,
};
use arc::runner::install::{
    authorize_tailnet, config_path, credentials, install_lookups, install_preview, installed,
    kept_credentials, kept_notice, listen_addr, minted_config, mints, pair_report, paired_config,
    parse_install, print_controller_target, register_task, resolve_pairing, resolve_relay_config,
    run_install, run_pair, run_uninstall, runner_mode, tailscale_candidates,
    tailscale_ip, tailscale_owner_login, whois_login, Lookups, RunnerConfig, RunnerMode,
};
use arc::runner::upgrade::{
    check_download, parse_upgrade, run_upgrade, upgrade, upgrade_url, Place, Upgrade,
    UpgradeAction, UpgradeEvent, UpgradeStep,
};
use arc::runner::uia::{
    control_type_name, describe, encode_element_id, find_step, half, parse_element_id, resolve,
    Bounds, FindStep, Seen,
};

fn list(items: &[&str]) -> Vec<String> {
    items.iter().map(|s| s.to_string()).collect()
}

#[test]
fn shells_are_started_in_utf8() {
    assert_eq!(utf8_prefixed(Shell::Cmd, "dir"), "chcp 65001 > nul & dir");
    assert_eq!(utf8_prefixed(Shell::Sh, "ls"), "ls");
    assert_eq!(
        utf8_prefixed(Shell::PowerShell, "gci"),
        "$OutputEncoding = [System.Text.UTF8Encoding]::new($false); try { \
         [Console]::OutputEncoding = [Console]::InputEncoding = $OutputEncoding } catch {}; \
         chcp 65001 > $null; gci"
    );
    let env = || vec![("KEY".to_string(), "a b".to_string())];
    let p = build(Shell::Sh, "ls", env());
    assert_eq!(p.env, env());
    assert_eq!((p.program.as_str(), p.args), ("sh", list(&["-c", "ls"])));
    let p = build_script(Shell::PowerShell, "x.ps1", &list(&["a"]), env());
    assert_eq!(p.env, env());
    assert_eq!(p.program, "powershell");
    assert_eq!(
        p.args,
        list(&["-NoProfile", "-NonInteractive", "-ExecutionPolicy", "Bypass", "-File", "x.ps1", "a"])
    );
    assert_eq!(script_name(RequestId(4), Shell::Cmd), "arc-run-#4.bat");
    assert_eq!(log_name(RequestId(4)), "arc-detach-#4.log");
}

#[test]
fn powershell_scripts_carry_a_mark() {
    assert_eq!(write_temp_script(Shell::PowerShell, "\u{e4}"), vec![0xef, 0xbb, 0xbf, 0xc3, 0xa4]);
    assert_eq!(write_temp_script(Shell::Sh, "x"), b"x".to_vec());
}

#[test]
fn outcome_of_a_process() {
    let done = capture_process(Outcome::Exited(Ok(Some(3))), b"o\xff", b"e").expect("ended");
    let want = Reply::CommandOutput {
        stdout: "o\u{fffd}".to_string(),
        stderr: "e".to_string(),
        exit_code: Some(3),
    };
    assert_eq!(done, want);
    let late = capture_process(Outcome::Timeout(50), b"", b"").err().expect("late");
    assert_eq!((late.kind, late.message.as_str()), (RemoteErrorKind::Timeout, "exceeded 50 ms"));
    let broken = capture_process(Outcome::Exited(Err("x".to_string())), b"", b"").err();
    assert_eq!(broken.expect("broken").message, "wait failed: x");
}

#[test]
fn output_is_streamed_then_answered() {
    let id = RequestId(8);
    let chunk = StreamEvent::Output(Stream::Stderr, b"warn".to_vec());
    let (state, action) = stream_process(id, StreamState::Running, chunk);
    match action {
        StreamAction::Send(Frame::Event(Event::Stderr { id: of, chunk })) => {
            assert_eq!((of, chunk.as_str()), (id, "warn"));
        }
        _ => panic!("nothing sent"),
    }
    let ended = StreamEvent::Ended(Outcome::Exited(Ok(Some(0))));
    let (state, action) = stream_process(id, state, ended);
    assert!(matches!(action, StreamAction::Drain));
    let (state, action) = stream_process(id, state, StreamEvent::Quiet);
    assert!(matches!(state, StreamState::Finished));
    match action {
        StreamAction::Answer(Frame::Response(r)) => {
            assert_eq!(r.id, id);
            assert!(matches!(r.result, Ok(Reply::CommandOutput { exit_code: Some(0), .. })));
        }
        _ => panic!("no answer"),
    }
    let (_, action) = stream_process(id, StreamState::Running, StreamEvent::WriterGone);
    assert!(matches!(action, StreamAction::Abandon));
    let (_, action) =
        stream_process(id, StreamState::Running, StreamEvent::SpawnFailed("x".to_string()));
    match action {
        StreamAction::Answer(Frame::Response(r)) => {
            assert_eq!(r.result.err().expect("failed").message, "spawn failed: x");
        }
        _ => panic!("no answer"),
    }
}

#[test]
fn pipes_may_close_before_the_end() {
    let id = RequestId(8);
    let (state, action) = stream_process(id, StreamState::Running, StreamEvent::PipesClosed);
    assert!(matches!(action, StreamAction::WaitEnd));
    let (_, action) = stream_process(id, state, StreamEvent::Ended(Outcome::Lost));
    match action {
        StreamAction::Answer(Frame::Response(r)) => assert_eq!(
            r.result.err().expect("lost").message,
            "child monitor task ended unexpectedly"
        ),
        _ => panic!("no answer"),
    }
}

#[test]
fn requests_go_to_their_handlers() {
    let request = |command| Request { id: RequestId(2), command };
    let run = |stream| Command::RunCommand {
        shell: Shell::Sh,
        command: "x".to_string(),
        env: vec![],
        timeout_ms: None,
        stream,
    };
    assert!(matches!(handle(request(run(true))), (RequestId(2), Handling::StreamCommand { .. })));
    assert!(matches!(handle(request(run(false))), (_, Handling::Dispatch(_))));
    let tunnel = Command::Forward { host: None, port: 80 };
    assert!(matches!(handle(request(tunnel)), (_, Handling::Tunnel { port: 80, .. })));
    assert!(matches!(serve(Some(Frame::Request(request(Command::Identity)))), Served::Handle(_)));
    assert!(matches!(serve(Some(Frame::TunnelEof)), Served::Ignore));
    assert!(matches!(serve(None), Served::End));
}

#[test]
fn launch_is_watched_for_a_crash() {
    assert_eq!(
        open_app(None, 0, Polled::Exited(Some(0))),
        LaunchStep::Ended { exit_code: Some(0), look_up: false }
    );
    assert_eq!(
        open_app(None, 0, Polled::Exited(Some(1))),
        LaunchStep::Ended { exit_code: Some(1), look_up: true }
    );
    assert_eq!(open_app(None, 799, Polled::Running), LaunchStep::Wait(50));
    assert_eq!(open_app(None, 800, Polled::Running), LaunchStep::Launched);
    assert_eq!(open_app(Some(0), 0, Polled::Exited(Some(1))), LaunchStep::Launched);
    assert_eq!(open_app(None, 0, Polled::Unknown), LaunchStep::Launched);
    assert!(matches!(
        opened(5, Some(1), Some("boom".to_string())),
        Reply::AppOpened { window: None, pid: 5, exit_code: Some(1), diagnostic: Some(_) }
    ));
    assert!(recent_app_error_query("it's.exe").contains("Escape('it''s.exe')"));
    assert_eq!(recent_app_error(b" fault \r\n").as_deref(), Some("fault"));
    assert_eq!(recent_app_error(b" \r\n"), None);
    assert_eq!(dump_name(3), "arc-procdump-3.dmp");
}

#[test]
fn titled_visible_windows_are_listed() {
    let seen = |handle, visible, title: &str| SeenWindow {
        handle,
        visible,
        title: title.to_string(),
        image: "C:\\Windows\\notepad.exe".to_string(),
        bounds: Some(Bounds { left: 1, top: 2, right: 11, bottom: 22 }),
    };
    let out = visible_windows(vec![seen(1, true, "a"), seen(2, false, "b"), seen(3, true, "")], 1);
    assert_eq!(out.len(), 1);
    assert_eq!((out[0].id, out[0].process.as_str(), out[0].focused), (WindowId(1), "notepad.exe", true));
    assert_eq!(out[0].rect, Rect { x: 1, y: 2, width: 10, height: 20 });
    assert_eq!(process_name("a/b\\c"), "c");
    assert_eq!(process_name("c"), "c");
}

#[test]
fn process_commands_are_quoted() {
    assert_eq!(ps_where(None), "");
    assert_eq!(ps_where(Some("o'x")), " | Where-Object { $_.ProcessName -like '*o''x*' }");
    assert_eq!(
        list_processes(None, false),
        "Get-Process | ForEach-Object { \"$($_.Id)`t$($_.ProcessName)`t$([int]($_.WS/1KB))\" }"
    );
    assert!(list_processes(Some("a"), true).contains("Start-Sleep -Milliseconds 500; "));
    assert_eq!(
        kill_process("42", true),
        "Get-Process -Id 42 -ErrorAction SilentlyContinue | ForEach-Object { \
         \"$($_.Id)`t$($_.ProcessName)\" }"
    );
    assert!(kill_process("a.exe", false)
        .starts_with("Get-Process -Name 'a' -ErrorAction SilentlyContinue | Stop-Process -Force"));
    assert!(identity_command().contains("integrity`t$il"));
    match run_ps("x".to_string()) {
        Command::RunCommand { shell, command, timeout_ms, stream, env } => {
            assert_eq!((shell, command.as_str()), (Shell::PowerShell, "x"));
            assert_eq!((timeout_ms, stream, env.len()), (Some(30_000), false, 0));
        }
        _ => panic!("no command"),
    }
    assert_eq!(ps_output(Reply::Ack), Err(Reply::Ack));
}

#[test]
fn identity_lines_are_pairs() {
    let pairs = identity("account\t me \r\nodd\nadmin\tTrue\tx\n");
    assert_eq!(
        pairs,
        vec![
            ("account".to_string(), "me".to_string()),
            ("admin".to_string(), "True\tx".to_string()),
        ]
    );
}

#[test]
fn processes_are_parsed_and_sorted() {
    let lines = parse_processes("1\ta\t10\t2.5\nx\tb\n 3 \t c \tq\n4\td\t30\n");
    assert_eq!(lines.iter().map(|l| l.pid).collect::<Vec<_>>(), vec![1, 3, 4]);
    assert_eq!(lines[1].name, "c");
    assert_eq!(lines[0].cpu.as_deref(), Some("2.5"));
    let bits = vec![Some(2.5f32.to_bits()), None, Some((-1.0f32).to_bits())];
    let infos = with_cpu_bits(lines, &bits);
    let by_memory = sort_processes(infos.clone(), false);
    assert_eq!(by_memory.iter().map(|p| p.pid).collect::<Vec<_>>(), vec![4, 1, 3]);
    let by_cpu = sort_processes(infos, true);
    assert_eq!(by_cpu.iter().map(|p| p.pid).collect::<Vec<_>>(), vec![1, 4, 3]);
}

#[test]
fn equal_loads_keep_their_order() {
    let p = |pid, cpu: f32| ProcessInfo {
        pid,
        name: String::new(),
        memory_kb: None,
        cpu_bits: Some(cpu.to_bits()),
    };
    let sorted = sort_processes(vec![p(1, 0.0), p(2, -0.0), p(3, 9.5), p(4, 0.0)], true);
    assert_eq!(sorted.iter().map(|p| p.pid).collect::<Vec<_>>(), vec![3, 1, 2, 4]);
}

#[test]
fn text_is_pasted_or_typed() {
    let steps = type_text("hi".to_string(), Some(ElementId("e".to_string())), true);
    assert_eq!(steps.len(), 3);
    assert!(matches!(&steps[0], TypeStep::SetClipboard(t) if t == "hi"));
    assert!(matches!(&steps[1], TypeStep::Focus(e) if e.0 == "e"));
    assert!(matches!(
        &steps[2],
        TypeStep::Chord { modifiers, key: Key::Char('v') } if modifiers[..] == [Modifier::Ctrl]
    ));
    let steps = type_text("hi".to_string(), None, false);
    assert!(matches!(&steps[..], [TypeStep::Keys(t)] if t == "hi"));
    assert_eq!(WindowsBackend.capabilities().len(), 22);
}

#[test]
fn tree_is_walked_without_build_output() {
    assert!(matches!(list_tree(EntryKind::Directory, "src", "src", false), Visit::Descend));
    assert!(matches!(list_tree(EntryKind::Directory, "obj", "obj", false), Visit::Skip));
    assert!(matches!(list_tree(EntryKind::Directory, "obj", "obj", true), Visit::Descend));
    match list_tree(EntryKind::File, "x", "a\\x", false) {
        Visit::List(rel) => assert_eq!(rel, "a/x"),
        _ => panic!("not listed"),
    }
    assert!(matches!(list_tree(EntryKind::Other, "x", "x", false), Visit::Skip));
}

#[test]
fn file_faults_are_reported() {
    assert_eq!(delete_file("f", Err(Fault::Missing)), Ok(Reply::Ack));
    let failed = delete_file("f", Err(Fault::Failed("busy".to_string()))).err().expect("failed");
    assert_eq!(failed.message, "delete f: busy");
    let missing = open_failed("f", Fault::Missing);
    assert_eq!((missing.kind, missing.message.as_str()), (RemoteErrorKind::NotFound, "f: not found"));
    assert_eq!(open_failed("f", Fault::Failed("x".to_string())).message, "open f: x");
    assert_eq!(transfer_failed("seek", "f", "x").message, "seek f: x");
    assert_eq!(hash_file("f".to_string(), None).hash, None);
    assert_eq!(
        hash_file("f".to_string(), Some(vec![])).hash.as_deref(),
        Some("69217a3079908094e11121d042354a7c1f55b6482ca1a51e1b250dfd1ed0eef9")
    );
    assert_eq!(read_file(0, 0), ReadMode { seek: None, limit: None });
    assert_eq!(read_file(5, 0), ReadMode { seek: Some(5), limit: None });
    assert_eq!(read_file(0, 7), ReadMode { seek: None, limit: Some(7) });
    assert_eq!(read_file(5, 7), ReadMode { seek: Some(5), limit: Some(7) });
    assert_eq!(write_file(0), WriteMode::Create);
    assert_eq!(write_file(9), WriteMode::Overwrite(9));
}

#[test]
fn short_reads_are_gathered() {
    let mut filling = Filling::new(4);
    assert_eq!(filling.missing(), 4);
    assert!(!filling.absorb(&[1, 2, 3]));
    assert_eq!(filling.missing(), 1);
    assert!(filling.absorb(&[4]));
    assert_eq!(filling.buffer, vec![1, 2, 3, 4]);
    let mut ended = Filling::new(4);
    assert!(!ended.absorb(&[1]));
    assert!(ended.absorb(&[]));
    assert_eq!(ended.buffer, vec![1]);
}

fn run_steps(mut injection: Injection, fail: &[usize]) -> (Vec<InputOp>, Result<Reply, String>) {
    let mut ops = Vec::new();
    while let Some(op) = injection.next() {
        let failed = fail.contains(&ops.len());
        ops.push(op);
        injection.record(if failed { Err("no".to_string()) } else { Ok(()) });
    }
    (ops, injection.finish().map_err(|e| e.message))
}

fn key(key: KeySym, direction: Direction) -> InputOp {
    InputOp::Key { key, direction }
}

#[test]
fn chord_presses_and_releases() {
    let steps = key_chord(&vec![Modifier::Ctrl, Modifier::Shift], Key::Char('a')).expect("chord");
    let (ops, result) = run_steps(Injection::new(steps), &[]);
    assert_eq!(
        ops,
        vec![
            key(KeySym::Control, Direction::Press),
            key(KeySym::Shift, Direction::Press),
            key(KeySym::Unicode('a'), Direction::Click),
            key(KeySym::Shift, Direction::Release),
            key(KeySym::Control, Direction::Release),
        ]
    );
    assert_eq!(result, Ok(Reply::Ack));
}

#[test]
fn held_keys_are_released_after_a_failure() {
    let steps = key_chord(&vec![Modifier::Ctrl, Modifier::Alt], Key::Enter).expect("chord");
    let (ops, result) = run_steps(Injection::new(steps), &[2]);
    assert!(result.is_err());
    assert_eq!(ops.last(), Some(&key(KeySym::Control, Direction::Release)));
    let steps = key_chord(&vec![Modifier::Ctrl, Modifier::Alt], Key::Enter).expect("chord");
    let (ops, result) = run_steps(Injection::new(steps), &[1]);
    assert!(result.is_err());
    assert_eq!(
        ops,
        vec![
            key(KeySym::Control, Direction::Press),
            key(KeySym::Alt, Direction::Press),
            key(KeySym::Control, Direction::Release),
        ]
    );
}

#[test]
fn function_keys_are_bounded() {
    assert_eq!(map_key(Key::F(12)), Ok(KeySym::Function(12)));
    for n in 1..=24 {
        assert_eq!(map_key(Key::F(n)), Ok(KeySym::Function(n)));
    }
    assert!(map_key(Key::F(0)).is_err());
    assert!(map_key(Key::F(25)).is_err());
    assert_eq!(modifier_key(Modifier::Win), KeySym::Meta);
}

#[test]
fn drag_holds_the_button_between_two_moves() {
    let steps = mouse(MouseAction::Drag {
        from_x: 1,
        from_y: 2,
        to_x: 3,
        to_y: 4,
        button: MouseButton::Right,
    });
    let (ops, _) = run_steps(Injection::new(steps), &[]);
    let press = |direction| InputOp::Button { button: MouseButton::Right, direction, times: 1 };
    assert_eq!(ops.first(), Some(&InputOp::MoveTo { x: 1, y: 2 }));
    assert!(ops.contains(&press(Direction::Press)));
    assert_eq!(ops.last(), Some(&press(Direction::Release)));
}

#[test]
fn element_ids_round_trip() {
    for (hwnd, id) in [(0u64, vec![]), (7, vec![1, -2, i32::MIN]), (u64::MAX, vec![0])] {
        let text = encode_element_id(hwnd, &id);
        if id.is_empty() {
            continue;
        }
        assert_eq!(parse_element_id(&text), Ok((hwnd, id)));
    }
    assert_eq!(encode_element_id(7, &[1, -2]), "7:1.-2");
    assert!(parse_element_id("x").is_err());
    let present = vec![vec![1], vec![2, 3]];
    assert_eq!(resolve(&present, &[2, 3]), Ok(1));
    assert_eq!(resolve(&present, &[9]).map_err(|e| e.kind), Err(RemoteErrorKind::NotFound));
}

#[test]
fn elements_are_described() {
    let seen = Seen {
        runtime_id: vec![1, 2],
        name: Some("OK".to_string()),
        automation_id: Some(String::new()),
        control_type: Some(50000),
        enabled: Some(true),
        offscreen: Some(false),
        value: None,
        bounds: Some(Bounds { left: 0, top: 0, right: 4, bottom: 2 }),
    };
    let info = describe(seen, 3);
    assert_eq!((info.id.0.as_str(), info.control_type.as_str()), ("3:1.2", "Button"));
    assert!(info.actionable);
    assert_eq!(info.rect, Rect { x: 0, y: 0, width: 4, height: 2 });
    assert_eq!(control_type_name(1), "ControlType(1)");
    assert_eq!((half(5), half(-5)), (2, -2));
    let b = Bounds { left: -3, top: 0, right: 0, bottom: 4 };
    assert!(b.is_sized() && b.is_centred());
    assert_eq!(b.centre(), (-1, 2));
}

fn element(name: &str) -> ElementInfo {
    ElementInfo {
        id: ElementId(name.to_string()),
        control_type: "Button".to_string(),
        name: Some(name.to_string()),
        automation_id: None,
        value: None,
        rect: Rect::default(),
        actionable: true,
    }
}

#[test]
fn search_is_repeated_until_the_deadline() {
    let query = ElementQuery { name: Some("a".to_string()), ..ElementQuery::default() };
    let found = find_step(vec![element("a"), element("b")], &query, Some(9), false);
    match found {
        FindStep::Answer(Ok(Reply::Elements(hits))) => assert_eq!(hits, vec![element("a")]),
        _ => panic!("not found"),
    }
    assert!(matches!(find_step(vec![element("b")], &query, Some(9), false), FindStep::Again(_)));
    assert!(matches!(
        find_step(vec![element("b")], &query, None, false),
        FindStep::Answer(Ok(Reply::Elements(hits))) if hits.is_empty()
    ));
    assert!(matches!(find_step(vec![], &query, Some(9), true), FindStep::Answer(_)));
}

#[test]
fn install_arguments() {
    let args = parse_install(&list(&["--tailscale", "--port", "99", "--allow", "me"])).ok();
    let args = args.expect("parsed");
    assert!(args.tailscale && args.port == 99);
    assert_eq!(install_lookups(&args), Lookups { ip: true, owner: false });
    let plan = run_install(args, Some("100.1.2.3".to_string()), None).ok().expect("plan");
    assert_eq!(plan.listen.as_deref(), Some("100.1.2.3:99"));
    assert!(plan.trust && plan.allow == list(&["me"]));
    let lines = install_preview(&plan, "a.exe", "c.toml").join("\n");
    assert!(lines.contains("  mode    : direct, listen 100.1.2.3:99"));
    assert!(lines.contains("  allow   : me") && lines.contains("  trust   : true"));
    assert_eq!(
        parse_install(&list(&["--port", "x"])).err().as_deref(),
        Some("--port needs a port number")
    );
    assert_eq!(
        parse_install(&list(&["-x"])).err().as_deref(),
        Some("unknown `install` argument: -x")
    );
}

#[test]
fn install_refuses_what_it_cannot_resolve() {
    let parsed = |items: &[&str]| parse_install(&list(items)).ok().expect("parsed");
    let refused = |items: &[&str], ip: Option<&str>, owner: Option<&str>| {
        run_install(parsed(items), ip.map(str::to_string), owner.map(str::to_string))
            .err()
            .unwrap_or_default()
    };
    assert!(refused(&[], None, None).starts_with("pass --tailscale"));
    assert!(refused(&["--tailscale", "--relay", "x"], None, None).contains("drop --relay"));
    assert!(refused(&["--tailscale"], None, None).contains("Tailscale IP"));
    assert!(refused(&["--tailscale"], Some("1.1.1.1"), None).contains("Tailscale owner"));
    let plan = run_install(
        parsed(&["--tailscale"]),
        Some("1.1.1.1".to_string()),
        Some("me".to_string()),
    );
    let plan = plan.ok().expect("plan");
    assert_eq!((plan.listen.as_deref(), plan.allow), (Some("1.1.1.1:8787"), list(&["me"])));
    assert!(plan.notice.expect("notice").contains("owner: me\n"));
}

#[test]
fn credentials_are_minted_or_kept() {
    assert!(mints(true, true) && mints(false, false) && !mints(false, true));
    let session = SessionId::from_bytes([1; 16]);
    let code = PairingCode::parse("TEST-1234").ok();
    let plan = run_install(parse_install(&list(&["--listen", "a:1"])).ok().expect("args"), None, None)
        .ok()
        .expect("plan");
    let config = minted_config(&plan, &session, &code);
    assert_eq!(config.session, Some("01".repeat(16)));
    assert_eq!(config.pairing.as_deref(), Some("TEST-1234"));
    assert_eq!((config.trust_tailnet, config.allow_logins.clone()), (None, None));
    let (kept, pairing) = kept_credentials(&Some(config)).ok().expect("kept");
    assert_eq!(kept, session);
    assert_eq!(pairing.expect("code").as_str(), "TEST-1234");
    assert!(kept_credentials(&None).err().expect("refused").contains("unreadable"));
    let empty = kept_credentials(&Some(RunnerConfig::default())).err().expect("refused");
    assert!(empty.contains("no valid session"));
    let made = credentials(&plan, true, true, &None).ok().expect("made");
    let stored = made.store.clone().expect("a configuration to store");
    assert_eq!(stored.session, Some(made.session.to_string()));
    assert_eq!(stored.pairing, made.pairing.as_ref().map(|c| c.to_string()));
    assert_eq!(stored.listen.as_deref(), Some("a:1"));
    let kept = credentials(&plan, false, true, &Some(stored)).ok().expect("kept");
    assert!(kept.store.is_none());
    assert_eq!(kept.session, made.session);
    assert!(credentials(&plan, false, true, &None).is_err());
    let mut trusting = plan;
    trusting.trust = true;
    let made = credentials(&trusting, false, false, &None).ok().expect("made");
    assert!(made.pairing.is_none());
    assert_eq!(made.store.as_ref().and_then(|c| c.trust_tailnet), Some(true));
    let lines = installed(true, &trusting, &made).ok().expect("lines");
    assert!(lines[0].starts_with("Installed: scheduled task 'arc-runner'"));
    assert!(lines.contains(&"  trust_tailnet = true".to_string()));
    assert_eq!(installed(false, &trusting, &made).err().as_deref(), Some("schtasks /create failed"));
    assert_eq!(
        kept_notice("p"),
        "Keeping existing credentials (p); pass --repair to regenerate.\n"
    );
}

#[test]
fn controller_target_is_printed() {
    let session = SessionId::from_bytes([1; 16]);
    let code = PairingCode::parse("TEST-1234").ok();
    let text =
        print_controller_target(&None, &Some("ws://r".to_string()), false, &session, &code).join("\n");
    assert!(text.contains("  relay   = \"ws://r\""));
    assert!(text.contains("  pairing = \"TEST-1234\""));
    let text = print_controller_target(&Some("a:1".to_string()), &None, true, &session, &None).join("\n");
    assert!(text.contains("  direct  = \"a:1\"") && text.contains("  trust_tailnet = true"));
}

#[test]
fn pairing_is_saved_and_reported() {
    let args = run_pair(&list(&["--listen", "a:1"])).ok().expect("args");
    let session = SessionId::from_bytes([1; 16]);
    let code = PairingCode::parse("TEST-1234").ok().expect("code");
    let config = paired_config(&session, &code, &args);
    assert_eq!(config.listen.as_deref(), Some("a:1"));
    assert!(pair_report("p", &session, &code, &args).join("\n").contains("saved to p"));
    assert_eq!(
        run_pair(&list(&["x"])).err().as_deref(),
        Some("unknown `pair` argument: x")
    );
}

fn downloaded(dry_run: bool) -> (Upgrade, UpgradeAction) {
    let flags: &[&str] = if dry_run { &["--dry-run"] } else { &[] };
    let args = parse_upgrade(&list(flags)).ok().expect("args");
    let (state, line, action) = run_upgrade(&args, "C:/new");
    assert!(line.starts_with("Downloading https://github.com/"));
    match action {
        UpgradeAction::Download(words) => {
            assert_eq!(words[1], "-Command");
            assert!(words[2].ends_with("arc-runner.exe' -OutFile 'C:/new'"));
        }
        _ => panic!("no download"),
    }
    let (state, action) = upgrade(state, UpgradeEvent::Ran(Ok(true)));
    assert!(matches!(action, UpgradeAction::Inspect));
    upgrade(state, UpgradeEvent::Inspected(Ok((b"MZ".to_vec(), 1_000_000))))
}

fn moved_aside() -> Upgrade {
    let (state, action) = downloaded(false);
    assert!(matches!(action, UpgradeAction::Tasks(w) if w == list(&["/end", "/tn", "arc-runner"])));
    let (state, action) = upgrade(state, UpgradeEvent::Ran(Err("no such task".to_string())));
    assert!(matches!(action, UpgradeAction::Rest(3000)));
    let (state, action) = upgrade(state, UpgradeEvent::Rested);
    assert!(matches!(action, UpgradeAction::Remove(Place::Backup)));
    let (state, action) = upgrade(state, UpgradeEvent::Filed(Err("absent".to_string())));
    assert!(matches!(action, UpgradeAction::Move(Place::Current, Place::Backup)));
    state
}

#[test]
fn upgrade_swaps_and_restarts() {
    let (state, action) = upgrade(moved_aside(), UpgradeEvent::Filed(Ok(())));
    assert!(matches!(action, UpgradeAction::Move(Place::Fresh, Place::Current)));
    let (state, action) = upgrade(state, UpgradeEvent::Filed(Ok(())));
    assert!(matches!(action, UpgradeAction::Remove(Place::Backup)));
    let (state, action) = upgrade(state, UpgradeEvent::Filed(Err("in use".to_string())));
    assert!(matches!(action, UpgradeAction::Tasks(w) if w == list(&["/run", "/tn", "arc-runner"])));
    let (_, action) = upgrade(state, UpgradeEvent::Ran(Ok(false)));
    assert!(matches!(
        action,
        UpgradeAction::Report(m)
            if m == "Upgraded arc-runner (1000000 bytes) and restarted task 'arc-runner'."
    ));
}

#[test]
fn failed_upgrade_goes_back() {
    let (_, action) = upgrade(moved_aside(), UpgradeEvent::Filed(Err("locked".to_string())));
    assert!(matches!(action, UpgradeAction::Fail(m) if m == "moving old binary aside: locked"));
    let (state, _) = upgrade(moved_aside(), UpgradeEvent::Filed(Ok(())));
    let (state, action) = upgrade(state, UpgradeEvent::Filed(Err("denied".to_string())));
    assert!(matches!(action, UpgradeAction::Move(Place::Backup, Place::Current)));
    let (_, action) = upgrade(state, UpgradeEvent::Filed(Ok(())));
    assert!(matches!(action, UpgradeAction::Fail(m) if m == "installing new binary: denied"));
    let failed = Upgrade::Downloading { dry_run: false };
    let (_, action) = upgrade(failed, UpgradeEvent::Ran(Ok(false)));
    assert!(matches!(action, UpgradeAction::Fail(m) if m == "download failed"));
}

#[test]
fn dry_upgrade_only_checks() {
    let (state, action) = downloaded(true);
    assert!(matches!(action, UpgradeAction::Remove(Place::Fresh)));
    let (_, action) = upgrade(state, UpgradeEvent::Filed(Ok(())));
    assert!(matches!(action, UpgradeAction::Report(m) if m.starts_with("upgrade --dry-run:")));
}

#[test]
fn upgrade_is_checked() {
    let args = parse_upgrade(&list(&["--version", "v1", "--dry-run"])).ok().expect("args");
    assert!(args.dry_run);
    assert_eq!(
        upgrade_url(&args.version),
        "https://github.com/agent-rt/arc/releases/download/v1/arc-runner.exe"
    );
    assert!(upgrade_url(&None).contains("/latest/download/"));
    assert!(matches!(check_download(b"MZ", 999_999, false), UpgradeStep::Refuse(_)));
    assert!(matches!(check_download(b"PK", 9_999_999, false), UpgradeStep::Refuse(_)));
    assert!(matches!(check_download(b"MZ", 1_000_000, true), UpgradeStep::Preview(_)));
    assert!(matches!(check_download(b"MZ", 1_000_000, false), UpgradeStep::Swap(_)));
    assert!(register_task("a b.exe").contains(&"\"a b.exe\"".to_string()));
    assert!(run_uninstall(true).starts_with("Uninstalled"));
    assert!(run_uninstall(false).starts_with("No scheduled task"));
}

#[test]
fn tailscale_answers_are_read() {
    let status = br#"{"Self":{"UserID":7},"User":{"7":{"LoginName":"me@x"}}}"#;
    assert_eq!(tailscale_owner_login(status).as_deref(), Some("me@x"));
    assert_eq!(tailscale_owner_login(br#"{"Self":{"UserID":8},"User":{}}"#), None);
    assert_eq!(tailscale_owner_login(b"{"), None);
    let odd = b"{\"Self\":{\"UserID\":7,\"HostName\":\"\xff\"},\"User\":{\"7\":{\"LoginName\":\"me@x\"}}}";
    assert_eq!(tailscale_owner_login(odd).as_deref(), Some("me@x"));
    let whois = br#"{"UserProfile":{"LoginName":"you@x"}}"#;
    assert_eq!(whois_login(whois).as_deref(), Some("you@x"));
    assert_eq!(whois_login(b"{}"), None);
    assert_eq!(tailscale_ip(" 100.1.1.1 \n100.2.2.2\n").as_deref(), Some("100.1.1.1"));
    assert_eq!(tailscale_ip("\n"), None);
    assert_eq!(
        tailscale_candidates(&Some("C:\\PF".to_string())),
        list(&["tailscale", "C:\\PF\\Tailscale\\tailscale.exe"])
    );
    assert!(authorize_tailnet(&Some("me".to_string()), &vec![]));
    assert!(authorize_tailnet(&Some("me".to_string()), &list(&["you", "me"])));
    assert!(!authorize_tailnet(&Some("me".to_string()), &list(&["you"])));
    assert!(!authorize_tailnet(&None, &vec![]));
}

#[test]
fn runner_configuration_is_resolved() {
    assert_eq!(listen_addr(&list(&["x", "--listen", "a:1"]), None).as_deref(), Some("a:1"));
    assert_eq!(listen_addr(&vec![], Some("b:2".to_string())).as_deref(), Some("b:2"));
    assert_eq!(listen_addr(&vec![], Some(String::new())), None);
    let file = Some(RunnerConfig {
        session: Some("01".repeat(16)),
        pairing: Some("TEST-1234".to_string()),
        relay: Some("ws://r".to_string()),
        ..RunnerConfig::default()
    });
    let code = resolve_pairing(None, &file).ok().expect("code");
    assert_eq!(code.as_str(), "TEST-1234");
    let code = resolve_pairing(Some("AAAA-2222".to_string()), &file).ok().expect("code");
    assert_eq!(code.as_str(), "AAAA-2222");
    assert!(resolve_pairing(None, &None).err().expect("none").starts_with("no pairing code"));
    let config = resolve_relay_config(None, &file).ok().expect("config");
    assert_eq!(config.session.to_string(), "01".repeat(16));
    assert!(resolve_relay_config(None, &None).is_err());
    assert_eq!(runner_mode(&list(&["pair"])), RunnerMode::Pair);
    assert_eq!(runner_mode(&list(&["-V"])), RunnerMode::Version);
    assert_eq!(runner_mode(&vec![]), RunnerMode::Serve);
    assert_eq!(
        config_path(None, None, Some("/h".to_string())).as_deref(),
        Some("/h/.config/arc/runner.toml")
    );
    assert_eq!(config_path(Some("e".to_string()), None, None).as_deref(), Some("e"));
    assert_eq!(config_path(None, None, None), None);
}
