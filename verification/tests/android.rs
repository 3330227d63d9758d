use arc::android::backend::AndroidBackend;
use arc::android::cap::{
    activate_window, android_keycode, can_scroll, click, command_output, crop_png,
    current_length, dump_path, element_at, identity, key_chord, key_event, kill_call, kill_process,
    list_processes, list_windows, middle_of, mouse, no_such_process, open_app, parse_bounds_id,
    pid_call, png_dimensions, proc_dump, ps_call, ps_snapshot, read_element, read_pid,
    resumed_call, run, run_command, run_detached, run_script, screen_size, screenshot, scroll_size, set_value,
    title_of, type_text, Invocation, Shot,
};
use arc::android::nodes::{
    dump, find_elements, nesting_of, parse_bounds, parse_nodes, Dump, MAX_NESTING,
};
use arc::android::service::{parse_args, serve, supervise, Mode, Received};
use arc::capture::Pixels;
use arc::proto::id::{ElementId, RequestId, WindowId};
use arc::proto::wire::{
    Capability, CaptureTarget, ClickTarget, Command, ElementInfo, ElementQuery, Frame,
    ImageFormat, Key, MouseAction, MouseButton, ProcessInfo, Rect, RemoteErrorKind, Reply,
    Request,
};
use arc::runner::capture::{decode, encode};
use arc::runner::uia::Bounds;

const SCREEN: &str = r#"<?xml version='1.0' encoding='UTF-8'?>
<hierarchy rotation="0">
  <node text="" resource-id="root" class="android.widget.FrameLayout" clickable="false"
        content-desc="" bounds="[0,0][100,200]">
    <node text="OK" resource-id="app:id/ok" class="android.widget.Button" clickable="true"
          enabled="true" content-desc="" bounds="[10,20][50,40]"/>
    <node text="" resource-id="" class="android.widget.EditText" clickable="false"
          content-desc="Search" bounds="[0,50][100,60]"/>
    <node text="odd" bounds="nowhere"/>
  </node>
</hierarchy>"#;

fn elements() -> Vec<ElementInfo> {
    match parse_nodes(SCREEN).expect("parsed") {
        Dump::Elements(els) => els,
        _ => panic!("not listed"),
    }
}

fn line(call: &Invocation) -> String {
    format!("{} {}", call.program, call.args.join(" "))
}

#[test]
fn screen_is_read_into_elements() {
    let els = elements();
    let ok = els
        .iter()
        .find(|e| e.value.as_deref() == Some("OK"))
        .expect("the button");
    assert_eq!(ok.rect, Rect { x: 10, y: 20, width: 40, height: 20 });
    assert_eq!(ok.automation_id.as_deref(), Some("app:id/ok"));
    assert!(ok.actionable && ok.name.is_none());
    assert_eq!((ok.control_type.as_str(), ok.id.0.as_str()), ("Button", "10,20,50,40"));
    assert_eq!(els.len(), 3);
    assert!(!els[2].actionable);
    assert_eq!((els[2].name.as_deref(), els[2].value.as_deref()), (Some("Search"), Some("Search")));
    assert!(els.iter().all(|e| e.value.as_deref() != Some("odd")));
    let b = parse_bounds_id(&ok.id.0).expect("edges");
    assert_eq!(b, Bounds { left: 10, top: 20, right: 50, bottom: 40 });
    assert_eq!(middle_of(&b), (30, 30));
}

#[test]
fn broken_screen_dump_is_refused() {
    let refused = parse_nodes("<a><b></a>").err().expect("refused");
    assert_eq!(refused.kind, RemoteErrorKind::Os);
    let huge = r#"<h><node text="x" bounds="[-2147483648,0][2147483647,1]"/></h>"#;
    assert!(matches!(parse_nodes(huge), Ok(Dump::OutOfRange)));
}

#[test]
fn nesting_counts_open_elements() {
    assert_eq!(nesting_of(SCREEN), 3);
    assert_eq!(nesting_of(""), 0);
    assert_eq!(nesting_of("<a/><b/><c></c>"), 1);
    assert_eq!(nesting_of("<a x='/>' y=\"</a>\"><b z='>'/></a>"), 2);
    assert_eq!(nesting_of("<a><!-- </a> --><b><![CDATA[</b></a>]]><?p </b>?><c/></b></a>"), 3);
    assert_eq!(nesting_of("<a><!-- <b><c> -->x<![CDATA[<b><c>]]><?p <b><c> ?></a>"), 1);
}

#[test]
fn deep_screen_dump_is_not_read() {
    let nested = |n: usize| format!("{}{}", "<node>".repeat(n), "</node>".repeat(n));
    assert!(matches!(parse_nodes(&nested(MAX_NESTING)), Ok(Dump::Elements(els)) if els.is_empty()));
    assert!(matches!(parse_nodes(&nested(MAX_NESTING + 1)), Ok(Dump::TooDeep)));
    assert!(matches!(parse_nodes(&"<node>".repeat(200_000)), Ok(Dump::TooDeep)));
    let hidden = "<node><!--</node>-->".repeat(200_000);
    assert!(matches!(parse_nodes(&hidden), Ok(Dump::TooDeep)));
    let flat = format!("<h>{}</h>", "<node/>".repeat(20_000));
    assert!(matches!(parse_nodes(&flat), Ok(Dump::Elements(_))));
}

#[test]
fn only_listed_nodes_must_be_in_range() {
    let good = r#"<node text="x" bounds="[0,0][10,10]"/>"#;
    let huge = r#"<node text="x" bounds="[-2147483648,0][2147483647,1]"/>"#;
    let full = format!("<h>{}{huge}</h>", good.repeat(250));
    match parse_nodes(&full) {
        Ok(Dump::Elements(els)) => assert_eq!(els.len(), 250),
        _ => panic!("not listed"),
    }
    let room = format!("<h>{}{huge}</h>", good.repeat(249));
    assert!(matches!(parse_nodes(&room), Ok(Dump::OutOfRange)));
}

#[test]
fn bounds_are_four_numbers() {
    assert_eq!(
        parse_bounds("[1,2][3,-4]"),
        Some(Bounds { left: 1, top: 2, right: 3, bottom: -4 })
    );
    assert_eq!(parse_bounds("[1,2][3]"), None);
    assert_eq!(parse_bounds(""), None);
    assert!(parse_bounds_id("nonsense").is_err());
}

#[test]
fn elements_are_found_by_query() {
    let query = ElementQuery { name: Some("Search".to_string()), ..ElementQuery::default() };
    let hits = find_elements(elements(), &query);
    assert_eq!(hits.len(), 1);
    assert_eq!(line(&dump("/x.xml")), "sh -c uiautomator dump /x.xml >/dev/null 2>&1");
}

#[test]
fn elements_are_found_by_place() {
    let els = elements();
    let at = element_at(&els, 30, 30).expect("something");
    assert_eq!(els[at].value.as_deref(), Some("OK"));
    assert_eq!(element_at(&els, 1000, 1000), None);
    assert_eq!(current_length(&els, Some(at)), 2);
    assert_eq!(current_length(&els, None), 0);
    let id = els[at].id.0.clone();
    assert_eq!(read_element(&id, &els), Ok("OK".to_string()));
}

#[test]
fn calls_report_their_failure() {
    assert_eq!(run("ls", true, Some(0), vec![1], b""), Ok(vec![1]));
    let failed = run("ls", false, Some(2), vec![], b"gone\n").err().expect("failed");
    assert_eq!(failed.kind, RemoteErrorKind::Os);
    assert_eq!(failed.message, "ls exited 2: gone");
    assert_eq!(run("ls", false, None, vec![], b"").err().expect("failed").message, "ls exited -1: ");
    match command_output(b"a\xff", b"b", Some(3)) {
        Reply::CommandOutput { stdout, stderr, exit_code } => {
            assert_eq!(stdout, "a\u{fffd}");
            assert_eq!((stderr.as_str(), exit_code), ("b", Some(3)));
        }
        _ => panic!("no output"),
    }
}

#[test]
fn scripts_are_handed_to_the_shell() {
    let env = || vec![("A".to_string(), "1".to_string()), ("A".to_string(), "2".to_string())];
    let call = run_command("echo hi", env());
    assert_eq!((line(&call).as_str(), call.env), ("sh -c echo hi", env()));
    let call = run_script("echo $1", &vec!["a".to_string()], env());
    assert_eq!(call.env, env());
    assert_eq!(call.args[..2], ["-c".to_string(), "echo $1".to_string()]);
    assert_eq!(call.args.last().map(String::as_str), Some("a"));
    let detached = run_detached(RequestId(7), &vec![], env());
    assert_eq!(detached.call.env, env());
    assert_eq!(detached.script, "/data/local/tmp/arc-detached-7.sh");
    assert_eq!(detached.log, "/data/local/tmp/arc-detached-7.log");
    assert_eq!(line(&detached.call), "sh /data/local/tmp/arc-detached-7.sh");
}

#[test]
fn process_table_is_read() {
    let table = b"  PID %CPU RSS NAME\n    1 0.5 2048 init\n  300 12 x com.app a\nbad\n 7 1 1\n";
    let list = ps_snapshot(table);
    assert_eq!(list.len(), 2);
    assert_eq!((list[0].pid, list[0].memory_kb), (1, Some(2048)));
    assert_eq!((list[1].name.as_str(), list[1].memory_kb), ("com.app a", None));
    assert_eq!(list[1].cpu.as_deref(), Some("12"));
    assert_eq!(line(&ps_call()), "ps -A -o PID,PCPU,RSS,NAME");
}

fn process(pid: u32, name: &str, memory: u64) -> ProcessInfo {
    ProcessInfo { pid, name: name.to_string(), memory_kb: Some(memory), cpu_bits: None }
}

#[test]
fn processes_are_filtered_and_ordered() {
    let list = vec![process(1, "init", 5), process(2, "App", 50), process(3, "app2", 500)];
    let out = list_processes(list.clone(), Some("APP"), false);
    assert_eq!(out.iter().map(|p| p.pid).collect::<Vec<_>>(), vec![3, 2]);
    let hit = kill_process(list.clone(), "2").expect("by number");
    assert_eq!(hit.len(), 1);
    assert_eq!(hit[0].pid, 2);
    assert_eq!(kill_process(list.clone(), "none"), Ok(vec![]));
    assert_eq!(kill_process(list.clone(), "APP.exe").expect("by name")[0].pid, 2);
    let bad = kill_process(list, "99999999999").err().expect("bad number");
    assert_eq!((bad.kind, bad.message.as_str()), (RemoteErrorKind::Invalid, "bad pid: 99999999999"));
}

#[test]
fn process_dump_has_its_sections() {
    let ok = |s: &str| Ok(s.to_string());
    let text = proc_dump(9, ok("cmd"), ok("st"), Err("denied".to_string()), ok("s"), ok("m"));
    for part in ["cmdline", "status", "wchan", "stat", "maps", "denied"] {
        assert!(text.contains(part), "{part}");
    }
    assert_eq!(dump_path(9), "/data/local/tmp/arc-procdump-9.txt");
    assert!(text.starts_with("# arc proc dump of pid 9 "));
    assert!(text.contains("===== /proc/9/wchan =====\n<unavailable: denied>\n\n"));
    assert_eq!(no_such_process(9).kind, RemoteErrorKind::Invalid);
}

#[test]
fn identity_names_the_user() {
    let pairs = identity(b"2000\n", b"shell\n", Some(b"u:r:shell:s0\n".to_vec()));
    let pair = |k: &str, v: &str| (k.to_string(), v.to_string());
    assert_eq!(
        pairs,
        vec![
            pair("account", "shell (uid 2000)"),
            pair("elevated", "false"),
            pair("selinux", "u:r:shell:s0"),
        ]
    );
    assert_eq!(identity(b"0", b"root", Some(b" ".to_vec()))[1..], [pair("elevated", "true")]);
}

fn picture() -> Vec<u8> {
    let data = (0..6u8 * 4 * 4).collect();
    encode(&Pixels { width: 6, height: 4, data }, ImageFormat::Png).expect("png")
}

#[test]
fn png_header_gives_the_size() {
    assert_eq!(png_dimensions(&picture()), Some((6, 4)));
    assert_eq!(png_dimensions(b"GIF89a"), None);
}

#[test]
fn png_is_cropped() {
    let rect = Rect { x: 1, y: 2, width: 3, height: 10 };
    match crop_png(&picture(), rect).expect("cropped") {
        Reply::Image(image) => {
            assert_eq!((image.width, image.height), (3, 2));
            assert_eq!(image.format, ImageFormat::Png);
            let part = decode(&image.data).expect("decoded");
            let first = (2 * 6 + 1) * 4;
            assert_eq!(part.data[..4], [first, first + 1, first + 2, first + 3]);
            let second = first + 6 * 4;
            let all: Vec<u8> = (first..first + 12).chain(second..second + 12).collect();
            assert_eq!((part.width, part.height, part.data), (3, 2, all));
        }
        _ => panic!("no image"),
    }
    assert!(crop_png(b"no png", rect).is_err());
}

#[test]
fn screenshot_of_what_was_asked() {
    let whole = screenshot(&picture(), &CaptureTarget::FullScreen);
    assert!(matches!(whole, Ok(Shot::Whole { width: 6, height: 4 })));
    let window = screenshot(&picture(), &CaptureTarget::Window(WindowId(1)));
    assert!(matches!(window, Ok(Shot::Whole { .. })));
    let region = CaptureTarget::Region { x: 1, y: 1, width: 2, height: 2 };
    assert!(matches!(
        screenshot(&picture(), &region),
        Ok(Shot::Part(Rect { x: 1, y: 1, width: 2, height: 2 }))
    ));
    assert!(screenshot(b"", &CaptureTarget::FullScreen).is_err());
}

#[test]
fn taps_and_swipes() {
    let point = ClickTarget::Point { x: 4, y: 5, button: MouseButton::Left };
    assert_eq!(click(&point), Ok((4, 5)));
    let id = elements()
        .into_iter()
        .find(|e| e.value.as_deref() == Some("OK"))
        .expect("the button")
        .id;
    assert_eq!(click(&ClickTarget::Element(id)), Ok((30, 30)));
    assert!(click(&ClickTarget::Element(ElementId("x".to_string()))).is_err());
    let tap = MouseAction::Click { x: 1, y: 2, button: MouseButton::Left, count: 1 };
    assert_eq!(line(&mouse(tap, (100, 100)).expect("tap")), "input tap 1 2");
    let drag =
        MouseAction::Drag { from_x: 1, from_y: 2, to_x: 3, to_y: 4, button: MouseButton::Left };
    assert!(line(&mouse(drag, (100, 100)).expect("drag")).starts_with("input swipe 1 2 3 4"));
    assert!(mouse(MouseAction::Move { x: 1, y: 1 }, (100, 100)).is_err());
    assert!(can_scroll((1000, 2000), 0, 3));
    let scroll = mouse(MouseAction::Scroll { dx: 0, dy: 1 }, (1000, 2000)).expect("scroll");
    assert_eq!(line(&scroll), "input swipe 500 1000 500 700 300");
    assert!(!can_scroll((1000, 2000), 0, i32::MAX));
    assert_eq!(scroll_size(Some((10, 20))), (10, 20));
}

#[test]
fn keys_have_codes() {
    assert_eq!(android_keycode(Key::Enter), Some("66"));
    assert_eq!(android_keycode(Key::Char('a')), None);
    assert_eq!(line(&key_chord(Key::Char('a')).expect("typed")), "input text a");
    assert_eq!(line(&key_chord(Key::Enter).expect("enter")), "input keyevent 66");
    assert_eq!(line(&key_event("66")), "input keyevent 66");
    let unmapped = key_chord(Key::F(5)).err().expect("unmapped");
    assert_eq!(unmapped.message, "android MVP has no keycode mapping for F(5)");
    assert_eq!(line(&type_text("a b")), "input text a%sb");
}

#[test]
fn value_is_replaced() {
    let calls = set_value(3, 4, 2, "new");
    assert_eq!(line(&calls[0]), "input tap 3 4");
    assert_eq!(line(&calls[1]), "input keyevent 123");
    assert_eq!(line(&calls[2]), "input keyevent 67 67");
    assert_eq!(line(&calls[3]), "input text new");
    assert_eq!(calls.len(), 4);
    assert_eq!(set_value(3, 4, 0, "").len(), 2);
    assert_eq!(set_value(3, 4, 900, "")[2].args.len(), 501);
}

#[test]
fn windows_are_the_resumed_activity() {
    let out = b"  mResumedActivity: ActivityRecord{1 u0 com.app/.Main} t7}\n";
    let window = list_windows(out, Some((100, 200)));
    assert_eq!(window.title, "com.app/.Main");
    assert_eq!(title_of(b""), "foreground");
    assert_eq!((window.id, window.process.as_str(), window.focused), (WindowId(0), "android", true));
    assert_eq!(window.rect, Rect { x: 0, y: 0, width: 100, height: 200 });
    assert_eq!(screen_size(b"Physical size: 1080x2400\n"), Some((1080, 2400)));
    assert_eq!(screen_size(b"nothing"), None);
}

#[test]
fn apps_are_started() {
    assert_eq!(line(&open_app("com.app/.Main")), "am start -n com.app/.Main");
    assert_eq!(
        line(&open_app("com.app")),
        "monkey -p com.app -c android.intent.category.LAUNCHER 1"
    );
    assert_eq!(line(&pid_call("com.app/.Main")), "pidof com.app");
    assert_eq!(read_pid(Some(b"12 34\n".to_vec())), 12);
    assert_eq!(read_pid(None), 0);
    let (first, second) = activate_window();
    assert_eq!(line(&first), "input keyevent 224");
    assert_eq!(line(&second), "wm dismiss-keyguard");
}

#[test]
fn service_modes() {
    let args = |list: &[&str]| list.iter().map(|s| s.to_string()).collect::<Vec<_>>();
    let serve_mode = parse_args(args(&["0.0.0.0:1", "TEST-1234"]), None);
    assert!(matches!(serve_mode, Ok(Mode::Serve { addr, .. }) if addr == "0.0.0.0:1"));
    let from_env = parse_args(vec![], Some("TEST-1234".to_string()));
    assert!(matches!(from_env, Ok(Mode::Serve { addr, .. }) if addr == "0.0.0.0:8787"));
    let supervised = parse_args(args(&["--supervise", "a", "b"]), None);
    assert!(matches!(supervised, Ok(Mode::Supervise(rest)) if rest == args(&["a", "b"])));
    assert_eq!(
        parse_args(args(&["a", "bad"]), None).err().as_deref(),
        Some("pairing must be XXXX-XXXX")
    );
    assert_eq!(
        parse_args(vec![], None).err().as_deref(),
        Some("usage: arc-runner-android [--supervise] <listen-addr> <pairing XXXX-XXXX>")
    );
}

#[test]
fn crashes_are_retried_ever_later() {
    assert_eq!(supervise(1, 0), (1, 2));
    assert_eq!(supervise(16, 0), (16, 30));
    assert_eq!(supervise(30, 0), (30, 30));
    assert_eq!(supervise(16, 30), (1, 2));
}

#[test]
fn requests_are_answered_until_the_end() {
    let request = Request { id: RequestId(1), command: Command::Identity };
    assert!(matches!(serve(Some(Frame::Request(request))), Received::Answer(_)));
    assert!(matches!(serve(Some(Frame::TunnelEof)), Received::Ignore));
    assert!(matches!(serve(None), Received::Close));
}

#[test]
fn capabilities_are_listed() {
    let caps = AndroidBackend.capabilities();
    assert!(caps.contains(&Capability::Screenshot));
    assert!(!caps.contains(&Capability::ClipboardGet));
}

#[test]
fn tools_are_called_by_name() {
    let call = kill_call(42);
    assert_eq!((call.program.as_str(), call.args), ("kill", vec!["-9".to_string(), "42".to_string()]));
    let call = resumed_call();
    assert_eq!((call.program.as_str(), call.args[0].as_str()), ("sh", "-c"));
    assert!(call.args[1].contains("mResumedActivity"));
}
