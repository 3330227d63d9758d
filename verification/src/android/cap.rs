//! What the Android runner does with the device's tools (`screencap`, `input`,
//! `uiautomator`, `ps`): how it calls them and what it reads out of their output.

use vstd::prelude::*;

use crate::capture::{at_least_zero, clipped, part};
use crate::cli::exec::pair_texts;
use crate::number;
use crate::proto::id::{RequestId, WindowId};
use crate::proto::wire::{
    CaptureTarget, ClickTarget, ElementInfo, Image, ImageFormat, Key, MouseAction, ProcessInfo,
    Rect, RemoteError, RemoteErrorKind, Reply, WindowInfo,
};
use crate::runner::backend::{
    all_fields, by_rank, is_number, only_digits, sort_processes, without_exe, LineFields, ProcessLine,
};
use crate::runner::capture::{decode, file_image, DECODER_BYTES};
use crate::runner::uia::{half, halved, Bounds};
use crate::runner_core::{invalid, is_error, os_error, RemoteResult};
use crate::text;

verus! {

/// Most elements that one dump of the screen returns.
pub const MAX_ELEMENTS: usize = 250;

/// A call of a tool: no shell stands between.
pub struct Invocation {
    /// The tool.
    pub program: String,
    /// Its arguments.
    pub args: Vec<String>,
    /// Variables set on top of the runner's own environment.
    pub env: Vec<(String, String)>,
}

impl Invocation {
    /// Whether this calls that tool with those arguments and no variable set.
    pub open spec fn calls(self, program: Seq<char>, args: Seq<Seq<char>>) -> bool {
        self.calls_with(program, args, Seq::empty())
    }

    /// Whether this calls that tool with those arguments and those variables set.
    pub open spec fn calls_with(
        self,
        program: Seq<char>,
        args: Seq<Seq<char>>,
        env: Seq<(String, String)>,
    ) -> bool {
        self.program@ == program && text::texts(self.args@) == args && self.env@ == env
    }
}

/// The views of borrowed texts.
pub open spec fn str_views(parts: Seq<&str>) -> Seq<Seq<char>> {
    parts.map_values(|p: &str| p@)
}

/// A call of a tool.
fn invoke(program: &str, args: &Vec<&str>) -> (r: Invocation)
    ensures
        r.calls(program@, str_views(args@)),
{
    let ghost want = str_views(args@);
    let mut out: Vec<String> = Vec::new();
    let mut i: usize = 0;
    assert(text::texts(out@) =~= want.take(0));
    while i < args.len()
        invariant
            i <= args@.len(),
            want == str_views(args@),
            text::texts(out@) == want.take(i as int),
        decreases args@.len() - i,
    {
        let ghost before = out@;
        let part = args[i].to_owned();
        out.push(part);
        i = i + 1;
        assert(text::texts(out@) =~= text::texts(before).push(part@));
        assert(want.take(i as int) =~= want.take(i - 1).push(want[i - 1]));
    }
    assert(want.take(i as int) =~= want);
    Invocation { program: program.to_owned(), args: out, env: Vec::new() }
}

/// What is reported of a tool that did not succeed.
pub open spec fn exit_report(program: Seq<char>, code: Option<i32>, stderr: Seq<u8>) -> Seq<char> {
    program + " exited "@ + number::signed(
        match code {
            Some(c) => c as int,
            None => -1,
        },
    ) + ": "@ + text::trim(text::lossy_text(stderr))
}

/// Takes the outcome of a tool: its output if it succeeded.
pub fn run(
    program: &str,
    success: bool,
    code: Option<i32>,
    stdout: Vec<u8>,
    stderr: &[u8],
) -> (r: RemoteResult<Vec<u8>>)
    ensures
        match r {
            Ok(out) => success && out == stdout,
            Err(e) => !success && is_error(
                e,
                RemoteErrorKind::Os,
                exit_report(program@, code, stderr@),
            ),
        },
{
    if success {
        return Ok(stdout);
    }
    let c: i32 = match code {
        Some(c) => c,
        None => -1,
    };
    let cause = text::trimmed(text::chars_of(text::lossy(stderr).as_str()).as_slice());
    let mut m = text::join3(program, " exited ", number::signed_text(c).as_str());
    m.append(": ");
    m.append(text::string_of(cause.as_slice()).as_str());
    Err(os_error(m.as_str()))
}

/// What a finished command replies: both outputs as text, and the exit code.
pub fn command_output(stdout: &[u8], stderr: &[u8], exit_code: Option<i32>) -> (r: Reply)
    ensures
        r matches Reply::CommandOutput { stdout: o, stderr: e, exit_code: c } && o@
            == text::lossy_text(stdout@) && e@ == text::lossy_text(stderr@) && c == exit_code,
{
    Reply::CommandOutput { stdout: text::lossy(stdout), stderr: text::lossy(stderr), exit_code }
}

/// How a shell command is run, with these variables set.
pub fn run_command(script: &str, env: Vec<(String, String)>) -> (r: Invocation)
    ensures
        r.calls_with("sh"@, seq!["-c"@, script@], env@),
{
    let mut r = invoke("sh", &vec!["-c", script]);
    assert(text::texts(r.args@) =~= seq!["-c"@, script@]);
    r.env = env;
    r
}

/// Appends the arguments.
fn append_args(call: &mut Invocation, args: &Vec<String>)
    ensures
        final(call).program@ == old(call).program@,
        final(call).env == old(call).env,
        text::texts(final(call).args@) == text::texts(old(call).args@) + text::texts(args@),
{
    let ghost before = text::texts(call.args@);
    let ghost more = text::texts(args@);
    let mut i: usize = 0;
    assert(before + more.take(0) =~= before);
    while i < args.len()
        invariant
            i <= args@.len(),
            more == text::texts(args@),
            call.program@ == old(call).program@,
            call.env == old(call).env,
            text::texts(call.args@) == before + more.take(i as int),
        decreases args@.len() - i,
    {
        let ghost now = call.args@;
        let part = args[i].clone();
        call.args.push(part);
        i = i + 1;
        assert(text::texts(call.args@) =~= text::texts(now).push(part@));
        assert(more.take(i as int) =~= more.take(i - 1).push(more[i - 1]));
        assert((before + more.take(i - 1)).push(more[i - 1]) =~= before + more.take(i as int));
    }
    assert(more.take(i as int) =~= more);
}

/// How a script is run: its source is passed to the shell, and the arguments follow
/// as positional parameters. These variables are set.
pub fn run_script(content: &str, args: &Vec<String>, env: Vec<(String, String)>) -> (r: Invocation)
    ensures
        r.calls_with("sh"@, seq!["-c"@, content@, "sh"@] + text::texts(args@), env@),
{
    let mut r = invoke("sh", &vec!["-c", content, "sh"]);
    assert(text::texts(r.args@) =~= seq!["-c"@, content@, "sh"@]);
    append_args(&mut r, args);
    r.env = env;
    r
}

/// Where a detached script is kept, where its output goes, and how it is run.
pub struct Detached {
    /// Path of the script.
    pub script: String,
    /// Path of the log.
    pub log: String,
    /// How it is run.
    pub call: Invocation,
}

/// A path of a detached script.
pub open spec fn detached_path(id: RequestId, extension: Seq<char>) -> Seq<char> {
    "/data/local/tmp/arc-detached-"@ + number::decimal(id.0 as nat) + extension
}

/// Plans a detached run of a script, with these variables set.
pub fn run_detached(id: RequestId, args: &Vec<String>, env: Vec<(String, String)>) -> (r: Detached)
    ensures
        r.script@ == detached_path(id, ".sh"@),
        r.log@ == detached_path(id, ".log"@),
        r.call.calls_with("sh"@, seq![detached_path(id, ".sh"@)] + text::texts(args@), env@),
{
    let number = number::decimal_text(id.0);
    let script = text::join3("/data/local/tmp/arc-detached-", number.as_str(), ".sh");
    let log = text::join3("/data/local/tmp/arc-detached-", number.as_str(), ".log");
    let mut call = invoke("sh", &vec![script.as_str()]);
    assert(text::texts(call.args@) =~= seq![detached_path(id, ".sh"@)]);
    append_args(&mut call, args);
    call.env = env;
    Detached { script, log, call }
}

/// The files about a process that a dump holds, in their order.
pub open spec fn dump_files() -> Seq<Seq<char>> {
    seq!["cmdline"@, "status"@, "wchan"@, "stat"@, "maps"@]
}

/// What a dump holds of one file.
pub open spec fn dump_section(pid: u32, name: Seq<char>, body: Result<Seq<char>, Seq<char>>) -> Seq<
    char,
> {
    "===== /proc/"@ + number::decimal(pid as nat) + "/"@ + name + " =====\n"@ + text::trim_end(
        match body {
            Ok(s) => text::replaced(s, '\0', " "@),
            Err(e) => "<unavailable: "@ + e + ">"@,
        },
    ) + "\n\n"@
}

/// The view of a file about a process.
pub open spec fn body_view(body: Result<String, String>) -> Result<Seq<char>, Seq<char>> {
    match body {
        Ok(s) => Ok(s@),
        Err(e) => Err(e@),
    }
}

/// The head of a dump.
pub open spec fn dump_head(pid: u32) -> Seq<char> {
    "# arc proc dump of pid "@ + number::decimal(pid as nat)
        + " (Android; no thread stacks without root)\n\n"@
}

/// Writes what a dump holds of one file.
pub fn proc_section(pid: u32, name: &str, body: Result<String, String>) -> (r: String)
    ensures
        r@ == dump_section(pid, name@, body_view(body)),
{
    let content = match body {
        Ok(s) => text::replace_char(s.as_str(), '\0', " "),
        Err(e) => text::join3("<unavailable: ", e.as_str(), ">"),
    };
    let kept = text::end_trimmed(text::chars_of(content.as_str()).as_slice());
    let mut out = text::join3("===== /proc/", number::decimal_text(pid as u64).as_str(), "/");
    out.append(name);
    out.append(" =====\n");
    out.append(text::string_of(kept.as_slice()).as_str());
    out.append("\n\n");
    out
}

/// Writes a dump: a head, and then a section for each file, in their order.
pub fn proc_dump(
    pid: u32,
    cmdline: Result<String, String>,
    status: Result<String, String>,
    wchan: Result<String, String>,
    stat: Result<String, String>,
    maps: Result<String, String>,
) -> (r: String)
    ensures
        r@ == dump_head(pid) + dump_section(pid, dump_files()[0], body_view(cmdline))
            + dump_section(pid, dump_files()[1], body_view(status)) + dump_section(
            pid,
            dump_files()[2],
            body_view(wchan),
        ) + dump_section(pid, dump_files()[3], body_view(stat)) + dump_section(
            pid,
            dump_files()[4],
            body_view(maps),
        ),
{
    let mut out = text::join3(
        "# arc proc dump of pid ",
        number::decimal_text(pid as u64).as_str(),
        " (Android; no thread stacks without root)\n\n",
    );
    out.append(proc_section(pid, "cmdline", cmdline).as_str());
    out.append(proc_section(pid, "status", status).as_str());
    out.append(proc_section(pid, "wchan", wchan).as_str());
    out.append(proc_section(pid, "stat", stat).as_str());
    out.append(proc_section(pid, "maps", maps).as_str());
    out
}

/// Where the dump of a process is kept.
pub fn dump_path(pid: u32) -> (r: String)
    ensures
        r@ == "/data/local/tmp/arc-procdump-"@ + number::decimal(pid as nat) + ".txt"@,
{
    text::join3(
        "/data/local/tmp/arc-procdump-",
        number::decimal_text(pid as u64).as_str(),
        ".txt",
    )
}

/// Reports that there is no such process to dump.
pub fn no_such_process(pid: u32) -> (e: RemoteError)
    ensures
        is_error(
            e,
            RemoteErrorKind::Invalid,
            "no such process: "@ + number::decimal(pid as nat),
        ),
{
    invalid(
        text::join2("no such process: ", number::decimal_text(pid as u64).as_str()).as_str(),
    )
}

/// How processes are listed.
pub fn ps_call() -> (r: Invocation)
    ensures
        r.calls("ps"@, seq!["-A"@, "-o"@, "PID,PCPU,RSS,NAME"@]),
{
    let r = invoke("ps", &vec!["-A", "-o", "PID,PCPU,RSS,NAME"]);
    assert(text::texts(r.args@) =~= seq!["-A"@, "-o"@, "PID,PCPU,RSS,NAME"@]);
    r
}

/// What a line of the process list tells: id, processor use, memory, and a name of
/// one or more words. Any other line tells nothing.
pub open spec fn ps_fields(line: Seq<char>) -> Option<LineFields> {
    let w = text::words(line);
    if w.len() < 4 {
        None
    } else {
        match number::parsed(w[0], u32::MAX as nat) {
            None => None,
            Some(pid) => Some(
                LineFields {
                    pid,
                    name: text::joined(w.skip(3), " "@),
                    memory_kb: number::parsed(w[2], u64::MAX as nat),
                    cpu: Some(w[1]),
                },
            ),
        }
    }
}

/// The fields of the lines that tell of a process, in order.
pub open spec fn ps_rows(lines: Seq<Seq<char>>) -> Seq<LineFields>
    decreases lines.len(),
{
    if lines.len() == 0 {
        Seq::empty()
    } else {
        match ps_fields(lines.last()) {
            Some(f) => ps_rows(lines.drop_last()).push(f),
            None => ps_rows(lines.drop_last()),
        }
    }
}

/// Reads a line of the process list.
fn ps_line(line: &[char]) -> (r: Option<ProcessLine>)
    ensures
        match r {
            Some(p) => ps_fields(line@) == Some(p.fields()),
            None => ps_fields(line@) is None,
        },
{
    let w = text::words_of(line);
    let ghost all = text::words(line@);
    assert(all.len() == w@.len());
    assert(forall|i: int| 0 <= i < w@.len() ==> all[i] == (#[trigger] w@[i])@);
    if w.len() < 4 {
        return None;
    }
    let pid: u32 = match number::parse_unsigned(w[0].as_slice(), u32::MAX as u64) {
        Some(n) => n as u32,
        None => {
            return None;
        },
    };
    let mut rest: Vec<String> = Vec::new();
    let mut i: usize = 3;
    let ghost tail = all.skip(3);
    assert(text::texts(rest@) =~= tail.take(0));
    while i < w.len()
        invariant
            3 <= i <= w@.len(),
            all == text::views(w@),
            tail == all.skip(3),
            text::texts(rest@) == tail.take(i - 3),
        decreases w@.len() - i,
    {
        let ghost before = rest@;
        let part = text::string_of(w[i].as_slice());
        assert(part@ == tail[i - 3]);
        rest.push(part);
        i = i + 1;
        assert(text::texts(rest@) =~= text::texts(before).push(part@));
        assert(tail.take(i - 3) =~= tail.take(i - 4).push(tail[i - 4]));
    }
    assert(tail.take(i - 3) =~= tail);
    let name = text::join(&rest, " ");
    let memory_kb: Option<u64> = number::parse_unsigned(w[2].as_slice(), u64::MAX);
    let cpu = Some(text::string_of(w[1].as_slice()));
    Some(ProcessLine { pid, name, memory_kb, cpu })
}

/// The lines after the first.
pub open spec fn without_heading(lines: Seq<Seq<char>>) -> Seq<Seq<char>> {
    if lines.len() == 0 {
        lines
    } else {
        lines.skip(1)
    }
}

/// Reads the process list: a heading, and then a line per process.
pub fn ps_snapshot(stdout: &[u8]) -> (out: Vec<ProcessLine>)
    ensures
        all_fields(out@) == ps_rows(
            without_heading(text::lines(text::lossy_text(stdout@))),
        ),
{
    let lines = text::lines_of(text::lossy(stdout).as_str());
    let ghost rows = without_heading(text::views(lines@));
    let mut out: Vec<ProcessLine> = Vec::new();
    if lines.len() == 0 {
        assert(all_fields(out@) =~= ps_rows(rows));
        return out;
    }
    let mut i: usize = 1;
    assert(all_fields(out@) =~= ps_rows(rows.take(0)));
    while i < lines.len()
        invariant
            1 <= i <= lines@.len(),
            rows == without_heading(text::views(lines@)),
            all_fields(out@) == ps_rows(rows.take(i - 1)),
        decreases lines@.len() - i,
    {
        assert(rows.take(i as int).drop_last() =~= rows.take(i - 1));
        assert(rows[i - 1] == lines@[i as int]@);
        let ghost before = out@;
        if let Some(p) = ps_line(lines[i].as_slice()) {
            out.push(p);
            assert(all_fields(out@)
                =~= all_fields(before).push(p.fields()));
        }
        i = i + 1;
    }
    assert(rows.take(i - 1) =~= rows);
    out
}

/// Whether a process name holds the filter, whatever the case.
pub open spec fn name_holds(p: ProcessInfo, filter: Seq<char>) -> bool {
    text::occurs(text::unicode_lowercase(p.name@), text::unicode_lowercase(filter))
}

/// The processes that the filter keeps.
pub open spec fn kept(list: Seq<ProcessInfo>, filter: Option<Seq<char>>) -> Seq<ProcessInfo> {
    match filter {
        Some(f) => list.filter(|p: ProcessInfo| name_holds(p, f)),
        None => list,
    }
}

/// Keeps the processes whose name holds the filter, and sorts them by falling
/// processor use or memory.
pub fn list_processes(list: Vec<ProcessInfo>, filter: Option<&str>, with_cpu: bool) -> (out: Vec<
    ProcessInfo,
>)
    requires
        with_cpu ==> forall|i: int|
            0 <= i < list@.len() ==> ((#[trigger] list@[i]).cpu_bits matches Some(bits)
                ==> is_number(bits)),
    ensures
        out@ == by_rank(
            kept(
                list@,
                match filter {
                    Some(f) => Some(f@),
                    None => None,
                },
            ),
            with_cpu,
        ),
{
    match filter {
        None => sort_processes(list, with_cpu),
        Some(f) => {
            let needle = text::chars_of(text::to_lower(f).as_str());
            let ghost keep = |p: ProcessInfo| name_holds(p, f@);
            let ghost all = list@;
            let mut hits: Vec<ProcessInfo> = Vec::new();
            assert(all.take(0).filter(keep) =~= hits@) by {
                reveal(Seq::filter);
            }
            for p in it: list
                invariant
                    it.seq() == all,
                    needle@ == text::unicode_lowercase(f@),
                    keep == (|p: ProcessInfo| name_holds(p, f@)),
                    hits@ == all.take(it.index()).filter(keep),
                    with_cpu ==> forall|i: int|
                        0 <= i < all.len() ==> ((#[trigger] all[i]).cpu_bits matches Some(bits)
                            ==> is_number(bits)),
                    with_cpu ==> forall|i: int|
                        0 <= i < hits@.len() ==> ((#[trigger] hits@[i]).cpu_bits matches Some(bits)
                            ==> is_number(bits)),
            {
                proof {
                    reveal(Seq::filter);
                    assert(all.take(it.index() + 1).drop_last() =~= all.take(it.index()));
                    assert(all.take(it.index() + 1).last() == p);
                    assert(all[it.index()] == p);
                }
                let name = text::chars_of(text::to_lower(p.name.as_str()).as_str());
                if text::contains(name.as_slice(), needle.as_slice()) {
                    hits.push(p);
                }
            }
            assert(all.take(all.len() as int) =~= all);
            sort_processes(hits, with_cpu)
        },
    }
}

/// The processes that a kill is for: by id where the target is all digits, else by
/// exact name, whatever the case and with or without `.exe`.
pub open spec fn is_target(p: ProcessInfo, target: Seq<char>) -> bool {
    if number::all_digits(target) {
        number::parsed(target, u32::MAX as nat) == Some(p.pid as nat)
    } else {
        text::unicode_lowercase(p.name@) == text::unicode_lowercase(without_exe(target))
    }
}

/// Selects the processes that a kill is for. A number that is no process id is an
/// error.
pub fn kill_process(list: Vec<ProcessInfo>, target: &str) -> (r: RemoteResult<Vec<ProcessInfo>>)
    ensures
        match r {
            Ok(hits) => hits@ == list@.filter(|p: ProcessInfo| is_target(p, target@))
                && (number::all_digits(target@) ==> number::parsed(target@, u32::MAX as nat)
                is Some),
            Err(e) => number::all_digits(target@) && number::parsed(target@, u32::MAX as nat)
                is None && is_error(e, RemoteErrorKind::Invalid, "bad pid: "@ + target@),
        },
{
    let chars = text::chars_of(target);
    let digits = only_digits(chars.as_slice());
    let mut wanted: u32 = 0;
    if digits {
        match number::parse_unsigned(chars.as_slice(), u32::MAX as u64) {
            Some(n) => {
                wanted = n as u32;
            },
            None => {
                return Err(invalid(text::join2("bad pid: ", target).as_str()));
            },
        }
    }
    let suffix = text::chars_of(".exe");
    let stem = if text::ends(chars.as_slice(), suffix.as_slice()) {
        text::slice_chars(chars.as_slice(), 0, chars.len() - suffix.len())
    } else {
        text::slice_chars(chars.as_slice(), 0, chars.len())
    };
    assert(stem@ =~= without_exe(target@));
    let want = text::to_lower(text::string_of(stem.as_slice()).as_str());
    let ghost keep = |p: ProcessInfo| is_target(p, target@);
    let ghost all = list@;
    let mut hits: Vec<ProcessInfo> = Vec::new();
    assert(all.take(0).filter(keep) =~= hits@) by {
        reveal(Seq::filter);
    }
    for p in it: list
        invariant
            it.seq() == all,
            digits == number::all_digits(target@),
            digits ==> number::parsed(target@, u32::MAX as nat) == Some(wanted as nat),
            want@ == text::unicode_lowercase(without_exe(target@)),
            keep == (|p: ProcessInfo| is_target(p, target@)),
            hits@ == all.take(it.index()).filter(keep),
    {
        proof {
            reveal(Seq::filter);
            assert(all.take(it.index() + 1).drop_last() =~= all.take(it.index()));
            assert(all.take(it.index() + 1).last() == p);
        }
        let hit = if digits {
            p.pid == wanted
        } else {
            text::same(text::to_lower(p.name.as_str()).as_str(), want.as_str())
        };
        if hit {
            hits.push(p);
        }
    }
    assert(all.take(all.len() as int) =~= all);
    Ok(hits)
}

/// How a process is killed.
pub fn kill_call(pid: u32) -> (r: Invocation)
    ensures
        r.calls("kill"@, seq!["-9"@, number::decimal(pid as nat)]),
{
    let id = number::decimal_text(pid as u64);
    let r = invoke("kill", &vec!["-9", id.as_str()]);
    assert(text::texts(r.args@) =~= seq!["-9"@, number::decimal(pid as nat)]);
    r
}

/// Who the runner is, from what `id` printed: account, whether it is the superuser,
/// and the security context if there is one.
pub open spec fn identity_of(uid: Seq<char>, user: Seq<char>, context: Option<Seq<char>>) -> Seq<
    (Seq<char>, Seq<char>),
> {
    let base = seq![
        ("account"@, user + " (uid "@ + uid + ")"@),
        (
            "elevated"@,
            if uid == "0"@ {
                "true"@
            } else {
                "false"@
            },
        ),
    ];
    match context {
        Some(c) => if c.len() > 0 {
            base.push(("selinux"@, c))
        } else {
            base
        },
        None => base,
    }
}

/// The trimmed text of an output.
pub open spec fn output_text(out: Seq<u8>) -> Seq<char> {
    text::trim(text::lossy_text(out))
}

fn trimmed_output(out: &[u8]) -> (r: String)
    ensures
        r@ == output_text(out@),
{
    let chars = text::chars_of(text::lossy(out).as_str());
    text::string_of(text::trimmed(chars.as_slice()).as_slice())
}

/// Tells who the runner is, from what `id` printed.
pub fn identity(uid: &[u8], user: &[u8], context: Option<Vec<u8>>) -> (r: Vec<(String, String)>)
    ensures
        pair_texts(r@) == identity_of(
            output_text(uid@),
            output_text(user@),
            match context {
                Some(c) => Some(output_text(c@)),
                None => None,
            },
        ),
{
    let uid_text = trimmed_output(uid);
    let user_text = trimmed_output(user);
    let mut account = text::join3(user_text.as_str(), " (uid ", uid_text.as_str());
    account.append(")");
    let elevated = if text::same(uid_text.as_str(), "0") {
        "true".to_string()
    } else {
        "false".to_string()
    };
    let mut lines: Vec<(String, String)> = Vec::new();
    let ghost base = seq![
        ("account"@, account@),
        ("elevated"@, elevated@),
    ];
    lines.push(("account".to_string(), account));
    lines.push(("elevated".to_string(), elevated));
    assert(pair_texts(lines@) =~= base);
    if let Some(c) = context {
        let label = trimmed_output(c.as_slice());
        if label.as_str().unicode_len() > 0 {
            let ghost before = lines@;
            lines.push(("selinux".to_string(), label));
            assert(pair_texts(lines@) =~= pair_texts(before).push(("selinux"@, label@)));
        }
    }
    lines
}

/// The number that four bytes denote, the first being the highest.
pub open spec fn big_endian(data: Seq<u8>, at: int) -> int {
    data[at] * 0x100_0000 + data[at + 1] * 0x1_0000 + data[at + 2] * 0x100 + data[at + 3]
}

/// The eight bytes that every PNG file begins with.
pub open spec fn png_signature() -> Seq<u8> {
    seq![0x89u8, 0x50u8, 0x4Eu8, 0x47u8, 0x0Du8, 0x0Au8, 0x1Au8, 0x0Au8]
}

/// The size that a PNG file says it has.
pub open spec fn png_size(data: Seq<u8>) -> Option<(int, int)> {
    if data.len() < 24 || data.take(8) != png_signature() {
        None
    } else {
        Some((big_endian(data, 16), big_endian(data, 20)))
    }
}

/// Reads four bytes as a number.
fn read_u32(data: &[u8], at: usize) -> (n: u32)
    requires
        at + 4 <= data@.len(),
    ensures
        n == big_endian(data@, at as int),
{
    let size: usize = data.len();
    data[at] as u32 * 0x100_0000 + data[at + 1] as u32 * 0x1_0000 + data[at + 2] as u32 * 0x100
        + data[at + 3] as u32
}

/// Reads width and height out of a PNG file's header.
pub fn png_dimensions(data: &[u8]) -> (r: Option<(u32, u32)>)
    ensures
        match r {
            Some((w, h)) => png_size(data@) == Some((w as int, h as int)),
            None => png_size(data@) is None,
        },
{
    if data.len() < 24 {
        return None;
    }
    let signature: Vec<u8> = vec![0x89, 0x50, 0x4E, 0x47, 0x0D, 0x0A, 0x1A, 0x0A];
    assert(signature@ =~= png_signature());
    let mut i: usize = 0;
    while i < 8
        invariant
            i <= 8,
            data@.len() >= 24,
            signature@ == png_signature(),
            forall|k: int| 0 <= k < i ==> data@[k] == png_signature()[k],
        decreases 8 - i,
    {
        if data[i] != signature[i] {
            assert(data@.take(8)[i as int] != png_signature()[i as int]);
            return None;
        }
        i = i + 1;
    }
    assert(data@.take(8) =~= png_signature());
    Some((read_u32(data, 16), read_u32(data, 20)))
}

/// The file of a rectangle of the image in a file, as PNG or as WebP, if it can be
/// written.
pub uninterp spec fn cropped_file(
    file: Seq<u8>,
    x: u32,
    y: u32,
    width: u32,
    height: u32,
    png: bool,
) -> Option<Seq<u8>>;

/// Whether decoding `out` gives the rectangle of the image in `file`, if that lies in
/// the image and is not too large to be decoded, even with two bytes per colour.
pub open spec fn holds_part(
    file: Seq<u8>,
    x: u32,
    y: u32,
    width: u32,
    height: u32,
    out: Seq<u8>,
) -> bool {
    match file_image(file) {
        Some(image) => x + width <= image.0 && y + height <= image.1 && width * height * 8
            < DECODER_BYTES ==> file_image(out) == Some(
            (
                width,
                height,
                part(image.2, image.0 as int, x as int, y as int, width as int, height as int),
            ),
        ),
        None => true,
    }
}

/// Calls `image::load_from_memory`, `image::DynamicImage::crop_imm` and
/// `image::DynamicImage::write_to`: whether it works, and which bytes it writes,
/// follows from the file, the rectangle and the format alone. PNG loses nothing:
/// decoding what was written gives the pixels of the rectangle. What WebP makes of
/// more than one byte per colour is left unsaid.
#[verifier::external_body]
fn crop_file(file: &[u8], x: u32, y: u32, width: u32, height: u32, png: bool) -> (r: Result<
    Vec<u8>,
    image::ImageError,
>)
    ensures
        match r {
            Ok(out) => cropped_file(file@, x, y, width, height, png) == Some(out@) && (png
                ==> holds_part(file@, x, y, width, height, out@)),
            Err(_) => cropped_file(file@, x, y, width, height, png) is None,
        },
{
    let format = if png { image::ImageFormat::Png } else { image::ImageFormat::WebP };
    let part = image::load_from_memory(file)?.crop_imm(x, y, width, height);
    let mut out = std::io::Cursor::new(Vec::new());
    part.write_to(&mut out, format)?;
    Ok(out.into_inner())
}

/// Whether `r` is what cropping a captured file to a rectangle comes to: a PNG of the
/// pixels in the rectangle. What lies outside the image is left out.
pub open spec fn crops(file: Seq<u8>, rect: Rect, r: RemoteResult<Reply>) -> bool {
    match file_image(file) {
        None => r matches Err(e) && e.kind == RemoteErrorKind::Os && exists|cause: Seq<char>|
            #[trigger]
            ("decode screenshot: "@ + cause) == e.message@,
        Some(image) => {
            let (x, y) = (at_least_zero(rect.x) as u32, at_least_zero(rect.y) as u32);
            let w = clipped(x as int, at_least_zero(rect.width), image.0 as int) as u32;
            let h = clipped(y as int, at_least_zero(rect.height), image.1 as int) as u32;
            match cropped_file(file, x, y, w, h, true) {
                Some(out) => r matches Ok(reply) && reply matches Reply::Image(shot) && shot.format
                    == ImageFormat::Png && shot.width == w && shot.height == h && shot.data@ == out
                    && holds_part(file, x, y, w, h, out),
                None => r matches Err(e) && e.kind == RemoteErrorKind::Os && exists|
                    cause: Seq<char>,
                | #[trigger]
                    ("encode crop: "@ + cause) == e.message@,
            }
        },
    }
}

/// Zero where a number is negative.
fn not_negative(v: i32) -> (r: u32)
    ensures
        r == at_least_zero(v),
{
    if v < 0 {
        0
    } else {
        v as u32
    }
}

/// The part of a length that is left from a position on, and at most `wanted`.
fn clip(at: u32, wanted: u32, length: u32) -> (r: u32)
    ensures
        r == clipped(at as int, wanted as int, length as int),
{
    let left: u32 = if at < length {
        length - at
    } else {
        0
    };
    if wanted < left {
        wanted
    } else {
        left
    }
}

/// Crops a captured file to a rectangle.
pub fn crop_png(data: &[u8], rect: Rect) -> (r: RemoteResult<Reply>)
    ensures
        crops(data@, rect, r),
{
    let image = match decode(data) {
        Ok(image) => image,
        Err(cause) => {
            let m = text::join2("decode screenshot: ", cause.as_str());
            assert(m@ == "decode screenshot: "@ + cause@);
            return Err(os_error(m.as_str()));
        },
    };
    let x: u32 = not_negative(rect.x);
    let y: u32 = not_negative(rect.y);
    let width: u32 = clip(x, not_negative(rect.width), image.width);
    let height: u32 = clip(y, not_negative(rect.height), image.height);
    match crop_file(data, x, y, width, height, true) {
        Ok(out) => Ok(Reply::Image(Image { format: ImageFormat::Png, width, height, data: out })),
        Err(e) => {
            let cause = e.to_string();
            let m = text::join2("encode crop: ", cause.as_str());
            assert(m@ == "encode crop: "@ + cause@);
            Err(os_error(m.as_str()))
        },
    }
}

/// The numbers between the commas that can be read.
pub open spec fn readable(pieces: Seq<Seq<char>>) -> Seq<i32>
    decreases pieces.len(),
{
    if pieces.len() == 0 {
        Seq::empty()
    } else {
        match number::parsed_signed(text::trim(pieces.last())) {
            Some(v) => readable(pieces.drop_last()).push(v as i32),
            None => readable(pieces.drop_last()),
        }
    }
}

/// The edges that an element id holds: left, top, right, bottom.
pub open spec fn id_edges(id: Seq<char>) -> Option<Bounds> {
    let n = readable(text::split(id, ','));
    if n.len() == 4 {
        Some(Bounds { left: n[0], top: n[1], right: n[2], bottom: n[3] })
    } else {
        None
    }
}

/// Reads the numbers between the commas.
fn read_numbers(pieces: &Vec<Vec<char>>) -> (out: Vec<i32>)
    ensures
        out@ == readable(text::views(pieces@)),
{
    let ghost all = text::views(pieces@);
    let mut out: Vec<i32> = Vec::new();
    let mut i: usize = 0;
    assert(out@ =~= readable(all.take(0)));
    while i < pieces.len()
        invariant
            i <= pieces@.len(),
            all == text::views(pieces@),
            out@ == readable(all.take(i as int)),
        decreases pieces@.len() - i,
    {
        assert(all.take(i + 1).drop_last() =~= all.take(i as int));
        assert(all[i as int] == pieces@[i as int]@);
        let piece = text::trimmed(pieces[i].as_slice());
        if let Some(v) = number::parse_signed(piece.as_slice()) {
            out.push(v);
        }
        i = i + 1;
    }
    assert(all.take(i as int) =~= all);
    out
}

/// Reads an element id: the four edges of the element. The dump of a screen has no
/// other stable name for it.
pub fn parse_bounds_id(id: &str) -> (r: RemoteResult<Bounds>)
    ensures
        match r {
            Ok(b) => id_edges(id@) == Some(b),
            Err(e) => id_edges(id@) is None && is_error(
                e,
                RemoteErrorKind::Invalid,
                "malformed android element id '"@ + id@ + "' (want l,t,r,b)"@,
            ),
        },
{
    let n = read_numbers(&text::split_on(text::chars_of(id).as_slice(), ','));
    if n.len() == 4 {
        Ok(Bounds { left: n[0], top: n[1], right: n[2], bottom: n[3] })
    } else {
        Err(
            invalid(
                text::join3("malformed android element id '", id, "' (want l,t,r,b)").as_str(),
            ),
        )
    }
}

/// The middle of an element: its corner and half its size, rounded toward zero.
pub open spec fn middle(b: Bounds) -> (int, int) {
    (b.left + halved(b.right - b.left), b.top + halved(b.bottom - b.top))
}

/// The middle of an element.
pub fn middle_of(b: &Bounds) -> (r: (i32, i32))
    requires
        b.sized(),
    ensures
        (r.0 as int, r.1 as int) == middle(*b),
{
    (b.left + half(b.right - b.left), b.top + half(b.bottom - b.top))
}

/// How a capture is answered.
pub enum Shot {
    /// With the whole screen.
    Whole {
        /// Width.
        width: u32,
        /// Height.
        height: u32,
    },
    /// With the part in this rectangle.
    Part(Rect),
}

/// The rectangle of a region.
pub open spec fn region_rect(x: i32, y: i32, width: u32, height: u32) -> Rect {
    Rect { x, y, width: width as i32, height: height as i32 }
}

/// Decides how a capture is answered. There is one screen, which is also the one
/// window; an element is cut out by the edges that its id holds.
pub fn screenshot(data: &[u8], target: &CaptureTarget) -> (r: RemoteResult<Shot>)
    requires
        *target matches CaptureTarget::Element(id) ==> (id_edges(id.0@) matches Some(b)
            ==> b.sized()),
    ensures
        match png_size(data@) {
            None => r matches Err(e) && is_error(
                e,
                RemoteErrorKind::Os,
                "screencap did not return a PNG"@,
            ),
            Some(size) => match *target {
                CaptureTarget::Element(id) => match id_edges(id.0@) {
                    Some(b) => r == Ok::<Shot, RemoteError>(Shot::Part(b.spec_rect())),
                    None => r matches Err(e) && is_error(
                        e,
                        RemoteErrorKind::Invalid,
                        "malformed android element id '"@ + id.0@ + "' (want l,t,r,b)"@,
                    ),
                },
                CaptureTarget::Region { x, y, width, height } => r == Ok::<Shot, RemoteError>(
                    Shot::Part(region_rect(x, y, width, height)),
                ),
                _ => r matches Ok(Shot::Whole { width, height }) && size == (
                    width as int,
                    height as int,
                ),
            },
        },
{
    let (w, h) = match png_dimensions(data) {
        Some(size) => size,
        None => {
            return Err(os_error("screencap did not return a PNG"));
        },
    };
    match target {
        CaptureTarget::Element(id) => match parse_bounds_id(id.0.as_str()) {
            Ok(b) => Ok(Shot::Part(b.rect())),
            Err(e) => Err(e),
        },
        CaptureTarget::Region { x, y, width, height } => Ok(
            Shot::Part(Rect { x: *x, y: *y, width: *width as i32, height: *height as i32 }),
        ),
        _ => Ok(Shot::Whole { width: w, height: h }),
    }
}

/// How a point is tapped.
pub fn tap(x: i32, y: i32) -> (r: Invocation)
    ensures
        r.calls("input"@, seq!["tap"@, number::signed(x as int), number::signed(y as int)]),
{
    let (a, b) = (number::signed_text(x), number::signed_text(y));
    let r = invoke("input", &vec!["tap", a.as_str(), b.as_str()]);
    assert(text::texts(r.args@) =~= seq![
        "tap"@,
        number::signed(x as int),
        number::signed(y as int),
    ]);
    r
}

/// Where a click goes: to the point, or to the middle of the element.
pub fn click(target: &ClickTarget) -> (r: RemoteResult<(i32, i32)>)
    requires
        *target matches ClickTarget::Element(id) ==> (id_edges(id.0@) matches Some(b) ==> b.sized()),
    ensures
        match *target {
            ClickTarget::Point { x, y, .. } => r == Ok::<(i32, i32), RemoteError>((x, y)),
            ClickTarget::Element(id) => match id_edges(id.0@) {
                Some(b) => r matches Ok(p) && (p.0 as int, p.1 as int) == middle(b),
                None => r matches Err(e) && is_error(
                    e,
                    RemoteErrorKind::Invalid,
                    "malformed android element id '"@ + id.0@ + "' (want l,t,r,b)"@,
                ),
            },
        },
{
    match target {
        ClickTarget::Point { x, y, .. } => Ok((*x, *y)),
        ClickTarget::Element(id) => match parse_bounds_id(id.0.as_str()) {
            Ok(b) => Ok(middle_of(&b)),
            Err(e) => Err(e),
        },
    }
}

/// The right and bottom edges of a rectangle are in range.
pub open spec fn edges_fit(r: Rect) -> bool {
    &&& i32::MIN <= r.x + r.width <= i32::MAX
    &&& i32::MIN <= r.y + r.height <= i32::MAX
}

/// Whether a point lies in a rectangle, borders included.
pub open spec fn holds_point(r: Rect, p: (int, int)) -> bool {
    r.x <= p.0 <= r.x + r.width && r.y <= p.1 <= r.y + r.height
}

/// The size of a rectangle.
pub open spec fn area(r: Rect) -> int {
    r.width * r.height
}

/// Whether no element has the point in it.
pub open spec fn nothing_at(els: Seq<ElementInfo>, p: (int, int)) -> bool {
    forall|k: int| 0 <= k < els.len() ==> !holds_point((#[trigger] els[k]).rect, p)
}

/// Whether `at` is the first of the smallest elements around the point.
pub open spec fn is_at(els: Seq<ElementInfo>, p: (int, int), at: int) -> bool {
    &&& 0 <= at < els.len()
    &&& holds_point(els[at].rect, p)
    &&& forall|k: int|
        0 <= k < els.len() && holds_point((#[trigger] els[k]).rect, p) ==> area(els[at].rect)
            < area(els[k].rect) || (area(els[at].rect) == area(els[k].rect) && at <= k)
}

/// Multiplies width and height.
fn area_of(r: &Rect) -> (a: i64)
    ensures
        a == area(*r),
{
    proof {
        let (w, h) = (r.width as int, r.height as int);
        assert(-0x4000_0000_0000_0000 <= w * h <= 0x4000_0000_0000_0000) by (nonlinear_arith)
            requires
                -0x8000_0000 <= w <= 0x7fff_ffff,
                -0x8000_0000 <= h <= 0x7fff_ffff,
        ;
    }
    r.width as i64 * r.height as i64
}

/// Finds the smallest element around a point, and the first of several: a field's
/// edges shift as its content changes, so an element is found again by its middle.
pub fn element_at(els: &Vec<ElementInfo>, x: i32, y: i32) -> (r: Option<usize>)
    requires
        forall|k: int| 0 <= k < els@.len() ==> edges_fit((#[trigger] els@[k]).rect),
    ensures
        match r {
            Some(at) => is_at(els@, (x as int, y as int), at as int),
            None => forall|k: int|
                0 <= k < els@.len() ==> !holds_point(
                    (#[trigger] els@[k]).rect,
                    (x as int, y as int),
                ),
        },
        r is None ==> nothing_at(els@, (x as int, y as int)),
{
    let ghost p = (x as int, y as int);
    let mut best: Option<usize> = None;
    let mut i: usize = 0;
    while i < els.len()
        invariant
            i <= els@.len(),
            p == (x as int, y as int),
            forall|k: int| 0 <= k < els@.len() ==> edges_fit((#[trigger] els@[k]).rect),
            match best {
                Some(at) => at < i && holds_point(els@[at as int].rect, p) && forall|k: int|
                    0 <= k < i && holds_point((#[trigger] els@[k]).rect, p) ==> area(
                        els@[at as int].rect,
                    ) < area(els@[k].rect) || (area(els@[at as int].rect) == area(els@[k].rect)
                        && at <= k),
                None => forall|k: int|
                    0 <= k < i ==> !holds_point((#[trigger] els@[k]).rect, p),
            },
        decreases els@.len() - i,
    {
        assert(edges_fit(els@[i as int].rect));
        let r = &els[i].rect;
        if r.x <= x && x <= r.x + r.width && r.y <= y && y <= r.y + r.height {
            match best {
                Some(at) => {
                    if area_of(r) < area_of(&els[at].rect) {
                        best = Some(i);
                    }
                },
                None => {
                    best = Some(i);
                },
            }
        }
        i = i + 1;
    }
    best
}

/// The text of the element at a point.
pub fn read_element(id: &str, els: &Vec<ElementInfo>) -> (r: RemoteResult<String>)
    requires
        id_edges(id@) matches Some(b) ==> b.sized(),
        forall|k: int| 0 <= k < els@.len() ==> edges_fit((#[trigger] els@[k]).rect),
    ensures
        match id_edges(id@) {
            None => r matches Err(e) && is_error(
                e,
                RemoteErrorKind::Invalid,
                "malformed android element id '"@ + id@ + "' (want l,t,r,b)"@,
            ),
            Some(b) => match r {
                Ok(value) => exists|at: int| #[trigger]
                    is_at(els@, middle(b), at) && value@ == match els@[at].value {
                        Some(v) => v@,
                        None => ""@,
                    },
                Err(e) => (forall|k: int|
                    0 <= k < els@.len() ==> !holds_point((#[trigger] els@[k]).rect, middle(b)))
                    && is_error(e, RemoteErrorKind::Invalid, "no element at "@ + id@),
            },
        },
{
    let b = match parse_bounds_id(id) {
        Ok(b) => b,
        Err(e) => {
            return Err(e);
        },
    };
    let (x, y) = middle_of(&b);
    match element_at(els, x, y) {
        Some(at) => {
            assert(is_at(els@, middle(b), at as int));
            match &els[at].value {
                Some(v) => Ok(v.clone()),
                None => Ok("".to_string()),
            }
        },
        None => Err(invalid(text::join2("no element at ", id).as_str())),
    }
}

/// How a key is pressed.
pub fn key_event(code: &str) -> (r: Invocation)
    ensures
        r.calls("input"@, seq!["keyevent"@, code@]),
{
    let r = invoke("input", &vec!["keyevent", code]);
    assert(text::texts(r.args@) =~= seq!["keyevent"@, code@]);
    r
}

/// How a text is typed: the tool wants `%s` for a space.
pub fn type_text(content: &str) -> (r: Invocation)
    ensures
        r.calls("input"@, seq!["text"@, text::replaced(content@, ' ', "%s"@)]),
{
    let encoded = text::replace_char(content, ' ', "%s");
    let r = invoke("input", &vec!["text", encoded.as_str()]);
    assert(text::texts(r.args@) =~= seq!["text"@, text::replaced(content@, ' ', "%s"@)]);
    r
}

/// Most characters that a field is cleared of.
pub const MAX_DELETES: usize = 500;

/// The arguments that press backspace so many times.
pub open spec fn backspaces(n: nat) -> Seq<Seq<char>> {
    seq!["keyevent"@] + Seq::new(n, |i: int| "67"@)
}

/// How backspace is pressed so many times.
fn press_backspace(n: usize) -> (r: Invocation)
    ensures
        r.calls("input"@, backspaces(n as nat)),
{
    let mut r = invoke("input", &vec!["keyevent"]);
    let mut i: usize = 0;
    assert(text::texts(r.args@) =~= backspaces(0));
    while i < n
        invariant
            i <= n,
            r.program@ == "input"@,
            r.env@ == Seq::<(String, String)>::empty(),
            text::texts(r.args@) == backspaces(i as nat),
        decreases n - i,
    {
        let ghost before = r.args@;
        r.args.push("67".to_string());
        i = i + 1;
        assert(text::texts(r.args@) =~= text::texts(before).push("67"@));
        assert(backspaces(i as nat) =~= backspaces((i - 1) as nat).push("67"@));
    }
    r
}

/// Whether the calls set a field to a value: it is focused by a tap on its middle,
/// the caret goes to the end, what is there is deleted, and the new text is typed.
pub open spec fn sets_value(
    calls: Seq<Invocation>,
    x: i32,
    y: i32,
    present: nat,
    value: Seq<char>,
) -> bool {
    let deletes = if present > 0 {
        1int
    } else {
        0
    };
    let types = if value.len() > 0 {
        1int
    } else {
        0
    };
    &&& calls.len() == 2 + deletes + types
    &&& calls[0].calls(
        "input"@,
        seq!["tap"@, number::signed(x as int), number::signed(y as int)],
    )
    &&& calls[1].calls("input"@, seq!["keyevent"@, "123"@])
    &&& present > 0 ==> calls[2].calls(
        "input"@,
        backspaces(
            if present < MAX_DELETES {
                present
            } else {
                MAX_DELETES as nat
            },
        ),
    )
    &&& value.len() > 0 ==> calls.last().calls(
        "input"@,
        seq!["text"@, text::replaced(value, ' ', "%s"@)],
    )
}

/// How many characters the element at a point shows.
pub open spec fn shown_length(els: Seq<ElementInfo>, at: Option<int>) -> nat {
    match at {
        Some(i) => match els[i].value {
            Some(v) => v@.len(),
            None => 0,
        },
        None => 0,
    }
}

/// Plans how a field is set to a value.
pub fn set_value(x: i32, y: i32, present: usize, value: &str) -> (calls: Vec<Invocation>)
    ensures
        sets_value(calls@, x, y, present as nat, value@),
{
    let mut calls: Vec<Invocation> = Vec::new();
    calls.push(tap(x, y));
    calls.push(key_event("123"));
    if present > 0 {
        let n: usize = if present < MAX_DELETES {
            present
        } else {
            MAX_DELETES
        };
        calls.push(press_backspace(n));
    }
    if value.unicode_len() > 0 {
        calls.push(type_text(value));
    }
    calls
}

/// Counts the characters that the element at a position shows; none where there is
/// no element.
pub fn current_length(els: &Vec<ElementInfo>, at: Option<usize>) -> (n: usize)
    requires
        at matches Some(i) ==> i < els@.len(),
    ensures
        n == shown_length(
            els@,
            match at {
                Some(i) => Some(i as int),
                None => None,
            },
        ),
{
    match at {
        Some(i) => match &els[i].value {
            Some(v) => v.as_str().unicode_len(),
            None => 0,
        },
        None => 0,
    }
}

/// How the screen is woken and the lock screen dismissed; only the first call has
/// to succeed.
pub fn activate_window() -> (r: (Invocation, Invocation))
    ensures
        r.0.calls("input"@, seq!["keyevent"@, "224"@]),
        r.1.calls("wm"@, seq!["dismiss-keyguard"@]),
{
    let second = invoke("wm", &vec!["dismiss-keyguard"]);
    assert(text::texts(second.args@) =~= seq!["dismiss-keyguard"@]);
    (key_event("224"), second)
}

/// How an app is launched: a full component is started, a bare package through its
/// launcher.
pub fn open_app(target: &str) -> (r: Invocation)
    ensures
        if target@.contains('/') {
            r.calls("am"@, seq!["start"@, "-n"@, target@])
        } else {
            r.calls(
                "monkey"@,
                seq!["-p"@, target@, "-c"@, "android.intent.category.LAUNCHER"@, "1"@],
            )
        },
{
    let chars = text::chars_of(target);
    let at: usize = text::first_of(chars.as_slice(), '/');
    proof {
        if at < target@.len() {
            assert(target@.contains(target@[at as int]));
        } else {
            lemma_absent(target@, '/', 0);
        }
    }
    if at < chars.len() {
        let r = invoke("am", &vec!["start", "-n", target]);
        assert(text::texts(r.args@) =~= seq!["start"@, "-n"@, target@]);
        r
    } else {
        let r = invoke(
            "monkey",
            &vec!["-p", target, "-c", "android.intent.category.LAUNCHER", "1"],
        );
        assert(text::texts(r.args@) =~= seq![
            "-p"@,
            target@,
            "-c"@,
            "android.intent.category.LAUNCHER"@,
            "1"@,
        ]);
        r
    }
}

proof fn lemma_absent(s: Seq<char>, c: char, from: int)
    requires
        0 <= from <= s.len(),
        text::first_from(s, c, from) == s.len(),
    ensures
        forall|i: int| from <= i < s.len() ==> s[i] != c,
    decreases s.len() - from,
{
    if from < s.len() && s[from] != c {
        lemma_absent(s, c, from + 1);
    }
}

/// How the process of an app is looked up: by its package.
pub fn pid_call(target: &str) -> (r: Invocation)
    ensures
        r.calls("pidof"@, seq![text::split(target@, '/')[0]]),
{
    let pieces = text::split_on(text::chars_of(target).as_slice(), '/');
    assert(text::views(pieces@)[0] == pieces@[0]@);
    let package = text::string_of(pieces[0].as_slice());
    let r = invoke("pidof", &vec![package.as_str()]);
    assert(text::texts(r.args@) =~= seq![text::split(target@, '/')[0]]);
    r
}

/// The process id that a look-up printed: the first word, or zero.
pub open spec fn found_pid(out: Option<Seq<u8>>) -> nat {
    match out {
        Some(bytes) => {
            let w = text::words(text::lossy_text(bytes));
            if w.len() > 0 {
                match number::parsed(w[0], u32::MAX as nat) {
                    Some(pid) => pid,
                    None => 0,
                }
            } else {
                0
            }
        },
        None => 0,
    }
}

/// Reads the process id that a look-up printed.
pub fn read_pid(out: Option<Vec<u8>>) -> (pid: u32)
    ensures
        pid == found_pid(
            match out {
                Some(bytes) => Some(bytes@),
                None => None,
            },
        ),
{
    match out {
        Some(bytes) => {
            let w = text::words_of(
                text::chars_of(text::lossy(bytes.as_slice()).as_str()).as_slice(),
            );
            assert(text::views(w@).len() == w@.len());
            if w.len() > 0 {
                assert(text::views(w@)[0] == w@[0]@);
                match number::parse_unsigned(w[0].as_slice(), u32::MAX as u64) {
                    Some(n) => n as u32,
                    None => 0,
                }
            } else {
                0
            }
        },
        None => 0,
    }
}

/// How a finger is drawn across the screen.
pub fn swipe(x1: i32, y1: i32, x2: i32, y2: i32) -> (r: Invocation)
    ensures
        r.calls(
            "input"@,
            seq![
                "swipe"@,
                number::signed(x1 as int),
                number::signed(y1 as int),
                number::signed(x2 as int),
                number::signed(y2 as int),
                "300"@,
            ],
        ),
{
    let (a, b) = (number::signed_text(x1), number::signed_text(y1));
    let (c, d) = (number::signed_text(x2), number::signed_text(y2));
    let r = invoke(
        "input",
        &vec!["swipe", a.as_str(), b.as_str(), c.as_str(), d.as_str(), "300"],
    );
    assert(text::texts(r.args@) =~= seq![
        "swipe"@,
        number::signed(x1 as int),
        number::signed(y1 as int),
        number::signed(x2 as int),
        number::signed(y2 as int),
        "300"@,
    ]);
    r
}

/// How far a notch of the wheel moves, in pixels.
pub const SCROLL_STEP: i32 = 300;

/// Where a scroll starts and ends: from the middle of the screen, against the
/// direction of the wheel.
pub open spec fn scroll_line(size: (i32, i32), dx: i32, dy: i32) -> (int, int, int, int) {
    let (x, y) = (halved(size.0 as int), halved(size.1 as int));
    (x, y, x - dx * SCROLL_STEP, y - dy * SCROLL_STEP)
}

/// Whether a scroll stays within the range of coordinates.
pub open spec fn scroll_fits(size: (i32, i32), dx: i32, dy: i32) -> bool {
    let line = scroll_line(size, dx, dy);
    &&& i32::MIN <= dx * SCROLL_STEP <= i32::MAX
    &&& i32::MIN <= dy * SCROLL_STEP <= i32::MAX
    &&& i32::MIN <= line.2 <= i32::MAX
    &&& i32::MIN <= line.3 <= i32::MAX
}

/// Whether a scroll stays within the range of coordinates.
pub fn can_scroll(size: (i32, i32), dx: i32, dy: i32) -> (r: bool)
    ensures
        r == scroll_fits(size, dx, dy),
{
    let (mx, my): (i64, i64) = (dx as i64 * 300, dy as i64 * 300);
    let (ex, ey): (i64, i64) = (half(size.0) as i64 - mx, half(size.1) as i64 - my);
    in_i32(mx) && in_i32(my) && in_i32(ex) && in_i32(ey)
}

fn in_i32(v: i64) -> (r: bool)
    ensures
        r == (i32::MIN <= v <= i32::MAX),
{
    -0x8000_0000 <= v && v <= 0x7fff_ffff
}

/// Maps a mouse action to a gesture: a click is a tap, a drag a swipe, and a scroll
/// a swipe from the middle of the screen. There is no cursor that could be moved or
/// held down.
pub fn mouse(action: MouseAction, size: (i32, i32)) -> (r: RemoteResult<Invocation>)
    requires
        action matches MouseAction::Scroll { dx, dy } ==> scroll_fits(size, dx, dy),
    ensures
        match action {
            MouseAction::Click { x, y, .. } => r matches Ok(call) && call.calls(
                "input"@,
                seq!["tap"@, number::signed(x as int), number::signed(y as int)],
            ),
            MouseAction::Drag { from_x, from_y, to_x, to_y, .. } => r matches Ok(call) && call.calls(
                "input"@,
                seq![
                    "swipe"@,
                    number::signed(from_x as int),
                    number::signed(from_y as int),
                    number::signed(to_x as int),
                    number::signed(to_y as int),
                    "300"@,
                ],
            ),
            MouseAction::Scroll { dx, dy } => r matches Ok(call) && call.calls(
                "input"@,
                seq![
                    "swipe"@,
                    number::signed(scroll_line(size, dx, dy).0),
                    number::signed(scroll_line(size, dx, dy).1),
                    number::signed(scroll_line(size, dx, dy).2),
                    number::signed(scroll_line(size, dx, dy).3),
                    "300"@,
                ],
            ),
            _ => r matches Err(e) && is_error(
                e,
                RemoteErrorKind::Invalid,
                "android has no persistent cursor — use click/drag/scroll (tap/swipe)"@,
            ),
        },
{
    match action {
        MouseAction::Click { x, y, .. } => Ok(tap(x, y)),
        MouseAction::Drag { from_x, from_y, to_x, to_y, .. } => Ok(
            swipe(from_x, from_y, to_x, to_y),
        ),
        MouseAction::Scroll { dx, dy } => {
            let (x, y) = (half(size.0), half(size.1));
            Ok(swipe(x, y, x - dx * SCROLL_STEP, y - dy * SCROLL_STEP))
        },
        _ => Err(
            invalid("android has no persistent cursor — use click/drag/scroll (tap/swipe)"),
        ),
    }
}

/// The number by which the device knows a named key.
pub open spec fn keycode(key: Key) -> Option<Seq<char>> {
    match key {
        Key::Enter => Some("66"@),
        Key::Tab => Some("61"@),
        Key::Space => Some("62"@),
        Key::Backspace => Some("67"@),
        Key::Delete => Some("112"@),
        Key::Escape => Some("111"@),
        Key::Home => Some("122"@),
        Key::End => Some("123"@),
        Key::PageUp => Some("92"@),
        Key::PageDown => Some("93"@),
        Key::Up => Some("19"@),
        Key::Down => Some("20"@),
        Key::Left => Some("21"@),
        Key::Right => Some("22"@),
        Key::Char(_) => None,
        Key::F(_) => None,
    }
}

/// Looks up the number by which the device knows a named key.
pub fn android_keycode(key: Key) -> (r: Option<&'static str>)
    ensures
        match r {
            Some(code) => keycode(key) == Some(code@),
            None => keycode(key) is None,
        },
{
    match key {
        Key::Enter => Some("66"),
        Key::Tab => Some("61"),
        Key::Space => Some("62"),
        Key::Backspace => Some("67"),
        Key::Delete => Some("112"),
        Key::Escape => Some("111"),
        Key::Home => Some("122"),
        Key::End => Some("123"),
        Key::PageUp => Some("92"),
        Key::PageDown => Some("93"),
        Key::Up => Some("19"),
        Key::Down => Some("20"),
        Key::Left => Some("21"),
        Key::Right => Some("22"),
        Key::Char(_) => None,
        Key::F(_) => None,
    }
}

/// How a key is pressed: a character is typed as text, a named key by its number.
/// Function keys have none. Modifiers cannot be held.
pub fn key_chord(key: Key) -> (r: RemoteResult<Invocation>)
    ensures
        match key {
            Key::Char(c) => r matches Ok(call) && call.calls(
                "input"@,
                seq!["text"@, text::replaced(seq![c], ' ', "%s"@)],
            ),
            Key::F(n) => r matches Err(e) && is_error(
                e,
                RemoteErrorKind::Invalid,
                "android MVP has no keycode mapping for F("@ + number::decimal(n as nat) + ")"@,
            ),
            _ => r matches Ok(call) && (keycode(key) matches Some(code) && call.calls(
                "input"@,
                seq!["keyevent"@, code],
            )),
        },
{
    match key {
        Key::Char(c) => {
            let mut one = String::new();
            one.push(c);
            assert(one@ =~= seq![c]);
            Ok(type_text(one.as_str()))
        },
        _ => match android_keycode(key) {
            Some(code) => Ok(key_event(code)),
            None => {
                let n: u8 = match key {
                    Key::F(n) => n,
                    _ => 0,
                };
                Err(
                    invalid(
                        text::join3(
                            "android MVP has no keycode mapping for F(",
                            number::decimal_text(n as u64).as_str(),
                            ")",
                        ).as_str(),
                    ),
                )
            },
        },
    }
}

/// How the activity in the foreground is looked up.
pub fn resumed_call() -> (r: Invocation)
    ensures
        r.calls(
            "sh"@,
            seq!["-c"@, "dumpsys activity activities 2>/dev/null | grep -m1 mResumedActivity"@],
        ),
{
    run_command("dumpsys activity activities 2>/dev/null | grep -m1 mResumedActivity", Vec::new())
}

/// A text without the closing braces at its end.
pub open spec fn unbraced(s: Seq<char>) -> Seq<char>
    decreases s.len(),
{
    if s.len() > 0 && s.last() == '}' {
        unbraced(s.drop_last())
    } else {
        s
    }
}

/// The first word with a slash, without the closing braces at its end.
pub open spec fn activity(words: Seq<Seq<char>>) -> Option<Seq<char>>
    decreases words.len(),
{
    if words.len() == 0 {
        None
    } else if words[0].contains('/') {
        Some(unbraced(words[0]))
    } else {
        activity(words.skip(1))
    }
}

/// The title of the one window: the activity in the foreground.
pub open spec fn foreground_title(out: Seq<u8>) -> Seq<char> {
    match activity(text::words(text::lossy_text(out))) {
        Some(name) => name,
        None => "foreground"@,
    }
}

/// Reads the title of the one window.
pub fn title_of(out: &[u8]) -> (r: String)
    ensures
        r@ == foreground_title(out@),
{
    let words = text::words_of(text::chars_of(text::lossy(out).as_str()).as_slice());
    let ghost all = text::views(words@);
    let mut i: usize = 0;
    assert(all.skip(0) =~= all);
    while i < words.len()
        invariant
            i <= words@.len(),
            all == text::views(words@),
            all == text::words(text::lossy_text(out@)),
            activity(all) == activity(all.skip(i as int)),
        decreases words@.len() - i,
    {
        let ghost rest = all.skip(i as int);
        assert(rest[0] == words@[i as int]@);
        assert(rest.skip(1) =~= all.skip(i + 1));
        let word = &words[i];
        let at: usize = text::first_of(word.as_slice(), '/');
        proof {
            if at < word@.len() {
                assert(word@.contains(word@[at as int]));
            } else {
                lemma_absent(word@, '/', 0);
            }
        }
        if at < word.len() {
            let mut j: usize = word.len();
            assert(word@.take(j as int) =~= word@);
            while j > 0 && word[j - 1] == '}'
                invariant
                    j <= word@.len(),
                    unbraced(word@) == unbraced(word@.take(j as int)),
                decreases j,
            {
                assert(word@.take(j as int).drop_last() =~= word@.take(j - 1));
                j = j - 1;
            }
            let name = text::slice_chars(word.as_slice(), 0, j);
            assert(name@ =~= word@.take(j as int));
            return text::string_of(name.as_slice());
        }
        i = i + 1;
    }
    "foreground".to_string()
}

/// The size of the screen as the device prints it, after the last colon.
pub open spec fn printed_size(out: Seq<u8>) -> Option<(int, int)> {
    match text::split_once(text::trim(text::after_last(text::lossy_text(out), ':')), 'x') {
        Some((w, h)) => match (
            number::parsed_signed(text::trim(w)),
            number::parsed_signed(text::trim(h)),
        ) {
            (Some(a), Some(b)) => Some((a, b)),
            _ => None,
        },
        None => None,
    }
}

/// Reads the size of the screen.
pub fn screen_size(out: &[u8]) -> (r: Option<(i32, i32)>)
    ensures
        match r {
            Some((w, h)) => printed_size(out@) == Some((w as int, h as int)),
            None => printed_size(out@) is None,
        },
{
    let pieces = text::split_on(text::chars_of(text::lossy(out).as_str()).as_slice(), ':');
    let last = &pieces[pieces.len() - 1];
    assert(text::views(pieces@).last() == last@);
    match text::split_first(text::trimmed(last.as_slice()).as_slice(), 'x') {
        Some((w, h)) => {
            let a = number::parse_signed(text::trimmed(w.as_slice()).as_slice());
            let b = number::parse_signed(text::trimmed(h.as_slice()).as_slice());
            match (a, b) {
                (Some(width), Some(height)) => Some((width, height)),
                _ => None,
            }
        },
        None => None,
    }
}

/// Lists the one window there is: the screen.
pub fn list_windows(resumed: &[u8], size: Option<(i32, i32)>) -> (r: WindowInfo)
    ensures
        r.id == WindowId(0),
        r.title@ == foreground_title(resumed@),
        r.process@ == "android"@,
        r.focused,
        r.rect == (Rect {
            x: 0,
            y: 0,
            width: match size {
                Some(s) => s.0,
                None => 0,
            },
            height: match size {
                Some(s) => s.1,
                None => 0,
            },
        }),
{
    let (width, height) = match size {
        Some(s) => s,
        None => (0, 0),
    };
    WindowInfo {
        id: WindowId(0),
        title: title_of(resumed),
        process: "android".to_string(),
        focused: true,
        rect: Rect { x: 0, y: 0, width, height },
    }
}

/// The size that a scroll goes by where the screen's is not known.
pub fn scroll_size(size: Option<(i32, i32)>) -> (r: (i32, i32))
    ensures
        r == match size {
            Some(s) => s,
            None => (1080i32, 1920i32),
        },
{
    match size {
        Some(s) => s,
        None => (1080, 1920),
    }
}

/// Whether a call runs this program with these arguments, and sets nothing.
pub open spec fn runs(call: Invocation, program: Seq<char>, args: Seq<Seq<char>>) -> bool {
    &&& call.program@ == program && call.env@.len() == 0 && call.args@.len() == args.len()
    &&& forall|i: int| 0 <= i < args.len() ==> (#[trigger] call.args@[i])@ == args[i]
}

proof fn lemma_runs(call: Invocation, program: Seq<char>, args: Seq<Seq<char>>)
    requires
        call.calls(program, args),
    ensures
        runs(call, program, args),
{
    let t = text::texts(call.args@);
    assert(t.len() == call.args@.len());
    assert forall|i: int| 0 <= i < args.len() implies (#[trigger] call.args@[i])@ == args[i] by {
        assert(t[i] == call.args@[i]@);
    }
}

/// A click taps where it is, a drag is drawn from its start to its end, and a scroll
/// from the middle of the screen, three hundred pixels a notch, against the wheel. A
/// cursor cannot be moved or held.
pub proof fn law_mouse_becomes_gestures(
    action: MouseAction,
    size: (i32, i32),
    r: RemoteResult<Invocation>,
)
    requires
        action matches MouseAction::Scroll { dx, dy } ==> scroll_fits(size, dx, dy),
        0 <= size.0 && 0 <= size.1,
        mouse.ensures((action, size), r),
    ensures
        r is Ok <==> action is Click || action is Drag || action is Scroll,
        action matches MouseAction::Click { x, y, .. } ==> runs(
            r->Ok_0,
            "input"@,
            seq!["tap"@, number::signed(x as int), number::signed(y as int)],
        ),
        action matches MouseAction::Drag { from_x, from_y, to_x, to_y, .. } ==> runs(
            r->Ok_0,
            "input"@,
            seq![
                "swipe"@,
                number::signed(from_x as int),
                number::signed(from_y as int),
                number::signed(to_x as int),
                number::signed(to_y as int),
                "300"@,
            ],
        ),
        action matches MouseAction::Scroll { dx, dy } ==> runs(
            r->Ok_0,
            "input"@,
            seq![
                "swipe"@,
                number::signed(size.0 as int / 2),
                number::signed(size.1 as int / 2),
                number::signed(size.0 as int / 2 - dx * 300),
                number::signed(size.1 as int / 2 - dy * 300),
                "300"@,
            ],
        ),
{
    match action {
        MouseAction::Click { x, y, .. } => {
            lemma_runs(
                r->Ok_0,
                "input"@,
                seq!["tap"@, number::signed(x as int), number::signed(y as int)],
            );
        },
        MouseAction::Drag { from_x, from_y, to_x, to_y, .. } => {
            lemma_runs(
                r->Ok_0,
                "input"@,
                seq![
                    "swipe"@,
                    number::signed(from_x as int),
                    number::signed(from_y as int),
                    number::signed(to_x as int),
                    number::signed(to_y as int),
                    "300"@,
                ],
            );
        },
        MouseAction::Scroll { dx, dy } => {
            lemma_runs(
                r->Ok_0,
                "input"@,
                seq![
                    "swipe"@,
                    number::signed(size.0 as int / 2),
                    number::signed(size.1 as int / 2),
                    number::signed(size.0 as int / 2 - dx * 300),
                    number::signed(size.1 as int / 2 - dy * 300),
                    "300"@,
                ],
            );
        },
        _ => {},
    }
}

/// A scroll is possible exactly if its distances and its end can be counted.
pub proof fn law_scroll_range(size: (i32, i32), dx: i32, dy: i32, r: bool)
    requires
        0 <= size.0 && 0 <= size.1,
        can_scroll.ensures((size, dx, dy), r),
    ensures
        r <==> i32::MIN <= dx * 300 <= i32::MAX && i32::MIN <= dy * 300 <= i32::MAX && i32::MIN
            <= size.0 as int / 2 - dx * 300 <= i32::MAX && i32::MIN <= size.1 as int / 2 - dy * 300
            <= i32::MAX,
{
}

/// An element's id is its left, top, right and bottom edge with commas between, with or
/// without white space; anything but four numbers is no id.
pub proof fn law_element_id_is_its_edges(
    id: &str,
    a: &[char],
    b: &[char],
    c: &[char],
    d: &[char],
    left: Option<i32>,
    top: Option<i32>,
    right: Option<i32>,
    bottom: Option<i32>,
    r: RemoteResult<Bounds>,
)
    requires
        !a@.contains(',') && !b@.contains(',') && !c@.contains(',') && !d@.contains(','),
        text::trim(a@) == a@ && text::trim(b@) == b@ && text::trim(c@) == c@ && text::trim(d@) == d@,
        number::parse_signed.ensures((a,), left),
        number::parse_signed.ensures((b,), top),
        number::parse_signed.ensures((c,), right),
        number::parse_signed.ensures((d,), bottom),
        id@ == text::joined(seq![a@, b@, c@, d@], seq![',']),
        parse_bounds_id.ensures((id,), r),
    ensures
        r is Ok <==> left is Some && top is Some && right is Some && bottom is Some,
        r matches Ok(e) ==> e.left == left->0 && e.top == top->0 && e.right == right->0 && e.bottom
            == bottom->0,
{
    let pieces = seq![a@, b@, c@, d@];
    text::law_split_undoes_join(pieces, ',');
    let p3 = pieces.drop_last();
    let p2 = p3.drop_last();
    let p1 = p2.drop_last();
    assert(p1.drop_last() =~= Seq::empty());
    assert(readable(p1.drop_last()) =~= Seq::empty());
    assert(pieces.last() == d@ && p3.last() == c@ && p2.last() == b@ && p1.last() == a@);
    reveal_with_fuel(readable, 5);
    assert(readable(p1).len() <= 1);
    assert(readable(p2).len() <= 2);
    assert(readable(p3).len() <= 3);
}

/// A click goes to the point that is named, or to the middle of the element, which
/// lies inside it.
pub proof fn law_click_hits_its_target(
    x: i32,
    y: i32,
    button: crate::proto::wire::MouseButton,
    id: crate::proto::id::ElementId,
    text: &str,
    edges: RemoteResult<Bounds>,
    p: RemoteResult<(i32, i32)>,
    e: RemoteResult<(i32, i32)>,
)
    requires
        text@ == id.0@,
        parse_bounds_id.ensures((text,), edges),
        edges matches Ok(b) ==> b.sized(),
        click.ensures((&ClickTarget::Point { x, y, button },), p),
        click.ensures((&ClickTarget::Element(id),), e),
    ensures
        p == Ok::<(i32, i32), RemoteError>((x, y)),
        e is Ok <==> edges is Ok,
        edges matches Ok(b) ==> {
            let at = e->Ok_0;
            &&& -1 <= 2 * at.0 - (b.left + b.right) <= 1
            &&& -1 <= 2 * at.1 - (b.top + b.bottom) <= 1
            &&& b.left <= b.right ==> b.left <= at.0 <= b.right
            &&& b.top <= b.bottom ==> b.top <= at.1 <= b.bottom
        },
{
}

/// The element at a point is one that the point lies in, borders included, and no
/// smaller one has the point in it; of equals it is the first. Without any there is
/// none.
pub proof fn law_smallest_element_is_found(
    els: &Vec<ElementInfo>,
    x: i32,
    y: i32,
    k: int,
    r: Option<usize>,
)
    requires
        element_at.ensures((els, x, y), r),
        0 <= k < els@.len(),
        ({
            let b = els@[k].rect;
            b.x <= x <= b.x + b.width && b.y <= y <= b.y + b.height
        }),
    ensures
        r matches Some(at) && at < els@.len() && ({
            let (a, b) = (els@[at as int].rect, els@[k].rect);
            &&& a.x <= x <= a.x + a.width && a.y <= y <= a.y + a.height
            &&& a.width * a.height <= b.width * b.height
            &&& a.width * a.height == b.width * b.height ==> at <= k
        }),
{
    assert(holds_point(els@[k].rect, (x as int, y as int)));
    if r is None {
        assert(nothing_at(els@, (x as int, y as int)));
    }
    if let Some(at) = r {
        assert(is_at(els@, (x as int, y as int), at as int));
    }
}

/// Setting a field taps it, goes to its end, deletes as many characters as it shows, up
/// to five hundred, and types the new text, with `%s` for each space.
pub proof fn law_field_is_cleared_and_typed(
    x: i32,
    y: i32,
    present: usize,
    value: &str,
    calls: Vec<Invocation>,
    encoded: String,
)
    requires
        set_value.ensures((x, y, present, value), calls),
        text::replace_char.ensures((value, ' ', "%s"), encoded),
    ensures
        calls@.len() >= 2,
        runs(
            calls@[0],
            "input"@,
            seq!["tap"@, number::signed(x as int), number::signed(y as int)],
        ),
        runs(calls@[1], "input"@, seq!["keyevent"@, "123"@]),
        calls@.len() == 2 <==> present == 0 && value@.len() == 0,
        present > 0 ==> calls@[2].args@.len() == 1 + (if present < 500 {
            present as int
        } else {
            500
        }) && forall|i: int| 1 <= i < calls@[2].args@.len() ==> (#[trigger] calls@[2].args@[i])@
            == "67"@,
        value@.len() > 0 ==> runs(calls@.last(), "input"@, seq!["text"@, encoded@]),
{
    lemma_runs(
        calls@[0],
        "input"@,
        seq!["tap"@, number::signed(x as int), number::signed(y as int)],
    );
    lemma_runs(calls@[1], "input"@, seq!["keyevent"@, "123"@]);
    if present > 0 {
        let n: nat = if present < 500 {
            present as nat
        } else {
            500
        };
        lemma_runs(calls@[2], "input"@, backspaces(n));
        assert forall|i: int| 1 <= i < calls@[2].args@.len() implies (
        #[trigger] calls@[2].args@[i])@ == "67"@ by {
            assert(backspaces(n)[i] == "67"@);
        }
    }
    if value@.len() > 0 {
        lemma_runs(calls@.last(), "input"@, seq!["text"@, encoded@]);
    }
}

/// A named key is pressed by the number that the device has for it; different keys
/// have different numbers. A character is typed; a function key cannot be pressed.
pub proof fn law_keys_have_their_numbers(
    a: Key,
    b: Key,
    x: Option<&'static str>,
    y: Option<&'static str>,
    r: RemoteResult<Invocation>,
)
    requires
        android_keycode.ensures((a,), x),
        android_keycode.ensures((b,), y),
        key_chord.ensures((a,), r),
    ensures
        x is None <==> a is Char || a is F,
        x matches Some(c) ==> (y matches Some(d) ==> (c@ == d@ ==> a == b)),
        x matches Some(c) ==> (r matches Ok(call) && runs(call, "input"@, seq!["keyevent"@, c@])),
        a is F ==> r is Err,
        a matches Key::Char(c) ==> (c != ' ' ==> (r matches Ok(call) && runs(
            call,
            "input"@,
            seq!["text"@, seq![c]],
        ))),
        a is Enter ==> x->0@ == "66"@,
        a is Tab ==> x->0@ == "61"@,
        a is Space ==> x->0@ == "62"@,
        a is Backspace ==> x->0@ == "67"@,
        a is Delete ==> x->0@ == "112"@,
        a is Escape ==> x->0@ == "111"@,
        a is Home ==> x->0@ == "122"@,
        a is End ==> x->0@ == "123"@,
        a is PageUp ==> x->0@ == "92"@,
        a is PageDown ==> x->0@ == "93"@,
        a is Up ==> x->0@ == "19"@,
        a is Down ==> x->0@ == "20"@,
        a is Left ==> x->0@ == "21"@,
        a is Right ==> x->0@ == "22"@,
{
    lemma_key_numbers();
    if let Some(c) = x {
        lemma_runs(r->Ok_0, "input"@, seq!["keyevent"@, c@]);
    }
    if let Key::Char(c) = a {
        if c != ' ' {
            text::law_replacing_is_by_character(Seq::empty(), Seq::empty(), ' ', c, "%s"@);
            lemma_runs(r->Ok_0, "input"@, seq!["text"@, seq![c]]);
        }
    }
}

/// A component is started by name; a package, which has no slash, by its launcher. Its
/// process is looked for by the package, what is before the slash.
pub proof fn law_app_is_opened_by_its_name(
    target: &str,
    package: Seq<char>,
    r: Invocation,
    look: Invocation,
)
    requires
        open_app.ensures((target,), r),
        pid_call.ensures((target,), look),
    ensures
        target@.contains('/') ==> runs(r, "am"@, seq!["start"@, "-n"@, target@]),
        !target@.contains('/') ==> runs(
            r,
            "monkey"@,
            seq!["-p"@, target@, "-c"@, "android.intent.category.LAUNCHER"@, "1"@],
        ) && runs(look, "pidof"@, seq![target@]),
        !package.contains('/') && target@.len() > package.len() && target@.take(
            package.len() as int + 1,
        ) == package.push('/') ==> runs(look, "pidof"@, seq![package]),
{
    lemma_runs(look, "pidof"@, seq![text::split(target@, '/')[0]]);
    if target@.contains('/') {
        lemma_runs(r, "am"@, seq!["start"@, "-n"@, target@]);
    } else {
        lemma_runs(
            r,
            "monkey"@,
            seq!["-p"@, target@, "-c"@, "android.intent.category.LAUNCHER"@, "1"@],
        );
        text::lemma_split_grows(Seq::empty(), target@, '/');
        assert(Seq::<char>::empty() + target@ =~= target@);
        assert(text::split(target@, '/') =~= seq![target@]);
    }
    if !package.contains('/') && target@.len() > package.len() && target@.take(
        package.len() as int + 1,
    ) == package.push('/') {
        let rest = target@.skip(package.len() as int + 1);
        assert(target@ =~= target@.take(package.len() as int + 1) + rest);
        assert(target@ =~= package.push('/') + rest);
        text::law_split_comes_apart(package, rest, '/');
        text::lemma_split_grows(Seq::empty(), package, '/');
        assert(Seq::<char>::empty() + package =~= package);
        assert(text::split(package, '/') =~= seq![package]);
        assert(text::split(target@, '/')[0] == package);
    }
}

/// Killing is for the process of that number if the target is one, and otherwise for
/// every process of that name, whatever its case and with or without `.exe`; for no
/// other, and each stays as it is.
pub proof fn law_kill_is_for_its_target(
    list: Vec<ProcessInfo>,
    target: &str,
    digits: &[char],
    number: Option<u64>,
    p: ProcessInfo,
    r: RemoteResult<Vec<ProcessInfo>>,
)
    requires
        digits@ == target@,
        number::parse_unsigned.ensures((digits, u32::MAX as u64), number),
        kill_process.ensures((list, target), r),
    ensures
        ({
            let numeric = forall|i: int|
                0 <= i < target@.len() ==> '0' <= #[trigger] target@[i] <= '9';
            &&& numeric ==> (r is Ok <==> number is Some)
            &&& numeric && number is Some ==> ((r->Ok_0)@.contains(p) <==> list@.contains(p)
                && p.pid == number->0)
            &&& !numeric && !text::finishes(target@, ".exe"@) ==> r is Ok && ((r->Ok_0)@.contains(p)
                <==> list@.contains(p) && text::unicode_lowercase(p.name@)
                == text::unicode_lowercase(target@))
        }),
{
    let keep = |p: ProcessInfo| is_target(p, target@);
    let numeric = forall|i: int| 0 <= i < target@.len() ==> '0' <= #[trigger] target@[i] <= '9';
    if numeric {
        assert(number::all_digits(target@));
    } else {
        let i = choose|i: int| 0 <= i < target@.len() && !('0' <= #[trigger] target@[i] <= '9');
        assert(!number::is_digit(target@[i]));
    }
    if let Ok(hits) = r {
        if list@.contains(p) && keep(p) {
            let i = choose|i: int| 0 <= i < list@.len() && list@[i] == p;
            list@.lemma_filter_contains(keep, i);
        }
        if hits@.contains(p) {
            list@.lemma_filter_contains_rev(keep, p);
            let i = choose|i: int| 0 <= i < hits@.len() && hits@[i] == p;
            list@.lemma_filter_pred(keep, i);
        }
    }
}

/// A PNG file is told by its first eight bytes, and its size is in the next numbers but
/// two, the width first, each with its highest byte first.
pub proof fn law_png_header(data: &[u8], r: Option<(u32, u32)>)
    requires
        png_dimensions.ensures((data,), r),
    ensures
        r is Some <==> data@.len() >= 24 && data@[0] == 0x89 && data@[1] == 0x50 && data@[2] == 0x4E
            && data@[3] == 0x47 && data@[4] == 0x0D && data@[5] == 0x0A && data@[6] == 0x1A
            && data@[7] == 0x0A,
        r matches Some(size) ==> size.0 == ((data@[16] * 256 + data@[17]) * 256 + data@[18]) * 256
            + data@[19] && size.1 == ((data@[20] * 256 + data@[21]) * 256 + data@[22]) * 256
            + data@[23],
{
    if data@.len() >= 24 {
        let head = data@.take(8);
        let mark = png_signature();
        if data@[0] == 0x89 && data@[1] == 0x50 && data@[2] == 0x4E && data@[3] == 0x47 && data@[4]
            == 0x0D && data@[5] == 0x0A && data@[6] == 0x1A && data@[7] == 0x0A {
            assert(head =~= mark);
        }
        if head == mark {
            assert(head[0] == mark[0] && head[1] == mark[1] && head[2] == mark[2]);
            assert(head[3] == mark[3] && head[4] == mark[4] && head[5] == mark[5]);
            assert(head[6] == mark[6] && head[7] == mark[7]);
        }
    }
}

/// A command goes to the shell as it is, with the variables that are set; a tool that
/// fails is an error, and otherwise its output is taken.
pub proof fn law_shell_gets_the_command(
    script: &str,
    env: Vec<(String, String)>,
    call: Invocation,
    program: &str,
    success: bool,
    code: Option<i32>,
    stdout: Vec<u8>,
    stderr: &[u8],
    r: RemoteResult<Vec<u8>>,
    reply: Reply,
    out: &[u8],
)
    requires
        run_command.ensures((script, env), call),
        run.ensures((program, success, code, stdout, stderr), r),
        command_output.ensures((out, stderr, code), reply),
    ensures
        call.program@ == "sh"@ && call.args@.len() == 2 && call.args@[0]@ == "-c"@
            && call.args@[1]@ == script@ && call.env@ == env@,
        r is Ok <==> success,
        r matches Ok(o) ==> o == stdout,
        r matches Err(e) ==> e.kind == RemoteErrorKind::Os,
        reply matches Reply::CommandOutput { stdout: o, stderr: e, exit_code } && o@
            == text::lossy_text(out@) && e@ == text::lossy_text(stderr@) && exit_code == code,
{
    let t = text::texts(call.args@);
    assert(t.len() == call.args@.len());
    assert(t[0] == call.args@[0]@ && t[1] == call.args@[1]@);
}

/// A capture of an element is the part in its edges, one of a region that region, and
/// any other the whole screen.
pub proof fn law_capture_takes_the_part(
    data: &[u8],
    target: &CaptureTarget,
    size: Option<(u32, u32)>,
    text: &str,
    edges: RemoteResult<Bounds>,
    r: RemoteResult<Shot>,
)
    requires
        png_dimensions.ensures((data,), size),
        *target matches CaptureTarget::Element(id) ==> text@ == id.0@,
        parse_bounds_id.ensures((text,), edges),
        edges matches Ok(b) ==> b.sized(),
        screenshot.ensures((data, target), r),
    ensures
        size is None ==> r is Err,
        size matches Some(s) ==> match *target {
            CaptureTarget::Element(_) => (r is Ok <==> edges is Ok) && (r matches Ok(shot) ==> (
            shot matches Shot::Part(p) && p.x == edges->Ok_0.left && p.y == edges->Ok_0.top && p.x
                + p.width == edges->Ok_0.right && p.y + p.height == edges->Ok_0.bottom)),
            CaptureTarget::Region { x, y, width, height } => r matches Ok(Shot::Part(p)) && p.x == x
                && p.y == y && (width <= i32::MAX ==> p.width == width) && (height <= i32::MAX
                ==> p.height == height),
            _ => r matches Ok(Shot::Whole { width, height }) && width == s.0 && height == s.1,
        },
{
}

/// The first word of the output with a slash in it, without braces at its end, is the
/// title of the window; the window is the screen, and is as large.
pub proof fn law_window_is_the_screen(
    resumed: &[u8],
    size: (i32, i32),
    title: String,
    r: WindowInfo,
    s: WindowInfo,
)
    requires
        title_of.ensures((resumed,), title),
        list_windows.ensures((resumed, Some(size)), r),
        list_windows.ensures((resumed, None::<(i32, i32)>), s),
    ensures
        r.title@ == title@ && s.title@ == title@,
        r.rect == (Rect { x: 0, y: 0, width: size.0, height: size.1 }),
        s.rect == (Rect { x: 0, y: 0, width: 0, height: 0 }),
        r.focused && r.id.0 == 0,
        ({
            let w = text::words(text::lossy_text(resumed@));
            (forall|i: int| 0 <= i < w.len() ==> !(#[trigger] w[i]).contains('/')) ==> title@
                == "foreground"@
        }),
{
    let w = text::words(text::lossy_text(resumed@));
    if forall|i: int| 0 <= i < w.len() ==> !(#[trigger] w[i]).contains('/') {
        lemma_no_activity(w);
    }
}

proof fn lemma_no_activity(words: Seq<Seq<char>>)
    requires
        forall|i: int| 0 <= i < words.len() ==> !(#[trigger] words[i]).contains('/'),
    ensures
        activity(words) is None,
    decreases words.len(),
{
    if words.len() > 0 {
        let rest = words.skip(1);
        assert forall|i: int| 0 <= i < rest.len() implies !(#[trigger] rest[i]).contains('/') by {
            assert(rest[i] == words[i + 1]);
        }
        lemma_no_activity(rest);
    }
}

proof fn lemma_key_numbers()
    ensures
        "66"@ != "61"@,
        "66"@ != "62"@,
        "66"@ != "67"@,
        "66"@ != "112"@,
        "66"@ != "111"@,
        "66"@ != "122"@,
        "66"@ != "123"@,
        "66"@ != "92"@,
        "66"@ != "93"@,
        "66"@ != "19"@,
        "66"@ != "20"@,
        "66"@ != "21"@,
        "66"@ != "22"@,
        "61"@ != "62"@,
        "61"@ != "67"@,
        "61"@ != "112"@,
        "61"@ != "111"@,
        "61"@ != "122"@,
        "61"@ != "123"@,
        "61"@ != "92"@,
        "61"@ != "93"@,
        "61"@ != "19"@,
        "61"@ != "20"@,
        "61"@ != "21"@,
        "61"@ != "22"@,
        "62"@ != "67"@,
        "62"@ != "112"@,
        "62"@ != "111"@,
        "62"@ != "122"@,
        "62"@ != "123"@,
        "62"@ != "92"@,
        "62"@ != "93"@,
        "62"@ != "19"@,
        "62"@ != "20"@,
        "62"@ != "21"@,
        "62"@ != "22"@,
        "67"@ != "112"@,
        "67"@ != "111"@,
        "67"@ != "122"@,
        "67"@ != "123"@,
        "67"@ != "92"@,
        "67"@ != "93"@,
        "67"@ != "19"@,
        "67"@ != "20"@,
        "67"@ != "21"@,
        "67"@ != "22"@,
        "112"@ != "111"@,
        "112"@ != "122"@,
        "112"@ != "123"@,
        "112"@ != "92"@,
        "112"@ != "93"@,
        "112"@ != "19"@,
        "112"@ != "20"@,
        "112"@ != "21"@,
        "112"@ != "22"@,
        "111"@ != "122"@,
        "111"@ != "123"@,
        "111"@ != "92"@,
        "111"@ != "93"@,
        "111"@ != "19"@,
        "111"@ != "20"@,
        "111"@ != "21"@,
        "111"@ != "22"@,
        "122"@ != "123"@,
        "122"@ != "92"@,
        "122"@ != "93"@,
        "122"@ != "19"@,
        "122"@ != "20"@,
        "122"@ != "21"@,
        "122"@ != "22"@,
        "123"@ != "92"@,
        "123"@ != "93"@,
        "123"@ != "19"@,
        "123"@ != "20"@,
        "123"@ != "21"@,
        "123"@ != "22"@,
        "92"@ != "93"@,
        "92"@ != "19"@,
        "92"@ != "20"@,
        "92"@ != "21"@,
        "92"@ != "22"@,
        "93"@ != "19"@,
        "93"@ != "20"@,
        "93"@ != "21"@,
        "93"@ != "22"@,
        "19"@ != "20"@,
        "19"@ != "21"@,
        "19"@ != "22"@,
        "20"@ != "21"@,
        "20"@ != "22"@,
        "21"@ != "22"@,
{
    reveal_strlit("66");
    reveal_strlit("61");
    reveal_strlit("62");
    reveal_strlit("67");
    reveal_strlit("112");
    reveal_strlit("111");
    reveal_strlit("122");
    reveal_strlit("123");
    reveal_strlit("92");
    reveal_strlit("93");
    reveal_strlit("19");
    reveal_strlit("20");
    reveal_strlit("21");
    reveal_strlit("22");
    assert("66"@.len() == 2);
    assert("61"@.len() == 2);
    assert("62"@.len() == 2);
    assert("67"@.len() == 2);
    assert("112"@.len() == 3);
    assert("111"@.len() == 3);
    assert("122"@.len() == 3);
    assert("123"@.len() == 3);
    assert("92"@.len() == 2);
    assert("93"@.len() == 2);
    assert("19"@.len() == 2);
    assert("20"@.len() == 2);
    assert("21"@.len() == 2);
    assert("22"@.len() == 2);
    assert("66"@[1] != "61"@[1]);
    assert("66"@[1] != "62"@[1]);
    assert("66"@[1] != "67"@[1]);
    assert("66"@[0] != "92"@[0]);
    assert("66"@[0] != "93"@[0]);
    assert("66"@[0] != "19"@[0]);
    assert("66"@[0] != "20"@[0]);
    assert("66"@[0] != "21"@[0]);
    assert("66"@[0] != "22"@[0]);
    assert("61"@[1] != "62"@[1]);
    assert("61"@[1] != "67"@[1]);
    assert("61"@[0] != "92"@[0]);
    assert("61"@[0] != "93"@[0]);
    assert("61"@[0] != "19"@[0]);
    assert("61"@[0] != "20"@[0]);
    assert("61"@[0] != "21"@[0]);
    assert("61"@[0] != "22"@[0]);
    assert("62"@[1] != "67"@[1]);
    assert("62"@[0] != "92"@[0]);
    assert("62"@[0] != "93"@[0]);
    assert("62"@[0] != "19"@[0]);
    assert("62"@[0] != "20"@[0]);
    assert("62"@[0] != "21"@[0]);
    assert("62"@[0] != "22"@[0]);
    assert("67"@[0] != "92"@[0]);
    assert("67"@[0] != "93"@[0]);
    assert("67"@[0] != "19"@[0]);
    assert("67"@[0] != "20"@[0]);
    assert("67"@[0] != "21"@[0]);
    assert("67"@[0] != "22"@[0]);
    assert("112"@[2] != "111"@[2]);
    assert("112"@[1] != "122"@[1]);
    assert("112"@[1] != "123"@[1]);
    assert("111"@[1] != "122"@[1]);
    assert("111"@[1] != "123"@[1]);
    assert("122"@[2] != "123"@[2]);
    assert("92"@[1] != "93"@[1]);
    assert("92"@[0] != "19"@[0]);
    assert("92"@[0] != "20"@[0]);
    assert("92"@[0] != "21"@[0]);
    assert("92"@[0] != "22"@[0]);
    assert("93"@[0] != "19"@[0]);
    assert("93"@[0] != "20"@[0]);
    assert("93"@[0] != "21"@[0]);
    assert("93"@[0] != "22"@[0]);
    assert("19"@[0] != "20"@[0]);
    assert("19"@[0] != "21"@[0]);
    assert("19"@[0] != "22"@[0]);
    assert("20"@[1] != "21"@[1]);
    assert("20"@[1] != "22"@[1]);
    assert("21"@[1] != "22"@[1]);
}

/// Whether a process is that of a line of `ps`: its words are the id, the processor
/// use, the memory, and the name.
pub open spec fn told_by(p: ProcessLine, line: Seq<char>) -> bool {
    let w = text::words(line);
    &&& w.len() >= 4
    &&& number::parsed(w[0], 0xffff_ffff) == Some(p.pid as nat)
    &&& p.cpu matches Some(c) && c@ == w[1]
    &&& match p.memory_kb {
        Some(kb) => number::parsed(w[2], 0xffff_ffff_ffff_ffff) == Some(kb as nat),
        None => number::parsed(w[2], 0xffff_ffff_ffff_ffff) is None,
    }
    &&& p.name@ == text::joined(w.skip(3), seq![' '])
}

proof fn lemma_ps_rows(lines: Seq<Seq<char>>) -> (at: Seq<int>)
    ensures
        at.len() == ps_rows(lines).len(),
        forall|i: int, k: int| 0 <= i < k < at.len() ==> at[i] < at[k],
        forall|i: int|
            0 <= i < at.len() ==> 0 <= #[trigger] at[i] < lines.len() && ps_fields(lines[at[i]])
                == Some(ps_rows(lines)[i]),
        forall|i: int|
            0 <= i < lines.len() && ps_fields(#[trigger] lines[i]) is Some ==> at.contains(i),
    decreases lines.len(),
{
    if lines.len() == 0 {
        Seq::empty()
    } else {
        let front = lines.drop_last();
        let before = lemma_ps_rows(front);
        assert forall|i: int| 0 <= i < front.len() implies #[trigger] lines[i] == front[i] by {}
        let at = if ps_fields(lines.last()) is Some {
            before.push(lines.len() - 1)
        } else {
            before
        };
        assert forall|i: int|
            0 <= i < lines.len() && ps_fields(#[trigger] lines[i]) is Some implies at.contains(
            i,
        ) by {
            if i < front.len() {
                assert(ps_fields(front[i]) is Some);
                let k = choose|k: int| 0 <= k < before.len() && before[k] == i;
                assert(at[k] == i);
            } else {
                assert(at[before.len() as int] == i);
            }
        }
        at
    }
}

/// The processes are those of the lines behind the heading, in their order: one for
/// each line of at least four words that begins with a process id.
pub proof fn law_processes_are_read_off_lines(
    stdout: &[u8],
    out: Vec<ProcessLine>,
    lines: Seq<Seq<char>>,
) -> (at: Seq<int>)
    requires
        ps_snapshot.ensures((stdout,), out),
        lines == text::lines(text::lossy_text(stdout@)),
    ensures
        at.len() == out@.len(),
        forall|i: int, k: int| 0 <= i < k < at.len() ==> at[i] < at[k],
        forall|i: int|
            0 <= i < at.len() ==> 1 <= #[trigger] at[i] < lines.len() && told_by(
                out@[i],
                lines[at[i]],
            ),
        forall|i: int|
            1 <= i < lines.len() && text::words(#[trigger] lines[i]).len() >= 4 && number::parsed(
                text::words(lines[i])[0],
                0xffff_ffff,
            ) is Some ==> at.contains(i),
{
    reveal_strlit(" ");
    assert(" "@ =~= seq![' ']);
    let rest = without_heading(lines);
    let found = lemma_ps_rows(rest);
    let at = found.map_values(|i: int| i + 1);
    let fields = all_fields(out@);
    assert(fields.len() == out@.len());
    assert forall|i: int| 0 <= i < at.len() implies 1 <= #[trigger] at[i] < lines.len() && told_by(
        out@[i],
        lines[at[i]],
    ) by {
        assert(0 <= found[i] < rest.len());
        assert(rest[found[i]] == lines[at[i]]);
        assert(fields[i] == out@[i].fields());
    }
    assert forall|i: int|
        1 <= i < lines.len() && text::words(#[trigger] lines[i]).len() >= 4 && number::parsed(
            text::words(lines[i])[0],
            0xffff_ffff,
        ) is Some implies at.contains(i) by {
        assert(rest[i - 1] == lines[i]);
        assert(ps_fields(rest[i - 1]) is Some);
        let k = choose|k: int| 0 <= k < found.len() && found[k] == i - 1;
        assert(at[k] == i);
    }
    at
}

/// The process id is the first word of the output, and none is zero.
pub proof fn law_first_word_is_the_pid(out: Vec<u8>, pid: u32, none: u32)
    requires
        read_pid.ensures((Some(out),), pid),
        read_pid.ensures((None,), none),
    ensures
        none == 0,
        ({
            let w = text::words(text::lossy_text(out@));
            &&& w.len() == 0 ==> pid == 0
            &&& w.len() > 0 ==> {
                &&& number::parsed(w[0], 0xffff_ffff) matches Some(n) ==> pid == n
                &&& number::parsed(w[0], 0xffff_ffff) is None ==> pid == 0
            }
        }),
{
}

proof fn lemma_size_text(a: i32, b: i32)
    ensures
        ({
            let s = number::signed(a as int) + seq!['x'] + number::signed(b as int);
            &&& text::split_once(s, 'x') == Some(
                (number::signed(a as int), number::signed(b as int)),
            )
            &&& text::trim(number::signed(a as int)) == number::signed(a as int)
            &&& text::trim(number::signed(b as int)) == number::signed(b as int)
        }),
{
    let x = number::signed(a as int);
    let y = number::signed(b as int);
    let s = x + seq!['x'] + y;
    lemma_signed_visible(a);
    lemma_signed_visible(b);
    assert(s[x.len() as int] == 'x');
    text::law_split_once_is_at_the_first(s, 'x');
    let p = text::split_once(s, 'x')->0;
    let whole = p.0 + seq!['x'] + p.1;
    assert(whole[p.0.len() as int] == 'x');
    assert(p.0.len() == x.len()) by {
        if p.0.len() < x.len() {
            assert(s[p.0.len() as int] == x[p.0.len() as int]);
        }
        if x.len() < p.0.len() {
            assert(p.0[x.len() as int] == whole[x.len() as int]);
            assert(p.0.contains('x'));
        }
    }
    assert(p.0 =~= x) by {
        assert forall|i: int| 0 <= i < x.len() implies p.0[i] == x[i] by {
            assert(whole[i] == p.0[i]);
        }
    }
    assert(p.1 =~= y) by {
        assert forall|i: int| 0 <= i < y.len() implies p.1[i] == y[i] by {
            assert(whole[x.len() + 1 + i] == p.1[i]);
        }
    }
}

proof fn lemma_signed_visible(v: i32)
    ensures
        number::signed(v as int).len() > 0,
        forall|i: int|
            0 <= i < number::signed(v as int).len() ==> #[trigger] number::signed(v as int)[i]
                != 'x',
        text::trim(number::signed(v as int)) == number::signed(v as int),
{
    let n = if v < 0 {
        -(v as int)
    } else {
        v as int
    };
    number::law_decimal_denotes(n as nat);
    let s = number::signed(v as int);
    assert forall|i: int| 0 <= i < s.len() implies #[trigger] s[i] != 'x' && !text::is_space(
        s[i],
    ) by {
        if v < 0 {
            if i > 0 {
                assert(number::is_digit(number::decimal(n as nat)[i - 1]));
            }
        } else {
            assert(number::is_digit(number::decimal(n as nat)[i]));
        }
    }
    assert(s.len() > 0);
    assert(!text::is_space(s[0]));
    assert(!text::is_space(s[s.len() - 1]));
}

/// The size of the screen stands behind the last colon of the output, the width
/// before the `x` and the height behind it.
pub proof fn law_screen_size_is_read(
    out: &[u8],
    r: Option<(i32, i32)>,
    head: Seq<char>,
    tail: Seq<char>,
    width: i32,
    height: i32,
)
    requires
        screen_size.ensures((out,), r),
        text::lossy_text(out@) == head.push(':') + tail,
        !tail.contains(':'),
        text::trim(tail) == number::signed(width as int) + seq!['x'] + number::signed(
            height as int,
        ),
    ensures
        r == Some((width, height)),
{
    text::law_split_comes_apart(head, tail, ':');
    lemma_unsplit(tail, ':');
    assert(text::after_last(text::lossy_text(out@), ':') == tail) by {
        text::lemma_split_nonempty(head, ':');
        let pieces = text::split(head, ':') + seq![tail];
        assert(pieces.last() == tail);
    }
    lemma_size_text(width, height);
    number::law_signed_round_trip(width);
    number::law_signed_round_trip(height);
}

proof fn lemma_unsplit(s: Seq<char>, c: char)
    requires
        !s.contains(c),
    ensures
        text::split(s, c) == seq![s],
    decreases s.len(),
{
    if s.len() > 0 {
        let front = s.drop_last();
        assert(!front.contains(c)) by {
            if front.contains(c) {
                let k = choose|k: int| 0 <= k < front.len() && front[k] == c;
                assert(s[k] == c);
            }
        }
        lemma_unsplit(front, c);
        assert(s[s.len() - 1] != c) by {
            if s[s.len() - 1] == c {
                assert(s.contains(c));
            }
        }
        assert(front.push(s.last()) =~= s);
        assert(text::split(s, c) =~= seq![s]);
    } else {
        assert(s =~= Seq::<char>::empty());
        assert(text::split(s, c) =~= seq![s]);
    }
}

/// What is cut out of a screenshot begins at the corner of the rectangle, moved to
/// the border if it lies beyond it, and is as large as the rectangle, as far as the
/// image goes.
pub proof fn law_cut_is_the_rectangle(data: &[u8], rect: Rect, r: RemoteResult<Reply>, shot: Image)
    requires
        crop_png.ensures((data, rect), r),
        r == Ok::<Reply, RemoteError>(Reply::Image(shot)),
    ensures
        shot.format == ImageFormat::Png,
        file_image(data@) matches Some(image) ==> {
            &&& 0 <= rect.x && 0 <= rect.width && rect.x + rect.width <= image.0 ==> shot.width
                == rect.width
            &&& 0 <= rect.y && 0 <= rect.height && rect.y + rect.height <= image.1 ==> shot.height
                == rect.height
            &&& 0 <= rect.x <= image.0 < rect.x + rect.width ==> shot.width == image.0 - rect.x
            &&& 0 <= rect.y <= image.1 < rect.y + rect.height ==> shot.height == image.1 - rect.y
            &&& rect.x < 0 && 0 <= rect.width <= image.0 ==> shot.width == rect.width
            &&& rect.y < 0 && 0 <= rect.height <= image.1 ==> shot.height == rect.height
            &&& rect.x >= 0 && rect.y >= 0 ==> cropped_file(
                data@,
                rect.x as u32,
                rect.y as u32,
                shot.width,
                shot.height,
                true,
            ) == Some(shot.data@)
            &&& rect.x < 0 && rect.y < 0 ==> cropped_file(
                data@,
                0,
                0,
                shot.width,
                shot.height,
                true,
            ) == Some(shot.data@)
        },
{
}

/// A script is run by `sh` with its arguments behind its text, in their order, and
/// with the variables that were given.
pub proof fn law_script_is_run_with_its_arguments(
    content: &str,
    args: &Vec<String>,
    env: Vec<(String, String)>,
    r: Invocation,
)
    requires
        run_script.ensures((content, args, env), r),
    ensures
        r.program@ == "sh"@,
        r.env@ == env@,
        r.args@.len() == 3 + args@.len(),
        r.args@[0]@ == "-c"@ && r.args@[1]@ == content@ && r.args@[2]@ == "sh"@,
        forall|i: int| 0 <= i < args@.len() ==> r.args@[3 + i]@ == (#[trigger] args@[i])@,
{
    let t = text::texts(r.args@);
    assert(t.len() == r.args@.len());
    assert forall|i: int| 0 <= i < r.args@.len() implies #[trigger] r.args@[i]@ == t[i] by {}
    assert forall|i: int| 0 <= i < args@.len() implies r.args@[3 + i]@ == (#[trigger] args@[i])@ by {
        assert(t[3 + i] == text::texts(args@)[i]);
    }
}

/// A detached script is run from the file it is stored in, with its arguments behind
/// it, and logs to another file; both are named by the request.
pub proof fn law_detached_script_has_its_files(
    id: RequestId,
    args: &Vec<String>,
    env: Vec<(String, String)>,
    r: Detached,
)
    requires
        run_detached.ensures((id, args, env), r),
    ensures
        r.call.program@ == "sh"@,
        r.call.env@ == env@,
        r.call.args@.len() == 1 + args@.len(),
        r.call.args@[0]@ == r.script@,
        forall|i: int| 0 <= i < args@.len() ==> r.call.args@[1 + i]@ == (#[trigger] args@[i])@,
        r.script@ == "/data/local/tmp/arc-detached-"@ + number::decimal(id.0 as nat) + ".sh"@,
        r.log@ == "/data/local/tmp/arc-detached-"@ + number::decimal(id.0 as nat) + ".log"@,
        r.script@ != r.log@,
{
    reveal_strlit(".sh");
    reveal_strlit(".log");
    let t = text::texts(r.call.args@);
    assert(t.len() == r.call.args@.len());
    assert forall|i: int| 0 <= i < r.call.args@.len() implies #[trigger] r.call.args@[i]@
        == t[i] by {}
    assert forall|i: int| 0 <= i < args@.len() implies r.call.args@[1 + i]@ == (
    #[trigger] args@[i])@ by {
        assert(t[1 + i] == text::texts(args@)[i]);
    }
    assert(r.script@.len() != r.log@.len());
}

/// A dump names the process and then holds the sections of its command line, status,
/// wait channel, statistics and maps, in this order.
pub proof fn law_dump_has_a_section_for_each_file(
    pid: u32,
    cmdline: Result<String, String>,
    status: Result<String, String>,
    wchan: Result<String, String>,
    stat: Result<String, String>,
    maps: Result<String, String>,
    r: String,
    sections: (String, String, String, String, String),
)
    requires
        proc_dump.ensures((pid, cmdline, status, wchan, stat, maps), r),
        proc_section.ensures((pid, "cmdline", cmdline), sections.0),
        proc_section.ensures((pid, "status", status), sections.1),
        proc_section.ensures((pid, "wchan", wchan), sections.2),
        proc_section.ensures((pid, "stat", stat), sections.3),
        proc_section.ensures((pid, "maps", maps), sections.4),
    ensures
        r@ == "# arc proc dump of pid "@ + number::decimal(pid as nat)
            + " (Android; no thread stacks without root)\n\n"@ + sections.0@ + sections.1@
            + sections.2@ + sections.3@ + sections.4@,
{
}

/// A section of a dump is headed by its file, shows its text with a blank for each
/// zero byte, and why it could not be had if it could not.
pub proof fn law_dump_section_shows_its_file(
    pid: u32,
    name: &str,
    body: Result<String, String>,
    r: String,
    shown: String,
    content: &str,
)
    requires
        proc_section.ensures((pid, name, body), r),
        body matches Ok(s) ==> content@ == s@,
        text::replace_char.ensures((content, '\0', " "), shown),
    ensures
        body is Ok ==> r@ == "===== /proc/"@ + number::decimal(pid as nat) + "/"@ + name@
            + " =====\n"@ + text::trim_end(shown@) + "\n\n"@,
        body matches Err(e) ==> r@ == "===== /proc/"@ + number::decimal(pid as nat) + "/"@ + name@
            + " =====\n"@ + text::trim_end("<unavailable: "@ + e@ + ">"@) + "\n\n"@,
{
}

/// The processes that are listed are those whose name holds the filter, or all
/// without one, each as often as it was there.
pub proof fn law_listed_processes_pass_the_filter(
    list: Vec<ProcessInfo>,
    filter: &str,
    with_cpu: bool,
    some: Vec<ProcessInfo>,
    all: Vec<ProcessInfo>,
    p: ProcessInfo,
)
    requires
        list_processes.ensures((list, Some(filter), with_cpu), some),
        list_processes.ensures((list, None, with_cpu), all),
    ensures
        all@.to_multiset() == list@.to_multiset(),
        some@.contains(p) <==> list@.contains(p) && text::occurs(
            text::unicode_lowercase(p.name@),
            text::unicode_lowercase(filter@),
        ),
{
    broadcast use vstd::seq_lib::group_to_multiset_ensures;

    crate::runner::backend::law_sort_orders(list@, with_cpu);
    let hits = kept(list@, Some(filter@));
    crate::runner::backend::law_sort_orders(hits, with_cpu);
    let keep = |p: ProcessInfo| name_holds(p, filter@);
    assert(some@.contains(p) <==> some@.to_multiset().count(p) > 0);
    assert(hits.contains(p) <==> hits.to_multiset().count(p) > 0);
    assert(hits == list@.filter(keep));
    if hits.contains(p) {
        let i = choose|i: int| 0 <= i < hits.len() && hits[i] == p;
        list@.lemma_filter_pred(keep, i);
        list@.lemma_filter_contains_rev(keep, p);
    }
    if list@.contains(p) && name_holds(p, filter@) {
        let i = choose|i: int| 0 <= i < list@.len() && list@[i] == p;
        list@.lemma_filter_contains(keep, i);
    }
}

/// The identity is the user with its number, and whether that is zero; then the
/// context, if there is one.
pub proof fn law_identity_is_the_user(
    uid: &[u8],
    user: &[u8],
    context: Vec<u8>,
    r: Vec<(String, String)>,
    s: Vec<(String, String)>,
)
    requires
        identity.ensures((uid, user, Some(context)), r),
        identity.ensures((uid, user, None), s),
    ensures
        s@.len() == 2,
        ({
            let id = text::trim(text::lossy_text(uid@));
            let name = text::trim(text::lossy_text(user@));
            let label = text::trim(text::lossy_text(context@));
            &&& r@.len() == if label.len() > 0 {
                3int
            } else {
                2
            }
            &&& r@[0].0@ == "account"@ && r@[0].1@ == name + " (uid "@ + id + ")"@
            &&& r@[1].0@ == "elevated"@
            &&& id == "0"@ ==> r@[1].1@ == "true"@
            &&& id != "0"@ ==> r@[1].1@ == "false"@
            &&& label.len() > 0 ==> r@[2].0@ == "selinux"@ && r@[2].1@ == label
        }),
{
    let t = pair_texts(r@);
    assert(t.len() == r@.len());
    assert forall|i: int| 0 <= i < r@.len() implies (#[trigger] r@[i]).0@ == t[i].0 && r@[i].1@
        == t[i].1 by {}
    assert(pair_texts(s@).len() == s@.len());
}

/// What is read of an element is the value of the smallest one that covers its
/// middle, or nothing if it has none.
pub proof fn law_value_of_the_smallest_element_is_read(
    id: &str,
    els: &Vec<ElementInfo>,
    edges: RemoteResult<Bounds>,
    r: RemoteResult<String>,
    k: int,
)
    requires
        id_edges(id@) matches Some(b) ==> b.sized(),
        forall|k: int| 0 <= k < els@.len() ==> edges_fit((#[trigger] els@[k]).rect),
        parse_bounds_id.ensures((id,), edges),
        read_element.ensures((id, els), r),
        0 <= k < els@.len(),
        edges matches Ok(b) ==> holds_point(els@[k].rect, middle(b)),
        forall|j: int|
            0 <= j < els@.len() && j != k && edges is Ok ==> !holds_point(
                (#[trigger] els@[j]).rect,
                middle(edges->Ok_0),
            ) || area(els@[k].rect) < area(els@[j].rect),
    ensures
        r is Ok <==> edges is Ok,
        r matches Ok(value) ==> {
            &&& els@[k].value matches Some(v) ==> value@ == v@
            &&& els@[k].value is None ==> value@.len() == 0
        },
{
    reveal_strlit("");
    if let Ok(b) = edges {
        if let Ok(value) = r {
            let at = choose|at: int| #[trigger]
                is_at(els@, middle(b), at) && value@ == match els@[at].value {
                    Some(v) => v@,
                    None => ""@,
                };
            assert(at == k);
        }
    }
}

/// A text is typed with `%s` for each blank.
pub proof fn law_blanks_are_encoded(content: &str, r: Invocation, encoded: String)
    requires
        type_text.ensures((content,), r),
        text::replace_char.ensures((content, ' ', "%s"), encoded),
    ensures
        runs(r, "input"@, seq!["text"@, encoded@]),
{
    let t = text::texts(r.args@);
    assert(t.len() == r.args@.len());
    assert forall|i: int| 0 <= i < r.args@.len() implies #[trigger] r.args@[i]@ == t[i] by {}
}

} // verus!
