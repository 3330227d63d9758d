//! Running commands and scripts on the runner, and what is printed of processes,
//! identity and capabilities.

use vstd::prelude::*;

use crate::cli::args;
use crate::number;
use crate::path;
use crate::proto::wire::{
    Capability, Command, ProcessInfo, Reply, Shell, DEFAULT_COMMAND_TIMEOUT_MS,
};
use crate::text;

verus! {

/// A runner's self-description.
#[derive(Debug, Clone, PartialEq, Eq)]
pub struct RunnerCaps {
    /// Operating system name.
    pub os: String,
    /// Processor architecture name.
    pub arch: String,
    /// Version of the runner.
    pub runner_version: String,
    /// What it can do.
    pub commands: Vec<Capability>,
}

impl RunnerCaps {
    /// Whether the runner implements a given operation.
    pub fn has(&self, cap: Capability) -> (r: bool)
        ensures
            r == self.commands@.contains(cap),
    {
        let mut i: usize = 0;
        while i < self.commands.len()
            invariant
                i <= self.commands@.len(),
                forall|k: int| 0 <= k < i ==> self.commands@[k] != cap,
            decreases self.commands@.len() - i,
        {
            if self.commands[i] == cap {
                assert(self.commands@[i as int] == cap);
                return true;
            }
            i = i + 1;
        }
        false
    }
}

/// What asking for the capabilities came to.
pub enum CapsAnswer {
    /// The runner described itself.
    Known(RunnerCaps),
    /// The runner is too old to know the question.
    Legacy,
    /// The reply does not fit.
    Unexpected(Reply),
    /// The link failed.
    Failed,
}

/// Reads the answer to the capability question. `None` stands for an error, of
/// which `fatal` says whether it ended the link: one that did not comes from a
/// runner that predates the question.
pub fn fetch_capabilities(reply: Option<Reply>, fatal: bool) -> (r: CapsAnswer)
    ensures
        r == (match reply {
            Some(Reply::Capabilities { os, arch, runner_version, commands }) => CapsAnswer::Known(
                RunnerCaps { os, arch, runner_version, commands },
            ),
            Some(other) => CapsAnswer::Unexpected(other),
            None => if fatal {
                CapsAnswer::Failed
            } else {
                CapsAnswer::Legacy
            },
        }),
{
    match reply {
        Some(Reply::Capabilities { os, arch, runner_version, commands }) => CapsAnswer::Known(
            RunnerCaps { os, arch, runner_version, commands },
        ),
        Some(other) => CapsAnswer::Unexpected(other),
        None => if fatal {
            CapsAnswer::Failed
        } else {
            CapsAnswer::Legacy
        },
    }
}

/// The name under which a capability is listed.
pub open spec fn capability_text(c: Capability) -> Seq<char> {
    match c {
        Capability::RunCommand => "RunCommand"@,
        Capability::RunScript => "RunScript"@,
        Capability::RunDetached => "RunDetached"@,
        Capability::Screenshot => "Screenshot"@,
        Capability::OpenApp => "OpenApp"@,
        Capability::ProcDump => "ProcDump"@,
        Capability::ListWindows => "ListWindows"@,
        Capability::ActivateWindow => "ActivateWindow"@,
        Capability::ListElements => "ListElements"@,
        Capability::FindElements => "FindElements"@,
        Capability::Click => "Click"@,
        Capability::TypeText => "TypeText"@,
        Capability::KeyChord => "KeyChord"@,
        Capability::Mouse => "Mouse"@,
        Capability::SetValue => "SetValue"@,
        Capability::ReadElement => "ReadElement"@,
        Capability::FocusElement => "FocusElement"@,
        Capability::ClipboardGet => "ClipboardGet"@,
        Capability::ClipboardSet => "ClipboardSet"@,
        Capability::ListProcesses => "ListProcesses"@,
        Capability::KillProcess => "KillProcess"@,
        Capability::Identity => "Identity"@,
        Capability::ReadFile => "ReadFile"@,
        Capability::WriteFile => "WriteFile"@,
        Capability::HashFiles => "HashFiles"@,
        Capability::ListTree => "ListTree"@,
        Capability::DeleteFile => "DeleteFile"@,
        Capability::Forward => "Forward"@,
        Capability::Unknown => "Unknown"@,
    }
}

fn capability_name(c: Capability) -> (r: String)
    ensures
        r@ == capability_text(c),
{
    let name = match c {
        Capability::RunCommand => "RunCommand",
        Capability::RunScript => "RunScript",
        Capability::RunDetached => "RunDetached",
        Capability::Screenshot => "Screenshot",
        Capability::OpenApp => "OpenApp",
        Capability::ProcDump => "ProcDump",
        Capability::ListWindows => "ListWindows",
        Capability::ActivateWindow => "ActivateWindow",
        Capability::ListElements => "ListElements",
        Capability::FindElements => "FindElements",
        Capability::Click => "Click",
        Capability::TypeText => "TypeText",
        Capability::KeyChord => "KeyChord",
        Capability::Mouse => "Mouse",
        Capability::SetValue => "SetValue",
        Capability::ReadElement => "ReadElement",
        Capability::FocusElement => "FocusElement",
        Capability::ClipboardGet => "ClipboardGet",
        Capability::ClipboardSet => "ClipboardSet",
        Capability::ListProcesses => "ListProcesses",
        Capability::KillProcess => "KillProcess",
        Capability::Identity => "Identity",
        Capability::ReadFile => "ReadFile",
        Capability::WriteFile => "WriteFile",
        Capability::HashFiles => "HashFiles",
        Capability::ListTree => "ListTree",
        Capability::DeleteFile => "DeleteFile",
        Capability::Forward => "Forward",
        Capability::Unknown => "Unknown",
    };
    name.to_owned()
}

/// The capabilities by name, in alphabetical order, separated by commas.
pub open spec fn surface(commands: Seq<Capability>) -> Seq<char> {
    text::joined(
        text::sorted(commands.map_values(|c: Capability| capability_text(c))),
        ", "@,
    )
}

fn surface_text(commands: &Vec<Capability>) -> (r: String)
    ensures
        r@ == surface(commands@),
{
    let ghost all = commands@.map_values(|c: Capability| capability_text(c));
    let mut names: Vec<String> = Vec::new();
    let mut i: usize = 0;
    assert(text::texts(names@) =~= all.take(0));
    while i < commands.len()
        invariant
            i <= commands@.len(),
            all == commands@.map_values(|c: Capability| capability_text(c)),
            text::texts(names@) == all.take(i as int),
        decreases commands@.len() - i,
    {
        let ghost before = names@;
        let name = capability_name(commands[i]);
        names.push(name);
        i = i + 1;
        assert(text::texts(names@) =~= text::texts(before).push(name@));
        assert(all.take(i as int) =~= all.take(i - 1).push(all[i - 1]));
    }
    assert(all.take(i as int) =~= all);
    let ordered = text::sort_texts(names);
    text::join(&ordered, ", ")
}

/// `arc-runner`, its version, and in brackets its system and architecture.
pub open spec fn runner_label(caps: RunnerCaps) -> Seq<char> {
    "arc-runner "@ + caps.runner_version@ + " ("@ + caps.os@ + "/"@ + caps.arch@ + ")"@
}

fn runner_label_text(caps: &RunnerCaps) -> (r: String)
    ensures
        r@ == runner_label(*caps),
{
    let mut out = text::join3("arc-runner ", caps.runner_version.as_str(), " (");
    out.append(caps.os.as_str());
    out.append("/");
    out.append(caps.arch.as_str());
    out.append(")");
    out
}

/// What is printed of the runner's capabilities.
pub open spec fn capability_lines(caps: Option<RunnerCaps>) -> Seq<Seq<char>> {
    match caps {
        Some(c) => seq![
            "runner   : "@ + runner_label(c),
            "commands : "@ + surface(c.commands@),
        ],
        None => seq![
            "runner   : legacy — predates capability reporting (assume a full Windows surface)"@,
        ],
    }
}

/// Reports what the runner is and can do; `None` is a runner that is too old to
/// say.
pub fn capabilities(caps: &Option<RunnerCaps>) -> (out: Vec<String>)
    ensures
        text::texts(out@) == capability_lines(*caps),
{
    let mut out: Vec<String> = Vec::new();
    match caps {
        Some(c) => {
            out.push(text::join2("runner   : ", runner_label_text(c).as_str()));
            out.push(text::join2("commands : ", surface_text(&c.commands).as_str()));
        },
        None => {
            out.push(
                "runner   : legacy — predates capability reporting (assume a full Windows surface)".to_owned(),
            );
        },
    }
    assert(text::texts(out@) =~= capability_lines(*caps));
    out
}

/// The views of name and value pairs.
pub open spec fn pair_texts(pairs: Seq<(String, String)>) -> Seq<(Seq<char>, Seq<char>)> {
    pairs.map_values(|p: (String, String)| (p.0@, p.1@))
}

/// What a line of an environment file holds.
pub enum EnvLine {
    /// Nothing: it is blank or a comment.
    Skip,
    /// A name and a value.
    Pair(Seq<char>, Seq<char>),
    /// It lacks its `=`.
    Bad(Seq<char>),
}

/// Reads a line of an environment file: white space around it and around the
/// name does not count, a blank line and one that begins with `#` is skipped.
pub open spec fn env_line(line: Seq<char>) -> EnvLine {
    let t = text::trim(line);
    if t.len() == 0 || t[0] == '#' {
        EnvLine::Skip
    } else {
        match text::split_once(t, '=') {
            Some((k, v)) => EnvLine::Pair(text::trim(k), v),
            None => EnvLine::Bad(t),
        }
    }
}

/// The pairs of an environment file, or the first line that has no `=`.
pub open spec fn env_file_pairs(lines: Seq<Seq<char>>) -> Result<
    Seq<(Seq<char>, Seq<char>)>,
    Seq<char>,
>
    decreases lines.len(),
{
    if lines.len() == 0 {
        Ok(Seq::empty())
    } else {
        match env_file_pairs(lines.drop_last()) {
            Err(e) => Err(e),
            Ok(pairs) => match env_line(lines.last()) {
                EnvLine::Skip => Ok(pairs),
                EnvLine::Pair(k, v) => Ok(pairs.push((k, v))),
                EnvLine::Bad(t) => Err("env file line missing '=': "@ + t),
            },
        }
    }
}

/// The pairs that flags give, or the first flag that has no `=`.
pub open spec fn env_flag_pairs(flags: Seq<Seq<char>>) -> Result<
    Seq<(Seq<char>, Seq<char>)>,
    Seq<char>,
>
    decreases flags.len(),
{
    if flags.len() == 0 {
        Ok(Seq::empty())
    } else {
        match env_flag_pairs(flags.drop_last()) {
            Err(e) => Err(e),
            Ok(pairs) => match text::split_once(flags.last(), '=') {
                Some((k, v)) => Ok(pairs.push((k, v))),
                None => Err("--env expects KEY=VALUE, got: "@ + flags.last()),
            },
        }
    }
}

/// The environment of a command: the file's pairs, then those of the flags,
/// which so override it.
pub open spec fn environment(flags: Seq<Seq<char>>, file: Option<Seq<char>>) -> Result<
    Seq<(Seq<char>, Seq<char>)>,
    Seq<char>,
> {
    let from_file = match file {
        Some(content) => env_file_pairs(text::lines(content)),
        None => Ok(Seq::empty()),
    };
    match from_file {
        Err(e) => Err(e),
        Ok(first) => match env_flag_pairs(flags) {
            Err(e) => Err(e),
            Ok(second) => Ok(first + second),
        },
    }
}

proof fn lemma_file_error_stays(lines: Seq<Seq<char>>, k: int)
    requires
        0 <= k <= lines.len(),
        env_file_pairs(lines.take(k)) is Err,
    ensures
        env_file_pairs(lines) == env_file_pairs(lines.take(k)),
    decreases lines.len() - k,
{
    if k == lines.len() {
        assert(lines.take(k) =~= lines);
    } else {
        assert(lines.take(k + 1).drop_last() =~= lines.take(k));
        lemma_file_error_stays(lines, k + 1);
    }
}

proof fn lemma_flag_error_stays(flags: Seq<Seq<char>>, k: int)
    requires
        0 <= k <= flags.len(),
        env_flag_pairs(flags.take(k)) is Err,
    ensures
        env_flag_pairs(flags) == env_flag_pairs(flags.take(k)),
    decreases flags.len() - k,
{
    if k == flags.len() {
        assert(flags.take(k) =~= flags);
    } else {
        assert(flags.take(k + 1).drop_last() =~= flags.take(k));
        lemma_flag_error_stays(flags, k + 1);
    }
}

fn parse_env_file(content: &str) -> (r: Result<Vec<(String, String)>, String>)
    ensures
        match r {
            Ok(pairs) => env_file_pairs(text::lines(content@)) == Ok::<
                Seq<(Seq<char>, Seq<char>)>,
                Seq<char>,
            >(pair_texts(pairs@)),
            Err(e) => env_file_pairs(text::lines(content@)) == Err::<
                Seq<(Seq<char>, Seq<char>)>,
                Seq<char>,
            >(e@),
        },
{
    let lines = text::lines_of(content);
    let ghost all = text::lines(content@);
    let mut out: Vec<(String, String)> = Vec::new();
    let mut i: usize = 0;
    assert(pair_texts(out@) =~= Seq::<(Seq<char>, Seq<char>)>::empty());
    while i < lines.len()
        invariant
            i <= lines@.len(),
            all == text::lines(content@),
            text::views(lines@) == all,
            env_file_pairs(all.take(i as int)) == Ok::<Seq<(Seq<char>, Seq<char>)>, Seq<char>>(
                pair_texts(out@),
            ),
        decreases lines@.len() - i,
    {
        assert(all[i as int] == lines@[i as int]@);
        assert(all.take(i + 1).drop_last() =~= all.take(i as int));
        let line = text::trimmed(&lines[i]);
        if line.len() > 0 && line[0] != '#' {
            match text::split_first(&line, '=') {
                Some((k, v)) => {
                    let ghost before = out@;
                    let key = text::string_of(&text::trimmed(&k));
                    let value = text::string_of(&v);
                    out.push((key, value));
                    assert(pair_texts(out@) =~= pair_texts(before).push((key@, value@)));
                },
                None => {
                    proof {
                        lemma_file_error_stays(all, i + 1);
                    }
                    return Err(
                        text::join2("env file line missing '=': ", text::string_of(&line).as_str()),
                    );
                },
            }
        }
        i = i + 1;
    }
    assert(all.take(i as int) =~= all);
    Ok(out)
}

/// Reads `KEY=VALUE` flags and the contents of an optional environment file.
pub fn parse_env(pairs: &Vec<String>, file: Option<&str>) -> (r: Result<
    Vec<(String, String)>,
    String,
>)
    ensures
        ({
            let want = environment(
                text::texts(pairs@),
                match file {
                    Some(content) => Some(content@),
                    None => None,
                },
            );
            match r {
                Ok(env) => want == Ok::<Seq<(Seq<char>, Seq<char>)>, Seq<char>>(pair_texts(env@)),
                Err(e) => want == Err::<Seq<(Seq<char>, Seq<char>)>, Seq<char>>(e@),
            }
        }),
{
    let ghost flags = text::texts(pairs@);
    let mut out: Vec<(String, String)> = match file {
        Some(content) => match parse_env_file(content) {
            Ok(found) => found,
            Err(e) => {
                return Err(e);
            },
        },
        None => Vec::new(),
    };
    let ghost first = pair_texts(out@);
    let mut i: usize = 0;
    assert(first + Seq::<(Seq<char>, Seq<char>)>::empty() =~= first);
    assert(file is None ==> first =~= Seq::<(Seq<char>, Seq<char>)>::empty());
    while i < pairs.len()
        invariant
            i <= pairs@.len(),
            flags == text::texts(pairs@),
            env_flag_pairs(flags.take(i as int)) is Ok,
            pair_texts(out@) == first + env_flag_pairs(flags.take(i as int))->Ok_0,
            match file {
                Some(content) => env_file_pairs(text::lines(content@)) == Ok::<
                    Seq<(Seq<char>, Seq<char>)>,
                    Seq<char>,
                >(first),
                None => first == Seq::<(Seq<char>, Seq<char>)>::empty(),
            },
        decreases pairs@.len() - i,
    {
        assert(flags[i as int] == pairs@[i as int]@);
        assert(flags.take(i + 1).drop_last() =~= flags.take(i as int));
        let chars = text::chars_of(pairs[i].as_str());
        match text::split_first(&chars, '=') {
            Some((k, v)) => {
                let ghost before = out@;
                let key = text::string_of(&k);
                let value = text::string_of(&v);
                out.push((key, value));
                assert(pair_texts(out@) =~= pair_texts(before).push((key@, value@)));
                assert(pair_texts(out@) =~= first + env_flag_pairs(flags.take(i + 1))->Ok_0);
            },
            None => {
                proof {
                    lemma_flag_error_stays(flags, i + 1);
                }
                return Err(text::join2("--env expects KEY=VALUE, got: ", pairs[i].as_str()));
            },
        }
        i = i + 1;
    }
    assert(flags.take(i as int) =~= flags);
    Ok(out)
}

/// Omitted: the default safety limit. Zero: no limit. Else seconds to
/// milliseconds.
pub open spec fn limit_ms(timeout_secs: Option<u64>) -> Option<u64> {
    match timeout_secs {
        None => Some(DEFAULT_COMMAND_TIMEOUT_MS),
        Some(secs) => if secs == 0 {
            None
        } else {
            Some(args::millis(secs))
        },
    }
}

/// The time limit of a command in milliseconds.
pub fn timeout_to_ms(timeout_secs: Option<u64>) -> (r: Option<u64>)
    ensures
        r == limit_ms(timeout_secs),
{
    match timeout_secs {
        None => Some(DEFAULT_COMMAND_TIMEOUT_MS),
        Some(secs) => if secs == 0 {
            None
        } else {
            Some(args::to_millis(secs))
        },
    }
}

/// The request that runs a command line made of `args` joined with spaces.
pub fn shell(
    use_cmd: bool,
    timeout_secs: Option<u64>,
    env: Vec<(String, String)>,
    args: &Vec<String>,
) -> (r: Command)
    ensures
        r matches Command::RunCommand { shell, command, env: e, timeout_ms, stream } && shell == (
        if use_cmd {
            Shell::Cmd
        } else {
            Shell::PowerShell
        }) && command@ == text::joined(text::texts(args@), " "@) && e == env && timeout_ms
            == limit_ms(timeout_secs) && stream,
{
    let shell = if use_cmd {
        Shell::Cmd
    } else {
        Shell::PowerShell
    };
    Command::RunCommand {
        shell,
        command: text::join(args, " "),
        env,
        timeout_ms: timeout_to_ms(timeout_secs),
        stream: true,
    }
}

/// One row of the process table: aligned columns, then the name. The processor
/// column is there only if it was asked for.
pub open spec fn process_row(
    pid: Seq<char>,
    cpu: Option<Seq<char>>,
    mb: Seq<char>,
    name: Seq<char>,
) -> Seq<char> {
    let middle = match cpu {
        Some(c) => text::right_aligned(c, 6) + "  "@,
        None => Seq::empty(),
    };
    text::right_aligned(pid, 7) + "  "@ + middle + text::right_aligned(mb, 9) + "  "@ + name
}

fn process_row_text(pid: &str, cpu: Option<&str>, mb: &str, name: &str) -> (r: String)
    ensures
        r@ == process_row(
            pid@,
            match cpu {
                Some(c) => Some(c@),
                None => None,
            },
            mb@,
            name@,
        ),
{
    let mut out = text::align_right(pid, 7);
    out.append("  ");
    match cpu {
        Some(c) => {
            let cell = text::align_right(c, 6);
            out.append(cell.as_str());
            out.append("  ");
        },
        None => {},
    }
    out.append(text::align_right(mb, 9).as_str());
    out.append("  ");
    out.append(name);
    assert(out@ =~= process_row(
        pid@,
        match cpu {
            Some(c) => Some(c@),
            None => None,
        },
        mb@,
        name@,
    ));
    out
}

/// The process table: a heading and one row per process, with `cells` giving the
/// memory and processor columns of each; or a note that there is none.
pub open spec fn process_table(
    procs: Seq<ProcessInfo>,
    cells: Seq<(Seq<char>, Seq<char>)>,
    with_cpu: bool,
) -> Seq<Seq<char>> {
    if procs.len() == 0 {
        seq!["(no matching processes)"@]
    } else {
        Seq::new(
            procs.len() + 1,
            |i: int|
                if i == 0 {
                    process_row(
                        "PID"@,
                        if with_cpu {
                            Some("CPU%"@)
                        } else {
                            None
                        },
                        "MB"@,
                        "NAME"@,
                    )
                } else {
                    process_row(
                        number::decimal(procs[i - 1].pid as nat),
                        if with_cpu {
                            Some(cells[i - 1].1)
                        } else {
                            None
                        },
                        cells[i - 1].0,
                        procs[i - 1].name@,
                    )
                },
        )
    }
}

/// Lays out processes as an aligned table.
pub fn print_processes(
    procs: &Vec<ProcessInfo>,
    cells: &Vec<(String, String)>,
    with_cpu: bool,
) -> (out: Vec<String>)
    requires
        cells@.len() == procs@.len(),
    ensures
        text::texts(out@) == process_table(procs@, pair_texts(cells@), with_cpu),
{
    let ghost want = process_table(procs@, pair_texts(cells@), with_cpu);
    let mut out: Vec<String> = Vec::new();
    if procs.len() == 0 {
        out.push("(no matching processes)".to_owned());
        assert(text::texts(out@) =~= want);
        return out;
    }
    out.push(
        process_row_text(
            "PID",
            if with_cpu {
                Some("CPU%")
            } else {
                None
            },
            "MB",
            "NAME",
        ),
    );
    assert(text::texts(out@) =~= want.take(1));
    let mut i: usize = 0;
    while i < procs.len()
        invariant
            i <= procs@.len(),
            procs@.len() > 0,
            cells@.len() == procs@.len(),
            want == process_table(procs@, pair_texts(cells@), with_cpu),
            text::texts(out@) == want.take(i + 1),
        decreases procs@.len() - i,
    {
        let ghost before = out@;
        let pid = number::decimal_text(procs[i].pid as u64);
        let row = process_row_text(
            pid.as_str(),
            if with_cpu {
                Some(cells[i].1.as_str())
            } else {
                None
            },
            cells[i].0.as_str(),
            procs[i].name.as_str(),
        );
        assert(row@ == want[i + 1]);
        out.push(row);
        i = i + 1;
        assert(text::texts(out@) =~= text::texts(before).push(row@));
        assert(want.take(i + 1) =~= want.take(i as int).push(want[i as int]));
    }
    assert(want.take(i + 1) =~= want);
    out
}

/// Whether the runner counts as a Windows one: it says so, or is too old to say
/// what it is.
pub open spec fn is_windows(caps: Option<RunnerCaps>) -> bool {
    match caps {
        Some(c) => c.os@ == "windows"@,
        None => true,
    }
}

/// Whether the runner has a capability; one that is too old to say has them all.
pub open spec fn supports(caps: Option<RunnerCaps>, cap: Capability) -> bool {
    match caps {
        Some(c) => c.commands@.contains(cap),
        None => true,
    }
}

fn windows_runner(caps: &Option<RunnerCaps>) -> (r: bool)
    ensures
        r == is_windows(*caps),
{
    match caps {
        Some(c) => text::same(c.os.as_str(), "windows"),
        None => true,
    }
}

fn lists_windows(caps: &Option<RunnerCaps>) -> (r: bool)
    ensures
        r == supports(*caps, Capability::ListWindows),
{
    match caps {
        Some(c) => c.has(Capability::ListWindows),
        None => true,
    }
}

/// The script that prints identity and session of a Windows runner.
pub open spec fn probe_script() -> Seq<char> {
    "\n$id=[Security.Principal.WindowsIdentity]::GetCurrent()\nWrite-Output \"account=$($id.Name)\"\nWrite-Output \"admin=$(([Security.Principal.WindowsPrincipal]$id).IsInRole([Security.Principal.WindowsBuiltinRole]::Administrator))\"\nWrite-Output \"integrity=$((whoami /groups /fo csv | ConvertFrom-Csv | Where-Object { $_.SID -like 'S-1-16-*' }).'Group Name')\"\n$sid=(Get-Process -Id $PID).SessionId\nWrite-Output \"session=$sid\"\n$state='unknown'\nforeach ($line in (query session 2>$null)) { if ($line -match \"\\s$sid\\s+(Active|Disc|Listen)\\b\") { $state=$Matches[1] } }\nWrite-Output \"sessionState=$state\"\nWrite-Output \"keepDisplay=$(if (schtasks /query /tn arc-keep-display 2>$null) {'present'} else {'absent'})\"\n"@
}

/// The request that probes identity and session, with a limit of 30 seconds.
pub open spec fn asks_probe(r: Command) -> bool {
    r matches Command::RunCommand { shell, command, env, timeout_ms, stream } && shell
        == Shell::PowerShell && command@ == probe_script() && env@.len() == 0 && timeout_ms
        == Some(30_000u64) && !stream
}

/// Asks for identity and session.
pub fn doctor_probe() -> (r: Command)
    ensures
        asks_probe(r),
{
    Command::RunCommand {
        shell: Shell::PowerShell,
        command:
            "\n$id=[Security.Principal.WindowsIdentity]::GetCurrent()\nWrite-Output \"account=$($id.Name)\"\nWrite-Output \"admin=$(([Security.Principal.WindowsPrincipal]$id).IsInRole([Security.Principal.WindowsBuiltinRole]::Administrator))\"\nWrite-Output \"integrity=$((whoami /groups /fo csv | ConvertFrom-Csv | Where-Object { $_.SID -like 'S-1-16-*' }).'Group Name')\"\n$sid=(Get-Process -Id $PID).SessionId\nWrite-Output \"session=$sid\"\n$state='unknown'\nforeach ($line in (query session 2>$null)) { if ($line -match \"\\s$sid\\s+(Active|Disc|Listen)\\b\") { $state=$Matches[1] } }\nWrite-Output \"sessionState=$state\"\nWrite-Output \"keepDisplay=$(if (schtasks /query /tn arc-keep-display 2>$null) {'present'} else {'absent'})\"\n".to_owned(),
        env: Vec::new(),
        timeout_ms: timeout_to_ms(Some(30)),
        stream: false,
    }
}

/// The value of `key` in lines of `key=value`: the last one counts, white space
/// around either does not.
pub open spec fn probed(lines: Seq<Seq<char>>, key: Seq<char>) -> Seq<char>
    decreases lines.len(),
{
    if lines.len() == 0 {
        "?"@
    } else {
        match text::split_once(lines.last(), '=') {
            Some((k, v)) => if text::trim(k) == key {
                text::trim(v)
            } else {
                probed(lines.drop_last(), key)
            },
            None => probed(lines.drop_last(), key),
        }
    }
}

fn probe_value(lines: &Vec<Vec<char>>, key: &str) -> (r: String)
    ensures
        r@ == probed(text::views(lines@), key@),
{
    let wanted = text::chars_of(key);
    let ghost all = text::views(lines@);
    let mut i: usize = lines.len();
    assert(all.take(i as int) =~= all);
    while i > 0
        invariant
            i <= lines@.len(),
            wanted@ == key@,
            all == text::views(lines@),
            probed(all, key@) == probed(all.take(i as int), key@),
        decreases i,
    {
        assert(all.take(i as int).last() == lines@[i - 1]@);
        assert(all.take(i as int).drop_last() =~= all.take(i - 1));
        if let Some((k, v)) = text::split_first(&lines[i - 1], '=') {
            if text::same_chars(&text::trimmed(&k), &wanted) {
                return text::string_of(&text::trimmed(&v));
            }
        }
        i = i - 1;
    }
    assert(all.take(0) =~= Seq::<Seq<char>>::empty());
    "?".to_owned()
}

/// The identity and session part of a self-check.
pub open spec fn probe_lines(lines: Seq<Seq<char>>) -> Seq<Seq<char>> {
    seq![
        "  account      : "@ + probed(lines, "account"@),
        "  admin        : "@ + probed(lines, "admin"@),
        "  integrity    : "@ + probed(lines, "integrity"@),
        "  session      : "@ + probed(lines, "session"@) + " ("@ + probed(lines, "sessionState"@)
            + ")"@,
        "  keep-display : "@ + probed(lines, "keepDisplay"@),
    ]
}

/// `?` in place of an empty text.
pub open spec fn or_unknown(s: Seq<char>) -> Seq<char> {
    if s.len() == 0 {
        "?"@
    } else {
        s
    }
}

/// What the findings mean: which capabilities work right now.
pub open spec fn verdict(caps: Option<RunnerCaps>, lines: Seq<Seq<char>>) -> Seq<char> {
    if is_windows(caps) {
        let state = probed(lines, "sessionState"@);
        if state == "Active"@ {
            "session Active → all capabilities work: UIA, per-window & full-screen capture, raw input (type/key/mouse)."@
        } else {
            "session "@ + or_unknown(state)
                + " → UIA (windows/elements/click/set/read) and per-window screencap/shot work; raw input (type/key/mouse) and full-screen capture need an Active session — connect RDP, or rely on keep-display ("@
                + or_unknown(probed(lines, "keepDisplay"@)) + ")."@
        }
    } else {
        "runner OS "@ + caps->0.os@
            + " — UI automation runs through the platform's accessibility layer; the Windows session/integrity tiers above don't apply. `commands` lists what's implemented; anything absent returns an unsupported error."@
    }
}

/// How the report of a self-check begins: the link, and what the runner is.
pub open spec fn heading(caps: Option<RunnerCaps>) -> Seq<Seq<char>> {
    let runner = match caps {
        Some(c) => "  runner       : "@ + runner_label(c),
        None => "  runner       : legacy (predates capability reporting)"@,
    };
    seq!["arc doctor"@, "  link         : connected"@, runner]
}

/// The line for the visible windows.
pub open spec fn window_line(windows: nat) -> Seq<char> {
    "  uia          : "@ + number::decimal(windows) + " top-level windows visible"@
}

/// How the report of a self-check ends: what a runner other than Windows can do, and
/// what the findings mean.
pub open spec fn closing(caps: Option<RunnerCaps>, lines: Seq<Seq<char>>) -> Seq<Seq<char>> {
    let commands = if is_windows(caps) {
        Seq::empty()
    } else {
        seq!["  commands     : "@ + surface(caps->0.commands@)]
    };
    commands + seq![Seq::<char>::empty(), verdict(caps, lines)]
}

/// The report of a self-check, line by line.
pub open spec fn doctor_lines(
    caps: Option<RunnerCaps>,
    probe: Seq<char>,
    windows: nat,
) -> Seq<Seq<char>> {
    let lines = text::lines(probe);
    let identity = if is_windows(caps) {
        probe_lines(lines)
    } else {
        Seq::empty()
    };
    let uia = if supports(caps, Capability::ListWindows) {
        seq![window_line(windows)]
    } else {
        Seq::empty()
    };
    heading(caps) + identity + uia + closing(caps, lines)
}

fn verdict_text(caps: &Option<RunnerCaps>, lines: &Vec<Vec<char>>) -> (r: String)
    ensures
        r@ == verdict(*caps, text::views(lines@)),
{
    if windows_runner(caps) {
        let state = probe_value(lines, "sessionState");
        if text::same(state.as_str(), "Active") {
            "session Active → all capabilities work: UIA, per-window & full-screen capture, raw input (type/key/mouse).".to_owned()
        } else {
            let keep = probe_value(lines, "keepDisplay");
            let mut out = text::join2(
                "session ",
                if state.as_str().is_empty() {
                    "?"
                } else {
                    state.as_str()
                },
            );
            out.append(
                " → UIA (windows/elements/click/set/read) and per-window screencap/shot work; raw input (type/key/mouse) and full-screen capture need an Active session — connect RDP, or rely on keep-display (",
            );
            out.append(
                if keep.as_str().is_empty() {
                    "?"
                } else {
                    keep.as_str()
                },
            );
            out.append(").");
            out
        }
    } else {
        match caps {
            Some(c) => text::join3(
                "runner OS ",
                c.os.as_str(),
                " — UI automation runs through the platform's accessibility layer; the Windows session/integrity tiers above don't apply. `commands` lists what's implemented; anything absent returns an unsupported error.",
            ),
            None => String::new(),
        }
    }
}

fn heading_lines(caps: &Option<RunnerCaps>) -> (out: Vec<String>)
    ensures
        text::texts(out@) == heading(*caps),
{
    let runner = match caps {
        Some(c) => text::join2("  runner       : ", runner_label_text(c).as_str()),
        None => "  runner       : legacy (predates capability reporting)".to_owned(),
    };
    let out: Vec<String> = vec![
        "arc doctor".to_owned(),
        "  link         : connected".to_owned(),
        runner,
    ];
    assert(text::texts(out@) =~= heading(*caps));
    out
}

fn identity_findings(lines: &Vec<Vec<char>>) -> (out: Vec<String>)
    ensures
        text::texts(out@) == probe_lines(text::views(lines@)),
{
    let mut session = text::join3(
        "  session      : ",
        probe_value(lines, "session").as_str(),
        " (",
    );
    session.append(probe_value(lines, "sessionState").as_str());
    session.append(")");
    let out: Vec<String> = vec![
        text::join2("  account      : ", probe_value(lines, "account").as_str()),
        text::join2("  admin        : ", probe_value(lines, "admin").as_str()),
        text::join2("  integrity    : ", probe_value(lines, "integrity").as_str()),
        session,
        text::join2("  keep-display : ", probe_value(lines, "keepDisplay").as_str()),
    ];
    assert(text::texts(out@) =~= probe_lines(text::views(lines@)));
    out
}

fn close_report(caps: &Option<RunnerCaps>, probe: &str, lead: Vec<String>) -> (out: Vec<String>)
    ensures
        text::texts(out@) == text::texts(lead@) + closing(*caps, text::lines(probe@)),
{
    let lines = text::lines_of(probe);
    let ghost before = text::texts(lead@);
    let mut out = lead;
    match caps {
        Some(c) => {
            if !windows_runner(caps) {
                out.push(text::join2("  commands     : ", surface_text(&c.commands).as_str()));
            }
        },
        None => {},
    }
    out.push(String::new());
    out.push(verdict_text(caps, &lines));
    assert(text::texts(out@) =~= before + closing(*caps, text::lines(probe@)));
    out
}

/// Where a self-check stands.
#[derive(Debug, Clone, Copy, PartialEq, Eq, Structural)]
pub enum DoctorPhase {
    /// It waits for the output of the probe.
    Probing,
    /// It waits for the list of windows.
    Counting,
    /// There is nothing left to do.
    Over,
}

/// A self-check.
pub struct Doctor {
    /// What the runner can do; none for one that does not report it.
    pub caps: Option<RunnerCaps>,
    /// What the probe printed; nothing until then, or without a probe.
    pub probe: String,
    /// Where it stands.
    pub phase: DoctorPhase,
}

/// What a self-check needs next.
pub enum DoctorAction {
    /// Send this request, and hand on the reply.
    Request(Command),
    /// The report is complete.
    Done,
    /// The check failed: the reply does not fit.
    Unexpected(Reply),
}

/// One turn of a self-check: first the lines are shown, then the action is taken.
pub struct DoctorTurn {
    /// The check after the turn.
    pub state: Doctor,
    /// What is shown.
    pub lines: Vec<String>,
    /// What is done.
    pub action: DoctorAction,
}

impl DoctorTurn {
    /// After these lines, the windows are counted if the runner can list them, or
    /// else the report ends.
    pub open spec fn counts(self, lead: Seq<Seq<char>>) -> bool {
        let s = self.state;
        if supports(s.caps, Capability::ListWindows) {
            s.phase == DoctorPhase::Counting && self.action == DoctorAction::Request(
                Command::ListWindows,
            ) && text::texts(self.lines@) == lead
        } else {
            self.ends(lead)
        }
    }

    /// After these lines, the report ends.
    pub open spec fn ends(self, lead: Seq<Seq<char>>) -> bool {
        let s = self.state;
        s.phase == DoctorPhase::Over && self.action is Done && text::texts(self.lines@) == lead
            + closing(s.caps, text::lines(s.probe@))
    }
}

fn doctor_ends(caps: Option<RunnerCaps>, probe: String, lead: Vec<String>) -> (turn: DoctorTurn)
    ensures
        turn.state.caps == caps,
        turn.state.probe == probe,
        turn.ends(text::texts(lead@)),
{
    let lines = close_report(&caps, probe.as_str(), lead);
    DoctorTurn {
        state: Doctor { caps, probe, phase: DoctorPhase::Over },
        lines,
        action: DoctorAction::Done,
    }
}

fn doctor_counts(caps: Option<RunnerCaps>, probe: String, lead: Vec<String>) -> (turn: DoctorTurn)
    ensures
        turn.state.caps == caps,
        turn.state.probe == probe,
        turn.counts(text::texts(lead@)),
{
    if lists_windows(&caps) {
        DoctorTurn {
            state: Doctor { caps, probe, phase: DoctorPhase::Counting },
            lines: lead,
            action: DoctorAction::Request(Command::ListWindows),
        }
    } else {
        doctor_ends(caps, probe, lead)
    }
}

/// How a self-check begins: identity and session are asked of a Windows runner alone.
pub open spec fn check_begins(caps: Option<RunnerCaps>, turn: DoctorTurn) -> bool {
    &&& turn.state.caps == caps
    &&& turn.state.probe@.len() == 0
    &&& if is_windows(caps) {
        turn.state.phase == DoctorPhase::Probing && text::texts(turn.lines@) == heading(caps) && (
        turn.action matches DoctorAction::Request(command) && asks_probe(command))
    } else {
        turn.counts(heading(caps))
    }
}

/// How a self-check goes on after a reply.
pub open spec fn check_goes_on(check: Doctor, reply: Reply, turn: DoctorTurn) -> bool {
    &&& turn.state.caps == check.caps
    &&& match (check.phase, reply) {
        (DoctorPhase::Probing, Reply::CommandOutput { stdout, .. }) => turn.state.probe == stdout
            && turn.counts(probe_lines(text::lines(stdout@))),
        (DoctorPhase::Counting, Reply::Windows(list)) => turn.state.probe == check.probe
            && turn.ends(seq![window_line(list@.len())]),
        (_, other) => turn.state.phase == DoctorPhase::Over && turn.action
            == DoctorAction::Unexpected(other) && turn.lines@.len() == 0,
    }
}

/// Starts a self-check.
pub fn start_doctor(caps: Option<RunnerCaps>) -> (turn: DoctorTurn)
    ensures
        check_begins(caps, turn),
{
    let lead = heading_lines(&caps);
    if windows_runner(&caps) {
        DoctorTurn {
            state: Doctor { caps, probe: String::new(), phase: DoctorPhase::Probing },
            lines: lead,
            action: DoctorAction::Request(doctor_probe()),
        }
    } else {
        doctor_counts(caps, String::new(), lead)
    }
}

/// Takes a self-check one turn further.
pub fn doctor(check: Doctor, reply: Reply) -> (turn: DoctorTurn)
    requires
        check.phase != DoctorPhase::Over,
    ensures
        check_goes_on(check, reply, turn),
{
    let Doctor { caps, probe, phase } = check;
    match (phase, reply) {
        (DoctorPhase::Probing, Reply::CommandOutput { stdout, .. }) => {
            let lines = text::lines_of(stdout.as_str());
            let lead = identity_findings(&lines);
            doctor_counts(caps, stdout, lead)
        },
        (DoctorPhase::Counting, Reply::Windows(list)) => {
            let line = text::join3(
                "  uia          : ",
                number::decimal_text(list.len() as u64).as_str(),
                " top-level windows visible",
            );
            let lead: Vec<String> = vec![line];
            assert(text::texts(lead@) =~= seq![window_line(list@.len())]);
            doctor_ends(caps, probe, lead)
        },
        (_, other) => DoctorTurn {
            state: Doctor { caps, probe, phase: DoctorPhase::Over },
            lines: Vec::new(),
            action: DoctorAction::Unexpected(other),
        },
    }
}

/// What a self-check has yet to show, given what the probe prints and how many windows
/// there are.
pub open spec fn to_come(check: Doctor, probe: Seq<char>, windows: nat) -> Seq<Seq<char>> {
    let uia = if supports(check.caps, Capability::ListWindows) {
        seq![window_line(windows)]
    } else {
        Seq::empty()
    };
    match check.phase {
        DoctorPhase::Probing => probe_lines(text::lines(probe)) + uia + closing(
            check.caps,
            text::lines(probe),
        ),
        DoctorPhase::Counting => seq![window_line(windows)] + closing(
            check.caps,
            text::lines(check.probe@),
        ),
        DoctorPhase::Over => Seq::empty(),
    }
}

/// What a self-check shows first and what it has yet to show make up the report.
pub proof fn law_doctor_reports_all(
    caps: Option<RunnerCaps>,
    first: DoctorTurn,
    probe: Seq<char>,
    windows: nat,
)
    requires
        check_begins(caps, first),
    ensures
        text::texts(first.lines@) + to_come(first.state, probe, windows) == doctor_lines(
            caps,
            probe,
            windows,
        ),
{
    assert(text::texts(first.lines@) + to_come(first.state, probe, windows) =~= doctor_lines(
        caps,
        probe,
        windows,
    ));
}

/// A self-check that is answered as it asks shows next what it has yet to show, and
/// then has yet to show the rest.
pub proof fn law_doctor_goes_on(
    check: Doctor,
    reply: Reply,
    turn: DoctorTurn,
    probe: Seq<char>,
    windows: nat,
)
    requires
        check_goes_on(check, reply, turn),
        check.phase == DoctorPhase::Probing ==> (reply matches Reply::CommandOutput { stdout, .. }
            && stdout@ == probe),
        check.phase == DoctorPhase::Counting ==> (reply matches Reply::Windows(list) && list@.len()
            == windows),
        check.phase != DoctorPhase::Over,
    ensures
        text::texts(turn.lines@) + to_come(turn.state, probe, windows) == to_come(
            check,
            probe,
            windows,
        ),
{
    assert(text::texts(turn.lines@) + to_come(turn.state, probe, windows) =~= to_come(
        check,
        probe,
        windows,
    ));
}

/// The longest label, counted in bytes of UTF-8.
pub open spec fn label_width(lines: Seq<(Seq<char>, Seq<char>)>) -> nat
    decreases lines.len(),
{
    if lines.len() == 0 {
        0
    } else {
        let rest = label_width(lines.drop_last());
        let last = vstd::utf8::encode_utf8(lines.last().0).len();
        if last > rest {
            last
        } else {
            rest
        }
    }
}

/// Identity lines with their labels aligned.
pub open spec fn identity_lines(lines: Seq<(Seq<char>, Seq<char>)>) -> Seq<Seq<char>> {
    lines.map_values(
        |l: (Seq<char>, Seq<char>)| text::left_aligned(l.0, label_width(lines)) + " : "@ + l.1,
    )
}

fn widest(lines: &Vec<(String, String)>) -> (w: usize)
    ensures
        w == label_width(pair_texts(lines@)),
{
    let ghost all = pair_texts(lines@);
    let mut w: usize = 0;
    let mut i: usize = 0;
    while i < lines.len()
        invariant
            i <= lines@.len(),
            all == pair_texts(lines@),
            w == label_width(all.take(i as int)),
        decreases lines@.len() - i,
    {
        let n: usize = lines[i].0.as_str().as_bytes().len();
        assert(all.take(i + 1).drop_last() =~= all.take(i as int));
        if n > w {
            w = n;
        }
        i = i + 1;
    }
    assert(all.take(i as int) =~= all);
    w
}

/// Lays out the runner's identity.
pub fn whoami(lines: &Vec<(String, String)>) -> (out: Vec<String>)
    ensures
        text::texts(out@) == identity_lines(pair_texts(lines@)),
{
    let width: usize = widest(lines);
    let ghost want = identity_lines(pair_texts(lines@));
    let mut out: Vec<String> = Vec::new();
    let mut i: usize = 0;
    assert(text::texts(out@) =~= want.take(0));
    while i < lines.len()
        invariant
            i <= lines@.len(),
            width == label_width(pair_texts(lines@)),
            want == identity_lines(pair_texts(lines@)),
            text::texts(out@) == want.take(i as int),
        decreases lines@.len() - i,
    {
        let ghost before = out@;
        let row = text::join3(
            text::align_left(lines[i].0.as_str(), width).as_str(),
            " : ",
            lines[i].1.as_str(),
        );
        assert(row@ == want[i as int]);
        out.push(row);
        i = i + 1;
        assert(text::texts(out@) =~= text::texts(before).push(row@));
        assert(want.take(i as int) =~= want.take(i - 1).push(want[i - 1]));
    }
    assert(want.take(i as int) =~= want);
    out
}

/// What is printed of killed, or to be killed, processes.
pub open spec fn kill_lines(
    procs: Seq<ProcessInfo>,
    target: Seq<char>,
    dry_run: bool,
) -> Seq<Seq<char>> {
    if procs.len() == 0 {
        seq!["no matching process: "@ + target]
    } else {
        procs.map_values(
            |p: ProcessInfo|
                (if dry_run {
                    "would kill"@
                } else {
                    "killed"@
                }) + " "@ + p.name@ + " (PID "@ + number::decimal(p.pid as nat) + ")"@,
        )
    }
}

/// Reports the processes that a kill matched, with the exit code: none is a
/// failure.
pub fn kill(procs: &Vec<ProcessInfo>, target: &str, dry_run: bool) -> (r: (Vec<String>, i32))
    ensures
        text::texts(r.0@) == kill_lines(procs@, target@, dry_run),
        r.1 == (if procs@.len() == 0 {
            1i32
        } else {
            0i32
        }),
{
    let ghost want = kill_lines(procs@, target@, dry_run);
    let mut out: Vec<String> = Vec::new();
    if procs.len() == 0 {
        out.push(text::join2("no matching process: ", target));
        assert(text::texts(out@) =~= want);
        return (out, 1);
    }
    let verb = if dry_run {
        "would kill"
    } else {
        "killed"
    };
    let mut i: usize = 0;
    assert(text::texts(out@) =~= want.take(0));
    while i < procs.len()
        invariant
            i <= procs@.len(),
            procs@.len() > 0,
            verb@ == (if dry_run {
                "would kill"@
            } else {
                "killed"@
            }),
            want == kill_lines(procs@, target@, dry_run),
            text::texts(out@) == want.take(i as int),
        decreases procs@.len() - i,
    {
        let ghost before = out@;
        let mut row = text::join3(verb, " ", procs[i].name.as_str());
        row.append(" (PID ");
        row.append(number::decimal_text(procs[i].pid as u64).as_str());
        row.append(")");
        assert(row@ == want[i as int]);
        out.push(row);
        i = i + 1;
        assert(text::texts(out@) =~= text::texts(before).push(row@));
        assert(want.take(i as int) =~= want.take(i - 1).push(want[i - 1]));
    }
    assert(want.take(i as int) =~= want);
    (out, 0)
}

/// The request that streams the end of a remote file. The path is quoted, with
/// embedded quotes doubled; there is no time limit.
pub fn tail(remote: &str, lines: u64, follow: bool) -> (r: Command)
    ensures
        r matches Command::RunCommand { shell, command, env, timeout_ms, stream } && shell
            == Shell::PowerShell && command@ == "Get-Content -LiteralPath '"@ + text::replaced(
            remote@,
            '\'',
            "''"@,
        ) + "' -Tail "@ + number::decimal(lines as nat) + (if follow {
            " -Wait"@
        } else {
            ""@
        }) && env@.len() == 0 && timeout_ms is None && stream,
{
    let mut command = text::join3(
        "Get-Content -LiteralPath '",
        text::replace_char(remote, '\'', "''").as_str(),
        "' -Tail ",
    );
    command.append(number::decimal_text(lines).as_str());
    command.append(
        if follow {
            " -Wait"
        } else {
            ""
        },
    );
    Command::RunCommand {
        shell: Shell::PowerShell,
        command,
        env: Vec::new(),
        timeout_ms: None,
        stream: true,
    }
}

/// The runner's default interpreter: `sh` on a runner that says it is not a
/// Windows one, else PowerShell.
pub open spec fn default_shell(caps: Option<RunnerCaps>) -> Shell {
    if is_windows(caps) {
        Shell::PowerShell
    } else {
        Shell::Sh
    }
}

/// Picks the runner's default interpreter.
pub fn default_shell_for_runner(caps: &Option<RunnerCaps>) -> (r: Shell)
    ensures
        r == default_shell(*caps),
{
    if windows_runner(caps) {
        Shell::PowerShell
    } else {
        Shell::Sh
    }
}

/// `s` without the dots it begins with.
pub open spec fn undotted(s: Seq<char>) -> Seq<char>
    decreases s.len(),
{
    if s.len() > 0 && s[0] == '.' {
        undotted(s.skip(1))
    } else {
        s
    }
}

/// The interpreter that a language name stands for.
pub open spec fn shell_named(lower: Seq<char>) -> Option<Shell> {
    if lower == "ps1"@ || lower == "powershell"@ || lower == "pwsh"@ {
        Some(Shell::PowerShell)
    } else if lower == "bat"@ || lower == "cmd"@ {
        Some(Shell::Cmd)
    } else if lower == "sh"@ || lower == "bash"@ {
        Some(Shell::Sh)
    } else {
        None
    }
}

/// Maps an explicit language, with or without leading dots and in any case, to
/// an interpreter. Omitted is no choice; an unknown one is an error.
pub fn shell_for_lang(lang: Option<&str>) -> (r: Result<Option<Shell>, String>)
    ensures
        match lang {
            None => r == Ok::<Option<Shell>, String>(None),
            Some(l) => {
                let name = text::lowercase(undotted(l@));
                match r {
                    Ok(choice) => choice is Some && shell_named(name) == choice,
                    Err(e) => shell_named(name) is None && e@ == "unsupported --lang `"@ + name
                        + "` (expected ps1, bat, cmd, or sh)"@,
                }
            },
        },
{
    match lang {
        None => Ok(None),
        Some(l) => {
            let chars = text::chars_of(l);
            let mut i: usize = 0;
            assert(chars@.skip(0) =~= chars@);
            while i < chars.len() && chars[i] == '.'
                invariant
                    i <= chars@.len(),
                    undotted(chars@) == undotted(chars@.skip(i as int)),
                decreases chars@.len() - i,
            {
                assert(chars@.skip(i as int).skip(1) =~= chars@.skip(i + 1));
                i = i + 1;
            }
            let rest = text::slice_chars(&chars, i, chars.len());
            assert(rest@ =~= chars@.skip(i as int));
            let name = text::string_of(&text::lowercased(&rest));
            let n = name.as_str();
            if text::same(n, "ps1") || text::same(n, "powershell") || text::same(n, "pwsh") {
                Ok(Some(Shell::PowerShell))
            } else if text::same(n, "bat") || text::same(n, "cmd") {
                Ok(Some(Shell::Cmd))
            } else if text::same(n, "sh") || text::same(n, "bash") {
                Ok(Some(Shell::Sh))
            } else {
                Err(
                    text::join3(
                        "unsupported --lang `",
                        n,
                        "` (expected ps1, bat, cmd, or sh)",
                    ),
                )
            }
        },
    }
}

/// The interpreter for a script file: by its extension, in any case. Without one
/// that is known, a runner whose default is `sh` uses that, and any other refuses.
pub open spec fn script_shell(script: Seq<char>, default: Shell) -> Result<Shell, Seq<char>> {
    let ext = match path::extension(script) {
        Some(e) => Some(text::lowercase(e)),
        None => None,
    };
    if ext == Some("ps1"@) {
        Ok(Shell::PowerShell)
    } else if ext == Some("bat"@) || ext == Some("cmd"@) {
        Ok(Shell::Cmd)
    } else if ext == Some("sh"@) || ext == Some("bash"@) || default == Shell::Sh {
        Ok(Shell::Sh)
    } else {
        match ext {
            Some(e) => Err(
                "unsupported script type `."@ + e + "` (expected .ps1, .bat, .cmd, or .sh)"@,
            ),
            None => Err(
                "`"@ + script + "` has no extension; expected .ps1, .bat, .cmd, or .sh"@,
            ),
        }
    }
}

/// Picks the interpreter for a script by its file extension.
pub fn shell_for_script(script: &str, default: Shell) -> (r: Result<Shell, String>)
    ensures
        match r {
            Ok(shell) => script_shell(script@, default) == Ok::<Shell, Seq<char>>(shell),
            Err(e) => script_shell(script@, default) == Err::<Shell, Seq<char>>(e@),
        },
{
    match path::extension_of(script) {
        Some(found) => {
            let ext = text::string_of(&text::lowercased(&found));
            let e = ext.as_str();
            if text::same(e, "ps1") {
                Ok(Shell::PowerShell)
            } else if text::same(e, "bat") || text::same(e, "cmd") {
                Ok(Shell::Cmd)
            } else if text::same(e, "sh") || text::same(e, "bash") || default == Shell::Sh {
                Ok(Shell::Sh)
            } else {
                Err(
                    text::join3(
                        "unsupported script type `.",
                        e,
                        "` (expected .ps1, .bat, .cmd, or .sh)",
                    ),
                )
            }
        },
        None => {
            if default == Shell::Sh {
                Ok(Shell::Sh)
            } else {
                Err(
                    text::join3(
                        "`",
                        script,
                        "` has no extension; expected .ps1, .bat, .cmd, or .sh",
                    ),
                )
            }
        },
    }
}

/// The interpreter for a script: the explicit language if there is one; else the
/// runner's default for standard input, and the extension's for a file.
pub open spec fn chosen_shell(
    script: Seq<char>,
    lang: Option<Seq<char>>,
    default: Shell,
) -> Result<Shell, Seq<char>> {
    match lang {
        Some(l) => {
            let name = text::lowercase(undotted(l));
            match shell_named(name) {
                Some(shell) => Ok(shell),
                None => Err(
                    "unsupported --lang `"@ + name + "` (expected ps1, bat, cmd, or sh)"@,
                ),
            }
        },
        None => if script == "-"@ {
            Ok(default)
        } else {
            script_shell(script, default)
        },
    }
}

/// Where the source of a script comes from.
#[derive(Debug, Clone, Copy, PartialEq, Eq, Structural)]
pub enum ScriptSource {
    /// Standard input.
    Stdin,
    /// The file that was named.
    File,
}

/// Decides how a script is run: which interpreter, and where its source comes
/// from.
pub fn choose_script(script: &str, lang: Option<&str>, default: Shell) -> (r: Result<
    (Shell, ScriptSource),
    String,
>)
    ensures
        ({
            let want = chosen_shell(
                script@,
                match lang {
                    Some(l) => Some(l@),
                    None => None,
                },
                default,
            );
            match r {
                Ok((shell, source)) => want == Ok::<Shell, Seq<char>>(shell) && source == (
                if script@ == "-"@ {
                    ScriptSource::Stdin
                } else {
                    ScriptSource::File
                }),
                Err(e) => want == Err::<Shell, Seq<char>>(e@),
            }
        }),
{
    let source = if text::same(script, "-") {
        ScriptSource::Stdin
    } else {
        ScriptSource::File
    };
    match shell_for_lang(lang) {
        Err(e) => Err(e),
        Ok(Some(shell)) => Ok((shell, source)),
        Ok(None) => {
            if source == ScriptSource::Stdin {
                Ok((default, source))
            } else {
                match shell_for_script(script, default) {
                    Ok(shell) => Ok((shell, source)),
                    Err(e) => Err(e),
                }
            }
        },
    }
}

/// The request that runs a script: detached, which has no time limit, or
/// streaming.
pub open spec fn script_request(
    shell: Shell,
    content: String,
    args: Vec<String>,
    env: Vec<(String, String)>,
    detach: bool,
    timeout_secs: Option<u64>,
) -> Command {
    if detach {
        Command::RunDetached { shell, content, args, env }
    } else {
        Command::RunScript {
            shell,
            content,
            args,
            env,
            timeout_ms: limit_ms(timeout_secs),
            stream: true,
        }
    }
}

/// Makes the request that runs a script.
pub fn run_script(
    shell: Shell,
    content: String,
    args: Vec<String>,
    env: Vec<(String, String)>,
    detach: bool,
    timeout_secs: Option<u64>,
) -> (r: Command)
    ensures
        r == script_request(shell, content, args, env, detach, timeout_secs),
{
    if detach {
        Command::RunDetached { shell, content, args, env }
    } else {
        Command::RunScript {
            shell,
            content,
            args,
            env,
            timeout_ms: timeout_to_ms(timeout_secs),
            stream: true,
        }
    }
}

/// What is printed of a detached script.
pub fn detached_lines(pid: u32, log_path: &str) -> (out: Vec<String>)
    ensures
        text::texts(out@) == seq![
            "detached pid="@ + number::decimal(pid as nat),
            "log:    "@ + log_path@,
            "follow: arc tail -f '"@ + log_path@ + "'   (or: arc kill "@ + number::decimal(
                pid as nat,
            ) + ")"@,
        ],
{
    let id = number::decimal_text(pid as u64);
    let mut out: Vec<String> = Vec::new();
    out.push(text::join2("detached pid=", id.as_str()));
    out.push(text::join2("log:    ", log_path));
    let mut follow = text::join3("follow: arc tail -f '", log_path, "'   (or: arc kill ");
    follow.append(id.as_str());
    follow.append(")");
    out.push(follow);
    assert(text::texts(out@) =~= seq![
        "detached pid="@ + number::decimal(pid as nat),
        "log:    "@ + log_path@,
        "follow: arc tail -f '"@ + log_path@ + "'   (or: arc kill "@ + number::decimal(pid as nat)
            + ")"@,
    ]);
    out
}

/// The exit code that a streamed run ends with: the command's, or zero if it has
/// none. Output that was not streamed comes along to be printed; any other reply
/// is handed back.
pub fn stream_run(reply: Reply) -> (r: Result<(String, String, i32), Reply>)
    ensures
        r == (match reply {
            Reply::CommandOutput { stdout, stderr, exit_code } => Ok::<
                (String, String, i32),
                Reply,
            >(
                (
                    stdout,
                    stderr,
                    match exit_code {
                        Some(code) => code,
                        None => 0i32,
                    },
                ),
            ),
            other => Err::<(String, String, i32), Reply>(other),
        }),
{
    match reply {
        Reply::CommandOutput { stdout, stderr, exit_code } => {
            let code: i32 = match exit_code {
                Some(code) => code,
                None => 0,
            };
            Ok((stdout, stderr, code))
        },
        other => Err(other),
    }
}

/// Each flag gives one variable, in order: what is before its first equals sign, and
/// what is after it. Exactly a flag without one is an error.
pub proof fn law_env_flags_split_at_first_sign(
    pairs: &Vec<String>,
    r: Result<Vec<(String, String)>, String>,
)
    requires
        parse_env.ensures((pairs, None::<&str>), r),
    ensures
        r is Err <==> exists|i: int|
            0 <= i < pairs@.len() && !(#[trigger] pairs@[i])@.contains('='),
        r matches Ok(env) ==> env@.len() == pairs@.len() && forall|i: int|
            0 <= i < pairs@.len() ==> !(#[trigger] env@[i]).0@.contains('=') && pairs@[i]@
                == env@[i].0@ + seq!['='] + env@[i].1@,
{
    let flags = text::texts(pairs@);
    lemma_env_flags(flags);
    assert(Seq::<(Seq<char>, Seq<char>)>::empty() + env_flag_pairs(flags)->Ok_0
        =~= env_flag_pairs(flags)->Ok_0);
    if r is Err {
        let i = choose|i: int| 0 <= i < flags.len() && !(#[trigger] flags[i]).contains('=');
        assert(!pairs@[i]@.contains('='));
    }
    if exists|i: int| 0 <= i < pairs@.len() && !(#[trigger] pairs@[i])@.contains('=') {
        let i = choose|i: int| 0 <= i < pairs@.len() && !(#[trigger] pairs@[i])@.contains('=');
        assert(!flags[i].contains('='));
    }
    if let Ok(env) = r {
        let seen = pair_texts(env@);
        assert(seen.len() == env@.len());
        assert forall|i: int| 0 <= i < pairs@.len() implies !(#[trigger] env@[i]).0@.contains('=')
            && pairs@[i]@ == env@[i].0@ + seq!['='] + env@[i].1@ by {
            assert(seen[i] == (env@[i].0@, env@[i].1@));
            assert(flags[i] == pairs@[i]@);
        }
    }
}

proof fn lemma_env_flags(flags: Seq<Seq<char>>)
    ensures
        env_flag_pairs(flags) is Err <==> exists|i: int|
            0 <= i < flags.len() && !(#[trigger] flags[i]).contains('='),
        env_flag_pairs(flags) matches Ok(p) ==> p.len() == flags.len() && forall|i: int|
            0 <= i < flags.len() ==> !(#[trigger] p[i]).0.contains('=') && flags[i] == p[i].0
                + seq!['='] + p[i].1,
    decreases flags.len(),
{
    if flags.len() > 0 {
        let rest = flags.drop_last();
        let n = flags.len() - 1;
        lemma_env_flags(rest);
        text::law_split_once_is_at_the_first(flags.last(), '=');
        assert(flags[n] == flags.last());
        if env_flag_pairs(rest) is Err {
            let i = choose|i: int| 0 <= i < rest.len() && !(#[trigger] rest[i]).contains('=');
            assert(!flags[i].contains('='));
        }
        if exists|i: int| 0 <= i < flags.len() && !(#[trigger] flags[i]).contains('=') {
            let i = choose|i: int| 0 <= i < flags.len() && !(#[trigger] flags[i]).contains('=');
            if i < n {
                assert(rest[i] == flags[i]);
            }
        }
        if let Ok(p) = env_flag_pairs(flags) {
            let before = env_flag_pairs(rest)->Ok_0;
            assert forall|i: int| 0 <= i < flags.len() implies !(#[trigger] p[i]).0.contains('=')
                && flags[i] == p[i].0 + seq!['='] + p[i].1 by {
                if i < n {
                    assert(p[i] == before[i]);
                    assert(flags[i] == rest[i]);
                }
            }
        }
    }
}

/// With an environment file, its variables come first, and those of the flags after
/// them, so that a flag overrides the file.
pub proof fn law_env_flags_override_the_file(
    pairs: &Vec<String>,
    none: &Vec<String>,
    content: &str,
    both: Result<Vec<(String, String)>, String>,
    flags: Result<Vec<(String, String)>, String>,
    file: Result<Vec<(String, String)>, String>,
)
    requires
        none@.len() == 0,
        parse_env.ensures((pairs, Some(content)), both),
        parse_env.ensures((pairs, None::<&str>), flags),
        parse_env.ensures((none, Some(content)), file),
    ensures
        both is Ok <==> flags is Ok && file is Ok,
        both is Ok ==> pair_texts(both->Ok_0@) == pair_texts(file->Ok_0@) + pair_texts(
            flags->Ok_0@,
        ),
{
    let empty = Seq::<(Seq<char>, Seq<char>)>::empty();
    assert(text::texts(none@) =~= Seq::empty());
    assert(env_flag_pairs(Seq::empty()) == Ok::<Seq<(Seq<char>, Seq<char>)>, Seq<char>>(empty));
    if flags is Ok {
        let p = env_flag_pairs(text::texts(pairs@))->Ok_0;
        assert(empty + p =~= p);
    }
    if file is Ok {
        let p = env_file_pairs(text::lines(content@))->Ok_0;
        assert(p + empty =~= p);
    }
}

/// A line more in an environment file: a blank one or a comment gives nothing; one
/// with an equals sign gives the variable before its first, without white space, and
/// the value after it; any other is an error.
pub proof fn law_env_file_reads_line_by_line(
    none: &Vec<String>,
    content: &str,
    longer: &str,
    line: Seq<char>,
    key: Seq<char>,
    value: Seq<char>,
    r: Result<Vec<(String, String)>, String>,
    s: Result<Vec<(String, String)>, String>,
)
    requires
        none@.len() == 0,
        parse_env.ensures((none, Some(content)), r),
        parse_env.ensures((none, Some(longer)), s),
        text::lines(longer@) == text::lines(content@).push(line),
        r is Ok,
    ensures
        text::trim(line).len() == 0 ==> (s matches Ok(env) && pair_texts(env@) == pair_texts(
            r->Ok_0@,
        )),
        text::trim(line).len() > 0 && text::trim(line)[0] == '#' ==> (s matches Ok(env)
            && pair_texts(env@) == pair_texts(r->Ok_0@)),
        text::trim(line).len() > 0 && text::trim(line)[0] != '#' && text::trim(line) == key
            + seq!['='] + value && !key.contains('=') ==> (s matches Ok(env) && pair_texts(env@)
            == pair_texts(r->Ok_0@).push((text::trim(key), value))),
        text::trim(line).len() > 0 && text::trim(line)[0] != '#' && !text::trim(line).contains('=')
            ==> s is Err,
{
    let empty = Seq::<(Seq<char>, Seq<char>)>::empty();
    assert(text::texts(none@) =~= Seq::empty());
    assert(env_flag_pairs(Seq::empty()) == Ok::<Seq<(Seq<char>, Seq<char>)>, Seq<char>>(empty));
    let before = text::lines(content@);
    let after = text::lines(longer@);
    assert(after.drop_last() =~= before);
    assert(after.last() == line);
    let p = env_file_pairs(before)->Ok_0;
    assert(p + empty =~= p);
    if env_file_pairs(after) is Ok {
        let q = env_file_pairs(after)->Ok_0;
        assert(q + empty =~= q);
    }
    let t = text::trim(line);
    text::law_split_once_is_at_the_first(t, '=');
    if t == key + seq!['='] + value && !key.contains('=') {
        assert(t[key.len() as int] == '=');
        assert(t.contains('='));
        let (k, v) = text::split_once(t, '=')->0;
        assert(t[k.len() as int] == '=');
        if k.len() < key.len() {
            assert(key[k.len() as int] == t[k.len() as int]);
        }
        if key.len() < k.len() {
            assert(k[key.len() as int] == t[key.len() as int]);
        }
        assert(k =~= t.take(key.len() as int));
        assert(key =~= t.take(key.len() as int));
        assert(v =~= t.skip(key.len() as int + 1));
        assert(value =~= t.skip(key.len() as int + 1));
    }
}

/// A limit is in milliseconds: ten minutes unless one is asked for, none if zero is,
/// else a thousand for each second, as far as that can be counted.
pub proof fn law_time_limit(secs: u64, r: Option<u64>, omitted: Option<u64>, none: Option<u64>)
    requires
        timeout_to_ms.ensures((Some(secs),), r),
        timeout_to_ms.ensures((None::<u64>,), omitted),
        timeout_to_ms.ensures((Some(0u64),), none),
    ensures
        omitted == Some(600_000u64),
        none is None,
        secs > 0 && secs * 1000 <= u64::MAX ==> (r matches Some(ms) && ms == secs * 1000),
        secs * 1000 > u64::MAX ==> r == Some(u64::MAX),
{
}

/// A command line goes to PowerShell unless the other interpreter is asked for, with
/// its words in order and one space between, the limit and the variables that were
/// asked for, and its output streams.
pub proof fn law_command_line_joins_words(
    use_cmd: bool,
    secs: Option<u64>,
    env: Vec<(String, String)>,
    words: &Vec<String>,
    more: &Vec<String>,
    word: String,
    limit: Option<u64>,
    r: Command,
    s: Command,
)
    requires
        more@ == words@.push(word),
        timeout_to_ms.ensures((secs,), limit),
        shell.ensures((use_cmd, secs, env, words), r),
        shell.ensures((use_cmd, secs, env, more), s),
    ensures
        r matches Command::RunCommand { shell, command, env: e, timeout_ms, stream } && (
        s matches Command::RunCommand { command: longer, .. } && {
            &&& shell == Shell::Cmd <==> use_cmd
            &&& shell == Shell::PowerShell <==> !use_cmd
            &&& e == env && timeout_ms == limit && stream
            &&& words@.len() == 0 ==> command@.len() == 0 && longer@ == word@
            &&& words@.len() > 0 ==> longer@ == command@ + seq![' '] + word@
        }),
{
    reveal_strlit(" ");
    let a = text::texts(words@);
    let b = text::texts(more@);
    assert(b.drop_last() =~= a);
    assert(b.last() == word@);
    assert(" "@ =~= seq![' ']);
}

/// The table of processes has a heading and then one row for each, in order: its
/// number, its processor share if asked for, its memory and its name, each in its
/// own column.
pub proof fn law_process_table_has_a_row_each(
    procs: &Vec<ProcessInfo>,
    cells: &Vec<(String, String)>,
    with_cpu: bool,
    out: Vec<String>,
    i: int,
)
    requires
        cells@.len() == procs@.len(),
        print_processes.ensures((procs, cells, with_cpu), out),
        0 <= i < procs@.len(),
    ensures
        out@.len() == procs@.len() + 1,
        with_cpu ==> out@[i + 1]@ == text::right_aligned(number::decimal(procs@[i].pid as nat), 7)
            + "  "@ + (text::right_aligned(cells@[i].1@, 6) + "  "@) + text::right_aligned(
            cells@[i].0@,
            9,
        ) + "  "@ + procs@[i].name@,
        !with_cpu ==> out@[i + 1]@ == text::right_aligned(number::decimal(procs@[i].pid as nat), 7)
            + "  "@ + text::right_aligned(cells@[i].0@, 9) + "  "@ + procs@[i].name@,
{
    let t = text::texts(out@);
    assert(t.len() == out@.len());
    assert(t[i + 1] == out@[i + 1]@);
    assert(pair_texts(cells@)[i] == (cells@[i].0@, cells@[i].1@));
    let lead = text::right_aligned(number::decimal(procs@[i].pid as nat), 7) + "  "@;
    assert(lead + Seq::<char>::empty() =~= lead);
}

/// The default interpreter is PowerShell for a Windows runner and for one that is too
/// old to say what it is, and the shell for any other.
pub proof fn law_default_interpreter(caps: &Option<RunnerCaps>, r: Shell)
    requires
        default_shell_for_runner.ensures((caps,), r),
    ensures
        caps is None ==> r == Shell::PowerShell,
        caps matches Some(c) ==> (c.os@ == "windows"@ ==> r == Shell::PowerShell) && (c.os@
            != "windows"@ ==> r == Shell::Sh),
{
}

/// A language is taken whatever its case and with or without a dot before it; each
/// name that is known stands for its interpreter, and no other is taken.
pub proof fn law_language_names(
    lang: &str,
    dotted: &str,
    same: &str,
    r: Result<Option<Shell>, String>,
    s: Result<Option<Shell>, String>,
    t: Result<Option<Shell>, String>,
    none: Result<Option<Shell>, String>,
)
    requires
        dotted@ == seq!['.'] + lang@,
        text::lowercase(undotted(same@)) == text::lowercase(undotted(lang@)),
        shell_for_lang.ensures((Some(lang),), r),
        shell_for_lang.ensures((Some(dotted),), s),
        shell_for_lang.ensures((Some(same),), t),
        shell_for_lang.ensures((None::<&str>,), none),
    ensures
        none == Ok::<Option<Shell>, String>(None),
        r is Ok <==> s is Ok,
        r is Ok ==> r->Ok_0 == s->Ok_0,
        r is Ok <==> t is Ok,
        r is Ok ==> r->Ok_0 == t->Ok_0,
        r is Ok ==> r->Ok_0 is Some,
        lang@.len() > 0 && lang@[0] != '.' ==> {
            let name = text::lowercase(lang@);
            &&& name == "ps1"@ || name == "powershell"@ || name == "pwsh"@ ==> r == Ok::<
                Option<Shell>,
                String,
            >(Some(Shell::PowerShell))
            &&& name == "bat"@ || name == "cmd"@ ==> r == Ok::<Option<Shell>, String>(
                Some(Shell::Cmd),
            )
            &&& name == "sh"@ || name == "bash"@ ==> r == Ok::<Option<Shell>, String>(
                Some(Shell::Sh),
            )
            &&& r is Ok ==> name == "ps1"@ || name == "powershell"@ || name == "pwsh"@ || name
                == "bat"@ || name == "cmd"@ || name == "sh"@ || name == "bash"@
        },
{
    assert(dotted@.skip(1) =~= lang@);
    lemma_language_names();
}

proof fn lemma_language_names()
    ensures
        "ps1"@ != "bat"@ && "ps1"@ != "cmd"@ && "ps1"@ != "sh"@ && "ps1"@ != "bash"@,
        "powershell"@ != "bat"@ && "powershell"@ != "cmd"@ && "powershell"@ != "sh"@
            && "powershell"@ != "bash"@,
        "pwsh"@ != "bat"@ && "pwsh"@ != "cmd"@ && "pwsh"@ != "sh"@ && "pwsh"@ != "bash"@,
        "bat"@ != "sh"@ && "bat"@ != "bash"@ && "cmd"@ != "sh"@ && "cmd"@ != "bash"@,
{
    reveal_strlit("ps1");
    reveal_strlit("powershell");
    reveal_strlit("pwsh");
    reveal_strlit("bat");
    reveal_strlit("cmd");
    reveal_strlit("sh");
    reveal_strlit("bash");
    assert("ps1"@[0] == 'p' && "powershell"@[0] == 'p' && "pwsh"@[0] == 'p');
    assert("bat"@[0] == 'b' && "cmd"@[0] == 'c' && "sh"@[0] == 's' && "bash"@[0] == 'b');
    assert("bat"@.len() == 3 && "bash"@.len() == 4);
}

/// The extension of a script decides its interpreter, whatever its case and whatever
/// the default; without one that is known, a default of the shell is used, and any
/// other default is no help.
pub proof fn law_extension_decides(
    script: &str,
    default: Shell,
    ext: Option<Vec<char>>,
    r: Result<Shell, String>,
)
    requires
        path::extension_of.ensures((script,), ext),
        shell_for_script.ensures((script, default), r),
    ensures
        ext matches Some(e) ==> {
            let name = text::lowercase(e@);
            &&& name == "ps1"@ ==> r == Ok::<Shell, String>(Shell::PowerShell)
            &&& name == "bat"@ || name == "cmd"@ ==> r == Ok::<Shell, String>(Shell::Cmd)
            &&& name == "sh"@ || name == "bash"@ ==> r == Ok::<Shell, String>(Shell::Sh)
            &&& !(name == "ps1"@ || name == "bat"@ || name == "cmd"@ || name == "sh"@ || name
                == "bash"@) ==> (if default == Shell::Sh {
                r == Ok::<Shell, String>(Shell::Sh)
            } else {
                r is Err
            })
        },
        ext is None ==> (if default == Shell::Sh {
            r == Ok::<Shell, String>(Shell::Sh)
        } else {
            r is Err
        }),
{
    lemma_language_names();
}

/// An explicit language decides the interpreter, whatever the script; without one,
/// standard input goes to the default, and a file by its extension. Only a dash
/// stands for standard input.
pub proof fn law_language_before_extension(
    script: &str,
    lang: Option<&str>,
    default: Shell,
    explicit: Result<Option<Shell>, String>,
    by_name: Result<Shell, String>,
    r: Result<(Shell, ScriptSource), String>,
)
    requires
        shell_for_lang.ensures((lang,), explicit),
        shell_for_script.ensures((script, default), by_name),
        choose_script.ensures((script, lang, default), r),
    ensures
        explicit is Err ==> r is Err,
        explicit matches Ok(Some(shell)) ==> (r matches Ok(c) && c.0 == shell),
        explicit matches Ok(None) ==> (script@ == "-"@ ==> (r matches Ok(c) && c.0 == default)) && (
        script@ != "-"@ ==> (r is Ok <==> by_name is Ok) && (r matches Ok(c) ==> c.0
            == by_name->Ok_0)),
        r matches Ok(c) ==> (c.1 == ScriptSource::Stdin <==> script@ == "-"@),
{
}

/// A script runs with the source, arguments and variables it was given: detached if
/// that is asked for, else streaming and under the limit.
pub proof fn law_script_request_keeps_everything(
    shell: Shell,
    content: String,
    args: Vec<String>,
    env: Vec<(String, String)>,
    detach: bool,
    secs: Option<u64>,
    limit: Option<u64>,
    r: Command,
)
    requires
        timeout_to_ms.ensures((secs,), limit),
        run_script.ensures((shell, content, args, env, detach, secs), r),
    ensures
        detach ==> r == (Command::RunDetached { shell, content, args, env }),
        !detach ==> r == (Command::RunScript {
            shell,
            content,
            args,
            env,
            timeout_ms: limit,
            stream: true,
        }),
{
}

/// Following a file is what shows its end, and waiting for more; neither is limited
/// in time. A path without quotes stands in the command as it is, in quotes.
pub proof fn law_tail_follows(remote: &str, lines: u64, r: Command, f: Command)
    requires
        tail.ensures((remote, lines, false), r),
        tail.ensures((remote, lines, true), f),
    ensures
        r matches Command::RunCommand { shell, command, env, timeout_ms, stream } && (
        f matches Command::RunCommand { command: c, timeout_ms: t, stream: s, .. } && c@ == command@
            + " -Wait"@ && t is None && s && timeout_ms is None && stream && shell
            == Shell::PowerShell && env@.len() == 0 && (!remote@.contains('\'') ==> command@
            == "Get-Content -LiteralPath '"@ + remote@ + "' -Tail "@ + number::decimal(
            lines as nat,
        ))),
{
    reveal_strlit("");
    if !remote@.contains('\'') {
        lemma_no_quotes(remote@);
    }
    let c = "Get-Content -LiteralPath '"@ + text::replaced(remote@, '\'', "''"@) + "' -Tail "@
        + number::decimal(lines as nat);
    assert(c + ""@ =~= c);
}

proof fn lemma_no_quotes(s: Seq<char>)
    requires
        !s.contains('\''),
    ensures
        text::replaced(s, '\'', "''"@) == s,
    decreases s.len(),
{
    if s.len() > 0 {
        let front = s.drop_last();
        assert(!front.contains('\'')) by {
            if front.contains('\'') {
                let k = choose|k: int| 0 <= k < front.len() && front[k] == '\'';
                assert(s[k] == '\'');
            }
        }
        assert(s[s.len() - 1] != '\'');
        lemma_no_quotes(front);
        assert(front.push(s.last()) =~= s);
    } else {
        assert(text::replaced(s, '\'', "''"@) =~= s);
    }
}

/// Every identity line shows its label, then, in the same column for all, its value.
pub proof fn law_identity_is_aligned(lines: &Vec<(String, String)>, out: Vec<String>) -> (width: nat)
    requires
        whoami.ensures((lines,), out),
    ensures
        out@.len() == lines@.len(),
        forall|i: int|
            0 <= i < out@.len() ==> (#[trigger] out@[i])@ == text::left_aligned(
                lines@[i].0@,
                width,
            ) + " : "@ + lines@[i].1@,
        forall|i: int|
            0 <= i < lines@.len() ==> vstd::utf8::encode_utf8((#[trigger] lines@[i]).0@).len()
                <= width,
{
    let all = pair_texts(lines@);
    let want = text::texts(out@);
    assert(want.len() == out@.len());
    assert forall|i: int| 0 <= i < out@.len() implies (#[trigger] out@[i])@ == text::left_aligned(
        lines@[i].0@,
        label_width(all),
    ) + " : "@ + lines@[i].1@ by {
        assert(want[i] == out@[i]@);
        assert(all[i] == (lines@[i].0@, lines@[i].1@));
    }
    assert forall|i: int| 0 <= i < lines@.len() implies vstd::utf8::encode_utf8(
        (#[trigger] lines@[i]).0@,
    ).len() <= label_width(all) by {
        lemma_label_width(all, i);
        assert(all[i] == (lines@[i].0@, lines@[i].1@));
    }
    label_width(all)
}

proof fn lemma_label_width(lines: Seq<(Seq<char>, Seq<char>)>, i: int)
    requires
        0 <= i < lines.len(),
    ensures
        vstd::utf8::encode_utf8(lines[i].0).len() <= label_width(lines),
    decreases lines.len(),
{
    if i < lines.len() - 1 {
        lemma_label_width(lines.drop_last(), i);
    }
}

/// Killing fails exactly if nothing matched. Otherwise there is a line for each
/// process, in order, with its name and number, which says whether it was killed or
/// would be.
pub proof fn law_kill_reports_each(
    procs: &Vec<ProcessInfo>,
    target: &str,
    dry: (Vec<String>, i32),
    done: (Vec<String>, i32),
    i: int,
)
    requires
        kill.ensures((procs, target, true), dry),
        kill.ensures((procs, target, false), done),
    ensures
        dry.1 == done.1,
        done.1 != 0 <==> procs@.len() == 0,
        procs@.len() > 0 ==> done.0@.len() == procs@.len() && dry.0@.len() == procs@.len(),
        0 <= i < procs@.len() ==> done.0@[i]@ == "killed"@ + " "@ + procs@[i].name@ + " (PID "@
            + number::decimal(procs@[i].pid as nat) + ")"@,
        0 <= i < procs@.len() ==> dry.0@[i]@ == "would kill"@ + " "@ + procs@[i].name@ + " (PID "@
            + number::decimal(procs@[i].pid as nat) + ")"@,
{
    let (a, b) = (text::texts(done.0@), text::texts(dry.0@));
    assert(a.len() == done.0@.len() && b.len() == dry.0@.len());
    if 0 <= i < procs@.len() {
        assert(a[i] == done.0@[i]@ && b[i] == dry.0@[i]@);
    }
}

/// A run ends with the exit code of its command, and with success if it has none;
/// output that comes along stays in its place.
pub proof fn law_run_ends_with_its_code(
    stdout: String,
    stderr: String,
    exit_code: Option<i32>,
    r: Result<(String, String, i32), Reply>,
)
    requires
        stream_run.ensures((Reply::CommandOutput { stdout, stderr, exit_code },), r),
    ensures
        r matches Ok(out) && out.0 == stdout && out.1 == stderr && (exit_code matches Some(code)
            ==> out.2 == code) && (exit_code is None ==> out.2 == 0),
{
}

/// A runner that does not know the question is an old one, unless the link is gone;
/// one that does is taken by its word.
pub proof fn law_capabilities_by_word(
    os: String,
    arch: String,
    runner_version: String,
    commands: Vec<Capability>,
    known: CapsAnswer,
    old: CapsAnswer,
    lost: CapsAnswer,
    cap: Capability,
    has: bool,
)
    requires
        fetch_capabilities.ensures(
            (Some(Reply::Capabilities { os, arch, runner_version, commands }), false),
            known,
        ),
        fetch_capabilities.ensures((None::<Reply>, false), old),
        fetch_capabilities.ensures((None::<Reply>, true), lost),
    ensures
        old is Legacy && lost is Failed,
        known matches CapsAnswer::Known(caps) && caps.os == os && caps.arch == arch
            && caps.runner_version == runner_version && caps.commands == commands && (call_ensures(
            RunnerCaps::has,
            (&caps, cap),
            has,
        ) ==> (has <==> exists|i: int| 0 <= i < commands@.len() && commands@[i] == cap)),
{
}

/// A self-check asks a Windows runner, and no other, who it is, and counts windows
/// exactly where the runner can list them.
pub proof fn law_doctor_asks_what_applies(caps: Option<RunnerCaps>, turn: DoctorTurn)
    requires
        start_doctor.ensures((caps,), turn),
    ensures
        (caps matches Some(c) ==> c.os@ == "windows"@) ==> (turn.action matches DoctorAction::Request(
            Command::RunCommand { shell, stream, .. },
        ) && shell == Shell::PowerShell && !stream),
        (caps matches Some(c) && c.os@ != "windows"@ && c.commands@.contains(
            Capability::ListWindows,
        )) ==> turn.action == DoctorAction::Request(Command::ListWindows),
        (caps matches Some(c) && c.os@ != "windows"@ && !c.commands@.contains(
            Capability::ListWindows,
        )) ==> turn.action is Done,
{
}

/// What the probe of a self-check printed last for each finding is what is shown for
/// it, without the white space around it.
pub proof fn law_doctor_shows_findings(
    check: Doctor,
    stdout: String,
    stderr: String,
    exit_code: Option<i32>,
    turn: DoctorTurn,
    k: int,
    key: Seq<char>,
    value: Seq<char>,
)
    requires
        check.phase == DoctorPhase::Probing,
        doctor.ensures((check, Reply::CommandOutput { stdout, stderr, exit_code }), turn),
        !key.contains('='),
        text::trim(key) == key,
        0 <= k < text::lines(stdout@).len(),
        text::lines(stdout@)[k] == key + seq!['='] + value,
        forall|j: int|
            k < j < text::lines(stdout@).len() ==> (text::split_once(
                #[trigger] text::lines(stdout@)[j],
                '=',
            ) matches Some(p) ==> text::trim(p.0) != key),
    ensures
        turn.lines@.len() >= 5,
        key == "account"@ ==> turn.lines@[0]@ == "  account      : "@ + text::trim(value),
        key == "admin"@ ==> turn.lines@[1]@ == "  admin        : "@ + text::trim(value),
        key == "integrity"@ ==> turn.lines@[2]@ == "  integrity    : "@ + text::trim(value),
        key == "session"@ ==> text::stands_at(
            turn.lines@[3]@,
            "  session      : "@ + text::trim(value) + " ("@,
            0,
        ),
        key == "sessionState"@ ==> text::finishes(
            turn.lines@[3]@,
            " ("@ + text::trim(value) + ")"@,
        ),
        key == "keepDisplay"@ ==> turn.lines@[4]@ == "  keep-display : "@ + text::trim(value),
{
    let lines = text::lines(stdout@);
    lemma_probed(lines, k, key, value);
    let t = text::texts(turn.lines@);
    assert(t.len() == turn.lines@.len());
    let lead = probe_lines(lines);
    assert forall|i: int| 0 <= i < 5 implies #[trigger] turn.lines@[i]@ == lead[i] by {
        assert(t[i] == lead[i]);
    }
    let head = "  session      : "@ + probed(lines, "session"@) + " ("@;
    let tail = " ("@ + probed(lines, "sessionState"@) + ")"@;
    let whole = lead[3];
    assert(whole =~= head + (probed(lines, "sessionState"@) + ")"@));
    assert(whole =~= ("  session      : "@ + probed(lines, "session"@)) + tail);
    assert(whole.subrange(0, head.len() as int) =~= head);
    assert(whole.subrange(whole.len() - tail.len(), whole.len() as int) =~= tail);
}

proof fn lemma_probed(lines: Seq<Seq<char>>, k: int, key: Seq<char>, value: Seq<char>)
    requires
        !key.contains('='),
        text::trim(key) == key,
        0 <= k < lines.len(),
        lines[k] == key + seq!['='] + value,
        forall|j: int|
            k < j < lines.len() ==> (text::split_once(#[trigger] lines[j], '=') matches Some(p)
                ==> text::trim(p.0) != key),
    ensures
        probed(lines, key) == text::trim(value),
    decreases lines.len(),
{
    let n = lines.len() - 1;
    if k == n {
        let t = lines.last();
        text::law_split_once_is_at_the_first(t, '=');
        assert(t[key.len() as int] == '=');
        assert(t.contains('='));
        let (a, b) = text::split_once(t, '=')->0;
        assert(t[a.len() as int] == '=');
        if a.len() < key.len() {
            assert(key[a.len() as int] == t[a.len() as int]);
        }
        if key.len() < a.len() {
            assert(a[key.len() as int] == t[key.len() as int]);
        }
        assert(a =~= t.take(key.len() as int));
        assert(key =~= t.take(key.len() as int));
        assert(b =~= t.skip(key.len() as int + 1));
        assert(value =~= t.skip(key.len() as int + 1));
    } else {
        let rest = lines.drop_last();
        assert(lines[n] == lines.last());
        assert forall|j: int| k < j < rest.len() implies (text::split_once(
            #[trigger] rest[j],
            '=',
        ) matches Some(p) ==> text::trim(p.0) != key) by {
            assert(rest[j] == lines[j]);
        }
        lemma_probed(rest, k, key, value);
    }
}

/// A self-check of a Windows runner ends with the tier that the state of its session
/// allows: everything in an active one, and else that state and what keeps the display.
pub proof fn law_doctor_tells_the_tier(
    check: Doctor,
    windows: Vec<crate::proto::wire::WindowInfo>,
    turn: DoctorTurn,
    k: int,
    value: Seq<char>,
)
    requires
        check.phase == DoctorPhase::Counting,
        check.caps matches Some(c) ==> c.os@ == "windows"@,
        doctor.ensures((check, Reply::Windows(windows)), turn),
        0 <= k < text::lines(check.probe@).len(),
        text::lines(check.probe@)[k] == "sessionState"@ + seq!['='] + value,
        forall|j: int|
            k < j < text::lines(check.probe@).len() ==> (text::split_once(
                #[trigger] text::lines(check.probe@)[j],
                '=',
            ) matches Some(p) ==> text::trim(p.0) != "sessionState"@),
    ensures
        turn.action is Done,
        turn.lines@.len() == 3,
        turn.lines@[0]@ == "  uia          : "@ + number::decimal(windows@.len())
            + " top-level windows visible"@,
        text::trim(value) == "Active"@ ==> turn.lines@[2]@
            == "session Active → all capabilities work: UIA, per-window & full-screen capture, raw input (type/key/mouse)."@,
        text::trim(value) != "Active"@ && text::trim(value).len() > 0 ==> ("session "@ + text::trim(
            value,
        )).is_prefix_of(turn.lines@[2]@),
{
    let lines = text::lines(check.probe@);
    reveal_strlit("sessionState");
    assert(!text::is_space("sessionState"@[0]));
    assert(!text::is_space("sessionState"@["sessionState"@.len() - 1]));
    assert(text::trim("sessionState"@) == "sessionState"@);
    lemma_probed(lines, k, "sessionState"@, value);
    let t = text::texts(turn.lines@);
    assert(t.len() == turn.lines@.len());
    assert forall|i: int| 0 <= i < turn.lines@.len() implies #[trigger] turn.lines@[i]@
        == t[i] by {}
    let state = text::trim(value);
    if state != "Active"@ && state.len() > 0 {
        let head = "session "@ + state;
        assert(head =~= turn.lines@[2]@.subrange(0, head.len() as int));
    }
}

} // verus!
