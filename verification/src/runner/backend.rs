//! What the Windows runner can do, and how it does what it leaves to PowerShell:
//! the commands it runs and what it reads out of their output.

use vstd::prelude::*;

use crate::cli::exec::pair_texts;
use crate::number;
use crate::proto::id::ElementId;
use crate::proto::wire::{
    Capability, Command, Key, Modifier, ProcessInfo, Reply, Shell,
};
use crate::text;

verus! {

/// The runner of a Windows desktop.
#[derive(Debug, Clone, Copy)]
pub struct WindowsBackend;

/// What the Windows runner can do: the full surface.
pub open spec fn windows_surface() -> Seq<Capability> {
    seq![
        Capability::RunCommand,
        Capability::RunScript,
        Capability::RunDetached,
        Capability::Screenshot,
        Capability::OpenApp,
        Capability::ProcDump,
        Capability::ListWindows,
        Capability::ActivateWindow,
        Capability::ListElements,
        Capability::FindElements,
        Capability::Click,
        Capability::TypeText,
        Capability::KeyChord,
        Capability::Mouse,
        Capability::SetValue,
        Capability::ReadElement,
        Capability::FocusElement,
        Capability::ClipboardGet,
        Capability::ClipboardSet,
        Capability::ListProcesses,
        Capability::KillProcess,
        Capability::Identity,
    ]
}

impl WindowsBackend {
    /// What the runner can do.
    pub fn capabilities(&self) -> (r: Vec<Capability>)
        ensures
            r@ == windows_surface(),
    {
        vec![
            Capability::RunCommand,
            Capability::RunScript,
            Capability::RunDetached,
            Capability::Screenshot,
            Capability::OpenApp,
            Capability::ProcDump,
            Capability::ListWindows,
            Capability::ActivateWindow,
            Capability::ListElements,
            Capability::FindElements,
            Capability::Click,
            Capability::TypeText,
            Capability::KeyChord,
            Capability::Mouse,
            Capability::SetValue,
            Capability::ReadElement,
            Capability::FocusElement,
            Capability::ClipboardGet,
            Capability::ClipboardSet,
            Capability::ListProcesses,
            Capability::KillProcess,
            Capability::Identity,
        ]
    }
}

/// A text with every single quote doubled.
pub open spec fn quoted(s: Seq<char>) -> Seq<char> {
    text::replaced(s, '\'', "''"@)
}

/// The part of a pipeline that keeps the processes whose name holds the filter.
pub open spec fn where_clause(filter: Option<Seq<char>>) -> Seq<char> {
    match filter {
        Some(p) => " | Where-Object { $_.ProcessName -like '*"@ + quoted(p) + "*' }"@,
        None => ""@,
    }
}

/// Writes the part of a pipeline that keeps the processes whose name holds the
/// filter.
pub fn ps_where(filter: Option<&str>) -> (r: String)
    ensures
        r@ == where_clause(
            match filter {
                Some(f) => Some(f@),
                None => None,
            },
        ),
{
    match filter {
        Some(p) => text::join3(
            " | Where-Object { $_.ProcessName -like '*",
            text::replace_char(p, '\'', "''").as_str(),
            "*' }",
        ),
        None => "".to_string(),
    }
}

/// The pipeline that lists processes, one line each: id, name, memory, and where
/// it is sampled, processor use.
pub open spec fn list_pipeline(filter: Option<Seq<char>>, with_cpu: bool) -> Seq<char> {
    let keep = where_clause(filter);
    if with_cpu {
        "$n=[Environment]::ProcessorCount; $a=@{}; Get-Process"@ + keep
            + " | ForEach-Object { $a[$_.Id]=$_.TotalProcessorTime.TotalMilliseconds }; Start-Sleep -Milliseconds 500; Get-Process"@
            + keep
            + " | ForEach-Object { $p=$a[$_.Id]; $c=if ($null -ne $p -and $_.TotalProcessorTime) { [math]::Round((($_.TotalProcessorTime.TotalMilliseconds-$p)/500/$n)*100,1) } else { 0 }; \"$($_.Id)`t$($_.ProcessName)`t$([int]($_.WS/1KB))`t$c\" }"@
    } else {
        "Get-Process"@ + keep
            + " | ForEach-Object { \"$($_.Id)`t$($_.ProcessName)`t$([int]($_.WS/1KB))\" }"@
    }
}

/// Writes the pipeline that lists processes.
pub fn list_processes(filter: Option<&str>, with_cpu: bool) -> (r: String)
    ensures
        r@ == list_pipeline(
            match filter {
                Some(f) => Some(f@),
                None => None,
            },
            with_cpu,
        ),
{
    let keep = ps_where(filter);
    if with_cpu {
        let mut s = text::join3(
            "$n=[Environment]::ProcessorCount; $a=@{}; Get-Process",
            keep.as_str(),
            " | ForEach-Object { $a[$_.Id]=$_.TotalProcessorTime.TotalMilliseconds }; Start-Sleep -Milliseconds 500; Get-Process",
        );
        s.append(keep.as_str());
        s.append(
            " | ForEach-Object { $p=$a[$_.Id]; $c=if ($null -ne $p -and $_.TotalProcessorTime) { [math]::Round((($_.TotalProcessorTime.TotalMilliseconds-$p)/500/$n)*100,1) } else { 0 }; \"$($_.Id)`t$($_.ProcessName)`t$([int]($_.WS/1KB))`t$c\" }",
        );
        s
    } else {
        text::join3(
            "Get-Process",
            keep.as_str(),
            " | ForEach-Object { \"$($_.Id)`t$($_.ProcessName)`t$([int]($_.WS/1KB))\" }",
        )
    }
}

/// A process name without its `.exe`.
pub open spec fn without_exe(name: Seq<char>) -> Seq<char> {
    if text::finishes(name, ".exe"@) {
        name.take(name.len() - ".exe"@.len())
    } else {
        name
    }
}

/// The pipeline that ends processes, by id where the target is all digits, else by
/// exact name. A dry run only lists them.
pub open spec fn kill_pipeline(target: Seq<char>, dry_run: bool) -> Seq<char> {
    (if number::all_digits(target) {
        "Get-Process -Id "@ + target + " -ErrorAction SilentlyContinue"@
    } else {
        "Get-Process -Name '"@ + quoted(without_exe(target)) + "' -ErrorAction SilentlyContinue"@
    }) + (if dry_run {
        ""@
    } else {
        " | Stop-Process -Force -PassThru"@
    }) + " | ForEach-Object { \"$($_.Id)`t$($_.ProcessName)\" }"@
}

/// Whether every character is a decimal digit.
pub fn only_digits(s: &[char]) -> (r: bool)
    ensures
        r == number::all_digits(s@),
{
    let mut i: usize = 0;
    while i < s.len()
        invariant
            i <= s@.len(),
            forall|k: int| 0 <= k < i ==> number::is_digit(#[trigger] s@[k]),
        decreases s@.len() - i,
    {
        if !('0' <= s[i] && s[i] <= '9') {
            assert(!number::is_digit(s@[i as int]));
            return false;
        }
        i = i + 1;
    }
    true
}

/// Writes the pipeline that ends processes.
pub fn kill_process(target: &str, dry_run: bool) -> (r: String)
    ensures
        r@ == kill_pipeline(target@, dry_run),
{
    let chars = text::chars_of(target);
    let mut s = if only_digits(chars.as_slice()) {
        text::join3("Get-Process -Id ", target, " -ErrorAction SilentlyContinue")
    } else {
        let suffix = text::chars_of(".exe");
        let name = if text::ends(chars.as_slice(), suffix.as_slice()) {
            let stem = text::slice_chars(chars.as_slice(), 0, chars.len() - suffix.len());
            assert(stem@ =~= without_exe(target@));
            text::string_of(stem.as_slice())
        } else {
            text::string_of(chars.as_slice())
        };
        text::join3(
            "Get-Process -Name '",
            text::replace_char(name.as_str(), '\'', "''").as_str(),
            "' -ErrorAction SilentlyContinue",
        )
    };
    s.append(
        if dry_run {
            ""
        } else {
            " | Stop-Process -Force -PassThru"
        },
    );
    s.append(" | ForEach-Object { \"$($_.Id)`t$($_.ProcessName)\" }");
    s
}

/// The script that reports who the runner is.
pub open spec fn identity_script() -> Seq<char> {
    "$id=[Security.Principal.WindowsIdentity]::GetCurrent(); $admin=([Security.Principal.WindowsPrincipal]$id).IsInRole([Security.Principal.WindowsBuiltinRole]::Administrator); $il=(whoami /groups /fo csv | ConvertFrom-Csv | Where-Object { $_.SID -like 'S-1-16-*' }).'Group Name'; Write-Output \"account`t$($id.Name)\"; Write-Output \"admin`t$admin\"; Write-Output \"integrity`t$il\"; Write-Output \"session`t$((Get-Process -Id $PID).SessionId)\""@
}

/// Writes the script that reports who the runner is.
pub fn identity_command() -> (r: String)
    ensures
        r@ == identity_script(),
{
    "$id=[Security.Principal.WindowsIdentity]::GetCurrent(); $admin=([Security.Principal.WindowsPrincipal]$id).IsInRole([Security.Principal.WindowsBuiltinRole]::Administrator); $il=(whoami /groups /fo csv | ConvertFrom-Csv | Where-Object { $_.SID -like 'S-1-16-*' }).'Group Name'; Write-Output \"account`t$($id.Name)\"; Write-Output \"admin`t$admin\"; Write-Output \"integrity`t$il\"; Write-Output \"session`t$((Get-Process -Id $PID).SessionId)\"".to_string()
}

/// Asks for a PowerShell run of at most half a minute.
pub fn run_ps(command: String) -> (r: Command)
    ensures
        r matches Command::RunCommand { shell, command: c, env, timeout_ms, stream } && shell
            == Shell::PowerShell && c == command && env@.len() == 0 && timeout_ms == Some(30_000u64)
            && !stream,
{
    Command::RunCommand {
        shell: Shell::PowerShell,
        command,
        env: Vec::new(),
        timeout_ms: Some(30_000),
        stream: false,
    }
}

/// The output of a run; any other reply comes back.
pub fn ps_output(reply: Reply) -> (r: Result<String, Reply>)
    ensures
        match r {
            Ok(text) => reply matches Reply::CommandOutput { stdout, .. } && text == stdout,
            Err(other) => !(reply is CommandOutput) && other == reply,
        },
{
    match reply {
        Reply::CommandOutput { stdout, .. } => Ok(stdout),
        other => Err(other),
    }
}

/// The trimmed halves of the lines that hold a tab.
pub open spec fn identity_pairs(lines: Seq<Seq<char>>) -> Seq<(Seq<char>, Seq<char>)>
    decreases lines.len(),
{
    if lines.len() == 0 {
        Seq::empty()
    } else {
        match text::split_once(lines.last(), '\t') {
            Some((k, v)) => identity_pairs(lines.drop_last()).push((text::trim(k), text::trim(v))),
            None => identity_pairs(lines.drop_last()),
        }
    }
}

/// Reads who the runner is: a label and a value per line. Other lines are skipped.
pub fn identity(stdout: &str) -> (out: Vec<(String, String)>)
    ensures
        pair_texts(out@) == identity_pairs(text::lines(stdout@)),
{
    let lines = text::lines_of(stdout);
    let ghost all = text::views(lines@);
    let mut out: Vec<(String, String)> = Vec::new();
    let mut i: usize = 0;
    assert(pair_texts(out@) =~= identity_pairs(all.take(0)));
    while i < lines.len()
        invariant
            i <= lines@.len(),
            all == text::views(lines@),
            pair_texts(out@) == identity_pairs(all.take(i as int)),
        decreases lines@.len() - i,
    {
        assert(all.take(i + 1).drop_last() =~= all.take(i as int));
        assert(all[i as int] == lines@[i as int]@);
        let ghost before = out@;
        if let Some((k, v)) = text::split_first(lines[i].as_slice(), '\t') {
            let key = text::string_of(text::trimmed(k.as_slice()).as_slice());
            let value = text::string_of(text::trimmed(v.as_slice()).as_slice());
            out.push((key, value));
            assert(pair_texts(out@) =~= pair_texts(before).push((key@, value@)));
        }
        i = i + 1;
    }
    assert(all.take(i as int) =~= all);
    out
}

/// A step of typing a text.
pub enum TypeStep {
    /// Put the text on the clipboard.
    SetClipboard(String),
    /// Give an element the keyboard focus.
    Focus(ElementId),
    /// Press a chord.
    Chord {
        /// Modifiers held down.
        modifiers: Vec<Modifier>,
        /// The main key.
        key: Key,
    },
    /// Type the text key by key.
    Keys(String),
}

/// The step that focuses the element, if there is one.
pub open spec fn focus_steps(into: Option<ElementId>) -> Seq<TypeStep> {
    match into {
        Some(element) => seq![TypeStep::Focus(element)],
        None => Seq::empty(),
    }
}

/// Whether the steps type the text into the element. Pasting goes through the
/// clipboard and control-v, which is faster for a long text; else keys are sent
/// once the element has the focus.
pub open spec fn types(steps: Seq<TypeStep>, text: String, into: Option<ElementId>, paste: bool) -> bool {
    let focus = focus_steps(into);
    if paste {
        &&& steps.len() == focus.len() + 2
        &&& steps[0] == TypeStep::SetClipboard(text)
        &&& steps.subrange(1, steps.len() - 1) == focus
        &&& steps.last() matches TypeStep::Chord { modifiers, key } && modifiers@
            == seq![Modifier::Ctrl] && key == Key::Char('v')
    } else {
        steps == focus.push(TypeStep::Keys(text))
    }
}

/// Plans how a text is typed.
pub fn type_text(text: String, into: Option<ElementId>, paste: bool) -> (steps: Vec<TypeStep>)
    ensures
        types(steps@, text, into, paste),
{
    let mut steps: Vec<TypeStep> = Vec::new();
    let ghost focus = focus_steps(into);
    if paste {
        steps.push(TypeStep::SetClipboard(text));
        if let Some(element) = into {
            steps.push(TypeStep::Focus(element));
        }
        steps.push(TypeStep::Chord { modifiers: vec![Modifier::Ctrl], key: Key::Char('v') });
        proof {
            assert(steps@.subrange(1, steps@.len() - 1) =~= focus);
            assert(steps@.last()->modifiers@ =~= seq![Modifier::Ctrl]);
        }
    } else {
        if let Some(element) = into {
            steps.push(TypeStep::Focus(element));
        }
        steps.push(TypeStep::Keys(text));
    }
    steps
}

/// A process as a line of output tells of it; the processor use is still a text.
pub struct ProcessLine {
    /// Process id.
    pub pid: u32,
    /// Executable name.
    pub name: String,
    /// Resident memory, if it is known.
    pub memory_kb: Option<u64>,
    /// Processor use, if the line has it.
    pub cpu: Option<String>,
}

/// The fields of a line that tells of a process.
pub struct LineFields {
    /// Process id.
    pub pid: nat,
    /// Executable name.
    pub name: Seq<char>,
    /// Resident memory, if it is known.
    pub memory_kb: Option<nat>,
    /// Processor use, if the line has it.
    pub cpu: Option<Seq<char>>,
}

/// What a tab-separated line tells: an id, a name, and optionally memory and
/// processor use. A line that does not begin with an id and a name tells nothing.
pub open spec fn line_fields(line: Seq<char>) -> Option<LineFields> {
    let f = text::split(line, '\t');
    if f.len() < 2 {
        None
    } else {
        match number::parsed(text::trim(f[0]), u32::MAX as nat) {
            None => None,
            Some(pid) => Some(
                LineFields {
                    pid,
                    name: text::trim(f[1]),
                    memory_kb: if f.len() > 2 {
                        number::parsed(text::trim(f[2]), u64::MAX as nat)
                    } else {
                        None
                    },
                    cpu: if f.len() > 3 {
                        Some(text::trim(f[3]))
                    } else {
                        None
                    },
                },
            ),
        }
    }
}

/// The fields of the lines that tell of a process, in order.
pub open spec fn fields_of(lines: Seq<Seq<char>>) -> Seq<LineFields>
    decreases lines.len(),
{
    if lines.len() == 0 {
        Seq::empty()
    } else {
        match line_fields(lines.last()) {
            Some(f) => fields_of(lines.drop_last()).push(f),
            None => fields_of(lines.drop_last()),
        }
    }
}

impl ProcessLine {
    /// The fields of the line.
    pub open spec fn fields(self) -> LineFields {
        LineFields {
            pid: self.pid as nat,
            name: self.name@,
            memory_kb: match self.memory_kb {
                Some(kb) => Some(kb as nat),
                None => None,
            },
            cpu: match self.cpu {
                Some(c) => Some(c@),
                None => None,
            },
        }
    }
}

/// Reads a line that tells of a process.
pub fn parse_line(line: &[char]) -> (r: Option<ProcessLine>)
    ensures
        match r {
            Some(p) => line_fields(line@) == Some(p.fields()),
            None => line_fields(line@) is None,
        },
{
    let f = text::split_on(line, '\t');
    let ghost all = text::split(line@, '\t');
    assert(all.len() == f@.len());
    assert(forall|i: int| 0 <= i < f@.len() ==> all[i] == (#[trigger] f@[i])@);
    if f.len() < 2 {
        return None;
    }
    let pid: u32 = match number::parse_unsigned(
        text::trimmed(f[0].as_slice()).as_slice(),
        u32::MAX as u64,
    ) {
        Some(n) => n as u32,
        None => {
            return None;
        },
    };
    let name = text::string_of(text::trimmed(f[1].as_slice()).as_slice());
    let memory_kb: Option<u64> = if f.len() > 2 {
        number::parse_unsigned(text::trimmed(f[2].as_slice()).as_slice(), u64::MAX)
    } else {
        None
    };
    let cpu = if f.len() > 3 {
        Some(text::string_of(text::trimmed(f[3].as_slice()).as_slice()))
    } else {
        None
    };
    Some(ProcessLine { pid, name, memory_kb, cpu })
}

/// The fields of processes.
pub open spec fn all_fields(list: Seq<ProcessLine>) -> Seq<LineFields> {
    list.map_values(|p: ProcessLine| p.fields())
}

/// Reads the lines of output that tell of a process, and skips the others.
pub fn parse_processes(stdout: &str) -> (out: Vec<ProcessLine>)
    ensures
        all_fields(out@) == fields_of(text::lines(stdout@)),
{
    let lines = text::lines_of(stdout);
    let ghost all = text::views(lines@);
    let mut out: Vec<ProcessLine> = Vec::new();
    let mut i: usize = 0;
    assert(all_fields(out@) =~= fields_of(all.take(0)));
    while i < lines.len()
        invariant
            i <= lines@.len(),
            all == text::views(lines@),
            all_fields(out@) == fields_of(all.take(i as int)),
        decreases lines@.len() - i,
    {
        assert(all.take(i + 1).drop_last() =~= all.take(i as int));
        assert(all[i as int] == lines@[i as int]@);
        let ghost before = out@;
        if let Some(p) = parse_line(lines[i].as_slice()) {
            out.push(p);
            assert(all_fields(out@) =~= all_fields(before).push(p.fields()));
        }
        i = i + 1;
    }
    assert(all.take(i as int) =~= all);
    out
}

/// Whether `info` is the process of that line with that processor use.
pub open spec fn completes(info: ProcessInfo, line: ProcessLine, cpu_bits: Option<u32>) -> bool {
    info.pid == line.pid && info.name == line.name && info.memory_kb == line.memory_kb
        && info.cpu_bits == cpu_bits
}

/// Puts the processor use of each process beside it.
pub fn with_cpu_bits(list: Vec<ProcessLine>, bits: &Vec<Option<u32>>) -> (out: Vec<ProcessInfo>)
    requires
        list@.len() == bits@.len(),
    ensures
        out@.len() == list@.len(),
        forall|i: int| 0 <= i < out@.len() ==> completes(#[trigger] out@[i], list@[i], bits@[i]),
{
    let ghost all = list@;
    let mut out: Vec<ProcessInfo> = Vec::new();
    for p in it: list
        invariant
            it.seq() == all,
            all.len() == bits@.len(),
            out@.len() == it.index(),
            forall|i: int| 0 <= i < out@.len() ==> completes(#[trigger] out@[i], all[i], bits@[i]),
    {
        let at: usize = out.len();
        out.push(
            ProcessInfo {
                pid: p.pid,
                name: p.name,
                memory_kb: p.memory_kb,
                cpu_bits: bits[at],
            },
        );
    }
    out
}

/// Whether the bits are those of a number, and not of "not a number".
pub open spec fn is_number(bits: u32) -> bool {
    bits <= 0x7f80_0000 || 0x8000_0000 <= bits <= 0xff80_0000
}

/// Where the number with these bits stands among the others: the larger the number
/// the larger the rank, and both zeros have rank zero.
pub open spec fn number_rank(bits: u32) -> int {
    if bits < 0x8000_0000 {
        bits as int
    } else {
        0x8000_0000 - bits
    }
}

/// Where a process stands: by processor use where it is sampled, else by memory. A
/// process of which that is not known stands below all others.
pub open spec fn rank(p: ProcessInfo, with_cpu: bool) -> int {
    if with_cpu {
        match p.cpu_bits {
            Some(bits) => number_rank(bits),
            None => -0x1_0000_0000,
        }
    } else {
        match p.memory_kb {
            Some(kb) => kb as int,
            None => -1,
        }
    }
}

/// The list with `p` put after every process of at least its rank.
pub open spec fn placed(list: Seq<ProcessInfo>, p: ProcessInfo, with_cpu: bool) -> Seq<ProcessInfo>
    decreases list.len(),
{
    if list.len() > 0 && rank(list.last(), with_cpu) < rank(p, with_cpu) {
        placed(list.drop_last(), p, with_cpu).push(list.last())
    } else {
        list.push(p)
    }
}

/// The list by falling rank; processes of one rank stay in their order.
pub open spec fn by_rank(list: Seq<ProcessInfo>, with_cpu: bool) -> Seq<ProcessInfo>
    decreases list.len(),
{
    if list.len() == 0 {
        list
    } else {
        placed(by_rank(list.drop_last(), with_cpu), list.last(), with_cpu)
    }
}

/// Where a process stands.
fn rank_of(p: &ProcessInfo, with_cpu: bool) -> (r: i128)
    ensures
        r == rank(*p, with_cpu),
{
    if with_cpu {
        match p.cpu_bits {
            Some(bits) => if bits < 0x8000_0000 {
                bits as i128
            } else {
                0x8000_0000 - bits as i128
            },
            None => -0x1_0000_0000,
        }
    } else {
        match p.memory_kb {
            Some(kb) => kb as i128,
            None => -1,
        }
    }
}

/// Puts a process in its place.
fn place(list: &mut Vec<ProcessInfo>, p: ProcessInfo, with_cpu: bool)
    ensures
        final(list)@ == placed(old(list)@, p, with_cpu),
{
    let ghost all = list@;
    let r: i128 = rank_of(&p, with_cpu);
    let mut at: usize = list.len();
    assert(all.take(at as int) =~= all);
    assert(all.skip(at as int) =~= Seq::<ProcessInfo>::empty());
    assert(placed(all, p, with_cpu) =~= placed(all.take(at as int), p, with_cpu) + all.skip(
        at as int,
    ));
    while at > 0 && rank_of(&list[at - 1], with_cpu) < r
        invariant
            list@ == all,
            at <= all.len(),
            r == rank(p, with_cpu),
            placed(all, p, with_cpu) == placed(all.take(at as int), p, with_cpu) + all.skip(
                at as int,
            ),
        decreases at,
    {
        proof {
            let front = all.take(at as int);
            assert(front.last() == all[at - 1]);
            assert(front.drop_last() =~= all.take(at - 1));
            assert(all.skip(at - 1) =~= seq![all[at - 1]] + all.skip(at as int));
            assert(placed(front, p, with_cpu) + all.skip(at as int) =~= placed(
                all.take(at - 1),
                p,
                with_cpu,
            ) + all.skip(at - 1));
        }
        at = at - 1;
    }
    proof {
        let front = all.take(at as int);
        if at > 0 {
            assert(front.last() == all[at - 1]);
        }
        assert(placed(front, p, with_cpu) == front.push(p));
        assert(all.insert(at as int, p) =~= front.push(p) + all.skip(at as int));
    }
    list.insert(at, p);
}

/// Sorts processes by falling processor use or memory. Processes that are level
/// stay in their order.
pub fn sort_processes(list: Vec<ProcessInfo>, with_cpu: bool) -> (out: Vec<ProcessInfo>)
    requires
        with_cpu ==> forall|i: int|
            0 <= i < list@.len() ==> ((#[trigger] list@[i]).cpu_bits matches Some(bits)
                ==> is_number(bits)),
    ensures
        out@ == by_rank(list@, with_cpu),
{
    let ghost all = list@;
    let mut out: Vec<ProcessInfo> = Vec::new();
    assert(out@ =~= by_rank(all.take(0), with_cpu));
    for p in it: list
        invariant
            it.seq() == all,
            out@ == by_rank(all.take(it.index()), with_cpu),
    {
        proof {
            assert(all.take(it.index() + 1).drop_last() =~= all.take(it.index()));
            assert(all.take(it.index() + 1).last() == p);
        }
        place(&mut out, p, with_cpu);
    }
    assert(all.take(all.len() as int) =~= all);
    out
}

/// Whether every processor use is a number, so that the processes can be sorted
/// by it.
pub fn can_sort(list: &Vec<ProcessInfo>) -> (r: bool)
    ensures
        r == forall|i: int|
            0 <= i < list@.len() ==> ((#[trigger] list@[i]).cpu_bits matches Some(bits)
                ==> is_number(bits)),
{
    let mut i: usize = 0;
    while i < list.len()
        invariant
            i <= list@.len(),
            forall|k: int|
                0 <= k < i ==> ((#[trigger] list@[k]).cpu_bits matches Some(bits) ==> is_number(
                    bits,
                )),
        decreases list@.len() - i,
    {
        if let Some(bits) = list[i].cpu_bits {
            if !(bits <= 0x7f80_0000 || (0x8000_0000 <= bits && bits <= 0xff80_0000)) {
                assert(list@[i as int].cpu_bits == Some(bits));
                return false;
            }
        }
        i = i + 1;
    }
    true
}

/// Whether no process stands below one of a smaller rank.
pub open spec fn falls(list: Seq<ProcessInfo>, with_cpu: bool) -> bool {
    forall|i: int, j: int|
        0 <= i <= j < list.len() ==> rank(#[trigger] list[j], with_cpu) <= rank(
            #[trigger] list[i],
            with_cpu,
        )
}

proof fn lemma_placed(list: Seq<ProcessInfo>, p: ProcessInfo, with_cpu: bool)
    requires
        falls(list, with_cpu),
    ensures
        falls(placed(list, p, with_cpu), with_cpu),
        placed(list, p, with_cpu).to_multiset() == list.to_multiset().insert(p),
    decreases list.len(),
{
    broadcast use vstd::seq_lib::group_to_multiset_ensures;

    if list.len() > 0 && rank(list.last(), with_cpu) < rank(p, with_cpu) {
        let front = list.drop_last();
        lemma_placed(front, p, with_cpu);
        let before = placed(front, p, with_cpu);
        let all = before.push(list.last());
        assert(front.push(list.last()) =~= list);
        assert(all.to_multiset() =~= list.to_multiset().insert(p));
        assert forall|i: int, j: int| 0 <= i <= j < all.len() implies rank(
            #[trigger] all[j],
            with_cpu,
        ) <= rank(#[trigger] all[i], with_cpu) by {
            lemma_placed_above(front, p, list.last(), with_cpu);
            if j == all.len() - 1 && i < j {
                assert(all[i] == before[i]);
            }
        }
    }
}

proof fn lemma_placed_above(list: Seq<ProcessInfo>, p: ProcessInfo, low: ProcessInfo, with_cpu: bool)
    requires
        rank(low, with_cpu) <= rank(p, with_cpu),
        forall|i: int|
            0 <= i < list.len() ==> rank(low, with_cpu) <= rank(#[trigger] list[i], with_cpu),
    ensures
        forall|i: int|
            0 <= i < placed(list, p, with_cpu).len() ==> rank(low, with_cpu) <= rank(
                #[trigger] placed(list, p, with_cpu)[i],
                with_cpu,
            ),
    decreases list.len(),
{
    if list.len() > 0 && rank(list.last(), with_cpu) < rank(p, with_cpu) {
        let front = list.drop_last();
        assert(forall|i: int| 0 <= i < front.len() ==> front[i] == list[i]);
        lemma_placed_above(front, p, low, with_cpu);
        let before = placed(front, p, with_cpu);
        assert(rank(low, with_cpu) <= rank(list[list.len() - 1], with_cpu));
        assert forall|i: int| 0 <= i < before.len() + 1 implies rank(low, with_cpu) <= rank(
            #[trigger] before.push(list.last())[i],
            with_cpu,
        ) by {
            if i < before.len() {
                assert(before.push(list.last())[i] == before[i]);
            }
        }
    } else {
        assert forall|i: int| 0 <= i < list.len() + 1 implies rank(low, with_cpu) <= rank(
            #[trigger] list.push(p)[i],
            with_cpu,
        ) by {
            if i < list.len() {
                assert(list.push(p)[i] == list[i]);
            }
        }
    }
}

/// Sorting loses no process, makes none up, and leaves none below one of a smaller
/// rank.
pub proof fn law_sort_orders(list: Seq<ProcessInfo>, with_cpu: bool)
    ensures
        falls(by_rank(list, with_cpu), with_cpu),
        by_rank(list, with_cpu).to_multiset() == list.to_multiset(),
    decreases list.len(),
{
    broadcast use vstd::seq_lib::group_to_multiset_ensures;

    if list.len() > 0 {
        law_sort_orders(list.drop_last(), with_cpu);
        lemma_placed(by_rank(list.drop_last(), with_cpu), list.last(), with_cpu);
        assert(list.drop_last().push(list.last()) =~= list);
    }
}

/// The Windows runner says that it can do all there is to ask for, but what every
/// runner does: files and tunnels.
pub proof fn law_windows_runner_can_do_all(
    backend: &WindowsBackend,
    r: Vec<Capability>,
    cap: Capability,
)
    requires
        call_ensures(WindowsBackend::capabilities, (backend,), r),
    ensures
        r@.contains(cap) <==> !(cap is ReadFile || cap is WriteFile || cap is HashFiles || cap
            is ListTree || cap is DeleteFile || cap is Forward || cap is Unknown),
{
    let all = r@;
    assert(all[0] is RunCommand && all[1] is RunScript && all[2] is RunDetached);
    assert(all[3] is Screenshot && all[4] is OpenApp && all[5] is ProcDump);
    assert(all[6] is ListWindows && all[7] is ActivateWindow && all[8] is ListElements);
    assert(all[9] is FindElements && all[10] is Click && all[11] is TypeText);
    assert(all[12] is KeyChord && all[13] is Mouse && all[14] is SetValue);
    assert(all[15] is ReadElement && all[16] is FocusElement && all[17] is ClipboardGet);
    assert(all[18] is ClipboardSet && all[19] is ListProcesses && all[20] is KillProcess);
    assert(all[21] is Identity);
}

/// Killing names the process by its number if the target is one, else by its name,
/// with or without `.exe`. A dry run selects the same processes and stops none.
pub proof fn law_kill_selects_processes(
    target: &str,
    named: &str,
    dry: String,
    wet: String,
    longer: String,
) -> (lead: Seq<char>)
    requires
        named@ == target@ + ".exe"@,
        kill_process.ensures((target, true), dry),
        kill_process.ensures((target, false), wet),
        kill_process.ensures((named, false), longer),
    ensures
        dry@ == lead + " | ForEach-Object { \"$($_.Id)`t$($_.ProcessName)\" }"@,
        wet@ == lead + " | Stop-Process -Force -PassThru"@
            + " | ForEach-Object { \"$($_.Id)`t$($_.ProcessName)\" }"@,
        (forall|i: int| 0 <= i < target@.len() ==> '0' <= #[trigger] target@[i] <= '9') ==> lead
            == "Get-Process -Id "@ + target@ + " -ErrorAction SilentlyContinue"@,
        (exists|i: int| 0 <= i < target@.len() && !('0' <= #[trigger] target@[i] <= '9'))
            && !text::finishes(target@, ".exe"@) ==> lead == "Get-Process -Name '"@
            + text::replaced(target@, '\'', "''"@) + "' -ErrorAction SilentlyContinue"@ && longer@
            == wet@,
{
    reveal_strlit("");
    reveal_strlit(".exe");
    let lead = if number::all_digits(target@) {
        "Get-Process -Id "@ + target@ + " -ErrorAction SilentlyContinue"@
    } else {
        "Get-Process -Name '"@ + quoted(without_exe(target@)) + "' -ErrorAction SilentlyContinue"@
    };
    assert(lead + ""@ =~= lead);
    if exists|i: int| 0 <= i < target@.len() && !('0' <= #[trigger] target@[i] <= '9') {
        let i = choose|i: int| 0 <= i < target@.len() && !('0' <= #[trigger] target@[i] <= '9');
        assert(!number::is_digit(target@[i]));
        assert(!number::is_digit(named@[i]));
        assert(named@.subrange(named@.len() - 4, named@.len() as int) =~= ".exe"@);
        assert(named@.take(named@.len() - 4) =~= target@);
    }
    lead
}

/// A line more in the output that tells who the runner is: its first tab parts a
/// label from a value, without the white space around either; a line without one
/// tells nothing.
pub proof fn law_identity_reads_line_by_line(
    stdout: &str,
    longer: &str,
    line: Seq<char>,
    key: Seq<char>,
    value: Seq<char>,
    r: Vec<(String, String)>,
    s: Vec<(String, String)>,
)
    requires
        identity.ensures((stdout,), r),
        identity.ensures((longer,), s),
        text::lines(longer@) == text::lines(stdout@).push(line),
    ensures
        !line.contains('\t') ==> pair_texts(s@) == pair_texts(r@),
        line == key + seq!['\t'] + value && !key.contains('\t') ==> pair_texts(s@) == pair_texts(
            r@,
        ).push((text::trim(key), text::trim(value))),
{
    let after = text::lines(longer@);
    assert(after.drop_last() =~= text::lines(stdout@));
    assert(after.last() == line);
    text::law_split_once_is_at_the_first(line, '\t');
    if line == key + seq!['\t'] + value && !key.contains('\t') {
        assert(line[key.len() as int] == '\t');
        assert(line.contains('\t'));
        let (k, v) = text::split_once(line, '\t')->0;
        assert(line[k.len() as int] == '\t');
        if k.len() < key.len() {
            assert(key[k.len() as int] == line[k.len() as int]);
        }
        if key.len() < k.len() {
            assert(k[key.len() as int] == line[key.len() as int]);
        }
        assert(k =~= line.take(key.len() as int));
        assert(key =~= line.take(key.len() as int));
        assert(v =~= line.skip(key.len() as int + 1));
        assert(value =~= line.skip(key.len() as int + 1));
    }
}

/// Whether a step presses control and `v`, and nothing else.
pub open spec fn is_paste(step: TypeStep) -> bool {
    step matches TypeStep::Chord { modifiers, key } && modifiers@ == seq![Modifier::Ctrl] && key
        == Key::Char('v')
}

/// The text is pasted by way of the clipboard if that is asked for, and typed key by
/// key if not; either way as it is, and after the element got the focus, if one is
/// named.
pub proof fn law_text_is_typed_or_pasted(
    text: String,
    into: Option<ElementId>,
    typed: Vec<TypeStep>,
    pasted: Vec<TypeStep>,
)
    requires
        type_text.ensures((text, into, false), typed),
        type_text.ensures((text, into, true), pasted),
    ensures
        into is None ==> typed@ == seq![TypeStep::Keys(text)],
        into matches Some(e) ==> typed@ == seq![TypeStep::Focus(e), TypeStep::Keys(text)],
        into is None ==> pasted@.len() == 2 && pasted@[0] == TypeStep::SetClipboard(text)
            && is_paste(pasted@[1]),
        into matches Some(e) ==> pasted@.len() == 3 && pasted@[0] == TypeStep::SetClipboard(text)
            && pasted@[1] == TypeStep::Focus(e) && is_paste(pasted@[2]),
{
    match into {
        Some(e) => {
            assert(typed@ =~= seq![TypeStep::Focus(e), TypeStep::Keys(text)]);
            assert(pasted@.subrange(1, 2)[0] == TypeStep::Focus(e));
            assert(pasted@.last() == pasted@[2]);
        },
        None => {
            assert(typed@ =~= seq![TypeStep::Keys(text)]);
            assert(pasted@.last() == pasted@[1]);
        },
    }
}

/// A line that tells of a process holds its number, its name, its memory and its
/// processor use, in that order and with tabs between, the last two if they are
/// known. Without a number there is no process.
pub proof fn law_process_line_fields(
    line: &[char],
    short: &[char],
    pid: &[char],
    name: Seq<char>,
    memory: &[char],
    cpu: Seq<char>,
    number: Option<u64>,
    kb: Option<u64>,
    r: Option<ProcessLine>,
    s: Option<ProcessLine>,
)
    requires
        !pid@.contains('\t') && !name.contains('\t') && !memory@.contains('\t') && !cpu.contains(
            '\t',
        ),
        text::trim(pid@) == pid@ && text::trim(memory@) == memory@,
        number::parse_unsigned.ensures((pid, u32::MAX as u64), number),
        number::parse_unsigned.ensures((memory, u64::MAX), kb),
        line@ == text::joined(seq![pid@, name, memory@, cpu], seq!['\t']),
        short@ == text::joined(seq![pid@, name], seq!['\t']),
        parse_line.ensures((line,), r),
        parse_line.ensures((short,), s),
    ensures
        r is Some <==> number is Some,
        s is Some <==> number is Some,
        r matches Some(p) ==> p.pid == number->0 && p.name@ == text::trim(name) && p.memory_kb == kb
            && (p.cpu matches Some(c) && c@ == text::trim(cpu)),
        s matches Some(p) ==> p.pid == number->0 && p.name@ == text::trim(name) && p.memory_kb
            is None && p.cpu is None,
{
    let four = seq![pid@, name, memory@, cpu];
    let two = seq![pid@, name];
    text::law_split_undoes_join(four, '\t');
    text::law_split_undoes_join(two, '\t');
    if let Some(p) = r {
        let f = p.fields();
        assert(f.pid == number->0 && f.name == text::trim(name));
        assert(f.cpu == Some(text::trim(cpu)));
    }
    if let Some(p) = s {
        let f = p.fields();
        assert(f.memory_kb is None && f.cpu is None);
    }
}

/// A line more of output tells of one process more, the last, or of none.
pub proof fn law_processes_are_read_line_by_line(
    stdout: &str,
    longer: &str,
    line: &[char],
    one: Option<ProcessLine>,
    r: Vec<ProcessLine>,
    s: Vec<ProcessLine>,
)
    requires
        text::lines(longer@) == text::lines(stdout@).push(line@),
        parse_line.ensures((line,), one),
        parse_processes.ensures((stdout,), r),
        parse_processes.ensures((longer,), s),
    ensures
        one is None ==> all_fields(s@) == all_fields(r@),
        one matches Some(p) ==> all_fields(s@) == all_fields(r@).push(p.fields()),
{
    let after = text::lines(longer@);
    assert(after.drop_last() =~= text::lines(stdout@));
    assert(after.last() == line@);
}

/// Sorting keeps every process, and puts those with more memory first, or, where it
/// was sampled, those with more processor use; where that is not known, last.
pub proof fn law_most_used_comes_first(
    list: Vec<ProcessInfo>,
    by_memory: Vec<ProcessInfo>,
    by_cpu: Vec<ProcessInfo>,
    i: int,
    j: int,
)
    requires
        sort_processes.ensures((list, false), by_memory),
        sort_processes.ensures((list, true), by_cpu),
        0 <= i < j < list@.len(),
    ensures
        by_memory@.to_multiset() == list@.to_multiset(),
        by_cpu@.to_multiset() == list@.to_multiset(),
        by_memory@.len() == list@.len() && by_cpu@.len() == list@.len(),
        by_memory@[j].memory_kb is Some ==> by_memory@[i].memory_kb is Some
            && by_memory@[i].memory_kb->0 >= by_memory@[j].memory_kb->0,
        by_cpu@[j].cpu_bits is Some ==> by_cpu@[i].cpu_bits is Some,
        by_cpu@[i].cpu_bits matches Some(a) ==> (by_cpu@[j].cpu_bits matches Some(b) ==> (b
            < 0x8000_0000 && b > 0 ==> a < 0x8000_0000 && a >= b)),
{
    broadcast use vstd::seq_lib::group_to_multiset_ensures;

    law_sort_orders(list@, false);
    law_sort_orders(list@, true);
    let (m, c) = (by_memory@, by_cpu@);
    assert(m.to_multiset().len() == list@.to_multiset().len());
    assert(c.to_multiset().len() == list@.to_multiset().len());
    assert(rank(m[j], false) <= rank(m[i], false));
    assert(rank(c[j], true) <= rank(c[i], true));
}

/// Processor use is put to each process in its place; nothing else of it changes.
pub proof fn law_usage_goes_to_its_process(
    list: Vec<ProcessLine>,
    bits: &Vec<Option<u32>>,
    out: Vec<ProcessInfo>,
    i: int,
)
    requires
        list@.len() == bits@.len(),
        with_cpu_bits.ensures((list, bits), out),
        0 <= i < list@.len(),
    ensures
        out@.len() == list@.len(),
        out@[i].pid == list@[i].pid,
        out@[i].name@ == list@[i].name@,
        out@[i].memory_kb == list@[i].memory_kb,
        out@[i].cpu_bits == bits@[i],
{
}

} // verus!
