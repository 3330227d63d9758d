//! Pushing, pulling and watching files: what is transferred, what is deleted,
//! and what is reported.

use vstd::prelude::*;

use crate::number;
use crate::proto::wire::{Command, FileHash, Reply, Shell};
use crate::sync;
use crate::text;

verus! {

/// Counters of a directory transfer.
#[derive(Debug, Clone, Copy, PartialEq, Eq, Structural)]
pub struct Stats {
    /// Files transferred.
    pub changed: u64,
    /// Files looked at.
    pub total: usize,
    /// Bytes transferred.
    pub bytes: u64,
    /// Files deleted.
    pub removed: u64,
}

/// A local file: its relative path and content hash.
pub struct LocalFile {
    /// Relative path with forward slashes.
    pub rel: String,
    /// Content hash.
    pub hash: String,
}

/// The hash that the runner reports for a path: the last report counts. Nothing
/// is known of a path that was not reported, or reported absent.
pub open spec fn reported(list: Seq<FileHash>, rel: Seq<char>) -> Option<Seq<char>>
    decreases list.len(),
{
    if list.len() == 0 {
        None
    } else if list.last().path@ == rel {
        match list.last().hash {
            Some(h) => Some(h@),
            None => None,
        }
    } else {
        reported(list.drop_last(), rel)
    }
}

/// Looks up the runner's hash of a path.
pub fn reported_hash(list: &Vec<FileHash>, rel: &str) -> (r: Option<String>)
    ensures
        match r {
            Some(h) => reported(list@, rel@) == Some(h@),
            None => reported(list@, rel@) is None,
        },
{
    let mut i: usize = list.len();
    assert(list@.take(i as int) =~= list@);
    while i > 0
        invariant
            i <= list@.len(),
            reported(list@, rel@) == reported(list@.take(i as int), rel@),
        decreases i,
    {
        assert(list@.take(i as int).last() == list@[i - 1]);
        assert(list@.take(i as int).drop_last() =~= list@.take(i - 1));
        if text::same(list[i - 1].path.as_str(), rel) {
            return match &list[i - 1].hash {
                Some(h) => Some(h.clone()),
                None => None,
            };
        }
        i = i - 1;
    }
    None
}

/// Whether a local file has to be pushed: always for a whole transfer, else
/// unless the runner has the same content.
pub open spec fn to_push(file: LocalFile, remote: Seq<FileHash>, whole: bool) -> bool {
    whole || reported(remote, file.rel@) != Some(file.hash@)
}

/// Decides for each local file whether it is pushed.
pub fn push_plan(files: &Vec<LocalFile>, remote: &Vec<FileHash>, whole: bool) -> (plan: Vec<bool>)
    ensures
        plan@.len() == files@.len(),
        forall|i: int|
            0 <= i < plan@.len() ==> #[trigger] plan@[i] == to_push(files@[i], remote@, whole),
{
    let mut plan: Vec<bool> = Vec::new();
    let mut i: usize = 0;
    while i < files.len()
        invariant
            i <= files@.len(),
            plan@.len() == i,
            forall|k: int|
                0 <= k < i ==> #[trigger] plan@[k] == to_push(files@[k], remote@, whole),
        decreases files@.len() - i,
    {
        let changed = if whole {
            true
        } else {
            match reported_hash(remote, files[i].rel.as_str()) {
                Some(h) => !text::same(h.as_str(), files[i].hash.as_str()),
                None => true,
            }
        };
        plan.push(changed);
        i = i + 1;
    }
    plan
}

/// Decides for each path of one side whether it is deleted in a mirror: it is
/// not among the paths of the other side.
pub fn prune(present: &Vec<String>, wanted: &Vec<String>) -> (plan: Vec<bool>)
    ensures
        plan@.len() == present@.len(),
        forall|i: int|
            0 <= i < plan@.len() ==> #[trigger] plan@[i] == !text::texts(wanted@).contains(
                present@[i]@,
            ),
{
    let mut plan: Vec<bool> = Vec::new();
    let mut i: usize = 0;
    while i < present.len()
        invariant
            i <= present@.len(),
            plan@.len() == i,
            forall|k: int|
                0 <= k < i ==> #[trigger] plan@[k] == !text::texts(wanted@).contains(
                    present@[k]@,
                ),
        decreases present@.len() - i,
    {
        plan.push(!listed(wanted, present[i].as_str()));
        i = i + 1;
    }
    plan
}

fn listed(list: &Vec<String>, item: &str) -> (r: bool)
    ensures
        r == text::texts(list@).contains(item@),
{
    let ghost all = text::texts(list@);
    let mut i: usize = 0;
    while i < list.len()
        invariant
            i <= list@.len(),
            all == text::texts(list@),
            forall|k: int| 0 <= k < i ==> #[trigger] all[k] != item@,
        decreases list@.len() - i,
    {
        assert(all[i as int] == list@[i as int]@);
        if text::same(list[i].as_str(), item) {
            return true;
        }
        i = i + 1;
    }
    false
}

/// How many entries of a plan are set.
pub open spec fn planned(plan: Seq<bool>) -> nat
    decreases plan.len(),
{
    if plan.len() == 0 {
        0
    } else {
        planned(plan.drop_last()) + (if plan.last() {
            1nat
        } else {
            0nat
        })
    }
}

proof fn lemma_planned_bound(plan: Seq<bool>)
    ensures
        planned(plan) <= plan.len(),
    decreases plan.len(),
{
    if plan.len() > 0 {
        lemma_planned_bound(plan.drop_last());
    }
}

/// Counts what a plan sets.
pub fn count_planned(plan: &Vec<bool>) -> (n: u64)
    ensures
        n == planned(plan@),
{
    let size: usize = plan.len();
    let mut n: u64 = 0;
    let mut i: usize = 0;
    while i < plan.len()
        invariant
            i <= plan@.len(),
            plan@.len() == size,
            n == planned(plan@.take(i as int)),
        decreases plan@.len() - i,
    {
        assert(plan@.take(i + 1).drop_last() =~= plan@.take(i as int));
        proof {
            lemma_planned_bound(plan@.take(i as int));
        }
        if plan[i] {
            n = n + 1;
        }
        i = i + 1;
    }
    assert(plan@.take(i as int) =~= plan@);
    n
}

/// A push whose files the runner already reports with the same hashes, each path
/// once, transfers nothing.
pub proof fn law_second_push_is_idle(files: Seq<LocalFile>, remote: Seq<FileHash>, i: int)
    requires
        remote.len() == files.len(),
        forall|k: int|
            0 <= k < files.len() ==> (#[trigger] remote[k]).path@ == files[k].rel@ && (
            remote[k].hash matches Some(h) && h@ == files[k].hash@),
        forall|j: int, k: int|
            0 <= j < k < files.len() ==> (#[trigger] files[j]).rel@ != (#[trigger] files[k]).rel@,
        0 <= i < files.len(),
    ensures
        !to_push(files[i], remote, false),
{
    lemma_reported(files, remote, i, files.len() as int);
    assert(remote.take(files.len() as int) =~= remote);
}

proof fn lemma_reported(files: Seq<LocalFile>, remote: Seq<FileHash>, i: int, n: int)
    requires
        remote.len() == files.len(),
        forall|k: int|
            0 <= k < files.len() ==> (#[trigger] remote[k]).path@ == files[k].rel@ && (
            remote[k].hash matches Some(h) && h@ == files[k].hash@),
        forall|j: int, k: int|
            0 <= j < k < files.len() ==> (#[trigger] files[j]).rel@ != (#[trigger] files[k]).rel@,
        0 <= i < n <= files.len(),
    ensures
        reported(remote.take(n), files[i].rel@) == Some(files[i].hash@),
    decreases n,
{
    let list = remote.take(n);
    assert(list.last() == remote[n - 1]);
    assert(list.drop_last() =~= remote.take(n - 1));
    if n - 1 == i {
        assert(remote[i].path@ == files[i].rel@);
    } else {
        assert(files[i].rel@ != files[n - 1].rel@);
        lemma_reported(files, remote, i, n - 1);
    }
}

/// One request of a file's transfer, and where the next one starts; none if it
/// was the last.
pub struct WriteStep {
    /// The request.
    pub command: Command,
    /// Where the next chunk starts.
    pub next: Option<usize>,
}

/// Makes the request that writes the chunk at `offset`. An empty file takes one
/// request, which creates it.
pub fn push_bytes(remote: &str, data: &[u8], offset: usize) -> (r: WriteStep)
    requires
        offset < data@.len() || (offset == 0 && data@.len() == 0),
    ensures
        r.command matches Command::WriteFile { path, contents, offset: at } && path@ == remote@
            && contents@ == sync::chunk_from(data@, offset as int) && at == offset,
        r.next == (if offset + sync::CHUNK < data@.len() {
            Some((offset + sync::CHUNK) as usize)
        } else {
            None
        }),
{
    let left: usize = data.len() - offset;
    let next: Option<usize> = if left > sync::CHUNK {
        Some(offset + sync::CHUNK)
    } else {
        None
    };
    WriteStep {
        command: Command::WriteFile {
            path: remote.to_owned(),
            contents: sync::cut_chunk(data, offset),
            offset: offset as u64,
        },
        next,
    }
}

/// The request that reads the chunk of a remote file at `offset`.
pub fn read_request(remote: &str, offset: u64) -> (r: Command)
    ensures
        r matches Command::ReadFile { path, offset: at, max_len } && path@ == remote@ && at
            == offset && max_len == sync::CHUNK,
{
    Command::ReadFile { path: remote.to_owned(), offset, max_len: sync::CHUNK as u64 }
}

/// What a reply to a chunked read means.
pub enum ReadStep {
    /// These bytes come next, and reading goes on at the offset.
    More(Vec<u8>, u64),
    /// These bytes were the last; the file has that many in all.
    End(Vec<u8>, u64),
    /// The reply does not fit.
    Unexpected(Reply),
}

/// Takes in the reply to a chunked read at `offset`: a short chunk is the last.
pub fn pull_to(offset: u64, reply: Reply) -> (r: ReadStep)
    requires
        reply matches Reply::FileContents(bytes) ==> offset + bytes@.len() <= u64::MAX,
    ensures
        r == (match reply {
            Reply::FileContents(bytes) => if bytes@.len() < sync::CHUNK {
                ReadStep::End(bytes, (offset + bytes@.len()) as u64)
            } else {
                ReadStep::More(bytes, (offset + bytes@.len()) as u64)
            },
            other => ReadStep::Unexpected(other),
        }),
{
    match reply {
        Reply::FileContents(bytes) => {
            let read: usize = bytes.len();
            let next: u64 = offset + read as u64;
            if read < sync::CHUNK {
                ReadStep::End(bytes, next)
            } else {
                ReadStep::More(bytes, next)
            }
        },
        other => ReadStep::Unexpected(other),
    }
}

/// Whether a remote file has to be pulled: always for a whole transfer, else
/// unless its hash is known and the local file has the same.
pub open spec fn to_pull(
    rel: Seq<char>,
    local_hash: Option<Seq<char>>,
    remote: Seq<FileHash>,
    whole: bool,
) -> bool {
    whole || reported(remote, rel) is None || local_hash != reported(remote, rel)
}

/// Decides whether a remote file is pulled.
pub fn needs_pull(rel: &str, local_hash: &Option<String>, remote: &Vec<FileHash>, whole: bool) -> (r:
    bool)
    ensures
        r == to_pull(
            rel@,
            match local_hash {
                Some(h) => Some(h@),
                None => None,
            },
            remote@,
            whole,
        ),
{
    if whole {
        return true;
    }
    match reported_hash(remote, rel) {
        Some(theirs) => match local_hash {
            Some(ours) => !text::same(ours.as_str(), theirs.as_str()),
            None => true,
        },
        None => true,
    }
}

/// The one-line summary of a directory transfer.
pub open spec fn summary(
    dry_run: bool,
    stats: Stats,
    delete: bool,
    src: Seq<char>,
    dst: Seq<char>,
) -> Seq<char> {
    (if dry_run {
        "would transfer"@
    } else {
        "transferred"@
    }) + " "@ + number::decimal(stats.changed as nat) + "/"@ + number::decimal(stats.total as nat)
        + " files ("@ + number::decimal(stats.bytes as nat) + " bytes)"@ + (if delete {
        ", "@ + number::decimal(stats.removed as nat) + " deleted"@
    } else {
        ""@
    }) + ": "@ + src + " -> "@ + dst
}

/// Writes the one-line summary of a directory transfer.
pub fn print_transfer_summary(
    dry_run: bool,
    stats: Stats,
    delete: bool,
    src: &str,
    dst: &str,
) -> (r: String)
    ensures
        r@ == summary(dry_run, stats, delete, src@, dst@),
{
    let mut out = text::join2(
        if dry_run {
            "would transfer"
        } else {
            "transferred"
        },
        " ",
    );
    out.append(number::decimal_text(stats.changed).as_str());
    out.append("/");
    out.append(number::decimal_text(stats.total as u64).as_str());
    out.append(" files (");
    out.append(number::decimal_text(stats.bytes).as_str());
    out.append(" bytes)");
    let deleted = if delete {
        text::join3(", ", number::decimal_text(stats.removed).as_str(), " deleted")
    } else {
        "".to_owned()
    };
    out.append(deleted.as_str());
    out.append(": ");
    out.append(src);
    out.append(" -> ");
    out.append(dst);
    assert(out@ =~= summary(dry_run, stats, delete, src@, dst@));
    out
}

/// What is said when one file was, or would be, pushed.
pub fn pushed_file(local: &str, bytes: usize, remote: &str, dry_run: bool) -> (r: String)
    ensures
        r@ == (if dry_run {
            "would push "@
        } else {
            "pushed "@
        }) + local@ + " ("@ + number::decimal(bytes as nat) + " bytes) -> "@ + remote@,
{
    let mut out = text::join3(
        if dry_run {
            "would push "
        } else {
            "pushed "
        },
        local,
        " (",
    );
    out.append(number::decimal_text(bytes as u64).as_str());
    out.append(" bytes) -> ");
    out.append(remote);
    out
}

/// The line for one file of a directory push.
pub fn pushed_entry(rel: &str, bytes: usize) -> (r: String)
    ensures
        r@ == "→ "@ + rel@ + " ("@ + number::decimal(bytes as nat) + " bytes)"@,
{
    let mut out = text::join3("→ ", rel, " (");
    out.append(number::decimal_text(bytes as u64).as_str());
    out.append(" bytes)");
    out
}

/// What woke a watch.
#[derive(Debug, Clone, Copy, PartialEq, Eq, Structural)]
pub enum WatchEvent {
    /// Something changed.
    Changed,
    /// Nothing changed for 300 milliseconds.
    Quiet,
    /// No more changes can come.
    Closed,
}

/// Where a watch stands.
#[derive(Debug, Clone, Copy, PartialEq, Eq, Structural)]
pub enum WatchState {
    /// Waiting for a change.
    Idle,
    /// A burst of changes is going on.
    Settling,
}

/// What a watch does next.
#[derive(Debug, Clone, Copy, PartialEq, Eq, Structural)]
pub enum WatchAction {
    /// Wait for a change.
    Wait,
    /// Wait for a change, for at most 300 milliseconds.
    WaitQuiet,
    /// Transfer what changed.
    Sync,
    /// Stop.
    Stop,
}

/// The transitions of a watch: changes are collected until it is quiet, and only
/// then is there a transfer.
pub open spec fn watched(state: WatchState, event: WatchEvent) -> (WatchState, WatchAction) {
    match (state, event) {
        (_, WatchEvent::Closed) => (WatchState::Idle, WatchAction::Stop),
        (_, WatchEvent::Changed) => (WatchState::Settling, WatchAction::WaitQuiet),
        (WatchState::Settling, WatchEvent::Quiet) => (WatchState::Idle, WatchAction::Sync),
        (WatchState::Idle, WatchEvent::Quiet) => (WatchState::Idle, WatchAction::Wait),
    }
}

/// Moves a watch on.
pub fn watch(state: WatchState, event: WatchEvent) -> (r: (WatchState, WatchAction))
    ensures
        r == watched(state, event),
{
    match (state, event) {
        (_, WatchEvent::Closed) => (WatchState::Idle, WatchAction::Stop),
        (_, WatchEvent::Changed) => (WatchState::Settling, WatchAction::WaitQuiet),
        (WatchState::Settling, WatchEvent::Quiet) => (WatchState::Idle, WatchAction::Sync),
        (WatchState::Idle, WatchEvent::Quiet) => (WatchState::Idle, WatchAction::Wait),
    }
}

/// A burst of changes, however long, is followed by exactly one transfer, once it
/// is quiet.
pub proof fn law_burst_syncs_once(state: WatchState, burst: Seq<WatchEvent>)
    requires
        burst.len() > 0,
        forall|i: int| 0 <= i < burst.len() ==> #[trigger] burst[i] == WatchEvent::Changed,
    ensures
        after_events(state, burst) == (WatchState::Settling, 0nat),
        after_events(state, burst.push(WatchEvent::Quiet)) == (WatchState::Idle, 1nat),
    decreases burst.len(),
{
    if burst.len() > 1 {
        law_burst_syncs_once(state, burst.drop_last());
    } else {
        assert(burst.drop_last() =~= Seq::<WatchEvent>::empty());
        assert(after_events(state, Seq::<WatchEvent>::empty()) == (state, 0nat));
    }
    assert(burst.last() == WatchEvent::Changed);
    assert(after_events(state, burst) == (WatchState::Settling, 0nat));
    let whole = burst.push(WatchEvent::Quiet);
    assert(whole.drop_last() =~= burst);
    assert(whole.last() == WatchEvent::Quiet);
    assert(after_events(state, whole) == (WatchState::Idle, 1nat));
}

/// The state after some events, and how many transfers they led to.
pub open spec fn after_events(state: WatchState, events: Seq<WatchEvent>) -> (WatchState, nat)
    decreases events.len(),
{
    if events.len() == 0 {
        (state, 0)
    } else {
        let (before, count) = after_events(state, events.drop_last());
        let (next, action) = watched(before, events.last());
        (
            next,
            if action == WatchAction::Sync {
                count + 1
            } else {
                count
            },
        )
    }
}

/// What follows a transfer of a watch.
#[derive(Debug, Clone, Copy, PartialEq, Eq, Structural)]
pub struct AfterSync {
    /// Report the transfer.
    pub report: bool,
    /// Run the hook.
    pub hook: bool,
}

/// Decides what follows a transfer: only one that moved something is reported,
/// and runs the hook if there is one.
pub fn after_sync(stats: Stats, has_hook: bool) -> (r: AfterSync)
    ensures
        r.report == (stats.changed > 0),
        r.hook == (stats.changed > 0 && has_hook),
{
    AfterSync { report: stats.changed > 0, hook: stats.changed > 0 && has_hook }
}

/// The request that runs the hook of a watch: no time limit, output streams.
pub fn run_on_change(cmd: &str) -> (r: Command)
    ensures
        r matches Command::RunCommand { shell, command, env, timeout_ms, stream } && shell
            == Shell::PowerShell && command@ == cmd@ && env@.len() == 0 && timeout_ms is None
            && stream,
{
    Command::RunCommand {
        shell: Shell::PowerShell,
        command: cmd.to_owned(),
        env: Vec::new(),
        timeout_ms: None,
        stream: true,
    }
}

/// What is said of a hook that ended: nothing if it succeeded.
pub fn hook_report(code: i32) -> (r: Option<String>)
    ensures
        match r {
            Some(line) => code != 0 && line@ == "arc: on-change exited "@ + number::signed(
                code as int,
            ),
            None => code == 0,
        },
{
    if code == 0 {
        None
    } else {
        Some(text::join2("arc: on-change exited ", number::signed_text(code).as_str()))
    }
}

/// The local file that a dump is saved to.
pub fn dump_file(pid: u32, out: Option<String>) -> (r: String)
    ensures
        match out {
            Some(path) => r == path,
            None => r@ == "procdump-"@ + number::decimal(pid as nat) + ".dmp"@,
        },
{
    match out {
        Some(path) => path,
        None => text::join3("procdump-", number::decimal_text(pid as u64).as_str(), ".dmp"),
    }
}

/// Of several reports of a path the last one counts; of a path that is not reported
/// nothing is known.
pub proof fn law_last_report_counts(list: &Vec<FileHash>, rel: &str, k: int, r: Option<String>)
    requires
        reported_hash.ensures((list, rel), r),
    ensures
        0 <= k < list@.len() && list@[k].path@ == rel@ && (forall|j: int|
            k < j < list@.len() ==> (#[trigger] list@[j]).path@ != rel@) ==> (
        match (r, list@[k].hash) {
            (Some(a), Some(b)) => a@ == b@,
            (None, None) => true,
            _ => false,
        }),
        (forall|j: int| 0 <= j < list@.len() ==> (#[trigger] list@[j]).path@ != rel@) ==> r is None,
{
    lemma_last_report(list@, rel@, k);
}

proof fn lemma_last_report(list: Seq<FileHash>, rel: Seq<char>, k: int)
    ensures
        0 <= k < list.len() && list[k].path@ == rel && (forall|j: int|
            k < j < list.len() ==> (#[trigger] list[j]).path@ != rel) ==> (
        match (reported(list, rel), list[k].hash) {
            (Some(a), Some(b)) => a == b@,
            (None, None) => true,
            _ => false,
        }),
        (forall|j: int| 0 <= j < list.len() ==> (#[trigger] list[j]).path@ != rel) ==> reported(
            list,
            rel,
        ) is None,
    decreases list.len(),
{
    if list.len() > 0 {
        let rest = list.drop_last();
        assert(list[list.len() - 1] == list.last());
        assert forall|j: int| 0 <= j < rest.len() implies #[trigger] rest[j] == list[j] by {}
        lemma_last_report(rest, rel, k);
    }
}

/// A mirror deletes exactly what the other side has nothing of the same name for.
pub proof fn law_prune_deletes_the_unwanted(
    present: &Vec<String>,
    wanted: &Vec<String>,
    plan: Vec<bool>,
    i: int,
    k: int,
)
    requires
        prune.ensures((present, wanted), plan),
        0 <= i < present@.len(),
    ensures
        plan@.len() == present@.len(),
        plan@[i] ==> (0 <= k < wanted@.len() ==> wanted@[k]@ != present@[i]@),
        !plan@[i] ==> exists|j: int|
            0 <= j < wanted@.len() && (#[trigger] wanted@[j])@ == present@[i]@,
{
    let names = text::texts(wanted@);
    if 0 <= k < wanted@.len() {
        assert(names[k] == wanted@[k]@);
    }
    if !plan@[i] {
        let j = choose|j: int| 0 <= j < names.len() && names[j] == present@[i]@;
        assert(wanted@[j]@ == present@[i]@);
    }
}

/// Counting a plan adds one for each entry that is set, and nothing else.
pub proof fn law_plan_count_adds_up(
    plan: &Vec<bool>,
    longer: &Vec<bool>,
    entry: bool,
    n: u64,
    m: u64,
)
    requires
        longer@ == plan@.push(entry),
        count_planned.ensures((plan,), n),
        count_planned.ensures((longer,), m),
    ensures
        plan@.len() == 0 ==> n == 0,
        entry ==> m == n + 1,
        !entry ==> m == n,
{
    assert(longer@.drop_last() =~= plan@);
}

/// The requests for a file's chunks follow each other without gap or overlap, carry
/// the file's bytes for their offsets, and end with the file.
pub proof fn law_chunk_requests_follow_each_other(
    remote: &str,
    data: &[u8],
    offset: usize,
    step: WriteStep,
)
    requires
        offset < data@.len() || (offset == 0 && data@.len() == 0),
        push_bytes.ensures((remote, data, offset), step),
    ensures
        step.command matches Command::WriteFile { path, contents, offset: at } && path@ == remote@
            && at == offset && (step.next matches Some(next) ==> next == offset + contents@.len()
            && next < data@.len() && contents@.len() > 0) && (step.next is None ==> offset
            + contents@.len() == data@.len()) && forall|i: int|
            0 <= i < contents@.len() ==> #[trigger] contents@[i] == data@[offset + i],
{
    assert(data.len() == data@.len());
}

/// A chunk that is as long as was asked for is followed by another read, where it
/// ended; a shorter one ends the file. Only a reply of another kind does not fit.
pub proof fn law_short_chunk_ends_the_file(
    remote: &str,
    offset: u64,
    request: Command,
    reply: Reply,
    r: ReadStep,
)
    requires
        read_request.ensures((remote, offset), request),
        reply matches Reply::FileContents(bytes) ==> offset + bytes@.len() <= u64::MAX,
        pull_to.ensures((offset, reply), r),
    ensures
        request matches Command::ReadFile { path, offset: at, max_len } && path@ == remote@ && at
            == offset && max_len > 0 && match (reply, r) {
            (Reply::FileContents(bytes), ReadStep::More(b, next)) => b == bytes && next == offset
                + bytes@.len() && bytes@.len() >= max_len,
            (Reply::FileContents(bytes), ReadStep::End(b, end)) => b == bytes && end == offset
                + bytes@.len() && bytes@.len() < max_len,
            (other, ReadStep::Unexpected(o)) => !(other is FileContents) && o == other,
            _ => false,
        },
{
}

/// A file is not pulled exactly if there is a local one with the hash that the
/// runner reports, and not everything is asked for.
pub proof fn law_pull_spares_the_same(
    rel: &str,
    ours: &Option<String>,
    remote: &Vec<FileHash>,
    whole: bool,
    theirs: Option<String>,
    r: bool,
)
    requires
        reported_hash.ensures((remote, rel), theirs),
        needs_pull.ensures((rel, ours, remote, whole), r),
    ensures
        r <==> whole || !(theirs matches Some(t) && (ours matches Some(o) && o@ == t@)),
{
}

/// A watch stops exactly when no more changes can come, transfers exactly when a
/// burst of changes falls quiet, and waits for quiet exactly after a change.
pub proof fn law_watch_syncs_when_quiet(
    state: WatchState,
    event: WatchEvent,
    r: (WatchState, WatchAction),
)
    requires
        watch.ensures((state, event), r),
    ensures
        r.1 == WatchAction::Stop <==> event == WatchEvent::Closed,
        r.1 == WatchAction::Sync <==> state == WatchState::Settling && event == WatchEvent::Quiet,
        r.1 == WatchAction::WaitQuiet <==> event == WatchEvent::Changed,
        r.0 == WatchState::Settling <==> event == WatchEvent::Changed,
{
}

/// A transfer that moved nothing is passed over in silence; any other is reported,
/// whatever else it counted, and runs the hook that there is.
pub proof fn law_idle_sync_is_silent(stats: Stats, has_hook: bool, r: AfterSync)
    requires
        after_sync.ensures((stats, has_hook), r),
    ensures
        stats.changed == 0 ==> !r.report && !r.hook,
        stats.changed != 0 ==> r.report && r.hook == has_hook,
{
}

/// A push sends a file if it is to send all, or if the runner did not report the
/// same content for its path; of several reports the last counts.
pub proof fn law_only_what_differs_is_pushed(
    files: &Vec<LocalFile>,
    remote: &Vec<FileHash>,
    whole: bool,
    plan: Vec<bool>,
    i: int,
    k: int,
)
    requires
        push_plan.ensures((files, remote, whole), plan),
        0 <= i < files@.len(),
    ensures
        plan@.len() == files@.len(),
        whole ==> plan@[i],
        (forall|j: int| 0 <= j < remote@.len() ==> (#[trigger] remote@[j]).path@ != files@[i].rel@)
            ==> plan@[i],
        !whole && 0 <= k < remote@.len() && remote@[k].path@ == files@[i].rel@ && (forall|j: int|
            k < j < remote@.len() ==> (#[trigger] remote@[j]).path@ != files@[i].rel@) ==> (plan@[i]
            <==> !(remote@[k].hash matches Some(h) && h@ == files@[i].hash@)),
{
    lemma_last_report(remote@, files@[i].rel@, k);
}

/// The summary tells how many of the files were transferred, how many bytes, how many
/// were deleted if that was asked for, and from where to where.
pub proof fn law_summary_tells_the_counts(
    dry_run: bool,
    stats: Stats,
    delete: bool,
    src: &str,
    dst: &str,
    r: String,
)
    requires
        print_transfer_summary.ensures((dry_run, stats, delete, src, dst), r),
    ensures
        ({
            let counts = number::decimal(stats.changed as nat) + "/"@ + number::decimal(
                stats.total as nat,
            ) + " files ("@ + number::decimal(stats.bytes as nat) + " bytes)"@;
            let way = ": "@ + src@ + " -> "@ + dst@;
            &&& !dry_run && !delete ==> r@ == "transferred "@ + counts + way
            &&& dry_run && !delete ==> r@ == "would transfer "@ + counts + way
            &&& !dry_run && delete ==> r@ == "transferred "@ + counts + ", "@ + number::decimal(
                stats.removed as nat,
            ) + " deleted"@ + way
        }),
{
    reveal_strlit("transferred ");
    reveal_strlit("transferred");
    reveal_strlit("would transfer ");
    reveal_strlit("would transfer");
    reveal_strlit(" ");
    reveal_strlit("");
    assert("transferred "@ =~= "transferred"@ + " "@);
    assert("would transfer "@ =~= "would transfer"@ + " "@);
    let counts = number::decimal(stats.changed as nat) + "/"@ + number::decimal(stats.total as nat)
        + " files ("@ + number::decimal(stats.bytes as nat) + " bytes)"@;
    let way = ": "@ + src@ + " -> "@ + dst@;
    if !dry_run && !delete {
        assert(r@ =~= "transferred "@ + counts + way);
    }
    if dry_run && !delete {
        assert(r@ =~= "would transfer "@ + counts + way);
    }
    if !dry_run && delete {
        assert(r@ =~= "transferred "@ + counts + ", "@ + number::decimal(stats.removed as nat)
            + " deleted"@ + way);
    }
}

/// The command to run after a change is run as it was given, with its output as it
/// comes; how it ended is told only if it failed.
pub proof fn law_hook_runs_as_given(cmd: &str, c: Command, code: i32, r: Option<String>)
    requires
        run_on_change.ensures((cmd,), c),
        hook_report.ensures((code,), r),
    ensures
        c matches Command::RunCommand { shell, command, env, timeout_ms, stream } && command@ == cmd@
            && shell == Shell::PowerShell && stream && timeout_ms is None,
        r is Some <==> code != 0,
{
}

} // verus!
