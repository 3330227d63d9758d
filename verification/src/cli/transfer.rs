//! Directory transfers as conversations: what is asked of the runner and of the
//! local file system next, once the answer to the last question is there.

use vstd::prelude::*;

use crate::cli::files::{self, LocalFile, ReadStep, Stats};
use crate::number;
use crate::proto::wire::{Command, FileHash, Reply};
use crate::sync;
use crate::text;

verus! {

/// How a transfer is done.
#[derive(Debug, Clone, Copy, PartialEq, Eq, Structural)]
pub struct Options {
    /// Delete what the source does not have.
    pub delete: bool,
    /// Only say what would be done.
    pub dry_run: bool,
    /// Transfer every file, whatever its content.
    pub whole: bool,
    /// Walk build directories too.
    pub all: bool,
}

/// The first place from `at` on where a plan is set; the plan's length if there
/// is none.
pub open spec fn next_set(plan: Seq<bool>, at: int) -> int
    decreases plan.len() - at,
{
    if at >= plan.len() {
        plan.len() as int
    } else if plan[at] {
        at
    } else {
        next_set(plan, at + 1)
    }
}

/// Looks for the next place where a plan is set.
fn seek(plan: &Vec<bool>, at: usize) -> (n: usize)
    requires
        at <= plan@.len(),
    ensures
        n == next_set(plan@, at as int),
        at <= n <= plan@.len(),
        n < plan@.len() ==> plan@[n as int],
{
    let mut n: usize = at;
    while n < plan.len() && !plan[n]
        invariant
            at <= n <= plan@.len(),
            next_set(plan@, at as int) == next_set(plan@, n as int),
        decreases plan@.len() - n,
    {
        n = n + 1;
    }
    n
}

fn following(plan: &Vec<bool>, at: usize) -> (n: usize)
    requires
        at < plan@.len(),
    ensures
        n == at + 1,
{
    let size: usize = plan.len();
    assert(at < size);
    at + 1
}

/// The places that are come by when each is followed by the next that is set.
pub open spec fn visited(plan: Seq<bool>, from: int) -> Seq<int>
    decreases plan.len() - from,
{
    let n = next_set(plan, from);
    if from <= n < plan.len() {
        seq![n] + visited(plan, n + 1)
    } else {
        Seq::empty()
    }
}

proof fn lemma_next_set(plan: Seq<bool>, at: int)
    requires
        0 <= at <= plan.len(),
    ensures
        at <= next_set(plan, at) <= plan.len(),
        next_set(plan, at) < plan.len() ==> plan[next_set(plan, at)],
        forall|k: int| at <= k < next_set(plan, at) ==> !#[trigger] plan[k],
    decreases plan.len() - at,
{
    if at < plan.len() && !plan[at] {
        lemma_next_set(plan, at + 1);
    }
}

proof fn lemma_visited(plan: Seq<bool>, from: int, i: int)
    requires
        0 <= from <= plan.len(),
        0 <= i < plan.len(),
    ensures
        visited(plan, from).contains(i) == (from <= i && plan[i]),
    decreases plan.len() - from,
{
    lemma_next_set(plan, from);
    let n = next_set(plan, from);
    if n < plan.len() {
        let rest = visited(plan, n + 1);
        let whole = seq![n] + rest;
        lemma_visited(plan, n + 1, i);
        if i == n {
            assert(whole[0] == i);
        }
        if rest.contains(i) {
            let k = choose|k: int| 0 <= k < rest.len() && rest[k] == i;
            assert(whole[k + 1] == i);
        }
        if whole.contains(i) && i != n {
            let k = choose|k: int| 0 <= k < whole.len() && whole[k] == i;
            assert(rest[k - 1] == i);
        }
    }
}

/// A transfer that goes on from each planned file to the next comes by every
/// planned file, and by no other.
pub proof fn law_every_planned_file_is_visited(plan: Seq<bool>, i: int)
    requires
        0 <= i < plan.len(),
    ensures
        visited(plan, 0).contains(i) == plan[i],
{
    lemma_visited(plan, 0, i);
}

/// The lines for the entries that a plan sets: a mark, then the name.
pub open spec fn marked(names: Seq<Seq<char>>, plan: Seq<bool>, mark: Seq<char>) -> Seq<Seq<char>>
    decreases plan.len(),
{
    if plan.len() == 0 {
        Seq::empty()
    } else {
        let before = marked(names, plan.drop_last(), mark);
        if plan.last() {
            before.push(mark + names[plan.len() - 1])
        } else {
            before
        }
    }
}

/// Writes a line for each entry that a plan sets.
fn mark_all(names: &Vec<String>, plan: &Vec<bool>, mark: &str) -> (out: Vec<String>)
    requires
        names@.len() == plan@.len(),
    ensures
        text::texts(out@) == marked(text::texts(names@), plan@, mark@),
{
    let ghost all = text::texts(names@);
    let mut out: Vec<String> = Vec::new();
    let mut i: usize = 0;
    assert(text::texts(out@) =~= marked(all, plan@.take(0), mark@));
    while i < plan.len()
        invariant
            i <= plan@.len(),
            names@.len() == plan@.len(),
            all == text::texts(names@),
            text::texts(out@) == marked(all, plan@.take(i as int), mark@),
        decreases plan@.len() - i,
    {
        assert(plan@.take(i + 1).drop_last() =~= plan@.take(i as int));
        let ghost before = text::texts(out@);
        if plan[i] {
            out.push(text::join2(mark, names[i].as_str()));
            assert(text::texts(out@) =~= before.push(mark@ + all[i as int]));
        }
        i = i + 1;
    }
    assert(plan@.take(i as int) =~= plan@);
    out
}

/// The relative paths of the local files.
pub open spec fn rels(files: Seq<LocalFile>) -> Seq<Seq<char>> {
    files.map_values(|f: LocalFile| f.rel@)
}

fn rels_of(files: &Vec<LocalFile>) -> (out: Vec<String>)
    ensures
        out@.len() == files@.len(),
        text::texts(out@) == rels(files@),
{
    let mut out: Vec<String> = Vec::new();
    let mut i: usize = 0;
    while i < files.len()
        invariant
            i <= files@.len(),
            out@.len() == i,
            text::texts(out@) == rels(files@.take(i as int)),
        decreases files@.len() - i,
    {
        let ghost before = text::texts(out@);
        out.push(files[i].rel.clone());
        assert(text::texts(out@) =~= before.push(files@[i as int].rel@));
        assert(rels(files@.take(i + 1)) =~= rels(files@.take(i as int)).push(
            files@[i as int].rel@,
        ));
        i = i + 1;
    }
    assert(files@.take(i as int) =~= files@);
    out
}

fn only(line: String) -> (out: Vec<String>)
    ensures
        text::texts(out@) == seq![line@],
{
    let out: Vec<String> = vec![line];
    assert(text::texts(out@) =~= seq![line@]);
    out
}

fn nothing() -> (out: Vec<String>)
    ensures
        text::texts(out@) == Seq::<Seq<char>>::empty(),
{
    let out: Vec<String> = Vec::new();
    assert(text::texts(out@) =~= Seq::<Seq<char>>::empty());
    out
}

/// Where the push of a directory stands.
pub enum PushPhase {
    /// It waits for the hashes on the runner.
    Hashing,
    /// It waits for the content of this local file.
    Reading(usize),
    /// It waits for the acknowledgement of a chunk.
    Writing {
        /// The local file.
        at: usize,
        /// Its content.
        data: Vec<u8>,
        /// Where its next chunk starts; none if the last one was sent.
        next: Option<usize>,
    },
    /// It waits for the list of files on the runner.
    Listing,
    /// It waits for the acknowledgement of a deletion.
    Deleting {
        /// The files on the runner.
        present: Vec<String>,
        /// Which of them are deleted.
        doomed: Vec<bool>,
        /// The one that is being deleted.
        at: usize,
    },
    /// There is nothing left to do.
    Over,
}

/// The push of a directory.
pub struct PushTree {
    /// The directory on the runner.
    pub remote: String,
    /// How it is done.
    pub options: Options,
    /// The local files.
    pub files: Vec<LocalFile>,
    /// Which of them are pushed; empty until that is known.
    pub plan: Vec<bool>,
    /// Bytes pushed so far.
    pub bytes: u64,
    /// Where it stands.
    pub phase: PushPhase,
}

/// What a push waited for.
pub enum PushEvent {
    /// The runner's reply.
    Answer(Reply),
    /// The content of a local file.
    Data(Vec<u8>),
}

/// What a push needs next.
pub enum PushAction {
    /// Send this request, and hand on the reply.
    Request(Command),
    /// Read this local file, and hand on its content.
    Read(usize),
    /// The push is done.
    Done(Stats),
    /// The push failed: the reply does not fit.
    Unexpected(Reply),
    /// The push failed: the request was not acknowledged.
    Refused(Reply),
}

/// One turn of a push: first the lines are shown, then the action is taken.
pub struct PushTurn {
    /// The push after the turn.
    pub state: PushTree,
    /// What is shown.
    pub lines: Vec<String>,
    /// What is done.
    pub action: PushAction,
}

impl PushTree {
    /// What a push relies on from turn to turn.
    pub open spec fn well_formed(self) -> bool {
        match self.phase {
            PushPhase::Hashing => !self.options.whole,
            PushPhase::Reading(at) => self.planned() && !self.options.dry_run && at
                < self.plan@.len() && self.plan@[at as int],
            PushPhase::Writing { at, data, next } => self.planned() && !self.options.dry_run && at
                < self.plan@.len() && self.plan@[at as int] && self.bytes + data@.len() <= u64::MAX
                && (next matches Some(offset) ==> offset < data@.len()),
            PushPhase::Listing => self.planned() && self.options.delete,
            PushPhase::Deleting { present, doomed, at } => self.planned() && self.options.delete
                && !self.options.dry_run && self.dooms(present@, doomed@) && at < doomed@.len()
                && doomed@[at as int],
            PushPhase::Over => true,
        }
    }

    /// Each local file has its place in the plan.
    pub open spec fn planned(self) -> bool {
        self.plan@.len() == self.files@.len()
    }

    /// The plan is to push what the runner does not report with the same hash.
    pub open spec fn plans(self, known: Seq<FileHash>) -> bool {
        self.planned() && forall|i: int|
            0 <= i < self.files@.len() ==> #[trigger] self.plan@[i] == files::to_push(
                self.files@[i],
                known,
                self.options.whole,
            )
    }

    /// What is deleted on the runner is what is not among the local files.
    pub open spec fn dooms(self, present: Seq<String>, doomed: Seq<bool>) -> bool {
        present.len() == doomed.len() && forall|i: int|
            0 <= i < doomed.len() ==> #[trigger] doomed[i] == !rels(self.files@).contains(
                present[i]@,
            )
    }

    /// Whether an event is the one that the push waits for.
    pub open spec fn awaits(self, event: PushEvent) -> bool {
        match self.phase {
            PushPhase::Reading(_) => event matches PushEvent::Data(data) && self.bytes + data@.len()
                <= u64::MAX,
            PushPhase::Over => false,
            _ => event is Answer,
        }
    }

    /// The counters at the end.
    pub open spec fn stats(self, removed: nat) -> Stats {
        Stats {
            changed: files::planned(self.plan@) as u64,
            total: self.files@.len() as usize,
            bytes: self.bytes,
            removed: removed as u64,
        }
    }

    /// `other` is the same push, as far as what is pushed where and how.
    pub open spec fn same_task(self, other: PushTree) -> bool {
        self.remote == other.remote && self.options == other.options && self.files == other.files
    }
}

impl PushTurn {
    /// All files are pushed: what is left is to look for files to delete, if asked
    /// for.
    pub open spec fn after_files(self) -> bool {
        let s = self.state;
        if s.options.delete {
            s.phase is Listing && (self.action matches PushAction::Request(
                Command::ListTree { root, all },
            ) && root@ == s.remote@ && all == s.options.all)
        } else {
            s.phase is Over && self.action == PushAction::Done(s.stats(0))
        }
    }

    /// The push goes on with the next planned file from `from` on.
    pub open spec fn from_file(self, from: int) -> bool {
        let s = self.state;
        let n = next_set(s.plan@, from);
        if !s.options.dry_run && n < s.plan@.len() {
            s.phase == PushPhase::Reading(n as usize) && self.action == PushAction::Read(n as usize)
        } else {
            self.after_files()
        }
    }

    /// The plan is made: a dry run lists it, any other starts with it.
    pub open spec fn first_file(self) -> bool {
        let s = self.state;
        self.from_file(0) && text::texts(self.lines@) == (if s.options.dry_run {
            marked(rels(s.files@), s.plan@, "would push "@)
        } else {
            Seq::empty()
        })
    }

    /// The chunk of a file that starts at `offset` is sent.
    pub open spec fn writes(self, at: usize, data: Seq<u8>, offset: int) -> bool {
        let s = self.state;
        &&& s.phase matches PushPhase::Writing { at: file, data: content, next } && file == at
            && content@ == data && next == (if offset + sync::CHUNK < data.len() {
            Some((offset + sync::CHUNK) as usize)
        } else {
            None
        })
        &&& self.action matches PushAction::Request(Command::WriteFile { path, contents, offset: o })
            && path@ == sync::below(s.remote@, s.files@[at as int].rel@) && contents@
            == sync::chunk_from(data, offset) && o == offset
        &&& text::texts(self.lines@) == Seq::<Seq<char>>::empty()
    }

    /// The deletions go on with the next doomed file from `from` on.
    pub open spec fn from_deletion(self, present: Seq<String>, doomed: Seq<bool>, from: int) -> bool {
        let s = self.state;
        let n = next_set(doomed, from);
        if !s.options.dry_run && n < doomed.len() {
            &&& s.phase matches PushPhase::Deleting { present: p, doomed: d, at } && p@ == present
                && d@ == doomed && at == n
            &&& self.action matches PushAction::Request(Command::DeleteFile { path }) && path@
                == sync::below(s.remote@, present[n]@)
        } else {
            s.phase is Over && self.action == PushAction::Done(s.stats(files::planned(doomed)))
        }
    }

    /// The list of files on the runner is there.
    pub open spec fn first_deletion(self, present: Seq<String>, doomed: Seq<bool>) -> bool {
        self.from_deletion(present, doomed, 0) && text::texts(self.lines@) == (
        if self.state.options.dry_run {
            marked(text::texts(present), doomed, "would delete "@)
        } else {
            Seq::empty()
        })
    }

    /// The push stops here, without a word.
    pub open spec fn stops(self, action: PushAction) -> bool {
        self.state.phase is Over && self.action == action && text::texts(self.lines@) == Seq::<
            Seq<char>,
        >::empty()
    }
}

fn push_after_files(push: PushTree, lines: Vec<String>) -> (turn: PushTurn)
    requires
        push.planned(),
    ensures
        turn.state.well_formed(),
        turn.state.same_task(push),
        turn.state.plan == push.plan,
        turn.state.bytes == push.bytes,
        turn.lines == lines,
        turn.after_files(),
{
    if push.options.delete {
        let command = Command::ListTree { root: push.remote.clone(), all: push.options.all };
        PushTurn {
            state: PushTree { phase: PushPhase::Listing, ..push },
            lines,
            action: PushAction::Request(command),
        }
    } else {
        let stats = push_stats(&push, 0);
        PushTurn {
            state: PushTree { phase: PushPhase::Over, ..push },
            lines,
            action: PushAction::Done(stats),
        }
    }
}

fn push_stats(push: &PushTree, removed: u64) -> (stats: Stats)
    ensures
        stats == push.stats(removed as nat),
{
    Stats {
        changed: files::count_planned(&push.plan),
        total: push.files.len(),
        bytes: push.bytes,
        removed,
    }
}

fn push_from(push: PushTree, from: usize, lines: Vec<String>) -> (turn: PushTurn)
    requires
        push.planned(),
        from <= push.plan@.len(),
    ensures
        turn.state.well_formed(),
        turn.state.same_task(push),
        turn.state.plan == push.plan,
        turn.state.bytes == push.bytes,
        turn.lines == lines,
        turn.from_file(from as int),
{
    let n: usize = seek(&push.plan, from);
    if !push.options.dry_run && n < push.plan.len() {
        PushTurn {
            state: PushTree { phase: PushPhase::Reading(n), ..push },
            lines,
            action: PushAction::Read(n),
        }
    } else {
        push_after_files(push, lines)
    }
}

fn push_planned(push: PushTree, known: &Vec<FileHash>) -> (turn: PushTurn)
    ensures
        turn.state.well_formed(),
        turn.state.same_task(push),
        turn.state.bytes == push.bytes,
        turn.state.plans(known@),
        turn.first_file(),
{
    let plan = files::push_plan(&push.files, known, push.options.whole);
    let ready = PushTree { plan, ..push };
    let lines = if ready.options.dry_run {
        mark_all(&rels_of(&ready.files), &ready.plan, "would push ")
    } else {
        nothing()
    };
    push_from(ready, 0, lines)
}

/// Starts the push of a directory. Without files nothing is pushed, and what is left
/// is to look for files to delete, if asked for. Only a push of every file does
/// without the hashes on the runner.
pub fn start_push(remote: String, files: Vec<LocalFile>, options: Options) -> (turn: PushTurn)
    ensures
        turn.state.well_formed(),
        turn.state.remote == remote,
        turn.state.options == options,
        turn.state.files == files,
        turn.state.bytes == 0,
        if files@.len() == 0 && !options.delete {
            turn.stops(PushAction::Done(Stats { changed: 0, total: 0, bytes: 0, removed: 0 }))
        } else if files@.len() == 0 {
            &&& turn.state.plans(Seq::empty())
            &&& turn.after_files()
            &&& text::texts(turn.lines@) == Seq::<Seq<char>>::empty()
        } else if options.whole {
            turn.state.plans(Seq::empty()) && turn.first_file()
        } else {
            &&& turn.state.phase is Hashing
            &&& text::texts(turn.lines@) == Seq::<Seq<char>>::empty()
            &&& turn.action matches PushAction::Request(Command::HashFiles { root, paths }) && root@
                == remote@ && text::texts(paths@) == rels(files@)
        },
{
    let push = PushTree {
        remote,
        options,
        files,
        plan: Vec::new(),
        bytes: 0,
        phase: PushPhase::Hashing,
    };
    if push.files.len() == 0 && !options.delete {
        return PushTurn {
            state: PushTree { phase: PushPhase::Over, ..push },
            lines: nothing(),
            action: PushAction::Done(Stats { changed: 0, total: 0, bytes: 0, removed: 0 }),
        };
    }
    if push.files.len() == 0 {
        return push_after_files(push, nothing());
    }
    if options.whole {
        return push_planned(push, &Vec::new());
    }
    let command = Command::HashFiles { root: push.remote.clone(), paths: rels_of(&push.files) };
    PushTurn { state: push, lines: nothing(), action: PushAction::Request(command) }
}

fn push_stopped(push: PushTree, action: PushAction) -> (turn: PushTurn)
    ensures
        turn.state.well_formed(),
        turn.state.same_task(push),
        turn.stops(action),
{
    PushTurn { state: PushTree { phase: PushPhase::Over, ..push }, lines: nothing(), action }
}

fn push_chunk(push: PushTree, at: usize, data: Vec<u8>, offset: usize) -> (turn: PushTurn)
    requires
        push.planned(),
        !push.options.dry_run,
        at < push.plan@.len(),
        push.plan@[at as int],
        push.bytes + data@.len() <= u64::MAX,
        offset < data@.len() || offset == 0,
    ensures
        turn.state.well_formed(),
        turn.state.same_task(push),
        turn.state.plan == push.plan,
        turn.state.bytes == push.bytes,
        turn.writes(at, data@, offset as int),
{
    let path = sync::join_remote(push.remote.as_str(), push.files[at].rel.as_str());
    let step = files::push_bytes(path.as_str(), data.as_slice(), offset);
    PushTurn {
        state: PushTree { phase: PushPhase::Writing { at, data, next: step.next }, ..push },
        lines: nothing(),
        action: PushAction::Request(step.command),
    }
}

fn push_deletions(
    push: PushTree,
    present: Vec<String>,
    doomed: Vec<bool>,
    from: usize,
    lines: Vec<String>,
) -> (turn: PushTurn)
    requires
        push.planned(),
        push.options.delete,
        push.dooms(present@, doomed@),
        from <= doomed@.len(),
    ensures
        turn.state.well_formed(),
        turn.state.same_task(push),
        turn.state.plan == push.plan,
        turn.state.bytes == push.bytes,
        turn.lines == lines,
        turn.from_deletion(present@, doomed@, from as int),
{
    let n: usize = seek(&doomed, from);
    if !push.options.dry_run && n < doomed.len() {
        let path = sync::join_remote(push.remote.as_str(), present[n].as_str());
        PushTurn {
            state: PushTree { phase: PushPhase::Deleting { present, doomed, at: n }, ..push },
            lines,
            action: PushAction::Request(Command::DeleteFile { path }),
        }
    } else {
        let stats = push_stats(&push, files::count_planned(&doomed));
        PushTurn {
            state: PushTree { phase: PushPhase::Over, ..push },
            lines,
            action: PushAction::Done(stats),
        }
    }
}

fn push_listed(push: PushTree, present: Vec<String>) -> (turn: PushTurn)
    requires
        push.planned(),
        push.options.delete,
    ensures
        turn.state.well_formed(),
        turn.state.same_task(push),
        turn.state.plan == push.plan,
        turn.state.bytes == push.bytes,
        exists|doomed: Seq<bool>|
            push.dooms(present@, doomed) && #[trigger] turn.first_deletion(present@, doomed),
{
    let wanted = rels_of(&push.files);
    let doomed = files::prune(&present, &wanted);
    let lines = if push.options.dry_run {
        mark_all(&present, &doomed, "would delete ")
    } else {
        nothing()
    };
    let ghost decided = doomed@;
    let turn = push_deletions(push, present, doomed, 0, lines);
    assert(turn.first_deletion(present@, decided));
    turn
}

/// Takes the push of a directory one turn further. Files are read, sent chunk by
/// chunk and reported one after the other, in their order; then, if asked for,
/// what the local side does not have is deleted. A dry run asks for nothing but
/// hashes and the list of files.
pub fn push_tree(push: PushTree, event: PushEvent) -> (turn: PushTurn)
    requires
        push.well_formed(),
        push.awaits(event),
    ensures
        turn.state.well_formed(),
        turn.state.same_task(push),
        push.options.dry_run ==> !(turn.action is Read) && !(turn.action matches PushAction::Request(
            command,
        ) && (command is WriteFile || command is DeleteFile)),
        match (push.phase, event) {
            (PushPhase::Hashing, PushEvent::Answer(Reply::FileHashes(known))) => turn.state.plans(
                known@,
            ) && turn.first_file() && turn.state.bytes == push.bytes,
            (PushPhase::Reading(at), PushEvent::Data(data)) => turn.writes(at, data@, 0)
                && turn.state.plan == push.plan && turn.state.bytes == push.bytes,
            (PushPhase::Writing { at, data, next: Some(offset) }, PushEvent::Answer(Reply::Ack)) =>
            turn.writes(at, data@, offset as int) && turn.state.plan == push.plan
                && turn.state.bytes == push.bytes,
            (PushPhase::Writing { at, data, next: None }, PushEvent::Answer(Reply::Ack)) => {
                &&& turn.from_file(at + 1)
                &&& turn.state.plan == push.plan
                &&& turn.state.bytes == push.bytes + data@.len()
                &&& text::texts(turn.lines@) == seq![
                    "→ "@ + push.files@[at as int].rel@ + " ("@ + number::decimal(
                        data@.len() as nat,
                    ) + " bytes)"@,
                ]
            },
            (PushPhase::Listing, PushEvent::Answer(Reply::Tree(present))) => {
                &&& turn.state.plan == push.plan
                &&& turn.state.bytes == push.bytes
                &&& exists|doomed: Seq<bool>|
                    push.dooms(present@, doomed) && #[trigger] turn.first_deletion(
                        present@,
                        doomed,
                    )
            },
            (
                PushPhase::Deleting { present, doomed, at },
                PushEvent::Answer(Reply::Ack),
            ) => {
                &&& turn.from_deletion(present@, doomed@, at + 1)
                &&& turn.state.plan == push.plan
                &&& turn.state.bytes == push.bytes
                &&& text::texts(turn.lines@) == seq!["✗ "@ + present@[at as int]@]
            },
            (PushPhase::Hashing, PushEvent::Answer(reply)) => turn.stops(
                PushAction::Unexpected(reply),
            ),
            (PushPhase::Listing, PushEvent::Answer(reply)) => turn.stops(
                PushAction::Unexpected(reply),
            ),
            (_, PushEvent::Answer(reply)) => turn.stops(PushAction::Refused(reply)),
            (_, PushEvent::Data(_)) => false,
        },
{
    let PushTree { remote, options, files: local, plan, bytes, phase } = push;
    let rest = PushTree { remote, options, files: local, plan, bytes, phase: PushPhase::Over };
    match (phase, event) {
        (PushPhase::Hashing, PushEvent::Answer(Reply::FileHashes(known))) => push_planned(
            rest,
            &known,
        ),
        (PushPhase::Hashing, PushEvent::Answer(reply)) => push_stopped(
            rest,
            PushAction::Unexpected(reply),
        ),
        (PushPhase::Reading(at), PushEvent::Data(data)) => push_chunk(rest, at, data, 0),
        (PushPhase::Writing { at, data, next }, PushEvent::Answer(Reply::Ack)) => match next {
            Some(offset) => push_chunk(rest, at, data, offset),
            None => {
                let line = files::pushed_entry(rest.files[at].rel.as_str(), data.len());
                let sent: u64 = rest.bytes + data.len() as u64;
                let after: usize = following(&rest.plan, at);
                push_from(PushTree { bytes: sent, ..rest }, after, only(line))
            },
        },
        (PushPhase::Listing, PushEvent::Answer(Reply::Tree(present))) => push_listed(rest, present),
        (PushPhase::Listing, PushEvent::Answer(reply)) => push_stopped(
            rest,
            PushAction::Unexpected(reply),
        ),
        (PushPhase::Deleting { present, doomed, at }, PushEvent::Answer(Reply::Ack)) => {
            let line = text::join2("✗ ", present[at].as_str());
            let after: usize = following(&doomed, at);
            push_deletions(rest, present, doomed, after, only(line))
        },
        (_, PushEvent::Answer(reply)) => push_stopped(rest, PushAction::Refused(reply)),
        (_, PushEvent::Data(_)) => push_stopped(rest, PushAction::Refused(Reply::Ack)),
    }
}

/// Where the pull of a file or directory stands.
pub enum PullPhase {
    /// It waits for the list of files on the runner.
    Listing,
    /// It waits for the hashes on the runner.
    Hashing,
    /// It waits for the hash of the local counterpart of this file.
    Comparing(usize),
    /// It waits for the local counterpart of this file, of the whole if there is
    /// none, to be made.
    Creating(Option<usize>),
    /// It waits for a chunk.
    Fetching {
        /// The file; none if the whole is one file.
        at: Option<usize>,
        /// Where the chunk starts.
        offset: u64,
    },
    /// It waits for the list of local files.
    Scanning,
    /// It waits for the removal of a local file.
    Removing {
        /// The local files.
        present: Vec<String>,
        /// Which of them are removed.
        doomed: Vec<bool>,
        /// The one that is being removed.
        at: usize,
    },
    /// There is nothing left to do.
    Over,
}

/// The pull of a file or directory.
pub struct Pull {
    /// The path on the runner.
    pub remote: String,
    /// The local path.
    pub local: String,
    /// How it is done.
    pub options: Options,
    /// The files below the path on the runner.
    pub tree: Vec<String>,
    /// Their hashes.
    pub known: Vec<FileHash>,
    /// Files pulled so far.
    pub changed: u64,
    /// Bytes pulled so far.
    pub bytes: u64,
    /// Where it stands.
    pub phase: PullPhase,
}

/// What a pull waited for.
pub enum PullEvent {
    /// The runner's reply.
    Answer(Reply),
    /// The hash of a local file; none if there is no such file.
    Hashed(Option<String>),
    /// A local file was made, empty.
    Created,
    /// The local files; none if there is no local directory.
    Found(Option<Vec<String>>),
    /// A local file was removed.
    Removed,
}

/// What a pull needs next.
pub enum PullAction {
    /// Send this request, and hand on the reply.
    Request(Command),
    /// Hash the local counterpart of this file.
    Hash(usize),
    /// Make the local counterpart of this file, of the whole if there is none.
    Create(Option<usize>),
    /// List the local files.
    Scan,
    /// Remove this local file.
    Remove(usize),
    /// The pull is done.
    Done,
    /// The pull failed: the reply does not fit.
    Unexpected(Reply),
}

/// One turn of a pull: first the bytes are added to the local file that was made
/// last, then the lines are shown, then the action is taken.
pub struct PullTurn {
    /// The pull after the turn.
    pub state: Pull,
    /// The bytes that came.
    pub store: Option<Vec<u8>>,
    /// What is shown.
    pub lines: Vec<String>,
    /// What is done.
    pub action: PullAction,
}

impl Pull {
    /// What a pull relies on from turn to turn.
    pub open spec fn well_formed(self) -> bool {
        match self.phase {
            PullPhase::Listing => self.changed == 0 && self.bytes == 0,
            PullPhase::Hashing => self.changed == 0 && self.bytes == 0 && !self.options.whole
                && self.tree@.len() > 0,
            PullPhase::Comparing(at) => !self.options.whole && at < self.tree@.len() && self.changed
                <= at,
            PullPhase::Creating(at) => self.takes(at),
            PullPhase::Fetching { at, offset } => self.takes(at),
            PullPhase::Scanning => self.options.delete && self.changed <= self.tree@.len(),
            PullPhase::Removing { present, doomed, at } => self.options.delete
                && !self.options.dry_run && self.changed <= self.tree@.len() && self.dooms(
                present@,
                doomed@,
            ) && at < doomed@.len() && doomed@[at as int],
            PullPhase::Over => true,
        }
    }

    /// A file, counted already, may be pulled.
    pub open spec fn takes(self, at: Option<usize>) -> bool {
        !self.options.dry_run && (at matches Some(i) ==> i < self.tree@.len() && self.changed <= i
            + 1)
    }

    /// What is removed is what is not on the runner.
    pub open spec fn dooms(self, present: Seq<String>, doomed: Seq<bool>) -> bool {
        present.len() == doomed.len() && forall|i: int|
            0 <= i < doomed.len() ==> #[trigger] doomed[i] == !text::texts(self.tree@).contains(
                present[i]@,
            )
    }

    /// Whether an event is the one that the pull waits for.
    pub open spec fn awaits(self, event: PullEvent) -> bool {
        match self.phase {
            PullPhase::Listing | PullPhase::Hashing => event is Answer,
            PullPhase::Comparing(_) => event is Hashed,
            PullPhase::Creating(_) => event is Created,
            PullPhase::Fetching { at, offset } => event matches PullEvent::Answer(reply) && (
            reply matches Reply::FileContents(chunk) ==> self.bytes + offset + chunk@.len()
                <= u64::MAX),
            PullPhase::Scanning => event is Found,
            PullPhase::Removing { .. } => event is Removed,
            PullPhase::Over => false,
        }
    }

    /// The path on the runner of a file, of the whole if there is none.
    pub open spec fn path(self, at: Option<usize>) -> Seq<char> {
        match at {
            Some(i) => sync::below(self.remote@, self.tree@[i as int]@),
            None => self.remote@,
        }
    }

    /// The summary at the end.
    pub open spec fn summary(self, removed: nat) -> Seq<char> {
        files::summary(
            self.options.dry_run,
            Stats {
                changed: self.changed,
                total: self.tree@.len() as usize,
                bytes: self.bytes,
                removed: removed as u64,
            },
            self.options.delete,
            self.remote@,
            self.local@,
        )
    }

    /// `other` is the same pull, as far as what is pulled where and how.
    pub open spec fn same_task(self, other: Pull) -> bool {
        self.remote == other.remote && self.local == other.local && self.options == other.options
    }
}

impl PullTurn {
    /// The turn shows these lines.
    pub open spec fn says(self, lines: Seq<Seq<char>>) -> bool {
        text::texts(self.lines@) == lines
    }

    /// The pull is done, and says so after these lines.
    pub open spec fn finished(self, lead: Seq<Seq<char>>, removed: nat) -> bool {
        self.state.phase is Over && self.action is Done && self.says(
            lead.push(self.state.summary(removed)),
        )
    }

    /// All files are pulled: what is left is to look for files to remove, if asked
    /// for.
    pub open spec fn after_files(self, lead: Seq<Seq<char>>) -> bool {
        if self.state.options.delete {
            self.state.phase is Scanning && self.action is Scan && self.says(lead)
        } else {
            self.finished(lead, 0)
        }
    }

    /// A file is pulled: it is counted, and its local counterpart is made.
    pub open spec fn takes(self, at: usize, changed: int, lead: Seq<Seq<char>>) -> bool {
        self.state.changed == changed + 1 && self.state.phase == PullPhase::Creating(Some(at))
            && self.action == PullAction::Create(Some(at)) && self.says(lead)
    }

    /// The pull goes on with the file `from`, after `changed` files were pulled.
    pub open spec fn from_file(self, from: int, changed: int, lead: Seq<Seq<char>>) -> bool {
        let s = self.state;
        if from >= s.tree@.len() {
            s.changed == changed && self.after_files(lead)
        } else if s.options.whole {
            self.takes(from as usize, changed, lead)
        } else {
            s.changed == changed && s.phase == PullPhase::Comparing(from as usize) && self.action
                == PullAction::Hash(from as usize) && self.says(lead)
        }
    }

    /// The pull starts with the first file; a dry run of every file lists them all.
    pub open spec fn first_file(self) -> bool {
        let s = self.state;
        if s.options.whole && s.options.dry_run {
            s.changed == s.tree@.len() && self.after_files(
                text::texts(s.tree@).map_values(|rel: Seq<char>| "would pull "@ + rel),
            )
        } else {
            self.from_file(0, 0, Seq::empty())
        }
    }

    /// The chunk at `offset` is asked for.
    pub open spec fn fetches(self, at: Option<usize>, offset: int) -> bool {
        self.state.phase == (PullPhase::Fetching { at, offset: offset as u64 }) && (
        self.action matches PullAction::Request(Command::ReadFile { path, offset: o, max_len })
            && path@ == self.state.path(at) && o == offset && max_len == sync::CHUNK) && self.says(
            Seq::empty(),
        )
    }

    /// The removals go on with the next doomed file from `from` on.
    pub open spec fn from_removal(
        self,
        present: Seq<String>,
        doomed: Seq<bool>,
        from: int,
        lead: Seq<Seq<char>>,
    ) -> bool {
        let s = self.state;
        let n = next_set(doomed, from);
        if !s.options.dry_run && n < doomed.len() {
            &&& s.phase matches PullPhase::Removing { present: p, doomed: d, at } && p@ == present
                && d@ == doomed && at == n
            &&& self.action == PullAction::Remove(n as usize)
            &&& self.says(lead)
        } else {
            self.finished(lead, files::planned(doomed))
        }
    }

    /// The list of local files is there; a dry run says which would go.
    pub open spec fn first_removal(self, present: Seq<String>, doomed: Seq<bool>) -> bool {
        self.from_removal(
            present,
            doomed,
            0,
            if self.state.options.dry_run {
                marked(text::texts(present), doomed, "would delete (local) "@)
            } else {
                Seq::empty()
            },
        )
    }

    /// The pull stops here, with these lines.
    pub open spec fn stops(self, action: PullAction, lines: Seq<Seq<char>>) -> bool {
        self.state.phase is Over && self.action == action && self.says(lines)
    }
}

fn pull_finished(pull: Pull, lead: Vec<String>, removed: u64) -> (turn: PullTurn)
    ensures
        turn.state.well_formed(),
        turn.state.same_task(pull),
        turn.state.tree == pull.tree,
        turn.state.known == pull.known,
        turn.state.changed == pull.changed,
        turn.state.bytes == pull.bytes,
        turn.store is None,
        turn.finished(text::texts(lead@), removed as nat),
{
    let stats = Stats {
        changed: pull.changed,
        total: pull.tree.len(),
        bytes: pull.bytes,
        removed,
    };
    let line = files::print_transfer_summary(
        pull.options.dry_run,
        stats,
        pull.options.delete,
        pull.remote.as_str(),
        pull.local.as_str(),
    );
    let ghost before = text::texts(lead@);
    let mut lines = lead;
    lines.push(line);
    assert(text::texts(lines@) =~= before.push(line@));
    PullTurn {
        state: Pull { phase: PullPhase::Over, ..pull },
        store: None,
        lines,
        action: PullAction::Done,
    }
}

fn pull_after_files(pull: Pull, lead: Vec<String>) -> (turn: PullTurn)
    requires
        pull.changed <= pull.tree@.len(),
    ensures
        turn.state.well_formed(),
        turn.state.same_task(pull),
        turn.state.tree == pull.tree,
        turn.state.known == pull.known,
        turn.state.changed == pull.changed,
        turn.state.bytes == pull.bytes,
        turn.store is None,
        turn.after_files(text::texts(lead@)),
{
    if pull.options.delete {
        PullTurn {
            state: Pull { phase: PullPhase::Scanning, ..pull },
            store: None,
            lines: lead,
            action: PullAction::Scan,
        }
    } else {
        pull_finished(pull, lead, 0)
    }
}

fn pull_take(pull: Pull, at: usize, lead: Vec<String>) -> (turn: PullTurn)
    requires
        !pull.options.dry_run,
        at < pull.tree@.len(),
        pull.changed <= at,
    ensures
        turn.state.well_formed(),
        turn.state.same_task(pull),
        turn.state.tree == pull.tree,
        turn.state.known == pull.known,
        turn.state.bytes == pull.bytes,
        turn.store is None,
        turn.takes(at, pull.changed as int, text::texts(lead@)),
{
    let size: usize = pull.tree.len();
    assert(pull.changed < size);
    let changed: u64 = pull.changed + 1;
    PullTurn {
        state: Pull { changed, phase: PullPhase::Creating(Some(at)), ..pull },
        store: None,
        lines: lead,
        action: PullAction::Create(Some(at)),
    }
}

fn pull_from(pull: Pull, from: usize, lead: Vec<String>) -> (turn: PullTurn)
    requires
        !(pull.options.whole && pull.options.dry_run),
        pull.changed <= from <= pull.tree@.len(),
    ensures
        turn.state.well_formed(),
        turn.state.same_task(pull),
        turn.state.tree == pull.tree,
        turn.state.known == pull.known,
        turn.state.bytes == pull.bytes,
        turn.store is None,
        turn.from_file(from as int, pull.changed as int, text::texts(lead@)),
{
    if from >= pull.tree.len() {
        pull_after_files(pull, lead)
    } else if pull.options.whole {
        pull_take(pull, from, lead)
    } else {
        PullTurn {
            state: Pull { phase: PullPhase::Comparing(from), ..pull },
            store: None,
            lines: lead,
            action: PullAction::Hash(from),
        }
    }
}

fn would_pull_all(tree: &Vec<String>) -> (out: Vec<String>)
    ensures
        text::texts(out@) == text::texts(tree@).map_values(
            |rel: Seq<char>| "would pull "@ + rel,
        ),
{
    let mut out: Vec<String> = Vec::new();
    let mut i: usize = 0;
    while i < tree.len()
        invariant
            i <= tree@.len(),
            out@.len() == i,
            forall|k: int| 0 <= k < i ==> (#[trigger] out@[k])@ == "would pull "@ + tree@[k]@,
        decreases tree@.len() - i,
    {
        out.push(text::join2("would pull ", tree[i].as_str()));
        i = i + 1;
    }
    assert(text::texts(out@) =~= text::texts(tree@).map_values(
        |rel: Seq<char>| "would pull "@ + rel,
    ));
    out
}

fn pull_first(pull: Pull) -> (turn: PullTurn)
    requires
        pull.changed == 0,
    ensures
        turn.state.well_formed(),
        turn.state.same_task(pull),
        turn.state.tree == pull.tree,
        turn.state.known == pull.known,
        turn.state.bytes == pull.bytes,
        turn.store is None,
        turn.first_file(),
{
    if pull.options.whole && pull.options.dry_run {
        let lead = would_pull_all(&pull.tree);
        let changed: u64 = pull.tree.len() as u64;
        pull_after_files(Pull { changed, ..pull }, lead)
    } else {
        pull_from(pull, 0, nothing())
    }
}

fn pull_chunk(pull: Pull, at: Option<usize>, offset: u64, store: Option<Vec<u8>>) -> (turn: PullTurn)
    requires
        pull.takes(at),
    ensures
        turn.state.well_formed(),
        turn.state.same_task(pull),
        turn.state.tree == pull.tree,
        turn.state.known == pull.known,
        turn.state.changed == pull.changed,
        turn.state.bytes == pull.bytes,
        turn.store == store,
        turn.fetches(at, offset as int),
{
    let path = match at {
        Some(i) => sync::join_remote(pull.remote.as_str(), pull.tree[i].as_str()),
        None => pull.remote.clone(),
    };
    PullTurn {
        state: Pull { phase: PullPhase::Fetching { at, offset }, ..pull },
        store,
        lines: nothing(),
        action: PullAction::Request(files::read_request(path.as_str(), offset)),
    }
}

fn pull_stopped(pull: Pull, action: PullAction, lines: Vec<String>) -> (turn: PullTurn)
    ensures
        turn.state.well_formed(),
        turn.state.same_task(pull),
        turn.state.tree == pull.tree,
        turn.state.known == pull.known,
        turn.state.bytes == pull.bytes,
        turn.store is None,
        turn.stops(action, text::texts(lines@)),
{
    PullTurn { state: Pull { phase: PullPhase::Over, ..pull }, store: None, lines, action }
}

/// Starts a pull: the runner is asked what lies below the path.
pub fn start_pull(remote: String, local: String, options: Options) -> (turn: PullTurn)
    ensures
        turn.state.well_formed(),
        turn.state.remote == remote,
        turn.state.local == local,
        turn.state.options == options,
        turn.state.phase is Listing,
        turn.store is None,
        turn.says(Seq::empty()),
        turn.action matches PullAction::Request(Command::ListTree { root, all }) && root@
            == remote@ && all == options.all,
{
    let command = Command::ListTree { root: remote.clone(), all: options.all };
    let pull = Pull {
        remote,
        local,
        options,
        tree: Vec::new(),
        known: Vec::new(),
        changed: 0,
        bytes: 0,
        phase: PullPhase::Listing,
    };
    PullTurn { state: pull, store: None, lines: nothing(), action: PullAction::Request(command) }
}

fn copied(list: &Vec<String>) -> (out: Vec<String>)
    ensures
        text::texts(out@) == text::texts(list@),
{
    let mut out: Vec<String> = Vec::new();
    let mut i: usize = 0;
    while i < list.len()
        invariant
            i <= list@.len(),
            out@.len() == i,
            forall|k: int| 0 <= k < i ==> (#[trigger] out@[k])@ == list@[k]@,
        decreases list@.len() - i,
    {
        out.push(list[i].clone());
        i = i + 1;
    }
    assert(text::texts(out@) =~= text::texts(list@));
    out
}

/// What follows the list of files below the path: none means that the path is one
/// file, and only a pull of every file does without the hashes.
pub open spec fn listed(turn: PullTurn) -> bool {
    let s = turn.state;
    if s.tree@.len() == 0 {
        if s.options.dry_run {
            turn.stops(
                PullAction::Done,
                seq!["would pull "@ + s.remote@ + " -> "@ + s.local@],
            )
        } else {
            s.phase == PullPhase::Creating(None) && turn.action == PullAction::Create(None)
                && turn.says(Seq::empty())
        }
    } else if s.options.whole {
        s.known@.len() == 0 && turn.first_file()
    } else {
        s.phase is Hashing && turn.says(Seq::empty()) && (
        turn.action matches PullAction::Request(Command::HashFiles { root, paths }) && root@
            == s.remote@ && text::texts(paths@) == text::texts(s.tree@))
    }
}

fn pull_listed(pull: Pull, tree: Vec<String>) -> (turn: PullTurn)
    requires
        pull.changed == 0,
        pull.bytes == 0,
    ensures
        turn.state.well_formed(),
        turn.state.same_task(pull),
        turn.state.tree == tree,
        turn.state.bytes == 0,
        turn.store is None,
        listed(turn),
{
    let filled = Pull { tree, known: Vec::new(), ..pull };
    if filled.tree.len() == 0 {
        if filled.options.dry_run {
            let mut line = text::join3("would pull ", filled.remote.as_str(), " -> ");
            line.append(filled.local.as_str());
            return pull_stopped(filled, PullAction::Done, only(line));
        }
        return PullTurn {
            state: Pull { phase: PullPhase::Creating(None), ..filled },
            store: None,
            lines: nothing(),
            action: PullAction::Create(None),
        };
    }
    if filled.options.whole {
        return pull_first(filled);
    }
    let command = Command::HashFiles {
        root: filled.remote.clone(),
        paths: copied(&filled.tree),
    };
    PullTurn {
        state: Pull { phase: PullPhase::Hashing, ..filled },
        store: None,
        lines: nothing(),
        action: PullAction::Request(command),
    }
}

/// What follows the hash of the local counterpart of the file `at`.
pub open spec fn compared(pull: Pull, at: usize, hash: Option<String>, turn: PullTurn) -> bool {
    let rel = pull.tree@[at as int]@;
    let ours = match hash {
        Some(h) => Some(h@),
        None => None,
    };
    if !files::to_pull(rel, ours, pull.known@, false) {
        turn.from_file(at + 1, pull.changed as int, Seq::empty())
    } else if pull.options.dry_run {
        turn.from_file(at + 1, pull.changed + 1, seq!["would pull "@ + rel])
    } else {
        turn.takes(at, pull.changed as int, Seq::empty())
    }
}

fn pull_compared(pull: Pull, at: usize, hash: Option<String>) -> (turn: PullTurn)
    requires
        !pull.options.whole,
        at < pull.tree@.len(),
        pull.changed <= at,
    ensures
        turn.state.well_formed(),
        turn.state.same_task(pull),
        turn.state.tree == pull.tree,
        turn.state.known == pull.known,
        turn.state.bytes == pull.bytes,
        turn.store is None,
        compared(pull, at, hash, turn),
{
    let size: usize = pull.tree.len();
    assert(at < size);
    if !files::needs_pull(pull.tree[at].as_str(), &hash, &pull.known, false) {
        return pull_from(pull, at + 1, nothing());
    }
    if pull.options.dry_run {
        let line = text::join2("would pull ", pull.tree[at].as_str());
        let changed: u64 = pull.changed + 1;
        return pull_from(Pull { changed, ..pull }, at + 1, only(line));
    }
    pull_take(pull, at, nothing())
}

/// What follows a chunk: a short one is the last of its file.
pub open spec fn fetched(
    pull: Pull,
    at: Option<usize>,
    offset: u64,
    chunk: Seq<u8>,
    turn: PullTurn,
) -> bool {
    let end = offset + chunk.len();
    if chunk.len() >= sync::CHUNK {
        turn.fetches(at, end) && turn.state.bytes == pull.bytes && turn.state.changed
            == pull.changed
    } else {
        match at {
            Some(i) => turn.state.bytes == pull.bytes + end && turn.from_file(
                i + 1,
                pull.changed as int,
                seq!["← "@ + pull.tree@[i as int]@],
            ),
            None => turn.stops(
                PullAction::Done,
                seq![
                    "pulled "@ + pull.remote@ + " -> "@ + pull.local@ + " ("@ + number::decimal(
                        end as nat,
                    ) + " bytes)"@,
                ],
            ),
        }
    }
}

fn pull_fetched(pull: Pull, at: Option<usize>, offset: u64, reply: Reply) -> (turn: PullTurn)
    requires
        pull.takes(at),
        reply matches Reply::FileContents(chunk) ==> pull.bytes + offset + chunk@.len()
            <= u64::MAX,
    ensures
        turn.state.well_formed(),
        turn.state.same_task(pull),
        turn.state.tree == pull.tree,
        turn.state.known == pull.known,
        match reply {
            Reply::FileContents(chunk) => turn.store == Some(chunk) && fetched(
                pull,
                at,
                offset,
                chunk@,
                turn,
            ),
            other => turn.store is None && turn.stops(PullAction::Unexpected(other), Seq::empty()),
        },
{
    match files::pull_to(offset, reply) {
        ReadStep::More(chunk, next) => pull_chunk(pull, at, next, Some(chunk)),
        ReadStep::End(chunk, end) => match at {
            Some(i) => {
                let size: usize = pull.tree.len();
                assert(i < size);
                let line = text::join2("← ", pull.tree[i].as_str());
                let bytes: u64 = pull.bytes + end;
                let turn = pull_from(Pull { bytes, ..pull }, i + 1, only(line));
                PullTurn { store: Some(chunk), ..turn }
            },
            None => {
                let mut line = text::join3("pulled ", pull.remote.as_str(), " -> ");
                line.append(pull.local.as_str());
                line.append(" (");
                line.append(number::decimal_text(end).as_str());
                line.append(" bytes)");
                let turn = pull_stopped(pull, PullAction::Done, only(line));
                PullTurn { store: Some(chunk), ..turn }
            },
        },
        ReadStep::Unexpected(other) => pull_stopped(pull, PullAction::Unexpected(other), nothing()),
    }
}

fn pull_removals(
    pull: Pull,
    present: Vec<String>,
    doomed: Vec<bool>,
    from: usize,
    lead: Vec<String>,
) -> (turn: PullTurn)
    requires
        pull.options.delete,
        pull.changed <= pull.tree@.len(),
        pull.dooms(present@, doomed@),
        from <= doomed@.len(),
    ensures
        turn.state.well_formed(),
        turn.state.same_task(pull),
        turn.state.tree == pull.tree,
        turn.state.known == pull.known,
        turn.state.changed == pull.changed,
        turn.state.bytes == pull.bytes,
        turn.store is None,
        turn.from_removal(present@, doomed@, from as int, text::texts(lead@)),
{
    let n: usize = seek(&doomed, from);
    if !pull.options.dry_run && n < doomed.len() {
        PullTurn {
            state: Pull { phase: PullPhase::Removing { present, doomed, at: n }, ..pull },
            store: None,
            lines: lead,
            action: PullAction::Remove(n),
        }
    } else {
        pull_finished(pull, lead, files::count_planned(&doomed))
    }
}

fn pull_scanned(pull: Pull, present: Vec<String>) -> (turn: PullTurn)
    requires
        pull.options.delete,
        pull.changed <= pull.tree@.len(),
    ensures
        turn.state.well_formed(),
        turn.state.same_task(pull),
        turn.state.tree == pull.tree,
        turn.state.known == pull.known,
        turn.state.changed == pull.changed,
        turn.state.bytes == pull.bytes,
        turn.store is None,
        exists|doomed: Seq<bool>|
            pull.dooms(present@, doomed) && #[trigger] turn.first_removal(present@, doomed),
{
    let doomed = files::prune(&present, &pull.tree);
    let lead = if pull.options.dry_run {
        mark_all(&present, &doomed, "would delete (local) ")
    } else {
        nothing()
    };
    let ghost decided = doomed@;
    let turn = pull_removals(pull, present, doomed, 0, lead);
    assert(turn.first_removal(present@, decided));
    turn
}

/// Takes a pull one turn further. A path with nothing below it is pulled as one
/// file. Of a directory the files are compared, fetched chunk by chunk and
/// reported one after the other, in their order; then, if asked for, what the
/// runner does not have is removed. A dry run makes, fetches and removes nothing.
pub fn pull(state: Pull, event: PullEvent) -> (turn: PullTurn)
    requires
        state.well_formed(),
        state.awaits(event),
    ensures
        turn.state.well_formed(),
        turn.state.same_task(state),
        state.options.dry_run ==> !(turn.action is Create) && !(turn.action is Remove) && !(
        turn.action matches PullAction::Request(command) && command is ReadFile),
        !(state.phase is Fetching) ==> turn.store is None,
        state.phase is Listing || (turn.state.tree == state.tree && (state.phase is Hashing
            || turn.state.known == state.known)),
        match (state.phase, event) {
            (PullPhase::Listing, PullEvent::Answer(Reply::Tree(tree))) => turn.state.tree == tree
                && turn.state.bytes == 0 && listed(turn),
            (PullPhase::Hashing, PullEvent::Answer(Reply::FileHashes(known))) => turn.state.known
                == known && turn.state.bytes == 0 && turn.first_file(),
            (PullPhase::Comparing(at), PullEvent::Hashed(hash)) => turn.state.bytes == state.bytes
                && compared(state, at, hash, turn),
            (PullPhase::Creating(at), PullEvent::Created) => turn.state.bytes == state.bytes
                && turn.state.changed == state.changed && turn.fetches(at, 0),
            (
                PullPhase::Fetching { at, offset },
                PullEvent::Answer(Reply::FileContents(chunk)),
            ) => turn.store == Some(chunk) && fetched(state, at, offset, chunk@, turn),
            (PullPhase::Scanning, PullEvent::Found(None)) => turn.state.bytes == state.bytes
                && turn.state.changed == state.changed && turn.finished(Seq::empty(), 0),
            (PullPhase::Scanning, PullEvent::Found(Some(present))) => {
                &&& turn.state.bytes == state.bytes
                &&& turn.state.changed == state.changed
                &&& exists|doomed: Seq<bool>|
                    state.dooms(present@, doomed) && #[trigger] turn.first_removal(
                        present@,
                        doomed,
                    )
            },
            (PullPhase::Removing { present, doomed, at }, PullEvent::Removed) => {
                &&& turn.state.bytes == state.bytes
                &&& turn.state.changed == state.changed
                &&& turn.from_removal(
                    present@,
                    doomed@,
                    at + 1,
                    seq!["✗ (local) "@ + present@[at as int]@],
                )
            },
            (_, PullEvent::Answer(reply)) => turn.store is None && turn.stops(
                PullAction::Unexpected(reply),
                Seq::empty(),
            ),
            _ => false,
        },
{
    let Pull { remote, local, options, tree, known, changed, bytes, phase } = state;
    let rest = Pull {
        remote,
        local,
        options,
        tree,
        known,
        changed,
        bytes,
        phase: PullPhase::Over,
    };
    match (phase, event) {
        (PullPhase::Listing, PullEvent::Answer(Reply::Tree(found))) => pull_listed(rest, found),
        (PullPhase::Hashing, PullEvent::Answer(Reply::FileHashes(hashes))) => pull_first(
            Pull { known: hashes, ..rest },
        ),
        (PullPhase::Comparing(at), PullEvent::Hashed(hash)) => pull_compared(rest, at, hash),
        (PullPhase::Creating(at), PullEvent::Created) => pull_chunk(rest, at, 0, None),
        (PullPhase::Fetching { at, offset }, PullEvent::Answer(reply)) => pull_fetched(
            rest,
            at,
            offset,
            reply,
        ),
        (PullPhase::Scanning, PullEvent::Found(None)) => pull_finished(rest, nothing(), 0),
        (PullPhase::Scanning, PullEvent::Found(Some(present))) => pull_scanned(rest, present),
        (PullPhase::Removing { present, doomed, at }, PullEvent::Removed) => {
            let line = text::join2("✗ (local) ", present[at].as_str());
            let after: usize = following(&doomed, at);
            pull_removals(rest, present, doomed, after, only(line))
        },
        (_, PullEvent::Answer(reply)) => pull_stopped(
            rest,
            PullAction::Unexpected(reply),
            nothing(),
        ),
        _ => pull_stopped(rest, PullAction::Done, nothing()),
    }
}

/// The items among the first `upto` whose place a plan sets, in their order.
pub open spec fn chosen<T>(items: Seq<T>, plan: Seq<bool>, upto: int) -> Seq<T>
    decreases upto,
{
    if upto <= 0 {
        Seq::empty()
    } else if plan[upto - 1] {
        chosen(items, plan, upto - 1).push(items[upto - 1])
    } else {
        chosen(items, plan, upto - 1)
    }
}

proof fn lemma_chosen_skips<T>(items: Seq<T>, plan: Seq<bool>, from: int, to: int)
    requires
        0 <= from <= to <= plan.len(),
        forall|k: int| from <= k < to ==> !#[trigger] plan[k],
    ensures
        chosen(items, plan, to) == chosen(items, plan, from),
    decreases to - from,
{
    if from < to {
        lemma_chosen_skips(items, plan, from, to - 1);
        assert(!plan[to - 1]);
    }
}

proof fn lemma_chosen_count<T>(items: Seq<T>, plan: Seq<bool>, upto: int)
    requires
        0 <= upto <= plan.len(),
    ensures
        chosen(items, plan, upto).len() == files::planned(plan.take(upto)),
        chosen(items, plan, upto).len() <= upto,
    decreases upto,
{
    if upto > 0 {
        lemma_chosen_count(items, plan, upto - 1);
        assert(plan.take(upto).drop_last() =~= plan.take(upto - 1));
        assert(plan.take(upto).last() == plan[upto - 1]);
    }
}

/// The files that the requests of some turns leave on the runner: each with its path
/// and, put together from its chunks, its content. A chunk goes on where the last
/// one ended, or else starts a file.
pub open spec fn stored(turns: Seq<PushTurn>) -> Seq<(Seq<char>, Seq<u8>)>
    decreases turns.len(),
{
    if turns.len() == 0 {
        Seq::empty()
    } else {
        let before = stored(turns.drop_last());
        match turns.last().action {
            PushAction::Request(Command::WriteFile { path, contents, offset }) => if offset != 0
                && before.len() > 0 && before.last().0 == path@ && before.last().1.len() == offset {
                before.drop_last().push((path@, before.last().1 + contents@))
            } else {
                before.push((path@, contents@))
            },
            _ => before,
        }
    }
}

/// The paths that the requests of some turns delete on the runner.
pub open spec fn deleted(turns: Seq<PushTurn>) -> Seq<Seq<char>>
    decreases turns.len(),
{
    if turns.len() == 0 {
        Seq::empty()
    } else {
        let before = deleted(turns.drop_last());
        match turns.last().action {
            PushAction::Request(Command::DeleteFile { path }) => before.push(path@),
            _ => before,
        }
    }
}

/// How many bytes some files hold in all.
pub open spec fn size<T>(files: Seq<(T, Seq<u8>)>) -> nat
    decreases files.len(),
{
    if files.len() == 0 {
        0
    } else {
        size(files.drop_last()) + files.last().1.len()
    }
}

/// Whether the last that the runner reports of a path is this hash.
pub open spec fn has_same(known: Seq<FileHash>, rel: Seq<char>, hash: Seq<char>) -> bool {
    exists|k: int|
        0 <= k < known.len() && (#[trigger] known[k]).path@ == rel && (known[k].hash matches Some(h)
            && h@ == hash) && (forall|j: int|
            k < j < known.len() ==> (#[trigger] known[j]).path@ != rel)
}

/// Which local files the runner has to be sent.
pub open spec fn wanting(files: Seq<LocalFile>, known: Seq<FileHash>, whole: bool) -> Seq<bool> {
    Seq::new(files.len(), |i: int| whole || !has_same(known, files[i].rel@, files[i].hash@))
}

/// Which files of the runner have no local file of the same name.
pub open spec fn unmatched(present: Seq<String>, files: Seq<LocalFile>) -> Seq<bool> {
    Seq::new(
        present.len(),
        |i: int|
            forall|k: int| 0 <= k < files.len() ==> (#[trigger] files[k]).rel@ != present[i]@,
    )
}

/// The local files as they are to be on the runner.
pub open spec fn copies(
    remote: Seq<char>,
    files: Seq<LocalFile>,
    contents: Seq<Seq<u8>>,
) -> Seq<(Seq<char>, Seq<u8>)> {
    Seq::new(files.len(), |i: int| (sync::below(remote, files[i].rel@), contents[i]))
}

/// The paths of files below a remote directory.
pub open spec fn paths_below(remote: Seq<char>, names: Seq<String>) -> Seq<Seq<char>> {
    Seq::new(names.len(), |i: int| sync::below(remote, names[i]@))
}

/// What the two sides hold: the local contents, and what the runner reports and
/// lists.
pub struct PushWorld {
    /// The content of each local file.
    pub contents: Ghost<Seq<Seq<u8>>>,
    /// What the runner reports.
    pub known: Ghost<Seq<FileHash>>,
    /// What the runner lists.
    pub present: Ghost<Seq<String>>,
}

/// Whether an event answers an action as the two sides are, without refusal.
pub open spec fn answers(world: PushWorld, action: PushAction, event: PushEvent) -> bool {
    match action {
        PushAction::Request(Command::HashFiles { .. }) => event matches PushEvent::Answer(
            Reply::FileHashes(known),
        ) && known@ == world.known@,
        PushAction::Request(Command::ListTree { .. }) => event matches PushEvent::Answer(
            Reply::Tree(present),
        ) && present@ == world.present@,
        PushAction::Request(_) => event == PushEvent::Answer(Reply::Ack),
        PushAction::Read(at) => event matches PushEvent::Data(data) && data@
            == world.contents@[at as int],
        _ => false,
    }
}

/// Whether one turn of a push follows another.
pub open spec fn is_push_step(
    world: PushWorld,
    before: PushTurn,
    event: PushEvent,
    after: PushTurn,
) -> bool {
    answers(world, before.action, event) && push_tree.ensures((before.state, event), after)
}

/// Whether these are the first turns of a push in which nothing is refused.
pub open spec fn is_push_run(
    remote: String,
    files: Vec<LocalFile>,
    options: Options,
    world: PushWorld,
    events: Seq<PushEvent>,
    turns: Seq<PushTurn>,
) -> bool {
    &&& world.contents@.len() == files@.len()
    &&& turns.len() == events.len() + 1
    &&& start_push.ensures((remote, files, options), turns[0])
    &&& forall|i: int|
        #![trigger events[i]]
        0 <= i < events.len() ==> is_push_step(world, turns[i], events[i], turns[i + 1])
}

proof fn lemma_last_report(known: Seq<FileHash>, rel: Seq<char>, hash: Seq<char>)
    ensures
        (files::reported(known, rel) == Some(hash)) == has_same(known, rel, hash),
    decreases known.len(),
{
    if known.len() > 0 {
        let rest = known.drop_last();
        let n = known.len() - 1;
        lemma_last_report(rest, rel, hash);
        if known.last().path@ == rel {
            if has_same(known, rel, hash) {
                let k = choose|k: int|
                    0 <= k < known.len() && (#[trigger] known[k]).path@ == rel && (
                    known[k].hash matches Some(h) && h@ == hash) && (forall|j: int|
                        k < j < known.len() ==> (#[trigger] known[j]).path@ != rel);
                assert(known[n] == known.last());
                assert(k == n);
            }
            if files::reported(known, rel) == Some(hash) {
                assert(known[n].path@ == rel);
            }
        } else {
            if has_same(known, rel, hash) {
                let k = choose|k: int|
                    0 <= k < known.len() && (#[trigger] known[k]).path@ == rel && (
                    known[k].hash matches Some(h) && h@ == hash) && (forall|j: int|
                        k < j < known.len() ==> (#[trigger] known[j]).path@ != rel);
                assert(rest[k] == known[k]);
                assert forall|j: int| k < j < rest.len() implies (#[trigger] rest[j]).path@
                    != rel by {
                    assert(rest[j] == known[j]);
                }
                assert(has_same(rest, rel, hash));
            }
            if has_same(rest, rel, hash) {
                let k = choose|k: int|
                    0 <= k < rest.len() && (#[trigger] rest[k]).path@ == rel && (
                    rest[k].hash matches Some(h) && h@ == hash) && (forall|j: int|
                        k < j < rest.len() ==> (#[trigger] rest[j]).path@ != rel);
                assert(rest[k] == known[k]);
                assert forall|j: int| k < j < known.len() implies (#[trigger] known[j]).path@
                    != rel by {
                    if j < n {
                        assert(rest[j] == known[j]);
                    }
                }
                assert(has_same(known, rel, hash));
            }
        }
    }
}

proof fn lemma_plans(push: PushTree, known: Seq<FileHash>)
    requires
        push.plans(known),
    ensures
        push.plan@ == wanting(push.files@, known, push.options.whole),
        push.options.whole ==> forall|other: Seq<FileHash>|
            push.plan@ == #[trigger] wanting(push.files@, other, true),
{
    assert forall|i: int| 0 <= i < push.plan@.len() implies push.plan@[i] == wanting(
        push.files@,
        known,
        push.options.whole,
    )[i] by {
        lemma_last_report(known, push.files@[i].rel@, push.files@[i].hash@);
    }
    assert(push.plan@ =~= wanting(push.files@, known, push.options.whole));
    if push.options.whole {
        assert forall|other: Seq<FileHash>| push.plan@ == #[trigger] wanting(
            push.files@,
            other,
            true,
        ) by {
            assert(push.plan@ =~= wanting(push.files@, other, true));
        }
    }
}

proof fn lemma_dooms(push: PushTree, present: Seq<String>, doomed: Seq<bool>)
    requires
        push.dooms(present, doomed),
    ensures
        doomed == unmatched(present, push.files@),
{
    let names = rels(push.files@);
    let plan = unmatched(present, push.files@);
    assert forall|i: int| 0 <= i < doomed.len() implies doomed[i] == plan[i] by {
        if names.contains(present[i]@) {
            let k = choose|k: int| 0 <= k < names.len() && names[k] == present[i]@;
            assert(push.files@[k].rel@ == present[i]@);
        }
        if !plan[i] {
            let k = choose|k: int|
                0 <= k < push.files@.len() && (#[trigger] push.files@[k]).rel@ == present[i]@;
            assert(names[k] == present[i]@);
        }
    }
    assert(doomed =~= plan);
}

/// What holds of a push that is no dry run after a turn.
spec fn push_stands(
    remote: String,
    files: Vec<LocalFile>,
    options: Options,
    world: PushWorld,
    turn: PushTurn,
    got: Seq<(Seq<char>, Seq<u8>)>,
    gone: Seq<Seq<char>>,
) -> bool {
    let s = turn.state;
    let n = files@.len() as int;
    let all = copies(remote@, files@, world.contents@);
    let plan = wanting(files@, world.known@, options.whole);
    let doomed = unmatched(world.present@, files@);
    let paths = paths_below(remote@, world.present@);
    &&& s.remote == remote && s.options == options && s.files == files
    &&& match s.phase {
        PushPhase::Hashing => {
            &&& turn.action matches PushAction::Request(Command::HashFiles { .. })
            &&& got.len() == 0 && gone.len() == 0 && s.bytes == 0
        },
        PushPhase::Reading(at) => {
            &&& s.plan@ == plan && at < n && plan[at as int]
            &&& turn.action == PushAction::Read(at)
            &&& got == chosen(all, plan, at as int) && gone.len() == 0 && s.bytes == size(got)
        },
        PushPhase::Writing { at, data, next } => {
            let sent = match next {
                Some(offset) => offset as int,
                None => data@.len() as int,
            };
            let before = chosen(all, plan, at as int);
            &&& s.plan@ == plan && at < n && plan[at as int]
            &&& data@ == world.contents@[at as int]
            &&& turn.action matches PushAction::Request(Command::WriteFile { .. })
            &&& next is Some ==> 0 < sent < data@.len()
            &&& got == before.push((sync::below(remote@, files@[at as int].rel@), data@.take(sent)))
            &&& gone.len() == 0 && s.bytes == size(before)
        },
        PushPhase::Listing => {
            &&& s.plan@ == plan && options.delete
            &&& turn.action matches PushAction::Request(Command::ListTree { .. })
            &&& got == chosen(all, plan, n) && gone.len() == 0 && s.bytes == size(got)
        },
        PushPhase::Deleting { present, doomed: d, at } => {
            &&& s.plan@ == plan && options.delete
            &&& present@ == world.present@ && d@ == doomed && at < doomed.len()
            &&& doomed[at as int]
            &&& turn.action matches PushAction::Request(Command::DeleteFile { .. })
            &&& got == chosen(all, plan, n) && s.bytes == size(got)
            &&& gone == chosen(paths, doomed, at + 1)
        },
        PushPhase::Over => {
            &&& turn.action matches PushAction::Done(stats)
            &&& got == chosen(all, plan, n)
            &&& gone == (if options.delete {
                chosen(paths, doomed, doomed.len() as int)
            } else {
                Seq::empty()
            })
            &&& stats.changed == got.len() && stats.total == n && stats.bytes == size(got)
                && stats.removed == gone.len()
        },
    }
}

proof fn lemma_after_files(
    remote: String,
    files: Vec<LocalFile>,
    options: Options,
    world: PushWorld,
    turn: PushTurn,
    from: int,
    got: Seq<(Seq<char>, Seq<u8>)>,
    gone: Seq<Seq<char>>,
)
    requires
        !options.dry_run,
        turn.state.remote == remote && turn.state.options == options && turn.state.files == files,
        turn.state.plan@ == wanting(files@, world.known@, options.whole),
        0 <= from <= files@.len(),
        turn.from_file(from),
        got == chosen(copies(remote@, files@, world.contents@), turn.state.plan@, from),
        gone.len() == 0,
        turn.state.bytes == size(got),
    ensures
        push_stands(remote, files, options, world, turn, got, gone),
{
    let plan = turn.state.plan@;
    let all = copies(remote@, files@, world.contents@);
    lemma_next_set(plan, from);
    let n = next_set(plan, from);
    lemma_chosen_skips(all, plan, from, n);
    lemma_chosen_count(all, plan, plan.len() as int);
    assert(plan.take(plan.len() as int) =~= plan);
    assert(files.len() == files@.len());
    assert(gone =~= Seq::empty());
}

proof fn lemma_after_deletion(
    remote: String,
    files: Vec<LocalFile>,
    options: Options,
    world: PushWorld,
    turn: PushTurn,
    from: int,
    got: Seq<(Seq<char>, Seq<u8>)>,
    old_gone: Seq<Seq<char>>,
    gone: Seq<Seq<char>>,
)
    requires
        !options.dry_run,
        options.delete,
        turn.state.remote == remote && turn.state.options == options && turn.state.files == files,
        turn.state.plan@ == wanting(files@, world.known@, options.whole),
        0 <= from <= world.present@.len(),
        turn.from_deletion(world.present@, unmatched(world.present@, files@), from),
        got == chosen(
            copies(remote@, files@, world.contents@),
            turn.state.plan@,
            files@.len() as int,
        ),
        old_gone == chosen(
            paths_below(remote@, world.present@),
            unmatched(world.present@, files@),
            from,
        ),
        gone == (match turn.action {
            PushAction::Request(Command::DeleteFile { path }) => old_gone.push(path@),
            _ => old_gone,
        }),
        turn.state.bytes == size(got),
        world.present@.len() <= u64::MAX,
    ensures
        push_stands(remote, files, options, world, turn, got, gone),
{
    let plan = turn.state.plan@;
    let all = copies(remote@, files@, world.contents@);
    let doomed = unmatched(world.present@, files@);
    let paths = paths_below(remote@, world.present@);
    lemma_next_set(doomed, from);
    let n = next_set(doomed, from);
    lemma_chosen_skips(paths, doomed, from, n);
    lemma_chosen_count(all, plan, plan.len() as int);
    lemma_chosen_count(paths, doomed, doomed.len() as int);
    assert(plan.take(plan.len() as int) =~= plan);
    assert(doomed.take(doomed.len() as int) =~= doomed);
    assert(files.len() == files@.len());
}

proof fn lemma_push_starts(
    remote: String,
    files: Vec<LocalFile>,
    options: Options,
    world: PushWorld,
    turn: PushTurn,
)
    requires
        !options.dry_run,
        world.contents@.len() == files@.len(),
        start_push.ensures((remote, files, options), turn),
    ensures
        push_stands(remote, files, options, world, turn, Seq::empty(), Seq::empty()),
        !(turn.action matches PushAction::Request(c) && (c is WriteFile || c is DeleteFile)),
{
    let plan = wanting(files@, world.known@, options.whole);
    if files@.len() == 0 && !options.delete {
        assert(files.len() == files@.len());
    } else if files@.len() == 0 {
        assert(turn.state.plan@ =~= plan);
        assert(turn.from_file(0)) by {
            assert(next_set(turn.state.plan@, 0) == 0);
        }
        lemma_after_files(remote, files, options, world, turn, 0, Seq::empty(), Seq::empty());
    } else if options.whole {
        lemma_plans(turn.state, Seq::empty());
        assert(turn.state.plan@ == wanting(files@, world.known@, true));
        lemma_after_files(remote, files, options, world, turn, 0, Seq::empty(), Seq::empty());
    }
}

proof fn lemma_push_goes_on(
    remote: String,
    files: Vec<LocalFile>,
    options: Options,
    world: PushWorld,
    before: PushTurn,
    event: PushEvent,
    turn: PushTurn,
    turns: Seq<PushTurn>,
)
    requires
        !options.dry_run,
        world.contents@.len() == files@.len(),
        world.present@.len() <= u64::MAX,
        push_stands(remote, files, options, world, before, stored(turns), deleted(turns)),
        is_push_step(world, before, event, turn),
    ensures
        push_stands(
            remote,
            files,
            options,
            world,
            turn,
            stored(turns.push(turn)),
            deleted(turns.push(turn)),
        ),
{
    let next = turns.push(turn);
    assert(next.drop_last() =~= turns);
    assert(next.last() == turn);
    let s = before.state;
    let all = copies(remote@, files@, world.contents@);
    let (got, gone) = (stored(turns), deleted(turns));
    match s.phase {
        PushPhase::Hashing => {
            lemma_plans(turn.state, world.known@);
            assert(got =~= Seq::empty());
            assert(turn.state.plan@ == wanting(files@, world.known@, options.whole));
            lemma_after_files(remote, files, options, world, turn, 0, got, gone);
            assert(stored(next) == got && deleted(next) == gone);
        },
        PushPhase::Reading(at) => {
            let data = world.contents@[at as int];
            assert(turn.writes(at, data, 0));
            assert(sync::chunk_from(data, 0) =~= data.take(
                sync::least(0 + sync::CHUNK, data.len() as int),
            ));
        },
        PushPhase::Writing { at, data, next: Some(offset) } => {
            assert(turn.writes(at, data@, offset as int));
            assert(data.len() == data@.len());
            assert(data@.take(offset as int) + sync::chunk_from(data@, offset as int) =~= data@.take(
                sync::least(offset + sync::CHUNK, data@.len() as int),
            ));
            let path = sync::below(remote@, files@[at as int].rel@);
            assert(got.drop_last() =~= chosen(all, s.plan@, at as int));
            assert(got.last() == (path, data@.take(offset as int)));
            assert(stored(next) == chosen(all, s.plan@, at as int).push(
                (path, data@.take(sync::least(offset + sync::CHUNK, data@.len() as int))),
            ));
        },
        PushPhase::Writing { at, data, next: None } => {
            assert(data@.take(data@.len() as int) =~= data@);
            assert(all[at as int] == (sync::below(remote@, files@[at as int].rel@), data@));
            assert(got =~= chosen(all, s.plan@, at + 1));
            assert(got.drop_last() =~= chosen(all, s.plan@, at as int));
            lemma_after_files(remote, files, options, world, turn, at + 1, got, gone);
        },
        PushPhase::Listing => {
            let doomed = choose|doomed: Seq<bool>|
                s.dooms(world.present@, doomed) && #[trigger] turn.first_deletion(
                    world.present@,
                    doomed,
                );
            lemma_dooms(s, world.present@, doomed);
            assert(gone =~= Seq::empty());
            lemma_after_deletion(
                remote,
                files,
                options,
                world,
                turn,
                0,
                got,
                gone,
                deleted(next),
            );
        },
        PushPhase::Deleting { present, doomed, at } => {
            lemma_after_deletion(
                remote,
                files,
                options,
                world,
                turn,
                at + 1,
                got,
                gone,
                deleted(next),
            );
        },
        PushPhase::Over => {},
    }
}

proof fn lemma_push_run(
    remote: String,
    files: Vec<LocalFile>,
    options: Options,
    world: PushWorld,
    events: Seq<PushEvent>,
    turns: Seq<PushTurn>,
)
    requires
        !options.dry_run,
        world.present@.len() <= u64::MAX,
        is_push_run(remote, files, options, world, events, turns),
    ensures
        push_stands(remote, files, options, world, turns.last(), stored(turns), deleted(turns)),
    decreases events.len(),
{
    let n = events.len() as int;
    if n == 0 {
        lemma_push_starts(remote, files, options, world, turns[0]);
        assert(turns.drop_last().len() == 0);
        assert(turns.last() == turns[0]);
        assert(stored(turns.drop_last()) =~= Seq::empty());
        assert(deleted(turns.drop_last()) =~= Seq::empty());
    } else {
        let (e, t) = (events.drop_last(), turns.drop_last());
        assert forall|i: int| #![trigger e[i]] 0 <= i < e.len() implies is_push_step(
            world,
            t[i],
            e[i],
            t[i + 1],
        ) by {
            assert(events[i] == e[i]);
        }
        lemma_push_run(remote, files, options, world, e, t);
        assert(events[n - 1] == events.last());
        assert(is_push_step(world, turns[n - 1], events[n - 1], turns[n]));
        assert(t.last() == turns[n - 1]);
        lemma_push_goes_on(
            remote,
            files,
            options,
            world,
            t.last(),
            events[n - 1],
            turns[n],
            t,
        );
        assert(t.push(turns[n]) =~= turns);
    }
}

/// A push that is no dry run and in which nothing is refused: when it is done, the
/// requests have stored exactly the local files whose content the runner did not
/// report, or all of them if that was asked for, each below the remote directory
/// and with its whole content, in order. With deletion, they have deleted exactly
/// the listed files of the runner that no local file is named like, each once, in
/// order; without, none. The counters say how many files were stored, of how many,
/// with how many bytes, and how many were deleted.
pub proof fn law_push_mirrors_the_directory(
    remote: String,
    files: Vec<LocalFile>,
    options: Options,
    world: PushWorld,
    events: Seq<PushEvent>,
    turns: Seq<PushTurn>,
    stats: Stats,
)
    requires
        !options.dry_run,
        world.present@.len() <= u64::MAX,
        is_push_run(remote, files, options, world, events, turns),
        turns.last().action == PushAction::Done(stats),
    ensures
        stored(turns) == chosen(
            copies(remote@, files@, world.contents@),
            wanting(files@, world.known@, options.whole),
            files@.len() as int,
        ),
        options.delete ==> deleted(turns) == chosen(
            paths_below(remote@, world.present@),
            unmatched(world.present@, files@),
            world.present@.len() as int,
        ),
        !options.delete ==> deleted(turns).len() == 0,
        stats.changed == stored(turns).len(),
        stats.total == files@.len(),
        stats.bytes == size(stored(turns)),
        stats.removed == deleted(turns).len(),
{
    lemma_push_run(remote, files, options, world, events, turns);
}

/// A push of which nothing is refused does not fail.
pub proof fn law_accepted_push_does_not_fail(
    remote: String,
    files: Vec<LocalFile>,
    options: Options,
    world: PushWorld,
    events: Seq<PushEvent>,
    turns: Seq<PushTurn>,
)
    requires
        !options.dry_run,
        world.present@.len() <= u64::MAX,
        is_push_run(remote, files, options, world, events, turns),
    ensures
        !(turns.last().action is Unexpected) && !(turns.last().action is Refused),
{
    lemma_push_run(remote, files, options, world, events, turns);
}

/// The local files that the turns of a pull leave: each by its place among the files
/// on the runner, none for a pull of one file, and with its content.
pub open spec fn made(turns: Seq<PullTurn>) -> Seq<(Option<usize>, Seq<u8>)>
    decreases turns.len(),
{
    if turns.len() == 0 {
        Seq::empty()
    } else {
        let before = made(turns.drop_last());
        let turn = turns.last();
        let filled = match turn.store {
            Some(bytes) => before.drop_last().push(
                (before.last().0, before.last().1 + bytes@),
            ),
            None => before,
        };
        match turn.action {
            PullAction::Create(at) => filled.push((at, Seq::empty())),
            _ => filled,
        }
    }
}

/// The local files that the turns of a pull remove, by their places.
pub open spec fn removed(turns: Seq<PullTurn>) -> Seq<int>
    decreases turns.len(),
{
    if turns.len() == 0 {
        Seq::empty()
    } else {
        let before = removed(turns.drop_last());
        match turns.last().action {
            PullAction::Remove(at) => before.push(at as int),
            _ => before,
        }
    }
}

/// What the two sides hold when a pull is done.
pub struct PullWorld {
    /// What the runner lists below the path.
    pub tree: Ghost<Seq<String>>,
    /// What the files of the runner hold.
    pub held: Ghost<Map<Seq<char>, Seq<u8>>>,
    /// What the runner reports.
    pub known: Ghost<Seq<FileHash>>,
    /// The hash of the local counterpart of each file; none if there is none.
    pub ours: Ghost<Seq<Option<Seq<char>>>>,
    /// The local files; none if there is no local directory.
    pub local: Ghost<Option<Seq<String>>>,
}

/// The bytes of a file from an offset on, at most so many.
pub open spec fn part(file: Seq<u8>, offset: int, at_most: int) -> Seq<u8> {
    if offset >= file.len() {
        Seq::empty()
    } else if offset + at_most < file.len() {
        file.subrange(offset, offset + at_most)
    } else {
        file.skip(offset)
    }
}

/// Whether an event answers an action of a pull as the two sides are.
pub open spec fn serves(world: PullWorld, action: PullAction, event: PullEvent) -> bool {
    match action {
        PullAction::Request(Command::ListTree { .. }) => event matches PullEvent::Answer(
            Reply::Tree(tree),
        ) && tree@ == world.tree@,
        PullAction::Request(Command::HashFiles { .. }) => event matches PullEvent::Answer(
            Reply::FileHashes(known),
        ) && known@ == world.known@,
        PullAction::Request(Command::ReadFile { path, offset, max_len }) =>
        event matches PullEvent::Answer(Reply::FileContents(bytes)) && bytes@ == part(
            world.held@[path@],
            offset as int,
            max_len as int,
        ),
        PullAction::Hash(at) => event matches PullEvent::Hashed(hash) && (match hash {
            Some(h) => Some(h@),
            None => None,
        }) == world.ours@[at as int],
        PullAction::Create(_) => event is Created,
        PullAction::Scan => event matches PullEvent::Found(found) && (match found {
            Some(f) => Some(f@),
            None => None,
        }) == world.local@,
        PullAction::Remove(_) => event is Removed,
        _ => false,
    }
}

/// Whether one turn of a pull follows another.
pub open spec fn is_pull_step(
    world: PullWorld,
    before: PullTurn,
    event: PullEvent,
    after: PullTurn,
) -> bool {
    serves(world, before.action, event) && pull.ensures((before.state, event), after)
}

/// Whether these are the first turns of a pull in which everything is answered.
pub open spec fn is_pull_run(
    remote: String,
    local: String,
    options: Options,
    world: PullWorld,
    events: Seq<PullEvent>,
    turns: Seq<PullTurn>,
) -> bool {
    &&& world.ours@.len() == world.tree@.len()
    &&& world.tree@.len() <= usize::MAX
    &&& world.local@ matches Some(l) ==> l.len() <= usize::MAX
    &&& turns.len() == events.len() + 1
    &&& start_pull.ensures((remote, local, options), turns[0])
    &&& forall|i: int|
        #![trigger events[i]]
        0 <= i < events.len() ==> is_pull_step(world, turns[i], events[i], turns[i + 1])
}

/// Which files of the runner have to be fetched: all of them if that is asked for,
/// else those whose content is not known to be here.
pub open spec fn lacking(world: PullWorld, whole: bool) -> Seq<bool> {
    Seq::new(
        world.tree@.len(),
        |i: int|
            whole || !(world.ours@[i] matches Some(h) && has_same(
                world.known@,
                world.tree@[i]@,
                h,
            )),
    )
}

/// The files of the runner as they are to be here.
pub open spec fn originals(remote: Seq<char>, world: PullWorld) -> Seq<(
    Option<usize>,
    Seq<u8>,
)> {
    Seq::new(
        world.tree@.len(),
        |i: int| (Some(i as usize), world.held@[sync::below(remote, world.tree@[i]@)]),
    )
}

/// Which local files the runner has no file of the same name for.
pub open spec fn unlisted(present: Seq<String>, tree: Seq<String>) -> Seq<bool> {
    Seq::new(
        present.len(),
        |i: int| forall|k: int| 0 <= k < tree.len() ==> (#[trigger] tree[k])@ != present[i]@,
    )
}

/// The places from zero on.
pub open spec fn places(n: nat) -> Seq<int> {
    Seq::new(n, |i: int| i)
}

/// Which local files a pull with deletion removes.
pub open spec fn surplus(world: PullWorld) -> Seq<int> {
    match world.local@ {
        Some(l) => chosen(places(l.len()), unlisted(l, world.tree@), l.len() as int),
        None => Seq::empty(),
    }
}

proof fn lemma_pull_dooms(state: Pull, present: Seq<String>, doomed: Seq<bool>)
    requires
        state.dooms(present, doomed),
    ensures
        doomed == unlisted(present, state.tree@),
{
    let names = text::texts(state.tree@);
    let plan = unlisted(present, state.tree@);
    assert forall|i: int| 0 <= i < doomed.len() implies doomed[i] == plan[i] by {
        if names.contains(present[i]@) {
            let k = choose|k: int| 0 <= k < names.len() && names[k] == present[i]@;
            assert(state.tree@[k]@ == present[i]@);
        }
        if !plan[i] {
            let k = choose|k: int|
                0 <= k < state.tree@.len() && (#[trigger] state.tree@[k])@ == present[i]@;
            assert(names[k] == present[i]@);
        }
    }
    assert(doomed =~= plan);
}

/// What holds of a pull that is no dry run after a turn.
spec fn pull_stands(
    remote: String,
    local: String,
    options: Options,
    world: PullWorld,
    turn: PullTurn,
    got: Seq<(Option<usize>, Seq<u8>)>,
    gone: Seq<int>,
) -> bool {
    let s = turn.state;
    let n = world.tree@.len() as int;
    let all = originals(remote@, world);
    let plan = lacking(world, options.whole);
    &&& s.remote == remote && s.local == local && s.options == options
    &&& s.phase is Listing || s.tree@ == world.tree@
    &&& match s.phase {
        PullPhase::Listing => {
            &&& turn.action matches PullAction::Request(Command::ListTree { .. })
            &&& got.len() == 0 && gone.len() == 0
        },
        PullPhase::Hashing => {
            &&& n > 0 && !options.whole
            &&& turn.action matches PullAction::Request(Command::HashFiles { .. })
            &&& got.len() == 0 && gone.len() == 0
        },
        PullPhase::Comparing(at) => {
            &&& !options.whole && s.known@ == world.known@ && at < n
            &&& turn.action == PullAction::Hash(at)
            &&& got == chosen(all, plan, at as int) && gone.len() == 0
            &&& s.bytes == size(got) && s.changed == got.len()
        },
        PullPhase::Creating(Some(at)) => {
            let before = chosen(all, plan, at as int);
            &&& options.whole || s.known@ == world.known@
            &&& at < n && plan[at as int]
            &&& turn.action == PullAction::Create(Some(at))
            &&& got == before.push((Some(at), Seq::empty())) && gone.len() == 0
            &&& s.bytes == size(before) && s.changed == before.len() + 1
        },
        PullPhase::Creating(None) => {
            &&& n == 0
            &&& turn.action == PullAction::Create(None)
            &&& got == seq![(None::<usize>, Seq::<u8>::empty())] && gone.len() == 0
        },
        PullPhase::Fetching { at, offset } => {
            &&& turn.action matches PullAction::Request(
                Command::ReadFile { path, offset: o, max_len },
            ) && o == offset && max_len == sync::CHUNK && path@ == s.path(at)
            &&& gone.len() == 0
            &&& match at {
                Some(i) => {
                    let before = chosen(all, plan, i as int);
                    &&& options.whole || s.known@ == world.known@
                    &&& i < n && plan[i as int] && offset <= all[i as int].1.len()
                    &&& got == before.push((at, all[i as int].1.take(offset as int)))
                    &&& s.bytes == size(before) && s.changed == before.len() + 1
                },
                None => {
                    let file = world.held@[remote@];
                    n == 0 && offset <= file.len() && got == seq![(at, file.take(offset as int))]
                },
            }
        },
        PullPhase::Scanning => {
            &&& n > 0 && options.delete
            &&& turn.action is Scan
            &&& got == chosen(all, plan, n) && gone.len() == 0
            &&& s.bytes == size(got) && s.changed == got.len()
        },
        PullPhase::Removing { present, doomed, at } => {
            &&& n > 0 && options.delete
            &&& world.local@ == Some(present@) && doomed@ == unlisted(present@, world.tree@)
            &&& at < present@.len() && doomed@[at as int]
            &&& turn.action == PullAction::Remove(at)
            &&& got == chosen(all, plan, n)
            &&& gone == chosen(places(present@.len()), doomed@, at + 1)
            &&& s.bytes == size(got) && s.changed == got.len()
        },
        PullPhase::Over => {
            &&& turn.action is Done
            &&& n == 0 ==> got == seq![(None::<usize>, world.held@[remote@])] && gone.len() == 0
            &&& n > 0 ==> got == chosen(all, plan, n) && gone == (if options.delete {
                surplus(world)
            } else {
                Seq::empty()
            }) && turn.lines@.len() > 0 && turn.lines@.last()@ == files::summary(
                false,
                Stats {
                    changed: got.len() as u64,
                    total: n as usize,
                    bytes: size(got) as u64,
                    removed: gone.len() as u64,
                },
                options.delete,
                remote@,
                local@,
            )
        },
    }
}

proof fn lemma_last_line(turn: PullTurn, lead: Seq<Seq<char>>, last: Seq<char>)
    requires
        turn.says(lead.push(last)),
    ensures
        turn.lines@.len() > 0,
        turn.lines@.last()@ == last,
{
    let t = text::texts(turn.lines@);
    assert(t.len() == lead.len() + 1);
    assert(t.last() == last);
    assert(turn.lines@.len() == t.len());
}

proof fn lemma_pull_from(
    remote: String,
    local: String,
    options: Options,
    world: PullWorld,
    turn: PullTurn,
    from: int,
    lead: Seq<Seq<char>>,
    before: Seq<(Option<usize>, Seq<u8>)>,
    got: Seq<(Option<usize>, Seq<u8>)>,
    gone: Seq<int>,
)
    requires
        !options.dry_run,
        turn.state.remote == remote && turn.state.local == local && turn.state.options == options,
        turn.state.tree@ == world.tree@,
        options.whole || turn.state.known@ == world.known@,
        world.ours@.len() == world.tree@.len(),
        0 < world.tree@.len() <= usize::MAX,
        0 <= from <= world.tree@.len(),
        before == chosen(originals(remote@, world), lacking(world, options.whole), from),
        turn.from_file(from, before.len() as int, lead),
        turn.state.bytes == size(before),
        got == (match turn.action {
            PullAction::Create(at) => before.push((at, Seq::empty())),
            _ => before,
        }),
        gone.len() == 0,
    ensures
        pull_stands(remote, local, options, world, turn, got, gone),
{
    let all = originals(remote@, world);
    let plan = lacking(world, options.whole);
    let n = world.tree@.len() as int;
    lemma_chosen_count(all, plan, from);
    assert(gone =~= Seq::empty());
    if from >= n && !options.delete {
        lemma_last_line(turn, lead, turn.state.summary(0));
    }
}

proof fn lemma_pull_removal(
    remote: String,
    local: String,
    options: Options,
    world: PullWorld,
    turn: PullTurn,
    present: Seq<String>,
    from: int,
    lead: Seq<Seq<char>>,
    got: Seq<(Option<usize>, Seq<u8>)>,
    before: Seq<int>,
    gone: Seq<int>,
)
    requires
        !options.dry_run,
        options.delete,
        turn.state.remote == remote && turn.state.local == local && turn.state.options == options,
        turn.state.tree@ == world.tree@,
        world.ours@.len() == world.tree@.len(),
        0 < world.tree@.len() <= usize::MAX,
        world.local@ == Some(present),
        present.len() <= usize::MAX,
        0 <= from <= present.len(),
        turn.from_removal(present, unlisted(present, world.tree@), from, lead),
        got == chosen(
            originals(remote@, world),
            lacking(world, options.whole),
            world.tree@.len() as int,
        ),
        turn.state.bytes == size(got),
        turn.state.changed == got.len(),
        before == chosen(places(present.len()), unlisted(present, world.tree@), from),
        gone == (match turn.action {
            PullAction::Remove(at) => before.push(at as int),
            _ => before,
        }),
    ensures
        pull_stands(remote, local, options, world, turn, got, gone),
{
    let doomed = unlisted(present, world.tree@);
    let all = places(present.len());
    lemma_next_set(doomed, from);
    let n = next_set(doomed, from);
    lemma_chosen_skips(all, doomed, from, n);
    lemma_chosen_count(all, doomed, doomed.len() as int);
    assert(doomed.take(doomed.len() as int) =~= doomed);
    if n >= doomed.len() {
        lemma_last_line(turn, lead, turn.state.summary(files::planned(doomed)));
    }
}

proof fn lemma_to_pull(world: PullWorld, i: int)
    requires
        world.ours@.len() == world.tree@.len(),
        0 <= i < world.tree@.len(),
    ensures
        files::to_pull(world.tree@[i]@, world.ours@[i], world.known@, false) == lacking(
            world,
            false,
        )[i],
{
    if let Some(h) = world.ours@[i] {
        lemma_last_report(world.known@, world.tree@[i]@, h);
    }
}

proof fn lemma_pull_goes_on(
    remote: String,
    local: String,
    options: Options,
    world: PullWorld,
    before: PullTurn,
    event: PullEvent,
    turn: PullTurn,
    turns: Seq<PullTurn>,
)
    requires
        !options.dry_run,
        world.ours@.len() == world.tree@.len(),
        world.tree@.len() <= usize::MAX,
        world.local@ matches Some(l) ==> l.len() <= usize::MAX,
        pull_stands(remote, local, options, world, before, made(turns), removed(turns)),
        is_pull_step(world, before, event, turn),
    ensures
        pull_stands(
            remote,
            local,
            options,
            world,
            turn,
            made(turns.push(turn)),
            removed(turns.push(turn)),
        ),
{
    let next = turns.push(turn);
    assert(next.drop_last() =~= turns);
    assert(next.last() == turn);
    let s = before.state;
    let all = originals(remote@, world);
    let plan = lacking(world, options.whole);
    let (got, gone) = (made(turns), removed(turns));
    let none = Seq::<Seq<char>>::empty();
    match s.phase {
        PullPhase::Listing => {
            assert(got =~= Seq::empty());
            if world.tree@.len() > 0 && options.whole {
                lemma_pull_from(
                    remote,
                    local,
                    options,
                    world,
                    turn,
                    0,
                    none,
                    got,
                    made(next),
                    removed(next),
                );
            }
            if world.tree@.len() == 0 {
                assert(made(next) =~= seq![(None::<usize>, Seq::<u8>::empty())]);
            }
        },
        PullPhase::Hashing => {
            assert(got =~= Seq::empty());
            lemma_pull_from(
                remote,
                local,
                options,
                world,
                turn,
                0,
                none,
                got,
                made(next),
                removed(next),
            );
        },
        PullPhase::Comparing(at) => {
            lemma_to_pull(world, at as int);
            if !plan[at as int] {
                lemma_pull_from(
                    remote,
                    local,
                    options,
                    world,
                    turn,
                    at + 1,
                    none,
                    got,
                    made(next),
                    removed(next),
                );
            }
        },
        PullPhase::Creating(at) => {
            match at {
                Some(i) => {
                    assert(all[i as int].1.take(0) =~= Seq::empty());
                },
                None => {
                    assert(world.held@[remote@].take(0) =~= Seq::empty());
                },
            }
        },
        PullPhase::Fetching { at, offset } => {
            let file = world.held@[s.path(at)];
            let chunk = part(file, offset as int, sync::CHUNK as int);
            assert(file.take(offset as int) + chunk =~= file.take(offset + chunk.len()));
            assert(turn.store matches Some(bytes) && bytes@ == chunk);
            assert(fetched(s, at, offset, chunk, turn));
            if chunk.len() < sync::CHUNK {
                assert(file.take(offset + chunk.len()) =~= file);
            }
            match at {
                Some(i) => {
                    let earlier = chosen(all, plan, i as int);
                    assert(file == all[i as int].1);
                    assert(got.drop_last() =~= earlier);
                    assert(got.last() == (at, file.take(offset as int)));
                    if chunk.len() < sync::CHUNK {
                        let whole = earlier.push((at, file));
                        assert(all[i as int] == (at, file));
                        assert(whole =~= chosen(all, plan, i + 1));
                        assert(whole.drop_last() =~= earlier);
                        lemma_pull_from(
                            remote,
                            local,
                            options,
                            world,
                            turn,
                            i + 1,
                            seq!["← "@ + s.tree@[i as int]@],
                            whole,
                            made(next),
                            removed(next),
                        );
                    }
                },
                None => {
                    assert(got.drop_last() =~= Seq::empty());
                    assert(got.last() == (at, file.take(offset as int)));
                    assert(made(next) =~= seq![(at, file.take(offset + chunk.len()))]);
                },
            }
        },
        PullPhase::Scanning => {
            assert(gone =~= Seq::empty());
            match world.local@ {
                Some(present) => {
                    let doomed = choose|doomed: Seq<bool>|
                        s.dooms(present, doomed) && #[trigger] turn.first_removal(present, doomed);
                    lemma_pull_dooms(s, present, doomed);
                    lemma_pull_removal(
                        remote,
                        local,
                        options,
                        world,
                        turn,
                        present,
                        0,
                        none,
                        got,
                        gone,
                        removed(next),
                    );
                },
                None => {
                    lemma_last_line(turn, none, turn.state.summary(0));
                },
            }
        },
        PullPhase::Removing { present, doomed, at } => {
            lemma_pull_removal(
                remote,
                local,
                options,
                world,
                turn,
                present@,
                at + 1,
                seq!["✗ (local) "@ + present@[at as int]@],
                got,
                gone,
                removed(next),
            );
        },
        PullPhase::Over => {},
    }
}

proof fn lemma_pull_run(
    remote: String,
    local: String,
    options: Options,
    world: PullWorld,
    events: Seq<PullEvent>,
    turns: Seq<PullTurn>,
)
    requires
        !options.dry_run,
        is_pull_run(remote, local, options, world, events, turns),
    ensures
        pull_stands(remote, local, options, world, turns.last(), made(turns), removed(turns)),
    decreases events.len(),
{
    let n = events.len() as int;
    if n == 0 {
        assert(turns.drop_last().len() == 0);
        assert(turns.last() == turns[0]);
        assert(made(turns.drop_last()) =~= Seq::empty());
        assert(removed(turns.drop_last()) =~= Seq::empty());
    } else {
        let (e, t) = (events.drop_last(), turns.drop_last());
        assert forall|i: int| #![trigger e[i]] 0 <= i < e.len() implies is_pull_step(
            world,
            t[i],
            e[i],
            t[i + 1],
        ) by {
            assert(events[i] == e[i]);
        }
        lemma_pull_run(remote, local, options, world, e, t);
        assert(events[n - 1] == events.last());
        assert(is_pull_step(world, turns[n - 1], events[n - 1], turns[n]));
        assert(t.last() == turns[n - 1]);
        lemma_pull_goes_on(remote, local, options, world, t.last(), events[n - 1], turns[n], t);
        assert(t.push(turns[n]) =~= turns);
    }
}

/// A pull that is no dry run and in which everything is answered does not fail. When
/// it is done, and nothing lies below the path, one local file was made with what
/// the runner holds there. Otherwise exactly the files were made whose content was
/// not known to be here, or all of them if that was asked for, each with what the
/// runner holds below the path, in order; and with deletion exactly the local files
/// that the runner lists no file like were removed, each once, in order. The last
/// line then sums up how many were made, of how many, with how many bytes, and how
/// many were removed.
pub proof fn law_pull_mirrors_the_runner(
    remote: String,
    local: String,
    options: Options,
    world: PullWorld,
    events: Seq<PullEvent>,
    turns: Seq<PullTurn>,
)
    requires
        !options.dry_run,
        is_pull_run(remote, local, options, world, events, turns),
    ensures
        !(turns.last().action is Unexpected),
        turns.last().action is Done && world.tree@.len() == 0 ==> made(turns) == seq![
            (None::<usize>, world.held@[remote@]),
        ] && removed(turns).len() == 0,
        turns.last().action is Done && world.tree@.len() > 0 ==> {
            &&& made(turns) == chosen(
                originals(remote@, world),
                lacking(world, options.whole),
                world.tree@.len() as int,
            )
            &&& removed(turns) == (if options.delete {
                surplus(world)
            } else {
                Seq::empty()
            })
            &&& turns.last().lines@.len() > 0 && turns.last().lines@.last()@ == files::summary(
                false,
                Stats {
                    changed: made(turns).len() as u64,
                    total: world.tree@.len() as usize,
                    bytes: size(made(turns)) as u64,
                    removed: removed(turns).len() as u64,
                },
                options.delete,
                remote@,
                local@,
            )
        },
{
    lemma_pull_run(remote, local, options, world, events, turns);
}

} // verus!
