//! The upgrade of a runner: download, check, swap and restart, with the way back.

use vstd::prelude::*;

use crate::number;
use crate::runner::install;
use crate::text;

verus! {

/// Smallest size of a release binary.
pub const MIN_EXE_BYTES: u64 = 1_000_000;

/// How long the stopped runner is given to let go of its binary.
pub const STOP_PAUSE_MS: u64 = 3000;

/// What an upgrade was asked for.
pub struct UpgradeArgs {
    /// Version, the latest if none.
    pub version: Option<String>,
    /// Only check the download.
    pub dry_run: bool,
}

/// What the arguments of an upgrade from position `i` on ask for.
pub open spec fn upgrade_args(
    args: Seq<Seq<char>>,
    i: int,
    version: Option<Seq<char>>,
    dry_run: bool,
) -> Result<(Option<Seq<char>>, bool), Seq<char>>
    decreases args.len() + 1 - i,
{
    if i >= args.len() {
        Ok((version, dry_run))
    } else if args[i] == "--version"@ {
        upgrade_args(args, i + 2, install::arg_at(args, i + 1), dry_run)
    } else if args[i] == "--dry-run"@ {
        upgrade_args(args, i + 1, version, true)
    } else {
        Err("unknown `upgrade` argument: "@ + args[i])
    }
}

/// Reads the arguments of an upgrade.
pub fn parse_upgrade(args: &Vec<String>) -> (r: Result<UpgradeArgs, String>)
    ensures
        match r {
            Ok(a) => upgrade_args(text::texts(args@), 0, None, false) == Ok::<
                (Option<Seq<char>>, bool),
                Seq<char>,
            >((install::view_of(a.version), a.dry_run)),
            Err(e) => upgrade_args(text::texts(args@), 0, None, false) == Err::<
                (Option<Seq<char>>, bool),
                Seq<char>,
            >(e@),
        },
{
    let ghost all = text::texts(args@);
    let count: usize = args.len();
    let mut version: Option<String> = None;
    let mut dry_run = false;
    let mut i: usize = 0;
    while i < count
        invariant
            count == args@.len(),
            all == text::texts(args@),
            upgrade_args(all, 0, None, false) == upgrade_args(
                all,
                i as int,
                install::view_of(version),
                dry_run,
            ),
        decreases count - i,
    {
        let name = args[i].as_str();
        assert(all[i as int] == name@);
        if text::same(name, "--version") {
            version = install::arg(args, i + 1);
            if i + 1 < count {
                i = i + 2;
            } else {
                assert(upgrade_args(all, i + 2, install::view_of(version), dry_run) == upgrade_args(
                    all,
                    count as int,
                    install::view_of(version),
                    dry_run,
                ));
                i = count;
            }
        } else if text::same(name, "--dry-run") {
            dry_run = true;
            i = i + 1;
        } else {
            return Err(text::join2("unknown `upgrade` argument: ", name));
        }
    }
    Ok(UpgradeArgs { version, dry_run })
}

/// Where the release binary of a version, or of the latest, is downloaded from.
pub open spec fn release_url(version: Option<Seq<char>>) -> Seq<char> {
    match version {
        Some(v) => "https://github.com/agent-rt/arc/releases/download/"@ + v + "/arc-runner.exe"@,
        None => "https://github.com/agent-rt/arc/releases/latest/download/arc-runner.exe"@,
    }
}

/// Makes the address that a release binary is downloaded from.
pub fn upgrade_url(version: &Option<String>) -> (r: String)
    ensures
        r@ == release_url(install::view_of(*version)),
{
    match version {
        Some(v) => text::join3(
            "https://github.com/agent-rt/arc/releases/download/",
            v.as_str(),
            "/arc-runner.exe",
        ),
        None => "https://github.com/agent-rt/arc/releases/latest/download/arc-runner.exe".to_owned(),
    }
}

/// Whether a downloaded file is taken for a release binary: it begins with `MZ`
/// and is large enough.
pub open spec fn is_release(magic: Seq<u8>, len: u64) -> bool {
    magic == seq![0x4Du8, 0x5Au8] && len >= MIN_EXE_BYTES
}

/// What an upgrade does once the download is there.
pub enum UpgradeStep {
    /// Remove the download and fail with this message.
    Refuse(String),
    /// Remove the download and report this.
    Preview(String),
    /// Swap the binaries and restart, then report this.
    Swap(String),
}

/// What becomes of a downloaded binary.
pub open spec fn judged(magic: Seq<u8>, len: u64, dry_run: bool, r: UpgradeStep) -> bool {
    if !is_release(magic, len) {
        r matches UpgradeStep::Refuse(m) && m@ == "downloaded file is not a valid exe (size "@
            + number::decimal(len as nat) + "); aborting"@
    } else if dry_run {
        r matches UpgradeStep::Preview(m) && m@ == "upgrade --dry-run: downloaded + validated "@
            + number::decimal(len as nat)
            + " bytes (valid exe); would swap and restart 'arc-runner'. No changes made."@
    } else {
        r matches UpgradeStep::Swap(m) && m@ == "Upgraded arc-runner ("@ + number::decimal(
            len as nat,
        ) + " bytes) and restarted task 'arc-runner'."@
    }
}

/// Decides what becomes of a downloaded binary.
pub fn check_download(magic: &[u8], len: u64, dry_run: bool) -> (r: UpgradeStep)
    ensures
        judged(magic@, len, dry_run, r),
{
    let size = number::decimal_text(len);
    let valid = magic.len() == 2 && magic[0] == 0x4D && magic[1] == 0x5A && len >= MIN_EXE_BYTES;
    proof {
        if magic@.len() == 2 && magic@[0] == 0x4D && magic@[1] == 0x5A {
            assert(magic@ =~= seq![0x4Du8, 0x5Au8]);
        }
        assert(valid == is_release(magic@, len));
    }
    if !valid {
        UpgradeStep::Refuse(
            text::join3(
                "downloaded file is not a valid exe (size ",
                size.as_str(),
                "); aborting",
            ),
        )
    } else if dry_run {
        UpgradeStep::Preview(
            text::join3(
                "upgrade --dry-run: downloaded + validated ",
                size.as_str(),
                " bytes (valid exe); would swap and restart 'arc-runner'. No changes made.",
            ),
        )
    } else {
        UpgradeStep::Swap(
            text::join3(
                "Upgraded arc-runner (",
                size.as_str(),
                " bytes) and restarted task 'arc-runner'.",
            ),
        )
    }
}

/// The places that an upgrade keeps binaries in.
#[derive(Debug, Clone, Copy, PartialEq, Eq, Structural)]
pub enum Place {
    /// The runner's own.
    Current,
    /// The download's.
    Fresh,
    /// The replaced one's.
    Backup,
}

/// Where an upgrade stands.
pub enum Upgrade {
    /// It waits for the download.
    Downloading {
        /// Only the download is checked.
        dry_run: bool,
    },
    /// It waits for the size and the first bytes of the download.
    Inspecting {
        /// Only the download is checked.
        dry_run: bool,
    },
    /// It waits for the removal of the download, and then ends like this.
    Discarding(UpgradeAction),
    /// It waits for the running task to end; this is reported in the end.
    Stopping(String),
    /// It lets some time pass.
    Resting(String),
    /// It waits for the removal of an old backup.
    Clearing(String),
    /// It waits for the runner's binary to be moved aside.
    SettingAside(String),
    /// It waits for the download to be moved in.
    Placing(String),
    /// It waits for the old binary to be moved back, and then fails like this.
    RollingBack(String),
    /// It waits for the removal of the backup.
    Cleaning(String),
    /// It waits for the task to start.
    Starting(String),
    /// There is nothing left to do.
    Over,
}

/// What an upgrade waited for.
pub enum UpgradeEvent {
    /// A program ended, with success or not, or could not be run.
    Ran(Result<bool, String>),
    /// The first two bytes of the download and its size, or why they cannot be read.
    Inspected(Result<(Vec<u8>, u64), String>),
    /// A file was moved or removed, or why it was not.
    Filed(Result<(), String>),
    /// The time has passed.
    Rested,
}

/// What an upgrade needs next.
pub enum UpgradeAction {
    /// Run PowerShell with these arguments.
    Download(Vec<String>),
    /// Read the size and the first two bytes of the download.
    Inspect,
    /// Run the task scheduler with these arguments.
    Tasks(Vec<String>),
    /// Let this many milliseconds pass.
    Rest(u64),
    /// Remove the binary at a place.
    Remove(Place),
    /// Move the binary from one place to another.
    Move(Place, Place),
    /// The upgrade is done; show this.
    Report(String),
    /// The upgrade failed, for this reason.
    Fail(String),
}

/// The script that fetches a release binary.
pub open spec fn fetch_script(url: Seq<char>, path: Seq<char>) -> Seq<char> {
    "Invoke-WebRequest -UseBasicParsing -Uri '"@ + url + "' -OutFile '"@ + path + "'"@
}

fn words(a: &str, b: &str, c: &str) -> (out: Vec<String>)
    ensures
        text::texts(out@) == seq![a@, b@, c@],
{
    let out: Vec<String> = vec![a.to_owned(), b.to_owned(), c.to_owned()];
    assert(text::texts(out@) =~= seq![a@, b@, c@]);
    out
}

/// Starts an upgrade: the release binary is downloaded to `path`. The line is shown
/// first.
pub fn run_upgrade(args: &UpgradeArgs, path: &str) -> (r: (Upgrade, String, UpgradeAction))
    ensures
        r.0 == (Upgrade::Downloading { dry_run: args.dry_run }),
        r.1@ == "Downloading "@ + release_url(install::view_of(args.version)),
        r.2 matches UpgradeAction::Download(words) && text::texts(words@) == seq![
            "-NoProfile"@,
            "-Command"@,
            fetch_script(release_url(install::view_of(args.version)), path@),
        ],
{
    let url = upgrade_url(&args.version);
    let mut script = text::join3("Invoke-WebRequest -UseBasicParsing -Uri '", url.as_str(), "' -OutFile '");
    script.append(path);
    script.append("'");
    (
        Upgrade::Downloading { dry_run: args.dry_run },
        text::join2("Downloading ", url.as_str()),
        UpgradeAction::Download(words("-NoProfile", "-Command", script.as_str())),
    )
}

impl Upgrade {
    /// Whether an event is the one that the upgrade waits for.
    pub open spec fn awaits(self, event: UpgradeEvent) -> bool {
        match self {
            Upgrade::Downloading { .. } | Upgrade::Stopping(_) | Upgrade::Starting(_) => event is Ran,
            Upgrade::Inspecting { .. } => event is Inspected,
            Upgrade::Resting(_) => event is Rested,
            Upgrade::Over => false,
            _ => event is Filed,
        }
    }
}

/// The upgrade fails with this message.
pub open spec fn fails(r: (Upgrade, UpgradeAction), message: Seq<char>) -> bool {
    r.0 is Over && (r.1 matches UpgradeAction::Fail(m) && m@ == message)
}

/// The task scheduler is told to start or end the runner's task.
pub open spec fn schedules(action: UpgradeAction, verb: Seq<char>) -> bool {
    action matches UpgradeAction::Tasks(words) && text::texts(words@) == seq![
        verb,
        "/tn"@,
        "arc-runner"@,
    ]
}

/// What follows a look at the download.
pub open spec fn inspected(dry_run: bool, magic: Seq<u8>, len: u64, r: (Upgrade, UpgradeAction)) -> bool {
    exists|step: UpgradeStep|
        {
            &&& #[trigger] judged(magic, len, dry_run, step)
            &&& match step {
                UpgradeStep::Refuse(m) => r.0 == Upgrade::Discarding(UpgradeAction::Fail(m)) && r.1
                    == UpgradeAction::Remove(Place::Fresh),
                UpgradeStep::Preview(m) => r.0 == Upgrade::Discarding(UpgradeAction::Report(m))
                    && r.1 == UpgradeAction::Remove(Place::Fresh),
                UpgradeStep::Swap(m) => r.0 == Upgrade::Stopping(m) && schedules(r.1, "/end"@),
            }
        }
}

/// One step of an upgrade. Ending the task, and removing a file, may fail without
/// consequence; a failure to move the download in is followed by the way back.
pub open spec fn steps(state: Upgrade, event: UpgradeEvent, r: (Upgrade, UpgradeAction)) -> bool {
    match (state, event) {
        (Upgrade::Downloading { dry_run }, UpgradeEvent::Ran(Ok(true))) => r.0 == (
        Upgrade::Inspecting { dry_run }) && r.1 == UpgradeAction::Inspect,
        (Upgrade::Downloading { .. }, UpgradeEvent::Ran(Ok(false))) => fails(r, "download failed"@),
        (Upgrade::Downloading { .. }, UpgradeEvent::Ran(Err(e))) => fails(r, e@),
        (Upgrade::Inspecting { dry_run }, UpgradeEvent::Inspected(Ok((magic, len)))) => inspected(
            dry_run,
            magic@,
            len,
            r,
        ),
        (Upgrade::Inspecting { .. }, UpgradeEvent::Inspected(Err(e))) => fails(r, e@),
        (Upgrade::Discarding(end), UpgradeEvent::Filed(_)) => r.0 is Over && r.1 == end,
        (Upgrade::Stopping(m), UpgradeEvent::Ran(_)) => r.0 == Upgrade::Resting(m) && r.1
            == UpgradeAction::Rest(STOP_PAUSE_MS),
        (Upgrade::Resting(m), UpgradeEvent::Rested) => r.0 == Upgrade::Clearing(m) && r.1
            == UpgradeAction::Remove(Place::Backup),
        (Upgrade::Clearing(m), UpgradeEvent::Filed(_)) => r.0 == Upgrade::SettingAside(m) && r.1
            == UpgradeAction::Move(Place::Current, Place::Backup),
        (Upgrade::SettingAside(m), UpgradeEvent::Filed(Ok(_))) => r.0 == Upgrade::Placing(m) && r.1
            == UpgradeAction::Move(Place::Fresh, Place::Current),
        (Upgrade::SettingAside(_), UpgradeEvent::Filed(Err(e))) => fails(
            r,
            "moving old binary aside: "@ + e@,
        ),
        (Upgrade::Placing(m), UpgradeEvent::Filed(Ok(_))) => r.0 == Upgrade::Cleaning(m) && r.1
            == UpgradeAction::Remove(Place::Backup),
        (Upgrade::Placing(_), UpgradeEvent::Filed(Err(e))) => (
        r.0 matches Upgrade::RollingBack(reason) && reason@ == "installing new binary: "@ + e@)
            && r.1 == UpgradeAction::Move(Place::Backup, Place::Current),
        (Upgrade::RollingBack(reason), UpgradeEvent::Filed(_)) => fails(r, reason@),
        (Upgrade::Cleaning(m), UpgradeEvent::Filed(_)) => r.0 == Upgrade::Starting(m) && schedules(
            r.1,
            "/run"@,
        ),
        (Upgrade::Starting(m), UpgradeEvent::Ran(Ok(_))) => r.0 is Over && r.1
            == UpgradeAction::Report(m),
        (Upgrade::Starting(_), UpgradeEvent::Ran(Err(e))) => fails(r, e@),
        _ => false,
    }
}

fn inspect(dry_run: bool, magic: Vec<u8>, len: u64) -> (r: (Upgrade, UpgradeAction))
    ensures
        inspected(dry_run, magic@, len, r),
{
    let step = check_download(magic.as_slice(), len, dry_run);
    let ghost taken = step;
    let r = match step {
        UpgradeStep::Refuse(m) => (
            Upgrade::Discarding(UpgradeAction::Fail(m)),
            UpgradeAction::Remove(Place::Fresh),
        ),
        UpgradeStep::Preview(m) => (
            Upgrade::Discarding(UpgradeAction::Report(m)),
            UpgradeAction::Remove(Place::Fresh),
        ),
        UpgradeStep::Swap(m) => (
            Upgrade::Stopping(m),
            UpgradeAction::Tasks(words("/end", "/tn", "arc-runner")),
        ),
    };
    assert(judged(magic@, len, dry_run, taken));
    r
}

/// Takes an upgrade one step further.
pub fn upgrade(state: Upgrade, event: UpgradeEvent) -> (r: (Upgrade, UpgradeAction))
    requires
        state.awaits(event),
    ensures
        steps(state, event, r),
{
    match (state, event) {
        (Upgrade::Downloading { dry_run }, UpgradeEvent::Ran(outcome)) => match outcome {
            Ok(true) => (Upgrade::Inspecting { dry_run }, UpgradeAction::Inspect),
            Ok(false) => (Upgrade::Over, UpgradeAction::Fail("download failed".to_owned())),
            Err(e) => (Upgrade::Over, UpgradeAction::Fail(e)),
        },
        (Upgrade::Inspecting { dry_run }, UpgradeEvent::Inspected(outcome)) => match outcome {
            Ok((magic, len)) => inspect(dry_run, magic, len),
            Err(e) => (Upgrade::Over, UpgradeAction::Fail(e)),
        },
        (Upgrade::Discarding(end), _) => (Upgrade::Over, end),
        (Upgrade::Stopping(m), _) => (Upgrade::Resting(m), UpgradeAction::Rest(STOP_PAUSE_MS)),
        (Upgrade::Resting(m), _) => (Upgrade::Clearing(m), UpgradeAction::Remove(Place::Backup)),
        (Upgrade::Clearing(m), _) => (
            Upgrade::SettingAside(m),
            UpgradeAction::Move(Place::Current, Place::Backup),
        ),
        (Upgrade::SettingAside(m), UpgradeEvent::Filed(outcome)) => match outcome {
            Ok(_) => (
                Upgrade::Placing(m),
                UpgradeAction::Move(Place::Fresh, Place::Current),
            ),
            Err(e) => (
                Upgrade::Over,
                UpgradeAction::Fail(text::join2("moving old binary aside: ", e.as_str())),
            ),
        },
        (Upgrade::Placing(m), UpgradeEvent::Filed(outcome)) => match outcome {
            Ok(_) => (Upgrade::Cleaning(m), UpgradeAction::Remove(Place::Backup)),
            Err(e) => (
                Upgrade::RollingBack(text::join2("installing new binary: ", e.as_str())),
                UpgradeAction::Move(Place::Backup, Place::Current),
            ),
        },
        (Upgrade::RollingBack(reason), _) => (Upgrade::Over, UpgradeAction::Fail(reason)),
        (Upgrade::Cleaning(m), _) => (
            Upgrade::Starting(m),
            UpgradeAction::Tasks(words("/run", "/tn", "arc-runner")),
        ),
        (Upgrade::Starting(m), UpgradeEvent::Ran(outcome)) => match outcome {
            Ok(_) => (Upgrade::Over, UpgradeAction::Report(m)),
            Err(e) => (Upgrade::Over, UpgradeAction::Fail(e)),
        },
        _ => (Upgrade::Over, UpgradeAction::Inspect),
    }
}

/// The binaries at the places of an upgrade.
pub struct Binaries {
    /// The runner's own.
    pub current: Option<Seq<u8>>,
    /// The download's.
    pub fresh: Option<Seq<u8>>,
    /// The replaced one's.
    pub backup: Option<Seq<u8>>,
}

/// What an event tells of the binaries that were there before it and are there
/// after it: a move that succeeded took the binary along, one that failed left
/// everything as it was; a removal touches only its own place; nothing else touches
/// the runner's binary or the backup.
pub open spec fn observed(state: Upgrade, event: UpgradeEvent, b: Binaries, a: Binaries) -> bool {
    let done = event matches UpgradeEvent::Filed(Ok(_));
    match state {
        Upgrade::SettingAside(_) => if done {
            b.current is Some && a.backup == b.current && a.current is None && a.fresh == b.fresh
        } else {
            a == b
        },
        Upgrade::Placing(_) => if done {
            b.fresh is Some && a.current == b.fresh && a.fresh is None && a.backup == b.backup
        } else {
            a == b
        },
        Upgrade::RollingBack(_) => if done {
            b.backup is Some && a.current == b.backup && a.backup is None && a.fresh == b.fresh
        } else {
            a == b
        },
        Upgrade::Clearing(_) | Upgrade::Cleaning(_) => a.current == b.current && a.fresh == b.fresh,
        _ => a.current == b.current && a.backup == b.backup,
    }
}

/// Where the old binary is while an upgrade goes on: in its place, or, while its
/// place is empty, in the backup.
pub open spec fn has_binary(state: Upgrade, b: Binaries, old: Seq<u8>) -> bool {
    match state {
        Upgrade::Placing(_) | Upgrade::RollingBack(_) => b.current is None && b.backup == Some(old),
        Upgrade::Cleaning(_) | Upgrade::Starting(_) | Upgrade::Over => b.current is Some,
        _ => b.current == Some(old),
    }
}

/// An upgrade that starts with a runner's binary in its place ends with one there,
/// whatever fails on the way, unless the old one cannot be moved back.
pub proof fn law_runner_survives_upgrade(
    state: Upgrade,
    event: UpgradeEvent,
    r: (Upgrade, UpgradeAction),
    b: Binaries,
    a: Binaries,
    old: Seq<u8>,
)
    requires
        state.awaits(event),
        steps(state, event, r),
        observed(state, event, b, a),
        has_binary(state, b, old),
        state is RollingBack ==> event matches UpgradeEvent::Filed(Ok(_)),
    ensures
        has_binary(r.0, a, old),
        state is RollingBack ==> a.current == Some(old),
        state is Placing && r.0 is Cleaning ==> a.current == b.fresh,
{
}

/// Whether an upgrade only checks the download, as far as it has come.
pub open spec fn only_checks(state: Upgrade) -> bool {
    match state {
        Upgrade::Downloading { dry_run } | Upgrade::Inspecting { dry_run } => dry_run,
        Upgrade::Discarding(end) => end is Report || end is Fail,
        Upgrade::Over => true,
        _ => false,
    }
}

/// A dry run moves no binary and leaves the task alone, from start to end.
pub proof fn law_dry_upgrade_changes_nothing(
    state: Upgrade,
    event: UpgradeEvent,
    r: (Upgrade, UpgradeAction),
)
    requires
        state.awaits(event),
        steps(state, event, r),
        only_checks(state),
    ensures
        only_checks(r.0),
        !(r.1 is Move),
        !(r.1 is Tasks),
        r.1 matches UpgradeAction::Remove(place) ==> place == Place::Fresh,
{
}

/// The binary at a place.
pub open spec fn binary_at(b: Binaries, place: Place) -> Option<Seq<u8>> {
    match place {
        Place::Current => b.current,
        Place::Fresh => b.fresh,
        Place::Backup => b.backup,
    }
}

/// What an action does to the binaries, given the event that tells how it went: a
/// move that succeeded took the binary along; a removal may have removed it; a
/// download may have brought one; all else leaves everything as it was.
pub open spec fn performed(
    action: UpgradeAction,
    event: UpgradeEvent,
    b: Binaries,
    a: Binaries,
    new: Seq<u8>,
) -> bool {
    let done = event matches UpgradeEvent::Filed(Ok(_));
    match action {
        UpgradeAction::Move(from, to) => forall|p: Place| #[trigger]
            binary_at(a, p) == (if !done {
                binary_at(b, p)
            } else if p == to {
                binary_at(b, from)
            } else if p == from {
                None
            } else {
                binary_at(b, p)
            }),
        UpgradeAction::Remove(at) => forall|p: Place|
            p != at ==> #[trigger] binary_at(a, p) == binary_at(b, p),
        UpgradeAction::Download(_) => a.current == b.current && a.backup == b.backup && (event
            == UpgradeEvent::Ran(Ok(true)) ==> a.fresh == Some(new)),
        _ => a == b,
    }
}

/// What holds of the binaries when an upgrade is in a state and is about to take an
/// action: the old one is in its place or, while that is empty, in the backup; and from
/// when it was placed on, the new one is there.
pub open spec fn binaries_stand(
    state: Upgrade,
    action: UpgradeAction,
    b: Binaries,
    old: Seq<u8>,
    new: Seq<u8>,
) -> bool {
    match state {
        Upgrade::Downloading { .. } => action is Download && b.current == Some(old),
        Upgrade::Inspecting { .. } => action is Inspect && b.current == Some(old) && b.fresh == Some(
            new,
        ),
        Upgrade::Discarding(end) => action == UpgradeAction::Remove(Place::Fresh) && b.current == Some(
            old,
        ) && (end is Fail || end is Report),
        Upgrade::Stopping(_) => action is Tasks && b.current == Some(old) && b.fresh == Some(new),
        Upgrade::Resting(_) => action is Rest && b.current == Some(old) && b.fresh == Some(new),
        Upgrade::Clearing(_) => action is Remove && b.current == Some(old) && b.fresh == Some(new),
        Upgrade::SettingAside(_) => action is Move && b.current == Some(old) && b.fresh == Some(new),
        Upgrade::Placing(_) => action is Move && b.current is None && b.backup == Some(old)
            && b.fresh == Some(new),
        Upgrade::RollingBack(_) => action is Move && b.current is None && b.backup == Some(old),
        Upgrade::Cleaning(_) => action is Remove && b.current == Some(new),
        Upgrade::Starting(_) => action is Tasks && b.current == Some(new),
        Upgrade::Over => action is Fail || action is Report,
    }
}

/// However the actions of an upgrade turn out, there is a runner's binary when it
/// ends, unless moving it back failed: the new one if the upgrade went through, the old
/// one if it failed before the new one was placed.
pub proof fn law_actions_swap_the_binaries(
    state: Upgrade,
    action: UpgradeAction,
    event: UpgradeEvent,
    r: (Upgrade, UpgradeAction),
    b: Binaries,
    a: Binaries,
    old: Seq<u8>,
    new: Seq<u8>,
)
    requires
        state.awaits(event),
        upgrade.ensures((state, event), r),
        performed(action, event, b, a, new),
        binaries_stand(state, action, b, old, new),
        // Each action is the one that the state was entered with.
        match state {
            Upgrade::Clearing(_) => action == UpgradeAction::Remove(Place::Backup),
            Upgrade::SettingAside(_) => action == UpgradeAction::Move(Place::Current, Place::Backup),
            Upgrade::Placing(_) => action == UpgradeAction::Move(Place::Fresh, Place::Current),
            Upgrade::RollingBack(_) => action == UpgradeAction::Move(Place::Backup, Place::Current),
            Upgrade::Cleaning(_) => action == UpgradeAction::Remove(Place::Backup),
            _ => true,
        },
    ensures
        binaries_stand(r.0, r.1, a, old, new),
        match r.0 {
            Upgrade::Clearing(_) => r.1 == UpgradeAction::Remove(Place::Backup),
            Upgrade::SettingAside(_) => r.1 == UpgradeAction::Move(Place::Current, Place::Backup),
            Upgrade::Placing(_) => r.1 == UpgradeAction::Move(Place::Fresh, Place::Current),
            Upgrade::RollingBack(_) => r.1 == UpgradeAction::Move(Place::Backup, Place::Current),
            Upgrade::Cleaning(_) => r.1 == UpgradeAction::Remove(Place::Backup),
            _ => true,
        },
        state is Starting ==> a.current == Some(new),
        state is RollingBack && event == UpgradeEvent::Filed(Ok(())) ==> a.current == Some(old),
        r.0 is Over && !(state is Starting) && !(state is RollingBack) ==> a.current == Some(old),
{
    assert(binary_at(a, Place::Current) == a.current && binary_at(b, Place::Current) == b.current);
    assert(binary_at(a, Place::Fresh) == a.fresh && binary_at(b, Place::Fresh) == b.fresh);
    assert(binary_at(a, Place::Backup) == a.backup && binary_at(b, Place::Backup) == b.backup);
}

/// A download is taken for a binary exactly if it begins with `MZ` and has a million
/// bytes or more; only then, and without a dry run, is it swapped in.
pub proof fn law_only_a_binary_is_swapped_in(magic: &[u8], len: u64, dry_run: bool, r: UpgradeStep)
    requires
        check_download.ensures((magic, len, dry_run), r),
    ensures
        ({
            let good = magic@.len() == 2 && magic@[0] == 0x4D && magic@[1] == 0x5A && len
                >= 1_000_000;
            &&& r is Refuse <==> !good
            &&& r is Preview <==> good && dry_run
            &&& r is Swap <==> good && !dry_run
        }),
{
    if magic@.len() == 2 && magic@[0] == 0x4D && magic@[1] == 0x5A {
        assert(magic@ =~= seq![0x4Du8, 0x5Au8]);
    }
}

/// The binary of a version is downloaded from that version's release, and without a
/// version from the latest, to the path that is given.
pub proof fn law_asked_version_is_downloaded(
    args: &UpgradeArgs,
    path: &str,
    url: String,
    r: (Upgrade, String, UpgradeAction),
)
    requires
        upgrade_url.ensures((&args.version,), url),
        run_upgrade.ensures((args, path), r),
    ensures
        args.version matches Some(v) ==> url@
            == "https://github.com/agent-rt/arc/releases/download/"@ + v@ + "/arc-runner.exe"@,
        args.version is None ==> url@
            == "https://github.com/agent-rt/arc/releases/latest/download/arc-runner.exe"@,
        r.0 == (Upgrade::Downloading { dry_run: args.dry_run }),
        r.1@ == "Downloading "@ + url@,
        r.2 matches UpgradeAction::Download(words) && words@.len() == 3 && words@[2]@
            == "Invoke-WebRequest -UseBasicParsing -Uri '"@ + url@ + "' -OutFile '"@ + path@ + "'"@,
{
    if let UpgradeAction::Download(words) = r.2 {
        let t = text::texts(words@);
        assert(t.len() == words@.len());
        assert(t[2] == words@[2]@);
    }
}

proof fn lemma_upgrade_shifted(
    front: Seq<Seq<char>>,
    rest: Seq<Seq<char>>,
    i: int,
    version: Option<Seq<char>>,
    dry_run: bool,
)
    requires
        0 <= i,
    ensures
        upgrade_args(front + rest, front.len() + i, version, dry_run) == upgrade_args(
            rest,
            i,
            version,
            dry_run,
        ),
    decreases rest.len() + 1 - i,
{
    let all = front + rest;
    let k = front.len() + i;
    if i < rest.len() {
        assert(all[k] == rest[i]);
        assert(install::arg_at(all, k + 1) == install::arg_at(rest, i + 1));
        lemma_upgrade_shifted(front, rest, i + 2, install::arg_at(rest, i + 1), dry_run);
        lemma_upgrade_shifted(front, rest, i + 1, version, true);
    }
}

proof fn lemma_upgrade_agree(
    args: Seq<Seq<char>>,
    i: int,
    a: (Option<Seq<char>>, bool),
    b: (Option<Seq<char>>, bool),
)
    requires
        0 <= i,
    ensures
        ({
            let r = upgrade_args(args, i, a.0, a.1);
            let s = upgrade_args(args, i, b.0, b.1);
            &&& r is Ok <==> s is Ok
            &&& r matches Ok(x) ==> {
                let y = s->Ok_0;
                &&& x.0 == y.0 || (x.0 == a.0 && y.0 == b.0)
                &&& !args.contains("--version"@) ==> x.0 == a.0 && y.0 == b.0
                &&& a.1 == b.1 ==> x.1 == y.1
                &&& a.1 ==> x.1
            }
        }),
    decreases args.len() + 1 - i,
{
    if i < args.len() {
        assert(args.contains(args[i]));
        lemma_upgrade_agree(
            args,
            i + 2,
            (install::arg_at(args, i + 1), a.1),
            (install::arg_at(args, i + 1), b.1),
        );
        lemma_upgrade_agree(args, i + 1, (a.0, true), (b.0, true));
    }
}

/// Without arguments an upgrade is to the latest version. `--dry-run` before others
/// makes it a dry one, and `--version` takes what follows for the version, unless
/// another one comes later; neither changes anything else. Whatever else stands first
/// is refused by its name.
pub proof fn law_upgrade_arguments(
    args: &Vec<String>,
    more: &Vec<String>,
    first: Seq<char>,
    value: Seq<char>,
    r: Result<UpgradeArgs, String>,
    s: Result<UpgradeArgs, String>,
)
    requires
        parse_upgrade.ensures((args,), r),
        parse_upgrade.ensures((more,), s),
    ensures
        args@.len() == 0 ==> (r matches Ok(a) && a.version is None && !a.dry_run),
        text::texts(more@) == seq!["--dry-run"@] + text::texts(args@) ==> {
            &&& s is Ok <==> r is Ok
            &&& s matches Ok(b) ==> b.dry_run && install::view_of(b.version) == install::view_of(
                (r->Ok_0).version,
            )
        },
        text::texts(more@) == seq!["--version"@, value] + text::texts(args@) ==> {
            &&& s is Ok <==> r is Ok
            &&& s matches Ok(b) ==> {
                let a = r->Ok_0;
                &&& b.dry_run == a.dry_run
                &&& a.version is Some ==> install::view_of(b.version) == install::view_of(a.version)
                &&& !text::texts(args@).contains("--version"@) ==> install::view_of(b.version)
                    == Some(value)
            }
        },
        text::texts(more@) == seq![first] + text::texts(args@) && first != "--dry-run"@ && first
            != "--version"@ ==> (s matches Err(e) && e@ == "unknown `upgrade` argument: "@ + first),
{
    reveal_strlit("--dry-run");
    reveal_strlit("--version");
    assert("--dry-run"@[2] == 'd' && "--version"@[2] == 'v');
    let rest = text::texts(args@);
    let all = text::texts(more@);
    if all == seq!["--dry-run"@] + rest {
        assert(all[0] == "--dry-run"@);
        lemma_upgrade_shifted(seq!["--dry-run"@], rest, 0, None, true);
        lemma_upgrade_agree(rest, 0, (None, true), (None, false));
    }
    if all == seq!["--version"@, value] + rest {
        assert(all[0] == "--version"@ && all[1] == value);
        lemma_upgrade_shifted(seq!["--version"@, value], rest, 0, Some(value), false);
        lemma_upgrade_agree(rest, 0, (Some(value), false), (None, false));
    }
    if all == seq![first] + rest {
        assert(all[0] == first);
    }
}

} // verus!
