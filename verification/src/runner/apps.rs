//! Launching applications and enumerating top-level windows.

use vstd::prelude::*;

use crate::number;
use crate::proto::id::WindowId;
use crate::proto::wire::{Rect, RemoteErrorKind, Reply, WindowInfo};
use crate::runner::uia::Bounds;
use crate::runner_core::{is_error, os_error, RemoteResult};
use crate::text;

verus! {

/// How many milliseconds a launch is watched unless the request says otherwise. A
/// failure to load shows well within that time.
pub const DEFAULT_LAUNCH_WATCH_MS: u64 = 800;

/// What a look at a launched process shows.
pub enum Polled {
    /// It has ended, with this exit code if there is one.
    Exited(Option<i32>),
    /// It is running.
    Running,
    /// That could not be told.
    Unknown,
}

/// What comes after a look at a launched process.
#[derive(Debug, Clone, Copy, PartialEq, Eq)]
pub enum LaunchStep {
    /// It ended early: report that, and for an abnormal exit what is known of it.
    Ended {
        /// Exit code, if there is one.
        exit_code: Option<i32>,
        /// Whether to look for the cause.
        look_up: bool,
    },
    /// Look again after this many milliseconds.
    Wait(u64),
    /// It counts as launched.
    Launched,
}

/// How long a launch is watched.
pub open spec fn watched_ms(watch_ms: Option<u64>) -> u64 {
    match watch_ms {
        Some(ms) => ms,
        None => DEFAULT_LAUNCH_WATCH_MS,
    }
}

/// Decides what comes after a look at a launched process. A watch of zero
/// milliseconds does not look at all.
pub fn open_app(watch_ms: Option<u64>, elapsed_ms: u64, polled: Polled) -> (r: LaunchStep)
    ensures
        r == if watched_ms(watch_ms) == 0 {
            LaunchStep::Launched
        } else {
            match polled {
                Polled::Exited(exit_code) => LaunchStep::Ended {
                    exit_code,
                    look_up: exit_code != Some(0i32),
                },
                Polled::Running => if elapsed_ms < watched_ms(watch_ms) {
                    LaunchStep::Wait(50)
                } else {
                    LaunchStep::Launched
                },
                Polled::Unknown => LaunchStep::Launched,
            }
        },
{
    let watch: u64 = match watch_ms {
        Some(ms) => ms,
        None => DEFAULT_LAUNCH_WATCH_MS,
    };
    if watch == 0 {
        return LaunchStep::Launched;
    }
    match polled {
        Polled::Exited(exit_code) => {
            let look_up = match exit_code {
                Some(code) => code != 0,
                None => true,
            };
            LaunchStep::Ended { exit_code, look_up }
        },
        Polled::Running => if elapsed_ms < watch {
            LaunchStep::Wait(50)
        } else {
            LaunchStep::Launched
        },
        Polled::Unknown => LaunchStep::Launched,
    }
}

/// The reply to a launch: the window is not waited for.
pub fn opened(pid: u32, exit_code: Option<i32>, diagnostic: Option<String>) -> (r: Reply)
    ensures
        r == (Reply::AppOpened { window: None, pid, exit_code, diagnostic }),
{
    Reply::AppOpened { window: None, pid, exit_code, diagnostic }
}

/// The query for the latest error event of the last half minute that mentions the
/// executable.
pub open spec fn error_query(name: Seq<char>) -> Seq<char> {
    "$ErrorActionPreference='SilentlyContinue'; Get-WinEvent -FilterHashtable @{LogName='Application'; Level=2; StartTime=(Get-Date).AddSeconds(-30)} -MaxEvents 20 | Where-Object { $_.Message -match [regex]::Escape('"@
        + text::replaced(name, '\'', "''"@)
        + "') } | Select-Object -First 1 -ExpandProperty Message"@
}

/// Writes the query for the latest error event of an executable, given its file
/// name.
pub fn recent_app_error_query(name: &str) -> (r: String)
    ensures
        r@ == error_query(name@),
{
    text::join3(
        "$ErrorActionPreference='SilentlyContinue'; Get-WinEvent -FilterHashtable @{LogName='Application'; Level=2; StartTime=(Get-Date).AddSeconds(-30)} -MaxEvents 20 | Where-Object { $_.Message -match [regex]::Escape('",
        text::replace_char(name, '\'', "''").as_str(),
        "') } | Select-Object -First 1 -ExpandProperty Message",
    )
}

/// What the event query found: its output without surrounding whitespace, if that
/// leaves anything.
pub fn recent_app_error(stdout: &[u8]) -> (r: Option<String>)
    ensures
        ({
            let message = text::trim(text::lossy_text(stdout@));
            match r {
                Some(m) => message.len() > 0 && m@ == message,
                None => message.len() == 0,
            }
        }),
{
    let message = text::trimmed(text::chars_of(text::lossy(stdout).as_str()).as_slice());
    if message.len() > 0 {
        Some(text::string_of(message.as_slice()))
    } else {
        None
    }
}

/// The file name of a process dump.
pub fn dump_name(pid: u32) -> (r: String)
    ensures
        r@ == "arc-procdump-"@ + number::decimal(pid as nat) + ".dmp"@,
{
    text::join3("arc-procdump-", number::decimal_text(pid as u64).as_str(), ".dmp")
}

/// What the system tells of a top-level window.
pub struct SeenWindow {
    /// Handle.
    pub handle: u64,
    /// Whether it is visible.
    pub visible: bool,
    /// Title.
    pub title: String,
    /// Path of the executable that owns it.
    pub image: String,
    /// Its edges, if they could be read.
    pub bounds: Option<Bounds>,
}

/// The part of a path after the last slash or backslash.
pub open spec fn base_name(path: Seq<char>) -> Seq<char>
    decreases path.len(),
{
    if path.len() == 0 || path.last() == '\\' || path.last() == '/' {
        Seq::empty()
    } else {
        base_name(path.drop_last()).push(path.last())
    }
}

/// The part of a path after the last slash or backslash.
pub fn process_name(path: &str) -> (r: String)
    ensures
        r@ == base_name(path@),
{
    let chars = text::chars_of(path);
    let mut out = String::new();
    let mut i: usize = 0;
    assert(chars@.take(0) =~= Seq::<char>::empty());
    while i < chars.len()
        invariant
            i <= chars@.len(),
            out@ == base_name(chars@.take(i as int)),
        decreases chars@.len() - i,
    {
        assert(chars@.take(i + 1).drop_last() =~= chars@.take(i as int));
        let c = chars[i];
        if c == '\\' || c == '/' {
            out = String::new();
        } else {
            out.push(c);
        }
        i = i + 1;
    }
    assert(chars@.take(i as int) =~= chars@);
    out
}

/// Whether a window is listed: it is visible and has a title.
pub open spec fn is_listed(seen: SeenWindow) -> bool {
    seen.visible && seen.title@.len() > 0
}

/// Whether `info` describes the window.
pub open spec fn describes_window(info: WindowInfo, seen: SeenWindow, foreground: u64) -> bool {
    &&& info.id.0 == seen.handle
    &&& info.title == seen.title
    &&& info.process@ == base_name(seen.image@)
    &&& info.focused == (seen.handle == foreground)
    &&& info.rect == match seen.bounds {
        Some(b) => b.spec_rect(),
        None => Rect { x: 0, y: 0, width: 0, height: 0 },
    }
}

/// Describes the windows that are listed, in their order.
pub fn visible_windows(seen: Vec<SeenWindow>, foreground: u64) -> (out: Vec<WindowInfo>)
    requires
        forall|i: int|
            0 <= i < seen@.len() ==> ((#[trigger] seen@[i]).bounds matches Some(b) ==> b.sized()),
    ensures
        ({
            let kept = seen@.filter(|w: SeenWindow| is_listed(w));
            out@.len() == kept.len() && forall|i: int|
                0 <= i < kept.len() ==> describes_window(#[trigger] out@[i], kept[i], foreground)
        }),
{
    let ghost keep = |w: SeenWindow| is_listed(w);
    let ghost all = seen@;
    let mut out: Vec<WindowInfo> = Vec::new();
    proof {
        reveal(Seq::filter);
    }
    for w in it: seen
        invariant
            it.seq() == all,
            keep == (|w: SeenWindow| is_listed(w)),
            forall|i: int|
                0 <= i < all.len() ==> ((#[trigger] all[i]).bounds matches Some(b) ==> b.sized()),
            out@.len() == all.take(it.index()).filter(keep).len(),
            forall|i: int|
                0 <= i < out@.len() ==> describes_window(
                    #[trigger] out@[i],
                    all.take(it.index()).filter(keep)[i],
                    foreground,
                ),
    {
        proof {
            reveal(Seq::filter);
            assert(all.take(it.index() + 1).drop_last() =~= all.take(it.index()));
            assert(all.take(it.index() + 1).last() == w);
            assert(all[it.index()] == w);
        }
        if w.visible && text::chars_of(w.title.as_str()).len() > 0 {
            let rect = match w.bounds {
                Some(b) => b.rect(),
                None => Rect::default(),
            };
            out.push(
                WindowInfo {
                    id: WindowId(w.handle),
                    title: w.title,
                    process: process_name(w.image.as_str()),
                    focused: w.handle == foreground,
                    rect,
                },
            );
        }
    }
    assert(all.take(all.len() as int) =~= all);
    out
}

/// Dumps a process where that is not possible.
pub fn proc_dump(_pid: u32) -> (r: RemoteResult<Reply>)
    ensures
        r matches Err(e) && is_error(
            e,
            RemoteErrorKind::Os,
            "procdump is only supported on Windows"@,
        ),
{
    Err(os_error("procdump is only supported on Windows"))
}

/// Lists windows where that is not possible.
pub fn list_windows() -> (r: RemoteResult<Reply>)
    ensures
        r matches Err(e) && is_error(
            e,
            RemoteErrorKind::Os,
            "window enumeration is only supported on Windows"@,
        ),
{
    Err(os_error("window enumeration is only supported on Windows"))
}

/// Activates a window where that is not possible.
pub fn activate_window(_window: WindowId) -> (r: RemoteResult<Reply>)
    ensures
        r matches Err(e) && is_error(
            e,
            RemoteErrorKind::Os,
            "window activation is only supported on Windows"@,
        ),
{
    Err(os_error("window activation is only supported on Windows"))
}

/// A launch is watched for the time that is asked for, eight tenths of a second if
/// none is, and not at all if it is zero. An end within that time is reported, with
/// its code, and looked into unless it was a success; an app that runs on, or of which
/// nothing can be told, counts as launched.
pub proof fn law_launch_is_watched(
    watch_ms: u64,
    elapsed_ms: u64,
    exit_code: Option<i32>,
    ended: LaunchStep,
    running: LaunchStep,
    usual: LaunchStep,
    unknown: LaunchStep,
)
    requires
        open_app.ensures((Some(watch_ms), elapsed_ms, Polled::Exited(exit_code)), ended),
        open_app.ensures((Some(watch_ms), elapsed_ms, Polled::Running), running),
        open_app.ensures((None::<u64>, elapsed_ms, Polled::Running), usual),
        open_app.ensures((Some(watch_ms), elapsed_ms, Polled::Unknown), unknown),
    ensures
        watch_ms == 0 ==> ended is Launched && running is Launched,
        watch_ms > 0 ==> (ended matches LaunchStep::Ended { exit_code: c, look_up } && c == exit_code
            && (look_up <==> exit_code != Some(0i32))),
        running is Wait <==> elapsed_ms < watch_ms,
        running is Launched <==> elapsed_ms >= watch_ms,
        usual is Wait <==> elapsed_ms < 800,
        usual is Launched <==> elapsed_ms >= 800,
        unknown is Launched,
{
}

/// What an event log says is taken without the white space around it, and nothing is
/// said if nothing is left.
pub proof fn law_silent_log_is_no_diagnostic(stdout: &[u8], r: Option<String>)
    requires
        recent_app_error.ensures((stdout,), r),
    ensures
        r is None <==> text::trim(text::lossy_text(stdout@)).len() == 0,
        r matches Some(m) ==> m@ == text::trim(text::lossy_text(stdout@)),
{
}

/// The name of a process is what follows the last slash or backslash of its path: it
/// holds neither, and the path ends with it.
pub proof fn law_process_name_is_the_last_part(path: &str, r: String)
    requires
        process_name.ensures((path,), r),
    ensures
        !r@.contains('/') && !r@.contains('\\'),
        r@.len() <= path@.len(),
        path@.skip(path@.len() - r@.len()) == r@,
        r@.len() < path@.len() ==> path@[path@.len() - r@.len() - 1] == '/' || path@[path@.len()
            - r@.len() - 1] == '\\',
{
    lemma_base_name(path@);
}

proof fn lemma_base_name(path: Seq<char>)
    ensures
        ({
            let r = base_name(path);
            &&& !r.contains('/') && !r.contains('\\')
            &&& r.len() <= path.len()
            &&& path.skip(path.len() - r.len()) == r
            &&& r.len() < path.len() ==> path[path.len() - r.len() - 1] == '/' || path[path.len()
                - r.len() - 1] == '\\'
        }),
    decreases path.len(),
{
    let r = base_name(path);
    if path.len() == 0 || path.last() == '\\' || path.last() == '/' {
        assert(path.skip(path.len() as int) =~= Seq::empty());
    } else {
        let front = path.drop_last();
        lemma_base_name(front);
        let b = base_name(front);
        assert(path.skip(path.len() - r.len()) =~= front.skip(front.len() - b.len()).push(
            path.last(),
        ));
        if r.contains('/') {
            let k = choose|k: int| 0 <= k < r.len() && r[k] == '/';
            if k < b.len() {
                assert(b[k] == '/');
            }
        }
        if r.contains('\\') {
            let k = choose|k: int| 0 <= k < r.len() && r[k] == '\\';
            if k < b.len() {
                assert(b[k] == '\\');
            }
        }
    }
}

/// Exactly the visible windows with a title are listed; each is described by its
/// handle, title, executable and place, and only the one in front has the focus.
pub proof fn law_visible_windows_are_listed(
    seen: Vec<SeenWindow>,
    foreground: u64,
    out: Vec<WindowInfo>,
    i: int,
    j: int,
    name: String,
    image: &str,
)
    requires
        visible_windows.ensures((seen, foreground), out),
    ensures
        0 <= i < seen@.len() && seen@[i].visible && seen@[i].title@.len() > 0 ==> exists|k: int|
            0 <= k < out@.len() && (#[trigger] out@[k]).id.0 == seen@[i].handle && out@[k].title
                == seen@[i].title,
        0 <= j < out@.len() ==> exists|k: int|
            {
                &&& 0 <= k < seen@.len() && (#[trigger] seen@[k]).visible
                &&& seen@[k].title@.len() > 0 && out@[j].id.0 == seen@[k].handle
                &&& out@[j].title == seen@[k].title
                &&& image@ == seen@[k].image@ && process_name.ensures((image,), name)
                    ==> out@[j].process@ == name@
                &&& seen@[k].bounds matches Some(b) ==> (b.sized() ==> out@[j].rect.x == b.left
                    && out@[j].rect.y == b.top && out@[j].rect.x + out@[j].rect.width == b.right
                    && out@[j].rect.y + out@[j].rect.height == b.bottom)
            },
        0 <= j < out@.len() ==> (out@[j].focused <==> out@[j].id.0 == foreground),
{
    let keep = |w: SeenWindow| is_listed(w);
    let kept = seen@.filter(keep);
    if 0 <= i < seen@.len() && seen@[i].visible && seen@[i].title@.len() > 0 {
        seen@.lemma_filter_contains(keep, i);
        let k = choose|k: int| 0 <= k < kept.len() && kept[k] == seen@[i];
        assert(describes_window(out@[k], kept[k], foreground));
        assert(out@[k].id.0 == seen@[i].handle && out@[k].title == seen@[i].title);
    }
    if 0 <= j < out@.len() {
        assert(describes_window(out@[j], kept[j], foreground));
        seen@.lemma_filter_pred(keep, j);
        assert(kept.contains(kept[j]));
        seen@.lemma_filter_contains_rev(keep, kept[j]);
        let k = choose|k: int| 0 <= k < seen@.len() && seen@[k] == kept[j];
        assert(seen@[k].visible);
    }
}

} // verus!
