//! Screenshots: what is asked for, how an image is judged against a baseline, and
//! the launch-wait-capture sequence.

use vstd::prelude::*;

use crate::capture::{changed_pixels, compare, overlay, Comparison, Pixels};
use crate::cli::ui::{matches_needle, window_matches};
use crate::number;
use crate::path;
use crate::proto::id::{ElementId, WindowId};
use crate::proto::wire::{CaptureTarget, Command, Image, ImageFormat, Reply, WindowInfo};
use crate::runner::capture::{decode, file_image};
use crate::text;

verus! {

/// The encoding that a file name asks for.
pub open spec fn extension_format(out: Seq<char>) -> Option<ImageFormat> {
    let lower = text::lowercase(out);
    if text::finishes(lower, ".png"@) {
        Some(ImageFormat::Png)
    } else if text::finishes(lower, ".webp"@) {
        Some(ImageFormat::Webp)
    } else {
        None
    }
}

/// Infers the encoding from a file name: `.png` is PNG, `.webp` is WebP.
pub fn format_from_ext(out: &str) -> (r: Option<ImageFormat>)
    ensures
        r == extension_format(out@),
{
    let lower = text::lowercased(text::chars_of(out).as_slice());
    if text::ends(lower.as_slice(), text::chars_of(".png").as_slice()) {
        Some(ImageFormat::Png)
    } else if text::ends(lower.as_slice(), text::chars_of(".webp").as_slice()) {
        Some(ImageFormat::Webp)
    } else {
        None
    }
}

/// Asks for a capture of an element, else of a window, else of the whole screen,
/// encoded as the output file's name says.
pub fn screencap(out: &str, window: Option<u64>, element: Option<String>) -> (r: Command)
    ensures
        r == (Command::Screenshot {
            target: match (element, window) {
                (Some(id), _) => CaptureTarget::Element(ElementId(id)),
                (None, Some(handle)) => CaptureTarget::Window(WindowId(handle)),
                (None, None) => CaptureTarget::FullScreen,
            },
            format: extension_format(out@),
            settle_ms: None,
            settle_await_change: false,
        }),
{
    let target = match (element, window) {
        (Some(id), _) => CaptureTarget::Element(ElementId(id)),
        (None, Some(handle)) => CaptureTarget::Window(WindowId(handle)),
        (None, None) => CaptureTarget::FullScreen,
    };
    Command::Screenshot {
        target,
        format: format_from_ext(out),
        settle_ms: None,
        settle_await_change: false,
    }
}

/// The name of an encoding in reports.
pub open spec fn format_label(format: ImageFormat) -> Seq<char> {
    match format {
        ImageFormat::Webp => "Webp"@,
        ImageFormat::Png => "Png"@,
    }
}

/// What is reported of an image that was saved.
pub open spec fn saved_line(out: Seq<char>, window: Option<u64>, image: Image) -> Seq<char> {
    "saved "@ + out + " ("@ + (match window {
        Some(handle) => "window "@ + number::decimal(handle as nat) + ", "@,
        None => ""@,
    }) + number::decimal(image.width as nat) + "x"@ + number::decimal(image.height as nat) + ", "@
        + format_label(image.format) + ", "@ + number::decimal(image.data@.len()) + " bytes)"@
}

/// Reports an image that was saved, and where it names one, its window.
pub fn saved(out: &str, window: Option<u64>, image: &Image) -> (r: String)
    ensures
        r@ == saved_line(out@, window, *image),
{
    let mut line = text::join3("saved ", out, " (");
    let ghost start = line@;
    match window {
        Some(handle) => {
            let part = text::join3("window ", number::decimal_text(handle).as_str(), ", ");
            line.append(part.as_str());
        },
        None => {
            line.append("");
        },
    }
    line.append(number::decimal_text(image.width as u64).as_str());
    line.append("x");
    line.append(number::decimal_text(image.height as u64).as_str());
    line.append(", ");
    line.append(
        match image.format {
            ImageFormat::Webp => "Webp",
            ImageFormat::Png => "Png",
        },
    );
    line.append(", ");
    line.append(number::decimal_text(image.data.len() as u64).as_str());
    line.append(" bytes)");
    line
}

/// Compares freshly captured bytes with a baseline, pixel by pixel. The changed
/// pixels are painted where a painted image is asked for.
pub fn compare_baseline(captured: &[u8], base: &Pixels, paint: bool) -> (r: Result<
    Comparison,
    String,
>)
    requires
        base.well_formed(),
    ensures
        match (file_image(captured@), r) {
            (None, Err(e)) => e@ == "decoding the captured image"@,
            (Some(new), Ok(found)) => match found {
                Comparison::Resized => new.0 != base.width || new.1 != base.height,
                Comparison::Compared { changed, total, overlay: painted } => {
                    &&& new.0 == base.width && new.1 == base.height
                    &&& total == new.0 * new.1
                    &&& changed == changed_pixels(new.2, base.data@, total as nat)
                    &&& match painted {
                        Some(data) => paint && data@ == overlay(new.2, base.data@),
                        None => !paint,
                    }
                },
            },
            _ => false,
        },
{
    match decode(captured) {
        Err(_) => Err("decoding the captured image".to_string()),
        Ok(new) => Ok(compare(&new, base, paint)),
    }
}

/// What is reported of an image of another size than its baseline.
pub fn size_differs(new_width: u32, new_height: u32, base_width: u32, base_height: u32) -> (r:
    String)
    ensures
        r@ == "DIFFERS: size "@ + number::decimal(new_width as nat) + "x"@ + number::decimal(
            new_height as nat,
        ) + " vs baseline "@ + number::decimal(base_width as nat) + "x"@ + number::decimal(
            base_height as nat,
        ),
{
    let mut line = text::join3("DIFFERS: size ", number::decimal_text(new_width as u64).as_str(), "x");
    line.append(number::decimal_text(new_height as u64).as_str());
    line.append(" vs baseline ");
    line.append(number::decimal_text(base_width as u64).as_str());
    line.append("x");
    line.append(number::decimal_text(base_height as u64).as_str());
    line
}

/// The part of a title or process name by which the window is found: the one
/// given, else the stem of what is launched.
pub open spec fn needle_for(app: Option<String>, launch: Option<String>) -> Option<Seq<char>> {
    match (app, launch) {
        (Some(a), _) => Some(a@),
        (None, Some(exe)) => Some(
            match path::file_stem(exe@) {
                Some(stem) => stem,
                None => exe@,
            },
        ),
        (None, None) => None,
    }
}

/// Which window a shot is taken of.
pub enum ShotWindow {
    /// This one.
    Known(u64),
    /// The one whose title or process holds this text.
    Named(String),
}

/// Decides which window to take. Without any hint there is none.
pub fn shot_window(app: &Option<String>, window: Option<u64>, launch: &Option<String>) -> (r: Result<
    ShotWindow,
    String,
>)
    ensures
        match r {
            Ok(ShotWindow::Known(handle)) => window == Some(handle),
            Ok(ShotWindow::Named(needle)) => window is None && needle_for(*app, *launch) == Some(
                needle@,
            ),
            Err(e) => window is None && *app is None && *launch is None && e@
                == "pass --window <handle>, --app <substr>, or --launch <exe>"@,
        },
{
    if let Some(handle) = window {
        return Ok(ShotWindow::Known(handle));
    }
    if let Some(needle) = app {
        return Ok(ShotWindow::Named(needle.clone()));
    }
    match launch {
        Some(exe) => match path::file_stem_of(exe.as_str()) {
            Some(stem) => Ok(ShotWindow::Named(text::string_of(stem.as_slice()))),
            None => Ok(ShotWindow::Named(exe.clone())),
        },
        None => Err("pass --window <handle>, --app <substr>, or --launch <exe>".to_string()),
    }
}

/// What to do after a look at the window list.
pub enum FindStep {
    /// This is the window.
    Found(u64),
    /// Look again after this many milliseconds.
    Wait(u64),
    /// It did not appear in time.
    GiveUp(String),
}

/// The windows that a reply lists; any other reply lists none.
pub open spec fn listed(reply: Reply) -> Seq<WindowInfo> {
    match reply {
        Reply::Windows(windows) => windows@,
        _ => Seq::empty(),
    }
}

/// The first window whose title or process holds the needle, whatever the case, is
/// found. Where there is none it waits, until the deadline has passed.
pub open spec fn finds(reply: Reply, needle: Seq<char>, deadline_passed: bool, step: FindStep) -> bool {
    let lower = text::unicode_lowercase(needle);
    let windows = listed(reply);
    match step {
        FindStep::Found(handle) => exists|i: int|
            {
                &&& 0 <= i < windows.len() && windows[i].id.0 == handle
                &&& #[trigger] window_matches(windows[i], lower)
                &&& forall|k: int| 0 <= k < i ==> !#[trigger] window_matches(windows[k], lower)
            },
        FindStep::Wait(ms) => !deadline_passed && ms == 400 && forall|k: int|
            0 <= k < windows.len() ==> !#[trigger] window_matches(windows[k], lower),
        FindStep::GiveUp(e) => deadline_passed && e@ == "no window matching '"@ + lower
            + "' appeared within the wait"@ && forall|k: int|
            0 <= k < windows.len() ==> !#[trigger] window_matches(windows[k], lower),
    }
}

/// Looks for a window in the window list.
pub fn find_window(reply: &Reply, needle: &str, deadline_passed: bool) -> (r: FindStep)
    ensures
        finds(*reply, needle@, deadline_passed, r),
{
    let lower = text::to_lower(needle);
    if let Reply::Windows(windows) = reply {
        let chars = text::chars_of(lower.as_str());
        let mut i: usize = 0;
        while i < windows.len()
            invariant
                i <= windows@.len(),
                windows@ == listed(*reply),
                chars@ == text::unicode_lowercase(needle@),
                forall|k: int|
                    0 <= k < i ==> !#[trigger] window_matches(
                        listed(*reply)[k],
                        text::unicode_lowercase(needle@),
                    ),
            decreases windows@.len() - i,
        {
            assert(windows@[i as int] == listed(*reply)[i as int]);
            if matches_needle(&windows[i], chars.as_slice()) {
                return FindStep::Found(windows[i].id.0);
            }
            i = i + 1;
        }
    }
    if deadline_passed {
        FindStep::GiveUp(
            text::join3("no window matching '", lower.as_str(), "' appeared within the wait"),
        )
    } else {
        FindStep::Wait(400)
    }
}

/// The shot of a window. What is left of the wait goes to settling, and at least a
/// second and a half. A window that was just launched must change first.
pub open spec fn shot_of(out: Seq<char>, handle: u64, remaining_ms: u64, launched: bool) -> Command {
    Command::Screenshot {
        target: CaptureTarget::Window(WindowId(handle)),
        format: extension_format(out),
        settle_ms: Some(
            if remaining_ms > 1500 {
                remaining_ms
            } else {
                1500
            },
        ),
        settle_await_change: launched,
    }
}

/// Asks for the shot of a window.
pub fn shot_request(out: &str, handle: u64, remaining_ms: u64, launched: bool) -> (r: Command)
    ensures
        r == shot_of(out@, handle, remaining_ms, launched),
{
    let settle: u64 = if remaining_ms > 1500 {
        remaining_ms
    } else {
        1500
    };
    Command::Screenshot {
        target: CaptureTarget::Window(WindowId(handle)),
        format: format_from_ext(out),
        settle_ms: Some(settle),
        settle_await_change: launched,
    }
}

/// What a shot is asked for with.
pub struct ShotTask {
    /// The file that the image is saved to.
    pub out: String,
    /// Part of the window's title or process name.
    pub app: Option<String>,
    /// The window.
    pub window: Option<u64>,
    /// What is launched first.
    pub launch: Option<String>,
}

/// Where a shot stands.
pub enum ShotPhase {
    /// It waits for the launch.
    Launching,
    /// It waits for the window list, to find this text in it.
    Looking(String),
    /// It lets some time pass before the next look for this text.
    Pausing(String),
    /// It waits for this window to come up.
    Activating(u64),
    /// It waits for the image of this window.
    Capturing(u64),
    /// There is nothing left to do.
    Over,
}

/// What a shot waited for.
pub enum ShotEvent {
    /// The runner's reply, and what is left of the wait.
    Answer {
        /// The reply.
        reply: Reply,
        /// Whether the wait is over.
        deadline_passed: bool,
        /// What is left of the wait.
        remaining_ms: u64,
    },
    /// The time has passed.
    Rested,
}

/// What a shot needs next.
pub enum ShotAction {
    /// Send this request, and hand on the reply.
    Request(Command),
    /// Let this many milliseconds pass.
    Rest(u64),
    /// Save the image, then show the line.
    Save(Image, String),
    /// The shot failed, for this reason.
    Fail(String),
    /// The shot failed: the launch was answered with this.
    NotLaunched(Reply),
    /// The shot failed: the request was not acknowledged.
    Refused(Reply),
    /// The shot failed: the reply does not fit.
    Unexpected(Reply),
}

/// The window is known: it is brought up first.
pub open spec fn brings_up(handle: u64, r: (ShotPhase, ShotAction)) -> bool {
    r.0 == ShotPhase::Activating(handle) && r.1 == ShotAction::Request(
        Command::ActivateWindow { window: WindowId(handle) },
    )
}

/// The window with this text is looked for.
pub open spec fn looks(needle: Seq<char>, r: (ShotPhase, ShotAction)) -> bool {
    (r.0 matches ShotPhase::Looking(n) && n@ == needle) && r.1 == ShotAction::Request(
        Command::ListWindows,
    )
}

/// How a shot comes by its window: it is given, or it is found by a text, or there
/// is no hint.
pub open spec fn locates(task: ShotTask, r: (ShotPhase, ShotAction)) -> bool {
    match (task.window, needle_for(task.app, task.launch)) {
        (Some(handle), _) => brings_up(handle, r),
        (None, Some(needle)) => looks(needle, r),
        (None, None) => r.0 is Over && (r.1 matches ShotAction::Fail(e) && e@
            == "pass --window <handle>, --app <substr>, or --launch <exe>"@),
    }
}

fn locate(task: &ShotTask) -> (r: (ShotPhase, ShotAction))
    ensures
        locates(*task, r),
{
    match shot_window(&task.app, task.window, &task.launch) {
        Ok(ShotWindow::Known(handle)) => (
            ShotPhase::Activating(handle),
            ShotAction::Request(Command::ActivateWindow { window: WindowId(handle) }),
        ),
        Ok(ShotWindow::Named(needle)) => (
            ShotPhase::Looking(needle),
            ShotAction::Request(Command::ListWindows),
        ),
        Err(e) => (ShotPhase::Over, ShotAction::Fail(e)),
    }
}

/// Starts a shot: with the launch, if one is asked for.
pub fn start_shot(task: &ShotTask) -> (r: (ShotPhase, ShotAction))
    ensures
        match task.launch {
            Some(exe) => r.0 is Launching && (r.1 matches ShotAction::Request(
                Command::OpenApp { target, args, watch_ms },
            ) && target@ == exe@ && args@.len() == 0 && watch_ms is None),
            None => locates(*task, r),
        },
{
    match &task.launch {
        Some(exe) => (
            ShotPhase::Launching,
            ShotAction::Request(
                Command::OpenApp { target: exe.clone(), args: Vec::new(), watch_ms: None },
            ),
        ),
        None => locate(task),
    }
}

impl ShotPhase {
    /// Whether an event is the one that the shot waits for.
    pub open spec fn awaits(self, event: ShotEvent) -> bool {
        match self {
            ShotPhase::Pausing(_) => event is Rested,
            ShotPhase::Over => false,
            _ => event is Answer,
        }
    }
}

/// What a look at the window list leads to.
pub open spec fn looked(
    needle: Seq<char>,
    reply: Reply,
    deadline_passed: bool,
    r: (ShotPhase, ShotAction),
) -> bool {
    exists|step: FindStep|
        {
            &&& #[trigger] finds(reply, needle, deadline_passed, step)
            &&& match step {
                FindStep::Found(handle) => brings_up(handle, r),
                FindStep::Wait(ms) => (r.0 matches ShotPhase::Pausing(n) && n@ == needle) && r.1
                    == ShotAction::Rest(ms),
                FindStep::GiveUp(e) => r.0 is Over && r.1 == ShotAction::Fail(e),
            }
        }
}

fn look(needle: String, reply: &Reply, deadline_passed: bool) -> (r: (ShotPhase, ShotAction))
    ensures
        looked(needle@, *reply, deadline_passed, r),
{
    let step = find_window(reply, needle.as_str(), deadline_passed);
    let ghost taken = step;
    let r = match step {
        FindStep::Found(handle) => (
            ShotPhase::Activating(handle),
            ShotAction::Request(Command::ActivateWindow { window: WindowId(handle) }),
        ),
        FindStep::Wait(ms) => (ShotPhase::Pausing(needle), ShotAction::Rest(ms)),
        FindStep::GiveUp(e) => (ShotPhase::Over, ShotAction::Fail(e)),
    };
    assert(finds(*reply, needle@, deadline_passed, taken));
    r
}

/// Takes a shot one step further: launch, find the window, bring it up, capture it
/// and save the image.
pub fn shot(task: &ShotTask, phase: ShotPhase, event: ShotEvent) -> (r: (ShotPhase, ShotAction))
    requires
        phase.awaits(event),
    ensures
        match (phase, event) {
            (ShotPhase::Launching, ShotEvent::Answer { reply, .. }) => if reply is AppOpened {
                locates(*task, r)
            } else {
                r.0 is Over && r.1 == ShotAction::NotLaunched(reply)
            },
            (ShotPhase::Looking(needle), ShotEvent::Answer { reply, deadline_passed, .. }) => looked(
                needle@,
                reply,
                deadline_passed,
                r,
            ),
            (ShotPhase::Pausing(needle), ShotEvent::Rested) => looks(needle@, r),
            (ShotPhase::Activating(handle), ShotEvent::Answer { reply, remaining_ms, .. }) => if reply
                is Ack {
                r.0 == ShotPhase::Capturing(handle) && r.1 == ShotAction::Request(
                    shot_of(task.out@, handle, remaining_ms, task.launch is Some),
                )
            } else {
                r.0 is Over && r.1 == ShotAction::Refused(reply)
            },
            (ShotPhase::Capturing(handle), ShotEvent::Answer { reply: Reply::Image(image), .. }) => {
                r.0 is Over && (r.1 matches ShotAction::Save(i, line) && i == image && line@
                    == saved_line(task.out@, Some(handle), image))
            },
            (ShotPhase::Capturing(_), ShotEvent::Answer { reply, .. }) => r.0 is Over && r.1
                == ShotAction::Unexpected(reply),
            _ => false,
        },
{
    match (phase, event) {
        (ShotPhase::Launching, ShotEvent::Answer { reply, .. }) => match reply {
            Reply::AppOpened { .. } => locate(task),
            other => (ShotPhase::Over, ShotAction::NotLaunched(other)),
        },
        (ShotPhase::Looking(needle), ShotEvent::Answer { reply, deadline_passed, .. }) => look(
            needle,
            &reply,
            deadline_passed,
        ),
        (ShotPhase::Pausing(needle), ShotEvent::Rested) => (
            ShotPhase::Looking(needle),
            ShotAction::Request(Command::ListWindows),
        ),
        (ShotPhase::Activating(handle), ShotEvent::Answer { reply, remaining_ms, .. }) => match reply {
            Reply::Ack => {
                let command = shot_request(
                    task.out.as_str(),
                    handle,
                    remaining_ms,
                    task.launch.is_some(),
                );
                (ShotPhase::Capturing(handle), ShotAction::Request(command))
            },
            other => (ShotPhase::Over, ShotAction::Refused(other)),
        },
        (ShotPhase::Capturing(handle), ShotEvent::Answer { reply, .. }) => match reply {
            Reply::Image(image) => {
                let line = saved(task.out.as_str(), Some(handle), &image);
                (ShotPhase::Over, ShotAction::Save(image, line))
            },
            other => (ShotPhase::Over, ShotAction::Unexpected(other)),
        },
        _ => (ShotPhase::Over, ShotAction::Refused(Reply::Ack)),
    }
}

/// The end of a file's name decides the encoding, whatever its case; any other end
/// leaves it open.
pub proof fn law_name_decides_encoding(out: &str, stem: Seq<char>, r: Option<ImageFormat>)
    requires
        format_from_ext.ensures((out,), r),
    ensures
        text::lowercase(out@) == stem + ".png"@ ==> r == Some(ImageFormat::Png),
        text::lowercase(out@) == stem + ".webp"@ ==> r == Some(ImageFormat::Webp),
        r == Some(ImageFormat::Png) ==> text::finishes(text::lowercase(out@), ".png"@),
        r == Some(ImageFormat::Webp) ==> text::finishes(text::lowercase(out@), ".webp"@),
{
    reveal_strlit(".png");
    reveal_strlit(".webp");
    let lower = text::lowercase(out@);
    if lower == stem + ".png"@ {
        assert(lower.subrange(lower.len() - 4, lower.len() as int) =~= ".png"@);
    }
    if lower == stem + ".webp"@ {
        assert(lower.subrange(lower.len() - 5, lower.len() as int) =~= ".webp"@);
        if text::finishes(lower, ".png"@) {
            assert(lower.last() == 'p');
            assert(lower.subrange(lower.len() - 4, lower.len() as int)[3] == 'g');
        }
    }
}

/// An element is captured if one is named, else a window if one is, else the whole
/// screen; at once, and in the encoding of the file's name.
pub proof fn law_capture_picks_the_nearest(
    out: &str,
    window: Option<u64>,
    element: Option<String>,
    format: Option<ImageFormat>,
    r: Command,
)
    requires
        format_from_ext.ensures((out,), format),
        screencap.ensures((out, window, element), r),
    ensures
        r matches Command::Screenshot { target, format: f, settle_ms, settle_await_change } && {
            &&& f == format && settle_ms is None && !settle_await_change
            &&& element matches Some(id) ==> target == CaptureTarget::Element(ElementId(id))
            &&& element is None && window is Some ==> target == CaptureTarget::Window(
                WindowId(window->0),
            )
            &&& element is None && window is None ==> target is FullScreen
        },
{
}

/// What is reported of a saved image is its file, its width before its height, its
/// encoding and how many bytes it has, after its window if one is named.
pub proof fn law_saved_image_is_described(out: &str, handle: u64, image: &Image, r: String, s: String)
    requires
        saved.ensures((out, None::<u64>, image), r),
        saved.ensures((out, Some(handle), image), s),
    ensures
        ({
            let size = number::decimal(image.width as nat) + "x"@ + number::decimal(
                image.height as nat,
            ) + ", "@ + (if image.format == ImageFormat::Png {
                "Png"@
            } else {
                "Webp"@
            }) + ", "@ + number::decimal(image.data@.len()) + " bytes)"@;
            &&& r@ == "saved "@ + out@ + " ("@ + size
            &&& s@ == "saved "@ + out@ + " ("@ + ("window "@ + number::decimal(handle as nat)
                + ", "@) + size
        }),
{
    reveal_strlit("");
    let size = number::decimal(image.width as nat) + "x"@ + number::decimal(image.height as nat)
        + ", "@ + format_label(image.format) + ", "@ + number::decimal(image.data@.len())
        + " bytes)"@;
    let lead = "saved "@ + out@ + " ("@;
    assert(lead + ""@ =~= lead);
    assert(r@ =~= lead + size);
    assert(s@ =~= lead + ("window "@ + number::decimal(handle as nat) + ", "@) + size);
}

/// An image that is captured is compared with its baseline as two images are; one
/// that cannot be read is an error.
pub proof fn law_baseline_comparison(
    captured: &[u8],
    base: &Pixels,
    paint: bool,
    r: Result<Comparison, String>,
)
    requires
        base.well_formed(),
        compare_baseline.ensures((captured, base, paint), r),
    ensures
        r is Err <==> file_image(captured@) is None,
        file_image(captured@) matches Some(new) ==> {
            &&& (r matches Ok(c) && c is Resized) <==> !(new.0 == base.width && new.1
                == base.height)
            &&& new.0 == base.width && new.1 == base.height && new.2 == base.data@ ==> (
            r matches Ok(Comparison::Compared { changed, .. }) && changed == 0)
        },
{
    if let Some(new) = file_image(captured@) {
        if new.0 == base.width && new.1 == base.height && new.2 == base.data@ {
            crate::capture::law_image_matches_itself(new.2, (new.0 * new.1) as nat);
        }
    }
}

/// A window that is named is taken; else one is looked for by the text that is given,
/// or else by the stem of what is launched. Without any of these there is an error.
pub proof fn law_shot_window_order(
    app: &Option<String>,
    window: Option<u64>,
    launch: &Option<String>,
    exe: &str,
    stem: Option<Vec<char>>,
    r: Result<ShotWindow, String>,
)
    requires
        *launch matches Some(l) ==> exe@ == l@,
        path::file_stem_of.ensures((exe,), stem),
        shot_window.ensures((app, window, launch), r),
    ensures
        window matches Some(handle) ==> r == Ok::<ShotWindow, String>(ShotWindow::Known(handle)),
        window is None && *app is Some ==> (r matches Ok(ShotWindow::Named(needle)) && needle@
            == (*app)->0@),
        window is None && *app is None && *launch is Some ==> (r matches Ok(
            ShotWindow::Named(needle),
        ) && needle@ == (match stem {
            Some(s) => s@,
            None => exe@,
        })),
        window is None && *app is None && *launch is None ==> r is Err,
{
}

/// The first window whose title or process holds the text, whatever the case, is
/// found. Without one it is looked for again, until the time is over.
pub proof fn law_first_matching_window_is_found(
    reply: &Reply,
    needle: &str,
    late: bool,
    i: int,
    r: FindStep,
)
    requires
        find_window.ensures((reply, needle, late), r),
    ensures
        *reply matches Reply::Windows(windows) ==> {
            let fits = |w: WindowInfo|
                text::occurs(
                    text::unicode_lowercase(w.title@),
                    text::unicode_lowercase(needle@),
                ) || text::occurs(
                    text::unicode_lowercase(w.process@),
                    text::unicode_lowercase(needle@),
                );
            &&& 0 <= i < windows@.len() && fits(windows@[i]) && (forall|k: int|
                0 <= k < i ==> !fits(#[trigger] windows@[k])) ==> r == FindStep::Found(
                windows@[i].id.0,
            )
            &&& (forall|k: int| 0 <= k < windows@.len() ==> !fits(#[trigger] windows@[k])) ==> (
            if late {
                r is GiveUp
            } else {
                r is Wait
            })
        },
        !(*reply is Windows) ==> (if late {
            r is GiveUp
        } else {
            r is Wait
        }),
{
    let lower = text::unicode_lowercase(needle@);
    let all = listed(*reply);
    if let Reply::Windows(windows) = *reply {
        assert(windows@ == all);
        if 0 <= i < all.len() {
            assert(window_matches(all[i], lower) == (text::occurs(
                text::unicode_lowercase(all[i].title@),
                lower,
            ) || text::occurs(text::unicode_lowercase(all[i].process@), lower)));
        }
        if r is Found {
            let j = choose|j: int|
                {
                    &&& 0 <= j < all.len() && all[j].id.0 == r->Found_0
                    &&& #[trigger] window_matches(all[j], lower)
                    &&& forall|k: int| 0 <= k < j ==> !#[trigger] window_matches(all[k], lower)
                };
            assert(all[j] == windows@[j]);
            if 0 <= i < all.len() && i < j {
                assert(!window_matches(all[i], lower));
            }
        }
    }
}

/// The shot of a window settles for what is left of the wait, at least a second and a
/// half, and waits for a change exactly after a launch.
pub proof fn law_shot_settles(
    out: &str,
    handle: u64,
    remaining_ms: u64,
    launched: bool,
    format: Option<ImageFormat>,
    r: Command,
)
    requires
        format_from_ext.ensures((out,), format),
        shot_request.ensures((out, handle, remaining_ms, launched), r),
    ensures
        r matches Command::Screenshot { target, format: f, settle_ms, settle_await_change }
            && target == CaptureTarget::Window(WindowId(handle)) && f == format && (
        settle_ms matches Some(ms) && ms >= 1500 && ms >= remaining_ms && (ms == 1500 || ms
            == remaining_ms)) && settle_await_change == launched,
{
}

/// A shot brings the window up, then captures that window, then saves the image that
/// came. Where something is launched, that comes first, and the window after it.
pub proof fn law_shot_captures_its_window(
    task: &ShotTask,
    handle: u64,
    first: (ShotPhase, ShotAction),
    opened: (ShotPhase, ShotAction),
    reply: Reply,
    late: bool,
    left: u64,
    up: (ShotPhase, ShotAction),
    image: Image,
    done: (ShotPhase, ShotAction),
)
    requires
        start_shot.ensures((task,), first),
        reply is AppOpened,
        shot.ensures(
            (
                task,
                ShotPhase::Launching,
                ShotEvent::Answer { reply, deadline_passed: late, remaining_ms: left },
            ),
            opened,
        ),
        shot.ensures(
            (
                task,
                ShotPhase::Activating(handle),
                ShotEvent::Answer { reply: Reply::Ack, deadline_passed: late, remaining_ms: left },
            ),
            up,
        ),
        shot.ensures(
            (
                task,
                ShotPhase::Capturing(handle),
                ShotEvent::Answer {
                    reply: Reply::Image(image),
                    deadline_passed: late,
                    remaining_ms: left,
                },
            ),
            done,
        ),
    ensures
        task.launch matches Some(exe) ==> first.0 is Launching && (first.1 matches ShotAction::Request(
            Command::OpenApp { target, .. },
        ) && target@ == exe@),
        task.launch is None && task.window is Some ==> first.0 == ShotPhase::Activating(
            task.window->0,
        ) && first.1 == ShotAction::Request(
            Command::ActivateWindow { window: WindowId(task.window->0) },
        ),
        task.window is Some ==> opened.0 == ShotPhase::Activating(task.window->0),
        task.window is None ==> (opened.0 matches ShotPhase::Looking(_) || opened.0 is Over),
        up.0 == ShotPhase::Capturing(handle) && (up.1 matches ShotAction::Request(
            Command::Screenshot { target, .. },
        ) && target == CaptureTarget::Window(WindowId(handle))),
        done.0 is Over && (done.1 matches ShotAction::Save(i, _) && i == image),
{
}

} // verus!
