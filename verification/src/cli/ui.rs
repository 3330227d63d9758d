//! Windows, elements, keys and the clipboard of the remote desktop.

use vstd::prelude::*;

use crate::number;
use crate::proto::id::{ElementId, WindowId};
use crate::proto::wire::{
    chord_error, chord_parts, is_chord, parse_chord, Command, ElementInfo, Reply, WindowInfo,
};
use crate::text;

verus! {

/// Whether a window's title or process holds the needle, whatever the case. The
/// needle is in lower case.
pub open spec fn window_matches(window: WindowInfo, needle: Seq<char>) -> bool {
    text::occurs(text::unicode_lowercase(window.title@), needle) || text::occurs(
        text::unicode_lowercase(window.process@),
        needle,
    )
}

/// Whether a window's title or process holds the needle, whatever the case.
pub fn matches_needle(window: &WindowInfo, needle: &[char]) -> (r: bool)
    ensures
        r == window_matches(*window, needle@),
{
    let title = text::chars_of(text::to_lower(window.title.as_str()).as_str());
    if text::contains(title.as_slice(), needle) {
        return true;
    }
    let process = text::chars_of(text::to_lower(window.process.as_str()).as_str());
    text::contains(process.as_slice(), needle)
}

/// Keeps the windows that match the filter, in their order; without a filter, all
/// of them.
pub fn windows(list: Vec<WindowInfo>, filter: Option<&str>) -> (out: Vec<WindowInfo>)
    ensures
        out@ == match filter {
            None => list@,
            Some(f) => list@.filter(
                |w: WindowInfo| window_matches(w, text::unicode_lowercase(f@)),
            ),
        },
{
    match filter {
        None => list,
        Some(f) => {
            let needle = text::chars_of(text::to_lower(f).as_str());
            let ghost keep = |w: WindowInfo| window_matches(w, text::unicode_lowercase(f@));
            let ghost all = list@;
            let mut out: Vec<WindowInfo> = Vec::new();
            assert(all.take(0).filter(keep) =~= out@) by {
                reveal(Seq::filter);
            }
            for w in it: list
                invariant
                    it.seq() == all,
                    needle@ == text::unicode_lowercase(f@),
                    keep == (|w: WindowInfo| window_matches(w, text::unicode_lowercase(f@))),
                    out@ == all.take(it.index()).filter(keep),
            {
                proof {
                    reveal(Seq::filter);
                    assert(all.take(it.index() + 1).drop_last() =~= all.take(it.index()));
                    assert(all.take(it.index() + 1).last() == w);
                }
                if matches_needle(&w, needle.as_slice()) {
                    out.push(w);
                }
            }
            assert(all.take(all.len() as int) =~= all);
            out
        },
    }
}

/// The row of a window: handle, process, title.
pub open spec fn window_row(w: WindowInfo) -> Seq<char> {
    number::decimal(w.id.0 as nat) + " | "@ + w.process@ + " | "@ + w.title@
}

/// Lays out one row per window.
pub fn window_rows(windows: &Vec<WindowInfo>) -> (out: Vec<String>)
    ensures
        text::texts(out@) == windows@.map_values(|w: WindowInfo| window_row(w)),
{
    let ghost want = windows@.map_values(|w: WindowInfo| window_row(w));
    let mut out: Vec<String> = Vec::new();
    let mut i: usize = 0;
    assert(text::texts(out@) =~= want.take(0));
    while i < windows.len()
        invariant
            i <= windows@.len(),
            want == windows@.map_values(|w: WindowInfo| window_row(w)),
            text::texts(out@) == want.take(i as int),
        decreases windows@.len() - i,
    {
        let ghost before = out@;
        let w = &windows[i];
        let mut row = text::join3(
            number::decimal_text(w.id.0).as_str(),
            " | ",
            w.process.as_str(),
        );
        row.append(" | ");
        row.append(w.title.as_str());
        out.push(row);
        i = i + 1;
        assert(text::texts(out@) =~= text::texts(before).push(row@));
        assert(want.take(i as int) =~= want.take(i - 1).push(want[i - 1]));
    }
    assert(want.take(i as int) =~= want);
    out
}

/// A text, or nothing.
pub open spec fn or_empty(s: Option<String>) -> Seq<char> {
    match s {
        Some(v) => v@,
        None => ""@,
    }
}

/// A text, or nothing.
fn shown(s: &Option<String>) -> (r: &str)
    ensures
        r@ == or_empty(*s),
{
    match s {
        Some(v) => v.as_str(),
        None => "",
    }
}

/// The row of an element: id, control type, whether it can be acted on,
/// automation id, name.
pub open spec fn element_row(e: ElementInfo) -> Seq<char> {
    e.id.0@ + " | "@ + e.control_type@ + " | "@ + (if e.actionable {
        "actionable"@
    } else {
        "inactive"@
    }) + " | "@ + or_empty(e.automation_id) + " | "@ + or_empty(e.name)
}

/// Lays out the row of one element.
pub fn print_element(e: &ElementInfo) -> (row: String)
    ensures
        row@ == element_row(*e),
{
    let mut row = text::join3(e.id.0.as_str(), " | ", e.control_type.as_str());
    row.append(" | ");
    row.append(
        if e.actionable {
            "actionable"
        } else {
            "inactive"
        },
    );
    row.append(" | ");
    row.append(shown(&e.automation_id));
    row.append(" | ");
    row.append(shown(&e.name));
    row
}

/// Lays out one row per element.
pub fn print_elements(elements: &Vec<ElementInfo>) -> (out: Vec<String>)
    ensures
        text::texts(out@) == elements@.map_values(|e: ElementInfo| element_row(e)),
{
    let ghost want = elements@.map_values(|e: ElementInfo| element_row(e));
    let mut out: Vec<String> = Vec::new();
    let mut i: usize = 0;
    assert(text::texts(out@) =~= want.take(0));
    while i < elements.len()
        invariant
            i <= elements@.len(),
            want == elements@.map_values(|e: ElementInfo| element_row(e)),
            text::texts(out@) == want.take(i as int),
        decreases elements@.len() - i,
    {
        let ghost before = out@;
        let row = print_element(&elements[i]);
        out.push(row);
        i = i + 1;
        assert(text::texts(out@) =~= text::texts(before).push(row@));
        assert(want.take(i as int) =~= want.take(i - 1).push(want[i - 1]));
    }
    assert(want.take(i as int) =~= want);
    out
}

/// How an optional window reads in a report.
pub open spec fn window_text(window: Option<WindowId>) -> Seq<char> {
    match window {
        None => "None"@,
        Some(w) => "Some(WindowId("@ + number::decimal(w.0 as nat) + "))"@,
    }
}

/// How an optional window reads in a report.
pub fn window_label(window: Option<WindowId>) -> (r: String)
    ensures
        r@ == window_text(window),
{
    match window {
        None => "None".to_string(),
        Some(w) => text::join3("Some(WindowId(", number::decimal_text(w.0).as_str(), "))"),
    }
}

/// What is reported of a launch: where it runs, and if it ended while it was
/// watched, its exit code and what is known of the cause.
pub open spec fn launch_lines(
    window: Option<WindowId>,
    pid: u32,
    exit_code: Option<i32>,
    diagnostic: Option<String>,
) -> Seq<Seq<char>> {
    let first = "launched pid="@ + number::decimal(pid as nat) + " window="@ + window_text(window);
    match exit_code {
        None => seq![first],
        Some(code) => {
            let second = "exited early with code "@ + number::signed(code as int);
            match diagnostic {
                None => seq![first, second],
                Some(d) => seq![first, second, d@],
            }
        },
    }
}

/// Reports a launch. An app that ended while it was watched makes the exit code
/// non-zero. Any other reply comes back.
pub fn open(reply: Reply) -> (r: Result<(Vec<String>, i32), Reply>)
    ensures
        match r {
            Ok((lines, code)) => reply matches Reply::AppOpened {
                window,
                pid,
                exit_code,
                diagnostic,
            } && text::texts(lines@) == launch_lines(window, pid, exit_code, diagnostic) && code
                == if exit_code is Some {
                1i32
            } else {
                0
            },
            Err(other) => !(reply is AppOpened) && other == reply,
        },
{
    match reply {
        Reply::AppOpened { window, pid, exit_code, diagnostic } => {
            let mut first = text::join3(
                "launched pid=",
                number::decimal_text(pid as u64).as_str(),
                " window=",
            );
            first.append(window_label(window).as_str());
            let ghost want = launch_lines(window, pid, exit_code, diagnostic);
            assert(first@ =~= want[0]);
            let mut lines: Vec<String> = Vec::new();
            lines.push(first);
            let mut code: i32 = 0;
            if let Some(c) = exit_code {
                code = 1;
                lines.push(
                    text::join2("exited early with code ", number::signed_text(c).as_str()),
                );
                if let Some(d) = diagnostic {
                    lines.push(d);
                }
            }
            assert(text::texts(lines@) =~= want);
            Ok((lines, code))
        },
        other => Err(other),
    }
}

/// A request of a sequence, and how many milliseconds to wait after it.
pub struct KeyStep {
    /// The request.
    pub command: Command,
    /// Milliseconds to wait after it.
    pub pause_ms: u64,
}

/// What is wrong with the first bad chord, if any is bad.
pub open spec fn keys_error(chords: Seq<Seq<char>>) -> Option<Seq<char>>
    decreases chords.len(),
{
    if chords.len() == 0 {
        None
    } else {
        match chord_error(chord_parts(chords[0]), 0) {
            Some(e) => Some(chords[0] + ": "@ + e),
            None => keys_error(chords.skip(1)),
        }
    }
}

/// How many requests come before the first chord: one where an element is focused.
pub open spec fn keys_lead(into: Option<String>) -> int {
    if into is Some {
        1
    } else {
        0
    }
}

/// Whether a step presses the chord; after all but the last there is a pause.
pub open spec fn chord_step(step: KeyStep, chord: Seq<char>, last: bool) -> bool {
    &&& step.command matches Command::KeyChord { modifiers, key } && is_chord(
        chord,
        modifiers@,
        key,
    )
    &&& step.pause_ms == if last {
        0u64
    } else {
        16
    }
}

/// Whether the steps press these chords in order: the element is focused first,
/// and between two chords there is a short pause.
pub open spec fn presses(steps: Seq<KeyStep>, chords: Seq<Seq<char>>, into: Option<String>) -> bool {
    &&& steps.len() == keys_lead(into) + chords.len()
    &&& into matches Some(id) ==> steps[0].pause_ms == 0 && steps[0].command
        == (Command::FocusElement { element: ElementId(id) })
    &&& forall|i: int|
        0 <= i < chords.len() ==> chord_step(
            steps[keys_lead(into) + i],
            #[trigger] chords[i],
            i + 1 == chords.len(),
        )
}

/// Plans a sequence of key chords. All chords are parsed up front, so a bad chord
/// aborts before anything is pressed.
pub fn keys(chords: &Vec<String>, into: Option<String>) -> (r: Result<Vec<KeyStep>, String>)
    ensures
        match r {
            Ok(steps) => keys_error(text::texts(chords@)) is None && presses(
                steps@,
                text::texts(chords@),
                into,
            ),
            Err(e) => keys_error(text::texts(chords@)) == Some(e@),
        },
{
    let ghost all = text::texts(chords@);
    let n: usize = chords.len();
    let mut steps: Vec<KeyStep> = Vec::new();
    let ghost lead = keys_lead(into);
    let ghost element = into;
    if let Some(id) = into {
        steps.push(
            KeyStep { command: Command::FocusElement { element: ElementId(id) }, pause_ms: 0 },
        );
    }
    let mut i: usize = 0;
    assert(all.skip(0) =~= all);
    while i < n
        invariant
            n == chords@.len(),
            i <= n,
            all == text::texts(chords@),
            lead == keys_lead(element),
            keys_error(all) == keys_error(all.skip(i as int)),
            steps@.len() == lead + i,
            element matches Some(id) ==> steps@[0].pause_ms == 0 && steps@[0].command
                == (Command::FocusElement { element: ElementId(id) }),
            forall|k: int|
                0 <= k < i ==> chord_step(steps@[lead + k], #[trigger] all[k], k + 1 == n),
        decreases n - i,
    {
        assert(all.skip(i as int)[0] == all[i as int]);
        assert(all.skip(i as int).skip(1) =~= all.skip(i + 1));
        let chord = chords[i].as_str();
        assert(chord@ == all[i as int]);
        match parse_chord(chord) {
            Ok((modifiers, key)) => {
                let pause_ms: u64 = if i + 1 == n {
                    0
                } else {
                    16
                };
                let ghost before = steps@;
                steps.push(KeyStep { command: Command::KeyChord { modifiers, key }, pause_ms });
                assert(forall|k: int| 0 <= k < lead + i ==> steps@[k] == before[k]);
                assert(chord_step(steps@[lead + i], all[i as int], i + 1 == n));
            },
            Err(e) => {
                return Err(text::join3(chord, ": ", e.as_str()));
            },
        }
        i = i + 1;
    }
    assert(keys_error(all.skip(n as int)) is None);
    Ok(steps)
}

/// Where the new text of the clipboard comes from.
pub enum ClipPlan {
    /// From the command line: send this.
    Send(Command),
    /// From standard input.
    ReadStdin,
}

/// Plans a change of the clipboard: `-` reads the text from standard input.
pub fn clip(text: String) -> (r: ClipPlan)
    ensures
        match r {
            ClipPlan::ReadStdin => text@ == "-"@,
            ClipPlan::Send(command) => text@ != "-"@ && command == (Command::ClipboardSet { text }),
        },
{
    if text::same(text.as_str(), "-") {
        ClipPlan::ReadStdin
    } else {
        ClipPlan::Send(Command::ClipboardSet { text })
    }
}

/// A filter keeps exactly the windows whose title or process holds it, whatever the
/// case, in their order and unchanged; without one all are kept.
pub proof fn law_filter_keeps_matching_windows(
    list: Vec<WindowInfo>,
    filter: &str,
    out: Vec<WindowInfo>,
    all: Vec<WindowInfo>,
    w: WindowInfo,
)
    requires
        windows.ensures((list, Some(filter)), out),
        windows.ensures((list, None::<&str>), all),
    ensures
        all@ == list@,
        out@.len() <= list@.len(),
        out@.contains(w) <==> list@.contains(w) && (text::occurs(
            text::unicode_lowercase(w.title@),
            text::unicode_lowercase(filter@),
        ) || text::occurs(
            text::unicode_lowercase(w.process@),
            text::unicode_lowercase(filter@),
        )),
{
    let keep = |w: WindowInfo| window_matches(w, text::unicode_lowercase(filter@));
    list@.lemma_filter_len(keep);
    if list@.contains(w) && keep(w) {
        let i = choose|i: int| 0 <= i < list@.len() && list@[i] == w;
        list@.lemma_filter_contains(keep, i);
    }
    if out@.contains(w) {
        list@.lemma_filter_contains_rev(keep, w);
        let i = choose|i: int| 0 <= i < out@.len() && out@[i] == w;
        list@.lemma_filter_pred(keep, i);
    }
}

/// There is a row for each window, in order: its handle, its process and its title,
/// in that order.
pub proof fn law_window_rows(windows: &Vec<WindowInfo>, out: Vec<String>, i: int)
    requires
        window_rows.ensures((windows,), out),
        0 <= i < windows@.len(),
    ensures
        out@.len() == windows@.len(),
        out@[i]@ == number::decimal(windows@[i].id.0 as nat) + " | "@ + windows@[i].process@
            + " | "@ + windows@[i].title@,
{
    let t = text::texts(out@);
    assert(t.len() == out@.len());
    assert(t[i] == out@[i]@);
}

/// There is a row for each element, in order: its id, its control type, whether it
/// can be acted on, its automation id and its name, in that order, with nothing in
/// place of what it does not have.
pub proof fn law_element_rows(elements: &Vec<ElementInfo>, out: Vec<String>, i: int)
    requires
        print_elements.ensures((elements,), out),
        0 <= i < elements@.len(),
    ensures
        out@.len() == elements@.len(),
        ({
            let e = elements@[i];
            out@[i]@ == e.id.0@ + " | "@ + e.control_type@ + " | "@ + (if e.actionable {
                "actionable"@
            } else {
                "inactive"@
            }) + " | "@ + (match e.automation_id {
                Some(id) => id@,
                None => ""@,
            }) + " | "@ + (match e.name {
                Some(name) => name@,
                None => ""@,
            })
        }),
{
    let t = text::texts(out@);
    assert(t.len() == out@.len());
    assert(t[i] == out@[i]@);
}

/// A launch fails exactly if the app ended while it was watched. What is reported
/// begins with its process, and says the exit code and the cause only then.
pub proof fn law_early_exit_is_a_failure(
    window: Option<WindowId>,
    pid: u32,
    exit_code: Option<i32>,
    diagnostic: Option<String>,
    r: Result<(Vec<String>, i32), Reply>,
)
    requires
        open.ensures((Reply::AppOpened { window, pid, exit_code, diagnostic },), r),
    ensures
        r matches Ok(out) && {
            &&& out.1 != 0 <==> exit_code is Some
            &&& exit_code is None ==> out.0@.len() == 1
            &&& exit_code is Some && diagnostic is None ==> out.0@.len() == 2
            &&& exit_code is Some && diagnostic is Some ==> out.0@.len() == 3 && out.0@[2]@
                == diagnostic->0@
            &&& exit_code matches Some(code) ==> out.0@[1]@ == "exited early with code "@
                + number::signed(code as int)
            &&& text::stands_at(
                out.0@[0]@,
                "launched pid="@ + number::decimal(pid as nat) + " window="@,
                0,
            )
        },
{
    let lines = (r->Ok_0).0@;
    let t = text::texts(lines);
    assert(t.len() == lines.len());
    assert(t[0] == lines[0]@);
    let lead = "launched pid="@ + number::decimal(pid as nat) + " window="@;
    assert(lines[0]@.subrange(0, lead.len() as int) =~= lead);
    if exit_code is Some {
        assert(t[1] == lines[1]@);
        if diagnostic is Some {
            assert(t[2] == lines[2]@);
        }
    }
}

/// Keys are pressed in the order they are given, each chord as it reads, with a pause
/// after each but the last, and after the element was focused, if one is named. One
/// that cannot be read makes that nothing is pressed.
pub proof fn law_keys_are_pressed_in_order(
    chords: &Vec<String>,
    into: Option<String>,
    i: int,
    chord: &str,
    read: Result<(Vec<crate::proto::wire::Modifier>, crate::proto::wire::Key), String>,
    r: Result<Vec<KeyStep>, String>,
)
    requires
        keys.ensures((chords, into), r),
        0 <= i < chords@.len(),
        chord@ == chords@[i]@,
        parse_chord.ensures((chord,), read),
    ensures
        read is Err ==> r is Err,
        r matches Ok(steps) ==> {
            let lead: int = if into is Some {
                1
            } else {
                0
            };
            &&& steps@.len() == chords@.len() + lead
            &&& into matches Some(id) ==> steps@[0].command == (Command::FocusElement {
                element: ElementId(id),
            })
            &&& read is Ok && (steps@[lead + i].command matches Command::KeyChord { modifiers, key }
                && modifiers@ == (read->Ok_0).0@ && key == (read->Ok_0).1)
            &&& steps@[lead + i].pause_ms == (if i + 1 == chords@.len() {
                0u64
            } else {
                16u64
            })
        },
{
    let all = text::texts(chords@);
    assert(all[i] == chords@[i]@);
    lemma_keys_error(all, i);
    if let Ok(steps) = r {
        let lead = keys_lead(into);
        assert(chord_step(steps@[lead + i], all[i], i + 1 == all.len()));
        let command = steps@[lead + i].command;
        let parts = chord_parts(chord@);
        let (mine, theirs) = (command->modifiers@, (read->Ok_0).0@);
        assert forall|k: int| 0 <= k < mine.len() implies mine[k] == theirs[k] by {
            assert(crate::proto::wire::modifier_named(text::lowercase(parts[k])) == Some(mine[k]));
            assert(crate::proto::wire::modifier_named(text::lowercase(parts[k])) == Some(theirs[k]));
        }
        assert(mine =~= theirs);
    }
}

proof fn lemma_keys_error(chords: Seq<Seq<char>>, i: int)
    requires
        0 <= i < chords.len(),
    ensures
        chord_error(chord_parts(chords[i]), 0) is Some ==> keys_error(chords) is Some,
    decreases chords.len(),
{
    if i > 0 {
        lemma_keys_error(chords.skip(1), i - 1);
        assert(chords.skip(1)[i - 1] == chords[i]);
    }
}

/// A dash stands for standard input; any other text goes to the clipboard as it is.
pub proof fn law_clipboard_takes_the_text(text: String, r: ClipPlan)
    requires
        clip.ensures((text,), r),
    ensures
        r is ReadStdin <==> text@ == "-"@,
        r matches ClipPlan::Send(command) ==> command == (Command::ClipboardSet { text }),
{
}

} // verus!
