//! UI elements: how one is named, described, found again and searched for.
//!
//! An element id is the window handle, a colon, and the element's run-time id as
//! decimals joined by dots. The run-time id stays the same for the element's
//! lifetime, so an id keeps pointing at the same control when its siblings change;
//! an element that is gone is reported as gone, and never mistaken for another.

use vstd::prelude::*;

use crate::number;
use crate::proto::id::{ElementId, WindowId};
use crate::proto::wire::{ElementInfo, ElementQuery, Rect, RemoteError, RemoteErrorKind, Reply};
use crate::runner_core::{is_error, not_found, os_error, timeout_error, RemoteResult};
use crate::text;

verus! {

/// Most elements that one listing returns.
pub const MAX_ELEMENTS: usize = 250;

/// The decimals of a run-time id.
pub open spec fn rid_texts(runtime_id: Seq<i32>) -> Seq<Seq<char>> {
    runtime_id.map_values(|v: i32| number::signed(v as int))
}

/// The id of an element.
pub open spec fn element_id(hwnd: u64, runtime_id: Seq<i32>) -> Seq<char> {
    number::decimal(hwnd as nat) + ":"@ + text::joined(rid_texts(runtime_id), "."@)
}

/// Writes the id of an element.
pub fn encode_element_id(hwnd: u64, runtime_id: &[i32]) -> (id: String)
    ensures
        id@ == element_id(hwnd, runtime_id@),
{
    let ghost want = rid_texts(runtime_id@);
    let mut parts: Vec<String> = Vec::new();
    let mut i: usize = 0;
    assert(text::texts(parts@) =~= want.take(0));
    while i < runtime_id.len()
        invariant
            i <= runtime_id@.len(),
            want == rid_texts(runtime_id@),
            text::texts(parts@) == want.take(i as int),
        decreases runtime_id@.len() - i,
    {
        let ghost before = parts@;
        let part = number::signed_text(runtime_id[i]);
        parts.push(part);
        i = i + 1;
        assert(text::texts(parts@) =~= text::texts(before).push(part@));
        assert(want.take(i as int) =~= want.take(i - 1).push(want[i - 1]));
    }
    assert(want.take(i as int) =~= want);
    text::join3(
        number::decimal_text(hwnd).as_str(),
        ":",
        text::join(&parts, ".").as_str(),
    )
}

/// The numbers that the pieces denote, if all of them do.
pub open spec fn parsed_rid(pieces: Seq<Seq<char>>) -> Option<Seq<i32>>
    decreases pieces.len(),
{
    if pieces.len() == 0 {
        Some(Seq::empty())
    } else {
        match (parsed_rid(pieces.drop_last()), number::parsed_signed(pieces.last())) {
            (Some(front), Some(v)) => Some(front.push(v as i32)),
            _ => None,
        }
    }
}

/// What an element id stands for: the window handle and the run-time id, or what
/// is wrong with it.
pub open spec fn parsed_element_id(id: Seq<char>) -> Result<(u64, Seq<i32>), Seq<char>> {
    match text::split_once(id, ':') {
        None => Err("malformed element id '"@ + id + "'"@),
        Some((hwnd, rid)) => match number::parsed(hwnd, u64::MAX as nat) {
            None => Err("malformed window handle in element id"@),
            Some(h) => if rid.len() == 0 {
                Err("element id carries no runtime id; re-list elements"@)
            } else {
                match parsed_rid(text::split(rid, '.')) {
                    None => Err("malformed runtime id in element id"@),
                    Some(r) => Ok((h as u64, r)),
                }
            },
        },
    }
}

/// Reads the numbers of a run-time id.
fn parse_rid(pieces: &Vec<Vec<char>>) -> (r: Option<Vec<i32>>)
    ensures
        match r {
            Some(rid) => parsed_rid(text::views(pieces@)) == Some(rid@),
            None => parsed_rid(text::views(pieces@)) is None,
        },
{
    let ghost all = text::views(pieces@);
    let mut out: Vec<i32> = Vec::new();
    let mut i: usize = 0;
    assert(all.take(0).len() == 0);
    while i < pieces.len()
        invariant
            i <= pieces@.len(),
            all == text::views(pieces@),
            parsed_rid(all.take(i as int)) == Some(out@),
        decreases pieces@.len() - i,
    {
        let ghost next = all.take(i + 1);
        assert(next.drop_last() =~= all.take(i as int));
        match number::parse_signed(pieces[i].as_slice()) {
            Some(v) => out.push(v),
            None => {
                proof {
                    lemma_bad_piece(all, i as int);
                }
                return None;
            },
        }
        i = i + 1;
    }
    assert(all.take(i as int) =~= all);
    Some(out)
}

proof fn lemma_bad_piece(pieces: Seq<Seq<char>>, at: int)
    requires
        0 <= at < pieces.len(),
        number::parsed_signed(pieces[at]) is None,
    ensures
        parsed_rid(pieces) is None,
    decreases pieces.len(),
{
    if at < pieces.len() - 1 {
        lemma_bad_piece(pieces.drop_last(), at);
    }
}

/// Reads an element id. Whatever is wrong with it, there is no such element.
pub fn parse_element_id(id: &str) -> (r: RemoteResult<(u64, Vec<i32>)>)
    ensures
        match r {
            Ok((hwnd, rid)) => parsed_element_id(id@) == Ok::<(u64, Seq<i32>), Seq<char>>(
                (hwnd, rid@),
            ),
            Err(e) => parsed_element_id(id@) matches Err(m) && is_error(
                e,
                RemoteErrorKind::NotFound,
                m,
            ),
        },
{
    match text::split_first(text::chars_of(id).as_slice(), ':') {
        None => Err(not_found(text::join3("malformed element id '", id, "'").as_str())),
        Some((handle, rid)) => match number::parse_unsigned(handle.as_slice(), u64::MAX) {
            None => Err(not_found("malformed window handle in element id")),
            Some(hwnd) => if rid.len() == 0 {
                Err(not_found("element id carries no runtime id; re-list elements"))
            } else {
                match parse_rid(&text::split_on(rid.as_slice(), '.')) {
                    None => Err(not_found("malformed runtime id in element id")),
                    Some(numbers) => Ok((hwnd, numbers)),
                }
            },
        },
    }
}

proof fn lemma_rid_round_trip(rid: Seq<i32>)
    ensures
        parsed_rid(rid_texts(rid)) == Some(rid),
    decreases rid.len(),
{
    if rid.len() > 0 {
        lemma_rid_round_trip(rid.drop_last());
        assert(rid_texts(rid).drop_last() =~= rid_texts(rid.drop_last()));
        number::law_signed_round_trip(rid.last());
        assert(rid.drop_last().push(rid.last()) =~= rid);
    } else {
        assert(rid =~= Seq::<i32>::empty());
    }
}

proof fn lemma_no_colon(s: Seq<char>, rest: Seq<char>, from: int)
    requires
        number::all_digits(s),
        0 <= from <= s.len(),
    ensures
        text::first_from(s + seq![':'] + rest, ':', from) == s.len(),
    decreases s.len() - from,
{
    let whole = s + seq![':'] + rest;
    if from < s.len() {
        assert(number::is_digit(s[from]));
        assert(whole[from] == s[from]);
        lemma_no_colon(s, rest, from + 1);
    } else {
        assert(whole[from] == ':');
    }
}

/// An id that was written for an element is read back as that element. One without
/// a run-time id is refused.
pub proof fn law_element_id_round_trip(hwnd: u64, rid: Seq<i32>)
    ensures
        parsed_element_id(element_id(hwnd, rid)) == if rid.len() > 0 {
            Ok::<(u64, Seq<i32>), Seq<char>>((hwnd, rid))
        } else {
            Err("element id carries no runtime id; re-list elements"@)
        },
{
    reveal_strlit(":");
    reveal_strlit(".");
    let head = number::decimal(hwnd as nat);
    let parts = rid_texts(rid);
    let tail = text::joined(parts, "."@);
    let id = element_id(hwnd, rid);
    number::law_decimal_denotes(hwnd as nat);
    number::law_decimal_round_trip(hwnd as nat, u64::MAX as nat);
    assert(":"@ =~= seq![':']);
    assert("."@ =~= seq!['.']);
    lemma_no_colon(head, tail, 0);
    assert(id.take(head.len() as int) =~= head);
    assert(id.skip(head.len() as int + 1) =~= tail);
    if rid.len() > 0 {
        assert forall|i: int| 0 <= i < parts.len() implies !(#[trigger] parts[i]).contains('.') by {
            lemma_signed_has_no_dot(rid[i]);
        }
        text::law_split_undoes_join(parts, '.');
        lemma_rid_round_trip(rid);
        assert(tail.len() > 0) by {
            lemma_signed_has_no_dot(rid[rid.len() - 1]);
            assert(parts.last().len() > 0);
        }
    }
}

proof fn lemma_signed_has_no_dot(v: i32)
    ensures
        !number::signed(v as int).contains('.'),
        number::signed(v as int).len() > 0,
{
    let n = if v < 0 {
        -(v as int)
    } else {
        v as int
    };
    number::law_decimal_denotes(n as nat);
    let s = number::signed(v as int);
    assert forall|i: int| 0 <= i < s.len() implies s[i] != '.' by {
        if v < 0 {
            if i > 0 {
                assert(number::is_digit(number::decimal(n as nat)[i - 1]));
            }
        } else {
            assert(number::is_digit(number::decimal(n as nat)[i]));
        }
    }
}

/// Two elements of one id are the same element of the same window.
pub proof fn law_element_ids_differ(hwnd1: u64, rid1: Seq<i32>, hwnd2: u64, rid2: Seq<i32>)
    requires
        rid1.len() > 0,
        rid2.len() > 0,
        element_id(hwnd1, rid1) == element_id(hwnd2, rid2),
    ensures
        hwnd1 == hwnd2,
        rid1 == rid2,
{
    law_element_id_round_trip(hwnd1, rid1);
    law_element_id_round_trip(hwnd2, rid2);
}

/// Whether no element has that run-time id.
pub open spec fn is_gone(present: Seq<Vec<i32>>, target: Seq<i32>) -> bool {
    forall|k: int| 0 <= k < present.len() ==> (#[trigger] present[k])@ != target
}

/// The first element whose run-time id is the one looked for.
pub fn resolve(present: &Vec<Vec<i32>>, target: &[i32]) -> (r: RemoteResult<usize>)
    ensures
        match r {
            Ok(at) => at < present@.len() && present@[at as int]@ == target@ && forall|k: int|
                0 <= k < at ==> (#[trigger] present@[k])@ != target@,
            Err(e) => (forall|k: int| 0 <= k < present@.len() ==> (#[trigger] present@[k])@ != target@)
                && is_error(
                e,
                RemoteErrorKind::NotFound,
                "element no longer present (UI changed); re-list elements"@,
            ),
        },
        r is Ok ==> is_gone(present@.take(r->Ok_0 as int), target@),
        r is Err ==> is_gone(present@, target@),
{
    let mut at: usize = 0;
    while at < present.len()
        invariant
            at <= present@.len(),
            forall|k: int| 0 <= k < at ==> (#[trigger] present@[k])@ != target@,
        decreases present@.len() - at,
    {
        if same_rid(present[at].as_slice(), target) {
            return Ok(at);
        }
        at = at + 1;
    }
    Err(not_found("element no longer present (UI changed); re-list elements"))
}

/// Compares two run-time ids.
fn same_rid(a: &[i32], b: &[i32]) -> (r: bool)
    ensures
        r == (a@ == b@),
{
    if a.len() != b.len() {
        return false;
    }
    let mut i: usize = 0;
    while i < a.len()
        invariant
            i <= a@.len(),
            a@.len() == b@.len(),
            forall|k: int| 0 <= k < i ==> a@[k] == b@[k],
        decreases a@.len() - i,
    {
        if a[i] != b[i] {
            return false;
        }
        i = i + 1;
    }
    assert(a@ =~= b@);
    true
}

/// The edges of a rectangle on the screen.
#[derive(Debug, Clone, Copy, PartialEq, Eq)]
pub struct Bounds {
    /// Left edge.
    pub left: i32,
    /// Top edge.
    pub top: i32,
    /// Right edge.
    pub right: i32,
    /// Bottom edge.
    pub bottom: i32,
}

impl Bounds {
    /// Width and height are in range.
    pub open spec fn sized(self) -> bool {
        &&& i32::MIN <= self.right - self.left <= i32::MAX
        &&& i32::MIN <= self.bottom - self.top <= i32::MAX
    }

    /// The sums of opposite edges are in range.
    pub open spec fn centred(self) -> bool {
        &&& i32::MIN <= self.left + self.right <= i32::MAX
        &&& i32::MIN <= self.top + self.bottom <= i32::MAX
    }

    /// Whether width and height are in range.
    pub fn is_sized(&self) -> (r: bool)
        ensures
            r == self.sized(),
    {
        let w: i64 = self.right as i64 - self.left as i64;
        let h: i64 = self.bottom as i64 - self.top as i64;
        -0x8000_0000 <= w && w <= 0x7fff_ffff && -0x8000_0000 <= h && h <= 0x7fff_ffff
    }

    /// Whether the sums of opposite edges are in range.
    pub fn is_centred(&self) -> (r: bool)
        ensures
            r == self.centred(),
    {
        let x: i64 = self.left as i64 + self.right as i64;
        let y: i64 = self.top as i64 + self.bottom as i64;
        -0x8000_0000 <= x && x <= 0x7fff_ffff && -0x8000_0000 <= y && y <= 0x7fff_ffff
    }

    /// The rectangle by its corner, width and height.
    pub open spec fn spec_rect(self) -> Rect {
        Rect {
            x: self.left,
            y: self.top,
            width: (self.right - self.left) as i32,
            height: (self.bottom - self.top) as i32,
        }
    }

    /// The rectangle by its corner, width and height.
    pub fn rect(&self) -> (r: Rect)
        requires
            self.sized(),
        ensures
            r == self.spec_rect(),
    {
        Rect {
            x: self.left,
            y: self.top,
            width: self.right - self.left,
            height: self.bottom - self.top,
        }
    }

    /// The point in the middle, rounded toward zero.
    pub fn centre(&self) -> (r: (i32, i32))
        requires
            self.centred(),
        ensures
            r.0 == halved(self.left + self.right),
            r.1 == halved(self.top + self.bottom),
    {
        (half(self.left + self.right), half(self.top + self.bottom))
    }
}

/// Half of a number, rounded toward zero.
pub open spec fn halved(n: int) -> int {
    if n < 0 {
        -((-n) / 2)
    } else {
        n / 2
    }
}

/// Half of a number, rounded toward zero.
pub fn half(n: i32) -> (r: i32)
    ensures
        r == halved(n as int),
{
    if n < 0 {
        (-((-(n as i64)) / 2)) as i32
    } else {
        n / 2
    }
}

/// What the system tells of an element; a property that could not be read is
/// missing.
pub struct Seen {
    /// Run-time id; empty if the element has none.
    pub runtime_id: Vec<i32>,
    /// Name.
    pub name: Option<String>,
    /// Automation id.
    pub automation_id: Option<String>,
    /// Number of the control type.
    pub control_type: Option<i32>,
    /// Whether it is enabled.
    pub enabled: Option<bool>,
    /// Whether it is off the screen.
    pub offscreen: Option<bool>,
    /// Value.
    pub value: Option<String>,
    /// Bounding rectangle.
    pub bounds: Option<Bounds>,
}

/// The name of a well-known control type.
pub open spec fn well_known(control_type: i32) -> Option<Seq<char>> {
    if control_type == 50000 {
        Some("Button"@)
    } else if control_type == 50002 {
        Some("CheckBox"@)
    } else if control_type == 50003 {
        Some("ComboBox"@)
    } else if control_type == 50004 {
        Some("Edit"@)
    } else if control_type == 50005 {
        Some("Hyperlink"@)
    } else if control_type == 50006 {
        Some("Image"@)
    } else if control_type == 50007 {
        Some("ListItem"@)
    } else if control_type == 50008 {
        Some("List"@)
    } else if control_type == 50011 {
        Some("MenuItem"@)
    } else if control_type == 50019 {
        Some("TabItem"@)
    } else if control_type == 50020 {
        Some("Text"@)
    } else if control_type == 50023 {
        Some("TreeItem"@)
    } else if control_type == 50026 {
        Some("Group"@)
    } else if control_type == 50032 {
        Some("Window"@)
    } else if control_type == 50033 {
        Some("Pane"@)
    } else {
        None
    }
}

/// The name that a control type is shown by.
pub open spec fn control_type_text(control_type: i32) -> Seq<char> {
    match well_known(control_type) {
        Some(name) => name,
        None => "ControlType("@ + number::signed(control_type as int) + ")"@,
    }
}

/// Names a control type.
pub fn control_type_name(control_type: i32) -> (r: String)
    ensures
        r@ == control_type_text(control_type),
{
    let name = match control_type {
        50000 => "Button",
        50002 => "CheckBox",
        50003 => "ComboBox",
        50004 => "Edit",
        50005 => "Hyperlink",
        50006 => "Image",
        50007 => "ListItem",
        50008 => "List",
        50011 => "MenuItem",
        50019 => "TabItem",
        50020 => "Text",
        50023 => "TreeItem",
        50026 => "Group",
        50032 => "Window",
        50033 => "Pane",
        _ => {
            return text::join3(
                "ControlType(",
                number::signed_text(control_type).as_str(),
                ")",
            );
        },
    };
    name.to_string()
}

/// A text that says something.
pub open spec fn filled(s: Option<String>) -> Option<Seq<char>> {
    match s {
        Some(v) => if v@.len() > 0 {
            Some(v@)
        } else {
            None
        },
        None => None,
    }
}

/// The view of an optional text.
pub open spec fn shown(s: Option<String>) -> Option<Seq<char>> {
    match s {
        Some(v) => Some(v@),
        None => None,
    }
}

/// Drops an empty text.
fn drop_empty(s: Option<String>) -> (r: Option<String>)
    ensures
        shown(r) == filled(s),
{
    match s {
        Some(v) => {
            if text::chars_of(v.as_str()).len() > 0 {
                Some(v)
            } else {
                None
            }
        },
        None => None,
    }
}

/// Whether `info` describes what was seen of an element in that window: empty
/// texts are left out, and only what is known to be enabled and on the screen can
/// be acted on.
pub open spec fn describes_element(info: ElementInfo, seen: Seen, hwnd: u64) -> bool {
    &&& info.id.0@ == element_id(hwnd, seen.runtime_id@)
    &&& info.control_type@ == match seen.control_type {
        Some(t) => control_type_text(t),
        None => "Unknown"@,
    }
    &&& shown(info.name) == filled(seen.name)
    &&& shown(info.automation_id) == filled(seen.automation_id)
    &&& shown(info.value) == filled(seen.value)
    &&& info.rect == match seen.bounds {
        Some(b) => b.spec_rect(),
        None => Rect { x: 0, y: 0, width: 0, height: 0 },
    }
    &&& info.actionable == (seen.enabled == Some(true) && seen.offscreen == Some(false))
}

/// Describes an element.
pub fn describe(seen: Seen, hwnd: u64) -> (info: ElementInfo)
    requires
        seen.bounds matches Some(b) ==> b.sized(),
    ensures
        describes_element(info, seen, hwnd),
{
    let id = ElementId(encode_element_id(hwnd, seen.runtime_id.as_slice()));
    let control_type = match seen.control_type {
        Some(t) => control_type_name(t),
        None => "Unknown".to_string(),
    };
    let enabled = match seen.enabled {
        Some(e) => e,
        None => false,
    };
    let offscreen = match seen.offscreen {
        Some(o) => o,
        None => true,
    };
    let rect = match seen.bounds {
        Some(b) => b.rect(),
        None => Rect::default(),
    };
    ElementInfo {
        id,
        control_type,
        name: drop_empty(seen.name),
        automation_id: drop_empty(seen.automation_id),
        value: drop_empty(seen.value),
        rect,
        actionable: enabled && !offscreen,
    }
}

/// How many of the elements a listing walks.
pub fn collected(length: usize) -> (n: usize)
    ensures
        n == if length < MAX_ELEMENTS {
            length
        } else {
            MAX_ELEMENTS
        },
{
    if length < MAX_ELEMENTS {
        length
    } else {
        MAX_ELEMENTS
    }
}

/// What comes after a look at the elements of a window.
pub enum FindStep {
    /// This is the answer.
    Answer(RemoteResult<Reply>),
    /// Look again after this many milliseconds.
    Again(u64),
}

/// Looks for the elements that a query accepts. Without a wait the matches are the
/// answer, even if there are none. With one, a first match is waited for until the
/// deadline has passed.
pub fn find_step(
    seen: Vec<ElementInfo>,
    query: &ElementQuery,
    wait_ms: Option<u64>,
    deadline_passed: bool,
) -> (r: FindStep)
    ensures
        ({
            let hits = seen@.filter(|e: ElementInfo| query.accepts(e));
            match r {
                FindStep::Answer(Ok(reply)) => (hits.len() > 0 || wait_ms is None)
                    && (reply matches Reply::Elements(found) && found@ == hits),
                FindStep::Answer(Err(e)) => hits.len() == 0 && deadline_passed && (
                wait_ms matches Some(ms) && is_error(
                    e,
                    RemoteErrorKind::Timeout,
                    "no element matched within "@ + number::decimal(ms as nat) + " ms"@,
                )),
                FindStep::Again(ms) => hits.len() == 0 && wait_ms is Some && !deadline_passed && ms
                    == 200,
            }
        }),
{
    let ghost keep = |e: ElementInfo| query.accepts(e);
    let ghost all = seen@;
    let mut hits: Vec<ElementInfo> = Vec::new();
    assert(all.take(0).filter(keep) =~= hits@) by {
        reveal(Seq::filter);
    }
    for e in it: seen
        invariant
            it.seq() == all,
            keep == (|e: ElementInfo| query.accepts(e)),
            hits@ == all.take(it.index()).filter(keep),
    {
        proof {
            reveal(Seq::filter);
            assert(all.take(it.index() + 1).drop_last() =~= all.take(it.index()));
            assert(all.take(it.index() + 1).last() == e);
        }
        if query.matches(&e) {
            hits.push(e);
        }
    }
    assert(all.take(all.len() as int) =~= all);
    match wait_ms {
        None => FindStep::Answer(Ok(Reply::Elements(hits))),
        Some(ms) => {
            if hits.len() > 0 {
                FindStep::Answer(Ok(Reply::Elements(hits)))
            } else if deadline_passed {
                let m = text::join3(
                    "no element matched within ",
                    number::decimal_text(ms).as_str(),
                    " ms",
                );
                FindStep::Answer(Err(timeout_error(m.as_str())))
            } else {
                FindStep::Again(200)
            }
        },
    }
}

/// The error of every element request where there is no UI automation.
pub open spec fn is_unsupported(e: RemoteError) -> bool {
    is_error(e, RemoteErrorKind::Os, "UI Automation is only supported on Windows"@)
}

/// The error of every element request where there is no UI automation.
fn unsupported() -> (e: RemoteError)
    ensures
        is_unsupported(e),
{
    os_error("UI Automation is only supported on Windows")
}

/// Lists elements where there is no UI automation.
pub fn list_elements(_window: WindowId) -> (r: RemoteResult<Reply>)
    ensures
        r matches Err(e) && is_unsupported(e),
{
    Err(unsupported())
}

/// Finds elements where there is no UI automation.
pub fn find_elements(_window: WindowId, _query: &ElementQuery, _wait_ms: Option<u64>) -> (r:
    RemoteResult<Reply>)
    ensures
        r matches Err(e) && is_unsupported(e),
{
    Err(unsupported())
}

/// Clicks an element where there is no UI automation.
pub fn click_element(_element_id: &str) -> (r: RemoteResult<Reply>)
    ensures
        r matches Err(e) && is_unsupported(e),
{
    Err(unsupported())
}

/// Sets a value where there is no UI automation.
pub fn set_value(_element_id: &str, _value: &str) -> (r: RemoteResult<Reply>)
    ensures
        r matches Err(e) && is_unsupported(e),
{
    Err(unsupported())
}

/// Locates an element where there is no UI automation.
pub fn element_rect(_element_id: &str) -> (r: RemoteResult<Rect>)
    ensures
        r matches Err(e) && is_unsupported(e),
{
    Err(unsupported())
}

/// Focuses an element where there is no UI automation.
pub fn focus(_element_id: &str) -> (r: RemoteResult<()>)
    ensures
        r matches Err(e) && is_unsupported(e),
{
    Err(unsupported())
}

/// An id that was written for an element is read as that element of that window, and
/// an id that is read is of the element that it was read as.
pub proof fn law_element_is_found_by_its_id(
    hwnd: u64,
    rid: &[i32],
    id: String,
    text: &str,
    r: RemoteResult<(u64, Vec<i32>)>,
)
    requires
        rid@.len() > 0,
        encode_element_id.ensures((hwnd, rid), id),
        text@ == id@,
        parse_element_id.ensures((text,), r),
    ensures
        r matches Ok(back) && back.0 == hwnd && back.1@ == rid@,
{
    law_element_id_round_trip(hwnd, rid@);
}

/// An element is found by its whole run-time id, the first of that id; one that is
/// gone is not found, and never taken for another.
pub proof fn law_gone_element_is_not_found(
    present: &Vec<Vec<i32>>,
    target: &[i32],
    r: RemoteResult<usize>,
)
    requires
        resolve.ensures((present, target), r),
    ensures
        r matches Ok(at) ==> at < present@.len() && present@[at as int]@ == target@ && forall|k: int|
            0 <= k < at ==> (#[trigger] present@[k])@ != target@,
        r matches Err(e) ==> e.kind == RemoteErrorKind::NotFound,
        r is Err <==> forall|k: int| 0 <= k < present@.len() ==> (#[trigger] present@[k])@ != target@,
{
    match r {
        Ok(at) => {
            let before = present@.take(at as int);
            assert(is_gone(before, target@));
            assert forall|k: int| 0 <= k < at implies (#[trigger] present@[k])@ != target@ by {
                assert(before[k] == present@[k]);
            }
            assert(present@[at as int]@ == target@);
        },
        Err(_) => {
            assert(is_gone(present@, target@));
        },
    }
}

/// A rectangle reaches from its left and top edge as far as its width and height, and
/// its middle lies as far from one edge as from the other, but for rounding.
pub proof fn law_rectangle_by_its_edges(bounds: &Bounds, r: Rect, c: (i32, i32))
    requires
        bounds.sized() && bounds.centred(),
        call_ensures(Bounds::rect, (bounds,), r),
        call_ensures(Bounds::centre, (bounds,), c),
    ensures
        r.x == bounds.left && r.y == bounds.top,
        r.x + r.width == bounds.right && r.y + r.height == bounds.bottom,
        -1 <= 2 * c.0 - (bounds.left + bounds.right) <= 1,
        -1 <= 2 * c.1 - (bounds.top + bounds.bottom) <= 1,
        bounds.left <= bounds.right ==> bounds.left <= c.0 <= bounds.right,
        bounds.top <= bounds.bottom ==> bounds.top <= c.1 <= bounds.bottom,
{
}

/// An element is described by its id, and by what is known of it; it can be acted on
/// exactly if it is known to be enabled and to be on the screen.
pub proof fn law_element_is_described(
    seen: Seen,
    hwnd: u64,
    rid: &[i32],
    id: String,
    info: ElementInfo,
)
    requires
        seen.bounds matches Some(b) ==> b.sized(),
        rid@ == seen.runtime_id@,
        encode_element_id.ensures((hwnd, rid), id),
        describe.ensures((seen, hwnd), info),
    ensures
        info.id.0@ == id@,
        info.actionable <==> seen.enabled == Some(true) && seen.offscreen == Some(false),
        seen.name matches Some(n) ==> (n@.len() > 0 ==> (info.name matches Some(m) && m@ == n@))
            && (n@.len() == 0 ==> info.name is None),
        seen.name is None ==> info.name is None,
        seen.automation_id matches Some(n) ==> (n@.len() > 0 ==> (info.automation_id matches Some(m)
            && m@ == n@)) && (n@.len() == 0 ==> info.automation_id is None),
        seen.automation_id is None ==> info.automation_id is None,
        seen.value matches Some(n) ==> (n@.len() > 0 ==> (info.value matches Some(m) && m@ == n@))
            && (n@.len() == 0 ==> info.value is None),
        seen.value is None ==> info.value is None,
        seen.bounds matches Some(b) ==> info.rect.x == b.left && info.rect.y == b.top
            && info.rect.x + info.rect.width == b.right && info.rect.y + info.rect.height
            == b.bottom,
{
}

/// A control type of the system has the name that the system gives it.
pub proof fn law_control_types_are_named(t: i32, r: String)
    requires
        control_type_name.ensures((t,), r),
    ensures
        t == 50000 ==> r@ == "Button"@,
        t == 50002 ==> r@ == "CheckBox"@,
        t == 50003 ==> r@ == "ComboBox"@,
        t == 50004 ==> r@ == "Edit"@,
        t == 50005 ==> r@ == "Hyperlink"@,
        t == 50006 ==> r@ == "Image"@,
        t == 50007 ==> r@ == "ListItem"@,
        t == 50008 ==> r@ == "List"@,
        t == 50011 ==> r@ == "MenuItem"@,
        t == 50019 ==> r@ == "TabItem"@,
        t == 50020 ==> r@ == "Text"@,
        t == 50023 ==> r@ == "TreeItem"@,
        t == 50026 ==> r@ == "Group"@,
        t == 50032 ==> r@ == "Window"@,
        t == 50033 ==> r@ == "Pane"@,
        t < 50000 || t > 50033 ==> r@ == "ControlType("@ + number::signed(t as int) + ")"@,
{
}

/// A search finds exactly the elements that the query matches. Without a wait it
/// answers at once; with one only once something matched, and with a timeout when the
/// time is over.
pub proof fn law_search_finds_what_matches(
    seen: Vec<ElementInfo>,
    query: &ElementQuery,
    wait_ms: Option<u64>,
    late: bool,
    element: ElementInfo,
    fits: bool,
    r: FindStep,
)
    requires
        find_step.ensures((seen, query, wait_ms, late), r),
        call_ensures(ElementQuery::matches, (query, &element), fits),
    ensures
        r matches FindStep::Answer(Ok(reply)) ==> (reply matches Reply::Elements(found)
            && found@.len() <= seen@.len() && (found@.contains(element) <==> seen@.contains(element)
            && fits) && (wait_ms is Some ==> found@.len() > 0)),
        wait_ms is None ==> (r matches FindStep::Answer(a) && a is Ok),
        seen@.contains(element) && fits ==> (r matches FindStep::Answer(a) && a is Ok),
        r matches FindStep::Answer(Err(e)) ==> late && e.kind == RemoteErrorKind::Timeout,
        r is Again ==> !late,
{
    let keep = |e: ElementInfo| query.accepts(e);
    let hits = seen@.filter(keep);
    seen@.lemma_filter_len(keep);
    if seen@.contains(element) && fits {
        let i = choose|i: int| 0 <= i < seen@.len() && seen@[i] == element;
        seen@.lemma_filter_contains(keep, i);
        assert(hits.contains(element));
    }
    if hits.contains(element) {
        seen@.lemma_filter_contains_rev(keep, element);
        let i = choose|i: int| 0 <= i < hits.len() && hits[i] == element;
        seen@.lemma_filter_pred(keep, i);
    }
}

/// A listing walks all elements, but not more than two hundred and fifty.
pub proof fn law_listing_is_bounded(length: usize, n: usize)
    requires
        collected.ensures((length,), n),
    ensures
        n <= length && n <= 250,
        n == length || n == 250,
{
}

} // verus!
