//! Mouse and keyboard input, as scripts of single operations. What was pressed is
//! released again whatever fails in between.

use vstd::prelude::*;

use crate::number;
use crate::proto::wire::{Key, Modifier, MouseAction, MouseButton, RemoteErrorKind, Reply};
use crate::runner_core::{is_error, os_error, RemoteResult};
use crate::text;

verus! {

/// What happens to a key or button.
#[derive(Debug, Clone, Copy, PartialEq, Eq, Structural)]
pub enum Direction {
    /// Press and hold.
    Press,
    /// Let go.
    Release,
    /// Press and let go.
    Click,
}

/// A key of the keyboard.
#[derive(Debug, Clone, Copy, PartialEq, Eq, Structural)]
pub enum KeySym {
    /// A character key.
    Unicode(char),
    /// A named key.
    Named(Key),
    /// A function key, F1 to F24.
    Function(u8),
    /// Control.
    Control,
    /// Alt.
    Alt,
    /// Shift.
    Shift,
    /// The Windows or command key.
    Meta,
}

/// A single input operation.
#[derive(Debug, Clone, Copy, PartialEq, Eq, Structural)]
pub enum InputOp {
    /// Move the cursor to an absolute position.
    MoveTo {
        /// X.
        x: i32,
        /// Y.
        y: i32,
    },
    /// Use a mouse button, that many times in a row.
    Button {
        /// Which.
        button: MouseButton,
        /// How.
        direction: Direction,
        /// How often.
        times: u32,
    },
    /// Use a key.
    Key {
        /// Which.
        key: KeySym,
        /// How.
        direction: Direction,
    },
    /// Turn the wheel by notches.
    Scroll {
        /// How far.
        amount: i32,
        /// Sideways.
        horizontal: bool,
    },
}

/// A step of an input script.
pub struct Step {
    /// What is done.
    pub op: InputOp,
    /// What is said of a failure.
    pub label: String,
    /// A release names the step whose press it undoes: it is taken exactly if that
    /// one was done. Any other step is taken only while nothing has failed.
    pub undoes: Option<usize>,
    /// Whether a failure counts.
    pub counts: bool,
}

/// What became of a step.
#[derive(Debug, Clone, Copy, PartialEq, Eq, Structural)]
pub enum Fate {
    /// It was passed over.
    Skipped,
    /// It was done.
    Done,
    /// It was tried and failed.
    Failed,
}

/// Whether any of the steps so far failed.
pub open spec fn any_failed(fates: Seq<Fate>) -> bool {
    exists|i: int| 0 <= i < fates.len() && #[trigger] fates[i] == Fate::Failed
}

/// Whether step `i` is taken, given what became of the steps before it.
pub open spec fn due(steps: Seq<Step>, fates: Seq<Fate>, i: int) -> bool {
    match steps[i].undoes {
        Some(k) => k < i && fates[k as int] == Fate::Done,
        None => !any_failed(fates.take(i)),
    }
}

/// A script is in order if every release comes after the press it undoes.
pub open spec fn in_order(steps: Seq<Step>) -> bool {
    forall|i: int|
        0 <= i < steps.len() ==> ((#[trigger] steps[i]).undoes matches Some(k) ==> k < i)
}

/// Whether the fates so far are what the rules ask for: a step is passed over
/// exactly if it is not due.
pub open spec fn followed(steps: Seq<Step>, fates: Seq<Fate>) -> bool {
    forall|i: int|
        0 <= i < fates.len() ==> (#[trigger] fates[i] == Fate::Skipped <==> !due(steps, fates, i))
}

/// An input script being carried out.
pub struct Injection {
    steps: Vec<Step>,
    fates: Vec<Fate>,
    error: Option<String>,
}

impl Injection {
    /// The steps.
    pub closed spec fn script(self) -> Seq<Step> {
        self.steps@
    }

    /// What became of the steps so far.
    pub closed spec fn trace(self) -> Seq<Fate> {
        self.fates@
    }

    /// The first failure that counts, in words.
    pub closed spec fn failure(self) -> Option<Seq<char>> {
        match self.error {
            Some(e) => Some(e@),
            None => None,
        }
    }

    /// The trace follows the rules, and a failure is kept exactly if one that
    /// counts has happened.
    pub open spec fn well_formed(self) -> bool {
        &&& self.trace().len() <= self.script().len()
        &&& in_order(self.script())
        &&& followed(self.script(), self.trace())
        &&& self.failure() is Some <==> exists|i: int|
            0 <= i < self.trace().len() && #[trigger] self.trace()[i] == Fate::Failed
                && self.script()[i].counts
    }

    /// Begins a script.
    pub fn new(steps: Vec<Step>) -> (r: Self)
        requires
            in_order(steps@),
        ensures
            r.well_formed(),
            r.script() == steps@,
            r.trace() == Seq::<Fate>::empty(),
    {
        Injection { steps, fates: Vec::new(), error: None }
    }

    fn is_due(&self) -> (r: bool)
        requires
            self.well_formed(),
            self.trace().len() < self.script().len(),
        ensures
            r == due(self.script(), self.trace(), self.trace().len() as int),
    {
        let at: usize = self.fates.len();
        match self.steps[at].undoes {
            Some(k) => {
                assert(k < at);
                self.fates[k] == Fate::Done
            },
            None => {
                let mut i: usize = 0;
                assert(self.fates@.take(at as int) =~= self.fates@);
                while i < at
                    invariant
                        i <= at,
                        at == self.fates@.len(),
                        self.steps@[at as int].undoes is None,
                        self.fates@.take(at as int) == self.fates@,
                        forall|k: int| 0 <= k < i ==> #[trigger] self.fates@[k] != Fate::Failed,
                    decreases at - i,
                {
                    if self.fates[i] == Fate::Failed {
                        assert(self.fates@[i as int] == Fate::Failed);
                        return false;
                    }
                    i = i + 1;
                }
                true
            },
        }
    }

    proof fn lemma_push(steps: Seq<Step>, fates: Seq<Fate>, fate: Fate)
        requires
            followed(steps, fates),
            fates.len() < steps.len(),
            in_order(steps),
            fate == Fate::Skipped <==> !due(steps, fates, fates.len() as int),
        ensures
            followed(steps, fates.push(fate)),
    {
        let after = fates.push(fate);
        assert forall|i: int| 0 <= i < after.len() implies (#[trigger] after[i] == Fate::Skipped
            <==> !due(steps, after, i)) by {
            assert(after.take(i) =~= fates.take(i));
            if i < fates.len() {
                assert(fates[i] == after[i]);
            }
            assert(due(steps, after, i) == due(steps, fates, i));
        }
    }

    /// Passes over steps that are not due, up to the next one that is: what it
    /// does, or none if the script is over.
    pub fn next(&mut self) -> (r: Option<InputOp>)
        requires
            old(self).well_formed(),
        ensures
            final(self).well_formed(),
            final(self).script() == old(self).script(),
            old(self).trace().is_prefix_of(final(self).trace()),
            forall|i: int|
                old(self).trace().len() <= i < final(self).trace().len()
                    ==> #[trigger] final(self).trace()[i] == Fate::Skipped,
            match r {
                Some(op) => {
                    let at = final(self).trace().len() as int;
                    at < final(self).script().len() && due(
                        final(self).script(),
                        final(self).trace(),
                        at,
                    ) && op == final(self).script()[at].op
                },
                None => final(self).trace().len() == final(self).script().len(),
            },
            final(self).failure() == old(self).failure(),
    {
        while self.fates.len() < self.steps.len()
            invariant
                self.well_formed(),
                self.script() == old(self).script(),
                old(self).trace().is_prefix_of(self.trace()),
                forall|i: int|
                    old(self).trace().len() <= i < self.trace().len()
                        ==> #[trigger] self.trace()[i] == Fate::Skipped,
                self.failure() == old(self).failure(),
            decreases self.script().len() - self.trace().len(),
        {
            if self.is_due() {
                return Some(self.steps[self.fates.len()].op);
            }
            let ghost before = *self;
            self.fates.push(Fate::Skipped);
            proof {
                Self::lemma_push(before.script(), before.trace(), Fate::Skipped);
                assert(self.trace() =~= before.trace().push(Fate::Skipped));
                assert forall|i: int|
                    0 <= i < before.trace().len() && #[trigger] before.trace()[i] == Fate::Failed
                        && before.script()[i].counts implies self.trace()[i] == Fate::Failed
                    && self.script()[i].counts by {}
            }
        }
        None
    }

    /// Records how the step that [`Injection::next`] gave went.
    pub fn record(&mut self, outcome: Result<(), String>)
        requires
            old(self).well_formed(),
            old(self).trace().len() < old(self).script().len(),
            due(old(self).script(), old(self).trace(), old(self).trace().len() as int),
        ensures
            final(self).well_formed(),
            final(self).script() == old(self).script(),
            final(self).trace() == old(self).trace().push(
                if outcome is Ok {
                    Fate::Done
                } else {
                    Fate::Failed
                },
            ),
            final(self).failure() == (match outcome {
                Ok(_) => old(self).failure(),
                Err(e) => {
                    let step = old(self).script()[old(self).trace().len() as int];
                    if old(self).failure() is None && step.counts {
                        Some(step.label@ + ": "@ + e@)
                    } else {
                        old(self).failure()
                    }
                },
            }),
    {
        let at: usize = self.fates.len();
        let ghost before = *self;
        match outcome {
            Ok(_) => {
                self.fates.push(Fate::Done);
                proof {
                    Self::lemma_push(before.script(), before.trace(), Fate::Done);
                }
            },
            Err(e) => {
                if self.error.is_none() && self.steps[at].counts {
                    self.error = Some(
                        text::join3(self.steps[at].label.as_str(), ": ", e.as_str()),
                    );
                }
                self.fates.push(Fate::Failed);
                proof {
                    Self::lemma_push(before.script(), before.trace(), Fate::Failed);
                    assert(self.trace()[at as int] == Fate::Failed);
                }
            },
        }
        proof {
            assert forall|i: int|
                0 <= i < before.trace().len() && #[trigger] before.trace()[i] == Fate::Failed
                    && before.script()[i].counts implies self.trace()[i] == Fate::Failed
                && self.script()[i].counts by {}
        }
    }

    /// The answer to a script that is over: an acknowledgement, or the first
    /// failure that counts.
    pub fn finish(self) -> (r: RemoteResult<Reply>)
        ensures
            match self.failure() {
                None => r == Ok::<Reply, crate::proto::wire::RemoteError>(Reply::Ack),
                Some(e) => r matches Err(m) && is_error(m, RemoteErrorKind::Os, e),
            },
    {
        match self.error {
            None => Ok(Reply::Ack),
            Some(e) => Err(os_error(e.as_str())),
        }
    }
}

/// Whether every press of a script is undone by a later release of the same key
/// or button.
pub open spec fn releases_all(steps: Seq<Step>) -> bool {
    forall|i: int|
        0 <= i < steps.len() && is_press((#[trigger] steps[i]).op) ==> exists|j: int|
            i < j < steps.len() && #[trigger] undoes(steps, j, i)
}

/// Whether an operation presses and holds something.
pub open spec fn is_press(op: InputOp) -> bool {
    match op {
        InputOp::Button { direction, .. } => direction == Direction::Press,
        InputOp::Key { direction, .. } => direction == Direction::Press,
        _ => false,
    }
}

/// Whether step `j` releases what step `i` presses, and is taken if that was done.
pub open spec fn undoes(steps: Seq<Step>, j: int, i: int) -> bool {
    &&& steps[j].undoes == Some(i as usize)
    &&& match (steps[i].op, steps[j].op) {
        (
            InputOp::Button { button: a, direction: d, .. },
            InputOp::Button { button: b, direction: e, .. },
        ) => a == b && d == Direction::Press && e == Direction::Release,
        (InputOp::Key { key: a, direction: d }, InputOp::Key { key: b, direction: e }) => a == b
            && d == Direction::Press && e == Direction::Release,
        _ => false,
    }
}

/// Nothing stays held: when a script that undoes all its presses is over, each
/// press that was done was followed by an attempt to release it, whatever failed.
pub proof fn law_no_press_leaks(steps: Seq<Step>, fates: Seq<Fate>, i: int)
    requires
        releases_all(steps),
        followed(steps, fates),
        fates.len() == steps.len(),
        steps.len() <= usize::MAX,
        0 <= i < steps.len(),
        is_press(steps[i].op),
        fates[i] == Fate::Done,
    ensures
        exists|j: int|
            i < j < steps.len() && #[trigger] undoes(steps, j, i) && fates[j] != Fate::Skipped,
{
    let j = choose|j: int| i < j < steps.len() && #[trigger] undoes(steps, j, i);
    assert(due(steps, fates, j));
    assert(fates[j] != Fate::Skipped);
}

/// The key that holds a modifier.
pub open spec fn modifier_sym(modifier: Modifier) -> KeySym {
    match modifier {
        Modifier::Ctrl => KeySym::Control,
        Modifier::Alt => KeySym::Alt,
        Modifier::Shift => KeySym::Shift,
        Modifier::Win => KeySym::Meta,
    }
}

/// The key that holds a modifier.
pub fn modifier_key(modifier: Modifier) -> (r: KeySym)
    ensures
        r == modifier_sym(modifier),
{
    match modifier {
        Modifier::Ctrl => KeySym::Control,
        Modifier::Alt => KeySym::Alt,
        Modifier::Shift => KeySym::Shift,
        Modifier::Win => KeySym::Meta,
    }
}

/// The key to press; there are no function keys past F24 or before F1.
pub open spec fn key_sym(key: Key) -> Option<KeySym> {
    match key {
        Key::Char(c) => Some(KeySym::Unicode(c)),
        Key::F(n) => if 1 <= n <= 24 {
            Some(KeySym::Function(n))
        } else {
            None
        },
        other => Some(KeySym::Named(other)),
    }
}

/// The key to press.
pub fn map_key(key: Key) -> (r: RemoteResult<KeySym>)
    ensures
        match r {
            Ok(sym) => key_sym(key) == Some(sym),
            Err(e) => key_sym(key) is None && is_error(
                e,
                RemoteErrorKind::Os,
                "unsupported function key F"@ + number::decimal((key->F_0) as nat),
            ),
        },
{
    match key {
        Key::Char(c) => Ok(KeySym::Unicode(c)),
        Key::F(n) => {
            if 1 <= n && n <= 24 {
                Ok(KeySym::Function(n))
            } else {
                Err(
                    os_error(
                        text::join2(
                            "unsupported function key F",
                            number::decimal_text(n as u64).as_str(),
                        ).as_str(),
                    ),
                )
            }
        },
        other => Ok(KeySym::Named(other)),
    }
}

/// Different keys are pressed as different keys.
pub proof fn law_keys_differ(a: Key, b: Key)
    requires
        a != b,
        key_sym(a) is Some,
        key_sym(b) is Some,
    ensures
        key_sym(a) != key_sym(b),
{
}

/// The name of a modifier.
pub open spec fn modifier_text(m: Modifier) -> Seq<char> {
    match m {
        Modifier::Ctrl => "Ctrl"@,
        Modifier::Alt => "Alt"@,
        Modifier::Shift => "Shift"@,
        Modifier::Win => "Win"@,
    }
}

fn modifier_name(m: Modifier) -> (r: &'static str)
    ensures
        r@ == modifier_text(m),
{
    match m {
        Modifier::Ctrl => "Ctrl",
        Modifier::Alt => "Alt",
        Modifier::Shift => "Shift",
        Modifier::Win => "Win",
    }
}

/// Whether a step is as described.
pub open spec fn is_step(
    step: Step,
    op: InputOp,
    label: Seq<char>,
    undone: Option<usize>,
    counts: bool,
) -> bool {
    step.op == op && step.label@ == label && step.undoes == undone && step.counts == counts
}

fn step(op: InputOp, label: &str, undone: Option<usize>, counts: bool) -> (r: Step)
    ensures
        is_step(r, op, label@, undone, counts),
{
    Step { op, label: label.to_owned(), undoes: undone, counts }
}

/// Whether `steps` is the script of a chord: the modifiers are pressed in order,
/// the key is clicked, and the modifiers are released in reverse order, which a
/// failure neither prevents nor counts against.
pub open spec fn is_chord(steps: Seq<Step>, modifiers: Seq<Modifier>, key: KeySym) -> bool {
    let n = modifiers.len();
    &&& steps.len() == 2 * n + 1
    &&& forall|i: int|
        0 <= i < n ==> is_step(
            #[trigger] steps[i],
            InputOp::Key { key: modifier_sym(modifiers[i]), direction: Direction::Press },
            "hold "@ + modifier_text(modifiers[i]),
            None,
            true,
        )
    &&& is_step(
        steps[n as int],
        InputOp::Key { key, direction: Direction::Click },
        "press key"@,
        None,
        true,
    )
    &&& forall|i: int|
        n < i < 2 * n + 1 ==> is_step(
            #[trigger] steps[i],
            InputOp::Key { key: modifier_sym(modifiers[2 * n - i]), direction: Direction::Release },
            "release"@,
            Some((2 * n - i) as usize),
            false,
        )
}

/// Makes the script that presses a key with modifiers held, or refuses the key.
pub fn key_chord(modifiers: &Vec<Modifier>, key: Key) -> (r: RemoteResult<Vec<Step>>)
    requires
        2 * modifiers@.len() + 1 <= usize::MAX,
    ensures
        match r {
            Ok(steps) => key_sym(key) is Some && is_chord(steps@, modifiers@, key_sym(key)->0)
                && in_order(steps@) && releases_all(steps@),
            Err(e) => key_sym(key) is None && is_error(
                e,
                RemoteErrorKind::Os,
                "unsupported function key F"@ + number::decimal((key->F_0) as nat),
            ),
        },
{
    let sym = match map_key(key) {
        Ok(sym) => sym,
        Err(e) => {
            return Err(e);
        },
    };
    let n: usize = modifiers.len();
    let mut steps: Vec<Step> = Vec::new();
    let mut i: usize = 0;
    while i < n
        invariant
            i <= n,
            n == modifiers@.len(),
            steps@.len() == i,
            forall|k: int|
                0 <= k < i ==> is_step(
                    #[trigger] steps@[k],
                    InputOp::Key { key: modifier_sym(modifiers@[k]), direction: Direction::Press },
                    "hold "@ + modifier_text(modifiers@[k]),
                    None,
                    true,
                ),
        decreases n - i,
    {
        let m = modifiers[i];
        steps.push(
            step(
                InputOp::Key { key: modifier_key(m), direction: Direction::Press },
                text::join2("hold ", modifier_name(m)).as_str(),
                None,
                true,
            ),
        );
        i = i + 1;
    }
    steps.push(
        step(InputOp::Key { key: sym, direction: Direction::Click }, "press key", None, true),
    );
    let mut k: usize = n;
    while k > 0
        invariant
            k <= n,
            n == modifiers@.len(),
            2 * n + 1 <= usize::MAX,
            steps@.len() == 2 * n + 1 - k,
            forall|j: int|
                0 <= j < n ==> is_step(
                    #[trigger] steps@[j],
                    InputOp::Key { key: modifier_sym(modifiers@[j]), direction: Direction::Press },
                    "hold "@ + modifier_text(modifiers@[j]),
                    None,
                    true,
                ),
            is_step(
                steps@[n as int],
                InputOp::Key { key: sym, direction: Direction::Click },
                "press key"@,
                None,
                true,
            ),
            forall|j: int|
                n < j < steps@.len() ==> is_step(
                    #[trigger] steps@[j],
                    InputOp::Key {
                        key: modifier_sym(modifiers@[2 * n - j]),
                        direction: Direction::Release,
                    },
                    "release"@,
                    Some((2 * n - j) as usize),
                    false,
                ),
        decreases k,
    {
        k = k - 1;
        steps.push(
            step(
                InputOp::Key { key: modifier_key(modifiers[k]), direction: Direction::Release },
                "release",
                Some(k),
                false,
            ),
        );
    }
    proof {
        lemma_chord_releases(steps@, modifiers@, sym);
    }
    Ok(steps)
}

proof fn lemma_chord_releases(steps: Seq<Step>, modifiers: Seq<Modifier>, key: KeySym)
    requires
        is_chord(steps, modifiers, key),
        steps.len() <= usize::MAX,
    ensures
        in_order(steps),
        releases_all(steps),
{
    let n = modifiers.len() as int;
    assert forall|i: int| 0 <= i < steps.len() && is_press((#[trigger] steps[i]).op) implies exists|
        j: int,
    | i < j < steps.len() && #[trigger] undoes(steps, j, i) by {
        assert(i < n);
        let j = 2 * n - i;
        assert(steps[j].undoes == Some((2 * n - j) as usize));
        assert(undoes(steps, j, i));
    }
    assert forall|i: int| 0 <= i < steps.len() implies ((#[trigger] steps[i]).undoes matches Some(
        k,
    ) ==> k < i) by {
        if i > n {
            assert(steps[i].undoes == Some((2 * n - i) as usize));
        }
    }
}

/// The script that moves the cursor and clicks once.
pub fn click_point(x: i32, y: i32, button: MouseButton) -> (steps: Vec<Step>)
    ensures
        steps@.len() == 2,
        is_step(steps@[0], InputOp::MoveTo { x, y }, "move cursor"@, None, true),
        is_step(
            steps@[1],
            InputOp::Button { button, direction: Direction::Click, times: 1 },
            "click"@,
            None,
            true,
        ),
        in_order(steps@),
        releases_all(steps@),
{
    let mut steps: Vec<Step> = Vec::new();
    steps.push(step(InputOp::MoveTo { x, y }, "move cursor", None, true));
    steps.push(
        step(
            InputOp::Button { button, direction: Direction::Click, times: 1 },
            "click",
            None,
            true,
        ),
    );
    steps
}

/// How often a click is made: at least once.
pub open spec fn click_times(count: u32) -> u32 {
    if count == 0 {
        1
    } else {
        count
    }
}

/// Whether `steps` is the script of a mouse action.
pub open spec fn is_mouse_script(steps: Seq<Step>, action: MouseAction) -> bool {
    match action {
        MouseAction::Move { x, y } => steps.len() == 1 && is_step(
            steps[0],
            InputOp::MoveTo { x, y },
            "move cursor"@,
            None,
            true,
        ),
        MouseAction::Click { x, y, button, count } => steps.len() == 2 && is_step(
            steps[0],
            InputOp::MoveTo { x, y },
            "move cursor"@,
            None,
            true,
        ) && is_step(
            steps[1],
            InputOp::Button { button, direction: Direction::Click, times: click_times(count) },
            "click"@,
            None,
            true,
        ),
        MouseAction::Down { x, y, button } => steps.len() == 2 && is_step(
            steps[0],
            InputOp::MoveTo { x, y },
            "move cursor"@,
            None,
            true,
        ) && is_step(
            steps[1],
            InputOp::Button { button, direction: Direction::Press, times: 1 },
            "button down"@,
            None,
            true,
        ),
        MouseAction::Up { x, y, button } => steps.len() == 2 && is_step(
            steps[0],
            InputOp::MoveTo { x, y },
            "move cursor"@,
            None,
            true,
        ) && is_step(
            steps[1],
            InputOp::Button { button, direction: Direction::Release, times: 1 },
            "button up"@,
            None,
            true,
        ),
        MouseAction::Scroll { dx, dy } => {
            let sideways = InputOp::Scroll { amount: dx, horizontal: true };
            let down = InputOp::Scroll { amount: dy, horizontal: false };
            if dx != 0 && dy != 0 {
                steps.len() == 2 && is_step(steps[0], sideways, "scroll x"@, None, true)
                    && is_step(steps[1], down, "scroll y"@, None, true)
            } else if dx != 0 {
                steps.len() == 1 && is_step(steps[0], sideways, "scroll x"@, None, true)
            } else if dy != 0 {
                steps.len() == 1 && is_step(steps[0], down, "scroll y"@, None, true)
            } else {
                steps.len() == 0
            }
        },
        MouseAction::Drag { from_x, from_y, to_x, to_y, button } => steps.len() == 4 && is_step(
            steps[0],
            InputOp::MoveTo { x: from_x, y: from_y },
            "move cursor"@,
            None,
            true,
        ) && is_step(
            steps[1],
            InputOp::Button { button, direction: Direction::Press, times: 1 },
            "drag press"@,
            None,
            true,
        ) && is_step(
            steps[2],
            InputOp::MoveTo { x: to_x, y: to_y },
            "move cursor"@,
            None,
            true,
        ) && is_step(
            steps[3],
            InputOp::Button { button, direction: Direction::Release, times: 1 },
            "drag release"@,
            Some(1usize),
            true,
        ),
    }
}

/// Makes the script of a mouse action. Only the action that asks for a button to
/// stay down leaves one down.
pub fn mouse(action: MouseAction) -> (steps: Vec<Step>)
    ensures
        is_mouse_script(steps@, action),
        in_order(steps@),
        !(action is Down) ==> releases_all(steps@),
{
    let mut steps: Vec<Step> = Vec::new();
    match action {
        MouseAction::Move { x, y } => {
            steps.push(step(InputOp::MoveTo { x, y }, "move cursor", None, true));
        },
        MouseAction::Click { x, y, button, count } => {
            let times: u32 = if count == 0 {
                1
            } else {
                count
            };
            steps.push(step(InputOp::MoveTo { x, y }, "move cursor", None, true));
            steps.push(
                step(
                    InputOp::Button { button, direction: Direction::Click, times },
                    "click",
                    None,
                    true,
                ),
            );
        },
        MouseAction::Down { x, y, button } => {
            steps.push(step(InputOp::MoveTo { x, y }, "move cursor", None, true));
            steps.push(
                step(
                    InputOp::Button { button, direction: Direction::Press, times: 1 },
                    "button down",
                    None,
                    true,
                ),
            );
        },
        MouseAction::Up { x, y, button } => {
            steps.push(step(InputOp::MoveTo { x, y }, "move cursor", None, true));
            steps.push(
                step(
                    InputOp::Button { button, direction: Direction::Release, times: 1 },
                    "button up",
                    None,
                    true,
                ),
            );
        },
        MouseAction::Scroll { dx, dy } => {
            if dx != 0 {
                steps.push(
                    step(InputOp::Scroll { amount: dx, horizontal: true }, "scroll x", None, true),
                );
            }
            if dy != 0 {
                steps.push(
                    step(
                        InputOp::Scroll { amount: dy, horizontal: false },
                        "scroll y",
                        None,
                        true,
                    ),
                );
            }
        },
        MouseAction::Drag { from_x, from_y, to_x, to_y, button } => {
            steps.push(step(InputOp::MoveTo { x: from_x, y: from_y }, "move cursor", None, true));
            steps.push(
                step(
                    InputOp::Button { button, direction: Direction::Press, times: 1 },
                    "drag press",
                    None,
                    true,
                ),
            );
            steps.push(step(InputOp::MoveTo { x: to_x, y: to_y }, "move cursor", None, true));
            steps.push(
                step(
                    InputOp::Button { button, direction: Direction::Release, times: 1 },
                    "drag release",
                    Some(1),
                    true,
                ),
            );
            assert(undoes(steps@, 3, 1));
        },
    }
    steps
}

/// The answer to typing a text.
pub fn type_text(outcome: Result<(), String>) -> (r: RemoteResult<Reply>)
    ensures
        match outcome {
            Ok(_) => r == Ok::<Reply, crate::proto::wire::RemoteError>(Reply::Ack),
            Err(e) => r matches Err(m) && is_error(m, RemoteErrorKind::Os, "type text: "@ + e@),
        },
{
    match outcome {
        Ok(_) => Ok(Reply::Ack),
        Err(e) => Err(os_error(text::join2("type text: ", e.as_str()).as_str())),
    }
}

/// A use of a mouse button, with the place where the cursor is.
pub struct Touch {
    /// X of the cursor.
    pub x: int,
    /// Y of the cursor.
    pub y: int,
    /// Which button.
    pub button: MouseButton,
    /// How.
    pub direction: Direction,
    /// How often.
    pub times: int,
}

/// Where the cursor is after these steps, if it was at `start` before them.
pub open spec fn cursor_after(start: (int, int), steps: Seq<Step>) -> (int, int)
    decreases steps.len(),
{
    if steps.len() == 0 {
        start
    } else {
        match steps.last().op {
            InputOp::MoveTo { x, y } => (x as int, y as int),
            _ => cursor_after(start, steps.drop_last()),
        }
    }
}

/// What these steps do with the mouse buttons, and where.
pub open spec fn touches(start: (int, int), steps: Seq<Step>) -> Seq<Touch>
    decreases steps.len(),
{
    if steps.len() == 0 {
        Seq::empty()
    } else {
        let before = touches(start, steps.drop_last());
        let (x, y) = cursor_after(start, steps.drop_last());
        match steps.last().op {
            InputOp::Button { button, direction, times } => before.push(
                Touch { x, y, button, direction, times: times as int },
            ),
            _ => before,
        }
    }
}

/// By how many notches these steps turn the wheel, sideways or not.
pub open spec fn wheel(steps: Seq<Step>, horizontal: bool) -> int
    decreases steps.len(),
{
    if steps.len() == 0 {
        0
    } else {
        let before = wheel(steps.drop_last(), horizontal);
        match steps.last().op {
            InputOp::Scroll { amount, horizontal: h } => if h == horizontal {
                before + amount
            } else {
                before
            },
            _ => before,
        }
    }
}

/// Whether these steps touch the keyboard.
pub open spec fn uses_keys(steps: Seq<Step>) -> bool {
    exists|i: int| 0 <= i < steps.len() && (#[trigger] steps[i]).op is Key
}

proof fn lemma_unrolled(start: (int, int), steps: Seq<Step>)
    requires
        steps.len() <= 4,
    ensures
        steps.len() >= 1 ==> steps.drop_last().len() == steps.len() - 1,
        steps.len() >= 2 ==> steps.drop_last().last() == steps[steps.len() - 2],
        steps.len() >= 3 ==> steps.drop_last().drop_last().last() == steps[steps.len() - 3],
        steps.len() >= 4 ==> steps.drop_last().drop_last().drop_last().last() == steps[steps.len()
            - 4],
{
}

/// Wherever the cursor was, a drag presses the button at the start point, lets go of
/// it at the end point, does nothing else with any button, and leaves the cursor at
/// the end point.
pub proof fn law_drag_goes_from_start_to_end(
    start: (int, int),
    from_x: i32,
    from_y: i32,
    to_x: i32,
    to_y: i32,
    button: MouseButton,
    steps: Vec<Step>,
)
    requires
        mouse.ensures((MouseAction::Drag { from_x, from_y, to_x, to_y, button },), steps),
    ensures
        touches(start, steps@) == seq![
            Touch { x: from_x as int, y: from_y as int, button, direction: Direction::Press, times: 1 },
            Touch { x: to_x as int, y: to_y as int, button, direction: Direction::Release, times: 1 },
        ],
        cursor_after(start, steps@) == (to_x as int, to_y as int),
        wheel(steps@, true) == 0 && wheel(steps@, false) == 0,
        !uses_keys(steps@),
{
    lemma_unrolled(start, steps@);
    reveal_with_fuel(touches, 5);
    reveal_with_fuel(cursor_after, 5);
    reveal_with_fuel(wheel, 5);
}

/// Wherever the cursor was, a click, a press or a release happens at the point that
/// was asked for, with the button that was asked for, and nothing else happens; a
/// click happens as often as asked for, and at least once.
pub proof fn law_button_is_used_where_asked(
    start: (int, int),
    x: i32,
    y: i32,
    button: MouseButton,
    count: u32,
    click: Vec<Step>,
    down: Vec<Step>,
    up: Vec<Step>,
    once: Vec<Step>,
)
    requires
        mouse.ensures((MouseAction::Click { x, y, button, count },), click),
        mouse.ensures((MouseAction::Down { x, y, button },), down),
        mouse.ensures((MouseAction::Up { x, y, button },), up),
        click_point.ensures((x, y, button), once),
    ensures
        touches(start, click@).len() == 1,
        touches(start, click@)[0].direction == Direction::Click,
        touches(start, click@)[0].times >= 1,
        count >= 1 ==> touches(start, click@)[0].times == count,
        touches(start, down@).len() == 1,
        touches(start, down@)[0].direction == Direction::Press,
        touches(start, up@).len() == 1,
        touches(start, up@)[0].direction == Direction::Release,
        touches(start, down@)[0].times == 1 && touches(start, up@)[0].times == 1,
        count == 1 ==> touches(start, once@) == touches(start, click@),
        forall|t: Touch|
            #![trigger touches(start, click@).contains(t)]
            #![trigger touches(start, down@).contains(t)]
            #![trigger touches(start, up@).contains(t)]
            #![trigger touches(start, once@).contains(t)]
            touches(start, click@).contains(t) || touches(start, down@).contains(t) || touches(
                start,
                up@,
            ).contains(t) || touches(start, once@).contains(t) ==> t.x == x && t.y == y && t.button
                == button,
        cursor_after(start, click@) == (x as int, y as int),
        cursor_after(start, down@) == (x as int, y as int),
        cursor_after(start, up@) == (x as int, y as int),
        !uses_keys(click@) && !uses_keys(down@) && !uses_keys(up@) && !uses_keys(once@),
        wheel(click@, true) == 0 && wheel(click@, false) == 0,
        wheel(down@, true) == 0 && wheel(down@, false) == 0,
        wheel(up@, true) == 0 && wheel(up@, false) == 0,
{
    lemma_unrolled(start, click@);
    lemma_unrolled(start, down@);
    lemma_unrolled(start, up@);
    lemma_unrolled(start, once@);
    reveal_with_fuel(touches, 3);
    reveal_with_fuel(cursor_after, 3);
    reveal_with_fuel(wheel, 3);
    if count == 1 {
        assert(touches(start, once@) =~= touches(start, click@));
    }
}

/// A move leaves the cursor at the point that was asked for. Scrolling turns the
/// wheel by as many notches each way as asked for and leaves the cursor where it is.
/// Neither uses a button or a key.
pub proof fn law_moves_and_scrolls_are_exact(
    start: (int, int),
    x: i32,
    y: i32,
    dx: i32,
    dy: i32,
    moved: Vec<Step>,
    scrolled: Vec<Step>,
)
    requires
        mouse.ensures((MouseAction::Move { x, y },), moved),
        mouse.ensures((MouseAction::Scroll { dx, dy },), scrolled),
    ensures
        cursor_after(start, moved@) == (x as int, y as int),
        cursor_after(start, scrolled@) == start,
        wheel(scrolled@, true) == dx,
        wheel(scrolled@, false) == dy,
        wheel(moved@, true) == 0 && wheel(moved@, false) == 0,
        touches(start, moved@).len() == 0 && touches(start, scrolled@).len() == 0,
        !uses_keys(moved@) && !uses_keys(scrolled@),
{
    lemma_unrolled(start, moved@);
    lemma_unrolled(start, scrolled@);
    reveal_with_fuel(touches, 3);
    reveal_with_fuel(cursor_after, 3);
    reveal_with_fuel(wheel, 3);
}

/// Which keys are held after the first `n` steps, in the order in which they were
/// pressed.
pub open spec fn held_keys(steps: Seq<Step>, n: nat) -> Seq<KeySym>
    decreases n,
{
    if n == 0 {
        Seq::empty()
    } else {
        let before = held_keys(steps, (n - 1) as nat);
        match steps[n - 1].op {
            InputOp::Key { key, direction: Direction::Press } => before.push(key),
            InputOp::Key { key, direction: Direction::Release } => if before.len() > 0
                && before.last() == key {
                before.drop_last()
            } else {
                before
            },
            _ => before,
        }
    }
}

/// Whether this is the key that bears a modifier's name.
pub open spec fn is_held_by(m: Modifier, key: KeySym) -> bool {
    &&& key is Control <==> m is Ctrl
    &&& key is Alt <==> m is Alt
    &&& key is Shift <==> m is Shift
    &&& key is Meta <==> m is Win
}

/// The keys that hold these modifiers.
pub open spec fn modifier_syms(modifiers: Seq<Modifier>) -> Seq<KeySym> {
    modifiers.map_values(|m: Modifier| modifier_sym(m))
}

proof fn lemma_held(steps: Seq<Step>, modifiers: Seq<Modifier>, key: KeySym, n: nat)
    requires
        is_chord(steps, modifiers, key),
        n <= steps.len(),
    ensures
        held_keys(steps, n) == (if n <= modifiers.len() {
            modifier_syms(modifiers.take(n as int))
        } else {
            modifier_syms(modifiers.take(2 * modifiers.len() + 1 - n))
        }),
    decreases n,
{
    let m = modifiers.len() as int;
    if n > 0 {
        lemma_held(steps, modifiers, key, (n - 1) as nat);
        let i = n - 1;
        if i < m {
            assert(is_step(
                steps[i],
                InputOp::Key { key: modifier_sym(modifiers[i]), direction: Direction::Press },
                "hold "@ + modifier_text(modifiers[i]),
                None,
                true,
            ));
            assert(modifier_syms(modifiers.take(n as int)) =~= modifier_syms(
                modifiers.take(i),
            ).push(modifier_sym(modifiers[i])));
        } else if i == m {
            assert(modifiers.take(m) =~= modifiers.take(2 * m + 1 - n));
        } else {
            let k = 2 * m - i;
            assert(is_step(
                steps[i],
                InputOp::Key { key: modifier_sym(modifiers[k]), direction: Direction::Release },
                "release"@,
                Some(k as usize),
                false,
            ));
            let before = modifier_syms(modifiers.take(k + 1));
            assert(before.last() == modifier_sym(modifiers[k]));
            assert(before.drop_last() =~= modifier_syms(modifiers.take(k)));
        }
    } else {
        assert(modifiers.take(0) =~= Seq::empty());
        assert(modifier_syms(modifiers.take(0)) =~= Seq::empty());
    }
}

/// A chord clicks exactly one key, the one that was asked for, while all of the
/// modifiers are held, in the order given; afterwards nothing is held any more, and
/// the mouse was not touched.
pub proof fn law_chord_clicks_under_modifiers(
    modifiers: Vec<Modifier>,
    key: Key,
    sym: KeySym,
    steps: Vec<Step>,
    start: (int, int),
) -> (at: nat)
    requires
        key_chord.ensures((&modifiers, key), Ok(steps)),
        map_key.ensures((key,), Ok(sym)),
    ensures
        at < steps@.len(),
        steps@[at as int].op == (InputOp::Key { key: sym, direction: Direction::Click }),
        forall|i: int|
            0 <= i < steps@.len() ==> ((#[trigger] steps@[i]).op matches InputOp::Key {
                key: k,
                direction: d,
            } ==> d == Direction::Click ==> i == at),
        held_keys(steps@, at).len() == modifiers@.len(),
        forall|i: int|
            0 <= i < modifiers@.len() ==> is_held_by(
                modifiers@[i],
                #[trigger] held_keys(steps@, at)[i],
            ),
        held_keys(steps@, steps@.len()).len() == 0,
        forall|i: int| 0 <= i < steps@.len() ==> (#[trigger] steps@[i]).op is Key,
{
    let n = modifiers@.len();
    lemma_held(steps@, modifiers@, sym, n);
    lemma_held(steps@, modifiers@, sym, steps@.len());
    assert(modifiers@.take(n as int) =~= modifiers@);
    assert(modifiers@.take(0) =~= Seq::empty());
    n
}

/// Every modifier is held by the key of its own name, and no other does.
pub proof fn law_modifier_keys(m: Modifier, key: KeySym)
    requires
        modifier_key.ensures((m,), key),
    ensures
        is_held_by(m, key),
{
}

/// A character is typed as itself, a function key keeps its number, F1 to F24 and no
/// others exist, and every other key is pressed under its own name.
pub proof fn law_key_is_itself(key: Key, r: RemoteResult<KeySym>)
    requires
        map_key.ensures((key,), r),
    ensures
        key matches Key::Char(c) ==> r == Ok::<KeySym, crate::proto::wire::RemoteError>(
            KeySym::Unicode(c),
        ),
        key matches Key::F(n) ==> (r is Ok <==> 0 < n < 25),
        r matches Ok(KeySym::Function(n)) ==> key == Key::F(n),
        r matches Ok(KeySym::Unicode(c)) ==> key == Key::Char(c),
        r matches Ok(KeySym::Named(k)) ==> key == k,
        !(key is F) ==> r is Ok,
        r matches Ok(sym) ==> sym is Unicode || sym is Function || sym is Named,
{
}

/// Once something has failed, nothing but releases is tried any more.
pub proof fn law_failure_stops_the_rest(steps: Seq<Step>, fates: Seq<Fate>, i: int, j: int)
    requires
        followed(steps, fates),
        0 <= i < j < fates.len() <= steps.len(),
        fates[i] == Fate::Failed,
        steps[j].undoes is None,
    ensures
        fates[j] == Fate::Skipped,
{
    assert(fates.take(j)[i] == Fate::Failed);
    assert(any_failed(fates.take(j)));
}

/// Where nothing fails, every step is done.
pub proof fn law_all_steps_are_done(steps: Seq<Step>, fates: Seq<Fate>, i: int)
    requires
        in_order(steps),
        followed(steps, fates),
        fates.len() == steps.len(),
        forall|k: int| 0 <= k < fates.len() ==> #[trigger] fates[k] != Fate::Failed,
        0 <= i < fates.len(),
    ensures
        fates[i] == Fate::Done,
    decreases i,
{
    match steps[i].undoes {
        Some(k) => {
            law_all_steps_are_done(steps, fates, k as int);
        },
        None => {
            assert forall|k: int| 0 <= k < i implies #[trigger] fates.take(i)[k] != Fate::Failed by {
                assert(fates.take(i)[k] == fates[k]);
            }
        },
    }
    assert(fates[i] != Fate::Skipped);
}

/// The outcome of a step is put on record, and the first failure that counts is told
/// with the label of its step; later ones do not replace it.
pub proof fn law_first_failure_is_told(run: &mut Injection, outcome: Result<(), String>, step: Step)
    requires
        old(run).well_formed(),
        old(run).trace().len() < old(run).script().len(),
        step == old(run).script()[old(run).trace().len() as int],
        call_ensures(Injection::record, (run, outcome), ()),
    ensures
        final(run).trace().len() == old(run).trace().len() + 1,
        final(run).trace().last() == Fate::Done <==> outcome is Ok,
        final(run).trace().last() == Fate::Failed <==> outcome is Err,
        forall|i: int|
            0 <= i < old(run).trace().len() ==> #[trigger] final(run).trace()[i] == old(
                run,
            ).trace()[i],
        old(run).failure() is Some ==> final(run).failure() == old(run).failure(),
        outcome is Ok ==> final(run).failure() == old(run).failure(),
        old(run).failure() is None && outcome is Err && !step.counts ==> final(run).failure() is None,
        outcome matches Err(e) ==> (old(run).failure() is None && step.counts
            ==> final(run).failure() == Some(step.label@ + seq![':', ' '] + e@)),
        final(run).script() == old(run).script(),
{
    reveal_strlit(": ");
    assert(": "@ =~= seq![':', ' ']);
}

/// The next operation is that of the first step that is neither a press after a
/// failure nor the release of what was not pressed.
pub proof fn law_next_step_is_the_first_due(run: &mut Injection, r: Option<InputOp>)
    requires
        old(run).well_formed(),
        call_ensures(Injection::next, (run,), r),
    ensures
        final(run).script() == old(run).script(),
        ({
            let steps = old(run).script();
            let at = final(run).trace().len() as int;
            let fates = final(run).trace();
            &&& r is None ==> at == steps.len()
            &&& r matches Some(op) ==> at < steps.len() && op == steps[at].op && match steps[at].undoes {
                Some(k) => fates[k as int] == Fate::Done,
                None => forall|i: int| 0 <= i < at ==> #[trigger] fates[i] != Fate::Failed,
            }
            &&& forall|i: int|
                old(run).trace().len() <= i < at ==> match (#[trigger] steps[i]).undoes {
                    Some(k) => fates[k as int] != Fate::Done,
                    None => exists|j: int| 0 <= j < i && #[trigger] fates[j] == Fate::Failed,
                }
        }),
{
    let steps = old(run).script();
    let fates = final(run).trace();
    let at = fates.len() as int;
    assert(fates.take(at) =~= fates);
    if r is Some && steps[at].undoes is None {
        assert forall|i: int| 0 <= i < at implies #[trigger] fates[i] != Fate::Failed by {
            if fates[i] == Fate::Failed {
                assert(fates.take(at)[i] == Fate::Failed);
                assert(any_failed(fates.take(at)));
            }
        }
    }
    assert forall|i: int| old(run).trace().len() <= i < at implies match (
    #[trigger] steps[i]).undoes {
        Some(k) => fates[k as int] != Fate::Done,
        None => exists|j: int| 0 <= j < i && #[trigger] fates[j] == Fate::Failed,
    } by {
        assert(fates[i] == Fate::Skipped);
        assert(!due(steps, fates, i));
        if steps[i].undoes is None {
            let j = choose|j: int|
                0 <= j < fates.take(i).len() && #[trigger] fates.take(i)[j] == Fate::Failed;
            assert(fates[j] == Fate::Failed);
        }
    }
}

/// A script has worked exactly if no failure that counts was put on record, and else
/// answers with the first.
pub proof fn law_script_answers_with_its_failure(
    run: Injection,
    r: RemoteResult<Reply>,
    outcome: Result<(), String>,
    typed: RemoteResult<Reply>,
)
    requires
        call_ensures(Injection::finish, (run,), r),
        type_text.ensures((outcome,), typed),
    ensures
        r is Ok <==> run.failure() is None,
        r matches Ok(reply) ==> reply is Ack,
        run.failure() matches Some(m) ==> (r matches Err(e) && e.message@ == m && e.kind
            == RemoteErrorKind::Os),
        typed is Ok <==> outcome is Ok,
        typed matches Ok(reply) ==> reply is Ack,
        outcome matches Err(m) ==> (typed matches Err(e) && e.message@ == "type text: "@ + m@),
{
}

} // verus!
