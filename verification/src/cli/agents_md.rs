//! The command reference for agents: guidance followed by every command and flag.

use vstd::prelude::*;

use crate::text;

verus! {

/// The guidance that comes before the reference: what the tool is, how to connect,
/// the core workflows, and what to watch out for.
pub const AGENTS_PREAMBLE: &'static str = "# arc — agent reference

`arc` is an adb-style CLI that drives a remote **Windows** machine. You run it on
macOS/Linux (the controller); commands execute on the Windows `arc-runner` over
an encrypted link. This document is generated from the CLI itself, so it always
matches the installed version (`arc --version`).

## Connecting

Every command needs a target runner. Easiest is a named target in
`~/.config/arc/config.toml` selected with `-t <name>` (or the file's `default`):

```toml
default = \"win\"
[targets.win]
direct = \"100.x.y.z:8787\"   # the runner's Tailscale IP
trust_tailnet = true        # or: pairing = \"XXXX-XXXX\"
```

Then e.g. `arc -t win shell --cmd ver`. Flags `--direct/--relay/--session/--pairing`
and `ARC_*` env vars override per field.

## Core workflows

- **Run a command / build:** `arc shell --cmd 'dotnet build'` (streams live). For
  a local script, `arc run ./fix.ps1` (ships its contents — no quoting).
- **Inner dev loop:** `arc watch ./src C:/work/src --on-change 'cargo build'` —
  auto-syncs on save and rebuilds on the box, output streaming.
- **See the UI:** `arc shot ui.png --app <substr>` launches/finds the window,
  waits for it to render, activates it, and screenshots — one shot. Or
  `arc screencap out.png --window <hwnd>`.
- **Inspect the UI tree:** `arc windows --json` → pick a handle →
  `arc elements <hwnd> --json` or `arc find <hwnd> --type Button --name Save`.
- **Drive a control:** prefer UIA — `arc click <id>`, `arc set <id> 'text'`,
  `arc read <id>` (read back to verify, no screenshot needed). For typing,
  `arc type 'text' --into <id>` (focuses first); long text: add `--paste`.
- **Regression check:** `arc screencap now.png --window <h> --baseline ref.png
  --diff diff.png` (exits non-zero past `--threshold`).

## Gotchas (read these)

- **Launch GUI apps with `arc open <exe>`, not `arc shell 'start ...'`** — `open`
  returns immediately; a `shell` start can hang on the pipe.
- **Session-capability tiers:** UIA paths (`windows`/`elements`/`find`/`click`/
  `set`/`read`) and per-window `screencap`/`shot` work **even when RDP is
  disconnected**. Raw input (`type`/`key`/`mouse`) and **full-screen** capture
  need an **active** session (connected RDP, or a console/virtual display).
- **A minimized window captures as a sliver** — `arc activate <hwnd>` first (or
  use `shot`, which activates automatically).
- **Most list commands take `--json`** for structured output instead of text.
- **Verify with `arc read <id>`** instead of screenshotting when you just need a
  control's text — far cheaper.

---
";

/// An argument or flag.
pub struct ArgDoc {
    /// Name by which the argument is known.
    pub id: String,
    /// Whether it is found by its position.
    pub positional: bool,
    /// Short flag.
    pub short: Option<char>,
    /// Long flag.
    pub long: Option<String>,
    /// Whether it takes a value.
    pub takes_value: bool,
    /// Name of its value.
    pub value_name: Option<String>,
    /// Help text.
    pub help: Option<String>,
    /// Whether it must be given.
    pub required: bool,
    /// Default values.
    pub defaults: Vec<String>,
}

/// A command.
pub struct CommandDoc {
    /// Name.
    pub name: String,
    /// Short description.
    pub about: Option<String>,
    /// Long description.
    pub long_about: Option<String>,
    /// Arguments and flags.
    pub args: Vec<ArgDoc>,
    /// Commands below it.
    pub subcommands: Vec<CommandDoc>,
}

/// A text on one line.
pub open spec fn one_line(s: Seq<char>) -> Seq<char> {
    text::replaced(s, '\n', " "@)
}

/// The short flag with what separates it from the long one.
pub open spec fn short_part(a: ArgDoc) -> Seq<char> {
    match a.short {
        Some(c) => "-"@ + seq![c] + ", "@,
        None => ""@,
    }
}

/// The long flag.
pub open spec fn long_part(a: ArgDoc) -> Seq<char> {
    match a.long {
        Some(l) => "--"@ + l@,
        None => ""@,
    }
}

/// The name of the value that a flag takes.
pub open spec fn value_part(a: ArgDoc) -> Seq<char> {
    match a.value_name {
        Some(v) => if a.takes_value {
            " <"@ + v@ + ">"@
        } else {
            ""@
        },
        None => ""@,
    }
}

/// How an argument is written on the command line.
pub open spec fn token(a: ArgDoc) -> Seq<char> {
    if a.positional {
        "`<"@ + (match a.value_name {
            Some(v) => v@,
            None => a.id@,
        }) + ">`"@
    } else {
        "`"@ + (short_part(a) + long_part(a) + value_part(a)) + "`"@
    }
}

/// The help text on one line.
pub open spec fn help_line(a: ArgDoc) -> Seq<char> {
    match a.help {
        Some(h) => one_line(h@),
        None => ""@,
    }
}

/// Whether the argument must be given and what its defaults are, in brackets.
pub open spec fn suffix(a: ArgDoc) -> Seq<char> {
    let defaults = "default: "@ + text::joined(text::texts(a.defaults@), " "@);
    if a.required && a.defaults@.len() > 0 {
        " _("@ + ("required"@ + ", "@ + defaults) + ")_"@
    } else if a.required {
        " _("@ + "required"@ + ")_"@
    } else if a.defaults@.len() > 0 {
        " _("@ + defaults + ")_"@
    } else {
        ""@
    }
}

/// The bullet of an argument.
pub open spec fn arg_bullet(a: ArgDoc) -> Seq<char> {
    let head = "- "@ + token(a);
    if help_line(a).len() == 0 {
        head + suffix(a) + "\n"@
    } else {
        head + " — "@ + help_line(a) + suffix(a) + "\n"@
    }
}

/// Writes how an argument is given on the command line.
fn write_token(a: &ArgDoc) -> (r: String)
    ensures
        r@ == token(*a),
{
    if a.positional {
        let name = match &a.value_name {
            Some(v) => v.as_str(),
            None => a.id.as_str(),
        };
        return text::join3("`<", name, ">`");
    }
    let mut flag = String::new();
    if let Some(c) = a.short {
        flag.append("-");
        flag.push(c);
        flag.append(", ");
    }
    assert(flag@ =~= short_part(*a)) by {
        reveal_strlit("");
    }
    if let Some(l) = &a.long {
        flag.append("--");
        flag.append(l.as_str());
    }
    assert(flag@ =~= short_part(*a) + long_part(*a)) by {
        reveal_strlit("");
    }
    if a.takes_value {
        if let Some(v) = &a.value_name {
            flag.append(" <");
            flag.append(v.as_str());
            flag.append(">");
        }
    }
    assert(flag@ =~= short_part(*a) + long_part(*a) + value_part(*a)) by {
        reveal_strlit("");
    }
    text::join3("`", flag.as_str(), "`")
}

/// Writes what stands in brackets behind an argument.
fn write_suffix(a: &ArgDoc) -> (r: String)
    ensures
        r@ == suffix(*a),
{
    let mut tags = String::new();
    if a.required {
        tags.append("required");
    }
    if a.defaults.len() > 0 {
        if a.required {
            tags.append(", ");
        }
        let defaults = text::join2("default: ", text::join(&a.defaults, " ").as_str());
        tags.append(defaults.as_str());
    }
    if a.required || a.defaults.len() > 0 {
        proof {
            let defaults = "default: "@ + text::joined(text::texts(a.defaults@), " "@);
            if a.required && a.defaults@.len() > 0 {
                assert(tags@ =~= "required"@ + ", "@ + defaults);
            } else if a.required {
                assert(tags@ =~= "required"@);
            } else {
                assert(tags@ =~= defaults);
            }
        }
        text::join3(" _(", tags.as_str(), ")_")
    } else {
        "".to_string()
    }
}

/// Writes an argument or flag as a bullet.
pub fn render_arg(a: &ArgDoc) -> (r: String)
    ensures
        r@ == arg_bullet(*a),
{
    let help = match &a.help {
        Some(h) => text::replace_char(h.as_str(), '\n', " "),
        None => "".to_string(),
    };
    let mut line = text::join2("- ", write_token(a).as_str());
    if help.as_str().unicode_len() > 0 {
        line.append(" — ");
        line.append(help.as_str());
    }
    line.append(write_suffix(a).as_str());
    line.append("\n");
    line
}

/// Whether an argument is written out: the built-in ones are not.
pub open spec fn is_own(a: ArgDoc) -> bool {
    a.id@ != "help"@ && a.id@ != "version"@
}

/// The bullets of the arguments of one sort, in order.
pub open spec fn bullets(args: Seq<ArgDoc>, positional: bool) -> Seq<char>
    decreases args.len(),
{
    if args.len() == 0 {
        Seq::empty()
    } else if is_own(args.last()) && args.last().positional == positional {
        bullets(args.drop_last(), positional) + arg_bullet(args.last())
    } else {
        bullets(args.drop_last(), positional)
    }
}

/// The bullets of all arguments, in order.
pub open spec fn all_bullets(args: Seq<ArgDoc>) -> Seq<char>
    decreases args.len(),
{
    if args.len() == 0 {
        Seq::empty()
    } else if is_own(args.last()) {
        all_bullets(args.drop_last()) + arg_bullet(args.last())
    } else {
        all_bullets(args.drop_last())
    }
}

/// Whether an argument is written out.
fn own(a: &ArgDoc) -> (r: bool)
    ensures
        r == is_own(*a),
{
    !text::same(a.id.as_str(), "help") && !text::same(a.id.as_str(), "version")
}

/// Writes the bullets of the arguments of one sort.
fn write_bullets(args: &Vec<ArgDoc>, positional: bool) -> (r: String)
    ensures
        r@ == bullets(args@, positional),
{
    let mut out = String::new();
    let mut i: usize = 0;
    assert(args@.take(0) =~= Seq::<ArgDoc>::empty());
    while i < args.len()
        invariant
            i <= args@.len(),
            out@ == bullets(args@.take(i as int), positional),
        decreases args@.len() - i,
    {
        assert(args@.take(i + 1).drop_last() =~= args@.take(i as int));
        if own(&args[i]) && args[i].positional == positional {
            out.append(render_arg(&args[i]).as_str());
        }
        i = i + 1;
    }
    assert(args@.take(i as int) =~= args@);
    out
}

/// Writes the bullets of all arguments.
fn write_all_bullets(args: &Vec<ArgDoc>) -> (r: String)
    ensures
        r@ == all_bullets(args@),
{
    let mut out = String::new();
    let mut i: usize = 0;
    assert(args@.take(0) =~= Seq::<ArgDoc>::empty());
    while i < args.len()
        invariant
            i <= args@.len(),
            out@ == all_bullets(args@.take(i as int)),
        decreases args@.len() - i,
    {
        assert(args@.take(i + 1).drop_last() =~= args@.take(i as int));
        if own(&args[i]) {
            out.append(render_arg(&args[i]).as_str());
        }
        i = i + 1;
    }
    assert(args@.take(i as int) =~= args@);
    out
}

/// Whether a command is written out: `help` is not, nor at the top the command that
/// writes this reference.
pub open spec fn is_shown(c: CommandDoc, top: bool) -> bool {
    c.name@ != "help"@ && !(top && c.name@ == "agents-md"@)
}

/// The position put behind all whose names come no later.
pub open spec fn filed(commands: Seq<CommandDoc>, order: Seq<int>, at: int) -> Seq<int>
    decreases order.len(),
{
    if order.len() == 0 || text::ordered(commands[order.last()].name@, commands[at].name@) {
        order.push(at)
    } else {
        filed(commands, order.drop_last(), at).push(order.last())
    }
}

/// The positions of the first `n` commands that are written out, by name.
pub open spec fn name_order(commands: Seq<CommandDoc>, n: nat, top: bool) -> Seq<int>
    decreases n,
{
    if n == 0 {
        Seq::empty()
    } else if is_shown(commands[n - 1], top) {
        filed(commands, name_order(commands, (n - 1) as nat, top), n - 1)
    } else {
        name_order(commands, (n - 1) as nat, top)
    }
}

proof fn lemma_filed(commands: Seq<CommandDoc>, order: Seq<int>, at: int, n: int)
    requires
        forall|i: int| 0 <= i < order.len() ==> 0 <= #[trigger] order[i] < n,
        0 <= at < n,
    ensures
        forall|i: int|
            0 <= i < filed(commands, order, at).len() ==> 0 <= #[trigger] filed(
                commands,
                order,
                at,
            )[i] < n,
    decreases order.len(),
{
    let all = filed(commands, order, at);
    if order.len() == 0 || text::ordered(commands[order.last()].name@, commands[at].name@) {
        assert forall|i: int| 0 <= i < all.len() implies 0 <= #[trigger] all[i] < n by {
            if i < order.len() {
                assert(all[i] == order[i]);
            }
        }
    } else {
        let front = order.drop_last();
        assert(forall|i: int| 0 <= i < front.len() ==> front[i] == order[i]);
        assert(0 <= order[order.len() - 1] < n);
        lemma_filed(commands, front, at, n);
        let before = filed(commands, front, at);
        assert forall|i: int| 0 <= i < all.len() implies 0 <= #[trigger] all[i] < n by {
            if i < before.len() {
                assert(all[i] == before[i]);
            }
        }
    }
}

/// Every position stands for one of the commands.
pub proof fn lemma_name_order(commands: Seq<CommandDoc>, n: nat, top: bool)
    ensures
        forall|i: int|
            0 <= i < name_order(commands, n, top).len() ==> 0 <= #[trigger] name_order(
                commands,
                n,
                top,
            )[i] < n,
    decreases n,
{
    if n > 0 {
        lemma_name_order(commands, (n - 1) as nat, top);
        let front = name_order(commands, (n - 1) as nat, top);
        assert forall|i: int| 0 <= i < front.len() implies 0 <= #[trigger] front[i] < n by {
            assert(0 <= name_order(commands, (n - 1) as nat, top)[i] < n - 1);
        }
        if is_shown(commands[n - 1], top) {
            lemma_filed(commands, front, n - 1, n as int);
            assert(name_order(commands, n, top) == filed(commands, front, n - 1));
        } else {
            assert(name_order(commands, n, top) == front);
        }
    }
}

/// What comes before the commands below a command: its heading, description,
/// arguments and options.
pub open spec fn section_head(c: CommandDoc, path: Seq<char>, marks: Seq<char>) -> Seq<char> {
    let about = match (c.long_about, c.about) {
        (Some(a), _) => one_line(a@) + "\n\n"@,
        (None, Some(a)) => one_line(a@) + "\n\n"@,
        (None, None) => ""@,
    };
    let arguments = bullets(c.args@, true);
    let options = bullets(c.args@, false);
    "\n"@ + marks + " `"@ + path + "`\n\n"@ + about + (if arguments.len() > 0 {
        "Arguments:\n\n"@ + arguments + "\n"@
    } else {
        ""@
    }) + (if options.len() > 0 {
        "Options:\n\n"@ + options + "\n"@
    } else {
        ""@
    })
}

/// The section of a command and of those below it.
pub open spec fn section(c: CommandDoc, parent: Seq<char>, marks: Seq<char>) -> Seq<char>
    decreases c, name_order(c.subcommands@, c.subcommands@.len(), false).len() + 1,
{
    let path = parent + " "@ + c.name@;
    section_head(c, path, marks) + sections_below(
        c,
        name_order(c.subcommands@, c.subcommands@.len(), false).len(),
        path,
        marks.push('#'),
        false,
    )
}

/// The sections of the first `n` commands below a command, by name.
pub open spec fn sections_below(
    c: CommandDoc,
    n: nat,
    parent: Seq<char>,
    marks: Seq<char>,
    top: bool,
) -> Seq<char>
    decreases c, n,
{
    let order = name_order(c.subcommands@, c.subcommands@.len(), top);
    if n == 0 || n > order.len() {
        Seq::empty()
    } else {
        let at = order[n - 1];
        proof {
            lemma_name_order(c.subcommands@, c.subcommands@.len(), top);
        }
        sections_below(c, (n - 1) as nat, parent, marks, top) + section(
            c.subcommands@[at],
            parent,
            marks,
        )
    }
}

/// The positions of a list.
pub open spec fn positions(order: Seq<usize>) -> Seq<int> {
    order.map_values(|i: usize| i as int)
}

/// Puts a position behind all whose names come no later.
fn file_position(commands: &Vec<CommandDoc>, order: &mut Vec<usize>, at: usize)
    requires
        at < commands@.len(),
        forall|i: int| 0 <= i < old(order)@.len() ==> #[trigger] old(order)@[i] < commands@.len(),
    ensures
        positions(final(order)@) == filed(commands@, positions(old(order)@), at as int),
{
    let ghost all = positions(order@);
    let mut k: usize = order.len();
    assert(all.take(k as int) =~= all);
    assert(filed(commands@, all, at as int) =~= filed(commands@, all.take(k as int), at as int)
        + all.skip(k as int));
    while k > 0 && !text::in_order(
        commands[order[k - 1]].name.as_str(),
        commands[at].name.as_str(),
    )
        invariant
            positions(order@) == all,
            order@ == old(order)@,
            at < commands@.len(),
            forall|i: int| 0 <= i < order@.len() ==> #[trigger] order@[i] < commands@.len(),
            k <= all.len(),
            filed(commands@, all, at as int) == filed(commands@, all.take(k as int), at as int)
                + all.skip(k as int),
        decreases k,
    {
        proof {
            let front = all.take(k as int);
            assert(front.last() == all[k - 1]);
            assert(all[k - 1] == order@[k - 1]);
            assert(front.drop_last() =~= all.take(k - 1));
            assert(filed(commands@, front, at as int) + all.skip(k as int) =~= filed(
                commands@,
                all.take(k - 1),
                at as int,
            ) + all.skip(k - 1));
        }
        k = k - 1;
    }
    proof {
        let front = all.take(k as int);
        if k > 0 {
            assert(front.last() == all[k - 1]);
            assert(all[k - 1] == order@[k - 1]);
        }
        assert(filed(commands@, front, at as int) == front.push(at as int));
        assert(positions(order@.insert(k as int, at)) =~= front.push(at as int) + all.skip(
            k as int,
        ));
    }
    order.insert(k, at);
}

/// Orders the commands that are written out by name.
fn sort_names(commands: &Vec<CommandDoc>, top: bool) -> (order: Vec<usize>)
    ensures
        positions(order@) == name_order(commands@, commands@.len(), top),
        forall|i: int| 0 <= i < order@.len() ==> #[trigger] order@[i] < commands@.len(),
{
    let mut order: Vec<usize> = Vec::new();
    let mut i: usize = 0;
    assert(positions(order@) =~= Seq::<int>::empty());
    while i < commands.len()
        invariant
            i <= commands@.len(),
            positions(order@) == name_order(commands@, i as nat, top),
            forall|k: int| 0 <= k < order@.len() ==> #[trigger] order@[k] < commands@.len(),
        decreases commands@.len() - i,
    {
        let name = commands[i].name.as_str();
        if !text::same(name, "help") && !(top && text::same(name, "agents-md")) {
            file_position(commands, &mut order, i);
        }
        i = i + 1;
        proof {
            lemma_name_order(commands@, i as nat, top);
            assert forall|k: int| 0 <= k < order@.len() implies #[trigger] order@[k]
                < commands@.len() by {
                assert(positions(order@)[k] == order@[k]);
                assert(0 <= name_order(commands@, i as nat, top)[k] < i);
            }
        }
    }
    order
}

/// Writes what comes before the commands below a command.
fn write_head(c: &CommandDoc, path: &str, marks: &str) -> (r: String)
    ensures
        r@ == section_head(*c, path@, marks@),
{
    let mut out = text::join3("\n", marks, " `");
    out.append(path);
    out.append("`\n\n");
    let ghost start = out@;
    match (&c.long_about, &c.about) {
        (Some(a), _) => {
            let about = text::join2(text::replace_char(a.as_str(), '\n', " ").as_str(), "\n\n");
            out.append(about.as_str());
        },
        (None, Some(a)) => {
            let about = text::join2(text::replace_char(a.as_str(), '\n', " ").as_str(), "\n\n");
            out.append(about.as_str());
        },
        (None, None) => {
            out.append("");
        },
    }
    let arguments = write_bullets(&c.args, true);
    let options = write_bullets(&c.args, false);
    if arguments.as_str().unicode_len() > 0 {
        let part = text::join3("Arguments:\n\n", arguments.as_str(), "\n");
        out.append(part.as_str());
    } else {
        out.append("");
    }
    if options.as_str().unicode_len() > 0 {
        let part = text::join3("Options:\n\n", options.as_str(), "\n");
        out.append(part.as_str());
    } else {
        out.append("");
    }
    out
}

/// Writes the section of a command and of those below it.
pub fn render_command(c: &CommandDoc, parent: &str, marks: &str) -> (r: String)
    ensures
        r@ == section(*c, parent@, marks@),
    decreases c, 1int,
{
    let path = text::join3(parent, " ", c.name.as_str());
    let mut out = write_head(c, path.as_str(), marks);
    let mut deeper = marks.to_owned();
    deeper.push('#');
    let below = render_below(c, path.as_str(), deeper.as_str(), false);
    out.append(below.as_str());
    out
}

/// Writes the sections of the commands below a command, by name.
fn render_below(c: &CommandDoc, parent: &str, marks: &str, top: bool) -> (r: String)
    ensures
        r@ == sections_below(
            *c,
            name_order(c.subcommands@, c.subcommands@.len(), top).len(),
            parent@,
            marks@,
            top,
        ),
    decreases c, 0int,
{
    let order = sort_names(&c.subcommands, top);
    let ghost sorted = name_order(c.subcommands@, c.subcommands@.len(), top);
    let mut out = String::new();
    let mut i: usize = 0;
    while i < order.len()
        invariant
            i <= order@.len(),
            positions(order@) == sorted,
            sorted == name_order(c.subcommands@, c.subcommands@.len(), top),
            forall|k: int| 0 <= k < order@.len() ==> #[trigger] order@[k] < c.subcommands@.len(),
            out@ == sections_below(*c, i as nat, parent@, marks@, top),
        decreases order@.len() - i,
    {
        assert(sorted[i as int] == order@[i as int]);
        let part = render_command(&c.subcommands[order[i]], parent, marks);
        out.append(part.as_str());
        i = i + 1;
    }
    out
}

/// The whole reference.
pub open spec fn reference(root: CommandDoc) -> Seq<char> {
    AGENTS_PREAMBLE@ + "\n## Global options\n\nThese apply to every command:\n\n"@ + all_bullets(
        root.args@,
    ) + "\n## Commands\n"@ + sections_below(
        root,
        name_order(root.subcommands@, root.subcommands@.len(), true).len(),
        "arc"@,
        "###"@,
        true,
    )
}

/// Writes the whole reference from the definition of the command line, so that the
/// two cannot drift apart.
pub fn agents_md(root: &CommandDoc) -> (r: String)
    ensures
        r@ == reference(*root),
{
    let mut out = text::join3(
        AGENTS_PREAMBLE,
        "\n## Global options\n\nThese apply to every command:\n\n",
        write_all_bullets(&root.args).as_str(),
    );
    out.append("\n## Commands\n");
    out.append(render_below(root, "arc", "###", true).as_str());
    out
}

proof fn lemma_bullet(a: ArgDoc)
    ensures
        ("- "@ + token(a)).is_prefix_of(arg_bullet(a)),
        (suffix(a) + "\n"@).is_suffix_of(arg_bullet(a)),
        a.help is None ==> arg_bullet(a) == "- "@ + token(a) + suffix(a) + "\n"@,
{
    reveal_strlit("");
    let s = arg_bullet(a);
    let head = "- "@ + token(a);
    assert(head =~= s.subrange(0, head.len() as int));
    let tail = suffix(a) + "\n"@;
    assert(tail =~= s.subrange(s.len() - tail.len(), s.len() as int));
}

/// The bullet of an argument shows a positional one by the name of its value, or by
/// its own, and a flag by its dashes, with the name of the value that it takes.
pub proof fn law_argument_is_shown_as_given(a: ArgDoc, r: String)
    requires
        render_arg.ensures((&a,), r),
    ensures
        a.positional && a.value_name is Some ==> ("- "@ + ("`<"@ + (a.value_name->0)@
            + ">`"@)).is_prefix_of(r@),
        a.positional && a.value_name is None ==> ("- "@ + ("`<"@ + a.id@ + ">`"@)).is_prefix_of(r@),
        !a.positional && a.short is None && a.long is Some && a.takes_value && a.value_name
            is Some ==> ("- "@ + ("`"@ + ("--"@ + (a.long->0)@ + (" <"@ + (a.value_name->0)@
            + ">"@)) + "`"@)).is_prefix_of(r@),
        !a.positional && a.short is None && a.long is Some && !a.takes_value ==> ("- "@ + ("`"@ + (
        "--"@ + (a.long->0)@) + "`"@)).is_prefix_of(r@),
        !a.positional && a.short is Some && a.long is Some && !a.takes_value ==> ("- "@ + ("`"@ + (
        "-"@ + seq![a.short->0] + ", "@ + ("--"@ + (a.long->0)@)) + "`"@)).is_prefix_of(r@),
        !a.positional && a.short is Some && a.long is Some && a.takes_value && a.value_name
            is Some ==> ("- "@ + ("`"@ + ("-"@ + seq![a.short->0] + ", "@ + ("--"@ + (a.long->0)@)
            + (" <"@ + (a.value_name->0)@ + ">"@)) + "`"@)).is_prefix_of(r@),
{
    lemma_bullet(a);
    reveal_strlit("");
    if !a.positional {
        if let Some(l) = a.long {
            if let Some(c) = a.short {
                let both = "-"@ + seq![c] + ", "@ + ("--"@ + l@);
                if !a.takes_value {
                    assert(short_part(a) + long_part(a) + value_part(a) =~= both);
                }
            } else {
                let alone = "--"@ + l@;
                if !a.takes_value {
                    assert(short_part(a) + long_part(a) + value_part(a) =~= alone);
                } else if let Some(v) = a.value_name {
                    assert(short_part(a) + long_part(a) + value_part(a) =~= alone + (" <"@ + v@
                        + ">"@));
                }
            }
        }
    }
}

/// The bullet of an argument ends with whether it must be given and what it is
/// otherwise, if there is anything to say of that.
pub proof fn law_argument_tells_its_default(a: ArgDoc, r: String)
    requires
        render_arg.ensures((&a,), r),
    ensures
        a.required && a.defaults@.len() == 0 ==> (" _("@ + "required"@ + ")_"@
            + "\n"@).is_suffix_of(r@),
        a.required && a.defaults@.len() == 1 ==> (" _("@ + ("required"@ + ", "@ + ("default: "@
            + a.defaults@[0]@)) + ")_"@ + "\n"@).is_suffix_of(r@),
        !a.required && a.defaults@.len() == 1 ==> (" _("@ + ("default: "@ + a.defaults@[0]@) + ")_"@
            + "\n"@).is_suffix_of(r@),
        !a.required && a.defaults@.len() == 0 && a.help is None && a.positional && a.value_name
            is None ==> r@ == "- "@ + ("`<"@ + a.id@ + ">`"@) + "\n"@,
{
    lemma_bullet(a);
    reveal_strlit("");
    if a.defaults@.len() == 1 {
        reveal_with_fuel(text::joined, 2);
        assert(text::texts(a.defaults@)[0] == a.defaults@[0]@);
        assert(text::joined(text::texts(a.defaults@), " "@) == a.defaults@[0]@);
    }
    if !a.required && a.defaults@.len() == 0 {
        assert("- "@ + token(a) + suffix(a) + "\n"@ =~= "- "@ + token(a) + "\n"@);
    }
}

/// Whether the commands at these positions stand in the order of their names.
pub open spec fn by_name(commands: Seq<CommandDoc>, order: Seq<int>) -> bool {
    forall|i: int, k: int|
        0 <= i < k < order.len() ==> text::ordered(
            commands[#[trigger] order[i]].name@,
            commands[#[trigger] order[k]].name@,
        )
}

proof fn lemma_filed_order(commands: Seq<CommandDoc>, order: Seq<int>, at: int)
    requires
        by_name(commands, order),
        order.no_duplicates(),
        !order.contains(at),
    ensures
        by_name(commands, filed(commands, order, at)),
        filed(commands, order, at).no_duplicates(),
        forall|i: int| #[trigger]
            filed(commands, order, at).contains(i) <==> order.contains(i) || i == at,
    decreases order.len(),
{
    let out = filed(commands, order, at);
    if order.len() == 0 || text::ordered(commands[order.last()].name@, commands[at].name@) {
        assert(out == order.push(at));
        assert forall|i: int, k: int| 0 <= i < k < out.len() implies text::ordered(
            commands[#[trigger] out[i]].name@,
            commands[#[trigger] out[k]].name@,
        ) by {
            if k == order.len() && i < order.len() - 1 {
                assert(text::ordered(
                    commands[order[i]].name@,
                    commands[order[order.len() - 1]].name@,
                ));
                text::law_texts_are_ordered(
                    commands[order[i]].name@,
                    commands[order.last()].name@,
                    commands[at].name@,
                );
            }
        }
        assert forall|i: int| #[trigger] out.contains(i) <==> order.contains(i) || i == at by {
            if order.contains(i) {
                let k = choose|k: int| 0 <= k < order.len() && order[k] == i;
                assert(out[k] == i);
            }
            assert(out[order.len() as int] == at);
        }
    } else {
        let rest = order.drop_last();
        let last = order.last();
        assert(!rest.contains(at)) by {
            if rest.contains(at) {
                let k = choose|k: int| 0 <= k < rest.len() && rest[k] == at;
                assert(order[k] == at);
            }
        }
        assert(by_name(commands, rest)) by {
            assert forall|i: int, k: int| 0 <= i < k < rest.len() implies text::ordered(
                commands[#[trigger] rest[i]].name@,
                commands[#[trigger] rest[k]].name@,
            ) by {
                assert(rest[i] == order[i] && rest[k] == order[k]);
            }
        }
        lemma_filed_order(commands, rest, at);
        let f = filed(commands, rest, at);
        assert(out == f.push(last));
        text::law_texts_are_ordered(
            commands[last].name@,
            commands[at].name@,
            commands[at].name@,
        );
        assert(!f.contains(last)) by {
            if f.contains(last) {
                assert(order.contains(last)) by {
                    assert(order[order.len() - 1] == last);
                }
                assert(rest.contains(last));
                let k = choose|k: int| 0 <= k < rest.len() && rest[k] == last;
                assert(order[k] == order[order.len() - 1]);
            }
        }
        assert forall|i: int, k: int| 0 <= i < k < out.len() implies text::ordered(
            commands[#[trigger] out[i]].name@,
            commands[#[trigger] out[k]].name@,
        ) by {
            if k == f.len() {
                assert(f.contains(f[i]));
                if f[i] != at {
                    let j = choose|j: int| 0 <= j < rest.len() && rest[j] == f[i];
                    assert(order[j] == f[i]);
                    assert(text::ordered(
                        commands[order[j]].name@,
                        commands[order[order.len() - 1]].name@,
                    ));
                }
            } else {
                assert(out[i] == f[i] && out[k] == f[k]);
            }
        }
        assert forall|i: int| #[trigger] out.contains(i) <==> order.contains(i) || i == at by {
            if out.contains(i) {
                let k = choose|k: int| 0 <= k < out.len() && out[k] == i;
                if k < f.len() {
                    assert(f.contains(f[k]));
                    if i != at {
                        let j = choose|j: int| 0 <= j < rest.len() && rest[j] == i;
                        assert(order[j] == i);
                    }
                } else {
                    assert(order[order.len() - 1] == i);
                }
            }
            if order.contains(i) {
                let k = choose|k: int| 0 <= k < order.len() && order[k] == i;
                if k < rest.len() {
                    assert(rest[k] == i);
                    assert(f.contains(i));
                    let j = choose|j: int| 0 <= j < f.len() && f[j] == i;
                    assert(out[j] == i);
                } else {
                    assert(out[f.len() as int] == i);
                }
            }
            if i == at {
                assert(f.contains(at));
                let j = choose|j: int| 0 <= j < f.len() && f[j] == at;
                assert(out[j] == at);
            }
        }
    }
}

proof fn lemma_name_order_sorted(commands: Seq<CommandDoc>, n: nat, top: bool)
    requires
        n <= commands.len(),
    ensures
        by_name(commands, name_order(commands, n, top)),
        name_order(commands, n, top).no_duplicates(),
        forall|i: int| #[trigger]
            name_order(commands, n, top).contains(i) <==> 0 <= i < n && is_shown(commands[i], top),
    decreases n,
{
    if n > 0 {
        lemma_name_order_sorted(commands, (n - 1) as nat, top);
        let before = name_order(commands, (n - 1) as nat, top);
        if is_shown(commands[n - 1], top) {
            assert(!before.contains(n - 1));
            lemma_filed_order(commands, before, n - 1);
        }
    }
}

proof fn lemma_sections(
    c: CommandDoc,
    n: nat,
    parent: Seq<char>,
    marks: Seq<char>,
    top: bool,
) -> (parts: Seq<Seq<char>>)
    requires
        n <= name_order(c.subcommands@, c.subcommands@.len(), top).len(),
    ensures
        parts.len() == n,
        sections_below(c, n, parent, marks, top) == text::joined(parts, Seq::empty()),
        forall|k: int|
            0 <= k < n ==> #[trigger] parts[k] == section(
                c.subcommands@[name_order(c.subcommands@, c.subcommands@.len(), top)[k]],
                parent,
                marks,
            ),
    decreases n,
{
    if n == 0 {
        Seq::empty()
    } else {
        let before = lemma_sections(c, (n - 1) as nat, parent, marks, top);
        let order = name_order(c.subcommands@, c.subcommands@.len(), top);
        let last = section(c.subcommands@[order[n - 1]], parent, marks);
        let parts = before.push(last);
        assert(parts.drop_last() =~= before);
        lemma_name_order(c.subcommands@, c.subcommands@.len(), top);
        if n == 1 {
            assert(before =~= Seq::<Seq<char>>::empty());
            assert(Seq::<char>::empty() + last =~= last);
        } else {
            assert(text::joined(before, Seq::empty()) + Seq::<char>::empty() + last
                =~= text::joined(before, Seq::empty()) + last);
        }
        parts
    }
}

proof fn lemma_heading(c: CommandDoc, parent: Seq<char>, marks: Seq<char>)
    ensures
        ("\n"@ + marks + " `"@ + (parent + " "@ + c.name@) + "`\n\n"@).is_prefix_of(
            section(c, parent, marks),
        ),
{
    let path = parent + " "@ + c.name@;
    let head = "\n"@ + marks + " `"@ + path + "`\n\n"@;
    let all = section_head(c, path, marks);
    assert(head =~= all.subrange(0, head.len() as int));
    let s = section(c, parent, marks);
    assert(head =~= s.subrange(0, head.len() as int));
}

proof fn lemma_last_part(a: Seq<char>, b: Seq<char>)
    ensures
        b.is_suffix_of(a + b),
        a.is_prefix_of(a + b),
{
    assert(b =~= (a + b).subrange((a + b).len() - b.len(), (a + b).len() as int));
    assert(a =~= (a + b).subrange(0, a.len() as int));
}

/// The reference begins with the guidance, and ends with one section for each command,
/// in the order of their names, under its own heading. Only `help` and the command
/// that writes the reference have none.
pub proof fn law_reference_has_every_command(root: CommandDoc, r: String) -> (parts: (
    Seq<int>,
    Seq<Seq<char>>,
))
    requires
        agents_md.ensures((&root,), r),
    ensures
        text::joined(parts.1, Seq::empty()).is_suffix_of(r@),
        parts.0.len() == parts.1.len(),
        parts.0.no_duplicates(),
        by_name(root.subcommands@, parts.0),
        forall|i: int| #[trigger]
            parts.0.contains(i) <==> 0 <= i < root.subcommands@.len() && root.subcommands@[i].name@
                != "help"@ && root.subcommands@[i].name@ != "agents-md"@,
        forall|k: int|
            0 <= k < parts.1.len() ==> ("\n"@ + "###"@ + " `"@ + ("arc"@ + " "@
                + root.subcommands@[parts.0[k]].name@) + "`\n\n"@).is_prefix_of(
                #[trigger] parts.1[k],
            ),
{
    let order = name_order(root.subcommands@, root.subcommands@.len(), true);
    let sections = lemma_sections(root, order.len(), "arc"@, "###"@, true);
    lemma_name_order_sorted(root.subcommands@, root.subcommands@.len(), true);
    let front = AGENTS_PREAMBLE@ + "\n## Global options\n\nThese apply to every command:\n\n"@
        + all_bullets(root.args@) + "\n## Commands\n"@;
    lemma_last_part(front, text::joined(sections, Seq::empty()));
    assert forall|k: int| 0 <= k < sections.len() implies ("\n"@ + "###"@ + " `"@ + ("arc"@ + " "@
        + root.subcommands@[order[k]].name@) + "`\n\n"@).is_prefix_of(#[trigger] sections[k]) by {
        lemma_heading(root.subcommands@[order[k]], "arc"@, "###"@);
    }
    (order, sections)
}

/// The global options of the reference are the arguments of the program in their
/// order, but for the built-in ones.
pub proof fn law_global_options_are_listed(a: CommandDoc, b: CommandDoc, more: ArgDoc, of_more: String)
    requires
        b.args@ == a.args@.push(more),
        render_arg.ensures((&more,), of_more),
    ensures
        more.id@ == "help"@ || more.id@ == "version"@ ==> all_bullets(b.args@) == all_bullets(
            a.args@,
        ),
        more.id@ != "help"@ && more.id@ != "version"@ ==> all_bullets(b.args@) == all_bullets(
            a.args@,
        ) + of_more@,
{
    assert(b.args@.drop_last() =~= a.args@);
}

} // verus!
