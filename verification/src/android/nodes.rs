//! The elements of the screen, read out of a dump of its tree.

use vstd::prelude::*;

use crate::android::cap::{edges_fit, id_edges, readable, run_command, Invocation, MAX_ELEMENTS};
use crate::number;
use crate::proto::id::ElementId;
use crate::proto::wire::{ElementInfo, ElementQuery, RemoteErrorKind};
use crate::runner::uia::Bounds;
use crate::runner_core::{os_error, RemoteResult};
use crate::text;

verus! {

/// The error of a text that is not XML.
#[verifier::external_type_specification]
#[verifier::external_body]
pub struct ExXmlError(roxmltree::Error);

/// An attribute of a node.
pub struct XmlAttribute {
    /// Namespace, if it has one.
    pub namespace: Option<String>,
    /// Local name.
    pub name: String,
    /// Value.
    pub value: String,
}

/// A node of a document. One that is no element has an empty tag and no
/// attributes.
pub struct XmlNode {
    /// Local name of the element.
    pub tag: String,
    /// Its attributes.
    pub attributes: Vec<XmlAttribute>,
}

impl View for XmlAttribute {
    type V = (Option<Seq<char>>, Seq<char>, Seq<char>);

    open spec fn view(&self) -> (Option<Seq<char>>, Seq<char>, Seq<char>) {
        (
            match self.namespace {
                Some(n) => Some(n@),
                None => None,
            },
            self.name@,
            self.value@,
        )
    }
}

impl View for XmlNode {
    type V = (Seq<char>, Seq<(Option<Seq<char>>, Seq<char>, Seq<char>)>);

    open spec fn view(&self) -> (Seq<char>, Seq<(Option<Seq<char>>, Seq<char>, Seq<char>)>) {
        (self.tag@, self.attributes@.map_values(|a: XmlAttribute| a@))
    }
}

/// The nodes of a document in the order in which they begin, each with its tag and
/// its attributes, if the text is a document.
pub uninterp spec fn xml_nodes(xml: Seq<char>) -> Option<
    Seq<(Seq<char>, Seq<(Option<Seq<char>>, Seq<char>, Seq<char>)>)>,
>;

/// The views of nodes.
pub open spec fn node_views(nodes: Seq<XmlNode>) -> Seq<
    (Seq<char>, Seq<(Option<Seq<char>>, Seq<char>, Seq<char>)>),
> {
    nodes.map_values(|n: XmlNode| n@)
}

/// How deep the elements of a text may lie inside each other for it to be read: a
/// thread with two megabytes of stack bears more, even without optimisation.
pub const MAX_NESTING: usize = 200;

/// Where a walk over the characters of an XML text stands.
#[derive(Debug, Clone, Copy, PartialEq, Eq, Structural)]
pub enum Place {
    /// Outside of any markup.
    Text,
    /// Behind a `<`.
    Bracket,
    /// In the start tag of an element; `slash` if the last character was a `/`.
    Tag {
        /// The last character was a `/`.
        slash: bool,
    },
    /// In the value of an attribute, up to this quote.
    Quoted(char),
    /// In a processing instruction; `mark` if the last character was a `?`.
    Instruction {
        /// The last character was a `?`.
        mark: bool,
    },
    /// Behind `<!`.
    Declaration,
    /// Behind `<!-`.
    Dash,
    /// In a comment, behind so many dashes, two at most.
    Comment(u8),
    /// In a section of plain characters, behind so many closing brackets, two at
    /// most.
    Section(u8),
}

/// So many of the same character in a row, counted up to two.
pub open spec fn run_of(n: u8, same: bool) -> u8 {
    if !same {
        0
    } else if n == 0 {
        1
    } else {
        2
    }
}

/// The place behind the next character.
pub open spec fn next_place(place: Place, c: char) -> Place {
    match place {
        Place::Text => if c == '<' {
            Place::Bracket
        } else {
            Place::Text
        },
        Place::Bracket => if c == '/' {
            Place::Text
        } else if c == '?' {
            Place::Instruction { mark: false }
        } else if c == '!' {
            Place::Declaration
        } else {
            Place::Tag { slash: false }
        },
        Place::Tag { .. } => if c == '>' {
            Place::Text
        } else if c == '"' || c == '\'' {
            Place::Quoted(c)
        } else {
            Place::Tag { slash: c == '/' }
        },
        Place::Quoted(quote) => if c == quote {
            Place::Tag { slash: false }
        } else {
            place
        },
        Place::Instruction { mark } => if mark && c == '>' {
            Place::Text
        } else {
            Place::Instruction { mark: c == '?' }
        },
        Place::Declaration => if c == '-' {
            Place::Dash
        } else if c == '[' {
            Place::Section(0)
        } else {
            Place::Text
        },
        Place::Dash => if c == '-' {
            Place::Comment(0)
        } else {
            Place::Text
        },
        Place::Comment(n) => if n >= 2 && c == '>' {
            Place::Text
        } else {
            Place::Comment(run_of(n, c == '-'))
        },
        Place::Section(n) => if n >= 2 && c == '>' {
            Place::Text
        } else {
            Place::Section(run_of(n, c == ']'))
        },
    }
}

/// Whether an element begins with this character.
pub open spec fn opens_element(place: Place, c: char) -> bool {
    place is Bracket && next_place(place, c) is Tag
}

/// Whether an element ends with this character, or the tag that ends it begins.
pub open spec fn closes_element(place: Place, c: char) -> bool {
    (place is Bracket && c == '/') || (place == (Place::Tag { slash: true }) && c == '>')
}

/// Where a walk over a text ends up.
pub open spec fn place_after(xml: Seq<char>) -> Place
    decreases xml.len(),
{
    if xml.len() == 0 {
        Place::Text
    } else {
        next_place(place_after(xml.drop_last()), xml.last())
    }
}

/// How many elements are open at the end of a text.
pub open spec fn open_elements(xml: Seq<char>) -> nat
    decreases xml.len(),
{
    if xml.len() == 0 {
        0
    } else {
        let place = place_after(xml.drop_last());
        let before = open_elements(xml.drop_last());
        if opens_element(place, xml.last()) {
            before + 1
        } else if closes_element(place, xml.last()) && before > 0 {
            (before - 1) as nat
        } else {
            before
        }
    }
}

/// How deep the elements of a text lie inside each other at most. Comments, plain
/// sections, instructions and quoted values hold no elements.
pub open spec fn nesting(xml: Seq<char>) -> nat
    decreases xml.len(),
{
    if xml.len() == 0 {
        0
    } else {
        let before = nesting(xml.drop_last());
        let now = open_elements(xml);
        if now > before {
            now
        } else {
            before
        }
    }
}

fn count_run(n: u8, same: bool) -> (r: u8)
    ensures
        r == run_of(n, same),
{
    if !same {
        0
    } else if n == 0 {
        1
    } else {
        2
    }
}

/// Moves on by one character.
fn advance(place: Place, c: char) -> (r: Place)
    ensures
        r == next_place(place, c),
{
    match place {
        Place::Text => if c == '<' {
            Place::Bracket
        } else {
            Place::Text
        },
        Place::Bracket => if c == '/' {
            Place::Text
        } else if c == '?' {
            Place::Instruction { mark: false }
        } else if c == '!' {
            Place::Declaration
        } else {
            Place::Tag { slash: false }
        },
        Place::Tag { .. } => if c == '>' {
            Place::Text
        } else if c == '"' || c == '\'' {
            Place::Quoted(c)
        } else {
            Place::Tag { slash: c == '/' }
        },
        Place::Quoted(quote) => if c == quote {
            Place::Tag { slash: false }
        } else {
            place
        },
        Place::Instruction { mark } => if mark && c == '>' {
            Place::Text
        } else {
            Place::Instruction { mark: c == '?' }
        },
        Place::Declaration => if c == '-' {
            Place::Dash
        } else if c == '[' {
            Place::Section(0)
        } else {
            Place::Text
        },
        Place::Dash => if c == '-' {
            Place::Comment(0)
        } else {
            Place::Text
        },
        Place::Comment(n) => if n >= 2 && c == '>' {
            Place::Text
        } else {
            Place::Comment(count_run(n, c == '-'))
        },
        Place::Section(n) => if n >= 2 && c == '>' {
            Place::Text
        } else {
            Place::Section(count_run(n, c == ']'))
        },
    }
}

/// Measures how deep the elements of a text lie inside each other at most.
pub fn nesting_of(xml: &str) -> (r: usize)
    ensures
        r == nesting(xml@),
{
    let chars = text::chars_of(xml);
    let ghost all = chars@;
    let mut place = Place::Text;
    let mut depth: usize = 0;
    let mut deepest: usize = 0;
    let mut i: usize = 0;
    assert(all.take(0) =~= Seq::empty());
    while i < chars.len()
        invariant
            i <= chars@.len(),
            all == chars@,
            place == place_after(all.take(i as int)),
            depth == open_elements(all.take(i as int)),
            deepest == nesting(all.take(i as int)),
            depth <= i,
        decreases chars@.len() - i,
    {
        let c = chars[i];
        proof {
            assert(all.take(i + 1).drop_last() =~= all.take(i as int));
            assert(all.take(i + 1).last() == c);
        }
        let next = advance(place, c);
        let begins = match (place, next) {
            (Place::Bracket, Place::Tag { .. }) => true,
            _ => false,
        };
        let ends = match place {
            Place::Bracket => c == '/',
            Place::Tag { slash } => slash && c == '>',
            _ => false,
        };
        if begins {
            depth = depth + 1;
        } else if ends && depth > 0 {
            depth = depth - 1;
        }
        if depth > deepest {
            deepest = depth;
        }
        place = next;
        i = i + 1;
    }
    assert(all.take(i as int) =~= all);
    deepest
}

/// Calls `roxmltree::Document::parse` and hands out every node with its tag and its
/// attributes: whether the text is a document, and which nodes it has, follows from
/// the text alone. The parser goes one call deeper for each element inside another,
/// without a limit of its own.
#[verifier::external_body]
fn read_nodes(xml: &str) -> (r: Result<Vec<XmlNode>, roxmltree::Error>)
    requires
        nesting(xml@) <= MAX_NESTING,
    ensures
        match r {
            Ok(nodes) => xml_nodes(xml@) == Some(node_views(nodes@)),
            Err(_) => xml_nodes(xml@) is None,
        },
{
    let document = roxmltree::Document::parse(xml)?;
    let attribute = |a: roxmltree::Attribute| XmlAttribute {
        namespace: a.namespace().map(str::to_owned),
        name: a.name().to_owned(),
        value: a.value().to_owned(),
    };
    Ok(document.descendants().map(|n| XmlNode {
        tag: n.tag_name().name().to_owned(),
        attributes: n.attributes().map(attribute).collect(),
    }).collect())
}

/// The value of the first attribute of that name without a namespace, or nothing.
pub open spec fn attribute_of(
    attributes: Seq<(Option<Seq<char>>, Seq<char>, Seq<char>)>,
    name: Seq<char>,
) -> Seq<char>
    decreases attributes.len(),
{
    if attributes.len() == 0 {
        Seq::empty()
    } else if attributes[0].0 is None && attributes[0].1 == name {
        attributes[0].2
    } else {
        attribute_of(attributes.skip(1), name)
    }
}

/// Looks up an attribute of a node.
fn attribute(node: &XmlNode, name: &str) -> (r: String)
    ensures
        r@ == attribute_of(node@.1, name@),
{
    let ghost all = node@.1;
    let mut i: usize = 0;
    assert(all.skip(0) =~= all);
    while i < node.attributes.len()
        invariant
            i <= node.attributes@.len(),
            all == node@.1,
            attribute_of(all, name@) == attribute_of(all.skip(i as int), name@),
        decreases node.attributes@.len() - i,
    {
        let a = &node.attributes[i];
        assert(all.skip(i as int)[0] == a@);
        assert(all.skip(i as int).skip(1) =~= all.skip(i + 1));
        let plain = match &a.namespace {
            Some(_) => false,
            None => true,
        };
        if plain && text::same(a.name.as_str(), name) {
            return a.value.clone();
        }
        i = i + 1;
    }
    String::new()
}

/// A number between two brackets.
pub open spec fn coordinate(s: Seq<char>) -> Option<int> {
    number::parsed_signed(text::trim(s))
}

/// The edges in `[l,t][r,b]`.
pub open spec fn printed_bounds(s: Seq<char>) -> Option<Bounds> {
    if s.len() == 0 || s[0] != '[' || s.skip(1).len() == 0 || s.last() != ']' {
        None
    } else {
        match text::split_once_at(s.subrange(1, s.len() - 1), "]["@) {
            None => None,
            Some((tl, br)) => match (text::split_once(tl, ','), text::split_once(br, ',')) {
                (Some((l, t)), Some((r, b))) => match (
                    coordinate(l),
                    coordinate(t),
                    coordinate(r),
                    coordinate(b),
                ) {
                    (Some(left), Some(top), Some(right), Some(bottom)) => Some(
                        Bounds {
                            left: left as i32,
                            top: top as i32,
                            right: right as i32,
                            bottom: bottom as i32,
                        },
                    ),
                    _ => None,
                },
                _ => None,
            },
        }
    }
}

fn read_coordinate(s: &[char]) -> (r: Option<i32>)
    ensures
        match r {
            Some(v) => coordinate(s@) == Some(v as int),
            None => coordinate(s@) is None,
        },
{
    number::parse_signed(text::trimmed(s).as_slice())
}

/// Reads the edges in `[l,t][r,b]`.
pub fn parse_bounds(s: &str) -> (r: Option<Bounds>)
    ensures
        r == printed_bounds(s@),
{
    let chars = text::chars_of(s);
    let n: usize = chars.len();
    if n < 2 || chars[0] != '[' || chars[n - 1] != ']' {
        return None;
    }
    let inner = text::slice_chars(chars.as_slice(), 1, n - 1);
    let sep = text::chars_of("][");
    proof {
        reveal_strlit("][");
    }
    match text::split_first_at(inner.as_slice(), sep.as_slice()) {
        None => None,
        Some((tl, br)) => {
            let a = text::split_first(tl.as_slice(), ',');
            let b = text::split_first(br.as_slice(), ',');
            match (a, b) {
                (Some((l, t)), Some((r, d))) => {
                    let left = read_coordinate(l.as_slice());
                    let top = read_coordinate(t.as_slice());
                    let right = read_coordinate(r.as_slice());
                    let bottom = read_coordinate(d.as_slice());
                    match (left, top, right, bottom) {
                        (Some(x), Some(y), Some(z), Some(w)) => Some(
                            Bounds { left: x, top: y, right: z, bottom: w },
                        ),
                        _ => None,
                    }
                },
                _ => None,
            }
        },
    }
}

/// The id of an element: its edges.
pub open spec fn edges_id(b: Bounds) -> Seq<char> {
    number::signed(b.left as int) + ","@ + number::signed(b.top as int) + ","@ + number::signed(
        b.right as int,
    ) + ","@ + number::signed(b.bottom as int)
}

/// A text that says something.
pub open spec fn said(s: Seq<char>) -> Option<Seq<char>> {
    if s.len() > 0 {
        Some(s)
    } else {
        None
    }
}

/// The view of an optional text.
pub open spec fn shown(s: Option<String>) -> Option<Seq<char>> {
    match s {
        Some(v) => Some(v@),
        None => None,
    }
}

/// A text, unless it is empty.
fn non_empty(s: String) -> (r: Option<String>)
    ensures
        shown(r) == said(s@),
{
    if s.as_str().unicode_len() > 0 {
        Some(s)
    } else {
        None
    }
}

/// Whether `info` describes the element of a node with those edges: it can be acted
/// on if it is clickable and enabled, and its value is its text or else its
/// description.
pub open spec fn describes_node(
    info: ElementInfo,
    attributes: Seq<(Option<Seq<char>>, Seq<char>, Seq<char>)>,
    b: Bounds,
) -> bool {
    let description = said(attribute_of(attributes, "content-desc"@));
    let content = said(attribute_of(attributes, "text"@));
    &&& info.id.0@ == edges_id(b)
    &&& info.control_type@ == text::after_last(attribute_of(attributes, "class"@), '.')
    &&& shown(info.name) == description
    &&& shown(info.automation_id) == said(attribute_of(attributes, "resource-id"@))
    &&& shown(info.value) == if content is Some {
        content
    } else {
        description
    }
    &&& info.rect == b.spec_rect()
    &&& info.actionable == (attribute_of(attributes, "clickable"@) == "true"@ && attribute_of(
        attributes,
        "enabled"@,
    ) == "true"@)
}

/// Writes the id of an element.
fn write_id(b: &Bounds) -> (r: String)
    ensures
        r@ == edges_id(*b),
{
    let mut id = text::join3(
        number::signed_text(b.left).as_str(),
        ",",
        number::signed_text(b.top).as_str(),
    );
    id.append(",");
    id.append(number::signed_text(b.right).as_str());
    id.append(",");
    id.append(number::signed_text(b.bottom).as_str());
    id
}

/// Describes the element of a node.
fn describe_node(node: &XmlNode, b: &Bounds) -> (info: ElementInfo)
    requires
        b.sized(),
    ensures
        describes_node(info, node@.1, *b),
{
    let class = attribute(node, "class");
    let pieces = text::split_on(text::chars_of(class.as_str()).as_slice(), '.');
    assert(text::views(pieces@).last() == pieces@[pieces@.len() - 1]@);
    let control_type = text::string_of(pieces[pieces.len() - 1].as_slice());
    let clickable = text::same(attribute(node, "clickable").as_str(), "true");
    let enabled = text::same(attribute(node, "enabled").as_str(), "true");
    let content = non_empty(attribute(node, "text"));
    let value = match content {
        Some(v) => Some(v),
        None => non_empty(attribute(node, "content-desc")),
    };
    ElementInfo {
        id: ElementId(write_id(b)),
        control_type,
        name: non_empty(attribute(node, "content-desc")),
        automation_id: non_empty(attribute(node, "resource-id")),
        value,
        rect: b.rect(),
        actionable: clickable && enabled,
    }
}

/// The edges of a node that is listed: an element called `node` whose edges can be
/// read.
pub open spec fn listed_edges(
    node: (Seq<char>, Seq<(Option<Seq<char>>, Seq<char>, Seq<char>)>),
) -> Option<Bounds> {
    if node.0 == "node"@ {
        printed_bounds(attribute_of(node.1, "bounds"@))
    } else {
        None
    }
}

/// The positions of the nodes that are listed, among the first `n`: at most so many
/// as a listing has room for.
pub open spec fn listed_nodes(
    nodes: Seq<(Seq<char>, Seq<(Option<Seq<char>>, Seq<char>, Seq<char>)>)>,
    n: nat,
) -> Seq<int>
    decreases n,
{
    if n == 0 {
        Seq::empty()
    } else {
        let before = listed_nodes(nodes, (n - 1) as nat);
        if listed_edges(nodes[n - 1]) is Some && before.len() < MAX_ELEMENTS {
            before.push(n - 1)
        } else {
            before
        }
    }
}

/// Whether `info` describes a node that is listed.
pub open spec fn lists_node(
    info: ElementInfo,
    node: (Seq<char>, Seq<(Option<Seq<char>>, Seq<char>, Seq<char>)>),
) -> bool {
    match listed_edges(node) {
        Some(b) => describes_node(info, node.1, b),
        None => false,
    }
}

/// Whether the elements are those of the nodes that are listed.
pub open spec fn lists(
    out: Seq<ElementInfo>,
    nodes: Seq<(Seq<char>, Seq<(Option<Seq<char>>, Seq<char>, Seq<char>)>)>,
    n: nat,
) -> bool {
    let at = listed_nodes(nodes, n);
    &&& out.len() == at.len()
    &&& forall|i: int|
        0 <= i < at.len() ==> lists_node(#[trigger] out[i], nodes[at[i]])
}

/// Every node that is listed has a width and a height in range.
pub open spec fn nodes_sized(
    nodes: Seq<(Seq<char>, Seq<(Option<Seq<char>>, Seq<char>, Seq<char>)>)>,
) -> bool {
    first_sized(nodes, nodes.len())
}

/// Every node that is listed among the first `n` has a width and a height in range.
pub open spec fn first_sized(
    nodes: Seq<(Seq<char>, Seq<(Option<Seq<char>>, Seq<char>, Seq<char>)>)>,
    n: nat,
) -> bool {
    let at = listed_nodes(nodes, n);
    forall|i: int|
        0 <= i < at.len() ==> (listed_edges(nodes[#[trigger] at[i]]) matches Some(b) && b.sized())
}

proof fn lemma_listed_prefix(
    nodes: Seq<(Seq<char>, Seq<(Option<Seq<char>>, Seq<char>, Seq<char>)>)>,
    n: nat,
    m: nat,
)
    requires
        n <= m,
    ensures
        listed_nodes(nodes, n).len() <= listed_nodes(nodes, m).len() <= MAX_ELEMENTS,
        listed_nodes(nodes, n) == listed_nodes(nodes, m).take(listed_nodes(nodes, n).len() as int),
        listed_nodes(nodes, n).len() == MAX_ELEMENTS ==> listed_nodes(nodes, n) == listed_nodes(
            nodes,
            m,
        ),
    decreases m,
{
    if n < m {
        lemma_listed_prefix(nodes, n, (m - 1) as nat);
    } else if n > 0 {
        lemma_listed_prefix(nodes, (n - 1) as nat, (n - 1) as nat);
    }
}

/// Lists the elements of the nodes.
pub fn list_nodes(nodes: &Vec<XmlNode>) -> (out: Vec<ElementInfo>)
    requires
        nodes_sized(node_views(nodes@)),
    ensures
        lists(out@, node_views(nodes@), nodes@.len()),
        forall|i: int| 0 <= i < out@.len() ==> edges_fit((#[trigger] out@[i]).rect),
{
    let ghost all = node_views(nodes@);
    let mut out: Vec<ElementInfo> = Vec::new();
    let mut i: usize = 0;
    while i < nodes.len()
        invariant
            i <= nodes@.len(),
            all == node_views(nodes@),
            nodes_sized(all),
            lists(out@, all, i as nat),
            out@.len() <= MAX_ELEMENTS,
            forall|k: int| 0 <= k < out@.len() ==> edges_fit((#[trigger] out@[k]).rect),
        decreases nodes@.len() - i,
    {
        let node = &nodes[i];
        assert(all[i as int] == node@);
        let ghost before = out@;
        let ghost at = listed_nodes(all, i as nat);
        if text::same(node.tag.as_str(), "node") && out.len() < MAX_ELEMENTS {
            if let Some(b) = parse_bounds(attribute(node, "bounds").as_str()) {
                assert(listed_edges(all[i as int]) == Some(b));
                proof {
                    let now = listed_nodes(all, (i + 1) as nat);
                    lemma_listed_prefix(all, (i + 1) as nat, all.len());
                    assert(now == at.push(i as int));
                    assert(now[at.len() as int] == listed_nodes(all, all.len())[at.len() as int]);
                }
                let info = describe_node(node, &b);
                out.push(info);
                proof {
                    let now = listed_nodes(all, (i + 1) as nat);
                    assert(now == at.push(i as int));
                    assert forall|k: int| 0 <= k < now.len() implies lists_node(
                        #[trigger] out@[k],
                        all[now[k]],
                    ) by {
                        if k < at.len() {
                            assert(lists_node(before[k], all[at[k]]));
                        }
                    }
                }
            }
        }
        i = i + 1;
    }
    out
}

/// Whether every node that is listed has a width and a height in range.
pub fn can_list(nodes: &Vec<XmlNode>) -> (r: bool)
    ensures
        r == nodes_sized(node_views(nodes@)),
{
    let ghost all = node_views(nodes@);
    let mut listed: usize = 0;
    let mut i: usize = 0;
    while i < nodes.len() && listed < MAX_ELEMENTS
        invariant
            i <= nodes@.len(),
            all == node_views(nodes@),
            listed == listed_nodes(all, i as nat).len(),
            listed <= MAX_ELEMENTS,
            first_sized(all, i as nat),
        decreases nodes@.len() - i,
    {
        let node = &nodes[i];
        assert(all[i as int] == node@);
        let ghost at = listed_nodes(all, i as nat);
        let ghost now = listed_nodes(all, (i + 1) as nat);
        if text::same(node.tag.as_str(), "node") {
            if let Some(b) = parse_bounds(attribute(node, "bounds").as_str()) {
                assert(listed_edges(all[i as int]) == Some(b));
                assert(now == at.push(i as int));
                if !b.is_sized() {
                    proof {
                        lemma_listed_prefix(all, (i + 1) as nat, all.len());
                        assert(now[at.len() as int] == listed_nodes(
                            all,
                            all.len(),
                        )[at.len() as int]);
                    }
                    return false;
                }
                listed = listed + 1;
                assert forall|k: int| 0 <= k < now.len() implies (listed_edges(
                    all[#[trigger] now[k]],
                ) matches Some(b) && b.sized()) by {
                    if k < at.len() {
                        assert(at[k] == now[k]);
                    }
                }
            }
        }
        i = i + 1;
    }
    proof {
        lemma_listed_prefix(all, i as nat, all.len());
    }
    true
}

/// What becomes of a dump of the screen.
pub enum Dump {
    /// Its elements.
    Elements(Vec<ElementInfo>),
    /// An element that would be listed has a width or a height out of range.
    OutOfRange,
    /// Its elements lie too deep inside each other.
    TooDeep,
}

/// Reads the elements out of a dump of the screen.
pub fn parse_nodes(xml: &str) -> (r: RemoteResult<Dump>)
    ensures
        nesting(xml@) > MAX_NESTING ==> r matches Ok(Dump::TooDeep),
        nesting(xml@) <= MAX_NESTING ==> match xml_nodes(xml@) {
            None => r matches Err(e) && e.kind == RemoteErrorKind::Os && exists|cause: Seq<char>|
                #[trigger]
                ("parsing uiautomator XML: "@ + cause) == e.message@,
            Some(nodes) => r matches Ok(dump) && match dump {
                Dump::Elements(out) => nodes_sized(nodes) && lists(out@, nodes, nodes.len())
                    && forall|i: int|
                    0 <= i < out@.len() ==> edges_fit((#[trigger] out@[i]).rect),
                Dump::OutOfRange => !nodes_sized(nodes),
                Dump::TooDeep => false,
            },
        },
{
    if nesting_of(xml) > MAX_NESTING {
        return Ok(Dump::TooDeep);
    }
    match read_nodes(xml) {
        Ok(nodes) => {
            assert(node_views(nodes@).len() == nodes@.len());
            if can_list(&nodes) {
                Ok(Dump::Elements(list_nodes(&nodes)))
            } else {
                Ok(Dump::OutOfRange)
            }
        },
        Err(e) => {
            let cause = e.to_string();
            let m = text::join2("parsing uiautomator XML: ", cause.as_str());
            assert(m@ == "parsing uiautomator XML: "@ + cause@);
            Err(os_error(m.as_str()))
        },
    }
}

/// Keeps the elements that the query accepts, in their order.
pub fn find_elements(els: Vec<ElementInfo>, query: &ElementQuery) -> (hits: Vec<ElementInfo>)
    ensures
        hits@ == els@.filter(|e: ElementInfo| query.accepts(e)),
{
    let ghost keep = |e: ElementInfo| query.accepts(e);
    let ghost all = els@;
    let mut hits: Vec<ElementInfo> = Vec::new();
    assert(all.take(0).filter(keep) =~= hits@) by {
        reveal(Seq::filter);
    }
    for e in it: els
        invariant
            it.seq() == all,
            keep == (|e: ElementInfo| query.accepts(e)),
            hits@ == all.take(it.index()).filter(keep),
    {
        proof {
            reveal(Seq::filter);
            assert(all.take(it.index() + 1).drop_last() =~= all.take(it.index()));
            assert(all.take(it.index() + 1).last() == e);
        }
        if query.matches(&e) {
            hits.push(e);
        }
    }
    assert(all.take(all.len() as int) =~= all);
    hits
}

/// How the tree of the screen is dumped to a file.
pub fn dump(path: &str) -> (r: Invocation)
    ensures
        r.calls(
            "sh"@,
            seq!["-c"@, "uiautomator dump "@ + path@ + " >/dev/null 2>&1"@],
        ),
{
    run_command(text::join3("uiautomator dump ", path, " >/dev/null 2>&1").as_str(), Vec::new())
}

proof fn lemma_signed_plain(v: i32)
    ensures
        !number::signed(v as int).contains(','),
        text::trim(number::signed(v as int)) == number::signed(v as int),
{
    let n = if v < 0 {
        -(v as int)
    } else {
        v as int
    };
    number::law_decimal_denotes(n as nat);
    let s = number::signed(v as int);
    assert forall|i: int| 0 <= i < s.len() implies s[i] != ',' && !text::is_space(s[i]) by {
        if v < 0 {
            if i > 0 {
                assert(number::is_digit(number::decimal(n as nat)[i - 1]));
            }
        } else {
            assert(number::is_digit(number::decimal(n as nat)[i]));
        }
    }
    assert(s.len() > 0);
    assert(!text::is_space(s[0]));
    assert(!text::is_space(s[s.len() - 1]));
}

/// The id that is written for an element holds its edges, so that it can be tapped
/// and captured by its id alone.
pub proof fn law_edges_id_round_trip(b: Bounds)
    ensures
        id_edges(edges_id(b)) == Some(b),
{
    reveal_strlit(",");
    let edges = seq![b.left, b.top, b.right, b.bottom];
    let parts = edges.map_values(|v: i32| number::signed(v as int));
    assert(","@ =~= seq![',']);
    assert forall|i: int| 0 <= i < parts.len() implies !(#[trigger] parts[i]).contains(',') by {
        lemma_signed_plain(edges[i]);
    }
    text::law_split_undoes_join(parts, ',');
    assert(text::joined(parts, seq![',']) =~= edges_id(b)) by {
        reveal_with_fuel(text::joined, 4);
        assert(parts.drop_last().last() == parts[2]);
        assert(parts.drop_last().drop_last().last() == parts[1]);
        assert(parts.drop_last().drop_last().drop_last()[0] == parts[0]);
    }
    assert(readable(parts) =~= edges) by {
        lemma_readable(edges, 4);
        assert(parts.take(4) =~= parts);
        assert(edges.take(4) =~= edges);
    }
}

proof fn lemma_readable(edges: Seq<i32>, n: nat)
    requires
        n <= edges.len(),
    ensures
        readable(edges.map_values(|v: i32| number::signed(v as int)).take(n as int)) == edges.take(
            n as int,
        ),
    decreases n,
{
    let parts = edges.map_values(|v: i32| number::signed(v as int));
    if n > 0 {
        lemma_readable(edges, (n - 1) as nat);
        assert(parts.take(n as int).drop_last() =~= parts.take(n - 1));
        lemma_signed_plain(edges[n - 1]);
        number::law_signed_round_trip(edges[n - 1]);
        assert(edges.take(n as int) =~= edges.take(n - 1).push(edges[n - 1]));
    } else {
        assert(edges.take(0) =~= Seq::<i32>::empty());
        assert(parts.take(0) =~= Seq::<Seq<char>>::empty());
    }
}

/// The edges as a dump prints them: `[left,top][right,bottom]`.
pub open spec fn bracketed(b: Bounds) -> Seq<char> {
    seq!['['] + number::signed(b.left as int) + seq![','] + number::signed(b.top as int) + seq![
        ']',
        '[',
    ] + number::signed(b.right as int) + seq![','] + number::signed(b.bottom as int) + seq![']']
}

proof fn lemma_signed_characters(v: i32)
    ensures
        number::signed(v as int).len() > 0,
        forall|i: int|
            0 <= i < number::signed(v as int).len() ==> {
                let c = #[trigger] number::signed(v as int)[i];
                c != ',' && c != '[' && c != ']'
            },
{
    let n = if v < 0 {
        -(v as int)
    } else {
        v as int
    };
    number::law_decimal_denotes(n as nat);
    let s = number::signed(v as int);
    assert forall|i: int| 0 <= i < s.len() implies {
        let c = #[trigger] s[i];
        c != ',' && c != '[' && c != ']'
    } by {
        if v < 0 {
            if i > 0 {
                assert(number::is_digit(number::decimal(n as nat)[i - 1]));
            }
        } else {
            assert(number::is_digit(number::decimal(n as nat)[i]));
        }
    }
}

proof fn lemma_pair(a: i32, b: i32)
    ensures
        ({
            let s = number::signed(a as int) + seq![','] + number::signed(b as int);
            &&& text::split_once(s, ',') == Some(
                (number::signed(a as int), number::signed(b as int)),
            )
            &&& coordinate(number::signed(a as int)) == Some(a as int)
            &&& coordinate(number::signed(b as int)) == Some(b as int)
        }),
{
    let x = number::signed(a as int);
    let y = number::signed(b as int);
    let s = x + seq![','] + y;
    lemma_signed_plain(a);
    lemma_signed_plain(b);
    lemma_signed_characters(a);
    number::law_signed_round_trip(a);
    number::law_signed_round_trip(b);
    assert(s[x.len() as int] == ',');
    text::law_split_once_is_at_the_first(s, ',');
    let p = text::split_once(s, ',')->0;
    assert(p.0.len() == x.len()) by {
        assert(s[p.0.len() as int] == ',') by {
            assert((p.0 + seq![','] + p.1)[p.0.len() as int] == ',');
        }
        if p.0.len() < x.len() {
            assert(s[p.0.len() as int] == x[p.0.len() as int]);
        }
        if x.len() < p.0.len() {
            assert(p.0[x.len() as int] == (p.0 + seq![','] + p.1)[x.len() as int]);
            assert(p.0.contains(','));
        }
    }
    assert(p.0 =~= x) by {
        assert forall|i: int| 0 <= i < x.len() implies p.0[i] == x[i] by {
            assert((p.0 + seq![','] + p.1)[i] == p.0[i]);
        }
    }
    assert(p.1 =~= y) by {
        assert forall|i: int| 0 <= i < y.len() implies p.1[i] == y[i] by {
            assert((p.0 + seq![','] + p.1)[x.len() + 1 + i] == p.1[i]);
        }
    }
}

proof fn lemma_bracketed(b: Bounds)
    ensures
        printed_bounds(bracketed(b)) == Some(b),
{
    reveal_strlit("][");
    let s = bracketed(b);
    let tl = number::signed(b.left as int) + seq![','] + number::signed(b.top as int);
    let br = number::signed(b.right as int) + seq![','] + number::signed(b.bottom as int);
    let sep = "]["@;
    assert(sep =~= seq![']', '[']);
    lemma_signed_characters(b.left);
    lemma_signed_characters(b.top);
    lemma_signed_characters(b.right);
    lemma_signed_characters(b.bottom);
    lemma_pair(b.left, b.top);
    lemma_pair(b.right, b.bottom);
    let inner = s.subrange(1, s.len() - 1);
    assert(inner =~= tl + sep + br);
    assert(text::stands_at(inner, sep, tl.len() as int)) by {
        assert(inner.subrange(tl.len() as int, tl.len() as int + sep.len()) =~= sep);
    }
    assert forall|i: int| 0 <= i < tl.len() implies tl[i] != ']' by {
        if i < number::signed(b.left as int).len() {
            assert(tl[i] == number::signed(b.left as int)[i]);
        } else if i > number::signed(b.left as int).len() {
            assert(tl[i] == number::signed(b.top as int)[i - number::signed(
                b.left as int,
            ).len() - 1]);
        }
    }
    lemma_first_of_inner(inner, sep, tl.len() as int, 0);
    assert(inner.take(tl.len() as int) =~= tl);
    assert(inner.skip(tl.len() as int + 2) =~= br);
    assert(s[0] == '[');
    assert(s.last() == ']');
    assert(s.skip(1).len() > 0);
}

proof fn lemma_first_of_inner(s: Seq<char>, sep: Seq<char>, at: int, from: int)
    requires
        0 <= from <= at < s.len(),
        sep.len() > 0,
        text::stands_at(s, sep, at),
        forall|i: int| 0 <= i < at ==> s[i] != sep[0],
    ensures
        text::first_place(s, sep, from) == at,
    decreases at - from,
{
    if from < at {
        if text::stands_at(s, sep, from) {
            assert(s.subrange(from, from + sep.len())[0] == s[from]);
        }
        lemma_first_of_inner(s, sep, at, from + 1);
    }
}

/// The edges that a dump prints are read in the order left, top, right, bottom.
pub proof fn law_printed_bounds_are_read(s: &str, b: Bounds, r: Option<Bounds>)
    requires
        parse_bounds.ensures((s,), r),
        s@ == bracketed(b),
    ensures
        r == Some(b),
{
    lemma_bracketed(b);
}

/// Edges are read only from a text in brackets with a `][` in it.
pub proof fn law_other_bounds_are_refused(s: &str, r: Option<Bounds>)
    requires
        parse_bounds.ensures((s,), r),
        s@.len() < 2 || s@[0] != '[' || s@.last() != ']' || !text::occurs(s@, seq![']', '[']),
    ensures
        r is None,
{
    reveal_strlit("][");
    let sep = "]["@;
    assert(sep =~= seq![']', '[']);
    if r is Some {
        let inner = s@.subrange(1, s@.len() - 1);
        text::law_split_once_at_is_at_the_first(inner, sep);
        let p = text::split_once_at(inner, sep)->0;
        let at = p.0.len() as int;
        assert(text::stands_at(s@, seq![']', '['], at + 1)) by {
            assert((p.0 + sep + p.1)[at] == ']');
            assert((p.0 + sep + p.1)[at + 1] == '[');
            assert(s@.subrange(at + 1, at + 3) =~= seq![']', '[']);
        }
    }
}

/// Whether an attribute of that name, in no namespace, has the value, and none before
/// it has that name; or the value is empty and there is none.
pub open spec fn attribute_says(node: XmlNode, name: Seq<char>, value: Seq<char>) -> bool {
    ||| exists|i: int|
        0 <= i < node.attributes@.len() && is_plain(#[trigger] node.attributes@[i], name)
            && node.attributes@[i].value@ == value && forall|k: int|
            0 <= k < i ==> !is_plain(#[trigger] node.attributes@[k], name)
    ||| value.len() == 0 && forall|k: int|
        0 <= k < node.attributes@.len() ==> !is_plain(#[trigger] node.attributes@[k], name)
}

/// Whether an attribute has that name and no namespace.
pub open spec fn is_plain(a: XmlAttribute, name: Seq<char>) -> bool {
    a.namespace is None && a.name@ == name
}

proof fn lemma_attribute(node: XmlNode, name: Seq<char>, value: Seq<char>, from: int)
    requires
        0 <= from <= node.attributes@.len(),
        attribute_says(node, name, value),
        forall|k: int| 0 <= k < from ==> !is_plain(#[trigger] node.attributes@[k], name),
    ensures
        attribute_of(node@.1.skip(from), name) == value,
    decreases node.attributes@.len() - from,
{
    let rest = node@.1.skip(from);
    if from < node.attributes@.len() {
        let a = node.attributes@[from];
        assert(rest[0] == a@);
        if !is_plain(a, name) {
            assert(rest.skip(1) =~= node@.1.skip(from + 1));
            lemma_attribute(node, name, value, from + 1);
        }
    } else {
        assert(rest.len() == 0);
        assert(value =~= Seq::<char>::empty());
    }
}

proof fn lemma_attribute_says(node: XmlNode, name: Seq<char>, value: Seq<char>)
    ensures
        attribute_says(node, name, value) ==> attribute_of(node@.1, name) == value,
{
    if attribute_says(node, name, value) {
        lemma_attribute(node, name, value, 0);
        assert(node@.1.skip(0) =~= node@.1);
    }
}

proof fn lemma_says_attribute(node: XmlNode, name: Seq<char>, from: int)
    requires
        0 <= from <= node.attributes@.len(),
        forall|k: int| 0 <= k < from ==> !is_plain(#[trigger] node.attributes@[k], name),
    ensures
        attribute_says(node, name, attribute_of(node@.1.skip(from), name)),
    decreases node.attributes@.len() - from,
{
    let rest = node@.1.skip(from);
    if from < node.attributes@.len() {
        let a = node.attributes@[from];
        assert(rest[0] == a@);
        if !is_plain(a, name) {
            assert(rest.skip(1) =~= node@.1.skip(from + 1));
            lemma_says_attribute(node, name, from + 1);
        }
    } else {
        assert(rest.len() == 0);
    }
}

proof fn lemma_says(node: XmlNode, name: Seq<char>)
    ensures
        attribute_says(node, name, attribute_of(node@.1, name)),
{
    lemma_says_attribute(node, name, 0);
    assert(node@.1.skip(0) =~= node@.1);
}

/// Whether a text that an element has is an attribute of its node: the value, unless
/// that is empty.
pub open spec fn tells(shown_text: Option<String>, value: Seq<char>) -> bool {
    &&& value.len() == 0 ==> shown_text is None
    &&& value.len() > 0 ==> (shown_text matches Some(t) && t@ == value)
}

/// Whether an element is that of a node with those edges: it is called by the
/// description, found by the resource, has the last part of the class for its type,
/// the text or else the description for its value, and can be acted on if both
/// `clickable` and `enabled` are `true`.
pub open spec fn stands_for(info: ElementInfo, node: XmlNode, b: Bounds) -> bool {
    &&& node.tag@ == "node"@
    &&& info.id.0@ == number::signed(b.left as int) + ","@ + number::signed(b.top as int) + ","@
        + number::signed(b.right as int) + ","@ + number::signed(b.bottom as int)
    &&& info.rect.x == b.left && info.rect.y == b.top && info.rect.width == b.right - b.left
        && info.rect.height == b.bottom - b.top
    &&& forall|v: Seq<char>| #[trigger]
        attribute_says(node, "content-desc"@, v) ==> tells(info.name, v)
    &&& forall|v: Seq<char>| #[trigger]
        attribute_says(node, "resource-id"@, v) ==> tells(info.automation_id, v)
    &&& forall|v: Seq<char>| #[trigger]
        attribute_says(node, "text"@, v) && v.len() > 0 ==> tells(info.value, v)
    &&& forall|v: Seq<char>| #[trigger]
        attribute_says(node, "content-desc"@, v) && attribute_says(node, "text"@, Seq::empty())
            ==> tells(info.value, v)
    &&& forall|v: Seq<char>| #[trigger]
        attribute_says(node, "class"@, v) ==> !info.control_type@.contains('.') && (v
            == info.control_type@ || text::finishes(v, seq!['.'] + info.control_type@))
    &&& info.actionable <==> attribute_says(node, "clickable"@, "true"@) && attribute_says(
        node,
        "enabled"@,
        "true"@,
    )
}

/// Whether an element is that of the node, whatever its edges.
pub open spec fn is_element_of(info: ElementInfo, node: XmlNode) -> bool {
    exists|b: Bounds| stands_for(info, node, b)
}

/// Whether the elements are those of the nodes at increasing positions.
pub open spec fn come_from(out: Seq<ElementInfo>, nodes: Seq<XmlNode>, at: Seq<int>) -> bool {
    &&& at.len() == out.len()
    &&& forall|i: int, k: int| 0 <= i < k < at.len() ==> at[i] < at[k]
    &&& forall|i: int| 0 <= i < at.len() ==> 0 <= #[trigger] at[i] < nodes.len()
    &&& forall|i: int| 0 <= i < at.len() ==> is_element_of(out[i], nodes[#[trigger] at[i]])
    &&& forall|i: int, b: Bounds|
        0 <= i < at.len() && attribute_says(nodes[at[i]], "bounds"@, #[trigger] bracketed(b))
            ==> #[trigger] stands_for(out[i], nodes[at[i]], b)
}

proof fn lemma_listed(
    nodes: Seq<(Seq<char>, Seq<(Option<Seq<char>>, Seq<char>, Seq<char>)>)>,
    n: nat,
)
    requires
        n <= nodes.len(),
    ensures
        ({
            let at = listed_nodes(nodes, n);
            &&& at.len() <= n
            &&& forall|i: int, k: int| 0 <= i < k < at.len() ==> at[i] < at[k]
            &&& forall|i: int| 0 <= i < at.len() ==> 0 <= #[trigger] at[i] < n
            &&& forall|i: int|
                0 <= i < n && at.len() < MAX_ELEMENTS && listed_edges(#[trigger] nodes[i]) is Some
                    ==> at.contains(i)
        }),
    decreases n,
{
    if n > 0 {
        lemma_listed(nodes, (n - 1) as nat);
        let before = listed_nodes(nodes, (n - 1) as nat);
        let at = listed_nodes(nodes, n);
        assert forall|i: int|
            0 <= i < n && at.len() < MAX_ELEMENTS && listed_edges(
                #[trigger] nodes[i],
            ) is Some implies at.contains(i) by {
            if i < n - 1 {
                let k = choose|k: int| 0 <= k < before.len() && before[k] == i;
                assert(at[k] == i);
            } else {
                assert(at[before.len() as int] == i);
            }
        }
    }
}

proof fn lemma_stands_for(info: ElementInfo, node: XmlNode, b: Bounds)
    requires
        lists_node(info, node@),
        listed_edges(node@) == Some(b),
        b.sized(),
    ensures
        stands_for(info, node, b),
{
    assert forall|v: Seq<char>| #[trigger] attribute_says(node, "content-desc"@, v) implies tells(
        info.name,
        v,
    ) by {
        lemma_attribute_says(node, "content-desc"@, v);
    }
    assert forall|v: Seq<char>| #[trigger] attribute_says(node, "resource-id"@, v) implies tells(
        info.automation_id,
        v,
    ) by {
        lemma_attribute_says(node, "resource-id"@, v);
    }
    assert forall|v: Seq<char>| #[trigger]
        attribute_says(node, "text"@, v) && v.len() > 0 implies tells(info.value, v) by {
        lemma_attribute_says(node, "text"@, v);
    }
    assert forall|v: Seq<char>| #[trigger]
        attribute_says(node, "content-desc"@, v) && attribute_says(
            node,
            "text"@,
            Seq::empty(),
        ) implies tells(info.value, v) by {
        lemma_attribute_says(node, "content-desc"@, v);
        lemma_attribute_says(node, "text"@, Seq::empty());
    }
    assert forall|v: Seq<char>| #[trigger] attribute_says(node, "class"@, v) implies {
        &&& !info.control_type@.contains('.')
        &&& v == info.control_type@ || text::finishes(v, seq!['.'] + info.control_type@)
    } by {
        lemma_attribute_says(node, "class"@, v);
        lemma_after_last(v, '.');
    }
    lemma_attribute_says(node, "clickable"@, "true"@);
    lemma_attribute_says(node, "enabled"@, "true"@);
    lemma_says(node, "clickable"@);
    lemma_says(node, "enabled"@);
}

proof fn lemma_after_last(s: Seq<char>, c: char)
    ensures
        !text::after_last(s, c).contains(c),
        s == text::after_last(s, c) || text::finishes(s, seq![c] + text::after_last(s, c)),
    decreases s.len(),
{
    let last = text::after_last(s, c);
    text::lemma_split_nonempty(s, c);
    if s.len() > 0 {
        let front = s.drop_last();
        text::lemma_split_nonempty(front, c);
        lemma_after_last(front, c);
        let before = text::after_last(front, c);
        if s.last() == c {
            assert(last =~= Seq::<char>::empty());
            assert(s.skip(s.len() - 1) =~= seq![c] + last);
        } else {
            assert(last =~= before.push(s.last()));
            if last.contains(c) {
                let k = choose|k: int| 0 <= k < last.len() && last[k] == c;
                assert(k < before.len());
                assert(before[k] == c);
            }
            if front == before {
                assert(s =~= last);
            } else {
                let tail = seq![c] + before;
                assert(front.skip(front.len() - tail.len()) =~= tail);
                assert(seq![c] + last =~= tail.push(s.last()));
                assert(s.skip(s.len() - tail.len() - 1) =~= tail.push(s.last())) by {
                    assert(s =~= front.push(s.last()));
                    assert forall|i: int| 0 <= i < tail.len() implies s[front.len() - tail.len()
                        + i] == tail[i] by {
                        assert(front.skip(front.len() - tail.len())[i] == front[front.len()
                            - tail.len() + i]);
                    }
                }
            }
        }
    }
}

/// The elements are listed in the order of their nodes, each by what the attributes
/// of its node say. If there is room for more, every node whose edges are printed is
/// among them.
pub proof fn law_elements_come_from_nodes(nodes: Vec<XmlNode>, out: Vec<ElementInfo>) -> (at: Seq<
    int,
>)
    requires
        nodes_sized(node_views(nodes@)),
        list_nodes.ensures((&nodes,), out),
    ensures
        come_from(out@, nodes@, at),
        out@.len() <= 250,
        out@.len() < 250 ==> forall|i: int, b: Bounds|
            0 <= i < nodes@.len() && (#[trigger] nodes@[i]).tag@ == "node"@ && attribute_says(
                nodes@[i],
                "bounds"@,
                #[trigger] bracketed(b),
            ) ==> at.contains(i),
{
    let all = node_views(nodes@);
    let at = listed_nodes(all, nodes@.len());
    lemma_listed(all, nodes@.len());
    lemma_listed_prefix(all, nodes@.len(), nodes@.len());
    assert forall|i: int| 0 <= i < at.len() implies stands_for(
        out@[i],
        nodes@[#[trigger] at[i]],
        listed_edges(all[at[i]])->0,
    ) by {
        assert(lists_node(out@[i], all[at[i]]));
        assert(all[at[i]] == nodes@[at[i]]@);
        lemma_stands_for(out@[i], nodes@[at[i]], listed_edges(all[at[i]])->0);
    }
    assert forall|i: int, b: Bounds|
        0 <= i < at.len() && attribute_says(
            nodes@[at[i]],
            "bounds"@,
            #[trigger] bracketed(b),
        ) implies #[trigger] stands_for(out@[i], nodes@[at[i]], b) by {
        lemma_attribute_says(nodes@[at[i]], "bounds"@, bracketed(b));
        lemma_bracketed(b);
        assert(lists_node(out@[i], all[at[i]]));
        assert(all[at[i]] == nodes@[at[i]]@);
    }
    assert forall|i: int, b: Bounds|
        0 <= i < nodes@.len() && (#[trigger] nodes@[i]).tag@ == "node"@ && attribute_says(
            nodes@[i],
            "bounds"@,
            #[trigger] bracketed(b),
        ) && out@.len() < 250 implies at.contains(i) by {
        lemma_attribute_says(nodes@[i], "bounds"@, bracketed(b));
        lemma_bracketed(b);
        assert(all[i] == nodes@[i]@);
        assert(listed_edges(all[i]) is Some);
    }
    at
}

/// A search gives back exactly the elements that the query accepts, each as often as
/// it was there.
pub proof fn law_search_keeps_what_is_accepted(
    els: Vec<ElementInfo>,
    query: &ElementQuery,
    hits: Vec<ElementInfo>,
)
    requires
        find_elements.ensures((els, query), hits),
    ensures
        hits@.len() <= els@.len(),
        forall|e: ElementInfo| #[trigger]
            hits@.contains(e) <==> els@.contains(e) && query.accepts(e),
        (forall|i: int| 0 <= i < els@.len() ==> query.accepts(#[trigger] els@[i])) ==> hits@
            == els@,
{
    let keep = |e: ElementInfo| query.accepts(e);
    els@.lemma_filter_len(keep);
    assert forall|e: ElementInfo| #[trigger] hits@.contains(e) <==> els@.contains(e)
        && query.accepts(e) by {
        if hits@.contains(e) {
            let i = choose|i: int| 0 <= i < hits@.len() && hits@[i] == e;
            els@.lemma_filter_pred(keep, i);
            els@.lemma_filter_contains_rev(keep, e);
        }
        if els@.contains(e) && query.accepts(e) {
            let i = choose|i: int| 0 <= i < els@.len() && els@[i] == e;
            els@.lemma_filter_contains(keep, i);
        }
    }
    if forall|i: int| 0 <= i < els@.len() ==> query.accepts(#[trigger] els@[i]) {
        lemma_all_kept(els@, keep);
    }
}

proof fn lemma_all_kept(els: Seq<ElementInfo>, keep: spec_fn(ElementInfo) -> bool)
    requires
        forall|i: int| 0 <= i < els.len() ==> keep(#[trigger] els[i]),
    ensures
        els.filter(keep) == els,
    decreases els.len(),
{
    reveal(Seq::filter);
    if els.len() > 0 {
        lemma_all_kept(els.drop_last(), keep);
    }
}

} // verus!
