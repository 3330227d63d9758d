//! File names and extensions of slash-separated paths.

use vstd::prelude::*;

use crate::text;

verus! {

/// Whether a piece between slashes names anything.
pub open spec fn is_component(piece: Seq<char>) -> bool {
    piece.len() > 0 && piece != "."@
}

/// The last piece of `pieces` that names anything.
pub open spec fn last_component(pieces: Seq<Seq<char>>) -> Option<Seq<char>>
    decreases pieces.len(),
{
    if pieces.len() == 0 {
        None
    } else if is_component(pieces.last()) {
        Some(pieces.last())
    } else {
        last_component(pieces.drop_last())
    }
}

/// The final name of a path: none for the root, the current directory, and a
/// path that ends in `..`.
pub open spec fn file_name(path: Seq<char>) -> Option<Seq<char>> {
    match last_component(text::split(path, '/')) {
        Some(name) => if name == ".."@ {
            None
        } else {
            Some(name)
        },
        None => None,
    }
}

/// The position of the last `c` before `end`, or minus one.
pub open spec fn last_before(s: Seq<char>, c: char, end: int) -> int
    decreases end,
{
    if end <= 0 {
        -1
    } else if s[end - 1] == c {
        end - 1
    } else {
        last_before(s, c, end - 1)
    }
}

/// What follows the last dot of the final name, unless there is no dot or only
/// the one that the name begins with.
pub open spec fn extension(path: Seq<char>) -> Option<Seq<char>> {
    match file_name(path) {
        Some(name) => {
            let dot = last_before(name, '.', name.len() as int);
            if dot > 0 {
                Some(name.skip(dot + 1))
            } else {
                None
            }
        },
        None => None,
    }
}

/// The final name of a path up to its extension.
pub open spec fn file_stem(path: Seq<char>) -> Option<Seq<char>> {
    match file_name(path) {
        Some(name) => {
            let dot = last_before(name, '.', name.len() as int);
            Some(
                if dot > 0 {
                    name.take(dot)
                } else {
                    name
                },
            )
        },
        None => None,
    }
}

/// The final name of a path.
pub fn file_name_of(path: &str) -> (r: Option<Vec<char>>)
    ensures
        match r {
            Some(name) => file_name(path@) == Some(name@),
            None => file_name(path@) is None,
        },
{
    let pieces = text::split_on(&text::chars_of(path), '/');
    let ghost all = text::views(pieces@);
    let dot = text::chars_of(".");
    let up = text::chars_of("..");
    let mut i: usize = pieces.len();
    assert(all.take(i as int) =~= all);
    while i > 0
        invariant
            i <= pieces@.len(),
            all == text::views(pieces@),
            all == text::split(path@, '/'),
            dot@ == "."@,
            up@ == ".."@,
            last_component(all) == last_component(all.take(i as int)),
        decreases i,
    {
        assert(all.take(i as int).last() == pieces@[i - 1]@);
        assert(all.take(i as int).drop_last() =~= all.take(i - 1));
        if pieces[i - 1].len() > 0 && !text::same_chars(&pieces[i - 1], &dot) {
            if text::same_chars(&pieces[i - 1], &up) {
                return None;
            }
            let name = text::slice_chars(&pieces[i - 1], 0, pieces[i - 1].len());
            assert(name@ =~= pieces@[i - 1]@);
            return Some(name);
        }
        i = i - 1;
    }
    None
}

/// The position after the last dot of a name, or zero.
fn after_dot(name: &Vec<char>) -> (i: usize)
    ensures
        i == last_before(name@, '.', name@.len() as int) + 1,
        i <= name@.len(),
{
    let mut i: usize = name.len();
    while i > 0 && name[i - 1] != '.'
        invariant
            i <= name@.len(),
            last_before(name@, '.', name@.len() as int) == last_before(name@, '.', i as int),
        decreases i,
    {
        i = i - 1;
    }
    i
}

/// The extension of a path.
pub fn extension_of(path: &str) -> (r: Option<Vec<char>>)
    ensures
        match r {
            Some(ext) => extension(path@) == Some(ext@),
            None => extension(path@) is None,
        },
{
    match file_name_of(path) {
        Some(name) => {
            let i: usize = after_dot(&name);
            if i > 1 {
                let ext = text::slice_chars(&name, i, name.len());
                assert(ext@ =~= name@.skip(i as int));
                Some(ext)
            } else {
                None
            }
        },
        None => None,
    }
}

/// The final name of a path up to its extension.
pub fn file_stem_of(path: &str) -> (r: Option<Vec<char>>)
    ensures
        match r {
            Some(stem) => file_stem(path@) == Some(stem@),
            None => file_stem(path@) is None,
        },
{
    match file_name_of(path) {
        Some(name) => {
            let i: usize = after_dot(&name);
            if i > 1 {
                let stem = text::slice_chars(&name, 0, i - 1);
                assert(stem@ =~= name@.take(i - 1));
                Some(stem)
            } else {
                Some(name)
            }
        },
        None => None,
    }
}

/// The final name of a path is what follows its last slash, and a slash or a dot
/// directory behind it changes nothing.
pub proof fn law_file_name_follows_last_slash(
    dir: &str,
    name: &str,
    path: &str,
    slashed: &str,
    dotted: &str,
    r: Option<Vec<char>>,
    s: Option<Vec<char>>,
    d: Option<Vec<char>>,
    alone: Option<Vec<char>>,
)
    requires
        !name@.contains('/'),
        name@.len() > 0,
        name@ != "."@,
        path@ == dir@.push('/') + name@,
        slashed@ == path@.push('/'),
        dotted@ == path@ + seq!['/', '.'],
        file_name_of.ensures((path,), r),
        file_name_of.ensures((slashed,), s),
        file_name_of.ensures((dotted,), d),
        file_name_of.ensures((name,), alone),
    ensures
        name@ != ".."@ ==> (r matches Some(n) && n@ == name@),
        name@ != ".."@ ==> (s matches Some(n) && n@ == name@),
        name@ != ".."@ ==> (d matches Some(n) && n@ == name@),
        name@ != ".."@ ==> (alone matches Some(n) && n@ == name@),
        name@ == ".."@ ==> r is None && s is None && d is None && alone is None,
{
    reveal_strlit(".");
    let front = dir@.push('/');
    text::lemma_split_grows(front, name@, '/');
    assert(front.drop_last() =~= dir@);
    assert(Seq::<char>::empty() + name@ =~= name@);
    let pieces = text::split(path@, '/');
    assert(pieces.last() == name@);
    assert(slashed@.drop_last() =~= path@);
    let more = text::split(slashed@, '/');
    assert(more.drop_last() =~= pieces);
    assert(!is_component(more.last()));
    assert(!seq!['.'].contains('/'));
    text::lemma_split_grows(slashed@, seq!['.'], '/');
    assert(dotted@ =~= slashed@ + seq!['.']);
    let dots = text::split(dotted@, '/');
    assert(dots.last() =~= seq!['.']);
    assert("."@ =~= seq!['.']);
    assert(dots.drop_last() =~= pieces);
    text::lemma_split_grows(Seq::empty(), name@, '/');
    assert(Seq::<char>::empty() + name@ =~= name@);
    assert(text::split(name@, '/').last() == name@);
    assert(last_component(pieces) == Some(name@));
    assert(last_component(more) == Some(name@));
    assert(last_component(dots) == Some(name@));
}

/// Neither the empty path nor one of slashes alone has a final name.
pub proof fn law_root_has_no_name(path: &str, r: Option<Vec<char>>)
    requires
        forall|i: int| 0 <= i < path@.len() ==> #[trigger] path@[i] == '/',
        file_name_of.ensures((path,), r),
    ensures
        r is None,
{
    lemma_only_slashes(path@);
}

proof fn lemma_only_slashes(s: Seq<char>)
    requires
        forall|i: int| 0 <= i < s.len() ==> #[trigger] s[i] == '/',
    ensures
        last_component(text::split(s, '/')) is None,
    decreases s.len(),
{
    let pieces = text::split(s, '/');
    assert(last_component(Seq::empty()) is None);
    if s.len() > 0 {
        lemma_only_slashes(s.drop_last());
        assert(s[s.len() - 1] == '/');
        assert(pieces.drop_last() =~= text::split(s.drop_last(), '/'));
    } else {
        assert(pieces.drop_last() =~= Seq::empty());
    }
    assert(!is_component(pieces.last()));
}

proof fn lemma_last_before(s: Seq<char>, c: char, end: int)
    requires
        0 <= end <= s.len(),
    ensures
        -1 <= last_before(s, c, end) < end,
        last_before(s, c, end) >= 0 ==> s[last_before(s, c, end)] == c,
        forall|k: int| last_before(s, c, end) < k < end ==> #[trigger] s[k] != c,
    decreases end,
{
    if end > 0 && s[end - 1] != c {
        lemma_last_before(s, c, end - 1);
    }
}

/// The stem, a dot and the extension make up the final name; the extension holds no
/// dot, and the stem is not empty. Without an extension the stem is the whole name,
/// which then holds no dot but perhaps as its first character.
pub proof fn law_stem_and_extension_make_the_name(
    path: &str,
    name: Option<Vec<char>>,
    stem: Option<Vec<char>>,
    ext: Option<Vec<char>>,
)
    requires
        file_name_of.ensures((path,), name),
        file_stem_of.ensures((path,), stem),
        extension_of.ensures((path,), ext),
    ensures
        name is None ==> stem is None && ext is None,
        name is Some ==> stem is Some,
        name matches Some(n) ==> (ext matches Some(e) ==> stem->0@.len() > 0 && n@ == stem->0@
            + seq!['.'] + e@ && !e@.contains('.')),
        name matches Some(n) ==> (ext is None ==> stem->0@ == n@ && forall|k: int|
            1 <= k < n@.len() ==> #[trigger] n@[k] != '.'),
{
    if let Some(n) = name {
        lemma_last_before(n@, '.', n@.len() as int);
        let dot = last_before(n@, '.', n@.len() as int);
        if dot > 0 {
            assert(n@ =~= n@.take(dot) + seq!['.'] + n@.skip(dot + 1));
            let after = n@.skip(dot + 1);
            if after.contains('.') {
                let k = choose|k: int| 0 <= k < after.len() && after[k] == '.';
                assert(n@[dot + 1 + k] == '.');
            }
        }
    }
}

} // verus!
