//! Character-level text operations, specified over `Seq<char>`.

use vstd::prelude::*;

verus! {

/// `String::push` of std appends the character at the end.
pub assume_specification[ String::push ](s: &mut String, c: char)
    ensures
        final(s)@ == old(s)@.push(c),
;

/// `==` on `str` of std is true exactly when both hold the same characters in
/// the same order.
pub assume_specification[ <str as PartialEq>::eq ](a: &str, b: &str) -> (r: bool)
    ensures
        r == (a@ == b@),
;

/// The text that a byte string stands for, with every part that is not UTF-8
/// replaced.
pub uninterp spec fn lossy_text(bytes: Seq<u8>) -> Seq<char>;

/// The text in lower case by the rules of Unicode.
pub uninterp spec fn unicode_lowercase(s: Seq<char>) -> Seq<char>;

/// `String::from_utf8_lossy` of std: valid UTF-8 is decoded, and the parts that
/// are not are replaced.
#[verifier::external_body]
pub(crate) fn lossy(bytes: &[u8]) -> (s: String)
    ensures
        s@ == lossy_text(bytes@),
        vstd::utf8::valid_utf8(bytes@) ==> s@ == vstd::utf8::decode_utf8(bytes@),
{
    String::from_utf8_lossy(bytes).into_owned()
}

/// `str::to_lowercase` of std. On ASCII text only the letters `A` to `Z` change.
#[verifier::external_body]
pub(crate) fn to_lower(s: &str) -> (r: String)
    ensures
        r@ == unicode_lowercase(s@),
        vstd::string::is_ascii(s) ==> r@ == lowercase(s@),
{
    s.to_lowercase()
}

/// Whether two strings hold the same characters.
pub fn same(a: &str, b: &str) -> (r: bool)
    ensures
        r == (a@ == b@),
{
    *a == *b
}

/// The characters of a string, in order.
pub fn chars_of(s: &str) -> (out: Vec<char>)
    ensures
        out@ == s@,
{
    let mut out: Vec<char> = Vec::new();
    for c in iter: s.chars()
        invariant
            iter.seq() == s@,
            out@ == s@.take(iter.index()),
    {
        out.push(c);
    }
    proof {
        assert(s@.take(s@.len() as int) =~= s@);
    }
    out
}

/// The string made of the given characters.
pub fn string_of(chars: &[char]) -> (out: String)
    ensures
        out@ == chars@,
{
    let mut out = String::new();
    let mut i: usize = 0;
    while i < chars.len()
        invariant
            i <= chars.len(),
            out@ == chars@.take(i as int),
        decreases chars.len() - i,
    {
        out.push(chars[i]);
        i = i + 1;
        assert(chars@.take(i as int) =~= chars@.take(i - 1).push(chars@[i - 1]));
    }
    assert(chars@.take(i as int) =~= chars@);
    out
}

/// `a` followed by `b`.
pub fn join2(a: &str, b: &str) -> (out: String)
    ensures
        out@ == a@ + b@,
{
    let mut out = a.to_owned();
    out.append(b);
    out
}

/// `a`, `b` and `c` one after the other.
pub fn join3(a: &str, b: &str, c: &str) -> (out: String)
    ensures
        out@ == a@ + b@ + c@,
{
    let mut out = a.to_owned();
    out.append(b);
    out.append(c);
    out
}

/// The views of a sequence of character vectors.
pub open spec fn views(parts: Seq<Vec<char>>) -> Seq<Seq<char>> {
    parts.map_values(|p: Vec<char>| p@)
}

/// The views of a sequence of strings.
pub open spec fn texts(parts: Seq<String>) -> Seq<Seq<char>> {
    parts.map_values(|p: String| p@)
}

/// The 25 characters with the Unicode `White_Space` property.
pub open spec fn is_space(c: char) -> bool {
    ||| '\u{9}' <= c <= '\u{d}'
    ||| c == ' '
    ||| c == '\u{85}'
    ||| c == '\u{a0}'
    ||| c == '\u{1680}'
    ||| '\u{2000}' <= c <= '\u{200a}'
    ||| c == '\u{2028}'
    ||| c == '\u{2029}'
    ||| c == '\u{202f}'
    ||| c == '\u{205f}'
    ||| c == '\u{3000}'
}

/// Whether the character is white space.
pub fn space(c: char) -> (r: bool)
    ensures
        r == is_space(c),
{
    ('\u{9}' <= c && c <= '\u{d}') || c == ' ' || c == '\u{85}' || c == '\u{a0}' || c == '\u{1680}'
        || ('\u{2000}' <= c && c <= '\u{200a}') || c == '\u{2028}' || c == '\u{2029}'
        || c == '\u{202f}' || c == '\u{205f}' || c == '\u{3000}'
}

/// `s` without its leading white space.
pub open spec fn trim_start(s: Seq<char>) -> Seq<char>
    decreases s.len(),
{
    if s.len() > 0 && is_space(s.first()) {
        trim_start(s.drop_first())
    } else {
        s
    }
}

/// `s` without its trailing white space.
pub open spec fn trim_end(s: Seq<char>) -> Seq<char>
    decreases s.len(),
{
    if s.len() > 0 && is_space(s.last()) {
        trim_end(s.drop_last())
    } else {
        s
    }
}

/// `s` without white space at either end.
pub open spec fn trim(s: Seq<char>) -> Seq<char> {
    trim_end(trim_start(s))
}

/// The part of `s` between `from` and `to`.
pub fn slice_chars(s: &[char], from: usize, to: usize) -> (out: Vec<char>)
    requires
        from <= to <= s@.len(),
    ensures
        out@ == s@.subrange(from as int, to as int),
{
    let mut out: Vec<char> = Vec::new();
    let mut i: usize = from;
    while i < to
        invariant
            from <= i <= to <= s@.len(),
            out@ == s@.subrange(from as int, i as int),
        decreases to - i,
    {
        out.push(s[i]);
        i = i + 1;
        assert(s@.subrange(from as int, i as int) =~= s@.subrange(from as int, i - 1).push(
            s@[i - 1],
        ));
    }
    out
}

/// Removes white space at both ends.
pub fn trimmed(s: &[char]) -> (out: Vec<char>)
    ensures
        out@ == trim(s@),
{
    let mut i: usize = 0;
    assert(s@.skip(0) =~= s@);
    while i < s.len() && space(s[i])
        invariant
            i <= s@.len(),
            trim_start(s@) == trim_start(s@.skip(i as int)),
        decreases s@.len() - i,
    {
        assert(s@.skip(i as int).drop_first() =~= s@.skip(i + 1));
        i = i + 1;
    }
    assert(trim_start(s@) == s@.skip(i as int));
    let mut j: usize = s.len();
    assert(s@.subrange(i as int, j as int) =~= s@.skip(i as int));
    while i < j && space(s[j - 1])
        invariant
            i <= j <= s@.len(),
            trim(s@) == trim_end(s@.subrange(i as int, j as int)),
        decreases j,
    {
        assert(s@.subrange(i as int, j as int).drop_last() =~= s@.subrange(i as int, j - 1));
        j = j - 1;
    }
    slice_chars(s, i, j)
}

/// Removes white space at the end.
pub fn end_trimmed(s: &[char]) -> (out: Vec<char>)
    ensures
        out@ == trim_end(s@),
{
    let mut j: usize = s.len();
    assert(s@.take(j as int) =~= s@);
    while j > 0 && space(s[j - 1])
        invariant
            j <= s@.len(),
            trim_end(s@) == trim_end(s@.take(j as int)),
        decreases j,
    {
        assert(s@.take(j as int).drop_last() =~= s@.take(j - 1));
        j = j - 1;
    }
    let out = slice_chars(s, 0, j);
    assert(out@ =~= s@.take(j as int));
    out
}

/// `c` in upper case if it is an ASCII letter, else `c`.
pub open spec fn upper(c: char) -> char {
    if 'a' <= c <= 'z' {
        (c as int - 32) as char
    } else {
        c
    }
}

/// `c` in lower case if it is an ASCII letter, else `c`.
pub open spec fn lower(c: char) -> char {
    if 'A' <= c <= 'Z' {
        (c as int + 32) as char
    } else {
        c
    }
}

/// ASCII upper case of one character.
pub fn upper_char(c: char) -> (r: char)
    ensures
        r == upper(c),
{
    if 'a' <= c && c <= 'z' {
        (c as u8 - 32) as char
    } else {
        c
    }
}

/// ASCII lower case of one character.
pub fn lower_char(c: char) -> (r: char)
    ensures
        r == lower(c),
{
    if 'A' <= c && c <= 'Z' {
        (c as u8 + 32) as char
    } else {
        c
    }
}

/// `s` with its ASCII letters in upper case.
pub open spec fn uppercase(s: Seq<char>) -> Seq<char> {
    s.map_values(|c: char| upper(c))
}

/// `s` with its ASCII letters in lower case.
pub open spec fn lowercase(s: Seq<char>) -> Seq<char> {
    s.map_values(|c: char| lower(c))
}

/// Upper-cases the ASCII letters.
pub fn uppercased(s: &[char]) -> (out: Vec<char>)
    ensures
        out@ == uppercase(s@),
{
    let mut out: Vec<char> = Vec::new();
    let mut i: usize = 0;
    while i < s.len()
        invariant
            i <= s@.len(),
            out@ == uppercase(s@.take(i as int)),
        decreases s@.len() - i,
    {
        out.push(upper_char(s[i]));
        i = i + 1;
        assert(uppercase(s@.take(i as int)) =~= uppercase(s@.take(i - 1)).push(upper(s@[i - 1])));
    }
    assert(s@.take(i as int) =~= s@);
    out
}

/// Lower-cases the ASCII letters.
pub fn lowercased(s: &[char]) -> (out: Vec<char>)
    ensures
        out@ == lowercase(s@),
{
    let mut out: Vec<char> = Vec::new();
    let mut i: usize = 0;
    while i < s.len()
        invariant
            i <= s@.len(),
            out@ == lowercase(s@.take(i as int)),
        decreases s@.len() - i,
    {
        out.push(lower_char(s[i]));
        i = i + 1;
        assert(lowercase(s@.take(i as int)) =~= lowercase(s@.take(i - 1)).push(lower(s@[i - 1])));
    }
    assert(s@.take(i as int) =~= s@);
    out
}

/// The pieces of `s` between the occurrences of `sep`: always at least one.
pub open spec fn split(s: Seq<char>, sep: char) -> Seq<Seq<char>>
    decreases s.len(),
{
    if s.len() == 0 {
        seq![Seq::<char>::empty()]
    } else {
        let head = split(s.drop_last(), sep);
        if s.last() == sep {
            head.push(Seq::<char>::empty())
        } else {
            head.drop_last().push(head.last().push(s.last()))
        }
    }
}

pub proof fn lemma_split_nonempty(s: Seq<char>, sep: char)
    ensures
        split(s, sep).len() > 0,
    decreases s.len(),
{
    if s.len() > 0 {
        lemma_split_nonempty(s.drop_last(), sep);
    }
}

/// Splits at every `sep`.
pub fn split_on(s: &[char], sep: char) -> (out: Vec<Vec<char>>)
    ensures
        views(out@) == split(s@, sep),
        out@.len() > 0,
{
    let mut done: Vec<Vec<char>> = Vec::new();
    let mut current: Vec<char> = Vec::new();
    let mut i: usize = 0;
    assert(views(done@).push(current@) =~= split(s@.take(0), sep));
    while i < s.len()
        invariant
            i <= s@.len(),
            views(done@).push(current@) == split(s@.take(i as int), sep),
        decreases s@.len() - i,
    {
        let c = s[i];
        let ghost before = views(done@).push(current@);
        assert(s@.take(i + 1).drop_last() =~= s@.take(i as int));
        if c == sep {
            let ghost parts = done@;
            done.push(current);
            current = Vec::new();
            assert(views(done@) =~= before);
        } else {
            let ghost last = current@;
            current.push(c);
            assert(before.drop_last() =~= views(done@));
        }
        i = i + 1;
        assert(views(done@).push(current@) =~= split(s@.take(i as int), sep));
    }
    assert(s@.take(i as int) =~= s@);
    let ghost parts = done@;
    done.push(current);
    assert(views(done@) =~= views(parts).push(current@));
    done
}

/// Whether `a` and `b` are the same but for the case of ASCII letters.
pub open spec fn same_folded(a: Seq<char>, b: Seq<char>) -> bool {
    lowercase(a) == lowercase(b)
}

/// Compares without regard to the case of ASCII letters.
pub fn same_ignoring_case(a: &str, b: &str) -> (r: bool)
    ensures
        r == same_folded(a@, b@),
{
    let left = lowercased(&chars_of(a));
    let right = lowercased(&chars_of(b));
    same_chars(&left, &right)
}

/// Whether two slices hold the same characters.
pub fn same_chars(a: &[char], b: &[char]) -> (r: bool)
    ensures
        r == (a@ == b@),
{
    if a.len() != b.len() {
        return false;
    }
    let mut i: usize = 0;
    while i < a.len()
        invariant
            i <= a@.len(),
            a@.len() == b@.len(),
            forall|k: int| 0 <= k < i ==> a@[k] == b@[k],
        decreases a@.len() - i,
    {
        if a[i] != b[i] {
            return false;
        }
        i = i + 1;
    }
    assert(a@ =~= b@);
    true
}

/// Whether `part` stands in `s` from position `at` on.
pub open spec fn stands_at(s: Seq<char>, part: Seq<char>, at: int) -> bool {
    0 <= at && at + part.len() <= s.len() && s.subrange(at, at + part.len()) == part
}

/// Whether `part` occurs in `s`.
pub open spec fn occurs(s: Seq<char>, part: Seq<char>) -> bool {
    exists|at: int| #[trigger] stands_at(s, part, at)
}

/// Whether `part` stands in `s` at the position.
pub fn found_at(s: &[char], part: &[char], at: usize) -> (r: bool)
    ensures
        r == stands_at(s@, part@, at as int),
{
    if at > s.len() || part.len() > s.len() - at {
        return false;
    }
    let size: usize = s.len();
    let mut k: usize = 0;
    while k < part.len()
        invariant
            k <= part@.len(),
            s@.len() == size,
            at + part@.len() <= s@.len(),
            forall|j: int| 0 <= j < k ==> s@[at + j] == part@[j],
        decreases part@.len() - k,
    {
        if s[at + k] != part[k] {
            assert(s@.subrange(at as int, at + part@.len())[k as int] != part@[k as int]);
            return false;
        }
        k = k + 1;
    }
    assert(s@.subrange(at as int, at + part@.len()) =~= part@);
    true
}

/// Whether `part` occurs somewhere in `s`.
pub fn contains(s: &[char], part: &[char]) -> (r: bool)
    ensures
        r == occurs(s@, part@),
{
    let mut at: usize = 0;
    while at < s.len()
        invariant
            at <= s@.len(),
            forall|k: int| 0 <= k < at ==> !#[trigger] stands_at(s@, part@, k),
        decreases s@.len() - at,
    {
        if found_at(s, part, at) {
            return true;
        }
        at = at + 1;
    }
    let r = found_at(s, part, at);
    if !r {
        assert forall|k: int| !#[trigger] stands_at(s@, part@, k) by {
            if k == at {
            }
        }
    }
    r
}

/// Whether `s` ends with `suffix`.
pub open spec fn finishes(s: Seq<char>, suffix: Seq<char>) -> bool {
    stands_at(s, suffix, s.len() - suffix.len())
}

/// Whether `s` ends with `suffix`.
pub fn ends(s: &[char], suffix: &[char]) -> (r: bool)
    ensures
        r == finishes(s@, suffix@),
{
    s.len() >= suffix.len() && found_at(s, suffix, s.len() - suffix.len())
}

/// The words of `s`: the pieces between runs of whitespace.
pub open spec fn words(s: Seq<char>) -> Seq<Seq<char>>
    decreases s.len(),
{
    if s.len() == 0 {
        Seq::empty()
    } else {
        let head = words(s.drop_last());
        if is_space(s.last()) {
            head
        } else if s.len() > 1 && !is_space(s[s.len() - 2]) {
            head.drop_last().push(head.last().push(s.last()))
        } else {
            head.push(seq![s.last()])
        }
    }
}

/// Splits into words.
pub fn words_of(s: &[char]) -> (out: Vec<Vec<char>>)
    ensures
        views(out@) == words(s@),
{
    let mut done: Vec<Vec<char>> = Vec::new();
    let mut current: Vec<char> = Vec::new();
    let mut i: usize = 0;
    assert(views(done@) =~= words(s@.take(0)));
    while i < s.len()
        invariant
            i <= s@.len(),
            (current@.len() > 0) == (i > 0 && !is_space(s@[i - 1])),
            words(s@.take(i as int)) == if current@.len() > 0 {
                views(done@).push(current@)
            } else {
                views(done@)
            },
        decreases s@.len() - i,
    {
        let c = s[i];
        let ghost now = s@.take(i + 1);
        assert(now.drop_last() =~= s@.take(i as int));
        assert(i > 0 ==> now[now.len() - 2] == s@[i - 1]);
        if space(c) {
            if current.len() > 0 {
                let ghost before = done@;
                let ghost word = current@;
                done.push(current);
                current = Vec::new();
                assert(views(done@) =~= views(before).push(word));
            }
        } else {
            let ghost word = current@;
            current.push(c);
            assert(views(done@).push(word).drop_last() =~= views(done@));
            assert(Seq::<char>::empty().push(c) =~= seq![c]);
            assert(word.len() == 0 ==> word =~= Seq::<char>::empty());
        }
        i = i + 1;
    }
    assert(s@.take(i as int) =~= s@);
    if current.len() > 0 {
        let ghost before = done@;
        let ghost word = current@;
        done.push(current);
        assert(views(done@) =~= views(before).push(word));
    }
    done
}

/// The first position from `from` on at which `part` stands in `s`, or the length
/// of `s`.
pub open spec fn first_place(s: Seq<char>, part: Seq<char>, from: int) -> int
    decreases s.len() - from,
{
    if from >= s.len() || stands_at(s, part, from) {
        from
    } else {
        first_place(s, part, from + 1)
    }
}

/// The parts of `s` before and after the first `sep`, if there is one.
pub open spec fn split_once_at(s: Seq<char>, sep: Seq<char>) -> Option<(Seq<char>, Seq<char>)> {
    let at = first_place(s, sep, 0);
    if at < s.len() {
        Some((s.take(at), s.skip(at + sep.len())))
    } else {
        None
    }
}

/// Splits at the first place where the separator stands.
pub fn split_first_at(s: &[char], sep: &[char]) -> (r: Option<(Vec<char>, Vec<char>)>)
    requires
        sep@.len() > 0,
    ensures
        match r {
            Some((a, b)) => split_once_at(s@, sep@) == Some((a@, b@)),
            None => split_once_at(s@, sep@) is None,
        },
{
    let mut i: usize = 0;
    while i < s.len()
        invariant
            i <= s@.len(),
            sep@.len() > 0,
            first_place(s@, sep@, 0) == first_place(s@, sep@, i as int),
        decreases s@.len() - i,
    {
        if found_at(s, sep, i) {
            let a = slice_chars(s, 0, i);
            let b = slice_chars(s, i + sep.len(), s.len());
            assert(a@ =~= s@.take(i as int));
            assert(b@ =~= s@.skip(i + sep@.len()));
            return Some((a, b));
        }
        i = i + 1;
    }
    None
}

/// What follows the last `c` in `s`; all of `s` if there is none.
pub open spec fn after_last(s: Seq<char>, c: char) -> Seq<char> {
    split(s, c).last()
}

/// A line without the carriage return that may end it.
pub open spec fn strip_return(line: Seq<char>) -> Seq<char> {
    if line.len() > 0 && line.last() == '\r' {
        line.drop_last()
    } else {
        line
    }
}

/// The lines of a text. A line ends with a line feed, or a carriage return and a
/// line feed; the last one may lack its end.
pub open spec fn lines(s: Seq<char>) -> Seq<Seq<char>> {
    let pieces = split(s, '\n');
    let count: nat = if pieces.last().len() == 0 {
        (pieces.len() - 1) as nat
    } else {
        pieces.len()
    };
    Seq::new(
        count,
        |i: int|
            if i < pieces.len() - 1 {
                strip_return(pieces[i])
            } else {
                pieces[i]
            },
    )
}

/// Splits a text into its lines.
pub fn lines_of(s: &str) -> (out: Vec<Vec<char>>)
    ensures
        views(out@) == lines(s@),
{
    let pieces = split_on(&chars_of(s), '\n');
    let count: usize = if pieces[pieces.len() - 1].len() == 0 {
        pieces.len() - 1
    } else {
        pieces.len()
    };
    let ghost parts = split(s@, '\n');
    let mut out: Vec<Vec<char>> = Vec::new();
    let mut i: usize = 0;
    assert(parts.last() == pieces@[pieces@.len() - 1]@);
    while i < count
        invariant
            i <= count <= pieces@.len(),
            parts == split(s@, '\n'),
            views(pieces@) == parts,
            count == lines(s@).len(),
            views(out@) == lines(s@).take(i as int),
        decreases count - i,
    {
        assert(parts[i as int] == pieces@[i as int]@);
        let len: usize = pieces[i].len();
        let ghost before = out@;
        let line = if i < pieces.len() - 1 && len > 0 && pieces[i][len - 1] == '\r' {
            slice_chars(&pieces[i], 0, len - 1)
        } else {
            slice_chars(&pieces[i], 0, len)
        };
        assert(line@ =~= lines(s@)[i as int]);
        out.push(line);
        i = i + 1;
        assert(views(out@) =~= views(before).push(line@));
        assert(lines(s@).take(i as int) =~= lines(s@).take(i - 1).push(lines(s@)[i - 1]));
    }
    assert(lines(s@).take(i as int) =~= lines(s@));
    out
}

/// The position of the first `c` in `s` from `from` on, or the length.
pub open spec fn first_from(s: Seq<char>, c: char, from: int) -> int
    decreases s.len() - from,
{
    if from >= s.len() || s[from] == c {
        from
    } else {
        first_from(s, c, from + 1)
    }
}

/// The parts of `s` before and after the first `sep`, if there is one.
pub open spec fn split_once(s: Seq<char>, sep: char) -> Option<(Seq<char>, Seq<char>)> {
    let at = first_from(s, sep, 0);
    if at < s.len() {
        Some((s.take(at), s.skip(at + 1)))
    } else {
        None
    }
}

/// Finds the first `c`; the length if there is none.
pub fn first_of(s: &[char], c: char) -> (at: usize)
    ensures
        at == first_from(s@, c, 0),
        at <= s@.len(),
        at < s@.len() ==> s@[at as int] == c,
{
    let mut i: usize = 0;
    while i < s.len() && s[i] != c
        invariant
            i <= s@.len(),
            first_from(s@, c, 0) == first_from(s@, c, i as int),
        decreases s@.len() - i,
    {
        i = i + 1;
    }
    i
}

/// Splits at the first `sep`.
pub fn split_first(s: &[char], sep: char) -> (r: Option<(Vec<char>, Vec<char>)>)
    ensures
        match r {
            Some((a, b)) => split_once(s@, sep) == Some((a@, b@)),
            None => split_once(s@, sep) is None,
        },
{
    let at: usize = first_of(s, sep);
    if at < s.len() {
        let a = slice_chars(s, 0, at);
        let b = slice_chars(s, at + 1, s.len());
        assert(a@ =~= s@.take(at as int));
        assert(b@ =~= s@.skip(at + 1));
        Some((a, b))
    } else {
        None
    }
}

/// The texts one after the other with `sep` between them.
pub open spec fn joined(parts: Seq<Seq<char>>, sep: Seq<char>) -> Seq<char>
    decreases parts.len(),
{
    if parts.len() == 0 {
        Seq::empty()
    } else if parts.len() == 1 {
        parts[0]
    } else {
        joined(parts.drop_last(), sep) + sep + parts.last()
    }
}

/// What follows the last separator of `a` grows by `b`, where `b` holds none.
/// Characters other than the separator make the last piece longer.
pub proof fn lemma_split_grows(a: Seq<char>, b: Seq<char>, sep: char)
    requires
        !b.contains(sep),
    ensures
        split(a, sep).len() > 0,
        split(a + b, sep) == split(a, sep).drop_last().push(split(a, sep).last() + b),
    decreases b.len(),
{
    lemma_split_nonempty(a, sep);
    let head = split(a, sep);
    if b.len() == 0 {
        assert(a + b =~= a);
        assert(head.last() + b =~= head.last());
        assert(head =~= head.drop_last().push(head.last() + b));
    } else {
        let rest = b.drop_last();
        assert forall|i: int| 0 <= i < rest.len() implies rest[i] != sep by {
            assert(b.contains(b[i]));
        }
        lemma_split_grows(a, rest, sep);
        assert((a + b).drop_last() =~= a + rest);
        assert(b.contains(b.last()));
        let grown = head.drop_last().push(head.last() + rest);
        assert(grown.drop_last() =~= head.drop_last());
        assert((head.last() + rest).push(b.last()) =~= head.last() + b);
    }
}

/// Texts that were joined come apart at the separator, as long as none of them
/// holds it.
pub proof fn law_split_undoes_join(parts: Seq<Seq<char>>, sep: char)
    requires
        parts.len() > 0,
        forall|i: int| 0 <= i < parts.len() ==> !(#[trigger] parts[i]).contains(sep),
    ensures
        split(joined(parts, seq![sep]), sep) == parts,
    decreases parts.len(),
{
    let last = parts.last();
    assert(!parts[parts.len() - 1].contains(sep));
    if parts.len() == 1 {
        lemma_split_grows(Seq::empty(), last, sep);
        assert(Seq::<char>::empty() + last =~= last);
        assert(split(last, sep) =~= parts);
    } else {
        let front = parts.drop_last();
        assert forall|i: int| 0 <= i < front.len() implies !(#[trigger] front[i]).contains(sep) by {
            assert(front[i] == parts[i]);
        }
        law_split_undoes_join(front, sep);
        let a = joined(front, seq![sep]) + seq![sep];
        assert(a.drop_last() =~= joined(front, seq![sep]));
        assert(split(a, sep) == front.push(Seq::empty()));
        lemma_split_grows(a, last, sep);
        assert(Seq::<char>::empty() + last =~= last);
        assert(split(a, sep).drop_last() =~= front);
        assert(front.push(last) =~= parts);
    }
}

/// Joins texts with a separator.
pub fn join(parts: &Vec<String>, sep: &str) -> (out: String)
    ensures
        out@ == joined(texts(parts@), sep@),
{
    let mut out = String::new();
    let mut i: usize = 0;
    assert(texts(parts@).take(0) =~= Seq::<Seq<char>>::empty());
    while i < parts.len()
        invariant
            i <= parts@.len(),
            out@ == joined(texts(parts@).take(i as int), sep@),
        decreases parts@.len() - i,
    {
        let ghost before = texts(parts@).take(i as int);
        let ghost now = texts(parts@).take(i + 1);
        assert(now.drop_last() =~= before);
        if i > 0 {
            out.append(sep);
        }
        out.append(parts[i].as_str());
        i = i + 1;
        assert(out@ =~= joined(now, sep@));
    }
    assert(texts(parts@).take(i as int) =~= texts(parts@));
    out
}

/// `n` spaces.
pub open spec fn spaces(n: nat) -> Seq<char> {
    Seq::new(n, |i: int| ' ')
}

/// `s` with spaces in front of it up to `width` characters.
pub open spec fn right_aligned(s: Seq<char>, width: nat) -> Seq<char> {
    if s.len() >= width {
        s
    } else {
        spaces((width - s.len()) as nat) + s
    }
}

/// `s` with spaces after it up to `width` characters.
pub open spec fn left_aligned(s: Seq<char>, width: nat) -> Seq<char> {
    if s.len() >= width {
        s
    } else {
        s + spaces((width - s.len()) as nat)
    }
}

fn push_spaces(out: &mut String, n: usize)
    ensures
        final(out)@ == old(out)@ + spaces(n as nat),
{
    let mut i: usize = 0;
    assert(old(out)@ + spaces(0) =~= old(out)@);
    while i < n
        invariant
            i <= n,
            out@ == old(out)@ + spaces(i as nat),
        decreases n - i,
    {
        out.push(' ');
        i = i + 1;
        assert(out@ =~= old(out)@ + spaces(i as nat));
    }
}

/// Pads on the left.
pub fn align_right(s: &str, width: usize) -> (out: String)
    ensures
        out@ == right_aligned(s@, width as nat),
{
    let len: usize = s.unicode_len();
    let mut out = String::new();
    if len < width {
        push_spaces(&mut out, width - len);
    }
    out.append(s);
    assert(out@ =~= right_aligned(s@, width as nat));
    out
}

/// Pads on the right.
pub fn align_left(s: &str, width: usize) -> (out: String)
    ensures
        out@ == left_aligned(s@, width as nat),
{
    let len: usize = s.unicode_len();
    let mut out = s.to_owned();
    if len < width {
        push_spaces(&mut out, width - len);
    }
    out
}

/// `s` with every `c` replaced by `by`.
pub open spec fn replaced(s: Seq<char>, c: char, by: Seq<char>) -> Seq<char>
    decreases s.len(),
{
    if s.len() == 0 {
        s
    } else if s.last() == c {
        replaced(s.drop_last(), c, by) + by
    } else {
        replaced(s.drop_last(), c, by).push(s.last())
    }
}

/// Replaces every occurrence of a character.
pub fn replace_char(s: &str, c: char, by: &str) -> (out: String)
    ensures
        out@ == replaced(s@, c, by@),
{
    let chars = chars_of(s);
    let mut out = String::new();
    let mut i: usize = 0;
    while i < chars.len()
        invariant
            i <= chars@.len(),
            chars@ == s@,
            out@ == replaced(s@.take(i as int), c, by@),
        decreases chars@.len() - i,
    {
        assert(s@.take(i + 1).drop_last() =~= s@.take(i as int));
        if chars[i] == c {
            out.append(by);
        } else {
            out.push(chars[i]);
        }
        i = i + 1;
    }
    assert(s@.take(i as int) =~= s@);
    out
}

/// Whether `a` comes no later than `b` in the order of their characters.
pub open spec fn ordered(a: Seq<char>, b: Seq<char>) -> bool
    decreases a.len(),
{
    if a.len() == 0 {
        true
    } else if b.len() == 0 {
        false
    } else if a[0] == b[0] {
        ordered(a.skip(1), b.skip(1))
    } else {
        a[0] < b[0]
    }
}

/// Compares two texts by their characters.
pub fn in_order(a: &str, b: &str) -> (r: bool)
    ensures
        r == ordered(a@, b@),
{
    let left = chars_of(a);
    let right = chars_of(b);
    let mut i: usize = 0;
    assert(left@.skip(0) =~= left@);
    assert(right@.skip(0) =~= right@);
    while i < left.len() && i < right.len() && left[i] == right[i]
        invariant
            i <= left@.len(),
            i <= right@.len(),
            ordered(left@, right@) == ordered(left@.skip(i as int), right@.skip(i as int)),
        decreases left@.len() - i,
    {
        assert(left@.skip(i as int).skip(1) =~= left@.skip(i + 1));
        assert(right@.skip(i as int).skip(1) =~= right@.skip(i + 1));
        i = i + 1;
    }
    if i == left.len() {
        true
    } else if i == right.len() {
        false
    } else {
        left[i] < right[i]
    }
}

/// `item` put into `sorted` behind everything that comes no later.
pub open spec fn inserted(sorted: Seq<Seq<char>>, item: Seq<char>) -> Seq<Seq<char>>
    decreases sorted.len(),
{
    if sorted.len() == 0 || ordered(sorted.last(), item) {
        sorted.push(item)
    } else {
        inserted(sorted.drop_last(), item).push(sorted.last())
    }
}

/// The texts in the order of their characters.
pub open spec fn sorted(parts: Seq<Seq<char>>) -> Seq<Seq<char>>
    decreases parts.len(),
{
    if parts.len() == 0 {
        parts
    } else {
        inserted(sorted(parts.drop_last()), parts.last())
    }
}

fn insert_text(list: &mut Vec<String>, item: String)
    ensures
        texts(final(list)@) == inserted(texts(old(list)@), item@),
{
    let mut at: usize = list.len();
    let ghost all = texts(list@);
    assert(all.take(at as int) =~= all);
    assert(all.skip(at as int) =~= Seq::<Seq<char>>::empty());
    assert(inserted(all.take(at as int), item@) + all.skip(at as int) =~= inserted(all, item@));
    while at > 0 && !in_order(list[at - 1].as_str(), item.as_str())
        invariant
            at <= list@.len(),
            list@ == old(list)@,
            all == texts(list@),
            inserted(all.take(at as int), item@) + all.skip(at as int) == inserted(all, item@),
        decreases at,
    {
        let ghost head = all.take(at as int);
        assert(head.last() == list@[at - 1]@);
        assert(head.drop_last() =~= all.take(at - 1));
        assert(inserted(all.take(at - 1), item@) + all.skip(at - 1) =~= inserted(head, item@)
            + all.skip(at as int));
        at = at - 1;
    }
    proof {
        if at > 0 {
            assert(all.take(at as int).last() == list@[at - 1]@);
        }
        assert(inserted(all.take(at as int), item@) == all.take(at as int).push(item@));
    }
    list.insert(at, item);
    assert(texts(list@) =~= all.take(at as int).push(item@) + all.skip(at as int));
}

/// Sorts texts by their characters.
pub fn sort_texts(parts: Vec<String>) -> (out: Vec<String>)
    ensures
        texts(out@) == sorted(texts(parts@)),
{
    let mut out: Vec<String> = Vec::new();
    let mut i: usize = 0;
    assert(texts(out@) =~= sorted(texts(parts@).take(0)));
    while i < parts.len()
        invariant
            i <= parts@.len(),
            texts(out@) == sorted(texts(parts@).take(i as int)),
        decreases parts@.len() - i,
    {
        assert(texts(parts@).take(i + 1).drop_last() =~= texts(parts@).take(i as int));
        insert_text(&mut out, parts[i].clone());
        i = i + 1;
    }
    assert(texts(parts@).take(i as int) =~= texts(parts@));
    out
}

/// Whether two characters differ at most in being the capital and the small form of
/// one ASCII letter.
pub open spec fn alike(a: char, b: char) -> bool {
    ||| a == b
    ||| 'a' <= a <= 'z' && b as int == a as int - 32
    ||| 'a' <= b <= 'z' && a as int == b as int - 32
}

/// Whether two texts differ at most in the case of ASCII letters.
pub open spec fn all_alike(a: Seq<char>, b: Seq<char>) -> bool {
    a.len() == b.len() && forall|i: int| 0 <= i < a.len() ==> alike(#[trigger] a[i], b[i])
}

/// Texts are the same without regard to case exactly if they are as long as each
/// other and differ at most in the case of ASCII letters.
pub proof fn law_folding_ignores_case_only(a: Seq<char>, b: Seq<char>)
    ensures
        same_folded(a, b) == all_alike(a, b),
{
    assert forall|c: char, d: char| true implies (#[trigger] lower(c) == #[trigger] lower(d)) == alike(
        c,
        d,
    ) by {}
    if same_folded(a, b) {
        assert(lowercase(a).len() == lowercase(b).len());
        assert forall|i: int| 0 <= i < a.len() implies alike(#[trigger] a[i], b[i]) by {
            assert(lowercase(a)[i] == lowercase(b)[i]);
            assert(lower(a[i]) == lower(b[i]));
        }
    }
    if all_alike(a, b) {
        assert forall|i: int| 0 <= i < a.len() implies lowercase(a)[i] == lowercase(b)[i] by {
            assert(alike(a[i], b[i]));
            assert(lower(a[i]) == lower(b[i]));
        }
        assert(lowercase(a) =~= lowercase(b));
    }
}

/// Lower case keeps every character up to its case and leaves no capital ASCII
/// letter; upper case likewise leaves no small one.
pub proof fn law_case_is_changed_throughout(s: Seq<char>)
    ensures
        all_alike(lowercase(s), s),
        all_alike(uppercase(s), s),
        forall|i: int| 0 <= i < s.len() ==> !('A' <= #[trigger] lowercase(s)[i] <= 'Z'),
        forall|i: int| 0 <= i < s.len() ==> !('a' <= #[trigger] uppercase(s)[i] <= 'z'),
{
    assert forall|i: int| 0 <= i < s.len() implies alike(#[trigger] lowercase(s)[i], s[i]) && !('A'
        <= lowercase(s)[i] <= 'Z') by {
        assert(lowercase(s)[i] == lower(s[i]));
    }
    assert forall|i: int| 0 <= i < s.len() implies alike(#[trigger] uppercase(s)[i], s[i]) && !('a'
        <= uppercase(s)[i] <= 'z') by {
        assert(uppercase(s)[i] == upper(s[i]));
    }
}

/// White space is none of the visible ASCII characters, and blanks, tabs and line
/// ends are white space.
pub proof fn law_visible_characters_are_no_space(c: char)
    ensures
        33 <= c as int <= 126 ==> !is_space(c),
        c as int == 32 || 9 <= c as int <= 13 ==> is_space(c),
        (c as int) < 9 || 14 <= c as int <= 31 || c as int == 127 ==> !is_space(c),
{
}

/// Whether all of a text is white space.
pub open spec fn blank(s: Seq<char>) -> bool {
    forall|i: int| 0 <= i < s.len() ==> is_space(#[trigger] s[i])
}

proof fn lemma_trim_start(s: Seq<char>) -> (a: Seq<char>)
    ensures
        s == a + trim_start(s),
        blank(a),
        trim_start(s).len() > 0 ==> !is_space(trim_start(s)[0]),
    decreases s.len(),
{
    if s.len() > 0 && is_space(s.first()) {
        let rest = lemma_trim_start(s.drop_first());
        let a = seq![s.first()] + rest;
        assert(s =~= a + trim_start(s)) by {
            assert(s =~= seq![s.first()] + s.drop_first());
        }
        a
    } else {
        assert(s =~= Seq::<char>::empty() + s);
        Seq::empty()
    }
}

proof fn lemma_trim_end(s: Seq<char>) -> (b: Seq<char>)
    ensures
        s == trim_end(s) + b,
        blank(b),
        trim_end(s).len() > 0 ==> !is_space(trim_end(s).last()),
        trim_end(s).len() > 0 ==> trim_end(s)[0] == s[0],
    decreases s.len(),
{
    if s.len() > 0 && is_space(s.last()) {
        let rest = lemma_trim_end(s.drop_last());
        let b = rest + seq![s.last()];
        assert(s =~= trim_end(s) + b) by {
            assert(s =~= s.drop_last() + seq![s.last()]);
        }
        b
    } else {
        assert(s =~= s + Seq::<char>::empty());
        Seq::empty()
    }
}

/// Trimming takes white space, and nothing else, off both ends, and leaves none
/// there.
pub proof fn law_trim_takes_white_space_off(s: Seq<char>) -> (ends: (Seq<char>, Seq<char>))
    ensures
        s == ends.0 + trim(s) + ends.1,
        blank(ends.0),
        blank(ends.1),
        trim(s).len() > 0 ==> !is_space(trim(s)[0]) && !is_space(trim(s).last()),
{
    let a = lemma_trim_start(s);
    let b = lemma_trim_end(trim_start(s));
    assert(s =~= a + trim(s) + b);
    (a, b)
}

/// Trimming at the end takes white space, and nothing else, off that end, and leaves
/// none there.
pub proof fn law_trim_end_takes_white_space_off(s: Seq<char>) -> (end: Seq<char>)
    ensures
        s == trim_end(s) + end,
        blank(end),
        trim_end(s).len() > 0 ==> !is_space(trim_end(s).last()),
{
    lemma_trim_end(s)
}

/// The pieces of a text hold no separator, and joined by it they are the text.
pub proof fn law_join_undoes_split(s: Seq<char>, sep: char)
    ensures
        split(s, sep).len() > 0,
        forall|i: int| 0 <= i < split(s, sep).len() ==> !(#[trigger] split(s, sep)[i]).contains(sep),
        joined(split(s, sep), seq![sep]) == s,
    decreases s.len(),
{
    if s.len() == 0 {
        assert(joined(split(s, sep), seq![sep]) =~= s);
    } else {
        let front = s.drop_last();
        law_join_undoes_split(front, sep);
        let head = split(front, sep);
        let now = split(s, sep);
        if s.last() == sep {
            assert(now.drop_last() =~= head);
            assert(joined(now, seq![sep]) =~= front + seq![sep]);
            assert(s =~= front + seq![sep]);
            assert forall|i: int| 0 <= i < now.len() implies !(#[trigger] now[i]).contains(sep) by {
                if i < head.len() {
                    assert(now[i] == head[i]);
                }
            }
        } else {
            assert(now.drop_last() =~= head.drop_last());
            assert(s =~= front.push(s.last()));
            if head.len() == 1 {
                assert(joined(now, seq![sep]) =~= s);
            } else {
                assert(joined(head, seq![sep]) == joined(head.drop_last(), seq![sep]) + seq![sep]
                    + head.last());
                assert(joined(now, seq![sep]) =~= joined(head, seq![sep]).push(s.last()));
            }
            assert forall|i: int| 0 <= i < now.len() implies !(#[trigger] now[i]).contains(sep) by {
                if i < head.len() - 1 {
                    assert(now[i] == head[i]);
                } else {
                    let last = head.last();
                    assert(!head[head.len() - 1].contains(sep));
                    if now[i].contains(sep) {
                        let k = choose|k: int| 0 <= k < now[i].len() && now[i][k] == sep;
                        if k < last.len() {
                            assert(last[k] == sep);
                        }
                    }
                }
            }
        }
    }
}

proof fn lemma_first_from(s: Seq<char>, c: char, from: int)
    requires
        0 <= from <= s.len(),
    ensures
        from <= first_from(s, c, from) <= s.len(),
        first_from(s, c, from) < s.len() ==> s[first_from(s, c, from)] == c,
        forall|k: int| from <= k < first_from(s, c, from) ==> #[trigger] s[k] != c,
    decreases s.len() - from,
{
    if from < s.len() && s[from] != c {
        lemma_first_from(s, c, from + 1);
    }
}

/// A text that holds the separator comes apart at the first one: what is before it
/// holds none, and both parts with the separator between them are the text. One that
/// does not hold it does not come apart.
pub proof fn law_split_once_is_at_the_first(s: Seq<char>, sep: char)
    ensures
        split_once(s, sep) is Some <==> s.contains(sep),
        split_once(s, sep) matches Some(p) ==> s == p.0 + seq![sep] + p.1 && !p.0.contains(sep),
{
    lemma_first_from(s, sep, 0);
    let at = first_from(s, sep, 0);
    if at < s.len() {
        assert(s =~= s.take(at) + seq![sep] + s.skip(at + 1));
        assert(s[at] == sep);
        if s.take(at).contains(sep) {
            let k = choose|k: int| 0 <= k < at && s.take(at)[k] == sep;
            assert(s[k] == sep);
        }
    } else if s.contains(sep) {
        let k = choose|k: int| 0 <= k < s.len() && s[k] == sep;
        assert(s[k] != sep);
    }
}

proof fn lemma_first_place(s: Seq<char>, part: Seq<char>, from: int)
    requires
        0 <= from <= s.len(),
    ensures
        from <= first_place(s, part, from) <= s.len(),
        first_place(s, part, from) < s.len() ==> stands_at(s, part, first_place(s, part, from)),
        forall|k: int| from <= k < first_place(s, part, from) ==> !#[trigger] stands_at(s, part, k),
    decreases s.len() - from,
{
    if from < s.len() && !stands_at(s, part, from) {
        lemma_first_place(s, part, from + 1);
    }
}

/// The same for a separator of several characters: the text comes apart exactly if it
/// holds the separator, at the first place where it stands.
pub proof fn law_split_once_at_is_at_the_first(s: Seq<char>, sep: Seq<char>)
    requires
        sep.len() > 0,
    ensures
        split_once_at(s, sep) is Some <==> occurs(s, sep),
        split_once_at(s, sep) matches Some(p) ==> s == p.0 + sep + p.1 && forall|k: int|
            0 <= k < p.0.len() ==> !#[trigger] stands_at(s, sep, k),
{
    lemma_first_place(s, sep, 0);
    let at = first_place(s, sep, 0);
    if at < s.len() {
        assert(s =~= s.take(at) + s.subrange(at, at + sep.len()) + s.skip(at + sep.len()));
    } else if occurs(s, sep) {
        let k = choose|k: int| #[trigger] stands_at(s, sep, k);
        assert(!stands_at(s, sep, k));
    }
}

/// A part occurs in a text exactly if the text can be had by putting something before
/// and something after it; a text ends with a part exactly if nothing comes after it.
pub proof fn law_occurrence_is_containment(s: Seq<char>, part: Seq<char>, a: Seq<char>, b: Seq<char>)
    ensures
        occurs(a + part + b, part),
        finishes(a + part, part),
        occurs(s, part) ==> exists|at: int|
            0 <= at <= s.len() - part.len() && s == #[trigger] s.take(at) + part + s.skip(
                at + part.len(),
            ),
        finishes(s, part) ==> s.len() >= part.len() && s == s.take(s.len() - part.len()) + part,
{
    let whole = a + part + b;
    assert(whole.subrange(a.len() as int, (a.len() + part.len()) as int) =~= part);
    assert(stands_at(whole, part, a.len() as int));
    let ended = a + part;
    assert(ended.subrange(a.len() as int, (a.len() + part.len()) as int) =~= part);
    if occurs(s, part) {
        let at = choose|at: int| #[trigger] stands_at(s, part, at);
        assert(s =~= s.take(at) + part + s.skip(at + part.len()));
    }
    if finishes(s, part) {
        assert(s =~= s.take(s.len() - part.len()) + part);
    }
}

/// Replacing works character by character: it goes through the parts of a text one by
/// one, puts `by` for the character and leaves every other.
pub proof fn law_replacing_is_by_character(a: Seq<char>, b: Seq<char>, c: char, d: char, by: Seq<char>)
    requires
        c != d,
    ensures
        replaced(Seq::empty(), c, by) == Seq::<char>::empty(),
        replaced(seq![c], c, by) == by,
        replaced(seq![d], c, by) == seq![d],
        replaced(a + b, c, by) == replaced(a, c, by) + replaced(b, c, by),
    decreases b.len(),
{
    assert(seq![c].drop_last() =~= Seq::empty());
    assert(seq![d].drop_last() =~= Seq::empty());
    assert(replaced(Seq::<char>::empty(), c, by) =~= Seq::<char>::empty());
    assert(seq![c].last() == c && seq![d].last() == d);
    assert(replaced(seq![c], c, by) =~= by);
    assert(replaced(seq![d], c, by) =~= seq![d]);
    if b.len() == 0 {
        assert(a + b =~= a);
        assert(replaced(a + b, c, by) =~= replaced(a, c, by) + replaced(b, c, by));
    } else {
        law_replacing_is_by_character(a, b.drop_last(), c, d, by);
        assert((a + b).drop_last() =~= a + b.drop_last());
        assert((a + b).last() == b.last());
        assert(replaced(a + b, c, by) =~= replaced(a, c, by) + replaced(b, c, by));
    }
}

/// An aligned text is as wide as asked for, unless it was wider, and is the text with
/// spaces on the other side.
pub proof fn law_alignment_pads(s: Seq<char>, width: nat)
    ensures
        right_aligned(s, width).len() == (if s.len() > width {
            s.len()
        } else {
            width
        }),
        left_aligned(s, width).len() == right_aligned(s, width).len(),
        right_aligned(s, width).skip(right_aligned(s, width).len() - s.len()) == s,
        left_aligned(s, width).take(s.len() as int) == s,
        forall|i: int|
            0 <= i < right_aligned(s, width).len() - s.len() ==> #[trigger] right_aligned(
                s,
                width,
            )[i] == ' ',
        forall|i: int|
            s.len() <= i < left_aligned(s, width).len() ==> #[trigger] left_aligned(s, width)[i]
                == ' ',
{
    assert(right_aligned(s, width).skip(right_aligned(s, width).len() - s.len()) =~= s);
    assert(left_aligned(s, width).take(s.len() as int) =~= s);
}

/// The order of texts is total: any two are in order one way or the other, both ways
/// only if they are equal, and it carries over.
pub proof fn law_texts_are_ordered(a: Seq<char>, b: Seq<char>, c: Seq<char>)
    ensures
        ordered(a, b) || ordered(b, a),
        ordered(a, b) && ordered(b, a) ==> a == b,
        ordered(a, b) && ordered(b, c) ==> ordered(a, c),
        ordered(a, a + b),
        forall|k: int|
            0 <= k < a.len() && k < b.len() && a.take(k) == b.take(k) && #[trigger] a[k] < b[k]
                ==> ordered(a, b),
    decreases a.len(),
{
    if a.len() > 0 {
        let d = a + b;
        assert(d.skip(1) =~= a.skip(1) + b);
        law_texts_are_ordered(a.skip(1), b, c);
        if b.len() > 0 {
            law_texts_are_ordered(a.skip(1), b.skip(1), if c.len() > 0 {
                c.skip(1)
            } else {
                c
            });
            if a[0] == b[0] && a.skip(1) == b.skip(1) {
                assert(a =~= seq![a[0]] + a.skip(1));
                assert(b =~= seq![b[0]] + b.skip(1));
            }
            assert forall|k: int|
                0 <= k < a.len() && k < b.len() && a.take(k) == b.take(k) && #[trigger] a[k]
                    < b[k] implies ordered(a, b) by {
                if k > 0 {
                    assert(a.take(k)[0] == b.take(k)[0]);
                    assert(a.skip(1).take(k - 1) =~= a.take(k).skip(1));
                    assert(b.skip(1).take(k - 1) =~= b.take(k).skip(1));
                    assert(a.skip(1)[k - 1] < b.skip(1)[k - 1]);
                }
            }
        }
    } else {
        if b.len() == 0 {
            assert(a =~= b);
        }
    }
}

proof fn lemma_inserted(list: Seq<Seq<char>>, item: Seq<char>)
    requires
        forall|i: int, j: int|
            0 <= i <= j < list.len() ==> ordered(#[trigger] list[i], #[trigger] list[j]),
    ensures
        inserted(list, item).to_multiset() == list.to_multiset().insert(item),
        inserted(list, item).len() == list.len() + 1,
        forall|i: int, j: int|
            0 <= i <= j < inserted(list, item).len() ==> ordered(
                #[trigger] inserted(list, item)[i],
                #[trigger] inserted(list, item)[j],
            ),
        forall|i: int|
            0 <= i < inserted(list, item).len() ==> #[trigger] inserted(list, item)[i] == item
                || list.contains(inserted(list, item)[i]),
    decreases list.len(),
{
    broadcast use vstd::seq_lib::group_to_multiset_ensures;

    law_texts_are_ordered(item, item, item);
    let out = inserted(list, item);
    if list.len() == 0 || ordered(list.last(), item) {
        assert forall|i: int, j: int| 0 <= i <= j < out.len() implies ordered(
            #[trigger] out[i],
            #[trigger] out[j],
        ) by {
            if j == list.len() && i < j {
                assert(ordered(list[i], list[list.len() - 1]));
                law_texts_are_ordered(list[i], list.last(), item);
            } else if i < j {
                assert(ordered(list[i], list[j]));
            } else {
                law_texts_are_ordered(out[i], out[i], out[i]);
            }
        }
        assert forall|i: int| 0 <= i < out.len() implies #[trigger] out[i] == item || list.contains(
            out[i],
        ) by {
            if i < list.len() {
                assert(list[i] == out[i]);
            }
        }
    } else {
        let front = list.drop_last();
        assert forall|i: int, j: int| 0 <= i <= j < front.len() implies ordered(
            #[trigger] front[i],
            #[trigger] front[j],
        ) by {
            assert(ordered(list[i], list[j]));
        }
        lemma_inserted(front, item);
        let head = inserted(front, item);
        assert(list =~= front.push(list.last()));
        law_texts_are_ordered(list.last(), item, item);
        assert forall|i: int, j: int| 0 <= i <= j < out.len() implies ordered(
            #[trigger] out[i],
            #[trigger] out[j],
        ) by {
            if j == head.len() && i < j {
                assert(out[i] == head[i]);
                if head[i] != item {
                    let k = choose|k: int| 0 <= k < front.len() && front[k] == head[i];
                    assert(ordered(list[k], list[list.len() - 1]));
                }
            } else if i < j {
                assert(ordered(head[i], head[j]));
            } else {
                law_texts_are_ordered(out[i], out[i], out[i]);
            }
        }
        assert forall|i: int| 0 <= i < out.len() implies #[trigger] out[i] == item || list.contains(
            out[i],
        ) by {
            if i < head.len() {
                assert(out[i] == head[i]);
                if head[i] != item {
                    let k = choose|k: int| 0 <= k < front.len() && front[k] == head[i];
                    assert(list[k] == out[i]);
                }
            } else {
                assert(list[list.len() - 1] == out[i]);
            }
        }
        assert(out.to_multiset() =~= list.to_multiset().insert(item));
    }
}

/// Sorting puts the same texts in order.
pub proof fn law_sorting_orders(parts: Seq<Seq<char>>)
    ensures
        sorted(parts).to_multiset() == parts.to_multiset(),
        sorted(parts).len() == parts.len(),
        forall|i: int, j: int|
            0 <= i <= j < parts.len() ==> ordered(
                #[trigger] sorted(parts)[i],
                #[trigger] sorted(parts)[j],
            ),
    decreases parts.len(),
{
    broadcast use vstd::seq_lib::group_to_multiset_ensures;

    if parts.len() > 0 {
        law_sorting_orders(parts.drop_last());
        lemma_inserted(sorted(parts.drop_last()), parts.last());
        assert(parts =~= parts.drop_last().push(parts.last()));
    }
}

/// The words of a text hold no white space and are not empty, and one after the other
/// they are all of the text that is not white space.
pub proof fn law_words_are_what_is_visible(s: Seq<char>)
    ensures
        forall|i: int|
            0 <= i < words(s).len() ==> (#[trigger] words(s)[i]).len() > 0 && forall|k: int|
                0 <= k < words(s)[i].len() ==> !is_space(#[trigger] words(s)[i][k]),
        joined(words(s), Seq::empty()) == s.filter(|c: char| !is_space(c)),
        s.len() > 0 && !is_space(s.last()) ==> words(s).len() > 0,
    decreases s.len(),
{
    reveal(Seq::filter);
    let none = Seq::<char>::empty();
    if s.len() > 0 {
        let front = s.drop_last();
        law_words_are_what_is_visible(front);
        let head = words(front);
        let now = words(s);
        if is_space(s.last()) {
        } else if s.len() > 1 && !is_space(s[s.len() - 2]) {
            assert(front.last() == s[s.len() - 2]);
            assert(now.drop_last() =~= head.drop_last());
            if head.len() == 1 {
                assert(joined(now, none) =~= joined(head, none).push(s.last()));
            } else {
                assert(joined(now, none) =~= joined(head, none).push(s.last()));
            }
            assert forall|i: int| 0 <= i < now.len() implies (#[trigger] now[i]).len() > 0 && forall|
                k: int,
            | 0 <= k < now[i].len() ==> !is_space(#[trigger] now[i][k]) by {
                if i < head.len() - 1 {
                    assert(now[i] == head[i]);
                } else {
                    assert forall|k: int| 0 <= k < now[i].len() implies !is_space(
                        #[trigger] now[i][k],
                    ) by {
                        if k < head.last().len() {
                            assert(head[head.len() - 1][k] == now[i][k]);
                        }
                    }
                }
            }
        } else {
            assert(now.drop_last() =~= head);
            if head.len() == 0 {
                assert(joined(now, none) =~= joined(head, none).push(s.last()));
            } else {
                assert(joined(now, none) =~= joined(head, none).push(s.last()));
            }
            assert forall|i: int| 0 <= i < now.len() implies (#[trigger] now[i]).len() > 0 && forall|
                k: int,
            | 0 <= k < now[i].len() ==> !is_space(#[trigger] now[i][k]) by {
                if i < head.len() {
                    assert(now[i] == head[i]);
                }
            }
        }
    }
}

/// White space between two texts keeps their words apart, and adds none.
pub proof fn law_white_space_separates_words(a: Seq<char>, gap: char, b: Seq<char>)
    requires
        is_space(gap),
    ensures
        words(a + seq![gap] + b) == words(a) + words(b),
    decreases b.len(),
{
    let whole = a + seq![gap] + b;
    if b.len() == 0 {
        assert(whole.drop_last() =~= a);
        assert(words(whole) =~= words(a) + words(b));
    } else {
        let front = a + seq![gap] + b.drop_last();
        law_white_space_separates_words(a, gap, b.drop_last());
        assert(whole.drop_last() =~= front);
        assert(whole.last() == b.last());
        if b.len() > 1 {
            assert(whole[whole.len() - 2] == b[b.len() - 2]);
            if !is_space(b.last()) && !is_space(b[b.len() - 2]) {
                law_words_are_what_is_visible(b.drop_last());
                assert(b.drop_last().last() == b[b.len() - 2]);
                let tail = words(b.drop_last());
                assert((words(a) + tail).drop_last() =~= words(a) + tail.drop_last());
                assert((words(a) + tail).last() == tail.last());
            }
        } else {
            assert(whole[whole.len() - 2] == gap);
            assert(words(b.drop_last()).len() == 0);
        }
        assert(words(whole) =~= words(a) + words(b));
    }
}

/// A text ended by a line feed, whether or not after a carriage return, has its last
/// line without either; the end of the text ends a line too.
pub proof fn law_line_ends_end_lines(s: Seq<char>, line: Seq<char>)
    requires
        !line.contains('\n'),
        s.len() == 0 || s.last() == '\n',
    ensures
        line.len() == 0 || line.last() != '\r' ==> lines(s + line + seq!['\n']) == lines(s).push(
            line,
        ),
        lines(s + line + seq!['\r', '\n']) == lines(s).push(line),
        line.len() > 0 ==> lines(s + line) == lines(s).push(line),
        line.len() == 0 ==> lines(s + line) == lines(s),
{
    let pieces = split(s, '\n');
    lemma_split_nonempty(s, '\n');
    assert(pieces.last().len() == 0);
    lemma_split_grows(s, line, '\n');
    assert(Seq::<char>::empty() + line =~= line);
    assert(pieces.last() + line =~= line);
    let open = split(s + line, '\n');
    assert(open =~= pieces.drop_last().push(line));
    let ended = s + line + seq!['\n'];
    assert(ended.drop_last() =~= s + line);
    assert(split(ended, '\n') == open.push(Seq::empty()));
    let more = line + seq!['\r'];
    assert(!more.contains('\n')) by {
        if more.contains('\n') {
            let k = choose|k: int| 0 <= k < more.len() && more[k] == '\n';
            if k < line.len() {
                assert(line[k] == '\n');
            }
        }
    }
    lemma_split_grows(s, more, '\n');
    assert(pieces.last() + more =~= more);
    let both = s + line + seq!['\r', '\n'];
    assert(both.drop_last() =~= s + more);
    assert(split(both, '\n') == split(s + more, '\n').push(Seq::empty()));
    assert(strip_return(more) =~= line);
    if line.len() == 0 || line.last() != '\r' {
        assert(lines(ended) =~= lines(s).push(line));
    }
    assert(lines(both) =~= lines(s).push(line));
    if line.len() > 0 {
        assert(lines(s + line) =~= lines(s).push(line));
    } else {
        assert(s + line =~= s);
    }
}

/// A text splits at a separator into the pieces before it and the pieces after it.
pub proof fn law_split_comes_apart(a: Seq<char>, b: Seq<char>, sep: char)
    ensures
        split(a.push(sep) + b, sep) == split(a, sep) + split(b, sep),
    decreases b.len(),
{
    lemma_split_nonempty(a, sep);
    lemma_split_nonempty(b, sep);
    let whole = a.push(sep) + b;
    if b.len() == 0 {
        assert(whole =~= a.push(sep));
        assert(a.push(sep).drop_last() =~= a);
        assert(split(whole, sep) =~= split(a, sep) + split(b, sep));
    } else {
        law_split_comes_apart(a, b.drop_last(), sep);
        lemma_split_nonempty(b.drop_last(), sep);
        assert(whole.drop_last() =~= a.push(sep) + b.drop_last());
        assert(whole.last() == b.last());
        assert(split(whole, sep) =~= split(a, sep) + split(b, sep));
    }
}

} // verus!
