//! Numbers as bytes, the lowest first.

use vstd::prelude::*;

verus! {

/// The number that bytes denote, the first being the lowest.
pub open spec fn le_value(s: Seq<u8>) -> nat
    decreases s.len(),
{
    if s.len() == 0 {
        0
    } else {
        s[0] as nat + 256 * le_value(s.skip(1))
    }
}

/// The lowest `len` bytes of a number, the lowest first.
pub open spec fn le_bytes(v: nat, len: nat) -> Seq<u8>
    decreases len,
{
    if len == 0 {
        Seq::empty()
    } else {
        seq![(v % 256) as u8] + le_bytes(v / 256, (len - 1) as nat)
    }
}

/// The first `len` bytes, filled up with zeros.
pub open spec fn padded(s: Seq<u8>, len: nat) -> Seq<u8> {
    Seq::new(
        len,
        |i: int|
            if i < s.len() {
                s[i]
            } else {
                0u8
            },
    )
}

/// There are as many bytes as asked for.
pub proof fn lemma_le_bytes_len(v: nat, len: nat)
    ensures
        le_bytes(v, len).len() == len,
    decreases len,
{
    if len > 0 {
        lemma_le_bytes_len(v / 256, (len - 1) as nat);
    }
}

/// The first bytes of a number, filled up with zeros, are its lowest bytes.
pub proof fn lemma_padded(s: Seq<u8>, len: nat)
    ensures
        padded(s, len) == le_bytes(le_value(s), len),
    decreases len,
{
    if len > 0 {
        if s.len() == 0 {
            lemma_padded(s, (len - 1) as nat);
            assert(padded(s, len) =~= seq![0u8] + padded(s, (len - 1) as nat));
        } else {
            let rest = s.skip(1);
            lemma_padded(rest, (len - 1) as nat);
            assert(le_value(s) == s[0] as nat + 256 * le_value(rest));
            assert(le_value(s) % 256 == s[0] as nat);
            assert(le_value(s) / 256 == le_value(rest));
            assert(padded(s, len) =~= seq![s[0]] + padded(rest, (len - 1) as nat));
        }
    } else {
        assert(padded(s, 0) =~= Seq::<u8>::empty());
    }
}

/// The largest number that so many bytes hold, plus one.
pub open spec fn bytes_range(len: nat) -> nat
    decreases len,
{
    if len == 0 {
        1
    } else {
        256 * bytes_range((len - 1) as nat)
    }
}

/// A number that fits is read back from its bytes.
pub proof fn law_le_round_trip(v: nat, len: nat)
    requires
        v < bytes_range(len),
    ensures
        le_value(le_bytes(v, len)) == v,
    decreases len,
{
    if len > 0 {
        law_le_round_trip(v / 256, (len - 1) as nat);
        let s = le_bytes(v, len);
        assert(s.skip(1) =~= le_bytes(v / 256, (len - 1) as nat));
    }
}

/// Four bytes of a 32-bit number.
pub fn u32_le(v: u32) -> (out: Vec<u8>)
    ensures
        out@ == le_bytes(v as nat, 4),
{
    let mut out: Vec<u8> = Vec::new();
    out.push((v % 256) as u8);
    out.push((v / 256 % 256) as u8);
    out.push((v / 65536 % 256) as u8);
    out.push((v / 16777216) as u8);
    proof {
        reveal_with_fuel(le_bytes, 5);
        assert(v as nat / 256 / 256 == v as nat / 65536);
        assert(v as nat / 256 / 256 / 256 == v as nat / 16777216);
        assert(out@ =~= le_bytes(v as nat, 4));
    }
    out
}

/// The 32-bit number in four bytes.
pub fn read_u32_le(data: &[u8], at: usize) -> (v: u32)
    requires
        at + 4 <= data@.len(),
    ensures
        v == le_value(data@.subrange(at as int, at + 4)),
{
    proof {
        let s = data@.subrange(at as int, at + 4);
        reveal_with_fuel(le_value, 5);
        assert(s.skip(1)[0] == s[1]);
        assert(s.skip(1).skip(1)[0] == s[2]);
        assert(s.skip(1).skip(1).skip(1)[0] == s[3]);
        assert(s.skip(1).skip(1).skip(1).skip(1).len() == 0);
    }
    let size: usize = data.len();
    data[at] as u32 + data[at + 1] as u32 * 256 + data[at + 2] as u32 * 65536 + data[at + 3] as u32
        * 16777216
}

/// Appends bytes.
pub fn extend(out: &mut Vec<u8>, more: &[u8])
    ensures
        final(out)@ == old(out)@ + more@,
{
    let ghost before = out@;
    let mut i: usize = 0;
    assert(before + more@.take(0) =~= before);
    while i < more.len()
        invariant
            i <= more@.len(),
            out@ == before + more@.take(i as int),
        decreases more@.len() - i,
    {
        out.push(more[i]);
        i = i + 1;
        assert(out@ =~= before + more@.take(i as int));
    }
    assert(more@.take(i as int) =~= more@);
}

/// Copies bytes.
pub fn copied(data: &[u8]) -> (out: Vec<u8>)
    ensures
        out@ == data@,
{
    let mut out: Vec<u8> = Vec::new();
    extend(&mut out, data);
    assert(Seq::<u8>::empty() + data@ =~= data@);
    out
}

/// Compares bytes.
pub fn same_bytes(a: &[u8], b: &[u8]) -> (r: bool)
    ensures
        r == (a@ == b@),
{
    if a.len() != b.len() {
        return false;
    }
    let mut i: usize = 0;
    while i < a.len()
        invariant
            i <= a@.len(),
            a@.len() == b@.len(),
            forall|k: int| 0 <= k < i ==> a@[k] == b@[k],
        decreases a@.len() - i,
    {
        if a[i] != b[i] {
            return false;
        }
        i = i + 1;
    }
    assert(a@ =~= b@);
    true
}

/// A 32-bit number is written and read with its lowest byte first.
pub proof fn law_lowest_byte_comes_first(v: u32, out: Vec<u8>, data: &[u8], at: usize, read: u32)
    requires
        u32_le.ensures((v,), out),
        at + 4 <= data@.len(),
        read_u32_le.ensures((data, at), read),
    ensures
        out@.len() == 4,
        out@[0] + 256 * out@[1] + 65536 * out@[2] + 16777216 * out@[3] == v,
        read == data@[at as int] + 256 * data@[at + 1] + 65536 * data@[at + 2] + 16777216
            * data@[at + 3],
        data@.subrange(at as int, at + 4) == out@ <==> read == v,
{
    reveal_with_fuel(le_bytes, 5);
    reveal_with_fuel(le_value, 5);
    let s = data@.subrange(at as int, at + 4);
    assert(s.skip(1)[0] == s[1]);
    assert(s.skip(1).skip(1)[0] == s[2]);
    assert(s.skip(1).skip(1).skip(1)[0] == s[3]);
    assert(s.skip(1).skip(1).skip(1).skip(1).len() == 0);
    let n = v as nat;
    assert(out@[0] == n % 256);
    assert(out@[1] == n / 256 % 256);
    assert(out@[2] == n / 256 / 256 % 256);
    assert(out@[3] == n / 256 / 256 / 256 % 256);
    if read == v {
        assert(s =~= out@);
    }
}

/// The lowest bytes of a number are the bytes that denote it.
pub proof fn lemma_bytes_of_value(s: Seq<u8>)
    ensures
        le_bytes(le_value(s), s.len()) == s,
{
    lemma_padded(s, s.len());
    assert(padded(s, s.len()) =~= s);
}

} // verus!
