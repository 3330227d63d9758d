//! Bytes as text in standard base64.

use base64::engine::general_purpose::STANDARD;
use base64::Engine as _;
use vstd::prelude::*;

verus! {

/// The error of a text that is not base64.
#[verifier::external_type_specification]
#[verifier::external_body]
pub struct ExDecodeError(base64::DecodeError);

/// The character that stands for six bits.
pub open spec fn symbol(v: int) -> char {
    if v < 26 {
        (65 + v) as char
    } else if v < 52 {
        (71 + v) as char
    } else if v < 62 {
        (v - 4) as char
    } else if v == 62 {
        '+'
    } else {
        '/'
    }
}

/// A byte, or zero beyond the last one.
pub open spec fn byte_at(data: Seq<u8>, i: int) -> int {
    if i < data.len() {
        data[i] as int
    } else {
        0
    }
}

/// The six bits of the data from bit `6 * k` on.
pub open spec fn six_bits(data: Seq<u8>, k: int) -> int {
    let j = k / 4 * 3;
    if k % 4 == 0 {
        byte_at(data, j) / 4
    } else if k % 4 == 1 {
        byte_at(data, j) % 4 * 16 + byte_at(data, j + 1) / 16
    } else if k % 4 == 2 {
        byte_at(data, j + 1) % 16 * 4 + byte_at(data, j + 2) / 64
    } else {
        byte_at(data, j + 2) % 64
    }
}

/// How many characters carry bits of so many bytes.
pub open spec fn used(n: nat) -> int {
    (n * 8 + 5) as int / 6
}

/// The text of the data: four characters for every three bytes, the last four
/// filled up with equals signs.
pub open spec fn base64(data: Seq<u8>) -> Seq<char> {
    Seq::new(
        ((data.len() + 2) / 3 * 4) as nat,
        |k: int|
            if k < used(data.len()) {
                symbol(six_bits(data, k))
            } else {
                '='
            },
    )
}

/// Calls `base64::Engine::encode` of the standard engine, which writes the data
/// with the standard alphabet and padding.
#[verifier::external_body]
pub(crate) fn to_base64(data: &[u8]) -> (r: String)
    ensures
        r@ == base64(data@),
{
    STANDARD.encode(data)
}

/// Calls `base64::Engine::decode` of the standard engine, which takes exactly the
/// texts that the same engine writes: the standard alphabet, canonical padding, no
/// stray bits at the end, and nothing else in between.
#[verifier::external_body]
pub(crate) fn from_base64(text: &str) -> (r: Result<Vec<u8>, base64::DecodeError>)
    ensures
        match r {
            Ok(data) => text@ == base64(data@),
            Err(_) => forall|data: Seq<u8>| #[trigger] base64(data) != text@,
        },
{
    STANDARD.decode(text)
}

proof fn lemma_symbol(a: int, b: int)
    requires
        0 <= a < 64,
        0 <= b < 64,
    ensures
        symbol(a) != '=',
        symbol(a) == symbol(b) ==> a == b,
{
}

proof fn lemma_six_bits(data: Seq<u8>, k: int)
    requires
        0 <= k,
    ensures
        0 <= six_bits(data, k) < 64,
{
}

proof fn lemma_byte(data: Seq<u8>, i: int)
    requires
        0 <= i < data.len(),
    ensures
        ({
            let k = i / 3 * 4;
            data[i] == if i % 3 == 0 {
                six_bits(data, k) * 4 + six_bits(data, k + 1) / 16
            } else if i % 3 == 1 {
                six_bits(data, k + 1) % 16 * 16 + six_bits(data, k + 2) / 4
            } else {
                six_bits(data, k + 2) % 4 * 64 + six_bits(data, k + 3)
            }
        }),
        i % 3 == 0 ==> i / 3 * 4 + 1 < used(data.len()),
        i % 3 == 1 ==> i / 3 * 4 + 2 < used(data.len()),
        i % 3 == 2 ==> i / 3 * 4 + 3 < used(data.len()),
{
    let q = i / 3;
    let k = q * 4;
    assert(k / 4 == q && (k + 1) / 4 == q && (k + 2) / 4 == q && (k + 3) / 4 == q);
    assert(k % 4 == 0 && (k + 1) % 4 == 1 && (k + 2) % 4 == 2 && (k + 3) % 4 == 3);
}

/// Different data have different texts, so what was written is read back.
pub proof fn law_base64_is_faithful(a: Seq<u8>, b: Seq<u8>)
    requires
        base64(a) == base64(b),
    ensures
        a == b,
{
    let (x, y) = (base64(a), base64(b));
    assert(a.len() == b.len()) by {
        if a.len() != b.len() {
            let (s, l) = if a.len() < b.len() {
                (a, b)
            } else {
                (b, a)
            };
            let k = used(s.len());
            assert(k < used(l.len()));
            assert(x.len() == y.len());
            assert(base64(s)[k] == '=');
            lemma_six_bits(l, k);
            lemma_symbol(six_bits(l, k), 0);
            assert(base64(l)[k] == symbol(six_bits(l, k)));
        }
    }
    assert forall|k: int| 0 <= k < used(a.len()) implies #[trigger] six_bits(a, k) == six_bits(
        b,
        k,
    ) by {
        lemma_six_bits(a, k);
        lemma_six_bits(b, k);
        lemma_symbol(six_bits(a, k), six_bits(b, k));
        assert(x[k] == symbol(six_bits(a, k)));
        assert(y[k] == symbol(six_bits(b, k)));
    }
    assert forall|i: int| 0 <= i < a.len() implies a[i] == b[i] by {
        lemma_byte(a, i);
        lemma_byte(b, i);
        let k = i / 3 * 4;
        if i % 3 == 0 {
            assert(six_bits(a, k) == six_bits(b, k));
            assert(six_bits(a, k + 1) == six_bits(b, k + 1));
        } else if i % 3 == 1 {
            assert(six_bits(a, k + 1) == six_bits(b, k + 1));
            assert(six_bits(a, k + 2) == six_bits(b, k + 2));
        } else {
            assert(six_bits(a, k + 2) == six_bits(b, k + 2));
            assert(six_bits(a, k + 3) == six_bits(b, k + 3));
        }
    }
    assert(a =~= b);
}

} // verus!
