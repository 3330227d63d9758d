//! The identity of the client: an RSA key that is sent to the device as a public
//! key line, and that its certificate wraps.

use rsa::pkcs8::DecodePrivateKey;
use rsa::pkcs8::EncodePrivateKey;
use rsa::traits::PublicKeyParts;
use vstd::arithmetic::power2::pow2;
use vstd::prelude::*;

use crate::adb::{is_protocol, protocol, AdbError};
use crate::bytes;
use crate::radix64;
use crate::text;

verus! {

/// The inverse of an odd number modulo a power of two, after so many steps of which
/// each doubles the number of bits that are right.
pub open spec fn lifted(a: u32, steps: nat) -> int
    decreases steps,
{
    if steps == 0 {
        1
    } else {
        let inv = lifted(a, (steps - 1) as nat);
        inv * (2 - a * inv) % 0x1_0000_0000
    }
}

/// Two to the power of two to the power of the steps: what the inverse is right
/// for.
pub open spec fn precision(steps: nat) -> int
    decreases steps,
{
    if steps == 0 {
        2
    } else {
        precision((steps - 1) as nat) * precision((steps - 1) as nat)
    }
}

proof fn lemma_square(p: int, v: int)
    requires
        p == v,
    ensures
        p * p == v * v,
{
}

proof fn lemma_precision()
    ensures
        precision(0) == 2,
        precision(1) == 4,
        precision(2) == 16,
        precision(3) == 256,
        precision(4) == 65536,
        precision(5) == 0x1_0000_0000,
{
    reveal_with_fuel(precision, 6);
    lemma_square(precision(0), 2);
    lemma_square(precision(1), 4);
    lemma_square(precision(2), 16);
    lemma_square(precision(3), 256);
    lemma_square(precision(4), 65536);
}

proof fn lemma_step(a: int, inv: int, p: int)
    requires
        p == 2 || p == 4 || p == 16 || p == 256 || p == 65536,
        a * inv % p == 1,
    ensures
        a * (inv * (2 - a * inv) % 0x1_0000_0000) % (p * p) == 1,
{
    let m = 0x1_0000_0000int;
    let x = a * inv;
    let t = x / p;
    let raw = inv * (2 - x);
    let next = raw % m;
    let s = raw / m;
    vstd::arithmetic::div_mod::lemma_fundamental_div_mod(x, p);
    assert(x == p * t + 1);
    vstd::arithmetic::div_mod::lemma_fundamental_div_mod(raw, m);
    assert(raw == m * s + next);
    assert(a * raw == x * (2 - x)) by (nonlinear_arith)
        requires
            raw == inv * (2 - x),
            x == a * inv,
    ;
    assert(x * (2 - x) == 1 - (p * t) * (p * t)) by (nonlinear_arith)
        requires
            x == p * t + 1,
    ;
    let pp = p * p;
    assert(pp == 4 || pp == 16 || pp == 256 || pp == 65536 || pp == 0x1_0000_0000);
    let q = m / pp;
    assert(m == pp * q);
    let (u, w) = (a * (q * s), t * t);
    assert(a * (m * s) == pp * u) by (nonlinear_arith)
        requires
            m == pp * q,
            u == a * (q * s),
    ;
    assert((p * t) * (p * t) == pp * w) by (nonlinear_arith)
        requires
            pp == p * p,
            w == t * t,
    ;
    assert(a * raw == a * (m * s) + a * next) by (nonlinear_arith)
        requires
            raw == m * s + next,
    ;
    assert(pp * (-w - u) == -(pp * w) - pp * u) by (nonlinear_arith);
    vstd::arithmetic::div_mod::lemma_fundamental_div_mod_converse(a * next, pp, -w - u, 1);
}

proof fn lemma_lifted(a: u32, steps: nat)
    requires
        a % 2 == 1,
        steps <= 5,
    ensures
        a * lifted(a, steps) % precision(steps) == 1,
        0 <= lifted(a, steps) < 0x1_0000_0000,
    decreases steps,
{
    if steps > 0 {
        lemma_lifted(a, (steps - 1) as nat);
        lemma_precision();
        lemma_step(a as int, lifted(a, (steps - 1) as nat), precision((steps - 1) as nat));
    }
}

/// The inverse of an odd number modulo two to the power of thirty-two.
pub fn modinv_pow2_32(a: u32) -> (inv: u32)
    ensures
        inv == lifted(a, 5),
        a % 2 == 1 ==> a * inv % 0x1_0000_0000 == 1,
{
    let mut inv: u32 = 1;
    let mut i: u32 = 0;
    while i < 5
        invariant
            i <= 5,
            inv == lifted(a, i as nat),
        decreases 5 - i,
    {
        let x: u32 = a.wrapping_mul(inv);
        let y: u32 = 2u32.wrapping_sub(x);
        proof {
            lemma_wrapped(a as int, inv as int);
        }
        inv = inv.wrapping_mul(y);
        i = i + 1;
    }
    proof {
        if a % 2 == 1 {
            lemma_lifted(a, 5);
            lemma_precision();
        }
    }
    inv
}

proof fn lemma_wrapped(a: int, inv: int)
    requires
        0 <= a < 0x1_0000_0000,
        0 <= inv < 0x1_0000_0000,
    ensures
        ({
            let m = 0x1_0000_0000int;
            let x = a * inv % m;
            let y = (2 - x) % m;
            inv * y % m == inv * (2 - a * inv) % m
        }),
{
    let m = 0x1_0000_0000int;
    let x = a * inv % m;
    let y = (2 - x) % m;
    vstd::arithmetic::div_mod::lemma_sub_mod_noop_right(2, a * inv, m);
    assert(y == (2 - a * inv) % m);
    vstd::arithmetic::div_mod::lemma_mul_mod_noop_right(inv, 2 - a * inv, m);
}

/// The error of a key that cannot be made.
#[verifier::external_type_specification]
#[verifier::external_body]
pub struct ExRsaError(rsa::Error);

/// The error of a key that cannot be read or written.
#[verifier::external_type_specification]
#[verifier::external_body]
pub struct ExPkcs8Error(rsa::pkcs8::Error);

/// The error of a certificate that cannot be made.
#[verifier::external_type_specification]
#[verifier::external_body]
pub struct ExCertificateError(rcgen::Error);

/// The private key in a PEM text, if it holds one: the key written out again as
/// PEM and as DER, its modulus and its public exponent, the lowest byte first.
pub uninterp spec fn rsa_key(pem: Seq<char>) -> Option<
    (Seq<char>, Seq<u8>, Seq<u8>, Seq<u8>),
>;

/// The certificate that a private key, given as PEM, signs for itself under a
/// subject, if it can.
pub uninterp spec fn own_certificate(pem: Seq<char>, subject: Seq<char>) -> Option<Seq<u8>>;

/// Calls `rsa::RsaPrivateKey::new` with the thread's random source, and writes the
/// key out as PEM: its modulus is odd and takes exactly the bits asked for, its
/// exponent is 65537, and reading the text back, with or without the line end that
/// closes it, gives the same key. Which key it is depends on chance.
#[verifier::external_body]
fn new_key(bits: usize) -> (r: Result<String, rsa::Error>)
    requires
        1024 <= bits <= 4096,
        bits % 8 == 0,
    ensures
        r matches Ok(pem) ==> (rsa_key(text::trim(pem@)) matches Some(k) && k.0 == pem@
            && k.2.len() * 8 == bits && k.2[0] % 2 == 1 && k.3 == seq![1u8, 0u8, 1u8]),
{
    let key = rsa::RsaPrivateKey::new(&mut rand::thread_rng(), bits)?;
    let pem = key.to_pkcs8_pem(rsa::pkcs8::LineEnding::LF).map_err(rsa::Error::from)?;
    Ok(pem.to_string())
}

/// Calls `rsa::RsaPrivateKey::from_pkcs8_pem`, `to_pkcs8_pem` and `to_pkcs8_der`:
/// whether the text holds a key, and which, follows from the text alone. The
/// modulus is not zero, and reading the key back from the PEM that it is written
/// out as gives the same key.
#[verifier::external_body]
fn read_key(pem: &str) -> (r: Result<(String, Vec<u8>, Vec<u8>, Vec<u8>), rsa::pkcs8::Error>)
    ensures
        match r {
            Ok(k) => {
                &&& rsa_key(pem@) == Some((k.0@, k.1@, k.2@, k.3@))
                &&& bytes::le_value(k.2@) > 0
                &&& rsa_key(text::trim(k.0@)) == Some((k.0@, k.1@, k.2@, k.3@))
            },
            Err(_) => rsa_key(pem@) is None,
        },
{
    let key = rsa::RsaPrivateKey::from_pkcs8_pem(pem)?;
    let text = key.to_pkcs8_pem(rsa::pkcs8::LineEnding::LF)?.to_string();
    let der = key.to_pkcs8_der()?.as_bytes().to_vec();
    Ok((text, der, key.n().to_bytes_le(), key.e().to_bytes_le()))
}

/// Calls `rcgen::KeyPair::from_pkcs8_pem_and_sign_algo` and then
/// `rcgen::CertificateParams::self_signed`: whether both succeed, and the
/// certificate, follow from the key and the subject alone, for the serial number is
/// a digest of the key, the dates are fixed and the signature takes nothing from the
/// random source. The outer error is that of the first call, the inner one that of
/// the second.
#[verifier::external_body]
fn sign_certificate(pem: &str, subject: &str) -> (r: Result<
    Result<Vec<u8>, rcgen::Error>,
    rcgen::Error,
>)
    ensures
        match r {
            Ok(Ok(der)) => own_certificate(pem@, subject@) == Some(der@),
            _ => own_certificate(pem@, subject@) is None,
        },
{
    let pair = rcgen::KeyPair::from_pkcs8_pem_and_sign_algo(pem, &rcgen::PKCS_RSA_SHA256)?;
    let params = rcgen::CertificateParams::new(vec![subject.to_string()]);
    Ok(params.and_then(|s| s.self_signed(&pair)).map(|c| c.der().to_vec()))
}

/// Calls `num_bigint_dig::BigUint::modpow` for a power of two: the remainder of that
/// power by the modulus, both given the lowest byte first.
#[verifier::external_body]
fn power_of_two_mod(exponent: u32, modulus: &[u8]) -> (r: Vec<u8>)
    requires
        bytes::le_value(modulus@) > 0,
    ensures
        bytes::le_value(r@) == pow2(exponent as nat) % bytes::le_value(modulus@),
{
    let modulus = num_bigint_dig::BigUint::from_bytes_le(modulus);
    let power = num_bigint_dig::BigUint::from(exponent);
    num_bigint_dig::BigUint::from(2u32).modpow(&power, &modulus).to_bytes_le()
}

/// How many bytes the modulus takes.
pub const MODULUS_BYTES: usize = 256;

/// How many bytes the encoded public key takes.
pub const ENCODED_SIZE: usize = 524;

/// What is written as the negative inverse of the modulus.
pub open spec fn negative_inverse(modulus: nat) -> nat {
    ((0x1_0000_0000 - lifted((modulus % 0x1_0000_0000) as u32, 5)) % 0x1_0000_0000) as nat
}

/// The encoded public key: the size of the modulus in words, the negative inverse of
/// its lowest word, the modulus, two to the power of 4096 modulo it, and the
/// exponent; all the lowest byte first.
pub open spec fn encoded_key(modulus: nat, exponent: nat) -> Seq<u8> {
    bytes::le_bytes(64, 4) + bytes::le_bytes(negative_inverse(modulus), 4) + bytes::le_bytes(
        modulus,
        256,
    ) + bytes::le_bytes(pow2(4096) % modulus, 256) + bytes::le_bytes(exponent, 4)
}

/// The first `len` bytes, filled up with zeros.
pub fn write_le_padded(data: &[u8], len: usize) -> (out: Vec<u8>)
    ensures
        out@ == bytes::padded(data@, len as nat),
        out@ == bytes::le_bytes(bytes::le_value(data@), len as nat),
{
    let mut out: Vec<u8> = Vec::new();
    let mut i: usize = 0;
    while i < len
        invariant
            i <= len,
            out@ == bytes::padded(data@, i as nat),
        decreases len - i,
    {
        out.push(
            if i < data.len() {
                data[i]
            } else {
                0
            },
        );
        i = i + 1;
        assert(out@ =~= bytes::padded(data@, i as nat));
    }
    proof {
        bytes::lemma_padded(data@, len as nat);
    }
    out
}

/// An RSA identity.
pub struct AdbKey {
    pem: String,
    der: Vec<u8>,
    modulus: Vec<u8>,
    exponent: Vec<u8>,
}

impl AdbKey {
    /// The private key as PEM.
    pub closed spec fn pem(self) -> Seq<char> {
        self.pem@
    }

    /// The private key as DER.
    pub closed spec fn der(self) -> Seq<u8> {
        self.der@
    }

    /// The modulus.
    pub closed spec fn modulus(self) -> nat {
        bytes::le_value(self.modulus@)
    }

    /// The public exponent.
    pub closed spec fn exponent(self) -> nat {
        bytes::le_value(self.exponent@)
    }

    /// How many bytes the modulus takes.
    pub closed spec fn size(self) -> nat {
        self.modulus@.len()
    }

    /// Whether this is the key that reading a PEM text gives.
    pub closed spec fn is_read_from(self, pem: Seq<char>) -> bool {
        rsa_key(pem) == Some((self.pem@, self.der@, self.modulus@, self.exponent@))
    }

    /// The modulus is not zero, and reading the key's own PEM gives the key.
    pub open spec fn well_formed(self) -> bool {
        self.modulus() > 0 && self.is_read_from(text::trim(self.pem()))
    }

    /// Reads a key.
    fn read(pem: &str) -> (r: Result<Self, rsa::pkcs8::Error>)
        ensures
            match r {
                Ok(key) => key.well_formed() && key.is_read_from(pem@),
                Err(_) => rsa_key(pem@) is None,
            },
    {
        match read_key(pem) {
            Ok((text, der, modulus, exponent)) => Ok(
                AdbKey { pem: text, der, modulus, exponent },
            ),
            Err(e) => Err(e),
        }
    }

    /// Makes a fresh key of 2048 bits. Chance decides which; the only error is that
    /// none could be made.
    pub fn generate() -> (r: Result<Self, AdbError>)
        ensures
            match r {
                Ok(key) => key.well_formed() && key.size() == MODULUS_BYTES && key.modulus() % 2 == 1
                    && key.exponent() == 65537,
                Err(e) => exists|cause: Seq<char>|
                    is_protocol(e, #[trigger] ("rsa keygen: "@ + cause)),
            },
    {
        let pem = match new_key(MODULUS_BYTES * 8) {
            Ok(pem) => pem,
            Err(e) => {
                let cause = e.to_string();
                let m = text::join2("rsa keygen: ", cause.as_str());
                assert(m@ == "rsa keygen: "@ + cause@);
                return Err(protocol(m));
            },
        };
        let chars = text::trimmed(text::chars_of(pem.as_str()).as_slice());
        match Self::read(text::string_of(chars.as_slice()).as_str()) {
            Ok(key) => {
                proof {
                    let n = key.modulus@;
                    assert(bytes::le_value(n) == n[0] as nat + 256 * bytes::le_value(n.skip(1)));
                    assert(bytes::le_value(key.exponent@) == 65537) by {
                        reveal_with_fuel(bytes::le_value, 4);
                        let e = key.exponent@;
                        assert(e.skip(1)[0] == e[1]);
                        assert(e.skip(1).skip(1)[0] == e[2]);
                        assert(e.skip(1).skip(1).skip(1).len() == 0);
                    }
                }
                Ok(key)
            },
            Err(e) => {
                let cause = e.to_string();
                let m = text::join2("rsa keygen: ", cause.as_str());
                assert(m@ == "rsa keygen: "@ + cause@);
                Err(protocol(m))
            },
        }
    }

    /// Reads a private key from PEM. Whitespace around it does not matter: a store
    /// may have added some.
    pub fn from_pkcs8_pem(pem: &str) -> (r: Result<Self, AdbError>)
        ensures
            match r {
                Ok(key) => key.well_formed() && key.is_read_from(text::trim(pem@)),
                Err(e) => rsa_key(text::trim(pem@)) is None && exists|cause: Seq<char>|
                    is_protocol(e, #[trigger] ("load adbkey: "@ + cause)),
            },
    {
        let chars = text::trimmed(text::chars_of(pem).as_slice());
        match Self::read(text::string_of(chars.as_slice()).as_str()) {
            Ok(key) => Ok(key),
            Err(e) => {
                let cause = e.to_string();
                let m = text::join2("load adbkey: ", cause.as_str());
                assert(m@ == "load adbkey: "@ + cause@);
                Err(protocol(m))
            },
        }
    }

    /// The private key as PEM.
    pub fn to_pkcs8_pem(&self) -> (r: String)
        ensures
            r@ == self.pem(),
    {
        self.pem.clone()
    }

    /// A certificate that wraps this key under the name `arc`, and the key itself,
    /// both as DER. The device compares the certificate's key with the one it was
    /// paired with.
    pub fn tls_identity(&self) -> (r: Result<(Vec<u8>, Vec<u8>), AdbError>)
        ensures
            match r {
                Ok((certificate, key)) => own_certificate(self.pem(), "arc"@) == Some(certificate@)
                    && key@ == self.der(),
                Err(e) => own_certificate(self.pem(), "arc"@) is None && (e matches AdbError::Tls(m)
                    && exists|cause: Seq<char>|
                    #![trigger "rcgen key: "@ + cause]
                    "rcgen key: "@ + cause == m@ || "self-sign: "@ + cause == m@),
            },
    {
        let (prefix, cause) = match sign_certificate(self.pem.as_str(), "arc") {
            Ok(Ok(certificate)) => {
                return Ok((certificate, bytes::copied(self.der.as_slice())));
            },
            Ok(Err(e)) => ("self-sign: ", e.to_string()),
            Err(e) => ("rcgen key: ", e.to_string()),
        };
        let m = text::join2(prefix, cause.as_str());
        assert("rcgen key: "@ + cause@ == m@ || "self-sign: "@ + cause@ == m@);
        assert(exists|cause: Seq<char>|
            #![trigger "rcgen key: "@ + cause]
            "rcgen key: "@ + cause == m@ || "self-sign: "@ + cause == m@);
        Err(AdbError::Tls(m))
    }

    /// Whether the modulus is large enough to be encoded.
    pub fn can_encode(&self) -> (r: bool)
        ensures
            r == (self.size() >= 4),
    {
        self.modulus.len() >= 4
    }

    /// The encoded public key.
    pub fn encode_android_pubkey(&self) -> (out: Vec<u8>)
        requires
            self.well_formed(),
            self.size() >= 4,
        ensures
            out@ == encoded_key(self.modulus(), self.exponent()),
            out@.len() == ENCODED_SIZE,
    {
        let n0: u32 = bytes::read_u32_le(self.modulus.as_slice(), 0);
        proof {
            lemma_low_word(self.modulus@);
        }
        let inv: u32 = modinv_pow2_32(n0);
        let n0inv: u32 = 0u32.wrapping_sub(inv);
        assert(n0inv == negative_inverse(self.modulus()));
        let mut out = bytes::u32_le(64);
        bytes::extend(&mut out, bytes::u32_le(n0inv).as_slice());
        bytes::extend(&mut out, write_le_padded(self.modulus.as_slice(), 256).as_slice());
        let rr = power_of_two_mod(4096, self.modulus.as_slice());
        bytes::extend(&mut out, write_le_padded(rr.as_slice(), 256).as_slice());
        bytes::extend(&mut out, write_le_padded(self.exponent.as_slice(), 4).as_slice());
        proof {
            bytes::lemma_le_bytes_len(64, 4);
            bytes::lemma_le_bytes_len(n0inv as nat, 4);
            bytes::lemma_le_bytes_len(self.modulus(), 256);
            bytes::lemma_le_bytes_len(pow2(4096) % self.modulus(), 256);
            bytes::lemma_le_bytes_len(self.exponent(), 4);
        }
        out
    }

    /// The public key line: the encoded public key in base64, a space and a name.
    pub fn android_pubkey_line(&self, name: &str) -> (r: String)
        requires
            self.well_formed(),
            self.size() >= 4,
        ensures
            r@ == radix64::base64(encoded_key(self.modulus(), self.exponent())) + " "@ + name@,
    {
        let encoded = radix64::to_base64(self.encode_android_pubkey().as_slice());
        text::join3(encoded.as_str(), " ", name)
    }
}

/// The lowest four bytes denote the remainder by two to the power of thirty-two.
proof fn lemma_low_word(s: Seq<u8>)
    requires
        s.len() >= 4,
    ensures
        bytes::le_value(s.subrange(0, 4)) == bytes::le_value(s) % 0x1_0000_0000,
{
    let low = s.subrange(0, 4);
    reveal_with_fuel(bytes::le_value, 5);
    assert(low.skip(1)[0] == s[1]);
    assert(low.skip(1).skip(1)[0] == s[2]);
    assert(low.skip(1).skip(1).skip(1)[0] == s[3]);
    assert(low.skip(1).skip(1).skip(1).skip(1).len() == 0);
    assert(s.skip(1)[0] == s[1]);
    assert(s.skip(1).skip(1)[0] == s[2]);
    assert(s.skip(1).skip(1).skip(1)[0] == s[3]);
}

/// A key that is written out as PEM and read again, whatever whitespace was put
/// around it, is the same key.
pub proof fn law_key_survives_storage(key: AdbKey, again: AdbKey, stored: Seq<char>)
    requires
        key.well_formed(),
        text::trim(stored) == text::trim(key.pem()),
        again.is_read_from(text::trim(stored)),
    ensures
        again.pem() == key.pem(),
        again.der() == key.der(),
        again.modulus() == key.modulus(),
        again.exponent() == key.exponent(),
{
}

/// The negative inverse that is written times an odd modulus is minus one, modulo
/// two to the power of thirty-two.
pub proof fn law_negative_inverse(modulus: nat)
    requires
        modulus % 2 == 1,
    ensures
        (modulus * negative_inverse(modulus) + 1) % 0x1_0000_0000 == 0,
{
    let m = 0x1_0000_0000int;
    let n0 = (modulus % 0x1_0000_0000) as u32;
    lemma_lifted(n0, 5);
    lemma_precision();
    let inv = lifted(n0, 5);
    let k = negative_inverse(modulus) as int;
    assert(n0 * inv % m == 1);
    vstd::arithmetic::div_mod::lemma_mul_mod_noop_left(modulus as int, inv, m);
    assert(modulus * inv % m == 1);
    assert(inv != 0) by {
        if inv == 0 {
            assert(modulus * inv == 0) by (nonlinear_arith)
                requires
                    inv == 0,
            ;
        }
    }
    assert(k == m - inv);
    assert(modulus * k == modulus * m - modulus * inv) by (nonlinear_arith)
        requires
            k == m - inv,
    ;
    let t = (modulus * inv) / m;
    vstd::arithmetic::div_mod::lemma_fundamental_div_mod(modulus * inv, m);
    assert(modulus * k + 1 == m * (modulus - t));
    vstd::arithmetic::div_mod::lemma_mod_multiples_basic(modulus - t, m);
    assert(m * (modulus - t) == (modulus - t) * m);
}

/// Bytes are copied from the first on; what is missing is filled up with zeros, and
/// what is too much left out.
pub proof fn law_padding_is_zero(data: &[u8], len: usize, out: Vec<u8>)
    requires
        write_le_padded.ensures((data, len), out),
    ensures
        out@.len() == len,
        forall|i: int| 0 <= i < len && i < data@.len() ==> out@[i] == data@[i],
        forall|i: int| data@.len() <= i < len ==> out@[i] == 0,
{
}

proof fn lemma_word_range()
    ensures
        bytes::bytes_range(4) == 0x1_0000_0000,
{
    reveal_with_fuel(bytes::bytes_range, 5);
}

/// The encoded public key holds five numbers, each with its lowest byte first: how
/// many words the modulus takes, a word whose product with an odd modulus ends in
/// minus one, the modulus, two to the power of 4096 modulo it, and the exponent.
pub proof fn law_encoded_key_holds_five_numbers(key: AdbKey, out: Vec<u8>)
    requires
        key.well_formed(),
        key.size() >= 4,
        call_ensures(AdbKey::encode_android_pubkey, (&key,), out),
    ensures
        out@.len() == 4 + 4 + 256 + 256 + 4,
        bytes::le_value(out@.subrange(0, 4)) * 32 == 2048,
        key.modulus() % 2 == 1 ==> (key.modulus() * bytes::le_value(out@.subrange(4, 8)) + 1)
            % 0x1_0000_0000 == 0,
        key.modulus() <= bytes::bytes_range(256) ==> bytes::le_value(out@.subrange(264, 520))
            == pow2(4096) % key.modulus(),
        key.modulus() < bytes::bytes_range(256) ==> bytes::le_value(out@.subrange(8, 264))
            == key.modulus(),
        key.exponent() < 0x1_0000_0000 ==> bytes::le_value(out@.subrange(520, 524))
            == key.exponent(),
{
    let n = key.modulus();
    let e = key.exponent();
    let inverse = negative_inverse(n);
    let rr = pow2(4096) % n;
    bytes::lemma_le_bytes_len(64, 4);
    bytes::lemma_le_bytes_len(inverse, 4);
    bytes::lemma_le_bytes_len(n, 256);
    bytes::lemma_le_bytes_len(rr, 256);
    bytes::lemma_le_bytes_len(e, 4);
    assert(out@.subrange(0, 4) =~= bytes::le_bytes(64, 4));
    assert(out@.subrange(4, 8) =~= bytes::le_bytes(inverse, 4));
    assert(out@.subrange(8, 264) =~= bytes::le_bytes(n, 256));
    assert(out@.subrange(264, 520) =~= bytes::le_bytes(rr, 256));
    assert(out@.subrange(520, 524) =~= bytes::le_bytes(e, 4));
    lemma_word_range();
    bytes::law_le_round_trip(64, 4);
    bytes::law_le_round_trip(inverse, 4);
    if n % 2 == 1 {
        law_negative_inverse(n);
    }
    if n < bytes::bytes_range(256) {
        bytes::law_le_round_trip(n, 256);
    }
    if n <= bytes::bytes_range(256) {
        bytes::law_le_round_trip(rr, 256);
    }
    if e < 0x1_0000_0000 {
        bytes::law_le_round_trip(e, 4);
    }
}

/// The public key line is the encoded public key as text, and ends with a space and
/// the name.
pub proof fn law_public_key_line_names_the_key(
    key: AdbKey,
    name: &str,
    line: String,
    encoded: Vec<u8>,
)
    requires
        key.well_formed(),
        key.size() >= 4,
        call_ensures(AdbKey::android_pubkey_line, (&key, name), line),
        call_ensures(AdbKey::encode_android_pubkey, (&key,), encoded),
    ensures
        line@ == radix64::base64(encoded@) + seq![' '] + name@,
{
    reveal_strlit(" ");
    assert(" "@ =~= seq![' ']);
}

/// A key is read from a text exactly as from what is left of it without the white
/// space around it, and then written back as it was read.
pub proof fn law_white_space_around_a_key_is_ignored(
    a: &str,
    b: &str,
    from_a: Result<AdbKey, AdbError>,
    from_b: Result<AdbKey, AdbError>,
)
    requires
        text::trim(a@) == text::trim(b@),
        call_ensures(AdbKey::from_pkcs8_pem, (a,), from_a),
        call_ensures(AdbKey::from_pkcs8_pem, (b,), from_b),
    ensures
        from_a is Ok <==> from_b is Ok,
        from_a matches Ok(x) ==> (from_b matches Ok(y) ==> x.pem() == y.pem() && x.der() == y.der()
            && x.modulus() == y.modulus() && x.exponent() == y.exponent()),
{
}

} // verus!
