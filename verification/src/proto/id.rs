//! Strongly-typed identifiers and roles.
//!
//! Every identifier is its own type, so that a window id can never be passed
//! where a request id is expected, and malformed values are rejected when they
//! are made.

use vstd::prelude::*;

use crate::number;
use crate::proto::error::ProtoError;
use crate::text;

verus! {

/// The error of the operating system's random source.
#[verifier::external_type_specification]
#[verifier::external_body]
pub struct ExRngError(getrandom::Error);

/// Asks `getrandom::getrandom` for `len` random bytes. On success the whole
/// buffer was filled; nothing is known of the bytes' values.
#[verifier::external_body]
pub(crate) fn random_bytes(len: usize) -> (r: Result<Vec<u8>, getrandom::Error>)
    ensures
        r matches Ok(bytes) ==> bytes@.len() == len,
{
    let mut bytes = vec![0u8; len];
    getrandom::getrandom(&mut bytes)?;
    Ok(bytes)
}

/// Identifies a control session shared by exactly one controller and one
/// runner: 128 bits, rendered as lowercase hex.
#[derive(Debug, Clone, Copy, PartialEq, Eq, Hash)]
pub struct SessionId([u8; 16]);

/// The numeric value of a lowercase hexadecimal digit.
pub open spec fn hex_value(c: char) -> Option<nat> {
    if '0' <= c <= '9' {
        Some((c as int - 48) as nat)
    } else if 'a' <= c <= 'f' {
        Some((c as int - 87) as nat)
    } else {
        None
    }
}

/// Whether `s` is 32 lowercase hexadecimal digits.
pub open spec fn is_session_text(s: Seq<char>) -> bool {
    s.len() == 32 && forall|i: int| 0 <= i < 32 ==> hex_value(#[trigger] s[i]) is Some
}

/// The bytes that 32 hexadecimal digits denote, two digits each.
pub open spec fn session_bytes(s: Seq<char>) -> Seq<u8> {
    Seq::new(
        16,
        |i: int| (hex_value(s[2 * i])->0 * 16 + hex_value(s[2 * i + 1])->0) as u8,
    )
}

/// Decodes one lowercase hexadecimal digit.
pub fn hex_val(c: char) -> (r: Option<u8>)
    ensures
        match r {
            Some(v) => hex_value(c) == Some(v as nat) && v < 16,
            None => hex_value(c) is None,
        },
{
    if '0' <= c && c <= '9' {
        Some(c as u8 - 48)
    } else if 'a' <= c && c <= 'f' {
        Some(c as u8 - 87)
    } else {
        None
    }
}

impl View for SessionId {
    type V = Seq<u8>;

    closed spec fn view(&self) -> Seq<u8> {
        self.0@
    }
}

impl SessionId {
    /// Wraps 16 raw bytes as a session id.
    #[must_use]
    pub fn from_bytes(bytes: [u8; 16]) -> (id: Self)
        ensures
            id@ == bytes@,
    {
        SessionId(bytes)
    }

    /// Returns the underlying 16 bytes.
    #[must_use]
    pub fn as_bytes(&self) -> (bytes: &[u8; 16])
        ensures
            bytes@ == self@,
    {
        &self.0
    }

    /// Samples a fresh random session id from the OS random source. The bytes
    /// are whatever the source gave; its failure is the only error.
    pub fn generate() -> (r: Result<Self, ProtoError>)
        ensures
            match r {
                Ok(id) => id@.len() == 16,
                Err(e) => e is Rng,
            },
    {
        match random_bytes(16) {
            Ok(bytes) => Ok(SessionId::from_slice(&bytes)),
            Err(e) => Err(ProtoError::Rng(e.to_string())),
        }
    }

    /// The session id made of exactly these 16 bytes.
    pub fn from_slice(bytes: &[u8]) -> (id: Self)
        requires
            bytes@.len() == 16,
        ensures
            id@ == bytes@,
    {
        let mut out: [u8; 16] = [0u8; 16];
        let mut i: usize = 0;
        while i < 16
            invariant
                i <= 16,
                bytes@.len() == 16,
                out@.len() == 16,
                forall|k: int| 0 <= k < i ==> out@[k] == bytes@[k],
            decreases 16 - i,
        {
            out[i] = bytes[i];
            i = i + 1;
        }
        assert(out@ =~= bytes@);
        SessionId(out)
    }

    /// Renders the id as 32 lowercase hexadecimal digits.
    pub fn to_string(&self) -> (out: String)
        ensures
            out@ == number::hex(self@),
    {
        let mut bytes: Vec<u8> = Vec::new();
        let mut i: usize = 0;
        while i < 16
            invariant
                i <= 16,
                self.0@.len() == 16,
                bytes@ == self.0@.take(i as int),
            decreases 16 - i,
        {
            bytes.push(self.0[i]);
            i = i + 1;
            assert(self.0@.take(i as int) =~= self.0@.take(i - 1).push(self.0@[i - 1]));
        }
        assert(self.0@.take(16) =~= self.0@);
        number::hex_text(&bytes)
    }

    /// Reads a session id from untrusted text: exactly 32 lowercase hexadecimal
    /// digits, and nothing else, are accepted.
    pub fn from_str(s: &str) -> (r: Result<Self, ProtoError>)
        ensures
            match r {
                Ok(id) => is_session_text(s@) && id@ == session_bytes(s@),
                Err(e) => !is_session_text(s@) && e == ProtoError::InvalidSessionId,
            },
    {
        let chars = text::chars_of(s);
        if chars.len() != 32 {
            return Err(ProtoError::InvalidSessionId);
        }
        let mut out: [u8; 16] = [0u8; 16];
        let mut i: usize = 0;
        while i < 16
            invariant
                i <= 16,
                chars@ == s@,
                chars@.len() == 32,
                out@.len() == 16,
                forall|k: int| 0 <= k < 2 * i ==> hex_value(#[trigger] s@[k]) is Some,
                forall|k: int| 0 <= k < i ==> out@[k] == #[trigger] session_bytes(s@)[k],
            decreases 16 - i,
        {
            match (hex_val(chars[2 * i]), hex_val(chars[2 * i + 1])) {
                (Some(hi), Some(lo)) => {
                    out[i] = hi * 16 + lo;
                },
                _ => {
                    assert(hex_value(s@[2 * i]) is None || hex_value(s@[2 * i + 1]) is None);
                    return Err(ProtoError::InvalidSessionId);
                },
            }
            i = i + 1;
        }
        assert(out@ =~= session_bytes(s@));
        Ok(SessionId(out))
    }
}

/// The text of a session id reads back as the same id.
pub proof fn law_session_id_round_trip(bytes: Seq<u8>)
    requires
        bytes.len() == 16,
    ensures
        is_session_text(number::hex(bytes)),
        session_bytes(number::hex(bytes)) == bytes,
{
    let s = number::hex(bytes);
    assert forall|i: int| 0 <= i < 32 implies hex_value(#[trigger] s[i]) is Some by {
        let d: nat = if i % 2 == 0 { bytes[i / 2] as nat / 16 } else { bytes[i / 2] as nat % 16 };
        assert(s[i] == number::hex_digit(d));
    }
    assert(session_bytes(s) =~= bytes) by {
        assert forall|i: int| 0 <= i < 16 implies session_bytes(s)[i] == bytes[i] by {
            assert(s[2 * i] == number::hex_digit(bytes[i] as nat / 16));
            assert(s[2 * i + 1] == number::hex_digit(bytes[i] as nat % 16));
        }
    }
}

/// The two endpoints of a session. A session admits at most one peer per role.
#[derive(Debug, Clone, Copy, PartialEq, Eq, Hash, Structural)]
pub enum Role {
    /// The side driving the session.
    Controller,
    /// The side executing commands.
    Runner,
}

impl Role {
    /// The opposite endpoint.
    pub open spec fn spec_peer(self) -> Role {
        match self {
            Role::Controller => Role::Runner,
            Role::Runner => Role::Controller,
        }
    }

    /// The opposite endpoint: the peer a message should be forwarded to.
    #[must_use]
    pub fn peer(self) -> (r: Self)
        ensures
            r == self.spec_peer(),
    {
        match self {
            Role::Controller => Role::Runner,
            Role::Runner => Role::Controller,
        }
    }
}

/// Being the peer is mutual, and nobody is their own peer.
pub proof fn law_peer_is_involution(role: Role)
    ensures
        role.spec_peer().spec_peer() == role,
        role.spec_peer() != role,
{
}

/// Monotonically increasing request identifier, scoped to a single controller.
/// Responses and streamed events carry the id of the request they belong to.
#[derive(Debug, Clone, Copy, PartialEq, Eq, Hash, PartialOrd, Ord, Structural)]
pub struct RequestId(pub u64);

impl RequestId {
    /// Renders the id as `#` and its number.
    pub fn to_string(&self) -> (out: String)
        ensures
            out@ == "#"@ + number::decimal(self.0 as nat),
    {
        text::join2("#", number::decimal_text(self.0).as_str())
    }
}

/// A native window handle on the runner, widened to `u64`.
#[derive(Debug, Clone, Copy, PartialEq, Eq, Hash, Structural)]
pub struct WindowId(pub u64);

/// Opaque handle to a UI element, as minted by the runner.
#[derive(Debug, PartialEq, Eq, Hash)]
pub struct ElementId(pub String);

impl Clone for ElementId {
    fn clone(&self) -> (r: Self)
        ensures
            r == *self,
    {
        ElementId(self.0.clone())
    }
}

/// A short, human-transferable pairing code of the form `XXXX-XXXX` (Crockford
/// base32 alphabet). Both sides derive the session key from it.
#[derive(PartialEq, Eq)]
pub struct PairingCode(String);

impl Clone for PairingCode {
    fn clone(&self) -> (r: Self)
        ensures
            r == *self,
    {
        proof {
            use_type_invariant(self);
        }
        PairingCode(self.0.clone())
    }
}

/// Crockford base32: digits and upper-case letters without `I`, `L`, `O`, `U`.
pub open spec fn is_code_char(c: char) -> bool {
    ||| '0' <= c <= '9'
    ||| 'A' <= c <= 'H'
    ||| c == 'J'
    ||| c == 'K'
    ||| c == 'M'
    ||| c == 'N'
    ||| 'P' <= c <= 'T'
    ||| 'V' <= c <= 'Z'
}

/// Whether `s` is a normalized code: four characters, `-`, four characters.
pub open spec fn is_code(s: Seq<char>) -> bool {
    &&& s.len() == 9
    &&& s[4] == '-'
    &&& forall|i: int| 0 <= i < 9 && i != 4 ==> is_code_char(#[trigger] s[i])
}

/// The normal form of what a person typed: surrounding white space removed,
/// letters in upper case.
pub open spec fn normalized(raw: Seq<char>) -> Seq<char> {
    text::uppercase(text::trim(raw))
}

/// The alphabet in order.
pub open spec fn code_alphabet() -> Seq<char> {
    "0123456789ABCDEFGHJKMNPQRSTVWXYZ"@
}

/// The code that eight random bytes select: the remainder of each byte by 32 is
/// an index into the alphabet.
pub open spec fn code_of(bytes: Seq<u8>) -> Seq<char> {
    Seq::new(
        9,
        |i: int|
            if i < 4 {
                code_alphabet()[bytes[i] as int % 32]
            } else if i == 4 {
                '-'
            } else {
                code_alphabet()[bytes[i - 1] as int % 32]
            },
    )
}

fn code_char(c: char) -> (r: bool)
    ensures
        r == is_code_char(c),
{
    ('0' <= c && c <= '9') || ('A' <= c && c <= 'H') || c == 'J' || c == 'K' || c == 'M' || c
        == 'N' || ('P' <= c && c <= 'T') || ('V' <= c && c <= 'Z')
}

impl View for PairingCode {
    type V = Seq<char>;

    closed spec fn view(&self) -> Seq<char> {
        self.0@
    }
}

impl PairingCode {
    /// Every pairing code is in normal form.
    #[verifier::type_invariant]
    spec fn well_formed(self) -> bool {
        is_code(self.0@)
    }

    /// Validates and normalizes a pairing code to upper-case `XXXX-XXXX`.
    pub fn parse(raw: &str) -> (r: Result<Self, ProtoError>)
        ensures
            match r {
                Ok(code) => is_code(normalized(raw@)) && code@ == normalized(raw@),
                Err(e) => !is_code(normalized(raw@)) && e == ProtoError::InvalidPairingCode,
            },
    {
        let chars = text::chars_of(raw);
        let plain = text::trimmed(&chars);
        let norm = text::uppercased(&plain);
        if norm.len() != 9 {
            return Err(ProtoError::InvalidPairingCode);
        }
        if norm[4] != '-' {
            return Err(ProtoError::InvalidPairingCode);
        }
        let mut i: usize = 0;
        while i < 9
            invariant
                i <= 9,
                norm@.len() == 9,
                norm@ == normalized(raw@),
                forall|k: int| 0 <= k < i && k != 4 ==> is_code_char(#[trigger] norm@[k]),
            decreases 9 - i,
        {
            if i != 4 && !code_char(norm[i]) {
                assert(!is_code_char(norm@[i as int]));
                return Err(ProtoError::InvalidPairingCode);
            }
            i = i + 1;
        }
        Ok(PairingCode(text::string_of(&norm)))
    }

    /// The code that eight bytes select. The 32-character alphabet divides 256
    /// evenly, so each character is equally likely for uniform bytes.
    pub fn from_random(bytes: &[u8]) -> (code: Self)
        requires
            bytes@.len() == 8,
        ensures
            code@ == code_of(bytes@),
    {
        let alphabet = text::chars_of("0123456789ABCDEFGHJKMNPQRSTVWXYZ");
        proof {
            reveal_strlit("0123456789ABCDEFGHJKMNPQRSTVWXYZ");
        }
        let mut code = String::new();
        let mut i: usize = 0;
        while i < 8
            invariant
                i <= 8,
                bytes@.len() == 8,
                alphabet@ == code_alphabet(),
                alphabet@.len() == 32,
                code@ == code_of(bytes@).take(if i > 4 { i + 1 } else { i as int }),
            decreases 8 - i,
        {
            if i == 4 {
                code.push('-');
                assert(code@ =~= code_of(bytes@).take(5));
            }
            code.push(alphabet[(bytes[i] % 32) as usize]);
            i = i + 1;
            assert(code@ =~= code_of(bytes@).take(if i > 4 { i + 1 } else { i as int }));
        }
        assert(code@ =~= code_of(bytes@));
        proof {
            law_generated_code_is_valid(bytes@);
        }
        PairingCode(code)
    }

    /// Samples a fresh `XXXX-XXXX` pairing code from the OS random source.
    pub fn generate() -> (r: Result<Self, ProtoError>)
        ensures
            match r {
                Ok(code) => exists|bytes: Seq<u8>|
                    bytes.len() == 8 && code@ == #[trigger] code_of(bytes),
                Err(e) => e is Rng,
            },
    {
        match random_bytes(8) {
            Ok(bytes) => Ok(PairingCode::from_random(&bytes)),
            Err(e) => Err(ProtoError::Rng(e.to_string())),
        }
    }

    /// The fixed pairing used where the transport itself authenticates the
    /// caller. It is intentionally public.
    #[must_use]
    pub fn tailnet_auto() -> (code: Self)
        ensures
            code@ == "TNET-0000"@,
    {
        proof {
            reveal_strlit("TNET-0000");
        }
        PairingCode("TNET-0000".to_owned())
    }

    /// The normalized code as a string slice, for key derivation or display.
    #[must_use]
    pub fn as_str(&self) -> (s: &str)
        ensures
            s@ == self@,
            is_code(self@),
    {
        proof {
            use_type_invariant(self);
        }
        self.0.as_str()
    }

    /// The code as it is shown to a person.
    pub fn to_string(&self) -> (out: String)
        ensures
            out@ == self@,
    {
        self.0.clone()
    }

    /// What a log shows in place of the code, which is a secret.
    pub fn redacted(&self) -> (out: String)
        ensures
            out@ == "PairingCode(****-****)"@,
    {
        "PairingCode(****-****)".to_owned()
    }
}

/// Whatever bytes were sampled, the code they select is well formed.
pub proof fn law_generated_code_is_valid(bytes: Seq<u8>)
    requires
        bytes.len() == 8,
    ensures
        is_code(code_of(bytes)),
{
    reveal_strlit("0123456789ABCDEFGHJKMNPQRSTVWXYZ");
    assert forall|i: int| 0 <= i < 9 && i != 4 implies is_code_char(#[trigger] code_of(bytes)[i]) by {
        let k = if i < 4 { bytes[i] as int % 32 } else { bytes[i - 1] as int % 32 };
        assert(code_of(bytes)[i] == code_alphabet()[k]);
    }
}

/// Normalizing a well-formed code leaves it as it is, so a code that was parsed,
/// generated or fixed parses to itself.
pub proof fn law_code_parses_to_itself(s: Seq<char>)
    requires
        is_code(s),
    ensures
        normalized(s) == s,
{
    assert(is_code_char(s[0]));
    assert(is_code_char(s[8]));
    assert(text::trim_start(s) == s);
    assert(text::trim_end(s) == s);
    assert forall|i: int| 0 <= i < 9 implies text::upper(s[i]) == s[i] by {
        assert(i != 4 ==> is_code_char(s[i]));
    }
    assert(text::uppercase(s) =~= s);
}

/// The fixed pairing is a well-formed code.
pub proof fn law_tailnet_auto_is_valid()
    ensures
        is_code("TNET-0000"@),
{
    reveal_strlit("TNET-0000");
}

/// Reading the text of a session id gives the id, and a text that is read is the one
/// that the id is written as.
pub proof fn law_session_text_is_faithful(id: SessionId, s: &str, r: Result<SessionId, ProtoError>)
    requires
        call_ensures(SessionId::from_str, (s,), r),
    ensures
        id@.len() == 16 && s@ == number::hex(id@) ==> (r matches Ok(back) && back@ == id@),
        r matches Ok(read) ==> s@ == number::hex(read@) && s@.len() == 32,
{
    if id@.len() == 16 {
        law_session_id_round_trip(id@);
    }
    if let Ok(read) = r {
        let t = number::hex(read@);
        assert forall|i: int| 0 <= i < 32 implies s@[i] == #[trigger] t[i] by {
            let k = i / 2;
            assert(hex_value(s@[2 * k]) is Some && hex_value(s@[2 * k + 1]) is Some);
            assert(read@[k] == session_bytes(s@)[k]);
            let (hi, lo) = (hex_value(s@[2 * k])->0, hex_value(s@[2 * k + 1])->0);
            assert(hi < 16 && lo < 16);
            assert((hi * 16 + lo) / 16 == hi && (hi * 16 + lo) % 16 == lo);
            if i % 2 == 0 {
                assert(i == 2 * k);
            } else {
                assert(i == 2 * k + 1);
            }
        }
        assert(s@ =~= t);
    }
}

/// A hexadecimal digit is a figure or a lower-case letter up to `f`, and counts from
/// zero to fifteen in that order.
pub proof fn law_hex_digit_value(c: char, r: Option<u8>)
    requires
        hex_val.ensures((c,), r),
    ensures
        r is Some <==> '0' <= c <= '9' || 'a' <= c <= 'f',
        '0' <= c <= '9' ==> (r matches Some(v) && v == c as int - '0' as int),
        'a' <= c <= 'f' ==> (r matches Some(v) && v == 10 + (c as int - 'a' as int)),
{
}

/// A pairing code that is read has the form of two groups of four, without the
/// letters that read like others; typing it in another case or with white space
/// around it makes no difference.
pub proof fn law_pairing_code_is_read_loosely(
    raw: &str,
    other: &str,
    r: Result<PairingCode, ProtoError>,
    s: Result<PairingCode, ProtoError>,
)
    requires
        text::uppercase(text::trim(raw@)) == text::uppercase(text::trim(other@)),
        call_ensures(PairingCode::parse, (raw,), r),
        call_ensures(PairingCode::parse, (other,), s),
    ensures
        r is Ok <==> s is Ok,
        r matches Ok(a) ==> (s matches Ok(b) && a@ == b@),
        r matches Ok(code) ==> {
            &&& code@ == text::uppercase(text::trim(raw@))
            &&& code@.len() == 9 && code@[4] == '-'
            &&& forall|i: int|
                0 <= i < 9 && i != 4 ==> ('0' <= #[trigger] code@[i] <= '9' || 'A' <= code@[i]
                    <= 'Z') && code@[i] != 'I' && code@[i] != 'L' && code@[i] != 'O' && code@[i]
                    != 'U'
        },
        ({
            let norm = text::uppercase(text::trim(raw@));
            norm.len() == 9 && norm[4] == '-' && (forall|i: int|
                0 <= i < 9 && i != 4 ==> ('0' <= #[trigger] norm[i] <= '9' || 'A' <= norm[i] <= 'Z')
                    && norm[i] != 'I' && norm[i] != 'L' && norm[i] != 'O' && norm[i] != 'U')
        }) ==> r is Ok,
{
    let norm = text::uppercase(text::trim(raw@));
    if norm.len() == 9 && norm[4] == '-' && (forall|i: int|
        0 <= i < 9 && i != 4 ==> ('0' <= #[trigger] norm[i] <= '9' || 'A' <= norm[i] <= 'Z')
            && norm[i] != 'I' && norm[i] != 'L' && norm[i] != 'O' && norm[i] != 'U') {
        assert forall|i: int| 0 <= i < 9 && i != 4 implies is_code_char(#[trigger] norm[i]) by {}
    }
    if let Ok(code) = r {
        assert forall|i: int| 0 <= i < 9 && i != 4 implies ('0' <= #[trigger] code@[i] <= '9' || 'A'
            <= code@[i] <= 'Z') && code@[i] != 'I' && code@[i] != 'L' && code@[i] != 'O' && code@[i]
            != 'U' by {
            assert(is_code_char(norm[i]));
        }
    }
}

/// The peer of a controller is a runner, and that of a runner a controller.
pub proof fn law_peers_differ(role: Role, r: Role)
    requires
        call_ensures(Role::peer, (role,), r),
    ensures
        r != role,
{
}

/// A code made of random bytes depends on each of them: bytes that differ by less
/// than the alphabet's size give different codes.
pub proof fn law_random_codes_differ(a: &[u8], b: &[u8], x: PairingCode, y: PairingCode, i: int)
    requires
        a@.len() == 8 && b@.len() == 8,
        call_ensures(PairingCode::from_random, (a,), x),
        call_ensures(PairingCode::from_random, (b,), y),
        0 <= i < 8,
        a@[i] as int % 32 != b@[i] as int % 32,
    ensures
        x@ != y@,
{
    reveal_strlit("0123456789ABCDEFGHJKMNPQRSTVWXYZ");
    let k = if i < 4 {
        i
    } else {
        i + 1
    };
    let (p, q) = (a@[i] as int % 32, b@[i] as int % 32);
    assert(x@[k] == code_alphabet()[p]);
    assert(y@[k] == code_alphabet()[q]);
    assert(code_alphabet()[p] != code_alphabet()[q]);
}

} // verus!
