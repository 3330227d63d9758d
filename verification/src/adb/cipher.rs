//! The cipher that protects the exchange of public keys during pairing: AES-128 in
//! Galois/counter mode, keyed from the shared secret, with a counter per direction.

use aes_gcm::aead::Aead;
use aes_gcm::KeyInit;
use vstd::prelude::*;

use crate::adb::{is_protocol, protocol, AdbError};
use crate::bytes;

verus! {

/// The error of the cipher, which tells nothing.
#[verifier::external_type_specification]
#[verifier::external_body]
pub struct ExGcmError(aes_gcm::Error);

/// The sixteen bytes that are derived from a secret for a purpose.
pub uninterp spec fn hkdf_sha256(secret: Seq<u8>, purpose: Seq<u8>) -> Seq<u8>;

/// What sealing a text under a key and a nonce gives.
pub uninterp spec fn gcm_sealed(key: Seq<u8>, nonce: Seq<u8>, text: Seq<u8>) -> Seq<u8>;

/// What opening a sealed text under a key and a nonce gives, if it is genuine.
pub uninterp spec fn gcm_opened(key: Seq<u8>, nonce: Seq<u8>, sealed: Seq<u8>) -> Option<Seq<u8>>;

/// The longest text that can be sealed, in bytes.
pub const MAX_TEXT: u64 = 0x10_0000_0000;

/// Calls `hkdf::Hkdf::<sha2::Sha256>::new` without a salt and `expand` to sixteen
/// bytes: the result follows from the secret and the purpose alone.
#[verifier::external_body]
fn derive(secret: &[u8], purpose: &[u8]) -> (r: Vec<u8>)
    ensures
        r@ == hkdf_sha256(secret@, purpose@),
        r@.len() == 16,
{
    let mut key = vec![0u8; 16];
    let source = hkdf::Hkdf::<sha2::Sha256>::new(None, secret);
    source.expand(purpose, &mut key).expect("sixteen bytes are not too many");
    key
}

/// Calls `aes_gcm::aead::Aead::encrypt` of `aes_gcm::Aes128Gcm` without associated
/// data: a text that is not too long is sealed, sixteen bytes longer than it was,
/// and opening it again under the same key and nonce gives the text back.
#[verifier::external_body]
fn seal(key: &[u8], nonce: &[u8], text: &[u8]) -> (r: Result<Vec<u8>, aes_gcm::Error>)
    requires
        key@.len() == 16,
        nonce@.len() == 12,
    ensures
        match r {
            Ok(out) => {
                &&& text@.len() <= MAX_TEXT
                &&& out@ == gcm_sealed(key@, nonce@, text@)
                &&& out@.len() == text@.len() + 16
                &&& gcm_opened(key@, nonce@, out@) == Some(text@)
            },
            Err(_) => text@.len() > MAX_TEXT,
        },
{
    let cipher = aes_gcm::Aes128Gcm::new(aes_gcm::Key::<aes_gcm::Aes128Gcm>::from_slice(key));
    cipher.encrypt(aes_gcm::Nonce::from_slice(nonce), text)
}

/// Calls `aes_gcm::aead::Aead::decrypt` of `aes_gcm::Aes128Gcm` without associated
/// data: whether a sealed text is genuine, and what it holds, follows from the key,
/// the nonce and the sealed text alone.
#[verifier::external_body]
fn unseal(key: &[u8], nonce: &[u8], sealed: &[u8]) -> (r: Result<Vec<u8>, aes_gcm::Error>)
    requires
        key@.len() == 16,
        nonce@.len() == 12,
    ensures
        match r {
            Ok(text) => gcm_opened(key@, nonce@, sealed@) == Some(text@),
            Err(_) => gcm_opened(key@, nonce@, sealed@) is None,
        },
{
    let cipher = aes_gcm::Aes128Gcm::new(aes_gcm::Key::<aes_gcm::Aes128Gcm>::from_slice(key));
    cipher.decrypt(aes_gcm::Nonce::from_slice(nonce), sealed)
}

/// The purpose that the key is derived for.
pub open spec fn key_purpose() -> Seq<u8> {
    vstd::utf8::encode_utf8("adb pairing_auth aes-128-gcm key"@)
}

/// The nonce of a message: its number in eight bytes, the lowest first, and four
/// zeros.
pub open spec fn nonce_of(seq: u64) -> Seq<u8> {
    bytes::le_bytes(seq as nat, 8) + bytes::padded(Seq::empty(), 4)
}

/// A keyed cipher that counts the messages of each direction.
pub struct Cipher {
    key: Vec<u8>,
    enc_seq: u64,
    dec_seq: u64,
}

impl Cipher {
    /// The key.
    pub closed spec fn key(self) -> Seq<u8> {
        self.key@
    }

    /// How many messages were sealed.
    pub closed spec fn sealed(self) -> u64 {
        self.enc_seq
    }

    /// How many messages were opened.
    pub closed spec fn opened(self) -> u64 {
        self.dec_seq
    }

    /// The key has the right size.
    pub closed spec fn well_formed(self) -> bool {
        self.key@.len() == 16
    }

    /// Derives the key from the shared secret. Both counters start at zero.
    pub fn from_spake2_key(key_material: &[u8]) -> (c: Self)
        ensures
            c.well_formed(),
            c.key() == hkdf_sha256(key_material@, key_purpose()),
            c.sealed() == 0,
            c.opened() == 0,
    {
        let purpose = "adb pairing_auth aes-128-gcm key";
        Cipher { key: derive(key_material, purpose.as_bytes()), enc_seq: 0, dec_seq: 0 }
    }

    /// The nonce of a message.
    pub fn nonce(seq: u64) -> (n: Vec<u8>)
        ensures
            n@ == nonce_of(seq),
            n@.len() == 12,
    {
        let mut n: Vec<u8> = Vec::new();
        let mut rest: u64 = seq;
        let mut i: usize = 0;
        let ghost all = bytes::le_bytes(seq as nat, 8);
        assert(Seq::<u8>::empty() + all =~= all);
        while i < 8
            invariant
                i <= 8,
                n@.len() == i,
                all == n@ + bytes::le_bytes(rest as nat, (8 - i) as nat),
            decreases 8 - i,
        {
            let ghost before = n@;
            n.push((rest % 256) as u8);
            assert(before + bytes::le_bytes(rest as nat, (8 - i) as nat) =~= n@ + bytes::le_bytes(
                rest as nat / 256,
                (7 - i) as nat,
            ));
            rest = rest / 256;
            i = i + 1;
        }
        assert(bytes::le_bytes(rest as nat, 0) =~= Seq::<u8>::empty());
        assert(n@ =~= all);
        n.push(0);
        n.push(0);
        n.push(0);
        n.push(0);
        assert(n@ =~= nonce_of(seq));
        n
    }

    /// Seals a text under the number of messages sealed so far, and counts it.
    /// Opening it under the same key and number gives the text back.
    pub fn encrypt(&mut self, plaintext: &[u8]) -> (r: Result<Vec<u8>, AdbError>)
        requires
            old(self).well_formed(),
            old(self).sealed() < u64::MAX,
        ensures
            final(self).well_formed(),
            encrypts(*old(self), plaintext@, *final(self), r),
    {
        let nonce = Self::nonce(self.enc_seq);
        match seal(self.key.as_slice(), nonce.as_slice(), plaintext) {
            Ok(out) => {
                self.enc_seq = self.enc_seq + 1;
                Ok(out)
            },
            Err(_) => Err(protocol("aes-gcm encrypt failed".to_string())),
        }
    }

    /// Opens a sealed text under the number of messages opened so far, and counts
    /// it if it is genuine.
    pub fn decrypt(&mut self, ciphertext: &[u8]) -> (r: Result<Vec<u8>, AdbError>)
        requires
            old(self).well_formed(),
            old(self).opened() < u64::MAX,
        ensures
            final(self).well_formed(),
            decrypts(*old(self), ciphertext@, *final(self), r),
    {
        let nonce = Self::nonce(self.dec_seq);
        match unseal(self.key.as_slice(), nonce.as_slice(), ciphertext) {
            Ok(text) => {
                self.dec_seq = self.dec_seq + 1;
                Ok(text)
            },
            Err(_) => Err(protocol("aes-gcm decrypt failed".to_string())),
        }
    }
}

/// Whether sealing a text took a cipher from `before` to `after` with result `r`: a
/// text that is not too long is sealed under the number of messages sealed so far,
/// which goes up by one.
pub open spec fn encrypts(
    before: Cipher,
    text: Seq<u8>,
    after: Cipher,
    r: Result<Vec<u8>, AdbError>,
) -> bool {
    &&& after.key() == before.key()
    &&& after.opened() == before.opened()
    &&& match r {
        Ok(out) => {
            &&& text.len() <= MAX_TEXT
            &&& after.sealed() == before.sealed() + 1
            &&& out@ == gcm_sealed(before.key(), nonce_of(before.sealed()), text)
            &&& out@.len() == text.len() + 16
            &&& gcm_opened(before.key(), nonce_of(before.sealed()), out@) == Some(text)
        },
        Err(e) => {
            &&& text.len() > MAX_TEXT
            &&& after.sealed() == before.sealed()
            &&& is_protocol(e, "aes-gcm encrypt failed"@)
        },
    }
}

/// Whether opening a sealed text took a cipher from `before` to `after` with result
/// `r`: one that is genuine under the number of messages opened so far is opened,
/// and the number goes up by one.
pub open spec fn decrypts(
    before: Cipher,
    sealed: Seq<u8>,
    after: Cipher,
    r: Result<Vec<u8>, AdbError>,
) -> bool {
    let opened = gcm_opened(before.key(), nonce_of(before.opened()), sealed);
    &&& after.key() == before.key()
    &&& after.sealed() == before.sealed()
    &&& match r {
        Ok(text) => after.opened() == before.opened() + 1 && opened == Some(text@),
        Err(e) => after.opened() == before.opened() && opened is None && is_protocol(
            e,
            "aes-gcm decrypt failed"@,
        ),
    }
}

/// A cipher with the same key that has opened as many messages as the sender has
/// sealed opens the next one, gives the text back, and is ready for the one after.
pub proof fn law_decrypt_undoes_encrypt(
    sender: (Cipher, Cipher),
    text: Seq<u8>,
    sealing: Result<Vec<u8>, AdbError>,
    receiver: (Cipher, Cipher),
    opening: Result<Vec<u8>, AdbError>,
)
    requires
        encrypts(sender.0, text, sender.1, sealing),
        sealing is Ok,
        decrypts(receiver.0, (sealing->Ok_0)@, receiver.1, opening),
        receiver.0.key() == sender.0.key(),
        receiver.0.opened() == sender.0.sealed(),
    ensures
        opening matches Ok(t) && t@ == text,
        receiver.1.key() == sender.1.key(),
        receiver.1.opened() == sender.1.sealed(),
{
}

/// No two messages of one direction share a nonce.
pub proof fn law_nonces_differ(a: u64, b: u64)
    requires
        nonce_of(a) == nonce_of(b),
    ensures
        a == b,
{
    bytes::lemma_le_bytes_len(a as nat, 8);
    bytes::lemma_le_bytes_len(b as nat, 8);
    assert(nonce_of(a).take(8) =~= bytes::le_bytes(a as nat, 8));
    assert(nonce_of(b).take(8) =~= bytes::le_bytes(b as nat, 8));
    assert(bytes::bytes_range(8) == 0x1_0000_0000_0000_0000) by {
        reveal_with_fuel(bytes::bytes_range, 9);
    }
    bytes::law_le_round_trip(a as nat, 8);
    bytes::law_le_round_trip(b as nat, 8);
}

/// A nonce is the number of its message, the lowest byte first, and four zeros.
pub proof fn law_nonce_is_the_number(seq: u64, n: Vec<u8>)
    requires
        Cipher::nonce.ensures((seq,), n),
    ensures
        n@.len() == 12,
        bytes::le_value(n@.take(8)) == seq,
        n@[8] == 0 && n@[9] == 0 && n@[10] == 0 && n@[11] == 0,
{
    bytes::lemma_le_bytes_len(seq as nat, 8);
    assert(n@.take(8) =~= bytes::le_bytes(seq as nat, 8));
    assert(bytes::bytes_range(8) == 0x1_0000_0000_0000_0000) by {
        reveal_with_fuel(bytes::bytes_range, 9);
    }
    bytes::law_le_round_trip(seq as nat, 8);
}

/// Whether a nonce is that of the message with this number.
pub open spec fn numbers(nonce: Seq<u8>, seq: u64) -> bool {
    &&& nonce.len() == 12
    &&& bytes::le_value(nonce.take(8)) == seq
    &&& nonce[8] == 0 && nonce[9] == 0 && nonce[10] == 0 && nonce[11] == 0
}

proof fn lemma_numbers(nonce: Seq<u8>, seq: u64)
    requires
        numbers(nonce, seq),
    ensures
        nonce == nonce_of(seq),
{
    bytes::lemma_bytes_of_value(nonce.take(8));
    assert(nonce =~= nonce.take(8) + bytes::padded(Seq::empty(), 4));
}

/// Each message that is sealed takes the next number for its nonce, and each that is
/// opened the next of the other direction; a message that fails takes none.
pub proof fn law_messages_are_numbered(
    sender: &mut Cipher,
    receiver: &mut Cipher,
    text: &[u8],
    sealed: &[u8],
    sealing: Result<Vec<u8>, AdbError>,
    opening: Result<Vec<u8>, AdbError>,
    nonce: Seq<u8>,
)
    requires
        old(sender).well_formed(),
        old(receiver).well_formed(),
        call_ensures(Cipher::encrypt, (sender, text), sealing),
        call_ensures(Cipher::decrypt, (receiver, sealed), opening),
    ensures
        sealing is Ok <==> text@.len() <= 0x10_0000_0000,
        sealing is Ok ==> final(sender).sealed() == old(sender).sealed() + 1,
        sealing is Err ==> final(sender).sealed() == old(sender).sealed(),
        final(sender).opened() == old(sender).opened(),
        numbers(nonce, old(sender).sealed()) ==> (sealing matches Ok(out) ==> out@ == gcm_sealed(
            old(sender).key(),
            nonce,
            text@,
        )),
        opening is Ok ==> final(receiver).opened() == old(receiver).opened() + 1,
        opening is Err ==> final(receiver).opened() == old(receiver).opened(),
        final(receiver).sealed() == old(receiver).sealed(),
        numbers(nonce, old(receiver).opened()) ==> match gcm_opened(
            old(receiver).key(),
            nonce,
            sealed@,
        ) {
            Some(t) => opening matches Ok(out) && out@ == t,
            None => opening is Err,
        },
        final(sender).key() == old(sender).key(),
        final(receiver).key() == old(receiver).key(),
{
    if numbers(nonce, old(sender).sealed()) {
        lemma_numbers(nonce, old(sender).sealed());
    }
    if numbers(nonce, old(receiver).opened()) {
        lemma_numbers(nonce, old(receiver).opened());
    }
}

/// Two ciphers of one secret understand each other from the first message on, and
/// the other way round as well.
pub proof fn law_ciphers_of_one_secret_agree(secret: &[u8], a: Cipher, b: Cipher)
    requires
        Cipher::from_spake2_key.ensures((secret,), a),
        Cipher::from_spake2_key.ensures((secret,), b),
    ensures
        a.key() == b.key(),
        a.sealed() == b.opened(),
        a.opened() == b.sealed(),
        a.sealed() == 0 && a.opened() == 0,
        a.key() == hkdf_sha256(
            secret@,
            vstd::utf8::encode_utf8("adb pairing_auth aes-128-gcm key"@),
        ),
{
}

} // verus!
