//! Key pairs and their hexadecimal form.
//!
//! A key is held as the bytes that stand for it: a public key as the 48
//! bytes of its compressed curve point, a secret key as the 32 bytes of its
//! serialisation as secret material. The curve arithmetic is
//! `threshold_crypto`'s and the serialisation of a secret key is `bincode`'s;
//! this module decides which hexadecimal texts are keys, and when a public key
//! belongs to a secret key.

use crate::errors::{Error, ErrorView, ResultReturn};
use crate::hex::{bytes_to_hex, hex_decode, hex_encode, lemma_decode_encode, parse_hex};
use vstd::prelude::*;

verus! {

/// Number of bytes in the representation of a public key.
pub const PK_SIZE: usize = 48;

/// Number of bytes in the serialisation of a secret key.
pub const SK_SIZE: usize = 32;

/// The representation of the public key that `bytes` encode, as
/// `threshold_crypto::PublicKey::from_bytes` reads them and
/// `PublicKey::to_bytes` writes the key again; `None` where they encode no
/// point of the curve.
pub uninterp spec fn public_key_of_bytes(bytes: Seq<u8>) -> Option<Seq<u8>>;

/// The serialisation of the secret key that `bincode` reads from `bytes`;
/// `None` where it reads none.
pub uninterp spec fn secret_key_of_bytes(bytes: Seq<u8>) -> Option<Seq<u8>>;

/// The representation of the public key that belongs to the secret key
/// serialised as `secret`.
pub uninterp spec fn public_key_of_secret(secret: Seq<u8>) -> Seq<u8>;

/// Whether `bytes` are the representation of a public key as the curve
/// library writes it: [`PK_SIZE`] bytes that read back as themselves.
pub open spec fn is_public_key(bytes: Seq<u8>) -> bool {
    bytes.len() == PK_SIZE && public_key_of_bytes(bytes) == Some(bytes)
}

/// Whether `bytes` are the serialisation of a secret key as this library
/// holds it: [`SK_SIZE`] bytes that read back as themselves.
pub open spec fn is_secret_key(bytes: Seq<u8>) -> bool {
    bytes.len() == SK_SIZE && secret_key_of_bytes(bytes) == Some(bytes)
}

/// Calls `threshold_crypto::PublicKey::from_bytes` and, where that accepts the
/// bytes, `PublicKey::to_bytes` on the key. The contract claims only that the
/// outcome is a function of the bytes.
#[verifier::external_body]
fn decode_public_key(bytes: &[u8; 48]) -> (key: Option<[u8; 48]>)
    ensures
        match key {
            Some(k) => public_key_of_bytes(bytes@) == Some(k@),
            None => public_key_of_bytes(bytes@) is None,
        },
{
    match threshold_crypto::PublicKey::from_bytes(bytes) {
        Ok(key) => Some(key.to_bytes()),
        Err(_) => None,
    }
}

/// Calls `bincode::deserialize` for a `threshold_crypto::SecretKey` and, where
/// that yields a key, `bincode::serialize` on the key wrapped in
/// `SerdeSecret`. The contract claims that the outcome is a function of the
/// bytes, that a serialisation has 32 bytes (four 64-bit limbs of a field
/// element), and that a serialisation read again gives the same key and so
/// the same serialisation.
#[verifier::external_body]
fn decode_secret_key(bytes: &[u8]) -> (key: Option<Vec<u8>>)
    ensures
        match key {
            Some(k) => {
                &&& secret_key_of_bytes(bytes@) == Some(k@)
                &&& secret_key_of_bytes(k@) == Some(k@)
                &&& k@.len() == 32
            },
            None => secret_key_of_bytes(bytes@) is None,
        },
{
    match bincode::deserialize::<threshold_crypto::SecretKey>(bytes) {
        Ok(key) => bincode::serialize(&threshold_crypto::serde_impl::SerdeSecret(&key)).ok(),
        Err(_) => None,
    }
}

/// Reads the secret key back with `bincode::deserialize` and calls
/// `threshold_crypto::SecretKey::public_key` and `PublicKey::to_bytes`. The
/// contract admits only bytes that are the serialisation of a key, so that
/// reading them cannot fail. It claims only that the public key is a function
/// of the secret key's serialisation.
#[verifier::external_body]
fn derive_public_key(secret: &[u8]) -> (key: [u8; 48])
    requires
        secret_key_of_bytes(secret@) == Some(secret@),
    ensures
        key@ == public_key_of_secret(secret@),
{
    let key: threshold_crypto::SecretKey = bincode::deserialize(secret).expect(
        "the bytes are the serialisation of a secret key",
    );
    key.public_key().to_bytes()
}

/// Calls `threshold_crypto::SecretKey::random` and serialises the key as
/// `decode_secret_key` does. Nothing is claimed of which key comes out, only
/// that the bytes are the 32-byte serialisation of a secret key.
#[verifier::external_body]
fn random_secret_key() -> (key: Vec<u8>)
    ensures
        secret_key_of_bytes(key@) == Some(key@),
        key@.len() == 32,
{
    let key = threshold_crypto::SecretKey::random();
    bincode::serialize(&threshold_crypto::serde_impl::SerdeSecret(&key)).expect(
        "a secret key can be serialised",
    )
}

/// A public key: the 48 bytes of a compressed curve point.
#[derive(Debug, Clone, Copy, PartialEq, Eq)]
pub struct PublicKey {
    bytes: [u8; 48],
}

impl View for PublicKey {
    type V = Seq<u8>;

    closed spec fn view(&self) -> Seq<u8> {
        self.bytes@
    }
}

impl PublicKey {
    /// The key that `bytes` encode, if they encode a point of the curve.
    pub fn from_bytes(bytes: &[u8; 48]) -> (key: Option<PublicKey>)
        ensures
            match key {
                Some(k) => public_key_of_bytes(bytes@) == Some(k@),
                None => public_key_of_bytes(bytes@) is None,
            },
    {
        match decode_public_key(bytes) {
            Some(canonical) => Some(PublicKey { bytes: canonical }),
            None => None,
        }
    }

    /// The 48 bytes of the key.
    pub fn to_bytes(&self) -> (bytes: [u8; 48])
        ensures
            bytes@ == self@,
    {
        self.bytes
    }

    /// A key never has another length.
    pub proof fn lemma_len(self)
        ensures
            self@.len() == 48,
    {
    }
}

/// A secret key: the 32 bytes of its serialisation as secret material.
pub struct SecretKey {
    bytes: Vec<u8>,
}

impl View for SecretKey {
    type V = Seq<u8>;

    closed spec fn view(&self) -> Seq<u8> {
        self.bytes@
    }
}

impl SecretKey {
    /// Every secret key is the serialisation of a key.
    #[verifier::type_invariant]
    pub closed spec fn wf(self) -> bool {
        is_secret_key(self.bytes@)
    }

    /// What the invariant says of the key's bytes.
    pub proof fn lemma_wf(self)
        requires
            self.wf(),
        ensures
            is_secret_key(self@),
    {
    }

    /// The key that `bytes` hold, if they are the serialisation of one.
    pub fn from_bytes(bytes: &[u8]) -> (key: Option<SecretKey>)
        ensures
            match key {
                Some(k) => secret_key_of_bytes(bytes@) == Some(k@) && is_secret_key(k@),
                None => secret_key_of_bytes(bytes@) is None,
            },
    {
        match decode_secret_key(bytes) {
            Some(canonical) => Some(SecretKey { bytes: canonical }),
            None => None,
        }
    }

    /// The serialisation of the key.
    pub fn to_bytes(&self) -> (bytes: Vec<u8>)
        ensures
            bytes@ == self@,
            is_secret_key(bytes@),
    {
        proof {
            use_type_invariant(self);
        }
        self.bytes.clone()
    }

    /// The public key that belongs to this secret key.
    pub fn public_key(&self) -> (key: PublicKey)
        ensures
            key@ == public_key_of_secret(self@),
    {
        proof {
            use_type_invariant(self);
        }
        PublicKey { bytes: derive_public_key(self.bytes.as_slice()) }
    }
}

/// Description of a text that spells no public key.
pub open spec fn invalid_public_key_text() -> Seq<char> {
    "Invalid public key bytes"@
}

/// Description of a text that spells no secret key.
pub open spec fn invalid_secret_key_text() -> Seq<char> {
    "Failed to deserialize provided secret key"@
}

/// Description of a public key that does not belong to the secret key given
/// with it.
pub open spec fn key_mismatch_text() -> Seq<char> {
    "Secret key doesn't correspond to public key provided"@
}

/// The public key that a hexadecimal text spells: the text must decode to
/// exactly [`PK_SIZE`] bytes, and these must encode a key.
pub open spec fn public_key_of_hex(text: Seq<char>) -> Option<Seq<u8>> {
    let bytes = hex_decode(text);
    if bytes.len() == PK_SIZE {
        public_key_of_bytes(bytes)
    } else {
        None
    }
}

/// The secret key that a hexadecimal text spells: the text must decode to
/// exactly [`SK_SIZE`] bytes, and these must be the serialisation of a key.
pub open spec fn secret_key_of_hex(text: Seq<char>) -> Option<Seq<u8>> {
    let bytes = hex_decode(text);
    if bytes.len() == SK_SIZE {
        secret_key_of_bytes(bytes)
    } else {
        None
    }
}

/// The key pair that two hexadecimal texts spell, public key first, or the
/// first reason why they spell none: no public key, no secret key, or a
/// public key that is not the secret key's.
pub open spec fn key_pair_of_hex(pk_hex: Seq<char>, sk_hex: Seq<char>) -> Result<
    (Seq<u8>, Seq<u8>),
    ErrorView,
> {
    match public_key_of_hex(pk_hex) {
        None => Err(ErrorView::InvalidInput(invalid_public_key_text())),
        Some(pk) => match secret_key_of_hex(sk_hex) {
            None => Err(ErrorView::InvalidInput(invalid_secret_key_text())),
            Some(sk) => if pk == public_key_of_secret(sk) {
                Ok((pk, sk))
            } else {
                Err(ErrorView::InvalidInput(key_mismatch_text()))
            },
        },
    }
}

/// Writes a public key as hexadecimal text.
pub fn pk_to_hex(pk: &PublicKey) -> (text: String)
    ensures
        text@ == hex_encode(pk@),
        text@.len() == 2 * PK_SIZE,
{
    let bytes = pk.to_bytes();
    bytes_to_hex(bytes.as_slice())
}

/// Reads a public key from hexadecimal text.
///
/// Fails with `InvalidInput` unless the text decodes to exactly [`PK_SIZE`]
/// bytes that encode a public key.
pub fn pk_from_hex(hex_str: &str) -> (outcome: ResultReturn<PublicKey>)
    ensures
        match public_key_of_hex(hex_str@) {
            Some(key) => outcome matches Ok(pk) && pk@ == key,
            None => outcome matches Err(e) && e@ == ErrorView::InvalidInput(
                invalid_public_key_text(),
            ),
        },
{
    let pk_bytes = parse_hex(hex_str);
    if pk_bytes.len() != PK_SIZE {
        return Err(Error::InvalidInput("Invalid public key bytes".to_owned()));
    }
    let mut pk_bytes_array: [u8; 48] = [0; 48];
    let mut i: usize = 0;
    while i < PK_SIZE
        invariant
            i <= PK_SIZE,
            pk_bytes@.len() == PK_SIZE,
            pk_bytes_array@.take(i as int) == pk_bytes@.take(i as int),
        decreases PK_SIZE - i,
    {
        pk_bytes_array[i] = pk_bytes[i];
        assert(pk_bytes_array@.take(i as int + 1) =~= pk_bytes@.take(i as int + 1));
        i += 1;
    }
    assert(pk_bytes_array@.take(PK_SIZE as int) =~= pk_bytes_array@);
    assert(pk_bytes@.take(PK_SIZE as int) =~= pk_bytes@);
    match PublicKey::from_bytes(&pk_bytes_array) {
        Some(pk) => Ok(pk),
        None => Err(Error::InvalidInput("Invalid public key bytes".to_owned())),
    }
}

/// Reads a secret key from hexadecimal text.
///
/// Fails with `InvalidInput` unless the text decodes to exactly [`SK_SIZE`]
/// bytes that are the serialisation of a secret key.
pub fn sk_from_hex(hex_str: &str) -> (outcome: ResultReturn<SecretKey>)
    ensures
        match secret_key_of_hex(hex_str@) {
            Some(key) => outcome matches Ok(sk) && sk@ == key && is_secret_key(key),
            None => outcome matches Err(e) && e@ == ErrorView::InvalidInput(
                invalid_secret_key_text(),
            ),
        },
{
    let sk_bytes = parse_hex(hex_str);
    if sk_bytes.len() != SK_SIZE {
        return Err(Error::InvalidInput("Failed to deserialize provided secret key".to_owned()));
    }
    match SecretKey::from_bytes(sk_bytes.as_slice()) {
        Some(sk) => Ok(sk),
        None => Err(Error::InvalidInput("Failed to deserialize provided secret key".to_owned())),
    }
}

fn same_key(a: &PublicKey, b: &PublicKey) -> (same: bool)
    ensures
        same == (a@ == b@),
{
    let mut i: usize = 0;
    while i < PK_SIZE
        invariant
            i <= PK_SIZE,
            a.bytes@.take(i as int) == b.bytes@.take(i as int),
        decreases PK_SIZE - i,
    {
        if a.bytes[i] != b.bytes[i] {
            return false;
        }
        assert(a.bytes@.take(i as int + 1) =~= a.bytes@.take(i as int).push(a.bytes@[i as int]));
        assert(b.bytes@.take(i as int + 1) =~= b.bytes@.take(i as int).push(b.bytes@[i as int]));
        i += 1;
    }
    assert(a.bytes@.take(PK_SIZE as int) =~= a.bytes@);
    assert(b.bytes@.take(PK_SIZE as int) =~= b.bytes@);
    true
}

/// A public key with a secret key.
pub struct KeyPair {
    /// The public key.
    pub pk: PublicKey,
    /// The secret key.
    pub sk: SecretKey,
}

impl KeyPair {
    /// Whether the public key is the one that belongs to the secret key.
    pub open spec fn wf(self) -> bool {
        self.pk@ == public_key_of_secret(self.sk@)
    }

    /// A fresh secret key with its public key.
    pub fn random() -> (pair: KeyPair)
        ensures
            pair.wf(),
            is_secret_key(pair.sk@),
    {
        let sk = SecretKey { bytes: random_secret_key() };
        let pk = sk.public_key();
        KeyPair { pk, sk }
    }

    /// The pair of two keys that were come by apart.
    ///
    /// Fails with `InvalidInput` unless the public key is the one that
    /// belongs to the secret key.
    pub fn from_keys(pk: PublicKey, sk: SecretKey) -> (outcome: ResultReturn<KeyPair>)
        ensures
            if pk@ == public_key_of_secret(sk@) {
                outcome matches Ok(pair) && pair.pk@ == pk@ && pair.sk@ == sk@ && pair.wf()
            } else {
                outcome matches Err(e) && e@ == ErrorView::InvalidInput(key_mismatch_text())
            },
    {
        let derived = sk.public_key();
        if !same_key(&pk, &derived) {
            Err(
                Error::InvalidInput(
                    "Secret key doesn't correspond to public key provided".to_owned(),
                ),
            )
        } else {
            Ok(KeyPair { pk, sk })
        }
    }

    /// The pair made of the two keys that the texts spell.
    ///
    /// Fails with `InvalidInput` where a text spells no key, and where the
    /// public key is not the one that belongs to the secret key.
    pub fn from_hex_keys(pk_hex_str: &str, sk_hex_str: &str) -> (outcome: ResultReturn<KeyPair>)
        ensures
            match key_pair_of_hex(pk_hex_str@, sk_hex_str@) {
                Ok(keys) => outcome matches Ok(pair) && pair.pk@ == keys.0 && pair.sk@ == keys.1
                    && pair.wf(),
                Err(reason) => outcome matches Err(e) && e@ == reason,
            },
    {
        let pk = match pk_from_hex(pk_hex_str) {
            Ok(pk) => pk,
            Err(e) => {
                return Err(e);
            },
        };
        let sk = match sk_from_hex(sk_hex_str) {
            Ok(sk) => sk,
            Err(e) => {
                return Err(e);
            },
        };
        KeyPair::from_keys(pk, sk)
    }

    /// The pair of the secret key that the text spells and the public key
    /// that belongs to it.
    ///
    /// Fails with `InvalidInput` where the text spells no secret key.
    pub fn from_hex_sk(sk_hex_str: &str) -> (outcome: ResultReturn<KeyPair>)
        ensures
            match secret_key_of_hex(sk_hex_str@) {
                Some(key) => outcome matches Ok(pair) && pair.sk@ == key && pair.wf(),
                None => outcome matches Err(e) && e@ == ErrorView::InvalidInput(
                    invalid_secret_key_text(),
                ),
            },
    {
        match sk_from_hex(sk_hex_str) {
            Ok(sk) => {
                let pk = sk.public_key();
                Ok(KeyPair { pk, sk })
            },
            Err(e) => Err(e),
        }
    }

    /// Both keys as hexadecimal text, public key first.
    pub fn to_hex_key_pair(&self) -> (outcome: ResultReturn<(String, String)>)
        ensures
            outcome matches Ok(texts) && texts.0@ == hex_encode(self.pk@) && texts.1@
                == hex_encode(self.sk@),
    {
        let pk: String = pk_to_hex(&self.pk);
        let sk: String = bytes_to_hex(self.sk.bytes.as_slice());
        Ok((pk, sk))
    }
}

/// Two texts that are the hexadecimal form of a secret key's serialisation
/// and of the representation of its public key spell that pair of keys, so
/// writing the pair as text gives the two texts back.
pub proof fn lemma_key_pair_hex_round_trip(pk: Seq<u8>, sk: Seq<u8>)
    requires
        is_secret_key(sk),
        is_public_key(pk),
        pk == public_key_of_secret(sk),
    ensures
        key_pair_of_hex(hex_encode(pk), hex_encode(sk)) == Ok::<(Seq<u8>, Seq<u8>), ErrorView>(
            (pk, sk),
        ),
{
    lemma_decode_encode(pk);
    lemma_decode_encode(sk);
}

/// Where two texts spell a pair of keys, and are written as keys are written
/// (the lowercase hexadecimal form of the keys' own bytes), writing the pair
/// as text gives the two texts back.
pub proof fn lemma_key_pair_hex_written_back(pk_hex: Seq<char>, sk_hex: Seq<char>)
    requires
        key_pair_of_hex(pk_hex, sk_hex) is Ok,
        hex_encode(hex_decode(pk_hex)) == pk_hex,
        hex_encode(hex_decode(sk_hex)) == sk_hex,
        is_public_key(hex_decode(pk_hex)),
        is_secret_key(hex_decode(sk_hex)),
    ensures
        key_pair_of_hex(pk_hex, sk_hex) matches Ok(keys) && hex_encode(keys.0) == pk_hex
            && hex_encode(keys.1) == sk_hex,
{
}

/// Texts that spell a public key and a secret key of which the one does not
/// belong to the other make no pair.
pub proof fn lemma_key_pair_mismatch(pk_hex: Seq<char>, sk_hex: Seq<char>)
    requires
        public_key_of_hex(pk_hex) is Some,
        secret_key_of_hex(sk_hex) is Some,
        public_key_of_hex(pk_hex)->0 != public_key_of_secret(secret_key_of_hex(sk_hex)->0),
    ensures
        key_pair_of_hex(pk_hex, sk_hex) == Err::<(Seq<u8>, Seq<u8>), ErrorView>(
            ErrorView::InvalidInput(key_mismatch_text()),
        ),
{
}

} // verus!
