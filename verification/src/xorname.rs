//! Network addresses: the name under which the network knows a public key.

use crate::hex::{bytes_to_hex, hex_encode};
use crate::keys::PublicKey;
use vstd::prelude::*;

verus! {

/// Number of bytes in a network address.
pub const XOR_NAME_LEN: usize = 32;

/// A network address: a number of 256 bits, as 32 bytes.
#[derive(Debug, Clone, Copy, PartialEq, Eq)]
pub struct XorName(pub [u8; 32]);

impl Default for XorName {
    /// The address whose bytes are all zero.
    fn default() -> (name: XorName)
        ensures
            name.0@ == Seq::new(XOR_NAME_LEN as nat, |i: int| 0u8),
    {
        let name = XorName([0; 32]);
        assert(name.0@ =~= Seq::new(XOR_NAME_LEN as nat, |i: int| 0u8));
        name
    }
}

/// The address of the public key with representation `pk`: its first
/// [`XOR_NAME_LEN`] bytes.
pub open spec fn xorname_of(pk: Seq<u8>) -> Seq<u8> {
    pk.take(XOR_NAME_LEN as int)
}

/// The address of a public key.
pub fn xorname_from_pk(pk: &PublicKey) -> (xorname: XorName)
    ensures
        xorname.0@ == xorname_of(pk@),
{
    let pk_as_bytes: [u8; 48] = pk.to_bytes();
    let mut xorname = XorName::default();
    let mut i: usize = 0;
    while i < XOR_NAME_LEN
        invariant
            i <= XOR_NAME_LEN,
            xorname.0@.take(i as int) == pk_as_bytes@.take(i as int),
        decreases XOR_NAME_LEN - i,
    {
        xorname.0[i] = pk_as_bytes[i];
        assert(xorname.0@.take(i as int + 1) =~= pk_as_bytes@.take(i as int + 1));
        i += 1;
    }
    assert(xorname.0@.take(XOR_NAME_LEN as int) =~= xorname.0@);
    xorname
}

/// Writes an address as hexadecimal text.
pub fn xorname_to_hex(xorname: &XorName) -> (text: String)
    ensures
        text@ == hex_encode(xorname.0@),
        text@.len() == 2 * XOR_NAME_LEN,
{
    bytes_to_hex(xorname.0.as_slice())
}

/// The address is a function of the key: the same key always has the same
/// address.
pub proof fn lemma_xorname_same_key(a: PublicKey, b: PublicKey)
    requires
        a@ == b@,
    ensures
        xorname_of(a@) == xorname_of(b@),
{
}

/// Two keys have the same address exactly when their representations agree
/// on the first [`XOR_NAME_LEN`] bytes; the bytes after those do not count.
pub proof fn lemma_xorname_differs(a: PublicKey, b: PublicKey)
    ensures
        xorname_of(a@) == xorname_of(b@) <==> forall|i: int|
            0 <= i < XOR_NAME_LEN ==> a@[i] == b@[i],
{
    a.lemma_len();
    b.lemma_len();
    if forall|i: int| 0 <= i < XOR_NAME_LEN ==> a@[i] == b@[i] {
        assert(xorname_of(a@) =~= xorname_of(b@));
    }
    if xorname_of(a@) == xorname_of(b@) {
        assert forall|i: int| 0 <= i < XOR_NAME_LEN implies a@[i] == b@[i] by {
            assert(xorname_of(a@)[i] == a@[i]);
            assert(xorname_of(b@)[i] == b@[i]);
        }
    }
}

} // verus!
