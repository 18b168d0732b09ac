use safe_helpers::hex::parse_hex;
use safe_helpers::keys::{pk_from_hex, KeyPair};
use safe_helpers::xorname::{xorname_from_pk, xorname_to_hex, XorName, XOR_NAME_LEN};

const GENERATOR_HEX: &str = "97f1d3a73197d7942695638c4fa9ac0fc3688c4f9774b905a14e3a3f171bac586c55e83ff97a1aeffb3af00adb22c6bb";

#[test]
fn name_is_the_start_of_the_public_key() {
    let pk = pk_from_hex(GENERATOR_HEX).unwrap();
    let name = xorname_from_pk(&pk);
    assert_eq!(name.0.to_vec(), parse_hex(&GENERATOR_HEX[..64]));
    assert_eq!(xorname_to_hex(&name), &GENERATOR_HEX[..64]);
}

#[test]
fn name_has_the_length_of_the_network() {
    assert_eq!(XOR_NAME_LEN, 32);
    let pair = KeyPair::random();
    let name = xorname_from_pk(&pair.pk);
    assert_eq!(name.0.len(), XOR_NAME_LEN);
    assert_eq!(name.0[..], pair.pk.to_bytes()[..XOR_NAME_LEN]);
    assert_eq!(xorname_to_hex(&name).len(), 2 * XOR_NAME_LEN);
}

#[test]
fn same_key_same_name() {
    let pair = KeyPair::random();
    assert_eq!(xorname_from_pk(&pair.pk), xorname_from_pk(&pair.pk));
    let copy = pair.pk;
    assert_eq!(xorname_from_pk(&copy), xorname_from_pk(&pair.pk));
}

#[test]
fn other_key_other_name() {
    let a = KeyPair::random();
    let b = KeyPair::random();
    assert_ne!(xorname_from_pk(&a.pk), xorname_from_pk(&b.pk));
}

#[test]
fn default_name_is_zero() {
    assert_eq!(XorName::default().0, [0u8; 32]);
    assert_eq!(xorname_to_hex(&XorName::default()), "00".repeat(32));
}

#[test]
fn name_is_written_in_hexadecimal() {
    let mut bytes = [0u8; 32];
    bytes[0] = 0xab;
    bytes[31] = 0x01;
    let expected = format!("ab{}01", "00".repeat(30));
    assert_eq!(xorname_to_hex(&XorName(bytes)), expected);
}
