use safe_helpers::errors::Error;
use safe_helpers::hex::{parse_hex, vec_to_hex};
use safe_helpers::keys::{
    pk_from_hex, pk_to_hex, sk_from_hex, KeyPair, PublicKey, SecretKey, PK_SIZE, SK_SIZE,
};

const GENERATOR_HEX: &str = "97f1d3a73197d7942695638c4fa9ac0fc3688c4f9774b905a14e3a3f171bac586c55e83ff97a1aeffb3af00adb22c6bb";
const SECRET_ONE_HEX: &str = "0100000000000000000000000000000000000000000000000000000000000000";
const SECRET_TWO_HEX: &str = "0200000000000000000000000000000000000000000000000000000000000000";

fn invalid_input(text: &str) -> Error {
    Error::InvalidInput(text.to_string())
}

fn failure(outcome: Result<KeyPair, Error>) -> Error {
    match outcome {
        Ok(_) => panic!("the keys were taken for a pair"),
        Err(e) => e,
    }
}

#[test]
fn sizes_of_keys() {
    assert_eq!(PK_SIZE, 48);
    assert_eq!(SK_SIZE, 32);
    assert_eq!(PK_SIZE, threshold_crypto::PK_SIZE);
}

#[test]
fn public_key_of_secret_key_one_is_the_generator() {
    let pair = KeyPair::from_hex_sk(SECRET_ONE_HEX).ok().unwrap();
    assert_eq!(pk_to_hex(&pair.pk), GENERATOR_HEX);
    let (pk_hex, sk_hex) = pair.to_hex_key_pair().unwrap();
    assert_eq!(pk_hex, GENERATOR_HEX);
    assert_eq!(sk_hex, SECRET_ONE_HEX);
}

#[test]
fn random_pair_is_written_and_read_back() {
    let pair = KeyPair::random();
    let (pk_hex, sk_hex) = pair.to_hex_key_pair().unwrap();
    assert_eq!(pk_hex.len(), 2 * PK_SIZE);
    assert_eq!(sk_hex.len(), 2 * SK_SIZE);
    let again = KeyPair::from_hex_keys(&pk_hex, &sk_hex).ok().unwrap();
    assert_eq!(again.pk, pair.pk);
    assert_eq!(again.sk.to_bytes(), pair.sk.to_bytes());
    assert_eq!(again.to_hex_key_pair().unwrap(), (pk_hex, sk_hex));
}

#[test]
fn random_pairs_differ() {
    let a = KeyPair::random();
    let b = KeyPair::random();
    assert_ne!(a.sk.to_bytes(), b.sk.to_bytes());
    assert_ne!(a.pk, b.pk);
}

#[test]
fn random_pair_is_consistent() {
    let pair = KeyPair::random();
    assert_eq!(pair.sk.public_key(), pair.pk);
}

#[test]
fn pair_from_two_texts_round_trips() {
    let pair = KeyPair::from_hex_keys(GENERATOR_HEX, SECRET_ONE_HEX).ok().unwrap();
    assert_eq!(
        pair.to_hex_key_pair().unwrap(),
        (GENERATOR_HEX.to_string(), SECRET_ONE_HEX.to_string())
    );
}

#[test]
fn pair_from_two_texts_in_capitals_is_written_in_lowercase() {
    let pair =
        KeyPair::from_hex_keys(&GENERATOR_HEX.to_uppercase(), SECRET_ONE_HEX).ok().unwrap();
    assert_eq!(pair.to_hex_key_pair().unwrap().0, GENERATOR_HEX);
}

#[test]
fn public_key_of_another_secret_key_is_refused() {
    let error = failure(KeyPair::from_hex_keys(GENERATOR_HEX, SECRET_TWO_HEX));
    assert_eq!(error, invalid_input("Secret key doesn't correspond to public key provided"));
    let a = KeyPair::random();
    let b = KeyPair::random();
    let (a_pk, _) = a.to_hex_key_pair().unwrap();
    let (_, b_sk) = b.to_hex_key_pair().unwrap();
    let error = failure(KeyPair::from_hex_keys(&a_pk, &b_sk));
    assert_eq!(error, invalid_input("Secret key doesn't correspond to public key provided"));
}

#[test]
fn pair_reports_the_public_key_first() {
    let error = failure(KeyPair::from_hex_keys("zz", "zz"));
    assert_eq!(error, invalid_input("Invalid public key bytes"));
    let error = failure(KeyPair::from_hex_keys(GENERATOR_HEX, "zz"));
    assert_eq!(error, invalid_input("Failed to deserialize provided secret key"));
}

#[test]
fn pair_from_secret_key_alone() {
    let pair = KeyPair::random();
    let (pk_hex, sk_hex) = pair.to_hex_key_pair().unwrap();
    let again = KeyPair::from_hex_sk(&sk_hex).ok().unwrap();
    assert_eq!(again.to_hex_key_pair().unwrap(), (pk_hex, sk_hex));
    let error = failure(KeyPair::from_hex_sk("1234"));
    assert_eq!(error, invalid_input("Failed to deserialize provided secret key"));
}

#[test]
fn public_key_text_must_have_the_exact_length() {
    let short = &GENERATOR_HEX[..94];
    assert_eq!(pk_from_hex(short), Err(invalid_input("Invalid public key bytes")));
    let long = format!("{}00", GENERATOR_HEX);
    assert_eq!(pk_from_hex(&long), Err(invalid_input("Invalid public key bytes")));
    assert_eq!(pk_from_hex(""), Err(invalid_input("Invalid public key bytes")));
    let odd = format!("{}0", GENERATOR_HEX);
    assert_eq!(pk_to_hex(&pk_from_hex(&odd).unwrap()), GENERATOR_HEX);
}

#[test]
fn public_key_text_must_encode_a_point() {
    assert_eq!(pk_from_hex(&"ff".repeat(48)), Err(invalid_input("Invalid public key bytes")));
    assert_eq!(pk_from_hex(&"00".repeat(48)), Err(invalid_input("Invalid public key bytes")));
    let infinity = format!("c0{}", "00".repeat(47));
    assert_eq!(pk_to_hex(&pk_from_hex(&infinity).unwrap()), infinity);
}

#[test]
fn public_key_text_may_hold_other_characters() {
    let spaced: String = GENERATOR_HEX.chars().flat_map(|c| [c, ' ']).collect();
    assert_eq!(pk_to_hex(&pk_from_hex(&spaced).unwrap()), GENERATOR_HEX);
}

#[test]
fn secret_key_text_must_have_the_exact_length() {
    let message = "Failed to deserialize provided secret key";
    assert!(matches!(sk_from_hex(&SECRET_ONE_HEX[..62]), Err(Error::InvalidInput(m)) if m == message));
    let long = format!("{}00", SECRET_ONE_HEX);
    assert!(matches!(sk_from_hex(&long), Err(Error::InvalidInput(m)) if m == message));
    assert!(matches!(sk_from_hex(""), Err(Error::InvalidInput(m)) if m == message));
}

#[test]
fn secret_key_text_must_hold_a_field_element() {
    let message = "Failed to deserialize provided secret key";
    assert!(matches!(sk_from_hex(&"ff".repeat(32)), Err(Error::InvalidInput(m)) if m == message));
    let zero = sk_from_hex(&"00".repeat(32)).ok().unwrap();
    assert_eq!(zero.to_bytes(), vec![0u8; 32]);
}

#[test]
fn keys_agree_with_the_curve_library() {
    let theirs = threshold_crypto::SecretKey::random();
    let sk_bytes =
        bincode::serialize(&threshold_crypto::serde_impl::SerdeSecret(&theirs)).unwrap();
    let pk_bytes = theirs.public_key().to_bytes();
    let pair = KeyPair::from_hex_sk(&vec_to_hex(sk_bytes.clone())).ok().unwrap();
    assert_eq!(pair.pk.to_bytes(), pk_bytes);
    assert_eq!(pair.sk.to_bytes(), sk_bytes);
    let (pk_hex, sk_hex) = pair.to_hex_key_pair().unwrap();
    assert_eq!(parse_hex(&pk_hex), pk_bytes.to_vec());
    assert_eq!(parse_hex(&sk_hex), sk_bytes);
    let pk = threshold_crypto::PublicKey::from_bytes(pair.pk.to_bytes()).unwrap();
    assert_eq!(pk, theirs.public_key());
}

#[test]
fn keys_from_and_to_bytes() {
    let generator = parse_hex(GENERATOR_HEX);
    let mut bytes = [0u8; 48];
    bytes.copy_from_slice(&generator);
    let pk = PublicKey::from_bytes(&bytes).unwrap();
    assert_eq!(pk.to_bytes(), bytes);
    assert_eq!(PublicKey::from_bytes(&[0xffu8; 48]), None);
    let sk = SecretKey::from_bytes(&parse_hex(SECRET_ONE_HEX)).unwrap();
    assert_eq!(sk.public_key(), pk);
    assert!(SecretKey::from_bytes(&[0xffu8; 32]).is_none());
    assert!(SecretKey::from_bytes(&[1u8; 31]).is_none());
}

#[test]
fn pair_of_two_keys_must_be_consistent() {
    let a = KeyPair::random();
    let b = KeyPair::random();
    let a_pk = a.pk;
    let pair = KeyPair::from_keys(a_pk, a.sk).ok().unwrap();
    assert_eq!(pair.pk, a_pk);
    let error = failure(KeyPair::from_keys(a_pk, b.sk));
    assert_eq!(error, invalid_input("Secret key doesn't correspond to public key provided"));
}

#[test]
fn secret_key_is_held_as_its_own_serialisation() {
    let one = parse_hex(SECRET_ONE_HEX);
    let mut with_tail = one.clone();
    with_tail.extend_from_slice(&[0xaa; 8]);
    let sk = SecretKey::from_bytes(&with_tail).unwrap();
    assert_eq!(sk.to_bytes(), one);
    let again = SecretKey::from_bytes(&sk.to_bytes()).unwrap();
    assert_eq!(again.to_bytes(), one);
}
