use safe_helpers::{
    decode_ipc_msg, gen_timestamp_secs, get_subnames_host_and_path, parse_coins_amount, parse_hex,
    pk_from_hex, pk_to_hex, sk_from_hex, vec_to_hex, xorname_from_pk, xorname_to_hex, Error,
    KeyPair, ResultReturn,
};

#[test]
fn helpers_are_at_hand_from_the_crate_root() {
    let pair = KeyPair::random();
    let (pk_hex, sk_hex) = pair.to_hex_key_pair().unwrap();
    assert_eq!(vec_to_hex(parse_hex(&pk_hex)), pk_hex);
    let pk = pk_from_hex(&pk_hex).unwrap();
    assert_eq!(pk_to_hex(&pk), pk_hex);
    assert!(sk_from_hex(&sk_hex).is_ok());
    assert_eq!(xorname_to_hex(&xorname_from_pk(&pk)), &pk_hex[..64]);
    let parsed: ResultReturn<(Vec<String>, String, String, Option<u64>)> =
        get_subnames_host_and_path("safe://mytop");
    assert_eq!(parsed.unwrap().1, "mytop");
    assert!(matches!(parse_coins_amount("x"), Err(Error::InvalidAmount(_))));
    let denied: ResultReturn<u8> = decode_ipc_msg(Err("bad".to_string()));
    assert!(matches!(denied, Err(Error::InvalidInput(_))));
    assert_eq!(gen_timestamp_secs().len(), 20);
}
