use bitbank::hex::encode_hex;
use bitbank::signing::{get_message, is_signable, post_message, signature};

#[test]
fn hex_of_bytes() {
    assert_eq!(encode_hex(&[0x00, 0x0f, 0xa0, 0xff]), "000fa0ff");
    assert_eq!(encode_hex(&[52, 32]), "3420");
    assert_eq!(encode_hex(&[]), "");
}

#[test]
fn hex_has_two_lower_case_digits_per_byte() {
    let bytes: Vec<u8> = (0..=255u8).collect();
    let text = encode_hex(&bytes);
    assert_eq!(text.len(), 512);
    assert!(text.chars().all(|c| matches!(c, '0'..='9' | 'a'..='f')));
    assert_eq!(&text[20..24], "0a0b");
}

#[test]
fn signature_matches_known_hmac_sha256() {
    assert_eq!(
        signature("secret", "1234567890test"),
        "467e693256b73f9a4baf4f95c03fcec2a5246196f6bdf33e3fd9a9065ad9180d"
    );
}

#[test]
fn signature_matches_published_test_vector() {
    assert_eq!(
        signature("Jefe", "what do ya want for nothing?"),
        "5bdcc146bf60754e6a042426089575c75a003f089d2739839dec58b964ec3843"
    );
}

#[test]
fn signature_of_empty_inputs() {
    assert_eq!(
        signature("", ""),
        "b613679a0814d9ec772f95d778c35fc5ff1697c493715653c6c712144292c5ad"
    );
}

#[test]
fn signature_with_a_key_longer_than_one_block() {
    let key = "k".repeat(100);
    assert_eq!(
        signature(&key, "long key"),
        "5903eedefe0bba3f15b658715e41d71f1848739bddf19e497e968df5723dcd56"
    );
}

#[test]
fn signature_is_over_utf8_bytes() {
    assert_eq!(
        signature("秘密", "注文"),
        "2f792c12c8ac98769e6e36fb94ab0dd5e5189c0e34ac0e73a98de47b0c1b2407"
    );
}

#[test]
fn signature_is_deterministic() {
    let first = signature("secret", "1000/v1/user/assets");
    let second = signature("secret", "1000/v1/user/assets");
    assert_eq!(first, second);
}

#[test]
fn signature_is_64_lower_case_hex_characters() {
    for message in ["", "a", "1000/v1/user/assets", "1000{\"pair\":\"btc_jpy\"}"] {
        let sig = signature("secret", message);
        assert_eq!(sig.chars().count(), 64);
        assert!(sig.chars().all(|c| matches!(c, '0'..='9' | 'a'..='f')));
    }
}

#[test]
fn changing_a_byte_of_the_message_changes_the_signature() {
    let base = signature("secret", "1234567890test");
    assert_eq!(
        signature("secret", "1234567890tesu"),
        "e1fc16dea030bd92877e6af12a3484d3c777a124f0f4e2a8096140682f5b9c7f"
    );
    let message = b"1234567890test";
    for i in 0..message.len() {
        let mut changed = message.to_vec();
        changed[i] ^= 1;
        let changed = String::from_utf8(changed).unwrap();
        assert_ne!(signature("secret", &changed), base);
    }
}

#[test]
fn changing_a_byte_of_the_secret_changes_the_signature() {
    let base = signature("secret", "1234567890test");
    assert_eq!(
        signature("secreu", "1234567890test"),
        "d5cb96423bc1672b217f2bab9a6a4ddf73fd6d01b06450d68d52bb9883f0b37d"
    );
    let secret = b"secret";
    for i in 0..secret.len() {
        let mut changed = secret.to_vec();
        changed[i] ^= 1;
        let changed = String::from_utf8(changed).unwrap();
        assert_ne!(signature(&changed, "1234567890test"), base);
    }
}

#[test]
fn ordinary_texts_are_signable() {
    assert!(is_signable("secret"));
    assert!(is_signable(""));
    assert!(is_signable(&"x".repeat(1 << 20)));
}

#[test]
fn get_signing_message() {
    assert_eq!(get_message(1000, "/v1/user/assets", ""), "1000/v1/user/assets");
}

#[test]
fn get_signing_message_with_query() {
    assert_eq!(
        get_message(1000, "/v1/user/spot/order", "?pair=btc_jpy&order_id=123"),
        "1000/v1/user/spot/order?pair=btc_jpy&order_id=123"
    );
}

#[test]
fn post_signing_message() {
    let body = "{\"pair\":\"btc_jpy\",\"order_id\":\"123\"}";
    let message = post_message(1000, body);
    assert_eq!(message, "1000{\"pair\":\"btc_jpy\",\"order_id\":\"123\"}");
    assert_eq!(&message[..4], "1000");
    assert_eq!(&message[4..], body);
}

#[test]
fn signing_message_of_a_negative_nonce() {
    assert_eq!(post_message(-5, "x"), "-5x");
}
