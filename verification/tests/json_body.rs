use bitbank::json::{json_string_of, Body};

#[test]
fn empty_body() {
    assert_eq!(Body::new().to_json(), "{}");
}

#[test]
fn one_field() {
    let mut body = Body::new();
    body.insert("asset", "btc");
    assert_eq!(body.to_json(), "{\"asset\":\"btc\"}");
}

#[test]
fn fields_keep_the_order_of_insertion() {
    let mut body = Body::new();
    body.insert("pair", "btc_jpy");
    body.insert("order_id", "123");
    assert_eq!(body.to_json(), "{\"pair\":\"btc_jpy\",\"order_id\":\"123\"}");
}

#[test]
fn setting_a_name_again_replaces_the_value_in_place() {
    let mut body = Body::new();
    body.insert("pair", "btc_jpy");
    body.insert("amount", "1");
    body.insert("pair", "xrp_jpy");
    assert_eq!(body.to_json(), "{\"pair\":\"xrp_jpy\",\"amount\":\"1\"}");
    body.insert("amount", "2");
    assert_eq!(body.to_json(), "{\"pair\":\"xrp_jpy\",\"amount\":\"2\"}");
}

#[test]
fn plain_text_is_quoted() {
    assert_eq!(json_string_of("btc_jpy"), "\"btc_jpy\"");
    assert_eq!(json_string_of(""), "\"\"");
}

#[test]
fn quotes_and_backslashes_are_escaped() {
    assert_eq!(json_string_of("a\"b"), "\"a\\\"b\"");
    assert_eq!(json_string_of("a\\b"), "\"a\\\\b\"");
}

#[test]
fn control_characters_are_escaped() {
    assert_eq!(json_string_of("\n\r\t"), "\"\\n\\r\\t\"");
    assert_eq!(json_string_of("\u{8}\u{c}"), "\"\\b\\f\"");
    assert_eq!(json_string_of("\u{0}\u{1}\u{1f}"), "\"\\u0000\\u0001\\u001f\"");
    assert_eq!(json_string_of("\u{b}\u{e}"), "\"\\u000b\\u000e\"");
}

#[test]
fn other_characters_stand_for_themselves() {
    assert_eq!(json_string_of(" /\u{7f}é円"), "\" /\u{7f}é円\"");
}

#[test]
fn strings_agree_with_serde_json() {
    let samples = [
        "",
        "btc_jpy",
        "a\"b\\c\n\r\t\u{8}\u{c}\u{1}\u{1f}\u{7f}é/",
        "\u{0}\u{2}\u{3}\u{4}\u{5}\u{6}\u{7}\u{b}\u{e}\u{f}\u{10}\u{1a}\u{1b}\u{20}",
        "日本語 \u{1F600}",
    ];
    for text in samples {
        assert_eq!(json_string_of(text), serde_json::to_string(text).unwrap());
    }
}

#[test]
fn body_with_special_characters_reads_back() {
    let mut body = Body::new();
    body.insert("na\"me", "va\\lue\n");
    let text = body.to_json();
    assert_eq!(text, "{\"na\\\"me\":\"va\\\\lue\\n\"}");
    let read: std::collections::HashMap<String, String> = serde_json::from_str(&text).unwrap();
    assert_eq!(read.len(), 1);
    assert_eq!(read.get("na\"me").map(|v| v.as_str()), Some("va\\lue\n"));
}
