use bitbank::response::{decode, interpret, ApiError, Outcome};

fn answered(status: u16, body: &str) -> Outcome {
    Outcome::Answered { status, body: body.to_string() }
}

#[test]
fn failed_transport_surfaces_as_an_error() {
    let res = interpret(Outcome::Failed("connection refused".to_string()));
    assert_eq!(res, Err(ApiError::Transport("connection refused".to_string())));
}

#[test]
fn non_success_status_surfaces_as_an_error() {
    assert_eq!(interpret(answered(500, "{}")), Err(ApiError::Status(500)));
    assert_eq!(interpret(answered(401, "{\"success\":0}")), Err(ApiError::Status(401)));
    assert_eq!(interpret(answered(404, "not found")), Err(ApiError::Status(404)));
}

#[test]
fn success_is_200_to_299() {
    assert_eq!(interpret(answered(199, "{}")), Err(ApiError::Status(199)));
    assert!(interpret(answered(200, "{}")).is_ok());
    assert!(interpret(answered(299, "{}")).is_ok());
    assert_eq!(interpret(answered(300, "{}")), Err(ApiError::Status(300)));
    assert_eq!(interpret(answered(0, "{}")), Err(ApiError::Status(0)));
    assert_eq!(interpret(answered(u16::MAX, "{}")), Err(ApiError::Status(u16::MAX)));
}

#[test]
fn object_body_gives_the_mapping() {
    let fields = interpret(answered(200, "{\"success\":1,\"data\":{\"last\":\"5000\"}}")).unwrap();
    assert_eq!(fields.len(), 2);
    assert_eq!(fields["success"], serde_json::Value::from(1));
    assert_eq!(fields["data"]["last"], serde_json::Value::from("5000"));
}

#[test]
fn empty_object_gives_an_empty_mapping() {
    let fields = interpret(answered(200, "{}")).unwrap();
    assert!(fields.is_empty());
}

#[test]
fn body_that_is_no_json_is_a_decode_error() {
    assert!(matches!(interpret(answered(200, "not json")), Err(ApiError::Decode(_))));
    assert!(matches!(interpret(answered(200, "")), Err(ApiError::Decode(_))));
    assert!(matches!(interpret(answered(200, "{\"a\":")), Err(ApiError::Decode(_))));
}

#[test]
fn body_that_is_no_object_is_a_decode_error() {
    assert!(matches!(interpret(answered(200, "[1,2]")), Err(ApiError::Decode(_))));
    assert!(matches!(interpret(answered(200, "\"text\"")), Err(ApiError::Decode(_))));
    assert!(matches!(interpret(answered(200, "1")), Err(ApiError::Decode(_))));
    assert!(matches!(interpret(answered(200, "null")), Err(ApiError::Decode(_))));
}

#[test]
fn decode_error_carries_the_decoder_message() {
    match decode("{\"a\":") {
        Err(ApiError::Decode(text)) => assert!(!text.is_empty()),
        other => panic!("expected a decode error, got {:?}", other),
    }
}

#[test]
fn decode_reads_an_object() {
    let fields = decode("{\"code\":20001}").unwrap();
    assert_eq!(fields["code"], serde_json::Value::from(20001));
}

#[test]
fn error_body_with_success_status_is_still_a_mapping() {
    let fields = interpret(answered(200, "{\"success\":0,\"data\":{\"code\":20001}}")).unwrap();
    assert_eq!(fields["success"], serde_json::Value::from(0));
}
