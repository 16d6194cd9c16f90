use th_chat::payload::{classify_document, classify_message_payload, MessagePayload};

#[test]
fn an_entry_is_found_under_message() {
    let payload = classify_message_payload(
        br#"{"type":"chat_message","message":{"id":"m1","parent_id":null,"entry":{}}}"#,
    );
    assert_eq!(
        payload,
        MessagePayload::Entry { json: r#"{"entry":{},"id":"m1","parent_id":null}"#.to_string() }
    );
    // A message wins over an error beside it.
    let both = classify_message_payload(br#"{"error":{"code":"404"},"message":7}"#);
    assert_eq!(both, MessagePayload::Entry { json: "7".to_string() });
}

#[test]
fn not_found_is_no_failure() {
    assert_eq!(
        classify_message_payload(br#"{"error":{"code":"404","message":"no such message"}}"#),
        MessagePayload::NotFound
    );
}

#[test]
fn other_errors_fail() {
    assert_eq!(
        classify_message_payload(br#"{"error":{"code":"500","message":"broken"}}"#),
        MessagePayload::Failed { error: r#"{"code":"500","message":"broken"}"#.to_string() }
    );
    // A code that is a number is not the string "404".
    assert_eq!(
        classify_message_payload(br#"{"error":{"code":404}}"#),
        MessagePayload::Failed { error: r#"{"code":404}"#.to_string() }
    );
    assert_eq!(
        classify_message_payload(br#"{"error":"plain"}"#),
        MessagePayload::Failed { error: r#""plain""#.to_string() }
    );
}

#[test]
fn anything_else_belongs_elsewhere() {
    assert_eq!(classify_message_payload(br#"{"type":"success"}"#), MessagePayload::Other);
    assert_eq!(classify_message_payload(b"[1,2]"), MessagePayload::Other);
    assert_eq!(classify_message_payload(b"null"), MessagePayload::Other);
}

#[test]
fn bad_json_is_unparsable() {
    assert!(matches!(
        classify_message_payload(b"{not json"),
        MessagePayload::Unparsable { .. }
    ));
    assert!(matches!(classify_message_payload(b""), MessagePayload::Unparsable { .. }));
    match classify_message_payload(b"{\"a\":") {
        MessagePayload::Unparsable { detail } => assert!(detail.contains("EOF")),
        other => panic!("unexpected: {:?}", other),
    }
}

#[test]
fn documents_can_be_classified_directly() {
    let document: serde_json::Value =
        serde_json::from_str(r#"{"error":{"code":"404"}}"#).unwrap();
    assert_eq!(classify_document(&document), MessagePayload::NotFound);
}
