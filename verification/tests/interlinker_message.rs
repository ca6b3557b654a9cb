use assignments::interlinker::message::{finish_frame, result_frame, ResponseMessage};

#[test]
fn finish_event_on_the_wire() {
    let message = ResponseMessage::FinishMessage { origin: "https://a.example/".into() };
    assert_eq!(
        message.to_wire(),
        "{\"type\":\"FinishMessage\",\"origin\":\"https://a.example/\"}"
    );
}

#[test]
fn result_event_on_the_wire() {
    let message = ResponseMessage::ResultMessage {
        for_url: "https://a.example/".into(),
        for_domain: "a.example".into(),
        linked_url: "https://b.example/x".into(),
        linked_domain: "b.example".into(),
    };
    assert_eq!(
        message.to_wire(),
        "{\"type\":\"ResultMessage\",\"for_url\":\"https://a.example/\",\"for_domain\":\"a.example\",\"linked_url\":\"https://b.example/x\",\"linked_domain\":\"b.example\"}"
    );
}

#[test]
fn fields_are_escaped_on_the_wire() {
    let message = ResponseMessage::FinishMessage { origin: "a\"b\\c\n".into() };
    let frame = message.to_wire();
    assert_eq!(frame, "{\"type\":\"FinishMessage\",\"origin\":\"a\\\"b\\\\c\\n\"}");
    let back: serde_json::Value = serde_json::from_str(frame.as_str()).unwrap();
    assert_eq!(back["origin"], "a\"b\\c\n");
    assert_eq!(back["type"], "FinishMessage");
}

#[test]
fn frames_are_built_around_the_literals() {
    assert_eq!(finish_frame("null"), "{\"type\":\"FinishMessage\",\"origin\":null}");
    assert_eq!(
        result_frame("1", "2", "3", "4"),
        "{\"type\":\"ResultMessage\",\"for_url\":1,\"for_domain\":2,\"linked_url\":3,\"linked_domain\":4}"
    );
}
