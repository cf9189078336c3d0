use sse_hub::frame::{connected_message, frame, ping_message};

#[test]
fn frames_a_payload() {
    assert_eq!(frame("hello"), "data: hello\n\n");
}

#[test]
fn frames_an_empty_payload() {
    assert_eq!(frame(""), "data: \n\n");
}

#[test]
fn the_connect_sentinel() {
    assert_eq!(connected_message(), "data: connected\n\n");
}

#[test]
fn the_liveness_ping() {
    assert_eq!(ping_message(), "data: ping\n\n");
}
