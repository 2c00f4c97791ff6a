use conference::message_handler::handle_message;
use conference::message_handler::operation::{ErrorKind, MethodName, Operation};
use conference::message_handler::router::Method;
use conference::message_handler::{signal_create, stream_create, stream_read, stream_upload, JsepStatus};
use conference::relay::{incoming_rtcp, incoming_rtp, setup_media, RtcpAction};
use conference::switchboard::{Recorder, Switchboard};

fn create(id: &str) -> Option<Result<Method, String>> {
    Some(Ok(Method::StreamCreate(stream_create::Request { id: id.to_string() })))
}

fn read(id: &str) -> Option<Result<Method, String>> {
    Some(Ok(Method::StreamRead(stream_read::Request { id: id.to_string() })))
}

#[test]
fn create_join_then_publisher_leaves() {
    let mut sb = Switchboard::new();
    sb.connect(1);
    sb.connect(2);
    let r = handle_message(&mut sb, 1, create("room1"), JsepStatus::Valid, None);
    assert_eq!(r.unwrap(), Some(MethodName::StreamCreate));
    let r = handle_message(&mut sb, 2, read("room1"), JsepStatus::Valid, None);
    assert_eq!(r.unwrap(), Some(MethodName::StreamRead));
    assert_eq!(incoming_rtp(&sb, 1), vec![2]);
    sb.disconnect(1);
    assert!(sb.subscribers_to(1).is_empty());
    assert!(incoming_rtp(&sb, 1).is_empty());
}

#[test]
fn two_creates_last_one_wins() {
    let mut sb = Switchboard::new();
    handle_message(&mut sb, 1, create("room1"), JsepStatus::Valid, None).unwrap();
    handle_message(&mut sb, 2, create("room1"), JsepStatus::Valid, None).unwrap();
    handle_message(&mut sb, 3, read("room1"), JsepStatus::Valid, None).unwrap();
    assert_eq!(sb.publisher_to(3), Some(2));
}

#[test]
fn read_of_unknown_room_is_not_found() {
    let mut sb = Switchboard::new();
    let e = handle_message(&mut sb, 2, read("nowhere"), JsepStatus::Valid, None).unwrap_err();
    assert_eq!(e.kind, ErrorKind::NotFound);
    assert_eq!(e.kind.status(), 404);
    assert_eq!(e.method, Some(MethodName::StreamRead));
    assert_eq!(sb.publisher_to(2), None);
}

#[test]
fn malformed_message_is_bad_request() {
    let mut sb = Switchboard::new();
    let e = handle_message(&mut sb, 1, Some(Err("unknown method".to_string())), JsepStatus::Valid, None)
        .unwrap_err();
    assert_eq!(e.kind, ErrorKind::BadRequest);
    assert_eq!(e.kind.status(), 400);
    assert_eq!(e.detail, "unknown method");
    assert_eq!(e.method, None);
}

#[test]
fn missing_offer_is_bad_request_and_changes_nothing() {
    let mut sb = Switchboard::new();
    let e = handle_message(&mut sb, 1, create("room1"), JsepStatus::Missing, None).unwrap_err();
    assert_eq!(e.kind, ErrorKind::BadRequest);
    assert_eq!(e.method, Some(MethodName::StreamCreate));
    let e = handle_message(&mut sb, 1, create("room1"), JsepStatus::Invalid("bad sdp".to_string()), None)
        .unwrap_err();
    assert_eq!(e.detail, "bad sdp");
    let e = handle_message(&mut sb, 2, read("room1"), JsepStatus::Valid, None).unwrap_err();
    assert_eq!(e.kind, ErrorKind::NotFound);
}

#[test]
fn message_without_body_gets_no_payload() {
    let mut sb = Switchboard::new();
    assert_eq!(handle_message(&mut sb, 1, None, JsepStatus::Missing, None).unwrap(), None);
}

#[test]
fn recorder_failure_rolls_back() {
    let mut sb = Switchboard::new();
    let e = handle_message(&mut sb, 1, create("room1"), JsepStatus::Valid, Some(Err("disk full".to_string())))
        .unwrap_err();
    assert_eq!(e.kind, ErrorKind::InternalError);
    assert_eq!(e.kind.status(), 500);
    assert_eq!(e.detail, "disk full");
    assert!(sb.recorder_for(1).is_none());
    let e = handle_message(&mut sb, 2, read("room1"), JsepStatus::Valid, None).unwrap_err();
    assert_eq!(e.kind, ErrorKind::NotFound);
}

#[test]
fn recorder_started_is_attached() {
    let mut sb = Switchboard::new();
    let rec = Recorder { room_id: "room1".to_string() };
    handle_message(&mut sb, 1, create("room1"), JsepStatus::Valid, Some(Ok(rec))).unwrap();
    assert_eq!(sb.recorder_for(1).map(|r| r.room_id.clone()), Some("room1".to_string()));
}

#[test]
fn upload_needs_no_offer() {
    let mut sb = Switchboard::new();
    let m = Method::StreamUpload(stream_upload::Request { id: "room1".to_string() });
    assert!(!m.is_handle_jsep());
    let r = handle_message(&mut sb, 1, Some(Ok(m)), JsepStatus::Missing, None);
    assert_eq!(r.unwrap(), Some(MethodName::StreamUpload));
}

#[test]
fn signal_create_needs_offer() {
    let mut sb = Switchboard::new();
    let op = signal_create::Request { agent_id: "web.alice".to_string() };
    assert!(op.is_handle_jsep());
    let r = handle_message(&mut sb, 1, Some(Ok(Method::SignalCreate(op))), JsepStatus::Valid, None);
    assert_eq!(r.unwrap(), Some(MethodName::SignalCreate));
}

#[test]
fn rtcp_feedback_goes_to_publisher() {
    let mut sb = Switchboard::new();
    sb.create_room("room1".to_string(), 1);
    sb.join_room(&"room1".to_string(), 2).unwrap();
    match incoming_rtcp(&sb, 2, true, true, true) {
        RtcpAction::SendPli(to) => assert_eq!(to, vec![1]),
        _ => panic!("expected a picture-loss indication"),
    }
    match incoming_rtcp(&sb, 2, true, false, true) {
        RtcpAction::SendFir(to) => assert_eq!(to, vec![1]),
        _ => panic!("expected a full-intra request"),
    }
    match incoming_rtcp(&sb, 1, false, true, true) {
        RtcpAction::Relay(to) => assert_eq!(to, vec![2]),
        _ => panic!("expected a relay"),
    }
    match incoming_rtcp(&sb, 1, true, true, false) {
        RtcpAction::SendPli(to) => assert!(to.is_empty()),
        _ => panic!("expected a picture-loss indication"),
    }
    assert_eq!(setup_media(&sb, 2), vec![1]);
    assert!(setup_media(&sb, 1).is_empty());
}
