use lsp_web::frame::encode_frame;
use lsp_web::json::Json;
use lsp_web::message::{RawJsonRpc, RpcError};
use lsp_web::reader::{Reader, ReaderAction, ReaderControl, ReaderError, ReaderEvent};

/// A reader to which a frame with `message` was read, and the action that follows.
fn receive(
    reader: Reader<&'static str>,
    message: RawJsonRpc,
) -> (Reader<&'static str>, ReaderAction<&'static str>) {
    let (reader, action) = reader.step(ReaderEvent::Ready);
    assert!(matches!(action, ReaderAction::ReadLine));
    let (reader, action) = reader.step(ReaderEvent::Line("Content-Length: 3\r\n".to_string()));
    assert!(matches!(action, ReaderAction::ReadLine));
    let (reader, action) = reader.step(ReaderEvent::Line("\r\n".to_string()));
    assert!(matches!(action, ReaderAction::ReadExact(3)));
    let (reader, action) = reader.step(ReaderEvent::Bytes(vec![1, 2, 3]));
    match action {
        ReaderAction::Parse(bytes) => assert_eq!(vec![1, 2, 3], bytes),
        _ => panic!("bytes are parsed"),
    }
    reader.step(ReaderEvent::Parsed(Some(message.to_json())))
}

/// A reader that took the response `message`, and to whom it went with what.
fn respond(
    reader: Reader<&'static str>,
    message: RawJsonRpc,
    controls: Vec<ReaderControl<&'static str>>,
) -> (Reader<&'static str>, Option<(&'static str, Result<Json, RpcError>)>) {
    let (reader, action) = receive(reader, message);
    assert!(matches!(action, ReaderAction::DrainControls));
    let (reader, action) = reader.step(ReaderEvent::Controls(controls));
    match action {
        ReaderAction::Deliver(awaiter, outcome) => (reader, Some((awaiter, outcome))),
        ReaderAction::NoAwaiter(_, _) => (reader, None),
        _ => panic!("a response is delivered or not"),
    }
}

fn error() -> RpcError {
    RpcError { code: -1, message: "no".to_string() }
}

#[test]
fn responses_reach_their_awaiters() {
    let reader = Reader::new();
    let controls = vec![
        ReaderControl::Await(1, "one"),
        ReaderControl::Await(2, "two"),
        ReaderControl::Await(3, "three"),
    ];
    let (reader, got) = respond(reader, RawJsonRpc::result(2, Json::PosInt(22)), controls);
    assert_eq!(Some(("two", Ok(Json::PosInt(22)))), got);
    let (reader, got) = respond(reader, RawJsonRpc::error(Some(3), error()), vec![]);
    assert_eq!(Some(("three", Err(error()))), got);
    let (reader, got) =
        respond(reader, RawJsonRpc::result(4, Json::Null), vec![ReaderControl::Await(4, "four")]);
    assert_eq!(Some(("four", Ok(Json::Null))), got);
    let (_, got) = respond(reader, RawJsonRpc::result(1, Json::Bool(true)), vec![]);
    assert_eq!(Some(("one", Ok(Json::Bool(true)))), got);
}

#[test]
fn responses_are_delivered_once() {
    let reader = Reader::new();
    let controls = vec![ReaderControl::Await(1, "one")];
    let (reader, got) = respond(reader, RawJsonRpc::result(1, Json::Null), controls);
    assert_eq!(Some(("one", Ok(Json::Null))), got);
    let (reader, got) = respond(reader, RawJsonRpc::result(1, Json::Null), vec![]);
    assert_eq!(None, got);
    let controls = vec![ReaderControl::Await(1, "again")];
    let (_, got) = respond(reader, RawJsonRpc::error(Some(1), error()), controls);
    assert_eq!(Some(("again", Err(error()))), got);
}

#[test]
fn last_awaiter_counts() {
    let controls = vec![
        ReaderControl::Await(1, "first"),
        ReaderControl::Await(2, "other"),
        ReaderControl::Await(1, "last"),
    ];
    let (_, got) = respond(Reader::new(), RawJsonRpc::result(1, Json::Null), controls);
    assert_eq!(Some(("last", Ok(Json::Null))), got);
}

#[test]
fn response_without_awaiter_keeps_the_others() {
    let controls = vec![ReaderControl::Await(1, "one")];
    let (reader, action) = receive(Reader::new(), RawJsonRpc::result(9, Json::Bool(true)));
    assert!(matches!(action, ReaderAction::DrainControls));
    let (reader, action) = reader.step(ReaderEvent::Controls(controls));
    match action {
        ReaderAction::NoAwaiter(id, message) => {
            assert_eq!(9, id);
            assert_eq!(RawJsonRpc::result(9, Json::Bool(true)), message);
        }
        _ => panic!("nobody waits for the response"),
    }
    let (_, got) = respond(reader, RawJsonRpc::result(1, Json::Null), vec![]);
    assert_eq!(Some(("one", Ok(Json::Null))), got);
}

#[test]
fn notifications_are_announced() {
    let (reader, action) = receive(Reader::new(), RawJsonRpc::notification("m", Json::PosInt(1)));
    match action {
        ReaderAction::Notification { method, params } => {
            assert_eq!("m", method);
            assert_eq!(Json::PosInt(1), params);
        }
        _ => panic!("a notification is announced"),
    }
    let (_, action) = reader.step(ReaderEvent::Ready);
    assert!(matches!(action, ReaderAction::ReadLine));
}

#[test]
fn other_messages_are_put_aside() {
    let (reader, action) = receive(Reader::new(), RawJsonRpc::request(1, "m", Json::Null));
    match action {
        ReaderAction::Unhandled(message) => {
            assert_eq!(RawJsonRpc::request(1, "m", Json::Null), message)
        }
        _ => panic!("a request of the server is put aside"),
    }
    let (_, action) = receive(reader, RawJsonRpc::error(None, error()));
    match action {
        ReaderAction::Unhandled(message) => assert_eq!(RawJsonRpc::error(None, error()), message),
        _ => panic!("an error without an id is put aside"),
    }
}

#[test]
fn reader_stops_at_a_bad_header() {
    for line in ["", "\r\n", "Content-Type: x\r\n", "Content-Length: x\r\n"] {
        let (reader, _) = Reader::<()>::new().step(ReaderEvent::Ready);
        let (_, action) = reader.step(ReaderEvent::Line(line.to_string()));
        assert!(matches!(action, ReaderAction::Fail(ReaderError::ContentLength)));
    }
}

#[test]
fn reader_stops_at_what_is_no_message() {
    for json in [None, Some(Json::Null), Some(Json::Object(vec![]))] {
        let (reader, _) = Reader::<()>::new().step(ReaderEvent::Ready);
        let (reader, _) = reader.step(ReaderEvent::Line("Content-Length: 0".to_string()));
        let (reader, action) = reader.step(ReaderEvent::Line("anything".to_string()));
        assert!(matches!(action, ReaderAction::ReadExact(0)));
        let (reader, _) = reader.step(ReaderEvent::Bytes(vec![]));
        let (_, action) = reader.step(ReaderEvent::Parsed(json));
        assert!(matches!(action, ReaderAction::Fail(ReaderError::Message)));
    }
}

#[test]
fn written_frames_are_read() {
    let text = "{\"jsonrpc\":\"2.0\",\"method\":\"\u{e9}\",\"params\":null}";
    let framed = encode_frame(text);
    let mut lines = framed.split_inclusive('\n');
    let (reader, _) = Reader::<()>::new().step(ReaderEvent::Ready);
    let (reader, _) = reader.step(ReaderEvent::Line(lines.next().unwrap().to_string()));
    let (_, action) = reader.step(ReaderEvent::Line(lines.next().unwrap().to_string()));
    match action {
        ReaderAction::ReadExact(len) => assert_eq!(text.as_bytes().len(), len),
        _ => panic!("the message is read"),
    }
    assert_eq!(Some(text), lines.next());
}
