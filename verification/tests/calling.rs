use lsp_web::client::{CallError, LsClient, Posting};
use lsp_web::cloner;
use lsp_web::frame::encode_frame;
use lsp_web::json::Json;
use lsp_web::message::{RawJsonRpc, RpcError};
use lsp_web::reader::{Reader, ReaderAction, ReaderControl, ReaderEvent};
use lsp_web::writer::{Writer, WriterAction, WriterControl};

fn error() -> RpcError {
    RpcError { code: 1, message: "no".to_string() }
}

/// The id, the awaiter and the request that a call posts.
fn posted(postings: Vec<Posting<char>>) -> (u64, char, RawJsonRpc) {
    assert_eq!(2, postings.len());
    let mut postings = postings.into_iter();
    let (id, awaiter) = match postings.next().unwrap() {
        Posting::Reader(ReaderControl::Await(id, awaiter)) => (id, awaiter),
        Posting::Writer(_) => panic!("the reader comes first"),
    };
    match postings.next().unwrap() {
        Posting::Writer(WriterControl::Write(request)) => (id, awaiter, request),
        _ => panic!("then comes the request"),
    }
}

#[test]
fn start_asks_to_initialize() {
    let (client, postings) = LsClient::start(4711, Json::Bool(true), 'a');
    assert_eq!(4711, client.pid());
    assert_eq!(
        (0, 'a', RawJsonRpc::request(0, "initialize", Json::Bool(true))),
        posted(postings)
    );
}

#[test]
fn client_is_initialized() {
    let (client, _) = LsClient::start(1, Json::Null, ());
    match client.initialized(Ok(Json::Null), Json::Object(vec![])) {
        Ok(WriterControl::Write(message)) => {
            assert_eq!(RawJsonRpc::notification("initialized", Json::Object(vec![])), message)
        }
        _ => panic!("the server is notified"),
    }
    match client.initialized(Err(error()), Json::Object(vec![])) {
        Err(CallError::RpcError(reported)) => assert_eq!(error(), reported),
        _ => panic!("the error is reported"),
    }
}

#[test]
fn ids_count_up() {
    let (mut client, _) = LsClient::start(1, Json::Null, 'a');
    for id in 1..20 {
        let (got, awaiter, request) = posted(client.call("m", Json::PosInt(id), 'b'));
        assert_eq!((id, 'b'), (got, awaiter));
        assert_eq!(RawJsonRpc::request(id, "m", Json::PosInt(id)), request);
    }
    assert_eq!(20, client.next_request_id());
    assert_eq!(21, client.next_request_id());
    assert_eq!(1, client.pid());
}

#[test]
fn outcomes_reach_the_caller() {
    assert_eq!(Json::PosInt(1), LsClient::finish(Ok(Json::PosInt(1))).unwrap());
    match LsClient::finish(Err(error())) {
        Err(CallError::RpcError(reported)) => assert_eq!(error(), reported),
        _ => panic!("the error is reported"),
    }
}

#[test]
fn notifications_have_no_id() {
    let (client, _) = LsClient::start(1, Json::Null, ());
    match client.notify("exit", Json::Null) {
        WriterControl::Write(message) => {
            assert_eq!(RawJsonRpc::notification("exit", Json::Null), message)
        }
        WriterControl::Shutdown => panic!("the message is written"),
    }
}

fn write(id: u64) -> Option<WriterControl> {
    Some(WriterControl::Write(RawJsonRpc::result(id, Json::Null)))
}

/// What a new writer sends for controls in a row.
fn sent(controls: Vec<Option<WriterControl>>) -> Vec<Json> {
    let mut writer = Writer::new();
    let mut sent = Vec::new();
    for control in controls {
        if let WriterAction::Send(json) = writer.step(control) {
            sent.push(json);
        }
    }
    sent
}

fn results(ids: Vec<u64>) -> Vec<Json> {
    ids.into_iter().map(|id| RawJsonRpc::result(id, Json::Null).to_json()).collect()
}

#[test]
fn writer_sends_in_order() {
    assert_eq!(results(vec![]), sent(vec![]));
    assert_eq!(results(vec![2, 1, 2]), sent(vec![write(2), write(1), write(2)]));
}

#[test]
fn stop_ends_the_writing() {
    let shutdown = || Some(WriterControl::Shutdown);
    assert_eq!(
        results(vec![1, 2]),
        sent(vec![write(1), write(2), shutdown(), write(3), shutdown(), None, write(4)])
    );
    assert_eq!(results(vec![1]), sent(vec![write(1), None, write(2)]));
    assert_eq!(results(vec![]), sent(vec![shutdown(), write(1)]));
    let mut writer = Writer::new();
    assert!(matches!(writer.step(shutdown()), WriterAction::Stop));
    assert!(matches!(writer.step(write(1)), WriterAction::Stop));
    assert!(matches!(Writer::new().step(None), WriterAction::Stop));
}

#[test]
fn messages_are_written_in_frames() {
    let controls = vec![
        Some(WriterControl::Write(RawJsonRpc::notification("\u{e9}", Json::Null))),
        Some(WriterControl::Write(RawJsonRpc::notification("x", Json::Null))),
        Some(WriterControl::Shutdown),
        Some(WriterControl::Write(RawJsonRpc::notification("y", Json::Null))),
    ];
    let method = |json: &Json| match json {
        Json::Object(members) => match &members[1] {
            (_, Json::Text(method)) => method.clone(),
            _ => panic!("a method is a text"),
        },
        _ => panic!("a message is an object"),
    };
    let written: String = sent(controls).iter().map(|json| encode_frame(&method(json))).collect();
    assert_eq!("Content-Length: 2\r\n\r\n\u{e9}Content-Length: 1\r\n\r\nx", written);
}

#[test]
fn calls_get_their_own_responses() {
    for order in [[0, 1], [1, 0]] {
        let (mut client, _) = LsClient::start(1, Json::Null, 'i');
        let calls = ['a', 'b'].map(|awaiter| posted(client.call("m", Json::Null, awaiter)).0);
        assert_ne!(calls[0], calls[1]);
        let controls = vec![
            ReaderControl::Await(calls[order[0]], ['a', 'b'][order[0]]),
            ReaderControl::Await(calls[order[1]], ['a', 'b'][order[1]]),
        ];
        let mut controls = Some(controls);
        let mut reader = Reader::new();
        for n in [0, 1] {
            let response = RawJsonRpc::result(calls[n], Json::PosInt(calls[n])).to_json();
            let (next, _) = take(reader, response);
            let heard = controls.take().unwrap_or_default();
            let (next, action) = next.step(ReaderEvent::Controls(heard));
            reader = next;
            match action {
                ReaderAction::Deliver(to, outcome) => {
                    assert_eq!((['a', 'b'][n], Ok(Json::PosInt(calls[n]))), (to, outcome))
                }
                _ => panic!("the response is delivered"),
            }
        }
    }
}

#[test]
fn calls_get_their_responses() {
    let (mut client, _) = LsClient::start(1, Json::Null, 'i');
    let mut controls = Vec::new();
    let mut requests = Vec::new();
    for awaiter in ['a', 'b', 'c'] {
        for posting in client.call("m", Json::Null, awaiter) {
            match posting {
                Posting::Reader(control) => controls.push(control),
                Posting::Writer(WriterControl::Write(request)) => requests.push(request),
                Posting::Writer(WriterControl::Shutdown) => panic!("a request is written"),
            }
        }
    }
    let mut reader = Reader::new();
    for (request, awaiter) in requests.into_iter().zip(['a', 'b', 'c']).rev() {
        let id = match request {
            RawJsonRpc::Call { id, .. } => id.unwrap(),
            _ => panic!("a request is a call"),
        };
        let (next, _) = reader.step(ReaderEvent::Ready);
        let (next, _) = next.step(ReaderEvent::Line("Content-Length: 0\r\n".to_string()));
        let (next, _) = next.step(ReaderEvent::Line("\r\n".to_string()));
        let (next, _) = next.step(ReaderEvent::Bytes(vec![]));
        let response = RawJsonRpc::result(id, Json::PosInt(id)).to_json();
        let (next, _) = next.step(ReaderEvent::Parsed(Some(response)));
        let (next, action) = next.step(ReaderEvent::Controls(std::mem::take(&mut controls)));
        reader = next;
        match action {
            ReaderAction::Deliver(to, outcome) => {
                assert_eq!((awaiter, Ok(Json::PosInt(id))), (to, outcome))
            }
            _ => panic!("the response is delivered"),
        }
    }
}

/// The reader once it has taken a value, and what it asks for.
fn take(reader: Reader<char>, json: Json) -> (Reader<char>, ReaderAction<char>) {
    let (next, _) = reader.step(ReaderEvent::Ready);
    let (next, _) = next.step(ReaderEvent::Line("Content-Length: 0\r\n".to_string()));
    let (next, _) = next.step(ReaderEvent::Line("\r\n".to_string()));
    let (next, _) = next.step(ReaderEvent::Bytes(vec![]));
    next.step(ReaderEvent::Parsed(Some(json)))
}

#[test]
fn response_comes_behind_other_messages() {
    let (mut client, _) = LsClient::start(1, Json::Null, 'i');
    let (id, awaiter, _) = posted(client.call("m", Json::Null, 'a'));

    let (reader, action) = take(Reader::new(), RawJsonRpc::result(99, Json::Null).to_json());
    assert!(matches!(action, ReaderAction::DrainControls));
    let controls = vec![ReaderControl::Await(id, awaiter)];
    let (reader, action) = reader.step(ReaderEvent::Controls(controls));
    assert!(matches!(action, ReaderAction::NoAwaiter(99, _)));

    let (reader, action) = take(reader, RawJsonRpc::notification("n", Json::Null).to_json());
    assert!(matches!(action, ReaderAction::Notification { .. }));
    let (reader, action) = take(reader, RawJsonRpc::request(id, "r", Json::Null).to_json());
    assert!(matches!(action, ReaderAction::Unhandled(_)));
    let (reader, action) = take(reader, RawJsonRpc::error(None, error()).to_json());
    assert!(matches!(action, ReaderAction::Unhandled(_)));

    let response = Json::Object(vec![
        ("result".to_string(), Json::Bool(true)),
        ("extra".to_string(), Json::Null),
        ("id".to_string(), Json::PosInt(id)),
    ]);
    let (reader, action) = take(reader, response);
    assert!(matches!(action, ReaderAction::DrainControls));
    let (_, action) = reader.step(ReaderEvent::Controls(vec![]));
    match action {
        ReaderAction::Deliver(to, outcome) => {
            assert_eq!(('a', Ok(Json::Bool(true))), (to, outcome))
        }
        _ => panic!("the response is delivered"),
    }
}

#[test]
fn cloner_hands_out_copies() {
    let make = cloner(vec![1, 2]);
    assert_eq!(vec![1, 2], make());
    assert_eq!(vec![1, 2], make());
}
