//! JSON-RPC 2.0 messages and their form as JSON.

use vstd::prelude::*;

use crate::json::{find_member, Json, Position};
#[allow(unused_imports)]
use crate::json::{
    is_value, law_value_is_a_value, law_values_are_kept, lemma_array_view, lemma_object_view,
    lookup, members_view, value_of, JsonView, Lookup,
};

verus! {

/// The error that a response reports.
#[derive(Debug, PartialEq)]
pub struct RpcError {
    pub code: i64,
    pub message: String,
}

/// What an [`RpcError`] stands for.
pub struct RpcErrorView {
    pub code: i64,
    pub message: Seq<char>,
}

impl View for RpcError {
    type V = RpcErrorView;

    open spec fn view(&self) -> RpcErrorView {
        RpcErrorView { code: self.code, message: self.message@ }
    }
}

/// A JSON-RPC 2.0 message.
#[allow(inconsistent_fields)]
#[derive(Debug, PartialEq)]
pub enum RawJsonRpc {
    /// A request, or without an id a notification.
    Call { id: Option<u64>, method: String, params: Json },
    /// The response to a request that succeeded.
    Result { id: u64, result: Json },
    /// The response to a request that failed.
    Error { id: Option<u64>, error: RpcError },
}

/// What a [`RawJsonRpc`] stands for.
#[allow(inconsistent_fields)]
pub enum MessageView {
    Call { id: Option<u64>, method: Seq<char>, params: JsonView },
    Result { id: u64, result: JsonView },
    Error { id: Option<u64>, error: RpcErrorView },
}

impl View for RawJsonRpc {
    type V = MessageView;

    open spec fn view(&self) -> MessageView {
        match self {
            RawJsonRpc::Call { id, method, params } => MessageView::Call {
                id: *id,
                method: method@,
                params: params@,
            },
            RawJsonRpc::Result { id, result } => MessageView::Result { id: *id, result: result@ },
            RawJsonRpc::Error { id, error } => MessageView::Error { id: *id, error: error@ },
        }
    }
}

/// Whether what a message carries is a value, as it is in every message that is made or read.
pub open spec fn carries_a_value(message: MessageView) -> bool {
    match message {
        MessageView::Call { params, .. } => is_value(params),
        MessageView::Result { result, .. } => is_value(result),
        MessageView::Error { .. } => true,
    }
}

/// The JSON form of an id that may be missing.
pub open spec fn id_json(id: Option<u64>) -> JsonView {
    match id {
        Some(n) => JsonView::Int(n as int),
        None => JsonView::Null,
    }
}

/// The JSON form of an error.
pub open spec fn error_json(error: RpcErrorView) -> JsonView {
    JsonView::Object(
        seq![
            ("code"@, JsonView::Int(error.code as int)),
            ("message"@, JsonView::Text(error.message)),
        ],
    )
}

/// The member that every message starts with.
pub open spec fn version_member() -> (Seq<char>, JsonView) {
    ("jsonrpc"@, JsonView::Text("2.0"@))
}

/// The JSON form of a message. A notification has no member for the id; an error response
/// without an id says `null`.
pub open spec fn message_json(message: MessageView) -> JsonView {
    JsonView::Object(
        match message {
            MessageView::Call { id: Some(n), method, params } => seq![
                version_member(),
                ("id"@, JsonView::Int(n as int)),
                ("method"@, JsonView::Text(method)),
                ("params"@, params),
            ],
            MessageView::Call { id: None, method, params } => seq![
                version_member(),
                ("method"@, JsonView::Text(method)),
                ("params"@, params),
            ],
            MessageView::Result { id, result } => seq![
                version_member(),
                ("id"@, JsonView::Int(id as int)),
                ("result"@, result),
            ],
            MessageView::Error { id, error } => seq![
                version_member(),
                ("id"@, id_json(id)),
                ("error"@, error_json(error)),
            ],
        },
    )
}

/// A value read as an unsigned integer.
pub open spec fn as_u64(value: JsonView) -> Option<u64> {
    match value {
        JsonView::Int(n) if 0 <= n <= u64::MAX => Some(n as u64),
        _ => None,
    }
}

/// A value read as a signed integer.
pub open spec fn as_i64(value: JsonView) -> Option<i64> {
    match value {
        JsonView::Int(n) if i64::MIN <= n <= i64::MAX => Some(n as i64),
        _ => None,
    }
}

/// A value read as a text.
pub open spec fn as_text(value: JsonView) -> Option<Seq<char>> {
    match value {
        JsonView::Text(text) => Some(text),
        _ => None,
    }
}

/// The member that must be there once, as a value.
pub open spec fn required(found: Lookup) -> Option<JsonView> {
    match found {
        Lookup::Single(value) => Some(value),
        _ => None,
    }
}

/// The member that must be there once, read as an id.
pub open spec fn required_id(found: Lookup) -> Option<u64> {
    match found {
        Lookup::Single(value) => as_u64(value),
        _ => None,
    }
}

/// The member that may be missing or `null`, read as an id.
pub open spec fn optional_id(found: Lookup) -> Option<Option<u64>> {
    match found {
        Lookup::Absent => Some(None),
        Lookup::Single(JsonView::Null) => Some(None),
        Lookup::Single(value) => match as_u64(value) {
            Some(id) => Some(Some(id)),
            None => None,
        },
        Lookup::Repeated => None,
    }
}

/// The member that must be there once, read as a text.
pub open spec fn required_text(found: Lookup) -> Option<Seq<char>> {
    match found {
        Lookup::Single(value) => as_text(value),
        _ => None,
    }
}

/// A value read as an error: an object with a code and a message, or an array of the two.
pub open spec fn as_error(value: JsonView) -> Option<RpcErrorView> {
    match value {
        JsonView::Object(members) => match (
            match lookup(members, "code"@) {
                Lookup::Single(code) => as_i64(code),
                _ => None,
            },
            required_text(lookup(members, "message"@)),
        ) {
            (Some(code), Some(message)) => Some(RpcErrorView { code, message }),
            _ => None,
        },
        JsonView::Array(items) => if items.len() == 2 {
            match (as_i64(items[0]), as_text(items[1])) {
                (Some(code), Some(message)) => Some(RpcErrorView { code, message }),
                _ => None,
            }
        } else {
            None
        },
        _ => None,
    }
}

/// The members of an object read as a request or a notification.
pub open spec fn call_from(members: Seq<(Seq<char>, JsonView)>) -> Option<MessageView> {
    match (
        optional_id(lookup(members, "id"@)),
        required_text(lookup(members, "method"@)),
        required(lookup(members, "params"@)),
    ) {
        (Some(id), Some(method), Some(params)) => Some(
            MessageView::Call { id, method, params: value_of(params) },
        ),
        _ => None,
    }
}

/// The members of an object read as the response to a request that succeeded.
pub open spec fn result_from(members: Seq<(Seq<char>, JsonView)>) -> Option<MessageView> {
    match (
        required_id(lookup(members, "id"@)),
        required(lookup(members, "result"@)),
    ) {
        (Some(id), Some(result)) => Some(MessageView::Result { id, result: value_of(result) }),
        _ => None,
    }
}

/// The members of an object read as the response to a request that failed.
pub open spec fn error_from(members: Seq<(Seq<char>, JsonView)>) -> Option<MessageView> {
    match (
        optional_id(lookup(members, "id"@)),
        match lookup(members, "error"@) {
            Lookup::Single(value) => as_error(value),
            _ => None,
        },
    ) {
        (Some(id), Some(error)) => Some(MessageView::Error { id, error }),
        _ => None,
    }
}

/// A value read as a message. An object that can be read in more than one way is a call before
/// it is a result, and a result before it is an error. Members of other names are passed over, and
/// what the message carries is the value that its tree stands for.
pub open spec fn message_from(value: JsonView) -> Option<MessageView> {
    match value {
        JsonView::Object(members) => if call_from(members) is Some {
            call_from(members)
        } else if result_from(members) is Some {
            result_from(members)
        } else {
            error_from(members)
        },
        _ => None,
    }
}

/// Reads a value as an unsigned integer.
fn read_u64(value: &Json) -> (number: Option<u64>)
    ensures
        number == as_u64(value@),
{
    match value {
        Json::PosInt(n) => Some(*n),
        Json::NegInt(n) => if *n >= 0 {
            Some(*n as u64)
        } else {
            None
        },
        _ => None,
    }
}

/// Reads a value as a signed integer.
fn read_i64(value: &Json) -> (number: Option<i64>)
    ensures
        number == as_i64(value@),
{
    match value {
        Json::PosInt(n) => if *n <= i64::MAX as u64 {
            Some(*n as i64)
        } else {
            None
        },
        Json::NegInt(n) => Some(*n),
        _ => None,
    }
}

/// Reads a value as a text.
fn read_text(value: &Json) -> (text: Option<String>)
    ensures
        match text {
            Some(text) => as_text(value@) == Some(text@),
            None => as_text(value@) is None,
        },
{
    match value {
        Json::Text(text) => Some(text.clone()),
        _ => None,
    }
}

/// Reads the member called `name`, which may be missing or `null`, as an id.
fn read_optional_id(members: &Vec<(String, Json)>, name: &str) -> (id: Option<Option<u64>>)
    ensures
        id == optional_id(lookup(members_view(members@), name@)),
{
    match find_member(members, name) {
        Position::Absent => Some(None),
        Position::At(i) => match &members[i].1 {
            Json::Null => Some(None),
            value => match read_u64(value) {
                Some(id) => Some(Some(id)),
                None => None,
            },
        },
        Position::Repeated => None,
    }
}

/// Reads the member called `name` as a text.
fn read_required_text(members: &Vec<(String, Json)>, name: &str) -> (text: Option<String>)
    ensures
        match text {
            Some(text) => required_text(lookup(members_view(members@), name@)) == Some(text@),
            None => required_text(lookup(members_view(members@), name@)) is None,
        },
{
    match find_member(members, name) {
        Position::At(i) => read_text(&members[i].1),
        _ => None,
    }
}

/// Reads a value as an error.
fn read_error(value: &Json) -> (error: Option<RpcError>)
    ensures
        match error {
            Some(error) => as_error(value@) == Some(error@),
            None => as_error(value@) is None,
        },
{
    match value {
        Json::Object(members) => {
            proof {
                lemma_object_view(*members);
            }
            let code = match find_member(members, "code") {
                Position::At(i) => read_i64(&members[i].1),
                _ => None,
            };
            match (code, read_required_text(members, "message")) {
                (Some(code), Some(message)) => Some(RpcError { code, message }),
                _ => None,
            }
        },
        Json::Array(items) => {
            proof {
                lemma_array_view(*items);
            }
            if items.len() == 2 {
                match (read_i64(&items[0]), read_text(&items[1])) {
                    (Some(code), Some(message)) => Some(RpcError { code, message }),
                    _ => None,
                }
            } else {
                None
            }
        },
        _ => None,
    }
}

/// A member that holds a text.
fn text_member(name: &str, text: String) -> (member: (String, Json))
    ensures
        (member.0@, member.1@) == (name@, JsonView::Text(text@)),
{
    (name.to_owned(), Json::Text(text))
}

impl RawJsonRpc {
    /// A request. It carries the value that the tree stands for.
    pub fn request(id: u64, method: &str, params: Json) -> (message: RawJsonRpc)
        ensures
            message@ == (MessageView::Call {
                id: Some(id),
                method: method@,
                params: value_of(params@),
            }),
    {
        RawJsonRpc::Call { id: Some(id), method: method.to_owned(), params: params.into_value() }
    }

    /// A notification: a call that no response answers. It carries the value that the tree stands
    /// for.
    pub fn notification(method: &str, params: Json) -> (message: RawJsonRpc)
        ensures
            message@ == (MessageView::Call {
                id: None,
                method: method@,
                params: value_of(params@),
            }),
    {
        RawJsonRpc::Call { id: None, method: method.to_owned(), params: params.into_value() }
    }

    /// The response to a request that succeeded. It carries the value that the tree stands for.
    pub fn result(id: u64, result: Json) -> (message: RawJsonRpc)
        ensures
            message@ == (MessageView::Result { id, result: value_of(result@) }),
    {
        RawJsonRpc::Result { id, result: result.into_value() }
    }

    /// The response to a request that failed.
    pub fn error(id: Option<u64>, error: RpcError) -> (message: RawJsonRpc)
        ensures
            message@ == (MessageView::Error { id, error: error@ }),
    {
        RawJsonRpc::Error { id, error }
    }

    /// What a response says.
    pub fn unwrap_into_result(self) -> (outcome: Result<Json, RpcError>)
        requires
            !(self is Call),
        ensures
            self matches RawJsonRpc::Result { result, .. } ==> outcome == Ok::<Json, RpcError>(
                result,
            ),
            self matches RawJsonRpc::Error { error, .. } ==> outcome == Err::<Json, RpcError>(
                error,
            ),
    {
        match self {
            RawJsonRpc::Result { result, .. } => Ok(result),
            RawJsonRpc::Error { error, .. } => Err(error),
            RawJsonRpc::Call { .. } => vstd::pervasive::unreached(),
        }
    }

    /// The JSON form of this message.
    pub fn to_json(self) -> (json: Json)
        ensures
            json@ == message_json(self@),
    {
        let mut members: Vec<(String, Json)> = Vec::new();
        members.push(text_member("jsonrpc", "2.0".to_owned()));
        match self {
            RawJsonRpc::Call { id, method, params } => {
                if let Some(id) = id {
                    members.push(("id".to_owned(), Json::PosInt(id)));
                }
                members.push(text_member("method", method));
                members.push(("params".to_owned(), params));
            },
            RawJsonRpc::Result { id, result } => {
                members.push(("id".to_owned(), Json::PosInt(id)));
                members.push(("result".to_owned(), result));
            },
            RawJsonRpc::Error { id, error } => {
                let id = match id {
                    Some(id) => Json::PosInt(id),
                    None => Json::Null,
                };
                members.push(("id".to_owned(), id));
                members.push(("error".to_owned(), error.to_json()));
            },
        }
        proof {
            lemma_object_view(members);
            assert(members_view(members@) =~= message_json(self@)->Object_0);
        }
        Json::Object(members)
    }

    /// Reads a message from its JSON form. There is none where the value is no message.
    pub fn from_json(json: Json) -> (message: Option<RawJsonRpc>)
        ensures
            match message {
                Some(message) => message_from(json@) == Some(message@),
                None => message_from(json@) is None,
            },
    {
        let mut members = match json {
            Json::Object(members) => members,
            _ => {
                return None;
            },
        };
        proof {
            lemma_object_view(members);
        }
        let optional_id = read_optional_id(&members, "id");
        let method = read_required_text(&members, "method");
        let params = find_member(&members, "params");
        if let (Some(id), Some(method), Position::At(i)) = (optional_id, method, params) {
            let (_, params) = members.swap_remove(i);
            return Some(RawJsonRpc::Call { id, method, params: params.into_value() });
        }
        let id = match find_member(&members, "id") {
            Position::At(i) => read_u64(&members[i].1),
            _ => None,
        };
        let result = find_member(&members, "result");
        if let (Some(id), Position::At(i)) = (id, result) {
            let (_, result) = members.swap_remove(i);
            return Some(RawJsonRpc::Result { id, result: result.into_value() });
        }
        let error = match find_member(&members, "error") {
            Position::At(i) => read_error(&members[i].1),
            _ => None,
        };
        match (optional_id, error) {
            (Some(id), Some(error)) => Some(RawJsonRpc::Error { id, error }),
            _ => None,
        }
    }
}

impl RpcError {
    /// The JSON form of this error.
    pub fn to_json(self) -> (json: Json)
        ensures
            json@ == error_json(self@),
    {
        let code = if self.code >= 0 {
            Json::PosInt(self.code as u64)
        } else {
            Json::NegInt(self.code)
        };
        let mut members: Vec<(String, Json)> = Vec::new();
        members.push(("code".to_owned(), code));
        members.push(text_member("message", self.message));
        proof {
            lemma_object_view(members);
            assert(members_view(members@) =~= error_json(self@)->Object_0);
        }
        Json::Object(members)
    }
}

/// The names of the members tell the kinds of messages apart.
proof fn lemma_names_differ()
    ensures
        "jsonrpc"@ != "id"@,
        "jsonrpc"@ != "method"@,
        "jsonrpc"@ != "params"@,
        "jsonrpc"@ != "result"@,
        "jsonrpc"@ != "error"@,
        "id"@ != "method"@,
        "id"@ != "params"@,
        "id"@ != "result"@,
        "id"@ != "error"@,
        "method"@ != "params"@,
        "method"@ != "result"@,
        "method"@ != "error"@,
        "params"@ != "result"@,
        "params"@ != "error"@,
        "result"@ != "error"@,
        "code"@ != "message"@,
{
    reveal_strlit("jsonrpc");
    reveal_strlit("id");
    reveal_strlit("method");
    reveal_strlit("params");
    reveal_strlit("result");
    reveal_strlit("error");
    reveal_strlit("code");
    reveal_strlit("message");
    assert("jsonrpc"@.len() == 7);
    assert("id"@.len() == 2);
    assert("error"@.len() == 5);
    assert("method"@.len() == 6 && "params"@.len() == 6 && "result"@.len() == 6);
    assert("code"@.len() == 4 && "message"@.len() == 7);
    assert("method"@[0] != "params"@[0]);
    assert("method"@[0] != "result"@[0]);
    assert("params"@[0] != "result"@[0]);
}

/// The search among members with different names.
proof fn lemma_lookup_among(members: Seq<(Seq<char>, JsonView)>, name: Seq<char>)
    requires
        forall|i: int, j: int|
            0 <= i < j < members.len() ==> (#[trigger] members[i]).0 != (#[trigger] members[j]).0,
    ensures
        forall|i: int|
            0 <= i < members.len() && (#[trigger] members[i]).0 == name ==> lookup(members, name)
                == Lookup::Single(members[i].1),
        (forall|i: int| 0 <= i < members.len() ==> (#[trigger] members[i]).0 != name) ==> lookup(
            members,
            name,
        ) is Absent,
    decreases members.len(),
{
    if members.len() > 0 {
        lemma_lookup_among(members.drop_last(), name);
        let before = members.drop_last();
        assert(forall|i: int| 0 <= i < before.len() ==> before[i] == members[i]);
        if members.last().0 == name {
            assert(forall|i: int| 0 <= i < before.len() ==> (#[trigger] before[i]).0 != name);
        }
    }
}

/// An error that is put in its JSON form and read again is the same error.
pub proof fn law_error_reads_back(error: RpcErrorView)
    ensures
        as_error(error_json(error)) == Some(error),
{
    let members = error_json(error)->Object_0;
    lemma_names_differ();
    lemma_lookup_among(members, "code"@);
    lemma_lookup_among(members, "message"@);
    assert(members[0].0 == "code"@);
    assert(members[1].0 == "message"@);
}

/// A message that is read carries a value.
pub proof fn law_read_messages_carry_values(json: JsonView, message: MessageView)
    requires
        message_from(json) == Some(message),
    ensures
        carries_a_value(message),
{
    let members = json->Object_0;
    if let Lookup::Single(params) = lookup(members, "params"@) {
        law_value_is_a_value(params);
    }
    if let Lookup::Single(result) = lookup(members, "result"@) {
        law_value_is_a_value(result);
    }
}

/// A message that is put in its JSON form and read again is the same message.
pub proof fn law_message_reads_back(message: MessageView)
    requires
        carries_a_value(message),
    ensures
        message_from(message_json(message)) == Some(message),
{
    let members = message_json(message)->Object_0;
    lemma_names_differ();
    lemma_lookup_among(members, "id"@);
    lemma_lookup_among(members, "method"@);
    lemma_lookup_among(members, "params"@);
    lemma_lookup_among(members, "result"@);
    lemma_lookup_among(members, "error"@);
    assert(members[0].0 == "jsonrpc"@);
    match message {
        MessageView::Call { id: Some(n), method, params } => {
            law_values_are_kept(params);
            assert(members[1].0 == "id"@);
            assert(members[2].0 == "method"@);
            assert(members[3].0 == "params"@);
        },
        MessageView::Call { id: None, method, params } => {
            law_values_are_kept(params);
            assert(members[1].0 == "method"@);
            assert(members[2].0 == "params"@);
        },
        MessageView::Result { id, result } => {
            law_values_are_kept(result);
            assert(members[1].0 == "id"@);
            assert(members[2].0 == "result"@);
        },
        MessageView::Error { id, error } => {
            assert(members[1].0 == "id"@);
            assert(members[2].0 == "error"@);
            law_error_reads_back(error);
        },
    }
}

/// What messages and errors are viewed as.
pub proof fn law_messages_are_viewed(
    id: u64,
    maybe: Option<u64>,
    method: String,
    carried: Json,
    error: RpcError,
)
    ensures
        error@ == (RpcErrorView { code: error.code, message: error.message@ }),
        (RawJsonRpc::Call { id: maybe, method, params: carried })@ == (MessageView::Call {
            id: maybe,
            method: method@,
            params: carried@,
        }),
        (RawJsonRpc::Result { id, result: carried })@ == (MessageView::Result {
            id,
            result: carried@,
        }),
        (RawJsonRpc::Error { id: maybe, error })@ == (MessageView::Error {
            id: maybe,
            error: error@,
        }),
{
}

/// The JSON form of every message is an object that starts with the version of the protocol, and
/// names it once.
pub proof fn law_messages_name_the_version(message: MessageView)
    ensures
        message_json(message) matches JsonView::Object(members) && {
            &&& members.len() > 0
            &&& members[0] == ("jsonrpc"@, JsonView::Text("2.0"@))
            &&& forall|i: int| 0 < i < members.len() ==> (#[trigger] members[i]).0 != "jsonrpc"@
        },
{
    lemma_names_differ();
}

/// A request has its id, its method and its parameters behind the version, and nothing else.
pub proof fn law_requests_are_written_whole(id: u64, method: Seq<char>, params: JsonView)
    ensures
        message_json(MessageView::Call { id: Some(id), method, params }) matches JsonView::Object(
            members,
        ) && {
            &&& members.len() == 4
            &&& members[1] == ("id"@, JsonView::Int(id as int))
            &&& members[2] == ("method"@, JsonView::Text(method))
            &&& members[3] == ("params"@, params)
        },
{
}

/// A notification has its method and its parameters behind the version, and nothing else.
pub proof fn law_notifications_are_written_whole(method: Seq<char>, params: JsonView)
    ensures
        message_json(MessageView::Call { id: None, method, params }) matches JsonView::Object(
            members,
        ) && {
            &&& members.len() == 3
            &&& members[1] == ("method"@, JsonView::Text(method))
            &&& members[2] == ("params"@, params)
        },
{
}

/// A result has its id and what it carries behind the version, and nothing else.
pub proof fn law_results_are_written_whole(id: u64, result: JsonView)
    ensures
        message_json(MessageView::Result { id, result }) matches JsonView::Object(members) && {
            &&& members.len() == 3
            &&& members[1] == ("id"@, JsonView::Int(id as int))
            &&& members[2] == ("result"@, result)
        },
{
}

/// An error response has its id, or `null` where it has none, and the error with its code and its
/// message, and nothing else.
pub proof fn law_errors_are_written_whole(id: Option<u64>, error: RpcErrorView)
    ensures
        error_json(error) matches JsonView::Object(parts) && {
            &&& parts.len() == 2
            &&& parts[0] == ("code"@, JsonView::Int(error.code as int))
            &&& parts[1] == ("message"@, JsonView::Text(error.message))
        },
        message_json(MessageView::Error { id, error }) matches JsonView::Object(members) && {
            &&& members.len() == 3
            &&& members[1].0 == "id"@
            &&& id matches Some(n) ==> members[1].1 == JsonView::Int(n as int)
            &&& id is None ==> members[1].1 == JsonView::Null
            &&& members[2] == ("error"@, error_json(error))
        },
{
}

/// What is no object is no message.
pub proof fn law_messages_are_objects(json: JsonView)
    requires
        message_from(json) is Some,
    ensures
        json is Object,
{
}

/// An object is read as a call exactly where it names the method and the parameters once each, the
/// method as a text, and the id at most once, as an unsigned integer or `null`.
pub proof fn law_calls_are_read_whole(
    members: Seq<(Seq<char>, JsonView)>,
    id: Option<u64>,
    method: Seq<char>,
    params: JsonView,
)
    ensures
        message_from(JsonView::Object(members)) == Some(
            MessageView::Call { id, method, params },
        ) <==> {
            &&& match id {
                Some(n) => lookup(members, "id"@) == Lookup::Single(JsonView::Int(n as int)),
                None => lookup(members, "id"@) is Absent || lookup(members, "id"@)
                    == Lookup::Single(JsonView::Null),
            }
            &&& lookup(members, "method"@) == Lookup::Single(JsonView::Text(method))
            &&& lookup(members, "params"@) matches Lookup::Single(tree)
            &&& params == value_of(tree)
        },
{
}

/// An object that is no call is read as a result exactly where it names the id and the result once
/// each, the id as an unsigned integer.
pub proof fn law_results_are_read_whole(
    members: Seq<(Seq<char>, JsonView)>,
    id: u64,
    result: JsonView,
)
    requires
        !(message_from(JsonView::Object(members)) matches Some(message) && message is Call),
    ensures
        message_from(JsonView::Object(members)) == Some(MessageView::Result { id, result }) <==> {
            &&& lookup(members, "id"@) == Lookup::Single(JsonView::Int(id as int))
            &&& lookup(members, "result"@) matches Lookup::Single(tree)
            &&& result == value_of(tree)
        },
{
}

/// An object that is neither a call nor a result is read as an error exactly where it names the
/// error once and the id at most once, as an unsigned integer or `null`. The error is an object that
/// names its code and its message once each, or an array of the two.
pub proof fn law_errors_are_read_whole(
    members: Seq<(Seq<char>, JsonView)>,
    id: Option<u64>,
    error: RpcErrorView,
)
    requires
        !(message_from(JsonView::Object(members)) matches Some(message) && !(message is Error)),
    ensures
        message_from(JsonView::Object(members)) == Some(MessageView::Error { id, error }) <==> {
            &&& match id {
                Some(n) => lookup(members, "id"@) == Lookup::Single(JsonView::Int(n as int)),
                None => lookup(members, "id"@) is Absent || lookup(members, "id"@)
                    == Lookup::Single(JsonView::Null),
            }
            &&& lookup(members, "error"@) matches Lookup::Single(tree)
            &&& match tree {
                JsonView::Object(parts) => {
                    &&& lookup(parts, "code"@) == Lookup::Single(JsonView::Int(error.code as int))
                    &&& lookup(parts, "message"@) == Lookup::Single(JsonView::Text(error.message))
                },
                JsonView::Array(parts) => {
                    &&& parts.len() == 2
                    &&& parts[0] == JsonView::Int(error.code as int)
                    &&& parts[1] == JsonView::Text(error.message)
                },
                _ => false,
            }
        },
{
}

} // verus!
