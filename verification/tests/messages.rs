use lsp_web::json::Json;
use lsp_web::message::{RawJsonRpc, RpcError};
use serde::de::{Deserialize, Deserializer, MapAccess, SeqAccess, Visitor};
use serde_json::Value;

/// A tree as `serde` reads it.
struct Tree(Json);

struct TreeVisitor;

impl<'de> Visitor<'de> for TreeVisitor {
    type Value = Tree;

    fn expecting(&self, formatter: &mut std::fmt::Formatter) -> std::fmt::Result {
        formatter.write_str("a JSON value")
    }

    fn visit_unit<E>(self) -> Result<Tree, E> {
        Ok(Tree(Json::Null))
    }

    fn visit_bool<E>(self, v: bool) -> Result<Tree, E> {
        Ok(Tree(Json::Bool(v)))
    }

    fn visit_u64<E>(self, v: u64) -> Result<Tree, E> {
        Ok(Tree(Json::PosInt(v)))
    }

    fn visit_i64<E>(self, v: i64) -> Result<Tree, E> {
        Ok(Tree(Json::NegInt(v)))
    }

    fn visit_f64<E>(self, v: f64) -> Result<Tree, E> {
        Ok(Tree(Json::Float(v.to_bits())))
    }

    fn visit_str<E>(self, v: &str) -> Result<Tree, E> {
        Ok(Tree(Json::Text(v.to_string())))
    }

    fn visit_seq<A: SeqAccess<'de>>(self, mut seq: A) -> Result<Tree, A::Error> {
        let mut items = Vec::new();
        while let Some(item) = seq.next_element::<Tree>()? {
            items.push(item.0);
        }
        Ok(Tree(Json::Array(items)))
    }

    fn visit_map<A: MapAccess<'de>>(self, mut map: A) -> Result<Tree, A::Error> {
        let mut members = Vec::new();
        while let Some((name, value)) = map.next_entry::<String, Tree>()? {
            members.push((name, value.0));
        }
        Ok(Tree(Json::Object(members)))
    }
}

impl<'de> Deserialize<'de> for Tree {
    fn deserialize<D: Deserializer<'de>>(deserializer: D) -> Result<Tree, D::Error> {
        deserializer.deserialize_any(TreeVisitor)
    }
}

fn value_of(json: &Json) -> Value {
    match json {
        Json::Null => Value::Null,
        Json::Bool(b) => Value::from(*b),
        Json::PosInt(n) => Value::from(*n),
        Json::NegInt(n) => Value::from(*n),
        Json::Float(bits) => Value::from(f64::from_bits(*bits)),
        Json::Text(text) => Value::from(text.as_str()),
        Json::Array(items) => Value::Array(items.iter().map(value_of).collect()),
        Json::Object(members) => Value::Object(
            members.iter().map(|(name, value)| (name.clone(), value_of(value))).collect(),
        ),
    }
}

fn object(members: Vec<(&str, Value)>) -> Value {
    let mut map = serde_json::Map::new();
    for (name, value) in members {
        map.insert(name.to_string(), value);
    }
    Value::Object(map)
}

fn text(text: &str) -> Json {
    Json::Text(text.to_string())
}

fn from_value(value: Value) -> Option<RawJsonRpc> {
    RawJsonRpc::from_json(serde_json::from_value::<Tree>(value).unwrap().0)
}

fn from_text(text: &str) -> Option<RawJsonRpc> {
    RawJsonRpc::from_json(serde_json::from_slice::<Tree>(text.as_bytes()).unwrap().0)
}

#[test]
fn test_raw_jsonrpc_deserialize() {
    let json = object(vec![
        ("jsonrpc", Value::from(2.0)),
        ("id", Value::from(69)),
        ("result", Value::from("nice")),
    ]);
    assert_eq!(RawJsonRpc::result(69, text("nice")), from_value(json).unwrap());
    let json = object(vec![
        ("jsonrpc", Value::from(2.0)),
        ("id", Value::Null),
        (
            "error",
            object(vec![("code", Value::from(-420)), ("message", Value::from("not nice"))]),
        ),
    ]);
    assert_eq!(
        RawJsonRpc::error(None, RpcError { code: -420, message: "not nice".to_string() }),
        from_value(json).unwrap()
    );
}

#[test]
fn test_raw_jsonrpc_serialize() {
    let test_request = RawJsonRpc::request(427, "hotdogp", Json::Null);
    assert_eq!(
        object(vec![
            ("jsonrpc", Value::from("2.0")),
            ("id", Value::from(427)),
            ("method", Value::from("hotdogp")),
            ("params", Value::Null),
        ]),
        value_of(&test_request.to_json())
    );

    let test_error =
        RawJsonRpc::error(Some(69), RpcError { code: -420, message: "not nice".to_string() });
    assert_eq!(
        object(vec![
            ("jsonrpc", Value::from("2.0")),
            ("id", Value::from(69)),
            (
                "error",
                object(vec![("code", Value::from(-420)), ("message", Value::from("not nice"))]),
            ),
        ]),
        value_of(&test_error.to_json())
    );
}

#[test]
fn members_come_in_order() {
    let request = RawJsonRpc::request(1, "m", Json::Bool(true)).to_json();
    assert_eq!(
        Json::Object(vec![
            ("jsonrpc".to_string(), text("2.0")),
            ("id".to_string(), Json::PosInt(1)),
            ("method".to_string(), text("m")),
            ("params".to_string(), Json::Bool(true)),
        ]),
        request
    );
    let notification = RawJsonRpc::notification("m", Json::Null).to_json();
    assert_eq!(
        Json::Object(vec![
            ("jsonrpc".to_string(), text("2.0")),
            ("method".to_string(), text("m")),
            ("params".to_string(), Json::Null),
        ]),
        notification
    );
    let result = RawJsonRpc::result(1, Json::PosInt(2)).to_json();
    assert_eq!(
        Json::Object(vec![
            ("jsonrpc".to_string(), text("2.0")),
            ("id".to_string(), Json::PosInt(1)),
            ("result".to_string(), Json::PosInt(2)),
        ]),
        result
    );
    let error = RpcError { code: 3, message: "e".to_string() };
    let error = RawJsonRpc::error(None, error).to_json();
    assert_eq!(
        Json::Object(vec![
            ("jsonrpc".to_string(), text("2.0")),
            ("id".to_string(), Json::Null),
            (
                "error".to_string(),
                Json::Object(vec![
                    ("code".to_string(), Json::PosInt(3)),
                    ("message".to_string(), text("e")),
                ]),
            ),
        ]),
        error
    );
}

/// One message of each kind.
fn samples() -> Vec<RawJsonRpc> {
    let params = Json::Object(vec![
        ("id".to_string(), Json::Array(vec![Json::NegInt(-1), Json::Float(1.5f64.to_bits())])),
        ("id".to_string(), Json::Null),
    ]);
    vec![
        RawJsonRpc::request(u64::MAX, "method", params),
        RawJsonRpc::notification("params", Json::Array(vec![])),
        RawJsonRpc::result(0, Json::Null),
        RawJsonRpc::error(Some(7), RpcError { code: i64::MIN, message: String::new() }),
        RawJsonRpc::error(None, RpcError { code: i64::MAX, message: "\u{1f980}".to_string() }),
    ]
}

#[test]
fn messages_read_back() {
    for (message, again) in samples().into_iter().zip(samples()) {
        assert_eq!(Some(again), RawJsonRpc::from_json(message.to_json()));
    }
}

#[test]
fn errors_read_back() {
    for code in [i64::MIN, -1, 0, 1, i64::MAX] {
        let json = RpcError { code, message: "m".to_string() }.to_json();
        let response = Json::Object(vec![("error".to_string(), json)]);
        assert_eq!(
            Some(RawJsonRpc::error(None, RpcError { code, message: "m".to_string() })),
            RawJsonRpc::from_json(response)
        );
    }
}

#[test]
fn calls_are_read() {
    assert_eq!(
        Some(RawJsonRpc::notification("m", Json::Null)),
        from_text(r#"{"method":"m","params":null}"#)
    );
    assert_eq!(
        Some(RawJsonRpc::notification("m", Json::PosInt(1))),
        from_text(r#"{"params":1,"method":"m","id":null,"other":{}}"#)
    );
    assert_eq!(
        Some(RawJsonRpc::request(0, "m", Json::Array(vec![]))),
        from_text(r#"{"id":0,"method":"m","params":[],"result":1}"#)
    );
}

#[test]
fn calls_need_their_members() {
    assert_eq!(None, from_text(r#"{"method":"m"}"#));
    assert_eq!(None, from_text(r#"{"params":null}"#));
    assert_eq!(None, from_text(r#"{"method":1,"params":null}"#));
    assert_eq!(None, from_text(r#"{"method":"m","params":null,"id":"1"}"#));
    assert_eq!(None, from_text(r#"{"method":"m","params":null,"id":-1}"#));
    assert_eq!(None, from_text(r#"{"method":"m","params":null,"id":1.0}"#));
    assert_eq!(None, from_text(r#"{"method":"m","params":null,"id":18446744073709551616}"#));
}

#[test]
fn repeated_members_are_refused() {
    assert_eq!(None, from_text(r#"{"id":1,"id":1,"result":null}"#));
    assert_eq!(None, from_text(r#"{"id":1,"result":null,"result":null}"#));
    assert_eq!(None, from_text(r#"{"method":"m","method":"m","params":null}"#));
    assert_eq!(None, from_text(r#"{"error":{"code":1,"code":1,"message":""}}"#));
    assert_eq!(
        Some(RawJsonRpc::result(1, Json::Bool(false))),
        from_text(r#"{"x":1,"id":1,"x":2,"result":false}"#)
    );
}

fn members(members: Vec<(&str, Json)>) -> Json {
    Json::Object(members.into_iter().map(|(name, value)| (name.to_string(), value)).collect())
}

#[test]
fn last_of_repeated_names_counts() {
    let inner = members(vec![("x", Json::PosInt(2)), ("y", Json::PosInt(3))]);
    let value = members(vec![("a", Json::Array(vec![inner])), ("b", Json::PosInt(4))]);
    let texts = [
        r#"{"id":1,"result":{"b":1,"a":2,"a":[{"y":1,"x":2,"y":3}],"b":4}}"#,
        r#"{"result":{"a":[{"x":2,"y":3}],"b":4},"id":1}"#,
    ];
    for text in texts {
        match from_text(text) {
            Some(RawJsonRpc::Result { id, result }) => assert_eq!((1, &value), (id, &result)),
            _ => panic!("the text is a result"),
        }
    }
    match from_text(r#"{"method":"m","params":{"a":1,"a":2}}"#) {
        Some(RawJsonRpc::Call { params, .. }) => {
            assert_eq!(members(vec![("a", Json::PosInt(2))]), params)
        }
        _ => panic!("the text is a notification"),
    }
}

#[test]
fn trees_stand_for_values() {
    let texts = [
        r#"null"#,
        r#"[true,-1,18446744073709551615,1.5,"a",{}]"#,
        r#"{"b":0,"":1,"ab":2,"a":3,"B":4,"\uffff":5,"\ud83e\udd80":6,"\u00e9":7,"ab":8}"#,
        r#"{"a":{"a":{"b":1,"a":2,"b":3}},"a":{"c":[{"z":1,"z":2}],"b":null}}"#,
    ];
    for text in texts {
        let tree = serde_json::from_slice::<Tree>(text.as_bytes()).unwrap().0;
        let value = serde_json::from_slice::<Value>(text.as_bytes()).unwrap();
        let expected = serde_json::from_value::<Tree>(value).unwrap().0;
        assert_eq!(expected, tree.into_value());
    }
    for number in [0.0, -0.0, 1.5, f64::MAX, f64::MIN_POSITIVE] {
        assert_eq!(Json::Float(number.to_bits()), Json::Float(number.to_bits()).into_value());
    }
    for other in [f64::NAN, f64::INFINITY, f64::NEG_INFINITY] {
        assert_eq!(Json::Null, Json::Float(other.to_bits()).into_value());
        assert_eq!(Value::Null, serde_json::to_value(other).unwrap());
    }
}

#[test]
fn messages_are_made_of_values() {
    let tree = || members(vec![("b", Json::Null), ("a", Json::Null), ("b", Json::PosInt(1))]);
    let value = || members(vec![("a", Json::Null), ("b", Json::PosInt(1))]);
    let method = || "m".to_string();
    assert_eq!(
        RawJsonRpc::Call { id: Some(1), method: method(), params: value() },
        RawJsonRpc::request(1, "m", tree())
    );
    assert_eq!(
        RawJsonRpc::Call { id: None, method: method(), params: value() },
        RawJsonRpc::notification("m", tree())
    );
    assert_eq!(RawJsonRpc::Result { id: 1, result: value() }, RawJsonRpc::result(1, tree()));
}

#[test]
fn a_call_comes_before_a_result_and_a_result_before_an_error() {
    assert_eq!(
        Some(RawJsonRpc::result(1, Json::Null)),
        from_text(r#"{"id":1,"method":"m","result":null,"error":{"code":1,"message":""}}"#)
    );
    assert_eq!(
        Some(RawJsonRpc::error(None, RpcError { code: 1, message: String::new() })),
        from_text(r#"{"id":null,"result":null,"error":{"code":1,"message":"","data":[]}}"#)
    );
}

#[test]
fn results_need_an_id() {
    assert_eq!(None, from_text(r#"{"result":null}"#));
    assert_eq!(None, from_text(r#"{"id":null,"result":null}"#));
    assert_eq!(None, from_text(r#"{"id":true,"result":null}"#));
}

#[test]
fn errors_may_be_arrays() {
    assert_eq!(
        Some(RawJsonRpc::error(Some(1), RpcError { code: 2, message: "m".to_string() })),
        from_text(r#"{"id":1,"error":[2,"m"]}"#)
    );
    assert_eq!(None, from_text(r#"{"id":1,"error":[2]}"#));
    assert_eq!(None, from_text(r#"{"id":1,"error":[2,"m",3]}"#));
    assert_eq!(None, from_text(r#"{"id":1,"error":["m",2]}"#));
}

#[test]
fn errors_need_their_members() {
    assert_eq!(None, from_text(r#"{"error":{"code":1}}"#));
    assert_eq!(None, from_text(r#"{"error":{"message":""}}"#));
    assert_eq!(None, from_text(r#"{"error":{"code":1.5,"message":""}}"#));
    assert_eq!(None, from_text(r#"{"error":{"code":9223372036854775808,"message":""}}"#));
    assert_eq!(None, from_text(r#"{"error":"m"}"#));
    assert_eq!(None, from_text(r#"{"id":false,"error":{"code":1,"message":""}}"#));
}

#[test]
fn other_values_are_no_messages() {
    for text in ["null", "true", "1", "-1", "1.5", "\"m\"", "[]", "{}", "[1,\"m\",null]"] {
        assert_eq!(None, from_text(text));
    }
}

#[test]
fn responses_unwrap() {
    assert_eq!(Ok(text("nice")), RawJsonRpc::result(1, text("nice")).unwrap_into_result());
    let error = || RpcError { code: 1, message: "m".to_string() };
    assert_eq!(Err(error()), RawJsonRpc::error(None, error()).unwrap_into_result());
    assert_eq!(Err(error()), RawJsonRpc::error(Some(1), error()).unwrap_into_result());
}
