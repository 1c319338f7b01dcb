use lean4_mcp_proxy::json::Json;
use lean4_mcp_proxy::jsonrpc::{
    encode_message, notification, request, JsonRpcResponse, INTERNAL_ERROR, METHOD_NOT_FOUND,
    PARSE_ERROR,
};

fn parse(text: &str) -> Json {
    Json::parse(text).unwrap()
}

#[test]
fn a_value_is_parsed_and_written() {
    let value = parse(" { \"b\" : [1, -2, 1.5, null, true, \"x\\ny\"], \"a\": {} } ");
    assert_eq!(value.to_text(), "{\"a\":{},\"b\":[1,-2,1.5,null,true,\"x\\ny\"]}");
    assert_eq!(
        parse("{\"a\":[1]}").to_text_pretty(),
        "{\n  \"a\": [\n    1\n  ]\n}"
    );
    assert!(!value.to_text().contains('\n'));
}

#[test]
fn a_text_that_is_no_json_is_told() {
    assert_eq!(
        Json::parse("{").unwrap_err(),
        "EOF while parsing an object at line 1 column 1"
    );
}

#[test]
fn members_are_found_by_their_names() {
    let value = parse("{\"n\": 18446744073709551615, \"s\": \"t\", \"z\": null, \"m\": -1}");
    assert_eq!(value.u64_at("n"), Some(u64::MAX));
    assert_eq!(value.u64_at("m"), None);
    assert_eq!(value.text_at("s"), Some("t"));
    assert_eq!(value.text_at("n"), None);
    assert!(value.get("z").unwrap().is_null());
    assert!(value.get("y").is_none());
    assert!(Json::Null.get("y").is_none());
    assert_eq!(parse("[1,2]").as_array().unwrap().len(), 2);
    assert_eq!(parse("1.0").as_u64(), None);
    assert_eq!(Json::Signed(3).as_u64(), Some(3));
}

#[test]
fn of_members_with_one_name_the_last_stays() {
    let value = Json::object(vec![
        ("a".to_string(), Json::Unsigned(1)),
        ("b".to_string(), Json::Unsigned(2)),
        ("a".to_string(), Json::Unsigned(3)),
    ]);
    assert_eq!(value.u64_at("a"), Some(3));
    assert_eq!(value.to_text(), "{\"a\":3,\"b\":2}");
}

#[test]
fn a_copy_of_a_value_is_the_same() {
    let value = parse("{\"a\":[1e300,-5,{\"b\":\"c\"}]}");
    assert_eq!(value.clone().to_text(), value.to_text());
}

#[test]
fn a_value_passes_through_serde_json() {
    let value = serde_json::Value::from(vec![1.25f64, 3.0]);
    let json = Json::from_value(value.clone());
    assert_eq!(json.to_value(), value);
    assert_eq!(json.to_text(), "[1.25,3.0]");
}

#[test]
fn messages_are_written() {
    assert_eq!(
        request(7, "ping", None).to_text(),
        "{\"id\":7,\"jsonrpc\":\"2.0\",\"method\":\"ping\"}"
    );
    assert_eq!(
        notification("exit", Some(Json::Null)).to_text(),
        "{\"jsonrpc\":\"2.0\",\"method\":\"exit\",\"params\":null}"
    );
    assert_eq!(encode_message(&Json::Null), b"Content-Length: 4\r\n\r\nnull");
}

#[test]
fn a_written_response_is_read_back() {
    let success = JsonRpcResponse::success(Json::Unsigned(1), parse("{\"a\":1}"));
    let failure = JsonRpcResponse::error(Json::text("x"), METHOD_NOT_FOUND, "no".to_string());
    for response in [success, failure] {
        let message = response.to_json();
        let again = JsonRpcResponse::from_json(&message).unwrap();
        assert_eq!(again.to_json().to_text(), message.to_text());
    }
    assert_eq!((PARSE_ERROR, METHOD_NOT_FOUND, INTERNAL_ERROR), (-32700, -32601, -32603));
}

#[test]
fn a_message_that_is_no_response_is_told() {
    assert!(JsonRpcResponse::from_json(&parse("{\"result\":1}")).is_none());
    assert!(JsonRpcResponse::from_json(&parse("{\"id\":1,\"error\":{\"code\":1}}")).is_none());
    assert!(JsonRpcResponse::from_json(&parse("{\"id\":1,\"error\":3}")).is_none());
    let response = JsonRpcResponse::from_json(&parse("{\"id\":1,\"result\":null}")).unwrap();
    assert!(response.result.unwrap().is_null());
    let response =
        JsonRpcResponse::from_json(&parse("{\"id\":1,\"error\":{\"code\":-1,\"message\":\"m\"}}"))
            .unwrap();
    let error = response.error.unwrap();
    assert_eq!((error.code, error.message.as_str()), (-1, "m"));
}
