//! JSON-RPC messages.

use crate::framing::{encode_lsp_message, frame};
use crate::json::{entry_views, json_text, object_view, Json, JsonView};
use crate::table::lemma_push;
use vstd::prelude::*;
use vstd::string::*;
use vstd::utf8::*;

verus! {

/// The text of a message is no JSON.
pub const PARSE_ERROR: i64 = -32700;

/// No such method is known.
pub const METHOD_NOT_FOUND: i64 = -32601;

/// The request failed within the server.
pub const INTERNAL_ERROR: i64 = -32603;

/// A member of an object.
pub fn member(name: &str, value: Json) -> (entry: (String, Json))
    ensures
        entry.0@ == name@,
        entry.1 == value,
{
    (name.to_owned(), value)
}

/// A request: a message that has an id and a method.
pub open spec fn request_view(
    id: JsonView,
    method: Seq<char>,
    params: Option<JsonView>,
) -> JsonView {
    let head = seq![
        ("jsonrpc"@, JsonView::String("2.0"@)),
        ("id"@, id),
        ("method"@, JsonView::String(method)),
    ];
    match params {
        Some(params) => object_view(head.push(("params"@, params))),
        None => object_view(head),
    }
}

/// A notification: a message that has a method and no id.
pub open spec fn notification_view(method: Seq<char>, params: Option<JsonView>) -> JsonView {
    let head = seq![
        ("jsonrpc"@, JsonView::String("2.0"@)),
        ("method"@, JsonView::String(method)),
    ];
    match params {
        Some(params) => object_view(head.push(("params"@, params))),
        None => object_view(head),
    }
}

/// The request with the given id.
pub fn request(id: i64, method: &str, params: Option<Json>) -> (message: Json)
    ensures
        message@ == request_view(JsonView::Integer(id as int), method@, params.deep_view()),
{
    let mut entries: Vec<(String, Json)> = vec![
        member("jsonrpc", Json::text("2.0")),
        member("id", Json::Signed(id)),
        member("method", Json::text(method)),
    ];
    let ghost head = seq![
        ("jsonrpc"@, JsonView::String("2.0"@)),
        ("id"@, JsonView::Integer(id as int)),
        ("method"@, JsonView::String(method@)),
    ];
    assert(entry_views(entries@) =~= head);
    match params {
        Some(params) => {
            let ghost view = params@;
            entries.push(member("params", params));
            assert(entry_views(entries@) =~= head.push(("params"@, view)));
        },
        None => {},
    }
    Json::object(entries)
}

/// The notification of the given method.
pub fn notification(method: &str, params: Option<Json>) -> (message: Json)
    ensures
        message@ == notification_view(method@, params.deep_view()),
{
    let mut entries: Vec<(String, Json)> = vec![
        member("jsonrpc", Json::text("2.0")),
        member("method", Json::text(method)),
    ];
    let ghost head = seq![
        ("jsonrpc"@, JsonView::String("2.0"@)),
        ("method"@, JsonView::String(method@)),
    ];
    assert(entry_views(entries@) =~= head);
    match params {
        Some(params) => {
            let ghost view = params@;
            entries.push(member("params", params));
            assert(entry_views(entries@) =~= head.push(("params"@, view)));
        },
        None => {},
    }
    Json::object(entries)
}

/// The error of a response.
#[derive(Debug)]
pub struct JsonRpcError {
    pub code: i64,
    pub message: String,
}

/// The model of the error of a response.
pub struct ErrorView {
    pub code: int,
    pub message: Seq<char>,
}

impl View for JsonRpcError {
    type V = ErrorView;

    open spec fn view(&self) -> ErrorView {
        ErrorView { code: self.code as int, message: self.message@ }
    }
}

impl DeepView for JsonRpcError {
    type V = ErrorView;

    open spec fn deep_view(&self) -> ErrorView {
        self@
    }
}

/// A response: the answer to the request with the same id.
#[derive(Debug)]
pub struct JsonRpcResponse {
    pub id: Json,
    pub result: Option<Json>,
    pub error: Option<JsonRpcError>,
}

/// The model of a response.
pub struct ResponseView {
    pub id: JsonView,
    pub result: Option<JsonView>,
    pub error: Option<ErrorView>,
}

impl View for JsonRpcResponse {
    type V = ResponseView;

    open spec fn view(&self) -> ResponseView {
        ResponseView {
            id: self.id@,
            result: self.result.deep_view(),
            error: self.error.deep_view(),
        }
    }
}

/// The response that tells a result.
pub open spec fn success_view(id: JsonView, result: JsonView) -> ResponseView {
    ResponseView { id, result: Some(result), error: None }
}

/// The response that tells an error.
pub open spec fn failure_view(id: JsonView, code: int, message: Seq<char>) -> ResponseView {
    ResponseView { id, result: None, error: Some(ErrorView { code, message }) }
}

impl ResponseView {
    /// The response as JSON: a result or an error that there is not has no
    /// member.
    pub open spec fn json(self) -> JsonView {
        let head = seq![("jsonrpc"@, JsonView::String("2.0"@)), ("id"@, self.id)];
        let head = match self.result {
            Some(result) => head.push(("result"@, result)),
            None => head,
        };
        match self.error {
            Some(error) => object_view(
                head.push(
                    (
                        "error"@,
                        object_view(
                            seq![
                                ("code"@, JsonView::Integer(error.code)),
                                ("message"@, JsonView::String(error.message)),
                            ],
                        ),
                    ),
                ),
            ),
            None => object_view(head),
        }
    }
}

/// The error that a member tells: an object with an integer code, in the range
/// of `i64`, and a text.
pub open spec fn error_of(value: JsonView) -> Option<ErrorView> {
    match (value.get("code"@), value.text_at("message"@)) {
        (Some(JsonView::Integer(code)), Some(message)) => if i64::MIN <= code <= i64::MAX {
            Some(ErrorView { code, message })
        } else {
            None
        },
        _ => None,
    }
}

/// The response that a message is; a message without an id, or with an error
/// that is none, is no response.
pub open spec fn response_of(message: JsonView) -> Option<ResponseView> {
    match message.get("id"@) {
        Some(id) => match message.get("error"@) {
            Some(JsonView::Null) | None => Some(
                ResponseView { id, result: message.get("result"@), error: None },
            ),
            Some(value) => match error_of(value) {
                Some(error) => Some(
                    ResponseView { id, result: message.get("result"@), error: Some(error) },
                ),
                None => None,
            },
        },
        None => None,
    }
}

impl JsonRpcResponse {
    /// The response that tells a result.
    pub fn success(id: Json, result: Json) -> (response: JsonRpcResponse)
        ensures
            response@ == success_view(id@, result@),
    {
        JsonRpcResponse { id, result: Some(result), error: None }
    }

    /// The response that tells an error.
    pub fn error(id: Json, code: i64, message: String) -> (response: JsonRpcResponse)
        ensures
            response@ == failure_view(id@, code as int, message@),
    {
        JsonRpcResponse { id, result: None, error: Some(JsonRpcError { code, message }) }
    }

    /// The response as JSON.
    pub fn to_json(&self) -> (message: Json)
        ensures
            message@ == self@.json(),
    {
        let mut entries: Vec<(String, Json)> = vec![
            member("jsonrpc", Json::text("2.0")),
            member("id", self.id.clone()),
        ];
        let ghost head = seq![("jsonrpc"@, JsonView::String("2.0"@)), ("id"@, self.id@)];
        assert(entry_views(entries@) =~= head);
        match &self.result {
            Some(result) => {
                entries.push(member("result", result.clone()));
                assert(entry_views(entries@) =~= head.push(("result"@, result@)));
            },
            None => {},
        }
        let ghost head = entry_views(entries@);
        match &self.error {
            Some(error) => {
                let parts: Vec<(String, Json)> = vec![
                    member("code", Json::Signed(error.code)),
                    member("message", Json::text(error.message.as_str())),
                ];
                assert(entry_views(parts@) =~= seq![
                    ("code"@, JsonView::Integer(error.code as int)),
                    ("message"@, JsonView::String(error.message@)),
                ]);
                let value = Json::object(parts);
                let ghost view = value@;
                entries.push(member("error", value));
                assert(entry_views(entries@) =~= head.push(("error"@, view)));
            },
            None => {},
        }
        Json::object(entries)
    }

    /// Takes a message as a response.
    pub fn from_json(message: &Json) -> (response: Option<JsonRpcResponse>)
        ensures
            match response {
                Some(r) => response_of(message@) == Some(r@),
                None => response_of(message@) is None,
            },
    {
        let id = match message.get("id") {
            Some(id) => id.clone(),
            None => {
                return None;
            },
        };
        let result = match message.get("result") {
            Some(result) => Some(result.clone()),
            None => None,
        };
        let error = match message.get("error") {
            Some(value) => {
                if value.is_null() {
                    None
                } else {
                    match JsonRpcError::from_json(value) {
                        Some(error) => Some(error),
                        None => {
                            return None;
                        },
                    }
                }
            },
            None => None,
        };
        Some(JsonRpcResponse { id, result, error })
    }
}

impl JsonRpcError {
    /// Takes a value as the error of a response.
    fn from_json(value: &Json) -> (error: Option<JsonRpcError>)
        ensures
            match error {
                Some(e) => error_of(value@) == Some(e@),
                None => error_of(value@) is None,
            },
    {
        let code: i64 = match value.get("code") {
            Some(code) => match code {
                Json::Unsigned(n) => if *n <= i64::MAX as u64 {
                    *n as i64
                } else {
                    return None;
                },
                Json::Signed(n) => *n,
                _ => {
                    return None;
                },
            },
            None => {
                return None;
            },
        };
        match value.text_at("message") {
            Some(message) => Some(JsonRpcError { code, message: message.to_owned() }),
            None => None,
        }
    }
}

/// A message to the language server, in bytes.
pub open spec fn message_frame(message: JsonView) -> Seq<u8> {
    frame(encode_utf8(json_text(message)))
}

/// Writes a message to the language server.
pub fn encode_message(message: &Json) -> (bytes: Vec<u8>)
    ensures
        bytes@ == message_frame(message@),
{
    let text = message.to_text();
    encode_lsp_message(text.as_str().as_bytes())
}

/// A response that is written as JSON is read back as it was.
pub proof fn response_round_trip(response: ResponseView)
    requires
        response.error matches Some(error) ==> i64::MIN <= error.code <= i64::MAX,
    ensures
        response_of(response.json()) == Some(response),
{
    reveal_strlit("jsonrpc");
    reveal_strlit("id");
    reveal_strlit("result");
    reveal_strlit("error");
    reveal_strlit("code");
    reveal_strlit("message");
    assert("jsonrpc"@.len() == 7 && "id"@.len() == 2 && "result"@.len() == 6);
    assert("error"@.len() == 5 && "code"@.len() == 4 && "message"@.len() == 7);
    let version = JsonView::String("2.0"@);
    let head = seq![("jsonrpc"@, version), ("id"@, response.id)];
    assert(head =~= Seq::empty().push(("jsonrpc"@, version)).push(("id"@, response.id)));
    lemma_push(Seq::empty(), "jsonrpc"@, version);
    lemma_push(Seq::empty().push(("jsonrpc"@, version)), "id"@, response.id);
    let body = match response.result {
        Some(result) => head.push(("result"@, result)),
        None => head,
    };
    if response.result is Some {
        lemma_push(head, "result"@, response.result->0);
    }
    if response.error is Some {
        let code = JsonView::Integer(response.error->0.code);
        let message = JsonView::String(response.error->0.message);
        let parts = seq![("code"@, code), ("message"@, message)];
        assert(parts =~= Seq::empty().push(("code"@, code)).push(("message"@, message)));
        lemma_push(Seq::empty(), "code"@, code);
        lemma_push(Seq::empty().push(("code"@, code)), "message"@, message);
        lemma_push(body, "error"@, object_view(parts));
        assert(object_view(parts).get("code"@) == Some(code));
        assert(object_view(parts).text_at("message"@) == Some(response.error->0.message));
        assert(response.json().get("error"@) == Some(object_view(parts)));
    }
    assert(response.json().get("id"@) == Some(response.id));
    assert(response.json().get("result"@) == response.result);
}

}
