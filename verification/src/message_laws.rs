//! What the messages that are written tell whoever reads them.

use crate::client_model::notification_frame;
use crate::json::{json_text, object_view, JsonView};
use crate::jsonrpc::{
    failure_view, message_frame, notification_view, request_view, success_view,
};
use crate::lsp::{LspPosition, LspRange};
use crate::messages::{
    connect_params, did_change_params, did_open_params, document_params, empty_object, goal_params,
    initialize_params, position_params, single,
};
use crate::table::{distinct_names, lemma_members, lemma_push, members};
use crate::text::decimal;
use crate::uri::path_uri;
use vstd::prelude::*;
use vstd::utf8::*;

verus! {

/// The member of an object that was put in last is the one that is found; the
/// others are found as before. An object without members has none, and neither
/// has a value that is no object.
pub proof fn members_are_found(
    entries: Seq<(Seq<char>, JsonView)>,
    name: Seq<char>,
    value: JsonView,
    other: Seq<char>,
)
    ensures
        object_view(entries.push((name, value))).get(name) == Some(value),
        other != name ==> object_view(entries.push((name, value))).get(other) == object_view(
            entries,
        ).get(other),
        object_view(Seq::empty()).get(name) is None,
        !(value is Object) ==> value.get(name) is None,
{
    lemma_push(entries, name, value);
}

/// A member is read as a text exactly where it is a string, and as a number
/// exactly where it is an integer that is not negative and in the range of
/// `u64`; and it is then that string or that number. The items of an array are
/// those that it was made of.
pub proof fn members_are_read(
    value: JsonView,
    name: Seq<char>,
    text: Seq<char>,
    number: u64,
    items: Seq<JsonView>,
)
    ensures
        value.text_at(name) == Some(text) <==> value.get(name) == Some(JsonView::String(text)),
        value.unsigned_at(name) == Some(number) <==> value.get(name) == Some(
            JsonView::Integer(number as int),
        ),
        value.as_items() == Some(items) <==> value == JsonView::Array(items),
{
}

/// Whether a value is an object with members of these names, and no others.
pub open spec fn has_members(value: JsonView, names: Seq<Seq<char>>) -> bool {
    match value {
        JsonView::Object(map) => map.dom() == names.to_set(),
        _ => false,
    }
}

/// An object has the members that it was made of.
pub proof fn lemma_object(entries: Seq<(Seq<char>, JsonView)>, names: Seq<Seq<char>>)
    requires
        distinct_names(entries),
        names.len() == entries.len(),
        forall|i: int| 0 <= i < entries.len() ==> (#[trigger] entries[i]).0 == names[i],
    ensures
        has_members(object_view(entries), names),
        forall|i: int|
            0 <= i < entries.len() ==> object_view(entries).get(#[trigger] names[i]) == Some(
                entries[i].1,
            ),
        forall|name: Seq<char>|
            !names.contains(name) ==> #[trigger] object_view(entries).get(name) is None,
{
    lemma_members(entries);
    let map = members(entries);
    assert forall|name: Seq<char>| map.dom().contains(name) <==> names.contains(name) by {
        if map.dom().contains(name) {
            let i = choose|i: int| 0 <= i < entries.len() && (#[trigger] entries[i]).0 == name;
            assert(names[i] == name);
        }
        if names.contains(name) {
            let i = choose|i: int| 0 <= i < names.len() && names[i] == name;
            assert(map.dom().contains(entries[i].0));
        }
    }
    assert(map.dom() =~= names.to_set());
    assert forall|i: int| 0 <= i < entries.len() implies object_view(entries).get(
        #[trigger] names[i],
    ) == Some(entries[i].1) by {
        assert(entries[i].0 == names[i]);
    }
}

/// The object with one member has that member and no other.
pub proof fn lemma_single(name: Seq<char>, value: JsonView)
    ensures
        has_members(single(name, value), seq![name]),
        single(name, value).get(name) == Some(value),
{
    lemma_object(seq![(name, value)], seq![name]);
    assert(seq![name][0] == name);
}

/// The object with two members of different names has them and no others.
pub proof fn lemma_two(a: Seq<char>, x: JsonView, b: Seq<char>, y: JsonView)
    requires
        a != b,
    ensures
        has_members(object_view(seq![(a, x), (b, y)]), seq![a, b]),
        object_view(seq![(a, x), (b, y)]).get(a) == Some(x),
        object_view(seq![(a, x), (b, y)]).get(b) == Some(y),
{
    let names = seq![a, b];
    lemma_object(seq![(a, x), (b, y)], names);
    assert(names[0] == a && names[1] == b);
}

/// The object with three members of different names has them and no others.
pub proof fn lemma_three(
    a: Seq<char>,
    x: JsonView,
    b: Seq<char>,
    y: JsonView,
    c: Seq<char>,
    z: JsonView,
    other: Seq<char>,
)
    requires
        a != b,
        a != c,
        b != c,
    ensures
        has_members(object_view(seq![(a, x), (b, y), (c, z)]), seq![a, b, c]),
        object_view(seq![(a, x), (b, y), (c, z)]).get(a) == Some(x),
        object_view(seq![(a, x), (b, y), (c, z)]).get(b) == Some(y),
        object_view(seq![(a, x), (b, y), (c, z)]).get(c) == Some(z),
        other != a && other != b && other != c ==> object_view(
            seq![(a, x), (b, y), (c, z)],
        ).get(other) is None,
{
    let names = seq![a, b, c];
    lemma_object(seq![(a, x), (b, y), (c, z)], names);
    assert(names[0] == a && names[1] == b && names[2] == c);
}

/// The object with four members of different names has them and no others.
pub proof fn lemma_four(
    a: Seq<char>,
    x: JsonView,
    b: Seq<char>,
    y: JsonView,
    c: Seq<char>,
    z: JsonView,
    d: Seq<char>,
    w: JsonView,
)
    requires
        a != b,
        a != c,
        a != d,
        b != c,
        b != d,
        c != d,
    ensures
        has_members(object_view(seq![(a, x), (b, y), (c, z), (d, w)]), seq![a, b, c, d]),
        object_view(seq![(a, x), (b, y), (c, z), (d, w)]).get(a) == Some(x),
        object_view(seq![(a, x), (b, y), (c, z), (d, w)]).get(b) == Some(y),
        object_view(seq![(a, x), (b, y), (c, z), (d, w)]).get(c) == Some(z),
        object_view(seq![(a, x), (b, y), (c, z), (d, w)]).get(d) == Some(w),
{
    let names = seq![a, b, c, d];
    lemma_object(seq![(a, x), (b, y), (c, z), (d, w)], names);
    assert(names[0] == a && names[1] == b && names[2] == c && names[3] == d);
}

/// The names of the members of a message are different.
proof fn lemma_message_names()
    ensures
        "jsonrpc"@ != "id"@,
        "jsonrpc"@ != "method"@,
        "jsonrpc"@ != "params"@,
        "jsonrpc"@ != "result"@,
        "jsonrpc"@ != "error"@,
        "id"@ != "method"@,
        "id"@ != "params"@,
        "id"@ != "result"@,
        "id"@ != "error"@,
        "method"@ != "params"@,
        "result"@ != "error"@,
        "code"@ != "message"@,
{
    reveal_strlit("jsonrpc");
    reveal_strlit("id");
    reveal_strlit("method");
    reveal_strlit("params");
    reveal_strlit("result");
    reveal_strlit("error");
    reveal_strlit("code");
    reveal_strlit("message");
    assert("jsonrpc"@.len() == 7 && "id"@.len() == 2 && "method"@.len() == 6);
    assert("params"@.len() == 6 && "result"@.len() == 6 && "error"@.len() == 5);
    assert("code"@.len() == 4 && "message"@.len() == 7);
    assert("method"@[0] == 'm' && "params"@[0] == 'p');
}

/// The names of the members of a document, of an edit and of a place are
/// different.
proof fn lemma_document_names()
    ensures
        "uri"@ != "languageId"@,
        "uri"@ != "version"@,
        "uri"@ != "text"@,
        "languageId"@ != "version"@,
        "languageId"@ != "text"@,
        "version"@ != "text"@,
        "textDocument"@ != "contentChanges"@,
        "textDocument"@ != "position"@,
        "range"@ != "text"@,
        "start"@ != "end"@,
        "line"@ != "character"@,
{
    reveal_strlit("uri");
    reveal_strlit("languageId");
    reveal_strlit("version");
    reveal_strlit("text");
    reveal_strlit("textDocument");
    reveal_strlit("contentChanges");
    reveal_strlit("position");
    reveal_strlit("range");
    reveal_strlit("start");
    reveal_strlit("end");
    reveal_strlit("line");
    reveal_strlit("character");
    assert("uri"@.len() == 3 && "languageId"@.len() == 10 && "version"@.len() == 7);
    assert("text"@.len() == 4 && "textDocument"@.len() == 12 && "contentChanges"@.len() == 14);
    assert("position"@.len() == 8 && "range"@.len() == 5 && "start"@.len() == 5);
    assert("end"@.len() == 3 && "line"@.len() == 4 && "character"@.len() == 9);
}

/// Whether bytes carry a message: the header tells how many bytes the text of
/// the message has, and that text follows.
pub open spec fn carries(bytes: Seq<u8>, message: JsonView) -> bool {
    let body = encode_utf8(json_text(message));
    bytes == encode_utf8("Content-Length: "@ + decimal(body.len()) + "\r\n\r\n"@) + body
}

/// Whether a message is a request with this id and method.
pub open spec fn is_request(message: JsonView, id: int, method: Seq<char>) -> bool {
    &&& has_members(message, seq!["jsonrpc"@, "id"@, "method"@, "params"@])
    &&& message.text_at("jsonrpc"@) == Some("2.0"@)
    &&& message.get("id"@) == Some(JsonView::Integer(id))
    &&& message.text_at("method"@) == Some(method)
}

/// Whether a message is a notification with this method.
pub open spec fn is_notification(message: JsonView, method: Seq<char>) -> bool {
    &&& has_members(message, seq!["jsonrpc"@, "method"@, "params"@])
    &&& message.text_at("jsonrpc"@) == Some("2.0"@)
    &&& message.get("id"@) is None
    &&& message.text_at("method"@) == Some(method)
}

/// The parameters of a message.
pub open spec fn params_of(message: JsonView) -> JsonView {
    message.get("params"@)->0
}

/// The document that the parameters of a message are about.
pub open spec fn document_in(params: JsonView) -> JsonView {
    params.get("textDocument"@)->0
}

/// Whether a value tells a place: its line and its character.
pub open spec fn tells_place(value: JsonView, place: LspPosition) -> bool {
    &&& has_members(value, seq!["line"@, "character"@])
    &&& value.unsigned_at("line"@) == Some(place.line)
    &&& value.unsigned_at("character"@) == Some(place.character)
}

/// Whether bytes tell that a document is opened with a text.
pub open spec fn tells_open(bytes: Seq<u8>, uri: Seq<char>, text: Seq<char>) -> bool {
    exists|message: JsonView|
        {
            let params = params_of(message);
            let document = document_in(params);
            &&& #[trigger] carries(bytes, message)
            &&& is_notification(message, "textDocument/didOpen"@)
            &&& has_members(params, seq!["textDocument"@])
            &&& has_members(document, seq!["uri"@, "languageId"@, "version"@, "text"@])
            &&& document.text_at("uri"@) == Some(uri)
            &&& document.text_at("languageId"@) == Some("lean4"@)
            &&& document.get("version"@) == Some(JsonView::Integer(1))
            &&& document.text_at("text"@) == Some(text)
        }
}

/// Whether bytes tell that a document has a new version by one change: a
/// stretch of it was replaced by a text.
pub open spec fn tells_change(
    bytes: Seq<u8>,
    uri: Seq<char>,
    version: int,
    range: LspRange,
    new_text: Seq<char>,
) -> bool {
    exists|message: JsonView|
        {
            let params = params_of(message);
            let document = document_in(params);
            let changes = params.get("contentChanges"@)->0.as_items()->0;
            let stretch = changes[0].get("range"@)->0;
            &&& #[trigger] carries(bytes, message)
            &&& is_notification(message, "textDocument/didChange"@)
            &&& has_members(params, seq!["textDocument"@, "contentChanges"@])
            &&& has_members(document, seq!["uri"@, "version"@])
            &&& document.text_at("uri"@) == Some(uri)
            &&& document.get("version"@) == Some(JsonView::Integer(version))
            &&& params.get("contentChanges"@)->0.as_items() is Some
            &&& changes.len() == 1
            &&& has_members(changes[0], seq!["range"@, "text"@])
            &&& has_members(stretch, seq!["start"@, "end"@])
            &&& tells_place(stretch.get("start"@)->0, range.start)
            &&& tells_place(stretch.get("end"@)->0, range.end)
            &&& changes[0].text_at("text"@) == Some(new_text)
        }
}

/// Whether bytes tell that a document is closed.
pub open spec fn tells_close(bytes: Seq<u8>, uri: Seq<char>) -> bool {
    exists|message: JsonView|
        {
            let params = params_of(message);
            let document = document_in(params);
            &&& #[trigger] carries(bytes, message)
            &&& is_notification(message, "textDocument/didClose"@)
            &&& has_members(params, seq!["textDocument"@])
            &&& has_members(document, seq!["uri"@])
            &&& document.text_at("uri"@) == Some(uri)
        }
}

/// Whether bytes tell that the handshake is confirmed.
pub open spec fn tells_initialized(bytes: Seq<u8>) -> bool {
    exists|message: JsonView|
        {
            &&& #[trigger] carries(bytes, message)
            &&& is_notification(message, "initialized"@)
            &&& has_members(params_of(message), Seq::empty())
        }
}

/// Whether bytes ask, under an id, for a session for a document.
pub open spec fn asks_session(bytes: Seq<u8>, id: int, uri: Seq<char>) -> bool {
    exists|message: JsonView|
        {
            let params = params_of(message);
            &&& #[trigger] carries(bytes, message)
            &&& is_request(message, id, "$/lean/rpc/connect"@)
            &&& has_members(params, seq!["uri"@])
            &&& params.text_at("uri"@) == Some(uri)
        }
}

/// Whether bytes ask, under an id, for the goals at a place of a document.
pub open spec fn asks_goal(bytes: Seq<u8>, id: int, uri: Seq<char>, place: LspPosition) -> bool {
    exists|message: JsonView|
        {
            let params = params_of(message);
            let document = document_in(params);
            &&& #[trigger] carries(bytes, message)
            &&& is_request(message, id, "$/lean/plainGoal"@)
            &&& has_members(params, seq!["textDocument"@, "position"@])
            &&& has_members(document, seq!["uri"@])
            &&& document.text_at("uri"@) == Some(uri)
            &&& tells_place(params.get("position"@)->0, place)
        }
}

/// Whether bytes begin, under an id, the handshake of a process for the Lake
/// project in a directory, or for none.
pub open spec fn asks_initialize(
    bytes: Seq<u8>,
    id: int,
    process_id: u32,
    root: Option<Seq<char>>,
) -> bool {
    exists|message: JsonView|
        {
            let params = params_of(message);
            let abilities = params.get("capabilities"@)->0;
            let publishing = document_in(abilities).get("publishDiagnostics"@)->0;
            &&& #[trigger] carries(bytes, message)
            &&& is_request(message, id, "initialize"@)
            &&& has_members(
                params,
                seq!["processId"@, "capabilities"@, "rootUri"@, "initializationOptions"@],
            )
            &&& params.get("processId"@) == Some(JsonView::Integer(process_id as int))
            &&& params.get("rootUri"@) == Some(
                match root {
                    Some(path) => JsonView::String(path_uri(path)),
                    None => JsonView::Null,
                },
            )
            &&& has_members(abilities, seq!["textDocument"@])
            &&& has_members(document_in(abilities), seq!["publishDiagnostics"@])
            &&& has_members(publishing, seq!["relatedInformation"@])
            &&& publishing.get("relatedInformation"@) == Some(JsonView::Bool(true))
            &&& has_members(params.get("initializationOptions"@)->0, Seq::empty())
        }
}

/// A request is told with its id, its method and its parameters.
pub proof fn lemma_request(id: int, method: Seq<char>, params: JsonView)
    ensures
        ({
            let message = request_view(JsonView::Integer(id), method, Some(params));
            &&& carries(message_frame(message), message)
            &&& is_request(message, id, method)
            &&& params_of(message) == params
        }),
{
    lemma_message_names();
    let head = seq![
        ("jsonrpc"@, JsonView::String("2.0"@)),
        ("id"@, JsonView::Integer(id)),
        ("method"@, JsonView::String(method)),
    ];
    assert(head.push(("params"@, params)) =~= seq![
        ("jsonrpc"@, JsonView::String("2.0"@)),
        ("id"@, JsonView::Integer(id)),
        ("method"@, JsonView::String(method)),
        ("params"@, params),
    ]);
    lemma_four(
        "jsonrpc"@,
        JsonView::String("2.0"@),
        "id"@,
        JsonView::Integer(id),
        "method"@,
        JsonView::String(method),
        "params"@,
        params,
    );
}

/// A request without parameters is told with its id and its method.
pub proof fn lemma_bare_request(id: int, method: Seq<char>)
    ensures
        ({
            let message = request_view(JsonView::Integer(id), method, None);
            &&& carries(message_frame(message), message)
            &&& has_members(message, seq!["jsonrpc"@, "id"@, "method"@])
            &&& message.text_at("jsonrpc"@) == Some("2.0"@)
            &&& message.get("id"@) == Some(JsonView::Integer(id))
            &&& message.text_at("method"@) == Some(method)
            &&& message.get("params"@) is None
        }),
{
    lemma_message_names();
    lemma_three(
        "jsonrpc"@,
        JsonView::String("2.0"@),
        "id"@,
        JsonView::Integer(id),
        "method"@,
        JsonView::String(method),
        "params"@,
    );
}

/// A notification is told with its method and its parameters.
proof fn lemma_notification(method: Seq<char>, params: JsonView)
    ensures
        ({
            let message = notification_view(method, Some(params));
            &&& carries(notification_frame(method, params), message)
            &&& is_notification(message, method)
            &&& params_of(message) == params
        }),
{
    lemma_message_names();
    let head = seq![("jsonrpc"@, JsonView::String("2.0"@)), ("method"@, JsonView::String(method))];
    assert(head.push(("params"@, params)) =~= seq![
        ("jsonrpc"@, JsonView::String("2.0"@)),
        ("method"@, JsonView::String(method)),
        ("params"@, params),
    ]);
    lemma_three(
        "jsonrpc"@,
        JsonView::String("2.0"@),
        "method"@,
        JsonView::String(method),
        "params"@,
        params,
        "id"@,
    );
}

/// A place is told by its line and its character.
proof fn lemma_place(place: LspPosition)
    ensures
        tells_place(position_params(place), place),
{
    lemma_document_names();
    lemma_two(
        "line"@,
        JsonView::Integer(place.line as int),
        "character"@,
        JsonView::Integer(place.character as int),
    );
}

/// The message that a document is opened tells its URI and all of its text.
pub proof fn opening_tells_the_text(uri: Seq<char>, text: Seq<char>)
    ensures
        tells_open(
            notification_frame("textDocument/didOpen"@, did_open_params(uri, text)),
            uri,
            text,
        ),
{
    let params = did_open_params(uri, text);
    lemma_document_names();
    lemma_notification("textDocument/didOpen"@, params);
    let document = object_view(
        seq![
            ("uri"@, JsonView::String(uri)),
            ("languageId"@, JsonView::String("lean4"@)),
            ("version"@, JsonView::Integer(1)),
            ("text"@, JsonView::String(text)),
        ],
    );
    lemma_four(
        "uri"@,
        JsonView::String(uri),
        "languageId"@,
        JsonView::String("lean4"@),
        "version"@,
        JsonView::Integer(1),
        "text"@,
        JsonView::String(text),
    );
    lemma_single("textDocument"@, document);
    let message = notification_view("textDocument/didOpen"@, Some(params));
    assert(carries(notification_frame("textDocument/didOpen"@, params), message));
    assert(document_in(params_of(message)) == document);
}

/// The message that a document was edited tells its URI, its new version, and
/// the one change: the stretch that was replaced, and by what.
pub proof fn editing_tells_the_change(
    uri: Seq<char>,
    version: int,
    range: LspRange,
    new_text: Seq<char>,
)
    ensures
        tells_change(
            notification_frame(
                "textDocument/didChange"@,
                did_change_params(uri, version, range, new_text),
            ),
            uri,
            version,
            range,
            new_text,
        ),
{
    let params = did_change_params(uri, version, range, new_text);
    lemma_document_names();
    lemma_notification("textDocument/didChange"@, params);
    let document = object_view(
        seq![("uri"@, JsonView::String(uri)), ("version"@, JsonView::Integer(version))],
    );
    lemma_two("uri"@, JsonView::String(uri), "version"@, JsonView::Integer(version));
    let stretch = object_view(
        seq![("start"@, position_params(range.start)), ("end"@, position_params(range.end))],
    );
    lemma_two("start"@, position_params(range.start), "end"@, position_params(range.end));
    lemma_place(range.start);
    lemma_place(range.end);
    let change = object_view(seq![("range"@, stretch), ("text"@, JsonView::String(new_text))]);
    lemma_two("range"@, stretch, "text"@, JsonView::String(new_text));
    let changes = JsonView::Array(seq![change]);
    lemma_two("textDocument"@, document, "contentChanges"@, changes);
    let message = notification_view("textDocument/didChange"@, Some(params));
    assert(carries(notification_frame("textDocument/didChange"@, params), message));
    assert(document_in(params_of(message)) == document);
    assert(params_of(message).get("contentChanges"@) == Some(changes));
    assert(changes.as_items()->0[0] == change);
}

/// The message that a document is closed tells its URI.
pub proof fn closing_tells_the_document(uri: Seq<char>)
    ensures
        tells_close(notification_frame("textDocument/didClose"@, document_params(uri)), uri),
{
    let params = document_params(uri);
    lemma_notification("textDocument/didClose"@, params);
    lemma_single("uri"@, JsonView::String(uri));
    lemma_single("textDocument"@, single("uri"@, JsonView::String(uri)));
    let message = notification_view("textDocument/didClose"@, Some(params));
    assert(carries(notification_frame("textDocument/didClose"@, params), message));
}

/// The message that the handshake is confirmed tells nothing else.
pub proof fn confirming_tells_nothing_else()
    ensures
        tells_initialized(notification_frame("initialized"@, empty_object())),
{
    lemma_notification("initialized"@, empty_object());
    lemma_object(Seq::empty(), Seq::empty());
    let message = notification_view("initialized"@, Some(empty_object()));
    assert(carries(notification_frame("initialized"@, empty_object()), message));
}

/// The request for a session tells the document.
pub proof fn connecting_tells_the_document(id: int, uri: Seq<char>)
    ensures
        asks_session(
            message_frame(
                request_view(
                    JsonView::Integer(id),
                    "$/lean/rpc/connect"@,
                    Some(connect_params(uri)),
                ),
            ),
            id,
            uri,
        ),
{
    let params = connect_params(uri);
    lemma_request(id, "$/lean/rpc/connect"@, params);
    lemma_single("uri"@, JsonView::String(uri));
    let message = request_view(JsonView::Integer(id), "$/lean/rpc/connect"@, Some(params));
    assert(carries(message_frame(message), message));
}

/// The request for goals tells the document, and the line and the character of
/// the place.
pub proof fn asking_tells_the_place(id: int, uri: Seq<char>, place: LspPosition)
    ensures
        asks_goal(
            message_frame(
                request_view(
                    JsonView::Integer(id),
                    "$/lean/plainGoal"@,
                    Some(goal_params(uri, place)),
                ),
            ),
            id,
            uri,
            place,
        ),
{
    let params = goal_params(uri, place);
    lemma_document_names();
    lemma_request(id, "$/lean/plainGoal"@, params);
    lemma_single("uri"@, JsonView::String(uri));
    lemma_two(
        "textDocument"@,
        single("uri"@, JsonView::String(uri)),
        "position"@,
        position_params(place),
    );
    lemma_place(place);
    let message = request_view(JsonView::Integer(id), "$/lean/plainGoal"@, Some(params));
    assert(carries(message_frame(message), message));
}

/// The request that begins the handshake tells the process, and the URI of the
/// directory of the Lake project, if there is one.
pub proof fn handshake_tells_the_project(id: int, process_id: u32, root: Option<Seq<char>>)
    ensures
        asks_initialize(
            message_frame(
                request_view(
                    JsonView::Integer(id),
                    "initialize"@,
                    Some(initialize_params(process_id, root)),
                ),
            ),
            id,
            process_id,
            root,
        ),
{
    let params = initialize_params(process_id, root);
    lemma_request(id, "initialize"@, params);
    reveal_strlit("processId");
    reveal_strlit("capabilities");
    reveal_strlit("rootUri");
    reveal_strlit("initializationOptions");
    assert("processId"@.len() == 9 && "capabilities"@.len() == 12 && "rootUri"@.len() == 7);
    assert("initializationOptions"@.len() == 21);
    let related = single("relatedInformation"@, JsonView::Bool(true));
    let publishing = single("publishDiagnostics"@, related);
    let abilities = single("textDocument"@, publishing);
    lemma_single("relatedInformation"@, JsonView::Bool(true));
    lemma_single("publishDiagnostics"@, related);
    lemma_single("textDocument"@, publishing);
    lemma_object(Seq::empty(), Seq::empty());
    lemma_four(
        "processId"@,
        JsonView::Integer(process_id as int),
        "capabilities"@,
        abilities,
        "rootUri"@,
        match root {
            Some(path) => JsonView::String(path_uri(path)),
            None => JsonView::Null,
        },
        "initializationOptions"@,
        empty_object(),
    );
    let message = request_view(JsonView::Integer(id), "initialize"@, Some(params));
    assert(carries(message_frame(message), message));
    assert(document_in(params_of(message).get("capabilities"@)->0) == publishing);
}

/// A response has the id of its request, and either a result or an error, which
/// tells its code and its text.
pub proof fn responses_tell_a_result_or_an_error(
    id: JsonView,
    result: JsonView,
    code: int,
    text: Seq<char>,
)
    ensures
        ({
            let success = success_view(id, result).json();
            let failure = failure_view(id, code, text).json();
            let error = failure.get("error"@)->0;
            &&& has_members(success, seq!["jsonrpc"@, "id"@, "result"@])
            &&& success.text_at("jsonrpc"@) == Some("2.0"@)
            &&& success.get("id"@) == Some(id)
            &&& success.get("result"@) == Some(result)
            &&& success.get("error"@) is None
            &&& has_members(failure, seq!["jsonrpc"@, "id"@, "error"@])
            &&& failure.text_at("jsonrpc"@) == Some("2.0"@)
            &&& failure.get("id"@) == Some(id)
            &&& failure.get("result"@) is None
            &&& has_members(error, seq!["code"@, "message"@])
            &&& error.get("code"@) == Some(JsonView::Integer(code))
            &&& error.text_at("message"@) == Some(text)
        }),
{
    lemma_message_names();
    let version = JsonView::String("2.0"@);
    let head = seq![("jsonrpc"@, version), ("id"@, id)];
    assert(head.push(("result"@, result)) =~= seq![
        ("jsonrpc"@, version),
        ("id"@, id),
        ("result"@, result),
    ]);
    lemma_three("jsonrpc"@, version, "id"@, id, "result"@, result, "error"@);
    let error = object_view(
        seq![("code"@, JsonView::Integer(code)), ("message"@, JsonView::String(text))],
    );
    lemma_two("code"@, JsonView::Integer(code), "message"@, JsonView::String(text));
    assert(head.push(("error"@, error)) =~= seq![
        ("jsonrpc"@, version),
        ("id"@, id),
        ("error"@, error),
    ]);
    lemma_three("jsonrpc"@, version, "id"@, id, "error"@, error, "result"@);
}

}
