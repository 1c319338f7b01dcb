//! What a connection sends, what it keeps and what it tells, step by step.

use crate::client_model::{
    edit_range, goal_answer, goals_text, numbered_goal, spawn_view, ChangeView, ClientView,
    IncomingView, OutcomeView, RequestView, SessionView,
};
use crate::document::{edit_offsets, edited, replacing_all_gives_new_text, whole_range};
use crate::document_laws::{edit_keeps_what_is_around, stands_behind, whole_range_is_all};
use crate::json::{json_parse, json_text, json_text_pretty, object_view, JsonView};
use crate::jsonrpc::{message_frame, request_view, success_view, ErrorView, ResponseView};
use crate::lsp::{DiagnosticView, FileCheckStatus, LspRange};
use crate::message_laws::{
    asks_session, carries, confirming_tells_nothing_else, connecting_tells_the_document,
    editing_tells_the_change, has_members, lemma_bare_request, lemma_request, members_are_found,
    responses_tell_a_result_or_an_error, tells_change, tells_initialized,
};
use crate::text::{decimal, lossy_text, signed_decimal};
use crate::uri::uri_path;
use vstd::prelude::*;
use vstd::utf8::*;

verus! {

/// Whether two states know the same of a document: its text and version, its
/// session, what was found in it and how far Lean is with it.
pub open spec fn same_document(a: ClientView, b: ClientView, uri: Seq<char>) -> bool {
    &&& a.documents.dom().contains(uri) == b.documents.dom().contains(uri)
    &&& a.documents.dom().contains(uri) ==> a.documents[uri] == b.documents[uri]
    &&& a.diagnostics.dom().contains(uri) == b.diagnostics.dom().contains(uri)
    &&& a.diagnostics.dom().contains(uri) ==> a.diagnostics[uri] == b.diagnostics[uri]
    &&& a.progress.dom().contains(uri) == b.progress.dom().contains(uri)
    &&& a.progress.dom().contains(uri) ==> a.progress[uri] == b.progress[uri]
}

/// Whether two states have the same requests waiting, number the next one alike
/// and serve the same project.
pub open spec fn same_requests(a: ClientView, b: ClientView) -> bool {
    &&& a.pending == b.pending
    &&& a.next_request_id == b.next_request_id
    &&& a.lake_root == b.lake_root
}

/// A new connection knows of no document, waits for nothing, and numbers its
/// first request with one.
pub proof fn a_new_connection_knows_nothing(root: Option<Seq<char>>, uri: Seq<char>, id: Seq<char>)
    ensures
        ({
            let client = ClientView::fresh(root);
            &&& !client.documents.dom().contains(uri)
            &&& client.diagnostics_at(uri).len() == 0
            &&& client.progress_at(uri) is None
            &&& !client.pending.contains(id)
            &&& client.next_request_id == 1
            &&& client.lake_root == root
            &&& client.wf()
        }),
{
}

/// How a language server is started: in a Lake project by `lake serve`, with
/// the Lake program that is named if one is, and else by `lean --server`; in the
/// directory of the project, if there is one.
pub proof fn lake_serves_a_project(
    root: Seq<char>,
    lake_bin: Option<Seq<char>>,
    program: Seq<char>,
    lake_root: Option<Seq<char>>,
    lean_bin: Option<Seq<char>>,
)
    ensures
        spawn_view(Some(root), None, Some(program)).program == program,
        spawn_view(Some(root), None, None).program == "lake"@,
        spawn_view(Some(root), None, lake_bin).argument == "serve"@,
        spawn_view(None, None, lake_bin).program == "lean"@,
        spawn_view(None, lean_bin, lake_bin).argument == "--server"@,
        spawn_view(lake_root, lean_bin, lake_bin).current_dir == lake_root,
{
}

/// A request has the next number as its id, and is told with its method and its
/// parameters. It waits from then on, and the next request has the next number.
/// Nothing else changes.
pub proof fn requests_are_numbered_and_told(
    client: ClientView,
    method: Seq<char>,
    params: Option<JsonView>,
    timeout_secs: u64,
    uri: Seq<char>,
    other: Seq<char>,
)
    ensures
        ({
            let (after, request) = client.requested(method, params, timeout_secs);
            &&& request.id == signed_decimal(client.next_request_id)
            &&& request.method == method
            &&& request.timeout_secs == timeout_secs
            &&& after.pending.contains(request.id)
            &&& other != request.id ==> after.pending.contains(other) == client.pending.contains(
                other,
            )
            &&& after.next_request_id == client.next_request_id + 1
            &&& after.lake_root == client.lake_root
            &&& same_document(after, client, uri)
            &&& exists|message: JsonView|
                {
                    &&& #[trigger] carries(request.frame, message)
                    &&& message.text_at("jsonrpc"@) == Some("2.0"@)
                    &&& message.get("id"@) == Some(JsonView::Integer(client.next_request_id))
                    &&& message.text_at("method"@) == Some(method)
                    &&& message.get("params"@) == params
                }
        }),
{
    let (after, request) = client.requested(method, params, timeout_secs);
    let message = request_view(JsonView::Integer(client.next_request_id), method, params);
    match params {
        Some(params) => {
            lemma_request(client.next_request_id, method, params);
        },
        None => {
            lemma_bare_request(client.next_request_id, method);
        },
    }
    assert(carries(request.frame, message));
}

/// The outcome of a request: the response that came, or a text that tells that
/// it could not be sent, that the connection was given up, or that no response
/// came in the time that it had. Only in the last case something changes: the
/// request waits no longer.
pub proof fn outcomes_are_told(
    client: ClientView,
    request: RequestView,
    response: ResponseView,
    uri: Seq<char>,
    other: Seq<char>,
)
    ensures
        client.concluded(request, OutcomeView::Response(response)) == (
            client,
            Ok::<ResponseView, Seq<char>>(response),
        ),
        client.concluded(request, OutcomeView::NotSent) == (
            client,
            Err::<ResponseView, Seq<char>>("Failed to send to lean stdin channel"@),
        ),
        client.concluded(request, OutcomeView::Closed) == (
            client,
            Err::<ResponseView, Seq<char>>(
                "Response channel closed before receiving response for "@ + request.method,
            ),
        ),
        ({
            let (after, result) = client.concluded(request, OutcomeView::TimedOut);
            &&& result == Err::<ResponseView, Seq<char>>(
                "Timed out waiting for Lean response to "@ + request.method + " ("@ + decimal(
                    request.timeout_secs as nat,
                ) + "s)"@,
            )
            &&& !after.pending.contains(request.id)
            &&& other != request.id ==> after.pending.contains(other) == client.pending.contains(
                other,
            )
            &&& after.next_request_id == client.next_request_id
            &&& after.lake_root == client.lake_root
            &&& same_document(after, client, uri)
        }),
{
}

/// The handshake is confirmed exactly where a response without an error came;
/// an error of the response is told, and so is why no response came.
pub proof fn handshake_is_confirmed_when_answered(
    client: ClientView,
    request: RequestView,
    outcome: OutcomeView,
)
    ensures
        ({
            let (after, result) = client.initialized(request, outcome);
            &&& after == client.concluded(request, outcome).0
            &&& result is Ok <==> (outcome matches OutcomeView::Response(response)
                && response.error is None)
            &&& result matches Ok(frame) ==> tells_initialized(frame)
            &&& outcome matches OutcomeView::Response(response) ==> (response.error is Some
                ==> result == Err::<Seq<u8>, Seq<char>>(
                "Lean initialization failed: "@ + response.error->0.message,
            ))
            &&& !(outcome is Response) ==> result->Err_0 == client.concluded(
                request,
                outcome,
            ).1->Err_0
        }),
{
    confirming_tells_nothing_else();
}

/// A document that has a session keeps it: nothing is asked for. For another a
/// session is asked for, with its URI and the next number, and nothing else
/// changes but that the request waits.
pub proof fn sessions_are_asked_for_once(client: ClientView, uri: Seq<char>, other: Seq<char>)
    ensures
        ({
            let (after, session) = client.session(uri);
            let known = client.documents.dom().contains(uri)
                && client.documents[uri].rpc_session_id is Some;
            &&& known ==> after == client && session == (SessionView::Ready {
                session: client.documents[uri].rpc_session_id->0,
            })
            &&& !known ==> {
                &&& session matches SessionView::Connect { request }
                    && asks_session(request.frame, client.next_request_id, uri)
                    && request.id == signed_decimal(client.next_request_id)
                    && request.method == "$/lean/rpc/connect"@ && request.timeout_secs == 120
                    && after.pending.contains(request.id)
                &&& after.next_request_id == client.next_request_id + 1
                &&& same_document(after, client, other)
            }
        }),
{
    connecting_tells_the_document(client.next_request_id, uri);
}

/// The session that a response tells is the one that the document then has, and
/// it is not asked for again. The document is otherwise as it was, and so is
/// every other one.
pub proof fn told_sessions_are_kept(
    client: ClientView,
    uri: Seq<char>,
    request: RequestView,
    response: ResponseView,
    session: Seq<char>,
    other: Seq<char>,
)
    requires
        response.error is None,
        response.result matches Some(result) && result.text_at("sessionId"@) == Some(session),
        client.documents.dom().contains(uri),
    ensures
        ({
            let (after, result) = client.connected(
                uri,
                request,
                OutcomeView::Response(response),
            );
            let before = client.documents[uri];
            &&& result == Ok::<Seq<char>, Seq<char>>(session)
            &&& after.documents.dom().contains(uri)
            &&& after.session(uri) == (after, SessionView::Ready { session })
            &&& after.documents[uri].uri == before.uri
            &&& after.documents[uri].text == before.text
            &&& after.documents[uri].version == before.version
            &&& after.diagnostics == client.diagnostics
            &&& after.progress == client.progress
            &&& same_requests(after, client)
            &&& other != uri ==> same_document(after, client, other)
        }),
{
}

/// Without a session in the response, or without a response, there is none: the
/// reason is told, and no document changes.
pub proof fn missing_sessions_are_told(
    client: ClientView,
    uri: Seq<char>,
    request: RequestView,
    outcome: OutcomeView,
    other: Seq<char>,
)
    ensures
        ({
            let (after, result) = client.connected(uri, request, outcome);
            &&& result is Ok <==> (outcome matches OutcomeView::Response(response)
                && response.error is None && (response.result matches Some(value)
                && value.text_at("sessionId"@) is Some))
            &&& result is Err ==> same_document(after, client, other) && after
                == client.concluded(request, outcome).0
            &&& outcome matches OutcomeView::Response(response) ==> (response.error is Some
                ==> result == Err::<Seq<char>, Seq<char>>(
                "RPC connect failed for "@ + uri + ": "@ + response.error->0.message,
            ))
            &&& outcome matches OutcomeView::Response(response) ==> (response.error is None
                && result is Err ==> result == Err::<Seq<char>, Seq<char>>(
                "No sessionId in RPC connect response"@,
            ))
            &&& !(outcome is Response) ==> result->Err_0 == client.concluded(
                request,
                outcome,
            ).1->Err_0
        }),
{
}

/// A document that is opened has its URI and its text, the first version and no
/// session; what was known of it is void, and nothing else changes.
pub proof fn opening_keeps_the_rest(
    client: ClientView,
    uri: Seq<char>,
    text: Seq<char>,
    other: Seq<char>,
)
    ensures
        ({
            let after = client.marked(uri).opened(uri, text);
            &&& after.documents[uri].uri == uri
            &&& after.documents[uri].text == text
            &&& after.documents[uri].version == 1
            &&& after.documents[uri].rpc_session_id is None
            &&& after.progress_at(uri) == Some(FileCheckStatus::Processing)
            &&& after.diagnostics_at(uri).len() == 0
            &&& same_requests(after, client)
            &&& other != uri ==> same_document(after, client, other)
        }),
{
}

/// A document that is closed leaves nothing behind, and nothing else changes.
pub proof fn closing_keeps_the_rest(client: ClientView, uri: Seq<char>, other: Seq<char>)
    ensures
        ({
            let after = client.closed(uri);
            &&& !after.documents.dom().contains(uri)
            &&& !after.diagnostics.dom().contains(uri)
            &&& !after.progress.dom().contains(uri)
            &&& same_requests(after, client)
            &&& other != uri ==> same_document(after, client, other)
        }),
{
}

/// What is sent of an edit is what was done: the message tells the version that
/// the document then has, and its one change, applied to the text that the
/// document had, gives the text that it then has. Every byte of the old text
/// before the change and behind it is kept.
pub proof fn sent_change_is_the_edit(
    client: ClientView,
    uri: Seq<char>,
    range: LspRange,
    new_text: Seq<char>,
    other: Seq<char>,
)
    requires
        client.edit(uri, range, new_text).1 is Ok,
    ensures
        ({
            let (after, result) = client.edit(uri, range, new_text);
            let change = result->Ok_0;
            let before = client.documents[uri].text;
            let now = after.documents[uri];
            &&& tells_change(change.frame, uri, now.version, range, new_text)
            &&& edited(before, range, new_text) == Ok::<Seq<char>, Seq<char>>(now.text)
            &&& now.version == client.documents[uri].version + 1
            &&& exists|start: int, end: int|
                0 <= start <= end <= encode_utf8(before).len() && encode_utf8(now.text)
                    == #[trigger] encode_utf8(before).take(start) + encode_utf8(new_text)
                    + #[trigger] encode_utf8(before).skip(end)
            &&& change.text == now.text
            &&& change.path == uri_path(uri)
            &&& now.uri == client.documents[uri].uri
            &&& now.rpc_session_id == client.documents[uri].rpc_session_id
            &&& after.progress_at(uri) == Some(FileCheckStatus::Processing)
            &&& after.diagnostics_at(uri).len() == 0
            &&& same_requests(after, client)
            &&& other != uri ==> same_document(after, client, other)
        }),
{
    let before = client.documents[uri].text;
    editing_tells_the_change(uri, client.documents[uri].version + 1, range, new_text);
    edit_keeps_what_is_around(before, range, new_text);
    let (start, end) = edit_offsets(before, range);
    assert(encode_utf8(before).take(start as int).len() == start);
    assert(encode_utf8(before).skip(end as int).len() == encode_utf8(before).len() - end);
}

/// An edit is refused where the document is not open, where its place is
/// refused, and where the version cannot be counted up; in no other case. The
/// reason is told.
pub proof fn edits_are_refused_for_a_reason(
    client: ClientView,
    uri: Seq<char>,
    range: LspRange,
    new_text: Seq<char>,
)
    ensures
        ({
            let (after, result) = client.edit(uri, range, new_text);
            let open = client.documents.dom().contains(uri);
            let text = edited(client.documents[uri].text, range, new_text);
            &&& result is Ok <==> open && text is Ok && client.documents[uri].version < i64::MAX
            &&& !open ==> result == Err::<ChangeView, Seq<char>>("Document not open: "@ + uri)
            &&& open && text is Err ==> result == Err::<ChangeView, Seq<char>>(text->Err_0)
            &&& open && text is Ok && result is Err ==> result == Err::<ChangeView, Seq<char>>(
                "No version is left for "@ + uri,
            )
            &&& result is Err ==> after == client
        }),
{
}

/// A replacement of all of a document is sent as one change from before its
/// first character to behind its last one, which gives the new text.
pub proof fn sent_change_is_the_replacement(
    client: ClientView,
    uri: Seq<char>,
    new_text: Seq<char>,
    other: Seq<char>,
)
    requires
        client.documents.dom().contains(uri),
        client.documents[uri].version < i64::MAX,
        encode_utf8(client.documents[uri].text).len() <= u64::MAX,
    ensures
        ({
            let (after, result) = client.replaced(uri, new_text);
            let change = result->Ok_0;
            let before = client.documents[uri];
            let now = after.documents[uri];
            &&& result is Ok
            &&& now.text == new_text
            &&& now.version == before.version + 1
            &&& now.uri == before.uri
            &&& now.rpc_session_id == before.rpc_session_id
            &&& change.text == new_text
            &&& change.path == uri_path(uri)
            &&& exists|range: LspRange|
                {
                    &&& #[trigger] tells_change(change.frame, uri, now.version, range, new_text)
                    &&& stands_behind(range.start, Seq::empty())
                    &&& stands_behind(range.end, before.text)
                    &&& edited(before.text, range, new_text) == Ok::<Seq<char>, Seq<char>>(
                        now.text,
                    )
                }
            &&& after.progress_at(uri) == Some(FileCheckStatus::Processing)
            &&& after.diagnostics_at(uri).len() == 0
            &&& same_requests(after, client)
            &&& other != uri ==> same_document(after, client, other)
        }),
{
    let before = client.documents[uri].text;
    let range = whole_range(before);
    replacing_all_gives_new_text(before, new_text);
    whole_range_is_all(before);
    sent_change_is_the_edit(client, uri, range, new_text, other);
    let (after, result) = client.replaced(uri, new_text);
    assert(tells_change(
        result->Ok_0.frame,
        uri,
        after.documents[uri].version,
        range,
        new_text,
    ));
}

/// A document that is not open cannot be replaced: that is told, and nothing
/// changes.
pub proof fn closed_documents_are_not_replaced(
    client: ClientView,
    uri: Seq<char>,
    new_text: Seq<char>,
)
    requires
        !client.documents.dom().contains(uri),
    ensures
        client.replaced(uri, new_text) == (
            client,
            Err::<ChangeView, Seq<char>>("Document not open: "@ + uri),
        ),
{
}

/// The diagnostics of a document are the ones that were stored last, whatever
/// was stored before; those of every other document are unchanged, and so is
/// everything else.
pub proof fn stored_diagnostics_are_the_last(
    client: ClientView,
    uri: Seq<char>,
    first: Seq<DiagnosticView>,
    last: Seq<DiagnosticView>,
    other: Seq<char>,
)
    ensures
        client.diagnosed(uri, last).diagnostics_at(uri) == last,
        client.diagnosed(uri, first).diagnosed(uri, last).diagnostics_at(uri) == last,
        ({
            let after = client.diagnosed(uri, last);
            &&& after.diagnosed(uri, last).diagnostics_at(uri) == last
            &&& other != uri ==> after.diagnostics_at(other) == client.diagnostics_at(other)
            &&& other != uri ==> same_document(after, client, other)
            &&& after.documents == client.documents
            &&& after.progress == client.progress
            &&& same_requests(after, client)
        }),
{
}

/// The names of the notifications of the language server are different.
proof fn lemma_notices()
    ensures
        "$/lean/fileProgress"@ != "textDocument/publishDiagnostics"@,
{
    reveal_strlit("$/lean/fileProgress");
    reveal_strlit("textDocument/publishDiagnostics");
    assert("$/lean/fileProgress"@[0] != "textDocument/publishDiagnostics"@[0]);
}

/// Whether a message is a notification of the language server: it has a method,
/// and no id that tells a request.
pub open spec fn is_notice_of(message: JsonView, method: Seq<char>, params: JsonView) -> bool {
    &&& message.get("id"@) is None || message.get("id"@) == Some(JsonView::Null)
    &&& message.text_at("method"@) == Some(method)
    &&& message.get("params"@) == Some(params)
}

/// Diagnostics that are published are handed out with the document that they
/// are about and as they came, and change nothing before they are stored.
pub proof fn published_diagnostics_are_handed_out(
    client: ClientView,
    message: JsonView,
    params: JsonView,
    uri: Seq<char>,
)
    requires
        is_notice_of(message, "textDocument/publishDiagnostics"@, params),
        params.text_at("uri"@) == Some(uri),
    ensures
        client.received(message) == (
            client,
            IncomingView::Diagnostics { uri, payload: params.get("diagnostics"@) },
        ),
{
}

/// The progress that Lean tells of a document is noted for that document: it is
/// checked exactly where no stretch is left to be processed. Nothing else
/// changes.
pub proof fn told_progress_is_noted(
    client: ClientView,
    message: JsonView,
    params: JsonView,
    uri: Seq<char>,
    other: Seq<char>,
)
    requires
        is_notice_of(message, "$/lean/fileProgress"@, params),
        params.get("textDocument"@) matches Some(document) && document.text_at("uri"@) == Some(uri),
    ensures
        ({
            let (after, incoming) = client.received(message);
            let left = params.get("processing"@) matches Some(value) && (value.as_items() matches
                Some(items) && items.len() > 0);
            &&& incoming == IncomingView::Progress
            &&& after.progress_at(uri) == Some(
                if left {
                    FileCheckStatus::Processing
                } else {
                    FileCheckStatus::Checked
                },
            )
            &&& after.documents == client.documents
            &&& after.diagnostics == client.diagnostics
            &&& same_requests(after, client)
            &&& other != uri ==> same_document(after, client, other)
        }),
{
    lemma_notices();
}

/// Another notification, and one without parameters, has no effect; nor has a
/// message that is neither a response nor has a method.
pub proof fn other_messages_have_no_effect(client: ClientView, message: JsonView)
    requires
        message.get("id"@) is None || message.get("id"@) == Some(JsonView::Null),
        message.text_at("method"@) is None || message.get("params"@) is None || (
        message.text_at("method"@) != Some("textDocument/publishDiagnostics"@) && message.text_at(
            "method"@,
        ) != Some("$/lean/fileProgress"@)),
    ensures
        client.received(message) == (client, IncomingView::Nothing),
{
}

/// Whether a message tells a result, or an error that is null, and no other
/// error.
pub open spec fn is_success(message: JsonView) -> bool {
    &&& message.get("result"@) is Some || message.get("error"@) is Some
    &&& message.get("error"@) is None || message.get("error"@) == Some(JsonView::Null)
}

/// The response to a request that was made is the one with the number of the
/// request: it resolves that request, which waits no longer, and no other.
pub proof fn responses_find_their_requests(
    client: ClientView,
    method: Seq<char>,
    params: Option<JsonView>,
    timeout_secs: u64,
    message: JsonView,
    other: Seq<char>,
    uri: Seq<char>,
)
    requires
        message.get("id"@) == Some(JsonView::Integer(client.next_request_id)),
        is_success(message),
    ensures
        ({
            let (before, request) = client.requested(method, params, timeout_secs);
            let (after, incoming) = before.received(message);
            &&& incoming == (IncomingView::Resolved {
                id: request.id,
                response: ResponseView {
                    id: JsonView::Integer(client.next_request_id),
                    result: message.get("result"@),
                    error: None,
                },
            })
            &&& !after.pending.contains(request.id)
            &&& other != request.id ==> after.pending.contains(other) == before.pending.contains(
                other,
            )
            &&& after.next_request_id == before.next_request_id
            &&& same_document(after, client, uri)
        }),
{
}

/// An error in a response is handed out with its code and its text.
pub proof fn errors_of_responses_are_handed_out(
    client: ClientView,
    message: JsonView,
    id: int,
    error: JsonView,
    code: int,
    text: Seq<char>,
)
    requires
        client.pending.contains(signed_decimal(id)),
        message.get("id"@) == Some(JsonView::Integer(id)),
        message.get("error"@) == Some(error),
        error.get("code"@) == Some(JsonView::Integer(code)),
        error.text_at("message"@) == Some(text),
        i64::MIN <= code <= i64::MAX,
    ensures
        client.received(message).1 == (IncomingView::Resolved {
            id: signed_decimal(id),
            response: ResponseView {
                id: JsonView::Integer(id),
                result: message.get("result"@),
                error: Some(ErrorView { code, message: text }),
            },
        }),
{
}

/// Whether bytes tell a response with an id and nothing as its result.
pub open spec fn acknowledges(frame: Seq<u8>, id: JsonView) -> bool {
    exists|answer: JsonView|
        {
            &&& #[trigger] carries(frame, answer)
            &&& has_members(answer, seq!["jsonrpc"@, "id"@, "result"@])
            &&& answer.text_at("jsonrpc"@) == Some("2.0"@)
            &&& answer.get("id"@) == Some(id)
            &&& answer.get("result"@) == Some(JsonView::Null)
        }
}

/// A request of the language server is answered with its id and nothing as the
/// result, and changes nothing.
pub proof fn acknowledgements_tell_nothing(client: ClientView, message: JsonView, id: JsonView)
    requires
        message.get("id"@) == Some(id),
        !(id is Null),
        message.get("method"@) is Some,
        message.get("result"@) is None,
        message.get("error"@) is None,
    ensures
        client.received(message).0 == client,
        client.received(message).1 matches IncomingView::Answer { frame } && acknowledges(
            frame,
            id,
        ),
{
    responses_tell_a_result_or_an_error(id, JsonView::Null, 0, Seq::empty());
    let answer = success_view(id, JsonView::Null).json();
    assert(client.received(message).1 == (IncomingView::Answer { frame: message_frame(answer) }));
    assert(carries(message_frame(answer), answer));
}

/// The body of a message is read as UTF-8 and as JSON: what follows from it is
/// what follows from the message that it holds, and nothing where it holds
/// none.
pub proof fn bodies_hold_messages(client: ClientView, body: Seq<u8>, message: JsonView)
    ensures
        json_parse(lossy_text(body)) == Ok::<JsonView, Seq<char>>(message) ==> client.read(body)
            == client.received(message),
        json_parse(lossy_text(body)) is Err ==> client.read(body) == (
            client,
            IncomingView::Nothing,
        ),
{
}

/// The wait for a document's diagnostics is over when Lean is done with it, and
/// else when the time is; the time alone does not count before Lean is done.
pub proof fn waits_end_with_the_check_or_the_time(
    client: ClientView,
    uri: Seq<char>,
    expired: bool,
)
    ensures
        ({
            let checked = client.progress.dom().contains(uri) && client.progress[uri]
                == FileCheckStatus::Checked;
            let step = client.waited(uri, expired);
            &&& step is Settle <==> checked
            &&& step is GiveUp <==> !checked && expired
            &&& step is Wait <==> !checked && !expired
        }),
{
}

/// The value of the goals' form.
pub open spec fn with_goals(goals: Seq<JsonView>) -> JsonView {
    object_view(seq![("goals"@, JsonView::Array(goals))])
}

/// The goals of a result are found in it.
proof fn lemma_with_goals(goals: Seq<JsonView>)
    ensures
        with_goals(goals).get("goals"@) == Some(JsonView::Array(goals)),
        with_goals(goals).get("rendered"@) is None,
{
    reveal_strlit("goals");
    reveal_strlit("rendered");
    assert("goals"@.len() == 5 && "rendered"@.len() == 8);
    let entry = ("goals"@, JsonView::Array(goals));
    assert(seq![entry] =~= Seq::empty().push(entry));
    members_are_found(Seq::empty(), "goals"@, entry.1, "rendered"@);
}

/// What is told of the goals at a place: that there are none where the result
/// is null or has an empty list; the text that Lean has rendered, where it has;
/// and else all goals in their order, each behind its number, with an empty
/// line between each two.
pub proof fn goals_are_told_in_order(
    result: JsonView,
    rendered: Seq<char>,
    goals: Seq<JsonView>,
    goal: JsonView,
)
    ensures
        goals_text(JsonView::Null) == "No goal at this position."@,
        result.text_at("rendered"@) == Some(rendered) ==> goals_text(result) == rendered,
        !(result is Null) && result.text_at("rendered"@) is None && !(result.get("goals"@) matches
            Some(JsonView::Array(_))) ==> goals_text(result) == json_text_pretty(result),
        result.text_at("rendered"@) is None && result.get("goals"@) == Some(
            JsonView::Array(goals),
        ) ==> goals_text(result) == goals_text(with_goals(goals)),
        goals_text(with_goals(Seq::empty())) == "No goals."@,
        ({
            let told = match goal {
                JsonView::String(text) => text,
                _ => json_text(goal),
            };
            &&& goals_text(with_goals(seq![goal])) == "Goal "@ + decimal(1) + ":\n"@ + told
            &&& goals.len() > 0 ==> goals_text(with_goals(goals.push(goal))) == goals_text(
                with_goals(goals),
            ) + "\n\n"@ + ("Goal "@ + decimal(goals.len() + 1) + ":\n"@ + told)
        }),
{
    lemma_with_goals(Seq::empty());
    lemma_with_goals(goals);
    lemma_with_goals(seq![goal]);
    lemma_with_goals(goals.push(goal));
    let more = goals.push(goal);
    let parts = Seq::new(
        goals.len(),
        |i: int| numbered_goal(goals, i),
    );
    let all = Seq::new(more.len(), |i: int| numbered_goal(more, i));
    assert(all.drop_last() =~= parts);
}

/// What is told of a response to the request for goals: the text of an error,
/// the goals of a result, or that there is neither.
pub proof fn goal_answers_tell_the_response(
    id: JsonView,
    result: JsonView,
    other: Option<JsonView>,
    code: int,
    text: Seq<char>,
)
    ensures
        goal_answer(ResponseView { id, result: Some(result), error: None }) == goals_text(result),
        goal_answer(ResponseView { id, result: None, error: None }) == "No result from Lean."@,
        goal_answer(
            ResponseView { id, result: other, error: Some(ErrorView { code, message: text }) },
        ) == "No goal at this position: "@ + text,
{
}

/// A response is matched with the request that has its id: the text of a number
/// or of another value, and a text itself. Where no such request waits, it has
/// no effect.
pub proof fn responses_are_matched_by_their_id(
    client: ClientView,
    message: JsonView,
    id: JsonView,
    other: Seq<char>,
)
    requires
        message.get("id"@) == Some(id),
        !(id is Null),
        is_success(message),
    ensures
        ({
            let (after, incoming) = client.received(message);
            let text = match id {
                JsonView::Integer(n) => signed_decimal(n),
                JsonView::String(text) => text,
                _ => json_text(id),
            };
            &&& client.pending.contains(text) ==> !after.pending.contains(text) && incoming
                == (IncomingView::Resolved {
                id: text,
                response: ResponseView { id, result: message.get("result"@), error: None },
            })
            &&& !client.pending.contains(text) ==> after == client && incoming
                == IncomingView::Nothing
            &&& other != text ==> after.pending.contains(other) == client.pending.contains(other)
            &&& after.documents == client.documents
            &&& after.diagnostics == client.diagnostics
            &&& after.progress == client.progress
            &&& after.next_request_id == client.next_request_id
            &&& after.lake_root == client.lake_root
        }),
{
}

/// A message with an id that is neither a response nor has a method has no
/// effect.
pub proof fn bare_ids_have_no_effect(client: ClientView, message: JsonView)
    requires
        message.get("result"@) is None,
        message.get("error"@) is None,
        message.get("method"@) is None,
    ensures
        client.received(message) == (client, IncomingView::Nothing),
{
}

/// The session of a document that is not open is told, and kept nowhere.
pub proof fn sessions_of_closed_documents_are_not_kept(
    client: ClientView,
    uri: Seq<char>,
    request: RequestView,
    response: ResponseView,
    session: Seq<char>,
)
    requires
        response.error is None,
        response.result matches Some(result) && result.text_at("sessionId"@) == Some(session),
        !client.documents.dom().contains(uri),
    ensures
        client.connected(uri, request, OutcomeView::Response(response)) == (
            client,
            Ok::<Seq<char>, Seq<char>>(session),
        ),
{
}

/// A response whose error is neither null nor an error with a whole number in
/// the range of `i64` as its code and a text has no effect.
pub proof fn unreadable_errors_have_no_effect(
    client: ClientView,
    message: JsonView,
    id: JsonView,
    error: JsonView,
)
    requires
        message.get("id"@) == Some(id),
        !(id is Null),
        message.get("error"@) == Some(error),
        !(error is Null),
        error.text_at("message"@) is None || !(error.get("code"@) matches Some(
            JsonView::Integer(code),
        ) && i64::MIN <= code <= i64::MAX),
    ensures
        client.received(message) == (client, IncomingView::Nothing),
{
}

/// Diagnostics and progress that name no document are those of the document
/// with the empty URI.
pub proof fn unnamed_documents_have_the_empty_uri(
    client: ClientView,
    message: JsonView,
    params: JsonView,
)
    ensures
        is_notice_of(message, "textDocument/publishDiagnostics"@, params) && params.text_at(
            "uri"@,
        ) is None ==> client.received(message) == (
            client,
            IncomingView::Diagnostics {
                uri: Seq::empty(),
                payload: params.get("diagnostics"@),
            },
        ),
        is_notice_of(message, "$/lean/fileProgress"@, params) && (params.get(
            "textDocument"@,
        ) matches Some(document) ==> document.text_at("uri"@) is None) ==> ({
            let (after, incoming) = client.received(message);
            &&& incoming == IncomingView::Progress
            &&& after.progress_at(Seq::empty()) is Some
            &&& forall|uri: Seq<char>|
                uri.len() > 0 ==> #[trigger] after.progress_at(uri) == client.progress_at(uri)
            &&& after.documents == client.documents
            &&& after.diagnostics == client.diagnostics
        }),
{
    lemma_notices();
}

/// A stretch that is told by four numbers begins at the line and the character
/// of the first two, and ends at those of the other two.
pub proof fn stretches_run_between_their_places(a: u64, b: u64, c: u64, d: u64)
    ensures
        edit_range(a, b, c, d).start.line == a,
        edit_range(a, b, c, d).start.character == b,
        edit_range(a, b, c, d).end.line == c,
        edit_range(a, b, c, d).end.character == d,
{
}

}
