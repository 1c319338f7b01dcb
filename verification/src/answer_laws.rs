//! What is told in the end: the texts of the tools, and the lines that answer
//! requests.

use crate::call_laws::{asks_for_goals, goals_are_asked_at_the_place, is_open_in};
use crate::json::{json_parse, json_text, object_view, JsonView};
use crate::jsonrpc::{failure_view, success_view};
use crate::lsp::{DiagnosticView, FileCheckStatus, LspPosition};
use crate::message_laws::{
    has_members, lemma_object, lemma_single, lemma_three, lemma_two,
    responses_tell_a_result_or_an_error,
};
use crate::messages::{empty_object, single};
use crate::server_model::{
    call_result, diagnostic_line, diagnostics_text, reply, server_info, text_content, ManagerView,
    RunView, ServerView,
};
use crate::steps::{Action, ActionView, EventView, Progress, ProgressView};
use crate::text::{decimal, joined, trimmed};
use crate::tool_laws::asking_calls_carry_their_arguments;
use crate::tools::{call_of, lemma_tool_names, tool_list, tool_views, Call};
use vstd::prelude::*;

verus! {

/// Every diagnostic of a document is told, in their order and each on its line:
/// with its severity, with where it begins and ends, by line and character, and
/// with its message. That there are none is told too.
pub proof fn all_diagnostics_are_told(diagnostics: Seq<DiagnosticView>, next: DiagnosticView)
    ensures
        diagnostics_text(Seq::empty()) == "No diagnostics (errors/warnings) found."@,
        ({
            let line = "["@ + (match next.severity {
                Some(1i64) => "error"@,
                Some(2i64) => "warning"@,
                Some(3i64) => "info"@,
                Some(4i64) => "hint"@,
                _ => "unknown"@,
            }) + "] "@ + decimal(next.range.start.line as nat) + ":"@ + decimal(
                next.range.start.character as nat,
            ) + "-"@ + decimal(next.range.end.line as nat) + ":"@ + decimal(
                next.range.end.character as nat,
            ) + ": "@ + next.message;
            &&& diagnostics_text(seq![next]) == line
            &&& diagnostics.len() > 0 ==> diagnostics_text(diagnostics.push(next))
                == diagnostics_text(diagnostics) + "\n"@ + line
        }),
{
    let more = diagnostics.push(next);
    let lines = Seq::new(diagnostics.len(), |i: int| diagnostic_line(diagnostics[i]));
    let all = Seq::new(more.len(), |i: int| diagnostic_line(more[i]));
    assert(all.drop_last() =~= lines);
}

/// The state with one more document in the list.
pub open spec fn with_listed(manager: ManagerView, uri: Seq<char>, key: Seq<char>) -> ManagerView {
    ManagerView { listing: manager.listing.push((uri, key)), ..manager }
}

/// What stands before the list of this many documents.
pub open spec fn list_head(n: nat) -> Seq<char> {
    "Open documents ("@ + decimal(n) + "):\n"@
}

/// Every open document is listed, in the order in which they were opened and
/// each on its line: with how far Lean is with it, with its URI and with its
/// workspace. Their number stands before them. That there are none is told too.
pub proof fn all_documents_are_listed(
    manager: ManagerView,
    uri: Seq<char>,
    key: Seq<char>,
    body: Seq<char>,
)
    requires
        manager.clients.dom().contains(key),
    ensures
        ({
            let client = manager.clients[key];
            let line = "  ["@ + (if !client.progress.dom().contains(uri) {
                "unknown"@
            } else if client.progress[uri] == FileCheckStatus::Checked {
                "checked"@
            } else {
                "processing"@
            }) + "] "@ + uri + " (workspace: "@ + (if key.len() == 0 {
                "standalone"@
            } else {
                key
            }) + ")"@;
            let n = manager.listing.len();
            let more = with_listed(manager, uri, key);
            &&& n == 0 ==> manager.list_documents() == "No documents are currently open."@
            &&& n == 0 ==> more.list_documents() == list_head(1) + line
            &&& n > 0 && manager.list_documents() == list_head(n) + body ==> more.list_documents()
                == list_head(n + 1) + (body + "\n"@ + line)
            &&& n > 0 ==> exists|body: Seq<char>|
                manager.list_documents() == #[trigger] (list_head(n) + body)
        }),
        manager.begun(Call::ListDocuments).0 == manager,
        manager.begun(Call::ListDocuments).1 matches Progress::Done { result } && result == Ok::<
            Seq<char>,
            Seq<char>,
        >(manager.list_documents()),
{
    let more = with_listed(manager, uri, key);
    let n = manager.listing.len();
    let head = list_head(n);
    let lines = Seq::new(
        n,
        |i: int| manager.document_line(manager.listing[i].0, manager.listing[i].1),
    );
    let all = Seq::new(
        more.listing.len(),
        |i: int| more.document_line(more.listing[i].0, more.listing[i].1),
    );
    assert(all.drop_last() =~= lines);
    if n > 0 {
        let told = joined(lines, "\n"@);
        assert(manager.list_documents() == head + told);
        if manager.list_documents() == head + body {
            assert((head + told).skip(head.len() as int) =~= told);
            assert((head + body).skip(head.len() as int) =~= body);
        }
    }
}

/// Whether a line is written that tells a result under an id.
pub open spec fn tells_result(action: ActionView, id: JsonView, result: JsonView) -> bool {
    action matches Action::Reply { line } && exists|message: JsonView|
        {
            &&& line == #[trigger] json_text(message)
            &&& has_members(message, seq!["jsonrpc"@, "id"@, "result"@])
            &&& message.text_at("jsonrpc"@) == Some("2.0"@)
            &&& message.get("id"@) == Some(id)
            &&& message.get("result"@) == Some(result)
        }
}

/// Whether a line is written that tells an error under an id.
pub open spec fn tells_error(
    action: ActionView,
    id: JsonView,
    code: int,
    text: Seq<char>,
) -> bool {
    action matches Action::Reply { line } && exists|message: JsonView|
        {
            let error = message.get("error"@)->0;
            &&& line == #[trigger] json_text(message)
            &&& has_members(message, seq!["jsonrpc"@, "id"@, "error"@])
            &&& message.text_at("jsonrpc"@) == Some("2.0"@)
            &&& message.get("id"@) == Some(id)
            &&& has_members(error, seq!["code"@, "message"@])
            &&& error.get("code"@) == Some(JsonView::Integer(code))
            &&& error.text_at("message"@) == Some(text)
        }
}

/// Whether a line is written that tells, as the result of a call, one text, and
/// whether it is one that tells an error.
pub open spec fn tells_text(
    action: ActionView,
    id: JsonView,
    text: Seq<char>,
    is_error: bool,
) -> bool {
    exists|result: JsonView|
        {
            let content = result.get("content"@)->0.as_items()->0;
            &&& #[trigger] tells_result(action, id, result)
            &&& has_members(
                result,
                if is_error {
                    seq!["content"@, "isError"@]
                } else {
                    seq!["content"@]
                },
            )
            &&& result.get("content"@)->0.as_items() is Some
            &&& content.len() == 1
            &&& has_members(content[0], seq!["type"@, "text"@])
            &&& content[0].text_at("type"@) == Some("text"@)
            &&& content[0].text_at("text"@) == Some(text)
            &&& is_error ==> result.get("isError"@) == Some(JsonView::Bool(true))
        }
}

/// A success is written as a line that tells the result.
proof fn lemma_success(id: JsonView, result: JsonView)
    ensures
        tells_result(reply(success_view(id, result)), id, result),
{
    responses_tell_a_result_or_an_error(id, result, 0, Seq::empty());
    let message = success_view(id, result).json();
    assert(json_text(message) == json_text(message));
}

/// A failure is written as a line that tells the error.
proof fn lemma_failure(id: JsonView, code: int, text: Seq<char>)
    ensures
        tells_error(reply(failure_view(id, code, text)), id, code, text),
{
    responses_tell_a_result_or_an_error(id, JsonView::Null, code, text);
    let message = failure_view(id, code, text).json();
    assert(json_text(message) == json_text(message));
}

/// The result of a call is written as a line that tells its text.
proof fn lemma_call_result(id: JsonView, result: Result<Seq<char>, Seq<char>>)
    ensures
        ({
            let action = reply(success_view(id, call_result(result)));
            match result {
                Ok(text) => tells_text(action, id, text, false),
                Err(error) => tells_text(action, id, "Error: "@ + error, true),
            }
        }),
{
    reveal_strlit("content");
    reveal_strlit("isError");
    reveal_strlit("type");
    reveal_strlit("text");
    assert("content"@.len() == 7 && "content"@[0] == 'c');
    assert("isError"@.len() == 7 && "isError"@[0] == 'i');
    assert("type"@.len() == 4 && "type"@[1] == 'y');
    assert("text"@.len() == 4 && "text"@[1] == 'e');
    let text = match result {
        Ok(text) => text,
        Err(error) => "Error: "@ + error,
    };
    lemma_success(id, call_result(result));
    lemma_two("type"@, JsonView::String("text"@), "text"@, JsonView::String(text));
    lemma_single("content"@, text_content(text));
    lemma_two("content"@, text_content(text), "isError"@, JsonView::Bool(true));
    let action = reply(success_view(id, call_result(result)));
    assert(tells_result(action, id, call_result(result)));
    let content = call_result(result).get("content"@)->0.as_items()->0;
    assert(call_result(result).get("content"@) == Some(text_content(text)));
    assert(content.len() == 1);
}

/// The state of the server when a call got so far, and what is then to be done:
/// a call that is done is answered under its id with its text, or with the text
/// that tells why it failed, and no call is under way; another waits.
pub open spec fn goes_on(
    after: ServerView,
    action: ActionView,
    id: JsonView,
    manager: ManagerView,
    progress: ProgressView,
) -> bool {
    &&& after.manager == manager
    &&& match progress {
        Progress::Done { result } => after.run is None && match result {
            Ok(text) => tells_text(action, id, text, false),
            Err(error) => tells_text(action, id, "Error: "@ + error, true),
        },
        Progress::Ask { action: asked, stage } => action == asked && after.run == Some(
            RunView { id, stage },
        ),
    }
}

/// The names of the methods are different.
proof fn lemma_methods()
    ensures
        "tools/call"@ != "notifications/initialized"@,
        "tools/call"@ != "notifications/cancelled"@,
        "initialize"@ != "notifications/initialized"@,
        "initialize"@ != "notifications/cancelled"@,
        "tools/list"@ != "notifications/initialized"@,
        "tools/list"@ != "notifications/cancelled"@,
        "resources/list"@ != "notifications/initialized"@,
        "resources/list"@ != "notifications/cancelled"@,
        "resources/templates/list"@ != "notifications/initialized"@,
        "resources/templates/list"@ != "notifications/cancelled"@,
        "prompts/list"@ != "notifications/initialized"@,
        "prompts/list"@ != "notifications/cancelled"@,
        "ping"@ != "notifications/initialized"@,
        "ping"@ != "notifications/cancelled"@,
        "initialize"@ != "tools/call"@,
        "tools/list"@ != "tools/call"@,
        "resources/list"@ != "tools/call"@,
        "resources/templates/list"@ != "tools/call"@,
        "prompts/list"@ != "tools/call"@,
        "ping"@ != "tools/call"@,
        "tools/list"@ != "initialize"@,
        "resources/list"@ != "initialize"@,
        "resources/templates/list"@ != "initialize"@,
        "prompts/list"@ != "initialize"@,
        "ping"@ != "initialize"@,
        "resources/list"@ != "tools/list"@,
        "resources/templates/list"@ != "tools/list"@,
        "prompts/list"@ != "tools/list"@,
        "ping"@ != "tools/list"@,
        "resources/templates/list"@ != "resources/list"@,
        "prompts/list"@ != "resources/list"@,
        "ping"@ != "resources/list"@,
        "prompts/list"@ != "resources/templates/list"@,
        "ping"@ != "resources/templates/list"@,
        "ping"@ != "prompts/list"@,
{
    reveal_strlit("notifications/initialized");
    reveal_strlit("notifications/cancelled");
    reveal_strlit("tools/call");
    reveal_strlit("initialize");
    reveal_strlit("tools/list");
    reveal_strlit("resources/list");
    reveal_strlit("resources/templates/list");
    reveal_strlit("prompts/list");
    reveal_strlit("ping");
    assert("notifications/initialized"@.len() == 25 && "notifications/cancelled"@.len() == 23);
    assert("tools/call"@.len() == 10 && "initialize"@.len() == 10 && "tools/list"@.len() == 10);
    assert("tools/call"@[0] == 't' && "initialize"@[0] == 'i' && "tools/list"@[0] == 't');
    assert("tools/call"@[6] == 'c' && "tools/list"@[6] == 'l');
    assert("resources/list"@.len() == 14 && "resources/templates/list"@.len() == 24);
    assert("prompts/list"@.len() == 12 && "ping"@.len() == 4);
}

/// The id under which a request is answered: its own, or none where it has none.
pub open spec fn id_in(message: JsonView) -> JsonView {
    match message.get("id"@) {
        Some(id) => id,
        None => JsonView::Null,
    }
}

/// A request that calls a tool begins the call that its name and its arguments
/// are, under its id; arguments that are not given are taken as none. One that
/// is no call is answered with the reason, and changes nothing.
pub proof fn tool_calls_are_begun(
    server: ServerView,
    message: JsonView,
    id: JsonView,
    params: JsonView,
    name: Seq<char>,
)
    requires
        id == id_in(message),
        message.text_at("method"@) == Some("tools/call"@),
        message.get("params"@) == Some(params),
        params.text_at("name"@) == Some(name),
    ensures
        ({
            let arguments = match params.get("arguments"@) {
                Some(arguments) => arguments,
                None => JsonView::Object(Map::empty()),
            };
            let (after, action) = server.requested(message);
            match call_of(name, arguments) {
                Ok(call) => {
                    let (manager, progress) = server.manager.begun(call);
                    goes_on(after, action, id, manager, progress)
                },
                Err(error) => after.manager == server.manager && after.run is None && tells_text(
                    action,
                    id,
                    "Error: "@ + error,
                    true,
                ),
            }
        }),
{
    lemma_methods();
    assert(empty_object() == JsonView::Object(Map::empty()));
    let arguments = match params.get("arguments"@) {
        Some(arguments) => arguments,
        None => JsonView::Object(Map::empty()),
    };
    match call_of(name, arguments) {
        Ok(call) => {
            let (manager, progress) = server.manager.begun(call);
            match progress {
                Progress::Done { result } => {
                    lemma_call_result(id, result);
                },
                _ => {},
            }
        },
        Err(error) => {
            lemma_call_result(id, Err(error));
        },
    }
}

/// A call that is under way goes on with what came: under its own id, from where
/// it stood.
pub proof fn running_calls_go_on(server: ServerView, run: RunView, event: EventView)
    requires
        server.run == Some(run),
    ensures
        ({
            let (after, action) = server.resumed(event);
            let (manager, progress) = server.manager.stepped(run.stage, event);
            goes_on(after, action, run.id, manager, progress)
        }),
{
    let (manager, progress) = server.manager.stepped(run.stage, event);
    match progress {
        Progress::Done { result } => {
            lemma_call_result(run.id, result);
        },
        _ => {},
    }
}

/// A request for the goals at a place of an open document with a session reaches
/// the language server of its workspace: the line and the character that are
/// asked for are those of the arguments, and so is the document.
pub proof fn goal_requests_reach_lean(
    server: ServerView,
    message: JsonView,
    id: JsonView,
    params: JsonView,
    arguments: JsonView,
    key: Seq<char>,
    uri: Seq<char>,
    line: u64,
    character: u64,
)
    requires
        id == id_in(message),
        message.text_at("method"@) == Some("tools/call"@),
        message.get("params"@) == Some(params),
        params.text_at("name"@) == Some("get_goal_state"@),
        params.get("arguments"@) == Some(arguments),
        arguments.text_at("uri"@) == Some(uri),
        arguments.unsigned_at("line"@) == Some(line),
        arguments.unsigned_at("character"@) == Some(character),
        is_open_in(server.manager, uri, key),
        server.manager.clients[key].documents[uri].rpc_session_id is Some,
        server.manager.clients[key].next_request_id < i64::MAX,
    ensures
        ({
            let (after, action) = server.requested(message);
            let number = server.manager.clients[key].next_request_id;
            after.run matches Some(run) && run.id == id && asks_for_goals(
                Progress::Ask { action, stage: run.stage },
                key,
                number,
                uri,
                LspPosition { line, character },
            )
        }),
{
    let place = LspPosition { line, character };
    tool_calls_are_begun(server, message, id, params, "get_goal_state"@);
    lemma_goal_call(arguments);
    asking_calls_carry_their_arguments(arguments);
    goals_are_asked_at_the_place(server.manager, key, uri, place, uri);
    assert(call_of("get_goal_state"@, arguments) == Ok::<Call<Seq<char>>, Seq<char>>(
        Call::GetGoalState { uri, position: place },
    ));
}

/// The arguments of a call for goals are a call where all three are given.
proof fn lemma_goal_call(arguments: JsonView)
    requires
        arguments.text_at("uri"@) is Some,
        arguments.unsigned_at("line"@) is Some,
        arguments.unsigned_at("character"@) is Some,
    ensures
        call_of("get_goal_state"@, arguments) is Ok,
{
    lemma_tool_names();
    let tools = tool_views();
    assert(tools[0].name == "open_file"@ && tools[1].name == "open_document"@);
    assert(tools[2].name == "get_diagnostics"@ && tools[3].name == "get_goal_state"@);
    assert(tools[9].name == "list_documents"@);
}

/// A request that calls a tool without parameters, or without a name, is
/// answered with an error of the protocol, and changes nothing.
pub proof fn nameless_calls_are_errors(server: ServerView, message: JsonView, id: JsonView)
    requires
        id == id_in(message),
        message.text_at("method"@) == Some("tools/call"@),
        message.get("params"@) matches Some(params) ==> params.text_at("name"@) is None,
    ensures
        server.requested(message).0 == server,
        tells_error(
            server.requested(message).1,
            id,
            -32603,
            if message.get("params"@) is Some {
                "Internal error: Missing tool name"@
            } else {
                "Internal error: Missing params in tools/call"@
            },
        ),
{
    lemma_methods();
    lemma_failure(id, -32603, "Internal error: Missing tool name"@);
    lemma_failure(id, -32603, "Internal error: Missing params in tools/call"@);
}

/// A connection is answered with the version of the protocol, with the name and
/// the version of this server, and with that it has tools.
pub proof fn connections_are_answered(server: ServerView, message: JsonView, id: JsonView)
    requires
        id == id_in(message),
        message.text_at("method"@) == Some("initialize"@),
    ensures
        server.requested(message).0 == server,
        exists|info: JsonView|
            {
                let own = info.get("serverInfo"@)->0;
                let abilities = info.get("capabilities"@)->0;
                &&& #[trigger] tells_result(server.requested(message).1, id, info)
                &&& has_members(info, seq!["protocolVersion"@, "capabilities"@, "serverInfo"@])
                &&& info.text_at("protocolVersion"@) == Some("2024-11-05"@)
                &&& has_members(abilities, seq!["tools"@])
                &&& has_members(abilities.get("tools"@)->0, Seq::empty())
                &&& has_members(own, seq!["name"@, "version"@])
                &&& own.text_at("name"@) == Some("lean4-mcp-proxy"@)
                &&& own.text_at("version"@) == Some("0.2.0"@)
            },
{
    lemma_methods();
    reveal_strlit("protocolVersion");
    reveal_strlit("capabilities");
    reveal_strlit("serverInfo");
    reveal_strlit("name");
    reveal_strlit("version");
    assert("protocolVersion"@.len() == 15 && "capabilities"@.len() == 12);
    assert("serverInfo"@.len() == 10 && "name"@.len() == 4 && "version"@.len() == 7);
    let info = server_info();
    let own = object_view(
        seq![
            ("name"@, JsonView::String("lean4-mcp-proxy"@)),
            ("version"@, JsonView::String("0.2.0"@)),
        ],
    );
    let abilities = single("tools"@, empty_object());
    lemma_success(id, info);
    lemma_object(Seq::empty(), Seq::empty());
    lemma_single("tools"@, empty_object());
    lemma_two(
        "name"@,
        JsonView::String("lean4-mcp-proxy"@),
        "version"@,
        JsonView::String("0.2.0"@),
    );
    lemma_three(
        "protocolVersion"@,
        JsonView::String("2024-11-05"@),
        "capabilities"@,
        abilities,
        "serverInfo"@,
        own,
        Seq::empty(),
    );
    assert(tells_result(server.requested(message).1, id, info));
    assert(info.get("serverInfo"@) == Some(own));
    assert(info.get("capabilities"@) == Some(abilities));
}

/// Whether a value is an object with one member of this name, which is an array
/// without items.
pub open spec fn is_empty_list(value: JsonView, name: Seq<char>) -> bool {
    has_members(value, seq![name]) && value.get(name) == Some(JsonView::Array(Seq::empty()))
}

/// Whether a request is answered with an empty list of this name.
pub open spec fn tells_empty_list(action: ActionView, id: JsonView, name: Seq<char>) -> bool {
    exists|result: JsonView| #[trigger] tells_result(action, id, result) && is_empty_list(
        result,
        name,
    )
}

/// The tools are listed to whoever asks. There are no resources, no templates of
/// resources and no prompts, and a ping is answered with an empty object. None
/// of these changes anything.
pub proof fn lists_are_answered(
    server: ServerView,
    message: JsonView,
    id: JsonView,
    method: Seq<char>,
)
    requires
        id == id_in(message),
        message.text_at("method"@) == Some(method),
        method == "tools/list"@ || method == "resources/list"@ || method
            == "resources/templates/list"@ || method == "prompts/list"@ || method == "ping"@,
    ensures
        ({
            let (after, action) = server.requested(message);
            &&& after == server
            &&& method == "tools/list"@ ==> tells_result(action, id, tool_list())
            &&& method == "resources/list"@ ==> tells_empty_list(action, id, "resources"@)
            &&& method == "resources/templates/list"@ ==> tells_empty_list(
                action,
                id,
                "resourceTemplates"@,
            )
            &&& method == "prompts/list"@ ==> tells_empty_list(action, id, "prompts"@)
            &&& method == "ping"@ ==> tells_result(action, id, JsonView::Object(Map::empty()))
        }),
{
    lemma_methods();
    let none = JsonView::Array(Seq::empty());
    let action = server.requested(message).1;
    lemma_success(id, tool_list());
    lemma_success(id, single("resources"@, none));
    lemma_success(id, single("resourceTemplates"@, none));
    lemma_success(id, single("prompts"@, none));
    lemma_success(id, empty_object());
    lemma_single("resources"@, none);
    lemma_single("resourceTemplates"@, none);
    lemma_single("prompts"@, none);
    if method == "resources/list"@ {
        assert(tells_result(action, id, single("resources"@, none)));
    } else if method == "resources/templates/list"@ {
        assert(tells_result(action, id, single("resourceTemplates"@, none)));
    } else if method == "prompts/list"@ {
        assert(tells_result(action, id, single("prompts"@, none)));
    }
    assert(empty_object() == JsonView::Object(Map::empty()));
}

/// A method that there is not is answered with an error that names it, under
/// the id of the request, or under none where it has none; a request without a
/// method has the empty one. Nothing changes.
pub proof fn unknown_methods_are_errors(server: ServerView, message: JsonView)
    requires
        ({
            let method = message.text_at("method"@);
            &&& method != Some("notifications/initialized"@)
            &&& method != Some("notifications/cancelled"@)
            &&& method != Some("initialize"@)
            &&& method != Some("tools/list"@)
            &&& method != Some("tools/call"@)
            &&& method != Some("resources/list"@)
            &&& method != Some("resources/templates/list"@)
            &&& method != Some("prompts/list"@)
            &&& method != Some("ping"@)
        }),
    ensures
        server.requested(message).0 == server,
        tells_error(
            server.requested(message).1,
            id_in(message),
            -32601,
            "Method not found: "@ + (match message.text_at("method"@) {
                Some(method) => method,
                None => Seq::empty(),
            }),
        ),
{
    reveal_strlit("notifications/initialized");
    reveal_strlit("notifications/cancelled");
    reveal_strlit("initialize");
    reveal_strlit("tools/list");
    reveal_strlit("tools/call");
    reveal_strlit("resources/list");
    reveal_strlit("resources/templates/list");
    reveal_strlit("prompts/list");
    reveal_strlit("ping");
    let method = match message.text_at("method"@) {
        Some(method) => method,
        None => Seq::empty(),
    };
    assert(method != "initialize"@ && method != "ping"@ && method != "tools/call"@);
    lemma_failure(id_in(message), -32601, "Method not found: "@ + method);
}

/// The two notifications are taken without an answer, and change nothing.
pub proof fn notifications_have_no_answer(server: ServerView, message: JsonView)
    requires
        message.text_at("method"@) == Some("notifications/initialized"@) || message.text_at(
            "method"@,
        ) == Some("notifications/cancelled"@),
    ensures
        server.requested(message).0 == server,
        server.requested(message).1 is Nothing,
{
}

/// A line is taken without the white space around it, as the request that it
/// holds. One that holds nothing else is passed over, and one that is no JSON is
/// answered with an error that tells why, under no id. Neither changes anything.
pub proof fn lines_hold_requests(server: ServerView, line: Seq<char>)
    ensures
        trimmed(line).len() == 0 ==> server.lined(line).0 == server
            && server.lined(line).1 is Nothing,
        trimmed(line).len() > 0 ==> match json_parse(trimmed(line)) {
            Ok(message) => server.lined(line) == server.requested(message),
            Err(error) => server.lined(line).0 == server && tells_error(
                server.lined(line).1,
                JsonView::Null,
                -32700,
                "Parse error: "@ + error,
            ),
        },
{
    match json_parse(trimmed(line)) {
        Ok(_) => {},
        Err(error) => {
            lemma_failure(JsonView::Null, -32700, "Parse error: "@ + error);
        },
    }
}

/// A server at its start serves no workspace and has no document open; no call
/// is under way. Documents without a workspace of their own belong to the one
/// that it was given.
pub proof fn a_new_server_has_nothing_open(
    root: Option<Seq<char>>,
    key: Seq<char>,
    uri: Seq<char>,
)
    ensures
        ({
            let server = ServerView::fresh(root);
            &&& server.run is None
            &&& !server.manager.clients.dom().contains(key)
            &&& !server.manager.uris().dom().contains(uri)
            &&& server.manager.listing.len() == 0
            &&& server.manager.starting is None
            &&& server.manager.default_lake_root == root
            &&& server.wf()
        }),
{
}

/// A message of a language server is handed to the connection that it came from,
/// and what follows from it is told; the call that is under way is as it was.
pub proof fn server_messages_are_handed_on(server: ServerView, key: Seq<char>, body: Seq<u8>)
    ensures
        ({
            let (after, incoming) = server.received(key, body);
            &&& (after.manager, incoming) == server.manager.received(key, body)
            &&& after.run == server.run
        }),
{
}

}
