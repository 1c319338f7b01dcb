use lean4_mcp_proxy::client_model::{Incoming, RequestOutcome};
use lean4_mcp_proxy::json::Json;
use lean4_mcp_proxy::jsonrpc::JsonRpcResponse;
use lean4_mcp_proxy::lsp::{LspDiagnostic, LspPosition, LspRange};
use lean4_mcp_proxy::mcp_server::{describe_diagnostics, McpServer};
use lean4_mcp_proxy::steps::{Action, Event, ServerAction, ServerEvent};
use lean4_mcp_proxy::tools::{list_tools, tools, Call};

const URI: &str = "file:///p/A.lean";

fn call(id: u64, name: &str, arguments: &str) -> String {
    format!(
        "{{\"jsonrpc\":\"2.0\",\"id\":{id},\"method\":\"tools/call\",\"params\":\
         {{\"name\":\"{name}\",\"arguments\":{arguments}}}}}"
    )
}

fn line(action: ServerAction) -> String {
    match action {
        Action::Reply { line } => line,
        other => panic!("no reply: {other:?}"),
    }
}

fn result(id: u64, text: &str) -> String {
    format!(
        "{{\"id\":{id},\"jsonrpc\":\"2.0\",\"result\":{{\"content\":[{{\"text\":{},\
         \"type\":\"text\"}}]}}}}",
        Json::text(text).to_text()
    )
}

fn error(id: u64, text: &str) -> String {
    format!(
        "{{\"id\":{id},\"jsonrpc\":\"2.0\",\"result\":{{\"content\":[{{\"text\":{},\
         \"type\":\"text\"}}],\"isError\":true}}}}",
        Json::text(&format!("Error: {text}")).to_text()
    )
}

fn sent(server: &mut McpServer) -> ServerAction {
    server.resume(Event::Sent { sent: true })
}

fn replied(server: &mut McpServer, text: &str) -> ServerAction {
    let response = JsonRpcResponse::from_json(&Json::parse(text).unwrap()).unwrap();
    server.resume(Event::Replied { outcome: RequestOutcome::Response(response) })
}

fn canonical(server: &mut McpServer, path: Option<&str>) -> ServerAction {
    server.resume(Event::Canonical { path: path.map(|path| path.to_string()) })
}

/// Opens a document in a workspace whose language server does not run.
fn open_first(server: &mut McpServer, text: &str) {
    let arguments = format!("{{\"uri\":\"{URI}\",\"text\":{},\"lake_workspace\":\" /p \"}}",
        Json::text(text).to_text());
    match server.run(&call(1, "open_document", &arguments)) {
        Action::Canonicalize { path } => assert_eq!(path, "/p"),
        other => panic!("{other:?}"),
    }
    match canonical(server, Some("/real/p")) {
        Action::Spawn { key, lake_root } => {
            assert_eq!(key, "/real/p");
            assert_eq!(lake_root, Some("/real/p".to_string()));
        }
        other => panic!("{other:?}"),
    }
    match server.resume(Event::Spawned { process_id: 5 }) {
        Action::Request { key, request } => {
            assert_eq!(key, "/real/p");
            assert_eq!((request.id.as_str(), request.method.as_str()), ("1", "initialize"));
        }
        other => panic!("{other:?}"),
    }
    let incoming = server.receive("/real/p", b"{\"id\":1,\"result\":{}}");
    assert!(matches!(incoming, Incoming::Resolved { .. }));
    match replied(server, "{\"id\":1,\"result\":{}}") {
        Action::Send { key, .. } => assert_eq!(key, "/real/p"),
        other => panic!("{other:?}"),
    }
    match sent(server) {
        Action::Send { key, .. } => assert_eq!(key, "/real/p"),
        other => panic!("{other:?}"),
    }
    match sent(server) {
        Action::Request { request, .. } => assert_eq!(request.method, "$/lean/rpc/connect"),
        other => panic!("{other:?}"),
    }
    assert_eq!(
        line(replied(server, "{\"id\":2,\"result\":{\"sessionId\":\"s\"}}")),
        result(1, "Document file:///p/A.lean opened successfully. (workspace: /real/p)")
    );
    assert!(server.is_idle());
}

fn opened(text: &str) -> McpServer {
    let mut server = McpServer::new(None);
    open_first(&mut server, text);
    server
}

fn text_of(server: &mut McpServer, id: u64) -> String {
    line(server.run(&call(id, "get_document_text", &format!("{{\"uri\":\"{URI}\"}}"))))
}

#[test]
fn a_connection_begins() {
    let mut server = McpServer::new(None);
    assert_eq!(
        line(server.run("  {\"id\":\"a\",\"method\":\"initialize\"}\n")),
        "{\"id\":\"a\",\"jsonrpc\":\"2.0\",\"result\":{\"capabilities\":{\"tools\":{}},\
         \"protocolVersion\":\"2024-11-05\",\"serverInfo\":{\"name\":\"lean4-mcp-proxy\",\
         \"version\":\"0.2.0\"}}}"
    );
}

#[test]
fn plain_requests_are_answered() {
    let mut server = McpServer::new(None);
    for (method, answer) in [
        ("ping", "{}"),
        ("resources/list", "{\"resources\":[]}"),
        ("resources/templates/list", "{\"resourceTemplates\":[]}"),
        ("prompts/list", "{\"prompts\":[]}"),
    ] {
        assert_eq!(
            line(server.run(&format!("{{\"id\":3,\"method\":\"{method}\"}}"))),
            format!("{{\"id\":3,\"jsonrpc\":\"2.0\",\"result\":{answer}}}")
        );
    }
}

#[test]
fn unknown_methods_are_refused() {
    let mut server = McpServer::new(None);
    assert_eq!(
        line(server.run("{\"id\":3,\"method\":\"nope\"}")),
        "{\"error\":{\"code\":-32601,\"message\":\"Method not found: nope\"},\"id\":3,\
         \"jsonrpc\":\"2.0\"}"
    );
    assert_eq!(
        line(server.run("{}")),
        "{\"error\":{\"code\":-32601,\"message\":\"Method not found: \"},\"id\":null,\
         \"jsonrpc\":\"2.0\"}"
    );
}

#[test]
fn notifications_and_empty_lines_are_not_answered() {
    let mut server = McpServer::new(None);
    for text in [
        "",
        " \t ",
        "{\"method\":\"notifications/initialized\"}",
        "{\"method\":\"notifications/cancelled\",\"id\":4}",
    ] {
        assert!(matches!(server.run(text), Action::Nothing));
        assert!(server.is_idle());
    }
}

#[test]
fn a_line_that_is_no_json_is_answered_without_an_id() {
    let mut server = McpServer::new(None);
    assert_eq!(
        line(server.run("{")),
        "{\"error\":{\"code\":-32700,\"message\":\"Parse error: EOF while parsing an object at \
         line 1 column 1\"},\"id\":null,\"jsonrpc\":\"2.0\"}"
    );
}

#[test]
fn a_call_without_a_tool_is_an_error_of_the_protocol() {
    let mut server = McpServer::new(None);
    assert_eq!(
        line(server.run("{\"id\":1,\"method\":\"tools/call\"}")),
        "{\"error\":{\"code\":-32603,\"message\":\"Internal error: Missing params in \
         tools/call\"},\"id\":1,\"jsonrpc\":\"2.0\"}"
    );
    assert_eq!(
        line(server.run("{\"id\":1,\"method\":\"tools/call\",\"params\":{}}")),
        "{\"error\":{\"code\":-32603,\"message\":\"Internal error: Missing tool name\"},\"id\":1,\
         \"jsonrpc\":\"2.0\"}"
    );
}

#[test]
fn what_goes_wrong_in_a_tool_is_told_as_a_result() {
    let mut server = McpServer::new(None);
    assert_eq!(
        line(server.run(&call(2, "nope", "{}"))),
        error(2, "Unknown tool: nope")
    );
    assert_eq!(
        line(server.run("{\"id\":2,\"method\":\"tools/call\",\"params\":{\"name\":\"open_file\"}}")),
        error(2, "Missing 'path' parameter")
    );
    for (tool, arguments) in [
        ("get_diagnostics", "{\"uri\":\"u\"}"),
        ("get_goal_state", "{\"uri\":\"u\",\"line\":0,\"character\":0}"),
        ("replace_document", "{\"uri\":\"u\",\"newText\":\"\"}"),
        (
            "apply_edit",
            "{\"uri\":\"u\",\"startLine\":0,\"startCharacter\":0,\"endLine\":0,\
             \"endCharacter\":0,\"newText\":\"\"}",
        ),
        ("get_document_text", "{\"uri\":\"u\"}"),
        ("close_document", "{\"uri\":\"u\"}"),
        ("file_status", "{\"uri\":\"u\"}"),
    ] {
        assert_eq!(
            line(server.run(&call(2, tool, arguments))),
            error(2, "Document not open: u. Use open_file or open_document first.")
        );
    }
}

#[test]
fn a_document_is_opened_and_read() {
    let mut server = opened("line\nline é");
    assert_eq!(text_of(&mut server, 7), result(7, "line\nline é"));
    assert_eq!(
        line(server.run(&call(8, "list_documents", "{}"))),
        result(
            8,
            "Open documents (1):\n  [processing] file:///p/A.lean (workspace: /real/p)"
        )
    );
}

#[test]
fn a_file_is_found_read_and_opened() {
    let mut server = McpServer::new(None);
    match server.run(&call(1, "open_file", "{\"path\":\"A.lean\"}")) {
        Action::Canonicalize { path } => assert_eq!(path, "A.lean"),
        other => panic!("{other:?}"),
    }
    match canonical(&mut server, Some("/q/src/A.lean")) {
        Action::ReadFile { path } => assert_eq!(path, "/q/src/A.lean"),
        other => panic!("{other:?}"),
    }
    match server.resume(Event::FileRead { text: Some("é".to_string()) }) {
        Action::Inspect { path } => assert_eq!(path, "/q/src/A.lean"),
        other => panic!("{other:?}"),
    }
    match server.resume(Event::Inspected { is_directory: false }) {
        Action::Ascend { directory } => assert_eq!(directory, "/q/src/A.lean"),
        other => panic!("{other:?}"),
    }
    let mut action = server.resume(Event::Ascended { parent: Some("/q/src".to_string()) });
    for name in ["lakefile.lean", "lakefile.toml", "lakefile"] {
        match action {
            Action::Probe { directory, entry } => {
                assert_eq!((directory.as_str(), entry.as_str()), ("/q/src", name));
            }
            other => panic!("{other:?}"),
        }
        action = server.resume(Event::Probed { exists: false });
    }
    match action {
        Action::Ascend { directory } => assert_eq!(directory, "/q/src"),
        other => panic!("{other:?}"),
    }
    match server.resume(Event::Ascended { parent: Some("/q".to_string()) }) {
        Action::Probe { directory, entry } => {
            assert_eq!((directory.as_str(), entry.as_str()), ("/q", "lakefile.lean"));
        }
        other => panic!("{other:?}"),
    }
    match server.resume(Event::Probed { exists: true }) {
        Action::Canonicalize { path } => assert_eq!(path, "/q"),
        other => panic!("{other:?}"),
    }
    match canonical(&mut server, Some("/q")) {
        Action::Spawn { key, .. } => assert_eq!(key, "/q"),
        other => panic!("{other:?}"),
    }
    let _ = server.resume(Event::Spawned { process_id: 5 });
    let _ = replied(&mut server, "{\"id\":1,\"result\":{}}");
    let _ = sent(&mut server);
    let _ = sent(&mut server);
    assert_eq!(
        line(replied(&mut server, "{\"id\":2,\"result\":{\"sessionId\":\"s\"}}")),
        result(
            1,
            "Document file:///q/src/A.lean opened successfully (2 bytes). (workspace: /q)"
        )
    );
}

#[test]
fn a_file_that_cannot_be_read_is_told() {
    let mut server = McpServer::new(None);
    match server.run(&call(1, "open_file", "{\"path\":\"/a\"}")) {
        Action::ReadFile { path } => assert_eq!(path, "/a"),
        other => panic!("{other:?}"),
    }
    assert_eq!(
        line(server.resume(Event::FileRead { text: None })),
        error(1, "Failed to read file: /a")
    );
    // A path that cannot be made absolute is taken as it is.
    let _ = server.run(&call(2, "open_file", "{\"path\":\"a\"}"));
    match canonical(&mut server, None) {
        Action::ReadFile { path } => assert_eq!(path, "a"),
        other => panic!("{other:?}"),
    }
}

#[test]
fn a_document_without_a_project_is_opened_by_itself() {
    let mut server = McpServer::new(None);
    let action = server.run(&call(1, "open_document", "{\"uri\":\"mem:a\",\"text\":\"x\"}"));
    match action {
        Action::Spawn { key, lake_root } => {
            assert_eq!(key, "");
            assert_eq!(lake_root, None);
        }
        other => panic!("{other:?}"),
    }
    let _ = server.resume(Event::Spawned { process_id: 5 });
    let _ = replied(&mut server, "{\"id\":1,\"result\":{}}");
    let _ = sent(&mut server);
    let _ = sent(&mut server);
    assert_eq!(
        line(replied(&mut server, "{\"id\":2,\"result\":{\"sessionId\":\"s\"}}")),
        result(1, "Document mem:a opened successfully. (workspace: standalone)")
    );
    // It has no file, so that an edit is not written.
    let _ = server.run(&call(2, "replace_document", "{\"uri\":\"mem:a\",\"newText\":\"y\\nz\"}"));
    assert_eq!(
        line(sent(&mut server)),
        result(2, "Document mem:a replaced. Document now has 2 lines.")
    );
}

#[test]
fn the_given_project_serves_where_none_is_found() {
    let mut server = McpServer::new(Some("/d".to_string()));
    let arguments = "{\"uri\":\"file:///a\",\"text\":\"\",\"lake_workspace\":\"  \"}";
    match server.run(&call(1, "open_document", arguments)) {
        Action::Inspect { path } => assert_eq!(path, "/a"),
        other => panic!("{other:?}"),
    }
    match server.resume(Event::Inspected { is_directory: true }) {
        Action::Probe { directory, .. } => assert_eq!(directory, "/a"),
        other => panic!("{other:?}"),
    }
    let _ = server.resume(Event::Probed { exists: false });
    let _ = server.resume(Event::Probed { exists: false });
    let _ = server.resume(Event::Probed { exists: false });
    match server.resume(Event::Ascended { parent: None }) {
        Action::Spawn { key, .. } => assert_eq!(key, "/d"),
        other => panic!("{other:?}"),
    }
    assert_eq!(
        line(server.resume(Event::SpawnFailed { command: "\"lake\" \"serve\"".to_string() })),
        error(
            1,
            "Failed to spawn: \"lake\" \"serve\". Is Lean 4 / Lake installed and on PATH?"
        )
    );
}

#[test]
fn a_handshake_that_fails_is_given_up() {
    for outcome in [
        RequestOutcome::TimedOut,
        RequestOutcome::Closed,
        RequestOutcome::NotSent,
    ] {
        let mut server = McpServer::new(None);
        let _ = server.run(&call(1, "open_document", "{\"uri\":\"mem:a\",\"text\":\"x\"}"));
        let _ = server.resume(Event::Spawned { process_id: 5 });
        let text = line(server.resume(Event::Replied { outcome }));
        assert!(text.contains("\"isError\":true"));
        // The language server is started anew.
        let action = server.run(&call(2, "open_document", "{\"uri\":\"mem:a\",\"text\":\"x\"}"));
        assert!(matches!(action, Action::Spawn { .. }));
    }
}

#[test]
fn a_document_without_a_session_is_not_open() {
    let mut server = McpServer::new(None);
    let arguments = "{\"uri\":\"mem:a\",\"text\":\"x\"}";
    let _ = server.run(&call(1, "open_document", arguments));
    let _ = server.resume(Event::Spawned { process_id: 5 });
    let _ = replied(&mut server, "{\"id\":1,\"result\":{}}");
    let _ = sent(&mut server);
    let _ = sent(&mut server);
    assert_eq!(
        line(replied(&mut server, "{\"id\":2,\"result\":{}}")),
        error(1, "No sessionId in RPC connect response")
    );
    assert_eq!(
        line(server.run(&call(2, "file_status", "{\"uri\":\"mem:a\"}"))),
        error(2, "Document not open: mem:a. Use open_file or open_document first.")
    );
}

#[test]
fn a_document_that_is_open_gets_its_new_text() {
    let mut server = opened("old");
    let arguments = format!("{{\"uri\":\"{URI}\",\"text\":\"new\",\"lake_workspace\":\"/p\"}}");
    let _ = server.run(&call(5, "open_document", &arguments));
    match canonical(&mut server, Some("/real/p")) {
        Action::Send { frame, .. } => {
            assert!(String::from_utf8(frame).unwrap().contains("\"version\":2"));
        }
        other => panic!("{other:?}"),
    }
    match sent(&mut server) {
        Action::WriteFile { path, text } => {
            assert_eq!((path.as_str(), text.as_str()), ("/p/A.lean", "new"));
        }
        other => panic!("{other:?}"),
    }
    assert_eq!(
        line(server.resume(Event::Written)),
        result(
            5,
            "Document file:///p/A.lean was already open; content replaced. (workspace: /real/p)"
        )
    );
    assert_eq!(text_of(&mut server, 6), result(6, "new"));
    assert_eq!(
        line(server.run(&call(9, "list_documents", "{}"))),
        result(
            9,
            "Open documents (1):\n  [processing] file:///p/A.lean (workspace: /real/p)"
        )
    );
    // The same from the disk.
    let _ = server.run(&call(7, "open_file", "{\"path\":\"/p/A.lean\",\"lake_workspace\":\"/p\"}"));
    let _ = server.resume(Event::FileRead { text: Some("disk".to_string()) });
    let _ = canonical(&mut server, Some("/real/p"));
    let _ = sent(&mut server);
    assert_eq!(
        line(server.resume(Event::Written)),
        result(
            7,
            "Document file:///p/A.lean was already open; content refreshed from disk. \
             (workspace: /real/p)"
        )
    );
    assert_eq!(text_of(&mut server, 8), result(8, "disk"));
}

fn edit(id: u64, from: (u64, u64), to: (u64, u64), text: &str) -> String {
    let arguments = format!(
        "{{\"uri\":\"{URI}\",\"startLine\":{},\"startCharacter\":{},\"endLine\":{},\
         \"endCharacter\":{},\"newText\":\"{text}\"}}",
        from.0, from.1, to.0, to.1
    );
    call(id, "apply_edit", &arguments)
}

#[test]
fn an_edit_is_sent_written_and_read() {
    let mut server = opened("a\nb");
    assert!(matches!(server.run(&edit(5, (1, 0), (1, 1), "c")), Action::Send { .. }));
    match sent(&mut server) {
        Action::WriteFile { path, text } => {
            assert_eq!((path.as_str(), text.as_str()), ("/p/A.lean", "a\nc"));
        }
        other => panic!("{other:?}"),
    }
    assert_eq!(
        line(server.resume(Event::Written)),
        result(5, "Edit applied to file:///p/A.lean. Document now has 2 lines.")
    );
    assert_eq!(text_of(&mut server, 6), result(6, "a\nc"));
}

#[test]
fn an_edit_that_is_not_sent_is_told() {
    let mut server = opened("a");
    let _ = server.run(&edit(5, (0, 0), (0, 1), "c"));
    assert_eq!(
        line(server.resume(Event::Sent { sent: false })),
        error(5, "Failed to send notification to lean stdin channel")
    );
}

#[test]
fn a_refused_edit_is_told() {
    let mut server = opened("a");
    assert_eq!(
        line(server.run(&edit(5, (0, 0), (9, 0), "c"))),
        error(5, "Edit range out of bounds: lines 0-9, document has 1 lines")
    );
    assert_eq!(text_of(&mut server, 6), result(6, "a"));
}

#[test]
fn an_edit_behind_the_last_line_or_inside_a_character_is_told() {
    let mut server = opened("é");
    assert_eq!(
        line(server.run(&edit(5, (0, 0), (1, 0), "c"))),
        error(5, "Edit range out of bounds: lines 0-1, document has 1 lines")
    );
    assert_eq!(
        line(server.run(&edit(6, (0, 1), (0, 2), "c"))),
        error(6, "Invalid edit range: start offset (1) or end offset (2) is inside a character")
    );
    assert_eq!(text_of(&mut server, 7), result(7, "é"));
}

#[test]
fn each_line_is_answered_in_its_turn() {
    let mut server = McpServer::new(None);
    let mut written = Vec::new();
    for text in [
        "",
        "{\"id\":1,\"method\":\"ping\"}",
        "{",
        "{\"method\":\"notifications/initialized\"}",
        "{\"id\":\"b\",\"method\":\"nope\"}",
        "{\"id\":3,\"method\":\"ping\"}",
    ] {
        if let Action::Reply { line } = server.run(text) {
            let reply = Json::parse(&line).unwrap();
            written.push(reply.get("id").unwrap().to_text());
        }
        assert!(server.is_idle());
    }
    assert_eq!(written, vec!["1", "null", "\"b\"", "3"]);
}

#[test]
fn goals_are_asked_for_in_the_session() {
    let mut server = opened("a");
    let arguments = format!("{{\"uri\":\"{URI}\",\"line\":1,\"character\":2}}");
    match server.run(&call(5, "get_goal_state", &arguments)) {
        Action::Request { key, request } => {
            assert_eq!(key, "/real/p");
            assert_eq!((request.id.as_str(), request.method.as_str()), ("3", "$/lean/plainGoal"));
        }
        other => panic!("{other:?}"),
    }
    assert_eq!(
        line(replied(&mut server, "{\"id\":3,\"result\":{\"rendered\":\"⊢ True\"}}")),
        result(5, "⊢ True")
    );
    let _ = server.run(&call(6, "get_goal_state", &arguments));
    assert_eq!(
        line(server.resume(Event::Replied { outcome: RequestOutcome::TimedOut })),
        error(6, "Timed out waiting for Lean response to $/lean/plainGoal (120s)")
    );
}

fn progress(server: &mut McpServer, processing: &str) {
    let message = format!(
        "{{\"method\":\"$/lean/fileProgress\",\"params\":{{\"textDocument\":{{\"uri\":\"{URI}\"}},\
         \"processing\":{processing}}}}}"
    );
    assert!(matches!(
        server.receive("/real/p", message.as_bytes()),
        Incoming::Progress
    ));
}

fn diagnostic(severity: Option<i64>, message: &str) -> LspDiagnostic {
    LspDiagnostic {
        range: LspRange {
            start: LspPosition { line: 1, character: 2 },
            end: LspPosition { line: 3, character: 4 },
        },
        severity,
        message: message.to_string(),
        source: None,
    }
}

#[test]
fn diagnostics_are_told_when_lean_is_done() {
    let mut server = opened("a");
    let arguments = format!("{{\"uri\":\"{URI}\"}}");
    match server.run(&call(5, "get_diagnostics", &arguments)) {
        Action::BeginWait { timeout_ms, pause_ms } => {
            assert_eq!((timeout_ms, pause_ms), (60000, 300));
        }
        other => panic!("{other:?}"),
    }
    match server.resume(Event::Woken { expired: false }) {
        Action::AwaitNews { key } => assert_eq!(key, "/real/p"),
        other => panic!("{other:?}"),
    }
    server.store_diagnostics(
        "/real/p",
        URI,
        vec![diagnostic(Some(1), "a"), diagnostic(None, "b")],
    );
    progress(&mut server, "[{}]");
    assert!(matches!(
        server.resume(Event::Woken { expired: false }),
        Action::AwaitNews { .. }
    ));
    progress(&mut server, "[]");
    match server.resume(Event::Woken { expired: true }) {
        Action::Pause { pause_ms } => assert_eq!(pause_ms, 100),
        other => panic!("{other:?}"),
    }
    assert_eq!(
        line(server.resume(Event::Woken { expired: true })),
        result(5, "[error] 1:2-3:4: a\n[unknown] 1:2-3:4: b")
    );
}

#[test]
fn diagnostics_are_told_when_the_time_is_over() {
    let mut server = opened("a");
    let arguments = format!("{{\"uri\":\"{URI}\",\"timeout_ms\":1}}");
    let _ = server.run(&call(5, "get_diagnostics", &arguments));
    assert_eq!(
        line(server.resume(Event::Woken { expired: true })),
        result(5, "No diagnostics (errors/warnings) found.")
    );
    let _ = server.run(&call(6, "get_diagnostics", &arguments));
    let _ = server.resume(Event::Woken { expired: false });
    assert_eq!(
        line(server.resume(Event::Overdue)),
        result(6, "No diagnostics (errors/warnings) found.")
    );
}

#[test]
fn severities_have_names() {
    let mut names = Vec::new();
    for severity in [1, 2, 3, 4, 5] {
        let text = describe_diagnostics(&vec![diagnostic(Some(severity), "m")]);
        names.push(text[1..text.find(']').unwrap()].to_string());
    }
    assert_eq!(names, vec!["error", "warning", "info", "hint", "unknown"]);
}

#[test]
fn the_status_of_a_file_is_told() {
    let mut server = opened("a");
    let request = call(5, "file_status", &format!("{{\"uri\":\"{URI}\"}}"));
    assert_eq!(
        line(server.run(&request)),
        result(5, "processing — Lean is still checking this file.")
    );
    progress(&mut server, "[]");
    assert_eq!(
        line(server.run(&request)),
        result(5, "checked — Lean has finished processing this file.")
    );
}

#[test]
fn a_closed_document_is_not_open() {
    let mut server = opened("a");
    let request = call(5, "close_document", &format!("{{\"uri\":\"{URI}\"}}"));
    assert!(matches!(server.run(&request), Action::Send { .. }));
    assert_eq!(
        line(sent(&mut server)),
        result(5, "Document file:///p/A.lean closed.")
    );
    assert_eq!(
        text_of(&mut server, 6),
        error(
            6,
            "Document not open: file:///p/A.lean. Use open_file or open_document first."
        )
    );
    assert_eq!(
        line(server.run(&call(7, "list_documents", "{}"))),
        result(7, "No documents are currently open.")
    );
}

#[test]
fn what_is_not_waited_for_is_passed_over() {
    let mut server = McpServer::new(None);
    assert!(matches!(server.resume(Event::Written), Action::Nothing));
    let _ = server.run(&call(1, "open_file", "{\"path\":\"/a\"}"));
    let events: Vec<ServerEvent> = vec![
        Event::Written,
        Event::Overdue,
        Event::Sent { sent: true },
        Event::Canonical { path: None },
    ];
    for event in events {
        assert!(matches!(server.resume(event), Action::Nothing));
        assert!(!server.is_idle());
    }
    assert!(matches!(
        server.receive("/elsewhere", b"{\"id\":1,\"result\":1}"),
        Incoming::Nothing
    ));
}

#[test]
fn the_tools_are_listed() {
    let list = list_tools();
    let items = list.get("tools").unwrap().as_array().unwrap();
    let names: Vec<&str> = items.iter().map(|item| item.text_at("name").unwrap()).collect();
    assert_eq!(
        names,
        vec![
            "open_file",
            "open_document",
            "get_diagnostics",
            "get_goal_state",
            "replace_document",
            "apply_edit",
            "get_document_text",
            "close_document",
            "file_status",
            "list_documents",
        ]
    );
    assert_eq!(
        items[4].get("inputSchema").unwrap().to_text(),
        "{\"properties\":{\"newText\":{\"description\":\"The new full text content of the file\",\
         \"type\":\"string\"},\"uri\":{\"description\":\"The file URI\",\"type\":\"string\"}},\
         \"required\":[\"uri\",\"newText\"],\"type\":\"object\"}"
    );
    let mut server = McpServer::new(None);
    assert_eq!(
        line(server.run("{\"id\":1,\"method\":\"tools/list\"}")),
        format!("{{\"id\":1,\"jsonrpc\":\"2.0\",\"result\":{}}}", list.to_text())
    );
}

#[test]
fn the_listed_arguments_are_the_ones_that_are_asked_for() {
    for tool in tools() {
        let given: Vec<(String, Json)> = tool
            .properties
            .iter()
            .filter(|property| property.required)
            .map(|property| {
                let value = match property.kind {
                    lean4_mcp_proxy::tools::Kind::Text => Json::text("x"),
                    lean4_mcp_proxy::tools::Kind::Integer => Json::Unsigned(1),
                };
                (property.name.clone(), value)
            })
            .collect();
        assert!(Call::read(&tool.name, &Json::object(given.clone())).is_ok());
        for i in 0..given.len() {
            let mut fewer = given.clone();
            let (name, _) = fewer.remove(i);
            assert_eq!(
                Call::read(&tool.name, &Json::object(fewer)).unwrap_err(),
                format!("Missing '{name}' parameter")
            );
        }
    }
}

#[test]
fn each_open_document_is_listed_once() {
    let mut server = opened("a");
    // Another document in the same workspace: its language server runs.
    let arguments = "{\"uri\":\"file:///p/B.lean\",\"text\":\"b\",\"lake_workspace\":\"/p\"}";
    let _ = server.run(&call(2, "open_document", arguments));
    match canonical(&mut server, Some("/real/p")) {
        Action::Send { key, .. } => assert_eq!(key, "/real/p"),
        other => panic!("{other:?}"),
    }
    let _ = sent(&mut server);
    let _ = replied(&mut server, "{\"id\":3,\"result\":{\"sessionId\":\"s\"}}");
    // The first document once more.
    let arguments = format!("{{\"uri\":\"{URI}\",\"text\":\"c\",\"lake_workspace\":\"/p\"}}");
    let _ = server.run(&call(3, "open_document", &arguments));
    let _ = canonical(&mut server, Some("/real/p"));
    let _ = sent(&mut server);
    let _ = server.resume(Event::Written);
    progress(&mut server, "[]");
    assert_eq!(
        line(server.run(&call(4, "list_documents", "{}"))),
        result(
            4,
            "Open documents (2):\n  [checked] file:///p/A.lean (workspace: /real/p)\n  \
             [processing] file:///p/B.lean (workspace: /real/p)"
        )
    );
    // Closing one leaves the other as it is.
    let _ = server.run(&call(5, "close_document", "{\"uri\":\"file:///p/B.lean\"}"));
    let _ = sent(&mut server);
    assert_eq!(text_of(&mut server, 6), result(6, "c"));
}

#[test]
fn a_message_leaves_the_call_and_the_documents() {
    let mut server = opened("a");
    let _ = server.run(&edit(5, (0, 0), (0, 1), "b"));
    for message in ["{\"id\":9,\"result\":1}", "{\"id\":2,\"method\":\"m\"}", "x"] {
        let _ = server.receive("/real/p", message.as_bytes());
        assert!(!server.is_idle());
    }
    let _ = sent(&mut server);
    let _ = server.resume(Event::Written);
    assert_eq!(text_of(&mut server, 6), result(6, "b"));
}
