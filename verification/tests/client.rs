use lean4_mcp_proxy::client_model::{
    Incoming, PendingRequest, RequestOutcome, SessionStep, WaitStep,
};
use lean4_mcp_proxy::framing::encode_lsp_message;
use lean4_mcp_proxy::json::Json;
use lean4_mcp_proxy::jsonrpc::JsonRpcResponse;
use lean4_mcp_proxy::lean_client::{describe_goals, LeanClient};
use lean4_mcp_proxy::lsp::{DocumentState, FileCheckStatus, LspDiagnostic, LspPosition, LspRange};
use lean4_mcp_proxy::reader::{FrameReader, ReadStep};

const URI: &str = "file:///p/A.lean";

fn parse(text: &str) -> Json {
    Json::parse(text).unwrap()
}

fn body(frame: &[u8]) -> String {
    let text = String::from_utf8(frame.to_vec()).unwrap();
    let start = text.find("\r\n\r\n").unwrap() + 4;
    assert_eq!(
        &text[..start],
        format!("Content-Length: {}\r\n\r\n", text.len() - start)
    );
    text[start..].to_string()
}

fn answer(text: &str) -> RequestOutcome {
    RequestOutcome::Response(JsonRpcResponse::from_json(&parse(text)).unwrap())
}

fn open(client: &mut LeanClient, text: &str) {
    let _ = client.open_document(URI, text);
    client.document_opened(URI, text);
}

#[test]
fn a_language_server_is_started_by_lake_in_a_project() {
    let plan = LeanClient::spawn(Some("/p".to_string()), None, None);
    assert_eq!((plan.program.as_str(), plan.argument.as_str()), ("lake", "serve"));
    assert_eq!(plan.current_dir, Some("/p".to_string()));
    let plan = LeanClient::spawn(Some("/p".to_string()), None, Some("/bin/lake".to_string()));
    assert_eq!(plan.program, "/bin/lake");
}

#[test]
fn a_language_server_is_started_by_lean_elsewhere() {
    let plan = LeanClient::spawn(None, None, Some("/bin/lake".to_string()));
    assert_eq!((plan.program.as_str(), plan.argument.as_str()), ("lean", "--server"));
    assert_eq!(plan.current_dir, None);
}

#[test]
fn a_named_lean_program_comes_first() {
    let plan = LeanClient::spawn(Some("/p".to_string()), Some("/bin/lean".to_string()), None);
    assert_eq!((plan.program.as_str(), plan.argument.as_str()), ("/bin/lean", "--server"));
    assert_eq!(plan.current_dir, Some("/p".to_string()));
}

#[test]
fn the_handshake_tells_the_root() {
    let mut client = LeanClient::new(Some("/p".to_string()));
    let request = client.initialize(42);
    assert_eq!(request.timeout_secs, 60);
    assert_eq!(
        body(&request.frame),
        "{\"id\":1,\"jsonrpc\":\"2.0\",\"method\":\"initialize\",\"params\":{\"capabilities\":\
         {\"textDocument\":{\"publishDiagnostics\":{\"relatedInformation\":true}}},\
         \"initializationOptions\":{},\"processId\":42,\"rootUri\":\"file:///p\"}}"
    );
    let frame = client
        .finish_initialize(&request, answer("{\"id\":1,\"result\":{}}"))
        .unwrap();
    assert_eq!(
        body(&frame),
        "{\"jsonrpc\":\"2.0\",\"method\":\"initialized\",\"params\":{}}"
    );
}

#[test]
fn a_failed_handshake_is_told() {
    let mut client = LeanClient::new(None);
    let request = client.initialize(42);
    assert!(body(&request.frame).contains("\"rootUri\":null"));
    assert_eq!(
        client.finish_initialize(
            &request,
            answer("{\"id\":1,\"error\":{\"code\":1,\"message\":\"broken\"}}")
        ),
        Err("Lean initialization failed: broken".to_string())
    );
}

#[test]
fn requests_have_different_ids() {
    let mut client = LeanClient::new(None);
    let first = client.send_request("a", None);
    let second = client.send_request_with_timeout("b", Some(Json::Null), 5);
    assert_eq!((first.id.as_str(), second.id.as_str()), ("1", "2"));
    assert_eq!((first.timeout_secs, second.timeout_secs), (120, 5));
}

fn take(client: &mut LeanClient, text: &str) -> Option<String> {
    match client.receive(text.as_bytes()) {
        Incoming::Resolved { id, .. } => Some(id),
        _ => None,
    }
}

#[test]
fn a_response_resolves_its_request_once() {
    let mut client = LeanClient::new(None);
    let _ = client.send_request("a", None);
    let _ = client.send_request("b", None);
    assert_eq!(
        take(&mut client, "{\"id\":2,\"result\":null}"),
        Some("2".to_string())
    );
    assert_eq!(take(&mut client, "{\"id\":2,\"result\":null}"), None);
    // An id is matched by its text.
    assert_eq!(
        take(&mut client, "{\"id\":\"1\",\"error\":{\"code\":1,\"message\":\"m\"}}"),
        Some("1".to_string())
    );
    assert_eq!(take(&mut client, "{\"id\":9,\"result\":null}"), None);
}

fn finish(client: &mut LeanClient, request: &PendingRequest, outcome: RequestOutcome) -> String {
    client.finish_request(request, outcome).unwrap_err()
}

#[test]
fn a_request_without_a_response_is_told() {
    let mut client = LeanClient::new(None);
    let request = client.send_request("m", None);
    assert_eq!(
        finish(&mut client, &request, RequestOutcome::NotSent),
        "Failed to send to lean stdin channel"
    );
    assert_eq!(
        finish(&mut client, &request, RequestOutcome::Closed),
        "Response channel closed before receiving response for m"
    );
    assert_eq!(
        finish(&mut client, &request, RequestOutcome::TimedOut),
        "Timed out waiting for Lean response to m (120s)"
    );
    // A late response is passed over.
    assert_eq!(take(&mut client, "{\"id\":1,\"result\":null}"), None);
}

#[test]
fn a_request_of_the_server_is_answered() {
    let mut client = LeanClient::new(None);
    let message = "{\"id\":\"r\",\"method\":\"client/registerCapability\"}";
    match client.receive(message.as_bytes()) {
        Incoming::Answer { frame } => assert_eq!(
            body(&frame),
            "{\"id\":\"r\",\"jsonrpc\":\"2.0\",\"result\":null}"
        ),
        _ => panic!("no answer"),
    }
}

#[test]
fn other_messages_are_passed_over() {
    let mut client = LeanClient::new(None);
    for message in [
        "not json",
        "{}",
        "{\"id\":null,\"result\":1}",
        "{\"id\":1}",
        "{\"id\":1,\"error\":7}",
        "{\"method\":\"window/logMessage\",\"params\":{}}",
        "{\"method\":\"$/lean/fileProgress\"}",
        "{\"method\":3,\"params\":{}}",
    ] {
        assert!(matches!(client.receive(message.as_bytes()), Incoming::Nothing));
    }
}

#[test]
fn bytes_that_are_no_text_are_replaced() {
    let mut client = LeanClient::new(None);
    let _ = client.send_request("a", None);
    let mut message = b"{\"id\":1,\"result\":\"".to_vec();
    message.push(0xff);
    message.extend_from_slice(b"\"}");
    match client.receive(&message) {
        Incoming::Resolved { response, .. } => {
            assert_eq!(response.result.unwrap().as_str(), Some("\u{fffd}"));
        }
        _ => panic!("no response"),
    }
}

fn diagnostic(message: &str) -> LspDiagnostic {
    let place = LspPosition { line: 0, character: 0 };
    LspDiagnostic {
        range: LspRange { start: place, end: place },
        severity: Some(1),
        message: message.to_string(),
        source: None,
    }
}

#[test]
fn diagnostics_are_handed_out_to_be_read() {
    let mut client = LeanClient::new(None);
    let message = format!(
        "{{\"method\":\"textDocument/publishDiagnostics\",\"params\":{{\"uri\":\"{URI}\",\
         \"diagnostics\":[1]}}}}"
    );
    match client.receive(message.as_bytes()) {
        Incoming::Diagnostics { uri, payload } => {
            assert_eq!(uri, URI);
            assert_eq!(payload.unwrap().to_text(), "[1]");
        }
        _ => panic!("no diagnostics"),
    }
    client.store_diagnostics(URI, vec![diagnostic("a"), diagnostic("b")]);
    let stored = client.get_diagnostics(URI);
    assert_eq!(stored.len(), 2);
    assert_eq!(stored[1].message, "b");
    assert!(client.get_diagnostics("file:///other").is_empty());
}

#[test]
fn progress_ends_the_wait() {
    let mut client = LeanClient::new(None);
    open(&mut client, "x");
    assert_eq!(client.get_file_progress(URI), Some(FileCheckStatus::Processing));
    assert_eq!(client.wait_for_diagnostics(URI, false), WaitStep::Wait);
    assert_eq!(client.wait_for_diagnostics(URI, true), WaitStep::GiveUp);
    for (processing, status) in [
        ("[{}]", FileCheckStatus::Processing),
        ("[]", FileCheckStatus::Checked),
    ] {
        let message = format!(
            "{{\"method\":\"$/lean/fileProgress\",\"params\":{{\"textDocument\":\
             {{\"uri\":\"{URI}\"}},\"processing\":{processing}}}}}"
        );
        assert!(matches!(client.receive(message.as_bytes()), Incoming::Progress));
        assert_eq!(client.get_file_progress(URI), Some(status));
    }
    assert_eq!(client.wait_for_diagnostics(URI, true), WaitStep::Settle);
}

#[test]
fn an_opened_document_is_read() {
    let mut client = LeanClient::new(None);
    client.store_diagnostics(URI, vec![diagnostic("stale")]);
    let frame = client.open_document(URI, "a\n");
    assert_eq!(
        body(&frame),
        "{\"jsonrpc\":\"2.0\",\"method\":\"textDocument/didOpen\",\"params\":{\"textDocument\":\
         {\"languageId\":\"lean4\",\"text\":\"a\\n\",\"uri\":\"file:///p/A.lean\",\"version\":1}}}"
    );
    assert!(!client.is_document_open(URI));
    client.document_opened(URI, "a\n");
    assert!(client.is_document_open(URI));
    assert_eq!(client.get_document_text(URI), Some("a\n".to_string()));
    assert!(client.get_diagnostics(URI).is_empty());
}

#[test]
fn an_edited_document_is_read() {
    let mut client = LeanClient::new(None);
    open(&mut client, "a\nb\n");
    client.store_diagnostics(URI, vec![diagnostic("old")]);
    let change = client.apply_edit(URI, 1, 0, 1, 1, "c").unwrap();
    assert_eq!(change.text, "a\nc\n");
    assert_eq!(change.path, Some("/p/A.lean".to_string()));
    assert_eq!(
        body(&change.frame),
        "{\"jsonrpc\":\"2.0\",\"method\":\"textDocument/didChange\",\"params\":{\"contentChanges\":\
         [{\"range\":{\"end\":{\"character\":1,\"line\":1},\"start\":{\"character\":0,\"line\":1}},\
         \"text\":\"c\"}],\"textDocument\":{\"uri\":\"file:///p/A.lean\",\"version\":2}}}"
    );
    assert_eq!(client.get_document_text(URI), Some("a\nc\n".to_string()));
    assert!(client.get_diagnostics(URI).is_empty());
}

#[test]
fn a_refused_edit_changes_nothing() {
    let mut client = LeanClient::new(None);
    open(&mut client, "a\n");
    client.store_diagnostics(URI, vec![diagnostic("kept")]);
    assert!(client.apply_edit(URI, 5, 0, 5, 0, "c").is_err());
    assert_eq!(client.get_document_text(URI), Some("a\n".to_string()));
    assert_eq!(client.get_diagnostics(URI).len(), 1);
    assert_eq!(
        client.apply_edit("file:///other", 0, 0, 0, 0, "c").unwrap_err(),
        "Document not open: file:///other"
    );
}

#[test]
fn a_replaced_document_is_read() {
    let mut client = LeanClient::new(None);
    open(&mut client, "a\nbé");
    let change = client.replace_document(URI, "new").unwrap();
    assert_eq!(change.text, "new");
    assert!(body(&change.frame).contains("\"end\":{\"character\":3,\"line\":1}"));
    assert_eq!(client.get_document_text(URI), Some("new".to_string()));
    assert!(client.replace_document("file:///other", "x").is_err());
}

#[test]
fn an_edit_inside_a_character_or_behind_the_last_line_is_refused() {
    let mut client = LeanClient::new(None);
    open(&mut client, "é");
    assert!(client.apply_edit(URI, 0, 1, 0, 2, "x").is_err());
    assert!(client.apply_edit(URI, 0, 0, 1, 0, "x").is_err());
    assert_eq!(client.get_document_text(URI), Some("é".to_string()));
    // The next edit has the second version.
    let change = client.apply_edit(URI, 0, 2, 0, 2, "x").unwrap();
    assert_eq!(change.text, "éx");
    assert!(body(&change.frame).contains("\"version\":2"));
}

#[test]
fn the_inverse_edit_restores_the_text() {
    let mut client = LeanClient::new(None);
    open(&mut client, "a\nbécd\ne");
    let change = client.apply_edit(URI, 1, 1, 1, 4, "⊢xy").unwrap();
    assert_eq!(change.text, "a\nb⊢xyd\ne");
    let change = client.apply_edit(URI, 1, 1, 1, 1 + 5, "éc").unwrap();
    assert_eq!(change.text, "a\nbécd\ne");
    assert!(body(&change.frame).contains("\"version\":3"));
    assert_eq!(client.get_document_text(URI), Some("a\nbécd\ne".to_string()));
}

#[test]
fn the_file_of_a_document_keeps_its_name() {
    let mut client = LeanClient::new(None);
    let uri = "file:///tmp/é.lean";
    client.document_opened(uri, "a");
    let change = client.replace_document(uri, "b").unwrap();
    assert_eq!(change.path, Some("/tmp/é.lean".to_string()));
}

#[test]
fn a_message_that_is_no_json_does_not_stop_the_later_ones() {
    let mut client = LeanClient::new(None);
    let _ = client.send_request("a", None);
    let mut reader = FrameReader::new();
    for text in ["x", "{\"id\":1,\"result\":1}", "{\"id\":1,\"result\":1}"] {
        reader.push(&encode_lsp_message(text.as_bytes()));
    }
    let mut resolved = Vec::new();
    while let ReadStep::Message { body } = reader.next() {
        resolved.push(matches!(client.receive(&body), Incoming::Resolved { .. }));
    }
    assert_eq!(resolved, vec![false, true, false]);
}

#[test]
fn a_copy_of_a_document_is_the_same() {
    let document = DocumentState {
        uri: URI.to_string(),
        version: 3,
        text: "a".to_string(),
        rpc_session_id: Some("s".to_string()),
    };
    let copy = document.clone();
    assert_eq!((copy.uri.as_str(), copy.version, copy.text.as_str()), (URI, 3, "a"));
    assert_eq!(copy.rpc_session_id, document.rpc_session_id);
}

#[test]
fn nothing_is_left_of_a_closed_document() {
    let mut client = LeanClient::new(None);
    open(&mut client, "a");
    client.store_diagnostics(URI, vec![diagnostic("a")]);
    let frame = client.close_document(URI).unwrap();
    assert_eq!(
        body(&frame),
        "{\"jsonrpc\":\"2.0\",\"method\":\"textDocument/didClose\",\"params\":{\"textDocument\":\
         {\"uri\":\"file:///p/A.lean\"}}}"
    );
    client.document_closed(URI);
    assert!(!client.is_document_open(URI));
    assert_eq!(client.get_file_progress(URI), None);
    assert!(client.get_diagnostics(URI).is_empty());
    assert_eq!(
        client.close_document(URI),
        Err("Document not open: file:///p/A.lean".to_string())
    );
}

#[test]
fn a_session_is_asked_for_once() {
    let mut client = LeanClient::new(None);
    open(&mut client, "a");
    let request = match client.ensure_rpc_session(URI) {
        SessionStep::Connect { request } => request,
        SessionStep::Ready { .. } => panic!("no session yet"),
    };
    assert_eq!(
        body(&request.frame),
        "{\"id\":1,\"jsonrpc\":\"2.0\",\"method\":\"$/lean/rpc/connect\",\"params\":\
         {\"uri\":\"file:///p/A.lean\"}}"
    );
    assert_eq!(
        client.finish_rpc_session(
            URI,
            &request,
            answer("{\"id\":1,\"result\":{\"sessionId\":\"s1\"}}")
        ),
        Ok("s1".to_string())
    );
    match client.ensure_rpc_session(URI) {
        SessionStep::Ready { session } => assert_eq!(session, "s1"),
        SessionStep::Connect { .. } => panic!("asked twice"),
    }
}

#[test]
fn a_session_that_is_not_given_is_told() {
    let mut client = LeanClient::new(None);
    open(&mut client, "a");
    let request = client.send_request("$/lean/rpc/connect", None);
    assert_eq!(
        client.finish_rpc_session(
            URI,
            &request,
            answer("{\"id\":1,\"error\":{\"code\":1,\"message\":\"m\"}}")
        ),
        Err("RPC connect failed for file:///p/A.lean: m".to_string())
    );
    assert_eq!(
        client.finish_rpc_session(URI, &request, answer("{\"id\":1,\"result\":{}}")),
        Err("No sessionId in RPC connect response".to_string())
    );
}

fn goals(text: &str) -> String {
    describe_goals(&JsonRpcResponse::from_json(&parse(text)).unwrap())
}

#[test]
fn goals_are_told() {
    assert_eq!(
        goals("{\"id\":1,\"result\":{\"rendered\":\"r\",\"goals\":[\"g\"]}}"),
        "r"
    );
    assert_eq!(
        goals("{\"id\":1,\"result\":{\"goals\":[\"g\",{\"a\":1}]}}"),
        "Goal 1:\ng\n\nGoal 2:\n{\"a\":1}"
    );
    assert_eq!(goals("{\"id\":1,\"result\":{\"goals\":[]}}"), "No goals.");
    assert_eq!(goals("{\"id\":1,\"result\":null}"), "No goal at this position.");
    assert_eq!(goals("{\"id\":1}"), "No result from Lean.");
    assert_eq!(
        goals("{\"id\":1,\"error\":{\"code\":1,\"message\":\"m\"}}"),
        "No goal at this position: m"
    );
    assert_eq!(goals("{\"id\":1,\"result\":{\"x\":1}}"), "{\n  \"x\": 1\n}");
}

#[test]
fn goals_are_asked_for() {
    let mut client = LeanClient::new(None);
    let request = client.get_goal_state(URI, 3, 4);
    assert_eq!(
        body(&request.frame),
        "{\"id\":1,\"jsonrpc\":\"2.0\",\"method\":\"$/lean/plainGoal\",\"params\":{\"position\":\
         {\"character\":4,\"line\":3},\"textDocument\":{\"uri\":\"file:///p/A.lean\"}}}"
    );
    assert_eq!(
        client.finish_goal_state(&request, answer("{\"id\":1,\"result\":{\"rendered\":\"r\"}}")),
        Ok("r".to_string())
    );
}
