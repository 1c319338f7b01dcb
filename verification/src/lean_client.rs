//! The state of the connection to one language server.
//!
//! [`LeanClient`] holds what is known of the server and of the documents that
//! are open in it. Its methods give the bytes to send and take what came back;
//! the sending and the waiting are done outside.

use crate::client_model::{
    bytes_result, edit_range, goal_answer, id_text, no_request_id, not_open, notification_frame,
    numbered_goal,
    response_result, spawn_view, ClientView, DocumentChange, Incoming, PendingRequest,
    RequestOutcome, SessionStep, SpawnPlan, WaitStep,
};
use crate::document::{edit_text, offset_at, text_lengths, whole_text_range};
use crate::json::{item_views, Json};
use crate::jsonrpc::{encode_message, notification, request, JsonRpcResponse};
use crate::lsp::{DocumentState, FileCheckStatus, LspDiagnostic, LspPosition, LspRange};
use crate::messages::{
    connect_message, did_change_message, did_open_message, did_open_params, document_message,
    document_params, goal_message, goal_params, initialize_message, initialize_params, no_members,
};
use crate::names::NameMap;
use crate::text::{
    decimal_round_trip, decimal_text, join, result_view, same_text,
    signed_decimal_text, utf8_lossy,
};
use crate::uri::uri_to_file_path;
use vstd::prelude::*;
use vstd::string::*;

verus! {

/// The state of the connection to one language server.
pub struct LeanClient {
    /// The ids of the requests that wait for a response.
    pending_requests: NameMap<()>,
    diagnostics_cache: NameMap<Vec<LspDiagnostic>>,
    file_progress: NameMap<FileCheckStatus>,
    documents: NameMap<DocumentState>,
    next_request_id: i64,
    /// The root of the Lake project, if there is one.
    lake_root: Option<String>,
}

impl View for LeanClient {
    type V = ClientView;

    closed spec fn view(&self) -> ClientView {
        ClientView {
            documents: self.documents@,
            diagnostics: self.diagnostics_cache@,
            progress: self.file_progress@,
            pending: self.pending_requests@.dom(),
            next_request_id: self.next_request_id as int,
            lake_root: self.lake_root.deep_view(),
        }
    }
}

impl DeepView for LeanClient {
    type V = ClientView;

    open spec fn deep_view(&self) -> ClientView {
        self@
    }
}

impl LeanClient {
    /// The state of a new connection.
    pub fn new(lake_root: Option<String>) -> (client: LeanClient)
        ensures
            client@.wf(),
            client@ == ClientView::fresh(lake_root.deep_view()),
    {
        let client = LeanClient {
            pending_requests: NameMap::new(),
            diagnostics_cache: NameMap::new(),
            file_progress: NameMap::new(),
            documents: NameMap::new(),
            next_request_id: 1,
            lake_root,
        };
        assert(client@.pending =~= Set::empty());
        client
    }

    /// How the language server is started. `lean_bin` and `lake_bin` name the
    /// programs, where the user has named them.
    pub fn spawn(
        lake_root: Option<String>,
        lean_bin: Option<String>,
        lake_bin: Option<String>,
    ) -> (plan: SpawnPlan)
        ensures
            plan@ == spawn_view(lake_root.deep_view(), lean_bin.deep_view(), lake_bin.deep_view()),
    {
        if lake_root.is_some() && lean_bin.is_none() {
            let program = match lake_bin {
                Some(program) => program,
                None => "lake".to_owned(),
            };
            SpawnPlan { program, argument: "serve".to_owned(), current_dir: lake_root }
        } else {
            let program = match lean_bin {
                Some(program) => program,
                None => "lean".to_owned(),
            };
            SpawnPlan { program, argument: "--server".to_owned(), current_dir: lake_root }
        }
    }

    /// Whether another request can be numbered.
    pub fn can_request(&self) -> (b: bool)
        ensures
            b == (self@.next_request_id < i64::MAX),
    {
        self.next_request_id < i64::MAX
    }

    /// Takes the next id.
    fn allocate_request_id(&mut self) -> (id: i64)
        requires
            old(self)@.wf(),
            old(self)@.next_request_id < i64::MAX,
        ensures
            final(self)@.wf(),
            id == old(self)@.next_request_id,
            final(self)@ == (ClientView {
                next_request_id: old(self)@.next_request_id + 1,
                ..old(self)@
            }),
    {
        let id: i64 = self.next_request_id;
        self.next_request_id = id + 1;
        id
    }

    /// A request that may take two minutes.
    pub fn send_request(&mut self, method: &str, params: Option<Json>) -> (request: PendingRequest)
        requires
            old(self)@.wf(),
            old(self)@.next_request_id < i64::MAX,
        ensures
            final(self)@.wf(),
            (final(self)@, request@) == old(self)@.requested(method@, params.deep_view(), 120),
            !old(self)@.pending.contains(request@.id),
    {
        self.send_request_with_timeout(method, params, 120)
    }

    /// A request that may take the given time. No other request that waits
    /// has its id.
    pub fn send_request_with_timeout(
        &mut self,
        method: &str,
        params: Option<Json>,
        timeout_secs: u64,
    ) -> (request: PendingRequest)
        requires
            old(self)@.wf(),
            old(self)@.next_request_id < i64::MAX,
        ensures
            final(self)@.wf(),
            (final(self)@, request@) == old(self)@.requested(
                method@,
                params.deep_view(),
                timeout_secs,
            ),
            !old(self)@.pending.contains(request@.id),
    {
        let ghost before = self@;
        let number: i64 = self.allocate_request_id();
        let frame = encode_message(&request(number, method, params));
        let id = signed_decimal_text(number);
        proof {
            decimal_round_trip(number as nat);
        }
        self.pending_requests.insert(id.as_str(), ());
        assert(self@.pending =~= before.pending.insert(id@));
        PendingRequest { id, method: method.to_owned(), timeout_secs, frame }
    }

    /// The end of a request.
    pub fn finish_request(&mut self, request: &PendingRequest, outcome: RequestOutcome) -> (result:
        Result<JsonRpcResponse, String>)
        requires
            old(self)@.wf(),
        ensures
            final(self)@.wf(),
            (final(self)@, response_result(result)) == old(self)@.concluded(request@, outcome@),
    {
        match outcome {
            RequestOutcome::Response(response) => Ok(response),
            RequestOutcome::NotSent => Err("Failed to send to lean stdin channel".to_owned()),
            RequestOutcome::Closed => {
                let mut error = "Response channel closed before receiving response for ".to_owned();
                error.append(request.method.as_str());
                Err(error)
            },
            RequestOutcome::TimedOut => {
                let ghost before = self@;
                self.pending_requests.remove(request.id.as_str());
                assert(self@.pending =~= before.pending.remove(request.id@));
                let mut error = "Timed out waiting for Lean response to ".to_owned();
                error.append(request.method.as_str());
                error.append(" (");
                error.append(decimal_text(request.timeout_secs as u128).as_str());
                error.append("s)");
                Err(error)
            },
        }
    }

    /// A notification, in bytes.
    fn send_notification(method: &str, params: Json) -> (frame: Vec<u8>)
        ensures
            frame@ == notification_frame(method@, params@),
    {
        encode_message(&notification(method, Some(params)))
    }

    /// Begins the handshake.
    pub fn initialize(&mut self, process_id: u32) -> (request: PendingRequest)
        requires
            old(self)@.wf(),
            old(self)@.next_request_id < i64::MAX,
        ensures
            final(self)@.wf(),
            (final(self)@, request@) == old(self)@.requested(
                "initialize"@,
                Some(initialize_params(process_id, old(self)@.lake_root)),
                60,
            ),
    {
        let params = initialize_message(process_id, &self.lake_root);
        self.send_request_with_timeout("initialize", Some(params), 60)
    }

    /// Ends the handshake: the bytes that confirm it are to be sent.
    pub fn finish_initialize(&mut self, request: &PendingRequest, outcome: RequestOutcome) -> (
    result: Result<Vec<u8>, String>)
        requires
            old(self)@.wf(),
        ensures
            final(self)@.wf(),
            (final(self)@, bytes_result(result)) == old(self)@.initialized(request@, outcome@),
    {
        match self.finish_request(request, outcome) {
            Ok(response) => match &response.error {
                Some(error) => {
                    let mut text = "Lean initialization failed: ".to_owned();
                    text.append(error.message.as_str());
                    Err(text)
                },
                None => Ok(LeanClient::send_notification("initialized", no_members())),
            },
            Err(error) => Err(error),
        }
    }

    /// Notes that a document has new text.
    fn mark(&mut self, uri: &str)
        requires
            old(self)@.wf(),
        ensures
            final(self)@.wf(),
            final(self)@ == old(self)@.marked(uri@),
    {
        self.file_progress.insert(uri, FileCheckStatus::Processing);
        self.diagnostics_cache.remove(uri);
    }

    /// Begins to open a document: the bytes that tell it are to be sent.
    pub fn open_document(&mut self, uri: &str, text: &str) -> (frame: Vec<u8>)
        requires
            old(self)@.wf(),
        ensures
            final(self)@.wf(),
            final(self)@ == old(self)@.marked(uri@),
            frame@ == notification_frame("textDocument/didOpen"@, did_open_params(uri@, text@)),
    {
        self.mark(uri);
        LeanClient::send_notification("textDocument/didOpen", did_open_message(uri, text))
    }

    /// Notes that a document has been opened.
    pub fn document_opened(&mut self, uri: &str, text: &str)
        requires
            old(self)@.wf(),
        ensures
            final(self)@.wf(),
            final(self)@ == old(self)@.opened(uri@, text@),
    {
        self.documents.insert(
            uri,
            DocumentState {
                uri: uri.to_owned(),
                version: 1,
                text: text.to_owned(),
                rpc_session_id: None,
            },
        );
    }

    /// Begins to close a document: the bytes that tell it are to be sent.
    pub fn close_document(&self, uri: &str) -> (result: Result<Vec<u8>, String>)
        ensures
            bytes_result(result) == (if self@.documents.dom().contains(uri@) {
                Ok::<Seq<u8>, Seq<char>>(
                    notification_frame("textDocument/didClose"@, document_params(uri@)),
                )
            } else {
                Err(not_open(uri@))
            }),
    {
        if !self.documents.contains(uri) {
            return Err(describe_not_open(uri));
        }
        Ok(LeanClient::send_notification("textDocument/didClose", document_message(uri)))
    }

    /// Notes that a document has been closed.
    pub fn document_closed(&mut self, uri: &str)
        requires
            old(self)@.wf(),
        ensures
            final(self)@.wf(),
            final(self)@ == old(self)@.closed(uri@),
    {
        self.documents.remove(uri);
        self.diagnostics_cache.remove(uri);
        self.file_progress.remove(uri);
    }

    /// The session of a document, or the request for one.
    pub fn ensure_rpc_session(&mut self, uri: &str) -> (step: SessionStep)
        requires
            old(self)@.wf(),
            old(self)@.next_request_id < i64::MAX,
        ensures
            final(self)@.wf(),
            (final(self)@, step@) == old(self)@.session(uri@),
    {
        match self.documents.get(uri) {
            Some(document) => match &document.rpc_session_id {
                Some(session) => {
                    return SessionStep::Ready { session: session.clone() };
                },
                None => {},
            },
            None => {},
        }
        let request = self.send_request("$/lean/rpc/connect", Some(connect_message(uri)));
        SessionStep::Connect { request }
    }

    /// The end of the request for a session.
    pub fn finish_rpc_session(
        &mut self,
        uri: &str,
        request: &PendingRequest,
        outcome: RequestOutcome,
    ) -> (result: Result<String, String>)
        requires
            old(self)@.wf(),
        ensures
            final(self)@.wf(),
            (final(self)@, result_view(result)) == old(self)@.connected(uri@, request@, outcome@),
    {
        let response = match self.finish_request(request, outcome) {
            Ok(response) => response,
            Err(error) => {
                return Err(error);
            },
        };
        match &response.error {
            Some(error) => {
                let mut text = "RPC connect failed for ".to_owned();
                text.append(uri);
                text.append(": ");
                text.append(error.message.as_str());
                return Err(text);
            },
            None => {},
        }
        let session = match &response.result {
            Some(result) => match result.text_at("sessionId") {
                Some(session) => session.to_owned(),
                None => {
                    return Err("No sessionId in RPC connect response".to_owned());
                },
            },
            None => {
                return Err("No sessionId in RPC connect response".to_owned());
            },
        };
        let opened = match self.documents.get(uri) {
            Some(document) => Some(document.clone()),
            None => None,
        };
        if let Some(mut document) = opened {
            document.rpc_session_id = Some(session.clone());
            self.documents.insert(uri, document);
        }
        let ghost expected = old(self)@.connected(uri@, request@, outcome@).0;
        assert(self@.documents =~= expected.documents);
        Ok(session)
    }

    /// The byte at which a place stands, given the lines of the text.
    pub fn position_to_offset(lines: &[&str], line: u64, character: u64) -> (offset: usize)
        requires
            offset_at(text_lengths(lines@), line as nat, character as nat) <= usize::MAX,
        ensures
            offset == offset_at(text_lengths(lines@), line as nat, character as nat),
    {
        let ghost lengths = text_lengths(lines@);
        let ghost goal = offset_at(lengths, line as nat, character as nat);
        let mut offset: usize = 0;
        assert(lengths.skip(0) =~= lengths);
        for index in 0..lines.len()
            invariant
                lengths == text_lengths(lines@),
                goal == offset_at(lengths, line as nat, character as nat),
                goal <= usize::MAX,
                index <= line,
                goal == offset + offset_at(
                    lengths.skip(index as int),
                    (line - index) as nat,
                    character as nat,
                ),
        {
            let length: usize = lines[index].as_bytes().len();
            assert(lines@[index as int].spec_bytes().len() == lengths[index as int]);
            if index as u64 == line {
                if character < length as u64 {
                    return offset + character as usize;
                } else {
                    return offset + length;
                }
            }
            assert(lengths.skip(index as int).drop_first() =~= lengths.skip(index + 1));
            offset = offset + length + 1;
        }
        assert(lengths.skip(lines@.len() as int).len() == 0);
        offset
    }

    /// Edits a document: puts new text in the place of a stretch. The bytes
    /// that tell it are to be sent, and the new text is to be written to disk.
    pub fn apply_edit(
        &mut self,
        uri: &str,
        start_line: u64,
        start_character: u64,
        end_line: u64,
        end_character: u64,
        new_text: &str,
    ) -> (result: Result<DocumentChange, String>)
        requires
            old(self)@.wf(),
        ensures
            final(self)@.wf(),
            (final(self)@, result_view(result)) == old(self)@.edit(
                uri@,
                edit_range(start_line, start_character, end_line, end_character),
                new_text@,
            ),
    {
        let range = LspRange {
            start: LspPosition { line: start_line, character: start_character },
            end: LspPosition { line: end_line, character: end_character },
        };
        let ghost before = self@;
        let mut document = match self.documents.get(uri) {
            Some(document) => document.clone(),
            None => {
                return Err(describe_not_open(uri));
            },
        };
        let text = match edit_text(document.text.as_str(), range, new_text) {
            Ok(text) => text,
            Err(error) => {
                return Err(error);
            },
        };
        if document.version == i64::MAX {
            let mut error = "No version is left for ".to_owned();
            error.append(uri);
            return Err(error);
        }
        let version: i64 = document.version + 1;
        document.version = version;
        document.text = text.clone();
        self.documents.insert(uri, document);
        self.mark(uri);
        let ghost expected = before.edit(uri@, range, new_text@).0;
        assert(self@.documents =~= expected.documents);
        let frame = LeanClient::send_notification(
            "textDocument/didChange",
            did_change_message(uri, version, range, new_text),
        );
        Ok(DocumentChange { frame, text, path: uri_to_file_path(uri) })
    }

    /// Replaces all of a document's text.
    pub fn replace_document(&mut self, uri: &str, new_text: &str) -> (result: Result<
        DocumentChange,
        String,
    >)
        requires
            old(self)@.wf(),
        ensures
            final(self)@.wf(),
            (final(self)@, result_view(result)) == old(self)@.replaced(uri@, new_text@),
    {
        let range = match self.documents.get(uri) {
            Some(document) => whole_text_range(document.text.as_str()),
            None => {
                return Err(describe_not_open(uri));
            },
        };
        self.apply_edit(
            uri,
            range.start.line,
            range.start.character,
            range.end.line,
            range.end.character,
            new_text,
        )
    }

    /// The request for the goals at a place.
    pub fn get_goal_state(&mut self, uri: &str, line: u64, character: u64) -> (request:
        PendingRequest)
        requires
            old(self)@.wf(),
            old(self)@.next_request_id < i64::MAX,
        ensures
            final(self)@.wf(),
            (final(self)@, request@) == old(self)@.requested(
                "$/lean/plainGoal"@,
                Some(goal_params(uri@, (LspPosition { line, character }))),
                120,
            ),
    {
        let params = goal_message(uri, LspPosition { line, character });
        self.send_request("$/lean/plainGoal", Some(params))
    }

    /// The end of the request for the goals at a place: the text that tells
    /// them.
    pub fn finish_goal_state(&mut self, request: &PendingRequest, outcome: RequestOutcome) -> (
    result: Result<String, String>)
        requires
            old(self)@.wf(),
        ensures
            final(self)@.wf(),
            ({
                let (client, concluded) = old(self)@.concluded(request@, outcome@);
                &&& final(self)@ == client
                &&& result_view(result) == match concluded {
                    Ok(response) => Ok::<Seq<char>, Seq<char>>(goal_answer(response)),
                    Err(error) => Err(error),
                }
            }),
    {
        match self.finish_request(request, outcome) {
            Ok(response) => Ok(describe_goals(&response)),
            Err(error) => Err(error),
        }
    }

    /// The diagnostics of a document.
    pub fn get_diagnostics(&self, uri: &str) -> (diagnostics: Vec<LspDiagnostic>)
        ensures
            diagnostics.deep_view() == self@.diagnostics_at(uri@),
    {
        let mut diagnostics: Vec<LspDiagnostic> = Vec::new();
        match self.diagnostics_cache.get(uri) {
            Some(cached) => {
                for i in 0..cached.len()
                    invariant
                        diagnostics@ == cached@.take(i as int),
                {
                    diagnostics.push(cached[i].clone());
                    assert(cached@.take(i as int).push(cached@[i as int]) =~= cached@.take(i + 1));
                }
                assert(cached@.take(cached@.len() as int) =~= cached@);
            },
            None => {},
        }
        assert(diagnostics.deep_view() =~= self@.diagnostics_at(uri@));
        diagnostics
    }

    /// Stores the diagnostics of a document in the place of those that it had.
    pub fn store_diagnostics(&mut self, uri: &str, diagnostics: Vec<LspDiagnostic>)
        requires
            old(self)@.wf(),
        ensures
            final(self)@.wf(),
            final(self)@ == old(self)@.diagnosed(uri@, diagnostics.deep_view()),
    {
        self.diagnostics_cache.insert(uri, diagnostics);
    }

    /// How far Lean is with a document.
    pub fn get_file_progress(&self, uri: &str) -> (status: Option<FileCheckStatus>)
        ensures
            status == self@.progress_at(uri@),
    {
        match self.file_progress.get(uri) {
            Some(status) => Some(*status),
            None => None,
        }
    }

    /// What the wait for a document's diagnostics comes to; `expired` tells
    /// whether the time is over.
    pub fn wait_for_diagnostics(&self, uri: &str, expired: bool) -> (step: WaitStep)
        ensures
            step == self@.waited(uri@, expired),
    {
        match self.get_file_progress(uri) {
            Some(FileCheckStatus::Checked) => WaitStep::Settle,
            _ => if expired {
                WaitStep::GiveUp
            } else {
                WaitStep::Wait
            },
        }
    }

    /// The text of a document, if it is open.
    pub fn get_document_text(&self, uri: &str) -> (text: Option<String>)
        ensures
            text.deep_view() == (if self@.documents.dom().contains(uri@) {
                Some(self@.documents[uri@].text)
            } else {
                None
            }),
    {
        match self.documents.get(uri) {
            Some(document) => Some(document.text.clone()),
            None => None,
        }
    }

    /// Whether a document is open.
    pub fn is_document_open(&self, uri: &str) -> (b: bool)
        ensures
            b == self@.documents.dom().contains(uri@),
    {
        self.documents.contains(uri)
    }

    /// Takes the body of a message of the language server. One that is no JSON
    /// is passed over.
    pub fn receive(&mut self, body: &[u8]) -> (incoming: Incoming)
        requires
            old(self)@.wf(),
        ensures
            final(self)@.wf(),
            (final(self)@, incoming@) == old(self)@.read(body@),
    {
        let text = utf8_lossy(body);
        match Json::parse(text.as_str()) {
            Ok(message) => self.handle_message(&message),
            Err(_) => Incoming::Nothing,
        }
    }

    /// Takes a message of the language server.
    pub fn handle_message(&mut self, message: &Json) -> (incoming: Incoming)
        requires
            old(self)@.wf(),
        ensures
            final(self)@.wf(),
            (final(self)@, incoming@) == old(self)@.received(message@),
    {
        let id = match message.get("id") {
            Some(id) => if id.is_null() {
                None
            } else {
                Some(id)
            },
            None => None,
        };
        match id {
            Some(id) => {
                if message.get("result").is_some() || message.get("error").is_some() {
                    return self.handle_response(message);
                }
                if message.get("method").is_some() {
                    let response = JsonRpcResponse::success(id.clone(), Json::Null);
                    return Incoming::Answer { frame: encode_message(&response.to_json()) };
                }
            },
            None => {},
        }
        match message.text_at("method") {
            Some(method) => self.handle_notification(method, message.get("params")),
            None => Incoming::Nothing,
        }
    }

    /// Takes a response of the language server.
    fn handle_response(&mut self, message: &Json) -> (incoming: Incoming)
        requires
            old(self)@.wf(),
        ensures
            final(self)@.wf(),
            (final(self)@, incoming@) == old(self)@.answered(message@),
    {
        let response = match JsonRpcResponse::from_json(message) {
            Some(response) => response,
            None => {
                return Incoming::Nothing;
            },
        };
        let id = describe_id(&response.id);
        let ghost before = self@;
        if !self.pending_requests.contains(id.as_str()) {
            return Incoming::Nothing;
        }
        self.pending_requests.remove(id.as_str());
        assert(self@.pending =~= before.pending.remove(id@));
        Incoming::Resolved { id, response }
    }

    /// Takes a notification of the language server.
    fn handle_notification(&mut self, method: &str, params: Option<&Json>) -> (incoming: Incoming)
        requires
            old(self)@.wf(),
        ensures
            final(self)@.wf(),
            (final(self)@, incoming@) == old(self)@.notified(method@, params.deep_view()),
    {
        let params = match params {
            Some(params) => params,
            None => {
                return Incoming::Nothing;
            },
        };
        if same_text(method, "textDocument/publishDiagnostics") {
            let uri = match params.text_at("uri") {
                Some(uri) => uri.to_owned(),
                None => String::new(),
            };
            let payload = match params.get("diagnostics") {
                Some(payload) => Some(payload.clone()),
                None => None,
            };
            Incoming::Diagnostics { uri, payload }
        } else if same_text(method, "$/lean/fileProgress") {
            let uri = match params.get("textDocument") {
                Some(document) => match document.text_at("uri") {
                    Some(uri) => uri.to_owned(),
                    None => String::new(),
                },
                None => String::new(),
            };
            let processing: usize = match params.get("processing") {
                Some(stretches) => match stretches.as_array() {
                    Some(stretches) => stretches.len(),
                    None => 0,
                },
                None => 0,
            };
            let status = if processing == 0 {
                FileCheckStatus::Checked
            } else {
                FileCheckStatus::Processing
            };
            self.file_progress.insert(uri.as_str(), status);
            Incoming::Progress
        } else {
            Incoming::Nothing
        }
    }
}

/// The text that tells that no other request can be numbered.
pub fn describe_no_request_id() -> (text: String)
    ensures
        text@ == no_request_id(),
{
    "No request id is left".to_owned()
}

/// The text that tells that a document is not open.
pub fn describe_not_open(uri: &str) -> (text: String)
    ensures
        text@ == not_open(uri@),
{
    let mut text = "Document not open: ".to_owned();
    text.append(uri);
    text
}

/// The text by which a response's id is matched with a request's.
fn describe_id(id: &Json) -> (text: String)
    ensures
        text@ == id_text(id@),
{
    match id {
        Json::Unsigned(n) => decimal_text(*n as u128),
        Json::Signed(n) => signed_decimal_text(*n),
        Json::String(text) => text.clone(),
        _ => id.to_text(),
    }
}

/// The text that tells the goals that a response holds.
pub fn describe_goals(response: &JsonRpcResponse) -> (text: String)
    ensures
        text@ == goal_answer(response@),
{
    match &response.error {
        Some(error) => {
            let mut text = "No goal at this position: ".to_owned();
            text.append(error.message.as_str());
            return text;
        },
        None => {},
    }
    let result = match &response.result {
        Some(result) => result,
        None => {
            return "No result from Lean.".to_owned();
        },
    };
    if result.is_null() {
        return "No goal at this position.".to_owned();
    }
    match result.text_at("rendered") {
        Some(text) => {
            return text.to_owned();
        },
        None => {},
    }
    let goals = match result.get("goals") {
        Some(goals) => goals.as_array(),
        None => None,
    };
    match goals {
        Some(goals) => {
            if goals.len() == 0 {
                return "No goals.".to_owned();
            }
            let ghost views = item_views(goals@);
            let mut parts: Vec<String> = Vec::new();
            for i in 0..goals.len()
                invariant
                    views == item_views(goals@),
                    parts@.len() == i,
                    forall|k: int|
                        0 <= k < i ==> (#[trigger] parts@[k])@ == numbered_goal(views, k),
            {
                let mut part = "Goal ".to_owned();
                part.append(decimal_text(i as u128 + 1).as_str());
                part.append(":\n");
                match goals[i].as_str() {
                    Some(text) => part.append(text),
                    None => part.append(goals[i].to_text().as_str()),
                }
                assert(views[i as int] == goals@[i as int]@);
                parts.push(part);
            }
            assert(parts.deep_view() =~= Seq::new(
                views.len(),
                |i: int| numbered_goal(views, i),
            ));
            join(&parts, "\n\n")
        },
        None => result.to_text_pretty(),
    }
}

}
