//! The model of the connection to one language server: what is known of it,
//! and how that changes with each message.

use crate::document::{edited, whole_range};
use crate::json::{json_parse, json_text, json_text_pretty, Json, JsonView};
use crate::jsonrpc::{
    message_frame, notification_view, request_view, response_of, success_view, JsonRpcResponse,
    ResponseView,
};
use crate::lsp::{DiagnosticView, DocumentView, FileCheckStatus, LspPosition, LspRange};
use crate::messages::{connect_params, did_change_params, empty_object};
use crate::text::{decimal, joined, lossy_text, parsed_decimal, signed_decimal};
use crate::uri::uri_path;
use vstd::prelude::*;

verus! {

/// How a language server is started.
#[derive(Debug)]
pub struct SpawnPlan {
    pub program: String,
    pub argument: String,
    pub current_dir: Option<String>,
}

/// The model of how a language server is started.
pub struct SpawnView {
    pub program: Seq<char>,
    pub argument: Seq<char>,
    pub current_dir: Option<Seq<char>>,
}

impl View for SpawnPlan {
    type V = SpawnView;

    open spec fn view(&self) -> SpawnView {
        SpawnView {
            program: self.program@,
            argument: self.argument@,
            current_dir: self.current_dir.deep_view(),
        }
    }
}

impl DeepView for SpawnPlan {
    type V = SpawnView;

    open spec fn deep_view(&self) -> SpawnView {
        self@
    }
}

/// How a language server is started: by `lake serve` in the root of a Lake
/// project, unless a Lean program is named, and else by `lean --server`.
pub open spec fn spawn_view(
    lake_root: Option<Seq<char>>,
    lean_bin: Option<Seq<char>>,
    lake_bin: Option<Seq<char>>,
) -> SpawnView {
    if lake_root is Some && lean_bin is None {
        SpawnView {
            program: match lake_bin {
                Some(program) => program,
                None => "lake"@,
            },
            argument: "serve"@,
            current_dir: lake_root,
        }
    } else {
        SpawnView {
            program: match lean_bin {
                Some(program) => program,
                None => "lean"@,
            },
            argument: "--server"@,
            current_dir: lake_root,
        }
    }
}

/// A request that is to be sent and then waits for its response.
#[derive(Debug)]
pub struct PendingRequest {
    /// The text of the request's id.
    pub id: String,
    pub method: String,
    pub timeout_secs: u64,
    /// The bytes to send.
    pub frame: Vec<u8>,
}

/// The model of a request that is to be sent.
pub struct RequestView {
    pub id: Seq<char>,
    pub method: Seq<char>,
    pub timeout_secs: u64,
    pub frame: Seq<u8>,
}

impl View for PendingRequest {
    type V = RequestView;

    open spec fn view(&self) -> RequestView {
        RequestView {
            id: self.id@,
            method: self.method@,
            timeout_secs: self.timeout_secs,
            frame: self.frame@,
        }
    }
}

impl DeepView for PendingRequest {
    type V = RequestView;

    open spec fn deep_view(&self) -> RequestView {
        self@
    }
}

impl Clone for PendingRequest {
    fn clone(&self) -> (copy: Self)
        ensures
            copy@ == self@,
    {
        PendingRequest {
            id: self.id.clone(),
            method: self.method.clone(),
            timeout_secs: self.timeout_secs,
            frame: self.frame.clone(),
        }
    }
}

/// What became of a request.
#[derive(Debug)]
pub enum RequestOutcome {
    /// The response came.
    Response(JsonRpcResponse),
    /// The request could not be sent.
    NotSent,
    /// The connection was given up before a response came.
    Closed,
    /// No response came in time.
    TimedOut,
}

/// The model of what became of a request.
pub enum OutcomeView {
    Response(ResponseView),
    NotSent,
    Closed,
    TimedOut,
}

impl View for RequestOutcome {
    type V = OutcomeView;

    open spec fn view(&self) -> OutcomeView {
        match self {
            RequestOutcome::Response(response) => OutcomeView::Response(response@),
            RequestOutcome::NotSent => OutcomeView::NotSent,
            RequestOutcome::Closed => OutcomeView::Closed,
            RequestOutcome::TimedOut => OutcomeView::TimedOut,
        }
    }
}

/// What follows from a message of the language server.
#[derive(Debug)]
pub enum Incoming {
    /// Nothing is to be done.
    Nothing,
    /// The pending request with this id has its response.
    Resolved { id: String, response: JsonRpcResponse },
    /// The server asked for something: these bytes are to be sent.
    Answer { frame: Vec<u8> },
    /// The diagnostics of a document are to be stored, if they can be read.
    Diagnostics { uri: String, payload: Option<Json> },
    /// It was noted how far Lean is with a document.
    Progress,
}

/// The model of what follows from a message.
pub enum IncomingView {
    Nothing,
    Resolved { id: Seq<char>, response: ResponseView },
    Answer { frame: Seq<u8> },
    Diagnostics { uri: Seq<char>, payload: Option<JsonView> },
    Progress,
}

impl View for Incoming {
    type V = IncomingView;

    open spec fn view(&self) -> IncomingView {
        match self {
            Incoming::Nothing => IncomingView::Nothing,
            Incoming::Resolved { id, response } => IncomingView::Resolved {
                id: id@,
                response: response@,
            },
            Incoming::Answer { frame } => IncomingView::Answer { frame: frame@ },
            Incoming::Diagnostics { uri, payload } => IncomingView::Diagnostics {
                uri: uri@,
                payload: payload.deep_view(),
            },
            Incoming::Progress => IncomingView::Progress,
        }
    }
}

/// An edit that was made: the bytes to send, the whole new text, and the file
/// that is to hold it, if the document has one.
#[derive(Debug)]
pub struct DocumentChange {
    pub frame: Vec<u8>,
    pub text: String,
    pub path: Option<String>,
}

/// The model of an edit that was made.
pub struct ChangeView {
    pub frame: Seq<u8>,
    pub text: Seq<char>,
    pub path: Option<Seq<char>>,
}

impl View for DocumentChange {
    type V = ChangeView;

    open spec fn view(&self) -> ChangeView {
        ChangeView { frame: self.frame@, text: self.text@, path: self.path.deep_view() }
    }
}

impl DeepView for DocumentChange {
    type V = ChangeView;

    open spec fn deep_view(&self) -> ChangeView {
        self@
    }
}

/// What the session of a document needs.
#[derive(Debug)]
pub enum SessionStep {
    /// The document has a session.
    Ready { session: String },
    /// A session is to be asked for.
    Connect { request: PendingRequest },
}

/// The model of what the session of a document needs.
pub enum SessionView {
    Ready { session: Seq<char> },
    Connect { request: RequestView },
}

impl View for SessionStep {
    type V = SessionView;

    open spec fn view(&self) -> SessionView {
        match self {
            SessionStep::Ready { session } => SessionView::Ready { session: session@ },
            SessionStep::Connect { request } => SessionView::Connect { request: request@ },
        }
    }
}

/// What the wait for a document's diagnostics comes to.
#[derive(Debug, Clone, Copy, PartialEq, Eq, Structural)]
pub enum WaitStep {
    /// Lean is done: the last diagnostics are due in a moment.
    Settle,
    /// The time is over.
    GiveUp,
    /// Lean is still at work.
    Wait,
}

/// The model of the state of a connection.
pub struct ClientView {
    pub documents: Map<Seq<char>, DocumentView>,
    pub diagnostics: Map<Seq<char>, Seq<DiagnosticView>>,
    pub progress: Map<Seq<char>, FileCheckStatus>,
    /// The ids of the requests that wait for a response.
    pub pending: Set<Seq<char>>,
    pub next_request_id: int,
    pub lake_root: Option<Seq<char>>,
}

/// The text by which a response's id is matched with a request's.
pub open spec fn id_text(id: JsonView) -> Seq<char> {
    match id {
        JsonView::Integer(n) => signed_decimal(n),
        JsonView::String(text) => text,
        _ => json_text(id),
    }
}

/// The text that tells that a document is not open.
pub open spec fn not_open(uri: Seq<char>) -> Seq<char> {
    "Document not open: "@ + uri
}

/// The text that tells that a document's version cannot be counted up.
pub open spec fn no_version(uri: Seq<char>) -> Seq<char> {
    "No version is left for "@ + uri
}

/// The text that tells that no other request can be numbered.
pub open spec fn no_request_id() -> Seq<char> {
    "No request id is left"@
}

/// A notification to the language server, in bytes.
pub open spec fn notification_frame(method: Seq<char>, params: JsonView) -> Seq<u8> {
    message_frame(notification_view(method, Some(params)))
}

impl ClientView {
    /// The state of a new connection.
    pub open spec fn fresh(lake_root: Option<Seq<char>>) -> ClientView {
        ClientView {
            documents: Map::empty(),
            diagnostics: Map::empty(),
            progress: Map::empty(),
            pending: Set::empty(),
            next_request_id: 1,
            lake_root,
        }
    }

    /// Every pending request has the id of an earlier one.
    pub open spec fn wf(self) -> bool {
        &&& self.next_request_id >= 1
        &&& forall|id: Seq<char>| #[trigger]
            self.pending.contains(id) ==> parsed_decimal(id) is Some && 1 <= parsed_decimal(id)->0
                < self.next_request_id
    }

    /// The state when a document has new text: Lean is at work on it, and what
    /// was found in the old text is void.
    pub open spec fn marked(self, uri: Seq<char>) -> ClientView {
        ClientView {
            progress: self.progress.insert(uri, FileCheckStatus::Processing),
            diagnostics: self.diagnostics.remove(uri),
            ..self
        }
    }

    /// A new request: it takes the next id, and waits.
    pub open spec fn requested(
        self,
        method: Seq<char>,
        params: Option<JsonView>,
        timeout_secs: u64,
    ) -> (ClientView, RequestView) {
        let id = signed_decimal(self.next_request_id);
        (
            ClientView {
                pending: self.pending.insert(id),
                next_request_id: self.next_request_id + 1,
                ..self
            },
            RequestView {
                id,
                method,
                timeout_secs,
                frame: message_frame(
                    request_view(JsonView::Integer(self.next_request_id), method, params),
                ),
            },
        )
    }

    /// The end of a request: its response, or why there is none. A request
    /// that was not answered in time waits no longer.
    pub open spec fn concluded(self, request: RequestView, outcome: OutcomeView) -> (
        ClientView,
        Result<ResponseView, Seq<char>>,
    ) {
        match outcome {
            OutcomeView::Response(response) => (self, Ok(response)),
            OutcomeView::NotSent => (self, Err("Failed to send to lean stdin channel"@)),
            OutcomeView::Closed => (
                self,
                Err("Response channel closed before receiving response for "@ + request.method),
            ),
            OutcomeView::TimedOut => (
                ClientView { pending: self.pending.remove(request.id), ..self },
                Err(
                    "Timed out waiting for Lean response to "@ + request.method + " ("@ + decimal(
                        request.timeout_secs as nat,
                    ) + "s)"@,
                ),
            ),
        }
    }

    /// The end of the handshake: the bytes that confirm it, or why it failed.
    pub open spec fn initialized(self, request: RequestView, outcome: OutcomeView) -> (
        ClientView,
        Result<Seq<u8>, Seq<char>>,
    ) {
        let (client, result) = self.concluded(request, outcome);
        (
            client,
            match result {
                Ok(response) => match response.error {
                    Some(error) => Err("Lean initialization failed: "@ + error.message),
                    None => Ok(notification_frame("initialized"@, empty_object())),
                },
                Err(error) => Err(error),
            },
        )
    }

    /// The state when a document has been opened.
    pub open spec fn opened(self, uri: Seq<char>, text: Seq<char>) -> ClientView {
        ClientView {
            documents: self.documents.insert(
                uri,
                DocumentView { uri, version: 1, text, rpc_session_id: None },
            ),
            ..self
        }
    }

    /// The state when a document has been closed: nothing of it is left.
    pub open spec fn closed(self, uri: Seq<char>) -> ClientView {
        ClientView {
            documents: self.documents.remove(uri),
            diagnostics: self.diagnostics.remove(uri),
            progress: self.progress.remove(uri),
            ..self
        }
    }

    /// What the session of a document needs.
    pub open spec fn session(self, uri: Seq<char>) -> (ClientView, SessionView) {
        if self.documents.dom().contains(uri) && self.documents[uri].rpc_session_id is Some {
            (self, SessionView::Ready { session: self.documents[uri].rpc_session_id->0 })
        } else {
            let (client, request) = self.requested(
                "$/lean/rpc/connect"@,
                Some(connect_params(uri)),
                120,
            );
            (client, SessionView::Connect { request })
        }
    }

    /// The end of the request for a session: the session, which the document
    /// keeps, or why there is none.
    pub open spec fn connected(
        self,
        uri: Seq<char>,
        request: RequestView,
        outcome: OutcomeView,
    ) -> (ClientView, Result<Seq<char>, Seq<char>>) {
        let (client, result) = self.concluded(request, outcome);
        match result {
            Ok(response) => match response.error {
                Some(error) => (
                    client,
                    Err("RPC connect failed for "@ + uri + ": "@ + error.message),
                ),
                None => match session_of(response.result) {
                    Some(session) => (
                        if client.documents.dom().contains(uri) {
                            ClientView {
                                documents: client.documents.insert(
                                    uri,
                                    DocumentView {
                                        rpc_session_id: Some(session),
                                        ..client.documents[uri]
                                    },
                                ),
                                ..client
                            }
                        } else {
                            client
                        },
                        Ok(session),
                    ),
                    None => (client, Err("No sessionId in RPC connect response"@)),
                },
            },
            Err(error) => (client, Err(error)),
        }
    }

    /// An edit of a document: it has the new text and the next version, and
    /// counts as not checked; or why the edit is refused, and then nothing
    /// changes.
    pub open spec fn edit(self, uri: Seq<char>, range: LspRange, new_text: Seq<char>) -> (
        ClientView,
        Result<ChangeView, Seq<char>>,
    ) {
        if !self.documents.dom().contains(uri) {
            (self, Err(not_open(uri)))
        } else {
            let document = self.documents[uri];
            match edited(document.text, range, new_text) {
                Ok(text) => if self.can_count(uri) {
                    (
                        ClientView {
                            documents: self.documents.insert(
                                uri,
                                DocumentView { version: document.version + 1, text, ..document },
                            ),
                            ..self.marked(uri)
                        },
                        Ok(
                            ChangeView {
                                frame: notification_frame(
                                    "textDocument/didChange"@,
                                    did_change_params(uri, document.version + 1, range, new_text),
                                ),
                                text,
                                path: uri_path(uri),
                            },
                        ),
                    )
                } else {
                    (self, Err(no_version(uri)))
                },
                Err(error) => (self, Err(error)),
            }
        }
    }

    /// A document's text replaced by another: an edit of all of it.
    pub open spec fn replaced(self, uri: Seq<char>, new_text: Seq<char>) -> (
        ClientView,
        Result<ChangeView, Seq<char>>,
    ) {
        if !self.documents.dom().contains(uri) {
            (self, Err(not_open(uri)))
        } else {
            self.edit(uri, whole_range(self.documents[uri].text), new_text)
        }
    }

    /// Whether a document's version can still be counted up.
    pub open spec fn can_count(self, uri: Seq<char>) -> bool {
        self.documents.dom().contains(uri) ==> self.documents[uri].version < i64::MAX
    }

    /// What follows from the body of a message of the language server. One that
    /// is no JSON is passed over.
    pub open spec fn read(self, body: Seq<u8>) -> (ClientView, IncomingView) {
        match json_parse(lossy_text(body)) {
            Ok(message) => self.received(message),
            Err(_) => (self, IncomingView::Nothing),
        }
    }

    /// What follows from a message of the language server. One with an id and
    /// a result or an error is a response, one with an id and a method is
    /// answered, and one with a method alone is a notification.
    pub open spec fn received(self, message: JsonView) -> (ClientView, IncomingView) {
        let has_id = message.get("id"@) is Some && message.get("id"@) != Some(JsonView::Null);
        if has_id && (message.get("result"@) is Some || message.get("error"@) is Some) {
            self.answered(message)
        } else if has_id && message.get("method"@) is Some {
            (
                self,
                IncomingView::Answer {
                    frame: message_frame(
                        success_view(message.get("id"@)->0, JsonView::Null).json(),
                    ),
                },
            )
        } else {
            match message.text_at("method"@) {
                Some(method) => self.notified(method, message.get("params"@)),
                None => (self, IncomingView::Nothing),
            }
        }
    }

    /// A response: the request with its id has it and waits no longer; if none
    /// with that id waits, nothing follows.
    pub open spec fn answered(self, message: JsonView) -> (ClientView, IncomingView) {
        match response_of(message) {
            Some(response) => {
                let id = id_text(response.id);
                if self.pending.contains(id) {
                    (
                        ClientView { pending: self.pending.remove(id), ..self },
                        IncomingView::Resolved { id, response },
                    )
                } else {
                    (self, IncomingView::Nothing)
                }
            },
            None => (self, IncomingView::Nothing),
        }
    }

    /// A notification: diagnostics are to be stored, progress is noted, and
    /// nothing follows from another.
    pub open spec fn notified(self, method: Seq<char>, params: Option<JsonView>) -> (
        ClientView,
        IncomingView,
    ) {
        match params {
            Some(params) => if method == "textDocument/publishDiagnostics"@ {
                (
                    self,
                    IncomingView::Diagnostics {
                        uri: text_or_empty(params.text_at("uri"@)),
                        payload: params.get("diagnostics"@),
                    },
                )
            } else if method == "$/lean/fileProgress"@ {
                (
                    ClientView {
                        progress: self.progress.insert(progress_uri(params), progress_of(params)),
                        ..self
                    },
                    IncomingView::Progress,
                )
            } else {
                (self, IncomingView::Nothing)
            },
            None => (self, IncomingView::Nothing),
        }
    }

    /// The state when the diagnostics of a document are known.
    pub open spec fn diagnosed(
        self,
        uri: Seq<char>,
        diagnostics: Seq<DiagnosticView>,
    ) -> ClientView {
        ClientView { diagnostics: self.diagnostics.insert(uri, diagnostics), ..self }
    }

    /// How far Lean is with a document, if it has told.
    pub open spec fn progress_at(self, uri: Seq<char>) -> Option<FileCheckStatus> {
        if self.progress.dom().contains(uri) {
            Some(self.progress[uri])
        } else {
            None
        }
    }

    /// The diagnostics of a document: none, if none are known.
    pub open spec fn diagnostics_at(self, uri: Seq<char>) -> Seq<DiagnosticView> {
        if self.diagnostics.dom().contains(uri) {
            self.diagnostics[uri]
        } else {
            Seq::empty()
        }
    }

    /// What the wait for a document's diagnostics comes to: Lean being done
    /// counts first, and then the time.
    pub open spec fn waited(self, uri: Seq<char>, expired: bool) -> WaitStep {
        if self.progress_at(uri) == Some(FileCheckStatus::Checked) {
            WaitStep::Settle
        } else if expired {
            WaitStep::GiveUp
        } else {
            WaitStep::Wait
        }
    }
}

/// A text, or the empty one where there is none.
pub open spec fn text_or_empty(text: Option<Seq<char>>) -> Seq<char> {
    match text {
        Some(text) => text,
        None => Seq::empty(),
    }
}

/// The document whose progress is told.
pub open spec fn progress_uri(params: JsonView) -> Seq<char> {
    match params.get("textDocument"@) {
        Some(document) => text_or_empty(document.text_at("uri"@)),
        None => Seq::empty(),
    }
}

/// The progress that is told: a document without stretches to be processed is
/// checked.
pub open spec fn progress_of(params: JsonView) -> FileCheckStatus {
    match params.get("processing"@) {
        Some(JsonView::Array(stretches)) => if stretches.len() > 0 {
            FileCheckStatus::Processing
        } else {
            FileCheckStatus::Checked
        },
        _ => FileCheckStatus::Checked,
    }
}

/// The session that a result tells.
pub open spec fn session_of(result: Option<JsonView>) -> Option<Seq<char>> {
    match result {
        Some(result) => result.text_at("sessionId"@),
        None => None,
    }
}

/// The text of a goal: of a string itself, and of another value as JSON.
pub open spec fn goal_text(goal: JsonView) -> Seq<char> {
    match goal {
        JsonView::String(text) => text,
        _ => json_text(goal),
    }
}

/// A goal with its number, counted from one.
pub open spec fn numbered_goal(goals: Seq<JsonView>, i: int) -> Seq<char> {
    "Goal "@ + decimal((i + 1) as nat) + ":\n"@ + goal_text(goals[i])
}

/// The text of the goals at a place: as Lean has rendered them, or numbered,
/// or, of a result of another form, the result as JSON.
pub open spec fn goals_text(result: JsonView) -> Seq<char> {
    if result is Null {
        "No goal at this position."@
    } else {
        match result.text_at("rendered"@) {
            Some(text) => text,
            None => match result.get("goals"@) {
                Some(JsonView::Array(goals)) => if goals.len() == 0 {
                    "No goals."@
                } else {
                    joined(Seq::new(goals.len(), |i: int| numbered_goal(goals, i)), "\n\n"@)
                },
                _ => json_text_pretty(result),
            },
        }
    }
}

/// The text that tells the goals that a response holds.
pub open spec fn goal_answer(response: ResponseView) -> Seq<char> {
    match response.error {
        Some(error) => "No goal at this position: "@ + error.message,
        None => match response.result {
            Some(result) => goals_text(result),
            None => "No result from Lean."@,
        },
    }
}

/// The stretch between two places.
pub open spec fn edit_range(
    start_line: u64,
    start_character: u64,
    end_line: u64,
    end_character: u64,
) -> LspRange {
    LspRange {
        start: LspPosition { line: start_line, character: start_character },
        end: LspPosition { line: end_line, character: end_character },
    }
}

/// The model of a response, or of the text that tells why there is none.
pub open spec fn response_result(result: Result<JsonRpcResponse, String>) -> Result<
    ResponseView,
    Seq<char>,
> {
    match result {
        Ok(response) => Ok(response@),
        Err(error) => Err(error@),
    }
}

/// The model of bytes, or of the text that tells why there are none.
pub open spec fn bytes_result(result: Result<Vec<u8>, String>) -> Result<Seq<u8>, Seq<char>> {
    match result {
        Ok(bytes) => Ok(bytes@),
        Err(error) => Err(error@),
    }
}

}
