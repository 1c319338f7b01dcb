//! The model of the server: which language servers run, which documents are
//! open in them, and how a call of a tool goes on step by step.

use crate::client_model::{
    goal_answer, no_request_id, not_open, notification_frame, ChangeView, ClientView,
    IncomingView, OutcomeView, RequestView, SessionView, WaitStep,
};
use crate::json::{json_parse, json_text, object_view, JsonView};
use crate::jsonrpc::{
    failure_view, success_view, ResponseView, INTERNAL_ERROR, METHOD_NOT_FOUND, PARSE_ERROR,
};
use crate::lsp::{DiagnosticView, FileCheckStatus, LspPosition, LspRange};
use crate::messages::{
    did_open_params, document_params, empty_object, goal_params, initialize_params, single,
};
use crate::steps::{
    Action, ActionView, Event, EventView, Progress, ProgressView, Stage, StageView, Target,
};
use crate::table::{distinct_names, listing_set, listing_without, members};
use crate::text::{decimal, joined, line_count, trimmed};
use crate::tools::{call_of, tool_list, Call};
use crate::uri::{is_absolute, path_uri, uri_path};
use vstd::prelude::*;
use vstd::utf8::*;

verus! {

/// The name of a workspace in what is told of it.
pub open spec fn label(key: Seq<char>) -> Seq<char> {
    if key.len() == 0 {
        "standalone"@
    } else {
        key
    }
}

/// The root of the Lake project of a workspace: the workspace with the empty
/// key has none.
pub open spec fn root_of(key: Seq<char>) -> Option<Seq<char>> {
    if key.len() == 0 {
        None
    } else {
        Some(key)
    }
}

/// The entries that mark the root of a Lake project, in the order in which
/// they are looked for.
pub open spec fn candidate_name(candidate: usize) -> Seq<char> {
    if candidate == 0 {
        "lakefile.lean"@
    } else if candidate == 1 {
        "lakefile.toml"@
    } else {
        "lakefile"@
    }
}

/// What is told when a document has been opened.
pub open spec fn opened_answer(target: Target<Seq<char>>, key: Seq<char>) -> Seq<char> {
    "Document "@ + target.uri + " opened successfully"@ + (if target.from_disk {
        " ("@ + decimal(encode_utf8(target.text).len()) + " bytes)"@
    } else {
        Seq::empty()
    }) + ". (workspace: "@ + label(key) + ")"@
}

/// What is told when a document was open already.
pub open spec fn refreshed_answer(target: Target<Seq<char>>, key: Seq<char>) -> Seq<char> {
    "Document "@ + target.uri + " was already open; content "@ + (if target.from_disk {
        "refreshed from disk"@
    } else {
        "replaced"@
    }) + ". (workspace: "@ + label(key) + ")"@
}

/// What is told when a document has been edited.
pub open spec fn edited_answer(uri: Seq<char>, text: Seq<char>) -> Seq<char> {
    "Edit applied to "@ + uri + ". Document now has "@ + decimal(line_count(text)) + " lines."@
}

/// What is told when a document's text has been replaced.
pub open spec fn replaced_answer(uri: Seq<char>, text: Seq<char>) -> Seq<char> {
    "Document "@ + uri + " replaced. Document now has "@ + decimal(line_count(text)) + " lines."@
}

/// The name of a diagnostic's severity.
pub open spec fn severity_name(severity: Option<i64>) -> Seq<char> {
    if severity == Some(1i64) {
        "error"@
    } else if severity == Some(2i64) {
        "warning"@
    } else if severity == Some(3i64) {
        "info"@
    } else if severity == Some(4i64) {
        "hint"@
    } else {
        "unknown"@
    }
}

/// The line that tells a diagnostic.
pub open spec fn diagnostic_line(diagnostic: DiagnosticView) -> Seq<char> {
    let start = diagnostic.range.start;
    let end = diagnostic.range.end;
    "["@ + severity_name(diagnostic.severity) + "] "@ + decimal(start.line as nat) + ":"@ + decimal(
        start.character as nat,
    ) + "-"@ + decimal(end.line as nat) + ":"@ + decimal(end.character as nat) + ": "@
        + diagnostic.message
}

/// The text that tells some diagnostics.
pub open spec fn diagnostics_text(diagnostics: Seq<DiagnosticView>) -> Seq<char> {
    if diagnostics.len() == 0 {
        "No diagnostics (errors/warnings) found."@
    } else {
        joined(
            Seq::new(diagnostics.len(), |i: int| diagnostic_line(diagnostics[i])),
            "\n"@,
        )
    }
}

/// The text that tells how far Lean is with a document.
pub open spec fn status_text(status: Option<FileCheckStatus>) -> Seq<char> {
    match status {
        Some(FileCheckStatus::Checked) => "checked — Lean has finished processing this file."@,
        Some(FileCheckStatus::Processing) => "processing — Lean is still checking this file."@,
        None => "unknown — no file progress information available yet."@,
    }
}

/// The word that tells how far Lean is with a document.
pub open spec fn status_word(status: Option<FileCheckStatus>) -> Seq<char> {
    match status {
        Some(FileCheckStatus::Checked) => "checked"@,
        Some(FileCheckStatus::Processing) => "processing"@,
        None => "unknown"@,
    }
}

/// The text that tells that bytes could not be sent.
pub open spec fn not_sent() -> Seq<char> {
    "Failed to send notification to lean stdin channel"@
}

/// A call that is done.
pub open spec fn done(text: Seq<char>) -> ProgressView {
    Progress::Done { result: Ok(text) }
}

/// A call that has failed.
pub open spec fn failed(error: Seq<char>) -> ProgressView {
    Progress::Done { result: Err(error) }
}

/// A call that waits for something.
pub open spec fn ask(action: ActionView, stage: StageView) -> ProgressView {
    Progress::Ask { action, stage }
}

/// The model of the language servers and of the documents that are open in
/// them. The workspace of a language server is its key: the root of a Lake
/// project, or nothing for the server that serves none.
pub struct ManagerView {
    pub clients: Map<Seq<char>, ClientView>,
    /// The documents in the order in which they were opened, each with its
    /// workspace.
    pub listing: Seq<(Seq<char>, Seq<char>)>,
    pub default_lake_root: Option<Seq<char>>,
    /// The language server whose handshake is under way.
    pub starting: Option<(Seq<char>, ClientView)>,
}

impl ManagerView {
    /// No language server runs, and no document is open.
    pub open spec fn fresh(default_lake_root: Option<Seq<char>>) -> ManagerView {
        ManagerView {
            clients: Map::empty(),
            listing: Seq::empty(),
            default_lake_root,
            starting: None,
        }
    }

    /// The workspace of each document.
    #[verifier::inline]
    pub open spec fn uris(self) -> Map<Seq<char>, Seq<char>> {
        members(self.listing)
    }

    /// Every document is open in the language server of its workspace, none is
    /// listed twice, and no language server is started twice.
    pub open spec fn wf(self) -> bool {
        &&& distinct_names(self.listing)
        &&& forall|key: Seq<char>| #[trigger]
            self.clients.dom().contains(key) ==> self.clients[key].wf()
        &&& forall|uri: Seq<char>| #[trigger]
            self.uris().dom().contains(uri) ==> self.holds(self.uris()[uri], uri)
        &&& self.starting matches Some((key, client)) ==> client.wf()
            && !self.clients.dom().contains(key)
    }

    /// Whether a document is open in the language server of a workspace.
    pub open spec fn holds(self, key: Seq<char>, uri: Seq<char>) -> bool {
        self.clients.dom().contains(key) && self.clients[key].documents.dom().contains(uri)
    }

    /// What a call waits for is there.
    pub open spec fn suits(self, stage: StageView) -> bool {
        &&& self.starting is Some <==> stage is Initializing || stage is Confirming
        &&& match stage {
            Stage::Probing { candidate, .. } => candidate < 3,
            Stage::Spawning { key, .. } => !self.clients.dom().contains(key),
            Stage::Opening { key, .. }
            | Stage::Joining { key, .. }
            | Stage::Asking { key, .. }
            | Stage::Waiting { key, .. }
            | Stage::Settling { key, .. }
            | Stage::Closing { key, .. } => self.clients.dom().contains(key),
            Stage::Connecting { key, target, .. } => self.holds(key, target.uri)
                && self.clients[key].documents[target.uri].text == target.text,
            _ => true,
        }
    }

    /// All is well, and what a call waits for is there; no handshake is under
    /// way when none does.
    pub open spec fn fits(self, progress: ProgressView) -> bool {
        &&& self.wf()
        &&& match progress {
            Progress::Ask { stage, .. } => self.suits(stage),
            _ => self.starting is None,
        }
    }

    /// The state with another state of one language server.
    pub open spec fn with_client(self, key: Seq<char>, client: ClientView) -> ManagerView {
        ManagerView { clients: self.clients.insert(key, client), ..self }
    }

    /// The state when a document belongs to a workspace.
    pub open spec fn registered(self, uri: Seq<char>, key: Seq<char>) -> ManagerView {
        ManagerView { listing: listing_set(self.listing, uri, key), ..self }
    }

    /// The state when a document belongs to no workspace.
    pub open spec fn unregistered(self, uri: Seq<char>) -> ManagerView {
        ManagerView { listing: listing_without(self.listing, uri), ..self }
    }

    /// The workspace of a document, or the text that tells that it is not
    /// open.
    pub open spec fn client_for_uri(self, uri: Seq<char>) -> Result<Seq<char>, Seq<char>> {
        if self.uris().dom().contains(uri) {
            Ok(self.uris()[uri])
        } else {
            Err(not_open(uri) + ". Use open_file or open_document first."@)
        }
    }

    /// The workspace of a document for which none is named or found.
    pub open spec fn default_workspace(self) -> Seq<char> {
        match self.default_lake_root {
            Some(root) => root,
            None => Seq::empty(),
        }
    }

    /// Opens a file: its path is made absolute, if it is not.
    pub open spec fn open_file(
        self,
        path: Seq<char>,
        workspace: Option<Seq<char>>,
    ) -> ProgressView {
        if is_absolute(path) {
            ask(Action::ReadFile { path }, Stage::Reading { path, workspace })
        } else {
            ask(Action::Canonicalize { path }, Stage::Locating { path, workspace })
        }
    }

    /// Finds the workspace of a document: the one that the call names, if it
    /// names one; else, where the document has a path, the nearest Lake
    /// project above it.
    pub open spec fn resolve_workspace(
        self,
        path: Option<Seq<char>>,
        workspace: Option<Seq<char>>,
        target: Target<Seq<char>>,
    ) -> (ManagerView, ProgressView) {
        let named = match workspace {
            Some(workspace) => trimmed(workspace),
            None => Seq::empty(),
        };
        if named.len() > 0 {
            (
                self,
                ask(
                    Action::Canonicalize { path: named },
                    Stage::Resolving { named, target },
                ),
            )
        } else {
            match path {
                Some(path) => (
                    self,
                    ask(Action::Inspect { path }, Stage::Inspecting { path, target }),
                ),
                None => self.get_or_spawn(self.default_workspace(), target),
            }
        }
    }

    /// Looks whether a directory holds a candidate.
    pub open spec fn probe(
        self,
        directory: Seq<char>,
        candidate: usize,
        target: Target<Seq<char>>,
    ) -> ProgressView {
        ask(
            Action::Probe { directory, entry: candidate_name(candidate) },
            Stage::Probing { directory, candidate, target },
        )
    }

    /// Goes on when it is known whether a directory holds a candidate: the one
    /// that does is the workspace; else the next candidate is looked for, and
    /// after the last one the parent is searched.
    pub open spec fn probed(
        self,
        directory: Seq<char>,
        candidate: usize,
        target: Target<Seq<char>>,
        exists: bool,
    ) -> ProgressView {
        if exists {
            ask(Action::Canonicalize { path: directory }, Stage::Detecting { target })
        } else if candidate < 2 {
            self.probe(directory, (candidate + 1) as usize, target)
        } else {
            ask(Action::Ascend { directory }, Stage::Ascending { directory, target })
        }
    }

    /// Goes on when it is known whether the search begins at a path or above
    /// it.
    pub open spec fn detect_lake_workspace(
        self,
        path: Seq<char>,
        target: Target<Seq<char>>,
        is_directory: bool,
    ) -> ProgressView {
        if is_directory {
            self.probe(path, 0, target)
        } else {
            ask(
                Action::Ascend { directory: path },
                Stage::Ascending { directory: path, target },
            )
        }
    }

    /// Goes on with the parent of a directory; without one, nothing was found.
    pub open spec fn ascended(
        self,
        directory: Seq<char>,
        target: Target<Seq<char>>,
        parent: Option<Seq<char>>,
    ) -> (ManagerView, ProgressView) {
        match parent {
            Some(parent) => if parent != directory {
                (self, self.probe(parent, 0, target))
            } else {
                self.get_or_spawn(self.default_workspace(), target)
            },
            None => self.get_or_spawn(self.default_workspace(), target),
        }
    }

    /// Goes on with the workspace of a document: its language server is
    /// started, if it does not run.
    pub open spec fn get_or_spawn(self, key: Seq<char>, target: Target<Seq<char>>) -> (
        ManagerView,
        ProgressView,
    ) {
        if self.clients.dom().contains(key) {
            self.place(key, target)
        } else {
            (
                self,
                ask(
                    Action::Spawn { key, lake_root: root_of(key) },
                    Stage::Spawning { key, target },
                ),
            )
        }
    }

    /// Begins the handshake with a language server that was started.
    pub open spec fn spawned(
        self,
        key: Seq<char>,
        target: Target<Seq<char>>,
        process_id: u32,
    ) -> (ManagerView, ProgressView) {
        let (client, request) = ClientView::fresh(root_of(key)).requested(
            "initialize"@,
            Some(initialize_params(process_id, root_of(key))),
            60,
        );
        (
            ManagerView { starting: Some((key, client)), ..self },
            ask(Action::Request { key, request }, Stage::Initializing { target, request }),
        )
    }

    /// Goes on when the handshake was answered; one that failed is given up.
    pub open spec fn initialized(
        self,
        target: Target<Seq<char>>,
        request: RequestView,
        outcome: OutcomeView,
    ) -> (ManagerView, ProgressView) {
        let (key, client) = self.starting->0;
        let (client, result) = client.initialized(request, outcome);
        match result {
            Ok(frame) => (
                ManagerView { starting: Some((key, client)), ..self },
                ask(Action::Send { key, frame }, Stage::Confirming { target }),
            ),
            Err(error) => (ManagerView { starting: None, ..self }, failed(error)),
        }
    }

    /// Goes on when the handshake was confirmed: the language server runs.
    pub open spec fn confirmed(self, target: Target<Seq<char>>, sent: bool) -> (
        ManagerView,
        ProgressView,
    ) {
        let (key, client) = self.starting->0;
        let manager = ManagerView { starting: None, ..self };
        if sent {
            manager.with_client(key, client).place(key, target)
        } else {
            (manager, failed(not_sent()))
        }
    }

    /// Opens a document in the language server of its workspace, or gives it
    /// its new text if it is open there.
    pub open spec fn place(self, key: Seq<char>, target: Target<Seq<char>>) -> (
        ManagerView,
        ProgressView,
    ) {
        let client = self.clients[key];
        if client.documents.dom().contains(target.uri) {
            let (client, result) = client.replaced(target.uri, target.text);
            match result {
                Ok(change) => self.changed(key, client, change, refreshed_answer(target, key)),
                Err(error) => (self.with_client(key, client), failed(error)),
            }
        } else {
            (
                self.with_client(key, client.marked(target.uri)),
                ask(
                    Action::Send {
                        key,
                        frame: notification_frame(
                            "textDocument/didOpen"@,
                            did_open_params(target.uri, target.text),
                        ),
                    },
                    Stage::Opening { key, target },
                ),
            )
        }
    }

    /// Goes on when a document was sent: it is open, and needs a session.
    pub open spec fn opened(self, key: Seq<char>, target: Target<Seq<char>>, sent: bool) -> (
        ManagerView,
        ProgressView,
    ) {
        if sent {
            let client = self.clients[key].opened(target.uri, target.text);
            if client.next_request_id < i64::MAX {
                let (client, session) = client.session(target.uri);
                match session {
                    SessionView::Ready { .. } => (
                        self.with_client(key, client).registered(target.uri, key),
                        done(opened_answer(target, key)),
                    ),
                    SessionView::Connect { request } => (
                        self.with_client(key, client),
                        ask(
                            Action::Request { key, request },
                            Stage::Connecting { key, target, request },
                        ),
                    ),
                }
            } else {
                (self.with_client(key, client), failed(no_request_id()))
            }
        } else {
            (self, failed(not_sent()))
        }
    }

    /// Goes on when the request for a document's session has ended: with the
    /// session, the document belongs to its workspace.
    pub open spec fn connected(
        self,
        key: Seq<char>,
        target: Target<Seq<char>>,
        request: RequestView,
        outcome: OutcomeView,
    ) -> (ManagerView, ProgressView) {
        let (client, result) = self.clients[key].connected(target.uri, request, outcome);
        match result {
            Ok(_) => (
                self.with_client(key, client).registered(target.uri, key),
                done(opened_answer(target, key)),
            ),
            Err(error) => (self.with_client(key, client), failed(error)),
        }
    }

    /// Sends an edit that was made.
    pub open spec fn changed(
        self,
        key: Seq<char>,
        client: ClientView,
        change: ChangeView,
        answer: Seq<char>,
    ) -> (ManagerView, ProgressView) {
        (
            self.with_client(key, client),
            ask(
                Action::Send { key, frame: change.frame },
                Stage::Changing { text: change.text, file: change.path, answer },
            ),
        )
    }

    /// Goes on when an edit was sent: the file of the document, if it has one,
    /// is to hold the new text.
    pub open spec fn change_sent(
        self,
        text: Seq<char>,
        file: Option<Seq<char>>,
        answer: Seq<char>,
        sent: bool,
    ) -> ProgressView {
        if sent {
            match file {
                Some(path) => ask(Action::WriteFile { path, text }, Stage::Writing { answer }),
                None => done(answer),
            }
        } else {
            failed(not_sent())
        }
    }

    /// Edits a document.
    pub open spec fn apply_edit(self, uri: Seq<char>, range: LspRange, text: Seq<char>) -> (
        ManagerView,
        ProgressView,
    ) {
        match self.client_for_uri(uri) {
            Ok(key) => {
                let client = self.clients[key];
                let (client, result) = client.edit(uri, range, text);
                match result {
                    Ok(change) => self.changed(
                        key,
                        client,
                        change,
                        edited_answer(uri, change.text),
                    ),
                    Err(error) => (self.with_client(key, client), failed(error)),
                }
            },
            Err(error) => (self, failed(error)),
        }
    }

    /// Replaces all of a document's text.
    pub open spec fn replace_document(self, uri: Seq<char>, text: Seq<char>) -> (
        ManagerView,
        ProgressView,
    ) {
        match self.client_for_uri(uri) {
            Ok(key) => {
                let client = self.clients[key];
                let (client, result) = client.replaced(uri, text);
                match result {
                    Ok(change) => self.changed(
                        key,
                        client,
                        change,
                        replaced_answer(uri, change.text),
                    ),
                    Err(error) => (self.with_client(key, client), failed(error)),
                }
            },
            Err(error) => (self, failed(error)),
        }
    }

    /// Asks for the goals at a place; the document must have a session first.
    pub open spec fn get_goal_state(self, uri: Seq<char>, position: LspPosition) -> (
        ManagerView,
        ProgressView,
    ) {
        match self.client_for_uri(uri) {
            Ok(key) => if self.clients[key].next_request_id < i64::MAX {
                let (client, session) = self.clients[key].session(uri);
                match session {
                    SessionView::Ready { .. } => self.with_client(key, client).ask_goal(
                        key,
                        uri,
                        position,
                    ),
                    SessionView::Connect { request } => (
                        self.with_client(key, client),
                        ask(
                            Action::Request { key, request },
                            Stage::Joining { key, uri, position, request },
                        ),
                    ),
                }
            } else {
                (self, failed(no_request_id()))
            },
            Err(error) => (self, failed(error)),
        }
    }

    /// Goes on when the request for the session that is needed to ask for
    /// goals has ended.
    pub open spec fn joined(
        self,
        key: Seq<char>,
        uri: Seq<char>,
        position: LspPosition,
        request: RequestView,
        outcome: OutcomeView,
    ) -> (ManagerView, ProgressView) {
        let (client, result) = self.clients[key].connected(uri, request, outcome);
        let manager = self.with_client(key, client);
        match result {
            Ok(_) => manager.ask_goal(key, uri, position),
            Err(error) => (manager, failed(error)),
        }
    }

    /// Sends the request for the goals at a place.
    pub open spec fn ask_goal(self, key: Seq<char>, uri: Seq<char>, position: LspPosition) -> (
        ManagerView,
        ProgressView,
    ) {
        if self.clients[key].next_request_id < i64::MAX {
            let (client, request) = self.clients[key].requested(
                "$/lean/plainGoal"@,
                Some(goal_params(uri, position)),
                120,
            );
            (
                self.with_client(key, client),
                ask(Action::Request { key, request }, Stage::Asking { key, request }),
            )
        } else {
            (self, failed(no_request_id()))
        }
    }

    /// Ends a call that asked for goals.
    pub open spec fn goal_told(
        self,
        key: Seq<char>,
        request: RequestView,
        outcome: OutcomeView,
    ) -> (ManagerView, ProgressView) {
        let (client, result) = self.clients[key].concluded(request, outcome);
        (
            self.with_client(key, client),
            match result {
                Ok(response) => done(goal_answer(response)),
                Err(error) => failed(error),
            },
        )
    }

    /// Waits for the diagnostics of a document: Lean gets a moment to begin.
    pub open spec fn get_diagnostics(self, uri: Seq<char>, timeout_ms: u64) -> ProgressView {
        match self.client_for_uri(uri) {
            Ok(key) => ask(
                Action::BeginWait { timeout_ms, pause_ms: 300 },
                Stage::Waiting { key, uri },
            ),
            Err(error) => failed(error),
        }
    }

    /// Looks at a document whose diagnostics are waited for.
    pub open spec fn looked(self, key: Seq<char>, uri: Seq<char>, expired: bool) -> ProgressView {
        match self.clients[key].waited(uri, expired) {
            WaitStep::Settle => ask(Action::Pause { pause_ms: 100 }, Stage::Settling { key, uri }),
            WaitStep::GiveUp => self.tell_diagnostics(key, uri),
            WaitStep::Wait => ask(Action::AwaitNews { key }, Stage::Waiting { key, uri }),
        }
    }

    /// Tells the diagnostics of a document.
    pub open spec fn tell_diagnostics(self, key: Seq<char>, uri: Seq<char>) -> ProgressView {
        done(diagnostics_text(self.clients[key].diagnostics_at(uri)))
    }

    /// Tells the text of a document.
    pub open spec fn get_document_text(self, uri: Seq<char>) -> ProgressView {
        match self.client_for_uri(uri) {
            Ok(key) => if self.holds(key, uri) {
                done(self.clients[key].documents[uri].text)
            } else {
                failed(not_open(uri))
            },
            Err(error) => failed(error),
        }
    }

    /// Closes a document.
    pub open spec fn close_document(self, uri: Seq<char>) -> ProgressView {
        match self.client_for_uri(uri) {
            Ok(key) => if self.holds(key, uri) {
                ask(
                    Action::Send {
                        key,
                        frame: notification_frame("textDocument/didClose"@, document_params(uri)),
                    },
                    Stage::Closing { key, uri },
                )
            } else {
                failed(not_open(uri))
            },
            Err(error) => failed(error),
        }
    }

    /// Goes on when it was sent that a document is closed: nothing of it is
    /// left.
    pub open spec fn close_sent(self, key: Seq<char>, uri: Seq<char>, sent: bool) -> (
        ManagerView,
        ProgressView,
    ) {
        if sent {
            (
                self.with_client(key, self.clients[key].closed(uri)).unregistered(uri),
                done("Document "@ + uri + " closed."@),
            )
        } else {
            (self, failed(not_sent()))
        }
    }

    /// Tells how far Lean is with a document.
    pub open spec fn file_status(self, uri: Seq<char>) -> ProgressView {
        match self.client_for_uri(uri) {
            Ok(key) => if self.holds(key, uri) {
                done(status_text(self.clients[key].progress_at(uri)))
            } else {
                failed(not_open(uri))
            },
            Err(error) => failed(error),
        }
    }

    /// The line that tells of a document that it is open.
    pub open spec fn document_line(self, uri: Seq<char>, key: Seq<char>) -> Seq<char> {
        "  ["@ + status_word(self.clients[key].progress_at(uri)) + "] "@ + uri + " (workspace: "@
            + label(key) + ")"@
    }

    /// Tells which documents are open.
    pub open spec fn list_documents(self) -> Seq<char> {
        if self.listing.len() == 0 {
            "No documents are currently open."@
        } else {
            "Open documents ("@ + decimal(self.listing.len()) + "):\n"@ + joined(
                Seq::new(
                    self.listing.len(),
                    |i: int| self.document_line(self.listing[i].0, self.listing[i].1),
                ),
                "\n"@,
            )
        }
    }

    /// Begins a call of a tool.
    pub open spec fn begun(self, call: Call<Seq<char>>) -> (ManagerView, ProgressView) {
        match call {
            Call::OpenFile { path, workspace } => (self, self.open_file(path, workspace)),
            Call::OpenDocument { uri, text, workspace } => self.resolve_workspace(
                uri_path(uri),
                workspace,
                Target { uri, text, from_disk: false },
            ),
            Call::GetDiagnostics { uri, timeout_ms } => (
                self,
                self.get_diagnostics(uri, timeout_ms),
            ),
            Call::GetGoalState { uri, position } => self.get_goal_state(uri, position),
            Call::ReplaceDocument { uri, text } => self.replace_document(uri, text),
            Call::ApplyEdit { uri, range, text } => self.apply_edit(uri, range, text),
            Call::GetDocumentText { uri } => (self, self.get_document_text(uri)),
            Call::CloseDocument { uri } => (self, self.close_document(uri)),
            Call::FileStatus { uri } => (self, self.file_status(uri)),
            Call::ListDocuments => (self, done(self.list_documents())),
        }
    }

    /// Goes on with a call when what it waits for has come; what it does not
    /// wait for is passed over.
    pub open spec fn stepped(self, stage: StageView, event: EventView) -> (
        ManagerView,
        ProgressView,
    ) {
        match (stage, event) {
            (Stage::Locating { path, workspace }, Event::Canonical { path: found }) => {
                let path = match found {
                    Some(found) => found,
                    None => path,
                };
                (self, ask(Action::ReadFile { path }, Stage::Reading { path, workspace }))
            },
            (Stage::Reading { path, workspace }, Event::FileRead { text }) => match text {
                Some(text) => self.resolve_workspace(
                    Some(path),
                    workspace,
                    Target { uri: path_uri(path), text, from_disk: true },
                ),
                None => (self, failed("Failed to read file: "@ + path)),
            },
            (Stage::Resolving { named, target }, Event::Canonical { path }) =>
                self.get_or_spawn(
                    match path {
                        Some(path) => path,
                        None => named,
                    },
                    target,
                ),
            (Stage::Inspecting { path, target }, Event::Inspected { is_directory }) => (
                self,
                self.detect_lake_workspace(path, target, is_directory),
            ),
            (Stage::Probing { directory, candidate, target }, Event::Probed { exists }) => (
                self,
                self.probed(directory, candidate, target, exists),
            ),
            (Stage::Ascending { directory, target }, Event::Ascended { parent }) => self.ascended(
                directory,
                target,
                parent,
            ),
            (Stage::Detecting { target }, Event::Canonical { path }) => self.get_or_spawn(
                match path {
                    Some(path) => path,
                    None => self.default_workspace(),
                },
                target,
            ),
            (Stage::Spawning { key, target }, Event::Spawned { process_id }) => self.spawned(
                key,
                target,
                process_id,
            ),
            (Stage::Spawning { .. }, Event::SpawnFailed { command }) => (
                self,
                failed(
                    "Failed to spawn: "@ + command
                        + ". Is Lean 4 / Lake installed and on PATH?"@,
                ),
            ),
            (Stage::Initializing { target, request }, Event::Replied { outcome }) =>
                self.initialized(target, request, outcome),
            (Stage::Confirming { target }, Event::Sent { sent }) => self.confirmed(target, sent),
            (Stage::Opening { key, target }, Event::Sent { sent }) => self.opened(
                key,
                target,
                sent,
            ),
            (Stage::Connecting { key, target, request }, Event::Replied { outcome }) =>
                self.connected(key, target, request, outcome),
            (Stage::Changing { text, file, answer }, Event::Sent { sent }) => (
                self,
                self.change_sent(text, file, answer, sent),
            ),
            (Stage::Writing { answer }, Event::Written) => (self, done(answer)),
            (Stage::Joining { key, uri, position, request }, Event::Replied { outcome }) =>
                self.joined(key, uri, position, request, outcome),
            (Stage::Asking { key, request }, Event::Replied { outcome }) => self.goal_told(
                key,
                request,
                outcome,
            ),
            (Stage::Waiting { key, uri }, Event::Woken { expired }) => (
                self,
                self.looked(key, uri, expired),
            ),
            (Stage::Waiting { key, uri }, Event::Overdue) => (
                self,
                self.tell_diagnostics(key, uri),
            ),
            (Stage::Settling { key, uri }, Event::Woken { .. }) => (
                self,
                self.tell_diagnostics(key, uri),
            ),
            (Stage::Closing { key, uri }, Event::Sent { sent }) => self.close_sent(key, uri, sent),
            (stage, _) => (self, ask(Action::Nothing, stage)),
        }
    }

    /// What follows from the body of a message of the language server of a
    /// workspace, which may run or be in the handshake.
    pub open spec fn received(self, key: Seq<char>, body: Seq<u8>) -> (
        ManagerView,
        IncomingView,
    ) {
        if self.clients.dom().contains(key) {
            let (client, incoming) = self.clients[key].read(body);
            (self.with_client(key, client), incoming)
        } else {
            match self.starting {
                Some((other, client)) => if other == key {
                    let (client, incoming) = client.read(body);
                    (ManagerView { starting: Some((key, client)), ..self }, incoming)
                } else {
                    (self, IncomingView::Nothing)
                },
                None => (self, IncomingView::Nothing),
            }
        }
    }

    /// The state when the diagnostics of a document are known.
    pub open spec fn diagnosed(
        self,
        key: Seq<char>,
        uri: Seq<char>,
        diagnostics: Seq<DiagnosticView>,
    ) -> ManagerView {
        if self.clients.dom().contains(key) {
            self.with_client(key, self.clients[key].diagnosed(uri, diagnostics))
        } else {
            match self.starting {
                Some((other, client)) => if other == key {
                    ManagerView {
                        starting: Some((key, client.diagnosed(uri, diagnostics))),
                        ..self
                    }
                } else {
                    self
                },
                None => self,
            }
        }
    }
}

/// The result of a call of a tool, as it is told: a text, marked where it
/// tells an error.
pub open spec fn call_result(result: Result<Seq<char>, Seq<char>>) -> JsonView {
    match result {
        Ok(text) => single("content"@, text_content(text)),
        Err(error) => object_view(
            seq![
                ("content"@, text_content("Error: "@ + error)),
                ("isError"@, JsonView::Bool(true)),
            ],
        ),
    }
}

/// A text as the content of a result.
pub open spec fn text_content(text: Seq<char>) -> JsonView {
    JsonView::Array(
        seq![
            object_view(
                seq![("type"@, JsonView::String("text"@)), ("text"@, JsonView::String(text))],
            ),
        ],
    )
}

/// What is told of this server when a connection begins.
pub open spec fn server_info() -> JsonView {
    object_view(
        seq![
            ("protocolVersion"@, JsonView::String("2024-11-05"@)),
            ("capabilities"@, single("tools"@, empty_object())),
            (
                "serverInfo"@,
                object_view(
                    seq![
                        ("name"@, JsonView::String("lean4-mcp-proxy"@)),
                        ("version"@, JsonView::String("0.2.0"@)),
                    ],
                ),
            ),
        ],
    )
}

/// The object whose one member is an array without items.
pub open spec fn empty_list(name: Seq<char>) -> JsonView {
    single(name, JsonView::Array(Seq::empty()))
}

/// The response to a request other than a call of a tool.
pub open spec fn plain_response(id: JsonView, method: Seq<char>) -> ResponseView {
    if method == "initialize"@ {
        success_view(id, server_info())
    } else if method == "tools/list"@ {
        success_view(id, tool_list())
    } else if method == "resources/list"@ {
        success_view(id, empty_list("resources"@))
    } else if method == "resources/templates/list"@ {
        success_view(id, empty_list("resourceTemplates"@))
    } else if method == "prompts/list"@ {
        success_view(id, empty_list("prompts"@))
    } else if method == "ping"@ {
        success_view(id, empty_object())
    } else {
        failure_view(id, METHOD_NOT_FOUND as int, "Method not found: "@ + method)
    }
}

/// Whether a method is a notification of the other side, which no response
/// follows.
pub open spec fn is_notice(method: Seq<char>) -> bool {
    method == "notifications/initialized"@ || method == "notifications/cancelled"@
}

/// The id of a request: `null` where it has none.
pub open spec fn request_id(message: JsonView) -> JsonView {
    match message.get("id"@) {
        Some(id) => id,
        None => JsonView::Null,
    }
}

/// The method of a request: the empty one where it has none.
pub open spec fn request_method(message: JsonView) -> Seq<char> {
    match message.text_at("method"@) {
        Some(method) => method,
        None => Seq::empty(),
    }
}

/// The arguments of a call of a tool: none where they are not given.
pub open spec fn call_arguments(params: JsonView) -> JsonView {
    match params.get("arguments"@) {
        Some(arguments) => arguments,
        None => empty_object(),
    }
}

/// The line that tells a response.
pub open spec fn reply(response: ResponseView) -> ActionView {
    Action::Reply { line: json_text(response.json()) }
}

/// Whether what is written is one line.
pub open spec fn is_one_line(action: ActionView) -> bool {
    action matches Action::Reply { line } ==> !line.contains('\n')
}

/// The model of a call of a tool that is under way: the id of its request, and
/// where it stands.
pub struct RunView {
    pub id: JsonView,
    pub stage: StageView,
}

/// The model of the server.
pub struct ServerView {
    pub manager: ManagerView,
    /// The call that is under way.
    pub run: Option<RunView>,
}

impl ServerView {
    /// The state of the server when nothing has happened.
    pub open spec fn fresh(default_lake_root: Option<Seq<char>>) -> ServerView {
        ServerView {
            manager: ManagerView::fresh(default_lake_root),
            run: None,
        }
    }

    /// The documents and the language servers fit together, and so does the
    /// call that is under way.
    pub open spec fn wf(self) -> bool {
        &&& self.manager.wf()
        &&& match self.run {
            Some(run) => self.manager.suits(run.stage),
            None => self.manager.starting is None,
        }
    }

    /// Takes a line that was read. An empty one is passed over, and one that
    /// is no JSON is answered with an error.
    pub open spec fn lined(self, line: Seq<char>) -> (ServerView, ActionView) {
        if trimmed(line).len() == 0 {
            (self, Action::Nothing)
        } else {
            match json_parse(trimmed(line)) {
                Ok(message) => self.requested(message),
                Err(error) => (
                    self,
                    reply(
                        failure_view(
                            JsonView::Null,
                            PARSE_ERROR as int,
                            "Parse error: "@ + error,
                        ),
                    ),
                ),
            }
        }
    }

    /// Takes a request. A notification is passed over, a call of a tool is
    /// begun, and every other request is answered.
    pub open spec fn requested(self, message: JsonView) -> (ServerView, ActionView) {
        let id = request_id(message);
        let method = request_method(message);
        if is_notice(method) {
            (self, Action::Nothing)
        } else if method == "tools/call"@ {
            self.called(id, message.get("params"@))
        } else {
            (self, reply(plain_response(id, method)))
        }
    }

    /// Takes a call of a tool.
    pub open spec fn called(self, id: JsonView, params: Option<JsonView>) -> (
        ServerView,
        ActionView,
    ) {
        match params {
            Some(params) => match params.text_at("name"@) {
                Some(name) => match call_of(name, call_arguments(params)) {
                    Ok(call) => {
                        let (manager, progress) = self.manager.begun(call);
                        ServerView { manager, ..self }.progressed(id, progress)
                    },
                    Err(error) => self.progressed(id, failed(error)),
                },
                None => (
                    self,
                    reply(
                        failure_view(
                            id,
                            INTERNAL_ERROR as int,
                            "Internal error: Missing tool name"@,
                        ),
                    ),
                ),
            },
            None => (
                self,
                reply(
                    failure_view(
                        id,
                        INTERNAL_ERROR as int,
                        "Internal error: Missing params in tools/call"@,
                    ),
                ),
            ),
        }
    }

    /// Notes how far a call got: one that is done is answered, and another
    /// waits for what it asks for.
    pub open spec fn progressed(self, id: JsonView, progress: ProgressView) -> (
        ServerView,
        ActionView,
    ) {
        match progress {
            Progress::Done { result } => (
                ServerView { run: None, ..self },
                reply(success_view(id, call_result(result))),
            ),
            Progress::Ask { action, stage } => (
                ServerView { run: Some(RunView { id, stage }), ..self },
                action,
            ),
        }
    }

    /// Goes on with the call that is under way. What it does not wait for is
    /// passed over.
    pub open spec fn resumed(self, event: EventView) -> (ServerView, ActionView) {
        match self.run {
            Some(run) => {
                let (manager, progress) = self.manager.stepped(run.stage, event);
                ServerView { manager, ..self }.progressed(run.id, progress)
            },
            None => (self, Action::Nothing),
        }
    }

    /// Takes the body of a message of the language server of a workspace.
    pub open spec fn received(self, key: Seq<char>, body: Seq<u8>) -> (ServerView, IncomingView) {
        let (manager, incoming) = self.manager.received(key, body);
        (ServerView { manager, ..self }, incoming)
    }
}

}
