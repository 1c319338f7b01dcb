//! The server: it takes requests, line by line, and serves them with the help
//! of language servers.
//!
//! [`McpServer::run`] takes a line and says what is to be done outside;
//! [`McpServer::resume`] takes what came of that and says what is to be done
//! next, until the request is answered.

use crate::client_manager::{
    describe_not_sent, lemma_closed, lemma_with_client, workspace_label, ClientManager,
};
use crate::client_model::{Incoming, PendingRequest, RequestOutcome, SessionStep, WaitStep};
use crate::json::{entry_views, item_views, Json, JsonView};
use crate::jsonrpc::{
    member, success_view, JsonRpcResponse, INTERNAL_ERROR, METHOD_NOT_FOUND, PARSE_ERROR,
};
use crate::lean_client::{describe_no_request_id, describe_not_open};
use crate::lsp::{FileCheckStatus, LspDiagnostic, LspPosition, LspRange};
use crate::messages::{no_members, single_member};
use crate::server_model::{
    call_result, diagnostic_line, diagnostics_text, empty_list, is_one_line, reply, server_info,
    text_content, RunView, ServerView,
};
use crate::steps::{
    Action, CallProgress, CallStage, Event, Progress, ServerAction,
    ServerEvent, Stage, Target,
};
use crate::table::lemma_members;
use crate::text::{count_lines, decimal_text, join, result_view, same_text, trim};
use crate::tools::{list_tools, tool_list, Call};
use crate::uri::{file_path_to_uri, starts_with_slash, uri_to_file_path};
use vstd::prelude::*;
use vstd::string::*;

verus! {

/// A call of a tool that is under way.
#[derive(Debug)]
struct Run {
    id: Json,
    stage: CallStage,
}

/// The server.
pub struct McpServer {
    manager: ClientManager,
    run: Option<Run>,
}

impl View for McpServer {
    type V = ServerView;

    closed spec fn view(&self) -> ServerView {
        ServerView {
            manager: self.manager@,
            run: match self.run {
                Some(run) => Some(RunView { id: run.id@, stage: run.stage@ }),
                None => None,
            },
        }
    }
}

impl McpServer {
    /// The server when nothing has happened.
    pub fn new(default_lake_root: Option<String>) -> (server: McpServer)
        ensures
            server@ == ServerView::fresh(default_lake_root.deep_view()),
            server@.wf(),
    {
        McpServer { manager: ClientManager::new(default_lake_root), run: None }
    }

    /// Opens a file.
    fn tool_open_file(&self, path: String, workspace: Option<String>) -> (progress: CallProgress)
        requires
            self.manager@.wf(),
            self.manager@.starting is None,
        ensures
            progress@ == self.manager@.open_file(path@, workspace.deep_view()),
            self.manager@.fits(progress@),
    {
        if starts_with_slash(path.as_str()) {
            Progress::Ask {
                action: Action::ReadFile { path: path.clone() },
                stage: Stage::Reading { path, workspace },
            }
        } else {
            Progress::Ask {
                action: Action::Canonicalize { path: path.clone() },
                stage: Stage::Locating { path, workspace },
            }
        }
    }

    /// Opens a document.
    fn tool_open_document(&mut self, uri: String, text: String, workspace: Option<String>) -> (
    progress: CallProgress)
        requires
            old(self).manager@.wf(),
            old(self).manager@.starting is None,
        ensures
            (final(self).manager@, progress@) == old(self).manager@.begun(
                (Call::OpenDocument { uri: uri@, text: text@, workspace: workspace.deep_view() }),
            ),
            final(self).manager@.fits(progress@),
    {
        let path = uri_to_file_path(uri.as_str());
        self.manager.resolve_workspace(path, workspace, Target { uri, text, from_disk: false })
    }

    /// Edits a document.
    fn tool_apply_edit(&mut self, uri: &str, range: LspRange, text: &str) -> (progress:
        CallProgress)
        requires
            old(self).manager@.wf(),
            old(self).manager@.starting is None,
        ensures
            (final(self).manager@, progress@) == old(self).manager@.apply_edit(uri@, range, text@),
            final(self).manager@.fits(progress@),
    {
        let ghost before = self.manager@;
        let key = match self.manager.client_for_uri(uri) {
            Ok(key) => key,
            Err(error) => {
                return Progress::Done { result: Err(error) };
            },
        };
        assert(before.holds(key@, uri@));
        let mut client = self.manager.take_client(key.as_str());
        let result = client.apply_edit(
            uri,
            range.start.line,
            range.start.character,
            range.end.line,
            range.end.character,
            text,
        );
        proof {
            lemma_with_client(before, key@, client@);
        }
        self.manager.put_client(key.as_str(), client);
        assert(self.manager@.clients =~= before.clients.insert(key@, client@));
        match result {
            Ok(change) => {
                let mut answer = "Edit applied to ".to_owned();
                answer.append(uri);
                answer.append(". Document now has ");
                answer.append(decimal_text(count_lines(change.text.as_str()) as u128).as_str());
                answer.append(" lines.");
                Progress::Ask {
                    action: Action::Send { key, frame: change.frame },
                    stage: Stage::Changing { text: change.text, file: change.path, answer },
                }
            },
            Err(error) => Progress::Done { result: Err(error) },
        }
    }

    /// Replaces all of a document's text.
    fn tool_replace_document(&mut self, uri: &str, text: &str) -> (progress: CallProgress)
        requires
            old(self).manager@.wf(),
            old(self).manager@.starting is None,
        ensures
            (final(self).manager@, progress@) == old(self).manager@.replace_document(uri@, text@),
            final(self).manager@.fits(progress@),
    {
        let ghost before = self.manager@;
        let key = match self.manager.client_for_uri(uri) {
            Ok(key) => key,
            Err(error) => {
                return Progress::Done { result: Err(error) };
            },
        };
        assert(before.holds(key@, uri@));
        let mut client = self.manager.take_client(key.as_str());
        let result = client.replace_document(uri, text);
        proof {
            lemma_with_client(before, key@, client@);
        }
        self.manager.put_client(key.as_str(), client);
        assert(self.manager@.clients =~= before.clients.insert(key@, client@));
        match result {
            Ok(change) => {
                let mut answer = "Document ".to_owned();
                answer.append(uri);
                answer.append(" replaced. Document now has ");
                answer.append(decimal_text(count_lines(change.text.as_str()) as u128).as_str());
                answer.append(" lines.");
                Progress::Ask {
                    action: Action::Send { key, frame: change.frame },
                    stage: Stage::Changing { text: change.text, file: change.path, answer },
                }
            },
            Err(error) => Progress::Done { result: Err(error) },
        }
    }

    /// Asks for the goals at a place.
    fn tool_get_goal_state(&mut self, uri: String, position: LspPosition) -> (progress:
        CallProgress)
        requires
            old(self).manager@.wf(),
            old(self).manager@.starting is None,
        ensures
            (final(self).manager@, progress@) == old(self).manager@.get_goal_state(uri@, position),
            final(self).manager@.fits(progress@),
    {
        let ghost before = self.manager@;
        let key = match self.manager.client_for_uri(uri.as_str()) {
            Ok(key) => key,
            Err(error) => {
                return Progress::Done { result: Err(error) };
            },
        };
        assert(before.holds(key@, uri@));
        if !self.manager.client(key.as_str()).can_request() {
            return Progress::Done { result: Err(describe_no_request_id()) };
        }
        let mut client = self.manager.take_client(key.as_str());
        let step = client.ensure_rpc_session(uri.as_str());
        proof {
            lemma_with_client(before, key@, client@);
        }
        self.manager.put_client(key.as_str(), client);
        assert(self.manager@.clients =~= before.clients.insert(key@, client@));
        match step {
            SessionStep::Ready { .. } => self.ask_goal(key, uri.as_str(), position),
            SessionStep::Connect { request } => {
                let again = request.clone();
                Progress::Ask {
                    action: Action::Request { key: key.clone(), request },
                    stage: Stage::Joining { key, uri, position, request: again },
                }
            },
        }
    }

    /// Sends the request for the goals at a place.
    fn ask_goal(&mut self, key: String, uri: &str, position: LspPosition) -> (progress:
        CallProgress)
        requires
            old(self).manager@.wf(),
            old(self).manager@.starting is None,
            old(self).manager@.clients.dom().contains(key@),
        ensures
            (final(self).manager@, progress@) == old(self).manager@.ask_goal(key@, uri@, position),
            final(self).manager@.fits(progress@),
    {
        let ghost before = self.manager@;
        if !self.manager.client(key.as_str()).can_request() {
            return Progress::Done { result: Err(describe_no_request_id()) };
        }
        let mut client = self.manager.take_client(key.as_str());
        let request = client.get_goal_state(uri, position.line, position.character);
        proof {
            lemma_with_client(before, key@, client@);
        }
        self.manager.put_client(key.as_str(), client);
        assert(self.manager@.clients =~= before.clients.insert(key@, client@));
        let again = request.clone();
        Progress::Ask {
            action: Action::Request { key: key.clone(), request },
            stage: Stage::Asking { key, request: again },
        }
    }

    /// Goes on when the request for the session that is needed to ask for
    /// goals has ended.
    fn finish_join(
        &mut self,
        key: String,
        uri: &str,
        position: LspPosition,
        request: &PendingRequest,
        outcome: RequestOutcome,
    ) -> (progress: CallProgress)
        requires
            old(self).manager@.wf(),
            old(self).manager@.starting is None,
            old(self).manager@.clients.dom().contains(key@),
        ensures
            (final(self).manager@, progress@) == old(self).manager@.joined(
                key@,
                uri@,
                position,
                request@,
                outcome@,
            ),
            final(self).manager@.fits(progress@),
    {
        let ghost before = self.manager@;
        let mut client = self.manager.take_client(key.as_str());
        let result = client.finish_rpc_session(uri, request, outcome);
        proof {
            lemma_with_client(before, key@, client@);
        }
        self.manager.put_client(key.as_str(), client);
        assert(self.manager@.clients =~= before.clients.insert(key@, client@));
        match result {
            Ok(_) => self.ask_goal(key, uri, position),
            Err(error) => Progress::Done { result: Err(error) },
        }
    }

    /// Ends a call that asked for goals.
    fn finish_goal(&mut self, key: &str, request: &PendingRequest, outcome: RequestOutcome) -> (
    progress: CallProgress)
        requires
            old(self).manager@.wf(),
            old(self).manager@.starting is None,
            old(self).manager@.clients.dom().contains(key@),
        ensures
            (final(self).manager@, progress@) == old(self).manager@.goal_told(
                key@,
                request@,
                outcome@,
            ),
            final(self).manager@.fits(progress@),
    {
        let ghost before = self.manager@;
        let mut client = self.manager.take_client(key);
        let result = client.finish_goal_state(request, outcome);
        proof {
            lemma_with_client(before, key@, client@);
        }
        self.manager.put_client(key, client);
        assert(self.manager@.clients =~= before.clients.insert(key@, client@));
        Progress::Done { result }
    }

    /// Waits for the diagnostics of a document.
    fn tool_get_diagnostics(&self, uri: String, timeout_ms: u64) -> (progress: CallProgress)
        requires
            self.manager@.wf(),
            self.manager@.starting is None,
        ensures
            progress@ == self.manager@.get_diagnostics(uri@, timeout_ms),
            self.manager@.fits(progress@),
    {
        match self.manager.client_for_uri(uri.as_str()) {
            Ok(key) => {
                assert(self.manager@.holds(key@, uri@));
                Progress::Ask {
                    action: Action::BeginWait { timeout_ms, pause_ms: 300 },
                    stage: Stage::Waiting { key, uri },
                }
            },
            Err(error) => Progress::Done { result: Err(error) },
        }
    }

    /// Looks at a document whose diagnostics are waited for.
    fn look(&self, key: String, uri: String, expired: bool) -> (progress: CallProgress)
        requires
            self.manager@.wf(),
            self.manager@.starting is None,
            self.manager@.clients.dom().contains(key@),
        ensures
            progress@ == self.manager@.looked(key@, uri@, expired),
            self.manager@.fits(progress@),
    {
        match self.manager.client(key.as_str()).wait_for_diagnostics(uri.as_str(), expired) {
            WaitStep::Settle => Progress::Ask {
                action: Action::Pause { pause_ms: 100 },
                stage: Stage::Settling { key, uri },
            },
            WaitStep::GiveUp => self.tell_diagnostics(key.as_str(), uri.as_str()),
            WaitStep::Wait => Progress::Ask {
                action: Action::AwaitNews { key: key.clone() },
                stage: Stage::Waiting { key, uri },
            },
        }
    }

    /// Tells the diagnostics of a document.
    fn tell_diagnostics(&self, key: &str, uri: &str) -> (progress: CallProgress)
        requires
            self.manager@.wf(),
            self.manager@.starting is None,
            self.manager@.clients.dom().contains(key@),
        ensures
            progress@ == self.manager@.tell_diagnostics(key@, uri@),
            self.manager@.fits(progress@),
    {
        let diagnostics = self.manager.client(key).get_diagnostics(uri);
        Progress::Done { result: Ok(describe_diagnostics(&diagnostics)) }
    }

    /// Tells the text of a document.
    fn tool_get_document_text(&self, uri: &str) -> (progress: CallProgress)
        requires
            self.manager@.wf(),
            self.manager@.starting is None,
        ensures
            progress@ == self.manager@.get_document_text(uri@),
            self.manager@.fits(progress@),
    {
        let key = match self.manager.client_for_uri(uri) {
            Ok(key) => key,
            Err(error) => {
                return Progress::Done { result: Err(error) };
            },
        };
        assert(self.manager@.holds(key@, uri@));
        match self.manager.client(key.as_str()).get_document_text(uri) {
            Some(text) => Progress::Done { result: Ok(text) },
            None => Progress::Done { result: Err(describe_not_open(uri)) },
        }
    }

    /// Closes a document.
    fn tool_close_document(&self, uri: String) -> (progress: CallProgress)
        requires
            self.manager@.wf(),
            self.manager@.starting is None,
        ensures
            progress@ == self.manager@.close_document(uri@),
            self.manager@.fits(progress@),
    {
        let key = match self.manager.client_for_uri(uri.as_str()) {
            Ok(key) => key,
            Err(error) => {
                return Progress::Done { result: Err(error) };
            },
        };
        assert(self.manager@.holds(key@, uri@));
        match self.manager.client(key.as_str()).close_document(uri.as_str()) {
            Ok(frame) => Progress::Ask {
                action: Action::Send { key: key.clone(), frame },
                stage: Stage::Closing { key, uri },
            },
            Err(error) => Progress::Done { result: Err(error) },
        }
    }

    /// Goes on when it was sent that a document is closed.
    fn finish_close(&mut self, key: &str, uri: &str, sent: bool) -> (progress: CallProgress)
        requires
            old(self).manager@.wf(),
            old(self).manager@.starting is None,
            old(self).manager@.clients.dom().contains(key@),
        ensures
            (final(self).manager@, progress@) == old(self).manager@.close_sent(key@, uri@, sent),
            final(self).manager@.fits(progress@),
    {
        if !sent {
            return Progress::Done { result: Err(describe_not_sent()) };
        }
        let ghost before = self.manager@;
        let mut client = self.manager.take_client(key);
        client.document_closed(uri);
        proof {
            lemma_closed(before, key@, uri@, client@);
        }
        self.manager.put_client(key, client);
        assert(self.manager@.clients =~= before.clients.insert(key@, client@));
        self.manager.unregister_uri(uri);
        let mut text = "Document ".to_owned();
        text.append(uri);
        text.append(" closed.");
        Progress::Done { result: Ok(text) }
    }

    /// Tells how far Lean is with a document.
    fn tool_file_status(&self, uri: &str) -> (progress: CallProgress)
        requires
            self.manager@.wf(),
            self.manager@.starting is None,
        ensures
            progress@ == self.manager@.file_status(uri@),
            self.manager@.fits(progress@),
    {
        let key = match self.manager.client_for_uri(uri) {
            Ok(key) => key,
            Err(error) => {
                return Progress::Done { result: Err(error) };
            },
        };
        assert(self.manager@.holds(key@, uri@));
        let client = self.manager.client(key.as_str());
        if !client.is_document_open(uri) {
            return Progress::Done { result: Err(describe_not_open(uri)) };
        }
        let text = match client.get_file_progress(uri) {
            Some(FileCheckStatus::Checked) => "checked — Lean has finished processing this file.",
            Some(FileCheckStatus::Processing) => "processing — Lean is still checking this file.",
            None => "unknown — no file progress information available yet.",
        };
        Progress::Done { result: Ok(text.to_owned()) }
    }

    /// Tells which documents are open.
    fn tool_list_documents(&self) -> (text: String)
        requires
            self.manager@.wf(),
        ensures
            text@ == self.manager@.list_documents(),
    {
        let ghost manager = self.manager@;
        let documents = self.manager.list_all_documents();
        assert(documents@.len() == manager.listing.len());
        if documents.len() == 0 {
            return "No documents are currently open.".to_owned();
        }
        let mut lines: Vec<String> = Vec::new();
        for i in 0..documents.len()
            invariant
                manager == self.manager@,
                manager.wf(),
                documents.deep_view() == manager.listing,
                lines@.len() == i,
                forall|k: int|
                    0 <= k < i ==> (#[trigger] lines@[k])@ == manager.document_line(
                        manager.listing[k].0,
                        manager.listing[k].1,
                    ),
        {
            let (uri, key) = &documents[i];
            assert(manager.listing[i as int] == (uri@, key@));
            proof {
                lemma_members(manager.listing);
            }
            assert(manager.holds(key@, uri@));
            let client = self.manager.client(key.as_str());
            let word = match client.get_file_progress(uri.as_str()) {
                Some(FileCheckStatus::Checked) => "checked",
                Some(FileCheckStatus::Processing) => "processing",
                None => "unknown",
            };
            let mut line = "  [".to_owned();
            line.append(word);
            line.append("] ");
            line.append(uri.as_str());
            line.append(" (workspace: ");
            line.append(workspace_label(key.as_str()).as_str());
            line.append(")");
            lines.push(line);
        }
        assert(lines.deep_view() =~= Seq::new(
            manager.listing.len(),
            |i: int| manager.document_line(manager.listing[i].0, manager.listing[i].1),
        ));
        let mut text = "Open documents (".to_owned();
        text.append(decimal_text(documents.len() as u128).as_str());
        text.append("):\n");
        text.append(join(&lines, "\n").as_str());
        text
    }

    /// Begins a call of a tool.
    fn begin(&mut self, call: Call<String>) -> (progress: CallProgress)
        requires
            old(self).manager@.wf(),
            old(self).manager@.starting is None,
        ensures
            (final(self).manager@, progress@) == old(self).manager@.begun(call@),
            final(self).manager@.fits(progress@),
    {
        match call {
            Call::OpenFile { path, workspace } => self.tool_open_file(path, workspace),
            Call::OpenDocument { uri, text, workspace } => self.tool_open_document(
                uri,
                text,
                workspace,
            ),
            Call::GetDiagnostics { uri, timeout_ms } => self.tool_get_diagnostics(uri, timeout_ms),
            Call::GetGoalState { uri, position } => self.tool_get_goal_state(uri, position),
            Call::ReplaceDocument { uri, text } => self.tool_replace_document(
                uri.as_str(),
                text.as_str(),
            ),
            Call::ApplyEdit { uri, range, text } => self.tool_apply_edit(
                uri.as_str(),
                range,
                text.as_str(),
            ),
            Call::GetDocumentText { uri } => self.tool_get_document_text(uri.as_str()),
            Call::CloseDocument { uri } => self.tool_close_document(uri),
            Call::FileStatus { uri } => self.tool_file_status(uri.as_str()),
            Call::ListDocuments => Progress::Done { result: Ok(self.tool_list_documents()) },
        }
    }

    /// Goes on with a call when what it waits for has come; what it does not
    /// wait for is passed over.
    fn step(&mut self, stage: CallStage, event: ServerEvent) -> (progress: CallProgress)
        requires
            old(self).manager@.wf(),
            old(self).manager@.suits(stage@),
        ensures
            (final(self).manager@, progress@) == old(self).manager@.stepped(stage@, event@),
            final(self).manager@.fits(progress@),
    {
        match (stage, event) {
            (Stage::Locating { path, workspace }, Event::Canonical { path: found }) => {
                let path = match found {
                    Some(found) => found,
                    None => path,
                };
                Progress::Ask {
                    action: Action::ReadFile { path: path.clone() },
                    stage: Stage::Reading { path, workspace },
                }
            },
            (Stage::Reading { path, workspace }, Event::FileRead { text }) => match text {
                Some(text) => {
                    let uri = file_path_to_uri(path.as_str());
                    self.manager.resolve_workspace(
                        Some(path),
                        workspace,
                        Target { uri, text, from_disk: true },
                    )
                },
                None => {
                    let mut error = "Failed to read file: ".to_owned();
                    error.append(path.as_str());
                    Progress::Done { result: Err(error) }
                },
            },
            (Stage::Resolving { named, target }, Event::Canonical { path }) => {
                let key = match path {
                    Some(path) => path,
                    None => named,
                };
                self.manager.get_or_spawn(key, target)
            },
            (Stage::Inspecting { path, target }, Event::Inspected { is_directory }) =>
                self.manager.detect_lake_workspace(path, target, is_directory),
            (Stage::Probing { directory, candidate, target }, Event::Probed { exists }) =>
                self.manager.probed(directory, candidate, target, exists),
            (Stage::Ascending { directory, target }, Event::Ascended { parent }) =>
                self.manager.ascended(directory.as_str(), target, parent),
            (Stage::Detecting { target }, Event::Canonical { path }) => {
                let key = match path {
                    Some(path) => path,
                    None => self.manager.default_workspace(),
                };
                self.manager.get_or_spawn(key, target)
            },
            (Stage::Spawning { key, target }, Event::Spawned { process_id }) =>
                self.manager.spawned(key, target, process_id),
            (Stage::Spawning { .. }, Event::SpawnFailed { command }) => {
                let mut error = "Failed to spawn: ".to_owned();
                error.append(command.as_str());
                error.append(". Is Lean 4 / Lake installed and on PATH?");
                Progress::Done { result: Err(error) }
            },
            (Stage::Initializing { target, request }, Event::Replied { outcome }) =>
                self.manager.initialized(target, request, outcome),
            (Stage::Confirming { target }, Event::Sent { sent }) => self.manager.confirmed(
                target,
                sent,
            ),
            (Stage::Opening { key, target }, Event::Sent { sent }) => self.manager.opened(
                key,
                target,
                sent,
            ),
            (Stage::Connecting { key, target, request }, Event::Replied { outcome }) =>
                self.manager.connected(key, target, request, outcome),
            (Stage::Changing { text, file, answer }, Event::Sent { sent }) => {
                if !sent {
                    return Progress::Done { result: Err(describe_not_sent()) };
                }
                match file {
                    Some(path) => Progress::Ask {
                        action: Action::WriteFile { path, text },
                        stage: Stage::Writing { answer },
                    },
                    None => Progress::Done { result: Ok(answer) },
                }
            },
            (Stage::Writing { answer }, Event::Written) => Progress::Done { result: Ok(answer) },
            (Stage::Joining { key, uri, position, request }, Event::Replied { outcome }) =>
                self.finish_join(key, uri.as_str(), position, &request, outcome),
            (Stage::Asking { key, request }, Event::Replied { outcome }) => self.finish_goal(
                key.as_str(),
                &request,
                outcome,
            ),
            (Stage::Waiting { key, uri }, Event::Woken { expired }) => self.look(key, uri, expired),
            (Stage::Waiting { key, uri }, Event::Overdue) => self.tell_diagnostics(
                key.as_str(),
                uri.as_str(),
            ),
            (Stage::Settling { key, uri }, Event::Woken { .. }) => self.tell_diagnostics(
                key.as_str(),
                uri.as_str(),
            ),
            (Stage::Closing { key, uri }, Event::Sent { sent }) => self.finish_close(
                key.as_str(),
                uri.as_str(),
                sent,
            ),
            (stage, _) => Progress::Ask { action: Action::Nothing, stage },
        }
    }

    /// Notes how far a call got.
    fn conclude(&mut self, id: Json, progress: CallProgress) -> (action: ServerAction)
        ensures
            (final(self)@, action@) == old(self)@.progressed(id@, progress@),
            progress@ is Done ==> is_one_line(action@),
    {
        match progress {
            Progress::Done { result } => {
                self.run = None;
                write_reply(&JsonRpcResponse::success(id, result_json(result)))
            },
            Progress::Ask { action, stage } => {
                self.run = Some(Run { id, stage });
                action
            },
        }
    }

    /// Answers the request that begins a connection.
    fn handle_initialize(id: Json) -> (response: JsonRpcResponse)
        ensures
            response@ == success_view(id@, server_info()),
    {
        let info: Vec<(String, Json)> = vec![
            member("name", Json::text("lean4-mcp-proxy")),
            member("version", Json::text("0.2.0")),
        ];
        assert(entry_views(info@) =~= seq![
            ("name"@, JsonView::String("lean4-mcp-proxy"@)),
            ("version"@, JsonView::String("0.2.0"@)),
        ]);
        let info = Json::object(info);
        let capabilities = single_member("tools", no_members());
        let ghost info_view = info@;
        let ghost capabilities_view = capabilities@;
        let entries: Vec<(String, Json)> = vec![
            member("protocolVersion", Json::text("2024-11-05")),
            member("capabilities", capabilities),
            member("serverInfo", info),
        ];
        assert(entry_views(entries@) =~= seq![
            ("protocolVersion"@, JsonView::String("2024-11-05"@)),
            ("capabilities"@, capabilities_view),
            ("serverInfo"@, info_view),
        ]);
        JsonRpcResponse::success(id, Json::object(entries))
    }

    /// Answers the request for the tools.
    fn handle_tools_list(id: Json) -> (response: JsonRpcResponse)
        ensures
            response@ == success_view(id@, tool_list()),
    {
        JsonRpcResponse::success(id, list_tools())
    }

    /// Takes a call of a tool.
    fn handle_tools_call(&mut self, id: Json, params: Option<&Json>) -> (action: ServerAction)
        requires
            old(self)@.wf(),
            old(self)@.run is None,
        ensures
            (final(self)@, action@) == old(self)@.called(id@, params.deep_view()),
            final(self)@.wf(),
            is_one_line(action@),
    {
        let params = match params {
            Some(params) => params,
            None => {
                let error = "Internal error: Missing params in tools/call".to_owned();
                return write_reply(&JsonRpcResponse::error(id, INTERNAL_ERROR, error));
            },
        };
        let name = match params.text_at("name") {
            Some(name) => name,
            None => {
                let error = "Internal error: Missing tool name".to_owned();
                return write_reply(&JsonRpcResponse::error(id, INTERNAL_ERROR, error));
            },
        };
        let arguments = match params.get("arguments") {
            Some(arguments) => arguments.clone(),
            None => no_members(),
        };
        let progress = match Call::read(name, &arguments) {
            Ok(call) => self.begin(call),
            Err(error) => Progress::Done { result: Err(error) },
        };
        self.conclude(id, progress)
    }

    /// Takes a request.
    pub fn handle_request(&mut self, message: &Json) -> (action: ServerAction)
        requires
            old(self)@.wf(),
            old(self)@.run is None,
        ensures
            (final(self)@, action@) == old(self)@.requested(message@),
            final(self)@.wf(),
            is_one_line(action@),
    {
        let id = match message.get("id") {
            Some(id) => id.clone(),
            None => Json::Null,
        };
        let method = match message.text_at("method") {
            Some(method) => method,
            None => "",
        };
        proof {
            reveal_strlit("");
            assert(""@ =~= Seq::empty());
        }
        if same_text(method, "notifications/initialized") || same_text(
            method,
            "notifications/cancelled",
        ) {
            return Action::Nothing;
        }
        if same_text(method, "tools/call") {
            return self.handle_tools_call(id, message.get("params"));
        }
        let response = if same_text(method, "initialize") {
            McpServer::handle_initialize(id)
        } else if same_text(method, "tools/list") {
            McpServer::handle_tools_list(id)
        } else if same_text(method, "resources/list") {
            JsonRpcResponse::success(id, no_items("resources"))
        } else if same_text(method, "resources/templates/list") {
            JsonRpcResponse::success(id, no_items("resourceTemplates"))
        } else if same_text(method, "prompts/list") {
            JsonRpcResponse::success(id, no_items("prompts"))
        } else if same_text(method, "ping") {
            JsonRpcResponse::success(id, no_members())
        } else {
            let mut error = "Method not found: ".to_owned();
            error.append(method);
            JsonRpcResponse::error(id, METHOD_NOT_FOUND, error)
        };
        write_reply(&response)
    }

    /// Whether no call is under way, so that the next line can be taken.
    pub fn is_idle(&self) -> (b: bool)
        ensures
            b == (self@.run is None),
    {
        self.run.is_none()
    }

    /// Takes a line that was read.
    pub fn run(&mut self, line: &str) -> (action: ServerAction)
        requires
            old(self)@.wf(),
            old(self)@.run is None,
        ensures
            (final(self)@, action@) == old(self)@.lined(line@),
            final(self)@.wf(),
            is_one_line(action@),
    {
        let text = trim(line);
        if text.as_str().is_empty() {
            return Action::Nothing;
        }
        match Json::parse(text.as_str()) {
            Ok(message) => self.handle_request(&message),
            Err(error) => {
                let mut description = "Parse error: ".to_owned();
                description.append(error.as_str());
                write_reply(&JsonRpcResponse::error(Json::Null, PARSE_ERROR, description))
            },
        }
    }

    /// Goes on with the call that is under way.
    pub fn resume(&mut self, event: ServerEvent) -> (action: ServerAction)
        requires
            old(self)@.wf(),
        ensures
            (final(self)@, action@) == old(self)@.resumed(event@),
            final(self)@.wf(),
            is_one_line(action@),
    {
        match self.run.take() {
            Some(run) => {
                let progress = self.step(run.stage, event);
                self.conclude(run.id, progress)
            },
            None => Action::Nothing,
        }
    }

    /// Takes the body of a message of the language server of a workspace.
    pub fn receive(&mut self, key: &str, body: &[u8]) -> (incoming: Incoming)
        requires
            old(self)@.wf(),
        ensures
            (final(self)@, incoming@) == old(self)@.received(key@, body@),
            final(self)@.wf(),
    {
        self.manager.receive(key, body)
    }

    /// Stores the diagnostics of a document.
    pub fn store_diagnostics(&mut self, key: &str, uri: &str, diagnostics: Vec<LspDiagnostic>)
        requires
            old(self)@.wf(),
        ensures
            final(self)@ == (ServerView {
                manager: old(self)@.manager.diagnosed(key@, uri@, diagnostics.deep_view()),
                ..old(self)@
            }),
            final(self)@.wf(),
    {
        self.manager.store_diagnostics(key, uri, diagnostics);
    }
}

/// The line that tells a response.
fn write_reply(response: &JsonRpcResponse) -> (action: ServerAction)
    ensures
        action@ == reply(response@),
        is_one_line(action@),
{
    Action::Reply { line: response.to_json().to_text() }
}

/// The object whose one member is an array without items.
fn no_items(name: &str) -> (value: Json)
    ensures
        value@ == empty_list(name@),
{
    let items: Vec<Json> = Vec::new();
    assert(item_views(items@) =~= Seq::empty());
    single_member(name, Json::array(items))
}

/// A text as the content of a result.
fn content_json(text: &str) -> (value: Json)
    ensures
        value@ == text_content(text@),
{
    let parts: Vec<(String, Json)> = vec![
        member("type", Json::text("text")),
        member("text", Json::text(text)),
    ];
    assert(entry_views(parts@) =~= seq![
        ("type"@, JsonView::String("text"@)),
        ("text"@, JsonView::String(text@)),
    ]);
    let part = Json::object(parts);
    let ghost view = part@;
    let items: Vec<Json> = vec![part];
    assert(item_views(items@) =~= seq![view]);
    Json::array(items)
}

/// The result of a call of a tool, as it is told.
fn result_json(result: Result<String, String>) -> (value: Json)
    ensures
        value@ == call_result(result_view(result)),
{
    match result {
        Ok(text) => single_member("content", content_json(text.as_str())),
        Err(error) => {
            let mut text = "Error: ".to_owned();
            text.append(error.as_str());
            let content = content_json(text.as_str());
            let ghost view = content@;
            let entries: Vec<(String, Json)> = vec![
                member("content", content),
                member("isError", Json::Bool(true)),
            ];
            assert(entry_views(entries@) =~= seq![
                ("content"@, view),
                ("isError"@, JsonView::Bool(true)),
            ]);
            Json::object(entries)
        },
    }
}

/// The line that tells a diagnostic.
fn describe_diagnostic(diagnostic: &LspDiagnostic) -> (line: String)
    ensures
        line@ == diagnostic_line(diagnostic@),
{
    let severity = match diagnostic.severity {
        Some(1) => "error",
        Some(2) => "warning",
        Some(3) => "info",
        Some(4) => "hint",
        _ => "unknown",
    };
    let range = &diagnostic.range;
    let mut line = "[".to_owned();
    line.append(severity);
    line.append("] ");
    line.append(decimal_text(range.start.line as u128).as_str());
    line.append(":");
    line.append(decimal_text(range.start.character as u128).as_str());
    line.append("-");
    line.append(decimal_text(range.end.line as u128).as_str());
    line.append(":");
    line.append(decimal_text(range.end.character as u128).as_str());
    line.append(": ");
    line.append(diagnostic.message.as_str());
    line
}

/// The text that tells some diagnostics.
pub fn describe_diagnostics(diagnostics: &Vec<LspDiagnostic>) -> (text: String)
    ensures
        text@ == diagnostics_text(diagnostics.deep_view()),
{
    let ghost views = diagnostics.deep_view();
    if diagnostics.len() == 0 {
        return "No diagnostics (errors/warnings) found.".to_owned();
    }
    let mut lines: Vec<String> = Vec::new();
    for i in 0..diagnostics.len()
        invariant
            views == diagnostics.deep_view(),
            lines@.len() == i,
            forall|k: int| 0 <= k < i ==> (#[trigger] lines@[k])@ == diagnostic_line(views[k]),
    {
        assert(views[i as int] == diagnostics@[i as int]@);
        lines.push(describe_diagnostic(&diagnostics[i]));
    }
    assert(lines.deep_view() =~= Seq::new(views.len(), |i: int| diagnostic_line(views[i])));
    join(&lines, "\n")
}

}
