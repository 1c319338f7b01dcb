//! The language servers, one for each workspace, and the documents that are
//! open in them.

use crate::client_model::{ClientView, Incoming, PendingRequest, RequestOutcome, SessionStep};
use crate::lean_client::{describe_no_request_id, LeanClient};
use crate::lsp::LspDiagnostic;
use crate::server_model::{
    label, not_sent, opened_answer, refreshed_answer, root_of, ManagerView,
};
use crate::steps::{Action, CallProgress, Progress, Stage, StageView, Target};
use crate::table::{lemma_listing_set, lemma_listing_without, Table};
use crate::text::{decimal_text, result_view, same_text, trim};
use vstd::prelude::*;
use vstd::string::*;

verus! {

/// The language servers and the documents that are open in them.
pub struct ClientManager {
    clients: Table<LeanClient>,
    uri_to_workspace: Table<String>,
    default_lake_root: Option<String>,
    /// The language server whose handshake is under way, with its key.
    starting: Option<(String, LeanClient)>,
}

impl View for ClientManager {
    type V = ManagerView;

    closed spec fn view(&self) -> ManagerView {
        ManagerView {
            clients: self.clients@,
            listing: self.uri_to_workspace.listing(),
            default_lake_root: self.default_lake_root.deep_view(),
            starting: match self.starting {
                Some((key, client)) => Some((key@, client@)),
                None => None,
            },
        }
    }
}

/// A language server may take another state, as long as no document is lost
/// in it.
pub proof fn lemma_with_client(manager: ManagerView, key: Seq<char>, client: ClientView)
    requires
        manager.wf(),
        client.wf(),
        manager.starting matches Some((other, _)) ==> other != key,
        manager.clients.dom().contains(key) ==> manager.clients[key].documents.dom().subset_of(
            client.documents.dom(),
        ),
    ensures
        manager.with_client(key, client).wf(),
{
    let after = manager.with_client(key, client);
    assert forall|uri: Seq<char>| #[trigger] after.uris().dom().contains(uri) implies after.holds(
        after.uris()[uri],
        uri,
    ) by {
        assert(manager.uris().dom().contains(uri));
        assert(manager.holds(manager.uris()[uri], uri));
    }
}

/// A document may be given to a workspace in which it is open.
pub proof fn lemma_registered(manager: ManagerView, uri: Seq<char>, key: Seq<char>)
    requires
        manager.wf(),
        manager.holds(key, uri),
    ensures
        manager.registered(uri, key).wf(),
{
    let after = manager.registered(uri, key);
    lemma_listing_set(manager.listing, uri, key);
    assert forall|other: Seq<char>| #[trigger]
        after.uris().dom().contains(other) implies after.holds(after.uris()[other], other) by {
        if other != uri {
            assert(manager.uris().dom().contains(other));
            assert(manager.holds(manager.uris()[other], other));
        }
    }
}

/// A document may be closed in the language server of a workspace when it is
/// taken from its own.
pub proof fn lemma_closed(manager: ManagerView, key: Seq<char>, uri: Seq<char>, client: ClientView)
    requires
        manager.wf(),
        manager.starting is None,
        manager.clients.dom().contains(key),
        client.wf(),
        client.documents == manager.clients[key].documents.remove(uri),
    ensures
        manager.with_client(key, client).unregistered(uri).wf(),
{
    let after = manager.with_client(key, client).unregistered(uri);
    lemma_listing_without(manager.listing, uri);
    assert forall|other: Seq<char>| #[trigger]
        after.uris().dom().contains(other) implies after.holds(after.uris()[other], other) by {
        assert(manager.uris().dom().contains(other));
        assert(manager.holds(manager.uris()[other], other));
    }
}

impl ClientManager {
    /// No language server runs, and no document is open.
    pub fn new(default_lake_root: Option<String>) -> (manager: ClientManager)
        ensures
            manager@ == ManagerView::fresh(default_lake_root.deep_view()),
            manager@.wf(),
    {
        ClientManager {
            clients: Table::new(),
            uri_to_workspace: Table::new(),
            default_lake_root,
            starting: None,
        }
    }

    /// Whether the language server of a workspace runs.
    pub fn runs(&self, key: &str) -> (b: bool)
        ensures
            b == self@.clients.dom().contains(key@),
    {
        self.clients.contains(key)
    }

    /// The language server of a workspace.
    pub fn client(&self, key: &str) -> (client: &LeanClient)
        requires
            self@.clients.dom().contains(key@),
        ensures
            client@ == self@.clients[key@],
    {
        self.clients.get(key).unwrap()
    }

    /// Takes out the language server of a workspace, to change it.
    pub(crate) fn take_client(&mut self, key: &str) -> (client: LeanClient)
        requires
            old(self)@.clients.dom().contains(key@),
        ensures
            final(self)@ == (ManagerView {
                clients: old(self)@.clients.remove(key@),
                ..old(self)@
            }),
            client@ == old(self)@.clients[key@],
    {
        self.clients.take(key)
    }

    /// Puts in the language server of a workspace.
    pub(crate) fn put_client(&mut self, key: &str, client: LeanClient)
        ensures
            final(self)@ == old(self)@.with_client(key@, client@),
    {
        self.clients.insert(key, client);
    }

    /// Gives a document to a workspace.
    pub fn register_uri(&mut self, uri: &str, key: &str)
        ensures
            final(self)@ == old(self)@.registered(uri@, key@),
    {
        self.uri_to_workspace.insert(uri, key.to_owned());
    }

    /// Takes a document from its workspace.
    pub fn unregister_uri(&mut self, uri: &str)
        ensures
            final(self)@ == old(self)@.unregistered(uri@),
    {
        let _ = self.uri_to_workspace.remove(uri);
    }

    /// The workspace of a document.
    pub fn client_for_uri(&self, uri: &str) -> (key: Result<String, String>)
        ensures
            result_view(key) == self@.client_for_uri(uri@),
    {
        match self.uri_to_workspace.get(uri) {
            Some(key) => Ok(key.clone()),
            None => {
                let mut error = "Document not open: ".to_owned();
                error.append(uri);
                error.append(". Use open_file or open_document first.");
                Err(error)
            },
        }
    }

    /// The documents, each with its workspace.
    pub fn list_all_documents(&self) -> (documents: Vec<(String, String)>)
        ensures
            documents.deep_view() == self@.listing,
    {
        let mut documents: Vec<(String, String)> = Vec::new();
        let ghost listing = self@.listing;
        let count: usize = self.uri_to_workspace.len();
        for i in 0..count
            invariant
                count == listing.len(),
                listing == self.uri_to_workspace.listing(),
                documents.deep_view() == listing.take(i as int),
        {
            let (uri, key) = self.uri_to_workspace.entry(i);
            let ghost before = documents.deep_view();
            documents.push((uri.to_owned(), key.clone()));
            assert(documents.deep_view() =~= before.push(listing[i as int]));
            assert(listing.take(i as int).push(listing[i as int]) =~= listing.take(i + 1));
        }
        assert(listing.take(listing.len() as int) =~= listing);
        documents
    }

    /// The workspace of a document for which none is named or found.
    pub fn default_workspace(&self) -> (key: String)
        ensures
            key@ == self@.default_workspace(),
    {
        match &self.default_lake_root {
            Some(root) => root.clone(),
            None => String::new(),
        }
    }

    /// Finds the workspace of a document.
    pub fn resolve_workspace(
        &mut self,
        path: Option<String>,
        workspace: Option<String>,
        target: Target<String>,
    ) -> (progress: CallProgress)
        requires
            old(self)@.wf(),
            old(self)@.starting is None,
        ensures
            (final(self)@, progress@) == old(self)@.resolve_workspace(
                path.deep_view(),
                workspace.deep_view(),
                target@,
            ),
            final(self)@.fits(progress@),
    {
        let named = match &workspace {
            Some(workspace) => trim(workspace.as_str()),
            None => String::new(),
        };
        if !named.as_str().is_empty() {
            return Progress::Ask {
                action: Action::Canonicalize { path: named.clone() },
                stage: Stage::Resolving { named, target },
            };
        }
        match path {
            Some(path) => Progress::Ask {
                action: Action::Inspect { path: path.clone() },
                stage: Stage::Inspecting { path, target },
            },
            None => {
                let key = self.default_workspace();
                self.get_or_spawn(key, target)
            },
        }
    }

    /// Looks whether a directory holds a candidate.
    pub fn probe(&self, directory: String, candidate: usize, target: Target<String>) -> (progress:
        CallProgress)
        requires
            self@.wf(),
            self@.starting is None,
            candidate < 3,
        ensures
            progress@ == self@.probe(directory@, candidate, target@),
            self@.fits(progress@),
    {
        let entry = if candidate == 0 {
            "lakefile.lean"
        } else if candidate == 1 {
            "lakefile.toml"
        } else {
            "lakefile"
        };
        Progress::Ask {
            action: Action::Probe { directory: directory.clone(), entry: entry.to_owned() },
            stage: Stage::Probing { directory, candidate, target },
        }
    }

    /// Begins the search for the Lake project of a path.
    pub fn detect_lake_workspace(
        &self,
        path: String,
        target: Target<String>,
        is_directory: bool,
    ) -> (progress: CallProgress)
        requires
            self@.wf(),
            self@.starting is None,
        ensures
            progress@ == self@.detect_lake_workspace(path@, target@, is_directory),
            self@.fits(progress@),
    {
        if is_directory {
            self.probe(path, 0, target)
        } else {
            Progress::Ask {
                action: Action::Ascend { directory: path.clone() },
                stage: Stage::Ascending { directory: path, target },
            }
        }
    }

    /// Goes on when it is known whether a directory holds a candidate.
    pub fn probed(
        &self,
        directory: String,
        candidate: usize,
        target: Target<String>,
        exists: bool,
    ) -> (progress: CallProgress)
        requires
            self@.wf(),
            self@.starting is None,
            candidate < 3,
        ensures
            progress@ == self@.probed(directory@, candidate, target@, exists),
            self@.fits(progress@),
    {
        if exists {
            Progress::Ask {
                action: Action::Canonicalize { path: directory },
                stage: Stage::Detecting { target },
            }
        } else if candidate < 2 {
            self.probe(directory, candidate + 1, target)
        } else {
            Progress::Ask {
                action: Action::Ascend { directory: directory.clone() },
                stage: Stage::Ascending { directory, target },
            }
        }
    }

    /// Goes on with the parent of a directory.
    pub fn ascended(&mut self, directory: &str, target: Target<String>, parent: Option<String>) -> (
    progress: CallProgress)
        requires
            old(self)@.wf(),
            old(self)@.starting is None,
        ensures
            (final(self)@, progress@) == old(self)@.ascended(
                directory@,
                target@,
                parent.deep_view(),
            ),
            final(self)@.fits(progress@),
    {
        match parent {
            Some(parent) => if !same_text(parent.as_str(), directory) {
                return self.probe(parent, 0, target);
            },
            None => {},
        }
        let key = self.default_workspace();
        self.get_or_spawn(key, target)
    }

    /// Goes on with the workspace of a document.
    pub fn get_or_spawn(&mut self, key: String, target: Target<String>) -> (progress: CallProgress)
        requires
            old(self)@.wf(),
            old(self)@.starting is None,
        ensures
            (final(self)@, progress@) == old(self)@.get_or_spawn(key@, target@),
            final(self)@.fits(progress@),
    {
        if self.runs(key.as_str()) {
            return self.place(key, target);
        }
        Progress::Ask {
            action: Action::Spawn { key: key.clone(), lake_root: lake_root(key.as_str()) },
            stage: Stage::Spawning { key, target },
        }
    }

    /// Opens a document in the language server of its workspace.
    pub fn place(&mut self, key: String, target: Target<String>) -> (progress: CallProgress)
        requires
            old(self)@.wf(),
            old(self)@.starting is None,
            old(self)@.clients.dom().contains(key@),
        ensures
            (final(self)@, progress@) == old(self)@.place(key@, target@),
            final(self)@.fits(progress@),
    {
        let ghost before = self@;
        if self.client(key.as_str()).is_document_open(target.uri.as_str()) {
            let answer = describe_refreshed(&target, key.as_str());
            let mut client = self.take_client(key.as_str());
            let result = client.replace_document(target.uri.as_str(), target.text.as_str());
            proof {
                lemma_with_client(before, key@, client@);
            }
            self.put_client(key.as_str(), client);
            assert(self@.clients =~= before.clients.insert(key@, client@));
            match result {
                Ok(change) => Progress::Ask {
                    action: Action::Send { key, frame: change.frame },
                    stage: Stage::Changing { text: change.text, file: change.path, answer },
                },
                Err(error) => Progress::Done { result: Err(error) },
            }
        } else {
            let mut client = self.take_client(key.as_str());
            let frame = client.open_document(target.uri.as_str(), target.text.as_str());
            proof {
                lemma_with_client(before, key@, client@);
            }
            self.put_client(key.as_str(), client);
            assert(self@.clients =~= before.clients.insert(key@, client@));
            Progress::Ask {
                action: Action::Send { key: key.clone(), frame },
                stage: Stage::Opening { key, target },
            }
        }
    }

    /// Begins the handshake with a language server that was started.
    pub fn spawned(&mut self, key: String, target: Target<String>, process_id: u32) -> (progress:
        CallProgress)
        requires
            old(self)@.wf(),
            old(self)@.starting is None,
            !old(self)@.clients.dom().contains(key@),
        ensures
            (final(self)@, progress@) == old(self)@.spawned(key@, target@, process_id),
            final(self)@.fits(progress@),
    {
        let mut client = LeanClient::new(lake_root(key.as_str()));
        let request = client.initialize(process_id);
        let again = request.clone();
        self.starting = Some((key.clone(), client));
        Progress::Ask {
            action: Action::Request { key, request },
            stage: Stage::Initializing { target, request: again },
        }
    }

    /// Goes on when the handshake was answered.
    pub fn initialized(
        &mut self,
        target: Target<String>,
        request: PendingRequest,
        outcome: RequestOutcome,
    ) -> (progress: CallProgress)
        requires
            old(self)@.wf(),
            old(self)@.starting is Some,
        ensures
            (final(self)@, progress@) == old(self)@.initialized(target@, request@, outcome@),
            final(self)@.fits(progress@),
    {
        let (key, mut client) = self.starting.take().unwrap();
        match client.finish_initialize(&request, outcome) {
            Ok(frame) => {
                self.starting = Some((key.clone(), client));
                Progress::Ask {
                    action: Action::Send { key, frame },
                    stage: Stage::Confirming { target },
                }
            },
            Err(error) => Progress::Done { result: Err(error) },
        }
    }

    /// Goes on when the handshake was confirmed.
    pub fn confirmed(&mut self, target: Target<String>, sent: bool) -> (progress: CallProgress)
        requires
            old(self)@.wf(),
            old(self)@.starting is Some,
        ensures
            (final(self)@, progress@) == old(self)@.confirmed(target@, sent),
            final(self)@.fits(progress@),
    {
        let (key, client) = self.starting.take().unwrap();
        if !sent {
            return Progress::Done { result: Err(describe_not_sent()) };
        }
        proof {
            lemma_with_client(self@, key@, client@);
        }
        self.put_client(key.as_str(), client);
        self.place(key, target)
    }

    /// Goes on when a document was sent.
    pub fn opened(&mut self, key: String, target: Target<String>, sent: bool) -> (progress:
        CallProgress)
        requires
            old(self)@.wf(),
            old(self)@.starting is None,
            old(self)@.clients.dom().contains(key@),
        ensures
            (final(self)@, progress@) == old(self)@.opened(key@, target@, sent),
            final(self)@.fits(progress@),
    {
        if !sent {
            return Progress::Done { result: Err(describe_not_sent()) };
        }
        let ghost before = self@;
        let mut client = self.take_client(key.as_str());
        client.document_opened(target.uri.as_str(), target.text.as_str());
        if !client.can_request() {
            proof {
                lemma_with_client(before, key@, client@);
            }
            self.put_client(key.as_str(), client);
            assert(self@.clients =~= before.clients.insert(key@, client@));
            return Progress::Done { result: Err(describe_no_request_id()) };
        }
        let step = client.ensure_rpc_session(target.uri.as_str());
        proof {
            lemma_with_client(before, key@, client@);
        }
        self.put_client(key.as_str(), client);
        assert(self@.clients =~= before.clients.insert(key@, client@));
        match step {
            SessionStep::Ready { .. } => {
                proof {
                    lemma_registered(self@, target.uri@, key@);
                }
                self.register_uri(target.uri.as_str(), key.as_str());
                Progress::Done { result: Ok(describe_opened(&target, key.as_str())) }
            },
            SessionStep::Connect { request } => {
                let again = request.clone();
                Progress::Ask {
                    action: Action::Request { key: key.clone(), request },
                    stage: Stage::Connecting { key, target, request: again },
                }
            },
        }
    }

    /// Goes on when the request for a document's session has ended.
    pub fn connected(
        &mut self,
        key: String,
        target: Target<String>,
        request: PendingRequest,
        outcome: RequestOutcome,
    ) -> (progress: CallProgress)
        requires
            old(self)@.wf(),
            old(self)@.starting is None,
            old(self)@.holds(key@, target.uri@),
        ensures
            (final(self)@, progress@) == old(self)@.connected(
                key@,
                target@,
                request@,
                outcome@,
            ),
            final(self)@.fits(progress@),
    {
        let ghost before = self@;
        let mut client = self.take_client(key.as_str());
        let result = client.finish_rpc_session(target.uri.as_str(), &request, outcome);
        proof {
            lemma_with_client(before, key@, client@);
        }
        self.put_client(key.as_str(), client);
        assert(self@.clients =~= before.clients.insert(key@, client@));
        match result {
            Ok(_) => {
                proof {
                    lemma_registered(self@, target.uri@, key@);
                }
                self.register_uri(target.uri.as_str(), key.as_str());
                Progress::Done { result: Ok(describe_opened(&target, key.as_str())) }
            },
            Err(error) => Progress::Done { result: Err(error) },
        }
    }

    /// Takes the body of a message of the language server of a workspace.
    pub fn receive(&mut self, key: &str, body: &[u8]) -> (incoming: Incoming)
        requires
            old(self)@.wf(),
        ensures
            (final(self)@, incoming@) == old(self)@.received(key@, body@),
            final(self)@.wf(),
            forall|stage: StageView|
                old(self)@.suits(stage) ==> #[trigger] final(self)@.suits(stage),
    {
        let ghost before = self@;
        if self.runs(key) {
            let mut client = self.take_client(key);
            let incoming = client.receive(body);
            proof {
                lemma_with_client(before, key@, client@);
            }
            self.put_client(key, client);
            assert(self@.clients =~= before.clients.insert(key@, client@));
            return incoming;
        }
        match self.starting.take() {
            Some((other, mut client)) => {
                let incoming = if same_text(other.as_str(), key) {
                    client.receive(body)
                } else {
                    Incoming::Nothing
                };
                self.starting = Some((other, client));
                incoming
            },
            None => Incoming::Nothing,
        }
    }

    /// Stores the diagnostics of a document.
    pub fn store_diagnostics(&mut self, key: &str, uri: &str, diagnostics: Vec<LspDiagnostic>)
        requires
            old(self)@.wf(),
        ensures
            final(self)@ == old(self)@.diagnosed(key@, uri@, diagnostics.deep_view()),
            final(self)@.wf(),
            forall|stage: StageView|
                old(self)@.suits(stage) ==> #[trigger] final(self)@.suits(stage),
    {
        let ghost before = self@;
        if self.runs(key) {
            let mut client = self.take_client(key);
            client.store_diagnostics(uri, diagnostics);
            proof {
                lemma_with_client(before, key@, client@);
            }
            self.put_client(key, client);
            assert(self@.clients =~= before.clients.insert(key@, client@));
            return ;
        }
        match self.starting.take() {
            Some((other, mut client)) => {
                if same_text(other.as_str(), key) {
                    client.store_diagnostics(uri, diagnostics);
                }
                self.starting = Some((other, client));
            },
            None => {},
        }
    }
}

/// The root of the Lake project of a workspace.
fn lake_root(key: &str) -> (root: Option<String>)
    ensures
        root.deep_view() == root_of(key@),
{
    if key.is_empty() {
        None
    } else {
        Some(key.to_owned())
    }
}

/// The name of a workspace in what is told of it.
pub fn workspace_label(key: &str) -> (text: String)
    ensures
        text@ == label(key@),
{
    if key.is_empty() {
        "standalone".to_owned()
    } else {
        key.to_owned()
    }
}

/// What is told when a document was open already.
fn describe_refreshed(target: &Target<String>, key: &str) -> (text: String)
    ensures
        text@ == refreshed_answer(target@, key@),
{
    let mut text = "Document ".to_owned();
    text.append(target.uri.as_str());
    text.append(" was already open; content ");
    text.append(
        if target.from_disk {
            "refreshed from disk"
        } else {
            "replaced"
        },
    );
    text.append(". (workspace: ");
    text.append(workspace_label(key).as_str());
    text.append(")");
    text
}

/// What is told when a document has been opened.
fn describe_opened(target: &Target<String>, key: &str) -> (text: String)
    ensures
        text@ == opened_answer(target@, key@),
{
    let mut text = "Document ".to_owned();
    text.append(target.uri.as_str());
    text.append(" opened successfully");
    if target.from_disk {
        text.append(" (");
        text.append(decimal_text(target.text.as_str().as_bytes().len() as u128).as_str());
        text.append(" bytes)");
    }
    text.append(". (workspace: ");
    text.append(workspace_label(key).as_str());
    text.append(")");
    assert(text@ =~= opened_answer(target@, key@));
    text
}

/// The text that tells that bytes could not be sent.
pub fn describe_not_sent() -> (text: String)
    ensures
        text@ == not_sent(),
{
    "Failed to send notification to lean stdin channel".to_owned()
}

}
