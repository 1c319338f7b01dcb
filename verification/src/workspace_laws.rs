//! How the workspace of a document is found, and how its language server comes
//! to run.

use crate::call_laws::differ_in;
use crate::client_model::{IncomingView, OutcomeView, RequestView};
use crate::connection_laws::{same_document, same_requests};
use crate::jsonrpc::ResponseView;
use crate::lsp::{DiagnosticView, FileCheckStatus};
use crate::message_laws::{
    asks_initialize, confirming_tells_nothing_else, handshake_tells_the_project,
    tells_initialized,
};
use crate::server_model::{ask, diagnostics_text, done, failed, ManagerView};
use crate::steps::{Action, Event, Progress, Stage, Target};
use crate::table::{lemma_listing_set, lemma_listing_without};
use crate::text::{decimal, trimmed};
use crate::tools::Call;
use crate::uri::{path_uri, uri_path};
use vstd::prelude::*;

verus! {

/// A file is read at the path that is given, if that is absolute; else its
/// absolute form is found first, and where it has none the path is taken as it
/// is. Nothing changes.
pub proof fn files_are_read_at_their_path(
    manager: ManagerView,
    path: Seq<char>,
    workspace: Option<Seq<char>>,
    found: Seq<char>,
)
    ensures
        ({
            let (after, progress) = manager.begun(Call::OpenFile { path, workspace });
            &&& after == manager
            &&& path.len() > 0 && path[0] == '/' ==> progress == ask(
                Action::ReadFile { path },
                Stage::Reading { path, workspace },
            )
            &&& path.len() == 0 || path[0] != '/' ==> progress == ask(
                Action::Canonicalize { path },
                Stage::Locating { path, workspace },
            )
        }),
        manager.stepped(
            Stage::Locating { path, workspace },
            Event::Canonical { path: Some(found) },
        ) == (
            manager,
            ask(Action::ReadFile { path: found }, Stage::Reading { path: found, workspace }),
        ),
        manager.stepped(Stage::Locating { path, workspace }, Event::Canonical { path: None }) == (
            manager,
            ask(Action::ReadFile { path }, Stage::Reading { path, workspace }),
        ),
{
}

/// The document to be opened is the file that was read: it has the URI of its
/// path and its text. The workspace that the call names, without the white
/// space around it, is taken if it names one, and else one is looked for from
/// the path on. A file that could not be read is told by its path.
pub proof fn read_files_are_opened(
    manager: ManagerView,
    path: Seq<char>,
    workspace: Option<Seq<char>>,
    text: Seq<char>,
)
    ensures
        ({
            let (after, progress) = manager.stepped(
                Stage::Reading { path, workspace },
                Event::FileRead { text: Some(text) },
            );
            let target = Target { uri: path_uri(path), text, from_disk: true };
            let named = workspace is Some && trimmed(workspace->0).len() > 0;
            &&& after == manager
            &&& named ==> progress == ask(
                Action::Canonicalize { path: trimmed(workspace->0) },
                Stage::Resolving { named: trimmed(workspace->0), target },
            )
            &&& !named ==> progress == ask(
                Action::Inspect { path },
                Stage::Inspecting { path, target },
            )
        }),
        manager.stepped(Stage::Reading { path, workspace }, Event::FileRead { text: None }) == (
            manager,
            failed("Failed to read file: "@ + path),
        ),
{
}

/// The document to be opened is the one that the call gives: it has the URI and
/// the text of the call. The workspace that the call names is taken if it names
/// one; else one is looked for from the path of the URI on, and a URI without a
/// path belongs to the workspace that was given at the start, or to none.
pub proof fn given_documents_are_opened(
    manager: ManagerView,
    uri: Seq<char>,
    text: Seq<char>,
    workspace: Option<Seq<char>>,
)
    ensures
        ({
            let (after, progress) = manager.begun(Call::OpenDocument { uri, text, workspace });
            let target = Target { uri, text, from_disk: false };
            let named = workspace is Some && trimmed(workspace->0).len() > 0;
            &&& named ==> after == manager && progress == ask(
                Action::Canonicalize { path: trimmed(workspace->0) },
                Stage::Resolving { named: trimmed(workspace->0), target },
            )
            &&& !named && uri_path(uri) is Some ==> after == manager && progress == ask(
                Action::Inspect { path: uri_path(uri)->0 },
                Stage::Inspecting { path: uri_path(uri)->0, target },
            )
            &&& !named && uri_path(uri) is None ==> (after, progress) == manager.get_or_spawn(
                match manager.default_lake_root {
                    Some(root) => root,
                    None => Seq::empty(),
                },
                target,
            )
        }),
{
}

/// The search for a workspace begins in the directory, or above the file. A
/// directory is a workspace where it has one of the three files of a Lake
/// project, which are looked for in their order; where it has none, the search
/// goes on in its parent.
pub proof fn directories_are_searched_upwards(
    manager: ManagerView,
    directory: Seq<char>,
    parent: Seq<char>,
    candidate: usize,
    target: Target<Seq<char>>,
)
    ensures
        ({
            let entry = |entry: Seq<char>, directory: Seq<char>, candidate: usize|
                (
                    manager,
                    ask(
                        Action::Probe { directory, entry },
                        Stage::Probing { directory, candidate, target },
                    ),
                );
            let missed = Event::Probed { exists: false };
            let above = (
                manager,
                ask(Action::Ascend { directory }, Stage::Ascending { directory, target }),
            );
            &&& manager.stepped(
                Stage::Inspecting { path: directory, target },
                Event::Inspected { is_directory: true },
            ) == entry("lakefile.lean"@, directory, 0)
            &&& manager.stepped(
                Stage::Inspecting { path: directory, target },
                Event::Inspected { is_directory: false },
            ) == above
            &&& manager.stepped(Stage::Probing { directory, candidate: 0, target }, missed)
                == entry("lakefile.toml"@, directory, 1)
            &&& manager.stepped(Stage::Probing { directory, candidate: 1, target }, missed)
                == entry("lakefile"@, directory, 2)
            &&& manager.stepped(Stage::Probing { directory, candidate: 2, target }, missed)
                == above
            &&& manager.stepped(
                Stage::Probing { directory, candidate, target },
                Event::Probed { exists: true },
            ) == (
                manager,
                ask(Action::Canonicalize { path: directory }, Stage::Detecting { target }),
            )
            &&& parent != directory ==> manager.stepped(
                Stage::Ascending { directory, target },
                Event::Ascended { parent: Some(parent) },
            ) == entry("lakefile.lean"@, parent, 0)
        }),
{
}

/// The workspace of a document is the absolute form of the directory that was
/// named or found; where a named one has no absolute form it is taken as it is,
/// and where a found one has none, or none was found, it is the one that was
/// given at the start, or none.
pub proof fn found_workspaces_are_taken(
    manager: ManagerView,
    named: Seq<char>,
    found: Seq<char>,
    directory: Seq<char>,
    target: Target<Seq<char>>,
)
    ensures
        ({
            let given = match manager.default_lake_root {
                Some(root) => root,
                None => Seq::empty(),
            };
            &&& manager.stepped(
                Stage::Resolving { named, target },
                Event::Canonical { path: Some(found) },
            ) == manager.get_or_spawn(found, target)
            &&& manager.stepped(
                Stage::Resolving { named, target },
                Event::Canonical { path: None },
            ) == manager.get_or_spawn(named, target)
            &&& manager.stepped(
                Stage::Detecting { target },
                Event::Canonical { path: Some(found) },
            ) == manager.get_or_spawn(found, target)
            &&& manager.stepped(Stage::Detecting { target }, Event::Canonical { path: None })
                == manager.get_or_spawn(given, target)
            &&& manager.stepped(
                Stage::Ascending { directory, target },
                Event::Ascended { parent: None },
            ) == manager.get_or_spawn(given, target)
            &&& manager.stepped(
                Stage::Ascending { directory, target },
                Event::Ascended { parent: Some(directory) },
            ) == manager.get_or_spawn(given, target)
        }),
{
}

/// A workspace whose language server runs is served by it. For another one it is
/// started, in the directory of the workspace, or in none for the workspace
/// that has none; nothing changes before it is.
pub proof fn servers_are_started_in_their_workspace(
    manager: ManagerView,
    key: Seq<char>,
    target: Target<Seq<char>>,
    command: Seq<char>,
)
    ensures
        manager.clients.dom().contains(key) ==> manager.get_or_spawn(key, target)
            == manager.place(key, target),
        !manager.clients.dom().contains(key) ==> manager.get_or_spawn(key, target) == (
            manager,
            ask(
                Action::Spawn {
                    key,
                    lake_root: if key.len() > 0 {
                        Some(key)
                    } else {
                        None
                    },
                },
                Stage::Spawning { key, target },
            ),
        ),
        manager.stepped(Stage::Spawning { key, target }, Event::SpawnFailed { command }) == (
            manager,
            failed(
                "Failed to spawn: "@ + command + ". Is Lean 4 / Lake installed and on PATH?"@,
            ),
        ),
{
}

/// A language server that was started is sent the handshake first, with its
/// project. When it answers, the handshake is confirmed; when that was sent, it
/// runs for its workspace, and the document is placed in it.
pub proof fn servers_run_after_the_handshake(
    manager: ManagerView,
    key: Seq<char>,
    target: Target<Seq<char>>,
    process_id: u32,
    response: ResponseView,
    uri: Seq<char>,
)
    requires
        response.error is None,
    ensures
        ({
            let root = if key.len() > 0 {
                Some(key)
            } else {
                None
            };
            let (started, progress) = manager.stepped(
                Stage::Spawning { key, target },
                Event::Spawned { process_id },
            );
            let (answered, confirming) = started.stepped(
                progress->stage,
                Event::Replied { outcome: OutcomeView::Response(response) },
            );
            let (after, placing) = answered.stepped(
                confirming->stage,
                Event::Sent { sent: true },
            );
            let client = (answered.starting->0).1;
            let running = ManagerView {
                clients: manager.clients.insert(key, client),
                listing: manager.listing,
                default_lake_root: manager.default_lake_root,
                starting: None,
            };
            &&& progress matches Progress::Ask {
                action: Action::Request { key: to, request },
                stage: Stage::Initializing { target: kept, request: awaited },
            } && to == key && kept == target && awaited == request && asks_initialize(
                request.frame,
                1,
                process_id,
                root,
            ) && request.method == "initialize"@ && request.timeout_secs == 60
            &&& started.clients == manager.clients
            &&& started.listing == manager.listing
            &&& confirming matches Progress::Ask {
                action: Action::Send { key: to, frame },
                stage: Stage::Confirming { target: kept },
            } && to == key && kept == target && tells_initialized(frame)
            &&& answered.clients == manager.clients
            &&& answered.listing == manager.listing
            &&& answered.starting matches Some((starting, _)) && starting == key
            &&& !client.documents.dom().contains(uri)
            &&& client.diagnostics_at(uri).len() == 0
            &&& client.progress_at(uri) is None
            &&& client.next_request_id == 2
            &&& client.lake_root == root
            &&& (after, placing) == running.place(key, target)
        }),
{
    let root = if key.len() > 0 {
        Some(key)
    } else {
        None
    };
    handshake_tells_the_project(1, process_id, root);
    confirming_tells_nothing_else();
}

/// A handshake that fails is given up: the reason is told, no language server is
/// starting any more, and what runs and is open is as it was.
pub proof fn failed_handshakes_are_given_up(
    manager: ManagerView,
    target: Target<Seq<char>>,
    request: RequestView,
    outcome: OutcomeView,
)
    requires
        manager.starting is Some,
        outcome matches OutcomeView::Response(response) ==> response.error is Some,
    ensures
        ({
            let given_up = ManagerView {
                clients: manager.clients,
                listing: manager.listing,
                default_lake_root: manager.default_lake_root,
                starting: None,
            };
            let (after, progress) = manager.stepped(
                Stage::Initializing { target, request },
                Event::Replied { outcome },
            );
            &&& after == given_up
            &&& outcome matches OutcomeView::Response(response) ==> progress == failed(
                "Lean initialization failed: "@ + response.error->0.message,
            )
            &&& outcome is NotSent ==> progress == failed("Failed to send to lean stdin channel"@)
            &&& outcome is Closed ==> progress == failed(
                "Response channel closed before receiving response for "@ + request.method,
            )
            &&& outcome is TimedOut ==> progress == failed(
                "Timed out waiting for Lean response to "@ + request.method + " ("@ + decimal(
                    request.timeout_secs as nat,
                ) + "s)"@,
            )
            &&& manager.stepped(Stage::Confirming { target }, Event::Sent { sent: false }) == (
                given_up,
                failed("Failed to send notification to lean stdin channel"@),
            )
        }),
{
}

/// A message of a language server is handled by its own connection, whether it
/// runs or is in the handshake; no other language server, and nothing else,
/// changes. One of a language server that there is not has no effect.
pub proof fn messages_reach_their_server(
    manager: ManagerView,
    key: Seq<char>,
    body: Seq<u8>,
    other: Seq<char>,
)
    ensures
        ({
            let (after, incoming) = manager.received(key, body);
            let starting = manager.starting is Some && (manager.starting->0).0 == key;
            &&& after.listing == manager.listing
            &&& after.default_lake_root == manager.default_lake_root
            &&& other != key ==> after.clients.dom().contains(other)
                == manager.clients.dom().contains(other) && after.clients[other]
                == manager.clients[other]
            &&& manager.clients.dom().contains(key) ==> (after.clients[key], incoming)
                == manager.clients[key].read(body) && after.clients.dom().contains(key)
                && after.starting == manager.starting
            &&& !manager.clients.dom().contains(key) ==> after.clients == manager.clients
            &&& !manager.clients.dom().contains(key) && starting ==> (
                (after.starting->0).1,
                incoming,
            ) == (manager.starting->0).1.read(body) && after.starting is Some
                && (after.starting->0).0 == key
            &&& !manager.clients.dom().contains(key) && !starting ==> after == manager
                && incoming == IncomingView::Nothing
        }),
{
}

/// The diagnostics that are told of a document are the ones that its language
/// server published last. Those of every other document are as they were, and
/// so is everything else.
pub proof fn told_diagnostics_are_the_last(
    manager: ManagerView,
    key: Seq<char>,
    uri: Seq<char>,
    earlier: Seq<DiagnosticView>,
    last: Seq<DiagnosticView>,
    other: Seq<char>,
)
    requires
        manager.clients.dom().contains(key),
    ensures
        ({
            let after = manager.diagnosed(key, uri, last);
            let twice = manager.diagnosed(key, uri, earlier).diagnosed(key, uri, last);
            &&& after.stepped(Stage::Settling { key, uri }, Event::Woken { expired: false }) == (
                after,
                done(diagnostics_text(last)),
            )
            &&& after.stepped(Stage::Settling { key, uri }, Event::Woken { expired: true }) == (
                after,
                done(diagnostics_text(last)),
            )
            &&& after.stepped(Stage::Waiting { key, uri }, Event::Overdue) == (
                after,
                done(diagnostics_text(last)),
            )
            &&& twice.stepped(Stage::Waiting { key, uri }, Event::Overdue) == (
                twice,
                done(diagnostics_text(last)),
            )
            &&& after.clients[key].diagnostics_at(uri) == last
            &&& other != uri ==> after.clients[key].diagnostics_at(other)
                == manager.clients[key].diagnostics_at(other)
            &&& other != uri ==> same_document(
                after.clients[key],
                manager.clients[key],
                other,
            )
            &&& after.clients[key].documents == manager.clients[key].documents
            &&& after.clients[key].progress == manager.clients[key].progress
            &&& same_requests(after.clients[key], manager.clients[key])
            &&& differ_in(after, manager, key)
        }),
{
}

/// Diagnostics that come in the handshake are kept for the language server that
/// is starting, and those of a language server that there is not have no effect.
pub proof fn early_diagnostics_are_kept(
    manager: ManagerView,
    key: Seq<char>,
    uri: Seq<char>,
    diagnostics: Seq<DiagnosticView>,
)
    requires
        !manager.clients.dom().contains(key),
    ensures
        ({
            let after = manager.diagnosed(key, uri, diagnostics);
            let starting = manager.starting is Some && (manager.starting->0).0 == key;
            &&& !starting ==> after == manager
            &&& starting ==> after.starting is Some && (after.starting->0).0 == key
                && (after.starting->0).1.diagnostics_at(uri) == diagnostics
                && (after.starting->0).1.documents == (manager.starting->0).1.documents
                && after.clients == manager.clients && after.listing == manager.listing
        }),
{
}

/// The wait for the diagnostics of an open document: Lean gets a moment to
/// begin, and the time is the one that the call gives. As long as Lean is not
/// done and time is left, news of its language server are awaited; when Lean is
/// done, the last diagnostics get another moment. Nothing changes meanwhile.
pub proof fn diagnostics_are_waited_for(
    manager: ManagerView,
    key: Seq<char>,
    uri: Seq<char>,
    timeout_ms: u64,
    expired: bool,
)
    requires
        manager.uris().dom().contains(uri),
        manager.uris()[uri] == key,
    ensures
        manager.begun(Call::GetDiagnostics { uri, timeout_ms }) == (
            manager,
            ask(Action::BeginWait { timeout_ms, pause_ms: 300 }, Stage::Waiting { key, uri }),
        ),
        ({
            let (after, progress) = manager.stepped(
                Stage::Waiting { key, uri },
                Event::Woken { expired },
            );
            let checked = manager.clients[key].progress.dom().contains(uri)
                && manager.clients[key].progress[uri] == FileCheckStatus::Checked;
            &&& after == manager
            &&& checked ==> progress == ask(
                Action::Pause { pause_ms: 100 },
                Stage::Settling { key, uri },
            )
            &&& !checked && !expired ==> progress == ask(
                Action::AwaitNews { key },
                Stage::Waiting { key, uri },
            )
            &&& !checked && expired ==> progress == done(
                diagnostics_text(manager.clients[key].diagnostics_at(uri)),
            )
        }),
        manager.stepped(Stage::Waiting { key, uri }, Event::Overdue) == (
            manager,
            done(diagnostics_text(manager.clients[key].diagnostics_at(uri))),
        ),
        manager.stepped(Stage::Settling { key, uri }, Event::Woken { expired }) == (
            manager,
            done(diagnostics_text(manager.clients[key].diagnostics_at(uri))),
        ),
{
}

/// A document that is registered belongs to its workspace, and one that is not
/// to none, which is told with its URI; every other document belongs to the
/// workspace that it belonged to. No language server changes.
pub proof fn registered_documents_are_found(
    manager: ManagerView,
    uri: Seq<char>,
    key: Seq<char>,
    other: Seq<char>,
)
    requires
        manager.wf(),
    ensures
        ({
            let registered = manager.registered(uri, key);
            let removed = manager.unregistered(uri);
            &&& registered.client_for_uri(uri) == Ok::<Seq<char>, Seq<char>>(key)
            &&& removed.client_for_uri(uri) == Err::<Seq<char>, Seq<char>>(
                "Document not open: "@ + uri + ". Use open_file or open_document first."@,
            )
            &&& other != uri ==> registered.client_for_uri(other) == manager.client_for_uri(other)
            &&& other != uri ==> removed.client_for_uri(other) == manager.client_for_uri(other)
            &&& registered.clients == manager.clients
            &&& removed.clients == manager.clients
            &&& registered.starting == manager.starting
            &&& removed.starting == manager.starting
            &&& registered.default_lake_root == manager.default_lake_root
            &&& removed.default_lake_root == manager.default_lake_root
        }),
{
    lemma_listing_set(manager.listing, uri, key);
    lemma_listing_without(manager.listing, uri);
}

}
