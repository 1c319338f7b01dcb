//! What holds of the server over several steps.

use crate::client_laws::replaced_text_is_read;
use crate::client_model::{not_open, OutcomeView, RequestView};
use crate::document::{edit_in_bounds, edited};
use crate::json::{json_parse, json_text, JsonView};
use crate::jsonrpc::{success_view, ResponseView};
use crate::lsp::{FileCheckStatus, LspRange};
use crate::server_model::{
    ask, call_arguments, call_result, done, edited_answer, failed, is_notice, refreshed_answer,
    replaced_answer, reply, request_id, request_method, ManagerView, ServerView,
};
use crate::steps::{
    awaits, Action, ActionView, Event, EventView, Progress, ProgressView, Stage, StageView, Target,
};
use crate::table::{lemma_listing_set, lemma_listing_without, lemma_members};
use crate::text::trimmed;
use crate::tools::{call_of, Call};
use crate::uri::{path_uri, uri_path};
use vstd::prelude::*;
use vstd::utf8::*;

verus! {

/// Whether something is to be done outside before the request is answered.
pub open spec fn is_question(action: ActionView) -> bool {
    !(action is Nothing) && !(action is Reply)
}

/// Whether a line tells a response with this id.
pub open spec fn tells(line: Seq<char>, id: JsonView) -> bool {
    exists|response: ResponseView|
        response.id == id && line == json_text(#[trigger] response.json())
}

/// Whether a request with this id is answered.
pub open spec fn answers(action: ActionView, id: JsonView) -> bool {
    action matches Action::Reply { line } && tells(line, id)
}

/// A call that was begun asks for something to be done outside as long as it
/// is under way.
proof fn lemma_begun_asks(manager: ManagerView, call: Call<Seq<char>>)
    ensures
        manager.begun(call).1 matches Progress::Ask { action, .. } ==> is_question(action),
{
}

/// A call that goes on asks for something as long as it is under way.
proof fn lemma_stepped_asks(manager: ManagerView, stage: StageView, event: EventView)
    requires
        awaits(stage, event),
    ensures
        manager.stepped(stage, event).1 matches Progress::Ask { action, .. } ==> is_question(
            action,
        ),
{
}

/// Every request is answered with its own id, at once or when the call that it
/// begins is done; only a notification is not.
pub proof fn requests_are_answered(server: ServerView, message: JsonView)
    requires
        server.run is None,
    ensures
        ({
            let (after, action) = server.requested(message);
            let id = request_id(message);
            if is_notice(request_method(message)) {
                after == server && action is Nothing
            } else {
                match after.run {
                    Some(run) => run.id == id && is_question(action),
                    None => answers(action, id),
                }
            }
        }),
{
    assert forall|manager: ManagerView, call: Call<Seq<char>>|
        #[trigger] manager.begun(call).1 matches Progress::Ask { action, .. } ==> is_question(
            action,
        ) by {
        lemma_begun_asks(manager, call);
    }
}

/// A call that is under way goes on only with what it waits for. It keeps its
/// id, and is answered once: when it is done, and not before.
pub proof fn calls_are_answered_once(server: ServerView, event: EventView)
    requires
        server.run is Some,
    ensures
        ({
            let (after, action) = server.resumed(event);
            let run = server.run->0;
            if awaits(run.stage, event) {
                match after.run {
                    Some(next) => next.id == run.id && is_question(action),
                    None => answers(action, run.id),
                }
            } else {
                after == server && action is Nothing
            }
        }),
{
    if awaits(server.run->0.stage, event) {
        lemma_stepped_asks(server.manager, server.run->0.stage, event);
    }
}

/// Every line is answered but an empty one and a notification, and one that is
/// no JSON is answered without an id.
pub proof fn lines_are_answered(server: ServerView, line: Seq<char>)
    requires
        server.run is None,
    ensures
        ({
            let (after, action) = server.lined(line);
            if trimmed(line).len() == 0 {
                after == server && action is Nothing
            } else {
                match json_parse(trimmed(line)) {
                    Ok(message) => if is_notice(request_method(message)) {
                        after == server && action is Nothing
                    } else {
                        match after.run {
                            Some(run) => run.id == request_id(message) && is_question(action),
                            None => answers(action, request_id(message)),
                        }
                    },
                    Err(_) => after == server && answers(action, JsonView::Null),
                }
            }
        }),
{
    if trimmed(line).len() > 0 {
        match json_parse(trimmed(line)) {
            Ok(message) => {
                requests_are_answered(server, message);
            },
            Err(_) => {},
        }
    }
}

/// What goes wrong in a tool is told as the result of the call, and not as an
/// error of the protocol.
pub proof fn tool_errors_are_results(
    server: ServerView,
    id: JsonView,
    params: JsonView,
    name: Seq<char>,
)
    requires
        server.run is None,
        params.text_at("name"@) == Some(name),
    ensures
        ({
            let (after, action) = server.called(id, Some(params));
            after.run is Some || exists|result: Result<Seq<char>, Seq<char>>|
                action == reply(success_view(id, #[trigger] call_result(result)))
        }),
        call_of(name, call_arguments(params)) matches Err(error) ==> server.called(id, Some(params))
            == (server, reply(success_view(id, call_result(Err(error))))),
{
}

/// The open document on which a call works.
pub open spec fn document_of(call: Call<Seq<char>>) -> Option<Seq<char>> {
    match call {
        Call::GetDiagnostics { uri, .. }
        | Call::GetGoalState { uri, .. }
        | Call::ReplaceDocument { uri, .. }
        | Call::ApplyEdit { uri, .. }
        | Call::GetDocumentText { uri }
        | Call::CloseDocument { uri }
        | Call::FileStatus { uri } => Some(uri),
        _ => None,
    }
}

/// A tool that works on an open document refuses one that is not open, and
/// changes nothing.
pub proof fn unopened_documents_are_refused(
    manager: ManagerView,
    call: Call<Seq<char>>,
    uri: Seq<char>,
)
    requires
        document_of(call) == Some(uri),
        !manager.uris().dom().contains(uri),
    ensures
        manager.begun(call) == (
            manager,
            failed(not_open(uri) + ". Use open_file or open_document first."@),
        ),
{
}

/// A document is open when its session is established: its text is the one
/// that it was opened with.
pub proof fn opened_document_is_read(
    manager: ManagerView,
    key: Seq<char>,
    target: Target<Seq<char>>,
    request: RequestView,
    outcome: OutcomeView,
)
    requires
        manager.wf(),
        manager.suits(Stage::Connecting { key, target, request }),
    ensures
        ({
            let (after, progress) = manager.connected(key, target, request, outcome);
            progress matches Progress::Done { result } && result is Ok ==> {
                &&& after.client_for_uri(target.uri) == Ok::<Seq<char>, Seq<char>>(key)
                &&& after.get_document_text(target.uri) == done(target.text)
            }
        }),
{
    lemma_listing_set(manager.listing, target.uri, key);
}

/// What follows the sending of an edit: the file of the document, if it has
/// one, is written.
pub open spec fn written(uri: Seq<char>, text: Seq<char>, answer: Seq<char>) -> ProgressView {
    match uri_path(uri) {
        Some(path) => ask(Action::WriteFile { path, text }, Stage::Writing { answer }),
        None => done(answer),
    }
}

/// The text of a document after an edit is the edited text: it is the one that
/// is read, and the one that the file of the document is to hold. No other
/// document has another text.
pub proof fn edited_document_is_read(
    manager: ManagerView,
    uri: Seq<char>,
    range: LspRange,
    new_text: Seq<char>,
    other: Seq<char>,
)
    requires
        manager.wf(),
        manager.uris().dom().contains(uri),
        manager.apply_edit(uri, range, new_text).1 is Ask,
    ensures
        ({
            let (after, progress) = manager.apply_edit(uri, range, new_text);
            let before = manager.clients[manager.uris()[uri]].documents[uri].text;
            &&& edited(before, range, new_text) is Ok
            &&& after.stepped(progress->stage, Event::Sent { sent: true }) == (
                after,
                written(
                    uri,
                    edited(before, range, new_text)->Ok_0,
                    edited_answer(uri, edited(before, range, new_text)->Ok_0),
                ),
            )
            &&& after.get_document_text(uri) == done(edited(before, range, new_text)->Ok_0)
            &&& other != uri ==> after.get_document_text(other) == manager.get_document_text(other)
        }),
{
    assert(manager.holds(manager.uris()[uri], uri));
    if manager.uris().dom().contains(other) {
        assert(manager.holds(manager.uris()[other], other));
    }
}

/// The text of a document can always be replaced, as long as its version can be
/// counted; the new text is then read, and no other document has another text.
pub proof fn replaced_document_is_read(
    manager: ManagerView,
    uri: Seq<char>,
    new_text: Seq<char>,
    other: Seq<char>,
)
    requires
        manager.wf(),
        manager.uris().dom().contains(uri),
        manager.clients[manager.uris()[uri]].can_count(uri),
        encode_utf8(manager.clients[manager.uris()[uri]].documents[uri].text).len() <= u64::MAX,
    ensures
        ({
            let (after, progress) = manager.replace_document(uri, new_text);
            &&& progress is Ask
            &&& after.stepped(progress->stage, Event::Sent { sent: true }) == (
                after,
                written(uri, new_text, replaced_answer(uri, new_text)),
            )
            &&& after.get_document_text(uri) == done(new_text)
            &&& other != uri ==> after.get_document_text(other) == manager.get_document_text(other)
        }),
{
    let key = manager.uris()[uri];
    assert(manager.holds(key, uri));
    replaced_text_is_read(manager.clients[key], uri, new_text);
    if manager.uris().dom().contains(other) {
        assert(manager.holds(manager.uris()[other], other));
    }
}

/// An edit that begins or ends behind the last line is refused: nothing is
/// sent or written, and nothing changes.
pub proof fn edit_out_of_bounds_is_told(
    manager: ManagerView,
    uri: Seq<char>,
    range: LspRange,
    new_text: Seq<char>,
)
    requires
        manager.wf(),
        manager.uris().dom().contains(uri),
        !edit_in_bounds(manager.clients[manager.uris()[uri]].documents[uri].text, range),
    ensures
        manager.apply_edit(uri, range, new_text).0 == manager,
        manager.apply_edit(uri, range, new_text).1 matches Progress::Done { result }
            && result is Err,
{
    assert(manager.holds(manager.uris()[uri], uri));
    assert(manager.apply_edit(uri, range, new_text).0.clients =~= manager.clients);
}

/// An edit that is refused changes nothing.
pub proof fn refused_call_changes_nothing(
    manager: ManagerView,
    uri: Seq<char>,
    range: LspRange,
    new_text: Seq<char>,
)
    requires
        manager.wf(),
        manager.apply_edit(uri, range, new_text).1 is Done,
    ensures
        manager.apply_edit(uri, range, new_text).0 == manager,
{
    let (after, _) = manager.apply_edit(uri, range, new_text);
    if manager.uris().dom().contains(uri) {
        assert(manager.holds(manager.uris()[uri], uri));
    }
    assert(after.clients =~= manager.clients);
}

/// A document that is opened once more in its workspace has the new text and
/// the next version, and keeps its session; its file is written, it is told
/// that it was open already, and it is listed as it was.
pub proof fn reopened_document_is_replaced(
    manager: ManagerView,
    key: Seq<char>,
    target: Target<Seq<char>>,
)
    requires
        manager.wf(),
        manager.holds(key, target.uri),
        manager.clients[key].can_count(target.uri),
        encode_utf8(manager.clients[key].documents[target.uri].text).len() <= u64::MAX,
    ensures
        ({
            let (after, progress) = manager.get_or_spawn(key, target);
            let before = manager.clients[key].documents[target.uri];
            let answer = refreshed_answer(target, key);
            &&& progress is Ask
            &&& progress->action is Send
            &&& after.stepped(progress->stage, Event::Sent { sent: true }) == (
                after,
                written(target.uri, target.text, answer),
            )
            &&& after.stepped(Stage::Writing { answer }, Event::Written) == (after, done(answer))
            &&& after.holds(key, target.uri)
            &&& after.clients[key].documents[target.uri].text == target.text
            &&& after.clients[key].documents[target.uri].version == before.version + 1
            &&& after.clients[key].documents[target.uri].rpc_session_id == before.rpc_session_id
            &&& after.listing == manager.listing
        }),
{
    replaced_text_is_read(manager.clients[key], target.uri, target.text);
}

/// A document that was closed is not open any more, and no other document has
/// changed.
pub proof fn closed_document_is_refused(
    manager: ManagerView,
    uri: Seq<char>,
    call: Call<Seq<char>>,
    other: Seq<char>,
)
    requires
        manager.wf(),
        manager.uris().dom().contains(uri),
        document_of(call) == Some(uri),
    ensures
        ({
            let after = manager.close_sent(manager.uris()[uri], uri, true).0;
            &&& after.begun(call) == (
                after,
                failed(not_open(uri) + ". Use open_file or open_document first."@),
            )
            &&& other != uri ==> after.get_document_text(other) == manager.get_document_text(other)
        }),
{
    let key = manager.uris()[uri];
    assert(manager.holds(key, uri));
    lemma_listing_without(manager.listing, uri);
    unopened_documents_are_refused(manager.close_sent(key, uri, true).0, call, uri);
    if manager.uris().dom().contains(other) {
        assert(manager.holds(manager.uris()[other], other));
    }
}

/// The list of documents names each open document once, with its workspace,
/// and no other.
pub proof fn open_documents_are_listed_once(manager: ManagerView, uri: Seq<char>)
    requires
        manager.wf(),
    ensures
        manager.uris().dom().contains(uri) <==> exists|i: int|
            0 <= i < manager.listing.len() && (#[trigger] manager.listing[i]).0 == uri,
        forall|i: int|
            0 <= i < manager.listing.len() && (#[trigger] manager.listing[i]).0 == uri
                ==> manager.listing[i].1 == manager.uris()[uri],
        forall|i: int, j: int|
            0 <= i < manager.listing.len() && 0 <= j < manager.listing.len() && (
            #[trigger] manager.listing[i]).0 == uri && (#[trigger] manager.listing[j]).0 == uri
                ==> i == j,
{
    lemma_members(manager.listing);
}

/// A directory is searched for the files of a Lake project in their order, and
/// its parent only when it holds none of them.
pub proof fn directories_are_searched_in_order(
    manager: ManagerView,
    directory: Seq<char>,
    target: Target<Seq<char>>,
)
    ensures
        ({
            let stage = |candidate: usize| Stage::Probing { directory, candidate, target };
            let missed = Event::Probed { exists: false };
            &&& manager.stepped(stage(0), missed).1 == manager.probe(directory, 1, target)
            &&& manager.stepped(stage(1), missed).1 == manager.probe(directory, 2, target)
            &&& manager.stepped(stage(2), missed).1 == ask(
                Action::Ascend { directory },
                Stage::Ascending { directory, target },
            )
            &&& forall|candidate: usize|
                manager.stepped(
                    #[trigger] stage(candidate),
                    Event::Probed { exists: true },
                ).1 == ask(
                    Action::Canonicalize { path: directory },
                    Stage::Detecting { target },
                )
        }),
{
}

/// Whether a call names no workspace.
pub open spec fn is_blank(workspace: Option<Seq<char>>) -> bool {
    workspace matches Some(workspace) ==> trimmed(workspace).len() == 0
}

/// A workspace that the call names is taken before one that is found, one that
/// is found before the one that was given at the start, and that one before
/// none.
pub proof fn workspaces_have_an_order(
    manager: ManagerView,
    path: Option<Seq<char>>,
    workspace: Option<Seq<char>>,
    target: Target<Seq<char>>,
    found: Seq<char>,
)
    ensures
        !is_blank(workspace) ==> {
            let stage = Stage::Resolving { named: trimmed(workspace->0), target };
            &&& manager.resolve_workspace(path, workspace, target) == (
                manager,
                ask(Action::Canonicalize { path: trimmed(workspace->0) }, stage),
            )
            &&& manager.stepped(stage, Event::Canonical { path: Some(found) })
                == manager.get_or_spawn(found, target)
        },
        is_blank(workspace) && path is Some ==> manager.resolve_workspace(path, workspace, target)
            == (
            manager,
            ask(
                Action::Inspect { path: path->0 },
                Stage::Inspecting { path: path->0, target },
            ),
        ),
        manager.stepped(Stage::Detecting { target }, Event::Canonical { path: Some(found) })
            == manager.get_or_spawn(found, target),
        is_blank(workspace) && path is None ==> manager.resolve_workspace(path, workspace, target)
            == manager.get_or_spawn(manager.default_workspace(), target),
        manager.ascended(found, target, None) == manager.get_or_spawn(
            manager.default_workspace(),
            target,
        ),
        manager.default_lake_root is None ==> manager.default_workspace().len() == 0,
{
}

/// A language server that runs goes on to run whatever happens.
pub proof fn servers_run_on(
    manager: ManagerView,
    key: Seq<char>,
    call: Call<Seq<char>>,
    stage: StageView,
    event: EventView,
)
    requires
        manager.clients.dom().contains(key),
    ensures
        manager.begun(call).0.clients.dom().contains(key),
        manager.stepped(stage, event).0.clients.dom().contains(key),
{
}

/// A message of a language server changes no document, and nothing of the call
/// that is under way.
pub proof fn messages_leave_the_call(
    server: ServerView,
    key: Seq<char>,
    body: Seq<u8>,
    uri: Seq<char>,
)
    requires
        server.wf(),
    ensures
        ({
            let after = server.received(key, body).0;
            &&& after.run == server.run
            &&& after.manager.listing == server.manager.listing
            &&& after.manager.get_document_text(uri) == server.manager.get_document_text(uri)
        }),
{
    if server.manager.uris().dom().contains(uri) {
        assert(server.manager.holds(server.manager.uris()[uri], uri));
    }
}

/// Whether a call asks for a language server to be started.
pub open spec fn starts_a_server(progress: ProgressView) -> bool {
    progress matches Progress::Ask { action, .. } && action is Spawn
}

/// A language server is started only when a document is to be opened, and only
/// where none runs in its workspace.
pub proof fn only_opening_starts_a_server(
    manager: ManagerView,
    call: Call<Seq<char>>,
    key: Seq<char>,
    target: Target<Seq<char>>,
)
    ensures
        starts_a_server(manager.begun(call).1) ==> call is OpenDocument,
        starts_a_server(manager.get_or_spawn(key, target).1) <==> !manager.clients.dom().contains(
            key,
        ),
{
}

/// The diagnostics of a document are not told before Lean is done with it or
/// the time is over.
pub proof fn diagnostics_wait_for_lean(
    manager: ManagerView,
    key: Seq<char>,
    uri: Seq<char>,
    expired: bool,
)
    ensures
        ({
            let checked = manager.clients[key].progress_at(uri) == Some(FileCheckStatus::Checked);
            match manager.looked(key, uri, expired) {
                Progress::Done { .. } => !checked && expired,
                Progress::Ask { stage, .. } => if checked {
                    stage is Settling
                } else {
                    !expired && stage is Waiting
                },
            }
        }),
{
}

/// What comes in while a call is under way.
pub enum Input {
    /// What came of what was done outside.
    Outcome { event: EventView },
    /// The body of a message of the language server of a workspace.
    Message { key: Seq<char>, body: Seq<u8> },
}

/// The server after it took what came in, and what it asked to be done.
pub open spec fn fed(server: ServerView, inputs: Seq<Input>) -> (ServerView, Seq<ActionView>)
    decreases inputs.len(),
{
    if inputs.len() == 0 {
        (server, Seq::empty())
    } else {
        let (before, actions) = fed(server, inputs.drop_last());
        match inputs.last() {
            Input::Outcome { event } => {
                let (after, action) = before.resumed(event);
                (after, actions.push(action))
            },
            Input::Message { key, body } => (
                before.received(key, body).0,
                actions.push(Action::Nothing),
            ),
        }
    }
}

/// The lines that are written, in their order.
pub open spec fn replies(actions: Seq<ActionView>) -> Seq<Seq<char>>
    decreases actions.len(),
{
    if actions.len() == 0 {
        Seq::empty()
    } else {
        match actions.last() {
            Action::Reply { line } => replies(actions.drop_last()).push(line),
            _ => replies(actions.drop_last()),
        }
    }
}

/// What is written for two rows of actions is what is written for the one and
/// then for the other.
proof fn lemma_replies(a: Seq<ActionView>, b: Seq<ActionView>)
    ensures
        replies(a + b) == replies(a) + replies(b),
    decreases b.len(),
{
    if b.len() == 0 {
        assert(a + b =~= a);
        assert(replies(a) + replies(b) =~= replies(a));
    } else {
        assert((a + b).drop_last() =~= a + b.drop_last());
        lemma_replies(a, b.drop_last());
        assert(replies(a + b) =~= replies(a) + replies(b));
    }
}

/// A server that has no call under way writes nothing until the next line,
/// whatever comes in.
pub proof fn an_idle_server_is_silent(server: ServerView, inputs: Seq<Input>)
    requires
        server.run is None,
    ensures
        fed(server, inputs).0.run is None,
        replies(fed(server, inputs).1).len() == 0,
    decreases inputs.len(),
{
    if inputs.len() > 0 {
        let rest = inputs.drop_last();
        an_idle_server_is_silent(server, rest);
        assert(fed(server, inputs).1.drop_last() =~= fed(server, rest).1);
    }
}

/// A call is answered once, whatever comes in and in whatever order: as long
/// as it is under way nothing is written, and when it is no longer, one line
/// was written, which tells a response with its id.
pub proof fn a_call_is_answered_once(server: ServerView, inputs: Seq<Input>)
    requires
        server.run is Some,
    ensures
        ({
            let (after, actions) = fed(server, inputs);
            let id = server.run->0.id;
            match after.run {
                Some(run) => run.id == id && replies(actions).len() == 0,
                None => replies(actions).len() == 1 && tells(replies(actions)[0], id),
            }
        }),
    decreases inputs.len(),
{
    if inputs.len() > 0 {
        let rest = inputs.drop_last();
        a_call_is_answered_once(server, rest);
        let (before, earlier) = fed(server, rest);
        let (after, actions) = fed(server, inputs);
        assert(actions.drop_last() =~= earlier);
        match inputs.last() {
            Input::Outcome { event } => {
                if before.run is Some {
                    calls_are_answered_once(before, event);
                }
            },
            Input::Message { .. } => {},
        }
    }
}

/// A line that is read, and what comes in until the next one is read.
pub struct Turn {
    pub line: Seq<char>,
    pub inputs: Seq<Input>,
}

/// The server after a line and what came in then, and what it asked to be
/// done.
pub open spec fn turned(server: ServerView, turn: Turn) -> (ServerView, Seq<ActionView>) {
    let (begun, action) = server.lined(turn.line);
    let (after, actions) = fed(begun, turn.inputs);
    (after, seq![action] + actions)
}

/// Whether a line is to be answered: not an empty one, and not a notification.
pub open spec fn needs_answer(line: Seq<char>) -> bool {
    trimmed(line).len() > 0 && (json_parse(trimmed(line)) matches Ok(message) ==> !is_notice(
        request_method(message),
    ))
}

/// The id with which a line is to be answered: that of the request, and none
/// where it has none or the line is no JSON.
pub open spec fn answer_id(line: Seq<char>) -> JsonView {
    match json_parse(trimmed(line)) {
        Ok(message) => request_id(message),
        Err(_) => JsonView::Null,
    }
}

/// Of a line that needs an answer one line is written by the time no call is
/// under way, with the id that it is to have; of another none is.
pub proof fn a_line_is_answered_once(server: ServerView, turn: Turn)
    requires
        server.run is None,
        turned(server, turn).0.run is None,
    ensures
        ({
            let written = replies(turned(server, turn).1);
            if needs_answer(turn.line) {
                written.len() == 1 && tells(written[0], answer_id(turn.line))
            } else {
                written.len() == 0
            }
        }),
{
    let (begun, action) = server.lined(turn.line);
    let actions = fed(begun, turn.inputs).1;
    lines_are_answered(server, turn.line);
    lemma_replies(seq![action], actions);
    assert(seq![action].drop_last() =~= Seq::empty());
    assert(replies(Seq::empty()) =~= Seq::empty());
    if begun.run is Some {
        a_call_is_answered_once(begun, turn.inputs);
    } else {
        an_idle_server_is_silent(begun, turn.inputs);
    }
}

/// The server after some lines, and what it has written.
pub open spec fn ran(server: ServerView, turns: Seq<Turn>) -> (ServerView, Seq<Seq<char>>)
    decreases turns.len(),
{
    if turns.len() == 0 {
        (server, Seq::empty())
    } else {
        let (before, written) = ran(server, turns.drop_last());
        let (after, actions) = turned(before, turns.last());
        (after, written + replies(actions))
    }
}

/// Whether no line is read before the call that the one before it has begun is
/// done, and the last call is done too.
pub open spec fn in_turn(server: ServerView, turns: Seq<Turn>) -> bool
    decreases turns.len(),
{
    turns.len() > 0 ==> in_turn(server, turns.drop_last()) && ran(server, turns).0.run is None
}

/// Whether lines are written for those that need an answer, one for each and
/// in their order, each with the id that it is to have.
pub open spec fn answered_in_order(turns: Seq<Turn>, written: Seq<Seq<char>>) -> bool
    decreases turns.len(),
{
    if turns.len() == 0 {
        written.len() == 0
    } else if needs_answer(turns.last().line) {
        &&& written.len() > 0
        &&& tells(written.last(), answer_id(turns.last().line))
        &&& answered_in_order(turns.drop_last(), written.drop_last())
    } else {
        answered_in_order(turns.drop_last(), written)
    }
}

/// Over all the lines that are read, one line is written for each that needs an
/// answer and none for another, in the order in which they were read, each with
/// the id that it is to have, whatever comes in between; and the server is then
/// ready for the next line.
pub proof fn all_lines_are_answered_in_order(server: ServerView, turns: Seq<Turn>)
    requires
        server.run is None,
        in_turn(server, turns),
    ensures
        answered_in_order(turns, ran(server, turns).1),
        ran(server, turns).0.run is None,
    decreases turns.len(),
{
    if turns.len() > 0 {
        let rest = turns.drop_last();
        all_lines_are_answered_in_order(server, rest);
        let (before, written) = ran(server, rest);
        a_line_is_answered_once(before, turns.last());
        let more = replies(turned(before, turns.last()).1);
        if needs_answer(turns.last().line) {
            assert((written + more).drop_last() =~= written);
        } else {
            assert(written + more =~= written);
        }
    }
}

/// The document on which a call that is under way works.
pub open spec fn subject(stage: StageView) -> Option<Seq<char>> {
    match stage {
        Stage::Reading { path, .. } => Some(path_uri(path)),
        Stage::Resolving { target, .. }
        | Stage::Inspecting { target, .. }
        | Stage::Probing { target, .. }
        | Stage::Ascending { target, .. }
        | Stage::Detecting { target }
        | Stage::Spawning { target, .. }
        | Stage::Initializing { target, .. }
        | Stage::Confirming { target }
        | Stage::Opening { target, .. }
        | Stage::Connecting { target, .. } => Some(target.uri),
        Stage::Joining { uri, .. }
        | Stage::Waiting { uri, .. }
        | Stage::Settling { uri, .. }
        | Stage::Closing { uri, .. } => Some(uri),
        _ => None,
    }
}

/// A call that is begun leaves every document alone but the one on which it
/// works.
pub proof fn other_documents_are_left_at_first(
    manager: ManagerView,
    call: Call<Seq<char>>,
    uri: Seq<char>,
)
    requires
        manager.wf(),
        document_of(call) != Some(uri),
        call matches Call::OpenDocument { uri: opened, .. } ==> opened != uri,
    ensures
        manager.begun(call).0.get_document_text(uri) == manager.get_document_text(uri),
{
    if manager.uris().dom().contains(uri) {
        assert(manager.holds(manager.uris()[uri], uri));
    }
}

/// A call that goes on leaves every document alone but the one on which it
/// works.
pub proof fn other_documents_are_left(
    manager: ManagerView,
    stage: StageView,
    event: EventView,
    uri: Seq<char>,
)
    requires
        manager.wf(),
        manager.suits(stage),
        subject(stage) != Some(uri),
    ensures
        manager.stepped(stage, event).0.get_document_text(uri) == manager.get_document_text(uri),
{
    if manager.uris().dom().contains(uri) {
        assert(manager.holds(manager.uris()[uri], uri));
    }
    match stage {
        Stage::Opening { key, target } | Stage::Connecting { key, target, .. } => {
            lemma_listing_set(manager.listing, target.uri, key);
        },
        Stage::Closing { uri: closed, .. } => {
            lemma_listing_without(manager.listing, closed);
        },
        _ => {},
    }
}

}
