//! What each call of a tool asks for, step by step, and what it tells at last.

use crate::client_model::{goal_answer, OutcomeView, RequestView};
use crate::connection_laws::{
    same_document, same_requests, sent_change_is_the_edit, sent_change_is_the_replacement,
    sessions_are_asked_for_once,
};
use crate::document::{edited, replacing_all_gives_new_text};
use crate::document_laws::stands_behind;
use crate::jsonrpc::ResponseView;
use crate::lsp::{FileCheckStatus, LspPosition, LspRange};
use crate::message_laws::{
    asking_tells_the_place, asks_goal, asks_session, closing_tells_the_document,
    connecting_tells_the_document, opening_tells_the_text, tells_change, tells_close, tells_open,
};
use crate::server_laws::{document_of, subject};
use crate::server_model::{done, failed, ManagerView};
use crate::steps::{Action, Event, EventView, Progress, ProgressView, Stage, StageView, Target};
use crate::table::{lemma_listing_set, lemma_listing_without};
use crate::text::{decimal, line_count, signed_decimal};
use crate::tools::Call;
use crate::uri::uri_path;
use vstd::prelude::*;
use vstd::utf8::*;

verus! {

/// Whether a document is open, in the language server of a workspace.
pub open spec fn is_open_in(manager: ManagerView, uri: Seq<char>, key: Seq<char>) -> bool {
    &&& manager.uris().dom().contains(uri)
    &&& manager.uris()[uri] == key
    &&& manager.clients.dom().contains(key)
    &&& manager.clients[key].documents.dom().contains(uri)
}

/// Whether two states differ in the state of one language server at most.
pub open spec fn differ_in(a: ManagerView, b: ManagerView, key: Seq<char>) -> bool {
    &&& a.listing == b.listing
    &&& a.default_lake_root == b.default_lake_root
    &&& a.starting == b.starting
    &&& a.clients.dom().contains(key) == b.clients.dom().contains(key)
    &&& forall|other: Seq<char>|
        other != key ==> #[trigger] a.clients.dom().contains(other) == b.clients.dom().contains(
            other,
        ) && (a.clients.dom().contains(other) ==> a.clients[other] == b.clients[other])
}

/// Whether a call asks the language server of a workspace for the goals at a
/// place, under a number, and waits for them.
pub open spec fn asks_for_goals(
    progress: ProgressView,
    key: Seq<char>,
    id: int,
    uri: Seq<char>,
    place: LspPosition,
) -> bool {
    progress matches Progress::Ask {
        action: Action::Request { key: to, request },
        stage: Stage::Asking { key: from, request: awaited },
    } && to == key && from == key && awaited == request && asks_goal(request.frame, id, uri, place)
        && request.id == signed_decimal(id) && request.method == "$/lean/plainGoal"@
        && request.timeout_secs == 120
}

/// A call for goals on an open document with a session asks its language server
/// at once, for the document, the line and the character of the call. Nothing
/// changes but that the request waits.
pub proof fn goals_are_asked_at_the_place(
    manager: ManagerView,
    key: Seq<char>,
    uri: Seq<char>,
    place: LspPosition,
    other: Seq<char>,
)
    requires
        is_open_in(manager, uri, key),
        manager.clients[key].documents[uri].rpc_session_id is Some,
        manager.clients[key].next_request_id < i64::MAX,
    ensures
        ({
            let (after, progress) = manager.begun(Call::GetGoalState { uri, position: place });
            let id = manager.clients[key].next_request_id;
            &&& asks_for_goals(progress, key, id, uri, place)
            &&& after.clients[key].pending == manager.clients[key].pending.insert(
                signed_decimal(id),
            )
            &&& after.clients[key].next_request_id == id + 1
            &&& after.clients[key].lake_root == manager.clients[key].lake_root
            &&& same_document(after.clients[key], manager.clients[key], other)
            &&& differ_in(after, manager, key)
        }),
{
    asking_tells_the_place(manager.clients[key].next_request_id, uri, place);
    assert(manager.clients.insert(key, manager.clients[key]) =~= manager.clients);
}

/// A call for goals on a document without a session asks for one first. When it
/// is told, the goals are asked for at the place of the call, under the next
/// number.
pub proof fn goals_are_asked_after_the_session(
    manager: ManagerView,
    key: Seq<char>,
    uri: Seq<char>,
    place: LspPosition,
    response: ResponseView,
    session: Seq<char>,
    other: Seq<char>,
)
    requires
        is_open_in(manager, uri, key),
        manager.clients[key].documents[uri].rpc_session_id is None,
        manager.clients[key].next_request_id < i64::MAX - 1,
        response.error is None,
        response.result matches Some(result) && result.text_at("sessionId"@) == Some(session),
    ensures
        ({
            let (after, progress) = manager.begun(Call::GetGoalState { uri, position: place });
            let id = manager.clients[key].next_request_id;
            let (then, next) = after.stepped(
                progress->stage,
                Event::Replied { outcome: OutcomeView::Response(response) },
            );
            &&& progress matches Progress::Ask {
                action: Action::Request { key: to, request },
                stage: Stage::Joining { key: from, uri: of, position: at, request: awaited },
            } && to == key && from == key && of == uri && at == place && awaited == request
                && asks_session(request.frame, id, uri) && request.id == signed_decimal(id)
            &&& differ_in(after, manager, key)
            &&& same_document(after.clients[key], manager.clients[key], other)
            &&& asks_for_goals(next, key, id + 1, uri, place)
            &&& then.clients[key].documents[uri].rpc_session_id == Some(session)
            &&& then.clients[key].documents[uri].text == manager.clients[key].documents[uri].text
            &&& differ_in(then, manager, key)
        }),
{
    let id = manager.clients[key].next_request_id;
    asking_tells_the_place(id + 1, uri, place);
    sessions_are_asked_for_once(manager.clients[key], uri, other);
}

/// A session that is not told ends the call for goals with the reason.
pub proof fn goals_need_a_session(
    manager: ManagerView,
    key: Seq<char>,
    uri: Seq<char>,
    place: LspPosition,
    request: RequestView,
    outcome: OutcomeView,
)
    requires
        manager.clients.dom().contains(key),
        manager.clients[key].connected(uri, request, outcome).1 is Err,
    ensures
        ({
            let (after, progress) = manager.stepped(
                Stage::Joining { key, uri, position: place, request },
                Event::Replied { outcome },
            );
            &&& progress == failed(manager.clients[key].connected(uri, request, outcome).1->Err_0)
            &&& after.clients[key] == manager.clients[key].concluded(request, outcome).0
            &&& differ_in(after, manager, key)
        }),
{
}

/// Where no request can be numbered any more, no goals are asked for: that is
/// told, and nothing changes, but for a session that was asked for with the last
/// number.
pub proof fn goals_need_a_number(
    manager: ManagerView,
    key: Seq<char>,
    uri: Seq<char>,
    place: LspPosition,
    request: RequestView,
    outcome: OutcomeView,
)
    requires
        is_open_in(manager, uri, key),
        manager.clients[key].next_request_id >= i64::MAX,
    ensures
        manager.begun(Call::GetGoalState { uri, position: place }) == (
            manager,
            failed("No request id is left"@),
        ),
        ({
            let (after, progress) = manager.stepped(
                Stage::Joining { key, uri, position: place, request },
                Event::Replied { outcome },
            );
            let (client, result) = manager.clients[key].connected(uri, request, outcome);
            result is Ok ==> {
                &&& progress == failed("No request id is left"@)
                &&& after.clients[key] == client
                &&& differ_in(after, manager, key)
            }
        }),
{
}

/// The goals that Lean tells are told in the end, and why it tells none if it
/// does not. No document changes.
pub proof fn goals_are_told(
    manager: ManagerView,
    key: Seq<char>,
    request: RequestView,
    response: ResponseView,
    outcome: OutcomeView,
)
    requires
        manager.clients.dom().contains(key),
    ensures
        ({
            let stage = Stage::Asking { key, request };
            let (after, progress) = manager.stepped(stage, Event::Replied { outcome });
            &&& outcome == OutcomeView::Response(response) ==> progress == done(
                goal_answer(response),
            )
            &&& outcome is NotSent ==> progress == failed("Failed to send to lean stdin channel"@)
            &&& outcome is Closed ==> progress == failed(
                "Response channel closed before receiving response for "@ + request.method,
            )
            &&& outcome is TimedOut ==> progress == failed(
                "Timed out waiting for Lean response to "@ + request.method + " ("@ + decimal(
                    request.timeout_secs as nat,
                ) + "s)"@,
            )
            &&& after.clients[key] == manager.clients[key].concluded(request, outcome).0
            &&& differ_in(after, manager, key)
        }),
{
}

/// A document that is not open is sent to the language server of its workspace
/// with its URI and its text. When that was sent, the text is the one that the
/// document has, in its first version, and a session is asked for it; when the
/// session is told, the document belongs to the workspace, and the text that
/// was sent is the one that is read.
pub proof fn opened_text_is_the_one_sent(
    manager: ManagerView,
    key: Seq<char>,
    target: Target<Seq<char>>,
    response: ResponseView,
    session: Seq<char>,
    other: Seq<char>,
)
    requires
        manager.wf(),
        manager.clients.dom().contains(key),
        !manager.clients[key].documents.dom().contains(target.uri),
        manager.clients[key].next_request_id < i64::MAX,
        response.error is None,
        response.result matches Some(result) && result.text_at("sessionId"@) == Some(session),
    ensures
        ({
            let (sending, progress) = manager.place(key, target);
            let (opened, asked) = sending.stepped(progress->stage, Event::Sent { sent: true });
            let (after, told) = opened.stepped(
                asked->stage,
                Event::Replied { outcome: OutcomeView::Response(response) },
            );
            let id = manager.clients[key].next_request_id;
            let document = after.clients[key].documents[target.uri];
            &&& manager.get_or_spawn(key, target) == manager.place(key, target)
            &&& progress matches Progress::Ask {
                action: Action::Send { key: to, frame },
                stage: Stage::Opening { key: from, target: kept },
            } && to == key && from == key && kept == target && tells_open(
                frame,
                target.uri,
                target.text,
            )
            &&& asked matches Progress::Ask {
                action: Action::Request { key: to, request },
                stage: Stage::Connecting { key: from, target: kept, request: awaited },
            } && to == key && from == key && kept == target && awaited == request && asks_session(
                request.frame,
                id,
                target.uri,
            )
            &&& sending.clients[key].documents == manager.clients[key].documents
            &&& sending.clients[key].pending == manager.clients[key].pending
            &&& differ_in(sending, manager, key)
            &&& opened.clients[key].documents[target.uri].text == target.text
            &&& told == done(
                "Document "@ + target.uri + " opened successfully"@ + (if target.from_disk {
                    " ("@ + decimal(encode_utf8(target.text).len()) + " bytes)"@
                } else {
                    Seq::empty()
                }) + ". (workspace: "@ + (if key.len() == 0 {
                    "standalone"@
                } else {
                    key
                }) + ")"@,
            )
            &&& is_open_in(after, target.uri, key)
            &&& document.uri == target.uri
            &&& document.text == target.text
            &&& document.version == 1
            &&& document.rpc_session_id == Some(session)
            &&& after.clients[key].progress_at(target.uri) == Some(FileCheckStatus::Processing)
            &&& after.clients[key].diagnostics_at(target.uri).len() == 0
            &&& after.clients[key].pending == manager.clients[key].pending.insert(
                signed_decimal(id),
            )
            &&& after.clients[key].next_request_id == id + 1
            &&& after.clients[key].lake_root == manager.clients[key].lake_root
            &&& after.begun(Call::GetDocumentText { uri: target.uri }) == (
                after,
                done(target.text),
            )
            &&& other != target.uri ==> same_document(
                after.clients[key],
                manager.clients[key],
                other,
            )
            &&& other != key ==> after.clients[other] == manager.clients[other]
        }),
{
    opening_tells_the_text(target.uri, target.text);
    connecting_tells_the_document(manager.clients[key].next_request_id, target.uri);
    lemma_listing_set(manager.listing, target.uri, key);
}

/// A document that could not be sent is not opened, and one without a session
/// belongs to no workspace: the reason is told, and the list of documents is as
/// it was.
pub proof fn failed_openings_are_told(
    manager: ManagerView,
    key: Seq<char>,
    target: Target<Seq<char>>,
    request: RequestView,
    outcome: OutcomeView,
    other: Seq<char>,
)
    requires
        manager.clients.dom().contains(key),
    ensures
        manager.stepped(Stage::Opening { key, target }, Event::Sent { sent: false }) == (
            manager,
            failed("Failed to send notification to lean stdin channel"@),
        ),
        manager.clients[key].next_request_id >= i64::MAX ==> ({
            let (after, progress) = manager.stepped(
                Stage::Opening { key, target },
                Event::Sent { sent: true },
            );
            &&& progress == failed("No request id is left"@)
            &&& after.clients[key].documents[target.uri].text == target.text
            &&& differ_in(after, manager, key)
        }),
        ({
            let (after, progress) = manager.stepped(
                Stage::Connecting { key, target, request },
                Event::Replied { outcome },
            );
            let result = manager.clients[key].connected(target.uri, request, outcome).1;
            result matches Err(error) ==> {
                &&& progress == failed(error)
                &&& after.clients[key] == manager.clients[key].concluded(request, outcome).0
                &&& differ_in(after, manager, key)
            }
        }),
{
}

/// Whether a call sends a change to the language server of a workspace, and then
/// has a text to be written to a file, if there is one, and an answer to tell.
pub open spec fn sends_change(
    progress: ProgressView,
    key: Seq<char>,
    uri: Seq<char>,
    version: int,
    range: LspRange,
    new_text: Seq<char>,
) -> bool {
    progress matches Progress::Ask { action: Action::Send { key: to, frame }, stage } && to == key
        && stage is Changing && tells_change(frame, uri, version, range, new_text)
}

/// Whether a call whose change was sent has the file of the document written
/// with a text, if it has one, and then tells an answer; and fails if the change
/// could not be sent.
pub open spec fn ends_with(
    manager: ManagerView,
    stage: StageView,
    uri: Seq<char>,
    text: Seq<char>,
    answer: Seq<char>,
) -> bool {
    let (after, progress) = manager.stepped(stage, Event::Sent { sent: true });
    &&& after == manager
    &&& match uri_path(uri) {
        Some(path) => progress matches Progress::Ask {
            action: Action::WriteFile { path: file, text: content },
            stage,
        } && file == path && content == text && manager.stepped(stage, Event::Written) == (
            manager,
            done(answer),
        ),
        None => progress == done(answer),
    }
    &&& manager.stepped(stage, Event::Sent { sent: false }) == (
        manager,
        failed("Failed to send notification to lean stdin channel"@),
    )
}

/// An edit that is accepted is sent to the language server of the document's
/// workspace: with the version that the document then has, and with one change,
/// which, applied to the text that the document had, gives the text that it then
/// has. That text is written to the file of the document, and the number of its
/// lines is told.
pub proof fn accepted_edit_is_the_one_sent(
    manager: ManagerView,
    key: Seq<char>,
    uri: Seq<char>,
    range: LspRange,
    new_text: Seq<char>,
    other: Seq<char>,
)
    requires
        is_open_in(manager, uri, key),
        manager.begun(Call::ApplyEdit { uri, range, text: new_text }).1 is Ask,
    ensures
        ({
            let (after, progress) = manager.begun(Call::ApplyEdit { uri, range, text: new_text });
            let before = manager.clients[key].documents[uri];
            let now = after.clients[key].documents[uri];
            &&& sends_change(progress, key, uri, now.version, range, new_text)
            &&& edited(before.text, range, new_text) == Ok::<Seq<char>, Seq<char>>(now.text)
            &&& now.version == before.version + 1
            &&& now.rpc_session_id == before.rpc_session_id
            &&& ends_with(
                after,
                progress->stage,
                uri,
                now.text,
                "Edit applied to "@ + uri + ". Document now has "@ + decimal(line_count(now.text))
                    + " lines."@,
            )
            &&& after.begun(Call::GetDocumentText { uri }) == (after, done(now.text))
            &&& after.clients[key].progress_at(uri) == Some(FileCheckStatus::Processing)
            &&& after.clients[key].diagnostics_at(uri).len() == 0
            &&& differ_in(after, manager, key)
            &&& same_requests(after.clients[key], manager.clients[key])
            &&& other != uri ==> same_document(
                after.clients[key],
                manager.clients[key],
                other,
            )
        }),
{
    sent_change_is_the_edit(manager.clients[key], uri, range, new_text, other);
}

/// An edit of an open document is accepted exactly where its place is in the
/// text and the version can be counted up; else the reason is told, and nothing
/// changes.
pub proof fn edits_are_accepted_where_they_can_be(
    manager: ManagerView,
    key: Seq<char>,
    uri: Seq<char>,
    range: LspRange,
    new_text: Seq<char>,
)
    requires
        is_open_in(manager, uri, key),
    ensures
        ({
            let (after, progress) = manager.begun(Call::ApplyEdit { uri, range, text: new_text });
            let before = manager.clients[key].documents[uri];
            let text = edited(before.text, range, new_text);
            &&& progress is Ask <==> text is Ok && before.version < i64::MAX
            &&& text matches Err(error) ==> progress == failed(error)
            &&& text is Ok && before.version >= i64::MAX ==> progress == failed(
                "No version is left for "@ + uri,
            )
            &&& progress is Done ==> after == manager
        }),
{
    let (after, progress) = manager.begun(Call::ApplyEdit { uri, range, text: new_text });
    if progress is Done {
        assert(after.clients =~= manager.clients);
    }
}

/// A replacement of the text of an open document is sent to the language server
/// of its workspace: with the version that the document then has, and with one
/// change of all of the old text, which gives the new one. The new text is
/// written to the file of the document, and the number of its lines is told.
pub proof fn accepted_replacement_is_the_one_sent(
    manager: ManagerView,
    key: Seq<char>,
    uri: Seq<char>,
    new_text: Seq<char>,
    other: Seq<char>,
)
    requires
        is_open_in(manager, uri, key),
        manager.clients[key].documents[uri].version < i64::MAX,
        encode_utf8(manager.clients[key].documents[uri].text).len() <= u64::MAX,
    ensures
        ({
            let (after, progress) = manager.begun(Call::ReplaceDocument { uri, text: new_text });
            let before = manager.clients[key].documents[uri];
            let now = after.clients[key].documents[uri];
            &&& exists|range: LspRange|
                {
                    &&& #[trigger] sends_change(progress, key, uri, now.version, range, new_text)
                    &&& stands_behind(range.start, Seq::empty())
                    &&& stands_behind(range.end, before.text)
                    &&& edited(before.text, range, new_text) == Ok::<Seq<char>, Seq<char>>(
                        now.text,
                    )
                }
            &&& now.text == new_text
            &&& now.version == before.version + 1
            &&& now.rpc_session_id == before.rpc_session_id
            &&& ends_with(
                after,
                progress->stage,
                uri,
                new_text,
                "Document "@ + uri + " replaced. Document now has "@ + decimal(
                    line_count(new_text),
                ) + " lines."@,
            )
            &&& after.begun(Call::GetDocumentText { uri }) == (after, done(new_text))
            &&& after.clients[key].progress_at(uri) == Some(FileCheckStatus::Processing)
            &&& after.clients[key].diagnostics_at(uri).len() == 0
            &&& differ_in(after, manager, key)
            &&& same_requests(after.clients[key], manager.clients[key])
            &&& other != uri ==> same_document(
                after.clients[key],
                manager.clients[key],
                other,
            )
        }),
{
    let (after, progress) = manager.begun(Call::ReplaceDocument { uri, text: new_text });
    let client = manager.clients[key];
    sent_change_is_the_replacement(client, uri, new_text, other);
    let change = client.replaced(uri, new_text).1->Ok_0;
    let version = client.documents[uri].version + 1;
    let range = choose|range: LspRange|
        {
            &&& #[trigger] tells_change(change.frame, uri, version, range, new_text)
            &&& stands_behind(range.start, Seq::empty())
            &&& stands_behind(range.end, client.documents[uri].text)
            &&& edited(client.documents[uri].text, range, new_text) == Ok::<
                Seq<char>,
                Seq<char>,
            >(new_text)
        };
    assert(sends_change(progress, key, uri, version, range, new_text));
}

/// A replacement of a document whose version cannot be counted up is refused:
/// that is told, and nothing changes.
pub proof fn replacements_need_a_version(
    manager: ManagerView,
    key: Seq<char>,
    uri: Seq<char>,
    new_text: Seq<char>,
)
    requires
        is_open_in(manager, uri, key),
        manager.clients[key].documents[uri].version >= i64::MAX,
        encode_utf8(manager.clients[key].documents[uri].text).len() <= u64::MAX,
    ensures
        manager.begun(Call::ReplaceDocument { uri, text: new_text }) == (
            manager,
            failed("No version is left for "@ + uri),
        ),
{
    let client = manager.clients[key];
    replacing_all_gives_new_text(client.documents[uri].text, new_text);
    let (after, _) = manager.begun(Call::ReplaceDocument { uri, text: new_text });
    assert(after.clients =~= manager.clients);
}

/// A document that is opened where it is open already gets the new text by one
/// change of all of the old one, which is sent to its language server; its file
/// is written, and it is told that it was open.
pub proof fn reopening_sends_the_replacement(
    manager: ManagerView,
    key: Seq<char>,
    target: Target<Seq<char>>,
    other: Seq<char>,
)
    requires
        manager.clients.dom().contains(key),
        manager.clients[key].documents.dom().contains(target.uri),
        manager.clients[key].documents[target.uri].version < i64::MAX,
        encode_utf8(manager.clients[key].documents[target.uri].text).len() <= u64::MAX,
    ensures
        ({
            let (after, progress) = manager.place(key, target);
            let before = manager.clients[key].documents[target.uri];
            let now = after.clients[key].documents[target.uri];
            &&& exists|range: LspRange|
                {
                    &&& #[trigger] sends_change(
                        progress,
                        key,
                        target.uri,
                        now.version,
                        range,
                        target.text,
                    )
                    &&& stands_behind(range.start, Seq::empty())
                    &&& stands_behind(range.end, before.text)
                }
            &&& now.text == target.text
            &&& now.version == before.version + 1
            &&& now.rpc_session_id == before.rpc_session_id
            &&& ends_with(
                after,
                progress->stage,
                target.uri,
                target.text,
                "Document "@ + target.uri + " was already open; content "@ + (if target.from_disk {
                    "refreshed from disk"@
                } else {
                    "replaced"@
                }) + ". (workspace: "@ + (if key.len() == 0 {
                    "standalone"@
                } else {
                    key
                }) + ")"@,
            )
            &&& after.clients[key].progress_at(target.uri) == Some(FileCheckStatus::Processing)
            &&& after.clients[key].diagnostics_at(target.uri).len() == 0
            &&& differ_in(after, manager, key)
            &&& same_requests(after.clients[key], manager.clients[key])
            &&& other != target.uri ==> same_document(
                after.clients[key],
                manager.clients[key],
                other,
            )
        }),
{
    let (after, progress) = manager.place(key, target);
    let client = manager.clients[key];
    let uri = target.uri;
    let new_text = target.text;
    sent_change_is_the_replacement(client, uri, new_text, other);
    let change = client.replaced(uri, new_text).1->Ok_0;
    let version = client.documents[uri].version + 1;
    let range = choose|range: LspRange|
        {
            &&& #[trigger] tells_change(change.frame, uri, version, range, new_text)
            &&& stands_behind(range.start, Seq::empty())
            &&& stands_behind(range.end, client.documents[uri].text)
        };
    assert(sends_change(progress, key, uri, version, range, new_text));
}

/// A document that is open already is not opened once more where its version
/// cannot be counted up: that is told, and nothing changes.
pub proof fn reopening_needs_a_version(
    manager: ManagerView,
    key: Seq<char>,
    target: Target<Seq<char>>,
)
    requires
        manager.clients.dom().contains(key),
        manager.clients[key].documents.dom().contains(target.uri),
        manager.clients[key].documents[target.uri].version >= i64::MAX,
        encode_utf8(manager.clients[key].documents[target.uri].text).len() <= u64::MAX,
    ensures
        manager.place(key, target) == (manager, failed("No version is left for "@ + target.uri)),
{
    let client = manager.clients[key];
    replacing_all_gives_new_text(client.documents[target.uri].text, target.text);
    assert(manager.place(key, target).0.clients =~= manager.clients);
}

/// That a document is closed is sent to its language server, with its URI. When
/// it was sent, nothing of the document is left; when it could not be sent,
/// nothing changes.
pub proof fn closing_is_sent(
    manager: ManagerView,
    key: Seq<char>,
    uri: Seq<char>,
    other: Seq<char>,
)
    requires
        manager.wf(),
        is_open_in(manager, uri, key),
    ensures
        ({
            let (before, progress) = manager.begun(Call::CloseDocument { uri });
            let (after, told) = before.stepped(progress->stage, Event::Sent { sent: true });
            &&& before == manager
            &&& progress matches Progress::Ask {
                action: Action::Send { key: to, frame },
                stage: Stage::Closing { key: from, uri: of },
            } && to == key && from == key && of == uri && tells_close(frame, uri)
            &&& before.stepped(progress->stage, Event::Sent { sent: false }) == (
                manager,
                failed("Failed to send notification to lean stdin channel"@),
            )
            &&& told == done("Document "@ + uri + " closed."@)
            &&& !after.uris().dom().contains(uri)
            &&& !after.clients[key].documents.dom().contains(uri)
            &&& after.clients[key].diagnostics_at(uri).len() == 0
            &&& after.clients[key].progress_at(uri) is None
            &&& same_requests(after.clients[key], manager.clients[key])
            &&& other != uri ==> same_document(
                after.clients[key],
                manager.clients[key],
                other,
            )
            &&& other != uri ==> after.uris().dom().contains(other)
                == manager.uris().dom().contains(other)
            &&& other != uri && manager.uris().dom().contains(other) ==> after.uris()[other]
                == manager.uris()[other]
            &&& other != key ==> after.clients[other] == manager.clients[other]
        }),
{
    closing_tells_the_document(uri);
    lemma_listing_without(manager.listing, uri);
}

/// What is told of an open document without asking: its text, and how far Lean
/// is with it. Nothing changes.
pub proof fn open_documents_are_told(manager: ManagerView, key: Seq<char>, uri: Seq<char>)
    requires
        is_open_in(manager, uri, key),
    ensures
        manager.begun(Call::GetDocumentText { uri }) == (
            manager,
            done(manager.clients[key].documents[uri].text),
        ),
        manager.begun(Call::FileStatus { uri }) == (
            manager,
            done(
                if !manager.clients[key].progress.dom().contains(uri) {
                    "unknown — no file progress information available yet."@
                } else if manager.clients[key].progress[uri] == FileCheckStatus::Checked {
                    "checked — Lean has finished processing this file."@
                } else {
                    "processing — Lean is still checking this file."@
                },
            ),
        ),
{
}

/// A call on a document that is not open is refused with its URI, and nothing
/// changes.
pub proof fn calls_on_closed_documents_are_refused(
    manager: ManagerView,
    call: Call<Seq<char>>,
    uri: Seq<char>,
)
    requires
        document_of(call) == Some(uri),
        !manager.uris().dom().contains(uri),
    ensures
        manager.begun(call) == (
            manager,
            failed(
                "Document not open: "@ + uri + ". Use open_file or open_document first."@,
            ),
        ),
{
}

/// A call that is begun changes nothing of a document on which it does not work,
/// in any language server: neither its text, version or session nor what was
/// found in it or how far Lean is with it. It stays in its workspace.
pub proof fn begun_calls_keep_other_documents(
    manager: ManagerView,
    call: Call<Seq<char>>,
    key: Seq<char>,
    uri: Seq<char>,
)
    requires
        manager.wf(),
        document_of(call) != Some(uri),
        call matches Call::OpenDocument { uri: opened, .. } ==> opened != uri,
        manager.clients.dom().contains(key),
    ensures
        ({
            let after = manager.begun(call).0;
            &&& after.clients.dom().contains(key)
            &&& same_document(after.clients[key], manager.clients[key], uri)
            &&& after.clients[key].lake_root == manager.clients[key].lake_root
            &&& after.listing == manager.listing
            &&& after.default_lake_root == manager.default_lake_root
        }),
{
}

/// A call that goes on changes nothing of a document on which it does not work,
/// in any language server. It stays in its workspace.
pub proof fn running_calls_keep_other_documents(
    manager: ManagerView,
    stage: StageView,
    event: EventView,
    key: Seq<char>,
    uri: Seq<char>,
)
    requires
        manager.wf(),
        manager.suits(stage),
        subject(stage) != Some(uri),
        manager.clients.dom().contains(key),
    ensures
        ({
            let after = manager.stepped(stage, event).0;
            &&& after.clients.dom().contains(key)
            &&& same_document(after.clients[key], manager.clients[key], uri)
            &&& after.clients[key].lake_root == manager.clients[key].lake_root
            &&& after.uris().dom().contains(uri) == manager.uris().dom().contains(uri)
            &&& manager.uris().dom().contains(uri) ==> after.uris()[uri] == manager.uris()[uri]
            &&& after.default_lake_root == manager.default_lake_root
        }),
{
    match stage {
        Stage::Opening { key, target } | Stage::Connecting { key, target, .. } => {
            lemma_listing_set(manager.listing, target.uri, key);
        },
        Stage::Closing { uri: closed, .. } => {
            lemma_listing_without(manager.listing, closed);
        },
        _ => {},
    }
}

}
