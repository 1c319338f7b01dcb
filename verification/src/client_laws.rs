//! What holds of a connection over several steps.

use crate::client_model::{
    id_text, progress_of, progress_uri, spawn_view, ClientView, IncomingView, OutcomeView,
    RequestView, SpawnView, WaitStep,
};
use crate::document::{
    byte_lines, edited, inverse_edit_restores_text, line_range, replacing_all_gives_new_text,
};
use crate::json::{json_parse, JsonView};
use crate::jsonrpc::{message_frame, response_of, success_view};
use crate::lsp::{FileCheckStatus, LspRange};
use crate::reader::{
    chunks_do_not_matter, drained_in_chunks, flattened, frames, frames_are_read_back, ReaderView,
};
use crate::text::{decimal_round_trip, lossy_text, signed_decimal};
use vstd::prelude::*;
use vstd::utf8::*;

verus! {

/// A Lean program that is named is the one that is started, in a Lake project
/// too.
pub proof fn lean_program_comes_first(
    lake_root: Option<Seq<char>>,
    lean_bin: Seq<char>,
    lake_bin: Option<Seq<char>>,
)
    ensures
        spawn_view(lake_root, Some(lean_bin), lake_bin) == (SpawnView {
            program: lean_bin,
            argument: "--server"@,
            current_dir: lake_root,
        }),
{
}

/// A document that was opened has the text that it was opened with, its first
/// version and no session; Lean is at work on it, nothing is known of it, and
/// no other document has changed.
pub proof fn opened_text_is_read(
    client: ClientView,
    uri: Seq<char>,
    text: Seq<char>,
    other: Seq<char>,
)
    ensures
        ({
            let after = client.marked(uri).opened(uri, text);
            &&& after.documents.dom().contains(uri)
            &&& after.documents[uri].text == text
            &&& after.documents[uri].version == 1
            &&& after.documents[uri].rpc_session_id is None
            &&& after.waited(uri, false) == WaitStep::Wait
            &&& after.diagnostics_at(uri).len() == 0
            &&& other != uri ==> (after.documents.dom().contains(other)
                <==> client.documents.dom().contains(other))
            &&& other != uri ==> after.documents[other] == client.documents[other]
        }),
{
}

/// A document that was edited has the edited text, which is the one that is
/// told, and the next version; Lean is at work on it, what was known of it is
/// void, and no other document has changed.
pub proof fn edited_text_is_read(
    client: ClientView,
    uri: Seq<char>,
    range: LspRange,
    new_text: Seq<char>,
    other: Seq<char>,
)
    requires
        client.edit(uri, range, new_text).1 is Ok,
    ensures
        ({
            let (after, result) = client.edit(uri, range, new_text);
            &&& client.documents.dom().contains(uri)
            &&& after.documents.dom() == client.documents.dom()
            &&& after.documents[uri].text == result->Ok_0.text
            &&& edited(client.documents[uri].text, range, new_text) == Ok::<Seq<char>, Seq<char>>(
                after.documents[uri].text,
            )
            &&& after.documents[uri].version == client.documents[uri].version + 1
            &&& after.documents[uri].rpc_session_id == client.documents[uri].rpc_session_id
            &&& after.waited(uri, false) == WaitStep::Wait
            &&& after.diagnostics_at(uri).len() == 0
            &&& other != uri ==> after.documents[other] == client.documents[other]
        }),
{
    let after = client.edit(uri, range, new_text).0;
    assert(after.documents.dom() =~= client.documents.dom());
}

/// An edit that is refused changes nothing.
pub proof fn refused_edit_changes_nothing(
    client: ClientView,
    uri: Seq<char>,
    range: LspRange,
    new_text: Seq<char>,
)
    requires
        client.edit(uri, range, new_text).1 is Err,
    ensures
        client.edit(uri, range, new_text).0 == client,
{
}

/// The text of an open document can always be replaced, as long as its version
/// can be counted, and the new text is then read.
pub proof fn replaced_text_is_read(client: ClientView, uri: Seq<char>, new_text: Seq<char>)
    requires
        client.documents.dom().contains(uri),
        client.can_count(uri),
        encode_utf8(client.documents[uri].text).len() <= u64::MAX,
    ensures
        client.replaced(uri, new_text).1 is Ok,
        client.replaced(uri, new_text).1->Ok_0.text == new_text,
        client.replaced(uri, new_text).0.documents[uri].text == new_text,
{
    replacing_all_gives_new_text(client.documents[uri].text, new_text);
}

/// An edit within one line, whose new text holds no line feed, is undone by the
/// edit from the same place over the new text, with the text that was removed:
/// it is not refused, the document has the text that it had, and its version
/// has gone up by two.
pub proof fn inverse_edit_undoes(
    client: ClientView,
    uri: Seq<char>,
    line: u64,
    start: u64,
    end: u64,
    new_text: Seq<char>,
    removed: Seq<char>,
)
    requires
        client.edit(uri, line_range(line, start, end), new_text).1 is Ok,
        client.documents[uri].version + 1 < i64::MAX,
        ({
            let lines = byte_lines(encode_utf8(client.documents[uri].text));
            &&& line < lines.len()
            &&& start <= end <= lines[line as int].len()
            &&& encode_utf8(removed) == lines[line as int].subrange(start as int, end as int)
        }),
        !new_text.contains('\n'),
        start + encode_utf8(new_text).len() <= u64::MAX,
    ensures
        ({
            let between = client.edit(uri, line_range(line, start, end), new_text).0;
            let back = line_range(line, start, (start + encode_utf8(new_text).len()) as u64);
            let (after, result) = between.edit(uri, back, removed);
            &&& result is Ok
            &&& result->Ok_0.text == client.documents[uri].text
            &&& after.documents[uri].text == client.documents[uri].text
            &&& after.documents[uri].version == client.documents[uri].version + 2
        }),
{
    inverse_edit_restores_text(
        client.documents[uri].text,
        line,
        start,
        end,
        new_text,
        removed,
    );
}

/// Nothing of a document that was closed is left, and no other document has
/// changed; an edit of it is refused.
pub proof fn closed_document_is_gone(
    client: ClientView,
    uri: Seq<char>,
    other: Seq<char>,
    range: LspRange,
    new_text: Seq<char>,
)
    ensures
        ({
            let after = client.closed(uri);
            &&& !after.documents.dom().contains(uri)
            &&& after.progress_at(uri) is None
            &&& after.diagnostics_at(uri).len() == 0
            &&& after.edit(uri, range, new_text).1 is Err
            &&& after.replaced(uri, new_text).1 is Err
            &&& other != uri ==> (after.documents.dom().contains(other)
                <==> client.documents.dom().contains(other))
            &&& other != uri ==> after.documents[other] == client.documents[other]
        }),
{
}

/// A new request has an id that no waiting request has, and the next one has
/// another.
pub proof fn request_ids_differ(
    client: ClientView,
    method: Seq<char>,
    params: Option<JsonView>,
    timeout_secs: u64,
    next_method: Seq<char>,
    next_params: Option<JsonView>,
    next_timeout_secs: u64,
)
    requires
        client.wf(),
    ensures
        ({
            let (after, request) = client.requested(method, params, timeout_secs);
            let next = after.requested(next_method, next_params, next_timeout_secs).1;
            &&& !client.pending.contains(request.id)
            &&& after.pending.contains(request.id)
            &&& next.id != request.id
            &&& after.wf()
        }),
{
    decimal_round_trip(client.next_request_id as nat);
    decimal_round_trip((client.next_request_id + 1) as nat);
}

/// The response to a request is taken as such, whatever else came before it,
/// as long as the request waits; the request then waits no longer, and the
/// same response once more is passed over.
pub proof fn response_resolves_once(client: ClientView, id: int, message: JsonView)
    requires
        client.pending.contains(signed_decimal(id)),
        message.get("id"@) == Some(JsonView::Integer(id)),
        message.get("result"@) is Some || message.get("error"@) is Some,
        response_of(message) is Some,
    ensures
        ({
            let (after, incoming) = client.received(message);
            &&& incoming == (IncomingView::Resolved {
                id: signed_decimal(id),
                response: response_of(message)->0,
            })
            &&& !after.pending.contains(signed_decimal(id))
            &&& after.received(message) == (after, IncomingView::Nothing)
        }),
{
}

/// A request that was not answered in time waits no longer: a response that
/// comes late is passed over.
pub proof fn late_response_is_passed_over(
    client: ClientView,
    request: RequestView,
    message: JsonView,
)
    requires
        message.get("id"@) is Some,
        message.get("id"@) != Some(JsonView::Null),
        id_text(message.get("id"@)->0) == request.id,
        message.get("result"@) is Some || message.get("error"@) is Some,
    ensures
        ({
            let after = client.concluded(request, OutcomeView::TimedOut).0;
            after.received(message) == (after, IncomingView::Nothing)
        }),
{
}

/// When Lean tells that nothing of a document is left to be processed, the
/// wait for its diagnostics is over, however much time is left; when something
/// is left, it is not over before the time is.
pub proof fn progress_ends_the_wait(client: ClientView, params: JsonView, expired: bool)
    ensures
        ({
            let (after, incoming) = client.notified("$/lean/fileProgress"@, Some(params));
            let step = after.waited(progress_uri(params), expired);
            &&& incoming == IncomingView::Progress
            &&& progress_of(params) == FileCheckStatus::Checked ==> step == WaitStep::Settle
            &&& progress_of(params) == FileCheckStatus::Processing ==> step == (if expired {
                WaitStep::GiveUp
            } else {
                WaitStep::Wait
            })
        }),
{
    reveal_strlit("$/lean/fileProgress");
    reveal_strlit("textDocument/publishDiagnostics");
    assert("$/lean/fileProgress"@[0] != "textDocument/publishDiagnostics"@[0]);
}

/// The state after the bodies of some messages, and what follows from each.
pub open spec fn handled(client: ClientView, bodies: Seq<Seq<u8>>) -> (
    ClientView,
    Seq<IncomingView>,
)
    decreases bodies.len(),
{
    if bodies.len() == 0 {
        (client, Seq::empty())
    } else {
        let (before, incoming) = handled(client, bodies.drop_last());
        let (after, next) = before.read(bodies.last());
        (after, incoming.push(next))
    }
}

/// What the language server writes is read back message by message, in
/// whatever chunks it comes, and each message is handled once, in its turn. One
/// that is no JSON has no effect and does not stop the later ones.
pub proof fn output_is_handled_in_order(
    client: ClientView,
    bodies: Seq<Seq<u8>>,
    chunks: Seq<Seq<u8>>,
    i: int,
)
    requires
        forall|k: int| 0 <= k < bodies.len() ==> (#[trigger] bodies[k]).len() <= usize::MAX,
        flattened(chunks) == frames(bodies),
        0 <= i < bodies.len(),
    ensures
        ({
            let (end, read, sound) = drained_in_chunks(ReaderView::at(Seq::empty()), chunks);
            &&& read == bodies
            &&& sound
            &&& end.may_end()
        }),
        ({
            let (before, incoming) = handled(client, bodies.take(i));
            let (after, next) = before.read(bodies[i]);
            &&& handled(client, bodies.take(i + 1)) == (after, incoming.push(next))
            &&& json_parse(lossy_text(bodies[i])) is Err ==> after == before
                && next is Nothing
        }),
        handled(client, bodies.take(bodies.len() as int)) == handled(client, bodies),
        handled(client, bodies).1.len() == bodies.len(),
{
    let start = ReaderView::at(Seq::empty());
    chunks_do_not_matter(start, chunks);
    assert(start.bytes + flattened(chunks) =~= frames(bodies));
    frames_are_read_back(bodies);
    assert(bodies.take(i + 1).drop_last() =~= bodies.take(i));
    assert(bodies.take(bodies.len() as int) =~= bodies);
    lemma_handled_each(client, bodies);
}

/// Something follows from each message, if only that nothing is to be done.
proof fn lemma_handled_each(client: ClientView, bodies: Seq<Seq<u8>>)
    ensures
        handled(client, bodies).1.len() == bodies.len(),
    decreases bodies.len(),
{
    if bodies.len() > 0 {
        lemma_handled_each(client, bodies.drop_last());
    }
}

/// An edit that begins or ends behind the last line is refused, and changes
/// nothing.
pub proof fn edit_out_of_bounds_is_refused(
    client: ClientView,
    uri: Seq<char>,
    range: LspRange,
    new_text: Seq<char>,
)
    requires
        client.documents.dom().contains(uri),
        ({
            let n = byte_lines(encode_utf8(client.documents[uri].text)).len();
            range.start.line >= n || range.end.line >= n
        }),
    ensures
        client.edit(uri, range, new_text).0 == client,
        client.edit(uri, range, new_text).1 is Err,
{
}

/// No message of the language server opens, changes or closes a document.
pub proof fn messages_leave_documents(client: ClientView, message: JsonView)
    ensures
        client.received(message).0.documents == client.documents,
{
}

/// A request of the language server is acknowledged with its id, and changes
/// nothing.
pub proof fn server_requests_are_acknowledged(client: ClientView, message: JsonView)
    requires
        message.get("id"@) is Some,
        message.get("id"@) != Some(JsonView::Null),
        message.get("method"@) is Some,
        message.get("result"@) is None,
        message.get("error"@) is None,
    ensures
        client.received(message) == (
            client,
            IncomingView::Answer {
                frame: message_frame(success_view(message.get("id"@)->0, JsonView::Null).json()),
            },
        ),
{
}

}
