//! The parameters of the messages to the language server.

use crate::json::{entry_views, item_views, object_view, Json, JsonView};
use crate::jsonrpc::member;
use crate::lsp::{LspPosition, LspRange};
use crate::uri::{file_path_to_uri, path_uri};
use vstd::prelude::*;

verus! {

/// The object without members.
pub open spec fn empty_object() -> JsonView {
    object_view(Seq::empty())
}

/// The object without members.
pub fn no_members() -> (value: Json)
    ensures
        value@ == empty_object(),
{
    let entries: Vec<(String, Json)> = Vec::new();
    assert(entry_views(entries@) =~= Seq::empty());
    Json::object(entries)
}

/// The object with one member.
pub open spec fn single(name: Seq<char>, value: JsonView) -> JsonView {
    object_view(seq![(name, value)])
}

/// The object with one member.
pub fn single_member(name: &str, value: Json) -> (object: Json)
    ensures
        object@ == single(name@, value@),
{
    let ghost view = value@;
    let entries: Vec<(String, Json)> = vec![member(name, value)];
    assert(entry_views(entries@) =~= seq![(name@, view)]);
    Json::object(entries)
}

/// The URI of the root of the Lake project, or `null` where there is none.
pub open spec fn root_uri(root: Option<Seq<char>>) -> JsonView {
    match root {
        Some(path) => JsonView::String(path_uri(path)),
        None => JsonView::Null,
    }
}

/// What is told of this program when a connection begins: its process, what
/// it can do, and the root of the Lake project, if there is one.
pub open spec fn initialize_params(process_id: u32, root: Option<Seq<char>>) -> JsonView {
    object_view(
        seq![
            ("processId"@, JsonView::Integer(process_id as int)),
            (
                "capabilities"@,
                single(
                    "textDocument"@,
                    single("publishDiagnostics"@, single("relatedInformation"@, JsonView::Bool(true))),
                ),
            ),
            ("rootUri"@, root_uri(root)),
            ("initializationOptions"@, empty_object()),
        ],
    )
}

/// The parameters of `initialize`.
pub fn initialize_message(process_id: u32, root: &Option<String>) -> (params: Json)
    ensures
        params@ == initialize_params(process_id, root.deep_view()),
{
    let uri = match root {
        Some(path) => Json::String(file_path_to_uri(path.as_str())),
        None => Json::Null,
    };
    let capabilities = single_member(
        "textDocument",
        single_member("publishDiagnostics", single_member("relatedInformation", Json::Bool(true))),
    );
    assert(uri@ == root_uri(root.deep_view()));
    let ghost root_view = uri@;
    let ghost capabilities_view = capabilities@;
    let entries: Vec<(String, Json)> = vec![
        member("processId", Json::Unsigned(process_id as u64)),
        member("capabilities", capabilities),
        member("rootUri", uri),
        member("initializationOptions", no_members()),
    ];
    assert(entry_views(entries@) =~= seq![
        ("processId"@, JsonView::Integer(process_id as int)),
        ("capabilities"@, capabilities_view),
        ("rootUri"@, root_view),
        ("initializationOptions"@, empty_object()),
    ]);
    Json::object(entries)
}

/// What is told of a document that is opened: its URI, its language, that its
/// version is the first, and its text.
pub open spec fn did_open_params(uri: Seq<char>, text: Seq<char>) -> JsonView {
    single(
        "textDocument"@,
        object_view(
            seq![
                ("uri"@, JsonView::String(uri)),
                ("languageId"@, JsonView::String("lean4"@)),
                ("version"@, JsonView::Integer(1)),
                ("text"@, JsonView::String(text)),
            ],
        ),
    )
}

/// The parameters of `textDocument/didOpen`.
pub fn did_open_message(uri: &str, text: &str) -> (params: Json)
    ensures
        params@ == did_open_params(uri@, text@),
{
    let entries: Vec<(String, Json)> = vec![
        member("uri", Json::text(uri)),
        member("languageId", Json::text("lean4")),
        member("version", Json::Signed(1)),
        member("text", Json::text(text)),
    ];
    assert(entry_views(entries@) =~= seq![
        ("uri"@, JsonView::String(uri@)),
        ("languageId"@, JsonView::String("lean4"@)),
        ("version"@, JsonView::Integer(1)),
        ("text"@, JsonView::String(text@)),
    ]);
    single_member("textDocument", Json::object(entries))
}

/// A document, told by its URI.
pub open spec fn document_params(uri: Seq<char>) -> JsonView {
    single("textDocument"@, single("uri"@, JsonView::String(uri)))
}

/// The parameters of `textDocument/didClose`.
pub fn document_message(uri: &str) -> (params: Json)
    ensures
        params@ == document_params(uri@),
{
    single_member("textDocument", single_member("uri", Json::text(uri)))
}

/// A place in a document.
pub open spec fn position_params(position: LspPosition) -> JsonView {
    object_view(
        seq![
            ("line"@, JsonView::Integer(position.line as int)),
            ("character"@, JsonView::Integer(position.character as int)),
        ],
    )
}

/// A place in a document.
pub fn position_message(position: LspPosition) -> (params: Json)
    ensures
        params@ == position_params(position),
{
    let entries: Vec<(String, Json)> = vec![
        member("line", Json::Unsigned(position.line)),
        member("character", Json::Unsigned(position.character)),
    ];
    assert(entry_views(entries@) =~= seq![
        ("line"@, JsonView::Integer(position.line as int)),
        ("character"@, JsonView::Integer(position.character as int)),
    ]);
    Json::object(entries)
}

/// What is told of an edit: the document and its new version, the stretch that
/// is replaced, and the text that replaces it.
pub open spec fn did_change_params(
    uri: Seq<char>,
    version: int,
    range: LspRange,
    new_text: Seq<char>,
) -> JsonView {
    object_view(
        seq![
            (
                "textDocument"@,
                object_view(
                    seq![
                        ("uri"@, JsonView::String(uri)),
                        ("version"@, JsonView::Integer(version)),
                    ],
                ),
            ),
            (
                "contentChanges"@,
                JsonView::Array(
                    seq![
                        object_view(
                            seq![
                                (
                                    "range"@,
                                    object_view(
                                        seq![
                                            ("start"@, position_params(range.start)),
                                            ("end"@, position_params(range.end)),
                                        ],
                                    ),
                                ),
                                ("text"@, JsonView::String(new_text)),
                            ],
                        ),
                    ],
                ),
            ),
        ],
    )
}

/// The parameters of `textDocument/didChange`.
pub fn did_change_message(uri: &str, version: i64, range: LspRange, new_text: &str) -> (params:
    Json)
    ensures
        params@ == did_change_params(uri@, version as int, range, new_text@),
{
    let document: Vec<(String, Json)> = vec![
        member("uri", Json::text(uri)),
        member("version", Json::Signed(version)),
    ];
    assert(entry_views(document@) =~= seq![
        ("uri"@, JsonView::String(uri@)),
        ("version"@, JsonView::Integer(version as int)),
    ]);
    let stretch: Vec<(String, Json)> = vec![
        member("start", position_message(range.start)),
        member("end", position_message(range.end)),
    ];
    assert(entry_views(stretch@) =~= seq![
        ("start"@, position_params(range.start)),
        ("end"@, position_params(range.end)),
    ]);
    let stretch = Json::object(stretch);
    let ghost stretch_view = stretch@;
    let change: Vec<(String, Json)> = vec![
        member("range", stretch),
        member("text", Json::text(new_text)),
    ];
    assert(entry_views(change@) =~= seq![
        ("range"@, stretch_view),
        ("text"@, JsonView::String(new_text@)),
    ]);
    let change = Json::object(change);
    let ghost change_view = change@;
    let changes: Vec<Json> = vec![change];
    assert(item_views(changes@) =~= seq![change_view]);
    let document = Json::object(document);
    let ghost document_view = document@;
    let changes = Json::array(changes);
    let ghost changes_view = changes@;
    let entries: Vec<(String, Json)> = vec![
        member("textDocument", document),
        member("contentChanges", changes),
    ];
    assert(entry_views(entries@) =~= seq![
        ("textDocument"@, document_view),
        ("contentChanges"@, changes_view),
    ]);
    Json::object(entries)
}

/// The document for which a session is opened.
pub open spec fn connect_params(uri: Seq<char>) -> JsonView {
    single("uri"@, JsonView::String(uri))
}

/// The parameters of `$/lean/rpc/connect`.
pub fn connect_message(uri: &str) -> (params: Json)
    ensures
        params@ == connect_params(uri@),
{
    single_member("uri", Json::text(uri))
}

/// The document and the place whose goals are asked for.
pub open spec fn goal_params(uri: Seq<char>, position: LspPosition) -> JsonView {
    object_view(
        seq![
            ("textDocument"@, single("uri"@, JsonView::String(uri))),
            ("position"@, position_params(position)),
        ],
    )
}

/// The parameters of `$/lean/plainGoal`.
pub fn goal_message(uri: &str, position: LspPosition) -> (params: Json)
    ensures
        params@ == goal_params(uri@, position),
{
    let entries: Vec<(String, Json)> = vec![
        member("textDocument", single_member("uri", Json::text(uri))),
        member("position", position_message(position)),
    ];
    assert(entry_views(entries@) =~= seq![
        ("textDocument"@, single("uri"@, JsonView::String(uri@))),
        ("position"@, position_params(position)),
    ]);
    Json::object(entries)
}

}
