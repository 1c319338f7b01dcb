//! The tools that the server offers, and the calls that they take.

use crate::json::{entry_views, item_views, object_view, Json, JsonView};
use crate::jsonrpc::member;
use crate::lsp::{LspPosition, LspRange};
use crate::messages::{single, single_member};
use crate::text::{result_view, same_text};
use vstd::prelude::*;
use vstd::string::*;

verus! {

/// What an argument of a tool holds.
#[derive(Debug, Clone, Copy, PartialEq, Eq, Structural)]
pub enum Kind {
    Text,
    Integer,
}

/// An argument that a tool takes.
#[derive(Debug)]
pub struct Property {
    pub name: String,
    pub kind: Kind,
    pub description: String,
    pub required: bool,
}

/// The model of an argument that a tool takes.
pub struct PropertyView {
    pub name: Seq<char>,
    pub kind: Kind,
    pub description: Seq<char>,
    pub required: bool,
}

impl View for Property {
    type V = PropertyView;

    open spec fn view(&self) -> PropertyView {
        PropertyView {
            name: self.name@,
            kind: self.kind,
            description: self.description@,
            required: self.required,
        }
    }
}

impl DeepView for Property {
    type V = PropertyView;

    open spec fn deep_view(&self) -> PropertyView {
        self@
    }
}

/// A tool.
#[derive(Debug)]
pub struct Tool {
    pub name: String,
    pub description: String,
    pub properties: Vec<Property>,
}

/// The model of a tool.
pub struct ToolView {
    pub name: Seq<char>,
    pub description: Seq<char>,
    pub properties: Seq<PropertyView>,
}

impl View for Tool {
    type V = ToolView;

    open spec fn view(&self) -> ToolView {
        ToolView {
            name: self.name@,
            description: self.description@,
            properties: self.properties.deep_view(),
        }
    }
}

impl DeepView for Tool {
    type V = ToolView;

    open spec fn deep_view(&self) -> ToolView {
        self@
    }
}

/// The name that a JSON schema has for what an argument holds.
pub open spec fn kind_name(kind: Kind) -> Seq<char> {
    match kind {
        Kind::Text => "string"@,
        Kind::Integer => "integer"@,
    }
}

/// The schemas of some arguments, by their names.
pub open spec fn property_entries(properties: Seq<PropertyView>) -> Seq<(Seq<char>, JsonView)> {
    Seq::new(
        properties.len(),
        |i: int|
            (
                properties[i].name,
                object_view(
                    seq![
                        ("type"@, JsonView::String(kind_name(properties[i].kind))),
                        ("description"@, JsonView::String(properties[i].description)),
                    ],
                ),
            ),
    )
}

/// The names of the arguments that must be there, in their order.
pub open spec fn required_names(properties: Seq<PropertyView>) -> Seq<JsonView>
    decreases properties.len(),
{
    if properties.len() == 0 {
        Seq::empty()
    } else if properties.last().required {
        required_names(properties.drop_last()).push(JsonView::String(properties.last().name))
    } else {
        required_names(properties.drop_last())
    }
}

impl ToolView {
    /// A tool as it is listed.
    pub open spec fn json(self) -> JsonView {
        object_view(
            seq![
                ("name"@, JsonView::String(self.name)),
                ("description"@, JsonView::String(self.description)),
                (
                    "inputSchema"@,
                    object_view(
                        seq![
                            ("type"@, JsonView::String("object"@)),
                            ("properties"@, object_view(property_entries(self.properties))),
                            ("required"@, JsonView::Array(required_names(self.properties))),
                        ],
                    ),
                ),
            ],
        )
    }
}

impl Tool {
    /// The schemas of the arguments, by their names.
    fn property_members(&self) -> (entries: Vec<(String, Json)>)
        ensures
            entry_views(entries@) == property_entries(self@.properties),
    {
        let mut entries: Vec<(String, Json)> = Vec::new();
        let ghost goal = property_entries(self@.properties);
        for i in 0..self.properties.len()
            invariant
                goal == property_entries(self@.properties),
                goal.len() == self.properties@.len(),
                entry_views(entries@) == goal.take(i as int),
        {
            let property = &self.properties[i];
            let kind = match property.kind {
                Kind::Text => "string",
                Kind::Integer => "integer",
            };
            let parts: Vec<(String, Json)> = vec![
                member("type", Json::text(kind)),
                member("description", Json::text(property.description.as_str())),
            ];
            assert(entry_views(parts@) =~= seq![
                ("type"@, JsonView::String(kind_name(property.kind))),
                ("description"@, JsonView::String(property.description@)),
            ]);
            let schema = Json::object(parts);
            assert(self@.properties[i as int] == property@);
            assert(goal[i as int] == (property.name@, schema@));
            let ghost before = entries@;
            entries.push(member(property.name.as_str(), schema));
            assert(entry_views(entries@) =~= entry_views(before).push(goal[i as int]));
            assert(goal.take(i as int).push(goal[i as int]) =~= goal.take(i + 1));
        }
        assert(goal.take(goal.len() as int) =~= goal);
        entries
    }

    /// The names of the arguments that must be there.
    fn required_members(&self) -> (names: Vec<Json>)
        ensures
            item_views(names@) == required_names(self@.properties),
    {
        let mut names: Vec<Json> = Vec::new();
        let ghost properties = self@.properties;
        assert(item_views(names@) =~= Seq::empty());
        for i in 0..self.properties.len()
            invariant
                properties == self@.properties,
                properties.len() == self.properties@.len(),
                item_views(names@) == required_names(properties.take(i as int)),
        {
            let property = &self.properties[i];
            assert(properties[i as int] == property@);
            assert(properties.take(i + 1).drop_last() =~= properties.take(i as int));
            if property.required {
                let ghost before = names@;
                names.push(Json::text(property.name.as_str()));
                assert(item_views(names@) =~= item_views(before).push(
                    JsonView::String(property.name@),
                ));
            }
        }
        assert(properties.take(properties.len() as int) =~= properties);
        names
    }

    /// The tool as it is listed.
    pub fn to_json(&self) -> (value: Json)
        ensures
            value@ == self@.json(),
    {
        let properties = Json::object(self.property_members());
        let required = Json::array(self.required_members());
        let ghost properties_view = properties@;
        let ghost required_view = required@;
        let parts: Vec<(String, Json)> = vec![
            member("type", Json::text("object")),
            member("properties", properties),
            member("required", required),
        ];
        assert(entry_views(parts@) =~= seq![
            ("type"@, JsonView::String("object"@)),
            ("properties"@, properties_view),
            ("required"@, required_view),
        ]);
        let schema = Json::object(parts);
        let ghost schema_view = schema@;
        let entries: Vec<(String, Json)> = vec![
            member("name", Json::text(self.name.as_str())),
            member("description", Json::text(self.description.as_str())),
            member("inputSchema", schema),
        ];
        assert(entry_views(entries@) =~= seq![
            ("name"@, JsonView::String(self.name@)),
            ("description"@, JsonView::String(self.description@)),
            ("inputSchema"@, schema_view),
        ]);
        Json::object(entries)
    }
}

/// An argument that a tool takes.
pub open spec fn property_view(
    name: Seq<char>,
    kind: Kind,
    description: Seq<char>,
    required: bool,
) -> PropertyView {
    PropertyView { name, kind, description, required }
}

/// An argument that a tool takes.
fn property(name: &str, kind: Kind, description: &str, required: bool) -> (property: Property)
    ensures
        property@ == property_view(name@, kind, description@, required),
{
    Property { name: name.to_owned(), kind, description: description.to_owned(), required }
}

/// A tool.
fn tool(name: &str, description: &str, properties: Vec<Property>) -> (tool: Tool)
    ensures
        tool@.name == name@,
        tool@.description == description@,
        tool@.properties == properties.deep_view(),
{
    Tool { name: name.to_owned(), description: description.to_owned(), properties }
}

/// What `open_file` does.
pub const OPEN_FILE_ABOUT: &'static str =
    "Open a Lean 4 source file from disk in the language server by its absolute file path. The file content is read automatically from disk. This MUST be called before any other operations (get_goal_state, get_diagnostics, etc.) on a file. After opening, Lean will begin type-checking the file — use get_diagnostics with a timeout to wait for results. If the file belongs to a Lake project (has a lakefile.lean in a parent directory), the workspace is auto-detected. You can also pass lake_workspace explicitly.";

/// What `path` tells `open_file`.
pub const OPEN_FILE_PATH: &'static str =
    "Absolute path to the .lean file on disk (e.g. /home/user/project/MyFile.lean)";

/// What `lake_workspace` tells `open_file`.
pub const OPEN_FILE_LAKE_WORKSPACE: &'static str =
    "Optional. Absolute path to the Lake project root directory (the folder containing lakefile.lean/lakefile.toml). If omitted, the workspace is auto-detected by searching for lakefile.lean upward from the file path. If no lakefile is found, standalone mode (lean --server) is used.";

/// What `open_document` does.
pub const OPEN_DOCUMENT_ABOUT: &'static str =
    "Open a Lean 4 source file by providing a file URI and full text content directly. Use this when you have the content in memory (e.g. a new unsaved file). For files already on disk, prefer open_file instead. Supports optional lake_workspace parameter for Lake project files.";

/// What `uri` tells `open_document`.
pub const OPEN_DOCUMENT_URI: &'static str =
    "The file URI (e.g. file:///home/user/project/MyFile.lean)";

/// What `text` tells `open_document`.
pub const OPEN_DOCUMENT_TEXT: &'static str =
    "The full text content of the file";

/// What `lake_workspace` tells `open_document`.
pub const OPEN_DOCUMENT_LAKE_WORKSPACE: &'static str =
    "Optional. Absolute path to the Lake project root directory. If omitted, auto-detected from the URI's file path.";

/// What `get_diagnostics` does.
pub const GET_DIAGNOSTICS_ABOUT: &'static str =
    "Get all compilation diagnostics (errors, warnings, info) for an open Lean 4 document. Waits for Lean to finish checking the file (up to timeout_ms). Returns formatted diagnostics with severity, location, and message. If no diagnostics are found, the file compiled successfully. Call this after open_file or after editing to check for errors.";

/// What `uri` tells `get_diagnostics`.
pub const GET_DIAGNOSTICS_URI: &'static str =
    "The file URI (e.g. file:///path/to/file.lean)";

/// What `timeout_ms` tells `get_diagnostics`.
pub const GET_DIAGNOSTICS_TIMEOUT_MS: &'static str =
    "Max milliseconds to wait for Lean to finish checking (default: 60000). For files importing Mathlib, use 180000 or more.";

/// What `get_goal_state` does.
pub const GET_GOAL_STATE_ABOUT: &'static str =
    "Query the Lean 4 proof state (tactic goals) at a cursor position. Returns hypotheses and target type at that position. Place the cursor inside a `by` tactic block (e.g. on a `sorry` or tactic name) to see what needs to be proved. Line and character are 0-indexed.";

/// What `uri` tells a tool that works on an open document.
pub const DOCUMENT_URI: &'static str =
    "The file URI";

/// What `line` tells `get_goal_state`.
pub const GET_GOAL_STATE_LINE: &'static str =
    "Cursor line (0-indexed)";

/// What `character` tells `get_goal_state`.
pub const GET_GOAL_STATE_CHARACTER: &'static str =
    "Cursor character (0-indexed)";

/// What `replace_document` does.
pub const REPLACE_DOCUMENT_ABOUT: &'static str =
    "Replace the entire content of an already-open Lean 4 document with new text. The file on disk is also updated. Use this to rewrite a proof or change the file content. After replacing, call get_diagnostics to check the result.";

/// What `newText` tells `replace_document`.
pub const REPLACE_DOCUMENT_NEW_TEXT: &'static str =
    "The new full text content of the file";

/// What `apply_edit` does.
pub const APPLY_EDIT_ABOUT: &'static str =
    "Apply a targeted text edit to an already-open Lean 4 document. Specify a range (start/end line and character, 0-indexed) and the replacement text. The file on disk is also updated. Useful for replacing a single tactic or definition without rewriting the whole file.";

/// What `startLine` tells `apply_edit`.
pub const APPLY_EDIT_START_LINE: &'static str =
    "Start line (0-indexed)";

/// What `startCharacter` tells `apply_edit`.
pub const APPLY_EDIT_START_CHARACTER: &'static str =
    "Start character (0-indexed)";

/// What `endLine` tells `apply_edit`.
pub const APPLY_EDIT_END_LINE: &'static str =
    "End line (0-indexed)";

/// What `endCharacter` tells `apply_edit`.
pub const APPLY_EDIT_END_CHARACTER: &'static str =
    "End character (0-indexed)";

/// What `newText` tells `apply_edit`.
pub const APPLY_EDIT_NEW_TEXT: &'static str =
    "The text to replace the range with";

/// What `get_document_text` does.
pub const GET_DOCUMENT_TEXT_ABOUT: &'static str =
    "Get the current text content of an open Lean 4 document as tracked by the language server. Useful to see the current state after edits.";

/// What `close_document` does.
pub const CLOSE_DOCUMENT_ABOUT: &'static str =
    "Close a previously opened Lean 4 document. Frees resources in both the MCP server and Lean language server. Call when done working with a file.";

/// What `uri` tells `close_document`.
pub const CLOSE_DOCUMENT_URI: &'static str =
    "The file URI of the document to close";

/// What `file_status` does.
pub const FILE_STATUS_ABOUT: &'static str =
    "Check whether Lean is still processing an open document or has finished checking it. Returns 'checked' when safe to query diagnostics/goals, or 'processing' if Lean is still working.";

/// What `list_documents` does.
pub const LIST_DOCUMENTS_ABOUT: &'static str =
    "List all currently open Lean 4 documents across all workspaces, with their processing status and which workspace they belong to.";

/// The tools that the server offers.
pub open spec fn tool_views() -> Seq<ToolView> {
    seq![
        ToolView {
            name: "open_file"@,
            description: OPEN_FILE_ABOUT@,
            properties: seq![
                property_view("path"@, Kind::Text, OPEN_FILE_PATH@, true),
                property_view("lake_workspace"@, Kind::Text, OPEN_FILE_LAKE_WORKSPACE@, false),
            ],
        },
        ToolView {
            name: "open_document"@,
            description: OPEN_DOCUMENT_ABOUT@,
            properties: seq![
                property_view("uri"@, Kind::Text, OPEN_DOCUMENT_URI@, true),
                property_view("text"@, Kind::Text, OPEN_DOCUMENT_TEXT@, true),
                property_view("lake_workspace"@, Kind::Text, OPEN_DOCUMENT_LAKE_WORKSPACE@, false),
            ],
        },
        ToolView {
            name: "get_diagnostics"@,
            description: GET_DIAGNOSTICS_ABOUT@,
            properties: seq![
                property_view("uri"@, Kind::Text, GET_DIAGNOSTICS_URI@, true),
                property_view("timeout_ms"@, Kind::Integer, GET_DIAGNOSTICS_TIMEOUT_MS@, false),
            ],
        },
        ToolView {
            name: "get_goal_state"@,
            description: GET_GOAL_STATE_ABOUT@,
            properties: seq![
                property_view("uri"@, Kind::Text, DOCUMENT_URI@, true),
                property_view("line"@, Kind::Integer, GET_GOAL_STATE_LINE@, true),
                property_view("character"@, Kind::Integer, GET_GOAL_STATE_CHARACTER@, true),
            ],
        },
        ToolView {
            name: "replace_document"@,
            description: REPLACE_DOCUMENT_ABOUT@,
            properties: seq![
                property_view("uri"@, Kind::Text, DOCUMENT_URI@, true),
                property_view("newText"@, Kind::Text, REPLACE_DOCUMENT_NEW_TEXT@, true),
            ],
        },
        ToolView {
            name: "apply_edit"@,
            description: APPLY_EDIT_ABOUT@,
            properties: seq![
                property_view("uri"@, Kind::Text, DOCUMENT_URI@, true),
                property_view("startLine"@, Kind::Integer, APPLY_EDIT_START_LINE@, true),
                property_view("startCharacter"@, Kind::Integer, APPLY_EDIT_START_CHARACTER@, true),
                property_view("endLine"@, Kind::Integer, APPLY_EDIT_END_LINE@, true),
                property_view("endCharacter"@, Kind::Integer, APPLY_EDIT_END_CHARACTER@, true),
                property_view("newText"@, Kind::Text, APPLY_EDIT_NEW_TEXT@, true),
            ],
        },
        ToolView {
            name: "get_document_text"@,
            description: GET_DOCUMENT_TEXT_ABOUT@,
            properties: seq![
                property_view("uri"@, Kind::Text, DOCUMENT_URI@, true),
            ],
        },
        ToolView {
            name: "close_document"@,
            description: CLOSE_DOCUMENT_ABOUT@,
            properties: seq![
                property_view("uri"@, Kind::Text, CLOSE_DOCUMENT_URI@, true),
            ],
        },
        ToolView {
            name: "file_status"@,
            description: FILE_STATUS_ABOUT@,
            properties: seq![
                property_view("uri"@, Kind::Text, DOCUMENT_URI@, true),
            ],
        },
        ToolView {
            name: "list_documents"@,
            description: LIST_DOCUMENTS_ABOUT@,
            properties: Seq::empty(),
        },
    ]
}

/// The tools that the server offers.
pub fn tools() -> (tools: Vec<Tool>)
    ensures
        tools.deep_view() == tool_views(),
{
    let open_file = tool(
        "open_file",
        OPEN_FILE_ABOUT,
        vec![
            property("path", Kind::Text, OPEN_FILE_PATH, true),
            property("lake_workspace", Kind::Text, OPEN_FILE_LAKE_WORKSPACE, false),
        ],
    );
    assert(open_file@.properties =~= seq![
        property_view("path"@, Kind::Text, OPEN_FILE_PATH@, true),
        property_view("lake_workspace"@, Kind::Text, OPEN_FILE_LAKE_WORKSPACE@, false),
    ]);
    let open_document = tool(
        "open_document",
        OPEN_DOCUMENT_ABOUT,
        vec![
            property("uri", Kind::Text, OPEN_DOCUMENT_URI, true),
            property("text", Kind::Text, OPEN_DOCUMENT_TEXT, true),
            property("lake_workspace", Kind::Text, OPEN_DOCUMENT_LAKE_WORKSPACE, false),
        ],
    );
    assert(open_document@.properties =~= seq![
        property_view("uri"@, Kind::Text, OPEN_DOCUMENT_URI@, true),
        property_view("text"@, Kind::Text, OPEN_DOCUMENT_TEXT@, true),
        property_view("lake_workspace"@, Kind::Text, OPEN_DOCUMENT_LAKE_WORKSPACE@, false),
    ]);
    let get_diagnostics = tool(
        "get_diagnostics",
        GET_DIAGNOSTICS_ABOUT,
        vec![
            property("uri", Kind::Text, GET_DIAGNOSTICS_URI, true),
            property("timeout_ms", Kind::Integer, GET_DIAGNOSTICS_TIMEOUT_MS, false),
        ],
    );
    assert(get_diagnostics@.properties =~= seq![
        property_view("uri"@, Kind::Text, GET_DIAGNOSTICS_URI@, true),
        property_view("timeout_ms"@, Kind::Integer, GET_DIAGNOSTICS_TIMEOUT_MS@, false),
    ]);
    let get_goal_state = tool(
        "get_goal_state",
        GET_GOAL_STATE_ABOUT,
        vec![
            property("uri", Kind::Text, DOCUMENT_URI, true),
            property("line", Kind::Integer, GET_GOAL_STATE_LINE, true),
            property("character", Kind::Integer, GET_GOAL_STATE_CHARACTER, true),
        ],
    );
    assert(get_goal_state@.properties =~= seq![
        property_view("uri"@, Kind::Text, DOCUMENT_URI@, true),
        property_view("line"@, Kind::Integer, GET_GOAL_STATE_LINE@, true),
        property_view("character"@, Kind::Integer, GET_GOAL_STATE_CHARACTER@, true),
    ]);
    let replace_document = tool(
        "replace_document",
        REPLACE_DOCUMENT_ABOUT,
        vec![
            property("uri", Kind::Text, DOCUMENT_URI, true),
            property("newText", Kind::Text, REPLACE_DOCUMENT_NEW_TEXT, true),
        ],
    );
    assert(replace_document@.properties =~= seq![
        property_view("uri"@, Kind::Text, DOCUMENT_URI@, true),
        property_view("newText"@, Kind::Text, REPLACE_DOCUMENT_NEW_TEXT@, true),
    ]);
    let apply_edit = tool(
        "apply_edit",
        APPLY_EDIT_ABOUT,
        vec![
            property("uri", Kind::Text, DOCUMENT_URI, true),
            property("startLine", Kind::Integer, APPLY_EDIT_START_LINE, true),
            property("startCharacter", Kind::Integer, APPLY_EDIT_START_CHARACTER, true),
            property("endLine", Kind::Integer, APPLY_EDIT_END_LINE, true),
            property("endCharacter", Kind::Integer, APPLY_EDIT_END_CHARACTER, true),
            property("newText", Kind::Text, APPLY_EDIT_NEW_TEXT, true),
        ],
    );
    assert(apply_edit@.properties =~= seq![
        property_view("uri"@, Kind::Text, DOCUMENT_URI@, true),
        property_view("startLine"@, Kind::Integer, APPLY_EDIT_START_LINE@, true),
        property_view("startCharacter"@, Kind::Integer, APPLY_EDIT_START_CHARACTER@, true),
        property_view("endLine"@, Kind::Integer, APPLY_EDIT_END_LINE@, true),
        property_view("endCharacter"@, Kind::Integer, APPLY_EDIT_END_CHARACTER@, true),
        property_view("newText"@, Kind::Text, APPLY_EDIT_NEW_TEXT@, true),
    ]);
    let get_document_text = tool(
        "get_document_text",
        GET_DOCUMENT_TEXT_ABOUT,
        vec![
            property("uri", Kind::Text, DOCUMENT_URI, true),
        ],
    );
    assert(get_document_text@.properties =~= seq![
        property_view("uri"@, Kind::Text, DOCUMENT_URI@, true),
    ]);
    let close_document = tool(
        "close_document",
        CLOSE_DOCUMENT_ABOUT,
        vec![
            property("uri", Kind::Text, CLOSE_DOCUMENT_URI, true),
        ],
    );
    assert(close_document@.properties =~= seq![
        property_view("uri"@, Kind::Text, CLOSE_DOCUMENT_URI@, true),
    ]);
    let file_status = tool(
        "file_status",
        FILE_STATUS_ABOUT,
        vec![
            property("uri", Kind::Text, DOCUMENT_URI, true),
        ],
    );
    assert(file_status@.properties =~= seq![
        property_view("uri"@, Kind::Text, DOCUMENT_URI@, true),
    ]);
    let list_documents = tool(
        "list_documents",
        LIST_DOCUMENTS_ABOUT,
        Vec::new(),
    );
    assert(list_documents@.properties =~= Seq::<PropertyView>::empty());
    let tools: Vec<Tool> = vec![
        open_file,
        open_document,
        get_diagnostics,
        get_goal_state,
        replace_document,
        apply_edit,
        get_document_text,
        close_document,
        file_status,
        list_documents,
    ];
    assert(tools.deep_view() =~= tool_views());
    tools
}

/// The tools as they are listed.
pub open spec fn tool_list() -> JsonView {
    single("tools"@, JsonView::Array(Seq::new(tool_views().len(), |i: int| tool_views()[i].json())))
}

/// The tools as they are listed.
pub fn list_tools() -> (value: Json)
    ensures
        value@ == tool_list(),
{
    let tools = tools();
    let ghost views = tool_views();
    let mut items: Vec<Json> = Vec::new();
    for i in 0..tools.len()
        invariant
            views == tools.deep_view(),
            items@.len() == i,
            forall|k: int| 0 <= k < i ==> (#[trigger] items@[k])@ == views[k].json(),
    {
        items.push(tools[i].to_json());
    }
    assert(item_views(items@) =~= Seq::new(tool_views().len(), |i: int| tool_views()[i].json()));
    single_member("tools", Json::array(items))
}

/// A call of a tool, with its arguments.
#[derive(Debug)]
pub enum Call<S> {
    OpenFile { path: S, workspace: Option<S> },
    OpenDocument { uri: S, text: S, workspace: Option<S> },
    GetDiagnostics { uri: S, timeout_ms: u64 },
    GetGoalState { uri: S, position: LspPosition },
    ReplaceDocument { uri: S, text: S },
    ApplyEdit { uri: S, range: LspRange, text: S },
    GetDocumentText { uri: S },
    CloseDocument { uri: S },
    FileStatus { uri: S },
    ListDocuments,
}

impl View for Call<String> {
    type V = Call<Seq<char>>;

    open spec fn view(&self) -> Call<Seq<char>> {
        match self {
            Call::OpenFile { path, workspace } => Call::OpenFile {
                path: path@,
                workspace: workspace.deep_view(),
            },
            Call::OpenDocument { uri, text, workspace } => Call::OpenDocument {
                uri: uri@,
                text: text@,
                workspace: workspace.deep_view(),
            },
            Call::GetDiagnostics { uri, timeout_ms } => Call::GetDiagnostics {
                uri: uri@,
                timeout_ms: *timeout_ms,
            },
            Call::GetGoalState { uri, position } => Call::GetGoalState {
                uri: uri@,
                position: *position,
            },
            Call::ReplaceDocument { uri, text } => Call::ReplaceDocument { uri: uri@, text: text@ },
            Call::ApplyEdit { uri, range, text } => Call::ApplyEdit {
                uri: uri@,
                range: *range,
                text: text@,
            },
            Call::GetDocumentText { uri } => Call::GetDocumentText { uri: uri@ },
            Call::CloseDocument { uri } => Call::CloseDocument { uri: uri@ },
            Call::FileStatus { uri } => Call::FileStatus { uri: uri@ },
            Call::ListDocuments => Call::ListDocuments,
        }
    }
}

impl DeepView for Call<String> {
    type V = Call<Seq<char>>;

    open spec fn deep_view(&self) -> Call<Seq<char>> {
        self@
    }
}

/// The text that tells that an argument is missing.
pub open spec fn missing(name: Seq<char>) -> Seq<char> {
    "Missing '"@ + name + "' parameter"@
}

/// A text among the arguments, or the text that tells that it is missing.
pub open spec fn text_argument(arguments: JsonView, name: Seq<char>) -> Result<
    Seq<char>,
    Seq<char>,
> {
    match arguments.text_at(name) {
        Some(text) => Ok(text),
        None => Err(missing(name)),
    }
}

/// A number among the arguments, or the text that tells that it is missing.
pub open spec fn number_argument(arguments: JsonView, name: Seq<char>) -> Result<u64, Seq<char>> {
    match arguments.unsigned_at(name) {
        Some(number) => Ok(number),
        None => Err(missing(name)),
    }
}

/// The two numbers of a place among the arguments.
pub open spec fn position_argument(
    arguments: JsonView,
    line: Seq<char>,
    character: Seq<char>,
) -> Result<LspPosition, Seq<char>> {
    match number_argument(arguments, line) {
        Ok(line) => match number_argument(arguments, character) {
            Ok(character) => Ok(LspPosition { line, character }),
            Err(error) => Err(error),
        },
        Err(error) => Err(error),
    }
}

/// The call that a tool's name and arguments are, or the text that tells why
/// they are none: the first argument that is missing, or that there is no such
/// tool.
pub open spec fn call_of(name: Seq<char>, arguments: JsonView) -> Result<
    Call<Seq<char>>,
    Seq<char>,
> {
    if name == "open_file"@ {
        match text_argument(arguments, "path"@) {
            Ok(path) => Ok(
                Call::OpenFile { path, workspace: arguments.text_at("lake_workspace"@) },
            ),
            Err(error) => Err(error),
        }
    } else if name == "list_documents"@ {
        Ok(Call::ListDocuments)
    } else if is_document_tool(name) {
        match text_argument(arguments, "uri"@) {
            Ok(uri) => document_call(name, uri, arguments),
            Err(error) => Err(error),
        }
    } else {
        Err("Unknown tool: "@ + name)
    }
}

/// Whether a tool works on the document that it is given the URI of.
pub open spec fn is_document_tool(name: Seq<char>) -> bool {
    ||| name == "open_document"@
    ||| name == "get_diagnostics"@
    ||| name == "get_goal_state"@
    ||| name == "replace_document"@
    ||| name == "apply_edit"@
    ||| name == "get_document_text"@
    ||| name == "close_document"@
    ||| name == "file_status"@
}

/// The call of a tool that works on a document.
pub open spec fn document_call(name: Seq<char>, uri: Seq<char>, arguments: JsonView) -> Result<
    Call<Seq<char>>,
    Seq<char>,
> {
    if name == "open_document"@ {
        match text_argument(arguments, "text"@) {
            Ok(text) => Ok(
                Call::OpenDocument { uri, text, workspace: arguments.text_at("lake_workspace"@) },
            ),
            Err(error) => Err(error),
        }
    } else if name == "get_diagnostics"@ {
        Ok(
            Call::GetDiagnostics {
                uri,
                timeout_ms: match arguments.unsigned_at("timeout_ms"@) {
                    Some(timeout_ms) => timeout_ms,
                    None => 60000,
                },
            },
        )
    } else if name == "get_goal_state"@ {
        match position_argument(arguments, "line"@, "character"@) {
            Ok(position) => Ok(Call::GetGoalState { uri, position }),
            Err(error) => Err(error),
        }
    } else if name == "replace_document"@ {
        match text_argument(arguments, "newText"@) {
            Ok(text) => Ok(Call::ReplaceDocument { uri, text }),
            Err(error) => Err(error),
        }
    } else if name == "apply_edit"@ {
        match position_argument(arguments, "startLine"@, "startCharacter"@) {
            Ok(start) => match position_argument(arguments, "endLine"@, "endCharacter"@) {
                Ok(end) => match text_argument(arguments, "newText"@) {
                    Ok(text) => Ok(Call::ApplyEdit { uri, range: LspRange { start, end }, text }),
                    Err(error) => Err(error),
                },
                Err(error) => Err(error),
            },
            Err(error) => Err(error),
        }
    } else if name == "get_document_text"@ {
        Ok(Call::GetDocumentText { uri })
    } else if name == "close_document"@ {
        Ok(Call::CloseDocument { uri })
    } else {
        Ok(Call::FileStatus { uri })
    }
}

/// The text that tells that an argument is missing.
fn describe_missing(name: &str) -> (text: String)
    ensures
        text@ == missing(name@),
{
    let mut text = "Missing '".to_owned();
    text.append(name);
    text.append("' parameter");
    text
}

/// A text among the arguments.
fn read_text(arguments: &Json, name: &str) -> (text: Result<String, String>)
    ensures
        result_view(text) == text_argument(arguments@, name@),
{
    match arguments.text_at(name) {
        Some(text) => Ok(text.to_owned()),
        None => Err(describe_missing(name)),
    }
}

/// A text among the arguments that need not be there.
fn read_optional(arguments: &Json, name: &str) -> (text: Option<String>)
    ensures
        text.deep_view() == arguments@.text_at(name@),
{
    match arguments.text_at(name) {
        Some(text) => Some(text.to_owned()),
        None => None,
    }
}

/// A place among the arguments.
fn read_position(arguments: &Json, line: &str, character: &str) -> (position: Result<
    LspPosition,
    String,
>)
    ensures
        match position {
            Ok(position) => position_argument(arguments@, line@, character@) == Ok::<
                LspPosition,
                Seq<char>,
            >(position),
            Err(error) => position_argument(arguments@, line@, character@) == Err::<
                LspPosition,
                Seq<char>,
            >(error@),
        },
{
    match (arguments.u64_at(line), arguments.u64_at(character)) {
        (Some(line), Some(character)) => Ok(LspPosition { line, character }),
        (Some(_), None) => Err(describe_missing(character)),
        (None, _) => Err(describe_missing(line)),
    }
}

impl Call<String> {
    /// The call that a tool's name and arguments are.
    pub fn read(name: &str, arguments: &Json) -> (call: Result<Call<String>, String>)
        ensures
            result_view(call) == call_of(name@, arguments@),
    {
        if same_text(name, "open_file") {
            return match read_text(arguments, "path") {
                Ok(path) => Ok(
                    Call::OpenFile { path, workspace: read_optional(arguments, "lake_workspace") },
                ),
                Err(error) => Err(error),
            };
        }
        if same_text(name, "list_documents") {
            return Ok(Call::ListDocuments);
        }
        if same_text(name, "open_document") || same_text(name, "get_diagnostics") || same_text(
            name,
            "get_goal_state",
        ) || same_text(name, "replace_document") || same_text(name, "apply_edit") || same_text(
            name,
            "get_document_text",
        ) || same_text(name, "close_document") || same_text(name, "file_status") {
            return match read_text(arguments, "uri") {
                Ok(uri) => Call::read_document_call(name, uri, arguments),
                Err(error) => Err(error),
            };
        }
        let mut error = "Unknown tool: ".to_owned();
        error.append(name);
        Err(error)
    }

    /// The call of a tool that works on a document.
    fn read_document_call(name: &str, uri: String, arguments: &Json) -> (call: Result<
        Call<String>,
        String,
    >)
        ensures
            result_view(call) == document_call(name@, uri@, arguments@),
    {
        if same_text(name, "open_document") {
            match read_text(arguments, "text") {
                Ok(text) => Ok(
                    Call::OpenDocument {
                        uri,
                        text,
                        workspace: read_optional(arguments, "lake_workspace"),
                    },
                ),
                Err(error) => Err(error),
            }
        } else if same_text(name, "get_diagnostics") {
            let timeout_ms: u64 = match arguments.u64_at("timeout_ms") {
                Some(timeout_ms) => timeout_ms,
                None => 60000,
            };
            Ok(Call::GetDiagnostics { uri, timeout_ms })
        } else if same_text(name, "get_goal_state") {
            match read_position(arguments, "line", "character") {
                Ok(position) => Ok(Call::GetGoalState { uri, position }),
                Err(error) => Err(error),
            }
        } else if same_text(name, "replace_document") {
            match read_text(arguments, "newText") {
                Ok(text) => Ok(Call::ReplaceDocument { uri, text }),
                Err(error) => Err(error),
            }
        } else if same_text(name, "apply_edit") {
            let start = match read_position(arguments, "startLine", "startCharacter") {
                Ok(start) => start,
                Err(error) => {
                    return Err(error);
                },
            };
            let end = match read_position(arguments, "endLine", "endCharacter") {
                Ok(end) => end,
                Err(error) => {
                    return Err(error);
                },
            };
            match read_text(arguments, "newText") {
                Ok(text) => Ok(Call::ApplyEdit { uri, range: LspRange { start, end }, text }),
                Err(error) => Err(error),
            }
        } else if same_text(name, "get_document_text") {
            Ok(Call::GetDocumentText { uri })
        } else if same_text(name, "close_document") {
            Ok(Call::CloseDocument { uri })
        } else {
            Ok(Call::FileStatus { uri })
        }
    }
}

/// Whether an argument is there and holds what it should.
pub open spec fn is_given(arguments: JsonView, property: PropertyView) -> bool {
    match property.kind {
        Kind::Text => arguments.text_at(property.name) is Some,
        Kind::Integer => arguments.unsigned_at(property.name) is Some,
    }
}

/// Whether all the arguments that a tool must have are given.
pub open spec fn all_given(arguments: JsonView, tool: ToolView) -> bool {
    forall|i: int|
        0 <= i < tool.properties.len() && (#[trigger] tool.properties[i]).required ==> is_given(
            arguments,
            tool.properties[i],
        )
}

/// The names of the tools are different.
pub proof fn lemma_tool_names()
    ensures
        forall|i: int, j: int|
            0 <= i < j < tool_views().len() ==> (#[trigger] tool_views()[i]).name != (
            #[trigger] tool_views()[j]).name,
{
    reveal_strlit("open_file");
    reveal_strlit("open_document");
    reveal_strlit("get_diagnostics");
    reveal_strlit("get_goal_state");
    reveal_strlit("replace_document");
    reveal_strlit("apply_edit");
    reveal_strlit("get_document_text");
    reveal_strlit("close_document");
    reveal_strlit("file_status");
    reveal_strlit("list_documents");
    let tools = tool_views();
    assert(tools[0].name == "open_file"@ && "open_file"@.len() == 9);
    assert(tools[1].name == "open_document"@ && "open_document"@.len() == 13);
    assert(tools[2].name == "get_diagnostics"@ && "get_diagnostics"@.len() == 15);
    assert(tools[3].name == "get_goal_state"@ && "get_goal_state"@.len() == 14);
    assert(tools[4].name == "replace_document"@ && "replace_document"@.len() == 16);
    assert(tools[5].name == "apply_edit"@ && "apply_edit"@.len() == 10);
    assert(tools[6].name == "get_document_text"@ && "get_document_text"@.len() == 17);
    assert(tools[7].name == "close_document"@ && "close_document"@.len() == 14);
    assert(tools[8].name == "file_status"@ && "file_status"@.len() == 11);
    assert(tools[9].name == "list_documents"@ && "list_documents"@.len() == 14);
    assert("get_goal_state"@[0] == 'g');
    assert("close_document"@[0] == 'c');
    assert("list_documents"@[0] == 'l');
}

/// A tool's name and arguments are a call exactly where the list of tools has
/// a tool of that name, and the arguments that its schema asks for are given.
pub proof fn calls_follow_the_list(name: Seq<char>, arguments: JsonView)
    ensures
        call_of(name, arguments) is Ok <==> exists|i: int|
            0 <= i < tool_views().len() && (#[trigger] tool_views()[i]).name == name && all_given(
                arguments,
                tool_views()[i],
            ),
{
    let tools = tool_views();
    lemma_tool_names();
    assert forall|i: int|
        0 <= i < tools.len() && (#[trigger] tools[i]).name == name implies (call_of(
        name,
        arguments,
    ) is Ok <==> all_given(arguments, tools[i])) by {
        lemma_call_of_tool(i, arguments);
    }
    if call_of(name, arguments) is Ok {
        if name == "open_file"@ {
            assert(tools[0].name == name);
        } else if name == "open_document"@ {
            assert(tools[1].name == name);
        } else if name == "get_diagnostics"@ {
            assert(tools[2].name == name);
        } else if name == "get_goal_state"@ {
            assert(tools[3].name == name);
        } else if name == "replace_document"@ {
            assert(tools[4].name == name);
        } else if name == "apply_edit"@ {
            assert(tools[5].name == name);
        } else if name == "get_document_text"@ {
            assert(tools[6].name == name);
        } else if name == "close_document"@ {
            assert(tools[7].name == name);
        } else if name == "file_status"@ {
            assert(tools[8].name == name);
        } else {
            assert(tools[9].name == name);
        }
    }
}

/// A listed tool's arguments are a call exactly where those that it must have
/// are given.
proof fn lemma_call_of_tool(i: int, arguments: JsonView)
    requires
        0 <= i < tool_views().len(),
    ensures
        call_of(tool_views()[i].name, arguments) is Ok <==> all_given(arguments, tool_views()[i]),
{
    let tools = tool_views();
    let tool = tools[i];
    lemma_tool_names();
    assert(tools[0].name == "open_file"@);
    assert(tools[1].name == "open_document"@);
    assert(tools[2].name == "get_diagnostics"@);
    assert(tools[3].name == "get_goal_state"@);
    assert(tools[4].name == "replace_document"@);
    assert(tools[5].name == "apply_edit"@);
    assert(tools[6].name == "get_document_text"@);
    assert(tools[7].name == "close_document"@);
    assert(tools[8].name == "file_status"@);
    assert(tools[9].name == "list_documents"@);
    if i != 9 {
        assert(tool.properties[0].required);
    }
    if i == 1 || i == 4 {
        assert(tool.properties[1].required);
    }
    if i == 3 {
        assert(tool.properties[1].required && tool.properties[2].required);
    }
    if i == 5 {
        assert(tool.properties[1].required && tool.properties[2].required
            && tool.properties[3].required && tool.properties[4].required
            && tool.properties[5].required);
    }
}

}
