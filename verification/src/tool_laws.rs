//! What the list of tools tells, and what a call takes from its arguments.

use crate::json::{object_view, JsonView};
use crate::message_laws::{has_members, lemma_object, lemma_single, lemma_three, lemma_two};
use crate::tools::{
    call_of, is_given, kind_name, lemma_tool_names, property_entries, required_names, tool_list,
    tool_views, Call, Kind, PropertyView, ToolView, APPLY_EDIT_ABOUT, APPLY_EDIT_END_CHARACTER,
    APPLY_EDIT_END_LINE, APPLY_EDIT_NEW_TEXT, APPLY_EDIT_START_CHARACTER, APPLY_EDIT_START_LINE,
    CLOSE_DOCUMENT_ABOUT, CLOSE_DOCUMENT_URI, DOCUMENT_URI, FILE_STATUS_ABOUT,
    GET_DIAGNOSTICS_ABOUT, GET_DIAGNOSTICS_TIMEOUT_MS, GET_DIAGNOSTICS_URI,
    GET_DOCUMENT_TEXT_ABOUT, GET_GOAL_STATE_ABOUT, GET_GOAL_STATE_CHARACTER, GET_GOAL_STATE_LINE,
    LIST_DOCUMENTS_ABOUT, OPEN_DOCUMENT_ABOUT, OPEN_DOCUMENT_LAKE_WORKSPACE, OPEN_DOCUMENT_TEXT,
    OPEN_DOCUMENT_URI, OPEN_FILE_ABOUT, OPEN_FILE_LAKE_WORKSPACE, OPEN_FILE_PATH,
    REPLACE_DOCUMENT_ABOUT, REPLACE_DOCUMENT_NEW_TEXT,
};
use vstd::prelude::*;

verus! {

/// The names of the tools, one by one, are different.
proof fn lemma_names()
    ensures
        tool_views().len() == 10,
        tool_views()[0].name == "open_file"@,
        tool_views()[1].name == "open_document"@,
        tool_views()[2].name == "get_diagnostics"@,
        tool_views()[3].name == "get_goal_state"@,
        tool_views()[4].name == "replace_document"@,
        tool_views()[5].name == "apply_edit"@,
        tool_views()[6].name == "get_document_text"@,
        tool_views()[7].name == "close_document"@,
        tool_views()[8].name == "file_status"@,
        tool_views()[9].name == "list_documents"@,
        forall|i: int, j: int|
            0 <= i < j < tool_views().len() ==> (#[trigger] tool_views()[i]).name != (
            #[trigger] tool_views()[j]).name,
{
    lemma_tool_names();
}

/// A call that opens something takes the path, or the URI and the text, from
/// the arguments of those names, and the workspace, if one is named.
pub proof fn opening_calls_carry_their_arguments(arguments: JsonView)
    ensures
        call_of("open_file"@, arguments) matches Ok(call) ==> (call matches Call::OpenFile {
            path,
            workspace,
        } && arguments.text_at("path"@) == Some(path) && workspace == arguments.text_at(
            "lake_workspace"@,
        )),
        call_of("open_document"@, arguments) matches Ok(call) ==> (call matches Call::OpenDocument {
            uri,
            text,
            workspace,
        } && arguments.text_at("uri"@) == Some(uri) && arguments.text_at("text"@) == Some(text)
            && workspace == arguments.text_at("lake_workspace"@)),
{
    lemma_names();
}

/// A call that asks something of an open document takes its URI, and the place
/// or the time, from the arguments of those names. Without a time it waits a
/// minute.
pub proof fn asking_calls_carry_their_arguments(arguments: JsonView)
    ensures
        call_of("get_diagnostics"@, arguments) matches Ok(call) ==> (call matches
            Call::GetDiagnostics { uri, timeout_ms } && arguments.text_at("uri"@) == Some(uri)
            && timeout_ms == (match arguments.unsigned_at("timeout_ms"@) {
            Some(told) => told,
            None => 60000u64,
        })),
        call_of("get_goal_state"@, arguments) matches Ok(call) ==> (call matches
            Call::GetGoalState { uri, position } && arguments.text_at("uri"@) == Some(uri)
            && arguments.unsigned_at("line"@) == Some(position.line) && arguments.unsigned_at(
            "character"@,
        ) == Some(position.character)),
        call_of("get_document_text"@, arguments) matches Ok(call) ==> (call matches
            Call::GetDocumentText { uri } && arguments.text_at("uri"@) == Some(uri)),
        call_of("file_status"@, arguments) matches Ok(call) ==> (call matches Call::FileStatus {
            uri,
        } && arguments.text_at("uri"@) == Some(uri)),
        call_of("list_documents"@, arguments) == Ok::<Call<Seq<char>>, Seq<char>>(
            Call::ListDocuments,
        ),
{
    lemma_names();
}

/// A call that changes an open document takes its URI, the two places and the
/// new text from the arguments of those names.
pub proof fn changing_calls_carry_their_arguments(arguments: JsonView)
    ensures
        call_of("replace_document"@, arguments) matches Ok(call) ==> (call matches
            Call::ReplaceDocument { uri, text } && arguments.text_at("uri"@) == Some(uri)
            && arguments.text_at("newText"@) == Some(text)),
        call_of("apply_edit"@, arguments) matches Ok(call) ==> (call matches Call::ApplyEdit {
            uri,
            range,
            text,
        } && arguments.text_at("uri"@) == Some(uri) && arguments.unsigned_at("startLine"@) == Some(
            range.start.line,
        ) && arguments.unsigned_at("startCharacter"@) == Some(range.start.character)
            && arguments.unsigned_at("endLine"@) == Some(range.end.line) && arguments.unsigned_at(
            "endCharacter"@,
        ) == Some(range.end.character) && arguments.text_at("newText"@) == Some(text)),
        call_of("close_document"@, arguments) matches Ok(call) ==> (call matches
            Call::CloseDocument { uri } && arguments.text_at("uri"@) == Some(uri)),
{
    lemma_names();
}

/// Whether an argument is the first of those that a tool must have that is not
/// given.
pub open spec fn is_first_missing(arguments: JsonView, tool: ToolView, k: int) -> bool {
    &&& 0 <= k < tool.properties.len()
    &&& tool.properties[k].required
    &&& !is_given(arguments, tool.properties[k])
    &&& forall|j: int|
        0 <= j < k && (#[trigger] tool.properties[j]).required ==> is_given(
            arguments,
            tool.properties[j],
        )
}

/// Of the arguments that a tool must have, the first that is not given is told,
/// by its name.
pub proof fn first_missing_argument_is_told(i: int, arguments: JsonView, k: int)
    requires
        0 <= i < tool_views().len(),
        is_first_missing(arguments, tool_views()[i], k),
    ensures
        call_of(tool_views()[i].name, arguments) == Err::<Call<Seq<char>>, Seq<char>>(
            "Missing '"@ + tool_views()[i].properties[k].name + "' parameter"@,
        ),
{
    lemma_names();
    let tool = tool_views()[i];
    if tool.properties.len() > 0 {
        assert(tool.properties[0].required);
    }
    if k > 1 {
        let before = tool.properties[1];
        assert(before.required ==> is_given(arguments, before));
    }
    if k > 2 {
        let before = tool.properties[2];
        assert(before.required ==> is_given(arguments, before));
    }
    if k > 3 {
        let before = tool.properties[3];
        assert(before.required ==> is_given(arguments, before));
    }
    if k > 4 {
        let before = tool.properties[4];
        assert(before.required ==> is_given(arguments, before));
    }
}

/// A tool that is not listed is refused by its name, whatever its arguments.
pub proof fn unlisted_tools_are_refused(name: Seq<char>, arguments: JsonView)
    requires
        forall|i: int| 0 <= i < tool_views().len() ==> (#[trigger] tool_views()[i]).name != name,
    ensures
        call_of(name, arguments) == Err::<Call<Seq<char>>, Seq<char>>("Unknown tool: "@ + name),
{
    let tools = tool_views();
    lemma_names();
    assert(tools[0].name != name && tools[1].name != name && tools[2].name != name);
    assert(tools[3].name != name && tools[4].name != name && tools[5].name != name);
    assert(tools[6].name != name && tools[7].name != name && tools[8].name != name);
    assert(tools[9].name != name);
}

/// The names of the members of a listed tool are different.
proof fn lemma_listing_names()
    ensures
        "name"@ != "description"@,
        "name"@ != "inputSchema"@,
        "description"@ != "inputSchema"@,
        "type"@ != "properties"@,
        "type"@ != "required"@,
        "properties"@ != "required"@,
        "type"@ != "description"@,
{
    reveal_strlit("name");
    reveal_strlit("description");
    reveal_strlit("inputSchema");
    reveal_strlit("type");
    reveal_strlit("properties");
    reveal_strlit("required");
    assert("name"@.len() == 4 && "description"@.len() == 11 && "inputSchema"@.len() == 11);
    assert("type"@.len() == 4 && "properties"@.len() == 10 && "required"@.len() == 8);
    assert("description"@[0] == 'd' && "inputSchema"@[0] == 'i');
}

/// A tool is listed with its name, what it does, and the schema of its
/// arguments: an object, with the arguments that it must have.
pub proof fn tools_are_listed_with_their_schema(tool: ToolView)
    ensures
        ({
            let listed = tool.json();
            let schema = listed.get("inputSchema"@)->0;
            &&& has_members(listed, seq!["name"@, "description"@, "inputSchema"@])
            &&& listed.text_at("name"@) == Some(tool.name)
            &&& listed.text_at("description"@) == Some(tool.description)
            &&& has_members(schema, seq!["type"@, "properties"@, "required"@])
            &&& schema.text_at("type"@) == Some("object"@)
            &&& schema.get("properties"@) == Some(object_view(property_entries(tool.properties)))
            &&& schema.get("required"@) == Some(JsonView::Array(required_names(tool.properties)))
        }),
{
    lemma_listing_names();
    let properties = object_view(property_entries(tool.properties));
    let required = JsonView::Array(required_names(tool.properties));
    let schema = object_view(
        seq![
            ("type"@, JsonView::String("object"@)),
            ("properties"@, properties),
            ("required"@, required),
        ],
    );
    lemma_three(
        "type"@,
        JsonView::String("object"@),
        "properties"@,
        properties,
        "required"@,
        required,
        Seq::empty(),
    );
    lemma_three(
        "name"@,
        JsonView::String(tool.name),
        "description"@,
        JsonView::String(tool.description),
        "inputSchema"@,
        schema,
        Seq::empty(),
    );
    assert(tool.json().get("inputSchema"@) == Some(schema));
}

/// An argument is listed under its name with what it holds, a text or a whole
/// number, and what it is for. The names of those that a tool must have are
/// listed in their order, and no others.
pub proof fn arguments_are_listed(
    properties: Seq<PropertyView>,
    i: int,
    more: PropertyView,
)
    requires
        0 <= i < properties.len(),
        forall|i: int, j: int|
            0 <= i < j < properties.len() ==> (#[trigger] properties[i]).name != (
            #[trigger] properties[j]).name,
    ensures
        ({
            let schema = object_view(property_entries(properties)).get(properties[i].name)->0;
            &&& object_view(property_entries(properties)).get(properties[i].name) is Some
            &&& has_members(schema, seq!["type"@, "description"@])
            &&& schema.text_at("type"@) == Some(
                match properties[i].kind {
                    Kind::Text => "string"@,
                    Kind::Integer => "integer"@,
                },
            )
            &&& schema.text_at("description"@) == Some(properties[i].description)
        }),
        required_names(Seq::empty()).len() == 0,
        required_names(properties.push(more)) == (if more.required {
            required_names(properties).push(JsonView::String(more.name))
        } else {
            required_names(properties)
        }),
{
    lemma_listing_names();
    let entries = property_entries(properties);
    let names = Seq::new(properties.len(), |i: int| properties[i].name);
    assert forall|i: int, j: int| 0 <= i < j < entries.len() implies (#[trigger] entries[i]).0 != (
    #[trigger] entries[j]).0 by {
        assert(properties[i].name != properties[j].name);
    }
    lemma_object(entries, names);
    assert(names[i] == properties[i].name);
    lemma_two(
        "type"@,
        JsonView::String(kind_name(properties[i].kind)),
        "description"@,
        JsonView::String(properties[i].description),
    );
    assert(properties.push(more).drop_last() =~= properties);
}

/// The tools are listed in their order, each under its name and with what it
/// does.
pub proof fn all_tools_are_listed(i: int)
    requires
        0 <= i < tool_views().len(),
    ensures
        ({
            let items = tool_list().get("tools"@)->0.as_items()->0;
            &&& has_members(tool_list(), seq!["tools"@])
            &&& tool_list().get("tools"@)->0.as_items() is Some
            &&& items.len() == tool_views().len()
            &&& items[i] == tool_views()[i].json()
        }),
        tool_views()[0].description == OPEN_FILE_ABOUT@,
        tool_views()[1].description == OPEN_DOCUMENT_ABOUT@,
        tool_views()[2].description == GET_DIAGNOSTICS_ABOUT@,
        tool_views()[3].description == GET_GOAL_STATE_ABOUT@,
        tool_views()[4].description == REPLACE_DOCUMENT_ABOUT@,
        tool_views()[5].description == APPLY_EDIT_ABOUT@,
        tool_views()[6].description == GET_DOCUMENT_TEXT_ABOUT@,
        tool_views()[7].description == CLOSE_DOCUMENT_ABOUT@,
        tool_views()[8].description == FILE_STATUS_ABOUT@,
        tool_views()[9].description == LIST_DOCUMENTS_ABOUT@,
{
    let items = Seq::new(tool_views().len(), |i: int| tool_views()[i].json());
    lemma_single("tools"@, JsonView::Array(items));
}

/// Whether a tool has an argument of this name that need not be given.
pub open spec fn takes_optional(tool: ToolView, name: Seq<char>, kind: Kind) -> bool {
    exists|k: int|
        0 <= k < tool.properties.len() && (#[trigger] tool.properties[k]).name == name
            && tool.properties[k].kind == kind && !tool.properties[k].required
}

/// The arguments that need not be given are listed too: the workspace of what is
/// opened, and the time for diagnostics.
pub proof fn optional_arguments_are_listed()
    ensures
        takes_optional(tool_views()[0], "lake_workspace"@, Kind::Text),
        takes_optional(tool_views()[1], "lake_workspace"@, Kind::Text),
        takes_optional(tool_views()[2], "timeout_ms"@, Kind::Integer),
        tool_views()[0].properties.len() == 2,
        tool_views()[1].properties.len() == 3,
        tool_views()[2].properties.len() == 2,
        tool_views()[3].properties.len() == 3,
        tool_views()[4].properties.len() == 2,
        tool_views()[5].properties.len() == 6,
        tool_views()[6].properties.len() == 1,
        tool_views()[7].properties.len() == 1,
        tool_views()[8].properties.len() == 1,
        tool_views()[9].properties.len() == 0,
{
    assert(tool_views()[0].properties[1].name == "lake_workspace"@);
    assert(tool_views()[1].properties[2].name == "lake_workspace"@);
    assert(tool_views()[2].properties[1].name == "timeout_ms"@);
}

/// Whether an argument of a tool has this name, holds this and is for this.
pub open spec fn takes(
    tool: ToolView,
    k: int,
    name: Seq<char>,
    kind: Kind,
    description: Seq<char>,
) -> bool {
    &&& 0 <= k < tool.properties.len()
    &&& tool.properties[k].name == name
    &&& tool.properties[k].kind == kind
    &&& tool.properties[k].description == description
}

/// Every argument that a call takes is listed under its own name, with what it
/// holds and what it is for.
pub proof fn arguments_are_described()
    ensures
        takes(tool_views()[0], 0, "path"@, Kind::Text, OPEN_FILE_PATH@),
        takes(tool_views()[0], 1, "lake_workspace"@, Kind::Text, OPEN_FILE_LAKE_WORKSPACE@),
        takes(tool_views()[1], 0, "uri"@, Kind::Text, OPEN_DOCUMENT_URI@),
        takes(tool_views()[1], 1, "text"@, Kind::Text, OPEN_DOCUMENT_TEXT@),
        takes(tool_views()[1], 2, "lake_workspace"@, Kind::Text, OPEN_DOCUMENT_LAKE_WORKSPACE@),
        takes(tool_views()[2], 0, "uri"@, Kind::Text, GET_DIAGNOSTICS_URI@),
        takes(tool_views()[2], 1, "timeout_ms"@, Kind::Integer, GET_DIAGNOSTICS_TIMEOUT_MS@),
        takes(tool_views()[3], 0, "uri"@, Kind::Text, DOCUMENT_URI@),
        takes(tool_views()[3], 1, "line"@, Kind::Integer, GET_GOAL_STATE_LINE@),
        takes(tool_views()[3], 2, "character"@, Kind::Integer, GET_GOAL_STATE_CHARACTER@),
        takes(tool_views()[4], 0, "uri"@, Kind::Text, DOCUMENT_URI@),
        takes(tool_views()[4], 1, "newText"@, Kind::Text, REPLACE_DOCUMENT_NEW_TEXT@),
        takes(tool_views()[5], 0, "uri"@, Kind::Text, DOCUMENT_URI@),
        takes(tool_views()[5], 1, "startLine"@, Kind::Integer, APPLY_EDIT_START_LINE@),
        takes(tool_views()[5], 2, "startCharacter"@, Kind::Integer, APPLY_EDIT_START_CHARACTER@),
        takes(tool_views()[5], 3, "endLine"@, Kind::Integer, APPLY_EDIT_END_LINE@),
        takes(tool_views()[5], 4, "endCharacter"@, Kind::Integer, APPLY_EDIT_END_CHARACTER@),
        takes(tool_views()[5], 5, "newText"@, Kind::Text, APPLY_EDIT_NEW_TEXT@),
        takes(tool_views()[6], 0, "uri"@, Kind::Text, DOCUMENT_URI@),
        takes(tool_views()[7], 0, "uri"@, Kind::Text, CLOSE_DOCUMENT_URI@),
        takes(tool_views()[8], 0, "uri"@, Kind::Text, DOCUMENT_URI@),
{
}

}
