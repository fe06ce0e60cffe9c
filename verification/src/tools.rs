//! The A2A client tools that MCP clients see: their calls, and what they answer.

use vstd::prelude::*;

#[allow(unused_imports)]
use crate::artifacts::{
    artifact_id_of, completed_artifacts, has_artifact, json_result, law_default_artifacts,
    text_artifact_of,
};
#[allow(unused_imports)]
use crate::config::RuntimeKind;
use crate::config::{WorkspaceConfig, WorkspaceKeep, WorkspaceMode};
use crate::json::{
    array, as_items, as_text, bool_value, get, get_member, integer_value, member_text, no_members,
    object, optional_text_value, text_array, text_value, with,
};
#[allow(unused_imports)]
use crate::json::{
    empty_members, items_member, json_of, jsons, lemma_unreserved_object, member_of, members_of,
    optional_chars, parsed_json, readable_within, reserved_name, text_items, text_member_of,
    text_member_or_empty, text_or_null, unreserved, JsonView,
};
use crate::mesh::{
    runtime_label, RemoteAgentAd, RemoteAgentCache, RemoteTaskCache, RemoteTaskRecord,
};
#[allow(unused_imports)]
use crate::mesh::{ad_named, runtime_name, task_found};
#[allow(unused_imports)]
use crate::names::{lemma_member_names, lemma_tool_names};
use crate::registry::{AgentDefinition, AgentRegistry};
#[allow(unused_imports)]
use crate::registry::agent_named;
use crate::task_store::task_from_value;
#[allow(unused_imports)]
use crate::task_store::{task_of_value, task_result};
#[allow(unused_imports)]
use crate::templates::expansion;
use crate::text::{chars_of, decimal_text, plus, same_text, separate, signed_decimal_text};
#[allow(unused_imports)]
use crate::text::{decimal, separated, signed_decimal, texts};
use crate::wire::{decode_reply_bytes, encode_request, Reply, Task};
#[allow(unused_imports)]
use crate::wire::{
    decoded_reply_bytes, document_of, request_document, with_optional, ReplyView, TaskView,
};

verus! {

/// A call of one of the tools.
#[derive(Clone, Debug)]
pub enum ToolCall {
    GetAgents,
    GetAgent { agent_id: String },
    SendMessage { agent_id: String, message: String, context_id: Option<String> },
    GetTask { agent_id: String, task_id: String },
    ViewTextArtifact { agent_id: String, task_id: String, artifact_id: String },
    ViewDataArtifact { agent_id: String, task_id: String, artifact_id: String },
}

#[verifier::ext_equal]
pub enum ToolCallView {
    GetAgents,
    GetAgent { agent_id: Seq<char> },
    SendMessage { agent_id: Seq<char>, message: Seq<char>, context_id: Option<Seq<char>> },
    GetTask { agent_id: Seq<char>, task_id: Seq<char> },
    ViewTextArtifact { agent_id: Seq<char>, task_id: Seq<char>, artifact_id: Seq<char> },
    ViewDataArtifact { agent_id: Seq<char>, task_id: Seq<char>, artifact_id: Seq<char> },
}

impl View for ToolCall {
    type V = ToolCallView;

    open spec fn view(&self) -> ToolCallView {
        match *self {
            ToolCall::GetAgents => ToolCallView::GetAgents,
            ToolCall::GetAgent { agent_id } => ToolCallView::GetAgent { agent_id: agent_id@ },
            ToolCall::SendMessage { agent_id, message, context_id } => ToolCallView::SendMessage {
                agent_id: agent_id@,
                message: message@,
                context_id: optional_chars(context_id),
            },
            ToolCall::GetTask { agent_id, task_id } => ToolCallView::GetTask {
                agent_id: agent_id@,
                task_id: task_id@,
            },
            ToolCall::ViewTextArtifact { agent_id, task_id, artifact_id } => {
                ToolCallView::ViewTextArtifact {
                    agent_id: agent_id@,
                    task_id: task_id@,
                    artifact_id: artifact_id@,
                }
            },
            ToolCall::ViewDataArtifact { agent_id, task_id, artifact_id } => {
                ToolCallView::ViewDataArtifact {
                    agent_id: agent_id@,
                    task_id: task_id@,
                    artifact_id: artifact_id@,
                }
            },
        }
    }
}

pub open spec fn call_result(result: Result<ToolCall, String>) -> Result<ToolCallView, Seq<char>> {
    match result {
        Ok(call) => Ok(call@),
        Err(error) => Err(error@),
    }
}

/// The text argument by that name, if there is one.
pub open spec fn optional_argument(args: Map<Seq<char>, JsonView>, name: Seq<char>) -> Option<
    Seq<char>,
> {
    text_member_of(JsonView::Object(args), name)
}

/// The text argument by that name.
pub open spec fn required_argument(args: Map<Seq<char>, JsonView>, name: Seq<char>) -> Result<
    Seq<char>,
    Seq<char>,
> {
    match optional_argument(args, name) {
        Some(text) => Ok(text),
        None => Err("missing required string argument `"@ + name + "`"@),
    }
}

pub fn optional_arg(
    args: &serde_json::Map<String, serde_json::Value>,
    name: &str,
) -> (text: Option<String>)
    ensures
        optional_chars(text) == optional_argument(members_of(*args), name@),
{
    match get_member(args, name) {
        Some(value) => match as_text(value) {
            Some(text) => Some(text.to_string()),
            None => None,
        },
        None => None,
    }
}

pub fn required_arg(
    args: &serde_json::Map<String, serde_json::Value>,
    name: &str,
) -> (text: Result<String, String>)
    ensures
        expansion(text) == required_argument(members_of(*args), name@),
{
    match optional_arg(args, name) {
        Some(text) => Ok(text),
        None => Err(plus(plus("missing required string argument `".to_string(), name), "`")),
    }
}

/// The names of the tools.
pub open spec fn tool_names() -> Seq<Seq<char>> {
    seq![
        "get_agents"@,
        "get_agent"@,
        "send_message"@,
        "get_task"@,
        "view_text_artifact"@,
        "view_data_artifact"@,
    ]
}

/// The arguments that name an artifact of a task of an agent.
pub open spec fn artifact_arguments(args: Map<Seq<char>, JsonView>) -> Result<
    (Seq<char>, Seq<char>, Seq<char>),
    Seq<char>,
> {
    match required_argument(args, "agent_id"@) {
        Err(error) => Err(error),
        Ok(agent_id) => match required_argument(args, "task_id"@) {
            Err(error) => Err(error),
            Ok(task_id) => match required_argument(args, "artifact_id"@) {
                Err(error) => Err(error),
                Ok(artifact_id) => Ok((agent_id, task_id, artifact_id)),
            },
        },
    }
}

pub fn artifact_args(args: &serde_json::Map<String, serde_json::Value>) -> (found: Result<
    (String, String, String),
    String,
>)
    ensures
        match found {
            Ok(found) => artifact_arguments(members_of(*args)) == Ok::<
                (Seq<char>, Seq<char>, Seq<char>),
                Seq<char>,
            >((found.0@, found.1@, found.2@)),
            Err(error) => artifact_arguments(members_of(*args)) == Err::<
                (Seq<char>, Seq<char>, Seq<char>),
                Seq<char>,
            >(error@),
        },
{
    let agent_id = match required_arg(args, "agent_id") {
        Ok(text) => text,
        Err(error) => {
            return Err(error);
        },
    };
    let task_id = match required_arg(args, "task_id") {
        Ok(text) => text,
        Err(error) => {
            return Err(error);
        },
    };
    match required_arg(args, "artifact_id") {
        Ok(artifact_id) => Ok((agent_id, task_id, artifact_id)),
        Err(error) => Err(error),
    }
}

/// The call that a tool's name and arguments make.
pub open spec fn tool_call_of(name: Seq<char>, args: Map<Seq<char>, JsonView>) -> Result<
    ToolCallView,
    Seq<char>,
> {
    if name == "get_agents"@ {
        Ok(ToolCallView::GetAgents)
    } else if name == "get_agent"@ {
        match required_argument(args, "agent_id"@) {
            Err(error) => Err(error),
            Ok(agent_id) => Ok(ToolCallView::GetAgent { agent_id: agent_id }),
        }
    } else if name == "send_message"@ {
        match required_argument(args, "agent_id"@) {
            Err(error) => Err(error),
            Ok(agent_id) => match required_argument(args, "message"@) {
                Err(error) => Err(error),
                Ok(message) => Ok(
                    ToolCallView::SendMessage {
                        agent_id: agent_id,
                        message: message,
                        context_id: optional_argument(args, "context_id"@),
                    },
                ),
            },
        }
    } else if name == "get_task"@ {
        match required_argument(args, "agent_id"@) {
            Err(error) => Err(error),
            Ok(agent_id) => match required_argument(args, "task_id"@) {
                Err(error) => Err(error),
                Ok(task_id) => Ok(ToolCallView::GetTask { agent_id: agent_id, task_id: task_id }),
            },
        }
    } else if name == "view_text_artifact"@ {
        match artifact_arguments(args) {
            Err(error) => Err(error),
            Ok(ids) => Ok(
                ToolCallView::ViewTextArtifact {
                    agent_id: ids.0,
                    task_id: ids.1,
                    artifact_id: ids.2,
                },
            ),
        }
    } else if name == "view_data_artifact"@ {
        match artifact_arguments(args) {
            Err(error) => Err(error),
            Ok(ids) => Ok(
                ToolCallView::ViewDataArtifact {
                    agent_id: ids.0,
                    task_id: ids.1,
                    artifact_id: ids.2,
                },
            ),
        }
    } else {
        Err("unknown A2A MCP tool `"@ + name + "`"@)
    }
}

/// Reads a tool call.
pub fn parse_tool_call(
    name: &str,
    args: &serde_json::Map<String, serde_json::Value>,
) -> (call: Result<ToolCall, String>)
    ensures
        call_result(call) == tool_call_of(name@, members_of(*args)),
{
    if same_text(name, "get_agents") {
        return Ok(ToolCall::GetAgents);
    }
    if same_text(name, "get_agent") {
        return match required_arg(args, "agent_id") {
            Ok(agent_id) => Ok(ToolCall::GetAgent { agent_id: agent_id }),
            Err(error) => Err(error),
        };
    }
    if same_text(name, "send_message") {
        let agent_id = match required_arg(args, "agent_id") {
            Ok(text) => text,
            Err(error) => {
                return Err(error);
            },
        };
        let message = match required_arg(args, "message") {
            Ok(text) => text,
            Err(error) => {
                return Err(error);
            },
        };
        let context_id = optional_arg(args, "context_id");
        return Ok(
            ToolCall::SendMessage { agent_id: agent_id, message: message, context_id: context_id },
        );
    }
    if same_text(name, "get_task") {
        let agent_id = match required_arg(args, "agent_id") {
            Ok(text) => text,
            Err(error) => {
                return Err(error);
            },
        };
        return match required_arg(args, "task_id") {
            Ok(task_id) => Ok(ToolCall::GetTask { agent_id: agent_id, task_id: task_id }),
            Err(error) => Err(error),
        };
    }
    if same_text(name, "view_text_artifact") {
        return match artifact_args(args) {
            Ok(ids) => Ok(
                ToolCall::ViewTextArtifact { agent_id: ids.0, task_id: ids.1, artifact_id: ids.2 },
            ),
            Err(error) => Err(error),
        };
    }
    if same_text(name, "view_data_artifact") {
        return match artifact_args(args) {
            Ok(ids) => Ok(
                ToolCall::ViewDataArtifact { agent_id: ids.0, task_id: ids.1, artifact_id: ids.2 },
            ),
            Err(error) => Err(error),
        };
    }
    Err(plus(plus("unknown A2A MCP tool `".to_string(), name), "`"))
}

/// A call that is read is one of the tool by that name, and carries each argument
/// under its own name. A call of a tool is read exactly where its required arguments
/// are texts.
pub proof fn law_call_carries_its_arguments(
    name: &str,
    args: &serde_json::Map<String, serde_json::Value>,
    call: Result<ToolCall, String>,
)
    requires
        call_ensures(parse_tool_call, (name, args), call),
    ensures
        call matches Ok(ToolCall::GetAgents) ==> name@ == "get_agents"@,
        call matches Ok(ToolCall::GetAgent { agent_id }) ==> name@ == "get_agent"@ && holds_text(
            members_of(*args),
            "agent_id"@,
            agent_id@,
        ),
        call matches Ok(ToolCall::SendMessage { agent_id, message, context_id }) ==> {
            &&& name@ == "send_message"@
            &&& holds_text(members_of(*args), "agent_id"@, agent_id@)
            &&& holds_text(members_of(*args), "message"@, message@)
            &&& match context_id {
                Some(context_id) => holds_text(members_of(*args), "context_id"@, context_id@),
                None => forall|text: Seq<char>|
                    !#[trigger] holds_text(members_of(*args), "context_id"@, text),
            }
        },
        call matches Ok(ToolCall::GetTask { agent_id, task_id }) ==> {
            &&& name@ == "get_task"@
            &&& holds_text(members_of(*args), "agent_id"@, agent_id@)
            &&& holds_text(members_of(*args), "task_id"@, task_id@)
        },
        call matches Ok(ToolCall::ViewTextArtifact { agent_id, task_id, artifact_id }) ==> {
            &&& name@ == "view_text_artifact"@
            &&& holds_text(members_of(*args), "agent_id"@, agent_id@)
            &&& holds_text(members_of(*args), "task_id"@, task_id@)
            &&& holds_text(members_of(*args), "artifact_id"@, artifact_id@)
        },
        call matches Ok(ToolCall::ViewDataArtifact { agent_id, task_id, artifact_id }) ==> {
            &&& name@ == "view_data_artifact"@
            &&& holds_text(members_of(*args), "agent_id"@, agent_id@)
            &&& holds_text(members_of(*args), "task_id"@, task_id@)
            &&& holds_text(members_of(*args), "artifact_id"@, artifact_id@)
        },
        (name@ == "get_agents"@ || (name@ == "get_agent"@ && has_text(
            members_of(*args),
            "agent_id"@,
        )) || (name@ == "send_message"@ && has_text(members_of(*args), "agent_id"@) && has_text(
            members_of(*args),
            "message"@,
        )) || (name@ == "get_task"@ && has_text(members_of(*args), "agent_id"@) && has_text(
            members_of(*args),
            "task_id"@,
        )) || ((name@ == "view_text_artifact"@ || name@ == "view_data_artifact"@) && has_text(
            members_of(*args),
            "agent_id"@,
        ) && has_text(members_of(*args), "task_id"@) && has_text(
            members_of(*args),
            "artifact_id"@,
        ))) == (call is Ok),
{
    lemma_tool_names();
    lemma_member_names();
}

/// The object has a member by that name that is that text.
pub open spec fn holds_text(members: Map<Seq<char>, JsonView>, name: Seq<char>, text: Seq<char>) -> bool {
    members.contains_key(name) && members[name] == JsonView::Text(text)
}

/// The object has a member by that name that is a text.
pub open spec fn has_text(members: Map<Seq<char>, JsonView>, name: Seq<char>) -> bool {
    members.contains_key(name) && members[name] is Text
}

/// A tool, as clients see it.
#[derive(Clone, Debug)]
pub struct ToolSpec {
    pub name: String,
    pub description: String,
    pub schema: serde_json::Value,
}

#[verifier::ext_equal]
pub struct ToolSpecView {
    pub name: Seq<char>,
    pub description: Seq<char>,
    pub schema: JsonView,
}

impl View for ToolSpec {
    type V = ToolSpecView;

    open spec fn view(&self) -> ToolSpecView {
        ToolSpecView {
            name: self.name@,
            description: self.description@,
            schema: json_of(self.schema),
        }
    }
}

pub open spec fn text_type() -> JsonView {
    JsonView::Object(map!["type"@ => JsonView::Text("string"@)])
}

/// The schema of an object with some text members, of which some are required.
pub open spec fn object_schema(
    required: Seq<Seq<char>>,
    properties: Map<Seq<char>, JsonView>,
) -> JsonView {
    JsonView::Object(
        map![
            "type"@ => JsonView::Text("object"@),
            "properties"@ => JsonView::Object(properties),
            "required"@ => JsonView::Array(text_items(required)),
            "additionalProperties"@ => JsonView::Bool(false),
        ],
    )
}

/// Some names, each with the type of texts.
pub open spec fn text_properties(names: Seq<Seq<char>>) -> Map<Seq<char>, JsonView>
    decreases names.len(),
{
    if names.len() == 0 {
        empty_members()
    } else {
        text_properties(names.drop_last()).insert(names.last(), text_type())
    }
}

/// The tools that are offered, in order.
pub open spec fn offered_tools() -> Seq<ToolSpecView> {
    let agent = seq!["agent_id"@];
    let message = seq!["agent_id"@, "message"@];
    let task = seq!["agent_id"@, "task_id"@];
    let artifact = seq!["agent_id"@, "task_id"@, "artifact_id"@];
    seq![
        ToolSpecView {
            name: "get_agents"@,
            description: "List local and mesh-discovered A2A agents that are enabled."@,
            schema: JsonView::Object(empty_members()),
        },
        ToolSpecView {
            name: "get_agent"@,
            description: "Get one local or mesh-discovered A2A Agent Card."@,
            schema: object_schema(agent, text_properties(agent)),
        },
        ToolSpecView {
            name: "send_message"@,
            description: "Send a user message to a local A2A agent."@,
            schema: object_schema(message, text_properties(message.push("context_id"@))),
        },
        ToolSpecView {
            name: "get_task"@,
            description: "Read one persisted A2A task."@,
            schema: object_schema(task, text_properties(task)),
        },
        ToolSpecView {
            name: "view_text_artifact"@,
            description: "Read text content from an A2A task artifact."@,
            schema: object_schema(artifact, text_properties(artifact)),
        },
        ToolSpecView {
            name: "view_data_artifact"@,
            description: "Read structured data for an A2A task artifact."@,
            schema: object_schema(artifact, text_properties(artifact)),
        },
    ]
}

fn text_members(names: &Vec<String>) -> (members: serde_json::Map<String, serde_json::Value>)
    ensures
        members_of(members) == text_properties(texts(names@)),
{
    let ghost all = texts(names@);
    let mut members = no_members();
    let mut i: usize = 0;
    assert(all.take(0) =~= Seq::<Seq<char>>::empty());
    while i < names.len()
        invariant
            i <= names@.len(),
            all == texts(names@),
            members_of(members) == text_properties(all.take(i as int)),
        decreases names@.len() - i,
    {
        proof {
            assert(all.take(i as int + 1).drop_last() =~= all.take(i as int));
            assert(all.take(i as int + 1).last() == names@[i as int]@);
        }
        let kind = object(with(no_members(), "type", text_value("string")));
        members = with(members, names[i].as_str(), kind);
        i += 1;
    }
    assert(all.take(i as int) =~= all);
    members
}

fn schema(required: Vec<String>, optional: Vec<String>) -> (document: serde_json::Value)
    ensures
        json_of(document) == object_schema(
            texts(required@),
            text_properties(texts(required@) + texts(optional@)),
        ),
{
    let mut names: Vec<String> = Vec::new();
    let mut i: usize = 0;
    while i < required.len()
        invariant
            i <= required@.len(),
            texts(names@) == texts(required@).take(i as int),
        decreases required@.len() - i,
    {
        let ghost before = texts(names@);
        let name = required[i].clone();
        names.push(name);
        assert(texts(names@) =~= before.push(name@));
        assert(texts(required@).take(i as int + 1) =~= before.push(required@[i as int]@));
        i += 1;
    }
    assert(texts(required@).take(i as int) =~= texts(required@));
    let mut more = optional;
    let ghost extra = texts(more@);
    names.append(&mut more);
    assert(texts(names@) =~= texts(required@) + extra);
    let members = with(no_members(), "type", text_value("object"));
    let members = with(members, "properties", object(text_members(&names)));
    let members = with(members, "required", text_array(&required));
    object(with(members, "additionalProperties", bool_value(false)))
}

fn tool(name: &str, description: &str, document: serde_json::Value) -> (tool: ToolSpec)
    ensures
        tool@ == (ToolSpecView {
            name: name@,
            description: description@,
            schema: json_of(document),
        }),
{
    ToolSpec { name: name.to_string(), description: description.to_string(), schema: document }
}

fn agent_schema() -> (document: serde_json::Value)
    ensures
        json_of(document) == object_schema(
            seq!["agent_id"@],
            text_properties(seq!["agent_id"@]),
        ),
{
    let required = vec!["agent_id".to_string()];
    let none: Vec<String> = Vec::new();
    assert(texts(required@) =~= seq!["agent_id"@]);
    assert(texts(required@) + texts(none@) =~= seq!["agent_id"@]);
    schema(required, none)
}

fn send_message_schema() -> (document: serde_json::Value)
    ensures
        json_of(document) == object_schema(
            seq!["agent_id"@, "message"@],
            text_properties(seq!["agent_id"@, "message"@].push("context_id"@)),
        ),
{
    let required = vec!["agent_id".to_string(), "message".to_string()];
    let optional = vec!["context_id".to_string()];
    assert(texts(required@) =~= seq!["agent_id"@, "message"@]);
    assert(texts(required@) + texts(optional@) =~= seq!["agent_id"@, "message"@].push(
        "context_id"@,
    ));
    schema(required, optional)
}

fn task_schema() -> (document: serde_json::Value)
    ensures
        json_of(document) == object_schema(
            seq!["agent_id"@, "task_id"@],
            text_properties(seq!["agent_id"@, "task_id"@]),
        ),
{
    let required = vec!["agent_id".to_string(), "task_id".to_string()];
    let none: Vec<String> = Vec::new();
    assert(texts(required@) =~= seq!["agent_id"@, "task_id"@]);
    assert(texts(required@) + texts(none@) =~= seq!["agent_id"@, "task_id"@]);
    schema(required, none)
}

fn artifact_schema() -> (document: serde_json::Value)
    ensures
        json_of(document) == object_schema(
            seq!["agent_id"@, "task_id"@, "artifact_id"@],
            text_properties(seq!["agent_id"@, "task_id"@, "artifact_id"@]),
        ),
{
    let required = vec![
        "agent_id".to_string(),
        "task_id".to_string(),
        "artifact_id".to_string(),
    ];
    let none: Vec<String> = Vec::new();
    assert(texts(required@) =~= seq!["agent_id"@, "task_id"@, "artifact_id"@]);
    assert(texts(required@) + texts(none@) =~= seq!["agent_id"@, "task_id"@, "artifact_id"@]);
    schema(required, none)
}

/// The tools that are offered to clients.
pub fn a2a_tools() -> (tools: Vec<ToolSpec>)
    ensures
        tools@.map_values(|tool: ToolSpec| tool@) == offered_tools(),
{
    let tools = vec![
        tool(
            "get_agents",
            "List local and mesh-discovered A2A agents that are enabled.",
            object(no_members()),
        ),
        tool(
            "get_agent",
            "Get one local or mesh-discovered A2A Agent Card.",
            agent_schema(),
        ),
        tool(
            "send_message",
            "Send a user message to a local A2A agent.",
            send_message_schema(),
        ),
        tool("get_task", "Read one persisted A2A task.", task_schema()),
        tool(
            "view_text_artifact",
            "Read text content from an A2A task artifact.",
            artifact_schema(),
        ),
        tool(
            "view_data_artifact",
            "Read structured data for an A2A task artifact.",
            artifact_schema(),
        ),
    ];
    assert(tools@.map_values(|tool: ToolSpec| tool@) =~= offered_tools());
    tools
}

/// The tools that are offered are those that can be called: every offered name is
/// that of a tool, and a call under any other name is turned away as unknown.
pub proof fn law_offered_tools_can_be_called(name: Seq<char>, args: Map<Seq<char>, JsonView>)
    ensures
        offered_tools().map_values(|tool: ToolSpecView| tool.name) == tool_names(),
        !tool_names().contains(name) ==> tool_call_of(name, args) == Err::<
            ToolCallView,
            Seq<char>,
        >("unknown A2A MCP tool `"@ + name + "`"@),
{
    assert(offered_tools().map_values(|tool: ToolSpecView| tool.name) =~= tool_names());
    if !tool_names().contains(name) {
        assert(tool_names()[0] != name);
        assert(tool_names()[1] != name);
        assert(tool_names()[2] != name);
        assert(tool_names()[3] != name);
        assert(tool_names()[4] != name);
        assert(tool_names()[5] != name);
    }
}

/// The schema of an offered tool says what a call of it takes: the call is read
/// exactly where every name that the schema requires has a text, and every such name
/// is among the schema's properties, as a text.
pub proof fn law_schemas_say_what_calls_take(i: int, args: Map<Seq<char>, JsonView>)
    requires
        0 <= i < offered_tools().len(),
    ensures
        tool_call_of(offered_tools()[i].name, args) is Ok <==> (forall|name: Seq<char>|
            items_member(offered_tools()[i].schema, "required"@).contains(JsonView::Text(name))
                ==> #[trigger] has_text(args, name)),
        forall|name: Seq<char>|
            items_member(offered_tools()[i].schema, "required"@).contains(JsonView::Text(name))
                ==> declares_text(offered_tools()[i].schema, name),
        offered_tools()[i].name == "send_message"@ ==> declares_text(
            offered_tools()[i].schema,
            "context_id"@,
        ),
{
    lemma_tool_names();
    lemma_member_names();
    reveal_with_fuel(text_properties, 5);
    let tool = offered_tools()[i];
    let listed = items_member(tool.schema, "required"@);
    let agent = seq!["agent_id"@];
    let message = seq!["agent_id"@, "message"@];
    let task = seq!["agent_id"@, "task_id"@];
    let artifact = seq!["agent_id"@, "task_id"@, "artifact_id"@];
    assert(agent.drop_last() =~= seq![]);
    assert(message.drop_last() =~= agent);
    assert(task.drop_last() =~= agent);
    assert(artifact.drop_last() =~= task);
    assert(message.push("context_id"@).drop_last() =~= message);
    let names = if i == 0 {
        Seq::<Seq<char>>::empty()
    } else if i == 1 {
        agent
    } else if i == 2 {
        message
    } else if i == 3 {
        task
    } else {
        artifact
    };
    assert(listed =~= text_items(names));
    assert forall|name: Seq<char>| listed.contains(JsonView::Text(name)) implies names.contains(
        name,
    ) by {
        let k = choose|k: int| 0 <= k < listed.len() && listed[k] == JsonView::Text(name);
        assert(names[k] == name);
    }
    assert forall|k: int| 0 <= k < names.len() implies listed.contains(
        JsonView::Text(#[trigger] names[k]),
    ) by {
        assert(listed[k] == JsonView::Text(names[k]));
    }
    if i > 0 {
        assert(listed.contains(JsonView::Text(names[0])));
        assert(has_text(args, names[0]) == (required_argument(args, names[0]) is Ok));
    }
    if i > 1 {
        assert(listed.contains(JsonView::Text(names[1])));
        assert(has_text(args, names[1]) == (required_argument(args, names[1]) is Ok));
    }
    if i > 3 {
        assert(listed.contains(JsonView::Text(names[2])));
        assert(has_text(args, names[2]) == (required_argument(args, names[2]) is Ok));
    }
}

/// The schema of an object that may have a text by that name.
pub open spec fn declares_text(schema: JsonView, name: Seq<char>) -> bool {
    match member_of(schema, "properties"@) {
        Some(properties) => match member_of(properties, name) {
            Some(kind) => text_member_of(kind, "type"@) == Some("string"@),
            None => false,
        },
        None => false,
    }
}

/// The list of agents: those of this node, then those of others.
pub open spec fn agents_document(local: Seq<JsonView>, remote: Seq<JsonView>) -> JsonView {
    JsonView::Object(map!["agents"@ => JsonView::Array(local + remote)])
}

pub fn agents_answer(
    local: Vec<serde_json::Value>,
    remote: Vec<serde_json::Value>,
) -> (answer: serde_json::Value)
    ensures
        json_of(answer) == agents_document(jsons(local@), jsons(remote@)),
{
    let ghost first = jsons(local@);
    let ghost second = jsons(remote@);
    let mut all = local;
    let mut more = remote;
    all.append(&mut more);
    assert(jsons(all@) =~= first + second);
    object(with(no_members(), "agents", array(all)))
}

pub open spec fn workspace_mode_name(mode: WorkspaceMode) -> Seq<char> {
    match mode {
        WorkspaceMode::Path => "path"@,
        WorkspaceMode::TempPerTask => "temp_per_task"@,
        WorkspaceMode::AgentDir => "agent_dir"@,
        WorkspaceMode::Off => "none"@,
    }
}

pub open spec fn workspace_keep_name(keep: WorkspaceKeep) -> Seq<char> {
    match keep {
        WorkspaceKeep::Never => "never"@,
        WorkspaceKeep::OnFailure => "on_failure"@,
        WorkspaceKeep::Always => "always"@,
    }
}

pub open spec fn workspace_document(workspace: WorkspaceConfig) -> JsonView {
    JsonView::Object(
        map![
            "mode"@ => JsonView::Text(workspace_mode_name(workspace.mode)),
            "path"@ => text_or_null(optional_chars(workspace.path)),
            "prefix"@ => text_or_null(optional_chars(workspace.prefix)),
            "keep"@ => JsonView::Text(workspace_keep_name(workspace.keep)),
        ],
    )
}

fn text_or_nothing(text: &Option<String>) -> (value: serde_json::Value)
    ensures
        json_of(value) == text_or_null(optional_chars(*text)),
{
    match text {
        Some(text) => optional_text_value(Some(text.as_str())),
        None => optional_text_value(None),
    }
}

fn workspace_value(workspace: &WorkspaceConfig) -> (value: serde_json::Value)
    ensures
        json_of(value) == workspace_document(*workspace),
{
    let mode = match workspace.mode {
        WorkspaceMode::Path => "path",
        WorkspaceMode::TempPerTask => "temp_per_task",
        WorkspaceMode::AgentDir => "agent_dir",
        WorkspaceMode::Off => "none",
    };
    let keep = match workspace.keep {
        WorkspaceKeep::Never => "never",
        WorkspaceKeep::OnFailure => "on_failure",
        WorkspaceKeep::Always => "always",
    };
    let members = with(no_members(), "mode", text_value(mode));
    let members = with(members, "path", text_or_nothing(&workspace.path));
    let members = with(members, "prefix", text_or_nothing(&workspace.prefix));
    object(with(members, "keep", text_value(keep)))
}

/// What is told of how an agent is run.
pub open spec fn runtime_document(agent: AgentDefinition) -> JsonView {
    JsonView::Object(
        map![
            "type"@ => JsonView::Text(runtime_name(agent.runtime.runtime.kind)),
            "max_concurrent_tasks"@ => JsonView::Integer(
                agent.runtime.runtime.max_concurrent_tasks as int,
            ),
            "workspace"@ => workspace_document(agent.runtime.runtime.workspace),
        ],
    )
}

pub(crate) fn runtime_summary(agent: &AgentDefinition) -> (summary: serde_json::Value)
    ensures
        json_of(summary) == runtime_document(*agent),
{
    let config = &agent.runtime.runtime;
    let runtime = with(no_members(), "type", text_value(runtime_label(config.kind)));
    let runtime = with(
        runtime,
        "max_concurrent_tasks",
        integer_value(config.max_concurrent_tasks as u64),
    );
    object(with(runtime, "workspace", workspace_value(&config.workspace)))
}

/// What is told of an agent of this node: its card, its runtime and its files.
pub open spec fn local_agent_document(agent: AgentDefinition) -> JsonView {
    JsonView::Object(
        map![
            "agent_id"@ => JsonView::Text(agent.id@),
            "location"@ => JsonView::Text("local"@),
            "agent_card"@ => json_of(agent.card.document),
            "runtime"@ => runtime_document(agent),
            "paths"@ => JsonView::Object(
                map![
                    "dir"@ => JsonView::Text(agent.dir@),
                    "agent_card"@ => JsonView::Text(agent.card_path@),
                    "runtime_config"@ => JsonView::Text(agent.runtime_path@),
                ],
            ),
        ],
    )
}

pub fn local_agent_answer(agent: &AgentDefinition) -> (answer: serde_json::Value)
    ensures
        json_of(answer) == local_agent_document(*agent),
{
    let paths = with(no_members(), "dir", text_value(agent.dir.as_str()));
    let paths = with(paths, "agent_card", text_value(agent.card_path.as_str()));
    let paths = with(paths, "runtime_config", text_value(agent.runtime_path.as_str()));
    let members = with(no_members(), "agent_id", text_value(agent.id.as_str()));
    let members = with(members, "location", text_value("local"));
    let members = with(members, "agent_card", agent.card.document.clone());
    let members = with(members, "runtime", runtime_summary(agent));
    object(with(members, "paths", object(paths)))
}

/// What is told of an agent of another node: its card.
pub open spec fn remote_agent_document(ad: RemoteAgentAd) -> JsonView {
    JsonView::Object(
        map![
            "agent_id"@ => JsonView::Text(ad.agent_id@),
            "location"@ => JsonView::Text("remote"@),
            "peer_id"@ => JsonView::Text(ad.peer_id@),
            "agent_card"@ => json_of(ad.card),
        ],
    )
}

pub fn remote_agent_answer(ad: &RemoteAgentAd) -> (answer: serde_json::Value)
    ensures
        json_of(answer) == remote_agent_document(*ad),
{
    let members = with(no_members(), "agent_id", text_value(ad.agent_id.as_str()));
    let members = with(members, "location", text_value("remote"));
    let members = with(members, "peer_id", text_value(ad.peer_id.as_str()));
    object(with(members, "agent_card", ad.card.clone()))
}

pub open spec fn not_found(agent_id: Seq<char>) -> Seq<char> {
    "agent `"@ + agent_id + "` was not found"@
}

pub open spec fn disabled(agent_id: Seq<char>) -> Seq<char> {
    "agent `"@ + agent_id + "` is disabled"@
}

fn not_found_message(agent_id: &str) -> (message: String)
    ensures
        message@ == not_found(agent_id@),
{
    plus(plus("agent `".to_string(), agent_id), "` was not found")
}

/// The agent of this node by that id, where it has one. One that is switched off
/// is refused.
pub fn local_agent<'a>(registry: &'a AgentRegistry, agent_id: &str) -> (agent: Result<
    Option<&'a AgentDefinition>,
    String,
>)
    ensures
        match agent {
            Ok(Some(agent)) => agent_named(registry@, agent_id@) == Some(*agent)
                && agent.runtime.enabled,
            Ok(None) => agent_named(registry@, agent_id@) is None,
            Err(error) => {
                &&& agent_named(registry@, agent_id@) is Some
                &&& !agent_named(registry@, agent_id@)->0.runtime.enabled
                &&& error@ == disabled(agent_id@)
            },
        },
{
    match registry.get(agent_id) {
        Some(agent) => if agent.runtime.enabled {
            Ok(Some(agent))
        } else {
            Err(plus(plus("agent `".to_string(), agent_id), "` is disabled"))
        },
        None => Ok(None),
    }
}

/// The agent of this node by that id. There must be one, and it must be switched
/// on.
pub fn enabled_agent<'a>(registry: &'a AgentRegistry, agent_id: &str) -> (agent: Result<
    &'a AgentDefinition,
    String,
>)
    ensures
        match agent {
            Ok(agent) => agent_named(registry@, agent_id@) == Some(*agent)
                && agent.runtime.enabled,
            Err(error) => match agent_named(registry@, agent_id@) {
                Some(agent) => !agent.runtime.enabled && error@ == disabled(agent_id@),
                None => error@ == not_found(agent_id@),
            },
        },
{
    match local_agent(registry, agent_id) {
        Ok(Some(agent)) => Ok(agent),
        Ok(None) => Err(not_found_message(agent_id)),
        Err(error) => Err(error),
    }
}

/// A task is looked for in this node's store where this node has its agent and the
/// agent is switched on. Otherwise, also where the agents cannot be read, it is
/// looked for among the tasks of other nodes.
pub fn task_is_here(registry: &Result<AgentRegistry, String>, agent_id: &str) -> (here: bool)
    ensures
        here == match *registry {
            Ok(registry) => agent_named(registry@, agent_id@) is Some && agent_named(
                registry@,
                agent_id@,
            )->0.runtime.enabled,
            Err(_) => false,
        },
{
    match registry {
        Ok(registry) => match enabled_agent(registry, agent_id) {
            Ok(_) => true,
            Err(_) => false,
        },
        Err(_) => false,
    }
}

/// The agent of another node by that id.
pub fn remote_agent<'a>(cache: &'a RemoteAgentCache, agent_id: &str) -> (ad: Result<
    &'a RemoteAgentAd,
    String,
>)
    ensures
        match ad {
            Ok(ad) => ad_named(cache.agents@, agent_id@) == Some(*ad),
            Err(error) => ad_named(cache.agents@, agent_id@) is None && error@ == not_found(
                agent_id@,
            ),
        },
{
    match cache.get(agent_id) {
        Some(ad) => Ok(ad),
        None => Err(not_found_message(agent_id)),
    }
}

/// The agents of other nodes, or why they could not be read.
pub open spec fn known_ads(cache: Result<RemoteAgentCache, String>) -> Result<
    Seq<RemoteAgentAd>,
    Seq<char>,
> {
    match cache {
        Ok(cache) => Ok(cache.agents@),
        Err(error) => Err(error@),
    }
}

/// What `get_agent` tells: of the agent of this node, or else of another node's.
/// The agents of other nodes matter only where this node has none by the id.
pub open spec fn agent_document(
    agents: Seq<AgentDefinition>,
    ads: Result<Seq<RemoteAgentAd>, Seq<char>>,
    agent_id: Seq<char>,
) -> Result<JsonView, Seq<char>> {
    match agent_named(agents, agent_id) {
        Some(agent) => if agent.runtime.enabled {
            Ok(local_agent_document(agent))
        } else {
            Err(disabled(agent_id))
        },
        None => match ads {
            Ok(ads) => match ad_named(ads, agent_id) {
                Some(ad) => Ok(remote_agent_document(ad)),
                None => Err(not_found(agent_id)),
            },
            Err(error) => Err(error),
        },
    }
}

pub fn get_agent_answer(
    registry: &AgentRegistry,
    cache: &Result<RemoteAgentCache, String>,
    agent_id: &str,
) -> (answer: Result<serde_json::Value, String>)
    ensures
        json_result(answer) == agent_document(registry@, known_ads(*cache), agent_id@),
{
    match local_agent(registry, agent_id) {
        Ok(Some(agent)) => Ok(local_agent_answer(agent)),
        Ok(None) => match cache {
            Ok(cache) => match remote_agent(cache, agent_id) {
                Ok(ad) => Ok(remote_agent_answer(ad)),
                Err(error) => Err(error),
            },
            Err(error) => Err(error.clone()),
        },
        Err(error) => Err(error),
    }
}

/// The result of a reply. A reply with an error is turned into that error.
pub open spec fn reply_outcome(reply: ReplyView) -> Result<JsonView, Seq<char>> {
    match reply.error {
        Some(error) => Err("A2A JSON-RPC error "@ + signed_decimal(error.0) + ": "@ + error.1),
        None => match reply.result {
            Some(result) => Ok(result),
            None => Err("A2A response did not include a result"@),
        },
    }
}

pub fn reply_result(reply: Reply) -> (result: Result<serde_json::Value, String>)
    ensures
        json_result(result) == reply_outcome(reply@),
{
    if let Some(error) = &reply.error {
        let code = signed_decimal_text(error.code as i64);
        let opened = plus("A2A JSON-RPC error ".to_string(), code.as_str());
        return Err(plus(plus(opened, ": "), error.message.as_str()));
    }
    match reply.result {
        Some(result) => Ok(result),
        None => Err("A2A response did not include a result".to_string()),
    }
}

/// What the body of a JSON-RPC response gives.
pub open spec fn body_outcome(body: Seq<u8>) -> Result<JsonView, Seq<char>> {
    match decoded_reply_bytes(body) {
        Ok(reply) => reply_outcome(reply),
        Err(error) => Err(error),
    }
}

/// Reads the body of a JSON-RPC response.
pub fn read_reply(body: &[u8]) -> (result: Result<serde_json::Value, String>)
    ensures
        json_result(result) == body_outcome(body@),
{
    match decode_reply_bytes(body) {
        Ok(reply) => reply_result(reply),
        Err(error) => Err(error),
    }
}

/// The task in a result: its member `task`, or the result itself.
pub open spec fn task_in_result(result: JsonView) -> JsonView {
    match member_of(result, "task"@) {
        Some(task) => task,
        None => result,
    }
}

/// What `send_message` answers: the ids of the task, and the whole result.
pub open spec fn sent_document(
    agent_id: Seq<char>,
    location: Option<Seq<char>>,
    result: JsonView,
) -> JsonView {
    let task = task_in_result(result);
    let named = empty_members().insert("agent_id"@, JsonView::Text(agent_id));
    let placed = match location {
        Some(location) => named.insert("location"@, JsonView::Text(location)),
        None => named,
    };
    JsonView::Object(
        placed.insert("task_id"@, text_or_null(text_member_of(task, "id"@))).insert(
            "context_id"@,
            text_or_null(text_member_of(task, "contextId"@)),
        ).insert("result"@, result),
    )
}

fn text_of_member(value: &serde_json::Value, name: &str) -> (text: serde_json::Value)
    ensures
        json_of(text) == text_or_null(text_member_of(json_of(*value), name@)),
{
    match get(value, name) {
        Some(member) => optional_text_value(as_text(member)),
        None => optional_text_value(None),
    }
}

pub fn sent_answer(
    agent_id: &str,
    location: Option<&str>,
    result: serde_json::Value,
) -> (answer: serde_json::Value)
    ensures
        json_of(answer) == sent_document(
            agent_id@,
            match location {
                Some(location) => Some(location@),
                None => None,
            },
            json_of(result),
        ),
{
    let task = match get(&result, "task") {
        Some(task) => task,
        None => &result,
    };
    let task_id = text_of_member(task, "id");
    let context_id = text_of_member(task, "contextId");
    let mut members = with(no_members(), "agent_id", text_value(agent_id));
    if let Some(location) = location {
        members = with(members, "location", text_value(location));
    }
    let members = with(members, "task_id", task_id);
    let members = with(members, "context_id", context_id);
    object(with(members, "result", result))
}

/// What `get_task` answers of a task of this node.
pub open spec fn task_document(
    agent_id: Seq<char>,
    location: Option<Seq<char>>,
    task: JsonView,
) -> JsonView {
    let named = empty_members().insert("agent_id"@, JsonView::Text(agent_id));
    let placed = match location {
        Some(location) => named.insert("location"@, JsonView::Text(location)),
        None => named,
    };
    JsonView::Object(placed.insert("task"@, task))
}

pub fn task_answer(agent_id: &str, location: Option<&str>, task: &Task) -> (answer:
    serde_json::Value)
    ensures
        json_of(answer) == task_document(
            agent_id@,
            match location {
                Some(location) => Some(location@),
                None => None,
            },
            document_of(task@),
        ),
{
    let mut members = with(no_members(), "agent_id", text_value(agent_id));
    if let Some(location) = location {
        members = with(members, "location", text_value(location));
    }
    object(with(members, "task", task.document()))
}

/// What `get_task` answers of a task of another node.
pub open spec fn remote_task_document(agent_id: Seq<char>, record: RemoteTaskRecord) -> JsonView {
    JsonView::Object(
        map![
            "agent_id"@ => JsonView::Text(agent_id),
            "location"@ => JsonView::Text("remote"@),
            "peer_id"@ => JsonView::Text(record.peer_id@),
            "task_id"@ => JsonView::Text(record.task_id@),
            "correlation_id"@ => JsonView::Text(record.correlation_id@),
            "task"@ => json_of(record.result),
        ],
    )
}

pub fn remote_task_answer(agent_id: &str, record: &RemoteTaskRecord) -> (answer: serde_json::Value)
    ensures
        json_of(answer) == remote_task_document(agent_id@, *record),
{
    let members = with(no_members(), "agent_id", text_value(agent_id));
    let members = with(members, "location", text_value("remote"));
    let members = with(members, "peer_id", text_value(record.peer_id.as_str()));
    let members = with(members, "task_id", text_value(record.task_id.as_str()));
    let members = with(members, "correlation_id", text_value(record.correlation_id.as_str()));
    object(with(members, "task", record.result.clone()))
}

/// The task in the result that another node gave.
pub open spec fn remote_task_of(result: JsonView) -> Result<TaskView, Seq<char>> {
    match member_of(result, "task"@) {
        Some(task) => match task_of_value(task) {
            Some(task) => Ok(task),
            None => Err("failed to decode wrapped task"@),
        },
        None => match task_of_value(result) {
            Some(task) => Ok(task),
            None => Err("failed to decode task"@),
        },
    }
}

/// The complaint about a result in which there is no task.
pub open spec fn no_task_in(result: JsonView) -> Seq<char> {
    if member_of(result, "task"@) is Some {
        "failed to decode wrapped task"@
    } else {
        "failed to decode task"@
    }
}

/// Reads the task in a result that another node gave. Of a result in which an
/// object has the reserved name, only the complaint is stated.
pub fn decode_remote_task(value: &serde_json::Value) -> (task: Result<Task, String>)
    ensures
        unreserved(json_of(*value)) ==> task_result(task) == remote_task_of(json_of(*value)),
        task is Err ==> task->Err_0@ == no_task_in(json_of(*value)),
{
    proof {
        if let JsonView::Object(members) = json_of(*value) {
            lemma_unreserved_object(members);
        }
    }
    match get(value, "task") {
        Some(wrapped) => match task_from_value(wrapped) {
            Ok(task) => Ok(task),
            Err(_) => Err("failed to decode wrapped task".to_string()),
        },
        None => match task_from_value(value) {
            Ok(task) => Ok(task),
            Err(_) => Err("failed to decode task".to_string()),
        },
    }
}

/// Where a task was looked for and not found.
pub open spec fn task_missing_of(kind: Seq<char>, agent_id: Seq<char>, task_id: Seq<char>) -> Seq<
    char,
> {
    kind + " `"@ + task_id + "` was not found for agent `"@ + agent_id + "`"@
}

pub fn task_missing(kind: &str, agent_id: &str, task_id: &str) -> (message: String)
    ensures
        message@ == task_missing_of(kind@, agent_id@, task_id@),
{
    let opened = plus(plus(kind.to_string(), " `"), task_id);
    plus(plus(plus(opened, "` was not found for agent `"), agent_id), "`")
}

/// The complaint where an id leads to no task of another node. `kind` says what was
/// looked for.
pub open spec fn no_remote_task(
    tasks: Seq<RemoteTaskRecord>,
    kind: Seq<char>,
    agent_id: Seq<char>,
    task_id: Seq<char>,
) -> Seq<char> {
    match task_found(tasks, agent_id, task_id) {
        None => task_missing_of(kind, agent_id, task_id),
        Some(_) => "failed to decode remote task `"@ + task_id + "`"@,
    }
}

/// The task of another node that an id leads to, or the complaint.
pub open spec fn known_remote_task(
    tasks: Seq<RemoteTaskRecord>,
    kind: Seq<char>,
    agent_id: Seq<char>,
    task_id: Seq<char>,
) -> Result<TaskView, Seq<char>> {
    match task_found(tasks, agent_id, task_id) {
        None => Err(no_remote_task(tasks, kind, agent_id, task_id)),
        Some(record) => match remote_task_of(json_of(record.result)) {
            Ok(task) => Ok(task),
            Err(_) => Err(no_remote_task(tasks, kind, agent_id, task_id)),
        },
    }
}

/// No object in the result that an id leads to has the reserved name.
pub open spec fn found_unreserved(
    tasks: Seq<RemoteTaskRecord>,
    agent_id: Seq<char>,
    task_id: Seq<char>,
) -> bool {
    match task_found(tasks, agent_id, task_id) {
        None => true,
        Some(record) => unreserved(json_of(record.result)),
    }
}

/// Reads the task of another node that an id leads to. Of a result in which an
/// object has the reserved name, only the complaint is stated.
pub fn remote_task(cache: &RemoteTaskCache, kind: &str, agent_id: &str, task_id: &str) -> (task:
    Result<Task, String>)
    ensures
        found_unreserved(cache.tasks@, agent_id@, task_id@) ==> task_result(task)
            == known_remote_task(cache.tasks@, kind@, agent_id@, task_id@),
        task is Err ==> task->Err_0@ == no_remote_task(cache.tasks@, kind@, agent_id@, task_id@),
{
    match cache.get(agent_id, task_id) {
        None => Err(task_missing(kind, agent_id, task_id)),
        Some(record) => match decode_remote_task(&record.result) {
            Ok(task) => Ok(task),
            Err(_) => Err(plus(plus("failed to decode remote task `".to_string(), task_id), "`")),
        },
    }
}

/// The first artifact of that id, from `from` on.
pub open spec fn artifact_named(artifacts: Seq<JsonView>, id: Seq<char>, from: int) -> Option<
    JsonView,
>
    decreases artifacts.len() - from,
{
    if from < 0 || from >= artifacts.len() {
        None
    } else if artifact_id_of(artifacts[from]) == id {
        Some(artifacts[from])
    } else {
        artifact_named(artifacts, id, from + 1)
    }
}

/// The artifact of a task by that id.
pub open spec fn task_artifact(task: TaskView, task_id: Seq<char>, id: Seq<char>) -> Result<
    JsonView,
    Seq<char>,
> {
    let artifacts = match task.artifacts {
        Some(artifacts) => artifacts,
        None => seq![],
    };
    match artifact_named(artifacts, id, 0) {
        Some(artifact) => Ok(artifact),
        None => Err("artifact `"@ + id + "` was not found on task `"@ + task_id + "`"@),
    }
}

fn artifact_missing(task_id: &str, artifact_id: &str) -> (message: String)
    ensures
        message@ == "artifact `"@ + artifact_id@ + "` was not found on task `"@ + task_id@ + "`"@,
{
    let opened = plus("artifact `".to_string(), artifact_id);
    plus(plus(plus(opened, "` was not found on task `"), task_id), "`")
}

pub fn find_artifact(task: &Task, task_id: &str, artifact_id: &str) -> (artifact: Result<
    serde_json::Value,
    String,
>)
    ensures
        json_result(artifact) == task_artifact(task@, task_id@, artifact_id@),
{
    let artifacts = match &task.artifacts {
        Some(artifacts) => artifacts,
        None => {
            return Err(artifact_missing(task_id, artifact_id));
        },
    };
    let ghost all = jsons(artifacts@);
    let mut i: usize = 0;
    while i < artifacts.len()
        invariant
            i <= artifacts@.len(),
            all == jsons(artifacts@),
            task@.artifacts == Some(all),
            artifact_named(all, artifact_id@, i as int) == artifact_named(all, artifact_id@, 0),
        decreases artifacts@.len() - i,
    {
        assert(all[i as int] == json_of(artifacts@[i as int]));
        if same_text(member_text(&artifacts[i], "artifactId").as_str(), artifact_id) {
            return Ok(artifacts[i].clone());
        }
        i += 1;
    }
    Err(artifact_missing(task_id, artifact_id))
}

proof fn lemma_artifact_named(artifacts: Seq<JsonView>, id: Seq<char>, from: int)
    requires
        0 <= from <= artifacts.len(),
    ensures
        artifact_named(artifacts, id, from) is Some <==> exists|i: int|
            from <= i < artifacts.len() && artifact_id_of(#[trigger] artifacts[i]) == id,
    decreases artifacts.len() - from,
{
    if from < artifacts.len() && artifact_id_of(artifacts[from]) != id {
        lemma_artifact_named(artifacts, id, from + 1);
    }
}

/// Every artifact of a task can be looked up by its id, and nothing else can. So
/// both artifacts that a completed task always has can be viewed.
pub proof fn law_artifacts_can_be_viewed(task: TaskView, task_id: Seq<char>, id: Seq<char>)
    ensures
        task_artifact(task, task_id, id) is Ok <==> task.artifacts is Some && has_artifact(
            task.artifacts->0,
            id,
        ),
        forall|left: Seq<JsonView>, output: Seq<char>|
            task.artifacts == Some(#[trigger] completed_artifacts(left, output)) ==> {
                &&& task_artifact(task, task_id, "summary.md"@) is Ok
                &&& task_artifact(task, task_id, "findings.json"@) is Ok
            },
{
    let artifacts = match task.artifacts {
        Some(artifacts) => artifacts,
        None => seq![],
    };
    lemma_artifact_named(artifacts, id, 0);
    lemma_artifact_named(artifacts, "summary.md"@, 0);
    lemma_artifact_named(artifacts, "findings.json"@, 0);
    assert forall|left: Seq<JsonView>, output: Seq<char>|
        task.artifacts == Some(#[trigger] completed_artifacts(left, output)) implies {
        &&& task_artifact(task, task_id, "summary.md"@) is Ok
        &&& task_artifact(task, task_id, "findings.json"@) is Ok
    } by {
        law_default_artifacts(left, output);
    }
}

/// The texts of the parts that have one, among the first `upto`.
pub open spec fn part_texts(parts: Seq<JsonView>, upto: int) -> Seq<Seq<char>>
    decreases upto,
{
    if upto <= 0 || upto > parts.len() {
        seq![]
    } else {
        match text_member_of(parts[upto - 1], "text"@) {
            Some(text) => part_texts(parts, upto - 1).push(text),
            None => part_texts(parts, upto - 1),
        }
    }
}

/// The text of an artifact: the texts of its parts, as lines.
pub open spec fn artifact_text_of(artifact: JsonView) -> Seq<char> {
    let parts = items_member(artifact, "parts"@);
    separated(part_texts(parts, parts.len() as int), "\n"@)
}

fn texts_of(parts: &Vec<serde_json::Value>) -> (list: Vec<String>)
    ensures
        texts(list@) == part_texts(jsons(parts@), parts@.len() as int),
{
    let ghost all = jsons(parts@);
    let mut list: Vec<String> = Vec::new();
    let mut i: usize = 0;
    assert(texts(list@) =~= Seq::<Seq<char>>::empty());
    while i < parts.len()
        invariant
            i <= parts@.len(),
            all == jsons(parts@),
            texts(list@) == part_texts(all, i as int),
        decreases parts@.len() - i,
    {
        assert(all[i as int] == json_of(parts@[i as int]));
        let ghost before = texts(list@);
        if let Some(member) = get(&parts[i], "text") {
            if let Some(text) = as_text(member) {
                list.push(text.to_string());
                assert(texts(list@) =~= before.push(text@));
            }
        }
        i += 1;
    }
    list
}

pub fn artifact_text(artifact: &serde_json::Value) -> (text: String)
    ensures
        text@ == artifact_text_of(json_of(*artifact)),
{
    if let Some(member) = get(artifact, "parts") {
        if let Some(parts) = as_items(member) {
            return separate(&texts_of(parts), "\n");
        }
    }
    let none = String::new();
    assert(none@ =~= artifact_text_of(json_of(*artifact)));
    none
}

/// What `view_text_artifact` answers.
pub open spec fn text_view_of(
    agent_id: Seq<char>,
    task_id: Seq<char>,
    artifact_id: Seq<char>,
    artifact: JsonView,
) -> Result<JsonView, Seq<char>> {
    if artifact_text_of(artifact).len() == 0 {
        Err("artifact `"@ + artifact_id + "` has no text parts"@)
    } else {
        Ok(
            JsonView::Object(
                map![
                    "agent_id"@ => JsonView::Text(agent_id),
                    "task_id"@ => JsonView::Text(task_id),
                    "artifact_id"@ => JsonView::Text(artifact_id_of(artifact)),
                    "text"@ => JsonView::Text(artifact_text_of(artifact)),
                ],
            ),
        )
    }
}

pub fn text_artifact_answer(
    agent_id: &str,
    task_id: &str,
    artifact_id: &str,
    artifact: &serde_json::Value,
) -> (answer: Result<serde_json::Value, String>)
    ensures
        json_result(answer) == text_view_of(
            agent_id@,
            task_id@,
            artifact_id@,
            json_of(*artifact),
        ),
{
    let text = artifact_text(artifact);
    if chars_of(text.as_str()).len() == 0 {
        let opened = plus("artifact `".to_string(), artifact_id);
        return Err(plus(opened, "` has no text parts"));
    }
    let id = member_text(artifact, "artifactId");
    let members = with(no_members(), "agent_id", text_value(agent_id));
    let members = with(members, "task_id", text_value(task_id));
    let members = with(members, "artifact_id", text_value(id.as_str()));
    Ok(object(with(members, "text", text_value(text.as_str()))))
}

/// What `view_data_artifact` answers: the artifact as it is.
pub open spec fn data_view_of(
    agent_id: Seq<char>,
    task_id: Seq<char>,
    artifact: JsonView,
) -> JsonView {
    JsonView::Object(
        map![
            "agent_id"@ => JsonView::Text(agent_id),
            "task_id"@ => JsonView::Text(task_id),
            "artifact"@ => artifact,
        ],
    )
}

pub fn data_artifact_answer(
    agent_id: &str,
    task_id: &str,
    artifact: serde_json::Value,
) -> (answer: serde_json::Value)
    ensures
        json_of(answer) == data_view_of(agent_id@, task_id@, json_of(artifact)),
{
    let members = with(no_members(), "agent_id", text_value(agent_id));
    let members = with(members, "task_id", text_value(task_id));
    object(with(members, "artifact", artifact))
}

/// The parameters that send a user's text to an agent.
pub open spec fn message_params(
    message_id: Seq<char>,
    text: Seq<char>,
    context_id: Option<Seq<char>>,
) -> JsonView {
    let message = JsonView::Object(
        map![
            "messageId"@ => JsonView::Text(message_id),
            "role"@ => JsonView::Text("ROLE_USER"@),
            "parts"@ => JsonView::Array(
                seq![JsonView::Object(map!["text"@ => JsonView::Text(text)])],
            ),
        ],
    );
    JsonView::Object(
        with_optional(
            empty_members().insert("message"@, message),
            "contextId"@,
            match context_id {
                Some(context_id) => Some(JsonView::Text(context_id)),
                None => None,
            },
        ),
    )
}

fn params(message_id: &str, message: &str, context_id: &Option<String>) -> (params:
    serde_json::Value)
    ensures
        json_of(params) == message_params(message_id@, message@, optional_chars(*context_id)),
{
    let part = object(with(no_members(), "text", text_value(message)));
    let parts = vec![part];
    assert(jsons(parts@) =~= seq![json_of(part)]);
    let document = with(no_members(), "messageId", text_value(message_id));
    let document = with(document, "role", text_value("ROLE_USER"));
    let document = with(document, "parts", array(parts));
    let mut members = with(no_members(), "message", object(document));
    if let Some(context_id) = context_id {
        members = with(members, "contextId", text_value(context_id.as_str()));
    }
    object(members)
}

/// The way in which an agent is asked to answer.
#[derive(Clone, Copy, Debug, PartialEq, Eq, Structural)]
pub enum Answering {
    AtOnce,
    AsStream,
}

pub open spec fn method_name(answering: Answering) -> Seq<char> {
    match answering {
        Answering::AtOnce => "SendMessage"@,
        Answering::AsStream => "SendStreamingMessage"@,
    }
}

/// The body of the request that sends a user's text to an agent. Reading it as
/// JSON gives the request.
pub fn send_message_body(
    answering: Answering,
    message_id: &str,
    message: &str,
    context_id: &Option<String>,
) -> (body: Result<String, String>)
    ensures
        body is Ok,
        parsed_json(body->Ok_0@) is Ok,
        parsed_json(body->Ok_0@)->Ok_0 == request_document(
            1,
            method_name(answering),
            message_params(message_id@, message@, optional_chars(*context_id)),
        ),
{
    let method = match answering {
        Answering::AtOnce => "SendMessage",
        Answering::AsStream => "SendStreamingMessage",
    };
    proof {
        lemma_params_are_readable(message_id@, message@, optional_chars(*context_id));
    }
    encode_request(1, method, params(message_id, message, context_id))
}

proof fn lemma_params_are_readable(
    message_id: Seq<char>,
    text: Seq<char>,
    context_id: Option<Seq<char>>,
)
    ensures
        readable_within(message_params(message_id, text, context_id), 126),
{
    let part = JsonView::Object(map!["text"@ => JsonView::Text(text)]);
    reveal_strlit("$serde_json::private::RawValue");
    reveal_strlit("text");
    reveal_strlit("messageId");
    reveal_strlit("role");
    reveal_strlit("parts");
    reveal_strlit("message");
    reveal_strlit("contextId");
    assert(reserved_name().len() == 30);
    reveal_with_fuel(readable_within, 5);
    assert(readable_within(part, 123));
    assert(readable_within(JsonView::Array(seq![part]), 124));
    let message = JsonView::Object(
        map![
            "messageId"@ => JsonView::Text(message_id),
            "role"@ => JsonView::Text("ROLE_USER"@),
            "parts"@ => JsonView::Array(seq![part]),
        ],
    );
    assert(readable_within(message, 125));
}

/// The id of a message that an MCP client sends at a time in nanoseconds.
pub fn mcp_message_id(nanos: u128) -> (id: String)
    ensures
        id@ == "mcp-"@ + decimal(nanos as nat),
{
    plus("mcp-".to_string(), decimal_text(nanos).as_str())
}

/// The id of a message that the mesh sends at a time in milliseconds.
pub fn mesh_message_id(answering: Answering, now_ms: u64) -> (id: String)
    ensures
        id@ == match answering {
            Answering::AtOnce => "mesh-"@,
            Answering::AsStream => "mesh-stream-"@,
        } + decimal(now_ms as nat),
{
    let prefix = match answering {
        Answering::AtOnce => "mesh-",
        Answering::AsStream => "mesh-stream-",
    };
    plus(prefix.to_string(), decimal_text(now_ms as u128).as_str())
}

/// An artifact of some parts and nothing else.
pub open spec fn of_parts(parts: Seq<JsonView>) -> JsonView {
    JsonView::Object(map!["parts"@ => JsonView::Array(parts)])
}

/// One of the parts has a text.
pub open spec fn some_text(parts: Seq<JsonView>) -> bool {
    exists|i: int| 0 <= i < parts.len() && text_member_of(#[trigger] parts[i], "text"@) is Some
}

proof fn lemma_part_texts(parts: Seq<JsonView>, more: Seq<JsonView>, upto: int)
    requires
        0 <= upto <= parts.len(),
        upto <= more.len(),
        forall|i: int| 0 <= i < upto ==> parts[i] == #[trigger] more[i],
    ensures
        part_texts(parts, upto) == part_texts(more, upto),
        part_texts(parts, upto).len() > 0 <==> exists|i: int|
            0 <= i < upto && text_member_of(#[trigger] parts[i], "text"@) is Some,
    decreases upto,
{
    if upto > 0 {
        lemma_part_texts(parts, more, upto - 1);
        assert(parts[upto - 1] == more[upto - 1]);
    }
}

/// The text of an artifact is that of its parts: every part that has a text, whatever
/// else it has, adds its text as one more line, and any other part adds nothing.
pub proof fn law_parts_make_the_text(parts: Seq<JsonView>, part: JsonView)
    ensures
        artifact_text_of(of_parts(seq![])) == Seq::<char>::empty(),
        match text_member_of(part, "text"@) {
            None => artifact_text_of(of_parts(parts.push(part))) == artifact_text_of(
                of_parts(parts),
            ),
            Some(text) => artifact_text_of(of_parts(parts.push(part))) == if some_text(parts) {
                artifact_text_of(of_parts(parts)) + "\n"@ + text
            } else {
                text
            },
        },
{
    let more = parts.push(part);
    let size = parts.len() as int;
    lemma_part_texts(more, parts, size);
    lemma_part_texts(parts, parts, size);
    let before = part_texts(parts, size);
    assert(part_texts(more, size) == before);
    assert(some_text(parts) == (before.len() > 0));
    assert(items_member(of_parts(parts), "parts"@) == parts);
    assert(items_member(of_parts(more), "parts"@) == more);
    assert(items_member(of_parts(seq![]), "parts"@) =~= Seq::<JsonView>::empty());
    if let Some(text) = text_member_of(part, "text"@) {
        assert(before.push(text).drop_last() =~= before);
        if before.len() == 0 {
            assert(before.push(text) =~= seq![text]);
        }
    }
}

/// Only an artifact's parts matter for its text.
pub proof fn law_text_is_that_of_the_parts(artifact: JsonView)
    ensures
        artifact_text_of(artifact) == artifact_text_of(of_parts(items_member(artifact, "parts"@))),
{
}

/// The text of an artifact that was made of a text is that text, and viewing it shows
/// the text under the ids that were asked for.
pub proof fn law_text_artifact_shows_its_text(
    agent_id: Seq<char>,
    task_id: Seq<char>,
    id: Seq<char>,
    text: Seq<char>,
)
    ensures
        artifact_text_of(text_artifact_of(id, text)) == text,
        text.len() > 0 ==> {
            let view = text_view_of(agent_id, task_id, id, text_artifact_of(id, text));
            &&& view is Ok
            &&& text_member_of(view->Ok_0, "text"@) == Some(text)
            &&& text_member_of(view->Ok_0, "artifact_id"@) == Some(id)
            &&& text_member_of(view->Ok_0, "agent_id"@) == Some(agent_id)
            &&& text_member_of(view->Ok_0, "task_id"@) == Some(task_id)
        },
{
    lemma_member_names();
    let artifact = text_artifact_of(id, text);
    let part = crate::wire::typed_text_part(text, crate::artifacts::media_type_of(id));
    let parts = items_member(artifact, "parts"@);
    assert(parts =~= Seq::<JsonView>::empty().push(part));
    assert(text_member_of(part, "text"@) == Some(text));
    law_parts_make_the_text(Seq::<JsonView>::empty(), part);
    law_text_is_that_of_the_parts(artifact);
    assert(!some_text(Seq::<JsonView>::empty()));
}

/// What `view_text_artifact` answers: the artifact's text under the ids that were asked
/// for, or, where there is no text, a complaint.
pub proof fn law_text_view(
    agent_id: &str,
    task_id: &str,
    artifact_id: &str,
    artifact: &serde_json::Value,
    answer: Result<serde_json::Value, String>,
)
    requires
        call_ensures(text_artifact_answer, (agent_id, task_id, artifact_id, artifact), answer),
    ensures
        answer is Ok <==> artifact_text_of(json_of(*artifact)).len() > 0,
        answer is Ok ==> {
            let view = json_of(answer->Ok_0);
            &&& text_member_of(view, "agent_id"@) == Some(agent_id@)
            &&& text_member_of(view, "task_id"@) == Some(task_id@)
            &&& text_member_of(view, "text"@) == Some(artifact_text_of(json_of(*artifact)))
            &&& text_member_of(view, "artifact_id"@) == Some(
                text_member_or_empty(json_of(*artifact), "artifactId"@),
            )
        },
        answer is Err ==> answer->Err_0@ == "artifact `"@ + artifact_id@ + "` has no text parts"@,
{
    lemma_member_names();
}

/// What `view_data_artifact` answers: the artifact as it is, under the ids that were
/// asked for.
pub proof fn law_data_view(
    agent_id: &str,
    task_id: &str,
    artifact: serde_json::Value,
    answer: serde_json::Value,
)
    requires
        call_ensures(data_artifact_answer, (agent_id, task_id, artifact), answer),
    ensures
        text_member_of(json_of(answer), "agent_id"@) == Some(agent_id@),
        text_member_of(json_of(answer), "task_id"@) == Some(task_id@),
        member_of(json_of(answer), "artifact"@) == Some(json_of(artifact)),
{
    lemma_member_names();
}

/// An artifact that is found on a task is one of the task's, of the id that was asked
/// for, and no other of that id stands before it. It is found wherever the task has one.
pub proof fn law_found_artifact_is_the_tasks_own(
    task: &Task,
    task_id: &str,
    artifact_id: &str,
    artifact: Result<serde_json::Value, String>,
)
    requires
        call_ensures(find_artifact, (task, task_id, artifact_id), artifact),
    ensures
        match artifact {
            Ok(artifact) => exists|i: int|
                {
                    &&& task@.artifacts is Some
                    &&& 0 <= i < task@.artifacts->0.len()
                    &&& #[trigger] task@.artifacts->0[i] == json_of(artifact)
                    &&& text_member_or_empty(json_of(artifact), "artifactId"@) == artifact_id@
                    &&& forall|j: int|
                        0 <= j < i ==> text_member_or_empty(
                            #[trigger] task@.artifacts->0[j],
                            "artifactId"@,
                        ) != artifact_id@
                },
            Err(error) => {
                &&& task@.artifacts is Some ==> forall|i: int|
                    0 <= i < task@.artifacts->0.len() ==> text_member_or_empty(
                        #[trigger] task@.artifacts->0[i],
                        "artifactId"@,
                    ) != artifact_id@
                &&& error@ == "artifact `"@ + artifact_id@ + "` was not found on task `"@
                    + task_id@ + "`"@
            },
        },
{
    if let Some(list) = task@.artifacts {
        lemma_first_artifact(list, artifact_id@, 0);
    }
}

proof fn lemma_first_artifact(artifacts: Seq<JsonView>, id: Seq<char>, from: int)
    requires
        0 <= from <= artifacts.len(),
    ensures
        match artifact_named(artifacts, id, from) {
            Some(artifact) => exists|i: int|
                from <= i < artifacts.len() && #[trigger] artifacts[i] == artifact
                    && artifact_id_of(artifact) == id && forall|j: int|
                    from <= j < i ==> artifact_id_of(#[trigger] artifacts[j]) != id,
            None => forall|i: int|
                from <= i < artifacts.len() ==> artifact_id_of(#[trigger] artifacts[i]) != id,
        },
    decreases artifacts.len() - from,
{
    if from < artifacts.len() {
        if artifact_id_of(artifacts[from]) != id {
            lemma_first_artifact(artifacts, id, from + 1);
        } else {
            assert(artifacts[from] == artifacts[from]);
        }
    }
}

/// What is told of how an agent is run is what its configuration says.
pub open spec fn tells_runtime(document: JsonView, agent: AgentDefinition) -> bool {
    let runtime = agent.runtime.runtime;
    &&& member_of(document, "runtime"@) is Some
    &&& text_member_of(member_of(document, "runtime"@)->0, "type"@) == Some(
        match runtime.kind {
            RuntimeKind::Opencode => "opencode"@,
            RuntimeKind::Goose => "goose"@,
            RuntimeKind::Pi => "pi"@,
            RuntimeKind::Acp => "acp"@,
            RuntimeKind::Remote => "remote"@,
        },
    )
    &&& member_of(member_of(document, "runtime"@)->0, "max_concurrent_tasks"@) == Some(
        JsonView::Integer(runtime.max_concurrent_tasks as int),
    )
    &&& member_of(member_of(document, "runtime"@)->0, "workspace"@) is Some
    &&& tells_workspace(
        member_of(member_of(document, "runtime"@)->0, "workspace"@)->0,
        runtime.workspace,
    )
}

pub open spec fn tells_workspace(document: JsonView, workspace: WorkspaceConfig) -> bool {
    &&& text_member_of(document, "mode"@) == Some(
        match workspace.mode {
            WorkspaceMode::Path => "path"@,
            WorkspaceMode::TempPerTask => "temp_per_task"@,
            WorkspaceMode::AgentDir => "agent_dir"@,
            WorkspaceMode::Off => "none"@,
        },
    )
    &&& text_member_of(document, "keep"@) == Some(
        match workspace.keep {
            WorkspaceKeep::Never => "never"@,
            WorkspaceKeep::OnFailure => "on_failure"@,
            WorkspaceKeep::Always => "always"@,
        },
    )
    &&& text_member_of(document, "path"@) == optional_chars(workspace.path)
    &&& text_member_of(document, "prefix"@) == optional_chars(workspace.prefix)
}

/// What is told of an agent of this node is its own: its id, its card, how it is run
/// and where its files are.
pub proof fn law_agent_tells_of_itself(agent: &AgentDefinition, answer: serde_json::Value)
    requires
        call_ensures(local_agent_answer, (agent,), answer),
    ensures
        text_member_of(json_of(answer), "agent_id"@) == Some(agent.id@),
        text_member_of(json_of(answer), "location"@) == Some("local"@),
        member_of(json_of(answer), "agent_card"@) == Some(json_of(agent.card.document)),
        tells_runtime(json_of(answer), *agent),
        member_of(json_of(answer), "paths"@) is Some,
        ({
            let paths = member_of(json_of(answer), "paths"@)->0;
            &&& text_member_of(paths, "dir"@) == Some(agent.dir@)
            &&& text_member_of(paths, "agent_card"@) == Some(agent.card_path@)
            &&& text_member_of(paths, "runtime_config"@) == Some(agent.runtime_path@)
        }),
{
    lemma_member_names();
}

/// What is told of an agent of another node is what that node said of it.
pub proof fn law_ad_tells_of_its_agent(ad: &RemoteAgentAd, answer: serde_json::Value)
    requires
        call_ensures(remote_agent_answer, (ad,), answer),
    ensures
        text_member_of(json_of(answer), "agent_id"@) == Some(ad.agent_id@),
        text_member_of(json_of(answer), "peer_id"@) == Some(ad.peer_id@),
        text_member_of(json_of(answer), "location"@) == Some("remote"@),
        member_of(json_of(answer), "agent_card"@) == Some(json_of(ad.card)),
{
    lemma_member_names();
}

/// `get_agent` tells of the agent by the id that was asked for: of this node's, where
/// this node has one that is switched on; of another node's only where this node has
/// none by that id. Any other id is refused.
pub proof fn law_get_agent_tells_of_the_agent_asked_for(
    registry: &AgentRegistry,
    cache: &Result<RemoteAgentCache, String>,
    agent_id: &str,
    answer: Result<serde_json::Value, String>,
)
    requires
        call_ensures(get_agent_answer, (registry, cache, agent_id), answer),
    ensures
        answer is Ok ==> text_member_of(json_of(answer->Ok_0), "agent_id"@) == Some(agent_id@),
        forall|i: int|
            #![trigger registry@[i]]
            is_first_agent(registry@, i, agent_id@) ==> {
                &&& answer is Ok <==> registry@[i].runtime.enabled
                &&& answer is Ok ==> {
                    &&& text_member_of(json_of(answer->Ok_0), "location"@) == Some("local"@)
                    &&& member_of(json_of(answer->Ok_0), "agent_card"@) == Some(
                        json_of(registry@[i].card.document),
                    )
                    &&& tells_runtime(json_of(answer->Ok_0), registry@[i])
                }
            },
        (forall|i: int| 0 <= i < registry@.len() ==> (#[trigger] registry@[i]).id@ != agent_id@)
            ==> match *cache {
            Ok(cache) => {
                &&& answer is Ok <==> exists|i: int|
                    0 <= i < cache.agents@.len() && (#[trigger] cache.agents@[i]).agent_id@
                        == agent_id@
                &&& answer is Ok ==> {
                    &&& text_member_of(json_of(answer->Ok_0), "location"@) == Some("remote"@)
                    &&& exists|i: int|
                        0 <= i < cache.agents@.len() && (#[trigger] cache.agents@[i]).agent_id@
                            == agent_id@ && member_of(json_of(answer->Ok_0), "agent_card"@)
                            == Some(json_of(cache.agents@[i].card)) && text_member_of(
                            json_of(answer->Ok_0),
                            "peer_id"@,
                        ) == Some(cache.agents@[i].peer_id@)
                }
            },
            Err(error) => answer is Err && answer->Err_0@ == error@,
        },
{
    lemma_member_names();
    lemma_agent_named(registry@, agent_id@);
    if let Ok(cache) = *cache {
        lemma_ad_named(cache.agents@, agent_id@);
    }
}

/// The first agent by an id.
pub open spec fn is_first_agent(agents: Seq<AgentDefinition>, i: int, id: Seq<char>) -> bool {
    &&& 0 <= i < agents.len()
    &&& agents[i].id@ == id
    &&& forall|j: int| 0 <= j < i ==> (#[trigger] agents[j]).id@ != id
}

pub proof fn lemma_agent_named(agents: Seq<AgentDefinition>, id: Seq<char>)
    ensures
        match agent_named(agents, id) {
            Some(agent) => agent.id@ == id && exists|i: int|
                is_first_agent(agents, i, id) && #[trigger] agents[i] == agent,
            None => forall|i: int| 0 <= i < agents.len() ==> (#[trigger] agents[i]).id@ != id,
        },
        forall|i: int|
            #![trigger agents[i]]
            is_first_agent(agents, i, id) ==> agent_named(agents, id) == Some(agents[i]),
    decreases agents.len(),
{
    if agents.len() > 0 {
        let rest = agents.drop_first();
        lemma_agent_named(rest, id);
        assert forall|i: int| 0 <= i < rest.len() implies #[trigger] rest[i] == agents[i + 1] by {}
        if agents[0].id@ == id {
            assert(is_first_agent(agents, 0, id) && agents[0] == agents[0]);
        } else {
            match agent_named(rest, id) {
                Some(agent) => {
                    let i = choose|i: int|
                        is_first_agent(rest, i, id) && #[trigger] rest[i] == agent;
                    assert(agents[i + 1] == agent);
                    assert forall|j: int| 0 <= j < i + 1 implies (#[trigger] agents[j]).id@
                        != id by {
                        if j > 0 {
                            assert(rest[j - 1].id@ != id);
                        }
                    }
                    assert(is_first_agent(agents, i + 1, id));
                    assert forall|k: int|
                        #![trigger agents[k]]
                        is_first_agent(agents, k, id) implies agent_named(agents, id) == Some(
                        agents[k],
                    ) by {
                        if k < i + 1 {
                        } else if k > i + 1 {
                            assert(agents[i + 1].id@ != id);
                        }
                    }
                },
                None => {
                    assert forall|j: int| 0 <= j < agents.len() implies (#[trigger] agents[j]).id@
                        != id by {
                        if j > 0 {
                            assert(rest[j - 1].id@ != id);
                        }
                    }
                },
            }
        }
    }
}

pub proof fn lemma_ad_named(ads: Seq<RemoteAgentAd>, id: Seq<char>)
    ensures
        match ad_named(ads, id) {
            Some(ad) => ad.agent_id@ == id && exists|i: int|
                0 <= i < ads.len() && #[trigger] ads[i] == ad && forall|j: int|
                    0 <= j < i ==> (#[trigger] ads[j]).agent_id@ != id,
            None => forall|i: int| 0 <= i < ads.len() ==> (#[trigger] ads[i]).agent_id@ != id,
        },
    decreases ads.len(),
{
    if ads.len() > 0 {
        let rest = ads.drop_first();
        lemma_ad_named(rest, id);
        if ads[0].agent_id@ == id {
            assert(ads[0] == ads[0]);
        } else {
            match ad_named(rest, id) {
                Some(ad) => {
                    let i = choose|i: int|
                        0 <= i < rest.len() && #[trigger] rest[i] == ad && forall|j: int|
                            0 <= j < i ==> (#[trigger] rest[j]).agent_id@ != id;
                    assert(ads[i + 1] == ad);
                    assert forall|j: int| 0 <= j < i + 1 implies (#[trigger] ads[j]).agent_id@
                        != id by {
                        if j > 0 {
                            assert(rest[j - 1].agent_id@ != id);
                        }
                    }
                },
                None => {
                    assert forall|j: int| 0 <= j < ads.len() implies (#[trigger] ads[j]).agent_id@
                        != id by {
                        if j > 0 {
                            assert(rest[j - 1].agent_id@ != id);
                        }
                    }
                },
            }
        }
    }
}

/// A message goes to the agent by the id that was asked for, and only to one of this
/// node that is switched on.
pub proof fn law_enabled_agent_is_the_one_asked_for(
    registry: &AgentRegistry,
    agent_id: &str,
    agent: Result<&AgentDefinition, String>,
)
    requires
        call_ensures(enabled_agent, (registry, agent_id), agent),
    ensures
        match agent {
            Ok(agent) => agent.id@ == agent_id@ && agent.runtime.enabled && registry@.contains(
                *agent,
            ),
            Err(_) => forall|i: int|
                #![trigger registry@[i]]
                is_first_agent(registry@, i, agent_id@) ==> !registry@[i].runtime.enabled,
        },
{
    lemma_agent_named(registry@, agent_id@);
}

/// The list of agents shows what is known of this node's, then of the others', each
/// once and in order.
pub proof fn law_agents_are_listed(
    local: Vec<serde_json::Value>,
    remote: Vec<serde_json::Value>,
    answer: serde_json::Value,
)
    requires
        call_ensures(agents_answer, (local, remote), answer),
    ensures
        items_member(json_of(answer), "agents"@).len() == local@.len() + remote@.len(),
        forall|i: int|
            0 <= i < local@.len() ==> items_member(json_of(answer), "agents"@)[i] == json_of(
                #[trigger] local@[i],
            ),
        forall|i: int|
            0 <= i < remote@.len() ==> items_member(json_of(answer), "agents"@)[local@.len() + i]
                == json_of(#[trigger] remote@[i]),
{
}

/// A reply without an error gives its result; an error is never lost.
pub proof fn law_reply_gives_its_result(reply: Reply, result: Result<serde_json::Value, String>)
    requires
        call_ensures(reply_result, (reply,), result),
    ensures
        result is Ok <==> reply.error is None && reply.result is Some,
        result is Ok ==> json_of(result->Ok_0) == json_of(reply.result->0),
        reply.error is Some ==> result is Err && result->Err_0@ == "A2A JSON-RPC error "@
            + signed_decimal(reply.error->0.code as int) + ": "@ + reply.error->0.message@,
{
}

/// What `send_message` answers names the agent that was asked, and the task by the id
/// and the context that the result gives it, whether or not the result wraps the task.
pub proof fn law_sent_answer_names_the_task(
    agent_id: &str,
    location: Option<&str>,
    result: serde_json::Value,
    answer: serde_json::Value,
)
    requires
        call_ensures(sent_answer, (agent_id, location, result), answer),
    ensures
        text_member_of(json_of(answer), "agent_id"@) == Some(agent_id@),
        member_of(json_of(answer), "result"@) == Some(json_of(result)),
        text_member_of(json_of(answer), "location"@) == match location {
            Some(location) => Some(location@),
            None => None,
        },
        ({
            let task = match member_of(json_of(result), "task"@) {
                Some(task) => task,
                None => json_of(result),
            };
            &&& text_member_of(json_of(answer), "task_id"@) == text_member_of(task, "id"@)
            &&& text_member_of(json_of(answer), "context_id"@) == text_member_of(
                task,
                "contextId"@,
            )
        }),
{
    lemma_member_names();
}

/// What `get_task` answers of a stored task is the task's document, under the agent
/// that was asked for.
pub proof fn law_task_answer_is_the_task(
    agent_id: &str,
    location: Option<&str>,
    task: &Task,
    answer: serde_json::Value,
)
    requires
        call_ensures(task_answer, (agent_id, location, task), answer),
    ensures
        text_member_of(json_of(answer), "agent_id"@) == Some(agent_id@),
        text_member_of(json_of(answer), "location"@) == match location {
            Some(location) => Some(location@),
            None => None,
        },
        member_of(json_of(answer), "task"@) == Some(document_of(task@)),
        text_member_of(member_of(json_of(answer), "task"@)->0, "id"@) == Some(task@.id),
        text_member_of(member_of(json_of(answer), "task"@)->0, "contextId"@) == Some(
            task@.context_id,
        ),
{
    lemma_member_names();
}

/// What `get_task` answers of another node's task is what is known of it.
pub proof fn law_remote_task_answer_is_the_record(
    agent_id: &str,
    record: &RemoteTaskRecord,
    answer: serde_json::Value,
)
    requires
        call_ensures(remote_task_answer, (agent_id, record), answer),
    ensures
        text_member_of(json_of(answer), "agent_id"@) == Some(agent_id@),
        text_member_of(json_of(answer), "location"@) == Some("remote"@),
        text_member_of(json_of(answer), "peer_id"@) == Some(record.peer_id@),
        text_member_of(json_of(answer), "task_id"@) == Some(record.task_id@),
        text_member_of(json_of(answer), "correlation_id"@) == Some(record.correlation_id@),
        member_of(json_of(answer), "task"@) == Some(json_of(record.result)),
{
    lemma_member_names();
}

/// A result that wraps a task gives the same task as the task by itself.
pub proof fn law_wrapped_task_is_the_same(task: JsonView)
    requires
        member_of(task, "task"@) is None,
    ensures
        task_in_result(JsonView::Object(map!["task"@ => task])) == task,
        task_in_result(task) == task,
        remote_task_of(JsonView::Object(map!["task"@ => task])) is Ok == remote_task_of(task) is Ok,
        remote_task_of(task) is Ok ==> remote_task_of(JsonView::Object(map!["task"@ => task]))
            == remote_task_of(task),
        remote_task_of(task) is Ok <==> task_of_value(task) is Some,
        remote_task_of(task) is Ok ==> Some(remote_task_of(task)->Ok_0) == task_of_value(task),
{
    assert(member_of(JsonView::Object(map!["task"@ => task]), "task"@) == Some(task));
}

/// The request that sends a user's text to an agent carries the text in its message,
/// under the ids that are given, and asks for the way in which to answer.
pub proof fn law_request_carries_the_text(
    answering: Answering,
    message_id: &str,
    message: &str,
    context_id: &Option<String>,
    body: Result<String, String>,
)
    requires
        call_ensures(send_message_body, (answering, message_id, message, context_id), body),
    ensures
        body is Ok,
        parsed_json(body->Ok_0@) is Ok,
        ({
            let request = parsed_json(body->Ok_0@)->Ok_0;
            let params = member_of(request, "params"@)->0;
            let sent = member_of(params, "message"@)->0;
            &&& text_member_of(request, "jsonrpc"@) == Some("2.0"@)
            &&& text_member_of(request, "method"@) == Some(
                match answering {
                    Answering::AtOnce => "SendMessage"@,
                    Answering::AsStream => "SendStreamingMessage"@,
                },
            )
            &&& member_of(request, "params"@) is Some
            &&& member_of(params, "message"@) is Some
            &&& text_member_of(params, "contextId"@) == optional_chars(*context_id)
            &&& text_member_of(sent, "messageId"@) == Some(message_id@)
            &&& text_member_of(sent, "role"@) == Some("ROLE_USER"@)
            &&& items_member(sent, "parts"@).len() == 1
            &&& text_member_of(items_member(sent, "parts"@)[0], "text"@) == Some(message@)
            &&& crate::acp::message_text_of(sent) == Some(message@)
        }),
{
    lemma_member_names();
    reveal_with_fuel(crate::acp::first_text, 2);
}

/// A call that is refused says which argument is missing, the first of those that the
/// tool needs, or that there is no such tool.
pub proof fn law_refused_call_says_why(
    name: &str,
    args: &serde_json::Map<String, serde_json::Value>,
    call: Result<ToolCall, String>,
)
    requires
        call_ensures(parse_tool_call, (name, args), call),
        call is Err,
    ensures
        !tool_names().contains(name@) ==> call->Err_0@ == "unknown A2A MCP tool `"@ + name@ + "`"@,
        tool_names().contains(name@) && !has_text(members_of(*args), "agent_id"@)
            ==> call->Err_0@ == "missing required string argument `"@ + "agent_id"@ + "`"@,
        name@ == "send_message"@ && has_text(members_of(*args), "agent_id"@) ==> call->Err_0@
            == "missing required string argument `"@ + "message"@ + "`"@,
        name@ == "get_task"@ && has_text(members_of(*args), "agent_id"@) ==> call->Err_0@
            == "missing required string argument `"@ + "task_id"@ + "`"@,
        (name@ == "view_text_artifact"@ || name@ == "view_data_artifact"@) && has_text(
            members_of(*args),
            "agent_id"@,
        ) && has_text(members_of(*args), "task_id"@) ==> call->Err_0@
            == "missing required string argument `"@ + "artifact_id"@ + "`"@,
{
    lemma_tool_names();
    lemma_member_names();
    let names = tool_names();
    assert(names[0] == "get_agents"@);
    assert(names[1] == "get_agent"@);
    assert(names[2] == "send_message"@);
    assert(names[3] == "get_task"@);
    assert(names[4] == "view_text_artifact"@);
    assert(names[5] == "view_data_artifact"@);
}

/// A task that is looked for among those of other nodes and not found is refused with
/// what was looked for, under which id and for which agent. Where there is a record
/// that holds no task, the refusal names the task.
pub proof fn law_missing_task_is_named(
    cache: &RemoteTaskCache,
    kind: &str,
    agent_id: &str,
    task_id: &str,
    task: Result<Task, String>,
    missing: String,
)
    requires
        call_ensures(remote_task, (cache, kind, agent_id, task_id), task),
        call_ensures(task_missing, (kind, agent_id, task_id), missing),
    ensures
        missing@ == kind@ + " `"@ + task_id@ + "` was not found for agent `"@ + agent_id@ + "`"@,
        task_found(cache.tasks@, agent_id@, task_id@) is None ==> task is Err && task->Err_0@
            == missing@,
        task_found(cache.tasks@, agent_id@, task_id@) is Some && task is Err ==> task->Err_0@
            == "failed to decode remote task `"@ + task_id@ + "`"@,
{
}

/// An agent that is refused is named, with why: it is switched off, or there is none.
pub proof fn law_refused_agent_is_named<'a>(
    registry: &'a AgentRegistry,
    agent_id: &str,
    agent: Result<&'a AgentDefinition, String>,
    cache: &'a RemoteAgentCache,
    ad: Result<&'a RemoteAgentAd, String>,
)
    requires
        call_ensures(enabled_agent, (registry, agent_id), agent),
        call_ensures(remote_agent, (cache, agent_id), ad),
    ensures
        agent is Err && agent_named(registry@, agent_id@) is Some ==> agent->Err_0@ == "agent `"@
            + agent_id@ + "` is disabled"@,
        agent is Err && agent_named(registry@, agent_id@) is None ==> agent->Err_0@ == "agent `"@
            + agent_id@ + "` was not found"@,
        ad is Err ==> ad->Err_0@ == "agent `"@ + agent_id@ + "` was not found"@,
        ad is Ok ==> ad->Ok_0.agent_id@ == agent_id@ && cache.agents@.contains(*ad->Ok_0),
{
    lemma_ad_named(cache.agents@, agent_id@);
}

/// A task is here exactly where the first agent by the id is this node's and is
/// switched on.
pub proof fn law_where_a_task_is(
    registry: &Result<AgentRegistry, String>,
    agent_id: &str,
    here: bool,
)
    requires
        call_ensures(task_is_here, (registry, agent_id), here),
    ensures
        *registry is Err ==> !here,
        *registry is Ok ==> (here <==> exists|i: int|
            #![trigger (*registry)->Ok_0@[i]]
            is_first_agent((*registry)->Ok_0@, i, agent_id@)
                && (*registry)->Ok_0@[i].runtime.enabled),
{
    if let Ok(registry) = *registry {
        lemma_agent_named(registry@, agent_id@);
    }
}

/// A result that holds no task is refused, and the refusal says whether it was looked
/// for under `task` or was the result itself.
pub proof fn law_undecoded_task_says_where(value: &serde_json::Value, task: Result<Task, String>)
    requires
        call_ensures(decode_remote_task, (value,), task),
        task is Err,
    ensures
        member_of(json_of(*value), "task"@) is Some ==> task->Err_0@
            == "failed to decode wrapped task"@,
        member_of(json_of(*value), "task"@) is None ==> task->Err_0@ == "failed to decode task"@,
{
}

} // verus!
