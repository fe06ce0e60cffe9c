//! The decisions of the mesh plugin: what a message on the agents channel leads
//! to, and what the plugin's tools answer.

use vstd::prelude::*;

#[allow(unused_imports)]
use crate::artifacts::{
    artifact_id_of, data_artifact, json_result, jsons_result, law_data_artifact_holds_its_data,
};
use crate::json::{
    array, as_items, bool_value, get, member_text, no_members, object, text_value, with,
};
#[allow(unused_imports)]
use crate::json::{
    items_member, json_of, jsons, member_of, optional_chars, text_member_of, text_member_or_empty,
    JsonView,
};
use crate::mesh::{
    MeshProtocolMessage, RemoteAgentAd, RemoteAgentCache, RemoteSendMessageRequest,
    RemoteSendMessageResponse, RemoteTaskCache, RemoteTaskRecord,
};
#[allow(unused_imports)]
use crate::mesh::{
    ad_named, answers, is_pending_record, law_taken_in_task_is_found, same_task, task_found,
    tasks_with,
};
#[allow(unused_imports)]
use crate::names::lemma_member_names;
use crate::registry::{AgentDefinition, AgentRegistry};
#[allow(unused_imports)]
use crate::registry::agent_named;
use crate::stream::stream_outcome;
#[allow(unused_imports)]
use crate::stream::outcome_of;
#[allow(unused_imports)]
use crate::task_store::task_result;
use crate::text::{blank, chars_of, decimal_text, plus, same_text};
#[allow(unused_imports)]
use crate::text::{decimal, has_prefix, has_suffix, is_blank, lemma_decimal, texts};
use crate::tools::{
    local_agent, remote_agent, remote_agent_answer, remote_task, remote_task_answer,
    runtime_summary, task_answer, task_missing,
};
#[allow(unused_imports)]
use crate::tools::{
    disabled, found_unreserved, is_first_agent, known_ads, known_remote_task, lemma_ad_named,
    lemma_agent_named, no_remote_task, not_found, remote_agent_document, remote_task_document,
    runtime_document, task_document, task_in_result, task_missing_of, tells_runtime, tool_names,
};
use crate::wire::Task;
#[allow(unused_imports)]
use crate::wire::{document_of, state_name, status_in, TaskState, TaskView};

verus! {

/// The name under which the plugin runs unless it is told another.
pub const DEFAULT_PLUGIN_NAME: &'static str = "agents";

/// What is given, or the plugin's default name where that is nothing or blank.
pub open spec fn name_or_default(given: Option<Seq<char>>) -> Seq<char> {
    match given {
        Some(name) => if is_blank(name) {
            "agents"@
        } else {
            name
        },
        None => "agents"@,
    }
}

pub fn plugin_name(given: Option<String>) -> (name: String)
    ensures
        name@ == name_or_default(optional_chars(given)),
{
    match given {
        Some(name) => if blank(name.as_str()) {
            "agents".to_string()
        } else {
            name
        },
        None => "agents".to_string(),
    }
}

/// The MCP server that the plugin has the host start.
#[derive(Clone, Debug)]
pub struct PluginEndpoint {
    pub id: String,
    pub command: String,
    pub args: Vec<String>,
    pub namespace: String,
}

/// A tool of the plugin.
#[derive(Clone, Debug)]
pub struct PluginOperation {
    pub name: String,
    pub description: String,
}

/// What the plugin tells the host of itself.
#[derive(Clone, Debug)]
pub struct PluginManifest {
    pub name: String,
    pub capabilities: Vec<String>,
    pub channels: Vec<String>,
    pub endpoint: PluginEndpoint,
    pub operations: Vec<PluginOperation>,
    pub health: String,
}

/// The tools of the plugin, with what they are for.
pub open spec fn plugin_operations() -> Seq<(Seq<char>, Seq<char>)> {
    seq![
        ("get_agents"@, "List local and mesh-discovered A2A agents."@),
        ("get_agent"@, "Get one local or mesh-discovered A2A Agent Card."@),
        ("send_message"@, "Send a user message to a local or mesh-discovered A2A agent."@),
        ("get_task"@, "Read one persisted local or remote A2A task."@),
        ("view_text_artifact"@, "Read text content from an A2A task artifact."@),
        ("view_data_artifact"@, "Read structured data for an A2A task artifact."@),
    ]
}

impl View for PluginOperation {
    type V = (Seq<char>, Seq<char>);

    open spec fn view(&self) -> (Seq<char>, Seq<char>) {
        (self.name@, self.description@)
    }
}

fn operation(name: &str, description: &str) -> (operation: PluginOperation)
    ensures
        operation@ == (name@, description@),
{
    PluginOperation { name: name.to_string(), description: description.to_string() }
}

fn operations() -> (operations: Vec<PluginOperation>)
    ensures
        operations@.map_values(|operation: PluginOperation| operation@) == plugin_operations(),
{
    let operations = vec![
        operation("get_agents", "List local and mesh-discovered A2A agents."),
        operation("get_agent", "Get one local or mesh-discovered A2A Agent Card."),
        operation(
            "send_message",
            "Send a user message to a local or mesh-discovered A2A agent.",
        ),
        operation("get_task", "Read one persisted local or remote A2A task."),
        operation("view_text_artifact", "Read text content from an A2A task artifact."),
        operation("view_data_artifact", "Read structured data for an A2A task artifact."),
    ];
    assert(operations@.map_values(|operation: PluginOperation| operation@)
        =~= plugin_operations());
    operations
}

/// What the plugin tells the host of itself: what it can do, the channel it speaks
/// on, the MCP server that the command starts, and its tools.
pub fn plugin_manifest(name: String, command: String) -> (manifest: PluginManifest)
    ensures
        manifest.name == name,
        texts(manifest.capabilities@) == seq![
            "agents:a2a"@,
            "endpoint:mcp"@,
            "endpoint:mcp/a2a"@,
            "agents:mesh-discovery"@,
        ],
        texts(manifest.channels@) == seq!["agents.discovery.v1"@],
        manifest.endpoint.id@ == "mcp"@,
        manifest.endpoint.command == command,
        texts(manifest.endpoint.args@) == seq!["mcp"@],
        manifest.endpoint.namespace@ == "a2a"@,
        manifest.operations@.map_values(|operation: PluginOperation| operation@)
            == plugin_operations(),
        manifest.health@ == "mcp=agents mcp mesh_channel=agents.discovery.v1"@,
{
    let capabilities = vec![
        "agents:a2a".to_string(),
        "endpoint:mcp".to_string(),
        "endpoint:mcp/a2a".to_string(),
        "agents:mesh-discovery".to_string(),
    ];
    let channels = vec!["agents.discovery.v1".to_string()];
    let args = vec!["mcp".to_string()];
    assert(texts(capabilities@) =~= seq![
        "agents:a2a"@,
        "endpoint:mcp"@,
        "endpoint:mcp/a2a"@,
        "agents:mesh-discovery"@,
    ]);
    assert(texts(channels@) =~= seq!["agents.discovery.v1"@]);
    assert(texts(args@) =~= seq!["mcp"@]);
    PluginManifest {
        name: name,
        capabilities: capabilities,
        channels: channels,
        endpoint: PluginEndpoint {
            id: "mcp".to_string(),
            command: command,
            args: args,
            namespace: "a2a".to_string(),
        },
        operations: operations(),
        health: "mcp=agents mcp mesh_channel=agents.discovery.v1".to_string(),
    }
}

/// The plugin and the MCP server have the same tools, in the same order.
pub proof fn law_plugin_has_the_same_tools()
    ensures
        plugin_operations().map_values(|operation: (Seq<char>, Seq<char>)| operation.0)
            == tool_names(),
{
    assert(plugin_operations().map_values(|operation: (Seq<char>, Seq<char>)| operation.0)
        =~= tool_names());
}

/// What a message on the agents channel leads to.
#[derive(Debug)]
pub enum ChannelStep {
    /// Take in what another node says of its agents.
    TakeInAgents(Vec<RemoteAgentAd>),
    /// Run a task for another node and send the answer back.
    RunTask(RemoteSendMessageRequest),
    /// Take in the answer of another node.
    TakeInTask(RemoteTaskRecord),
    /// Another node could not run a task.
    Fail(String),
}

/// An advertisement with the peer that sent it, where it names none.
pub open spec fn attributed(ad: RemoteAgentAd, sent: RemoteAgentAd, source: Seq<char>) -> bool {
    &&& ad.peer_id@ == if sent.peer_id@.len() == 0 {
        source
    } else {
        sent.peer_id@
    }
    &&& ad == RemoteAgentAd { peer_id: ad.peer_id, ..sent }
}

pub open spec fn all_attributed(
    ads: Seq<RemoteAgentAd>,
    sent: Seq<RemoteAgentAd>,
    source: Seq<char>,
) -> bool {
    &&& ads.len() == sent.len()
    &&& forall|i: int| 0 <= i < sent.len() ==> attributed(ads[i], #[trigger] sent[i], source)
}

fn attribute_all(sent: Vec<RemoteAgentAd>, source: &str) -> (ads: Vec<RemoteAgentAd>)
    ensures
        all_attributed(ads@, sent@, source@),
{
    let ghost all = sent@;
    let mut rest = sent;
    let mut ads: Vec<RemoteAgentAd> = Vec::new();
    assert(all.skip(0) =~= all);
    while rest.len() > 0
        invariant
            ads@.len() <= all.len(),
            rest@ == all.skip(ads@.len() as int),
            forall|i: int|
                0 <= i < ads@.len() ==> attributed(ads@[i], #[trigger] all[i], source@),
        decreases rest@.len(),
    {
        let ghost done = ads@.len() as int;
        let mut ad = rest.remove(0);
        let ghost given = ad;
        assert(all.skip(done).remove(0) =~= all.skip(done + 1));
        assert(given == all[done]);
        if chars_of(ad.peer_id.as_str()).len() == 0 {
            ad.peer_id = source.to_string();
        }
        assert(attributed(ad, given, source@));
        ads.push(ad);
    }
    ads
}

/// The record that another node's answer makes.
pub open spec fn is_answer_record(
    record: RemoteTaskRecord,
    response: RemoteSendMessageResponse,
    source_peer_id: Seq<char>,
    correlation_id: Seq<char>,
    now_ms: u64,
) -> bool {
    &&& record.agent_id@ == response.agent_id@
    &&& record.task_id@ == response.task_id@
    &&& record.peer_id@ == source_peer_id
    &&& record.correlation_id@ == correlation_id
    &&& json_of(record.result) == json_of(response.result)
    &&& record.updated_at_ms == now_ms
}

/// Messages on other channels are passed over.
pub fn on_agents_channel(channel: &str) -> (yes: bool)
    ensures
        yes == (channel@ == "agents.discovery.v1"@),
{
    same_text(channel, "agents.discovery.v1")
}

/// What a message on the agents channel leads to.
pub fn channel_step(
    message: MeshProtocolMessage,
    source_peer_id: &str,
    correlation_id: &str,
    now_ms: u64,
) -> (step: ChannelStep)
    ensures
        match message {
            MeshProtocolMessage::Advertise { agents } => match step {
                ChannelStep::TakeInAgents(ads) => all_attributed(
                    ads@,
                    agents@,
                    source_peer_id@,
                ),
                _ => false,
            },
            MeshProtocolMessage::SendMessageRequest(request) => step == ChannelStep::RunTask(
                request,
            ),
            MeshProtocolMessage::SendMessageResponse(response) => match response.error {
                Some(error) => match step {
                    ChannelStep::Fail(message) => message@ == "remote agent `"@
                        + response.agent_id@ + "` returned an error: "@ + error@,
                    _ => false,
                },
                None => match step {
                    ChannelStep::TakeInTask(record) => is_answer_record(
                        record,
                        response,
                        source_peer_id@,
                        correlation_id@,
                        now_ms,
                    ),
                    _ => false,
                },
            },
        },
{
    match message {
        MeshProtocolMessage::Advertise { agents } => {
            ChannelStep::TakeInAgents(attribute_all(agents, source_peer_id))
        },
        MeshProtocolMessage::SendMessageRequest(request) => ChannelStep::RunTask(request),
        MeshProtocolMessage::SendMessageResponse(response) => {
            if let Some(error) = &response.error {
                let opened = plus("remote agent `".to_string(), response.agent_id.as_str());
                return ChannelStep::Fail(
                    plus(plus(opened, "` returned an error: "), error.as_str()),
                );
            }
            ChannelStep::TakeInTask(
                RemoteTaskRecord {
                    agent_id: response.agent_id,
                    task_id: response.task_id,
                    peer_id: source_peer_id.to_string(),
                    correlation_id: correlation_id.to_string(),
                    result: response.result,
                    updated_at_ms: now_ms,
                },
            )
        },
    }
}

/// The answer to another node: the result with the task's id, or the error.
pub open spec fn is_response_to(
    response: RemoteSendMessageResponse,
    agent_id: Seq<char>,
    outcome: Result<JsonView, Seq<char>>,
) -> bool {
    &&& response.agent_id@ == agent_id
    &&& match outcome {
        Ok(result) => {
            &&& response.task_id@ == text_member_or_empty(task_in_result(result), "id"@)
            &&& json_of(response.result) == result
            &&& response.error is None
        },
        Err(error) => {
            &&& response.task_id@.len() == 0
            &&& json_of(response.result) == JsonView::Object(crate::json::empty_members())
            &&& optional_chars(response.error) == Some(error)
        },
    }
}

/// The answer to another node that asked for a task.
pub fn send_message_response(
    agent_id: String,
    outcome: Result<serde_json::Value, String>,
) -> (response: RemoteSendMessageResponse)
    ensures
        is_response_to(response, agent_id@, json_result(outcome)),
{
    match outcome {
        Ok(result) => {
            let task_id = match get(&result, "task") {
                Some(task) => member_text(task, "id"),
                None => member_text(&result, "id"),
            };
            RemoteSendMessageResponse {
                agent_id: agent_id,
                task_id: task_id,
                result: result,
                error: None,
            }
        },
        Err(error) => RemoteSendMessageResponse {
            agent_id: agent_id,
            task_id: String::new(),
            result: object(no_members()),
            error: Some(error),
        },
    }
}

/// What the plugin tells of an agent of this node: its card, and how it is run.
pub open spec fn local_card_document(agent: AgentDefinition) -> JsonView {
    JsonView::Object(
        map![
            "agent_id"@ => JsonView::Text(agent.id@),
            "location"@ => JsonView::Text("local"@),
            "agent_card"@ => json_of(agent.card.document),
            "runtime"@ => runtime_document(agent),
        ],
    )
}

fn local_card_answer(agent: &AgentDefinition) -> (answer: serde_json::Value)
    ensures
        json_of(answer) == local_card_document(*agent),
{
    let members = with(no_members(), "agent_id", text_value(agent.id.as_str()));
    let members = with(members, "location", text_value("local"));
    let members = with(members, "agent_card", agent.card.document.clone());
    object(with(members, "runtime", runtime_summary(agent)))
}

/// What the plugin's `get_agent` tells.
pub open spec fn plugin_agent_document(
    agents: Seq<AgentDefinition>,
    ads: Result<Seq<RemoteAgentAd>, Seq<char>>,
    agent_id: Seq<char>,
) -> Result<JsonView, Seq<char>> {
    match agent_named(agents, agent_id) {
        Some(agent) => if agent.runtime.enabled {
            Ok(local_card_document(agent))
        } else {
            Err(disabled(agent_id))
        },
        None => match ads {
            Ok(ads) => match ad_named(ads, agent_id) {
                Some(ad) => Ok(remote_agent_document(ad)),
                None => Err(not_found(agent_id)),
            },
            Err(error) => Err(error),
        },
    }
}

pub fn plugin_get_agent(
    registry: &AgentRegistry,
    cache: &Result<RemoteAgentCache, String>,
    agent_id: &str,
) -> (answer: Result<serde_json::Value, String>)
    ensures
        json_result(answer) == plugin_agent_document(registry@, known_ads(*cache), agent_id@),
{
    match local_agent(registry, agent_id) {
        Ok(Some(agent)) => Ok(local_card_answer(agent)),
        Ok(None) => match cache {
            Ok(cache) => match remote_agent(cache, agent_id) {
                Ok(ad) => Ok(remote_agent_answer(ad)),
                Err(error) => Err(error),
            },
            Err(error) => Err(error.clone()),
        },
        Err(error) => Err(error),
    }
}

/// Where a message to an agent goes.
#[derive(Debug)]
pub enum SendRoute<'a> {
    Local(&'a AgentDefinition),
    Remote(&'a RemoteAgentAd),
}

/// A message goes to the agent of this node by the id, or else to another node's.
pub fn send_route<'a>(
    registry: &'a AgentRegistry,
    cache: &'a Result<RemoteAgentCache, String>,
    agent_id: &str,
) -> (route: Result<SendRoute<'a>, String>)
    ensures
        match agent_named(registry@, agent_id@) {
            Some(agent) => match route {
                Ok(SendRoute::Local(found)) => *found == agent && agent.runtime.enabled,
                Ok(SendRoute::Remote(_)) => false,
                Err(error) => !agent.runtime.enabled && error@ == disabled(agent_id@),
            },
            None => match known_ads(*cache) {
                Ok(ads) => match route {
                    Ok(SendRoute::Remote(ad)) => ad_named(ads, agent_id@) == Some(*ad),
                    Ok(SendRoute::Local(_)) => false,
                    Err(error) => ad_named(ads, agent_id@) is None && error@ == not_found(
                        agent_id@,
                    ),
                },
                Err(error) => route is Err && route->Err_0@ == error,
            },
        },
{
    match local_agent(registry, agent_id) {
        Ok(Some(agent)) => Ok(SendRoute::Local(agent)),
        Ok(None) => match cache {
            Ok(cache) => match remote_agent(cache, agent_id) {
                Ok(ad) => Ok(SendRoute::Remote(ad)),
                Err(error) => Err(error),
            },
            Err(error) => Err(error.clone()),
        },
        Err(error) => Err(error),
    }
}

/// The result of a task that was sent off and not answered yet.
pub open spec fn pending_result(
    agent_id: Seq<char>,
    correlation_id: Seq<char>,
    peer_id: Seq<char>,
) -> JsonView {
    JsonView::Object(
        map![
            "task"@ => JsonView::Object(
                map![
                    "id"@ => JsonView::Text(correlation_id),
                    "contextId"@ => JsonView::Text(correlation_id),
                    "status"@ => JsonView::Object(
                        map!["state"@ => JsonView::Text("TASK_STATE_SUBMITTED"@)],
                    ),
                    "metadata"@ => JsonView::Object(
                        map![
                            "mesh_llm_pending_remote"@ => JsonView::Bool(true),
                            "agent_id"@ => JsonView::Text(agent_id),
                            "peer_id"@ => JsonView::Text(peer_id),
                            "correlation_id"@ => JsonView::Text(correlation_id),
                        ],
                    ),
                ],
            ),
        ],
    )
}

pub fn pending_remote_task_result(agent_id: &str, correlation_id: &str, peer_id: &str) -> (result:
    serde_json::Value)
    ensures
        json_of(result) == pending_result(agent_id@, correlation_id@, peer_id@),
{
    let status = object(with(no_members(), "state", text_value("TASK_STATE_SUBMITTED")));
    let metadata = with(no_members(), "mesh_llm_pending_remote", bool_value(true));
    let metadata = with(metadata, "agent_id", text_value(agent_id));
    let metadata = with(metadata, "peer_id", text_value(peer_id));
    let metadata = with(metadata, "correlation_id", text_value(correlation_id));
    let task = with(no_members(), "id", text_value(correlation_id));
    let task = with(task, "contextId", text_value(correlation_id));
    let task = with(task, "status", status);
    let task = with(task, "metadata", object(metadata));
    object(with(no_members(), "task", object(task)))
}

/// What is answered for a task that was sent off and not answered yet.
pub open spec fn pending_document(
    agent_id: Seq<char>,
    correlation_id: Seq<char>,
    peer_id: Seq<char>,
) -> JsonView {
    JsonView::Object(
        map![
            "agent_id"@ => JsonView::Text(agent_id),
            "location"@ => JsonView::Text("remote"@),
            "peer_id"@ => JsonView::Text(peer_id),
            "task_id"@ => JsonView::Text(correlation_id),
            "correlation_id"@ => JsonView::Text(correlation_id),
            "status"@ => JsonView::Text("submitted"@),
            "result"@ => pending_result(agent_id, correlation_id, peer_id),
            "note"@ => JsonView::Text(
                "task_id is a followable pending task reference; agents.get_task will resolve it to the final A2A task after the owner node replies"@,
            ),
        ],
    )
}

pub fn pending_answer(agent_id: &str, correlation_id: &str, peer_id: &str) -> (answer:
    serde_json::Value)
    ensures
        json_of(answer) == pending_document(agent_id@, correlation_id@, peer_id@),
{
    let result = pending_remote_task_result(agent_id, correlation_id, peer_id);
    let members = with(no_members(), "agent_id", text_value(agent_id));
    let members = with(members, "location", text_value("remote"));
    let members = with(members, "peer_id", text_value(peer_id));
    let members = with(members, "task_id", text_value(correlation_id));
    let members = with(members, "correlation_id", text_value(correlation_id));
    let members = with(members, "status", text_value("submitted"));
    let members = with(members, "result", result);
    object(
        with(
            members,
            "note",
            text_value(
                "task_id is a followable pending task reference; agents.get_task will resolve it to the final A2A task after the owner node replies",
            ),
        ),
    )
}

/// The id that ties an answer to what was sent at a time.
pub open spec fn correlation_id_at(now_ms: u64) -> Seq<char> {
    "remote-"@ + decimal(now_ms as nat)
}

pub fn remote_correlation_id(now_ms: u64) -> (id: String)
    ensures
        id@ == correlation_id_at(now_ms),
{
    plus("remote-".to_string(), decimal_text(now_ms as u128).as_str())
}

/// A message that is handed over to another node: what is sent to the node, the id
/// that ties its answer to it, what is kept of the task until then, and what is
/// answered meanwhile.
#[derive(Debug)]
pub struct HandOver {
    pub request: RemoteSendMessageRequest,
    pub correlation_id: String,
    pub result: serde_json::Value,
    pub answer: serde_json::Value,
}

/// Hands a message over to the node of an agent.
pub fn hand_over(
    agent_id: &str,
    message: &str,
    context_id: &Option<String>,
    peer_id: &str,
    now_ms: u64,
) -> (sent: HandOver)
    ensures
        sent.request.agent_id@ == agent_id@,
        sent.request.message@ == message@,
        optional_chars(sent.request.context_id) == optional_chars(*context_id),
        sent.correlation_id@ == correlation_id_at(now_ms),
        json_of(sent.result) == pending_result(agent_id@, correlation_id_at(now_ms), peer_id@),
        json_of(sent.answer) == pending_document(agent_id@, correlation_id_at(now_ms), peer_id@),
{
    let correlation_id = remote_correlation_id(now_ms);
    let result = pending_remote_task_result(agent_id, correlation_id.as_str(), peer_id);
    let answer = pending_answer(agent_id, correlation_id.as_str(), peer_id);
    HandOver {
        request: RemoteSendMessageRequest {
            agent_id: agent_id.to_string(),
            message: message.to_string(),
            context_id: context_id.clone(),
        },
        correlation_id: correlation_id,
        result: result,
        answer: answer,
    }
}

/// A task that was handed over can be followed by the id that is answered for it:
/// it leads to what is kept of the task, and that is a task that was submitted.
pub proof fn law_handed_over_task_can_be_followed(
    tasks: Seq<RemoteTaskRecord>,
    pending: RemoteTaskRecord,
    agent_id: Seq<char>,
    peer_id: Seq<char>,
    now_ms: u64,
)
    requires
        is_pending_record(
            pending,
            agent_id,
            peer_id,
            correlation_id_at(now_ms),
            pending_result(agent_id, correlation_id_at(now_ms), peer_id),
            now_ms,
        ),
    ensures
        text_member_of(
            pending_document(agent_id, correlation_id_at(now_ms), peer_id),
            "task_id"@,
        ) == Some(correlation_id_at(now_ms)),
        task_found(tasks_with(tasks, pending), agent_id, correlation_id_at(now_ms)) == Some(
            pending,
        ),
        text_member_of(task_in_result(json_of(pending.result)), "id"@) == Some(
            correlation_id_at(now_ms),
        ),
        text_member_of(
            status_in(task_in_result(json_of(pending.result))),
            "state"@,
        ) == Some(state_name(TaskState::Submitted)),
{
    reveal_strlit("agent_id");
    reveal_strlit("location");
    reveal_strlit("peer_id");
    reveal_strlit("task_id");
    reveal_strlit("correlation_id");
    reveal_strlit("status");
    reveal_strlit("result");
    reveal_strlit("note");
    reveal_strlit("id");
    reveal_strlit("contextId");
    reveal_strlit("metadata");
    assert("task_id"@.len() == 7 && "task_id"@[0] == 't');
    assert("peer_id"@.len() == 7 && "peer_id"@[0] == 'p');
    assert("agent_id"@.len() == 8);
    assert("location"@.len() == 8);
    assert("correlation_id"@.len() == 14);
    assert("status"@.len() == 6);
    assert("result"@.len() == 6);
    assert("note"@.len() == 4);
    assert("id"@.len() == 2);
    assert("contextId"@.len() == 9);
    assert("metadata"@.len() == 8);
    law_taken_in_task_is_found(tasks, pending, correlation_id_at(now_ms));
}

/// The id of a stream to an agent that is opened at a time.
pub fn remote_stream_id(agent_id: &str, now_ms: u64) -> (id: String)
    ensures
        id@ == "a2a-"@ + agent_id@ + "-"@ + decimal(now_ms as nat),
{
    let opened = plus(plus("a2a-".to_string(), agent_id), "-");
    plus(opened, decimal_text(now_ms as u128).as_str())
}

/// The request that comes with a stream that another node opens. Only event
/// streams are accepted, and only with a request.
pub fn opened_stream_request(event_stream: bool, metadata: Option<String>) -> (request: Result<
    String,
    String,
>)
    ensures
        match request {
            Ok(text) => event_stream && optional_chars(metadata) == Some(text@),
            Err(error) => if !event_stream {
                error@ == "agents only accepts event stream mesh streams"@
            } else {
                metadata is None && error@ == "agents mesh stream request is missing metadata"@
            },
        },
{
    if !event_stream {
        return Err("agents only accepts event stream mesh streams".to_string());
    }
    match metadata {
        Some(text) => Ok(text),
        None => Err("agents mesh stream request is missing metadata".to_string()),
    }
}

/// What is answered for a message that was sent as a stream.
pub open spec fn stream_document(
    agent_id: Seq<char>,
    peer_id: Seq<char>,
    correlation_id: Seq<char>,
    outcome: JsonView,
    events: Seq<JsonView>,
) -> JsonView {
    JsonView::Object(
        map![
            "agent_id"@ => JsonView::Text(agent_id),
            "location"@ => JsonView::Text("remote"@),
            "peer_id"@ => JsonView::Text(peer_id),
            "transport"@ => JsonView::Text("mesh_stream"@),
            "task_id"@ => JsonView::Text(text_member_or_empty(outcome, "id"@)),
            "correlation_id"@ => JsonView::Text(correlation_id),
            "result"@ => outcome,
            "events"@ => JsonView::Array(events),
        ],
    )
}

/// What is answered for a message that was sent as a stream, and the record that
/// is kept of its task. An outcome without an id leaves no record.
pub fn stream_answer(
    agent_id: &str,
    peer_id: &str,
    correlation_id: &str,
    outcome: serde_json::Value,
    events: Vec<serde_json::Value>,
    now_ms: u64,
) -> (answer: (serde_json::Value, Option<RemoteTaskRecord>))
    ensures
        json_of(answer.0) == stream_document(
            agent_id@,
            peer_id@,
            correlation_id@,
            json_of(outcome),
            jsons(events@),
        ),
        answer.1 is Some <==> text_member_or_empty(json_of(outcome), "id"@).len() > 0,
        answer.1 is Some ==> is_stream_record(
            answer.1->0,
            agent_id@,
            peer_id@,
            correlation_id@,
            json_of(outcome),
            now_ms,
        ),
{
    let task_id = member_text(&outcome, "id");
    let record = if chars_of(task_id.as_str()).len() > 0 {
        Some(
            RemoteTaskRecord {
                agent_id: agent_id.to_string(),
                task_id: task_id.clone(),
                peer_id: peer_id.to_string(),
                correlation_id: correlation_id.to_string(),
                result: outcome.clone(),
                updated_at_ms: now_ms,
            },
        )
    } else {
        None
    };
    let members = with(no_members(), "agent_id", text_value(agent_id));
    let members = with(members, "location", text_value("remote"));
    let members = with(members, "peer_id", text_value(peer_id));
    let members = with(members, "transport", text_value("mesh_stream"));
    let members = with(members, "task_id", text_value(task_id.as_str()));
    let members = with(members, "correlation_id", text_value(correlation_id));
    let members = with(members, "result", outcome);
    (object(with(members, "events", array(events))), record)
}

/// The record is kept of the task that a stream ended on.
pub open spec fn is_stream_record(
    record: RemoteTaskRecord,
    agent_id: Seq<char>,
    peer_id: Seq<char>,
    correlation_id: Seq<char>,
    outcome: JsonView,
    now_ms: u64,
) -> bool {
    &&& record.agent_id@ == agent_id
    &&& record.task_id@ == text_member_or_empty(outcome, "id"@)
    &&& record.peer_id@ == peer_id
    &&& record.correlation_id@ == correlation_id
    &&& json_of(record.result) == outcome
    &&& record.updated_at_ms == now_ms
}

/// What a message that was sent as a stream comes to: an answer and the record that
/// is kept, or the error that ended the stream.
pub fn stream_reply(
    agent_id: &str,
    peer_id: &str,
    correlation_id: &str,
    events: Result<Vec<serde_json::Value>, String>,
    now_ms: u64,
) -> (reply: Result<(serde_json::Value, Option<RemoteTaskRecord>), String>)
    ensures
        match jsons_result(events) {
            Err(error) => reply is Err && reply->Err_0@ == error,
            Ok(events) => match outcome_of(events) {
                Err(error) => reply is Err && reply->Err_0@ == error,
                Ok(outcome) => {
                    &&& reply is Ok
                    &&& json_of(reply->Ok_0.0) == stream_document(
                        agent_id@,
                        peer_id@,
                        correlation_id@,
                        outcome,
                        events,
                    )
                    &&& reply->Ok_0.1 is Some <==> text_member_or_empty(outcome, "id"@).len() > 0
                    &&& reply->Ok_0.1 is Some ==> is_stream_record(
                        reply->Ok_0.1->0,
                        agent_id@,
                        peer_id@,
                        correlation_id@,
                        outcome,
                        now_ms,
                    )
                },
            },
        },
{
    match events {
        Ok(events) => match stream_outcome(&events) {
            Ok(outcome) => Ok(
                stream_answer(agent_id, peer_id, correlation_id, outcome, events, now_ms),
            ),
            Err(error) => Err(error),
        },
        Err(error) => Err(error),
    }
}

/// What the plugin's `get_task` answers: a task that this node stores, or else
/// what is known of another node's.
pub open spec fn plugin_task_document(
    stored: Option<Task>,
    tasks: Result<Seq<RemoteTaskRecord>, Seq<char>>,
    agent_id: Seq<char>,
    task_id: Seq<char>,
) -> Result<JsonView, Seq<char>> {
    match stored {
        Some(task) => Ok(task_document(agent_id, Some("local"@), document_of(task@))),
        None => match tasks {
            Ok(tasks) => match task_found(tasks, agent_id, task_id) {
                Some(record) => Ok(remote_task_document(agent_id, record)),
                None => Err(task_missing_of("task"@, agent_id, task_id)),
            },
            Err(error) => Err(error),
        },
    }
}

pub open spec fn known_tasks(cache: Result<RemoteTaskCache, String>) -> Result<
    Seq<RemoteTaskRecord>,
    Seq<char>,
> {
    match cache {
        Ok(cache) => Ok(cache.tasks@),
        Err(error) => Err(error@),
    }
}

pub fn plugin_get_task(
    stored: &Option<Task>,
    cache: &Result<RemoteTaskCache, String>,
    agent_id: &str,
    task_id: &str,
) -> (answer: Result<serde_json::Value, String>)
    ensures
        json_result(answer) == plugin_task_document(
            *stored,
            known_tasks(*cache),
            agent_id@,
            task_id@,
        ),
{
    match stored {
        Some(task) => Ok(task_answer(agent_id, Some("local"), task)),
        None => match cache {
            Ok(cache) => match cache.get(agent_id, task_id) {
                Some(record) => Ok(remote_task_answer(agent_id, record)),
                None => Err(task_missing("task", agent_id, task_id)),
            },
            Err(error) => Err(error.clone()),
        },
    }
}

/// The task that the plugin finds: one that this node stores, or else another
/// node's.
pub open spec fn plugin_task_of(
    stored: Option<Task>,
    tasks: Result<Seq<RemoteTaskRecord>, Seq<char>>,
    agent_id: Seq<char>,
    task_id: Seq<char>,
) -> Result<TaskView, Seq<char>> {
    match stored {
        Some(task) => Ok(task@),
        None => match tasks {
            Ok(tasks) => known_remote_task(tasks, "task"@, agent_id, task_id),
            Err(error) => Err(error),
        },
    }
}

/// Finds a task for the plugin. Of a result in which an object has the reserved
/// name, only the complaint is stated.
pub fn plugin_load_task(
    stored: Option<Task>,
    cache: &Result<RemoteTaskCache, String>,
    agent_id: &str,
    task_id: &str,
) -> (task: Result<Task, String>)
    ensures
        stored is Some || cache is Err || found_unreserved(
            cache->Ok_0.tasks@,
            agent_id@,
            task_id@,
        ) ==> task_result(task) == plugin_task_of(
            stored,
            known_tasks(*cache),
            agent_id@,
            task_id@,
        ),
        stored is None && cache is Ok && task is Err ==> task->Err_0@ == no_remote_task(
            cache->Ok_0.tasks@,
            "task"@,
            agent_id@,
            task_id@,
        ),
{
    match stored {
        Some(task) => Ok(task),
        None => match cache {
            Ok(cache) => remote_task(cache, "task", agent_id, task_id),
            Err(error) => Err(error.clone()),
        },
    }
}

/// The data of the first part that has some, from `from` on.
pub open spec fn first_data(parts: Seq<JsonView>, from: int) -> Option<JsonView>
    decreases parts.len() - from,
{
    if from < 0 || from >= parts.len() {
        None
    } else {
        match member_of(parts[from], "data"@) {
            Some(data) => Some(data),
            None => first_data(parts, from + 1),
        }
    }
}

/// The data of an artifact.
pub open spec fn artifact_data_of(artifact: JsonView) -> Result<JsonView, Seq<char>> {
    match first_data(items_member(artifact, "parts"@), 0) {
        Some(data) => Ok(data),
        None => Err("artifact `"@ + artifact_id_of(artifact) + "` has no data parts"@),
    }
}

fn data_in(parts: &Vec<serde_json::Value>) -> (data: Option<serde_json::Value>)
    ensures
        crate::wire::optional_json(data) == first_data(jsons(parts@), 0),
{
    let ghost all = jsons(parts@);
    let mut i: usize = 0;
    while i < parts.len()
        invariant
            i <= parts@.len(),
            all == jsons(parts@),
            first_data(all, i as int) == first_data(all, 0),
        decreases parts@.len() - i,
    {
        assert(all[i as int] == json_of(parts@[i as int]));
        if let Some(data) = get(&parts[i], "data") {
            return Some(data.clone());
        }
        i += 1;
    }
    None
}

pub fn artifact_data(artifact: &serde_json::Value) -> (data: Result<serde_json::Value, String>)
    ensures
        json_result(data) == artifact_data_of(json_of(*artifact)),
{
    let found = match get(artifact, "parts") {
        Some(member) => match as_items(member) {
            Some(parts) => data_in(parts),
            None => None,
        },
        None => None,
    };
    match found {
        Some(data) => Ok(data),
        None => {
            let id = member_text(artifact, "artifactId");
            let opened = plus("artifact `".to_string(), id.as_str());
            Err(plus(opened, "` has no data parts"))
        },
    }
}

/// What the plugin's `view_data_artifact` answers: the data, and the artifact.
pub open spec fn plugin_data_document(
    agent_id: Seq<char>,
    task_id: Seq<char>,
    artifact: JsonView,
) -> Result<JsonView, Seq<char>> {
    match artifact_data_of(artifact) {
        Ok(data) => Ok(
            JsonView::Object(
                map![
                    "agent_id"@ => JsonView::Text(agent_id),
                    "task_id"@ => JsonView::Text(task_id),
                    "artifact_id"@ => JsonView::Text(artifact_id_of(artifact)),
                    "data"@ => data,
                    "artifact"@ => artifact,
                ],
            ),
        ),
        Err(error) => Err(error),
    }
}

pub fn plugin_view_data_artifact(
    agent_id: &str,
    task_id: &str,
    artifact: serde_json::Value,
) -> (answer: Result<serde_json::Value, String>)
    ensures
        json_result(answer) == plugin_data_document(agent_id@, task_id@, json_of(artifact)),
{
    match artifact_data(&artifact) {
        Ok(data) => {
            let id = member_text(&artifact, "artifactId");
            let members = with(no_members(), "agent_id", text_value(agent_id));
            let members = with(members, "task_id", text_value(task_id));
            let members = with(members, "artifact_id", text_value(id.as_str()));
            let members = with(members, "data", data);
            Ok(object(with(members, "artifact", artifact)))
        },
        Err(error) => Err(error),
    }
}

/// The plugin goes by the name it is told, unless that is blank or it is told none.
pub proof fn law_plugin_name(given: Option<String>, name: String)
    requires
        call_ensures(plugin_name, (given,), name),
    ensures
        !is_blank(name@) || name@ == "agents"@,
        given is Some && !is_blank(given->0@) ==> name@ == given->0@,
        given is None || is_blank(given->0@) ==> name@ == "agents"@,
{
}

/// The manifest goes by the plugin's name, has the host start its MCP server by the
/// command, speaks on the channel that the plugin listens on, and offers one operation
/// for each tool, in order.
pub proof fn law_manifest(name: String, command: String, manifest: PluginManifest, i: int)
    requires
        call_ensures(plugin_manifest, (name, command), manifest),
        0 <= i < tool_names().len(),
    ensures
        manifest.name@ == name@,
        manifest.endpoint.command@ == command@,
        manifest.endpoint.args@.len() == 1,
        manifest.endpoint.args@[0]@ == "mcp"@,
        manifest.endpoint.id@ == "mcp"@,
        manifest.endpoint.namespace@ == "a2a"@,
        manifest.channels@.len() == 1,
        manifest.channels@[0]@ == "agents.discovery.v1"@,
        manifest.operations@.len() == tool_names().len(),
        manifest.operations@[i].name@ == tool_names()[i],
{
    law_plugin_has_the_same_tools();
    let all = manifest.operations@.map_values(|operation: PluginOperation| operation@);
    let names = plugin_operations().map_values(|operation: (Seq<char>, Seq<char>)| operation.0);
    assert(all.len() == names.len());
    assert(names[i] == plugin_operations()[i].0);
    assert(all[i] == manifest.operations@[i]@);
    assert(texts(manifest.endpoint.args@).len() == 1);
    assert(texts(manifest.endpoint.args@)[0] == manifest.endpoint.args@[0]@);
    assert(texts(manifest.channels@).len() == 1);
    assert(texts(manifest.channels@)[0] == manifest.channels@[0]@);
}

/// What another node says of its agents is taken in as it said it, one for one, and
/// the node that sent it stands for the peer only where none is named.
pub proof fn law_advertised_agents_are_taken_in(
    agents: Vec<RemoteAgentAd>,
    source_peer_id: &str,
    correlation_id: &str,
    now_ms: u64,
    step: ChannelStep,
    i: int,
)
    requires
        call_ensures(
            channel_step,
            (MeshProtocolMessage::Advertise { agents }, source_peer_id, correlation_id, now_ms),
            step,
        ),
        0 <= i < agents@.len(),
    ensures
        step is TakeInAgents,
        step->TakeInAgents_0@.len() == agents@.len(),
        ({
            let ad = step->TakeInAgents_0@[i];
            let sent = agents@[i];
            &&& ad.agent_id@ == sent.agent_id@
            &&& ad.name@ == sent.name@
            &&& optional_chars(ad.description) == optional_chars(sent.description)
            &&& ad.version@ == sent.version@
            &&& json_of(ad.card) == json_of(sent.card)
            &&& ad.updated_at_ms == sent.updated_at_ms
            &&& sent.peer_id@.len() > 0 ==> ad.peer_id@ == sent.peer_id@
            &&& sent.peer_id@.len() == 0 ==> ad.peer_id@ == source_peer_id@
        }),
{
    assert(attributed(step->TakeInAgents_0@[i], agents@[i], source_peer_id@));
}

/// A task that is asked for is run as it was asked for.
pub proof fn law_asked_task_is_run(
    request: RemoteSendMessageRequest,
    source_peer_id: &str,
    correlation_id: &str,
    now_ms: u64,
    step: ChannelStep,
)
    requires
        call_ensures(
            channel_step,
            (
                MeshProtocolMessage::SendMessageRequest(request),
                source_peer_id,
                correlation_id,
                now_ms,
            ),
            step,
        ),
    ensures
        step is RunTask,
        step->RunTask_0.agent_id@ == request.agent_id@,
        step->RunTask_0.message@ == request.message@,
        optional_chars(step->RunTask_0.context_id) == optional_chars(request.context_id),
{
}

/// Among some records of the agent the id leads to none of another task.
pub open spec fn leads_nowhere_else(
    tasks: Seq<RemoteTaskRecord>,
    record: RemoteTaskRecord,
    id: Seq<char>,
) -> bool {
    forall|i: int|
        0 <= i < tasks.len() && answers(#[trigger] tasks[i], record.agent_id@, id) ==> same_task(
            tasks[i],
            record,
        )
}

/// The answer of one node is taken in by the other: from the outcome of the task to
/// the record, which is found under the task's id and under the id that the request was
/// sent with, and which holds the whole outcome. A failed task is told as a failure
/// that names the agent and the error.
pub proof fn law_answer_reaches_the_asker(
    agent_id: String,
    outcome: Result<serde_json::Value, String>,
    response: RemoteSendMessageResponse,
    source_peer_id: &str,
    correlation_id: &str,
    now_ms: u64,
    step: ChannelStep,
    tasks: Seq<RemoteTaskRecord>,
)
    requires
        call_ensures(send_message_response, (agent_id, outcome), response),
        call_ensures(
            channel_step,
            (
                MeshProtocolMessage::SendMessageResponse(response),
                source_peer_id,
                correlation_id,
                now_ms,
            ),
            step,
        ),
    ensures
        outcome is Ok ==> {
            let record = step->TakeInTask_0;
            &&& step is TakeInTask
            &&& record.agent_id@ == agent_id@
            &&& record.peer_id@ == source_peer_id@
            &&& record.correlation_id@ == correlation_id@
            &&& json_of(record.result) == json_of(outcome->Ok_0)
            &&& record.updated_at_ms == now_ms
            &&& text_member_of(task_in_result(json_of(outcome->Ok_0)), "id"@) is Some
                ==> Some(record.task_id@) == text_member_of(
                task_in_result(json_of(outcome->Ok_0)),
                "id"@,
            )
            &&& correlation_id@.len() > 0 && leads_nowhere_else(tasks, record, correlation_id@)
                ==> task_found(
                tasks_with(tasks, record),
                agent_id@,
                correlation_id@,
            ) == Some(record)
            &&& leads_nowhere_else(tasks, record, record.task_id@) ==> task_found(
                tasks_with(tasks, record),
                agent_id@,
                record.task_id@,
            ) == Some(record)
        },
        outcome is Err ==> {
            &&& step is Fail
            &&& has_suffix(step->Fail_0@, outcome->Err_0@)
            &&& has_prefix(step->Fail_0@, "remote agent `"@ + agent_id@)
        },
{
    match outcome {
        Ok(result) => {
            let record = step->TakeInTask_0;
            if correlation_id@.len() > 0 && leads_nowhere_else(tasks, record, correlation_id@) {
                law_taken_in_task_is_found(tasks, record, correlation_id@);
            }
            if leads_nowhere_else(tasks, record, record.task_id@) {
                law_taken_in_task_is_found(tasks, record, record.task_id@);
            }
        },
        Err(error) => {
            let said = step->Fail_0@;
            let head = "remote agent `"@ + agent_id@;
            assert(said.skip(said.len() - error@.len()) =~= error@);
            assert(said.take(head.len() as int) =~= head);
        },
    }
}

/// The plugin's `get_agent` tells of the agent by the id that was asked for: the card
/// and the runtime of this node's, where this node has one that is switched on; else
/// the card of another node's, where this node has none by that id.
pub proof fn law_plugin_tells_of_the_agent_asked_for(
    registry: &AgentRegistry,
    cache: &Result<RemoteAgentCache, String>,
    agent_id: &str,
    answer: Result<serde_json::Value, String>,
)
    requires
        call_ensures(plugin_get_agent, (registry, cache, agent_id), answer),
    ensures
        answer is Ok ==> text_member_of(json_of(answer->Ok_0), "agent_id"@) == Some(agent_id@),
        forall|i: int|
            #![trigger registry@[i]]
            is_first_agent(registry@, i, agent_id@) ==> {
                &&& answer is Ok <==> registry@[i].runtime.enabled
                &&& answer is Ok ==> {
                    &&& text_member_of(json_of(answer->Ok_0), "location"@) == Some("local"@)
                    &&& member_of(json_of(answer->Ok_0), "agent_card"@) == Some(
                        json_of(registry@[i].card.document),
                    )
                    &&& tells_runtime(json_of(answer->Ok_0), registry@[i])
                }
            },
        (forall|i: int| 0 <= i < registry@.len() ==> (#[trigger] registry@[i]).id@ != agent_id@)
            ==> match *cache {
            Ok(cache) => {
                &&& answer is Ok <==> exists|i: int|
                    0 <= i < cache.agents@.len() && (#[trigger] cache.agents@[i]).agent_id@
                        == agent_id@
                &&& answer is Ok ==> {
                    &&& text_member_of(json_of(answer->Ok_0), "location"@) == Some("remote"@)
                    &&& exists|i: int|
                        0 <= i < cache.agents@.len() && (#[trigger] cache.agents@[i]).agent_id@
                            == agent_id@ && member_of(json_of(answer->Ok_0), "agent_card"@)
                            == Some(json_of(cache.agents@[i].card)) && text_member_of(
                            json_of(answer->Ok_0),
                            "peer_id"@,
                        ) == Some(cache.agents@[i].peer_id@)
                }
            },
            Err(error) => answer is Err && answer->Err_0@ == error@,
        },
{
    lemma_member_names();
    lemma_agent_named(registry@, agent_id@);
    if let Ok(cache) = *cache {
        lemma_ad_named(cache.agents@, agent_id@);
    }
}

/// A message goes to an agent by the id it was addressed to: to this node's, which is
/// switched on, or to another node's, where this node has none by that id.
pub proof fn law_message_goes_to_the_agent_addressed<'a>(
    registry: &'a AgentRegistry,
    cache: &'a Result<RemoteAgentCache, String>,
    agent_id: &str,
    route: Result<SendRoute<'a>, String>,
)
    requires
        call_ensures(send_route, (registry, cache, agent_id), route),
    ensures
        match route {
            Ok(SendRoute::Local(agent)) => agent.id@ == agent_id@ && agent.runtime.enabled
                && registry@.contains(*agent),
            Ok(SendRoute::Remote(ad)) => {
                &&& ad.agent_id@ == agent_id@
                &&& *cache is Ok
                &&& (*cache)->Ok_0.agents@.contains(*ad)
                &&& forall|i: int|
                    0 <= i < registry@.len() ==> (#[trigger] registry@[i]).id@ != agent_id@
            },
            Err(_) => forall|i: int|
                #![trigger registry@[i]]
                is_first_agent(registry@, i, agent_id@) ==> !registry@[i].runtime.enabled,
        },
{
    lemma_agent_named(registry@, agent_id@);
    if let Ok(cache) = *cache {
        lemma_ad_named(cache.agents@, agent_id@);
    }
}

/// A task that was sent off: what is kept of it and what is answered for it name the
/// agent, the node and the one id by which it is followed, and say that it was
/// submitted. What is sent is the message, to the agent, in the context.
pub proof fn law_handed_over_message(
    agent_id: &str,
    message: &str,
    context_id: &Option<String>,
    peer_id: &str,
    now_ms: u64,
    sent: HandOver,
)
    requires
        call_ensures(hand_over, (agent_id, message, context_id, peer_id, now_ms), sent),
    ensures
        sent.request.agent_id@ == agent_id@,
        sent.request.message@ == message@,
        optional_chars(sent.request.context_id) == optional_chars(*context_id),
        has_prefix(sent.correlation_id@, "remote-"@),
        ({
            let answer = json_of(sent.answer);
            let task = task_in_result(json_of(sent.result));
            let note = member_of(task, "metadata"@);
            &&& text_member_of(answer, "agent_id"@) == Some(agent_id@)
            &&& text_member_of(answer, "peer_id"@) == Some(peer_id@)
            &&& text_member_of(answer, "location"@) == Some("remote"@)
            &&& text_member_of(answer, "task_id"@) == Some(sent.correlation_id@)
            &&& text_member_of(answer, "correlation_id"@) == Some(sent.correlation_id@)
            &&& text_member_of(answer, "status"@) == Some("submitted"@)
            &&& member_of(answer, "result"@) == Some(json_of(sent.result))
            &&& text_member_of(task, "id"@) == Some(sent.correlation_id@)
            &&& text_member_of(task, "contextId"@) == Some(sent.correlation_id@)
            &&& text_member_of(status_in(task), "state"@) == Some("TASK_STATE_SUBMITTED"@)
            &&& note is Some
            &&& text_member_of(note->0, "agent_id"@) == Some(agent_id@)
            &&& text_member_of(note->0, "peer_id"@) == Some(peer_id@)
            &&& text_member_of(note->0, "correlation_id"@) == Some(sent.correlation_id@)
            &&& member_of(note->0, "mesh_llm_pending_remote"@) == Some(JsonView::Bool(true))
        }),
{
    lemma_member_names();
    let id = sent.correlation_id@;
    assert(id.take("remote-"@.len() as int) =~= "remote-"@);
}

/// What is kept and answered of a task that was not answered yet says the same as it
/// does when the message is handed over.
pub proof fn law_pending_answers_agree(
    agent_id: &str,
    correlation_id: &str,
    peer_id: &str,
    result: serde_json::Value,
    answer: serde_json::Value,
)
    requires
        call_ensures(pending_remote_task_result, (agent_id, correlation_id, peer_id), result),
        call_ensures(pending_answer, (agent_id, correlation_id, peer_id), answer),
    ensures
        member_of(json_of(answer), "result"@) == Some(json_of(result)),
        text_member_of(task_in_result(json_of(result)), "id"@) == text_member_of(
            json_of(answer),
            "task_id"@,
        ),
        text_member_of(json_of(answer), "task_id"@) == Some(correlation_id@),
        text_member_of(json_of(answer), "agent_id"@) == Some(agent_id@),
        text_member_of(json_of(answer), "peer_id"@) == Some(peer_id@),
{
    lemma_member_names();
}

/// The ids of tasks that are sent off at different times differ, and so do those of
/// streams to one agent.
pub proof fn law_times_give_different_ids(
    agent_id: &str,
    first: u64,
    second: u64,
    id: String,
    other: String,
    stream: String,
    other_stream: String,
)
    requires
        call_ensures(remote_correlation_id, (first,), id),
        call_ensures(remote_correlation_id, (second,), other),
        call_ensures(remote_stream_id, (agent_id, first), stream),
        call_ensures(remote_stream_id, (agent_id, second), other_stream),
        first != second,
    ensures
        id@ != other@,
        stream@ != other_stream@,
        has_prefix(stream@, "a2a-"@ + agent_id@),
{
    lemma_decimal(first as nat);
    lemma_decimal(second as nat);
    let head = "remote-"@;
    assert(id@.skip(head.len() as int) =~= decimal(first as nat));
    assert(other@.skip(head.len() as int) =~= decimal(second as nat));
    let before = "a2a-"@ + agent_id@ + "-"@;
    assert(stream@.skip(before.len() as int) =~= decimal(first as nat));
    assert(other_stream@.skip(before.len() as int) =~= decimal(second as nat));
    let named = "a2a-"@ + agent_id@;
    assert(stream@.take(named.len() as int) =~= named);
}

/// A stream is taken with the request that comes with it, and only an event stream is.
pub proof fn law_opened_stream(
    event_stream: bool,
    metadata: Option<String>,
    request: Result<String, String>,
)
    requires
        call_ensures(opened_stream_request, (event_stream, metadata), request),
    ensures
        request is Ok <==> event_stream && metadata is Some,
        request is Ok ==> request->Ok_0@ == metadata->0@,
{
}

/// What is answered for a message that was sent as a stream names the agent, the node
/// and the id it was sent with, and gives the outcome and every event, in order. The
/// record that is kept names the same, and is found under the outcome's id.
pub proof fn law_stream_answer(
    agent_id: &str,
    peer_id: &str,
    correlation_id: &str,
    outcome: serde_json::Value,
    events: Vec<serde_json::Value>,
    now_ms: u64,
    answer: (serde_json::Value, Option<RemoteTaskRecord>),
)
    requires
        call_ensures(
            stream_answer,
            (agent_id, peer_id, correlation_id, outcome, events, now_ms),
            answer,
        ),
    ensures
        ({
            let document = json_of(answer.0);
            &&& text_member_of(document, "agent_id"@) == Some(agent_id@)
            &&& text_member_of(document, "peer_id"@) == Some(peer_id@)
            &&& text_member_of(document, "location"@) == Some("remote"@)
            &&& text_member_of(document, "transport"@) == Some("mesh_stream"@)
            &&& text_member_of(document, "correlation_id"@) == Some(correlation_id@)
            &&& member_of(document, "result"@) == Some(json_of(outcome))
            &&& member_of(document, "events"@) == Some(JsonView::Array(jsons(events@)))
            &&& text_member_of(json_of(outcome), "id"@) is Some ==> text_member_of(
                document,
                "task_id"@,
            ) == text_member_of(json_of(outcome), "id"@)
        }),
        answer.1 is Some <==> text_member_of(json_of(outcome), "id"@) is Some && text_member_of(
            json_of(outcome),
            "id"@,
        )->0.len() > 0,
        answer.1 is Some ==> {
            let record = answer.1->0;
            &&& record.agent_id@ == agent_id@
            &&& Some(record.task_id@) == text_member_of(json_of(outcome), "id"@)
            &&& record.peer_id@ == peer_id@
            &&& record.correlation_id@ == correlation_id@
            &&& json_of(record.result) == json_of(outcome)
            &&& record.updated_at_ms == now_ms
        },
{
    lemma_member_names();
}

/// A stream that failed comes to its error, and one that did not to the answer for what
/// it ended on.
pub proof fn law_stream_reply(
    agent_id: &str,
    peer_id: &str,
    correlation_id: &str,
    events: Vec<serde_json::Value>,
    now_ms: u64,
    reply: Result<(serde_json::Value, Option<RemoteTaskRecord>), String>,
    outcome: Result<serde_json::Value, String>,
)
    requires
        call_ensures(
            stream_reply,
            (
                agent_id,
                peer_id,
                correlation_id,
                Ok::<Vec<serde_json::Value>, String>(events),
                now_ms,
            ),
            reply,
        ),
        call_ensures(stream_outcome, (&events,), outcome),
    ensures
        reply is Ok <==> outcome is Ok,
        reply is Err ==> reply->Err_0@ == outcome->Err_0@,
        reply is Ok ==> {
            let document = json_of(reply->Ok_0.0);
            &&& text_member_of(document, "agent_id"@) == Some(agent_id@)
            &&& text_member_of(document, "peer_id"@) == Some(peer_id@)
            &&& text_member_of(document, "correlation_id"@) == Some(correlation_id@)
            &&& member_of(document, "result"@) == Some(json_of(outcome->Ok_0))
            &&& member_of(document, "events"@) == Some(JsonView::Array(jsons(events@)))
            &&& reply->Ok_0.1 is Some ==> {
                let record = reply->Ok_0.1->0;
                &&& record.agent_id@ == agent_id@
                &&& Some(record.task_id@) == text_member_of(json_of(outcome->Ok_0), "id"@)
                &&& record.peer_id@ == peer_id@
                &&& record.correlation_id@ == correlation_id@
                &&& json_of(record.result) == json_of(outcome->Ok_0)
                &&& record.updated_at_ms == now_ms
            }
            &&& reply->Ok_0.1 is None ==> text_member_or_empty(json_of(outcome->Ok_0), "id"@).len()
                == 0
        },
{
    lemma_member_names();
}

/// The plugin's `get_task` answers with the task that this node stores, and with
/// another node's only where this node stores none. Where neither has it, it is refused.
pub proof fn law_plugin_answers_with_the_task(
    stored: &Option<Task>,
    cache: &Result<RemoteTaskCache, String>,
    agent_id: &str,
    task_id: &str,
    answer: Result<serde_json::Value, String>,
)
    requires
        call_ensures(plugin_get_task, (stored, cache, agent_id, task_id), answer),
    ensures
        answer is Ok ==> text_member_of(json_of(answer->Ok_0), "agent_id"@) == Some(agent_id@),
        *stored is Some ==> {
            &&& answer is Ok
            &&& text_member_of(json_of(answer->Ok_0), "location"@) == Some("local"@)
            &&& member_of(json_of(answer->Ok_0), "task"@) == Some(document_of((*stored)->0@))
        },
        *stored is None && *cache is Err ==> answer is Err && answer->Err_0@ == (*cache)->Err_0@,
        *stored is None && *cache is Ok ==> match task_found(
            (*cache)->Ok_0.tasks@,
            agent_id@,
            task_id@,
        ) {
            Some(record) => {
                &&& answer is Ok
                &&& text_member_of(json_of(answer->Ok_0), "location"@) == Some("remote"@)
                &&& text_member_of(json_of(answer->Ok_0), "peer_id"@) == Some(record.peer_id@)
            },
            None => answer is Err,
        },
{
    lemma_member_names();
}

/// The task that the plugin loads is the one that this node stores, where it does.
pub proof fn law_plugin_loads_the_stored_task(
    stored: Option<Task>,
    cache: &Result<RemoteTaskCache, String>,
    agent_id: &str,
    task_id: &str,
    task: Result<Task, String>,
)
    requires
        call_ensures(plugin_load_task, (stored, cache, agent_id, task_id), task),
    ensures
        stored is Some ==> task is Ok && task->Ok_0@ == stored->0@,
        stored is None && *cache is Err ==> task is Err && task->Err_0@ == (*cache)->Err_0@,
{
}

proof fn lemma_first_data(parts: Seq<JsonView>, from: int, at: int)
    requires
        0 <= from <= at < parts.len(),
        member_of(parts[at], "data"@) is Some,
        forall|i: int| from <= i < at ==> member_of(#[trigger] parts[i], "data"@) is None,
    ensures
        first_data(parts, from) == member_of(parts[at], "data"@),
    decreases at - from,
{
    if from < at {
        assert(member_of(parts[from], "data"@) is None);
        lemma_first_data(parts, from + 1, at);
    }
}

proof fn lemma_no_data(parts: Seq<JsonView>, from: int)
    requires
        0 <= from <= parts.len(),
        forall|i: int| 0 <= i < parts.len() ==> member_of(#[trigger] parts[i], "data"@) is None,
    ensures
        first_data(parts, from) is None,
    decreases parts.len() - from,
{
    if from < parts.len() {
        assert(member_of(parts[from], "data"@) is None);
        lemma_no_data(parts, from + 1);
    }
}

/// The data of an artifact is that of the first of its parts that has some, whatever
/// else the part has. An artifact without such a part has none.
pub proof fn law_data_is_that_of_the_first_part(
    artifact: &serde_json::Value,
    data: Result<serde_json::Value, String>,
    at: int,
)
    requires
        call_ensures(artifact_data, (artifact,), data),
    ensures
        ({
            let parts = items_member(json_of(*artifact), "parts"@);
            &&& 0 <= at < parts.len() && member_of(parts[at], "data"@) is Some && (forall|i: int|
                0 <= i < at ==> member_of(#[trigger] parts[i], "data"@) is None) ==> data is Ok
                && Some(json_of(data->Ok_0)) == member_of(parts[at], "data"@)
            &&& (forall|i: int|
                0 <= i < parts.len() ==> member_of(#[trigger] parts[i], "data"@) is None)
                ==> data is Err
        }),
{
    let parts = items_member(json_of(*artifact), "parts"@);
    if 0 <= at < parts.len() && member_of(parts[at], "data"@) is Some && (forall|i: int|
        0 <= i < at ==> member_of(#[trigger] parts[i], "data"@) is None) {
        lemma_first_data(parts, 0, at);
    }
    if forall|i: int| 0 <= i < parts.len() ==> member_of(#[trigger] parts[i], "data"@) is None {
        lemma_no_data(parts, 0);
    }
}

/// An artifact that is made of data shows that data, under its id, with the agent and
/// the task that were asked for.
pub proof fn law_data_artifact_shows_its_data(
    artifact_id: &str,
    value: serde_json::Value,
    artifact: serde_json::Value,
    agent_id: &str,
    task_id: &str,
    answer: Result<serde_json::Value, String>,
)
    requires
        call_ensures(data_artifact, (artifact_id, value), artifact),
        call_ensures(plugin_view_data_artifact, (agent_id, task_id, artifact), answer),
    ensures
        answer is Ok,
        text_member_of(json_of(answer->Ok_0), "agent_id"@) == Some(agent_id@),
        text_member_of(json_of(answer->Ok_0), "task_id"@) == Some(task_id@),
        text_member_of(json_of(answer->Ok_0), "artifact_id"@) == Some(artifact_id@),
        member_of(json_of(answer->Ok_0), "data"@) == Some(json_of(value)),
        member_of(json_of(answer->Ok_0), "artifact"@) == Some(json_of(artifact)),
{
    lemma_member_names();
    law_data_artifact_holds_its_data(artifact_id, value, artifact);
    lemma_first_data(items_member(json_of(artifact), "parts"@), 0, 0);
}

/// Whatever artifact is viewed: its data is shown with the agent, the task and the
/// artifact itself, and it is refused exactly where it has none.
pub proof fn law_viewed_data(
    agent_id: &str,
    task_id: &str,
    artifact: serde_json::Value,
    data: Result<serde_json::Value, String>,
    answer: Result<serde_json::Value, String>,
)
    requires
        call_ensures(artifact_data, (&artifact,), data),
        call_ensures(plugin_view_data_artifact, (agent_id, task_id, artifact), answer),
    ensures
        answer is Ok <==> data is Ok,
        answer is Ok ==> {
            &&& text_member_of(json_of(answer->Ok_0), "agent_id"@) == Some(agent_id@)
            &&& text_member_of(json_of(answer->Ok_0), "task_id"@) == Some(task_id@)
            &&& text_member_of(json_of(answer->Ok_0), "artifact_id"@) == Some(
                text_member_or_empty(json_of(artifact), "artifactId"@),
            )
            &&& member_of(json_of(answer->Ok_0), "data"@) == Some(json_of(data->Ok_0))
            &&& member_of(json_of(answer->Ok_0), "artifact"@) == Some(json_of(artifact))
        },
{
    lemma_member_names();
}

} // verus!
