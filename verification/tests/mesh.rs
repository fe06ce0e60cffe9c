use mesh_agents::mesh::{
    cache_path, remote_agent_summaries, runtime_label, task_cache_path, MeshProtocolMessage,
    RemoteAgentAd, RemoteAgentCache, RemoteSendMessageRequest, RemoteSendMessageResponse,
    RemoteTaskCache, RemoteTaskRecord, CHANNEL, KIND_ADVERTISE, KIND_SEND_MESSAGE_REQUEST,
    KIND_SEND_MESSAGE_RESPONSE,
};
use mesh_agents::plugin::{
    artifact_data, channel_step, hand_over, on_agents_channel, opened_stream_request,
    pending_answer, pending_remote_task_result, plugin_get_agent, plugin_get_task,
    plugin_load_task, plugin_manifest, plugin_name, plugin_view_data_artifact,
    remote_correlation_id, remote_stream_id, send_message_response, send_route, stream_answer,
    stream_reply, ChannelStep, SendRoute, DEFAULT_PLUGIN_NAME,
};
use mesh_agents::registry::AgentRegistry;
use mesh_agents::stream::{
    parse_jsonrpc_sse_events, parse_sse_text, stream_event_task, stream_outcome,
};
use mesh_agents::tools::{
    a2a_tools, artifact_args, decode_remote_task, mcp_message_id, mesh_message_id, optional_arg,
    parse_tool_call, read_reply, remote_agent, remote_task, required_arg, send_message_body,
    sent_answer, Answering, ToolCall,
};
use mesh_agents::wire::TaskState;
use serde_json::Value;

fn json(text: &str) -> Value {
    serde_json::from_str(text).unwrap()
}

fn args(pairs: &[(&str, &str)]) -> serde_json::Map<String, Value> {
    pairs
        .iter()
        .map(|(name, value)| (name.to_string(), Value::from(*value)))
        .collect()
}

fn ad(agent_id: &str, peer_id: &str, version: &str) -> RemoteAgentAd {
    RemoteAgentAd {
        agent_id: agent_id.to_string(),
        peer_id: peer_id.to_string(),
        name: agent_id.to_uppercase(),
        description: None,
        version: version.to_string(),
        card: json(r#"{"name": "card"}"#),
        updated_at_ms: 1,
    }
}

fn record(task_id: &str, correlation_id: &str, updated_at_ms: u64) -> RemoteTaskRecord {
    RemoteTaskRecord {
        agent_id: "pr-review".to_string(),
        task_id: task_id.to_string(),
        peer_id: "peer-a".to_string(),
        correlation_id: correlation_id.to_string(),
        result: json(&format!(r#"{{ "task": {{ "id": "{task_id}" }} }}"#)),
        updated_at_ms,
    }
}

#[test]
fn remote_tasks_can_be_read_by_correlation_id() {
    let mut cache = RemoteTaskCache::default();
    cache.upsert(record("task-1", "remote-1", 1));

    let task = cache
        .get("pr-review", "remote-1")
        .expect("correlation id should resolve");

    assert_eq!(task.task_id, "task-1");
}

#[test]
fn remote_task_response_replaces_pending_correlation_record() {
    let mut cache = RemoteTaskCache::default();
    cache.upsert_pending(
        "pr-review".to_string(),
        "peer-a".to_string(),
        "remote-1".to_string(),
        json(r#"{ "task": { "id": "remote-1" } }"#),
        1,
    );
    assert_eq!(cache.get("pr-review", "remote-1").unwrap().task_id, "remote-1");

    cache.upsert(record("task-1", "remote-1", 2));

    assert_eq!(cache.tasks.len(), 1);
    assert_eq!(
        cache
            .get("pr-review", "remote-1")
            .expect("correlation id should resolve to completed task")
            .task_id,
        "task-1"
    );
    assert_eq!(
        cache
            .get("pr-review", "task-1")
            .expect("task id should resolve to completed task")
            .correlation_id,
        "remote-1"
    );
}

#[test]
fn records_without_a_correlation_id_are_kept_apart() {
    let mut cache = RemoteTaskCache::default();
    cache.upsert(record("task-1", "", 1));
    cache.upsert(record("task-2", "", 2));
    assert_eq!(cache.tasks.len(), 2);
    cache.upsert(record("task-1", "", 3));
    assert_eq!(cache.tasks.len(), 2);
    assert_eq!(cache.get("pr-review", "task-1").unwrap().updated_at_ms, 3);
    assert!(cache.get("other", "task-1").is_none());
    assert!(cache.get("pr-review", "task-3").is_none());
}

#[test]
fn advertisements_are_renewed_and_kept_in_order() {
    let mut cache = RemoteAgentCache::default();
    cache.upsert_many(vec![ad("b", "p2", "1"), ad("a", "p9", "1"), ad("b", "p1", "1")]);
    cache.upsert_many(vec![ad("c", "p1", "0"), ad("b", "p2", "2"), ad("c", "p1", "1")]);
    let held: Vec<(&str, &str, &str)> = cache
        .agents
        .iter()
        .map(|ad| (ad.agent_id.as_str(), ad.peer_id.as_str(), ad.version.as_str()))
        .collect();
    assert_eq!(
        held,
        [("a", "p9", "1"), ("b", "p1", "1"), ("b", "p2", "2"), ("c", "p1", "1")]
    );
    assert_eq!(cache.get("b").unwrap().peer_id, "p1");
    assert!(cache.get("d").is_none());
    assert_eq!(
        remote_agent(&cache, "d").unwrap_err(),
        "agent `d` was not found"
    );
    let summaries = remote_agent_summaries(&cache);
    assert_eq!(summaries[1]["card_url"], "mesh://agents/p1/b");
    assert_eq!(summaries[1]["location"], "remote");
    assert_eq!(summaries[1]["description"], Value::Null);
}

#[test]
fn caches_lie_below_the_data_directory() {
    assert_eq!(cache_path("/data"), "/data/a2a/remote-agents.json");
    assert_eq!(task_cache_path("/data"), "/data/a2a/remote-tasks.json");
    assert_eq!(runtime_label(mesh_agents::config::RuntimeKind::Remote), "remote");
    assert_eq!(CHANNEL, "agents.discovery.v1");
    assert_eq!(KIND_ADVERTISE, "advertise");
    assert_eq!(KIND_SEND_MESSAGE_REQUEST, "send_message_request");
    assert_eq!(KIND_SEND_MESSAGE_RESPONSE, "send_message_response");
}

#[test]
fn exposes_only_a2a_client_tools() {
    let names = a2a_tools()
        .into_iter()
        .map(|tool| tool.name)
        .collect::<Vec<_>>();

    assert_eq!(
        names,
        vec![
            "get_agents",
            "get_agent",
            "send_message",
            "get_task",
            "view_text_artifact",
            "view_data_artifact",
        ]
    );
}

#[test]
fn tool_calls_are_read() {
    let all = args(&[
        ("agent_id", "a"),
        ("message", "m"),
        ("context_id", "c"),
        ("task_id", "t"),
        ("artifact_id", "x"),
    ]);
    for tool in a2a_tools() {
        assert!(parse_tool_call(&tool.name, &all).is_ok());
        assert!(!tool.description.is_empty());
    }
    let call = parse_tool_call("send_message", &all).unwrap();
    let ToolCall::SendMessage {
        agent_id,
        message,
        context_id,
    } = call
    else {
        panic!("expected a message");
    };
    assert_eq!((agent_id.as_str(), message.as_str()), ("a", "m"));
    assert_eq!(context_id.as_deref(), Some("c"));
    assert_eq!(
        parse_tool_call("delete_agent", &all).unwrap_err(),
        "unknown A2A MCP tool `delete_agent`"
    );
    assert_eq!(
        parse_tool_call("get_task", &args(&[("agent_id", "a")])).unwrap_err(),
        "missing required string argument `task_id`"
    );
    let mut wrong = serde_json::Map::new();
    wrong.insert("agent_id".to_string(), Value::from(4));
    assert_eq!(
        required_arg(&wrong, "agent_id").unwrap_err(),
        "missing required string argument `agent_id`"
    );
    assert_eq!(optional_arg(&wrong, "agent_id"), None);
    let found = artifact_args(&all).unwrap();
    assert_eq!(found, ("a".to_string(), "t".to_string(), "x".to_string()));
    let schema = &a2a_tools()[2].schema;
    assert_eq!(schema["required"], json(r#"["agent_id", "message"]"#));
    assert_eq!(schema["properties"]["context_id"]["type"], "string");
}

#[test]
fn messages_are_sent_as_requests() {
    let body = send_message_body(Answering::AtOnce, "mcp-1", "hi", &Some("ctx".to_string()));
    assert_eq!(
        json(&body.unwrap()),
        json(
            r#"{
              "jsonrpc": "2.0", "id": 1, "method": "SendMessage",
              "params": {
                "message": {
                  "messageId": "mcp-1", "role": "ROLE_USER", "parts": [{"text": "hi"}]
                },
                "contextId": "ctx"
              }
            }"#
        )
    );
    let body = send_message_body(Answering::AsStream, "m", "hi", &None).unwrap();
    assert_eq!(json(&body)["method"], "SendStreamingMessage");
    assert!(json(&body)["params"].get("contextId").is_none());
    assert_eq!(
        json(&body)["method"],
        a2a::jsonrpc::methods::SEND_STREAMING_MESSAGE
    );
    assert_eq!(mcp_message_id(17), "mcp-17");
    assert_eq!(mesh_message_id(Answering::AtOnce, 5), "mesh-5");
    assert_eq!(mesh_message_id(Answering::AsStream, 5), "mesh-stream-5");
}

#[test]
fn replies_are_read() {
    let reply = |text: &str| read_reply(text.as_bytes());
    assert_eq!(
        reply(r#"{"jsonrpc": "2.0", "id": 1, "result": {"task": {"id": "t"}}}"#).unwrap(),
        json(r#"{"task": {"id": "t"}}"#)
    );
    assert_eq!(
        reply(r#"{"jsonrpc": "2.0", "id": 1, "error": {"code": -32601, "message": "no method"}}"#)
            .unwrap_err(),
        "A2A JSON-RPC error -32601: no method"
    );
    assert_eq!(
        reply(r#"{"jsonrpc": "2.0", "id": 1}"#).unwrap_err(),
        "A2A response did not include a result"
    );
    assert!(reply("nonsense").is_err());
    let answer = sent_answer(
        "a",
        Some("local"),
        json(r#"{"task": {"id": "t", "contextId": "c"}}"#),
    );
    assert_eq!(answer["task_id"], "t");
    assert_eq!(answer["context_id"], "c");
    assert_eq!(answer["location"], "local");
    let answer = sent_answer("a", None, json(r#"{"id": "t"}"#));
    assert_eq!(answer["task_id"], "t");
    assert_eq!(answer["context_id"], Value::Null);
    assert!(answer.get("location").is_none());
}

#[test]
fn remote_tasks_are_decoded() {
    let done = r#"{"id": "t", "contextId": "c", "status": {"state": "TASK_STATE_COMPLETED"}}"#;
    assert_eq!(decode_remote_task(&json(done)).unwrap().id, "t");
    let wrapped = json(&format!(r#"{{"task": {done}}}"#));
    assert_eq!(
        decode_remote_task(&wrapped).unwrap().status.state,
        TaskState::Completed
    );
    assert_eq!(
        decode_remote_task(&json(r#"{"task": 1}"#)).unwrap_err(),
        "failed to decode wrapped task"
    );
    assert_eq!(
        decode_remote_task(&Value::Null).unwrap_err(),
        "failed to decode task"
    );
    let mut cache = RemoteTaskCache::default();
    cache.upsert(record("task-1", "remote-1", 1));
    assert_eq!(
        remote_task(&cache, "task", "pr-review", "task-1").unwrap_err(),
        "failed to decode remote task `task-1`"
    );
    assert_eq!(
        remote_task(&cache, "task", "pr-review", "task-2").unwrap_err(),
        "task `task-2` was not found for agent `pr-review`"
    );
}

#[test]
fn plugin_names_have_a_default() {
    assert_eq!(plugin_name(None), DEFAULT_PLUGIN_NAME);
    assert_eq!(plugin_name(Some(" \t".to_string())), "agents");
    assert_eq!(plugin_name(Some("mine".to_string())), "mine");
}

#[test]
fn manifest_advertises_agents_mcp_stdio_endpoint_and_mesh_channel() {
    let manifest = plugin_manifest("agents".to_string(), "agents".to_string());

    assert_eq!(manifest.name, "agents");
    let endpoint = &manifest.endpoint;
    assert_eq!(endpoint.id, "mcp");
    assert_eq!(endpoint.command, "agents");
    assert_eq!(endpoint.args, vec!["mcp"]);
    assert_eq!(endpoint.namespace, "a2a");
    assert_eq!(manifest.channels[0], CHANNEL);
    assert!(manifest.operations.iter().any(|op| op.name == "get_agents"));
    assert!(manifest.operations.iter().any(|op| op.name == "send_message"));
    assert!(manifest
        .operations
        .iter()
        .any(|op| op.name == "view_text_artifact"));
    assert!(manifest
        .operations
        .iter()
        .any(|op| op.name == "view_data_artifact"));
    let offered: Vec<String> = a2a_tools().into_iter().map(|tool| tool.name).collect();
    let operations: Vec<String> = manifest.operations.into_iter().map(|op| op.name).collect();
    assert_eq!(operations, offered);
    assert_eq!(
        manifest.capabilities,
        ["agents:a2a", "endpoint:mcp", "endpoint:mcp/a2a", "agents:mesh-discovery"]
    );
    assert_eq!(manifest.health, "mcp=agents mcp mesh_channel=agents.discovery.v1");
}

#[test]
fn channel_messages_lead_to_steps() {
    assert!(on_agents_channel("agents.discovery.v1"));
    assert!(!on_agents_channel("agents.discovery.v2"));
    let message = MeshProtocolMessage::Advertise {
        agents: vec![ad("a", "", "1"), ad("b", "peer-b", "1")],
    };
    let ChannelStep::TakeInAgents(ads) = channel_step(message, "peer-x", "", 1) else {
        panic!("expected agents");
    };
    assert_eq!(ads[0].peer_id, "peer-x");
    assert_eq!(ads[1].peer_id, "peer-b");

    let request = RemoteSendMessageRequest {
        agent_id: "a".to_string(),
        message: "hi".to_string(),
        context_id: None,
    };
    let step = channel_step(MeshProtocolMessage::SendMessageRequest(request), "p", "c", 1);
    assert!(matches!(step, ChannelStep::RunTask(request) if request.message == "hi"));

    let mut response = RemoteSendMessageResponse {
        agent_id: "a".to_string(),
        task_id: "t".to_string(),
        result: json(r#"{"id": "t"}"#),
        error: None,
    };
    let step = channel_step(
        MeshProtocolMessage::SendMessageResponse(response.clone()),
        "p",
        "c",
        9,
    );
    let ChannelStep::TakeInTask(taken) = step else {
        panic!("expected a task");
    };
    assert_eq!((taken.task_id.as_str(), taken.peer_id.as_str()), ("t", "p"));
    assert_eq!((taken.correlation_id.as_str(), taken.updated_at_ms), ("c", 9));
    response.error = Some("busy".to_string());
    let step = channel_step(MeshProtocolMessage::SendMessageResponse(response), "p", "c", 9);
    let ChannelStep::Fail(error) = step else {
        panic!("expected a failure");
    };
    assert_eq!(error, "remote agent `a` returned an error: busy");
}

#[test]
fn answers_to_other_nodes() {
    let ok = send_message_response("a".to_string(), Ok(json(r#"{"task": {"id": "t"}}"#)));
    assert_eq!((ok.task_id.as_str(), ok.error), ("t", None));
    let bare = send_message_response("a".to_string(), Ok(json(r#"{"id": 4}"#)));
    assert_eq!(bare.task_id, "");
    let failed = send_message_response("a".to_string(), Err("agent `a` is disabled".to_string()));
    assert_eq!(failed.task_id, "");
    assert_eq!(failed.result, json("{}"));
    assert_eq!(failed.error.as_deref(), Some("agent `a` is disabled"));
}

#[test]
fn messages_find_their_way() {
    let registry = AgentRegistry::empty();
    let mut cache = RemoteAgentCache::default();
    cache.upsert_many(vec![ad("a", "p", "1")]);
    let cache = Ok(cache);
    let route = send_route(&registry, &cache, "a").unwrap();
    assert!(matches!(route, SendRoute::Remote(ad) if ad.peer_id == "p"));
    assert_eq!(
        send_route(&registry, &cache, "b").unwrap_err(),
        "agent `b` was not found"
    );
    let answer = plugin_get_agent(&registry, &cache, "a").unwrap();
    assert_eq!(answer["location"], "remote");
    assert_eq!(answer["agent_card"]["name"], "card");
    assert_eq!(
        plugin_get_agent(&registry, &Err("broken".to_string()), "a").unwrap_err(),
        "broken"
    );
}

#[test]
fn pending_tasks_can_be_followed() {
    let id = remote_correlation_id(12);
    assert_eq!(id, "remote-12");
    assert_eq!(remote_stream_id("a", 12), "a2a-a-12");
    let answer = pending_answer("a", &id, "p");
    assert_eq!(answer["status"], "submitted");
    assert_eq!(answer["result"], pending_remote_task_result("a", &id, "p"));
    assert_eq!(answer["result"]["task"]["status"]["state"], "TASK_STATE_SUBMITTED");
    assert_eq!(answer["result"]["task"]["metadata"]["mesh_llm_pending_remote"], true);
    let mut cache = RemoteTaskCache::default();
    cache.upsert_pending(
        "a".to_string(),
        "p".to_string(),
        id.clone(),
        answer["result"].clone(),
        12,
    );
    let cache = Ok(cache);
    let followed = plugin_get_task(&None, &cache, "a", answer["task_id"].as_str().unwrap());
    let followed = followed.unwrap();
    assert_eq!(followed["location"], "remote");
    assert_eq!(followed["task"]["task"]["id"], "remote-12");
    assert_eq!(
        plugin_get_task(&None, &cache, "a", "x").unwrap_err(),
        "task `x` was not found for agent `a`"
    );
    assert_eq!(
        plugin_get_task(&None, &Err("broken".to_string()), "a", "x").unwrap_err(),
        "broken"
    );
    let Ok(cache) = cache else { unreachable!() };
    let task = remote_task(&cache, "task", "a", "remote-12").unwrap();
    assert_eq!(task.status.state, TaskState::Submitted);
    let known = Ok(cache);
    let found = plugin_load_task(None, &known, "a", "remote-12").unwrap();
    assert_eq!(found.id, "remote-12");
    let mut stored = task;
    stored.id = "here".to_string();
    assert_eq!(plugin_load_task(Some(stored), &known, "a", "remote-12").unwrap().id, "here");
    assert_eq!(
        plugin_load_task(None, &known, "a", "x").unwrap_err(),
        "task `x` was not found for agent `a`"
    );
    assert_eq!(
        plugin_load_task(None, &Err("broken".to_string()), "a", "x").unwrap_err(),
        "broken"
    );
}

#[test]
fn messages_are_handed_over() {
    let sent = hand_over("a", "hello", &Some("ctx".to_string()), "p", 7);
    assert_eq!(sent.request.agent_id, "a");
    assert_eq!(sent.request.message, "hello");
    assert_eq!(sent.request.context_id.as_deref(), Some("ctx"));
    assert_eq!(sent.correlation_id, "remote-7");
    assert_eq!(sent.result, pending_remote_task_result("a", "remote-7", "p"));
    assert_eq!(sent.answer, pending_answer("a", "remote-7", "p"));
}

#[test]
fn streams_are_opened_with_a_request() {
    assert_eq!(
        opened_stream_request(true, Some("{}".to_string())),
        Ok("{}".to_string())
    );
    assert_eq!(
        opened_stream_request(false, Some("{}".to_string())).unwrap_err(),
        "agents only accepts event stream mesh streams"
    );
    assert_eq!(
        opened_stream_request(true, None).unwrap_err(),
        "agents mesh stream request is missing metadata"
    );
}

#[test]
fn streams_are_read_into_events() {
    let body = concat_lines(&[
        ": comment",
        "data: {\"jsonrpc\": \"2.0\", \"id\": 1,",
        "data:   \"result\": {\"statusUpdate\": 1}}",
        "",
        "event: message",
        "data:{\"jsonrpc\":\"2.0\",\"id\":1,\"result\":{\"task\":{\"id\":\"t\"}}}\r",
        " \t",
        "",
        "data: {\"jsonrpc\":\"2.0\",\"id\":1,\"result\":{\"result\":{\"task\":{\"id\":\"u\"}}}}",
    ]);
    let events = parse_sse_text(&body).unwrap();
    assert_eq!(events.len(), 3);
    assert_eq!(events[0], json(r#"{"statusUpdate": 1}"#));
    assert!(stream_event_task(&events[0]).is_none());
    assert_eq!(stream_event_task(&events[1]).unwrap()["id"], "t");
    assert_eq!(stream_outcome(&events).unwrap()["id"], "u");
    assert_eq!(
        stream_outcome(&vec![events[0].clone()]).unwrap(),
        json(r#"{"statusUpdate": 1}"#)
    );
    assert_eq!(
        stream_outcome(&Vec::new()).unwrap_err(),
        "remote A2A stream completed without events"
    );
    let mut bytes = body.into_bytes();
    bytes.extend(b"\n: \xff\xfe");
    assert_eq!(parse_jsonrpc_sse_events(&bytes).unwrap(), events);
    let lossy = b"data: {\"jsonrpc\":\"2.0\",\"id\":1,\"result\":\"\xff\"}";
    assert_eq!(parse_jsonrpc_sse_events(lossy).unwrap(), ["\u{fffd}"]);
}

fn concat_lines(lines: &[&str]) -> String {
    let mut text = String::new();
    for line in lines {
        text.push_str(line);
        text.push('\n');
    }
    text
}

#[test]
fn framed_payloads_come_out_again() {
    let results = ["1", "{\"a\": [true]}", "\"x\""];
    let mut body = String::new();
    for result in results {
        body.push_str("data: {\"jsonrpc\":\"2.0\",\"id\":1,\"result\":");
        body.push_str(result);
        body.push_str("}\n\n");
    }
    let events = parse_sse_text(&body).unwrap();
    let expected: Vec<Value> = results.iter().map(|result| json(result)).collect();
    assert_eq!(events, expected);
}

#[test]
fn stream_errors_end_the_reading() {
    let error = "data: {\"jsonrpc\":\"2.0\",\"id\":1,\"error\":{\"code\":-1,\"message\":\"no\"}}\n";
    assert_eq!(
        parse_sse_text(error).unwrap_err(),
        "remote A2A stream error -1: no"
    );
    assert!(parse_sse_text("data: {\n\n").is_err());
    assert!(parse_sse_text("").unwrap().is_empty());
}

#[test]
fn streamed_messages_are_answered_and_recorded() {
    let outcome = json(r#"{"id": "t", "status": {}}"#);
    let events = vec![outcome.clone()];
    let (answer, kept) = stream_answer("a", "p", "c", outcome, events, 8);
    assert_eq!(answer["transport"], "mesh_stream");
    assert_eq!(answer["task_id"], "t");
    assert_eq!(answer["events"].as_array().unwrap().len(), 1);
    let kept = kept.unwrap();
    assert_eq!((kept.task_id.as_str(), kept.updated_at_ms), ("t", 8));
    let (answer, kept) = stream_answer("a", "p", "c", json("{}"), Vec::new(), 8);
    assert_eq!(answer["task_id"], "");
    assert!(kept.is_none());
    let events = vec![json(r#"{"task": {"id": "t"}}"#), json(r#"{"kind": "status"}"#)];
    let (answer, kept) = stream_reply("a", "p", "c", Ok(events), 8).unwrap();
    assert_eq!(answer["task_id"], "t");
    assert_eq!(answer["result"], json(r#"{"id": "t"}"#));
    assert_eq!(kept.unwrap().correlation_id, "c");
    assert_eq!(
        stream_reply("a", "p", "c", Ok(Vec::new()), 8).unwrap_err(),
        "remote A2A stream completed without events"
    );
    assert_eq!(
        stream_reply("a", "p", "c", Err("broken".to_string()), 8).unwrap_err(),
        "broken"
    );
}

#[test]
fn plugin_artifacts_show_their_data() {
    let artifact = json(r#"{"artifactId": "x", "parts": [{"text": "a"}, {"data": {"n": 1}}]}"#);
    assert_eq!(artifact_data(&artifact).unwrap()["n"], 1);
    let answer = plugin_view_data_artifact("a", "t", artifact.clone()).unwrap();
    assert_eq!(answer["data"]["n"], 1);
    assert_eq!(answer["artifact"], artifact);
    let plain = json(r#"{"artifactId": "x", "parts": [{"text": "a"}]}"#);
    assert_eq!(
        plugin_view_data_artifact("a", "t", plain).unwrap_err(),
        "artifact `x` has no data parts"
    );
}
