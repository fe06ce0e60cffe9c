//! The names that documents, tools and templates use, told apart.

use vstd::prelude::*;

verus! {

/// No two names of members are the same.
pub proof fn lemma_member_names()
    ensures
        "id"@.len() == 2,
        "dir"@.len() == 3 && "dir"@[0] == 'd',
        "url"@.len() == 3 && "url"@[0] == 'u',
        "data"@.len() == 4 && "data"@[2] == 't' && "data"@[0] == 'd',
        "keep"@.len() == 4 && "keep"@[2] == 'e' && "keep"@[0] == 'k',
        "mode"@.len() == 4 && "mode"@[2] == 'd' && "mode"@[0] == 'm',
        "name"@.len() == 4 && "name"@[2] == 'm' && "name"@[0] == 'n',
        "note"@.len() == 4 && "note"@[2] == 't' && "note"@[0] == 'n',
        "path"@.len() == 4 && "path"@[2] == 't' && "path"@[0] == 'p',
        "role"@.len() == 4 && "role"@[2] == 'l' && "role"@[0] == 'r',
        "tags"@.len() == 4 && "tags"@[2] == 'g' && "tags"@[0] == 't',
        "task"@.len() == 4 && "task"@[2] == 's' && "task"@[0] == 't',
        "text"@.len() == 4 && "text"@[2] == 'x' && "text"@[0] == 't',
        "type"@.len() == 4 && "type"@[2] == 'p' && "type"@[0] == 't',
        "parts"@.len() == 5 && "parts"@[2] == 'r',
        "paths"@.len() == 5 && "paths"@[2] == 't',
        "state"@.len() == 5 && "state"@[2] == 'a',
        "agents"@.len() == 6 && "agents"@[3] == 'n' && "agents"@[0] == 'a',
        "events"@.len() == 6 && "events"@[3] == 'n' && "events"@[0] == 'e',
        "method"@.len() == 6 && "method"@[3] == 'h' && "method"@[0] == 'm',
        "params"@.len() == 6 && "params"@[3] == 'a' && "params"@[0] == 'p',
        "prefix"@.len() == 6 && "prefix"@[3] == 'f' && "prefix"@[0] == 'p',
        "reason"@.len() == 6 && "reason"@[3] == 's' && "reason"@[0] == 'r',
        "result"@.len() == 6 && "result"@[3] == 'u' && "result"@[0] == 'r',
        "skills"@.len() == 6 && "skills"@[3] == 'l' && "skills"@[0] == 's',
        "status"@.len() == 6 && "status"@[3] == 't' && "status"@[0] == 's',
        "target"@.len() == 6 && "target"@[3] == 'g' && "target"@[0] == 't',
        "enabled"@.len() == 7 && "enabled"@[0] == 'e',
        "history"@.len() == 7 && "history"@[0] == 'h',
        "jsonrpc"@.len() == 7 && "jsonrpc"@[0] == 'j',
        "message"@.len() == 7 && "message"@[0] == 'm',
        "peer_id"@.len() == 7 && "peer_id"@[0] == 'p',
        "runtime"@.len() == 7 && "runtime"@[0] == 'r',
        "summary"@.len() == 7 && "summary"@[0] == 's',
        "task_id"@.len() == 7 && "task_id"@[0] == 't',
        "version"@.len() == 7 && "version"@[0] == 'v',
        "agent_id"@.len() == 8 && "agent_id"@[6] == 'i',
        "artifact"@.len() == 8 && "artifact"@[6] == 'c',
        "card_url"@.len() == 8 && "card_url"@[6] == 'r',
        "findings"@.len() == 8 && "findings"@[6] == 'g',
        "location"@.len() == 8 && "location"@[6] == 'o',
        "metadata"@.len() == 8 && "metadata"@[6] == 't',
        "required"@.len() == 8 && "required"@[6] == 'e',
        "artifacts"@.len() == 9 && "artifacts"@[5] == 'a' && "artifacts"@[0] == 'a',
        "contextId"@.len() == 9 && "contextId"@[5] == 'x' && "contextId"@[0] == 'c',
        "mediaType"@.len() == 9 && "mediaType"@[5] == 'T' && "mediaType"@[0] == 'm',
        "messageId"@.len() == 9 && "messageId"@[5] == 'g' && "messageId"@[0] == 'm',
        "path_hint"@.len() == 9 && "path_hint"@[5] == 'h' && "path_hint"@[0] == 'p',
        "streaming"@.len() == 9 && "streaming"@[5] == 'm' && "streaming"@[0] == 's',
        "timestamp"@.len() == 9 && "timestamp"@[5] == 't' && "timestamp"@[0] == 't',
        "transport"@.len() == 9 && "transport"@[5] == 'p' && "transport"@[0] == 't',
        "workspace"@.len() == 9 && "workspace"@[5] == 'p' && "workspace"@[0] == 'w',
        "agent_card"@.len() == 10 && "agent_card"@[2] == 'e',
        "artifactId"@.len() == 10 && "artifactId"@[2] == 't',
        "context_id"@.len() == 10 && "context_id"@[2] == 'n',
        "properties"@.len() == 10 && "properties"@[2] == 'o',
        "visibility"@.len() == 10 && "visibility"@[2] == 's',
        "artifact_id"@.len() == 11 && "artifact_id"@[0] == 'a',
        "description"@.len() == 11 && "description"@[0] == 'd',
        "interrupted"@.len() == 11 && "interrupted"@[0] == 'i',
        "capabilities"@.len() == 12,
        "residual_risk"@.len() == 13,
        "correlation_id"@.len() == 14 && "correlation_id"@[0] == 'c',
        "runtime_config"@.len() == 14 && "runtime_config"@[0] == 'r',
        "schema_version"@.len() == 14 && "schema_version"@[0] == 's',
        "protocolBinding"@.len() == 15 && "protocolBinding"@[8] == 'B',
        "protocolVersion"@.len() == 15 && "protocolVersion"@[8] == 'V',
        "defaultInputModes"@.len() == 17 && "defaultInputModes"@[9] == 'p',
        "mesh_llm_executor"@.len() == 17 && "mesh_llm_executor"@[9] == 'e',
        "mesh_llm_recovery"@.len() == 17 && "mesh_llm_recovery"@[9] == 'r',
        "defaultOutputModes"@.len() == 18,
        "supportedInterfaces"@.len() == 19,
        "additionalProperties"@.len() == 20 && "additionalProperties"@[0] == 'a',
        "max_concurrent_tasks"@.len() == 20 && "max_concurrent_tasks"@[0] == 'm',
        "mesh_llm_pending_remote"@.len() == 23,
{
    reveal_strlit("id");
    reveal_strlit("dir");
    reveal_strlit("url");
    reveal_strlit("data");
    reveal_strlit("keep");
    reveal_strlit("mode");
    reveal_strlit("name");
    reveal_strlit("note");
    reveal_strlit("path");
    reveal_strlit("role");
    reveal_strlit("tags");
    reveal_strlit("task");
    reveal_strlit("text");
    reveal_strlit("type");
    reveal_strlit("parts");
    reveal_strlit("paths");
    reveal_strlit("state");
    reveal_strlit("agents");
    reveal_strlit("events");
    reveal_strlit("method");
    reveal_strlit("params");
    reveal_strlit("prefix");
    reveal_strlit("reason");
    reveal_strlit("result");
    reveal_strlit("skills");
    reveal_strlit("status");
    reveal_strlit("target");
    reveal_strlit("enabled");
    reveal_strlit("history");
    reveal_strlit("jsonrpc");
    reveal_strlit("message");
    reveal_strlit("peer_id");
    reveal_strlit("runtime");
    reveal_strlit("summary");
    reveal_strlit("task_id");
    reveal_strlit("version");
    reveal_strlit("agent_id");
    reveal_strlit("artifact");
    reveal_strlit("card_url");
    reveal_strlit("findings");
    reveal_strlit("location");
    reveal_strlit("metadata");
    reveal_strlit("required");
    reveal_strlit("artifacts");
    reveal_strlit("contextId");
    reveal_strlit("mediaType");
    reveal_strlit("messageId");
    reveal_strlit("path_hint");
    reveal_strlit("streaming");
    reveal_strlit("timestamp");
    reveal_strlit("transport");
    reveal_strlit("workspace");
    reveal_strlit("agent_card");
    reveal_strlit("artifactId");
    reveal_strlit("context_id");
    reveal_strlit("properties");
    reveal_strlit("visibility");
    reveal_strlit("artifact_id");
    reveal_strlit("description");
    reveal_strlit("interrupted");
    reveal_strlit("capabilities");
    reveal_strlit("residual_risk");
    reveal_strlit("correlation_id");
    reveal_strlit("runtime_config");
    reveal_strlit("schema_version");
    reveal_strlit("protocolBinding");
    reveal_strlit("protocolVersion");
    reveal_strlit("defaultInputModes");
    reveal_strlit("mesh_llm_executor");
    reveal_strlit("mesh_llm_recovery");
    reveal_strlit("defaultOutputModes");
    reveal_strlit("supportedInterfaces");
    reveal_strlit("additionalProperties");
    reveal_strlit("max_concurrent_tasks");
    reveal_strlit("mesh_llm_pending_remote");
}

/// No two names of tools are the same.
pub proof fn lemma_tool_names()
    ensures
        "get_task"@.len() == 8,
        "get_agent"@.len() == 9,
        "get_agents"@.len() == 10,
        "send_message"@.len() == 12,
        "view_data_artifact"@.len() == 18 && "view_data_artifact"@[5] == 'd',
        "view_text_artifact"@.len() == 18 && "view_text_artifact"@[5] == 't',
{
    reveal_strlit("get_task");
    reveal_strlit("get_agent");
    reveal_strlit("get_agents");
    reveal_strlit("send_message");
    reveal_strlit("view_data_artifact");
    reveal_strlit("view_text_artifact");
}

/// No two names of template variables are the same.
pub proof fn lemma_variable_names()
    ensures
        "task.id"@.len() == 7,
        "agent.id"@.len() == 8,
        "agent.dir"@.len() == 9,
        "agent.name"@.len() == 10 && "agent.name"@[0] == 'a',
        "mesh.model"@.len() == 10 && "mesh.model"@[0] == 'm',
        "mesh.api_url"@.len() == 12 && "mesh.api_url"@[5] == 'a',
        "mesh.mcp_url"@.len() == 12 && "mesh.mcp_url"@[5] == 'm',
        "mesh.data_dir"@.len() == 13 && "mesh.data_dir"@[0] == 'm',
        "task.logs_dir"@.len() == 13 && "task.logs_dir"@[0] == 't',
        "task.workspace"@.len() == 14,
        "agent.card_path"@.len() == 15 && "agent.card_path"@[0] == 'a',
        "mesh.openai_url"@.len() == 15 && "mesh.openai_url"@[0] == 'm',
        "instructions.dir"@.len() == 16 && "instructions.dir"@[0] == 'i',
        "task.prompt_path"@.len() == 16 && "task.prompt_path"@[0] == 't',
        "instructions.file"@.len() == 17,
        "agent.runtime_path"@.len() == 18 && "agent.runtime_path"@[0] == 'a',
        "task.artifacts_dir"@.len() == 18 && "task.artifacts_dir"@[0] == 't',
{
    reveal_strlit("task.id");
    reveal_strlit("agent.id");
    reveal_strlit("agent.dir");
    reveal_strlit("agent.name");
    reveal_strlit("mesh.model");
    reveal_strlit("mesh.api_url");
    reveal_strlit("mesh.mcp_url");
    reveal_strlit("mesh.data_dir");
    reveal_strlit("task.logs_dir");
    reveal_strlit("task.workspace");
    reveal_strlit("agent.card_path");
    reveal_strlit("mesh.openai_url");
    reveal_strlit("instructions.dir");
    reveal_strlit("task.prompt_path");
    reveal_strlit("instructions.file");
    reveal_strlit("agent.runtime_path");
    reveal_strlit("task.artifacts_dir");
}

/// No two names of states are the same.
pub proof fn lemma_state_names()
    ensures
        "TASK_STATE_FAILED"@.len() == 17,
        "TASK_STATE_WORKING"@.len() == 18,
        "TASK_STATE_CANCELED"@.len() == 19 && "TASK_STATE_CANCELED"@[11] == 'C',
        "TASK_STATE_REJECTED"@.len() == 19 && "TASK_STATE_REJECTED"@[11] == 'R',
        "TASK_STATE_COMPLETED"@.len() == 20 && "TASK_STATE_COMPLETED"@[11] == 'C',
        "TASK_STATE_SUBMITTED"@.len() == 20 && "TASK_STATE_SUBMITTED"@[11] == 'S',
        "TASK_STATE_UNSPECIFIED"@.len() == 22,
        "TASK_STATE_AUTH_REQUIRED"@.len() == 24,
        "TASK_STATE_INPUT_REQUIRED"@.len() == 25,
{
    reveal_strlit("TASK_STATE_FAILED");
    reveal_strlit("TASK_STATE_WORKING");
    reveal_strlit("TASK_STATE_CANCELED");
    reveal_strlit("TASK_STATE_REJECTED");
    reveal_strlit("TASK_STATE_COMPLETED");
    reveal_strlit("TASK_STATE_SUBMITTED");
    reveal_strlit("TASK_STATE_UNSPECIFIED");
    reveal_strlit("TASK_STATE_AUTH_REQUIRED");
    reveal_strlit("TASK_STATE_INPUT_REQUIRED");
}

/// No two names of runtimes are the same.
pub proof fn lemma_runtime_names()
    ensures
        "pi"@.len() == 2,
        "acp"@.len() == 3,
        "goose"@.len() == 5,
        "remote"@.len() == 6,
        "opencode"@.len() == 8,
{
    reveal_strlit("pi");
    reveal_strlit("acp");
    reveal_strlit("goose");
    reveal_strlit("remote");
    reveal_strlit("opencode");
}

} // verus!
