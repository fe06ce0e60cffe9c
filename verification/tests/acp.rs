use mesh_agents::acp::{
    acp_process_args, mesh_url, prompt_instructions_file, sanitize_path_component, task_prompt,
    task_runtime_paths, task_workspace, AcpCommand, HostPrograms,
};
use mesh_agents::card::AgentCard;
use mesh_agents::config::{
    AgentRuntimeConfig, InstructionDelivery, InstructionsConfig, QueueConfig, RuntimeConfig,
    RuntimeKind, WorkspaceConfig, WorkspaceKeep, WorkspaceMode,
};
use mesh_agents::pairs::{EnvMap, Pair};
use mesh_agents::registry::{AgentDefinition, FileText};
use mesh_agents::templates::TemplateContext;

fn runtime(kind: RuntimeKind) -> RuntimeConfig {
    RuntimeConfig {
        kind,
        command: None,
        args: Vec::new(),
        model: None,
        mode: None,
        session_policy: None,
        max_concurrent_tasks: 1,
        queue: QueueConfig::default(),
        workspace: WorkspaceConfig::default(),
        env: EnvMap::default(),
    }
}

fn all_programs() -> HostPrograms {
    HostPrograms {
        opencode: true,
        goose: true,
        pi: true,
        desktop_goose: true,
    }
}

#[test]
fn opencode_defaults_to_opencode_acp() {
    let command = AcpCommand::from_runtime(&runtime(RuntimeKind::Opencode), &all_programs())
        .expect("OpenCode is on the path");
    assert_eq!(command.command, "opencode");
    assert_eq!(command.args, ["acp"]);

    let error = AcpCommand::from_runtime(&runtime(RuntimeKind::Opencode), &HostPrograms::default())
        .expect_err("missing OpenCode should return an error");
    assert!(error.contains("OpenCode CLI"), "unexpected error: {error}");
}

#[test]
fn opencode_configured_command_defaults_to_acp() {
    let mut runtime = runtime(RuntimeKind::Opencode);
    runtime.command = Some("/tmp/opencode".to_string());

    let command = AcpCommand::from_runtime(&runtime, &HostPrograms::default()).unwrap();

    assert_eq!(command.command, "/tmp/opencode");
    assert_eq!(command.args, ["acp"]);
}

#[test]
fn goose_default_requires_acp_cli() {
    let command =
        AcpCommand::from_runtime(&runtime(RuntimeKind::Goose), &all_programs()).unwrap();
    assert_eq!(command.command, "goose");
    assert_eq!(command.args, ["acp"]);

    let error = AcpCommand::from_runtime(&runtime(RuntimeKind::Goose), &HostPrograms::default())
        .unwrap_err();
    assert!(error.contains("Goose CLI"), "{error}");

    let desktop = HostPrograms {
        desktop_goose: true,
        ..HostPrograms::default()
    };
    let error = AcpCommand::from_runtime(&runtime(RuntimeKind::Goose), &desktop).unwrap_err();
    assert!(error.contains("Desktop Goose"), "{error}");
}

#[test]
fn goose_configured_command_defaults_to_acp() {
    let mut runtime = runtime(RuntimeKind::Goose);
    runtime.command = Some("goose".to_string());

    let command = AcpCommand::from_runtime(&runtime, &HostPrograms::default()).unwrap();

    assert_eq!(command.command, "goose");
    assert_eq!(command.args, ["acp"]);
}

#[test]
fn pi_configured_command_defaults_to_acp() {
    let mut runtime = runtime(RuntimeKind::Pi);
    runtime.command = Some("pi".to_string());

    let command = AcpCommand::from_runtime(&runtime, &HostPrograms::default()).unwrap();

    assert_eq!(command.command, "pi");
    assert_eq!(command.args, ["acp"]);
}

#[test]
fn acp_requires_command() {
    let error = AcpCommand::from_runtime(&runtime(RuntimeKind::Acp), &HostPrograms::default())
        .unwrap_err();

    assert!(error.contains("requires command"));
}

fn agent_for(runtime: RuntimeConfig) -> AgentDefinition {
    AgentDefinition {
        id: "pr-review".to_string(),
        dir: "/agents/pr-review".to_string(),
        card_path: "/agents/pr-review/agent-card.json".to_string(),
        runtime_path: "/agents/pr-review/runtime.toml".to_string(),
        card: AgentCard::from_document(
            serde_json::from_str(
                r#"{
                  "name": "PR Review",
                  "description": "Reviews pull requests.",
                  "version": "1.0.0",
                  "supportedInterfaces": [],
                  "capabilities": {},
                  "defaultInputModes": ["text/plain"],
                  "defaultOutputModes": ["text/markdown"],
                  "skills": []
                }"#,
            )
            .unwrap(),
        ),
        runtime: AgentRuntimeConfig {
            runtime,
            ..AgentRuntimeConfig::default()
        },
    }
}

#[test]
fn acp_process_args_include_runtime_env() {
    let mut runtime = runtime(RuntimeKind::Opencode);
    runtime.command = Some("opencode".to_string());
    runtime.env.insert("GOOSE_PROVIDER".into(), "openai".into());
    runtime.env.insert("GOOSE_MODEL".into(), "mesh".into());
    let agent = agent_for(runtime);
    let paths = task_runtime_paths("/tmp/data", "pr-review", "task-1");

    let args = acp_process_args(
        &agent,
        "/tmp/workspace",
        &paths,
        &HostPrograms::default(),
        &Vec::new(),
    )
    .unwrap();

    assert_eq!(args[0], "GOOSE_MODEL=mesh");
    assert_eq!(args[1], "GOOSE_PROVIDER=openai");
    assert_eq!(args[2], "opencode");
    assert_eq!(args[3], "acp");
    assert_eq!(args.len(), 4);
}

#[test]
fn acp_process_args_expand_runtime_templates_and_env() {
    let mut runtime = runtime(RuntimeKind::Acp);
    runtime.command = Some("{{ env.HOME }}/bin/harness".to_string());
    runtime.args = vec![
        "--agent".to_string(),
        "{{ agent.id }}".to_string(),
        "--cwd".to_string(),
        "{{ task.workspace }}".to_string(),
        "--prompt".to_string(),
        "{{ task.prompt_path }}".to_string(),
        "--mcp".to_string(),
        "{{ mesh.mcp_url }}".to_string(),
        "--config".to_string(),
        "$HOME/.config/harness.toml".to_string(),
    ];
    runtime.env.insert(
        "TASK_ARTIFACTS".to_string(),
        "{{ task.artifacts_dir }}".to_string(),
    );
    runtime.model = Some("qwen3-coder".to_string());
    let mut agent = agent_for(runtime);
    agent.runtime.instructions = Some(InstructionsConfig {
        file: Some("/tmp/instructions.md".to_string()),
        delivery: InstructionDelivery::FirstPrompt,
    });
    let paths = task_runtime_paths("/tmp/data", "pr-review", "task-42");
    assert_eq!(
        paths.prompt_path,
        "/tmp/data/a2a/agents/pr-review/runtime/task-42/prompt.txt"
    );
    assert_eq!(
        paths.artifacts_dir,
        "/tmp/data/a2a/agents/pr-review/runtime/task-42/artifacts"
    );
    assert_eq!(
        paths.logs_dir,
        "/tmp/data/a2a/agents/pr-review/runtime/task-42/logs"
    );
    let environment = vec![Pair::new("HOME", "/home/someone")];

    let args = acp_process_args(
        &agent,
        "/tmp/workspace",
        &paths,
        &HostPrograms::default(),
        &environment,
    )
    .unwrap();

    assert_eq!(args[0], format!("TASK_ARTIFACTS={}", paths.artifacts_dir));
    assert_eq!(args[1], "/home/someone/bin/harness");
    let expected = vec![
        "--agent".to_string(),
        "pr-review".to_string(),
        "--cwd".to_string(),
        "/tmp/workspace".to_string(),
        "--prompt".to_string(),
        paths.prompt_path.clone(),
        "--mcp".to_string(),
        "http://127.0.0.1:3131/mcp".to_string(),
        "--config".to_string(),
        "/home/someone/.config/harness.toml".to_string(),
    ];
    assert_eq!(&args[2..], expected.as_slice());

    let error = acp_process_args(
        &agent,
        "/tmp/workspace",
        &paths,
        &HostPrograms::default(),
        &Vec::new(),
    )
    .unwrap_err();
    assert!(error.contains("HOME"), "{error}");
}

#[test]
fn mesh_urls_come_from_the_environment() {
    let environment = vec![Pair::new("MESH_LLM_MCP_URL", "http://mesh/mcp")];
    assert_eq!(
        mesh_url(&environment, "MESH_LLM_MCP_URL", "http://127.0.0.1:3131/mcp"),
        "http://mesh/mcp"
    );
    assert_eq!(
        mesh_url(&environment, "MESH_LLM_API_URL", "http://127.0.0.1:3131"),
        "http://127.0.0.1:3131"
    );
    let paths = task_runtime_paths("/tmp/data", "pr-review", "task-42");
    let agent = agent_for(runtime(RuntimeKind::Opencode));
    let context = TemplateContext::new(&agent, "/work", &paths, &environment);
    assert_eq!(
        context
            .expand("{{mesh.mcp_url}} {{ agent.name }} {{ mesh.model }} {{task.workspace}}")
            .unwrap(),
        "http://mesh/mcp PR Review auto /work"
    );
}

fn user_message(texts: &[&str]) -> serde_json::Value {
    let parts: Vec<serde_json::Value> = texts
        .iter()
        .map(|text| {
            let mut part = serde_json::Map::new();
            part.insert("text".to_string(), serde_json::Value::from(*text));
            serde_json::Value::Object(part)
        })
        .collect();
    let mut message = serde_json::Map::new();
    message.insert("messageId".to_string(), serde_json::Value::from("m1"));
    message.insert("role".to_string(), serde_json::Value::from("ROLE_USER"));
    message.insert("parts".to_string(), serde_json::Value::Array(parts));
    serde_json::Value::Object(message)
}

#[test]
fn prompt_includes_first_prompt_instructions() {
    let mut agent = agent_for(runtime(RuntimeKind::Opencode));
    agent.runtime.instructions = Some(InstructionsConfig {
        file: Some("/tmp/instructions.md".to_string()),
        delivery: InstructionDelivery::FirstPrompt,
    });
    let message = Some(user_message(&["Please review PR 42"]));
    let file = FileText::Text("Review the code carefully.".to_string());
    assert_eq!(
        prompt_instructions_file(&agent).as_deref(),
        Some("/tmp/instructions.md")
    );

    let prompt = task_prompt(&agent, &message, &file).unwrap();

    assert_eq!(
        prompt,
        "Review the code carefully.\n\n---\n\nPlease review PR 42"
    );
    assert!(task_prompt(&agent, &message, &FileText::Unreadable).is_err());
    agent.runtime.instructions.as_mut().unwrap().delivery = InstructionDelivery::Off;
    assert_eq!(prompt_instructions_file(&agent), None);
    assert_eq!(
        task_prompt(&agent, &message, &FileText::Missing).unwrap(),
        "Please review PR 42"
    );
}

#[test]
fn temp_workspace_uses_agent_and_task_ids() {
    let mut agent = agent_for(runtime(RuntimeKind::Opencode));
    agent.runtime.runtime.workspace = WorkspaceConfig {
        mode: WorkspaceMode::TempPerTask,
        path: None,
        prefix: Some("mesh-test-".to_string()),
        keep: WorkspaceKeep::OnFailure,
    };

    let workspace = task_workspace(&agent, "task/1", "/tmp").unwrap();

    assert!(workspace.ends_with("mesh-test-pr-review-task_1"));
    assert_eq!(workspace, "/tmp/mesh-test-pr-review-task_1");
    agent.runtime.runtime.workspace.mode = WorkspaceMode::AgentDir;
    assert_eq!(task_workspace(&agent, "task/1", "/tmp").unwrap(), "/agents/pr-review");
    agent.runtime.runtime.workspace.mode = WorkspaceMode::Path;
    assert!(task_workspace(&agent, "task/1", "/tmp").is_err());
    agent.runtime.runtime.workspace.path = Some("/work".to_string());
    assert_eq!(task_workspace(&agent, "task/1", "/tmp").unwrap(), "/work");
}

#[test]
fn path_components_are_made_safe() {
    assert_eq!(sanitize_path_component("task/1"), "task_1");
    assert_eq!(sanitize_path_component("a.b c_é-9"), "a_b_c__-9");
    assert_eq!(
        sanitize_path_component(&sanitize_path_component("../x")),
        sanitize_path_component("../x")
    );
}
