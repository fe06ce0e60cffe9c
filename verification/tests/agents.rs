use mesh_agents::authoring::{
    agent_json_summary, capitalize, created_line, default_instructions, enabled_line, init_decision, list_lines,
    require_agent, show_lines, starter_card_text, starter_card_value, starter_runtime_text,
    title_from_agent_id, validated_lines, validation_report,
};
use mesh_agents::card::AgentCard;
use mesh_agents::config::{
    AgentRuntimeConfig, AuthConfig, InstructionDelivery, InstructionsConfig, QueueMode, RuntimeKind,
    ToolConfig, ToolKind, Visibility, WorkspaceKeep, WorkspaceMode,
};
use mesh_agents::gates::AgentGates;
use mesh_agents::mesh::{local_advertisements, local_agent_summaries, remote_agent_summaries,
    RemoteAgentCache};
use mesh_agents::plugin::plugin_get_agent;
use mesh_agents::registry::{
    config_to_save, AgentDefinition, AgentFiles, AgentRegistry, DirEntry, DirListing, FileText, RuntimeFile,
};
use mesh_agents::tools::{
    agents_answer, enabled_agent, get_agent_answer, local_agent, task_is_here,
};
use mesh_agents::validation::validate_agent_id;

const CARD: &str = r#"{
  "name": "Test Agent",
  "description": "A test agent.",
  "version": "1.0.0",
  "supportedInterfaces": [
    {
      "url": "http://localhost:3131/a2a/agents/test",
      "protocolBinding": "JSONRPC",
      "protocolVersion": "1.0"
    }
  ],
  "capabilities": { "streaming": true },
  "defaultInputModes": ["text/plain"],
  "defaultOutputModes": ["text/markdown"],
  "skills": []
}"#;

const MINIMAL_RUNTIME: &str = r#"
enabled = true
visibility = "private"

[runtime]
type = "opencode"
max_concurrent_tasks = 2

[runtime.workspace]
mode = "path"
path = "work"

[tools.mesh]
enabled = true

[[tools.extra]]
name = "github"
type = "mcp"
command = "github-mcp-server"
"#;

fn text_in(table: &toml::Table, key: &str) -> Option<String> {
    table.get(key).map(|value| value.as_str().unwrap().to_string())
}

fn flag_in(table: &toml::Table, key: &str, default: bool) -> bool {
    table.get(key).map_or(default, |value| value.as_bool().unwrap())
}

fn table_in(table: &toml::Table, key: &str) -> toml::Table {
    table
        .get(key)
        .map(|value| value.as_table().unwrap().clone())
        .unwrap_or_default()
}

fn texts_in(table: &toml::Table, key: &str) -> Vec<String> {
    match table.get(key) {
        Some(list) => list
            .as_array()
            .unwrap()
            .iter()
            .map(|item| item.as_str().unwrap().to_string())
            .collect(),
        None => Vec::new(),
    }
}

/// The configuration that a TOML text spells out, as far as these tests use it.
fn config_of(text: &str) -> AgentRuntimeConfig {
    let table: toml::Table = text.parse().unwrap();
    let mut config = AgentRuntimeConfig::default();
    config.enabled = flag_in(&table, "enabled", true);
    if text_in(&table, "visibility").as_deref() == Some("public") {
        config.visibility = Visibility::Public;
    }
    let runtime = table_in(&table, "runtime");
    config.runtime.kind = match text_in(&runtime, "type").as_deref() {
        None | Some("opencode") => RuntimeKind::Opencode,
        Some("goose") => RuntimeKind::Goose,
        Some("pi") => RuntimeKind::Pi,
        Some("acp") => RuntimeKind::Acp,
        Some("remote") => RuntimeKind::Remote,
        Some(other) => panic!("unknown runtime {other}"),
    };
    config.runtime.command = text_in(&runtime, "command");
    config.runtime.args = texts_in(&runtime, "args");
    if let Some(limit) = runtime.get("max_concurrent_tasks") {
        config.runtime.max_concurrent_tasks = limit.as_integer().unwrap() as usize;
    }
    let workspace = table_in(&runtime, "workspace");
    config.runtime.workspace.mode = match text_in(&workspace, "mode").as_deref() {
        None | Some("temp_per_task") => WorkspaceMode::TempPerTask,
        Some("path") => WorkspaceMode::Path,
        Some("agent_dir") => WorkspaceMode::AgentDir,
        Some("none") => WorkspaceMode::Off,
        Some(other) => panic!("unknown workspace mode {other}"),
    };
    config.runtime.workspace.path = text_in(&workspace, "path");
    config.runtime.workspace.keep = match text_in(&workspace, "keep").as_deref() {
        None | Some("on_failure") => WorkspaceKeep::OnFailure,
        Some("never") => WorkspaceKeep::Never,
        Some("always") => WorkspaceKeep::Always,
        Some(other) => panic!("unknown keep {other}"),
    };
    if table.contains_key("instructions") {
        let instructions = table_in(&table, "instructions");
        config.instructions = Some(InstructionsConfig {
            file: text_in(&instructions, "file"),
            delivery: match text_in(&instructions, "delivery").as_deref() {
                None | Some("first_prompt") => InstructionDelivery::FirstPrompt,
                Some("top_of_mind") => InstructionDelivery::TopOfMind,
                Some("none") => InstructionDelivery::Off,
                Some(other) => panic!("unknown delivery {other}"),
            },
        });
    }
    let tools = table_in(&table, "tools");
    config.tools.mesh.enabled = flag_in(&table_in(&tools, "mesh"), "enabled", true);
    if let Some(extra) = tools.get("extra") {
        for tool in extra.as_array().unwrap() {
            let tool = tool.as_table().unwrap();
            assert_eq!(text_in(tool, "type").as_deref(), Some("mcp"));
            config.tools.extra.push(ToolConfig {
                name: text_in(tool, "name").unwrap_or_default(),
                kind: ToolKind::Mcp,
                command: text_in(tool, "command"),
                ..ToolConfig::default()
            });
        }
    }
    let policy = table_in(&table, "policy");
    config.policy.advertise_on_mesh = flag_in(&policy, "advertise_on_mesh", false);
    config.policy.public_mesh = flag_in(&policy, "public_mesh", false);
    config
}

fn files(dir: &str, card: &str, runtime: &str) -> AgentFiles {
    AgentFiles {
        dir: dir.to_string(),
        card: FileText::Text(card.to_string()),
        runtime: RuntimeFile::Parsed(config_of(runtime)),
        instructions_found: false,
    }
}

fn one_agent(card: &str, runtime: &str) -> Result<AgentRegistry, String> {
    AgentRegistry::load_from_dir(
        "/agents",
        DirListing::Entries(vec![DirEntry::Directory(files("/agents/pr-review", card, runtime))]),
    )
}

fn agent_with(change: impl Fn(&mut AgentRuntimeConfig)) -> Result<AgentDefinition, String> {
    let mut config = AgentRuntimeConfig::default();
    change(&mut config);
    AgentDefinition::load(AgentFiles {
        dir: "/agents/pr-review".to_string(),
        card: FileText::Text(CARD.to_string()),
        runtime: RuntimeFile::Parsed(config),
        instructions_found: false,
    })
}

#[test]
fn loads_directory_agents() {
    let registry = one_agent(CARD, MINIMAL_RUNTIME).expect("load test agent registry");

    assert_eq!(registry.agents().len(), 1);
    let agent = registry.get("pr-review").expect("pr-review agent exists");
    assert_eq!(agent.id, "pr-review");
    assert_eq!(agent.runtime.runtime.max_concurrent_tasks, 2);
    assert_eq!(
        agent
            .runtime
            .runtime
            .workspace
            .path
            .as_ref()
            .expect("workspace path should be normalized"),
        "/agents/pr-review/work"
    );
    assert_eq!(agent.runtime.tools.extra[0].name, "github");
}

#[test]
fn rejects_loose_json_cards() {
    let error = AgentRegistry::load_from_dir(
        "/agents",
        DirListing::Entries(vec![DirEntry::Other("/agents/agent-card.json".to_string())]),
    )
    .expect_err("loose card should be rejected");

    assert!(error.contains("loose Agent Card files are not supported"));
    assert_eq!(
        error,
        "loose Agent Card files are not supported under /agents; use <agent-id>/agent-card.json"
    );
}

#[test]
fn rejects_acp_runtime_without_command() {
    let error = one_agent(
        CARD,
        r#"
enabled = true
visibility = "private"

[runtime]
type = "acp"
max_concurrent_tasks = 1

[runtime.workspace]
mode = "temp_per_task"
"#,
    )
    .expect_err("ACP runtime without command should be rejected");

    assert!(error.contains("runtime.command is required"), "{error}");
}

#[test]
fn rejects_path_workspace_without_path() {
    let error = one_agent(
        CARD,
        r#"
enabled = true
visibility = "private"

[runtime]
type = "opencode"
max_concurrent_tasks = 1

[runtime.workspace]
mode = "path"
"#,
    )
    .expect_err("path workspace without path should be rejected");

    assert!(error.contains("runtime.workspace.path is required"), "{error}");
}

#[test]
fn rejects_missing_instruction_file() {
    let error = one_agent(
        CARD,
        r#"
enabled = true
visibility = "private"

[runtime]
type = "opencode"
max_concurrent_tasks = 1

[runtime.workspace]
mode = "temp_per_task"

[instructions]
file = "missing.md"
"#,
    )
    .expect_err("missing instructions file should be rejected");

    assert!(error.contains("instructions.file"), "{error}");
    assert!(error.contains("missing.md"), "{error}");
    assert_eq!(
        error,
        "agent pr-review instructions.file /agents/pr-review/missing.md does not exist"
    );
}

#[test]
fn rejects_empty_card_interfaces() {
    let error = one_agent(
        r#"{
          "name": "Test Agent",
          "description": "A test agent.",
          "version": "1.0.0",
          "supportedInterfaces": [],
          "capabilities": { "streaming": true },
          "defaultInputModes": ["text/plain"],
          "defaultOutputModes": ["text/markdown"],
          "skills": []
        }"#,
        r#"
enabled = true
visibility = "private"

[runtime]
type = "opencode"
max_concurrent_tasks = 1
"#,
    )
    .expect_err("card without interfaces should be rejected");

    assert!(error.contains("supportedInterfaces"), "{error}");
}

#[test]
fn listings_that_are_no_directory() {
    let empty = AgentRegistry::load_from_dir("/agents", DirListing::Missing).unwrap();
    assert!(empty.agents().is_empty());
    assert_eq!(
        AgentRegistry::load_from_dir("/agents", DirListing::NotADirectory).unwrap_err(),
        "agents path /agents is not a directory"
    );
    assert_eq!(
        AgentRegistry::load_from_dir("/agents", DirListing::Unreadable).unwrap_err(),
        "failed to read agents directory /agents"
    );
    let entries = vec![
        DirEntry::Other("/agents/notes.txt".to_string()),
        DirEntry::Failed("no such entry".to_string()),
    ];
    assert_eq!(
        AgentRegistry::load_from_dir("/agents", DirListing::Entries(entries)).unwrap_err(),
        "no such entry"
    );
}

#[test]
fn agents_are_ordered_and_found() {
    let ids = ["zeta", "Alpha", "beta_2", "beta-1"];
    let entries = ids
        .iter()
        .map(|id| DirEntry::Directory(files(&format!("/agents/{id}"), CARD, "")))
        .collect();
    let registry = AgentRegistry::load_from_dir("/agents", DirListing::Entries(entries)).unwrap();
    let loaded: Vec<&str> = registry.agents().iter().map(|agent| agent.id.as_str()).collect();
    assert_eq!(loaded, ["Alpha", "beta-1", "beta_2", "zeta"]);
    for id in ids {
        assert_eq!(registry.get(id).unwrap().id, id);
        assert_eq!(registry.get(id).unwrap().dir, format!("/agents/{id}"));
    }
    assert!(registry.get("gamma").is_none());
}

#[test]
fn directories_that_hold_no_agent() {
    let load = |dir: &str, card: FileText, runtime: RuntimeFile| {
        AgentDefinition::load(AgentFiles {
            dir: dir.to_string(),
            card,
            runtime,
            instructions_found: false,
        })
        .unwrap_err()
    };
    let card = || FileText::Text(CARD.to_string());
    let parsed = || RuntimeFile::Parsed(AgentRuntimeConfig::default());
    assert_eq!(
        load("/agents/a", FileText::Missing, parsed()),
        "agent a is missing agent-card.json"
    );
    assert_eq!(
        load("/agents/a", card(), RuntimeFile::Missing),
        "agent a is missing runtime.toml"
    );
    assert_eq!(
        load("/agents/a", FileText::Unreadable, parsed()),
        "failed to read JSON file /agents/a/agent-card.json"
    );
    assert_eq!(
        load("/agents/a", FileText::Text("{}".to_string()), parsed()),
        "failed to parse /agents/a/agent-card.json"
    );
    assert_eq!(
        load("/agents/a", card(), RuntimeFile::Unreadable),
        "failed to read TOML file /agents/a/runtime.toml"
    );
    assert_eq!(
        load("/agents/a", card(), RuntimeFile::Malformed),
        "failed to parse /agents/a/runtime.toml"
    );
    assert_eq!(
        load("/", card(), parsed()),
        "agent directory must have a UTF-8 name"
    );
    assert_eq!(
        load("/agents/a b", card(), parsed()),
        "agent id \"a b\" must contain only ASCII letters, digits, '-' or '_'"
    );
}

#[test]
fn agent_ids() {
    assert!(validate_agent_id("pr-review_2").is_ok());
    assert_eq!(validate_agent_id("").unwrap_err(), "agent id cannot be empty");
    assert_eq!(
        validate_agent_id("a\"\n").unwrap_err(),
        "agent id \"a\\\"\\n\" must contain only ASCII letters, digits, '-' or '_'"
    );
    assert!(validate_agent_id("é").is_err());
}

#[test]
fn broken_configurations_are_named() {
    let error = agent_with(|config| config.runtime.command = Some(" ".to_string())).unwrap_err();
    assert_eq!(error, "agent pr-review runtime.command must not be empty");
    let error = agent_with(|config| {
        config.runtime.args = vec!["a".to_string(), "\t".to_string()];
    })
    .unwrap_err();
    assert_eq!(error, "agent pr-review runtime.args[1] must not be empty");
    let error = agent_with(|config| {
        config.runtime.env.insert("MODEL".to_string(), String::new());
    })
    .unwrap_err();
    assert_eq!(error, "agent pr-review runtime.env.MODEL must not be empty");
    let error = agent_with(|config| {
        config.runtime.env.insert(" ".to_string(), "x".to_string());
    })
    .unwrap_err();
    assert_eq!(error, "agent pr-review runtime.env key must not be empty");
    let error =
        agent_with(|config| config.runtime.workspace.prefix = Some(String::new())).unwrap_err();
    assert_eq!(error, "agent pr-review runtime.workspace.prefix must not be empty");
    let error = agent_with(|config| {
        config.tools.mesh.available_tools = vec![String::new()];
    })
    .unwrap_err();
    assert_eq!(error, "agent pr-review tools.mesh.available_tools[0] must not be empty");
    let error =
        agent_with(|config| config.tools.extra = vec![ToolConfig::default()]).unwrap_err();
    assert_eq!(error, "agent pr-review tools.extra[0].name must not be empty");
    let error = agent_with(|config| {
        config.tools.extra = vec![ToolConfig {
            name: "github".to_string(),
            env_keys: vec!["KEY".to_string(), " ".to_string()],
            ..ToolConfig::default()
        }];
    })
    .unwrap_err();
    assert_eq!(error, "agent pr-review tools.extra[0].env_keys[1] must not be empty");
    let error = agent_with(|config| {
        config.auth = Some(AuthConfig { bearer_token_env: Some(String::new()) });
    })
    .unwrap_err();
    assert_eq!(error, "agent pr-review auth.bearer_token_env must not be empty");
    let error = agent_with(|config| config.runtime.max_concurrent_tasks = 0).unwrap_err();
    assert_eq!(error, "agent pr-review runtime.max_concurrent_tasks must be at least 1");
    assert!(agent_with(|_| ()).is_ok());
}

#[test]
fn broken_cards_are_named() {
    let load = |from: &str, to: &str| {
        AgentDefinition::load(files("/agents/a", &CARD.replace(from, to), "")).unwrap_err()
    };
    assert_eq!(load("Test Agent", " "), "agent a card.name must not be empty");
    assert_eq!(load("A test agent.", ""), "agent a card.description must not be empty");
    assert_eq!(load("1.0.0", ""), "agent a card.version must not be empty");
    assert_eq!(
        load("http://localhost:3131/a2a/agents/test", ""),
        "agent a card.supportedInterfaces[0].url must not be empty"
    );
    assert_eq!(
        load("text/plain", ""),
        "agent a card.defaultInputModes[0] must not be empty"
    );
    assert_eq!(
        load("text/markdown", ""),
        "agent a card.defaultOutputModes[0] must not be empty"
    );
    assert_eq!(
        load(
            "\"skills\": []",
            r#""skills": [{"id": "x", "name": "X", "description": "Y", "tags": ["t", " "]}]"#
        ),
        "agent a card.skills[0].tags[1] must not be empty"
    );
}

#[test]
fn loaded_paths_lie_in_the_agent_directory() {
    let config = config_of("[instructions]\nfile = \"/etc/instructions.md\"\n");
    let normal = config.normalize_relative_paths("/agents/a");
    assert_eq!(
        normal.instructions.as_ref().unwrap().file.as_deref(),
        Some("/etc/instructions.md")
    );
    let config = config_of("[instructions]\nfile = \"docs/how.md\"\n");
    assert_eq!(
        config.instructions_path("/agents/a").as_deref(),
        Some("/agents/a/docs/how.md")
    );
    let once = config.normalize_relative_paths("/agents/a");
    let twice = once.clone().normalize_relative_paths("/agents/a");
    assert_eq!(
        once.instructions.unwrap().file,
        twice.instructions.unwrap().file
    );
}

fn mesh_card(id: &str) -> String {
    format!(
        r#"{{
          "name": "{id}",
          "description": "Test agent {id}.",
          "version": "1.0.0",
          "supportedInterfaces": [
            {{
              "url": "http://localhost:3131/a2a/agents/{id}",
              "protocolBinding": "JSONRPC",
              "protocolVersion": "1.0"
            }}
          ],
          "capabilities": {{ "streaming": true }},
          "defaultInputModes": ["text/plain"],
          "defaultOutputModes": ["text/markdown"],
          "skills": []
        }}"#
    )
}

fn mesh_agent(id: &str, advertise_on_mesh: bool) -> DirEntry {
    let runtime = format!(
        r#"
enabled = true
visibility = "private"

[runtime]
type = "opencode"
max_concurrent_tasks = 1

[runtime.workspace]
mode = "temp_per_task"

[tools.mesh]
enabled = true

[policy]
advertise_on_mesh = {advertise_on_mesh}
public_mesh = false
"#
    );
    DirEntry::Directory(files(&format!("/agents/{id}"), &mesh_card(id), &runtime))
}

#[test]
fn local_advertisements_include_only_agents_opted_into_mesh_advertising() {
    let entries = vec![mesh_agent("published", true), mesh_agent("private", false)];
    let registry = AgentRegistry::load_from_dir("/agents", DirListing::Entries(entries))
        .expect("load advertisements");

    let ads = local_advertisements(registry.agents(), "peer-a", 7);

    assert_eq!(ads.len(), 1);
    assert_eq!(ads[0].agent_id, "published");
    assert_eq!(ads[0].peer_id, "peer-a");
    assert_eq!(ads[0].updated_at_ms, 7);
    assert_eq!(ads[0].card["name"], "published");
}

#[test]
fn local_agent_summaries_still_show_private_local_agents() {
    let entries = vec![mesh_agent("private", false)];
    let registry =
        AgentRegistry::load_from_dir("/agents", DirListing::Entries(entries)).expect("load summaries");

    let summaries = local_agent_summaries(registry.agents());

    assert_eq!(summaries.len(), 1);
    assert_eq!(summaries[0]["agent_id"], "private");
    assert_eq!(summaries[0]["location"], "local");
    assert_eq!(summaries[0]["card_url"], "mesh://agents/private");
    assert_eq!(summaries[0]["runtime"], "opencode");
    assert_eq!(summaries[0]["max_concurrent_tasks"], 1);
}

fn fixture_entry(agent_id: &str, enabled: bool) -> DirEntry {
    let runtime = format!(
        r#"
enabled = {enabled}
visibility = "private"

[runtime]
type = "opencode"
max_concurrent_tasks = 1

[runtime.workspace]
mode = "path"
path = "work"

[tools.mesh]
enabled = true
"#
    );
    let dir = format!("/data/agents/{agent_id}");
    DirEntry::Directory(files(&dir, &mesh_card(agent_id), &runtime))
}

fn fixture(agents: &[(&str, bool)]) -> AgentRegistry {
    let entries = agents
        .iter()
        .map(|(id, enabled)| fixture_entry(id, *enabled))
        .collect();
    AgentRegistry::load_from_dir("/data/agents", DirListing::Entries(entries)).unwrap()
}

#[test]
fn get_agents_omits_disabled_agents() {
    let registry = fixture(&[("enabled", true), ("disabled", false)]);

    let result = agents_answer(
        local_agent_summaries(registry.agents()),
        remote_agent_summaries(&RemoteAgentCache::default()),
    );

    assert_eq!(result["agents"].as_array().unwrap().len(), 1);
    assert_eq!(result["agents"][0]["agent_id"], "enabled");
}

#[test]
fn agents_are_looked_up_by_tools() {
    let registry = fixture(&[("on", true), ("off", false)]);
    let cache: Result<RemoteAgentCache, String> = Ok(RemoteAgentCache::default());

    let answer = get_agent_answer(&registry, &cache, "on").unwrap();
    assert_eq!(answer["location"], "local");
    assert_eq!(answer["agent_card"]["name"], "on");
    assert_eq!(answer["runtime"]["type"], "opencode");
    assert_eq!(answer["runtime"]["workspace"]["mode"], "path");
    assert_eq!(answer["runtime"]["workspace"]["path"], "/data/agents/on/work");
    assert_eq!(answer["paths"]["runtime_config"], "/data/agents/on/runtime.toml");
    assert_eq!(
        get_agent_answer(&registry, &cache, "off").unwrap_err(),
        "agent `off` is disabled"
    );
    assert_eq!(
        get_agent_answer(&registry, &cache, "none").unwrap_err(),
        "agent `none` was not found"
    );
    let broken: Result<RemoteAgentCache, String> = Err("no cache".to_string());
    assert_eq!(get_agent_answer(&registry, &broken, "none").unwrap_err(), "no cache");
    assert!(get_agent_answer(&registry, &broken, "on").is_ok());
    assert_eq!(enabled_agent(&registry, "on").unwrap().id, "on");
    assert_eq!(
        enabled_agent(&registry, "none").unwrap_err(),
        "agent `none` was not found"
    );
    assert!(local_agent(&registry, "none").unwrap().is_none());
    let off = &registry.get("off").unwrap().runtime;
    let mut switched = off.clone();
    assert!(switched == *off);
    switched.set_enabled(true);
    assert!(switched != *off);
    let known = Ok(registry);
    assert!(task_is_here(&known, "on"));
    assert!(!task_is_here(&known, "off"));
    assert!(!task_is_here(&known, "none"));
    assert!(!task_is_here(&Err("unreadable".to_string()), "on"));
}

#[test]
fn reject_mode_denies_second_concurrent_task() {
    let registry = fixture(&[("reject-limit", true)]);
    let mut agent = registry.get("reject-limit").unwrap().clone();
    agent.runtime.runtime.queue.mode = QueueMode::Reject;
    agent.runtime.runtime.max_concurrent_tasks = 1;
    let mut gates = AgentGates::default();

    let first = gates.request(&agent, 1).unwrap();
    let error = gates.request(&agent, 2).unwrap_err();

    assert!(!first.waits);
    assert!(error.contains("concurrency limit"), "{error}");
    assert_eq!(error, "agent `reject-limit` is at its concurrency limit");

    assert_eq!(gates.release(first.gate), None);
    assert!(!gates.request(&agent, 3).unwrap().waits);
}

#[test]
fn queue_mode_rejects_when_pending_queue_is_full() {
    let registry = fixture(&[("queued-limit", true)]);
    let mut agent = registry.get("queued-limit").unwrap().clone();
    agent.runtime.runtime.queue.mode = QueueMode::Queue;
    agent.runtime.runtime.queue.max_pending_tasks = 1;
    agent.runtime.runtime.max_concurrent_tasks = 1;
    let mut gates = AgentGates::default();

    let first = gates.request(&agent, 1).unwrap();
    let waiting = gates.request(&agent, 2).unwrap();
    let error = gates.request(&agent, 3).unwrap_err();

    assert!(!first.waits);
    assert!(waiting.waits);
    assert!(error.contains("task queue is full"), "{error}");
    assert_eq!(error, "agent `queued-limit` task queue is full; pending limit is 1");
    assert_eq!(gates.release(first.gate), Some(2));
    assert_eq!(gates.release(waiting.gate), None);
}

#[test]
fn gates_keep_their_limit_and_order() {
    let registry = fixture(&[("a", true), ("b", true)]);
    let mut agent = registry.get("a").unwrap().clone();
    agent.runtime.runtime.max_concurrent_tasks = 2;
    let mut gates = AgentGates::default();
    let places: Vec<bool> = (0..5)
        .map(|ticket| gates.request(&agent, ticket).unwrap().waits)
        .collect();
    assert_eq!(places, [false, false, true, true, true]);
    let gate = gates.request(&agent, 9).unwrap().gate;
    assert!(!gates.request(registry.get("b").unwrap(), 10).unwrap().waits);
    assert!(gates.forget(gate, 3));
    assert!(!gates.forget(gate, 3));
    assert_eq!(gates.release(gate), Some(2));
    assert_eq!(gates.release(gate), Some(4));
    assert_eq!(gates.release(gate), Some(9));
    assert_eq!(gates.release(gate), None);
    agent.runtime.runtime.max_concurrent_tasks = 1;
    let fresh = gates.request(&agent, 11).unwrap();
    assert!(!fresh.waits);
    assert!(fresh.gate != gate);
    agent.runtime.runtime.queue.max_pending_tasks = 0;
    assert_eq!(
        gates.request(&agent, 12).unwrap_err(),
        "agent `a` is at its concurrency limit"
    );
}

fn new_agent(id: &str, kind: RuntimeKind) -> AgentFiles {
    AgentFiles {
        dir: format!("/agents/{id}"),
        card: FileText::Text(starter_card_text(id).unwrap()),
        runtime: RuntimeFile::Parsed(config_of(&starter_runtime_text(kind))),
        instructions_found: true,
    }
}

#[test]
fn init_generates_loadable_opencode_agent() {
    let entries = vec![DirEntry::Directory(new_agent("pr-review", RuntimeKind::Opencode))];

    let registry = AgentRegistry::load_from_dir("/agents", DirListing::Entries(entries)).unwrap();
    let agent = registry.get("pr-review").unwrap();
    assert_eq!(agent.card.name, "Pr Review");
    assert!(agent.runtime.enabled);
    assert_eq!(agent.runtime.runtime.max_concurrent_tasks, 1);
    assert_eq!(
        agent.runtime.instructions.as_ref().unwrap().file.as_deref(),
        Some("/agents/pr-review/instructions.md")
    );
}

#[test]
fn every_new_agent_can_be_loaded() {
    for kind in [
        RuntimeKind::Opencode,
        RuntimeKind::Goose,
        RuntimeKind::Pi,
        RuntimeKind::Acp,
        RuntimeKind::Remote,
    ] {
        let agent = AgentDefinition::load(new_agent("_x9-", kind)).unwrap();
        assert_eq!(agent.card.name, "X9");
        assert_eq!(agent.runtime.runtime.kind, kind);
    }
    assert_eq!(
        AgentDefinition::load(new_agent("-_-", RuntimeKind::Goose)).unwrap_err(),
        "agent -_- card.name must not be empty"
    );
    let far = AgentDefinition::load(new_agent("far", RuntimeKind::Remote)).unwrap();
    assert!(far.runtime.runtime.command.is_none());
    assert!(!starter_runtime_text(RuntimeKind::Remote).contains("command"));
}

fn switched(before: &AgentFiles, enabled: bool) -> AgentFiles {
    let agent = AgentDefinition::load(before.clone()).unwrap();
    AgentFiles {
        runtime: RuntimeFile::Parsed(config_to_save(agent, enabled)),
        ..before.clone()
    }
}

#[test]
fn switching_an_agent_changes_nothing_else() {
    let before = files("/agents/test-agent", CARD, MINIMAL_RUNTIME);
    let agent = AgentDefinition::load(before.clone()).unwrap();
    let path = Some("/agents/test-agent/work");
    assert_eq!(agent.runtime.runtime.workspace.path.as_deref(), path);
    let saved = config_to_save(agent.clone(), false);
    assert_eq!(saved.runtime.workspace.path.as_deref(), path);
    let off = switched(&before, false);
    let again = AgentDefinition::load(off.clone()).unwrap();
    assert!(!again.runtime.enabled);
    let mut expected = agent.runtime.clone();
    expected.set_enabled(false);
    assert!(again.runtime == expected);
    let back = AgentDefinition::load(switched(&off, true)).unwrap();
    assert!(back.runtime == agent.runtime);

    let near = AgentFiles { dir: "agents/test-agent".to_string(), ..before };
    let again = AgentDefinition::load(switched(&near, true)).unwrap();
    assert_eq!(
        again.runtime.runtime.workspace.path.as_deref(),
        Some("agents/test-agent/agents/test-agent/work")
    );
}

#[test]
fn the_plugin_tells_how_an_agent_is_run() {
    let registry = fixture(&[("on", true)]);
    let cache: Result<RemoteAgentCache, String> = Ok(RemoteAgentCache::default());
    let answer = plugin_get_agent(&registry, &cache, "on").unwrap();
    assert_eq!(answer["agent_card"]["name"], "on");
    assert_eq!(answer["runtime"]["type"], "opencode");
    assert_eq!(
        answer["runtime"]["max_concurrent_tasks"],
        registry.get("on").unwrap().runtime.runtime.max_concurrent_tasks
    );
    assert_eq!(answer["runtime"]["workspace"]["path"], "/data/agents/on/work");
    let tools = get_agent_answer(&registry, &cache, "on").unwrap();
    assert_eq!(answer["runtime"], tools["runtime"]);
    assert!(answer.get("paths").is_none());
}

#[test]
fn no_more_tasks_wait_than_may() {
    let registry = fixture(&[("a", true)]);
    let mut agent = registry.get("a").unwrap().clone();
    agent.runtime.runtime.max_concurrent_tasks = 2;
    agent.runtime.runtime.queue.max_pending_tasks = 2;
    let mut gates = AgentGates::default();
    let mut gate = 0;
    for ticket in 0..40 {
        match gates.request(&agent, ticket) {
            Ok(place) => gate = place.gate,
            Err(error) => assert!(error.contains("task queue is full"), "{error}"),
        }
        if ticket % 3 == 2 {
            gates.release(gate);
        }
        if ticket % 7 == 6 {
            gates.forget(gate, ticket);
        }
        assert!(gates.gates[gate].running <= 2);
        assert!(gates.gates[gate].waiting.len() <= 2);
    }
    let waiting = gates.gates[gate].waiting.clone();
    assert_eq!(waiting.len(), 2);
    assert!(gates.request(&agent, 99).is_err());
    assert_eq!(gates.gates[gate].waiting, waiting);
    assert_eq!(gates.release(gate), Some(waiting[0]));
}

#[test]
fn starter_files_are_spelled_out() {
    assert_eq!(
        starter_runtime_text(RuntimeKind::Acp),
        r#"enabled = true
visibility = "private"

[runtime]
type = "acp"
command = "agent-command"
args = ["acp"]
max_concurrent_tasks = 1

[runtime.workspace]
mode = "temp_per_task"
keep = "on_failure"

[instructions]
file = "instructions.md"
delivery = "first_prompt"

[tools.mesh]
enabled = true

[policy]
advertise_on_mesh = false
public_mesh = false
"#
    );
    let text = starter_card_text("pr-review").unwrap();
    assert!(text.starts_with("{\n  \"name\": \"Pr Review\",\n"));
    assert!(text.ends_with("}\n"));
    let card: serde_json::Value = serde_json::from_str(&text).unwrap();
    assert_eq!(card, starter_card_value("pr-review"));
    let loaded = AgentDefinition::load(new_agent("pr-review", RuntimeKind::Pi)).unwrap();
    assert_eq!(loaded.card.document, card);
    assert_eq!(
        card["supportedInterfaces"][0]["url"],
        "http://127.0.0.1:3131/a2a/agents/pr-review"
    );
    assert_eq!(card["skills"][0]["tags"][2], "pull-request");
    assert_eq!(card["capabilities"]["streaming"], true);
    assert_eq!(
        default_instructions("pr-review"),
        "You are pr-review, a code review agent. Prioritize concrete bugs, regressions, security risks, and missing tests. Lead with findings and include file and line references whenever possible.\n"
    );
}

#[test]
fn titles_are_made_of_ids() {
    assert_eq!(title_from_agent_id("pr-review"), "Pr Review");
    assert_eq!(title_from_agent_id("--a__b2-C_"), "A B2 C");
    assert_eq!(title_from_agent_id("_-"), "");
    assert_eq!(capitalize(""), "");
    assert_eq!(capitalize("ßeta"), "SSeta");
    assert_eq!(capitalize("9x"), "9x");
}

#[test]
fn a_new_agent_replaces_one_only_by_force() {
    assert_eq!(init_decision("a", "/agents/a", false, false), Ok(false));
    assert_eq!(init_decision("a", "/agents/a", false, true), Ok(false));
    assert_eq!(init_decision("a", "/agents/a", true, true), Ok(true));
    assert_eq!(
        init_decision("a", "/agents/a", true, false).unwrap_err(),
        "agent a already exists at /agents/a; pass --force to replace it"
    );
}

#[test]
fn validation_report_counts_runtime_and_policy() {
    let entries = vec![
        DirEntry::Directory(new_agent("pr-review", RuntimeKind::Opencode)),
        DirEntry::Directory(new_agent("explicit-acp", RuntimeKind::Acp)),
    ];
    let registry = AgentRegistry::load_from_dir("/agents", DirListing::Entries(entries)).unwrap();
    let report = validation_report(registry.agents());

    assert_eq!(report.status, "ok");
    assert_eq!(report.total, 2);
    assert_eq!(report.enabled, 2);
    let count_of = |runtime: &str| {
        report
            .runtimes
            .iter()
            .find(|entry| entry.runtime == runtime)
            .map(|entry| entry.count)
    };
    assert_eq!(count_of("opencode"), Some(1));
    assert_eq!(count_of("acp"), Some(1));
    assert!(report.agents.iter().all(|agent| !agent.advertise_on_mesh));
    assert_eq!(report.public, 0);
    assert_eq!(report.advertised_on_mesh, 0);
    assert_eq!(report.runtimes.len(), 2);
    assert_eq!(report.runtimes[0].runtime, "acp");
    assert_eq!(report.agents[0].id, "explicit-acp");
    assert_eq!(report.agents[0].name, "Explicit Acp");
    assert_eq!(report.agents[0].visibility, "private");
    assert_eq!(report.agents[1].runtime, "opencode");
}

#[test]
fn agents_are_listed_and_shown() {
    let mut agent = AgentDefinition::load(files("/agents/a", CARD, MINIMAL_RUNTIME)).unwrap();
    agent.runtime.visibility = Visibility::Public;
    let mut off = agent.clone();
    off.id = "b".to_string();
    off.runtime.set_enabled(false);
    off.runtime.runtime.kind = RuntimeKind::Goose;
    let agents = vec![agent.clone(), off];
    assert_eq!(
        list_lines(&agents),
        [
            "id\tenabled\tvisibility\truntime\tconcurrency\tname",
            "a\ttrue\tPublic\tOpencode\t2\tTest Agent",
            "b\tfalse\tPublic\tGoose\t2\tTest Agent",
        ]
    );
    assert_eq!(
        show_lines(&agent),
        [
            "id: a",
            "name: Test Agent",
            "description: A test agent.",
            "version: 1.0.0",
            "enabled: true",
            "visibility: Public",
            "runtime: Opencode",
            "max_concurrent_tasks: 2",
            "dir: /agents/a",
            "agent_card: /agents/a/agent-card.json",
            "runtime_config: /agents/a/runtime.toml",
        ]
    );
    let summary = agent_json_summary(&agent);
    assert_eq!(summary["visibility"], "public");
    assert_eq!(summary["runtime"], "opencode");
    assert_eq!(summary["max_concurrent_tasks"], 2);
    assert_eq!(summary["runtime_config"], "/agents/a/runtime.toml");
    assert_eq!(validated_lines(&agents, "/agents"), ["agent a is valid", "agent b is valid"]);
    assert_eq!(validated_lines(&Vec::new(), "/agents"), ["no agents found in /agents"]);
    assert_eq!(created_line("a", "/agents/a"), "created agent a at /agents/a");
    assert_eq!(enabled_line("a", true), "enabled agent a");
    assert_eq!(enabled_line("a", false), "disabled agent a");
    let report = validation_report(&agents);
    assert_eq!((report.enabled, report.public), (1, 2));
    let counts: usize = report.runtimes.iter().map(|entry| entry.count).sum();
    assert_eq!(counts, report.total);
}

#[test]
fn an_agent_that_is_asked_for_must_be_there() {
    let registry = one_agent(CARD, MINIMAL_RUNTIME).unwrap();
    assert_eq!(require_agent(&registry, "pr-review").unwrap().id, "pr-review");
    assert_eq!(
        require_agent(&registry, "other").unwrap_err(),
        "agent other was not found"
    );
}

#[test]
fn cards_are_read_in_the_form_of_the_protocol() {
    let document: serde_json::Value = serde_json::from_str(CARD).unwrap();
    let card = AgentCard::from_document(document);
    assert_eq!(card.name, "Test Agent");
    assert_eq!(card.supported_interfaces[0].protocol_binding, "JSONRPC");
    assert_eq!(card.default_input_modes, ["text/plain"]);
    assert!(card.skills.is_empty());
    let agent = AgentDefinition::load(files("/agents/a", CARD, "")).unwrap();
    assert_eq!(agent.card.version, "1.0.0");
    assert_eq!(agent.card.document["defaultOutputModes"][0], "text/markdown");
}
