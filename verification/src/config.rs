//! The runtime configuration of an agent: its parts, their defaults, and the
//! paths in it that are relative to the agent's directory.

use vstd::prelude::*;

use crate::pairs::EnvMap;
use crate::paths::{absolute, join};
#[allow(unused_imports)]
use crate::json::optional_chars;
#[allow(unused_imports)]
use crate::paths::{is_absolute, joined};
#[allow(unused_imports)]
use crate::text::{has_prefix, has_suffix, texts};
#[allow(unused_imports)]
use crate::tools::tool_names;

verus! {

/// Who may see an agent.
#[derive(Clone, Copy, Debug, PartialEq, Eq, Structural)]
pub enum Visibility {
    Private,
    Public,
}

impl Default for Visibility {
    fn default() -> (value: Self)
        ensures
            value == Visibility::Private,
    {
        Visibility::Private
    }
}

/// What runs an agent's tasks.
#[derive(Clone, Copy, Debug, PartialEq, Eq, Structural)]
pub enum RuntimeKind {
    Opencode,
    Goose,
    Pi,
    Acp,
    Remote,
}

impl Default for RuntimeKind {
    fn default() -> (value: Self)
        ensures
            value == RuntimeKind::Opencode,
    {
        RuntimeKind::Opencode
    }
}

/// What happens to a task that finds its agent busy.
#[derive(Clone, Copy, Debug, PartialEq, Eq, Structural)]
pub enum QueueMode {
    Queue,
    Reject,
}

impl Default for QueueMode {
    fn default() -> (value: Self)
        ensures
            value == QueueMode::Queue,
    {
        QueueMode::Queue
    }
}

/// Where a task works.
#[derive(Clone, Copy, Debug, PartialEq, Eq, Structural)]
pub enum WorkspaceMode {
    Path,
    TempPerTask,
    AgentDir,
    Off,
}

impl Default for WorkspaceMode {
    fn default() -> (value: Self)
        ensures
            value == WorkspaceMode::TempPerTask,
    {
        WorkspaceMode::TempPerTask
    }
}

/// When a task's workspace is kept.
#[derive(Clone, Copy, Debug, PartialEq, Eq, Structural)]
pub enum WorkspaceKeep {
    Never,
    OnFailure,
    Always,
}

impl Default for WorkspaceKeep {
    fn default() -> (value: Self)
        ensures
            value == WorkspaceKeep::OnFailure,
    {
        WorkspaceKeep::OnFailure
    }
}

/// How an agent's instructions reach the harness.
#[derive(Clone, Copy, Debug, PartialEq, Eq, Structural)]
pub enum InstructionDelivery {
    FirstPrompt,
    TopOfMind,
    Off,
}

impl Default for InstructionDelivery {
    fn default() -> (value: Self)
        ensures
            value == InstructionDelivery::FirstPrompt,
    {
        InstructionDelivery::FirstPrompt
    }
}

/// Where a tool comes from.
#[derive(Clone, Copy, Debug, PartialEq, Eq, Structural)]
pub enum ToolKind {
    Mcp,
    HarnessBuiltin,
}

impl Default for ToolKind {
    fn default() -> (value: Self)
        ensures
            value == ToolKind::Mcp,
    {
        ToolKind::Mcp
    }
}

#[derive(Clone, Debug, PartialEq, Eq)]
pub struct QueueConfig {
    pub mode: QueueMode,
    pub max_pending_tasks: usize,
}

impl Default for QueueConfig {
    fn default() -> (value: Self)
        ensures
            value.mode == QueueMode::Queue,
            value.max_pending_tasks == 16,
    {
        QueueConfig { mode: QueueMode::Queue, max_pending_tasks: 16 }
    }
}

#[derive(Clone, Debug, PartialEq, Eq)]
pub struct WorkspaceConfig {
    pub mode: WorkspaceMode,
    pub path: Option<String>,
    pub prefix: Option<String>,
    pub keep: WorkspaceKeep,
}

impl Default for WorkspaceConfig {
    fn default() -> (value: Self)
        ensures
            value.mode == WorkspaceMode::TempPerTask,
            value.path is None,
            optional_chars(value.prefix) == Some("mesh-a2a-"@),
            value.keep == WorkspaceKeep::OnFailure,
    {
        WorkspaceConfig {
            mode: WorkspaceMode::TempPerTask,
            path: None,
            prefix: Some("mesh-a2a-".to_string()),
            keep: WorkspaceKeep::OnFailure,
        }
    }
}

#[derive(Clone, Debug, PartialEq, Eq)]
pub struct RuntimeConfig {
    pub kind: RuntimeKind,
    pub command: Option<String>,
    pub args: Vec<String>,
    pub model: Option<String>,
    pub mode: Option<String>,
    pub session_policy: Option<String>,
    pub max_concurrent_tasks: usize,
    pub queue: QueueConfig,
    pub workspace: WorkspaceConfig,
    pub env: EnvMap,
}

impl Default for RuntimeConfig {
    fn default() -> (value: Self)
        ensures
            value.kind == RuntimeKind::Opencode,
            value.command is None,
            value.args@.len() == 0,
            value.model is None,
            value.mode is None,
            optional_chars(value.session_policy) == Some("per_task"@),
            value.max_concurrent_tasks == 1,
            call_ensures(QueueConfig::default, (), value.queue),
            call_ensures(WorkspaceConfig::default, (), value.workspace),
            value.env@.len() == 0,
    {
        RuntimeConfig {
            kind: RuntimeKind::Opencode,
            command: None,
            args: Vec::new(),
            model: None,
            mode: None,
            session_policy: Some("per_task".to_string()),
            max_concurrent_tasks: 1,
            queue: QueueConfig::default(),
            workspace: WorkspaceConfig::default(),
            env: EnvMap::new(),
        }
    }
}

#[derive(Clone, Debug, PartialEq, Eq)]
pub struct InstructionsConfig {
    pub file: Option<String>,
    pub delivery: InstructionDelivery,
}

impl Default for InstructionsConfig {
    fn default() -> (value: Self)
        ensures
            value.file is None,
            value.delivery == InstructionDelivery::FirstPrompt,
    {
        InstructionsConfig { file: None, delivery: InstructionDelivery::FirstPrompt }
    }
}

#[derive(Clone, Debug, PartialEq, Eq)]
pub struct MeshToolsConfig {
    pub enabled: bool,
    pub available_tools: Vec<String>,
}

/// The mesh tools that an agent may use unless it says otherwise.
pub open spec fn default_mesh_tools() -> Seq<Seq<char>> {
    seq![
        "agents.get_agents"@,
        "agents.get_agent"@,
        "agents.send_message"@,
        "agents.get_task"@,
        "agents.view_text_artifact"@,
        "agents.view_data_artifact"@,
    ]
}

impl Default for MeshToolsConfig {
    fn default() -> (value: Self)
        ensures
            value.enabled,
            texts(value.available_tools@) == default_mesh_tools(),
    {
        let available_tools = vec![
            "agents.get_agents".to_string(),
            "agents.get_agent".to_string(),
            "agents.send_message".to_string(),
            "agents.get_task".to_string(),
            "agents.view_text_artifact".to_string(),
            "agents.view_data_artifact".to_string(),
        ];
        assert(texts(available_tools@) =~= default_mesh_tools());
        MeshToolsConfig { enabled: true, available_tools: available_tools }
    }
}

#[derive(Clone, Debug, PartialEq, Eq)]
pub struct ToolConfig {
    pub name: String,
    pub kind: ToolKind,
    pub command: Option<String>,
    pub args: Vec<String>,
    pub timeout_secs: Option<u64>,
    pub env_keys: Vec<String>,
    pub available_tools: Vec<String>,
}

impl Default for ToolConfig {
    fn default() -> (value: Self)
        ensures
            value.name@ == Seq::<char>::empty(),
            value.kind == ToolKind::Mcp,
            value.command is None,
            value.args@.len() == 0,
            value.timeout_secs is None,
            value.env_keys@.len() == 0,
            value.available_tools@.len() == 0,
    {
        ToolConfig {
            name: String::new(),
            kind: ToolKind::Mcp,
            command: None,
            args: Vec::new(),
            timeout_secs: None,
            env_keys: Vec::new(),
            available_tools: Vec::new(),
        }
    }
}

#[derive(Clone, Debug, PartialEq, Eq)]
pub struct ToolsConfig {
    pub mesh: MeshToolsConfig,
    pub extra: Vec<ToolConfig>,
}

impl Default for ToolsConfig {
    fn default() -> (value: Self)
        ensures
            call_ensures(MeshToolsConfig::default, (), value.mesh),
            value.extra@.len() == 0,
    {
        ToolsConfig { mesh: MeshToolsConfig::default(), extra: Vec::new() }
    }
}

#[derive(Clone, Debug, PartialEq, Eq)]
pub struct PolicyConfig {
    pub approval: Option<String>,
    pub filesystem: Option<String>,
    pub network: Option<String>,
    pub max_task_seconds: Option<u64>,
    pub advertise_on_mesh: bool,
    pub public_mesh: bool,
}

impl Default for PolicyConfig {
    fn default() -> (value: Self)
        ensures
            value.approval is None,
            value.filesystem is None,
            value.network is None,
            value.max_task_seconds is None,
            !value.advertise_on_mesh,
            !value.public_mesh,
    {
        PolicyConfig {
            approval: None,
            filesystem: None,
            network: None,
            max_task_seconds: None,
            advertise_on_mesh: false,
            public_mesh: false,
        }
    }
}

#[derive(Clone, Debug, PartialEq, Eq)]
pub struct AuthConfig {
    pub bearer_token_env: Option<String>,
}

impl Default for AuthConfig {
    fn default() -> (value: Self)
        ensures
            value.bearer_token_env is None,
    {
        AuthConfig { bearer_token_env: None }
    }
}

#[derive(Clone, Debug, PartialEq, Eq)]
pub struct AgentRuntimeConfig {
    pub enabled: bool,
    pub visibility: Visibility,
    pub runtime: RuntimeConfig,
    pub instructions: Option<InstructionsConfig>,
    pub tools: ToolsConfig,
    pub policy: PolicyConfig,
    pub auth: Option<AuthConfig>,
}

impl Default for AgentRuntimeConfig {
    fn default() -> (value: Self)
        ensures
            value.enabled,
            value.visibility == Visibility::Private,
            call_ensures(RuntimeConfig::default, (), value.runtime),
            value.instructions is None,
            call_ensures(ToolsConfig::default, (), value.tools),
            call_ensures(PolicyConfig::default, (), value.policy),
            value.auth is None,
    {
        AgentRuntimeConfig {
            enabled: true,
            visibility: Visibility::Private,
            runtime: RuntimeConfig::default(),
            instructions: None,
            tools: ToolsConfig::default(),
            policy: PolicyConfig::default(),
            auth: None,
        }
    }
}

/// A path of a configuration, taken relative to the agent's directory.
pub open spec fn below(agent_dir: Seq<char>, path: Option<String>) -> Option<Seq<char>> {
    match path {
        Some(path) => Some(joined(agent_dir, path@)),
        None => None,
    }
}

fn below_dir(path: Option<String>, agent_dir: &str) -> (whole: Option<String>)
    ensures
        optional_chars(whole) == below(agent_dir@, path),
{
    match path {
        Some(path) => if absolute(path.as_str()) {
            Some(path)
        } else {
            Some(join(agent_dir, path.as_str()))
        },
        None => None,
    }
}

/// `normal` is `config` with its workspace path and its instructions file taken
/// relative to the agent's directory, and otherwise the same.
pub open spec fn normal_form(
    normal: AgentRuntimeConfig,
    config: AgentRuntimeConfig,
    agent_dir: Seq<char>,
) -> bool {
    &&& optional_chars(normal.runtime.workspace.path) == below(
        agent_dir,
        config.runtime.workspace.path,
    )
    &&& optional_chars(normal.instructions_file()) == below(agent_dir, config.instructions_file())
    &&& normal == AgentRuntimeConfig {
        runtime: RuntimeConfig {
            workspace: WorkspaceConfig {
                path: normal.runtime.workspace.path,
                ..config.runtime.workspace
            },
            ..config.runtime
        },
        instructions: match config.instructions {
            Some(instructions) => Some(
                InstructionsConfig { file: normal.instructions_file(), ..instructions },
            ),
            None => None,
        },
        ..config
    }
}

impl AgentRuntimeConfig {
    /// The instructions file, by the path that the configuration gives it.
    pub open spec fn instructions_file(self) -> Option<String> {
        match self.instructions {
            Some(instructions) => instructions.file,
            None => None,
        }
    }

    /// Turns the workspace path and the instructions file into paths that do not
    /// depend on where they are read: a relative one is taken to lie in the
    /// agent's directory. Nothing else changes.
    pub fn normalize_relative_paths(self, agent_dir: &str) -> (normal: Self)
        ensures
            normal_form(normal, self, agent_dir@),
    {
        let path = below_dir(self.runtime.workspace.path, agent_dir);
        let workspace = WorkspaceConfig {
            mode: self.runtime.workspace.mode,
            path: path,
            prefix: self.runtime.workspace.prefix,
            keep: self.runtime.workspace.keep,
        };
        let runtime = RuntimeConfig {
            kind: self.runtime.kind,
            command: self.runtime.command,
            args: self.runtime.args,
            model: self.runtime.model,
            mode: self.runtime.mode,
            session_policy: self.runtime.session_policy,
            max_concurrent_tasks: self.runtime.max_concurrent_tasks,
            queue: self.runtime.queue,
            workspace: workspace,
            env: self.runtime.env,
        };
        let instructions = match self.instructions {
            Some(instructions) => Some(
                InstructionsConfig {
                    file: below_dir(instructions.file, agent_dir),
                    delivery: instructions.delivery,
                },
            ),
            None => None,
        };
        AgentRuntimeConfig {
            enabled: self.enabled,
            visibility: self.visibility,
            runtime: runtime,
            instructions: instructions,
            tools: self.tools,
            policy: self.policy,
            auth: self.auth,
        }
    }

    /// The instructions file, by the path where it is looked for.
    pub fn instructions_path(&self, agent_dir: &str) -> (path: Option<String>)
        ensures
            optional_chars(path) == below(agent_dir@, self.instructions_file()),
    {
        match &self.instructions {
            Some(instructions) => match &instructions.file {
                Some(file) => Some(join(agent_dir, file.as_str())),
                None => None,
            },
            None => None,
        }
    }

    /// Switches the agent on or off. Nothing else changes.
    pub fn set_enabled(&mut self, enabled: bool)
        ensures
            *final(self) == (AgentRuntimeConfig { enabled: enabled, ..*old(self) }),
    {
        self.enabled = enabled;
    }
}

/// Taking paths relative to an absolute agent directory a second time changes
/// no path.
pub proof fn law_normal_paths_stay(agent_dir: Seq<char>, path: Seq<char>)
    requires
        is_absolute(agent_dir),
    ensures
        joined(agent_dir, joined(agent_dir, path)) == joined(agent_dir, path),
{
}

/// Taking the paths of a configuration relative to the agent's directory leaves an
/// absolute path as it is and puts a relative one below the directory. It changes no
/// path where there is none, and no other setting.
pub proof fn law_normal_paths(
    config: AgentRuntimeConfig,
    agent_dir: &str,
    normal: AgentRuntimeConfig,
)
    requires
        call_ensures(
            AgentRuntimeConfig::normalize_relative_paths,
            (config, agent_dir),
            normal,
        ),
    ensures
        taken_below(normal.runtime.workspace.path, config.runtime.workspace.path, agent_dir@),
        normal.instructions is Some <==> config.instructions is Some,
        config.instructions is Some ==> taken_below(
            normal.instructions->0.file,
            config.instructions->0.file,
            agent_dir@,
        ) && normal.instructions->0.delivery == config.instructions->0.delivery,
        normal.enabled == config.enabled,
        normal.visibility == config.visibility,
        normal.tools == config.tools,
        normal.policy == config.policy,
        normal.auth == config.auth,
        normal.runtime.kind == config.runtime.kind,
        normal.runtime.command == config.runtime.command,
        normal.runtime.args == config.runtime.args,
        normal.runtime.model == config.runtime.model,
        normal.runtime.mode == config.runtime.mode,
        normal.runtime.session_policy == config.runtime.session_policy,
        normal.runtime.max_concurrent_tasks == config.runtime.max_concurrent_tasks,
        normal.runtime.queue == config.runtime.queue,
        normal.runtime.env == config.runtime.env,
        normal.runtime.workspace.mode == config.runtime.workspace.mode,
        normal.runtime.workspace.prefix == config.runtime.workspace.prefix,
        normal.runtime.workspace.keep == config.runtime.workspace.keep,
{
    reveal_strlit("/");
    if let Some(path) = config.runtime.workspace.path {
        lemma_taken_below(agent_dir@, path@);
    }
    if let Some(instructions) = config.instructions {
        if let Some(file) = instructions.file {
            lemma_taken_below(agent_dir@, file@);
        }
    }
}

/// The path that is made of a path: the same where that is absolute, and else one that
/// starts with the directory and ends on the path, with a slash between them.
pub open spec fn taken_below(
    made: Option<String>,
    given: Option<String>,
    agent_dir: Seq<char>,
) -> bool {
    &&& made is Some <==> given is Some
    &&& given is Some && is_absolute(given->0@) ==> made->0@ == given->0@
    &&& given is Some && !is_absolute(given->0@) ==> {
        let whole = made->0@;
        let path = given->0@;
        &&& has_prefix(whole, agent_dir)
        &&& has_suffix(whole, path)
        &&& agent_dir.len() > 0 ==> whole[whole.len() - path.len() - 1] == '/'
        &&& whole.len() <= agent_dir.len() + 1 + path.len()
    }
}

proof fn lemma_taken_below(agent_dir: Seq<char>, path: Seq<char>)
    ensures
        !is_absolute(path) ==> {
            let whole = joined(agent_dir, path);
            &&& has_prefix(whole, agent_dir)
            &&& has_suffix(whole, path)
            &&& agent_dir.len() > 0 ==> whole[whole.len() - path.len() - 1] == '/'
            &&& whole.len() <= agent_dir.len() + 1 + path.len()
        },
{
    reveal_strlit("/");
    let whole = joined(agent_dir, path);
    if !is_absolute(path) {
        assert(whole.take(agent_dir.len() as int) =~= agent_dir);
        assert(whole.skip(whole.len() - path.len()) =~= path);
    }
}

/// The instructions file is looked for where the normal configuration has it.
pub proof fn law_instructions_are_looked_for_there(
    config: AgentRuntimeConfig,
    agent_dir: &str,
    normal: AgentRuntimeConfig,
    path: Option<String>,
)
    requires
        call_ensures(
            AgentRuntimeConfig::normalize_relative_paths,
            (config, agent_dir),
            normal,
        ),
        call_ensures(AgentRuntimeConfig::instructions_path, (&config, agent_dir), path),
    ensures
        optional_chars(path) == optional_chars(normal.instructions_file()),
        path is Some <==> config.instructions is Some && config.instructions->0.file is Some,
{
}

/// Unless it says otherwise, an agent may use every tool of the plugin, under the
/// plugin's name, and in the same order.
pub proof fn law_mesh_tools_are_the_plugins(tools: MeshToolsConfig, i: int)
    requires
        call_ensures(MeshToolsConfig::default, (), tools),
        0 <= i < tool_names().len(),
    ensures
        tools.enabled,
        tools.available_tools@.len() == tool_names().len(),
        tools.available_tools@[i]@ == "agents."@ + tool_names()[i],
{
    reveal_strlit("agents.");
    reveal_strlit("get_agents");
    reveal_strlit("get_agent");
    reveal_strlit("send_message");
    reveal_strlit("get_task");
    reveal_strlit("view_text_artifact");
    reveal_strlit("view_data_artifact");
    reveal_strlit("agents.get_agents");
    reveal_strlit("agents.get_agent");
    reveal_strlit("agents.send_message");
    reveal_strlit("agents.get_task");
    reveal_strlit("agents.view_text_artifact");
    reveal_strlit("agents.view_data_artifact");
    let all = texts(tools.available_tools@);
    assert(all.len() == tools.available_tools@.len());
    assert(all[i] == tools.available_tools@[i]@);
    assert("agents.get_agents"@ =~= "agents."@ + "get_agents"@);
    assert("agents.get_agent"@ =~= "agents."@ + "get_agent"@);
    assert("agents.send_message"@ =~= "agents."@ + "send_message"@);
    assert("agents.get_task"@ =~= "agents."@ + "get_task"@);
    assert("agents.view_text_artifact"@ =~= "agents."@ + "view_text_artifact"@);
    assert("agents.view_data_artifact"@ =~= "agents."@ + "view_data_artifact"@);
}

/// An agent that is configured by nothing is switched on and private, runs OpenCode one
/// task at a time with up to sixteen that wait, in a directory of its own for each task
/// that is kept where the task fails, and is not shown on the mesh.
pub proof fn law_defaults(config: AgentRuntimeConfig)
    requires
        call_ensures(AgentRuntimeConfig::default, (), config),
    ensures
        config.enabled,
        config.visibility == Visibility::Private,
        config.runtime.kind == RuntimeKind::Opencode,
        config.runtime.command is None,
        config.runtime.args@.len() == 0,
        config.runtime.max_concurrent_tasks == 1,
        config.runtime.queue.mode == QueueMode::Queue,
        config.runtime.queue.max_pending_tasks == 16,
        config.runtime.workspace.mode == WorkspaceMode::TempPerTask,
        config.runtime.workspace.keep == WorkspaceKeep::OnFailure,
        optional_chars(config.runtime.workspace.prefix) == Some("mesh-a2a-"@),
        config.instructions is None,
        config.auth is None,
        !config.policy.advertise_on_mesh,
        !config.policy.public_mesh,
        config.tools.mesh.enabled,
{
}

} // verus!
