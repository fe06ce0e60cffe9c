//! How a task is handed to an ACP harness: the command that starts it, the
//! directories it works in, and the prompt it is given.

use vstd::prelude::*;

use crate::config::{InstructionDelivery, RuntimeConfig, RuntimeKind, WorkspaceMode};
use crate::json::{as_items, as_text, get};
#[allow(unused_imports)]
use crate::json::{items_member, json_of, jsons, optional_chars, text_member_of, JsonView};
#[allow(unused_imports)]
use crate::names::lemma_variable_names;
use crate::pairs::{copy_of, find_value, Pair};
#[allow(unused_imports)]
use crate::pairs::{entries, lookup};
use crate::paths::{join, parent};
#[allow(unused_imports)]
use crate::paths::{joined, parent_of};
use crate::registry::{AgentDefinition, FileText};
use crate::templates::TemplateContext;
#[allow(unused_imports)]
use crate::templates::{expanded_of, expansion, Expansion};
use crate::text::{chars_of, is_id_character, plus};
#[allow(unused_imports)]
use crate::text::{has_prefix, has_suffix, is_id_char, texts};

verus! {

/// The programs that were found on this machine.
#[derive(Clone, Copy, Debug)]
pub struct HostPrograms {
    pub opencode: bool,
    pub goose: bool,
    pub pi: bool,
    /// The desktop application, which brings no ACP command.
    pub desktop_goose: bool,
}

impl Default for HostPrograms {
    fn default() -> (none: Self)
        ensures
            !none.opencode && !none.goose && !none.pi && !none.desktop_goose,
    {
        HostPrograms { opencode: false, goose: false, pi: false, desktop_goose: false }
    }
}

/// A program and its arguments.
#[derive(Clone, Debug, PartialEq, Eq)]
pub struct AcpCommand {
    pub command: String,
    pub args: Vec<String>,
}

#[verifier::ext_equal]
pub struct CommandView {
    pub command: Seq<char>,
    pub args: Seq<Seq<char>>,
}

impl View for AcpCommand {
    type V = CommandView;

    open spec fn view(&self) -> CommandView {
        CommandView { command: self.command@, args: texts(self.args@) }
    }
}

pub open spec fn commanded(result: Result<AcpCommand, String>) -> Result<CommandView, Seq<char>> {
    match result {
        Ok(command) => Ok(command@),
        Err(error) => Err(error@),
    }
}

/// A preset's command: the configured one, with the configured arguments or else
/// `acp`; or the program itself, where it is on the path, with `acp`.
pub open spec fn preset_command(
    runtime: RuntimeConfig,
    program: Seq<char>,
    found: bool,
    missing: Seq<char>,
) -> Result<CommandView, Seq<char>> {
    match runtime.command {
        Some(command) => Ok(
            CommandView {
                command: command@,
                args: if runtime.args@.len() == 0 {
                    seq!["acp"@]
                } else {
                    texts(runtime.args@)
                },
            },
        ),
        None => if found {
            Ok(CommandView { command: program, args: seq!["acp"@] })
        } else {
            Err(missing)
        },
    }
}

pub open spec fn goose_missing(host: HostPrograms) -> Seq<char> {
    if host.desktop_goose {
        "Desktop Goose is installed at /Applications/Goose.app/Contents/Resources/bin/goosed, but goosed agent is not ACP stdio; install or link the Goose CLI as `goose`, or set runtime.command to an ACP-compatible Goose command"@
    } else {
        "could not find Goose CLI `goose` on PATH"@
    }
}

/// The command that starts a runtime's harness.
pub open spec fn runtime_command(runtime: RuntimeConfig, host: HostPrograms) -> Result<
    CommandView,
    Seq<char>,
> {
    match runtime.kind {
        RuntimeKind::Opencode => preset_command(
            runtime,
            "opencode"@,
            host.opencode,
            "could not find OpenCode CLI `opencode` on PATH"@,
        ),
        RuntimeKind::Goose => preset_command(runtime, "goose"@, host.goose, goose_missing(host)),
        RuntimeKind::Pi => preset_command(
            runtime,
            "pi"@,
            host.pi,
            "could not find Pi CLI `pi` on PATH"@,
        ),
        RuntimeKind::Acp => match runtime.command {
            Some(command) => Ok(CommandView { command: command@, args: texts(runtime.args@) }),
            None => Err("runtime.type = \"acp\" requires command"@),
        },
        RuntimeKind::Remote => Err("remote A2A agents do not use ACP commands"@),
    }
}

fn acp_args() -> (args: Vec<String>)
    ensures
        texts(args@) == seq!["acp"@],
{
    let args = vec!["acp".to_string()];
    assert(texts(args@) =~= seq!["acp"@]);
    args
}

fn copy_texts(list: &Vec<String>) -> (copy: Vec<String>)
    ensures
        texts(copy@) == texts(list@),
{
    let copy = list.clone();
    assert(texts(copy@) =~= texts(list@));
    copy
}

fn preset(runtime: &RuntimeConfig, program: &str, found: bool, missing: &str) -> (command: Result<
    AcpCommand,
    String,
>)
    ensures
        commanded(command) == preset_command(*runtime, program@, found, missing@),
        runtime.command is Some ==> command is Ok && command->Ok_0.command@
            == runtime.command->0@,
        runtime.command is Some && runtime.args@.len() > 0 ==> texts(command->Ok_0.args@) == texts(
            runtime.args@,
        ),
{
    match &runtime.command {
        Some(command) => {
            let args = if runtime.args.len() == 0 {
                acp_args()
            } else {
                copy_texts(&runtime.args)
            };
            Ok(AcpCommand { command: command.clone(), args: args })
        },
        None => if found {
            Ok(AcpCommand { command: program.to_string(), args: acp_args() })
        } else {
            Err(missing.to_string())
        },
    }
}

impl AcpCommand {
    /// The command that starts a runtime's harness. The named runtimes fall back
    /// on the program of their name, the generic one needs a command, and a remote
    /// agent has none.
    pub fn from_runtime(runtime: &RuntimeConfig, host: &HostPrograms) -> (command: Result<
        Self,
        String,
    >)
        ensures
            commanded(command) == runtime_command(*runtime, *host),
            runtime.kind != RuntimeKind::Remote && runtime.command is Some && runtime.args@.len()
                > 0 ==> {
                &&& command is Ok
                &&& command->Ok_0.command@ == runtime.command->0@
                &&& texts(command->Ok_0.args@) == texts(runtime.args@)
            },
            runtime.kind == RuntimeKind::Remote ==> command is Err,
    {
        match runtime.kind {
            RuntimeKind::Opencode => preset(
                runtime,
                "opencode",
                host.opencode,
                "could not find OpenCode CLI `opencode` on PATH",
            ),
            RuntimeKind::Goose => if host.desktop_goose {
                preset(
                    runtime,
                    "goose",
                    host.goose,
                    "Desktop Goose is installed at /Applications/Goose.app/Contents/Resources/bin/goosed, but goosed agent is not ACP stdio; install or link the Goose CLI as `goose`, or set runtime.command to an ACP-compatible Goose command",
                )
            } else {
                preset(
                    runtime,
                    "goose",
                    host.goose,
                    "could not find Goose CLI `goose` on PATH",
                )
            },
            RuntimeKind::Pi => preset(
                runtime,
                "pi",
                host.pi,
                "could not find Pi CLI `pi` on PATH",
            ),
            RuntimeKind::Acp => match &runtime.command {
                Some(command) => Ok(
                    AcpCommand { command: command.clone(), args: copy_texts(&runtime.args) },
                ),
                None => Err("runtime.type = \"acp\" requires command".to_string()),
            },
            RuntimeKind::Remote => Err("remote A2A agents do not use ACP commands".to_string()),
        }
    }
}

/// A text with every character that cannot stand in an id replaced by `_`.
pub open spec fn sanitized(value: Seq<char>) -> Seq<char> {
    value.map_values(
        |c: char|
            if is_id_char(c) {
                c
            } else {
                '_'
            },
    )
}

pub fn sanitize_path_component(value: &str) -> (component: String)
    ensures
        component@ == sanitized(value@),
{
    let chars = chars_of(value);
    let mut component = String::new();
    let mut i: usize = 0;
    while i < chars.len()
        invariant
            i <= chars@.len(),
            chars@ == value@,
            component@ == sanitized(value@.take(i as int)),
        decreases chars@.len() - i,
    {
        let c = if is_id_character(chars[i]) {
            chars[i]
        } else {
            '_'
        };
        component.push(c);
        assert(component@ =~= sanitized(value@.take(i as int + 1)));
        i += 1;
    }
    assert(value@.take(i as int) =~= value@);
    component
}

/// A sanitized text is one path component: it holds no separator and is neither
/// `.` nor `..`. Sanitizing it again changes nothing, and no character is lost.
pub proof fn law_sanitized(value: Seq<char>)
    ensures
        sanitized(sanitized(value)) == sanitized(value),
        sanitized(value).len() == value.len(),
        !sanitized(value).contains('/'),
        !sanitized(value).contains('.'),
        (forall|i: int| 0 <= i < value.len() ==> is_id_char(#[trigger] value[i])) ==> sanitized(value)
            == value,
{
    assert(sanitized(sanitized(value)) =~= sanitized(value));
    if forall|i: int| 0 <= i < value.len() ==> is_id_char(#[trigger] value[i]) {
        assert(sanitized(value) =~= value);
    }
}

/// Where the files of one task are.
#[derive(Clone, Debug)]
pub struct TaskRuntimePaths {
    pub task_id: String,
    pub data_dir: String,
    pub prompt_path: String,
    pub artifacts_dir: String,
    pub logs_dir: String,
}

/// The directory of one task of one agent.
pub open spec fn task_root(data_dir: Seq<char>, agent_id: Seq<char>, task_id: Seq<char>) -> Seq<
    char,
> {
    joined(
        joined(
            joined(joined(joined(data_dir, "a2a"@), "agents"@), sanitized(agent_id)),
            "runtime"@,
        ),
        sanitized(task_id),
    )
}

pub fn task_runtime_paths(data_dir: &str, agent_id: &str, task_id: &str) -> (paths:
    TaskRuntimePaths)
    ensures
        paths.task_id@ == task_id@,
        paths.data_dir@ == data_dir@,
        paths.prompt_path@ == joined(task_root(data_dir@, agent_id@, task_id@), "prompt.txt"@),
        paths.artifacts_dir@ == joined(task_root(data_dir@, agent_id@, task_id@), "artifacts"@),
        paths.logs_dir@ == joined(task_root(data_dir@, agent_id@, task_id@), "logs"@),
{
    let agents = join(join(data_dir, "a2a").as_str(), "agents");
    let agent = join(agents.as_str(), sanitize_path_component(agent_id).as_str());
    let runtime = join(agent.as_str(), "runtime");
    let root = join(runtime.as_str(), sanitize_path_component(task_id).as_str());
    TaskRuntimePaths {
        task_id: task_id.to_string(),
        data_dir: data_dir.to_string(),
        prompt_path: join(root.as_str(), "prompt.txt"),
        artifacts_dir: join(root.as_str(), "artifacts"),
        logs_dir: join(root.as_str(), "logs"),
    }
}

/// The URL that the environment gives, or the default one.
pub open spec fn url_or(
    environment: Seq<(Seq<char>, Seq<char>)>,
    name: Seq<char>,
    default: Seq<char>,
) -> Seq<char> {
    match lookup(environment, name) {
        Some(value) => value,
        None => default,
    }
}

pub fn mesh_url(environment: &Vec<Pair>, env_name: &str, default: &str) -> (url: String)
    ensures
        url@ == url_or(entries(environment@), env_name@, default@),
{
    match find_value(environment, env_name) {
        Some(value) => value,
        None => default.to_string(),
    }
}

/// The template variables that every task has.
pub open spec fn common_variables(
    agent: AgentDefinition,
    workspace: Seq<char>,
    paths: TaskRuntimePaths,
    environment: Seq<(Seq<char>, Seq<char>)>,
) -> Seq<(Seq<char>, Seq<char>)> {
    seq![
        ("agent.id"@, agent.id@),
        ("agent.name"@, agent.card.name@),
        ("agent.dir"@, agent.dir@),
        ("agent.card_path"@, agent.card_path@),
        ("agent.runtime_path"@, agent.runtime_path@),
        ("task.id"@, paths.task_id@),
        ("task.workspace"@, workspace),
        ("task.prompt_path"@, paths.prompt_path@),
        ("task.artifacts_dir"@, paths.artifacts_dir@),
        ("task.logs_dir"@, paths.logs_dir@),
        (
            "mesh.mcp_url"@,
            url_or(environment, "MESH_LLM_MCP_URL"@, "http://127.0.0.1:3131/mcp"@),
        ),
        ("mesh.api_url"@, url_or(environment, "MESH_LLM_API_URL"@, "http://127.0.0.1:3131"@)),
        (
            "mesh.openai_url"@,
            url_or(environment, "MESH_LLM_OPENAI_URL"@, "http://127.0.0.1:9337/v1"@),
        ),
        (
            "mesh.model"@,
            match agent.runtime.runtime.model {
                Some(model) => model@,
                None => "auto"@,
            },
        ),
        ("mesh.data_dir"@, paths.data_dir@),
    ]
}

/// The template variables of an instructions file: its path, and its directory.
pub open spec fn instruction_variables(file: Option<Seq<char>>) -> Seq<(Seq<char>, Seq<char>)> {
    match file {
        Some(file) => match parent_of(file) {
            Some(dir) => seq![("instructions.file"@, file), ("instructions.dir"@, dir)],
            None => seq![("instructions.file"@, file)],
        },
        None => seq![],
    }
}

/// The template variables of a task.
pub open spec fn template_variables(
    agent: AgentDefinition,
    workspace: Seq<char>,
    paths: TaskRuntimePaths,
    environment: Seq<(Seq<char>, Seq<char>)>,
) -> Seq<(Seq<char>, Seq<char>)> {
    common_variables(agent, workspace, paths, environment) + instruction_variables(
        optional_chars(agent.runtime.instructions_file()),
    )
}

impl TemplateContext {
    /// The substitutions of a task of an agent.
    pub fn new(
        agent: &AgentDefinition,
        workspace: &str,
        task_paths: &TaskRuntimePaths,
        environment: &Vec<Pair>,
    ) -> (context: Self)
        ensures
            entries(context.environment@) == entries(environment@),
            entries(context.values@) == template_variables(
                *agent,
                workspace@,
                *task_paths,
                entries(environment@),
            ),
    {
        let mcp_url = mesh_url(environment, "MESH_LLM_MCP_URL", "http://127.0.0.1:3131/mcp");
        let api_url = mesh_url(environment, "MESH_LLM_API_URL", "http://127.0.0.1:3131");
        let openai_url = mesh_url(environment, "MESH_LLM_OPENAI_URL", "http://127.0.0.1:9337/v1");
        let model = match &agent.runtime.runtime.model {
            Some(model) => model.clone(),
            None => "auto".to_string(),
        };
        let mut values = vec![
            Pair::new("agent.id", agent.id.as_str()),
            Pair::new("agent.name", agent.card.name.as_str()),
            Pair::new("agent.dir", agent.dir.as_str()),
            Pair::new("agent.card_path", agent.card_path.as_str()),
            Pair::new("agent.runtime_path", agent.runtime_path.as_str()),
            Pair::new("task.id", task_paths.task_id.as_str()),
            Pair::new("task.workspace", workspace),
            Pair::new("task.prompt_path", task_paths.prompt_path.as_str()),
            Pair::new("task.artifacts_dir", task_paths.artifacts_dir.as_str()),
            Pair::new("task.logs_dir", task_paths.logs_dir.as_str()),
            Pair::new("mesh.mcp_url", mcp_url.as_str()),
            Pair::new("mesh.api_url", api_url.as_str()),
            Pair::new("mesh.openai_url", openai_url.as_str()),
            Pair::new("mesh.model", model.as_str()),
            Pair::new("mesh.data_dir", task_paths.data_dir.as_str()),
        ];
        let ghost common = common_variables(
            *agent,
            workspace@,
            *task_paths,
            entries(environment@),
        );
        assert(entries(values@) =~= common);
        let file = match &agent.runtime.instructions {
            Some(instructions) => instructions.file.clone(),
            None => None,
        };
        assert(optional_chars(file) == optional_chars(agent.runtime.instructions_file()));
        if let Some(file) = &file {
            values.push(Pair::new("instructions.file", file.as_str()));
            if let Some(dir) = parent(file.as_str()) {
                values.push(Pair::new("instructions.dir", dir.as_str()));
            }
        }
        proof {
            let more = instruction_variables(optional_chars(file));
            assert(entries(values@) =~= common + more);
        }
        TemplateContext { values: values, environment: copy_of(environment) }
    }
}

/// What making a list gives: the texts, or the error's text.
pub type Listing = Result<Seq<Seq<char>>, Seq<char>>;

pub open spec fn listing(result: Result<Vec<String>, String>) -> Listing {
    match result {
        Ok(list) => Ok(texts(list@)),
        Err(error) => Err(error@),
    }
}

/// A list with some texts before it.
pub open spec fn preceded(before: Seq<Seq<char>>, rest: Listing) -> Listing {
    match rest {
        Ok(list) => Ok(before + list),
        Err(error) => Err(error),
    }
}

/// The variables of a runtime's environment from `from` on, each as `NAME=value`
/// with the references in the value replaced.
pub open spec fn env_assignments(
    env: Seq<(Seq<char>, Seq<char>)>,
    values: Seq<(Seq<char>, Seq<char>)>,
    environment: Seq<(Seq<char>, Seq<char>)>,
    from: int,
) -> Listing
    decreases env.len() - from,
{
    if from < 0 || from >= env.len() {
        Ok(seq![])
    } else {
        match expanded_of(env[from].1, values, environment) {
            Ok(value) => preceded(
                seq![env[from].0 + "="@ + value],
                env_assignments(env, values, environment, from + 1),
            ),
            Err(error) => Err(error),
        }
    }
}

/// Some texts from `from` on, with their references replaced.
pub open spec fn expanded_texts(
    sources: Seq<Seq<char>>,
    values: Seq<(Seq<char>, Seq<char>)>,
    environment: Seq<(Seq<char>, Seq<char>)>,
    from: int,
) -> Listing
    decreases sources.len() - from,
{
    if from < 0 || from >= sources.len() {
        Ok(seq![])
    } else {
        match expanded_of(sources[from], values, environment) {
            Ok(text) => preceded(
                seq![text],
                expanded_texts(sources, values, environment, from + 1),
            ),
            Err(error) => Err(error),
        }
    }
}

/// The arguments that start an agent's harness: its environment, its command and
/// the command's arguments, with the references in them replaced.
pub open spec fn process_args(
    agent: AgentDefinition,
    workspace: Seq<char>,
    paths: TaskRuntimePaths,
    host: HostPrograms,
    environment: Seq<(Seq<char>, Seq<char>)>,
) -> Listing {
    let runtime = agent.runtime.runtime;
    let values = template_variables(agent, workspace, paths, environment);
    match runtime_command(runtime, host) {
        Err(error) => Err(error),
        Ok(command) => match env_assignments(runtime.env@, values, environment, 0) {
            Err(error) => Err(error),
            Ok(assignments) => match expanded_of(command.command, values, environment) {
                Err(error) => Err(error),
                Ok(program) => preceded(
                    assignments.push(program),
                    expanded_texts(command.args, values, environment, 0),
                ),
            },
        },
    }
}

proof fn lemma_preceded_twice(first: Seq<Seq<char>>, second: Seq<Seq<char>>, rest: Listing)
    ensures
        preceded(first, preceded(second, rest)) == preceded(first + second, rest),
{
    if let Ok(list) = rest {
        assert(first + (second + list) =~= (first + second) + list);
    }
}

fn assignments(env: &Vec<Pair>, context: &TemplateContext) -> (args: Result<Vec<String>, String>)
    ensures
        listing(args) == env_assignments(
            entries(env@),
            entries(context.values@),
            entries(context.environment@),
            0,
        ),
{
    let ghost all = entries(env@);
    let ghost values = entries(context.values@);
    let ghost environment = entries(context.environment@);
    let mut args: Vec<String> = Vec::new();
    let mut i: usize = 0;
    proof {
        if let Ok(list) = env_assignments(all, values, environment, 0) {
            assert(texts(args@) + list =~= list);
        }
    }
    while i < env.len()
        invariant
            i <= env@.len(),
            all == entries(env@),
            values == entries(context.values@),
            environment == entries(context.environment@),
            preceded(texts(args@), env_assignments(all, values, environment, i as int))
                == env_assignments(all, values, environment, 0),
        decreases env@.len() - i,
    {
        assert(all[i as int] == env@[i as int]@);
        let ghost before = texts(args@);
        match context.expand(env[i].value.as_str()) {
            Ok(value) => {
                let arg = plus(plus(env[i].name.clone(), "="), value.as_str());
                proof {
                    lemma_preceded_twice(
                        before,
                        seq![arg@],
                        env_assignments(all, values, environment, i as int + 1),
                    );
                }
                args.push(arg);
                assert(texts(args@) =~= before + seq![arg@]);
            },
            Err(error) => {
                return Err(error);
            },
        }
        i += 1;
    }
    assert(texts(args@) + Seq::<Seq<char>>::empty() =~= texts(args@));
    Ok(args)
}

fn expand_all(sources: &Vec<String>, context: &TemplateContext) -> (list: Result<
    Vec<String>,
    String,
>)
    ensures
        listing(list) == expanded_texts(
            texts(sources@),
            entries(context.values@),
            entries(context.environment@),
            0,
        ),
{
    let ghost all = texts(sources@);
    let ghost values = entries(context.values@);
    let ghost environment = entries(context.environment@);
    let mut list: Vec<String> = Vec::new();
    let mut i: usize = 0;
    proof {
        if let Ok(rest) = expanded_texts(all, values, environment, 0) {
            assert(texts(list@) + rest =~= rest);
        }
    }
    while i < sources.len()
        invariant
            i <= sources@.len(),
            all == texts(sources@),
            values == entries(context.values@),
            environment == entries(context.environment@),
            preceded(texts(list@), expanded_texts(all, values, environment, i as int))
                == expanded_texts(all, values, environment, 0),
        decreases sources@.len() - i,
    {
        assert(all[i as int] == sources@[i as int]@);
        let ghost before = texts(list@);
        match context.expand(sources[i].as_str()) {
            Ok(text) => {
                proof {
                    lemma_preceded_twice(
                        before,
                        seq![text@],
                        expanded_texts(all, values, environment, i as int + 1),
                    );
                }
                list.push(text);
                assert(texts(list@) =~= before + seq![text@]);
            },
            Err(error) => {
                return Err(error);
            },
        }
        i += 1;
    }
    assert(texts(list@) + Seq::<Seq<char>>::empty() =~= texts(list@));
    Ok(list)
}

/// The arguments that start an agent's harness for a task.
pub fn acp_process_args(
    agent: &AgentDefinition,
    workspace: &str,
    task_paths: &TaskRuntimePaths,
    host: &HostPrograms,
    environment: &Vec<Pair>,
) -> (args: Result<Vec<String>, String>)
    ensures
        listing(args) == process_args(
            *agent,
            workspace@,
            *task_paths,
            *host,
            entries(environment@),
        ),
{
    let command = match AcpCommand::from_runtime(&agent.runtime.runtime, host) {
        Ok(command) => command,
        Err(error) => {
            return Err(error);
        },
    };
    let context = TemplateContext::new(agent, workspace, task_paths, environment);
    let mut args = match assignments(agent.runtime.runtime.env.pairs(), &context) {
        Ok(args) => args,
        Err(error) => {
            return Err(error);
        },
    };
    let ghost assigned = texts(args@);
    let program = match context.expand(command.command.as_str()) {
        Ok(program) => program,
        Err(error) => {
            return Err(error);
        },
    };
    args.push(program);
    assert(texts(args@) =~= assigned.push(program@));
    let ghost started = texts(args@);
    let mut rest = match expand_all(&command.args, &context) {
        Ok(rest) => rest,
        Err(error) => {
            return Err(error);
        },
    };
    let ghost tail = texts(rest@);
    args.append(&mut rest);
    assert(texts(args@) =~= started + tail);
    Ok(args)
}

/// The text of the first part that has one, from `from` on.
pub open spec fn first_text(parts: Seq<JsonView>, from: int) -> Option<Seq<char>>
    decreases parts.len() - from,
{
    if from < 0 || from >= parts.len() {
        None
    } else {
        match text_member_of(parts[from], "text"@) {
            Some(text) => Some(text),
            None => first_text(parts, from + 1),
        }
    }
}

/// The text of a message: that of its first text part.
pub open spec fn message_text_of(message: JsonView) -> Option<Seq<char>> {
    first_text(items_member(message, "parts"@), 0)
}

pub fn message_text(message: &serde_json::Value) -> (text: Option<String>)
    ensures
        optional_chars(text) == message_text_of(json_of(*message)),
{
    let parts = match get(message, "parts") {
        Some(member) => match as_items(member) {
            Some(parts) => parts,
            None => {
                return None;
            },
        },
        None => {
            return None;
        },
    };
    let ghost all = jsons(parts@);
    let mut i: usize = 0;
    while i < parts.len()
        invariant
            i <= parts@.len(),
            all == jsons(parts@),
            all == items_member(json_of(*message), "parts"@),
            first_text(all, i as int) == first_text(all, 0),
        decreases parts@.len() - i,
    {
        assert(all[i as int] == json_of(parts@[i as int]));
        if let Some(member) = get(&parts[i], "text") {
            if let Some(text) = as_text(member) {
                return Some(text.to_string());
            }
        }
        i += 1;
    }
    None
}

/// The text of a message that may be missing, or no text.
pub open spec fn user_text(message: Option<serde_json::Value>) -> Seq<char> {
    match message {
        Some(message) => match message_text_of(json_of(message)) {
            Some(text) => text,
            None => seq![],
        },
        None => seq![],
    }
}

pub fn user_prompt(message: &Option<serde_json::Value>) -> (text: String)
    ensures
        text@ == user_text(*message),
{
    match message {
        Some(message) => match message_text(message) {
            Some(text) => text,
            None => String::new(),
        },
        None => String::new(),
    }
}

/// The instructions file that goes into the first prompt, where one does.
pub open spec fn prompt_file(agent: AgentDefinition) -> Option<Seq<char>> {
    match agent.runtime.instructions {
        Some(instructions) => if instructions.delivery == InstructionDelivery::FirstPrompt {
            optional_chars(instructions.file)
        } else {
            None
        },
        None => None,
    }
}

pub fn prompt_instructions_file(agent: &AgentDefinition) -> (file: Option<String>)
    ensures
        optional_chars(file) == prompt_file(*agent),
{
    match &agent.runtime.instructions {
        Some(instructions) => if instructions.delivery == InstructionDelivery::FirstPrompt {
            instructions.file.clone()
        } else {
            None
        },
        None => None,
    }
}

/// The prompt of a task: the user's text, behind the instructions where they go
/// into the first prompt.
pub open spec fn prompt_of(
    agent: AgentDefinition,
    message: Option<serde_json::Value>,
    instructions: FileText,
) -> Expansion {
    match prompt_file(agent) {
        None => Ok(user_text(message)),
        Some(file) => match instructions {
            FileText::Text(text) => Ok(text@ + "\n\n---\n\n"@ + user_text(message)),
            _ => Err("failed to read instructions from "@ + file),
        },
    }
}

/// The prompt of a task, with what was read of the instructions file.
pub fn task_prompt(
    agent: &AgentDefinition,
    message: &Option<serde_json::Value>,
    instructions: &FileText,
) -> (prompt: Result<String, String>)
    ensures
        expansion(prompt) == prompt_of(*agent, *message, *instructions),
{
    let user = user_prompt(message);
    match prompt_instructions_file(agent) {
        None => Ok(user),
        Some(file) => match instructions {
            FileText::Text(text) => Ok(plus(plus(text.clone(), "\n\n---\n\n"), user.as_str())),
            _ => Err(plus("failed to read instructions from ".to_string(), file.as_str())),
        },
    }
}

/// The directory that a task works in.
pub open spec fn workspace_of(
    agent: AgentDefinition,
    task_id: Seq<char>,
    temp_dir: Seq<char>,
) -> Expansion {
    let workspace = agent.runtime.runtime.workspace;
    match workspace.mode {
        WorkspaceMode::Path => match workspace.path {
            Some(path) => Ok(path@),
            None => Err("workspace.mode = \"path\" requires workspace.path"@),
        },
        WorkspaceMode::TempPerTask => Ok(
            joined(
                temp_dir,
                match workspace.prefix {
                    Some(prefix) => prefix@,
                    None => "mesh-a2a-"@,
                } + sanitized(agent.id@) + "-"@ + sanitized(task_id),
            ),
        ),
        WorkspaceMode::AgentDir | WorkspaceMode::Off => Ok(agent.dir@),
    }
}

pub fn task_workspace(agent: &AgentDefinition, task_id: &str, temp_dir: &str) -> (path: Result<
    String,
    String,
>)
    ensures
        expansion(path) == workspace_of(*agent, task_id@, temp_dir@),
{
    let workspace = &agent.runtime.runtime.workspace;
    match workspace.mode {
        WorkspaceMode::Path => match &workspace.path {
            Some(path) => Ok(path.clone()),
            None => Err("workspace.mode = \"path\" requires workspace.path".to_string()),
        },
        WorkspaceMode::TempPerTask => {
            let prefix = match &workspace.prefix {
                Some(prefix) => prefix.clone(),
                None => "mesh-a2a-".to_string(),
            };
            let named = plus(prefix, sanitize_path_component(agent.id.as_str()).as_str());
            let name = plus(plus(named, "-"), sanitize_path_component(task_id).as_str());
            Ok(join(temp_dir, name.as_str()))
        },
        WorkspaceMode::AgentDir | WorkspaceMode::Off => Ok(agent.dir.clone()),
    }
}

/// The command that starts a harness is the configured one with the configured
/// arguments, in order, whatever the runtime and whatever is installed. Only where no
/// argument is configured a named runtime is given `acp` alone, and the generic one
/// nothing. Without a command a named runtime is started by its own program, where that
/// was found, and the generic one not at all. A remote agent has no command.
pub proof fn law_command_is_the_configured_one(
    runtime: &RuntimeConfig,
    host: &HostPrograms,
    command: Result<AcpCommand, String>,
)
    requires
        call_ensures(AcpCommand::from_runtime, (runtime, host), command),
    ensures
        runtime.kind == RuntimeKind::Remote ==> command is Err,
        runtime.kind != RuntimeKind::Remote && runtime.command is Some ==> {
            &&& command is Ok
            &&& command->Ok_0.command@ == runtime.command->0@
            &&& runtime.args@.len() > 0 ==> command->Ok_0.args@.len() == runtime.args@.len() && (
            forall|i: int|
                0 <= i < runtime.args@.len() ==> (#[trigger] command->Ok_0.args@[i])@
                    == runtime.args@[i]@)
            &&& runtime.args@.len() == 0 && runtime.kind == RuntimeKind::Acp
                ==> command->Ok_0.args@.len() == 0
            &&& runtime.args@.len() == 0 && runtime.kind != RuntimeKind::Acp
                ==> command->Ok_0.args@.len() == 1 && command->Ok_0.args@[0]@ == "acp"@
        },
        runtime.kind == RuntimeKind::Acp && runtime.command is None ==> command is Err,
        runtime.command is None && runtime.kind != RuntimeKind::Acp && runtime.kind
            != RuntimeKind::Remote ==> {
            let (program, found) = match runtime.kind {
                RuntimeKind::Goose => ("goose"@, host.goose),
                RuntimeKind::Pi => ("pi"@, host.pi),
                _ => ("opencode"@, host.opencode),
            };
            &&& command is Ok <==> found
            &&& found ==> command->Ok_0.command@ == program && command->Ok_0.args@.len() == 1
                && command->Ok_0.args@[0]@ == "acp"@
        },
{
    if let Ok(made) = command {
        let given = texts(runtime.args@);
        assert(made.args@.len() == texts(made.args@).len());
        if runtime.command is Some && (runtime.args@.len() > 0 || runtime.kind
            == RuntimeKind::Acp) {
            assert(texts(made.args@) == given);
            assert forall|i: int| 0 <= i < runtime.args@.len() implies (
            #[trigger] made.args@[i])@ == runtime.args@[i]@ by {
                assert(texts(made.args@)[i] == given[i]);
            }
        } else {
            assert(texts(made.args@) == seq!["acp"@]);
            assert(texts(made.args@)[0] == made.args@[0]@);
        }
    }
}

proof fn lemma_first_entry(list: Seq<(Seq<char>, Seq<char>)>, at: int)
    requires
        0 <= at < list.len(),
        forall|i: int| 0 <= i < at ==> (#[trigger] list[i]).0 != list[at].0,
    ensures
        lookup(list, list[at].0) == Some(list[at].1),
    decreases list.len(),
{
    if at > 0 {
        let rest = list.drop_first();
        assert(rest[at - 1] == list[at]);
        assert forall|i: int| 0 <= i < at - 1 implies (#[trigger] rest[i]).0 != rest[at - 1].0 by {
            assert(rest[i] == list[i + 1]);
        }
        assert(list[0].0 != list[at].0);
        lemma_first_entry(rest, at - 1);
    }
}

/// The variable of that name stands for that value.
pub open spec fn stands_for(
    variables: Seq<(Seq<char>, Seq<char>)>,
    name: Seq<char>,
    value: Seq<char>,
) -> bool {
    lookup(variables, name) == Some(value)
}

/// Each variable of a template stands for what its name says: those of the agent for
/// what is known of the agent, those of the task for where the task's files are, those
/// of the mesh for where it is reached.
pub proof fn law_variables_stand_for_what_they_say(
    agent: &AgentDefinition,
    workspace: &str,
    task_paths: &TaskRuntimePaths,
    environment: &Vec<Pair>,
    context: TemplateContext,
)
    requires
        call_ensures(TemplateContext::new, (agent, workspace, task_paths, environment), context),
    ensures
        ({
            let variables = entries(context.values@);
            &&& stands_for(variables, "agent.id"@, agent.id@)
            &&& stands_for(variables, "agent.name"@, agent.card.name@)
            &&& stands_for(variables, "agent.dir"@, agent.dir@)
            &&& stands_for(variables, "agent.card_path"@, agent.card_path@)
            &&& stands_for(variables, "agent.runtime_path"@, agent.runtime_path@)
            &&& stands_for(variables, "task.id"@, task_paths.task_id@)
            &&& stands_for(variables, "task.workspace"@, workspace@)
            &&& stands_for(variables, "task.prompt_path"@, task_paths.prompt_path@)
            &&& stands_for(variables, "task.artifacts_dir"@, task_paths.artifacts_dir@)
            &&& stands_for(variables, "task.logs_dir"@, task_paths.logs_dir@)
            &&& stands_for(variables, "mesh.data_dir"@, task_paths.data_dir@)
            &&& stands_for(
                variables,
                "mesh.model"@,
                if agent.runtime.runtime.model is Some {
                    agent.runtime.runtime.model->0@
                } else {
                    "auto"@
                },
            )
            &&& stands_for(
                variables,
                "mesh.mcp_url"@,
                match lookup(entries(environment@), "MESH_LLM_MCP_URL"@) {
                    Some(url) => url,
                    None => "http://127.0.0.1:3131/mcp"@,
                },
            )
            &&& stands_for(
                variables,
                "mesh.api_url"@,
                match lookup(entries(environment@), "MESH_LLM_API_URL"@) {
                    Some(url) => url,
                    None => "http://127.0.0.1:3131"@,
                },
            )
            &&& stands_for(
                variables,
                "mesh.openai_url"@,
                match lookup(entries(environment@), "MESH_LLM_OPENAI_URL"@) {
                    Some(url) => url,
                    None => "http://127.0.0.1:9337/v1"@,
                },
            )
        }),
        entries(context.environment@) == entries(environment@),
{
    lemma_variable_names();
    let all = entries(context.values@);
    let common = common_variables(*agent, workspace@, *task_paths, entries(environment@));
    assert(common.len() == 15);
    assert forall|at: int| 0 <= at < 15 implies lookup(all, (#[trigger] common[at]).0) == Some(
        common[at].1,
    ) by {
        assert(all[at] == common[at]);
        assert forall|i: int| 0 <= i < at implies (#[trigger] all[i]).0 != all[at].0 by {
            assert(all[i] == common[i]);
        }
        lemma_first_entry(all, at);
    }
    assert(common[0].0 == "agent.id"@);
    assert(common[1].0 == "agent.name"@);
    assert(common[2].0 == "agent.dir"@);
    assert(common[3].0 == "agent.card_path"@);
    assert(common[4].0 == "agent.runtime_path"@);
    assert(common[5].0 == "task.id"@);
    assert(common[6].0 == "task.workspace"@);
    assert(common[7].0 == "task.prompt_path"@);
    assert(common[8].0 == "task.artifacts_dir"@);
    assert(common[9].0 == "task.logs_dir"@);
    assert(common[10].0 == "mesh.mcp_url"@);
    assert(common[11].0 == "mesh.api_url"@);
    assert(common[12].0 == "mesh.openai_url"@);
    assert(common[13].0 == "mesh.model"@);
    assert(common[14].0 == "mesh.data_dir"@);
}

/// The variables of the instructions stand for the file that is configured and for the
/// directory it is in.
pub proof fn law_instruction_variables(
    agent: &AgentDefinition,
    workspace: &str,
    task_paths: &TaskRuntimePaths,
    environment: &Vec<Pair>,
    context: TemplateContext,
)
    requires
        call_ensures(TemplateContext::new, (agent, workspace, task_paths, environment), context),
        agent.runtime.instructions is Some,
        agent.runtime.instructions->0.file is Some,
    ensures
        ({
            let variables = entries(context.values@);
            let file = agent.runtime.instructions->0.file->0@;
            &&& stands_for(variables, "instructions.file"@, file)
            &&& parent_of(file) is Some ==> stands_for(
                variables,
                "instructions.dir"@,
                parent_of(file)->0,
            )
        }),
{
    lemma_variable_names();
    let all = entries(context.values@);
    let common = common_variables(*agent, workspace@, *task_paths, entries(environment@));
    let file = agent.runtime.instructions->0.file->0@;
    let more = instruction_variables(optional_chars(agent.runtime.instructions_file()));
    assert(common.len() == 15);
    assert(all == common + more);
    assert(optional_chars(agent.runtime.instructions_file()) == Some(file));
    assert(all[15] == more[0]);
    assert(all[15].0 == "instructions.file"@);
    assert forall|i: int| 0 <= i < 15 implies (#[trigger] all[i]).0.len() != 17 by {
        assert(all[i] == common[i]);
    }
    lemma_first_entry(all, 15);
    if parent_of(file) is Some {
        assert(all[16] == more[1]);
        assert(all[16].0 == "instructions.dir"@);
        assert forall|i: int| 0 <= i < 16 implies (#[trigger] all[i]).0 != all[16].0 by {
            if i < 15 {
                assert(all[i] == common[i]);
            }
        }
        lemma_first_entry(all, 16);
    }
}

/// The prompt of a task is the user's text. Only where the instructions go into the
/// first prompt does it stand behind them, and then they must have been read.
pub proof fn law_prompt_ends_on_the_users_text(
    agent: &AgentDefinition,
    message: &Option<serde_json::Value>,
    instructions: &FileText,
    prompt: Result<String, String>,
)
    requires
        call_ensures(task_prompt, (agent, message, instructions), prompt),
    ensures
        prompt is Ok ==> has_suffix(
            prompt->Ok_0@,
            if *message is Some && message_text_of(json_of((*message)->0)) is Some {
                message_text_of(json_of((*message)->0))->0
            } else {
                seq![]
            },
        ),
        agent.runtime.instructions is Some && agent.runtime.instructions->0.file is Some
            && agent.runtime.instructions->0.delivery == InstructionDelivery::FirstPrompt ==> {
            &&& prompt is Ok <==> *instructions is Text
            &&& prompt is Ok ==> has_prefix(
                prompt->Ok_0@,
                (*instructions)->Text_0@ + "\n\n---\n\n"@,
            )
            &&& prompt is Ok ==> prompt->Ok_0@.len() == (*instructions)->Text_0@.len()
                + "\n\n---\n\n"@.len() + user_text(*message).len()
        },
        agent.runtime.instructions is None || agent.runtime.instructions->0.file is None
            || agent.runtime.instructions->0.delivery != InstructionDelivery::FirstPrompt
            ==> prompt is Ok && prompt->Ok_0@ == user_text(*message),
{
    if let Ok(text) = prompt {
        let said = user_text(*message);
        assert(text@.skip(text@.len() - said.len()) =~= said);
        if prompt_file(*agent) is Some {
            let before = (*instructions)->Text_0@ + "\n\n---\n\n"@;
            assert(text@.take(before.len() as int) =~= before);
        }
    }
}

/// The text of a message is that of the first of its parts that has one.
pub proof fn law_message_text_is_its_first(
    message: &serde_json::Value,
    text: Option<String>,
    at: int,
)
    requires
        call_ensures(message_text, (message,), text),
        0 <= at < items_member(json_of(*message), "parts"@).len(),
        text_member_of(items_member(json_of(*message), "parts"@)[at], "text"@) is Some,
        forall|i: int|
            0 <= i < at ==> text_member_of(
                #[trigger] items_member(json_of(*message), "parts"@)[i],
                "text"@,
            ) is None,
    ensures
        optional_chars(text) == text_member_of(
            items_member(json_of(*message), "parts"@)[at],
            "text"@,
        ),
{
    lemma_first_text(items_member(json_of(*message), "parts"@), 0, at);
}

proof fn lemma_first_text(parts: Seq<JsonView>, from: int, at: int)
    requires
        0 <= from <= at < parts.len(),
        text_member_of(parts[at], "text"@) is Some,
        forall|i: int| from <= i < at ==> text_member_of(#[trigger] parts[i], "text"@) is None,
    ensures
        first_text(parts, from) == text_member_of(parts[at], "text"@),
    decreases at - from,
{
    if from < at {
        assert(text_member_of(parts[from], "text"@) is None);
        lemma_first_text(parts, from + 1, at);
    }
}

/// A task works where its agent is configured to: in the configured directory, in the
/// agent's own, or in one of its own below the one for temporary files, named after the
/// agent and the task. Only a missing configured directory is refused.
pub proof fn law_workspace_is_the_configured_one(
    agent: &AgentDefinition,
    task_id: &str,
    temp_dir: &str,
    path: Result<String, String>,
)
    requires
        call_ensures(task_workspace, (agent, task_id, temp_dir), path),
    ensures
        path is Err <==> agent.runtime.runtime.workspace.mode == WorkspaceMode::Path
            && agent.runtime.runtime.workspace.path is None,
        agent.runtime.runtime.workspace.mode == WorkspaceMode::Path && path is Ok
            ==> path->Ok_0@ == agent.runtime.runtime.workspace.path->0@,
        agent.runtime.runtime.workspace.mode == WorkspaceMode::AgentDir
            || agent.runtime.runtime.workspace.mode == WorkspaceMode::Off ==> path->Ok_0@
            == agent.dir@,
        agent.runtime.runtime.workspace.mode == WorkspaceMode::TempPerTask ==> {
            &&& has_suffix(path->Ok_0@, sanitized(agent.id@) + "-"@ + sanitized(task_id@))
            &&& agent.runtime.runtime.workspace.prefix is None ==> path->Ok_0@ == joined(
                temp_dir@,
                "mesh-a2a-"@ + sanitized(agent.id@) + "-"@ + sanitized(task_id@),
            )
            &&& agent.runtime.runtime.workspace.prefix is Some ==> path->Ok_0@ == joined(
                temp_dir@,
                agent.runtime.runtime.workspace.prefix->0@ + sanitized(agent.id@) + "-"@
                    + sanitized(task_id@),
            )
        },
{
    if agent.runtime.runtime.workspace.mode == WorkspaceMode::TempPerTask {
        let whole = path->Ok_0@;
        let tail = sanitized(agent.id@) + "-"@ + sanitized(task_id@);
        assert(whole.skip(whole.len() - tail.len()) =~= tail);
    }
}

/// The files of a task stand below one directory of its own, which is named by the
/// agent and the task: its prompt, its artifacts and its logs are apart.
pub proof fn law_task_files_are_apart(
    data_dir: &str,
    agent_id: &str,
    task_id: &str,
    paths: TaskRuntimePaths,
)
    requires
        call_ensures(task_runtime_paths, (data_dir, agent_id, task_id), paths),
    ensures
        paths.task_id@ == task_id@,
        paths.data_dir@ == data_dir@,
        paths.prompt_path@ != paths.artifacts_dir@,
        paths.prompt_path@ != paths.logs_dir@,
        paths.artifacts_dir@ != paths.logs_dir@,
        has_suffix(
            paths.prompt_path@,
            "/"@ + sanitized(agent_id@) + "/runtime/"@ + sanitized(task_id@) + "/prompt.txt"@,
        ) || agent_id@.len() == 0 || task_id@.len() == 0,
        has_suffix(
            paths.artifacts_dir@,
            "/"@ + sanitized(agent_id@) + "/runtime/"@ + sanitized(task_id@) + "/artifacts"@,
        ) || agent_id@.len() == 0 || task_id@.len() == 0,
        has_suffix(
            paths.logs_dir@,
            "/"@ + sanitized(agent_id@) + "/runtime/"@ + sanitized(task_id@) + "/logs"@,
        ) || agent_id@.len() == 0 || task_id@.len() == 0,
{
    reveal_strlit("a2a");
    reveal_strlit("agents");
    reveal_strlit("runtime");
    reveal_strlit("/");
    reveal_strlit("/runtime/");
    reveal_strlit("prompt.txt");
    reveal_strlit("artifacts");
    reveal_strlit("logs");
    reveal_strlit("/prompt.txt");
    reveal_strlit("/artifacts");
    reveal_strlit("/logs");
    law_sanitized(agent_id@);
    law_sanitized(task_id@);
    let root = task_root(data_dir@, agent_id@, task_id@);
    let prompt = paths.prompt_path@;
    let artifacts = paths.artifacts_dir@;
    let logs = paths.logs_dir@;
    assert(prompt.len() == artifacts.len() + 1);
    assert(logs.len() + 5 == artifacts.len());
    if agent_id@.len() > 0 && task_id@.len() > 0 {
        let agent = sanitized(agent_id@);
        let task = sanitized(task_id@);
        assert(agent[0] != '/' && task[0] != '/') by {
            assert(agent.contains(agent[0]));
            assert(task.contains(task[0]));
        }
        assert(agent.last() != '/' && task.last() != '/') by {
            assert(agent.contains(agent.last()));
            assert(task.contains(task.last()));
        }
        let base = joined(joined(data_dir@, "a2a"@), "agents"@);
        assert(base.last() == 's');
        assert(joined(base, agent) =~= base + "/"@ + agent);
        assert(joined(joined(base, agent), "runtime"@) =~= base + "/"@ + agent + "/runtime"@) by {
            reveal_strlit("/runtime");
        }
        reveal_strlit("/runtime");
        assert(root =~= base + ("/"@ + agent + "/runtime/"@ + task));
        assert(root.last() == task.last());
        let above = "/"@ + agent + "/runtime/"@ + task;
        assert(prompt =~= base + (above + "/prompt.txt"@));
        assert(artifacts =~= base + (above + "/artifacts"@));
        assert(logs =~= base + (above + "/logs"@));
        lemma_suffix(base, above + "/prompt.txt"@);
        lemma_suffix(base, above + "/artifacts"@);
        lemma_suffix(base, above + "/logs"@);
    }
}

proof fn lemma_suffix(head: Seq<char>, tail: Seq<char>)
    ensures
        has_suffix(head + tail, tail),
{
    assert((head + tail).skip(head.len() as int) =~= tail);
}

proof fn lemma_assignments(
    env: Seq<(Seq<char>, Seq<char>)>,
    values: Seq<(Seq<char>, Seq<char>)>,
    environment: Seq<(Seq<char>, Seq<char>)>,
    from: int,
)
    requires
        0 <= from <= env.len(),
    ensures
        match env_assignments(env, values, environment, from) {
            Ok(list) => {
                &&& list.len() == env.len() - from
                &&& forall|i: int|
                    #![trigger env[i]]
                    from <= i < env.len() ==> expanded_of(env[i].1, values, environment) is Ok
                        && list[i - from] == env[i].0 + "="@ + expanded_of(
                        env[i].1,
                        values,
                        environment,
                    )->Ok_0
            },
            Err(error) => exists|i: int|
                #![trigger env[i]]
                from <= i < env.len() && expanded_of(env[i].1, values, environment) == Err::<
                    Seq<char>,
                    Seq<char>,
                >(error),
        },
    decreases env.len() - from,
{
    if from < env.len() {
        lemma_assignments(env, values, environment, from + 1);
        assert(env[from] == env[from]);
    }
}

proof fn lemma_expanded_texts(
    sources: Seq<Seq<char>>,
    values: Seq<(Seq<char>, Seq<char>)>,
    environment: Seq<(Seq<char>, Seq<char>)>,
    from: int,
)
    requires
        0 <= from <= sources.len(),
    ensures
        match expanded_texts(sources, values, environment, from) {
            Ok(list) => {
                &&& list.len() == sources.len() - from
                &&& forall|i: int|
                    #![trigger sources[i]]
                    from <= i < sources.len() ==> expanded_of(sources[i], values, environment)
                        == Ok::<Seq<char>, Seq<char>>(list[i - from])
            },
            Err(error) => exists|i: int|
                #![trigger sources[i]]
                from <= i < sources.len() && expanded_of(sources[i], values, environment) == Err::<
                    Seq<char>,
                    Seq<char>,
                >(error),
        },
    decreases sources.len() - from,
{
    if from < sources.len() {
        lemma_expanded_texts(sources, values, environment, from + 1);
        assert(sources[from] == sources[from]);
    }
}

/// A harness is started with its environment, its program and the program's arguments,
/// in this order: one assignment for each configured variable, each value and argument
/// as its references expand.
pub proof fn law_process_args(
    agent: &AgentDefinition,
    workspace: &str,
    task_paths: &TaskRuntimePaths,
    host: &HostPrograms,
    environment: &Vec<Pair>,
    args: Result<Vec<String>, String>,
    command: Result<AcpCommand, String>,
    context: TemplateContext,
)
    requires
        call_ensures(acp_process_args, (agent, workspace, task_paths, host, environment), args),
        call_ensures(AcpCommand::from_runtime, (&agent.runtime.runtime, host), command),
        call_ensures(TemplateContext::new, (agent, workspace, task_paths, environment), context),
        args is Ok,
    ensures
        command is Ok,
        ({
            let list = args->Ok_0@;
            let env = agent.runtime.runtime.env@;
            let values = entries(context.values@);
            let around = entries(context.environment@);
            let made = command->Ok_0;
            &&& list.len() == env.len() + 1 + made.args@.len()
            &&& forall|i: int|
                #![trigger env[i]]
                0 <= i < env.len() ==> expanded_of(env[i].1, values, around) is Ok && list[i]@
                    == env[i].0 + "="@ + expanded_of(env[i].1, values, around)->Ok_0
            &&& expanded_of(made.command@, values, around) == Ok::<Seq<char>, Seq<char>>(
                list[env.len() as int]@,
            )
            &&& forall|i: int|
                #![trigger made.args@[i]]
                0 <= i < made.args@.len() ==> expanded_of(made.args@[i]@, values, around) == Ok::<
                    Seq<char>,
                    Seq<char>,
                >(list[env.len() + 1 + i]@)
        }),
{
    let env = agent.runtime.runtime.env@;
    let values = entries(context.values@);
    let around = entries(context.environment@);
    let made = command->Ok_0;
    let list = args->Ok_0@;
    let all = texts(list);
    let sources = texts(made.args@);
    lemma_assignments(env, values, around, 0);
    lemma_expanded_texts(sources, values, around, 0);
    assert(values == template_variables(*agent, workspace@, *task_paths, around));
    let first = env_assignments(env, values, around, 0)->Ok_0;
    let last = expanded_texts(sources, values, around, 0)->Ok_0;
    let program = expanded_of(made.command@, values, around)->Ok_0;
    assert(all == first.push(program) + last);
    assert(all.len() == list.len());
    assert forall|i: int| #![trigger env[i]] 0 <= i < env.len() implies expanded_of(
        env[i].1,
        values,
        around,
    ) is Ok && list[i]@ == env[i].0 + "="@ + expanded_of(env[i].1, values, around)->Ok_0 by {
        assert(all[i] == list[i]@);
        assert(all[i] == first[i - 0]);
    }
    assert(all[env.len() as int] == list[env.len() as int]@);
    assert forall|i: int| #![trigger made.args@[i]] 0 <= i < made.args@.len() implies expanded_of(
        made.args@[i]@,
        values,
        around,
    ) == Ok::<Seq<char>, Seq<char>>(list[env.len() + 1 + i]@) by {
        assert(sources[i] == made.args@[i]@);
        assert(all[env.len() + 1 + i] == list[env.len() + 1 + i]@);
        assert(all[env.len() + 1 + i] == last[i - 0]);
    }
}

/// Why a harness cannot be started: the program that is missing is named, with how to
/// get it where only the desktop application was found; the generic runtime has no
/// command; or the agent is remote.
pub proof fn law_missing_command_says_why(
    runtime: &RuntimeConfig,
    host: &HostPrograms,
    command: Result<AcpCommand, String>,
)
    requires
        call_ensures(AcpCommand::from_runtime, (runtime, host), command),
        command is Err,
    ensures
        runtime.kind == RuntimeKind::Opencode ==> command->Err_0@
            == "could not find OpenCode CLI `opencode` on PATH"@,
        runtime.kind == RuntimeKind::Pi ==> command->Err_0@
            == "could not find Pi CLI `pi` on PATH"@,
        runtime.kind == RuntimeKind::Goose && !host.desktop_goose ==> command->Err_0@
            == "could not find Goose CLI `goose` on PATH"@,
        runtime.kind == RuntimeKind::Goose && host.desktop_goose ==> has_prefix(
            command->Err_0@,
            "Desktop Goose is installed"@,
        ),
        runtime.kind == RuntimeKind::Acp ==> command->Err_0@
            == "runtime.type = \"acp\" requires command"@,
        runtime.kind == RuntimeKind::Remote ==> command->Err_0@
            == "remote A2A agents do not use ACP commands"@,
{
    if runtime.kind == RuntimeKind::Goose && host.desktop_goose {
        reveal_strlit("Desktop Goose is installed");
        reveal_strlit(
            "Desktop Goose is installed at /Applications/Goose.app/Contents/Resources/bin/goosed, but goosed agent is not ACP stdio; install or link the Goose CLI as `goose`, or set runtime.command to an ACP-compatible Goose command",
        );
        let head = "Desktop Goose is installed"@;
        assert(command->Err_0@.take(head.len() as int) =~= head);
    }
}

/// A URL is looked up in the environment under the name that was asked for, and
/// the default stands only where the environment has none.
pub proof fn law_mesh_url(
    environment: &Vec<Pair>,
    env_name: &str,
    default: &str,
    url: String,
)
    requires
        call_ensures(mesh_url, (environment, env_name, default), url),
    ensures
        lookup(entries(environment@), env_name@) is Some ==> Some(url@) == lookup(
            entries(environment@),
            env_name@,
        ),
        lookup(entries(environment@), env_name@) is None ==> url@ == default@,
{
}

} // verus!
