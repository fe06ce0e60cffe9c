//! The rules that an agent's id, card and runtime configuration must meet.
//!
//! Each check gives the text of its first complaint; `None` means that there is
//! nothing to complain about.

use vstd::prelude::*;

use crate::card::{AgentCard, AgentInterface, AgentSkill};
#[allow(unused_imports)]
use crate::card::{CardView, InterfaceView, SkillView};
use crate::config::{
    AgentRuntimeConfig, InstructionsConfig, RuntimeConfig, RuntimeKind, ToolConfig, ToolsConfig,
    WorkspaceConfig, WorkspaceMode,
};
#[allow(unused_imports)]
use crate::json::optional_chars;
use crate::pairs::Pair;
#[allow(unused_imports)]
use crate::pairs::entries;
use crate::text::{blank, chars_of, decimal_text, is_id_character, plus};
#[allow(unused_imports)]
use crate::text::{decimal, has_prefix, is_blank, is_id_char, texts};

verus! {

/// The complaint of a check, if it has one.
pub open spec fn complaint(result: Result<(), String>) -> Option<Seq<char>> {
    match result {
        Ok(_) => None,
        Err(error) => Some(error@),
    }
}

/// The first of two complaints.
pub open spec fn first_of(first: Option<Seq<char>>, second: Option<Seq<char>>) -> Option<
    Seq<char>,
> {
    match first {
        Some(error) => Some(error),
        None => second,
    }
}

/// What the `Debug` form of a text is: the text in double quotes, with escapes.
pub uninterp spec fn debug_form(text: Seq<char>) -> Seq<char>;

/// `format!` with `{:?}` of a `str`.
#[verifier::external_body]
fn quoted(text: &str) -> (quoted: String)
    ensures
        quoted@ == debug_form(text@),
{
    format!("{text:?}")
}

/// An id is made of one or more ASCII letters, digits, `-` and `_`.
pub open spec fn is_agent_id(id: Seq<char>) -> bool {
    &&& id.len() > 0
    &&& forall|i: int| 0 <= i < id.len() ==> is_id_char(#[trigger] id[i])
}

pub open spec fn agent_id_complaint(id: Seq<char>) -> Option<Seq<char>> {
    if id.len() == 0 {
        Some("agent id cannot be empty"@)
    } else if !is_agent_id(id) {
        Some(
            "agent id "@ + debug_form(id)
                + " must contain only ASCII letters, digits, '-' or '_'"@,
        )
    } else {
        None
    }
}

pub fn validate_agent_id(agent_id: &str) -> (result: Result<(), String>)
    ensures
        complaint(result) == agent_id_complaint(agent_id@),
{
    let chars = chars_of(agent_id);
    if chars.len() == 0 {
        return Err("agent id cannot be empty".to_string());
    }
    let mut i: usize = 0;
    while i < chars.len()
        invariant
            i <= chars@.len(),
            chars@ == agent_id@,
            chars@.len() > 0,
            forall|j: int| 0 <= j < i ==> is_id_char(#[trigger] chars@[j]),
        decreases chars@.len() - i,
    {
        if !is_id_character(chars[i]) {
            assert(!is_id_char(agent_id@[i as int]));
            return Err(
                plus(
                    plus("agent id ".to_string(), quoted(agent_id).as_str()),
                    " must contain only ASCII letters, digits, '-' or '_'",
                ),
            );
        }
        i += 1;
    }
    Ok(())
}

pub open spec fn required_complaint(value: Seq<char>, path: Seq<char>) -> Option<Seq<char>> {
    if is_blank(value) {
        Some(path + " must not be empty"@)
    } else {
        None
    }
}

pub fn validate_required(value: &str, path: &str) -> (result: Result<(), String>)
    ensures
        complaint(result) == required_complaint(value@, path@),
{
    if blank(value) {
        return Err(plus(path.to_string(), " must not be empty"));
    }
    Ok(())
}

pub open spec fn required_option_complaint(
    value: Option<Seq<char>>,
    path: Seq<char>,
) -> Option<Seq<char>> {
    match value {
        Some(value) => required_complaint(value, path),
        None => Some(path + " is required"@),
    }
}

pub fn validate_required_option(value: &Option<String>, path: &str) -> (result: Result<(), String>)
    ensures
        complaint(result) == required_option_complaint(optional_chars(*value), path@),
{
    match value {
        Some(value) => validate_required(value.as_str(), path),
        None => Err(plus(path.to_string(), " is required")),
    }
}

pub open spec fn optional_complaint(
    value: Option<Seq<char>>,
    path: Seq<char>,
) -> Option<Seq<char>> {
    match value {
        Some(value) => required_complaint(value, path),
        None => None,
    }
}

pub fn validate_optional_non_empty(
    value: &Option<String>,
    path: &str,
) -> (result: Result<(), String>)
    ensures
        complaint(result) == optional_complaint(optional_chars(*value), path@),
{
    match value {
        Some(value) => validate_required(value.as_str(), path),
        None => Ok(()),
    }
}

/// The path of one item of a list.
pub open spec fn item_path(path: Seq<char>, index: int) -> Seq<char> {
    path + "["@ + decimal(index as nat) + "]"@
}

fn path_of_item(path: &str, index: usize) -> (whole: String)
    ensures
        whole@ == item_path(path@, index as int),
{
    let opened = plus(path.to_string(), "[");
    plus(plus(opened, decimal_text(index as u128).as_str()), "]")
}

/// The complaint about the first blank text of a list, from `from` on.
pub open spec fn list_complaint(
    values: Seq<Seq<char>>,
    path: Seq<char>,
    from: int,
) -> Option<Seq<char>>
    decreases values.len() - from,
{
    if from < 0 || from >= values.len() {
        None
    } else {
        first_of(
            required_complaint(values[from], item_path(path, from)),
            list_complaint(values, path, from + 1),
        )
    }
}

pub fn validate_string_list(values: &Vec<String>, path: &str) -> (result: Result<(), String>)
    ensures
        complaint(result) == list_complaint(texts(values@), path@, 0),
{
    let mut i: usize = 0;
    while i < values.len()
        invariant
            i <= values@.len(),
            list_complaint(texts(values@), path@, i as int) == list_complaint(
                texts(values@),
                path@,
                0,
            ),
        decreases values@.len() - i,
    {
        assert(texts(values@)[i as int] == values@[i as int]@);
        let item = path_of_item(path, i);
        if let Err(error) = validate_required(values[i].as_str(), item.as_str()) {
            return Err(error);
        }
        i += 1;
    }
    Ok(())
}

/// `agent <id>`, a blank and what is meant of the agent.
pub open spec fn of_agent(id: Seq<char>, what: Seq<char>) -> Seq<char> {
    "agent "@ + id + " "@ + what
}

fn path_of_agent(agent_id: &str, what: &str) -> (path: String)
    ensures
        path@ == of_agent(agent_id@, what@),
{
    plus(plus(plus("agent ".to_string(), agent_id), " "), what)
}

pub open spec fn interface_complaint(interface: InterfaceView, path: Seq<char>) -> Option<Seq<char>> {
    first_of(
        required_complaint(interface.url, path + ".url"@),
        first_of(
            required_complaint(interface.protocol_binding, path + ".protocolBinding"@),
            required_complaint(interface.protocol_version, path + ".protocolVersion"@),
        ),
    )
}

fn validate_interface(interface: &AgentInterface, path: &str) -> (result: Result<(), String>)
    ensures
        complaint(result) == interface_complaint(interface@, path@),
{
    let url = plus(path.to_string(), ".url");
    if let Err(error) = validate_required(interface.url.as_str(), url.as_str()) {
        return Err(error);
    }
    let binding = plus(path.to_string(), ".protocolBinding");
    if let Err(error) = validate_required(interface.protocol_binding.as_str(), binding.as_str()) {
        return Err(error);
    }
    let version = plus(path.to_string(), ".protocolVersion");
    validate_required(interface.protocol_version.as_str(), version.as_str())
}

pub open spec fn interfaces_complaint_from(
    id: Seq<char>,
    interfaces: Seq<InterfaceView>,
    from: int,
) -> Option<Seq<char>>
    decreases interfaces.len() - from,
{
    if from < 0 || from >= interfaces.len() {
        None
    } else {
        first_of(
            interface_complaint(
                interfaces[from],
                item_path(of_agent(id, "card.supportedInterfaces"@), from),
            ),
            interfaces_complaint_from(id, interfaces, from + 1),
        )
    }
}

/// A card names at least one interface, and each with its URL, binding and version.
pub open spec fn interfaces_complaint(id: Seq<char>, interfaces: Seq<InterfaceView>) -> Option<
    Seq<char>,
> {
    if interfaces.len() == 0 {
        Some(of_agent(id, "card.supportedInterfaces must not be empty"@))
    } else {
        interfaces_complaint_from(id, interfaces, 0)
    }
}

pub fn validate_agent_interfaces(
    agent_id: &str,
    interfaces: &Vec<AgentInterface>,
) -> (result: Result<(), String>)
    ensures
        complaint(result) == interfaces_complaint(
            agent_id@,
            interfaces@.map_values(|interface: AgentInterface| interface@),
        ),
{
    if interfaces.len() == 0 {
        return Err(path_of_agent(agent_id, "card.supportedInterfaces must not be empty"));
    }
    let ghost views = interfaces@.map_values(|interface: AgentInterface| interface@);
    let path = path_of_agent(agent_id, "card.supportedInterfaces");
    let mut i: usize = 0;
    while i < interfaces.len()
        invariant
            i <= interfaces@.len(),
            path@ == of_agent(agent_id@, "card.supportedInterfaces"@),
            views == interfaces@.map_values(|interface: AgentInterface| interface@),
            interfaces_complaint_from(agent_id@, views, i as int) == interfaces_complaint_from(
                agent_id@,
                views,
                0,
            ),
        decreases interfaces@.len() - i,
    {
        assert(views[i as int] == interfaces@[i as int]@);
        let item = path_of_item(path.as_str(), i);
        if let Err(error) = validate_interface(&interfaces[i], item.as_str()) {
            return Err(error);
        }
        i += 1;
    }
    Ok(())
}

pub open spec fn skill_complaint(skill: SkillView, path: Seq<char>) -> Option<Seq<char>> {
    first_of(
        required_complaint(skill.id, path + ".id"@),
        first_of(
            required_complaint(skill.name, path + ".name"@),
            first_of(
                required_complaint(skill.description, path + ".description"@),
                list_complaint(skill.tags, path + ".tags"@, 0),
            ),
        ),
    )
}

fn validate_skill(skill: &AgentSkill, path: &str) -> (result: Result<(), String>)
    ensures
        complaint(result) == skill_complaint(skill@, path@),
{
    let id = plus(path.to_string(), ".id");
    if let Err(error) = validate_required(skill.id.as_str(), id.as_str()) {
        return Err(error);
    }
    let name = plus(path.to_string(), ".name");
    if let Err(error) = validate_required(skill.name.as_str(), name.as_str()) {
        return Err(error);
    }
    let description = plus(path.to_string(), ".description");
    if let Err(error) = validate_required(skill.description.as_str(), description.as_str()) {
        return Err(error);
    }
    let tags = plus(path.to_string(), ".tags");
    validate_string_list(&skill.tags, tags.as_str())
}

pub open spec fn skills_complaint(id: Seq<char>, skills: Seq<SkillView>, from: int) -> Option<
    Seq<char>,
>
    decreases skills.len() - from,
{
    if from < 0 || from >= skills.len() {
        None
    } else {
        first_of(
            skill_complaint(skills[from], item_path(of_agent(id, "card.skills"@), from)),
            skills_complaint(id, skills, from + 1),
        )
    }
}

/// The first rule that a card breaks, in the order of the card's members.
pub open spec fn card_complaint(id: Seq<char>, card: CardView) -> Option<Seq<char>> {
    first_of(
        required_complaint(card.name, of_agent(id, "card.name"@)),
        first_of(
            required_complaint(card.description, of_agent(id, "card.description"@)),
            first_of(
                required_complaint(card.version, of_agent(id, "card.version"@)),
                first_of(
                    interfaces_complaint(id, card.supported_interfaces),
                    first_of(
                        list_complaint(
                            card.default_input_modes,
                            of_agent(id, "card.defaultInputModes"@),
                            0,
                        ),
                        first_of(
                            list_complaint(
                                card.default_output_modes,
                                of_agent(id, "card.defaultOutputModes"@),
                                0,
                            ),
                            skills_complaint(id, card.skills, 0),
                        ),
                    ),
                ),
            ),
        ),
    )
}

pub fn validate_agent_card(agent_id: &str, card: &AgentCard) -> (result: Result<(), String>)
    ensures
        complaint(result) == card_complaint(agent_id@, card@),
{
    let name = path_of_agent(agent_id, "card.name");
    if let Err(error) = validate_required(card.name.as_str(), name.as_str()) {
        return Err(error);
    }
    let description = path_of_agent(agent_id, "card.description");
    if let Err(error) = validate_required(card.description.as_str(), description.as_str()) {
        return Err(error);
    }
    let version = path_of_agent(agent_id, "card.version");
    if let Err(error) = validate_required(card.version.as_str(), version.as_str()) {
        return Err(error);
    }
    if let Err(error) = validate_agent_interfaces(agent_id, &card.supported_interfaces) {
        return Err(error);
    }
    let inputs = path_of_agent(agent_id, "card.defaultInputModes");
    if let Err(error) = validate_string_list(&card.default_input_modes, inputs.as_str()) {
        return Err(error);
    }
    let outputs = path_of_agent(agent_id, "card.defaultOutputModes");
    if let Err(error) = validate_string_list(&card.default_output_modes, outputs.as_str()) {
        return Err(error);
    }
    validate_skills(agent_id, &card.skills)
}

fn validate_skills(agent_id: &str, skills: &Vec<AgentSkill>) -> (result: Result<(), String>)
    ensures
        complaint(result) == skills_complaint(
            agent_id@,
            skills@.map_values(|skill: AgentSkill| skill@),
            0,
        ),
{
    let path = path_of_agent(agent_id, "card.skills");
    let ghost views = skills@.map_values(|skill: AgentSkill| skill@);
    let mut i: usize = 0;
    while i < skills.len()
        invariant
            i <= skills@.len(),
            path@ == of_agent(agent_id@, "card.skills"@),
            views == skills@.map_values(|skill: AgentSkill| skill@),
            skills_complaint(agent_id@, views, i as int) == skills_complaint(
                agent_id@,
                views,
                0,
            ),
        decreases skills@.len() - i,
    {
        assert(views[i as int] == skills@[i as int]@);
        let item = path_of_item(path.as_str(), i);
        if let Err(error) = validate_skill(&skills[i], item.as_str()) {
            return Err(error);
        }
        i += 1;
    }
    Ok(())
}

/// The complaint about the first variable with a blank name or value, from `from` on.
pub open spec fn env_complaint(
    id: Seq<char>,
    env: Seq<(Seq<char>, Seq<char>)>,
    from: int,
) -> Option<Seq<char>>
    decreases env.len() - from,
{
    if from < 0 || from >= env.len() {
        None
    } else {
        first_of(
            required_complaint(env[from].0, of_agent(id, "runtime.env key"@)),
            first_of(
                required_complaint(env[from].1, of_agent(id, "runtime.env."@ + env[from].0)),
                env_complaint(id, env, from + 1),
            ),
        )
    }
}

/// The generic ACP runtime needs a command; the others may go without. What is
/// given must not be blank.
pub open spec fn command_complaint(id: Seq<char>, runtime: RuntimeConfig) -> Option<Seq<char>> {
    first_of(
        if runtime.kind == RuntimeKind::Acp {
            required_option_complaint(
                optional_chars(runtime.command),
                of_agent(id, "runtime.command"@),
            )
        } else {
            optional_complaint(optional_chars(runtime.command), of_agent(id, "runtime.command"@))
        },
        first_of(
            list_complaint(texts(runtime.args@), of_agent(id, "runtime.args"@), 0),
            env_complaint(id, runtime.env@, 0),
        ),
    )
}

pub fn validate_runtime_command(
    agent_id: &str,
    runtime: &RuntimeConfig,
) -> (result: Result<(), String>)
    ensures
        complaint(result) == command_complaint(agent_id@, *runtime),
{
    let command = path_of_agent(agent_id, "runtime.command");
    let checked = match runtime.kind {
        RuntimeKind::Acp => validate_required_option(&runtime.command, command.as_str()),
        _ => validate_optional_non_empty(&runtime.command, command.as_str()),
    };
    if let Err(error) = checked {
        return Err(error);
    }
    let args = path_of_agent(agent_id, "runtime.args");
    if let Err(error) = validate_string_list(&runtime.args, args.as_str()) {
        return Err(error);
    }
    validate_env(agent_id, runtime.env.pairs())
}

fn validate_env(agent_id: &str, env: &Vec<Pair>) -> (result: Result<(), String>)
    ensures
        complaint(result) == env_complaint(agent_id@, entries(env@), 0),
{
    let ghost all = entries(env@);
    let mut i: usize = 0;
    while i < env.len()
        invariant
            i <= env@.len(),
            all == entries(env@),
            env_complaint(agent_id@, all, i as int) == env_complaint(agent_id@, all, 0),
        decreases env@.len() - i,
    {
        assert(all[i as int] == env@[i as int]@);
        let key = path_of_agent(agent_id, "runtime.env key");
        if let Err(error) = validate_required(env[i].name.as_str(), key.as_str()) {
            return Err(error);
        }
        let what = plus("runtime.env.".to_string(), env[i].name.as_str());
        let path = path_of_agent(agent_id, what.as_str());
        if let Err(error) = validate_required(env[i].value.as_str(), path.as_str()) {
            return Err(error);
        }
        i += 1;
    }
    Ok(())
}

/// A workspace at a path needs the path; a prefix must not be blank.
pub open spec fn workspace_complaint(
    id: Seq<char>,
    mode: WorkspaceMode,
    path: Option<Seq<char>>,
    prefix: Option<Seq<char>>,
) -> Option<Seq<char>> {
    if mode == WorkspaceMode::Path && (path is None || path->0.len() == 0) {
        Some(of_agent(id, "runtime.workspace.path is required"@))
    } else {
        optional_complaint(prefix, of_agent(id, "runtime.workspace.prefix"@))
    }
}

pub fn validate_workspace(
    agent_id: &str,
    workspace: &WorkspaceConfig,
) -> (result: Result<(), String>)
    ensures
        complaint(result) == workspace_complaint(
            agent_id@,
            workspace.mode,
            optional_chars(workspace.path),
            optional_chars(workspace.prefix),
        ),
{
    if workspace.mode == WorkspaceMode::Path {
        let given = match &workspace.path {
            Some(path) => chars_of(path.as_str()).len() > 0,
            None => false,
        };
        if !given {
            return Err(path_of_agent(agent_id, "runtime.workspace.path is required"));
        }
    }
    let prefix = path_of_agent(agent_id, "runtime.workspace.prefix");
    validate_optional_non_empty(&workspace.prefix, prefix.as_str())
}

/// An instructions file, where one is named, must be there. `found` says whether it is.
pub open spec fn instructions_complaint(
    id: Seq<char>,
    file: Option<Seq<char>>,
    found: bool,
) -> Option<Seq<char>> {
    match file {
        Some(file) => if file.len() == 0 {
            Some(of_agent(id, "instructions.file must not be empty"@))
        } else if !found {
            Some(of_agent(id, "instructions.file "@ + file + " does not exist"@))
        } else {
            None
        },
        None => None,
    }
}

pub fn validate_instructions(
    agent_id: &str,
    instructions: &Option<InstructionsConfig>,
    found: bool,
) -> (result: Result<(), String>)
    ensures
        complaint(result) == instructions_complaint(
            agent_id@,
            match *instructions {
                Some(instructions) => optional_chars(instructions.file),
                None => None,
            },
            found,
        ),
{
    let file = match instructions {
        Some(instructions) => match &instructions.file {
            Some(file) => file,
            None => {
                return Ok(());
            },
        },
        None => {
            return Ok(());
        },
    };
    if chars_of(file.as_str()).len() == 0 {
        return Err(path_of_agent(agent_id, "instructions.file must not be empty"));
    }
    if !found {
        let what = plus(
            plus("instructions.file ".to_string(), file.as_str()),
            " does not exist",
        );
        return Err(path_of_agent(agent_id, what.as_str()));
    }
    Ok(())
}

pub open spec fn tool_complaint(tool: ToolConfig, path: Seq<char>) -> Option<Seq<char>> {
    first_of(
        required_complaint(tool.name@, path + ".name"@),
        first_of(
            optional_complaint(optional_chars(tool.command), path + ".command"@),
            first_of(
                list_complaint(texts(tool.args@), path + ".args"@, 0),
                first_of(
                    list_complaint(texts(tool.env_keys@), path + ".env_keys"@, 0),
                    list_complaint(texts(tool.available_tools@), path + ".available_tools"@, 0),
                ),
            ),
        ),
    )
}

fn validate_tool(tool: &ToolConfig, path: &str) -> (result: Result<(), String>)
    ensures
        complaint(result) == tool_complaint(*tool, path@),
{
    let name = plus(path.to_string(), ".name");
    if let Err(error) = validate_required(tool.name.as_str(), name.as_str()) {
        return Err(error);
    }
    let command = plus(path.to_string(), ".command");
    if let Err(error) = validate_optional_non_empty(&tool.command, command.as_str()) {
        return Err(error);
    }
    let args = plus(path.to_string(), ".args");
    if let Err(error) = validate_string_list(&tool.args, args.as_str()) {
        return Err(error);
    }
    let env_keys = plus(path.to_string(), ".env_keys");
    if let Err(error) = validate_string_list(&tool.env_keys, env_keys.as_str()) {
        return Err(error);
    }
    let available_tools = plus(path.to_string(), ".available_tools");
    validate_string_list(&tool.available_tools, available_tools.as_str())
}

pub open spec fn extra_tools_complaint(id: Seq<char>, extra: Seq<ToolConfig>, from: int) -> Option<
    Seq<char>,
>
    decreases extra.len() - from,
{
    if from < 0 || from >= extra.len() {
        None
    } else {
        first_of(
            tool_complaint(extra[from], item_path(of_agent(id, "tools.extra"@), from)),
            extra_tools_complaint(id, extra, from + 1),
        )
    }
}

pub open spec fn tools_complaint(id: Seq<char>, tools: ToolsConfig) -> Option<Seq<char>> {
    first_of(
        list_complaint(
            texts(tools.mesh.available_tools@),
            of_agent(id, "tools.mesh.available_tools"@),
            0,
        ),
        extra_tools_complaint(id, tools.extra@, 0),
    )
}

pub fn validate_tools(agent_id: &str, tools: &ToolsConfig) -> (result: Result<(), String>)
    ensures
        complaint(result) == tools_complaint(agent_id@, *tools),
{
    let mesh = path_of_agent(agent_id, "tools.mesh.available_tools");
    if let Err(error) = validate_string_list(&tools.mesh.available_tools, mesh.as_str()) {
        return Err(error);
    }
    validate_extra_tools(agent_id, &tools.extra)
}

fn validate_extra_tools(agent_id: &str, extra: &Vec<ToolConfig>) -> (result: Result<(), String>)
    ensures
        complaint(result) == extra_tools_complaint(agent_id@, extra@, 0),
{
    let path = path_of_agent(agent_id, "tools.extra");
    let mut i: usize = 0;
    while i < extra.len()
        invariant
            i <= extra@.len(),
            path@ == of_agent(agent_id@, "tools.extra"@),
            extra_tools_complaint(agent_id@, extra@, i as int) == extra_tools_complaint(
                agent_id@,
                extra@,
                0,
            ),
        decreases extra@.len() - i,
    {
        let item = path_of_item(path.as_str(), i);
        if let Err(error) = validate_tool(&extra[i], item.as_str()) {
            return Err(error);
        }
        i += 1;
    }
    Ok(())
}

/// The first rule that a runtime configuration breaks, with its workspace at
/// `workspace_path` and its instructions in `instructions_file`.
pub open spec fn runtime_complaint(
    id: Seq<char>,
    config: AgentRuntimeConfig,
    workspace_path: Option<Seq<char>>,
    instructions_file: Option<Seq<char>>,
    instructions_found: bool,
) -> Option<Seq<char>> {
    first_of(
        command_complaint(id, config.runtime),
        first_of(
            workspace_complaint(
                id,
                config.runtime.workspace.mode,
                workspace_path,
                optional_chars(config.runtime.workspace.prefix),
            ),
            first_of(
                instructions_complaint(id, instructions_file, instructions_found),
                first_of(
                    tools_complaint(id, config.tools),
                    first_of(
                        match config.auth {
                            Some(auth) => optional_complaint(
                                optional_chars(auth.bearer_token_env),
                                of_agent(id, "auth.bearer_token_env"@),
                            ),
                            None => None,
                        },
                        if config.runtime.max_concurrent_tasks == 0 {
                            Some(
                                of_agent(id, "runtime.max_concurrent_tasks must be at least 1"@),
                            )
                        } else {
                            None
                        },
                    ),
                ),
            ),
        ),
    )
}

pub fn validate_runtime_config(
    agent_id: &str,
    config: &AgentRuntimeConfig,
    instructions_found: bool,
) -> (result: Result<(), String>)
    ensures
        complaint(result) == runtime_complaint(
            agent_id@,
            *config,
            optional_chars(config.runtime.workspace.path),
            optional_chars(config.instructions_file()),
            instructions_found,
        ),
{
    if let Err(error) = validate_runtime_command(agent_id, &config.runtime) {
        return Err(error);
    }
    if let Err(error) = validate_workspace(agent_id, &config.runtime.workspace) {
        return Err(error);
    }
    if let Err(error) = validate_instructions(agent_id, &config.instructions, instructions_found) {
        return Err(error);
    }
    if let Err(error) = validate_tools(agent_id, &config.tools) {
        return Err(error);
    }
    if let Some(auth) = &config.auth {
        let path = path_of_agent(agent_id, "auth.bearer_token_env");
        if let Err(error) = validate_optional_non_empty(&auth.bearer_token_env, path.as_str()) {
            return Err(error);
        }
    }
    if config.runtime.max_concurrent_tasks == 0 {
        return Err(path_of_agent(agent_id, "runtime.max_concurrent_tasks must be at least 1"));
    }
    Ok(())
}

/// The first rule that an agent's card or, after it, its configuration breaks.
pub open spec fn definition_complaint(
    id: Seq<char>,
    card: CardView,
    config: AgentRuntimeConfig,
    workspace_path: Option<Seq<char>>,
    instructions_file: Option<Seq<char>>,
    instructions_found: bool,
) -> Option<Seq<char>> {
    first_of(
        card_complaint(id, card),
        runtime_complaint(id, config, workspace_path, instructions_file, instructions_found),
    )
}

pub fn validate_agent_definition(
    agent_id: &str,
    card: &AgentCard,
    runtime: &AgentRuntimeConfig,
    instructions_found: bool,
) -> (result: Result<(), String>)
    ensures
        complaint(result) == definition_complaint(
            agent_id@,
            card@,
            *runtime,
            optional_chars(runtime.runtime.workspace.path),
            optional_chars(runtime.instructions_file()),
            instructions_found,
        ),
{
    if let Err(error) = validate_agent_card(agent_id, card) {
        return Err(error);
    }
    validate_runtime_config(agent_id, runtime, instructions_found)
}

/// An agent id is taken exactly where it is made of ASCII letters and digits, `-` and
/// `_`, and of at least one of them.
pub proof fn law_agent_ids(agent_id: &str, result: Result<(), String>)
    requires
        call_ensures(validate_agent_id, (agent_id,), result),
    ensures
        result is Ok <==> agent_id@.len() > 0 && forall|i: int|
            #![trigger agent_id@[i]]
            0 <= i < agent_id@.len() ==> {
                let c = agent_id@[i];
                ('a' <= c <= 'z') || ('A' <= c <= 'Z') || ('0' <= c <= '9') || c == '-' || c == '_'
            },
{
}

/// A text that must be there is refused exactly where it is blank, and the refusal
/// says which one it is.
pub proof fn law_required_texts(value: &str, path: &str, result: Result<(), String>)
    requires
        call_ensures(validate_required, (value, path), result),
    ensures
        result is Ok <==> !is_blank(value@),
        result is Err ==> result->Err_0@ == path@ + " must not be empty"@,
{
}

/// A text that may be missing must not be blank. One that must be there is refused
/// where it is missing, too.
pub proof fn law_optional_texts(
    value: &Option<String>,
    path: &str,
    required: Result<(), String>,
    optional: Result<(), String>,
)
    requires
        call_ensures(validate_required_option, (value, path), required),
        call_ensures(validate_optional_non_empty, (value, path), optional),
    ensures
        required is Ok <==> *value is Some && !is_blank((*value)->0@),
        optional is Ok <==> *value is None || !is_blank((*value)->0@),
        required is Err ==> has_prefix(required->Err_0@, path@),
        optional is Err ==> has_prefix(optional->Err_0@, path@),
{
    if let Err(error) = required {
        assert(error@.take(path@.len() as int) =~= path@);
    }
    if let Err(error) = optional {
        assert(error@.take(path@.len() as int) =~= path@);
    }
}

/// None of some texts is blank.
pub open spec fn none_blank(values: Seq<Seq<char>>) -> bool {
    forall|i: int| 0 <= i < values.len() ==> !is_blank(#[trigger] values[i])
}

proof fn lemma_list_complaint(values: Seq<Seq<char>>, path: Seq<char>, from: int)
    requires
        0 <= from <= values.len(),
    ensures
        list_complaint(values, path, from) is None <==> forall|i: int|
            from <= i < values.len() ==> !is_blank(#[trigger] values[i]),
        list_complaint(values, path, from) is Some ==> exists|i: int|
            #![trigger values[i]]
            from <= i < values.len() && is_blank(values[i]) && list_complaint(values, path, from)
                == Some(item_path(path, i) + " must not be empty"@) && forall|j: int|
                from <= j < i ==> !is_blank(#[trigger] values[j]),
    decreases values.len() - from,
{
    if from < values.len() {
        lemma_list_complaint(values, path, from + 1);
        if is_blank(values[from]) {
            assert(list_complaint(values, path, from) == Some(
                item_path(path, from) + " must not be empty"@,
            ));
        }
    }
}

/// A list of texts is taken where none of them is blank, and the refusal says which is
/// the first that is.
pub proof fn law_text_lists(values: &Vec<String>, path: &str, result: Result<(), String>)
    requires
        call_ensures(validate_string_list, (values, path), result),
    ensures
        result is Ok <==> none_blank(texts(values@)),
        result is Err ==> exists|i: int|
            #![trigger values@[i]]
            0 <= i < values@.len() && is_blank(values@[i]@) && result->Err_0@ == path@ + "["@
                + decimal(i as nat) + "] must not be empty"@ && forall|j: int|
                0 <= j < i ==> !is_blank((#[trigger] values@[j])@),
{
    let all = texts(values@);
    lemma_list_complaint(all, path@, 0);
    if let Err(error) = result {
        let i = choose|i: int|
            #![trigger all[i]]
            0 <= i < all.len() && is_blank(all[i]) && list_complaint(all, path@, 0) == Some(
                item_path(path@, i) + " must not be empty"@,
            ) && forall|j: int| 0 <= j < i ==> !is_blank(#[trigger] all[j]);
        assert(values@[i]@ == all[i]);
        reveal_strlit("]");
        reveal_strlit(" must not be empty");
        reveal_strlit("] must not be empty");
        assert(error@ =~= path@ + "["@ + decimal(i as nat) + "] must not be empty"@);
        assert forall|j: int| 0 <= j < i implies !is_blank((#[trigger] values@[j])@) by {
            assert(all[j] == values@[j]@);
        }
    }
}

/// The members that an interface must have are there.
pub open spec fn full_interface(interface: InterfaceView) -> bool {
    !is_blank(interface.url) && !is_blank(interface.protocol_binding) && !is_blank(
        interface.protocol_version,
    )
}

/// The members that a skill must have are there, and none of its tags is blank.
pub open spec fn full_skill(skill: SkillView) -> bool {
    !is_blank(skill.id) && !is_blank(skill.name) && !is_blank(skill.description) && none_blank(
        skill.tags,
    )
}

proof fn lemma_interfaces(id: Seq<char>, interfaces: Seq<InterfaceView>, from: int)
    requires
        0 <= from <= interfaces.len(),
    ensures
        interfaces_complaint_from(id, interfaces, from) is None <==> forall|i: int|
            from <= i < interfaces.len() ==> full_interface(#[trigger] interfaces[i]),
    decreases interfaces.len() - from,
{
    if from < interfaces.len() {
        lemma_interfaces(id, interfaces, from + 1);
        if !full_interface(interfaces[from]) {
            assert(interfaces_complaint_from(id, interfaces, from) is Some);
        }
    }
}

proof fn lemma_skills(id: Seq<char>, skills: Seq<SkillView>, from: int)
    requires
        0 <= from <= skills.len(),
    ensures
        skills_complaint(id, skills, from) is None <==> forall|i: int|
            from <= i < skills.len() ==> full_skill(#[trigger] skills[i]),
    decreases skills.len() - from,
{
    if from < skills.len() {
        lemma_skills(id, skills, from + 1);
        let path = item_path(of_agent(id, "card.skills"@), from);
        lemma_list_complaint(skills[from].tags, path + ".tags"@, 0);
        if !full_skill(skills[from]) {
            assert(skills_complaint(id, skills, from) is Some);
        }
    }
}

/// A card is taken exactly where it has a name, a description, a version and at least
/// one interface, every interface and every skill is full, and no mode is blank.
pub proof fn law_card_rules(agent_id: &str, card: &AgentCard, result: Result<(), String>)
    requires
        call_ensures(validate_agent_card, (agent_id, card), result),
    ensures
        result is Ok <==> {
            &&& !is_blank(card.name@)
            &&& !is_blank(card.description@)
            &&& !is_blank(card.version@)
            &&& card.supported_interfaces@.len() > 0
            &&& forall|i: int|
                0 <= i < card.supported_interfaces@.len() ==> full_interface(
                    (#[trigger] card.supported_interfaces@[i])@,
                )
            &&& none_blank(texts(card.default_input_modes@))
            &&& none_blank(texts(card.default_output_modes@))
            &&& forall|i: int|
                0 <= i < card.skills@.len() ==> full_skill((#[trigger] card.skills@[i])@)
        },
        is_blank(card.name@) ==> result->Err_0@ == "agent "@ + agent_id@ + " card.name must not be empty"@,
        !is_blank(card.name@) && is_blank(card.description@) ==> result->Err_0@ == "agent "@
            + agent_id@ + " card.description must not be empty"@,
        !is_blank(card.name@) && !is_blank(card.description@) && is_blank(card.version@)
            ==> result->Err_0@ == "agent "@ + agent_id@ + " card.version must not be empty"@,
{
    let id = agent_id@;
    let view = card@;
    let interfaces = view.supported_interfaces;
    let skills = view.skills;
    lemma_interfaces(id, interfaces, 0);
    lemma_skills(id, skills, 0);
    lemma_list_complaint(
        view.default_input_modes,
        of_agent(id, "card.defaultInputModes"@),
        0,
    );
    lemma_list_complaint(
        view.default_output_modes,
        of_agent(id, "card.defaultOutputModes"@),
        0,
    );
    assert(forall|i: int|
        0 <= i < card.supported_interfaces@.len() ==> interfaces[i] == (
        #[trigger] card.supported_interfaces@[i])@);
    assert(forall|i: int|
        0 <= i < interfaces.len() ==> #[trigger] interfaces[i] == card.supported_interfaces@[i]@);
    assert(forall|i: int| 0 <= i < card.skills@.len() ==> skills[i] == (#[trigger] card.skills@[i])@);
    assert(forall|i: int| 0 <= i < skills.len() ==> #[trigger] skills[i] == card.skills@[i]@);
    reveal_strlit(" ");
    reveal_strlit(" must not be empty");
    reveal_strlit("card.name");
    reveal_strlit("card.description");
    reveal_strlit("card.version");
    reveal_strlit(" card.name must not be empty");
    reveal_strlit(" card.description must not be empty");
    reveal_strlit(" card.version must not be empty");
    assert(of_agent(id, "card.name"@) + " must not be empty"@ =~= "agent "@ + id
        + " card.name must not be empty"@);
    assert(of_agent(id, "card.description"@) + " must not be empty"@ =~= "agent "@ + id
        + " card.description must not be empty"@);
    assert(of_agent(id, "card.version"@) + " must not be empty"@ =~= "agent "@ + id
        + " card.version must not be empty"@);
}

proof fn lemma_env_complaint(id: Seq<char>, env: Seq<(Seq<char>, Seq<char>)>, from: int)
    requires
        0 <= from <= env.len(),
    ensures
        env_complaint(id, env, from) is None <==> forall|i: int|
            from <= i < env.len() ==> !is_blank((#[trigger] env[i]).0) && !is_blank(env[i].1),
    decreases env.len() - from,
{
    if from < env.len() {
        lemma_env_complaint(id, env, from + 1);
        if is_blank(env[from].0) || is_blank(env[from].1) {
            assert(env_complaint(id, env, from) is Some);
        }
    }
}

/// A tool has a name, and nothing that it gives besides is blank.
pub open spec fn full_tool(tool: ToolConfig) -> bool {
    &&& !is_blank(tool.name@)
    &&& tool.command is Some ==> !is_blank(tool.command->0@)
    &&& none_blank(texts(tool.args@))
    &&& none_blank(texts(tool.env_keys@))
    &&& none_blank(texts(tool.available_tools@))
}

proof fn lemma_tools(id: Seq<char>, extra: Seq<ToolConfig>, from: int)
    requires
        0 <= from <= extra.len(),
    ensures
        extra_tools_complaint(id, extra, from) is None <==> forall|i: int|
            from <= i < extra.len() ==> full_tool(#[trigger] extra[i]),
    decreases extra.len() - from,
{
    if from < extra.len() {
        lemma_tools(id, extra, from + 1);
        let tool = extra[from];
        let path = item_path(of_agent(id, "tools.extra"@), from);
        lemma_list_complaint(texts(tool.args@), path + ".args"@, 0);
        lemma_list_complaint(texts(tool.env_keys@), path + ".env_keys"@, 0);
        lemma_list_complaint(texts(tool.available_tools@), path + ".available_tools"@, 0);
        if !full_tool(extra[from]) {
            assert(extra_tools_complaint(id, extra, from) is Some);
        }
    }
}

/// A configuration is taken exactly where it keeps these rules: the generic runtime has
/// a command; no command, argument, variable, prefix, tool or name of a variable with a
/// token is blank; a workspace at a path has the path; an instructions file that is
/// named is there; and at least one task may run at a time.
pub proof fn law_configuration_rules(
    agent_id: &str,
    config: &AgentRuntimeConfig,
    instructions_found: bool,
    result: Result<(), String>,
)
    requires
        call_ensures(validate_runtime_config, (agent_id, config, instructions_found), result),
    ensures
        result is Ok <==> {
            let runtime = config.runtime;
            &&& runtime.kind == RuntimeKind::Acp ==> runtime.command is Some
            &&& runtime.command is Some ==> !is_blank(runtime.command->0@)
            &&& none_blank(texts(runtime.args@))
            &&& forall|i: int|
                0 <= i < runtime.env@.len() ==> !is_blank((#[trigger] runtime.env@[i]).0)
                    && !is_blank(runtime.env@[i].1)
            &&& runtime.workspace.mode == WorkspaceMode::Path ==> runtime.workspace.path is Some
                && runtime.workspace.path->0@.len() > 0
            &&& runtime.workspace.prefix is Some ==> !is_blank(runtime.workspace.prefix->0@)
            &&& config.instructions is Some && config.instructions->0.file is Some
                ==> config.instructions->0.file->0@.len() > 0 && instructions_found
            &&& none_blank(texts(config.tools.mesh.available_tools@))
            &&& forall|i: int|
                0 <= i < config.tools.extra@.len() ==> full_tool(
                    #[trigger] config.tools.extra@[i],
                )
            &&& config.auth is Some && config.auth->0.bearer_token_env is Some ==> !is_blank(
                config.auth->0.bearer_token_env->0@,
            )
            &&& runtime.max_concurrent_tasks >= 1
        },
{
    let id = agent_id@;
    let runtime = config.runtime;
    lemma_list_complaint(texts(runtime.args@), of_agent(id, "runtime.args"@), 0);
    lemma_env_complaint(id, runtime.env@, 0);
    lemma_list_complaint(
        texts(config.tools.mesh.available_tools@),
        of_agent(id, "tools.mesh.available_tools"@),
        0,
    );
    lemma_tools(id, config.tools.extra@, 0);
}

/// An agent is taken where its card is and its configuration is, and its card is
/// looked at first.
pub proof fn law_definition_rules(
    agent_id: &str,
    card: &AgentCard,
    runtime: &AgentRuntimeConfig,
    instructions_found: bool,
    whole: Result<(), String>,
    of_card: Result<(), String>,
    of_runtime: Result<(), String>,
)
    requires
        call_ensures(
            validate_agent_definition,
            (agent_id, card, runtime, instructions_found),
            whole,
        ),
        call_ensures(validate_agent_card, (agent_id, card), of_card),
        call_ensures(validate_runtime_config, (agent_id, runtime, instructions_found), of_runtime),
    ensures
        whole is Ok <==> of_card is Ok && of_runtime is Ok,
        of_card is Err ==> whole->Err_0@ == of_card->Err_0@,
        of_card is Ok && of_runtime is Err ==> whole->Err_0@ == of_runtime->Err_0@,
{
}

} // verus!
