//! Agents and the directory that holds them.
//!
//! Each agent has a directory of its own, named by its id, with an Agent Card
//! and a runtime configuration in it. What was found on disk comes in as plain
//! values.

use vstd::prelude::*;

use crate::card::AgentCard;
#[allow(unused_imports)]
use crate::card::card_in;
use crate::config::AgentRuntimeConfig;
#[allow(unused_imports)]
use crate::config::{below, normal_form, InstructionsConfig, RuntimeConfig, WorkspaceConfig};
#[allow(unused_imports)]
use crate::json::{json_of, optional_chars, text_member_or_empty};
use crate::order::{sort_by_rank, text_precedes, Ranked};
#[allow(unused_imports)]
use crate::order::{
    is_ranked, law_sorting, lemma_precedes_irreflexive, precedes, ranked, ranks_before,
};
use crate::paths::{file_name, join, json_extension};
#[allow(unused_imports)]
use crate::paths::{file_name_of, has_json_extension, is_absolute, joined};
use crate::text::{plus, same_text};
use crate::validation::{validate_agent_definition, validate_agent_id};
#[allow(unused_imports)]
use crate::validation::{agent_id_complaint, definition_complaint, is_agent_id, of_agent};
use crate::wire::decode_card;
#[allow(unused_imports)]
use crate::wire::decoded_card;

verus! {

/// A file that was looked for.
#[derive(Clone, Debug)]
pub enum FileText {
    Missing,
    Unreadable,
    Text(String),
}

/// A runtime configuration that was looked for.
#[derive(Clone, Debug)]
pub enum RuntimeFile {
    Missing,
    Unreadable,
    Malformed,
    Parsed(AgentRuntimeConfig),
}

/// What an agent's directory holds.
#[derive(Clone, Debug)]
pub struct AgentFiles {
    pub dir: String,
    pub card: FileText,
    pub runtime: RuntimeFile,
    /// The instructions file that the configuration names, if it names one, is there.
    pub instructions_found: bool,
}

/// An agent: its card and its configuration, and where they came from.
#[derive(Clone, Debug)]
pub struct AgentDefinition {
    pub id: String,
    pub dir: String,
    pub card_path: String,
    pub runtime_path: String,
    pub card: AgentCard,
    pub runtime: AgentRuntimeConfig,
}

/// Why an agent cannot be made out of its files, where it cannot.
#[verifier::opaque]
pub open spec fn load_complaint(files: AgentFiles) -> Option<Seq<char>> {
    let card_path = joined(files.dir@, "agent-card.json"@);
    let runtime_path = joined(files.dir@, "runtime.toml"@);
    match file_name_of(files.dir@) {
        None => Some("agent directory must have a UTF-8 name"@),
        Some(id) => match agent_id_complaint(id) {
            Some(error) => Some(error),
            None => if files.card is Missing {
                Some(of_agent(id, "is missing agent-card.json"@))
            } else if files.runtime is Missing {
                Some(of_agent(id, "is missing runtime.toml"@))
            } else {
                match files.card {
                    FileText::Text(text) => match decoded_card(text@) {
                        None => Some("failed to parse "@ + card_path),
                        Some(document) => match files.runtime {
                            RuntimeFile::Parsed(config) => definition_complaint(
                                id,
                                card_in(document),
                                config,
                                below(files.dir@, config.runtime.workspace.path),
                                below(files.dir@, config.instructions_file()),
                                files.instructions_found,
                            ),
                            RuntimeFile::Malformed => Some("failed to parse "@ + runtime_path),
                            _ => Some("failed to read TOML file "@ + runtime_path),
                        },
                    },
                    _ => Some("failed to read JSON file "@ + card_path),
                }
            },
        },
    }
}

/// The agent is the one that the files describe.
#[verifier::opaque]
pub open spec fn describes(files: AgentFiles, agent: AgentDefinition) -> bool {
    &&& file_name_of(files.dir@) == Some(agent.id@)
    &&& agent.dir@ == files.dir@
    &&& agent.card_path@ == joined(files.dir@, "agent-card.json"@)
    &&& agent.runtime_path@ == joined(files.dir@, "runtime.toml"@)
    &&& files.card is Text
    &&& decoded_card(files.card->Text_0@) is Some
    &&& agent.card@ == card_in(decoded_card(files.card->Text_0@)->0)
    &&& files.runtime is Parsed
    &&& normal_form(agent.runtime, files.runtime->Parsed_0, files.dir@)
}

impl AgentDefinition {
    /// Makes an agent out of what its directory holds.
    pub fn load(files: AgentFiles) -> (agent: Result<Self, String>)
        ensures
            match agent {
                Ok(agent) => load_complaint(files) is None && describes(files, agent),
                Err(error) => load_complaint(files) == Some(error@),
            },
    {
        proof {
            reveal(load_complaint);
            reveal(describes);
        }
        let id = match file_name(files.dir.as_str()) {
            Some(id) => id,
            None => {
                return Err("agent directory must have a UTF-8 name".to_string());
            },
        };
        if let Err(error) = validate_agent_id(id.as_str()) {
            return Err(error);
        }
        let card_path = join(files.dir.as_str(), "agent-card.json");
        let runtime_path = join(files.dir.as_str(), "runtime.toml");
        if let FileText::Missing = files.card {
            return Err(agent_message(id.as_str(), "is missing agent-card.json"));
        }
        if let RuntimeFile::Missing = files.runtime {
            return Err(agent_message(id.as_str(), "is missing runtime.toml"));
        }
        let card = match &files.card {
            FileText::Text(text) => match decode_card(text.as_str()) {
                Some(document) => AgentCard::from_document(document),
                None => {
                    return Err(plus("failed to parse ".to_string(), card_path.as_str()));
                },
            },
            _ => {
                return Err(plus("failed to read JSON file ".to_string(), card_path.as_str()));
            },
        };
        let runtime = match files.runtime {
            RuntimeFile::Parsed(config) => config.normalize_relative_paths(files.dir.as_str()),
            RuntimeFile::Malformed => {
                return Err(plus("failed to parse ".to_string(), runtime_path.as_str()));
            },
            _ => {
                return Err(plus("failed to read TOML file ".to_string(), runtime_path.as_str()));
            },
        };
        if let Err(error) = validate_agent_definition(
            id.as_str(),
            &card,
            &runtime,
            files.instructions_found,
        ) {
            return Err(error);
        }
        Ok(
            AgentDefinition {
                id: id,
                dir: files.dir,
                card_path: card_path,
                runtime_path: runtime_path,
                card: card,
                runtime: runtime,
            },
        )
    }
}

fn agent_message(agent_id: &str, what: &str) -> (message: String)
    ensures
        message@ == of_agent(agent_id@, what@),
{
    plus(plus(plus("agent ".to_string(), agent_id), " "), what)
}

impl Ranked for AgentDefinition {
    open spec fn rank(self) -> Seq<Seq<char>> {
        seq![self.id@]
    }

    fn goes_before(&self, other: &Self) -> (yes: bool) {
        proof {
            lemma_precedes_irreflexive(self.id@);
            reveal_with_fuel(ranks_before, 2);
        }
        text_precedes(self.id.as_str(), other.id.as_str())
    }
}

/// One entry of the agents directory.
#[derive(Clone, Debug)]
pub enum DirEntry {
    /// A directory, and what it holds.
    Directory(AgentFiles),
    /// Anything else, by its path.
    Other(String),
    /// An entry that could not be read, with the error's text.
    Failed(String),
}

/// What was found where the agents directory should be.
#[derive(Clone, Debug)]
pub enum DirListing {
    Missing,
    NotADirectory,
    Unreadable,
    Entries(Vec<DirEntry>),
}

/// Why one entry stops the loading, where it does.
pub open spec fn entry_complaint(path: Seq<char>, entry: DirEntry) -> Option<Seq<char>> {
    match entry {
        DirEntry::Directory(files) => load_complaint(files),
        DirEntry::Other(file) => if has_json_extension(file@) {
            Some(
                "loose Agent Card files are not supported under "@ + path
                    + "; use <agent-id>/agent-card.json"@,
            )
        } else {
            None
        },
        DirEntry::Failed(error) => Some(error@),
    }
}

/// The complaint about the first entry that stops the loading, from `from` on.
pub open spec fn entries_complaint(path: Seq<char>, entries: Seq<DirEntry>, from: int) -> Option<
    Seq<char>,
>
    decreases entries.len() - from,
{
    if from < 0 || from >= entries.len() {
        None
    } else {
        match entry_complaint(path, entries[from]) {
            Some(error) => Some(error),
            None => entries_complaint(path, entries, from + 1),
        }
    }
}

pub open spec fn listing_complaint(path: Seq<char>, listing: DirListing) -> Option<Seq<char>> {
    match listing {
        DirListing::Missing => None,
        DirListing::NotADirectory => Some("agents path "@ + path + " is not a directory"@),
        DirListing::Unreadable => Some("failed to read agents directory "@ + path),
        DirListing::Entries(entries) => entries_complaint(path, entries@, 0),
    }
}

/// The directories among some entries, in order.
pub open spec fn directories(entries: Seq<DirEntry>) -> Seq<AgentFiles>
    decreases entries.len(),
{
    if entries.len() == 0 {
        seq![]
    } else {
        let before = directories(entries.drop_last());
        match entries.last() {
            DirEntry::Directory(files) => before.push(files),
            _ => before,
        }
    }
}

pub open spec fn listed_directories(listing: DirListing) -> Seq<AgentFiles> {
    match listing {
        DirListing::Entries(entries) => directories(entries@),
        _ => seq![],
    }
}

/// `agents` are the agents of `files`, one for one.
pub open spec fn all_described(files: Seq<AgentFiles>, agents: Seq<AgentDefinition>) -> bool {
    &&& agents.len() == files.len()
    &&& forall|i: int| 0 <= i < files.len() ==> describes(#[trigger] files[i], agents[i])
}

/// The agents of a directory, in the order of their ids.
#[derive(Clone, Debug)]
pub struct AgentRegistry {
    agents: Vec<AgentDefinition>,
}

impl View for AgentRegistry {
    type V = Seq<AgentDefinition>;

    closed spec fn view(&self) -> Seq<AgentDefinition> {
        self.agents@
    }
}

impl Default for AgentRegistry {
    fn default() -> (registry: Self)
        ensures
            registry@ == Seq::<AgentDefinition>::empty(),
    {
        AgentRegistry::empty()
    }
}

impl AgentRegistry {
    /// A registry without agents.
    #[must_use]
    pub fn empty() -> (registry: Self)
        ensures
            registry@ == Seq::<AgentDefinition>::empty(),
    {
        AgentRegistry { agents: Vec::new() }
    }

    /// Makes a registry out of what the agents directory holds: one agent for
    /// each directory in it, in the order of the agents' ids. A directory that is
    /// not there counts as an empty one. The first entry that cannot be used stops
    /// the loading.
    pub fn load_from_dir(path: &str, listing: DirListing) -> (registry: Result<Self, String>)
        ensures
            match registry {
                Ok(registry) => {
                    &&& listing_complaint(path@, listing) is None
                    &&& is_ranked(registry@)
                    &&& exists|loaded: Seq<AgentDefinition>|
                        all_described(listed_directories(listing), loaded) && registry@
                            == #[trigger] ranked(loaded)
                },
                Err(error) => listing_complaint(path@, listing) == Some(error@),
            },
    {
        let entries = match listing {
            DirListing::Missing => {
                let registry = AgentRegistry::empty();
                proof {
                    let none = Seq::<AgentDefinition>::empty();
                    assert(all_described(listed_directories(listing), none));
                    assert(ranked(none) == none);
                }
                return Ok(registry);
            },
            DirListing::NotADirectory => {
                return Err(plus(plus("agents path ".to_string(), path), " is not a directory"));
            },
            DirListing::Unreadable => {
                return Err(plus("failed to read agents directory ".to_string(), path));
            },
            DirListing::Entries(entries) => entries,
        };
        let agents = match agents_of(path, entries) {
            Ok(agents) => agents,
            Err(error) => {
                return Err(error);
            },
        };
        proof {
            law_sorting(agents@);
        }
        Ok(AgentRegistry { agents: sort_by_rank(agents) })
    }

    /// The agents, in the order of their ids.
    #[must_use]
    pub fn agents(&self) -> (agents: &Vec<AgentDefinition>)
        ensures
            agents@ == self@,
    {
        &self.agents
    }

    /// The agent by that id.
    #[must_use]
    pub fn get(&self, agent_id: &str) -> (agent: Option<&AgentDefinition>)
        ensures
            match agent {
                Some(agent) => agent_named(self@, agent_id@) == Some(*agent),
                None => agent_named(self@, agent_id@) is None,
            },
    {
        let ghost all = self@;
        let mut i: usize = 0;
        assert(all.skip(0) =~= all);
        while i < self.agents.len()
            invariant
                i <= self.agents@.len(),
                all == self.agents@,
                agent_named(all.skip(i as int), agent_id@) == agent_named(all, agent_id@),
            decreases self.agents@.len() - i,
        {
            assert(all.skip(i as int)[0] == self.agents@[i as int]);
            if same_text(self.agents[i].id.as_str(), agent_id) {
                return Some(&self.agents[i]);
            }
            assert(all.skip(i as int).drop_first() =~= all.skip(i as int + 1));
            i += 1;
        }
        None
    }
}

/// The first agent by that id.
pub open spec fn agent_named(agents: Seq<AgentDefinition>, id: Seq<char>) -> Option<AgentDefinition>
    decreases agents.len(),
{
    if agents.len() == 0 {
        None
    } else if agents[0].id@ == id {
        Some(agents[0])
    } else {
        agent_named(agents.drop_first(), id)
    }
}

fn agents_of(path: &str, entries: Vec<DirEntry>) -> (agents: Result<Vec<AgentDefinition>, String>)
    ensures
        match agents {
            Ok(agents) => entries_complaint(path@, entries@, 0) is None && all_described(
                directories(entries@),
                agents@,
            ),
            Err(error) => entries_complaint(path@, entries@, 0) == Some(error@),
        },
{
    let ghost all = entries@;
    let mut rest = entries;
    let mut agents: Vec<AgentDefinition> = Vec::new();
    let ghost mut done: int = 0;
    assert(all.skip(0) =~= all);
    assert(all.take(0) =~= Seq::<DirEntry>::empty());
    while rest.len() > 0
        invariant
            0 <= done <= all.len(),
            all == entries@,
            rest@ == all.skip(done),
            entries_complaint(path@, all, done) == entries_complaint(path@, all, 0),
            all_described(directories(all.take(done)), agents@),
        decreases rest@.len(),
    {
        let entry = rest.remove(0);
        proof {
            assert(all.take(done + 1).drop_last() =~= all.take(done));
            assert(all.take(done + 1).last() == entry);
            assert(all.skip(done).remove(0) =~= all.skip(done + 1));
        }
        match entry {
            DirEntry::Directory(files) => {
                let ghost before = directories(all.take(done));
                let ghost made = agents@;
                match AgentDefinition::load(files) {
                    Ok(agent) => {
                        agents.push(agent);
                        proof {
                            assert(directories(all.take(done + 1)) == before.push(files));
                            assert forall|i: int| 0 <= i < before.push(files).len() implies describes(
                                #[trigger] before.push(files)[i],
                                agents@[i],
                            ) by {
                                if i < before.len() {
                                    assert(describes(before[i], made[i]));
                                }
                            }
                        }
                    },
                    Err(error) => {
                        return Err(error);
                    },
                }
            },
            DirEntry::Other(file) => {
                if json_extension(file.as_str()) {
                    return Err(
                        plus(
                            plus(
                                "loose Agent Card files are not supported under ".to_string(),
                                path,
                            ),
                            "; use <agent-id>/agent-card.json",
                        ),
                    );
                }
            },
            DirEntry::Failed(error) => {
                return Err(error);
            },
        }
        proof {
            done = done + 1;
        }
    }
    assert(all.take(done) =~= all);
    Ok(agents)
}

/// An agent that could be loaded keeps every rule for cards and configurations,
/// with its paths as they now are; it can run at least one task at a time.
pub proof fn law_loaded_agent_is_valid(files: AgentFiles, agent: AgentDefinition)
    requires
        load_complaint(files) is None,
        describes(files, agent),
    ensures
        is_agent_id(agent.id@),
        definition_complaint(
            agent.id@,
            agent.card@,
            agent.runtime,
            optional_chars(agent.runtime.runtime.workspace.path),
            optional_chars(agent.runtime.instructions_file()),
            files.instructions_found,
        ) is None,
        agent.runtime.runtime.max_concurrent_tasks >= 1,
{
    reveal(load_complaint);
    reveal(describes);
}

/// The configuration that is saved where an agent is switched on or off: the one
/// that the agent was loaded with, its paths taken relative to its directory, with
/// nothing changed but the switch.
pub open spec fn saved_config(agent: AgentDefinition, enabled: bool) -> AgentRuntimeConfig {
    AgentRuntimeConfig { enabled: enabled, ..agent.runtime }
}

/// The configuration to save where an agent is switched on or off.
pub fn config_to_save(agent: AgentDefinition, enabled: bool) -> (config: AgentRuntimeConfig)
    ensures
        config == saved_config(agent, enabled),
{
    let mut config = agent.runtime;
    config.set_enabled(enabled);
    config
}

/// A path that is taken relative to a directory once stays as it is when that is done
/// again: there is none, it is absolute, or the directory is.
pub open spec fn path_stays(agent_dir: Seq<char>, path: Option<String>) -> bool {
    is_absolute(agent_dir) || (path is Some ==> is_absolute(path->0@))
}

/// Switching an agent on or off changes nothing else: its files can be loaded as
/// before, and the agent that is loaded then has the same card, the same paths and
/// every other setting as it was. `after` are the files once the configuration has
/// been saved, `agent` and `again` the agents that are loaded before and after. This
/// leaves out a relative path in a directory that is given by a relative path itself:
/// it is saved with the directory before it, and loading puts it there once more.
pub proof fn law_switch_changes_nothing_else(
    before: AgentFiles,
    after: AgentFiles,
    enabled: bool,
    agent: AgentDefinition,
    again: AgentDefinition,
)
    requires
        describes(before, agent),
        after == (AgentFiles {
            runtime: RuntimeFile::Parsed(saved_config(agent, enabled)),
            ..before
        }),
        describes(after, again),
        before.runtime is Parsed ==> path_stays(
            before.dir@,
            before.runtime->Parsed_0.runtime.workspace.path,
        ),
        before.runtime is Parsed ==> path_stays(
            before.dir@,
            before.runtime->Parsed_0.instructions_file(),
        ),
    ensures
        load_complaint(after) == load_complaint(before),
        again.id@ == agent.id@,
        again.dir@ == agent.dir@,
        again.card_path@ == agent.card_path@,
        again.runtime_path@ == agent.runtime_path@,
        again.card@ == agent.card@,
        again.runtime.enabled == enabled,
        optional_chars(again.runtime.runtime.workspace.path) == optional_chars(
            agent.runtime.runtime.workspace.path,
        ),
        optional_chars(again.runtime.instructions_file()) == optional_chars(
            agent.runtime.instructions_file(),
        ),
        again.runtime == (AgentRuntimeConfig {
            enabled: enabled,
            runtime: RuntimeConfig {
                workspace: WorkspaceConfig {
                    path: again.runtime.runtime.workspace.path,
                    ..agent.runtime.runtime.workspace
                },
                ..agent.runtime.runtime
            },
            instructions: match agent.runtime.instructions {
                Some(instructions) => Some(
                    InstructionsConfig { file: again.runtime.instructions_file(), ..instructions },
                ),
                None => None,
            },
            ..agent.runtime
        }),
{
    reveal(load_complaint);
    reveal(describes);
}

proof fn lemma_named_agent_is_among_them(agents: Seq<AgentDefinition>, id: Seq<char>)
    ensures
        match agent_named(agents, id) {
            Some(agent) => agents.contains(agent) && agent.id@ == id,
            None => forall|i: int| 0 <= i < agents.len() ==> (#[trigger] agents[i]).id@ != id,
        },
    decreases agents.len(),
{
    if agents.len() > 0 && agents[0].id@ != id {
        let rest = agents.drop_first();
        lemma_named_agent_is_among_them(rest, id);
        match agent_named(rest, id) {
            Some(agent) => {
                let i = choose|i: int| 0 <= i < rest.len() && rest[i] == agent;
                assert(agents[i + 1] == agent);
            },
            None => {
                assert forall|i: int| 0 <= i < agents.len() implies (#[trigger] agents[i]).id@
                    != id by {
                    if i > 0 {
                        assert(rest[i - 1] == agents[i]);
                    }
                }
            },
        }
    }
}

/// Every agent of a directory is found by its id. The ids differ, as no two
/// directories of one directory have one name.
pub proof fn law_every_agent_is_found(loaded: Seq<AgentDefinition>, at: int)
    requires
        0 <= at < loaded.len(),
        forall|i: int, j: int|
            0 <= i < j < loaded.len() ==> (#[trigger] loaded[i]).id@ != (#[trigger] loaded[j]).id@,
    ensures
        agent_named(ranked(loaded), loaded[at].id@) == Some(loaded[at]),
{
    broadcast use vstd::seq_lib::group_to_multiset_ensures;

    let agents = ranked(loaded);
    let agent = loaded[at];
    law_sorting(loaded);
    assert(loaded.to_multiset().count(agent) > 0);
    assert(agents.contains(agent));
    lemma_named_agent_is_among_them(agents, agent.id@);
    match agent_named(agents, agent.id@) {
        Some(found) => {
            assert(agents.to_multiset().count(found) > 0);
            assert(loaded.contains(found));
            let i = choose|i: int| 0 <= i < loaded.len() && loaded[i] == found;
            assert(loaded[i].id@ == loaded[at].id@);
        },
        None => {
            let i = choose|i: int| 0 <= i < agents.len() && agents[i] == agent;
            assert(agents[i].id@ == agent.id@);
        },
    }
}

/// An agent that is loaded is that of its directory: its id is the directory's name,
/// its files are in the directory, its card is the one that was read there, with the
/// name, the description and the version that the card's document has, and its
/// settings are those that were read.
pub proof fn law_loaded_agent_is_its_files(
    files: AgentFiles,
    agent: Result<AgentDefinition, String>,
)
    requires
        call_ensures(AgentDefinition::load, (files,), agent),
        agent is Ok,
    ensures
        ({
            let agent = agent->Ok_0;
            &&& file_name_of(files.dir@) == Some(agent.id@)
            &&& agent.dir@ == files.dir@
            &&& agent.card_path@ == joined(files.dir@, "agent-card.json"@)
            &&& agent.runtime_path@ == joined(files.dir@, "runtime.toml"@)
            &&& files.card is Text
            &&& decoded_card(files.card->Text_0@) == Some(json_of(agent.card.document))
            &&& agent.card@ == card_in(json_of(agent.card.document))
            &&& agent.card.name@ == text_member_or_empty(json_of(agent.card.document), "name"@)
            &&& agent.card.description@ == text_member_or_empty(
                json_of(agent.card.document),
                "description"@,
            )
            &&& agent.card.version@ == text_member_or_empty(
                json_of(agent.card.document),
                "version"@,
            )
            &&& files.runtime is Parsed
            &&& agent.runtime.enabled == files.runtime->Parsed_0.enabled
            &&& agent.runtime.runtime.kind == files.runtime->Parsed_0.runtime.kind
            &&& agent.runtime.runtime.command == files.runtime->Parsed_0.runtime.command
            &&& agent.runtime.runtime.args == files.runtime->Parsed_0.runtime.args
            &&& agent.runtime.runtime.env == files.runtime->Parsed_0.runtime.env
            &&& agent.runtime.policy == files.runtime->Parsed_0.policy
            &&& agent.runtime.tools == files.runtime->Parsed_0.tools
            &&& agent.runtime.auth == files.runtime->Parsed_0.auth
        }),
{
    reveal(describes);
    let agent = agent->Ok_0;
    let document = decoded_card(files.card->Text_0@)->0;
    assert(agent.card@.document == card_in(document).document);
    assert(agent.card@.name == agent.card.name@);
    assert(agent.card@.name == card_in(document).name);
}

/// Without a name that is an id, a card and a configuration there is no agent.
pub proof fn law_no_agent_without_its_files(
    files: AgentFiles,
    agent: Result<AgentDefinition, String>,
)
    requires
        call_ensures(AgentDefinition::load, (files,), agent),
        file_name_of(files.dir@) is None || !is_agent_id(file_name_of(files.dir@)->0)
            || files.card !is Text || decoded_card(files.card->Text_0@) is None
            || files.runtime !is Parsed,
    ensures
        agent is Err,
{
    reveal(load_complaint);
}

proof fn lemma_directories(entries: Seq<DirEntry>, i: int)
    requires
        0 <= i < entries.len(),
        entries[i] is Directory,
    ensures
        directories(entries).contains(entries[i]->Directory_0),
    decreases entries.len(),
{
    let head = entries.drop_last();
    if i < head.len() {
        assert(head[i] == entries[i]);
        lemma_directories(head, i);
        let before = directories(head);
        let k = choose|k: int| 0 <= k < before.len() && before[k] == entries[i]->Directory_0;
        assert(directories(entries)[k] == before[k]);
    } else {
        let all = directories(entries);
        assert(all[all.len() - 1] == entries[i]->Directory_0);
    }
}

/// A registry has an agent for each directory: one whose id is the directory's name and
/// whose files are there. The agents are in the order of their ids.
pub proof fn law_each_directory_has_its_agent(
    path: &str,
    entries: Vec<DirEntry>,
    registry: Result<AgentRegistry, String>,
    i: int,
)
    requires
        call_ensures(
            AgentRegistry::load_from_dir,
            (path, DirListing::Entries(entries)),
            registry,
        ),
        registry is Ok,
        0 <= i < entries@.len(),
        entries@[i] is Directory,
    ensures
        exists|at: int|
            0 <= at < registry->Ok_0@.len() && describes(
                entries@[i]->Directory_0,
                #[trigger] registry->Ok_0@[at],
            ),
        forall|a: int, b: int|
            0 <= a < b < registry->Ok_0@.len() ==> !precedes(
                (#[trigger] registry->Ok_0@[b]).id@,
                (#[trigger] registry->Ok_0@[a]).id@,
            ),
{
    broadcast use vstd::seq_lib::group_to_multiset_ensures;

    let listing = DirListing::Entries(entries);
    let files = entries@[i]->Directory_0;
    let found = registry->Ok_0@;
    let loaded = choose|loaded: Seq<AgentDefinition>|
        all_described(listed_directories(listing), loaded) && found == #[trigger] ranked(loaded);
    let dirs = directories(entries@);
    lemma_directories(entries@, i);
    let k = choose|k: int| 0 <= k < dirs.len() && dirs[k] == files;
    assert(describes(dirs[k], loaded[k]));
    law_sorting(loaded);
    assert(loaded.to_multiset().count(loaded[k]) > 0);
    assert(found.contains(loaded[k]));
    let at = choose|at: int| 0 <= at < found.len() && found[at] == loaded[k];
    assert(describes(files, found[at]));
    assert forall|a: int, b: int| 0 <= a < b < found.len() implies !precedes(
        (#[trigger] found[b]).id@,
        (#[trigger] found[a]).id@,
    ) by {
        assert(!ranks_before(found[b].rank(), found[a].rank()));
        reveal_with_fuel(ranks_before, 2);
        lemma_precedes_irreflexive(found[a].id@);
    }
}

/// The agent that is found is one of the registry's, by the id that was asked for, and
/// none is found only where there is none by it.
pub proof fn law_found_agent_is_the_one_asked_for(
    registry: &AgentRegistry,
    agent_id: &str,
    agent: Option<&AgentDefinition>,
)
    requires
        call_ensures(AgentRegistry::get, (registry, agent_id), agent),
    ensures
        match agent {
            Some(agent) => registry@.contains(*agent) && agent.id@ == agent_id@,
            None => forall|i: int|
                0 <= i < registry@.len() ==> (#[trigger] registry@[i]).id@ != agent_id@,
        },
{
    lemma_named_agent_is_among_them(registry@, agent_id@);
}

/// What is saved where an agent is switched on or off has the switch as asked for, and
/// every other setting as the agent has it.
pub proof fn law_saved_config(agent: AgentDefinition, enabled: bool, config: AgentRuntimeConfig)
    requires
        call_ensures(config_to_save, (agent, enabled), config),
    ensures
        config.enabled == enabled,
        config.visibility == agent.runtime.visibility,
        config.runtime == agent.runtime.runtime,
        config.instructions == agent.runtime.instructions,
        config.tools == agent.runtime.tools,
        config.policy == agent.runtime.policy,
        config.auth == agent.runtime.auth,
{
}

/// Where the agents directory is not there, there are no agents. Where it is no
/// directory or cannot be read, and where a card lies loose in it, loading is refused,
/// and the refusal names the path.
pub proof fn law_agents_directory(
    path: &str,
    missing: Result<AgentRegistry, String>,
    file: Result<AgentRegistry, String>,
    unreadable: Result<AgentRegistry, String>,
)
    requires
        call_ensures(AgentRegistry::load_from_dir, (path, DirListing::Missing), missing),
        call_ensures(AgentRegistry::load_from_dir, (path, DirListing::NotADirectory), file),
        call_ensures(AgentRegistry::load_from_dir, (path, DirListing::Unreadable), unreadable),
    ensures
        missing is Ok,
        missing->Ok_0@.len() == 0,
        file is Err,
        file->Err_0@ == "agents path "@ + path@ + " is not a directory"@,
        unreadable is Err,
        unreadable->Err_0@ == "failed to read agents directory "@ + path@,
{
    broadcast use vstd::seq_lib::group_to_multiset_ensures;

    let loaded = choose|loaded: Seq<AgentDefinition>|
        all_described(listed_directories(DirListing::Missing), loaded) && missing->Ok_0@
            == #[trigger] ranked(loaded);
    law_sorting(loaded);
    assert(loaded.len() == 0);
    ranked(loaded).to_multiset_ensures();
    loaded.to_multiset_ensures();
}

proof fn lemma_entry_stops(path: Seq<char>, entries: Seq<DirEntry>, from: int, at: int)
    requires
        0 <= from <= at < entries.len(),
        entry_complaint(path, entries[at]) is Some,
    ensures
        entries_complaint(path, entries, from) is Some,
        (forall|i: int|
            from <= i < at ==> entry_complaint(path, #[trigger] entries[i]) is None)
            ==> entries_complaint(path, entries, from) == entry_complaint(path, entries[at]),
    decreases at - from,
{
    if from < at {
        lemma_entry_stops(path, entries, from + 1, at);
    }
}

/// An entry that could not be read, a loose card and a directory that makes no agent
/// each stop the loading.
pub proof fn law_one_bad_entry_stops_the_loading(
    path: &str,
    entries: Vec<DirEntry>,
    registry: Result<AgentRegistry, String>,
    at: int,
    files: AgentFiles,
    agent: Result<AgentDefinition, String>,
)
    requires
        call_ensures(
            AgentRegistry::load_from_dir,
            (path, DirListing::Entries(entries)),
            registry,
        ),
        0 <= at < entries@.len(),
        call_ensures(AgentDefinition::load, (files,), agent),
        entries@[at] is Failed || (entries@[at] is Other && has_json_extension(
            entries@[at]->Other_0@,
        )) || (entries@[at] == DirEntry::Directory(files) && agent is Err),
    ensures
        registry is Err,
{
    lemma_entry_stops(path@, entries@, 0, at);
}

/// What is missing of an agent, or cannot be read or parsed, is what the refusal says.
pub proof fn law_refused_agent_says_why(
    files: AgentFiles,
    agent: Result<AgentDefinition, String>,
    id: Seq<char>,
)
    requires
        call_ensures(AgentDefinition::load, (files,), agent),
        file_name_of(files.dir@) == Some(id),
        is_agent_id(id),
    ensures
        files.card is Missing ==> agent is Err && agent->Err_0@ == of_agent(
            id,
            "is missing agent-card.json"@,
        ),
        files.card !is Missing && files.runtime is Missing ==> agent is Err && agent->Err_0@
            == of_agent(id, "is missing runtime.toml"@),
        files.card is Unreadable && files.runtime !is Missing ==> agent is Err && agent->Err_0@
            == "failed to read JSON file "@ + joined(files.dir@, "agent-card.json"@),
        files.card is Text && files.runtime !is Missing && decoded_card(
            files.card->Text_0@,
        ) is None ==> agent is Err && agent->Err_0@ == "failed to parse "@ + joined(
            files.dir@,
            "agent-card.json"@,
        ),
        files.card is Text && decoded_card(files.card->Text_0@) is Some && files.runtime is Malformed
            ==> agent is Err && agent->Err_0@ == "failed to parse "@ + joined(
            files.dir@,
            "runtime.toml"@,
        ),
        files.card is Text && decoded_card(files.card->Text_0@) is Some
            && files.runtime is Unreadable ==> agent is Err && agent->Err_0@
            == "failed to read TOML file "@ + joined(files.dir@, "runtime.toml"@),
{
    reveal(load_complaint);
}

} // verus!
