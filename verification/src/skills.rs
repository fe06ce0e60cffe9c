//! Skills that agents bring, and where they are installed.

use vstd::prelude::*;

use crate::paths::join;
#[allow(unused_imports)]
use crate::paths::joined;
use crate::text::plus;

verus! {

/// The directory of an agent's skill, in the agent's directory.
pub const SKILL_DIR_NAME: &'static str = "skill";

/// The file that makes a directory a skill.
pub const SKILL_FILE_NAME: &'static str = "SKILL.md";

/// What a skill is installed for.
#[derive(Clone, Copy, Debug, PartialEq, Eq, Structural)]
pub enum SkillTarget {
    Codex,
}

/// How a skill is installed.
#[derive(Clone, Copy, Debug, PartialEq, Eq, Structural)]
pub enum InstallMode {
    Copy,
    Link,
}

/// The skill of an agent.
#[derive(Clone, Debug, PartialEq, Eq)]
pub struct SkillDescriptor {
    pub agent_id: String,
    pub source_dir: String,
    pub skill_file: String,
}

pub open spec fn skill_source(agent_dir: Seq<char>) -> Seq<char> {
    joined(agent_dir, "skill"@)
}

/// The file that a skill of an agent must have.
pub open spec fn skill_file_in(agent_dir: Seq<char>) -> Seq<char> {
    joined(skill_source(agent_dir), "SKILL.md"@)
}

/// The file that a skill of an agent must have.
pub fn skill_file_path(agent_dir: &str) -> (path: String)
    ensures
        path@ == skill_file_in(agent_dir@),
{
    join(join(agent_dir, "skill").as_str(), "SKILL.md")
}

impl SkillDescriptor {
    /// The skill in an agent's directory. `skill_found` says whether its file is
    /// there; an agent without that file has no skill.
    pub fn from_agent_dir(agent_id: &str, agent_dir: &str, skill_found: bool) -> (descriptor: Result<
        Self,
        String,
    >)
        ensures
            match descriptor {
                Ok(descriptor) => {
                    &&& skill_found
                    &&& descriptor.agent_id@ == agent_id@
                    &&& descriptor.source_dir@ == skill_source(agent_dir@)
                    &&& descriptor.skill_file@ == skill_file_in(agent_dir@)
                },
                Err(error) => !skill_found && error@ == "agent "@ + agent_id@
                    + " does not provide skill/SKILL.md"@,
            },
    {
        if !skill_found {
            return Err(
                plus(
                    plus("agent ".to_string(), agent_id),
                    " does not provide skill/SKILL.md",
                ),
            );
        }
        Ok(
            SkillDescriptor {
                agent_id: agent_id.to_string(),
                source_dir: join(agent_dir, "skill"),
                skill_file: skill_file_path(agent_dir),
            },
        )
    }

    /// The name under which Codex knows the skill.
    #[must_use]
    pub fn default_codex_install_name(&self) -> (name: String)
        ensures
            name@ == "mesh-llm-"@ + self.agent_id@,
    {
        plus("mesh-llm-".to_string(), self.agent_id.as_str())
    }
}

/// What is to be installed, how, and where.
#[derive(Clone, Debug, PartialEq, Eq)]
pub struct SkillInstallPlan {
    pub descriptor: SkillDescriptor,
    pub target: SkillTarget,
    pub mode: InstallMode,
    pub destination_dir: String,
}

impl SkillInstallPlan {
    /// The plan to install a skill for Codex.
    pub fn codex(
        descriptor: SkillDescriptor,
        codex_skills_dir: &str,
        mode: InstallMode,
    ) -> (plan: Self)
        ensures
            plan.descriptor == descriptor,
            plan.target == SkillTarget::Codex,
            plan.mode == mode,
            plan.destination_dir@ == joined(codex_skills_dir@, "mesh-llm-"@ + descriptor.agent_id@),
    {
        let name = descriptor.default_codex_install_name();
        SkillInstallPlan {
            descriptor: descriptor,
            target: SkillTarget::Codex,
            mode: mode,
            destination_dir: join(codex_skills_dir, name.as_str()),
        }
    }
}

/// What was installed.
#[derive(Clone, Debug, PartialEq, Eq)]
pub struct SkillInstallResult {
    pub destination_dir: String,
    pub replaced_existing: bool,
}

/// Whether something may be installed at a destination: what is there already is
/// replaced only where that is asked for. Gives what is to be reported, with
/// whether something has to go first.
pub fn install_decision(destination_dir: &str, occupied: bool, force: bool) -> (result: Result<
    SkillInstallResult,
    String,
>)
    ensures
        match result {
            Ok(result) => {
                &&& !occupied || force
                &&& result.destination_dir@ == destination_dir@
                &&& result.replaced_existing == occupied
            },
            Err(error) => {
                &&& occupied && !force
                &&& error@ == "skill destination "@ + destination_dir@
                    + " already exists; pass --force to replace it"@
            },
        },
{
    if occupied && !force {
        return Err(
            plus(
                plus("skill destination ".to_string(), destination_dir),
                " already exists; pass --force to replace it",
            ),
        );
    }
    Ok(
        SkillInstallResult {
            destination_dir: destination_dir.to_string(),
            replaced_existing: occupied,
        },
    )
}

/// What copying does with one entry of a directory.
#[derive(Clone, Copy, Debug, PartialEq, Eq, Structural)]
pub enum CopyStep {
    Descend,
    CopyFile,
    Skip,
}

/// Directories are copied with what they hold, files as they are, and anything
/// else is left out.
pub fn copy_step(is_dir: bool, is_file: bool) -> (step: CopyStep)
    ensures
        step == if is_dir {
            CopyStep::Descend
        } else if is_file {
            CopyStep::CopyFile
        } else {
            CopyStep::Skip
        },
{
    if is_dir {
        CopyStep::Descend
    } else if is_file {
        CopyStep::CopyFile
    } else {
        CopyStep::Skip
    }
}

/// The skill of an agent is the one in the agent's directory, and an agent without the
/// file has none. It is installed under the agent's name, in the directory of skills.
pub proof fn law_skill_is_the_agents(
    agent_id: &str,
    agent_dir: &str,
    skill_found: bool,
    descriptor: Result<SkillDescriptor, String>,
    skills_dir: &str,
    mode: InstallMode,
    plan: SkillInstallPlan,
)
    requires
        call_ensures(
            SkillDescriptor::from_agent_dir,
            (agent_id, agent_dir, skill_found),
            descriptor,
        ),
        descriptor is Ok ==> call_ensures(
            SkillInstallPlan::codex,
            (descriptor->Ok_0, skills_dir, mode),
            plan,
        ),
    ensures
        descriptor is Ok <==> skill_found,
        descriptor is Ok ==> {
            let skill = descriptor->Ok_0;
            &&& skill.agent_id@ == agent_id@
            &&& skill.source_dir@ == joined(agent_dir@, "skill"@)
            &&& skill.skill_file@ == joined(agent_dir@, "skill/SKILL.md"@)
            &&& plan.descriptor.agent_id@ == agent_id@
            &&& plan.descriptor.source_dir@ == skill.source_dir@
            &&& plan.mode == mode
            &&& plan.target == SkillTarget::Codex
            &&& plan.destination_dir@ == joined(skills_dir@, "mesh-llm-"@ + agent_id@)
        },
{
    reveal_strlit("/");
    reveal_strlit("skill");
    reveal_strlit("SKILL.md");
    reveal_strlit("skill/SKILL.md");
    if let Ok(skill) = descriptor {
        assert(skill.skill_file@ =~= joined(agent_dir@, "skill/SKILL.md"@));
    }
}

/// What is there already is replaced only where that is asked for, and it is said
/// whether something was.
pub proof fn law_nothing_is_replaced_unasked(
    destination_dir: &str,
    occupied: bool,
    force: bool,
    result: Result<SkillInstallResult, String>,
)
    requires
        call_ensures(install_decision, (destination_dir, occupied, force), result),
    ensures
        result is Err <==> occupied && !force,
        result is Ok ==> result->Ok_0.destination_dir@ == destination_dir@
            && result->Ok_0.replaced_existing == occupied,
{
}

/// A file is copied, a directory is gone into, and what is neither is left out.
pub proof fn law_what_is_copied(is_dir: bool, is_file: bool, step: CopyStep)
    requires
        call_ensures(copy_step, (is_dir, is_file), step),
    ensures
        step == CopyStep::Descend <==> is_dir,
        step == CopyStep::CopyFile <==> is_file && !is_dir,
        step == CopyStep::Skip <==> !is_file && !is_dir,
{
}

} // verus!
