//! Where agents, their data, and Codex's files are.

use vstd::prelude::*;

#[allow(unused_imports)]
use crate::json::optional_chars;
use crate::paths::join;
#[allow(unused_imports)]
use crate::paths::joined;
#[allow(unused_imports)]
use crate::templates::{expansion, Expansion};

verus! {

/// A path that is given, or else one below the home directory.
pub open spec fn given_or_home(
    given: Option<Seq<char>>,
    home: Option<Seq<char>>,
    first: Seq<char>,
    second: Option<Seq<char>>,
) -> Expansion {
    match given {
        Some(path) => Ok(path),
        None => match home {
            None => Err("could not determine home directory"@),
            Some(home) => match second {
                Some(second) => Ok(joined(joined(home, first), second)),
                None => Ok(joined(home, first)),
            },
        },
    }
}

fn path_or_home(
    given: &Option<String>,
    home: &Option<String>,
    first: &str,
    second: Option<&str>,
) -> (path: Result<String, String>)
    ensures
        expansion(path) == given_or_home(
            optional_chars(*given),
            optional_chars(*home),
            first@,
            match second {
                Some(second) => Some(second@),
                None => None,
            },
        ),
{
    match given {
        Some(path) => Ok(path.clone()),
        None => match home {
            None => Err("could not determine home directory".to_string()),
            Some(home) => {
                let below = join(home.as_str(), first);
                match second {
                    Some(second) => Ok(join(below.as_str(), second)),
                    None => Ok(below),
                }
            },
        },
    }
}

/// Where agents are kept.
pub fn resolve_agents_dir(dir: &Option<String>, home: &Option<String>) -> (path: Result<
    String,
    String,
>)
    ensures
        expansion(path) == given_or_home(
            optional_chars(*dir),
            optional_chars(*home),
            ".mesh-llm"@,
            Some("agents"@),
        ),
{
    path_or_home(dir, home, ".mesh-llm", Some("agents"))
}

/// Where the data of agents is kept.
pub fn resolve_data_dir(dir: &Option<String>, home: &Option<String>) -> (path: Result<
    String,
    String,
>)
    ensures
        expansion(path) == given_or_home(
            optional_chars(*dir),
            optional_chars(*home),
            ".mesh-llm"@,
            None,
        ),
{
    path_or_home(dir, home, ".mesh-llm", None)
}

/// Where Codex keeps its configuration.
pub fn codex_config_path(path: &Option<String>, home: &Option<String>) -> (config: Result<
    String,
    String,
>)
    ensures
        expansion(config) == given_or_home(
            optional_chars(*path),
            optional_chars(*home),
            ".codex"@,
            Some("config.toml"@),
        ),
{
    path_or_home(path, home, ".codex", Some("config.toml"))
}

/// Where Codex keeps its skills.
pub fn codex_skills_dir(path: &Option<String>, home: &Option<String>) -> (skills: Result<
    String,
    String,
>)
    ensures
        expansion(skills) == given_or_home(
            optional_chars(*path),
            optional_chars(*home),
            ".codex"@,
            Some("skills"@),
        ),
{
    path_or_home(path, home, ".codex", Some("skills"))
}

/// A path that is given is taken as it is. Otherwise each has its own place below the
/// home directory, and where no home directory is known it is refused.
pub proof fn law_places_below_home(
    given: &Option<String>,
    home: &Option<String>,
    agents: Result<String, String>,
    data: Result<String, String>,
    config: Result<String, String>,
    skills: Result<String, String>,
)
    requires
        call_ensures(resolve_agents_dir, (given, home), agents),
        call_ensures(resolve_data_dir, (given, home), data),
        call_ensures(codex_config_path, (given, home), config),
        call_ensures(codex_skills_dir, (given, home), skills),
    ensures
        *given is Some ==> {
            &&& agents is Ok && agents->Ok_0@ == (*given)->0@
            &&& data is Ok && data->Ok_0@ == (*given)->0@
            &&& config is Ok && config->Ok_0@ == (*given)->0@
            &&& skills is Ok && skills->Ok_0@ == (*given)->0@
        },
        *given is None && *home is Some ==> {
            let at_home = (*home)->0@;
            &&& agents is Ok && agents->Ok_0@ == joined(at_home, ".mesh-llm/agents"@)
            &&& data is Ok && data->Ok_0@ == joined(at_home, ".mesh-llm"@)
            &&& config is Ok && config->Ok_0@ == joined(at_home, ".codex/config.toml"@)
            &&& skills is Ok && skills->Ok_0@ == joined(at_home, ".codex/skills"@)
        },
        *given is None && *home is None ==> agents is Err && data is Err && config is Err
            && skills is Err,
{
    reveal_strlit("/");
    reveal_strlit(".mesh-llm");
    reveal_strlit("agents");
    reveal_strlit(".mesh-llm/agents");
    reveal_strlit(".codex");
    reveal_strlit("config.toml");
    reveal_strlit("skills");
    reveal_strlit(".codex/config.toml");
    reveal_strlit(".codex/skills");
    if let (None, Some(home)) = (*given, *home) {
        assert(agents->Ok_0@ =~= joined(home@, ".mesh-llm/agents"@));
        assert(config->Ok_0@ =~= joined(home@, ".codex/config.toml"@));
        assert(skills->Ok_0@ =~= joined(home@, ".codex/skills"@));
    }
}

} // verus!
