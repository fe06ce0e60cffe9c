//! Where the local A2A service of an agent keeps its tasks.

use vstd::prelude::*;

use crate::paths::join;
#[allow(unused_imports)]
use crate::paths::{is_absolute, joined};
#[allow(unused_imports)]
use crate::text::{has_prefix, has_suffix, is_id_char};
#[allow(unused_imports)]
use crate::validation::is_agent_id;

verus! {

/// The file of an agent's tasks below the data directory.
pub open spec fn task_store_path(data_dir: Seq<char>, agent_id: Seq<char>) -> Seq<char> {
    joined(joined(joined(joined(data_dir, "a2a"@), "agents"@), agent_id), "tasks.sqlite"@)
}

pub fn agent_task_store_path(data_dir: &str, agent_id: &str) -> (path: String)
    ensures
        path@ == task_store_path(data_dir@, agent_id@),
{
    let agents = join(join(data_dir, "a2a").as_str(), "agents");
    let agent = join(agents.as_str(), agent_id);
    join(agent.as_str(), "tasks.sqlite")
}

proof fn lemma_no_slash(id: Seq<char>)
    requires
        is_agent_id(id),
    ensures
        !is_absolute(id),
        id.last() != '/',
{
    assert(is_id_char(id[0]));
    assert(is_id_char(id[id.len() - 1]));
}

/// Each agent has a task file of its own: two ids share one only if they are the
/// same id.
pub proof fn law_task_stores_are_apart(data_dir: Seq<char>, one: Seq<char>, other: Seq<char>)
    requires
        is_agent_id(one),
        is_agent_id(other),
        task_store_path(data_dir, one) == task_store_path(data_dir, other),
    ensures
        one == other,
{
    reveal_strlit("a2a");
    reveal_strlit("agents");
    reveal_strlit("tasks.sqlite");
    reveal_strlit("/");
    lemma_no_slash(one);
    lemma_no_slash(other);
    let agents = joined(joined(data_dir, "a2a"@), "agents"@);
    assert(agents.last() == 's');
    let base = agents + "/"@;
    let tail = "/"@ + "tasks.sqlite"@;
    let first = task_store_path(data_dir, one);
    let second = task_store_path(data_dir, other);
    assert(first =~= base + one + tail);
    assert(second =~= base + other + tail);
    assert(one.len() == other.len());
    assert(one =~= first.subrange(base.len() as int, (base.len() + one.len()) as int));
    assert(other =~= second.subrange(base.len() as int, (base.len() + other.len()) as int));
}

/// The task file of an agent stands in a directory named by the agent, below the data
/// directory.
pub proof fn law_task_store_is_the_agents(data_dir: &str, agent_id: &str, path: String)
    requires
        call_ensures(agent_task_store_path, (data_dir, agent_id), path),
        is_agent_id(agent_id@),
    ensures
        has_prefix(path@, data_dir@),
        has_suffix(path@, "a2a/agents/"@ + agent_id@ + "/tasks.sqlite"@),
{
    reveal_strlit("a2a");
    reveal_strlit("agents");
    reveal_strlit("tasks.sqlite");
    reveal_strlit("/");
    reveal_strlit("a2a/agents/");
    reveal_strlit("/tasks.sqlite");
    lemma_no_slash(agent_id@);
    let tail = "a2a/agents/"@ + agent_id@ + "/tasks.sqlite"@;
    let top = joined(data_dir@, "a2a"@);
    let base = top.take(top.len() - 3);
    assert(path@ =~= base + tail);
    assert(path@.skip(path@.len() - tail.len()) =~= tail);
    assert(path@.take(data_dir@.len() as int) =~= data_dir@);
}

} // verus!
