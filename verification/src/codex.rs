//! Setting up Codex: the configuration block that this program manages in
//! Codex's configuration, and the skill that it installs.

use vstd::prelude::*;

use crate::text::{blank, chars_of, ends_with, find, plus, same_text, string_of, trim_end};
#[allow(unused_imports)]
use crate::text::{
    first_at, first_occurrence, has_prefix, has_suffix, is_blank, lemma_first_occurrence, occurs_at,
    occurs_from, texts, trimmed_end,
};
use crate::tools::a2a_tools;
#[allow(unused_imports)]
use crate::tools::{offered_tools, tool_names, ToolSpec, ToolSpecView};

verus! {

/// The name of the skill that is installed.
pub const SKILL_NAME: &'static str = "mesh-agents";

/// The block that is managed, between its two marker lines.
pub open spec fn managed_block(block: Seq<char>) -> Seq<char> {
    "# BEGIN mesh-agents"@ + "\n"@ + block + "\n"@ + "# END mesh-agents"@ + "\n"@
}

/// A text without the line feeds at its start.
pub open spec fn without_leading_newlines(text: Seq<char>) -> Seq<char>
    decreases text.len(),
{
    if text.len() > 0 && text[0] == '\n' {
        without_leading_newlines(text.drop_first())
    } else {
        text
    }
}

/// A configuration with the managed block set to `block`. A block that is there
/// already is replaced, with its markers and the line feeds behind it. Otherwise
/// the block is added at the end, on a line of its own; so it is where the first
/// marker stands without the second.
pub open spec fn with_block(existing: Seq<char>, block: Seq<char>) -> Seq<char> {
    let managed = managed_block(block);
    match first_occurrence(existing, "# BEGIN mesh-agents"@, 0) {
        None => if is_blank(existing) || has_suffix(existing, "\n"@) {
            existing + managed
        } else {
            existing + "\n"@ + managed
        },
        Some(begin) => match first_occurrence(existing, "# END mesh-agents"@, begin) {
            None => trimmed_end(existing) + "\n"@ + managed,
            Some(end) => existing.take(begin) + managed + without_leading_newlines(
                existing.skip(end + "# END mesh-agents"@.len()),
            ),
        },
    }
}

fn managed_text(block: &str) -> (text: String)
    ensures
        text@ == managed_block(block@),
{
    let opened = plus("# BEGIN mesh-agents".to_string(), "\n");
    let filled = plus(plus(opened, block), "\n");
    plus(plus(filled, "# END mesh-agents"), "\n")
}

/// Sets the managed block of a configuration.
pub fn replace_managed_block(existing: &str, block: &str) -> (next: String)
    ensures
        next@ == with_block(existing@, block@),
{
    let managed = managed_text(block);
    let chars = chars_of(existing);
    let size: usize = chars.len();
    let begin_marker = chars_of("# BEGIN mesh-agents");
    let end_marker = chars_of("# END mesh-agents");
    let begin: usize = match find(&chars, &begin_marker, 0) {
        Some(begin) => begin,
        None => {
            if blank(existing) || ends_with(existing, "\n") {
                return plus(existing.to_string(), managed.as_str());
            }
            return plus(plus(existing.to_string(), "\n"), managed.as_str());
        },
    };
    let end: usize = match find(&chars, &end_marker, begin) {
        Some(end) => end,
        None => {
            return plus(plus(trim_end(existing), "\n"), managed.as_str());
        },
    };
    let mut rest: usize = end + end_marker.len();
    let ghost tail = existing@.skip(rest as int);
    while rest < size && chars[rest] == '\n'
        invariant
            rest <= size,
            size == chars@.len(),
            chars@ == existing@,
            without_leading_newlines(existing@.skip(rest as int)) == without_leading_newlines(tail),
        decreases size - rest,
    {
        assert(existing@.skip(rest as int).drop_first() =~= existing@.skip(rest as int + 1));
        rest += 1;
    }
    assert(existing@.take(begin as int) =~= chars@.subrange(0, begin as int));
    assert(existing@.skip(rest as int) =~= chars@.subrange(rest as int, size as int));
    let head = string_of(chars.as_slice(), 0, begin);
    let kept = string_of(chars.as_slice(), rest, size);
    plus(plus(head, managed.as_str()), kept.as_str())
}

/// The markers spelled out.
proof fn lemma_markers()
    ensures
        "# BEGIN mesh-agents"@.len() == 19,
        "# END mesh-agents"@.len() == 17,
        "# BEGIN mesh-agents"@[0] == '#',
        "# BEGIN mesh-agents"@[2] == 'B',
        "# END mesh-agents"@[0] == '#',
        "# END mesh-agents"@[2] == 'E',
        "\n"@ == seq!['\n'],
        forall|i: int| 0 < i < 19 ==> #[trigger] "# BEGIN mesh-agents"@[i] != '#',
        forall|i: int| 0 < i < 17 ==> #[trigger] "# END mesh-agents"@[i] != '#',
        forall|i: int| 0 <= i < 19 ==> #[trigger] "# BEGIN mesh-agents"@[i] != '\n',
        forall|i: int| 0 <= i < 17 ==> #[trigger] "# END mesh-agents"@[i] != '\n',
{
    reveal_strlit("# BEGIN mesh-agents");
    reveal_strlit("# END mesh-agents");
    reveal_strlit("\n");
    assert("\n"@ =~= seq!['\n']);
}

/// Where the managed block's end marker stands behind a head.
spec fn end_of_block(head: Seq<char>, block: Seq<char>) -> int {
    (head.len() + 21 + block.len()) as int
}

/// What stands where in a text that holds the managed block.
proof fn lemma_layout(head: Seq<char>, block: Seq<char>, tail: Seq<char>)
    ensures
        ({
            let text = head + managed_block(block) + tail;
            let start = head.len() as int;
            let end = end_of_block(head, block);
            &&& text.len() == end + 18 + tail.len()
            &&& text.take(start) == head
            &&& text.skip(end + 17) == "\n"@ + tail
            &&& text.subrange(start, start + 19) == "# BEGIN mesh-agents"@
            &&& text[start + 19] == '\n'
            &&& text.subrange(start + 20, end - 1) == block
            &&& text[end - 1] == '\n'
            &&& text.subrange(end, end + 17) == "# END mesh-agents"@
        }),
{
    lemma_markers();
    let text = head + managed_block(block) + tail;
    let start = head.len() as int;
    let end = end_of_block(head, block);
    assert(text.take(start) =~= head);
    assert(text.skip(end + 17) =~= "\n"@ + tail);
    assert(text.subrange(start, start + 19) =~= "# BEGIN mesh-agents"@);
    assert(text.subrange(start + 20, end - 1) =~= block);
    assert(text.subrange(end, end + 17) =~= "# END mesh-agents"@);
}

/// The first marker is that of the block, where the head has none.
proof fn lemma_begin_is_found(head: Seq<char>, block: Seq<char>, tail: Seq<char>)
    requires
        !occurs_from(head, "# BEGIN mesh-agents"@, 0),
    ensures
        first_occurrence(head + managed_block(block) + tail, "# BEGIN mesh-agents"@, 0) == Some(
            head.len() as int,
        ),
{
    lemma_markers();
    lemma_layout(head, block, tail);
    let marker = "# BEGIN mesh-agents"@;
    let text = head + managed_block(block) + tail;
    let start = head.len() as int;
    assert forall|i: int| 0 <= i < start implies !#[trigger] occurs_at(text, marker, i) by {
        if occurs_at(text, marker, i) {
            let found = text.subrange(i, i + 19);
            if i + 19 <= start {
                assert(head.subrange(i, i + 19) =~= text.take(start).subrange(i, i + 19));
                assert(text.take(start).subrange(i, i + 19) =~= found);
                assert(occurs_at(head, marker, i));
            } else {
                assert(found[start - i] == text[start]);
                assert(text.subrange(start, start + 19)[0] == text[start]);
                assert(marker[start - i] == '#');
            }
        }
    }
    lemma_first_occurrence(text, marker, 0, start);
}

/// The second marker is that of the block, where the block has none.
proof fn lemma_end_is_found(head: Seq<char>, block: Seq<char>, tail: Seq<char>)
    requires
        !occurs_from(block, "# END mesh-agents"@, 0),
    ensures
        first_occurrence(
            head + managed_block(block) + tail,
            "# END mesh-agents"@,
            head.len() as int,
        ) == Some(end_of_block(head, block)),
{
    lemma_markers();
    lemma_layout(head, block, tail);
    let begin_marker = "# BEGIN mesh-agents"@;
    let marker = "# END mesh-agents"@;
    let text = head + managed_block(block) + tail;
    let start = head.len() as int;
    let end = end_of_block(head, block);
    let first = text.subrange(start, start + 19);
    let inner = text.subrange(start + 20, end - 1);
    assert forall|i: int| start <= i < end implies !#[trigger] occurs_at(text, marker, i) by {
        if occurs_at(text, marker, i) {
            let found = text.subrange(i, i + 17);
            assert(found[0] == text[i]);
            if i < start + 19 {
                assert(first[i - start] == text[i]);
                assert(begin_marker[i - start] == '#');
                assert(i == start);
                assert(found[2] == text[i + 2]);
                assert(first[2] == text[start + 2]);
            } else if i != start + 19 && i != end - 1 {
                let at = i - start - 20;
                if at + 17 <= block.len() {
                    assert(inner.subrange(at, at + 17) =~= found);
                    assert(occurs_at(block, marker, at));
                } else {
                    let k = block.len() - at;
                    assert(found[k] == text[end - 1]);
                    assert(marker[k] == '\n');
                }
            }
        }
    }
    lemma_first_occurrence(text, marker, start, end);
}

/// Setting the managed block again takes the place of the block that was set before:
/// what comes out is what setting the later block alone gives. So setting the same
/// block twice changes nothing. This leaves out a configuration that has the first
/// marker without the second behind it, and an earlier block that holds the second
/// marker itself.
pub proof fn law_block_is_set_once(existing: Seq<char>, block: Seq<char>, later: Seq<char>)
    requires
        first_occurrence(existing, "# BEGIN mesh-agents"@, 0) is None || first_occurrence(
            existing,
            "# END mesh-agents"@,
            first_occurrence(existing, "# BEGIN mesh-agents"@, 0)->0,
        ) is Some,
        !occurs_from(block, "# END mesh-agents"@, 0),
    ensures
        with_block(with_block(existing, block), later) == with_block(existing, later),
{
    lemma_markers();
    let begin_marker = "# BEGIN mesh-agents"@;
    match first_occurrence(existing, begin_marker, 0) {
        None => {
            let head = if is_blank(existing) || has_suffix(existing, "\n"@) {
                existing
            } else {
                existing + "\n"@
            };
            assert(!occurs_from(head, begin_marker, 0)) by {
                lemma_none_means_nowhere(existing, begin_marker);
                if occurs_from(head, begin_marker, 0) {
                    let i = choose|i: int| 0 <= i && #[trigger] occurs_at(head, begin_marker, i);
                    let found = head.subrange(i, i + 19);
                    if i + 19 <= existing.len() {
                        assert(existing.subrange(i, i + 19) =~= found);
                        assert(occurs_at(existing, begin_marker, i));
                    } else {
                        assert(found[18] == '\n');
                    }
                }
            }
            let tail = Seq::<char>::empty();
            lemma_block_gives_way(head, block, tail, later);
            assert(head + managed_block(block) + tail =~= head + managed_block(block));
            assert(head + managed_block(later) + tail =~= head + managed_block(later));
        },
        Some(begin) => {
            let end = first_occurrence(existing, "# END mesh-agents"@, begin)->0;
            let head = existing.take(begin);
            let tail = without_leading_newlines(existing.skip(end + 17));
            assert(!occurs_from(head, begin_marker, 0)) by {
                if occurs_from(head, begin_marker, 0) {
                    let i = choose|i: int| 0 <= i && #[trigger] occurs_at(head, begin_marker, i);
                    assert(existing.subrange(i, i + 19) =~= head.subrange(i, i + 19));
                    assert(occurs_at(existing, begin_marker, i));
                }
            }
            lemma_newlines_gone(existing.skip(end + 17));
            lemma_block_gives_way(head, block, tail, later);
        },
    }
}

/// A block between a head and a tail gives way to the one that is set later.
proof fn lemma_block_gives_way(
    head: Seq<char>,
    block: Seq<char>,
    tail: Seq<char>,
    later: Seq<char>,
)
    requires
        !occurs_from(head, "# BEGIN mesh-agents"@, 0),
        !occurs_from(block, "# END mesh-agents"@, 0),
        without_leading_newlines(tail) == tail,
    ensures
        with_block(head + managed_block(block) + tail, later) == head + managed_block(later) + tail,
{
    lemma_markers();
    lemma_layout(head, block, tail);
    lemma_begin_is_found(head, block, tail);
    lemma_end_is_found(head, block, tail);
    let behind = "\n"@ + tail;
    assert(behind.drop_first() =~= tail);
    assert(without_leading_newlines(behind) == without_leading_newlines(tail));
}

proof fn lemma_none_means_nowhere(text: Seq<char>, needle: Seq<char>)
    requires
        first_occurrence(text, needle, 0) is None,
    ensures
        !occurs_from(text, needle, 0),
{
    if occurs_from(text, needle, 0) {
        let i = choose|i: int| 0 <= i && #[trigger] occurs_at(text, needle, i);
        lemma_some_first(text, needle, i);
    }
}

proof fn lemma_some_first(text: Seq<char>, needle: Seq<char>, at: int)
    requires
        0 <= at,
        occurs_at(text, needle, at),
    ensures
        exists|first: int| first_at(text, needle, 0, first),
    decreases at,
{
    if forall|i: int| 0 <= i < at ==> !#[trigger] occurs_at(text, needle, i) {
        assert(first_at(text, needle, 0, at));
    } else {
        let i = choose|i: int| 0 <= i < at && #[trigger] occurs_at(text, needle, i);
        lemma_some_first(text, needle, i);
    }
}

proof fn lemma_newlines_gone(text: Seq<char>)
    ensures
        without_leading_newlines(without_leading_newlines(text)) == without_leading_newlines(text),
    decreases text.len(),
{
    if text.len() > 0 && text[0] == '\n' {
        lemma_newlines_gone(text.drop_first());
    }
}

/// Some names, each in quotes on a line of its own.
pub open spec fn listed(names: Seq<Seq<char>>) -> Seq<char>
    decreases names.len(),
{
    if names.len() == 0 {
        seq![]
    } else {
        listed(names.drop_last()) + "  \""@ + names.last() + "\",\n"@
    }
}

/// The configuration that tells Codex of the tools. It enables those that are
/// offered, all of them and no other.
pub open spec fn mcp_config(command: Seq<char>) -> Seq<char> {
    "[mcp_servers.mesh_a2a]\ncommand = \""@ + command
        + "\"\nargs = [\"a2a\", \"mcp\"]\nenabled_tools = [\n"@ + listed(
        offered_tools().map_values(|tool: ToolSpecView| tool.name),
    ) + "]\ndefault_tools_approval_mode = \"prompt\""@
}

pub fn managed_mcp_config(mcp_command: &str) -> (config: String)
    ensures
        config@ == mcp_config(mcp_command@),
{
    let opened = plus("[mcp_servers.mesh_a2a]\ncommand = \"".to_string(), mcp_command);
    let mut config = plus(opened, "\"\nargs = [\"a2a\", \"mcp\"]\nenabled_tools = [\n");
    let ghost head = config@;
    let tools = a2a_tools();
    let ghost names = offered_tools().map_values(|tool: ToolSpecView| tool.name);
    let mut i: usize = 0;
    proof {
        assert(names.take(0) =~= Seq::<Seq<char>>::empty());
        assert(head + listed(names.take(0)) =~= head);
    }
    while i < tools.len()
        invariant
            i <= tools@.len(),
            tools@.map_values(|tool: ToolSpec| tool@) == offered_tools(),
            names == offered_tools().map_values(|tool: ToolSpecView| tool.name),
            config@ == head + listed(names.take(i as int)),
        decreases tools@.len() - i,
    {
        proof {
            assert(offered_tools()[i as int] == tools@[i as int]@);
            assert(names.take(i as int + 1).drop_last() =~= names.take(i as int));
            assert(names.take(i as int + 1).last() == tools@[i as int].name@);
            assert(head + listed(names.take(i as int)) + "  \""@ + tools@[i as int].name@
                + "\",\n"@ =~= head + (listed(names.take(i as int)) + "  \""@
                + tools@[i as int].name@ + "\",\n"@));
        }
        let quoted = plus(plus(config, "  \""), tools[i].name.as_str());
        config = plus(quoted, "\",\n");
        i += 1;
    }
    assert(names.take(i as int) =~= names);
    plus(config, "]\ndefault_tools_approval_mode = \"prompt\"")
}

/// The skill that teaches a client to use the tools.
pub fn mesh_agents_skill() -> (skill: &'static str)
    ensures
        skill@ == skill_text(),
{
    "---\nname: mesh-agents\ndescription: Discover and delegate work to mesh A2A agents through the mesh-agents MCP tools.\n---\n\nUse this skill when the user asks to find, delegate to, or inspect work from mesh agents.\n\nWorkflow:\n\n- Call `get_agents` to discover available agents.\n- Call `get_agent` before delegating if the task requires a specific capability.\n- Call `send_message` with a clear task brief and relevant URLs or paths.\n- Use `get_task` to inspect task state and final status.\n- Use `view_text_artifact` or `view_data_artifact` when a task returns artifacts.\n\nAgents are discovered dynamically through MCP. Do not assume a specific agent is installed locally.\n"
}

pub open spec fn skill_text() -> Seq<char> {
    "---\nname: mesh-agents\ndescription: Discover and delegate work to mesh A2A agents through the mesh-agents MCP tools.\n---\n\nUse this skill when the user asks to find, delegate to, or inspect work from mesh agents.\n\nWorkflow:\n\n- Call `get_agents` to discover available agents.\n- Call `get_agent` before delegating if the task requires a specific capability.\n- Call `send_message` with a clear task brief and relevant URLs or paths.\n- Use `get_task` to inspect task state and final status.\n- Use `view_text_artifact` or `view_data_artifact` when a task returns artifacts.\n\nAgents are discovered dynamically through MCP. Do not assume a specific agent is installed locally.\n"@
}

/// Only the one skill can be installed and removed.
pub fn require_mesh_agents_skill(skill: &str) -> (result: Result<(), String>)
    ensures
        match result {
            Ok(_) => skill@ == "mesh-agents"@,
            Err(error) => skill@ != "mesh-agents"@ && error@ == "unknown skill `"@ + skill@
                + "`; expected `mesh-agents`"@,
        },
{
    if !same_text(skill, "mesh-agents") {
        return Err(plus(plus("unknown skill `".to_string(), skill), "`; expected `mesh-agents`"));
    }
    Ok(())
}

/// What installing the skill says.
pub open spec fn installed_text(destination: Seq<char>) -> Seq<char> {
    "installed mesh-agents skill at "@ + destination
}

pub fn installed_line(destination: &str) -> (line: String)
    ensures
        line@ == installed_text(destination@),
{
    plus("installed mesh-agents skill at ".to_string(), destination)
}

/// What removing the skill says.
pub fn removed_line(destination: &str) -> (line: String)
    ensures
        line@ == "removed mesh-agents skill from "@ + destination@,
{
    plus("removed mesh-agents skill from ".to_string(), destination)
}

/// Whether the skill is installed, and where: a line of headings, and one for it.
pub fn status_lines(installed: bool, destination: &str) -> (lines: Vec<String>)
    ensures
        texts(lines@) == seq![
            "skill\tinstalled\tdestination"@,
            "mesh-agents\t"@ + if installed {
                "true"@
            } else {
                "false"@
            } + "\t"@ + destination@,
        ],
{
    let shown = if installed {
        "true"
    } else {
        "false"
    };
    let row = plus(plus("mesh-agents\t".to_string(), shown), "\t");
    let lines = vec!["skill\tinstalled\tdestination".to_string(), plus(row, destination)];
    assert(texts(lines@) =~= seq![
        "skill\tinstalled\tdestination"@,
        "mesh-agents\t"@ + shown@ + "\t"@ + destination@,
    ]);
    lines
}

/// What a setup would do.
pub fn setup_preview(skill: &str, config: &str, mcp_command: &str) -> (lines: Vec<String>)
    ensures
        texts(lines@) == seq![
            "Would write skill: "@ + skill@,
            "Would update config: "@ + config@,
            mcp_config(mcp_command@),
        ],
{
    let lines = vec![
        plus("Would write skill: ".to_string(), skill),
        plus("Would update config: ".to_string(), config),
        managed_mcp_config(mcp_command),
    ];
    assert(texts(lines@) =~= seq![
        "Would write skill: "@ + skill@,
        "Would update config: "@ + config@,
        mcp_config(mcp_command@),
    ]);
    lines
}

/// What a setup did.
pub fn setup_lines(skill: &str, config: &str) -> (lines: Vec<String>)
    ensures
        texts(lines@) == seq!["configured Codex MCP at "@ + config@, installed_text(skill@)],
{
    let lines = vec![
        plus("configured Codex MCP at ".to_string(), config),
        installed_line(skill),
    ];
    assert(texts(lines@) =~= seq![
        "configured Codex MCP at "@ + config@,
        installed_text(skill@),
    ]);
    lines
}

/// Setting the block of a configuration without one keeps the configuration as it is
/// and puts the block behind it, between its markers.
pub proof fn law_new_block_stands_behind(existing: &str, block: &str, next: String)
    requires
        call_ensures(replace_managed_block, (existing, block), next),
        !occurs_from(existing@, "# BEGIN mesh-agents"@, 0),
    ensures
        has_prefix(next@, existing@),
        has_suffix(
            next@,
            "# BEGIN mesh-agents\n"@ + block@ + "\n# END mesh-agents\n"@,
        ),
        next@.len() <= existing@.len() + 1 + "# BEGIN mesh-agents\n"@.len() + block@.len()
            + "\n# END mesh-agents\n"@.len(),
{
    lemma_block_text(block@);
    reveal_strlit("\n");
    let marked = managed_block(block@);
    if first_occurrence(existing@, "# BEGIN mesh-agents"@, 0) is Some {
        let at = first_occurrence(existing@, "# BEGIN mesh-agents"@, 0)->0;
        assert(occurs_at(existing@, "# BEGIN mesh-agents"@, at));
    }
    assert(next@.take(existing@.len() as int) =~= existing@);
    assert(next@.skip(next@.len() - marked.len()) =~= marked);
}

proof fn lemma_block_text(block: Seq<char>)
    ensures
        managed_block(block) == "# BEGIN mesh-agents\n"@ + block + "\n# END mesh-agents\n"@,
{
    reveal_strlit("# BEGIN mesh-agents");
    reveal_strlit("# END mesh-agents");
    reveal_strlit("\n");
    reveal_strlit("# BEGIN mesh-agents\n");
    reveal_strlit("\n# END mesh-agents\n");
    assert(managed_block(block) =~= "# BEGIN mesh-agents\n"@ + block + "\n# END mesh-agents\n"@);
}

/// Setting the block of a configuration that has one changes only what stands between
/// the markers: what stands before stays, and so does what stands behind, but for the
/// line feeds at its start.
pub proof fn law_only_the_block_changes(
    before: Seq<char>,
    earlier: Seq<char>,
    behind: Seq<char>,
    existing: &str,
    block: &str,
    next: String,
)
    requires
        existing@ == before + ("# BEGIN mesh-agents\n"@ + earlier + "\n# END mesh-agents\n"@)
            + behind,
        !occurs_from(before, "# BEGIN mesh-agents"@, 0),
        !occurs_from(earlier, "# END mesh-agents"@, 0),
        behind.len() > 0 ==> behind[0] != '\n',
        call_ensures(replace_managed_block, (existing, block), next),
    ensures
        next@ == before + ("# BEGIN mesh-agents\n"@ + block@ + "\n# END mesh-agents\n"@)
            + behind,
{
    lemma_block_text(earlier);
    lemma_block_text(block@);
    assert(without_leading_newlines(behind) == behind);
    lemma_block_gives_way(before, earlier, behind, block@);
}

proof fn lemma_listed(names: Seq<Seq<char>>, i: int)
    requires
        0 <= i < names.len(),
    ensures
        occurs_from(listed(names), "  \""@ + names[i] + "\",\n"@, 0),
    decreases names.len(),
{
    let line = "  \""@ + names[i] + "\",\n"@;
    let head = names.drop_last();
    let all = listed(names);
    let before = listed(head);
    if i < head.len() {
        assert(head[i] == names[i]);
        lemma_listed(head, i);
        let at = choose|at: int| 0 <= at && #[trigger] occurs_at(before, line, at);
        assert(all.subrange(at, at + line.len()) =~= before.subrange(at, at + line.len()));
        assert(occurs_at(all, line, at));
    } else {
        let at = before.len() as int;
        assert(all.subrange(at, at + line.len()) =~= line);
        assert(occurs_at(all, line, at));
    }
}

/// The configuration for Codex names the command as the server's, and enables each of
/// the tools by its name.
pub proof fn law_config_names_command_and_tools(mcp_command: &str, config: String, i: int)
    requires
        call_ensures(managed_mcp_config, (mcp_command,), config),
        0 <= i < tool_names().len(),
    ensures
        has_prefix(
            config@,
            "[mcp_servers.mesh_a2a]\ncommand = \""@ + mcp_command@
                + "\"\nargs = [\"a2a\", \"mcp\"]\nenabled_tools = [\n"@,
        ),
        occurs_from(config@, "  \""@ + tool_names()[i] + "\",\n"@, 0),
        has_suffix(config@, "]\ndefault_tools_approval_mode = \"prompt\""@),
{
    let names = offered_tools().map_values(|tool: ToolSpecView| tool.name);
    assert(names =~= tool_names());
    let head = "[mcp_servers.mesh_a2a]\ncommand = \""@ + mcp_command@
        + "\"\nargs = [\"a2a\", \"mcp\"]\nenabled_tools = [\n"@;
    let end = "]\ndefault_tools_approval_mode = \"prompt\""@;
    let inner = listed(names);
    let line = "  \""@ + tool_names()[i] + "\",\n"@;
    lemma_listed(names, i);
    let at = choose|at: int| 0 <= at && #[trigger] occurs_at(inner, line, at);
    let whole = config@;
    assert(whole == head + inner + end);
    assert(whole.take(head.len() as int) =~= head);
    assert(whole.skip(whole.len() - end.len()) =~= end);
    let place = head.len() + at;
    assert(whole.subrange(place, place + line.len()) =~= inner.subrange(at, at + line.len()));
    assert(occurs_at(whole, line, place));
}

/// Only the one skill is known.
pub proof fn law_only_one_skill_is_known(skill: &str, result: Result<(), String>)
    requires
        call_ensures(require_mesh_agents_skill, (skill,), result),
    ensures
        result is Ok <==> skill@ == "mesh-agents"@,
{
}

/// What is said of the skill and of a setup names where it is, and each thing under its
/// own heading.
pub proof fn law_what_is_said_names_the_places(
    destination: &str,
    config: &str,
    mcp_command: &str,
    installed: bool,
    made: String,
    gone: String,
    status: Vec<String>,
    preview: Vec<String>,
    done: Vec<String>,
    block: String,
)
    requires
        call_ensures(installed_line, (destination,), made),
        call_ensures(removed_line, (destination,), gone),
        call_ensures(status_lines, (installed, destination), status),
        call_ensures(setup_preview, (destination, config, mcp_command), preview),
        call_ensures(setup_lines, (destination, config), done),
        call_ensures(managed_mcp_config, (mcp_command,), block),
    ensures
        made@ == "installed mesh-agents skill at "@ + destination@,
        gone@ == "removed mesh-agents skill from "@ + destination@,
        status@.len() == 2,
        status@[0]@ == "skill\tinstalled\tdestination"@,
        installed ==> status@[1]@ == "mesh-agents\t"@ + "true"@ + "\t"@ + destination@,
        !installed ==> status@[1]@ == "mesh-agents\t"@ + "false"@ + "\t"@ + destination@,
        preview@.len() == 3,
        preview@[0]@ == "Would write skill: "@ + destination@,
        preview@[1]@ == "Would update config: "@ + config@,
        preview@[2]@ == block@,
        done@.len() == 2,
        done@[0]@ == "configured Codex MCP at "@ + config@,
        done@[1]@ == made@,
{
    assert(texts(status@).len() == status@.len());
    assert(texts(status@)[0] == status@[0]@);
    assert(texts(status@)[1] == status@[1]@);
    assert(texts(preview@).len() == preview@.len());
    assert(texts(preview@)[0] == preview@[0]@);
    assert(texts(preview@)[1] == preview@[1]@);
    assert(texts(preview@)[2] == preview@[2]@);
    assert(texts(done@).len() == done@.len());
    assert(texts(done@)[0] == done@[0]@);
    assert(texts(done@)[1] == done@[1]@);
}

} // verus!
