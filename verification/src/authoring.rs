//! Authoring agents from the command line: what a new agent starts with, and how
//! agents are listed, shown and reported on.

use vstd::prelude::*;

#[allow(unused_imports)]
use crate::card::{card_in, interface_in, item_texts, skill_in, InterfaceView, SkillView};
use crate::config::{RuntimeKind, Visibility};
#[allow(unused_imports)]
use crate::config::{AgentRuntimeConfig, ToolsConfig, WorkspaceConfig};
use crate::json::{
    array, bool_value, integer_value, no_members, object, text_array, text_value, with,
};
#[allow(unused_imports)]
use crate::json::{
    items_member, json_of, jsons, member_of, optional_chars, parsed_json, readable_within,
    reserved_name, text_items, text_member_of, JsonView,
};
#[allow(unused_imports)]
use crate::names::lemma_member_names;
use crate::mesh::runtime_label;
#[allow(unused_imports)]
use crate::mesh::runtime_name;
#[allow(unused_imports)]
use crate::paths::{file_name_of, joined};
use crate::registry::{AgentDefinition, AgentRegistry};
#[allow(unused_imports)]
use crate::registry::{agent_named, load_complaint, AgentFiles};
use crate::text::{chars_of, decimal_text, plus, separate, string_of};
#[allow(unused_imports)]
use crate::text::{
    decimal, has_prefix, is_blank, is_digit, is_id_char, is_letter, is_white, separated, texts,
};
#[allow(unused_imports)]
use crate::tools::lemma_agent_named;
#[allow(unused_imports)]
use crate::validation::{
    card_complaint, interface_complaint, interfaces_complaint_from, is_agent_id, list_complaint,
    of_agent, skill_complaint, skills_complaint,
};
use crate::wire::pretty_text;
#[allow(unused_imports)]
use crate::wire::{
    card_form, decoded_card, interface_form, plain_card, plain_interface, plain_skill, skill_form,
    CardForm,
};

verus! {

/// A character that parts the words of an id.
pub open spec fn is_separator(c: char) -> bool {
    c == '-' || c == '_'
}

/// Where the first word of an id ends.
pub open spec fn word_end(id: Seq<char>) -> int
    decreases id.len(),
{
    if id.len() == 0 || is_separator(id[0]) {
        0
    } else {
        1 + word_end(id.drop_first())
    }
}

proof fn lemma_word_end(id: Seq<char>, at: int)
    requires
        0 <= at <= id.len(),
        forall|i: int| 0 <= i < at ==> !is_separator(#[trigger] id[i]),
        at < id.len() ==> is_separator(id[at]),
    ensures
        word_end(id) == at,
    decreases id.len(),
{
    if at > 0 {
        let rest = id.drop_first();
        assert(!is_separator(id[0]));
        assert forall|i: int| 0 <= i < at - 1 implies !is_separator(#[trigger] rest[i]) by {
            assert(rest[i] == id[i + 1]);
        }
        lemma_word_end(rest, at - 1);
    }
}

/// The words of an id, without empty ones.
pub open spec fn words_of(id: Seq<char>) -> Seq<Seq<char>>
    decreases id.len(),
{
    let end = word_end(id);
    if id.len() == 0 {
        seq![]
    } else if end <= 0 {
        words_of(id.drop_first())
    } else if end >= id.len() {
        seq![id]
    } else {
        seq![id.take(end)] + words_of(id.skip(end + 1))
    }
}

fn words(id: &str) -> (list: Vec<String>)
    ensures
        texts(list@) == words_of(id@),
{
    let chars = chars_of(id);
    let mut list: Vec<String> = Vec::new();
    let mut start: usize = 0;
    let mut i: usize = 0;
    assert(id@.skip(0) =~= id@);
    assert(texts(list@) + words_of(id@) =~= words_of(id@));
    while i < chars.len()
        invariant
            start <= i <= chars@.len(),
            chars@ == id@,
            forall|j: int| start <= j < i ==> !is_separator(#[trigger] chars@[j]),
            texts(list@) + words_of(id@.skip(start as int)) == words_of(id@),
        decreases chars@.len() - i,
    {
        let c = chars[i];
        if c == '-' || c == '_' {
            let ghost rest = id@.skip(start as int);
            proof {
                assert forall|j: int| 0 <= j < i - start implies !is_separator(
                    #[trigger] rest[j],
                ) by {
                    assert(rest[j] == chars@[start + j]);
                }
                lemma_word_end(rest, i - start);
                assert(rest.take(i - start) =~= chars@.subrange(start as int, i as int));
                assert(rest.skip(i - start + 1) =~= id@.skip(i as int + 1));
                assert(rest.drop_first() =~= id@.skip(start as int + 1));
            }
            if start < i {
                let word = string_of(chars.as_slice(), start, i);
                let ghost before = list@;
                list.push(word);
                proof {
                    assert(texts(list@) =~= texts(before).push(word@));
                    assert(texts(list@) + words_of(id@.skip(i as int + 1)) =~= texts(before) + (
                    seq![word@] + words_of(id@.skip(i as int + 1))));
                }
            }
            start = i + 1;
        }
        i += 1;
    }
    let ghost rest = id@.skip(start as int);
    if start < chars.len() {
        proof {
            assert forall|j: int| 0 <= j < rest.len() implies !is_separator(#[trigger] rest[j]) by {
                assert(rest[j] == chars@[start + j]);
            }
            lemma_word_end(rest, rest.len() as int);
            assert(rest =~= chars@.subrange(start as int, chars@.len() as int));
        }
        let ghost before = list@;
        let word = string_of(chars.as_slice(), start, chars.len());
        list.push(word);
        proof {
            assert(texts(list@) =~= texts(before) + seq![rest]);
        }
    } else {
        assert(rest =~= Seq::<char>::empty());
        assert(texts(list@) + words_of(rest) =~= texts(list@));
    }
    list
}

/// A text that starts with an ASCII letter or digit.
pub open spec fn starts_as_word(word: Seq<char>) -> bool {
    word.len() > 0 && (is_letter(word[0]) || is_digit(word[0]))
}

/// A character in upper case, which may be several characters.
pub uninterp spec fn uppercase_of(c: char) -> Seq<char>;

/// `char::to_uppercase`. An ASCII letter turns into its capital, and any other
/// ASCII character stays as it is.
#[verifier::external_body]
fn uppercase(c: char) -> (text: String)
    ensures
        text@ == uppercase_of(c),
        'a' <= c <= 'z' ==> text@ == seq![(c as int - 32) as char],
        c < '\u{80}' && !('a' <= c <= 'z') ==> text@ == seq![c],
{
    c.to_uppercase().to_string()
}

/// The capital of an ASCII letter; any other character as it is.
pub open spec fn ascii_capital(c: char) -> char {
    if 'a' <= c <= 'z' {
        (c as int - 32) as char
    } else {
        c
    }
}

/// A word with its first character in upper case. An ASCII letter turns into its
/// capital.
pub open spec fn capitalized(word: Seq<char>) -> Seq<char> {
    if word.len() == 0 {
        seq![]
    } else if word[0] <= '\u{7f}' {
        seq![ascii_capital(word[0])] + word.drop_first()
    } else {
        uppercase_of(word[0]) + word.drop_first()
    }
}

pub fn capitalize(part: &str) -> (word: String)
    ensures
        word@ == capitalized(part@),
{
    let chars = chars_of(part);
    if chars.len() == 0 {
        let none = String::new();
        assert(none@ =~= seq![]);
        return none;
    }
    assert(part@.drop_first() =~= chars@.subrange(1, chars@.len() as int));
    let rest = string_of(chars.as_slice(), 1, chars.len());
    plus(uppercase(chars[0]), rest.as_str())
}

/// The title of an id: its words, each with a capital, parted by blanks.
pub open spec fn title_of(id: Seq<char>) -> Seq<char> {
    separated(words_of(id).map_values(|word: Seq<char>| capitalized(word)), " "@)
}

/// An id with at least one character that is no separator.
pub open spec fn has_word(id: Seq<char>) -> bool {
    words_of(id).len() > 0
}

/// The title of an id.
pub fn title_from_agent_id(agent_id: &str) -> (title: String)
    ensures
        title@ == title_of(agent_id@),
{
    let list = words(agent_id);
    let ghost all = words_of(agent_id@);
    let ghost capital = |word: Seq<char>| capitalized(word);
    let mut capitals: Vec<String> = Vec::new();
    let mut i: usize = 0;
    while i < list.len()
        invariant
            i <= list@.len(),
            texts(list@) == all,
            capitals@.len() == i,
            forall|j: int| 0 <= j < i ==> (#[trigger] capitals@[j])@ == capitalized(list@[j]@),
        decreases list@.len() - i,
    {
        capitals.push(capitalize(list[i].as_str()));
        i += 1;
    }
    let ghost shown = texts(capitals@);
    proof {
        assert forall|j: int| 0 <= j < all.len() implies #[trigger] shown[j] == all.map_values(
            capital,
        )[j] by {
            assert(texts(list@)[j] == list@[j]@);
        }
        assert(shown =~= all.map_values(capital));
    }
    separate(&capitals, " ")
}

proof fn lemma_starts_with_first(list: Seq<Seq<char>>, separator: Seq<char>)
    requires
        list.len() > 0,
        list[0].len() > 0,
    ensures
        separated(list, separator).len() > 0,
        separated(list, separator)[0] == list[0][0],
    decreases list.len(),
{
    if list.len() > 1 {
        lemma_starts_with_first(list.drop_last(), separator);
    }
}

/// The first word of an id that is made of letters, digits and separators starts with
/// a letter or a digit.
proof fn lemma_first_word(id: Seq<char>)
    requires
        forall|i: int| 0 <= i < id.len() ==> is_id_char(#[trigger] id[i]),
        has_word(id),
    ensures
        starts_as_word(words_of(id)[0]),
    decreases id.len(),
{
    if id.len() > 0 {
        assert(is_id_char(id[0]));
        let end = word_end(id);
        let rest = id.drop_first();
        if end <= 0 {
            assert forall|i: int| 0 <= i < rest.len() implies is_id_char(#[trigger] rest[i]) by {
                assert(rest[i] == id[i + 1]);
            }
            if !is_separator(id[0]) {
                lemma_word_end_is_no_less(rest);
            }
            lemma_first_word(rest);
        } else if end < id.len() {
            assert(words_of(id)[0] =~= id.take(end));
        }
    }
}

proof fn lemma_word_end_is_no_less(id: Seq<char>)
    ensures
        word_end(id) >= 0,
    decreases id.len(),
{
    if id.len() > 0 && !is_separator(id[0]) {
        lemma_word_end_is_no_less(id.drop_first());
    }
}

/// The title of a valid id with a letter or a digit in it is not blank.
pub proof fn law_title_is_not_blank(id: Seq<char>)
    requires
        is_agent_id(id),
        has_word(id),
    ensures
        !is_blank(title_of(id)),
{
    lemma_first_word(id);
    let shown = words_of(id).map_values(|word: Seq<char>| capitalized(word));
    assert(shown[0] == capitalized(words_of(id)[0]));
    lemma_starts_with_first(shown, " "@);
    lemma_not_blank(title_of(id));
}

/// The interface of a new agent.
pub open spec fn starter_interface(id: Seq<char>) -> JsonView {
    interface_form("http://127.0.0.1:3131/a2a/agents/"@ + id, "1.0"@)
}

/// The skill of a new agent.
pub open spec fn starter_skill() -> JsonView {
    skill_form(
        "pr-review"@,
        "Pull request review"@,
        "Inspect a GitHub pull request and report correctness, regression, and test risks."@,
        seq!["github"@, "code-review"@, "pull-request"@],
    )
}

/// The card of a new agent.
pub open spec fn starter_card(id: Seq<char>) -> JsonView {
    card_form(
        CardForm {
            name: title_of(id),
            description: "Reviews pull requests and returns prioritized findings with file/line references."@,
            version: "0.1.0"@,
            interfaces: seq![starter_interface(id)],
            streaming: true,
            input_modes: seq!["text/plain"@],
            output_modes: seq!["text/markdown"@],
            skills: seq![starter_skill()],
        },
    )
}

fn one_text(text: &str) -> (value: serde_json::Value)
    ensures
        json_of(value) == JsonView::Array(text_items(seq![text@])),
{
    let list = vec![text.to_string()];
    assert(texts(list@) =~= seq![text@]);
    text_array(&list)
}

fn starter_interface_value(agent_id: &str) -> (value: serde_json::Value)
    ensures
        json_of(value) == starter_interface(agent_id@),
{
    let url = plus("http://127.0.0.1:3131/a2a/agents/".to_string(), agent_id);
    let members = with(no_members(), "url", text_value(url.as_str()));
    let members = with(members, "protocolBinding", text_value("JSONRPC"));
    object(with(members, "protocolVersion", text_value("1.0")))
}

fn starter_skill_value() -> (value: serde_json::Value)
    ensures
        json_of(value) == starter_skill(),
{
    let tags = vec!["github".to_string(), "code-review".to_string(), "pull-request".to_string()];
    assert(texts(tags@) =~= seq!["github"@, "code-review"@, "pull-request"@]);
    let members = with(no_members(), "id", text_value("pr-review"));
    let members = with(members, "name", text_value("Pull request review"));
    let members = with(
        members,
        "description",
        text_value(
            "Inspect a GitHub pull request and report correctness, regression, and test risks.",
        ),
    );
    object(with(members, "tags", text_array(&tags)))
}

/// The card of a new agent. That of a valid id with a letter or a digit in it breaks
/// no rule for cards.
pub fn starter_card_value(agent_id: &str) -> (card: serde_json::Value)
    ensures
        json_of(card) == starter_card(agent_id@),
        is_agent_id(agent_id@) && has_word(agent_id@) ==> card_complaint(
            agent_id@,
            card_in(json_of(card)),
        ) is None,
{
    let title = title_from_agent_id(agent_id);
    let interface = starter_interface_value(agent_id);
    let interfaces = vec![interface];
    assert(jsons(interfaces@) =~= seq![json_of(interface)]);
    let skill = starter_skill_value();
    let skills = vec![skill];
    assert(jsons(skills@) =~= seq![json_of(skill)]);
    let members = with(no_members(), "name", text_value(title.as_str()));
    let members = with(
        members,
        "description",
        text_value(
            "Reviews pull requests and returns prioritized findings with file/line references.",
        ),
    );
    let members = with(members, "version", text_value("0.1.0"));
    let members = with(members, "supportedInterfaces", array(interfaces));
    let capabilities = object(with(no_members(), "streaming", bool_value(true)));
    let members = with(members, "capabilities", capabilities);
    let members = with(members, "defaultInputModes", one_text("text/plain"));
    let members = with(members, "defaultOutputModes", one_text("text/markdown"));
    let card = object(with(members, "skills", array(skills)));
    proof {
        if is_agent_id(agent_id@) && has_word(agent_id@) {
            lemma_starter_card_is_valid(agent_id@);
        }
    }
    card
}

proof fn lemma_not_blank(text: Seq<char>)
    requires
        text.len() > 0,
        !is_white(text[0]),
    ensures
        !is_blank(text),
{
}

proof fn lemma_starter_interface(id: Seq<char>)
    ensures
        interface_in(starter_interface(id)) == (InterfaceView {
            url: "http://127.0.0.1:3131/a2a/agents/"@ + id,
            protocol_binding: "JSONRPC"@,
            protocol_version: "1.0"@,
        }),
        forall|path: Seq<char>| #[trigger]
            interface_complaint(interface_in(starter_interface(id)), path) is None,
{
    reveal_strlit("url");
    reveal_strlit("protocolBinding");
    reveal_strlit("protocolVersion");
    reveal_strlit("http://127.0.0.1:3131/a2a/agents/");
    reveal_strlit("JSONRPC");
    reveal_strlit("1.0");
    assert("url"@.len() == 3);
    assert("protocolBinding"@[8] == 'B');
    assert("protocolVersion"@[8] == 'V');
    lemma_not_blank("http://127.0.0.1:3131/a2a/agents/"@ + id);
    lemma_not_blank("JSONRPC"@);
    lemma_not_blank("1.0"@);
}

proof fn lemma_starter_skill()
    ensures
        skill_in(starter_skill()) == (SkillView {
            id: "pr-review"@,
            name: "Pull request review"@,
            description: "Inspect a GitHub pull request and report correctness, regression, and test risks."@,
            tags: seq!["github"@, "code-review"@, "pull-request"@],
        }),
        forall|path: Seq<char>| #[trigger]
            skill_complaint(skill_in(starter_skill()), path) is None,
{
    reveal_strlit("id");
    reveal_strlit("name");
    reveal_strlit("description");
    reveal_strlit("tags");
    reveal_strlit("pr-review");
    reveal_strlit("Pull request review");
    reveal_strlit(
        "Inspect a GitHub pull request and report correctness, regression, and test risks.",
    );
    reveal_strlit("github");
    reveal_strlit("code-review");
    reveal_strlit("pull-request");
    assert("id"@.len() == 2);
    assert("name"@.len() == 4 && "name"@[0] == 'n');
    assert("tags"@.len() == 4 && "tags"@[0] == 't');
    assert("description"@.len() == 11);
    let tags = seq!["github"@, "code-review"@, "pull-request"@];
    assert(item_texts(text_items(tags)) =~= tags);
    lemma_not_blank("pr-review"@);
    lemma_not_blank("Pull request review"@);
    lemma_not_blank(
        "Inspect a GitHub pull request and report correctness, regression, and test risks."@,
    );
    lemma_not_blank("github"@);
    lemma_not_blank("code-review"@);
    lemma_not_blank("pull-request"@);
    reveal_with_fuel(list_complaint, 4);
}

proof fn lemma_starter_card_fields(id: Seq<char>)
    ensures
        ({
            let card = card_in(starter_card(id));
            &&& card.name == title_of(id)
            &&& card.description
                == "Reviews pull requests and returns prioritized findings with file/line references."@
            &&& card.version == "0.1.0"@
            &&& card.supported_interfaces == seq![interface_in(starter_interface(id))]
            &&& card.default_input_modes == seq!["text/plain"@]
            &&& card.default_output_modes == seq!["text/markdown"@]
            &&& card.skills == seq![skill_in(starter_skill())]
        }),
{
    reveal_strlit("name");
    reveal_strlit("description");
    reveal_strlit("version");
    reveal_strlit("supportedInterfaces");
    reveal_strlit("capabilities");
    reveal_strlit("defaultInputModes");
    reveal_strlit("defaultOutputModes");
    reveal_strlit("skills");
    assert("name"@.len() == 4);
    assert("description"@.len() == 11);
    assert("version"@.len() == 7);
    assert("supportedInterfaces"@.len() == 19);
    assert("capabilities"@.len() == 12);
    assert("defaultInputModes"@.len() == 17);
    assert("defaultOutputModes"@.len() == 18);
    assert("skills"@.len() == 6);
    let card = card_in(starter_card(id));
    assert(card.supported_interfaces =~= seq![interface_in(starter_interface(id))]);
    assert(card.default_input_modes =~= seq!["text/plain"@]);
    assert(card.default_output_modes =~= seq!["text/markdown"@]);
    assert(card.skills =~= seq![skill_in(starter_skill())]);
}

proof fn lemma_starter_card_is_valid(id: Seq<char>)
    requires
        is_agent_id(id),
        has_word(id),
    ensures
        card_complaint(id, card_in(starter_card(id))) is None,
{
    law_title_is_not_blank(id);
    lemma_starter_card_fields(id);
    lemma_starter_interface(id);
    lemma_starter_skill();
    reveal_strlit(
        "Reviews pull requests and returns prioritized findings with file/line references.",
    );
    reveal_strlit("0.1.0");
    reveal_strlit("text/plain");
    reveal_strlit("text/markdown");
    lemma_not_blank(
        "Reviews pull requests and returns prioritized findings with file/line references."@,
    );
    lemma_not_blank("0.1.0"@);
    lemma_not_blank("text/plain"@);
    lemma_not_blank("text/markdown"@);
    reveal_with_fuel(list_complaint, 2);
    reveal_with_fuel(interfaces_complaint_from, 2);
    reveal_with_fuel(skills_complaint, 2);
}

proof fn lemma_starter_card_is_readable(id: Seq<char>)
    ensures
        readable_within(starter_card(id), 127),
{
    reveal_strlit("$serde_json::private::RawValue");
    reveal_strlit("url");
    reveal_strlit("protocolBinding");
    reveal_strlit("protocolVersion");
    reveal_strlit("id");
    reveal_strlit("name");
    reveal_strlit("description");
    reveal_strlit("tags");
    reveal_strlit("version");
    reveal_strlit("supportedInterfaces");
    reveal_strlit("capabilities");
    reveal_strlit("streaming");
    reveal_strlit("defaultInputModes");
    reveal_strlit("defaultOutputModes");
    reveal_strlit("skills");
    assert(reserved_name().len() == 30);
    reveal_with_fuel(readable_within, 5);
    assert(readable_within(starter_interface(id), 125));
    assert(readable_within(starter_skill(), 125));
    assert(readable_within(JsonView::Array(seq![starter_interface(id)]), 126));
    assert(readable_within(JsonView::Array(seq![starter_skill()]), 126));
}

proof fn lemma_starter_card_is_plain(id: Seq<char>)
    ensures
        plain_card(starter_card(id)),
{
    let card = CardForm {
        name: title_of(id),
        description: "Reviews pull requests and returns prioritized findings with file/line references."@,
        version: "0.1.0"@,
        interfaces: seq![starter_interface(id)],
        streaming: true,
        input_modes: seq!["text/plain"@],
        output_modes: seq!["text/markdown"@],
        skills: seq![starter_skill()],
    };
    assert(plain_interface(card.interfaces[0]));
    assert(plain_skill(card.skills[0]));
    assert(card_form(card) == starter_card(id));
}

/// The text of a new agent's card file. Reading it as JSON gives the card, and so does
/// reading it as a card.
pub fn starter_card_text(agent_id: &str) -> (text: Result<String, String>)
    ensures
        text is Ok,
        parsed_json(text->Ok_0@) is Ok,
        parsed_json(text->Ok_0@)->Ok_0 == starter_card(agent_id@),
        is_starter_card_text(text->Ok_0@, agent_id@),
{
    proof {
        lemma_starter_card_is_readable(agent_id@);
        lemma_starter_card_is_plain(agent_id@);
    }
    match pretty_text(&starter_card_value(agent_id)) {
        Ok(json) => Ok(plus(json, "\n")),
        Err(error) => Err(error),
    }
}

/// Reading the text as a card gives the card of a new agent.
pub open spec fn is_starter_card_text(text: Seq<char>, id: Seq<char>) -> bool {
    decoded_card(text) == Some(starter_card(id))
}

/// The lines that a new agent's configuration has for its command.
pub open spec fn starter_command(kind: RuntimeKind) -> Seq<char> {
    match kind {
        RuntimeKind::Acp => "command = \"agent-command\"\nargs = [\"acp\"]\n"@,
        _ => ""@,
    }
}

/// The text of a new agent's configuration file.
pub open spec fn starter_runtime(kind: RuntimeKind) -> Seq<char> {
    "enabled = true\nvisibility = \"private\"\n\n[runtime]\ntype = \""@ + runtime_name(kind)
        + "\"\n"@ + starter_command(kind)
        + "max_concurrent_tasks = 1\n\n[runtime.workspace]\nmode = \"temp_per_task\"\nkeep = \"on_failure\"\n\n[instructions]\nfile = \"instructions.md\"\ndelivery = \"first_prompt\"\n\n[tools.mesh]\nenabled = true\n\n[policy]\nadvertise_on_mesh = false\npublic_mesh = false\n"@
}

pub fn starter_runtime_text(kind: RuntimeKind) -> (text: String)
    ensures
        text@ == starter_runtime(kind),
{
    let command = match kind {
        RuntimeKind::Acp => "command = \"agent-command\"\nargs = [\"acp\"]\n",
        _ => "",
    };
    let opened = plus(
        "enabled = true\nvisibility = \"private\"\n\n[runtime]\ntype = \"".to_string(),
        runtime_label(kind),
    );
    plus(
        plus(plus(opened, "\"\n"), command),
        "max_concurrent_tasks = 1\n\n[runtime.workspace]\nmode = \"temp_per_task\"\nkeep = \"on_failure\"\n\n[instructions]\nfile = \"instructions.md\"\ndelivery = \"first_prompt\"\n\n[tools.mesh]\nenabled = true\n\n[policy]\nadvertise_on_mesh = false\npublic_mesh = false\n",
    )
}

/// The configuration is the one that a new agent's file spells out. What the file
/// leaves out has its default.
pub open spec fn is_starter_config(config: AgentRuntimeConfig, kind: RuntimeKind) -> bool {
    &&& config.enabled
    &&& config.visibility == Visibility::Private
    &&& config.runtime.kind == kind
    &&& optional_chars(config.runtime.command) == match kind {
        RuntimeKind::Acp => Some("agent-command"@),
        _ => None,
    }
    &&& texts(config.runtime.args@) == match kind {
        RuntimeKind::Acp => seq!["acp"@],
        _ => seq![],
    }
    &&& config.runtime.env@.len() == 0
    &&& config.runtime.max_concurrent_tasks == 1
    &&& call_ensures(WorkspaceConfig::default, (), config.runtime.workspace)
    &&& optional_chars(config.instructions_file()) == Some("instructions.md"@)
    &&& call_ensures(ToolsConfig::default, (), config.tools)
    &&& config.auth is None
}

/// The files of a new agent can be loaded, whatever runtime it was made for: its
/// directory by the agent's id, its card file with the text of a new agent's card, its
/// configuration as the text of a new agent's configuration spells it, and its
/// instructions. This leaves out ids without a letter or a digit, whose title is empty.
pub proof fn law_new_agent_can_be_loaded(id: Seq<char>, files: AgentFiles, kind: RuntimeKind)
    requires
        is_agent_id(id),
        has_word(id),
        file_name_of(files.dir@) == Some(id),
        files.card is Text,
        is_starter_card_text(files.card->Text_0@, id),
        files.runtime is Parsed,
        is_starter_config(files.runtime->Parsed_0, kind),
        files.instructions_found,
    ensures
        load_complaint(files) is None,
{
    reveal(load_complaint);
    lemma_starter_card_is_valid(id);
    let agent_dir = files.dir@;
    reveal_strlit("agent-command");
    reveal_strlit("acp");
    reveal_strlit("mesh-a2a-");
    reveal_strlit("instructions.md");
    reveal_strlit("agents.get_agents");
    reveal_strlit("agents.get_agent");
    reveal_strlit("agents.send_message");
    reveal_strlit("agents.get_task");
    reveal_strlit("agents.view_text_artifact");
    reveal_strlit("agents.view_data_artifact");
    lemma_not_blank("agent-command"@);
    lemma_not_blank("acp"@);
    lemma_not_blank("mesh-a2a-"@);
    lemma_not_blank("agents.get_agents"@);
    lemma_not_blank("agents.get_agent"@);
    lemma_not_blank("agents.send_message"@);
    lemma_not_blank("agents.get_task"@);
    lemma_not_blank("agents.view_text_artifact"@);
    lemma_not_blank("agents.view_data_artifact"@);
    reveal_with_fuel(list_complaint, 7);
    assert(joined(agent_dir, "instructions.md"@).len() > 0);
}

/// The instructions of a new agent.
pub fn default_instructions(agent_id: &str) -> (text: String)
    ensures
        text@ == "You are "@ + agent_id@
            + ", a code review agent. Prioritize concrete bugs, regressions, security risks, and missing tests. Lead with findings and include file and line references whenever possible.\n"@,
{
    plus(
        plus("You are ".to_string(), agent_id),
        ", a code review agent. Prioritize concrete bugs, regressions, security risks, and missing tests. Lead with findings and include file and line references whenever possible.\n",
    )
}

/// Whether a new agent may be made in a directory: one that is there already is
/// replaced only where that is asked for. Gives whether something has to go first.
pub fn init_decision(agent_id: &str, agent_dir: &str, occupied: bool, force: bool) -> (replaces:
    Result<bool, String>)
    ensures
        match replaces {
            Ok(replaces) => (!occupied || force) && replaces == occupied,
            Err(error) => occupied && !force && error@ == "agent "@ + agent_id@
                + " already exists at "@ + agent_dir@ + "; pass --force to replace it"@,
        },
{
    if occupied && !force {
        let opened = plus(plus("agent ".to_string(), agent_id), " already exists at ");
        return Err(plus(plus(opened, agent_dir), "; pass --force to replace it"));
    }
    Ok(occupied)
}

/// What making an agent says.
pub fn created_line(agent_id: &str, agent_dir: &str) -> (line: String)
    ensures
        line@ == "created agent "@ + agent_id@ + " at "@ + agent_dir@,
{
    plus(plus(plus("created agent ".to_string(), agent_id), " at "), agent_dir)
}

/// The agent by that id, which must be there.
pub fn require_agent<'a>(registry: &'a AgentRegistry, agent_id: &str) -> (agent: Result<
    &'a AgentDefinition,
    String,
>)
    ensures
        match agent {
            Ok(agent) => agent_named(registry@, agent_id@) == Some(*agent),
            Err(error) => agent_named(registry@, agent_id@) is None && error@ == of_agent(
                agent_id@,
                "was not found"@,
            ),
        },
{
    match registry.get(agent_id) {
        Some(agent) => Ok(agent),
        None => Err(
            plus(plus(plus("agent ".to_string(), agent_id), " "), "was not found"),
        ),
    }
}

pub open spec fn visibility_name(visibility: Visibility) -> Seq<char> {
    match visibility {
        Visibility::Private => "private"@,
        Visibility::Public => "public"@,
    }
}

pub fn visibility_label(visibility: Visibility) -> (label: &'static str)
    ensures
        label@ == visibility_name(visibility),
{
    match visibility {
        Visibility::Private => "private",
        Visibility::Public => "public",
    }
}

/// The names that lists show.
pub open spec fn shown_visibility(visibility: Visibility) -> Seq<char> {
    match visibility {
        Visibility::Private => "Private"@,
        Visibility::Public => "Public"@,
    }
}

pub open spec fn shown_runtime(kind: RuntimeKind) -> Seq<char> {
    match kind {
        RuntimeKind::Opencode => "Opencode"@,
        RuntimeKind::Goose => "Goose"@,
        RuntimeKind::Pi => "Pi"@,
        RuntimeKind::Acp => "Acp"@,
        RuntimeKind::Remote => "Remote"@,
    }
}

pub open spec fn shown_flag(flag: bool) -> Seq<char> {
    if flag {
        "true"@
    } else {
        "false"@
    }
}

fn visibility_shown(visibility: Visibility) -> (text: &'static str)
    ensures
        text@ == shown_visibility(visibility),
{
    match visibility {
        Visibility::Private => "Private",
        Visibility::Public => "Public",
    }
}

fn runtime_shown(kind: RuntimeKind) -> (text: &'static str)
    ensures
        text@ == shown_runtime(kind),
{
    match kind {
        RuntimeKind::Opencode => "Opencode",
        RuntimeKind::Goose => "Goose",
        RuntimeKind::Pi => "Pi",
        RuntimeKind::Acp => "Acp",
        RuntimeKind::Remote => "Remote",
    }
}

fn flag_shown(flag: bool) -> (text: &'static str)
    ensures
        text@ == shown_flag(flag),
{
    if flag {
        "true"
    } else {
        "false"
    }
}

/// The columns of an agent in a list.
pub open spec fn list_row(agent: AgentDefinition) -> Seq<char> {
    agent.id@ + "\t"@ + shown_flag(agent.runtime.enabled) + "\t"@ + shown_visibility(
        agent.runtime.visibility,
    ) + "\t"@ + shown_runtime(agent.runtime.runtime.kind) + "\t"@ + decimal(
        agent.runtime.runtime.max_concurrent_tasks as nat,
    ) + "\t"@ + agent.card.name@
}

fn row_of(agent: &AgentDefinition) -> (row: String)
    ensures
        row@ == list_row(*agent),
{
    let slots = decimal_text(agent.runtime.runtime.max_concurrent_tasks as u128);
    let row = plus(plus(agent.id.clone(), "\t"), flag_shown(agent.runtime.enabled));
    let row = plus(plus(row, "\t"), visibility_shown(agent.runtime.visibility));
    let row = plus(plus(row, "\t"), runtime_shown(agent.runtime.runtime.kind));
    let row = plus(plus(row, "\t"), slots.as_str());
    plus(plus(row, "\t"), agent.card.name.as_str())
}

/// The list of agents: a line of headings, then a line for each.
pub fn list_lines(agents: &Vec<AgentDefinition>) -> (lines: Vec<String>)
    ensures
        texts(lines@) == seq!["id\tenabled\tvisibility\truntime\tconcurrency\tname"@]
            + agents@.map_values(|agent: AgentDefinition| list_row(agent)),
{
    let mut lines = vec!["id\tenabled\tvisibility\truntime\tconcurrency\tname".to_string()];
    let mut i: usize = 0;
    while i < agents.len()
        invariant
            i <= agents@.len(),
            lines@.len() == i + 1,
            lines@[0]@ == "id\tenabled\tvisibility\truntime\tconcurrency\tname"@,
            forall|j: int| 0 < j <= i ==> (#[trigger] lines@[j])@ == list_row(agents@[j - 1]),
        decreases agents@.len() - i,
    {
        lines.push(row_of(&agents[i]));
        i += 1;
    }
    assert(texts(lines@) =~= seq!["id\tenabled\tvisibility\truntime\tconcurrency\tname"@]
        + agents@.map_values(|agent: AgentDefinition| list_row(agent)));
    lines
}

/// The lines that show one agent.
pub open spec fn shown_agent(agent: AgentDefinition) -> Seq<Seq<char>> {
    seq![
        "id: "@ + agent.id@,
        "name: "@ + agent.card.name@,
        "description: "@ + agent.card.description@,
        "version: "@ + agent.card.version@,
        "enabled: "@ + shown_flag(agent.runtime.enabled),
        "visibility: "@ + shown_visibility(agent.runtime.visibility),
        "runtime: "@ + shown_runtime(agent.runtime.runtime.kind),
        "max_concurrent_tasks: "@ + decimal(agent.runtime.runtime.max_concurrent_tasks as nat),
        "dir: "@ + agent.dir@,
        "agent_card: "@ + agent.card_path@,
        "runtime_config: "@ + agent.runtime_path@,
    ]
}

pub fn show_lines(agent: &AgentDefinition) -> (lines: Vec<String>)
    ensures
        texts(lines@) == shown_agent(*agent),
{
    let slots = decimal_text(agent.runtime.runtime.max_concurrent_tasks as u128);
    let lines = vec![
        plus("id: ".to_string(), agent.id.as_str()),
        plus("name: ".to_string(), agent.card.name.as_str()),
        plus("description: ".to_string(), agent.card.description.as_str()),
        plus("version: ".to_string(), agent.card.version.as_str()),
        plus("enabled: ".to_string(), flag_shown(agent.runtime.enabled)),
        plus("visibility: ".to_string(), visibility_shown(agent.runtime.visibility)),
        plus("runtime: ".to_string(), runtime_shown(agent.runtime.runtime.kind)),
        plus("max_concurrent_tasks: ".to_string(), slots.as_str()),
        plus("dir: ".to_string(), agent.dir.as_str()),
        plus("agent_card: ".to_string(), agent.card_path.as_str()),
        plus("runtime_config: ".to_string(), agent.runtime_path.as_str()),
    ];
    assert(texts(lines@) =~= shown_agent(*agent));
    lines
}

/// An agent as a JSON document.
pub open spec fn agent_summary(agent: AgentDefinition) -> JsonView {
    JsonView::Object(
        map![
            "id"@ => JsonView::Text(agent.id@),
            "name"@ => JsonView::Text(agent.card.name@),
            "description"@ => JsonView::Text(agent.card.description@),
            "version"@ => JsonView::Text(agent.card.version@),
            "enabled"@ => JsonView::Bool(agent.runtime.enabled),
            "visibility"@ => JsonView::Text(visibility_name(agent.runtime.visibility)),
            "runtime"@ => JsonView::Text(runtime_name(agent.runtime.runtime.kind)),
            "max_concurrent_tasks"@ => JsonView::Integer(
                agent.runtime.runtime.max_concurrent_tasks as int,
            ),
            "dir"@ => JsonView::Text(agent.dir@),
            "agent_card"@ => JsonView::Text(agent.card_path@),
            "runtime_config"@ => JsonView::Text(agent.runtime_path@),
        ],
    )
}

pub fn agent_json_summary(agent: &AgentDefinition) -> (summary: serde_json::Value)
    ensures
        json_of(summary) == agent_summary(*agent),
{
    let visibility = visibility_label(agent.runtime.visibility);
    let runtime = runtime_label(agent.runtime.runtime.kind);
    let slots: u64 = agent.runtime.runtime.max_concurrent_tasks as u64;
    let members = with(no_members(), "id", text_value(agent.id.as_str()));
    let members = with(members, "name", text_value(agent.card.name.as_str()));
    let members = with(members, "description", text_value(agent.card.description.as_str()));
    let members = with(members, "version", text_value(agent.card.version.as_str()));
    let members = with(members, "enabled", bool_value(agent.runtime.enabled));
    let members = with(members, "visibility", text_value(visibility));
    let members = with(members, "runtime", text_value(runtime));
    let members = with(members, "max_concurrent_tasks", integer_value(slots));
    let members = with(members, "dir", text_value(agent.dir.as_str()));
    let members = with(members, "agent_card", text_value(agent.card_path.as_str()));
    object(with(members, "runtime_config", text_value(agent.runtime_path.as_str())))
}

/// What a report says of one agent.
#[derive(Clone, Debug)]
pub struct AgentValidationRow {
    pub id: String,
    pub name: String,
    pub enabled: bool,
    pub visibility: String,
    pub runtime: String,
    pub max_concurrent_tasks: usize,
    pub advertise_on_mesh: bool,
    pub public_mesh: bool,
}

/// How many agents have a runtime.
#[derive(Clone, Debug)]
pub struct RuntimeCount {
    pub runtime: String,
    pub count: usize,
}

impl View for RuntimeCount {
    type V = (Seq<char>, int);

    open spec fn view(&self) -> (Seq<char>, int) {
        (self.runtime@, self.count as int)
    }
}

/// A report on some valid agents.
#[derive(Clone, Debug)]
pub struct AgentValidationReport {
    pub status: String,
    pub total: usize,
    pub enabled: usize,
    pub public: usize,
    pub advertised_on_mesh: usize,
    pub runtimes: Vec<RuntimeCount>,
    pub agents: Vec<AgentValidationRow>,
}

/// The row is what a report says of the agent.
pub open spec fn reports_on(row: AgentValidationRow, agent: AgentDefinition) -> bool {
    &&& row.id@ == agent.id@
    &&& row.name@ == agent.card.name@
    &&& row.enabled == agent.runtime.enabled
    &&& row.visibility@ == visibility_name(agent.runtime.visibility)
    &&& row.runtime@ == runtime_name(agent.runtime.runtime.kind)
    &&& row.max_concurrent_tasks == agent.runtime.runtime.max_concurrent_tasks
    &&& row.advertise_on_mesh == agent.runtime.policy.advertise_on_mesh
    &&& row.public_mesh == agent.runtime.policy.public_mesh
}

pub fn agent_validation_row(agent: &AgentDefinition) -> (row: AgentValidationRow)
    ensures
        reports_on(row, *agent),
{
    AgentValidationRow {
        id: agent.id.clone(),
        name: agent.card.name.clone(),
        enabled: agent.runtime.enabled,
        visibility: visibility_label(agent.runtime.visibility).to_string(),
        runtime: runtime_label(agent.runtime.runtime.kind).to_string(),
        max_concurrent_tasks: agent.runtime.runtime.max_concurrent_tasks,
        advertise_on_mesh: agent.runtime.policy.advertise_on_mesh,
        public_mesh: agent.runtime.policy.public_mesh,
    }
}

/// What a report counts.
#[derive(Clone, Copy, Debug, PartialEq, Eq, Structural)]
pub enum Counted {
    Enabled,
    Public,
    Advertised,
    Runtime(RuntimeKind),
}

pub open spec fn counts(what: Counted, agent: AgentDefinition) -> bool {
    match what {
        Counted::Enabled => agent.runtime.enabled,
        Counted::Public => agent.runtime.visibility == Visibility::Public,
        Counted::Advertised => agent.runtime.policy.advertise_on_mesh,
        Counted::Runtime(kind) => agent.runtime.runtime.kind == kind,
    }
}

/// How many of some agents count.
pub open spec fn number_of(what: Counted, agents: Seq<AgentDefinition>) -> int {
    agents.filter(|agent: AgentDefinition| counts(what, agent)).len() as int
}

fn count(what: Counted, agents: &[AgentDefinition]) -> (number: usize)
    ensures
        number == number_of(what, agents@),
{
    let ghost chosen = |agent: AgentDefinition| counts(what, agent);
    let mut number: usize = 0;
    let mut i: usize = 0;
    proof {
        reveal(Seq::filter);
        assert(agents@.take(0) =~= Seq::<AgentDefinition>::empty());
    }
    while i < agents.len()
        invariant
            i <= agents@.len(),
            number <= i,
            chosen == (|agent: AgentDefinition| counts(what, agent)),
            number == agents@.take(i as int).filter(chosen).len(),
        decreases agents@.len() - i,
    {
        proof {
            reveal(Seq::filter);
            assert(agents@.take(i as int + 1).drop_last() =~= agents@.take(i as int));
            assert(agents@.take(i as int + 1).last() == agents@[i as int]);
        }
        let yes = match what {
            Counted::Enabled => agents[i].runtime.enabled,
            Counted::Public => agents[i].runtime.visibility == Visibility::Public,
            Counted::Advertised => agents[i].runtime.policy.advertise_on_mesh,
            Counted::Runtime(kind) => agents[i].runtime.runtime.kind == kind,
        };
        if yes {
            number += 1;
        }
        i += 1;
    }
    assert(agents@.take(i as int) =~= agents@);
    number
}

/// The runtimes in the order of their names.
pub open spec fn runtimes_in_order() -> Seq<RuntimeKind> {
    seq![
        RuntimeKind::Acp,
        RuntimeKind::Goose,
        RuntimeKind::Opencode,
        RuntimeKind::Pi,
        RuntimeKind::Remote,
    ]
}

/// The counts of the first `upto` runtimes that some agents have.
pub open spec fn runtime_counts_upto(agents: Seq<AgentDefinition>, upto: int) -> Seq<
    (Seq<char>, int),
>
    decreases upto,
{
    if upto <= 0 || upto > runtimes_in_order().len() {
        seq![]
    } else {
        let kind = runtimes_in_order()[upto - 1];
        let before = runtime_counts_upto(agents, upto - 1);
        if number_of(Counted::Runtime(kind), agents) > 0 {
            before.push((runtime_name(kind), number_of(Counted::Runtime(kind), agents)))
        } else {
            before
        }
    }
}

/// The runtimes that some agents have, in the order of their names, each with the
/// number of agents that have it.
pub open spec fn runtime_counts(agents: Seq<AgentDefinition>) -> Seq<(Seq<char>, int)> {
    runtime_counts_upto(agents, 5)
}

fn count_runtimes(agents: &[AgentDefinition]) -> (list: Vec<RuntimeCount>)
    ensures
        list@.map_values(|entry: RuntimeCount| entry@) == runtime_counts(agents@),
{
    let kinds = vec![
        RuntimeKind::Acp,
        RuntimeKind::Goose,
        RuntimeKind::Opencode,
        RuntimeKind::Pi,
        RuntimeKind::Remote,
    ];
    assert(kinds@ =~= runtimes_in_order());
    let ghost seen = |entry: RuntimeCount| entry@;
    let mut list: Vec<RuntimeCount> = Vec::new();
    let mut i: usize = 0;
    assert(list@.map_values(seen) =~= runtime_counts_upto(agents@, 0));
    while i < kinds.len()
        invariant
            i <= kinds@.len(),
            kinds@ == runtimes_in_order(),
            seen == (|entry: RuntimeCount| entry@),
            list@.map_values(seen) == runtime_counts_upto(agents@, i as int),
        decreases kinds@.len() - i,
    {
        let number: usize = count(Counted::Runtime(kinds[i]), agents);
        if number > 0 {
            let ghost before = list@;
            let entry = RuntimeCount { runtime: runtime_label(kinds[i]).to_string(), count: number };
            list.push(entry);
            assert(list@.map_values(seen) =~= before.map_values(seen).push(entry@));
        }
        i += 1;
    }
    list
}

/// Reports on some valid agents.
pub fn validation_report(agents: &[AgentDefinition]) -> (report: AgentValidationReport)
    ensures
        report.status@ == "ok"@,
        report.total == agents@.len(),
        report.enabled == number_of(Counted::Enabled, agents@),
        report.public == number_of(Counted::Public, agents@),
        report.advertised_on_mesh == number_of(Counted::Advertised, agents@),
        report.runtimes@.map_values(|entry: RuntimeCount| entry@) == runtime_counts(agents@),
        report.agents@.len() == agents@.len(),
        forall|i: int|
            0 <= i < agents@.len() ==> reports_on(report.agents@[i], #[trigger] agents@[i]),
{
    let mut rows: Vec<AgentValidationRow> = Vec::new();
    let mut i: usize = 0;
    while i < agents.len()
        invariant
            i <= agents@.len(),
            rows@.len() == i,
            forall|j: int| 0 <= j < i ==> reports_on(rows@[j], #[trigger] agents@[j]),
        decreases agents@.len() - i,
    {
        rows.push(agent_validation_row(&agents[i]));
        i += 1;
    }
    AgentValidationReport {
        status: "ok".to_string(),
        total: agents.len(),
        enabled: count(Counted::Enabled, agents),
        public: count(Counted::Public, agents),
        advertised_on_mesh: count(Counted::Advertised, agents),
        runtimes: count_runtimes(agents),
        agents: rows,
    }
}

/// Every agent has one runtime: the counts of the runtimes add up to the number of
/// agents.
pub proof fn law_runtime_counts_add_up(agents: Seq<AgentDefinition>)
    ensures
        number_of(Counted::Runtime(RuntimeKind::Acp), agents) + number_of(
            Counted::Runtime(RuntimeKind::Goose),
            agents,
        ) + number_of(Counted::Runtime(RuntimeKind::Opencode), agents) + number_of(
            Counted::Runtime(RuntimeKind::Pi),
            agents,
        ) + number_of(Counted::Runtime(RuntimeKind::Remote), agents) == agents.len(),
    decreases agents.len(),
{
    reveal(Seq::filter);
    if agents.len() > 0 {
        law_runtime_counts_add_up(agents.drop_last());
    }
}

/// What validating says where there is nothing to complain about: a line for each
/// agent, or one that says that there are none.
pub fn validated_lines(agents: &Vec<AgentDefinition>, dir: &str) -> (lines: Vec<String>)
    ensures
        texts(lines@) == if agents@.len() == 0 {
            seq!["no agents found in "@ + dir@]
        } else {
            agents@.map_values(|agent: AgentDefinition| of_agent(agent.id@, "is valid"@))
        },
{
    let mut lines: Vec<String> = Vec::new();
    let mut i: usize = 0;
    while i < agents.len()
        invariant
            i <= agents@.len(),
            lines@.len() == i,
            forall|j: int|
                0 <= j < i ==> (#[trigger] lines@[j])@ == of_agent(agents@[j].id@, "is valid"@),
        decreases agents@.len() - i,
    {
        lines.push(valid_line(agents[i].id.as_str()));
        i += 1;
    }
    if agents.len() == 0 {
        lines.push(plus("no agents found in ".to_string(), dir));
        assert(texts(lines@) =~= seq!["no agents found in "@ + dir@]);
    } else {
        assert(texts(lines@) =~= agents@.map_values(
            |agent: AgentDefinition| of_agent(agent.id@, "is valid"@),
        ));
    }
    lines
}

pub fn valid_line(agent_id: &str) -> (line: String)
    ensures
        line@ == of_agent(agent_id@, "is valid"@),
{
    plus(plus(plus("agent ".to_string(), agent_id), " "), "is valid")
}

/// What switching an agent on or off says.
pub fn enabled_line(agent_id: &str, enabled: bool) -> (line: String)
    ensures
        line@ == if enabled {
            "enabled agent "@
        } else {
            "disabled agent "@
        } + agent_id@,
{
    let done = if enabled {
        "enabled agent "
    } else {
        "disabled agent "
    };
    plus(done.to_string(), agent_id)
}

/// A list has a line of headings and then a line for each agent, in order, with its id,
/// whether it is switched on, who may see it, its runtime, how many tasks it runs at
/// once, and its name.
pub proof fn law_list_tells_of_each_agent(
    agents: &Vec<AgentDefinition>,
    lines: Vec<String>,
    i: int,
)
    requires
        call_ensures(list_lines, (agents,), lines),
        0 <= i < agents@.len(),
    ensures
        lines@.len() == agents@.len() + 1,
        lines@[0]@ == "id\tenabled\tvisibility\truntime\tconcurrency\tname"@,
        ({
            let agent = agents@[i];
            lines@[i + 1]@ == agent.id@ + "\t"@ + if agent.runtime.enabled {
                "true"@
            } else {
                "false"@
            } + "\t"@ + if agent.runtime.visibility == Visibility::Public {
                "Public"@
            } else {
                "Private"@
            } + "\t"@ + match agent.runtime.runtime.kind {
                RuntimeKind::Opencode => "Opencode"@,
                RuntimeKind::Goose => "Goose"@,
                RuntimeKind::Pi => "Pi"@,
                RuntimeKind::Acp => "Acp"@,
                RuntimeKind::Remote => "Remote"@,
            } + "\t"@ + decimal(agent.runtime.runtime.max_concurrent_tasks as nat) + "\t"@
                + agent.card.name@
        }),
{
    let all = texts(lines@);
    assert(all.len() == lines@.len());
    assert(all[0] == lines@[0]@);
    assert(all[i + 1] == lines@[i + 1]@);
    assert(all[i + 1] == list_row(agents@[i]));
}

/// What is shown of an agent stands line by line under the heading of each.
pub proof fn law_shown_agent(agent: &AgentDefinition, lines: Vec<String>)
    requires
        call_ensures(show_lines, (agent,), lines),
    ensures
        lines@.len() == 11,
        lines@[0]@ == "id: "@ + agent.id@,
        lines@[1]@ == "name: "@ + agent.card.name@,
        lines@[2]@ == "description: "@ + agent.card.description@,
        lines@[3]@ == "version: "@ + agent.card.version@,
        agent.runtime.enabled ==> lines@[4]@ == "enabled: "@ + "true"@,
        !agent.runtime.enabled ==> lines@[4]@ == "enabled: "@ + "false"@,
        agent.runtime.visibility == Visibility::Public ==> lines@[5]@ == "visibility: "@
            + "Public"@,
        agent.runtime.visibility == Visibility::Private ==> lines@[5]@ == "visibility: "@
            + "Private"@,
        lines@[7]@ == "max_concurrent_tasks: "@ + decimal(
            agent.runtime.runtime.max_concurrent_tasks as nat,
        ),
        lines@[8]@ == "dir: "@ + agent.dir@,
        lines@[9]@ == "agent_card: "@ + agent.card_path@,
        lines@[10]@ == "runtime_config: "@ + agent.runtime_path@,
{
    let all = texts(lines@);
    assert(all.len() == lines@.len());
    assert(forall|i: int| 0 <= i < lines@.len() ==> all[i] == (#[trigger] lines@[i])@);
}

/// The summary of an agent holds each thing under its own name.
pub proof fn law_summary_of_an_agent(agent: &AgentDefinition, summary: serde_json::Value)
    requires
        call_ensures(agent_json_summary, (agent,), summary),
    ensures
        text_member_of(json_of(summary), "id"@) == Some(agent.id@),
        text_member_of(json_of(summary), "name"@) == Some(agent.card.name@),
        text_member_of(json_of(summary), "description"@) == Some(agent.card.description@),
        text_member_of(json_of(summary), "version"@) == Some(agent.card.version@),
        member_of(json_of(summary), "enabled"@) == Some(JsonView::Bool(agent.runtime.enabled)),
        text_member_of(json_of(summary), "visibility"@) == Some(
            if agent.runtime.visibility == Visibility::Public {
                "public"@
            } else {
                "private"@
            },
        ),
        text_member_of(json_of(summary), "runtime"@) == Some(
            match agent.runtime.runtime.kind {
                RuntimeKind::Opencode => "opencode"@,
                RuntimeKind::Goose => "goose"@,
                RuntimeKind::Pi => "pi"@,
                RuntimeKind::Acp => "acp"@,
                RuntimeKind::Remote => "remote"@,
            },
        ),
        member_of(json_of(summary), "max_concurrent_tasks"@) == Some(
            JsonView::Integer(agent.runtime.runtime.max_concurrent_tasks as int),
        ),
        text_member_of(json_of(summary), "dir"@) == Some(agent.dir@),
        text_member_of(json_of(summary), "agent_card"@) == Some(agent.card_path@),
        text_member_of(json_of(summary), "runtime_config"@) == Some(agent.runtime_path@),
{
    lemma_member_names();
}

/// A report has a row for each agent, in order, with what the agent's card and its
/// configuration say, and counts the agents: all, those that are switched on, those
/// that are public, and those that are shown on the mesh.
pub proof fn law_report_on_agents(
    agents: &[AgentDefinition],
    report: AgentValidationReport,
    i: int,
)
    requires
        call_ensures(validation_report, (agents,), report),
        0 <= i < agents@.len(),
    ensures
        report.status@ == "ok"@,
        report.total == agents@.len(),
        report.enabled == agents@.filter(|agent: AgentDefinition| agent.runtime.enabled).len(),
        report.public == agents@.filter(
            |agent: AgentDefinition| agent.runtime.visibility == Visibility::Public,
        ).len(),
        report.advertised_on_mesh == agents@.filter(
            |agent: AgentDefinition| agent.runtime.policy.advertise_on_mesh,
        ).len(),
        report.agents@.len() == agents@.len(),
        ({
            let row = report.agents@[i];
            let agent = agents@[i];
            &&& row.id@ == agent.id@
            &&& row.name@ == agent.card.name@
            &&& row.enabled == agent.runtime.enabled
            &&& row.visibility@ == if agent.runtime.visibility == Visibility::Public {
                "public"@
            } else {
                "private"@
            }
            &&& row.max_concurrent_tasks == agent.runtime.runtime.max_concurrent_tasks
            &&& row.advertise_on_mesh == agent.runtime.policy.advertise_on_mesh
            &&& row.public_mesh == agent.runtime.policy.public_mesh
            &&& row.runtime@ == match agent.runtime.runtime.kind {
                RuntimeKind::Opencode => "opencode"@,
                RuntimeKind::Goose => "goose"@,
                RuntimeKind::Pi => "pi"@,
                RuntimeKind::Acp => "acp"@,
                RuntimeKind::Remote => "remote"@,
            }
        }),
{
    assert(reports_on(report.agents@[i], agents@[i]));
    assert((|agent: AgentDefinition| counts(Counted::Enabled, agent)) =~= (
    |agent: AgentDefinition| agent.runtime.enabled));
    assert((|agent: AgentDefinition| counts(Counted::Public, agent)) =~= (
    |agent: AgentDefinition| agent.runtime.visibility == Visibility::Public));
    assert((|agent: AgentDefinition| counts(Counted::Advertised, agent)) =~= (
    |agent: AgentDefinition| agent.runtime.policy.advertise_on_mesh));
}

/// A report lists each runtime that some agent has, under its name, with the number of
/// agents that have it.
pub proof fn law_report_on_runtimes(
    agents: &[AgentDefinition],
    report: AgentValidationReport,
    kind: RuntimeKind,
)
    requires
        call_ensures(validation_report, (agents,), report),
    ensures
        ({
            let having = agents@.filter(
                |agent: AgentDefinition| agent.runtime.runtime.kind == kind,
            );
            let name = match kind {
                RuntimeKind::Opencode => "opencode"@,
                RuntimeKind::Goose => "goose"@,
                RuntimeKind::Pi => "pi"@,
                RuntimeKind::Acp => "acp"@,
                RuntimeKind::Remote => "remote"@,
            };
            having.len() > 0 ==> exists|i: int|
                #![trigger report.runtimes@[i]]
                0 <= i < report.runtimes@.len() && report.runtimes@[i].runtime@ == name
                    && report.runtimes@[i].count == having.len()
        }),
        report.runtimes@.len() <= 5,
{
    let all = report.runtimes@.map_values(|entry: RuntimeCount| entry@);
    assert((|agent: AgentDefinition| counts(Counted::Runtime(kind), agent)) =~= (
    |agent: AgentDefinition| agent.runtime.runtime.kind == kind));
    assert(all.len() == report.runtimes@.len());
    let at: int = match kind {
        RuntimeKind::Acp => 0,
        RuntimeKind::Goose => 1,
        RuntimeKind::Opencode => 2,
        RuntimeKind::Pi => 3,
        RuntimeKind::Remote => 4,
    };
    assert(runtimes_in_order()[at] == kind);
    lemma_runtime_counted(agents@, at, 5);
    let number = number_of(Counted::Runtime(kind), agents@);
    if number > 0 {
        let i = choose|i: int|
            #![trigger all[i]]
            0 <= i < all.len() && all[i] == (runtime_name(kind), number);
        assert(all[i] == report.runtimes@[i]@);
    }
}

proof fn lemma_runtime_counted(agents: Seq<AgentDefinition>, at: int, upto: int)
    requires
        0 <= at < 5,
        0 <= upto <= 5,
    ensures
        ({
            let kind = runtimes_in_order()[at];
            let number = number_of(Counted::Runtime(kind), agents);
            let all = runtime_counts_upto(agents, upto);
            &&& all.len() <= upto
            &&& at < upto && number > 0 ==> exists|i: int|
                #![trigger all[i]]
                0 <= i < all.len() && all[i] == (runtime_name(kind), number)
        }),
    decreases upto,
{
    if upto > 0 {
        lemma_runtime_counted(agents, at, upto - 1);
        let kind = runtimes_in_order()[at];
        let number = number_of(Counted::Runtime(kind), agents);
        let before = runtime_counts_upto(agents, upto - 1);
        let all = runtime_counts_upto(agents, upto);
        if number > 0 && at < upto - 1 {
            let i = choose|i: int|
                #![trigger before[i]]
                0 <= i < before.len() && before[i] == (runtime_name(kind), number);
            assert(all[i] == before[i]);
        } else if number > 0 && at == upto - 1 {
            assert(all[all.len() - 1] == (runtime_name(kind), number));
        }
    }
}

/// The card of a new agent has the title of the agent's id as its name, and one
/// interface, at the agent's own URL.
pub proof fn law_new_card_is_the_agents(agent_id: &str, card: serde_json::Value, title: String)
    requires
        call_ensures(starter_card_value, (agent_id,), card),
        call_ensures(title_from_agent_id, (agent_id,), title),
    ensures
        text_member_of(json_of(card), "name"@) == Some(title@),
        text_member_of(json_of(card), "version"@) == Some("0.1.0"@),
        items_member(json_of(card), "supportedInterfaces"@).len() == 1,
        ({
            let interface = items_member(json_of(card), "supportedInterfaces"@)[0];
            &&& text_member_of(interface, "url"@) == Some(
                "http://127.0.0.1:3131/a2a/agents/"@ + agent_id@,
            )
            &&& text_member_of(interface, "protocolBinding"@) == Some("JSONRPC"@)
            &&& text_member_of(interface, "protocolVersion"@) == Some("1.0"@)
        }),
        items_member(json_of(card), "skills"@).len() == 1,
        text_member_of(items_member(json_of(card), "skills"@)[0], "id"@) == Some("pr-review"@),
        text_member_of(items_member(json_of(card), "skills"@)[0], "name"@) == Some(
            "Pull request review"@,
        ),
{
    lemma_member_names();
    let interfaces = items_member(json_of(card), "supportedInterfaces"@);
    let skills = items_member(json_of(card), "skills"@);
    assert(interfaces == seq![starter_interface(agent_id@)]);
    assert(skills == seq![starter_skill()]);
}

/// The configuration file of a new agent names its runtime, and only that of the
/// generic runtime a command.
pub proof fn law_new_configuration_names_the_runtime(kind: RuntimeKind, text: String)
    requires
        call_ensures(starter_runtime_text, (kind,), text),
    ensures
        has_prefix(
            text@,
            "enabled = true\nvisibility = \"private\"\n\n[runtime]\ntype = \""@ + match kind {
                RuntimeKind::Opencode => "opencode"@,
                RuntimeKind::Goose => "goose"@,
                RuntimeKind::Pi => "pi"@,
                RuntimeKind::Acp => "acp"@,
                RuntimeKind::Remote => "remote"@,
            } + "\"\n"@ + if kind == RuntimeKind::Acp {
                "command = \"agent-command\"\nargs = [\"acp\"]\n"@
            } else {
                ""@
            } + "max_concurrent_tasks = 1\n"@,
        ),
{
    reveal_strlit("max_concurrent_tasks = 1\n");
    reveal_strlit(
        "max_concurrent_tasks = 1\n\n[runtime.workspace]\nmode = \"temp_per_task\"\nkeep = \"on_failure\"\n\n[instructions]\nfile = \"instructions.md\"\ndelivery = \"first_prompt\"\n\n[tools.mesh]\nenabled = true\n\n[policy]\nadvertise_on_mesh = false\npublic_mesh = false\n",
    );
    let opened = "enabled = true\nvisibility = \"private\"\n\n[runtime]\ntype = \""@
        + runtime_name(kind) + "\"\n"@ + starter_command(kind);
    let head = opened + "max_concurrent_tasks = 1\n"@;
    assert(text@.take(head.len() as int) =~= head);
}

/// What is there already is replaced only where that is asked for.
pub proof fn law_no_agent_is_replaced_unasked(
    agent_id: &str,
    agent_dir: &str,
    occupied: bool,
    force: bool,
    replaces: Result<bool, String>,
)
    requires
        call_ensures(init_decision, (agent_id, agent_dir, occupied, force), replaces),
    ensures
        replaces is Err <==> occupied && !force,
        replaces is Ok ==> replaces->Ok_0 == occupied,
{
}

/// What is said of an agent names the agent, and what was done.
pub proof fn law_what_is_said_names_the_agent(
    agent_id: &str,
    agent_dir: &str,
    enabled: bool,
    created: String,
    switched: String,
    valid: String,
    instructions: String,
)
    requires
        call_ensures(created_line, (agent_id, agent_dir), created),
        call_ensures(enabled_line, (agent_id, enabled), switched),
        call_ensures(valid_line, (agent_id,), valid),
        call_ensures(default_instructions, (agent_id,), instructions),
    ensures
        created@ == "created agent "@ + agent_id@ + " at "@ + agent_dir@,
        enabled ==> switched@ == "enabled agent "@ + agent_id@,
        !enabled ==> switched@ == "disabled agent "@ + agent_id@,
        valid@ == "agent "@ + agent_id@ + " is valid"@,
        has_prefix(instructions@, "You are "@ + agent_id@),
{
    reveal_strlit(" ");
    reveal_strlit("is valid");
    reveal_strlit(" is valid");
    assert(valid@ =~= "agent "@ + agent_id@ + " is valid"@);
    let head = "You are "@ + agent_id@;
    assert(instructions@.take(head.len() as int) =~= head);
}

/// What validating says has one line for each agent, in order, or one that names the
/// directory where there is none.
pub proof fn law_validated_lines(agents: &Vec<AgentDefinition>, dir: &str, lines: Vec<String>)
    requires
        call_ensures(validated_lines, (agents, dir), lines),
    ensures
        agents@.len() == 0 ==> lines@.len() == 1 && lines@[0]@ == "no agents found in "@ + dir@,
        agents@.len() > 0 ==> lines@.len() == agents@.len() && forall|i: int|
            #![trigger lines@[i]]
            0 <= i < agents@.len() ==> lines@[i]@ == "agent "@ + agents@[i].id@ + " is valid"@,
{
    let all = texts(lines@);
    reveal_strlit(" ");
    reveal_strlit("is valid");
    reveal_strlit(" is valid");
    assert(all.len() == lines@.len());
    if agents@.len() == 0 {
        assert(all[0] == lines@[0]@);
    } else {
        assert forall|i: int| #![trigger lines@[i]] 0 <= i < agents@.len() implies lines@[i]@
            == "agent "@ + agents@[i].id@ + " is valid"@ by {
            assert(all[i] == lines@[i]@);
            assert(of_agent(agents@[i].id@, "is valid"@) =~= "agent "@ + agents@[i].id@
                + " is valid"@);
        }
    }
}

/// The agent that is required is the one by that id; where there is none, it is
/// refused.
pub proof fn law_required_agent<'a>(
    registry: &'a AgentRegistry,
    agent_id: &str,
    agent: Result<&'a AgentDefinition, String>,
)
    requires
        call_ensures(require_agent, (registry, agent_id), agent),
    ensures
        agent is Ok ==> agent->Ok_0.id@ == agent_id@ && registry@.contains(*agent->Ok_0),
        agent is Err ==> forall|i: int|
            0 <= i < registry@.len() ==> (#[trigger] registry@[i]).id@ != agent_id@,
{
    lemma_agent_named(registry@, agent_id@);
}

/// A word is written with a capital at its start and otherwise as it is.
pub proof fn law_capitalized_word(part: &str, word: String)
    requires
        call_ensures(capitalize, (part,), word),
        part@.len() > 0,
        part@[0] <= '\u{7f}',
    ensures
        word@.len() == part@.len(),
        word@.drop_first() == part@.drop_first(),
        'a' <= part@[0] <= 'z' ==> 'A' <= word@[0] <= 'Z' && word@[0] as int == part@[0] as int
            - 32,
        !('a' <= part@[0] <= 'z') ==> word@[0] == part@[0],
{
    assert(word@.drop_first() =~= part@.drop_first());
}

/// The title of an id of one word is the word with its capital. Where a separator
/// stands behind the word, and more words behind it, the title goes on with a blank and
/// the title of the rest.
pub proof fn law_title_goes_by_words(word: Seq<char>, separator: char, rest: Seq<char>)
    requires
        word.len() > 0,
        forall|i: int| 0 <= i < word.len() ==> !is_separator(#[trigger] word[i]),
        separator == '-' || separator == '_',
    ensures
        title_of(word) == capitalized(word),
        has_word(rest) ==> title_of(word.push(separator) + rest) == capitalized(word) + " "@
            + title_of(rest),
        !has_word(rest) ==> title_of(word.push(separator) + rest) == capitalized(word),
        title_of(seq![separator] + rest) == title_of(rest),
{
    let capital = |word: Seq<char>| capitalized(word);
    let size = word.len() as int;
    lemma_word_end(word, size);
    assert(words_of(word) == seq![word]);
    assert(words_of(word).map_values(capital) =~= seq![capitalized(word)]);
    let whole = word.push(separator) + rest;
    assert forall|i: int| 0 <= i < size implies !is_separator(#[trigger] whole[i]) by {
        assert(whole[i] == word[i]);
    }
    assert(whole[size] == separator);
    lemma_word_end(whole, size);
    assert(whole.take(size) =~= word);
    assert(whole.skip(size + 1) =~= rest);
    assert(words_of(whole) == seq![word] + words_of(rest));
    let more = words_of(rest).map_values(capital);
    assert(words_of(whole).map_values(capital) =~= seq![capitalized(word)] + more);
    lemma_separated_first(capitalized(word), more, " "@);
    let parted = seq![separator] + rest;
    assert(parted.drop_first() =~= rest);
    assert(is_separator(parted[0]));
    assert(words_of(parted) == words_of(rest));
}

proof fn lemma_separated_first(first: Seq<char>, more: Seq<Seq<char>>, separator: Seq<char>)
    ensures
        more.len() == 0 ==> separated(seq![first] + more, separator) == first,
        more.len() > 0 ==> separated(seq![first] + more, separator) == first + separator
            + separated(more, separator),
    decreases more.len(),
{
    let all = seq![first] + more;
    if more.len() == 0 {
        assert(all[0] == first);
    } else {
        assert(all.drop_last() =~= seq![first] + more.drop_last());
        assert(all.last() == more.last());
        lemma_separated_first(first, more.drop_last(), separator);
        if more.len() == 1 {
            assert(separated(more, separator) == more[0]);
        } else {
            let before = separated(more.drop_last(), separator);
            assert((first + separator + before) + separator + more.last() =~= first + separator + (
            before + separator + more.last()));
        }
    }
}

} // verus!
