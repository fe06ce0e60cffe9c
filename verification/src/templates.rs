//! Substitutions in a runtime's command, arguments and environment:
//! `{{ name }}` for the variables of a task, and `$NAME`, `${NAME}` and
//! `{{ env.NAME }}` for the variables of the environment.

use vstd::prelude::*;
use vstd::string::StringExecFns;

use crate::pairs::{find_value, Pair};
#[allow(unused_imports)]
use crate::pairs::{entries, lookup};
use crate::text::{chars_of, find, is_ascii_digit, is_ascii_letter, plus, string_of, strip_prefix, trim};
#[allow(unused_imports)]
use crate::text::{
    first_at, first_occurrence, has_prefix, is_digit, is_letter, is_white, lemma_first_occurrence, lemma_position_of, lemma_position_of_bounds,
    occurs_at, occurs_from, position_of, trimmed, trimmed_end, trimmed_start,
};

verus! {

/// What an expansion gives: a text, or the error's text.
pub type Expansion = Result<Seq<char>, Seq<char>>;

/// The characters of a result.
pub open spec fn expansion(result: Result<String, String>) -> Expansion {
    match result {
        Ok(text) => Ok(text@),
        Err(error) => Err(error@),
    }
}

/// An expansion with a text before it.
pub open spec fn prefixed(prefix: Seq<char>, rest: Expansion) -> Expansion {
    match rest {
        Ok(text) => Ok(prefix + text),
        Err(error) => Err(error),
    }
}

pub open spec fn is_env_start(c: char) -> bool {
    c == '_' || is_letter(c)
}

pub open spec fn is_env_continue(c: char) -> bool {
    is_env_start(c) || is_digit(c)
}

pub fn is_env_name_start(c: char) -> (yes: bool)
    ensures
        yes == is_env_start(c),
{
    c == '_' || is_ascii_letter(c)
}

pub fn is_env_name_continue(c: char) -> (yes: bool)
    ensures
        yes == is_env_continue(c),
{
    is_env_name_start(c) || is_ascii_digit(c)
}

pub open spec fn unset_variable(name: Seq<char>, source: Seq<char>) -> Seq<char> {
    "environment variable `"@ + name + "` used in `"@ + source + "` is not set"@
}

/// The value of an environment variable that `source` refers to.
pub open spec fn env_value_of(
    name: Seq<char>,
    source: Seq<char>,
    environment: Seq<(Seq<char>, Seq<char>)>,
) -> Expansion {
    if name.len() == 0 {
        Err("empty environment variable reference in `"@ + source + "`"@)
    } else {
        match lookup(environment, name) {
            Some(value) => Ok(value),
            None => Err(unset_variable(name, source)),
        }
    }
}

pub fn env_value(name: &str, source: &str, environment: &Vec<Pair>) -> (value: Result<
    String,
    String,
>)
    ensures
        expansion(value) == env_value_of(name@, source@, entries(environment@)),
{
    if chars_of(name).len() == 0 {
        return Err(plus(plus("empty environment variable reference in `".to_string(), source), "`"));
    }
    match find_value(environment, name) {
        Some(value) => Ok(value),
        None => Err(not_set(name, source)),
    }
}

fn not_set(name: &str, source: &str) -> (message: String)
    ensures
        message@ == unset_variable(name@, source@),
{
    let opened = plus(plus("environment variable `".to_string(), name), "` used in `");
    plus(plus(opened, source), "` is not set")
}

/// The end of the run of name characters in `source` from `at` on.
pub open spec fn name_end(source: Seq<char>, at: int) -> int
    decreases source.len() - at,
{
    if 0 <= at < source.len() && is_env_continue(source[at]) {
        name_end(source, at + 1)
    } else {
        at
    }
}

pub proof fn lemma_name_end(source: Seq<char>, at: int)
    requires
        0 <= at <= source.len(),
    ensures
        at <= name_end(source, at) <= source.len(),
    decreases source.len() - at,
{
    if at < source.len() && is_env_continue(source[at]) {
        lemma_name_end(source, at + 1);
    }
}

/// The position of the first `c` in `source` from `at` on, or the end of `source`.
pub open spec fn position_from(source: Seq<char>, c: char, at: int) -> int {
    at + position_of(source.skip(at), c)
}

/// `source` from `at` on, with its environment references replaced. `$NAME` and
/// `${NAME}` stand for the variable's value. A `$` at the end stands for itself;
/// one before any other character stands for itself too, and that character is
/// left out.
pub open spec fn env_expanded(
    source: Seq<char>,
    at: int,
    environment: Seq<(Seq<char>, Seq<char>)>,
) -> Expansion
    decreases source.len() - at,
{
    if at < 0 || at >= source.len() {
        Ok(seq![])
    } else if source[at] != '$' {
        prefixed(seq![source[at]], env_expanded(source, at + 1, environment))
    } else if at + 1 == source.len() {
        Ok(seq!['$'])
    } else if source[at + 1] == '{' {
        let end = position_from(source, '}', at + 2);
        proof {
            lemma_position_of_bounds(source.skip(at + 2), '}');
        }
        if end >= source.len() {
            Err("unterminated environment variable in `"@ + source + "`"@)
        } else {
            match env_value_of(source.subrange(at + 2, end), source, environment) {
                Ok(value) => prefixed(value, env_expanded(source, end + 1, environment)),
                Err(error) => Err(error),
            }
        }
    } else if is_env_start(source[at + 1]) {
        let end = name_end(source, at + 2);
        proof {
            lemma_name_end(source, at + 2);
        }
        match env_value_of(source.subrange(at + 1, end), source, environment) {
            Ok(value) => prefixed(value, env_expanded(source, end, environment)),
            Err(error) => Err(error),
        }
    } else {
        prefixed(seq!['$'], env_expanded(source, at + 2, environment))
    }
}

proof fn lemma_prefixed_twice(first: Seq<char>, second: Seq<char>, rest: Expansion)
    ensures
        prefixed(first, prefixed(second, rest)) == prefixed(first + second, rest),
{
    if let Ok(text) = rest {
        assert(first + (second + text) =~= (first + second) + text);
    }
}

/// Replaces the environment references of a text.
pub fn expand_env_vars(value: &str, environment: &Vec<Pair>) -> (expanded: Result<String, String>)
    ensures
        expansion(expanded) == env_expanded(value@, 0, entries(environment@)),
{
    let chars = chars_of(value);
    let size: usize = chars.len();
    let ghost env = entries(environment@);
    let ghost source = value@;
    let mut output = String::new();
    let mut index: usize = 0;
    proof {
        assert(prefixed(output@, env_expanded(source, 0, env)) == env_expanded(source, 0, env)) by {
            if let Ok(text) = env_expanded(source, 0, env) {
                assert(output@ + text =~= text);
            }
        }
    }
    while index < size
        invariant
            index <= size,
            size == chars@.len(),
            chars@ == source,
            source == value@,
            env == entries(environment@),
            prefixed(output@, env_expanded(source, index as int, env)) == env_expanded(
                source,
                0,
                env,
            ),
        decreases size - index,
    {
        let ghost before = output@;
        let ghost at = index as int;
        if chars[index] != '$' {
            proof {
                lemma_prefixed_twice(before, seq![source[at]], env_expanded(source, at + 1, env));
                assert(before.push(source[at]) =~= before + seq![source[at]]);
            }
            output.push(chars[index]);
            index += 1;
        } else if index + 1 == size {
            output.push('$');
            proof {
                assert(output@ =~= before + seq!['$']);
                assert(env_expanded(source, at + 1, env) == Ok::<Seq<char>, Seq<char>>(seq![]));
                assert(output@ + Seq::<char>::empty() =~= output@);
            }
            index += 1;
        } else if chars[index + 1] == '{' {
            let name_start: usize = index + 2;
            let mut end: usize = name_start;
            while end < size && chars[end] != '}'
                invariant
                    name_start <= end <= size,
                    size == chars@.len(),
                    forall|i: int| name_start <= i < end ==> #[trigger] chars@[i] != '}',
                decreases size - end,
            {
                end += 1;
            }
            proof {
                let tail = source.skip(name_start as int);
                assert forall|i: int| 0 <= i < end - name_start implies #[trigger] tail[i]
                    != '}' by {
                    assert(tail[i] == chars@[name_start + i]);
                }
                lemma_position_of(tail, '}', end - name_start);
            }
            if end == size {
                return Err(
                    plus(plus("unterminated environment variable in `".to_string(), value), "`"),
                );
            }
            let name = string_of(chars.as_slice(), name_start, end);
            match env_value(name.as_str(), value, environment) {
                Ok(found) => {
                    proof {
                        lemma_prefixed_twice(
                            before,
                            found@,
                            env_expanded(source, end as int + 1, env),
                        );
                    }
                    output.append(found.as_str());
                },
                Err(error) => {
                    return Err(error);
                },
            }
            index = end + 1;
        } else if is_env_name_start(chars[index + 1]) {
            let name_start: usize = index + 1;
            let mut end: usize = name_start + 1;
            while end < size && is_env_name_continue(chars[end])
                invariant
                    name_start < end <= size,
                    size == chars@.len(),
                    chars@ == source,
                    name_end(source, end as int) == name_end(source, name_start + 1),
                decreases size - end,
            {
                end += 1;
            }
            let name = string_of(chars.as_slice(), name_start, end);
            match env_value(name.as_str(), value, environment) {
                Ok(found) => {
                    proof {
                        lemma_prefixed_twice(before, found@, env_expanded(source, end as int, env));
                    }
                    output.append(found.as_str());
                },
                Err(error) => {
                    return Err(error);
                },
            }
            index = end;
        } else {
            proof {
                lemma_prefixed_twice(before, seq!['$'], env_expanded(source, at + 2, env));
                assert(before.push('$') =~= before + seq!['$']);
            }
            output.push('$');
            index += 2;
        }
    }
    proof {
        assert(output@ + Seq::<char>::empty() =~= output@);
    }
    Ok(output)
}

pub open spec fn opening() -> Seq<char> {
    seq!['{', '{']
}

pub open spec fn closing() -> Seq<char> {
    seq!['}', '}']
}

/// The value of a template variable that `source` refers to.
pub open spec fn template_value_of(
    key: Seq<char>,
    source: Seq<char>,
    values: Seq<(Seq<char>, Seq<char>)>,
    environment: Seq<(Seq<char>, Seq<char>)>,
) -> Expansion {
    if has_prefix(key, "env."@) {
        let name = key.skip("env."@.len() as int);
        match lookup(environment, name) {
            Some(value) => Ok(value),
            None => Err(unset_variable(name, source)),
        }
    } else {
        match lookup(values, key) {
            Some(value) => Ok(value),
            None => Err(
                "unknown template variable `{{ "@ + key + " }}` in `"@ + source + "`"@,
            ),
        }
    }
}

/// `source` from `at` on, with each `{{ name }}` replaced by the variable's value.
pub open spec fn templates_expanded(
    source: Seq<char>,
    at: int,
    values: Seq<(Seq<char>, Seq<char>)>,
    environment: Seq<(Seq<char>, Seq<char>)>,
) -> Expansion
    decreases source.len() - at,
{
    match first_occurrence(source, opening(), at) {
        Some(start) if at >= 0 => match first_occurrence(source, closing(), start + 2) {
            Some(end) => match template_value_of(
                trimmed(source.subrange(start + 2, end)),
                source,
                values,
                environment,
            ) {
                Ok(value) => prefixed(
                    source.subrange(at, start) + value,
                    templates_expanded(source, end + 2, values, environment),
                ),
                Err(error) => Err(error),
            },
            None => Err("unterminated template variable in `"@ + source + "`"@),
        },
        _ => Ok(source.skip(at)),
    }
}

/// `source` with both kinds of references replaced, template variables first.
pub open spec fn expanded_of(
    source: Seq<char>,
    values: Seq<(Seq<char>, Seq<char>)>,
    environment: Seq<(Seq<char>, Seq<char>)>,
) -> Expansion {
    match templates_expanded(source, 0, values, environment) {
        Ok(text) => env_expanded(text, 0, environment),
        Err(error) => Err(error),
    }
}

/// What the substitutions of one task stand for.
pub struct TemplateContext {
    pub values: Vec<Pair>,
    pub environment: Vec<Pair>,
}

impl TemplateContext {
    /// Replaces the references of a text, template variables first.
    pub fn expand(&self, value: &str) -> (expanded: Result<String, String>)
        ensures
            expansion(expanded) == expanded_of(
                value@,
                entries(self.values@),
                entries(self.environment@),
            ),
    {
        match self.expand_mesh_templates(value) {
            Ok(text) => expand_env_vars(text.as_str(), &self.environment),
            Err(error) => Err(error),
        }
    }

    /// Replaces each `{{ name }}` of a text by the variable's value.
    pub fn expand_mesh_templates(&self, value: &str) -> (expanded: Result<String, String>)
        ensures
            expansion(expanded) == templates_expanded(
                value@,
                0,
                entries(self.values@),
                entries(self.environment@),
            ),
    {
        let chars = chars_of(value);
        let size: usize = chars.len();
        let open = chars_of("{{");
        let close = chars_of("}}");
        let ghost source = value@;
        let ghost values = entries(self.values@);
        let ghost env = entries(self.environment@);
        let mut output = String::new();
        let mut at: usize = 0;
        proof {
            reveal_strlit("{{");
            reveal_strlit("}}");
            assert(open@ =~= opening());
            assert(close@ =~= closing());
            if let Ok(text) = templates_expanded(source, 0, values, env) {
                assert(output@ + text =~= text);
            }
        }
        loop
            invariant
                at <= size,
                size == chars@.len(),
                chars@ == source,
                source == value@,
                open@ == opening(),
                close@ == closing(),
                values == entries(self.values@),
                env == entries(self.environment@),
                prefixed(output@, templates_expanded(source, at as int, values, env))
                    == templates_expanded(source, 0, values, env),
            decreases chars@.len() - at,
        {
            let start: usize = match find(&chars, &open, at) {
                Some(start) => start,
                None => {
                    assert(source.skip(at as int) =~= chars@.subrange(
                        at as int,
                        chars@.len() as int,
                    ));
                    let tail = string_of(chars.as_slice(), at, chars.len());
                    output.append(tail.as_str());
                    return Ok(output);
                },
            };
            let ghost before = output@;
            let end: usize = match find(&chars, &close, start + 2) {
                Some(end) => end,
                None => {
                    return Err(plus(plus("unterminated template variable in `".to_string(), value), "`"));
                },
            };
            let inner = string_of(chars.as_slice(), start + 2, end);
            let key = trim(inner.as_str());
            let literal = string_of(chars.as_slice(), at, start);
            match self.template_value(key.as_str(), value) {
                Ok(replacement) => {
                    proof {
                        lemma_prefixed_twice(
                            before,
                            literal@ + replacement@,
                            templates_expanded(source, end + 2, values, env),
                        );
                        assert((before + literal@) + replacement@ =~= before + (literal@
                            + replacement@));
                    }
                    output.append(literal.as_str());
                    output.append(replacement.as_str());
                },
                Err(error) => {
                    return Err(error);
                },
            }
            at = end + 2;
        }
    }

    fn template_value(&self, key: &str, source: &str) -> (value: Result<String, String>)
        ensures
            expansion(value) == template_value_of(
                key@,
                source@,
                entries(self.values@),
                entries(self.environment@),
            ),
    {
        match strip_prefix(key, "env.") {
            Some(name) => match find_value(&self.environment, name.as_str()) {
                Some(value) => Ok(value),
                None => Err(not_set(name.as_str(), source)),
            },
            None => match find_value(&self.values, key) {
                Some(value) => Ok(value),
                None => {
                    let opened = plus(plus("unknown template variable `{{ ".to_string(), key), " }}` in `");
                    Err(plus(plus(opened, source), "`"))
                },
            },
        }
    }
}

/// A text without `$` and without `{{` is left as it is.
pub proof fn law_plain_text_is_kept(
    source: Seq<char>,
    values: Seq<(Seq<char>, Seq<char>)>,
    environment: Seq<(Seq<char>, Seq<char>)>,
)
    requires
        !source.contains('$'),
        !occurs_from(source, opening(), 0),
    ensures
        expanded_of(source, values, environment) == Ok::<Seq<char>, Seq<char>>(source),
{
    assert(source.skip(0) =~= source);
    if first_occurrence(source, opening(), 0) is Some {
        let at = first_occurrence(source, opening(), 0)->0;
        assert(occurs_at(source, opening(), at));
    }
    lemma_no_dollar(source, 0, environment);
}

proof fn lemma_no_dollar(
    source: Seq<char>,
    at: int,
    environment: Seq<(Seq<char>, Seq<char>)>,
)
    requires
        0 <= at <= source.len(),
        !source.contains('$'),
    ensures
        env_expanded(source, at, environment) == Ok::<Seq<char>, Seq<char>>(source.skip(at)),
    decreases source.len() - at,
{
    if at < source.len() {
        assert(source.contains(source[at]));
        lemma_no_dollar(source, at + 1, environment);
        assert(seq![source[at]] + source.skip(at + 1) =~= source.skip(at));
    } else {
        assert(source.skip(at) =~= seq![]);
    }
}

/// A name that `$NAME` can spell.
pub open spec fn is_env_name(name: Seq<char>) -> bool {
    &&& name.len() > 0
    &&& is_env_start(name[0])
    &&& forall|i: int| 0 <= i < name.len() ==> is_env_continue(#[trigger] name[i])
}

/// Where a text is found in another that stands behind a head, it is found as far
/// behind the head.
proof fn lemma_found_behind(head: Seq<char>, rest: Seq<char>, needle: Seq<char>, from: int)
    requires
        0 <= from,
    ensures
        first_occurrence(head + rest, needle, head.len() + from) == match first_occurrence(
            rest,
            needle,
            from,
        ) {
            Some(at) => Some(head.len() + at),
            None => None,
        },
{
    let source = head + rest;
    let size = head.len() as int;
    assert forall|i: int| 0 <= i implies #[trigger] occurs_at(rest, needle, i) == occurs_at(
        source,
        needle,
        size + i,
    ) by {
        if i + needle.len() <= rest.len() {
            assert(source.subrange(size + i, size + i + needle.len()) =~= rest.subrange(
                i,
                i + needle.len(),
            ));
        }
    }
    match first_occurrence(rest, needle, from) {
        Some(at) => {
            assert(first_at(rest, needle, from, at));
            assert forall|i: int| size + from <= i < size + at implies !#[trigger] occurs_at(
                source,
                needle,
                i,
            ) by {
                assert(!occurs_at(rest, needle, i - size));
            }
            assert(occurs_at(source, needle, size + at));
            lemma_first_occurrence(source, needle, size + from, size + at);
        },
        None => {
            if first_occurrence(source, needle, size + from) is Some {
                let at = first_occurrence(source, needle, size + from)->0;
                assert(first_at(source, needle, size + from, at));
                assert(occurs_at(rest, needle, at - size));
                assert forall|i: int| from <= i < at - size implies !#[trigger] occurs_at(
                    rest,
                    needle,
                    i,
                ) by {
                    assert(!occurs_at(source, needle, size + i));
                }
                assert(first_at(rest, needle, from, at - size));
            }
        },
    }
}

/// The templates of a text are expanded behind a head as they are without it.
proof fn lemma_templates_behind(
    head: Seq<char>,
    rest: Seq<char>,
    at: int,
    values: Seq<(Seq<char>, Seq<char>)>,
    environment: Seq<(Seq<char>, Seq<char>)>,
)
    requires
        0 <= at <= rest.len(),
        templates_expanded(rest, at, values, environment) is Ok,
    ensures
        templates_expanded(head + rest, head.len() + at, values, environment)
            == templates_expanded(rest, at, values, environment),
    decreases rest.len() - at,
{
    let source = head + rest;
    let size = head.len() as int;
    lemma_found_behind(head, rest, opening(), at);
    match first_occurrence(rest, opening(), at) {
        Some(start) => {
            assert(first_at(rest, opening(), at, start));
            lemma_found_behind(head, rest, closing(), start + 2);
            let end = first_occurrence(rest, closing(), start + 2)->0;
            assert(first_at(rest, closing(), start + 2, end));
            assert(source.subrange(size + start + 2, size + end) =~= rest.subrange(start + 2, end));
            assert(source.subrange(size + at, size + start) =~= rest.subrange(at, start));
            lemma_templates_behind(head, rest, end + 2, values, environment);
        },
        None => {
            assert(source.skip(size + at) =~= rest.skip(at));
        },
    }
}

/// A head in which no template opens is left as it is.
proof fn lemma_templates_keep_head(
    head: Seq<char>,
    rest: Seq<char>,
    values: Seq<(Seq<char>, Seq<char>)>,
    environment: Seq<(Seq<char>, Seq<char>)>,
)
    requires
        forall|i: int| 0 <= i < head.len() ==> !#[trigger] occurs_at(head + rest, opening(), i),
        templates_expanded(rest, 0, values, environment) is Ok,
    ensures
        templates_expanded(head + rest, 0, values, environment) == prefixed(
            head,
            templates_expanded(rest, 0, values, environment),
        ),
{
    let source = head + rest;
    let size = head.len() as int;
    lemma_templates_behind(head, rest, 0, values, environment);
    match first_occurrence(source, opening(), size) {
        Some(start) => {
            assert(first_at(source, opening(), size, start));
            lemma_first_occurrence(source, opening(), 0, start);
            let end = first_occurrence(source, closing(), start + 2)->0;
            assert(source.subrange(0, start) =~= head + source.subrange(size, start));
            let value = template_value_of(
                trimmed(source.subrange(start + 2, end)),
                source,
                values,
                environment,
            );
            if let Ok(text) = value {
                lemma_prefixed_twice(
                    head,
                    source.subrange(size, start) + text,
                    templates_expanded(source, end + 2, values, environment),
                );
                assert(head + (source.subrange(size, start) + text) =~= source.subrange(0, start)
                    + text);
            }
        },
        None => {
            if first_occurrence(source, opening(), 0) is Some {
                let at = first_occurrence(source, opening(), 0)->0;
                assert(first_at(source, opening(), 0, at));
                assert(first_at(source, opening(), size, at));
            }
            assert(source.skip(0) =~= head + source.skip(size));
        },
    }
}

/// The end of a name behind a head is as far behind the head.
proof fn lemma_name_end_behind(head: Seq<char>, rest: Seq<char>, at: int)
    requires
        0 <= at <= rest.len(),
    ensures
        name_end(head + rest, head.len() + at) == head.len() + name_end(rest, at),
    decreases rest.len() - at,
{
    if at < rest.len() {
        assert((head + rest)[head.len() + at] == rest[at]);
        if is_env_continue(rest[at]) {
            lemma_name_end_behind(head, rest, at + 1);
        }
    }
}

/// The environment references of a text are expanded behind a head as they are
/// without it.
proof fn lemma_references_behind(
    head: Seq<char>,
    rest: Seq<char>,
    at: int,
    environment: Seq<(Seq<char>, Seq<char>)>,
)
    requires
        0 <= at,
        env_expanded(rest, at, environment) is Ok,
    ensures
        env_expanded(head + rest, head.len() + at, environment) == env_expanded(
            rest,
            at,
            environment,
        ),
    decreases rest.len() - at,
{
    let source = head + rest;
    let size = head.len() as int;
    if at < rest.len() {
        assert(source[size + at] == rest[at]);
        if rest[at] != '$' {
            lemma_references_behind(head, rest, at + 1, environment);
        } else if at + 1 < rest.len() {
            assert(source[size + at + 1] == rest[at + 1]);
            if rest[at + 1] == '{' {
                lemma_position_of_bounds(rest.skip(at + 2), '}');
                assert(source.skip(size + at + 2) =~= rest.skip(at + 2));
                let end = position_from(rest, '}', at + 2);
                assert(source.subrange(size + at + 2, size + end) =~= rest.subrange(at + 2, end));
                lemma_references_behind(head, rest, end + 1, environment);
            } else if is_env_start(rest[at + 1]) {
                lemma_name_end(rest, at + 2);
                lemma_name_end_behind(head, rest, at + 2);
                let end = name_end(rest, at + 2);
                assert(source.subrange(size + at + 1, size + end) =~= rest.subrange(at + 1, end));
                lemma_references_behind(head, rest, end, environment);
            } else {
                lemma_references_behind(head, rest, at + 2, environment);
            }
        }
    }
}

/// A head without `$` is left as it is.
proof fn lemma_references_keep_head(
    head: Seq<char>,
    rest: Seq<char>,
    at: int,
    environment: Seq<(Seq<char>, Seq<char>)>,
)
    requires
        0 <= at <= head.len(),
        !head.contains('$'),
        env_expanded(rest, 0, environment) is Ok,
    ensures
        env_expanded(head + rest, at, environment) == prefixed(
            head.skip(at),
            env_expanded(rest, 0, environment),
        ),
    decreases head.len() - at,
{
    let source = head + rest;
    if at < head.len() {
        assert(head.contains(head[at]));
        assert(source[at] == head[at]);
        lemma_references_keep_head(head, rest, at + 1, environment);
        lemma_prefixed_twice(
            seq![head[at]],
            head.skip(at + 1),
            env_expanded(rest, 0, environment),
        );
        assert(seq![head[at]] + head.skip(at + 1) =~= head.skip(at));
    } else {
        lemma_references_behind(head, rest, 0, environment);
        let text = env_expanded(rest, 0, environment)->Ok_0;
        assert(head.skip(at) + text =~= text);
    }
}

/// `$NAME` and `${NAME}` stand for the variable's value, and so does
/// `{{ env.NAME }}` where the value holds no `$`; the text behind the reference is
/// expanded as it is by itself. A text behind `$NAME` starts, with its templates
/// expanded, with no character of a name. A value that holds `$` has the references
/// in it expanded where `{{ env.NAME }}` stands for it.
pub proof fn law_references_agree(
    name: Seq<char>,
    value: Seq<char>,
    rest: Seq<char>,
    values: Seq<(Seq<char>, Seq<char>)>,
    environment: Seq<(Seq<char>, Seq<char>)>,
)
    requires
        is_env_name(name),
        lookup(environment, name) == Some(value),
        expanded_of(rest, values, environment) is Ok,
    ensures
        ({
            let filled = templates_expanded(rest, 0, values, environment)->Ok_0;
            let whole = prefixed(value, expanded_of(rest, values, environment));
            &&& filled.len() == 0 || !is_env_continue(filled[0]) ==> expanded_of(
                seq!['$'] + name + rest,
                values,
                environment,
            ) == whole
            &&& expanded_of(seq!['$', '{'] + name + seq!['}'] + rest, values, environment) == whole
            &&& expanded_of("{{ env."@ + name + " }}"@ + rest, values, environment)
                == env_expanded(value + filled, 0, environment)
            &&& !value.contains('$') ==> expanded_of(
                "{{ env."@ + name + " }}"@ + rest,
                values,
                environment,
            ) == whole
        }),
{
    let filled = templates_expanded(rest, 0, values, environment)->Ok_0;
    if filled.len() == 0 || !is_env_continue(filled[0]) {
        lemma_bare_reference(name, value, rest, values, environment);
    }
    lemma_braced_reference(name, value, rest, values, environment);
    lemma_template_reference(name, value, rest, values, environment);
    if !value.contains('$') {
        assert(value.skip(0) =~= value);
        lemma_references_keep_head(value, filled, 0, environment);
    }
}

proof fn lemma_name_runs_to(source: Seq<char>, at: int, end: int)
    requires
        0 <= at <= end <= source.len(),
        forall|i: int| at <= i < end ==> is_env_continue(#[trigger] source[i]),
        end < source.len() ==> !is_env_continue(source[end]),
    ensures
        name_end(source, at) == end,
    decreases end - at,
{
    if at < end {
        lemma_name_runs_to(source, at + 1, end);
    }
}

proof fn lemma_bare_reference(
    name: Seq<char>,
    value: Seq<char>,
    rest: Seq<char>,
    values: Seq<(Seq<char>, Seq<char>)>,
    environment: Seq<(Seq<char>, Seq<char>)>,
)
    requires
        is_env_name(name),
        lookup(environment, name) == Some(value),
        expanded_of(rest, values, environment) is Ok,
        ({
            let filled = templates_expanded(rest, 0, values, environment)->Ok_0;
            filled.len() == 0 || !is_env_continue(filled[0])
        }),
    ensures
        expanded_of(seq!['$'] + name + rest, values, environment) == prefixed(
            value,
            expanded_of(rest, values, environment),
        ),
{
    let head = seq!['$'] + name;
    let filled = templates_expanded(rest, 0, values, environment)->Ok_0;
    assert forall|i: int| 0 <= i < head.len() implies !#[trigger] occurs_at(
        head + rest,
        opening(),
        i,
    ) by {
        if occurs_at(head + rest, opening(), i) {
            assert((head + rest).subrange(i, i + 2)[0] == '{');
            assert((head + rest)[i] == head[i]);
            if i > 0 {
                assert(head[i] == name[i - 1]);
            }
        }
    }
    lemma_templates_keep_head(head, rest, values, environment);
    let source = head + filled;
    let size = head.len() as int;
    assert(source[0] == '$');
    assert(source[1] == name[0]);
    assert forall|i: int| 2 <= i < size implies is_env_continue(#[trigger] source[i]) by {
        assert(source[i] == name[i - 1]);
    }
    if filled.len() > 0 {
        assert(source[size] == filled[0]);
    }
    lemma_name_runs_to(source, 2, size);
    assert(source.subrange(1, size) =~= name);
    lemma_references_behind(head, filled, 0, environment);
}

proof fn lemma_braced_reference(
    name: Seq<char>,
    value: Seq<char>,
    rest: Seq<char>,
    values: Seq<(Seq<char>, Seq<char>)>,
    environment: Seq<(Seq<char>, Seq<char>)>,
)
    requires
        is_env_name(name),
        lookup(environment, name) == Some(value),
        expanded_of(rest, values, environment) is Ok,
    ensures
        expanded_of(seq!['$', '{'] + name + seq!['}'] + rest, values, environment) == prefixed(
            value,
            expanded_of(rest, values, environment),
        ),
{
    let head = seq!['$', '{'] + name + seq!['}'];
    let filled = templates_expanded(rest, 0, values, environment)->Ok_0;
    assert forall|i: int| 0 <= i < head.len() implies !#[trigger] occurs_at(
        head + rest,
        opening(),
        i,
    ) by {
        if occurs_at(head + rest, opening(), i) {
            assert((head + rest).subrange(i, i + 2)[0] == '{');
            assert((head + rest).subrange(i, i + 2)[1] == '{');
            assert((head + rest)[i] == head[i]);
            if i == 1 {
                assert((head + rest)[2] == name[0]);
            } else if 2 <= i < 2 + name.len() {
                assert(head[i] == name[i - 2]);
            }
        }
    }
    lemma_templates_keep_head(head, rest, values, environment);
    let source = head + filled;
    let size = head.len() as int;
    let tail = source.skip(2);
    assert(source[0] == '$' && source[1] == '{');
    assert forall|i: int| 0 <= i < name.len() implies #[trigger] tail[i] != '}' by {
        assert(tail[i] == name[i]);
    }
    assert(tail[name.len() as int] == '}');
    lemma_position_of(tail, '}', name.len() as int);
    assert(source.subrange(2, size - 1) =~= name);
    lemma_references_behind(head, filled, 0, environment);
}

proof fn lemma_template_reference(
    name: Seq<char>,
    value: Seq<char>,
    rest: Seq<char>,
    values: Seq<(Seq<char>, Seq<char>)>,
    environment: Seq<(Seq<char>, Seq<char>)>,
)
    requires
        is_env_name(name),
        lookup(environment, name) == Some(value),
        templates_expanded(rest, 0, values, environment) is Ok,
    ensures
        expanded_of("{{ env."@ + name + " }}"@ + rest, values, environment) == env_expanded(
            value + templates_expanded(rest, 0, values, environment)->Ok_0,
            0,
            environment,
        ),
{
    reveal_strlit("{{ env.");
    reveal_strlit(" }}");
    reveal_strlit("env.");
    let head = "{{ env."@ + name + " }}"@;
    let source = head + rest;
    let size = head.len() as int;
    let key = "env."@ + name;
    assert(source.subrange(0, 2) =~= opening());
    assert(occurs_at(source, opening(), 0));
    assert(first_at(source, opening(), 0, 0));
    lemma_first_occurrence(source, opening(), 0, 0);
    assert(source.subrange(size - 2, size) =~= closing());
    assert forall|i: int| 2 <= i < size - 2 implies !#[trigger] occurs_at(source, closing(), i) by {
        if occurs_at(source, closing(), i) {
            assert(source.subrange(i, i + 2)[0] == '}');
            assert(source[i] == '}');
            assert(source[i] == head[i]);
            if 7 <= i < 7 + name.len() {
                assert(head[i] == name[i - 7]);
            }
        }
    }
    lemma_first_occurrence(source, closing(), 2, size - 2);
    let inner = source.subrange(2, size - 2);
    assert(inner =~= seq![' '] + key + seq![' ']);
    assert(inner.drop_first() =~= key + seq![' ']);
    assert(trimmed_start(inner) == trimmed_start(key + seq![' ']));
    assert((key + seq![' '])[0] == 'e');
    assert(trimmed_start(key + seq![' ']) == key + seq![' ']);
    assert((key + seq![' ']).drop_last() =~= key);
    assert(trimmed_end(key + seq![' ']) == trimmed_end(key));
    assert(key.last() == name.last());
    assert(is_env_continue(name[name.len() - 1]));
    assert(trimmed_end(key) == key);
    assert(key.take(4) =~= "env."@);
    assert(key.skip(4) =~= name);
    lemma_templates_behind(head, rest, 0, values, environment);
    assert(source.subrange(0, 0) + value =~= value);
}

/// A name that a template can hold: it has no brace, neither starts nor ends with white
/// space, and is not that of a variable of the environment.
pub open spec fn is_template_name(key: Seq<char>) -> bool {
    &&& key.len() > 0
    &&& !key.contains('{')
    &&& !key.contains('}')
    &&& !is_white(key[0])
    &&& !is_white(key.last())
    &&& !has_prefix(key, "env."@)
}

/// `{{ name }}` stands for the value that the task has for the name, where that holds
/// no `$`, and the text behind it is expanded as it is by itself. A name that the task
/// does not have is refused.
pub proof fn law_templates_stand_for_their_values(
    context: &TemplateContext,
    key: Seq<char>,
    rest: &str,
    source: &str,
    expanded: Result<String, String>,
    after: Result<String, String>,
)
    requires
        is_template_name(key),
        source@ == "{{ "@ + key + " }}"@ + rest@,
        call_ensures(TemplateContext::expand, (context, source), expanded),
        call_ensures(TemplateContext::expand, (context, rest), after),
        after is Ok,
    ensures
        ({
            let value = lookup(entries(context.values@), key);
            &&& value is Some && !value->0.contains('$') ==> expanded is Ok && expanded->Ok_0@
                == value->0 + after->Ok_0@
            &&& value is None ==> expanded is Err
        }),
{
    let values = entries(context.values@);
    let environment = entries(context.environment@);
    lemma_template_head(key, rest@, values, environment);
    let filled = templates_expanded(rest@, 0, values, environment)->Ok_0;
    if let Some(value) = lookup(values, key) {
        if !value.contains('$') {
            assert(value.skip(0) =~= value);
            lemma_references_keep_head(value, filled, 0, environment);
        }
    }
}

proof fn lemma_template_head(
    key: Seq<char>,
    rest: Seq<char>,
    values: Seq<(Seq<char>, Seq<char>)>,
    environment: Seq<(Seq<char>, Seq<char>)>,
)
    requires
        is_template_name(key),
        templates_expanded(rest, 0, values, environment) is Ok,
    ensures
        ({
            let source = "{{ "@ + key + " }}"@ + rest;
            &&& lookup(values, key) is Some ==> templates_expanded(
                source,
                0,
                values,
                environment,
            ) == Ok::<Seq<char>, Seq<char>>(
                lookup(values, key)->0 + templates_expanded(rest, 0, values, environment)->Ok_0,
            )
            &&& lookup(values, key) is None ==> templates_expanded(
                source,
                0,
                values,
                environment,
            ) is Err
        }),
{
    reveal_strlit("{{ ");
    reveal_strlit(" }}");
    let head = "{{ "@ + key + " }}"@;
    let source = head + rest;
    let size = head.len() as int;
    assert(source.subrange(0, 2) =~= opening());
    assert(occurs_at(source, opening(), 0));
    assert(first_at(source, opening(), 0, 0));
    lemma_first_occurrence(source, opening(), 0, 0);
    assert(source.subrange(size - 2, size) =~= closing());
    assert forall|i: int| 2 <= i < size - 2 implies !#[trigger] occurs_at(source, closing(), i) by {
        if occurs_at(source, closing(), i) {
            assert(source.subrange(i, i + 2)[0] == '}');
            assert(source[i] == '}');
            assert(source[i] == head[i]);
            if 3 <= i < 3 + key.len() {
                assert(head[i] == key[i - 3]);
                assert(key.contains(key[i - 3]));
            }
        }
    }
    lemma_first_occurrence(source, closing(), 2, size - 2);
    let inner = source.subrange(2, size - 2);
    assert(inner =~= seq![' '] + key + seq![' ']);
    assert(inner.drop_first() =~= key + seq![' ']);
    assert(trimmed_start(inner) == trimmed_start(key + seq![' ']));
    assert((key + seq![' '])[0] == key[0]);
    assert(trimmed_start(key + seq![' ']) == key + seq![' ']);
    assert((key + seq![' ']).drop_last() =~= key);
    assert((key + seq![' ']).last() == ' ');
    assert(trimmed_end(key + seq![' ']) == trimmed_end(key));
    assert(trimmed_end(key) == key);
    lemma_templates_behind(head, rest, 0, values, environment);
    if let Some(value) = lookup(values, key) {
        assert(source.subrange(0, 0) + value =~= value);
    }
}

/// A variable of the environment that is not set is refused by its name, and one that
/// is set gives its value.
pub proof fn law_environment_values(
    name: &str,
    source: &str,
    environment: &Vec<Pair>,
    value: Result<String, String>,
)
    requires
        call_ensures(env_value, (name, source, environment), value),
    ensures
        value is Ok <==> name@.len() > 0 && lookup(entries(environment@), name@) is Some,
        value is Ok ==> Some(value->Ok_0@) == lookup(entries(environment@), name@),
        value is Err && name@.len() > 0 ==> has_prefix(
            value->Err_0@,
            "environment variable `"@ + name@ + "`"@,
        ),
{
    if let Err(error) = value {
        if name@.len() > 0 {
            reveal_strlit("`");
            reveal_strlit("` used in `");
            let head = "environment variable `"@ + name@ + "`"@;
            assert(error@.take(head.len() as int) =~= head);
        }
    }
}

/// The characters of which the name of a variable of the environment is made.
pub proof fn law_environment_names(c: char, starts: bool, goes_on: bool)
    requires
        call_ensures(is_env_name_start, (c,), starts),
        call_ensures(is_env_name_continue, (c,), goes_on),
    ensures
        starts <==> c == '_' || ('a' <= c <= 'z') || ('A' <= c <= 'Z'),
        goes_on <==> c == '_' || ('a' <= c <= 'z') || ('A' <= c <= 'Z') || ('0' <= c <= '9'),
{
}

} // verus!
