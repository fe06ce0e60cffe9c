//! Paths as text, with `/` between their components.

use vstd::prelude::*;

use crate::text::{chars_of, ends_with, plus, string_of};
#[allow(unused_imports)]
use crate::text::has_suffix;

verus! {

pub open spec fn is_absolute(path: Seq<char>) -> bool {
    path.len() > 0 && path[0] == '/'
}

pub fn absolute(path: &str) -> (yes: bool)
    ensures
        yes == is_absolute(path@),
{
    let chars = chars_of(path);
    chars.len() > 0 && chars[0] == '/'
}

/// A path below another. An absolute path stands for itself.
pub open spec fn joined(base: Seq<char>, path: Seq<char>) -> Seq<char> {
    if is_absolute(path) {
        path
    } else if base.len() == 0 || base.last() == '/' {
        base + path
    } else {
        base + "/"@ + path
    }
}

pub fn join(base: &str, path: &str) -> (whole: String)
    ensures
        whole@ == joined(base@, path@),
{
    if absolute(path) {
        return path.to_string();
    }
    let chars = chars_of(base);
    if chars.len() == 0 || chars[chars.len() - 1] == '/' {
        plus(base.to_string(), path)
    } else {
        plus(plus(base.to_string(), "/"), path)
    }
}

/// The length of what stands before a path's first named component: the root
/// slash, or a leading `.`.
pub open spec fn head_length(path: Seq<char>) -> int {
    if is_absolute(path) {
        1
    } else if path.len() > 0 && path[0] == '.' && (path.len() == 1 || path[1] == '/') {
        1
    } else {
        0
    }
}

/// The length of the first `upto` characters of a path without the slashes and
/// `.` components at their end.
pub open spec fn trimmed_length(path: Seq<char>, upto: int) -> int
    decreases upto,
{
    let head = head_length(path);
    if upto <= head || upto > path.len() {
        upto
    } else if path[upto - 1] == '/' {
        trimmed_length(path, upto - 1)
    } else if path[upto - 1] == '.' && (upto - 1 == head || path[upto - 2] == '/') {
        trimmed_length(path, upto - 1)
    } else {
        upto
    }
}

/// Where the component that ends before `end` starts.
pub open spec fn component_start(path: Seq<char>, end: int) -> int
    decreases end,
{
    if end <= head_length(path) || end > path.len() || path[end - 1] == '/' {
        end
    } else {
        component_start(path, end - 1)
    }
}

/// The last component of a path, unless that is the root, `.` or `..`.
pub open spec fn file_name_of(path: Seq<char>) -> Option<Seq<char>> {
    let end = trimmed_length(path, path.len() as int);
    let start = component_start(path, end);
    if end <= head_length(path) || path.subrange(start, end) == seq!['.', '.'] {
        None
    } else {
        Some(path.subrange(start, end))
    }
}

/// A path without its last component. The root has none to drop, nor has the
/// empty path.
pub open spec fn parent_of(path: Seq<char>) -> Option<Seq<char>> {
    let end = trimmed_length(path, path.len() as int);
    if end <= head_length(path) {
        if path.len() == 0 || is_absolute(path) {
            None
        } else {
            Some(seq![])
        }
    } else {
        Some(path.take(trimmed_length(path, component_start(path, end))))
    }
}

fn head(chars: &Vec<char>) -> (length: usize)
    ensures
        length == head_length(chars@),
        length <= chars@.len(),
{
    if chars.len() > 0 && chars[0] == '/' {
        1
    } else if chars.len() > 0 && chars[0] == '.' && (chars.len() == 1 || chars[1] == '/') {
        1
    } else {
        0
    }
}

fn trim_components(chars: &Vec<char>, upto: usize) -> (length: usize)
    requires
        upto <= chars@.len(),
    ensures
        length == trimmed_length(chars@, upto as int),
        length <= upto,
        head_length(chars@) <= upto ==> head_length(chars@) <= length,
{
    let start: usize = head(chars);
    let mut end: usize = upto;
    while end > start && (chars[end - 1] == '/' || (chars[end - 1] == '.' && (end - 1 == start
        || chars[end - 2] == '/')))
        invariant
            end <= upto <= chars@.len(),
            start == head_length(chars@),
            start <= upto ==> start <= end,
            trimmed_length(chars@, end as int) == trimmed_length(chars@, upto as int),
        decreases end,
    {
        end -= 1;
    }
    end
}

fn start_of_component(chars: &Vec<char>, end: usize) -> (start: usize)
    requires
        head_length(chars@) <= end <= chars@.len(),
    ensures
        start == component_start(chars@, end as int),
        head_length(chars@) <= start <= end,
{
    let first: usize = head(chars);
    let mut start: usize = end;
    while start > first && chars[start - 1] != '/'
        invariant
            first == head_length(chars@),
            first <= start <= end <= chars@.len(),
            component_start(chars@, start as int) == component_start(chars@, end as int),
        decreases start,
    {
        start -= 1;
    }
    start
}

pub fn file_name(path: &str) -> (name: Option<String>)
    ensures
        crate::json::optional_chars(name) == file_name_of(path@),
{
    let chars = chars_of(path);
    let first: usize = head(&chars);
    let end: usize = trim_components(&chars, chars.len());
    if end <= first {
        return None;
    }
    let start: usize = start_of_component(&chars, end);
    let ghost component = path@.subrange(start as int, end as int);
    if end - start == 2 && chars[start] == '.' && chars[start + 1] == '.' {
        assert(component =~= seq!['.', '.']);
        return None;
    }
    assert(component != seq!['.', '.']) by {
        if component == seq!['.', '.'] {
            assert(component.len() == 2);
            assert(component[0] == '.' && component[1] == '.');
        }
    }
    Some(string_of(chars.as_slice(), start, end))
}

pub fn parent(path: &str) -> (above: Option<String>)
    ensures
        crate::json::optional_chars(above) == parent_of(path@),
{
    let chars = chars_of(path);
    let first: usize = head(&chars);
    let end: usize = trim_components(&chars, chars.len());
    if end <= first {
        if chars.len() == 0 || chars[0] == '/' {
            return None;
        }
        return Some(String::new());
    }
    let start: usize = start_of_component(&chars, end);
    let length: usize = trim_components(&chars, start);
    assert(path@.take(length as int) =~= path@.subrange(0, length as int));
    Some(string_of(chars.as_slice(), 0, length))
}

/// A file name with `json` behind its last dot, and something before that dot.
pub open spec fn is_json_name(name: Seq<char>) -> bool {
    has_suffix(name, ".json"@) && name.len() > ".json"@.len()
}

/// The path names a file with the extension `json`.
pub open spec fn has_json_extension(path: Seq<char>) -> bool {
    match file_name_of(path) {
        Some(name) => is_json_name(name),
        None => false,
    }
}

pub fn json_extension(path: &str) -> (yes: bool)
    ensures
        yes == has_json_extension(path@),
{
    match file_name(path) {
        Some(name) => {
            proof {
                reveal_strlit(".json");
            }
            ends_with(name.as_str(), ".json") && chars_of(name.as_str()).len() > 5
        },
        None => false,
    }
}

/// One component: a name without a slash that is neither nothing nor `.` nor `..`.
pub open spec fn is_component(name: Seq<char>) -> bool {
    &&& name.len() > 0
    &&& !name.contains('/')
    &&& name != seq!['.']
    &&& name != seq!['.', '.']
}

proof fn lemma_component_start(path: Seq<char>, start: int, end: int)
    requires
        head_length(path) <= start <= end <= path.len(),
        start == head_length(path) || path[start - 1] == '/',
        forall|i: int| start <= i < end ==> path[i] != '/',
    ensures
        component_start(path, end) == start,
    decreases end,
{
    if end > start {
        lemma_component_start(path, start, end - 1);
    }
}

proof fn lemma_trimming_shortens(path: Seq<char>, upto: int)
    ensures
        trimmed_length(path, upto) <= upto,
    decreases upto,
{
    if upto > head_length(path) && upto <= path.len() {
        lemma_trimming_shortens(path, upto - 1);
    }
}

proof fn lemma_same_trimming(path: Seq<char>, other: Seq<char>, upto: int)
    requires
        0 <= upto <= path.len(),
        upto <= other.len(),
        head_length(path) == head_length(other),
        forall|i: int| 0 <= i < upto ==> path[i] == other[i],
    ensures
        trimmed_length(path, upto) == trimmed_length(other, upto),
    decreases upto,
{
    if upto > head_length(path) {
        lemma_same_trimming(path, other, upto - 1);
    }
}

/// A component that is put below a path is the last of the whole, and what stands
/// above it is the path, where that ends on no slash and no `.`.
pub proof fn law_component_below_a_path(base: &str, name: &str, whole: String)
    requires
        call_ensures(join, (base, name), whole),
        is_component(name@),
    ensures
        file_name_of(whole@) == Some(name@),
        base@.len() > 0 && trimmed_length(base@, base@.len() as int) == base@.len() ==> parent_of(
            whole@,
        ) == Some(base@),
{
    let path = whole@;
    let end = path.len() as int;
    let start = end - name@.len();
    reveal_strlit("/");
    assert(!is_absolute(name@)) by {
        if is_absolute(name@) {
            assert(name@.contains(name@[0]));
        }
    }
    assert forall|i: int| start <= i < end implies path[i] != '/' by {
        assert(path[i] == name@[i - start]);
        assert(name@.contains(name@[i - start]));
    }
    assert(path.subrange(start, end) =~= name@);
    assert(name@.len() == 1 ==> name@[0] != '.') by {
        if name@.len() == 1 && name@[0] == '.' {
            assert(name@ =~= seq!['.']);
        }
    }
    assert(path[end - 1] == name@[name@.len() - 1]);
    assert(name@.len() > 1 ==> path[end - 2] == name@[name@.len() - 2]);
    assert(head_length(path) <= start);
    assert(trimmed_length(path, end) == end);
    lemma_component_start(path, start, end);
    if base@.len() > 0 && trimmed_length(base@, base@.len() as int) == base@.len() {
        let length = base@.len() as int;
        assert(forall|i: int| 0 <= i < length ==> path[i] == base@[i]);
        assert(head_length(path) == head_length(base@));
        lemma_same_trimming(path, base@, length);
        if base@.last() == '/' {
            lemma_trimming_shortens(base@, length - 1);
            assert(base@.len() == 1);
            assert(start == length);
        } else {
            assert(start == length + 1);
            assert(path[start - 1] == '/');
        }
        assert(path.take(length) =~= base@);
    }
}

/// A path below another starts with it and ends on what was put there, and an absolute
/// one stands for itself.
pub proof fn law_joined_path(base: &str, path: &str, whole: String)
    requires
        call_ensures(join, (base, path), whole),
    ensures
        has_suffix(whole@, path@),
        is_absolute(path@) ==> whole@ == path@,
        !is_absolute(path@) ==> whole@.len() >= base@.len() + path@.len() && whole@.take(
            base@.len() as int,
        ) == base@,
        !is_absolute(path@) && base@.len() > 0 ==> whole@[whole@.len() - path@.len() - 1] == '/',
        is_absolute(base@) ==> is_absolute(whole@),
{
    reveal_strlit("/");
    assert(whole@.skip(whole@.len() - path@.len()) =~= path@);
    if !is_absolute(path@) {
        assert(whole@.take(base@.len() as int) =~= base@);
        if base@.len() > 0 {
            assert(whole@[0] == base@[0]);
        }
    }
}

} // verus!
