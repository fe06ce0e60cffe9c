//! Text rules shared by the library: character classes, trimming, searching,
//! splitting, ordering and decimal numerals, all over sequences of characters.

use vstd::prelude::*;
use vstd::string::StringExecFns;

verus! {

/// `String::push` appends one character.
pub assume_specification[ String::push ](s: &mut String, c: char)
    ensures
        final(s)@ == old(s)@.push(c),
;

/// Whether two texts have the same characters.
pub(crate) fn same_text(left: &str, right: &str) -> (same: bool)
    ensures
        same == (left@ == right@),
{
    let a = chars_of(left);
    let b = chars_of(right);
    if a.len() != b.len() {
        return false;
    }
    let mut i: usize = 0;
    while i < a.len()
        invariant
            a@ == left@,
            b@ == right@,
            i <= a@.len(),
            a@.len() == b@.len(),
            forall|k: int| 0 <= k < i ==> a@[k] == b@[k],
        decreases a@.len() - i,
    {
        if a[i] != b[i] {
            return false;
        }
        i += 1;
    }
    assert(left@ =~= right@);
    true
}

/// A text with another behind it.
pub fn plus(text: String, more: &str) -> (whole: String)
    ensures
        whole@ == text@ + more@,
{
    let mut whole = text;
    whole.append(more);
    whole
}

/// The characters of a text, in order.
pub fn chars_of(text: &str) -> (chars: Vec<char>)
    ensures
        chars@ == text@,
{
    let mut chars: Vec<char> = Vec::new();
    for c in it: text.chars()
        invariant
            it.seq() == text@,
            chars@ == text@.take(it.index() as int),
    {
        chars.push(c);
        assert(text@.take(it.index() as int + 1) =~= text@.take(it.index() as int).push(c));
    }
    assert(text@.take(text@.len() as int) =~= text@);
    chars
}

/// The text spelled by a run of characters.
pub fn string_of(chars: &[char], from: usize, to: usize) -> (text: String)
    requires
        from <= to <= chars@.len(),
    ensures
        text@ == chars@.subrange(from as int, to as int),
{
    let mut text = String::new();
    let mut i: usize = from;
    while i < to
        invariant
            from <= i <= to <= chars@.len(),
            text@ == chars@.subrange(from as int, i as int),
        decreases to - i,
    {
        text.push(chars[i]);
        assert(chars@.subrange(from as int, i as int + 1) =~= chars@.subrange(
            from as int,
            i as int,
        ).push(chars@[i as int]));
        i += 1;
    }
    text
}

/// The characters with Unicode's `White_Space` property.
pub open spec fn is_white(c: char) -> bool {
    ||| '\u{9}' <= c <= '\u{d}'
    ||| c == '\u{20}' || c == '\u{85}' || c == '\u{a0}' || c == '\u{1680}'
    ||| '\u{2000}' <= c <= '\u{200a}'
    ||| c == '\u{2028}' || c == '\u{2029}' || c == '\u{202f}' || c == '\u{205f}'
    ||| c == '\u{3000}'
}

pub fn is_whitespace(c: char) -> (white: bool)
    ensures
        white == is_white(c),
{
    ('\u{9}' <= c && c <= '\u{d}') || c == '\u{20}' || c == '\u{85}' || c == '\u{a0}' || c
        == '\u{1680}' || ('\u{2000}' <= c && c <= '\u{200a}') || c == '\u{2028}' || c == '\u{2029}'
        || c == '\u{202f}' || c == '\u{205f}' || c == '\u{3000}'
}

pub open spec fn is_digit(c: char) -> bool {
    '0' <= c <= '9'
}

pub open spec fn is_letter(c: char) -> bool {
    ('a' <= c <= 'z') || ('A' <= c <= 'Z')
}

/// The characters that may stand in an agent id or a sanitized path component.
pub open spec fn is_id_char(c: char) -> bool {
    is_letter(c) || is_digit(c) || c == '-' || c == '_'
}

pub fn is_ascii_digit(c: char) -> (yes: bool)
    ensures
        yes == is_digit(c),
{
    '0' <= c && c <= '9'
}

pub fn is_ascii_letter(c: char) -> (yes: bool)
    ensures
        yes == is_letter(c),
{
    ('a' <= c && c <= 'z') || ('A' <= c && c <= 'Z')
}

pub fn is_id_character(c: char) -> (yes: bool)
    ensures
        yes == is_id_char(c),
{
    is_ascii_letter(c) || is_ascii_digit(c) || c == '-' || c == '_'
}

/// A text of white space only, or no text at all.
pub open spec fn is_blank(text: Seq<char>) -> bool {
    forall|i: int| 0 <= i < text.len() ==> is_white(#[trigger] text[i])
}

pub fn blank(text: &str) -> (yes: bool)
    ensures
        yes == is_blank(text@),
{
    let chars = chars_of(text);
    let mut i: usize = 0;
    while i < chars.len()
        invariant
            i <= chars@.len(),
            chars@ == text@,
            forall|j: int| 0 <= j < i ==> is_white(#[trigger] chars@[j]),
        decreases chars@.len() - i,
    {
        if !is_whitespace(chars[i]) {
            assert(!is_white(text@[i as int]));
            return false;
        }
        i += 1;
    }
    true
}

/// A text without its leading white space.
pub open spec fn trimmed_start(text: Seq<char>) -> Seq<char>
    decreases text.len(),
{
    if text.len() > 0 && is_white(text[0]) {
        trimmed_start(text.drop_first())
    } else {
        text
    }
}

/// A text without its trailing white space.
pub open spec fn trimmed_end(text: Seq<char>) -> Seq<char>
    decreases text.len(),
{
    if text.len() > 0 && is_white(text.last()) {
        trimmed_end(text.drop_last())
    } else {
        text
    }
}

/// A text without white space at either end.
pub open spec fn trimmed(text: Seq<char>) -> Seq<char> {
    trimmed_end(trimmed_start(text))
}

pub fn trim_start(text: &str) -> (rest: String)
    ensures
        rest@ == trimmed_start(text@),
{
    let chars = chars_of(text);
    let mut i: usize = 0;
    assert(text@.skip(0) =~= text@);
    while i < chars.len() && is_whitespace(chars[i])
        invariant
            i <= chars@.len(),
            chars@ == text@,
            trimmed_start(text@.skip(i as int)) == trimmed_start(text@),
        decreases chars@.len() - i,
    {
        assert(text@.skip(i as int).drop_first() =~= text@.skip(i as int + 1));
        i += 1;
    }
    assert(text@.skip(i as int) =~= chars@.subrange(i as int, chars@.len() as int));
    string_of(chars.as_slice(), i, chars.len())
}

pub fn trim_end(text: &str) -> (rest: String)
    ensures
        rest@ == trimmed_end(text@),
{
    let chars = chars_of(text);
    let mut i: usize = chars.len();
    assert(text@.take(i as int) =~= text@);
    while i > 0 && is_whitespace(chars[i - 1])
        invariant
            i <= chars@.len(),
            chars@ == text@,
            trimmed_end(text@.take(i as int)) == trimmed_end(text@),
        decreases i,
    {
        assert(text@.take(i as int).drop_last() =~= text@.take(i as int - 1));
        i -= 1;
    }
    assert(text@.take(i as int) =~= chars@.subrange(0, i as int));
    string_of(chars.as_slice(), 0, i)
}

pub fn trim(text: &str) -> (rest: String)
    ensures
        rest@ == trimmed(text@),
{
    let tail = trim_start(text);
    trim_end(tail.as_str())
}

/// `needle` stands in `text` from position `at` on.
pub open spec fn occurs_at(text: Seq<char>, needle: Seq<char>, at: int) -> bool {
    &&& 0 <= at
    &&& at + needle.len() <= text.len()
    &&& text.subrange(at, at + needle.len()) == needle
}

/// `needle` stands in `text` from position `from` on or later.
pub open spec fn occurs_from(text: Seq<char>, needle: Seq<char>, from: int) -> bool {
    exists|i: int| from <= i && #[trigger] occurs_at(text, needle, i)
}

/// `at` is the first position, not before `from`, where `needle` stands in `text`.
pub open spec fn first_at(text: Seq<char>, needle: Seq<char>, from: int, at: int) -> bool {
    &&& from <= at
    &&& occurs_at(text, needle, at)
    &&& forall|i: int| from <= i < at ==> !#[trigger] occurs_at(text, needle, i)
}

/// The first position, not before `from`, where `needle` stands in `text`, if it
/// stands there at all.
pub open spec fn first_occurrence(text: Seq<char>, needle: Seq<char>, from: int) -> Option<int> {
    if exists|at: int| first_at(text, needle, from, at) {
        Some(choose|at: int| first_at(text, needle, from, at))
    } else {
        None
    }
}

pub proof fn lemma_first_occurrence(text: Seq<char>, needle: Seq<char>, from: int, at: int)
    requires
        first_at(text, needle, from, at),
    ensures
        first_occurrence(text, needle, from) == Some(at),
{
    let chosen = choose|at: int| first_at(text, needle, from, at);
    assert(chosen == at);
}

fn matches_at(text: &Vec<char>, needle: &Vec<char>, at: usize) -> (yes: bool)
    requires
        at + needle@.len() <= text@.len(),
    ensures
        yes == occurs_at(text@, needle@, at as int),
{
    let size: usize = text.len();
    let mut k: usize = 0;
    while k < needle.len()
        invariant
            k <= needle@.len(),
            size == text@.len(),
            at + needle@.len() <= text@.len(),
            forall|j: int| 0 <= j < k ==> #[trigger] needle@[j] == text@[at + j],
        decreases needle@.len() - k,
    {
        if text[at + k] != needle[k] {
            assert(text@.subrange(at as int, at + needle@.len())[k as int] != needle@[k as int]);
            return false;
        }
        k += 1;
    }
    assert(text@.subrange(at as int, at + needle@.len()) =~= needle@);
    true
}

/// The first position, not before `from`, where `needle` stands in `text`.
pub fn find(text: &Vec<char>, needle: &Vec<char>, from: usize) -> (found: Option<usize>)
    requires
        from <= text@.len(),
    ensures
        match found {
            Some(at) => {
                &&& first_at(text@, needle@, from as int, at as int)
                &&& first_occurrence(text@, needle@, from as int) == Some(at as int)
            },
            None => {
                &&& !occurs_from(text@, needle@, from as int)
                &&& first_occurrence(text@, needle@, from as int) is None
            },
        },
{
    if needle.len() > text.len() {
        return None;
    }
    let last: usize = text.len() - needle.len();
    let mut at: usize = from;
    while at <= last
        invariant
            from <= at <= text@.len(),
            last == text@.len() - needle@.len(),
            forall|i: int| from <= i < at ==> !#[trigger] occurs_at(text@, needle@, i),
        decreases text@.len() - at,
    {
        if matches_at(text, needle, at) {
            proof {
                lemma_first_occurrence(text@, needle@, from as int, at as int);
            }
            return Some(at);
        }
        if at == text.len() {
            return None;
        }
        at += 1;
    }
    None
}

pub open spec fn has_prefix(text: Seq<char>, prefix: Seq<char>) -> bool {
    prefix.len() <= text.len() && text.take(prefix.len() as int) == prefix
}

pub open spec fn has_suffix(text: Seq<char>, suffix: Seq<char>) -> bool {
    suffix.len() <= text.len() && text.skip(text.len() - suffix.len()) == suffix
}

pub fn ends_with(text: &str, suffix: &str) -> (yes: bool)
    ensures
        yes == has_suffix(text@, suffix@),
{
    let chars = chars_of(text);
    let tail = chars_of(suffix);
    if tail.len() > chars.len() {
        return false;
    }
    let at: usize = chars.len() - tail.len();
    assert(text@.skip(at as int) =~= text@.subrange(at as int, at + tail@.len()));
    matches_at(&chars, &tail, at)
}

/// What follows `prefix` in `text`, where `text` starts with it.
pub fn strip_prefix(text: &str, prefix: &str) -> (rest: Option<String>)
    ensures
        match rest {
            Some(tail) => has_prefix(text@, prefix@) && tail@ == text@.skip(prefix@.len() as int),
            None => !has_prefix(text@, prefix@),
        },
{
    let chars = chars_of(text);
    let head = chars_of(prefix);
    if head.len() > chars.len() {
        return None;
    }
    assert(text@.take(head@.len() as int) =~= text@.subrange(0, head@.len() as int));
    if matches_at(&chars, &head, 0) {
        assert(text@.skip(head@.len() as int) =~= chars@.subrange(
            head@.len() as int,
            chars@.len() as int,
        ));
        Some(string_of(chars.as_slice(), head.len(), chars.len()))
    } else {
        None
    }
}

/// A line without the carriage return of a CR LF line ending.
pub open spec fn without_carriage_return(line: Seq<char>) -> Seq<char> {
    if line.len() > 0 && line.last() == '\r' {
        line.drop_last()
    } else {
        line
    }
}

/// The position of the first `c` in a text, or the text's length.
pub open spec fn position_of(text: Seq<char>, c: char) -> int
    decreases text.len(),
{
    if text.len() == 0 || text[0] == c {
        0
    } else {
        1 + position_of(text.drop_first(), c)
    }
}

pub proof fn lemma_position_of(text: Seq<char>, c: char, at: int)
    requires
        0 <= at <= text.len(),
        forall|i: int| 0 <= i < at ==> #[trigger] text[i] != c,
        at < text.len() ==> text[at] == c,
    ensures
        position_of(text, c) == at,
    decreases text.len(),
{
    if at > 0 {
        let rest = text.drop_first();
        assert forall|i: int| 0 <= i < at - 1 implies #[trigger] rest[i] != c by {
            assert(rest[i] == text[i + 1]);
        }
        lemma_position_of(rest, c, at - 1);
    }
}

pub proof fn lemma_position_of_bounds(text: Seq<char>, c: char)
    ensures
        0 <= position_of(text, c) <= text.len(),
        position_of(text, c) < text.len() ==> text[position_of(text, c)] == c,
        forall|i: int| 0 <= i < position_of(text, c) ==> #[trigger] text[i] != c,
    decreases text.len(),
{
    if text.len() > 0 && text[0] != c {
        let rest = text.drop_first();
        lemma_position_of_bounds(rest, c);
        assert forall|i: int| 0 <= i < position_of(text, c) implies #[trigger] text[i] != c by {
            if i > 0 {
                assert(text[i] == rest[i - 1]);
            }
        }
    }
}

/// The lines of a text. A line ends at LF or CR LF, which is not part of it;
/// the last line may go without.
pub open spec fn lines_of(text: Seq<char>) -> Seq<Seq<char>>
    decreases text.len(),
{
    let end = position_of(text, '\n');
    if text.len() == 0 {
        seq![]
    } else if end < 0 || end >= text.len() {
        seq![text]
    } else {
        seq![without_carriage_return(text.take(end))] + lines_of(text.skip(end + 1))
    }
}

/// The characters of each text in a list.
pub open spec fn texts(list: Seq<String>) -> Seq<Seq<char>> {
    list.map_values(|text: String| text@)
}

pub fn lines(text: &str) -> (found: Vec<String>)
    ensures
        texts(found@) == lines_of(text@),
{
    let chars = chars_of(text);
    let mut found: Vec<String> = Vec::new();
    let mut start: usize = 0;
    let mut i: usize = 0;
    assert(text@.skip(0) =~= text@);
    assert(texts(found@) + lines_of(text@) =~= lines_of(text@));
    while i < chars.len()
        invariant
            start <= i <= chars@.len(),
            chars@ == text@,
            forall|j: int| start <= j < i ==> #[trigger] chars@[j] != '\n',
            texts(found@) + lines_of(text@.skip(start as int)) == lines_of(text@),
        decreases chars@.len() - i,
    {
        if chars[i] == '\n' {
            let ghost rest = text@.skip(start as int);
            proof {
                assert forall|j: int| 0 <= j < i - start implies #[trigger] rest[j] != '\n' by {
                    assert(rest[j] == chars@[start + j]);
                }
                lemma_position_of(rest, '\n', i - start);
                assert(rest.take(i - start) =~= chars@.subrange(start as int, i as int));
                assert(rest.skip(i - start + 1) =~= text@.skip(i as int + 1));
            }
            let end: usize = if start < i && chars[i - 1] == '\r' {
                i - 1
            } else {
                i
            };
            let line = string_of(chars.as_slice(), start, end);
            let ghost before = found@;
            found.push(line);
            proof {
                assert(line@ =~= without_carriage_return(rest.take(i - start)));
                assert(texts(found@) =~= texts(before).push(line@));
                assert(texts(found@) + lines_of(text@.skip(i as int + 1)) =~= texts(before) + (
                seq![line@] + lines_of(text@.skip(i as int + 1))));
            }
            start = i + 1;
        }
        i += 1;
    }
    let ghost rest = text@.skip(start as int);
    if start < chars.len() {
        proof {
            assert forall|j: int| 0 <= j < rest.len() implies #[trigger] rest[j] != '\n' by {
                assert(rest[j] == chars@[start + j]);
            }
            lemma_position_of(rest, '\n', rest.len() as int);
            assert(rest =~= chars@.subrange(start as int, chars@.len() as int));
        }
        let ghost before = found@;
        let line = string_of(chars.as_slice(), start, chars.len());
        found.push(line);
        proof {
            assert(texts(found@) =~= texts(before) + seq![rest]);
        }
    } else {
        assert(texts(found@) + lines_of(rest) =~= texts(found@));
    }
    found
}

/// Some texts with a separator between each and the next.
pub open spec fn separated(list: Seq<Seq<char>>, separator: Seq<char>) -> Seq<char>
    decreases list.len(),
{
    if list.len() == 0 {
        seq![]
    } else if list.len() == 1 {
        list[0]
    } else {
        separated(list.drop_last(), separator) + separator + list.last()
    }
}

pub fn separate(list: &Vec<String>, separator: &str) -> (whole: String)
    ensures
        whole@ == separated(texts(list@), separator@),
{
    let ghost all = texts(list@);
    let mut whole = String::new();
    let mut i: usize = 0;
    assert(all.take(0) =~= Seq::<Seq<char>>::empty());
    assert(whole@ =~= Seq::<char>::empty());
    while i < list.len()
        invariant
            i <= list@.len(),
            all == texts(list@),
            whole@ == separated(all.take(i as int), separator@),
        decreases list@.len() - i,
    {
        proof {
            assert(all.take(i as int + 1).drop_last() =~= all.take(i as int));
            assert(all.take(i as int + 1).last() == list@[i as int]@);
        }
        if i == 0 {
            whole = list[i].clone();
        } else {
            whole = plus(plus(whole, separator), list[i].as_str());
        }
        i += 1;
    }
    assert(all.take(i as int) =~= all);
    whole
}

pub open spec fn digit_char(digit: int) -> char {
    ('0' as int + digit) as char
}

/// The decimal numeral of a number.
pub open spec fn decimal(n: nat) -> Seq<char>
    decreases n,
{
    if n < 10 {
        seq![digit_char(n as int)]
    } else {
        decimal(n / 10).push(digit_char((n % 10) as int))
    }
}

/// The decimal numeral of an integer, with a minus sign where it is negative.
pub open spec fn signed_decimal(n: int) -> Seq<char> {
    if n < 0 {
        seq!['-'] + decimal((-n) as nat)
    } else {
        decimal(n as nat)
    }
}

fn digit_of(digit: u8) -> (c: char)
    requires
        digit < 10,
    ensures
        c == digit_char(digit as int),
{
    (48u8 + digit) as char
}

pub fn decimal_text(n: u128) -> (numeral: String)
    ensures
        numeral@ == decimal(n as nat),
    decreases n,
{
    if n < 10 {
        let mut numeral = String::new();
        numeral.push(digit_of(n as u8));
        numeral
    } else {
        let mut numeral = decimal_text(n / 10);
        numeral.push(digit_of((n % 10) as u8));
        numeral
    }
}

pub fn signed_decimal_text(n: i64) -> (numeral: String)
    ensures
        numeral@ == signed_decimal(n as int),
{
    if n < 0 {
        let mut numeral = String::new();
        numeral.push('-');
        let magnitude: i128 = -(n as i128);
        let digits = decimal_text(magnitude as u128);
        assert(numeral@ =~= seq!['-']);
        numeral.append(digits.as_str());
        numeral
    } else {
        decimal_text(n as u128)
    }
}

pub open spec fn all_digits(text: Seq<char>) -> bool {
    forall|i: int| 0 <= i < text.len() ==> is_digit(#[trigger] text[i])
}

/// The number that a run of digits spells.
pub open spec fn digits_value(text: Seq<char>) -> nat
    decreases text.len(),
{
    if text.len() == 0 {
        0
    } else {
        digits_value(text.drop_last()) * 10 + (text.last() as int - '0' as int) as nat
    }
}

/// A numeral without the plus sign that may stand before it.
pub open spec fn unsigned_part(text: Seq<char>) -> Seq<char> {
    if text.len() > 0 && text[0] == '+' {
        text.drop_first()
    } else {
        text
    }
}

/// The number that a text spells: an optional plus sign and then digits only,
/// where the number fits a `usize`.
pub open spec fn parsed_usize(text: Seq<char>) -> Option<usize> {
    let digits = unsigned_part(text);
    if digits.len() == 0 || !all_digits(digits) || digits_value(digits) > usize::MAX {
        None
    } else {
        Some(digits_value(digits) as usize)
    }
}

proof fn lemma_digits_value_grows(text: Seq<char>, upto: int)
    requires
        0 <= upto <= text.len(),
    ensures
        digits_value(text.take(upto)) <= digits_value(text),
    decreases text.len() - upto,
{
    if upto < text.len() {
        lemma_digits_value_grows(text, upto + 1);
        assert(text.take(upto + 1).drop_last() =~= text.take(upto));
    } else {
        assert(text.take(upto) =~= text);
    }
}

pub fn parse_usize(text: &str) -> (number: Option<usize>)
    ensures
        number == parsed_usize(text@),
{
    let chars = chars_of(text);
    let start: usize = if chars.len() > 0 && chars[0] == '+' {
        1
    } else {
        0
    };
    let ghost digits = unsigned_part(text@);
    assert(digits =~= text@.skip(start as int));
    if start == chars.len() {
        return None;
    }
    let mut value: usize = 0;
    let mut i: usize = start;
    assert(digits.take(0) =~= Seq::<char>::empty());
    while i < chars.len()
        invariant
            start <= i <= chars@.len(),
            start < chars@.len(),
            chars@ == text@,
            digits == unsigned_part(text@),
            digits == text@.skip(start as int),
            all_digits(digits.take(i - start)),
            value == digits_value(digits.take(i - start)),
        decreases chars@.len() - i,
    {
        let c = chars[i];
        assert(digits[i - start] == c);
        if !is_ascii_digit(c) {
            return None;
        }
        let digit: usize = c as usize - 48;
        proof {
            let next = digits.take(i - start + 1);
            assert(next.drop_last() =~= digits.take(i - start));
            assert(next.last() == c);
            lemma_digits_value_grows(digits, i - start + 1);
        }
        let scaled: usize = match value.checked_mul(10) {
            Some(scaled) => scaled,
            None => {
                return None;
            },
        };
        value = match scaled.checked_add(digit) {
            Some(sum) => sum,
            None => {
                return None;
            },
        };
        assert forall|j: int| 0 <= j < i - start + 1 implies is_digit(
            #[trigger] digits.take(i - start + 1)[j],
        ) by {
            if j < i - start {
                assert(digits.take(i - start)[j] == digits.take(i - start + 1)[j]);
            }
        }
        i += 1;
    }
    assert(digits.take(chars@.len() - start) =~= digits);
    Some(value)
}

/// Reading back the numeral of a number gives the number.
pub proof fn law_numeral_reads_back(n: usize)
    ensures
        parsed_usize(decimal(n as nat)) == Some(n),
{
    lemma_decimal(n as nat);
    assert(decimal(n as nat)[0] != '+');
}

/// A numeral is a non-empty run of digits that spells its number.
pub proof fn lemma_decimal(n: nat)
    ensures
        decimal(n).len() > 0,
        all_digits(decimal(n)),
        digits_value(decimal(n)) == n,
    decreases n,
{
    if n < 10 {
        assert(decimal(n).drop_last() =~= Seq::<char>::empty());
        assert(digits_value(decimal(n).drop_last()) == 0);
    } else {
        lemma_decimal(n / 10);
        assert(decimal(n).drop_last() =~= decimal(n / 10));
        assert forall|i: int| 0 <= i < decimal(n).len() implies is_digit(
            #[trigger] decimal(n)[i],
        ) by {
            if i < decimal(n / 10).len() {
                assert(decimal(n)[i] == decimal(n / 10)[i]);
            }
        }
    }
}

/// Trimming takes away white space at the ends and nothing else: what is left is a run
/// of the text that neither starts nor ends with white space, and all that stood around
/// it is white.
pub proof fn law_trimming(text: &str, rest: String)
    requires
        call_ensures(trim, (text,), rest),
    ensures
        exists|from: int, to: int|
            {
                &&& 0 <= from <= to <= text@.len()
                &&& rest@ == #[trigger] text@.subrange(from, to)
                &&& is_blank(text@.take(from))
                &&& is_blank(text@.skip(to))
            },
        rest@.len() > 0 ==> !is_white(rest@[0]) && !is_white(rest@.last()),
        is_blank(text@) ==> rest@.len() == 0,
{
    let from = lemma_trimmed_start(text@);
    let tail = trimmed_start(text@);
    let length = lemma_trimmed_end(tail);
    let to = from + length;
    assert(text@.subrange(from, to) =~= rest@);
    assert forall|i: int| 0 <= i < text@.skip(to).len() implies is_white(
        #[trigger] text@.skip(to)[i],
    ) by {
        assert(text@.skip(to)[i] == tail.skip(length)[i]);
    }
    if rest@.len() > 0 {
        assert(rest@[0] == tail[0]);
    }
    if is_blank(text@) && rest@.len() > 0 {
        assert(rest@[0] == text@[from]);
    }
}

proof fn lemma_trimmed_start(text: Seq<char>) -> (from: int)
    ensures
        0 <= from <= text.len(),
        trimmed_start(text) == text.skip(from),
        is_blank(text.take(from)),
        from < text.len() ==> !is_white(text[from]),
    decreases text.len(),
{
    if text.len() > 0 && is_white(text[0]) {
        let rest = text.drop_first();
        let from = lemma_trimmed_start(rest);
        assert(rest.skip(from) =~= text.skip(from + 1));
        assert forall|i: int| 0 <= i < from + 1 implies is_white(
            #[trigger] text.take(from + 1)[i],
        ) by {
            if i > 0 {
                assert(text.take(from + 1)[i] == rest.take(from)[i - 1]);
            }
        }
        from + 1
    } else {
        assert(text.skip(0) =~= text);
        0
    }
}

proof fn lemma_trimmed_end(text: Seq<char>) -> (length: int)
    ensures
        0 <= length <= text.len(),
        trimmed_end(text) == text.take(length),
        is_blank(text.skip(length)),
        length > 0 ==> !is_white(text[length - 1]),
    decreases text.len(),
{
    if text.len() > 0 && is_white(text.last()) {
        let rest = text.drop_last();
        let length = lemma_trimmed_end(rest);
        assert(rest.take(length) =~= text.take(length));
        assert forall|i: int| 0 <= i < text.skip(length).len() implies is_white(
            #[trigger] text.skip(length)[i],
        ) by {
            if i < rest.skip(length).len() {
                assert(text.skip(length)[i] == rest.skip(length)[i]);
            }
        }
        length
    } else {
        assert(text.take(text.len() as int) =~= text);
        text.len() as int
    }
}

/// A text of a line, a line feed and a rest has the line as its first and the lines of
/// the rest behind it. A carriage return before the line feed belongs to the ending.
pub proof fn law_lines_end_at_line_feeds(
    line: Seq<char>,
    rest: &str,
    text: &str,
    found: Vec<String>,
    more: Vec<String>,
)
    requires
        !line.contains('\n'),
        line.len() > 0 ==> line.last() != '\r',
        text@ == line + seq!['\n'] + rest@ || text@ == line + seq!['\r', '\n'] + rest@,
        call_ensures(lines, (text,), found),
        call_ensures(lines, (rest,), more),
    ensures
        texts(found@) == seq![line] + texts(more@),
{
    let whole = text@;
    let end: int = if whole == line + seq!['\n'] + rest@ {
        line.len() as int
    } else {
        line.len() as int + 1
    };
    assert forall|i: int| 0 <= i < end implies #[trigger] whole[i] != '\n' by {
        if i < line.len() {
            assert(whole[i] == line[i]);
            assert(line.contains(line[i]));
        }
    }
    assert(whole[end] == '\n');
    lemma_position_of(whole, '\n', end);
    assert(whole.skip(end + 1) =~= rest@);
    if end == line.len() {
        assert(whole.take(end) =~= line);
    } else {
        assert(whole.take(end).drop_last() =~= line);
        assert(whole.take(end).last() == '\r');
    }
}

/// A text without a line feed is one line, and no text has no lines.
pub proof fn law_one_line(text: &str, found: Vec<String>)
    requires
        call_ensures(lines, (text,), found),
        !text@.contains('\n'),
    ensures
        text@.len() > 0 ==> texts(found@) == seq![text@],
        text@.len() == 0 ==> found@.len() == 0,
{
    lemma_position_of_bounds(text@, '\n');
    let at = position_of(text@, '\n');
    if at < text@.len() {
        assert(text@.contains(text@[at]));
    }
    assert(texts(found@).len() == found@.len());
}

/// One text is set apart from nothing, two have the separator between them, and a
/// longer list goes on in the same way.
pub proof fn law_separated_texts(first: Seq<Seq<char>>, last: Seq<char>, separator: Seq<char>)
    ensures
        separated(seq![last], separator) == last,
        first.len() > 0 ==> separated(first.push(last), separator) == separated(first, separator)
            + separator + last,
        separated(seq![], separator).len() == 0,
{
    assert(first.push(last).drop_last() =~= first);
}

} // verus!
