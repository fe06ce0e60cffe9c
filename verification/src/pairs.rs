//! Lists of names with values, read by the first entry of a name.

use vstd::prelude::*;

use crate::order::text_precedes;
#[allow(unused_imports)]
use crate::order::{
    lemma_precedes_irreflexive, lemma_precedes_total, lemma_precedes_transitive, precedes,
};
use crate::text::same_text;

verus! {

/// A name and its value.
#[derive(Debug, PartialEq, Eq)]
pub struct Pair {
    pub name: String,
    pub value: String,
}

impl Pair {
    pub fn new(name: &str, value: &str) -> (pair: Self)
        ensures
            pair@ == (name@, value@),
    {
        Pair { name: name.to_string(), value: value.to_string() }
    }
}

impl Clone for Pair {
    fn clone(&self) -> (copy: Self)
        ensures
            copy@ == self@,
    {
        Pair { name: self.name.clone(), value: self.value.clone() }
    }
}

/// A list with the same names and values.
pub fn copy_of(pairs: &Vec<Pair>) -> (copy: Vec<Pair>)
    ensures
        entries(copy@) == entries(pairs@),
{
    let mut copy: Vec<Pair> = Vec::new();
    let mut i: usize = 0;
    while i < pairs.len()
        invariant
            i <= pairs@.len(),
            copy@.len() == i,
            forall|j: int| 0 <= j < i ==> (#[trigger] copy@[j])@ == pairs@[j]@,
        decreases pairs@.len() - i,
    {
        copy.push(pairs[i].clone());
        i += 1;
    }
    assert(entries(copy@) =~= entries(pairs@));
    copy
}

impl View for Pair {
    type V = (Seq<char>, Seq<char>);

    open spec fn view(&self) -> (Seq<char>, Seq<char>) {
        (self.name@, self.value@)
    }
}

/// The names and values of a list.
pub open spec fn entries(pairs: Seq<Pair>) -> Seq<(Seq<char>, Seq<char>)> {
    pairs.map_values(|pair: Pair| pair@)
}

/// The value of the first entry of that name.
pub open spec fn lookup(pairs: Seq<(Seq<char>, Seq<char>)>, name: Seq<char>) -> Option<Seq<char>>
    decreases pairs.len(),
{
    if pairs.len() == 0 {
        None
    } else if pairs[0].0 == name {
        Some(pairs[0].1)
    } else {
        lookup(pairs.drop_first(), name)
    }
}

pub fn find_value(pairs: &Vec<Pair>, name: &str) -> (value: Option<String>)
    ensures
        crate::json::optional_chars(value) == lookup(entries(pairs@), name@),
{
    let ghost all = entries(pairs@);
    let mut i: usize = 0;
    assert(all.skip(0) =~= all);
    while i < pairs.len()
        invariant
            i <= pairs@.len(),
            all == entries(pairs@),
            lookup(all.skip(i as int), name@) == lookup(all, name@),
        decreases pairs@.len() - i,
    {
        assert(all.skip(i as int)[0] == pairs@[i as int]@);
        if same_text(pairs[i].name.as_str(), name) {
            return Some(pairs[i].value.clone());
        }
        assert(all.skip(i as int).drop_first() =~= all.skip(i as int + 1));
        i += 1;
    }
    None
}

/// The names of a list come in order, each once.
pub open spec fn names_increase(pairs: Seq<(Seq<char>, Seq<char>)>) -> bool {
    forall|i: int, j: int|
        0 <= i < j < pairs.len() ==> precedes(#[trigger] pairs[i].0, #[trigger] pairs[j].0)
}

/// A value for each of some names, the names in order.
#[derive(Debug, PartialEq, Eq)]
pub struct EnvMap {
    list: Vec<Pair>,
}

impl View for EnvMap {
    type V = Seq<(Seq<char>, Seq<char>)>;

    closed spec fn view(&self) -> Seq<(Seq<char>, Seq<char>)> {
        entries(self.list@)
    }
}

impl EnvMap {
    #[verifier::type_invariant]
    closed spec fn in_order(self) -> bool {
        names_increase(entries(self.list@))
    }

    pub fn new() -> (map: Self)
        ensures
            map@ == Seq::<(Seq<char>, Seq<char>)>::empty(),
    {
        let map = EnvMap { list: Vec::new() };
        assert(map@ =~= Seq::<(Seq<char>, Seq<char>)>::empty());
        map
    }

    /// The entries, in the order of their names.
    pub fn pairs(&self) -> (pairs: &Vec<Pair>)
        ensures
            entries(pairs@) == self@,
            names_increase(self@),
    {
        proof {
            use_type_invariant(&*self);
        }
        &self.list
    }

    pub fn get(&self, name: &str) -> (value: Option<String>)
        ensures
            crate::json::optional_chars(value) == lookup(self@, name@),
    {
        find_value(&self.list, name)
    }

    /// Gives a name a value, in place of the one it may have had.
    pub fn insert(&mut self, name: String, value: String)
        ensures
            names_increase(final(self)@),
            lookup(final(self)@, name@) == Some(value@),
            forall|other: Seq<char>|
                other != name@ ==> #[trigger] lookup(final(self)@, other) == lookup(
                    old(self)@,
                    other,
                ),
    {
        proof {
            use_type_invariant(&*self);
        }
        let ghost before = self@;
        let mut list: Vec<Pair> = Vec::new();
        std::mem::swap(&mut list, &mut self.list);
        let mut at: usize = 0;
        while at < list.len() && text_precedes(list[at].name.as_str(), name.as_str())
            invariant
                at <= list@.len(),
                forall|i: int| 0 <= i < at ==> precedes(#[trigger] list@[i].name@, name@),
            decreases list@.len() - at,
        {
            at += 1;
        }
        let pair = Pair { name: name, value: value };
        let ghost entry = (name@, value@);
        let ghost position = at as int;
        proof {
            assert(before =~= entries(list@));
            assert forall|i: int| 0 <= i < position implies precedes(
                #[trigger] before[i].0,
                entry.0,
            ) by {
                assert(before[i].0 == list@[i].name@);
            }
        }
        if at < list.len() && same_text(list[at].name.as_str(), pair.name.as_str()) {
            list.set(at, pair);
            proof {
                assert(entries(list@) =~= before.update(position, entry));
                lemma_replaced(before, position, entry);
            }
        } else {
            proof {
                if at < list@.len() {
                    lemma_precedes_total(before[position].0, entry.0);
                    assert(before[position].0 == list@[position].name@);
                }
            }
            list.insert(at, pair);
            proof {
                assert(entries(list@) =~= before.insert(position, entry));
                lemma_put_between(before, position, entry);
            }
        }
        self.list = list;
    }
}

impl Clone for EnvMap {
    fn clone(&self) -> (copy: Self)
        ensures
            copy@ == self@,
    {
        proof {
            use_type_invariant(&*self);
        }
        EnvMap { list: copy_of(&self.list) }
    }
}

impl Default for EnvMap {
    fn default() -> (map: Self)
        ensures
            map@ == Seq::<(Seq<char>, Seq<char>)>::empty(),
    {
        EnvMap::new()
    }
}

/// A value that is found stands in the list; a name that is not found does not.
pub proof fn lemma_lookup(pairs: Seq<(Seq<char>, Seq<char>)>, name: Seq<char>)
    ensures
        match lookup(pairs, name) {
            Some(value) => pairs.contains((name, value)),
            None => forall|i: int| 0 <= i < pairs.len() ==> #[trigger] pairs[i].0 != name,
        },
    decreases pairs.len(),
{
    if pairs.len() > 0 {
        let rest = pairs.drop_first();
        lemma_lookup(rest, name);
        if pairs[0].0 == name {
            assert(pairs[0] == (name, pairs[0].1));
        } else {
            match lookup(rest, name) {
                Some(value) => {
                    let i = choose|i: int| 0 <= i < rest.len() && rest[i] == (name, value);
                    assert(pairs[i + 1] == (name, value));
                },
                None => {
                    assert forall|i: int| 0 <= i < pairs.len() implies #[trigger] pairs[i].0
                        != name by {
                        if i > 0 {
                            assert(pairs[i] == rest[i - 1]);
                        }
                    }
                },
            }
        }
    }
}

/// Where no name stands twice, each entry is found.
pub proof fn lemma_lookup_at(pairs: Seq<(Seq<char>, Seq<char>)>, at: int)
    requires
        names_increase(pairs),
        0 <= at < pairs.len(),
    ensures
        lookup(pairs, pairs[at].0) == Some(pairs[at].1),
{
    lemma_lookup(pairs, pairs[at].0);
    match lookup(pairs, pairs[at].0) {
        Some(value) => {
            let i = choose|i: int| 0 <= i < pairs.len() && pairs[i] == (pairs[at].0, value);
            lemma_precedes_irreflexive(pairs[at].0);
            if i < at {
                assert(precedes(pairs[i].0, pairs[at].0));
            } else if at < i {
                assert(precedes(pairs[at].0, pairs[i].0));
            }
        },
        None => {
            assert(pairs[at].0 != pairs[at].0);
        },
    }
}

proof fn lemma_same_lookup(
    before: Seq<(Seq<char>, Seq<char>)>,
    after: Seq<(Seq<char>, Seq<char>)>,
    other: Seq<char>,
)
    requires
        names_increase(before),
        names_increase(after),
        forall|i: int|
            0 <= i < before.len() && (#[trigger] before[i]).0 == other ==> after.contains(before[i]),
        forall|i: int|
            0 <= i < after.len() && (#[trigger] after[i]).0 == other ==> before.contains(after[i]),
    ensures
        lookup(after, other) == lookup(before, other),
{
    lemma_lookup(before, other);
    lemma_lookup(after, other);
    if let Some(value) = lookup(before, other) {
        let i = choose|i: int| 0 <= i < before.len() && before[i] == (other, value);
        assert(after.contains(before[i]));
        let j = choose|j: int| 0 <= j < after.len() && after[j] == before[i];
        lemma_lookup_at(after, j);
    } else if let Some(value) = lookup(after, other) {
        let i = choose|i: int| 0 <= i < after.len() && after[i] == (other, value);
        assert(before.contains(after[i]));
        let j = choose|j: int| 0 <= j < before.len() && before[j] == after[i];
    }
}

proof fn lemma_replaced(
    before: Seq<(Seq<char>, Seq<char>)>,
    at: int,
    entry: (Seq<char>, Seq<char>),
)
    requires
        names_increase(before),
        0 <= at < before.len(),
        before[at].0 == entry.0,
    ensures
        names_increase(before.update(at, entry)),
        lookup(before.update(at, entry), entry.0) == Some(entry.1),
        forall|other: Seq<char>|
            other != entry.0 ==> #[trigger] lookup(before.update(at, entry), other) == lookup(
                before,
                other,
            ),
{
    let after = before.update(at, entry);
    assert forall|i: int, j: int| 0 <= i < j < after.len() implies precedes(
        #[trigger] after[i].0,
        #[trigger] after[j].0,
    ) by {
        assert(precedes(before[i].0, before[j].0));
    }
    lemma_lookup_at(after, at);
    assert forall|other: Seq<char>| other != entry.0 implies #[trigger] lookup(after, other)
        == lookup(before, other) by {
        assert forall|i: int|
            0 <= i < before.len() && (#[trigger] before[i]).0 == other implies after.contains(
            before[i],
        ) by {
            assert(after[i] == before[i]);
        }
        assert forall|i: int|
            0 <= i < after.len() && (#[trigger] after[i]).0 == other implies before.contains(
            after[i],
        ) by {
            assert(after[i] == before[i]);
        }
        lemma_same_lookup(before, after, other);
    }
}

proof fn lemma_put_between(
    before: Seq<(Seq<char>, Seq<char>)>,
    at: int,
    entry: (Seq<char>, Seq<char>),
)
    requires
        names_increase(before),
        0 <= at <= before.len(),
        forall|i: int| 0 <= i < at ==> precedes(#[trigger] before[i].0, entry.0),
        at < before.len() ==> precedes(entry.0, before[at].0),
    ensures
        names_increase(before.insert(at, entry)),
        lookup(before.insert(at, entry), entry.0) == Some(entry.1),
        forall|other: Seq<char>|
            other != entry.0 ==> #[trigger] lookup(before.insert(at, entry), other) == lookup(
                before,
                other,
            ),
{
    let after = before.insert(at, entry);
    assert forall|i: int, j: int| 0 <= i < j < after.len() implies precedes(
        #[trigger] after[i].0,
        #[trigger] after[j].0,
    ) by {
        if i < at && j < at {
            assert(precedes(before[i].0, before[j].0));
        } else if i < at && j > at {
            assert(precedes(before[i].0, before[j - 1].0));
        } else if i == at && j > at + 1 {
            assert(precedes(before[at].0, before[j - 1].0));
            lemma_precedes_transitive(entry.0, before[at].0, before[j - 1].0);
        } else if i > at {
            assert(precedes(before[i - 1].0, before[j - 1].0));
        }
    }
    lemma_lookup_at(after, at);
    assert forall|other: Seq<char>| other != entry.0 implies #[trigger] lookup(after, other)
        == lookup(before, other) by {
        assert forall|i: int|
            0 <= i < before.len() && (#[trigger] before[i]).0 == other implies after.contains(
            before[i],
        ) by {
            if i < at {
                assert(after[i] == before[i]);
            } else {
                assert(after[i + 1] == before[i]);
            }
        }
        assert forall|i: int|
            0 <= i < after.len() && (#[trigger] after[i]).0 == other implies before.contains(
            after[i],
        ) by {
            if i < at {
                assert(after[i] == before[i]);
            } else if i > at {
                assert(after[i] == before[i - 1]);
            }
        }
        lemma_same_lookup(before, after, other);
    }
}

/// The value that is found is that of the first entry of the name, and none is found
/// only where no entry has the name.
pub proof fn law_found_value_is_the_first(pairs: &Vec<Pair>, name: &str, value: Option<String>)
    requires
        call_ensures(find_value, (pairs, name), value),
    ensures
        match value {
            Some(value) => exists|at: int|
                #![trigger pairs@[at]]
                0 <= at < pairs@.len() && pairs@[at].name@ == name@ && pairs@[at].value@ == value@
                    && forall|i: int| 0 <= i < at ==> (#[trigger] pairs@[i]).name@ != name@,
            None => forall|i: int|
                0 <= i < pairs@.len() ==> (#[trigger] pairs@[i]).name@ != name@,
        },
{
    let all = entries(pairs@);
    lemma_first_of_the_name(all, name@);
    match value {
        Some(value) => {
            let at = choose|at: int|
                #![trigger all[at]]
                0 <= at < all.len() && all[at] == (name@, value@) && forall|i: int|
                    0 <= i < at ==> (#[trigger] all[i]).0 != name@;
            assert(pairs@[at]@ == all[at]);
            assert forall|i: int| 0 <= i < at implies (#[trigger] pairs@[i]).name@ != name@ by {
                assert(all[i] == pairs@[i]@);
            }
        },
        None => {
            assert forall|i: int| 0 <= i < pairs@.len() implies (#[trigger] pairs@[i]).name@
                != name@ by {
                assert(all[i] == pairs@[i]@);
            }
        },
    }
}

proof fn lemma_first_of_the_name(pairs: Seq<(Seq<char>, Seq<char>)>, name: Seq<char>)
    ensures
        match lookup(pairs, name) {
            Some(value) => exists|at: int|
                #![trigger pairs[at]]
                0 <= at < pairs.len() && pairs[at] == (name, value) && forall|i: int|
                    0 <= i < at ==> (#[trigger] pairs[i]).0 != name,
            None => forall|i: int| 0 <= i < pairs.len() ==> (#[trigger] pairs[i]).0 != name,
        },
    decreases pairs.len(),
{
    lemma_lookup(pairs, name);
    if pairs.len() > 0 {
        if pairs[0].0 == name {
            assert(pairs[0] == (name, pairs[0].1));
        } else if let Some(value) = lookup(pairs, name) {
            let rest = pairs.drop_first();
            lemma_first_of_the_name(rest, name);
            let at = choose|at: int|
                #![trigger rest[at]]
                0 <= at < rest.len() && rest[at] == (name, value) && forall|i: int|
                    0 <= i < at ==> (#[trigger] rest[i]).0 != name;
            assert(pairs[at + 1] == (name, value));
            assert forall|i: int| 0 <= i < at + 1 implies (#[trigger] pairs[i]).0 != name by {
                if i > 0 {
                    assert(rest[i - 1] == pairs[i]);
                }
            }
        }
    }
}

} // verus!
