//! The options of a disk: a mapping from option name to option value.

use crate::text::same_text;
use vstd::prelude::*;

verus! {

/// The mapping that a list of options stands for: each name is mapped to
/// the value that was written for it last.
pub open spec fn options_map(pairs: Seq<(Seq<char>, Seq<char>)>) -> Map<Seq<char>, Seq<char>>
    decreases pairs.len(),
{
    if pairs.len() == 0 {
        Map::empty()
    } else {
        options_map(pairs.drop_last()).insert(pairs.last().0, pairs.last().1)
    }
}

/// No name is written twice in `pairs`.
pub open spec fn distinct_names(pairs: Seq<(Seq<char>, Seq<char>)>) -> bool {
    forall|i: int, j: int| 0 <= i < j < pairs.len() ==> (#[trigger] pairs[i]).0 != (#[trigger] pairs[j]).0
}

/// A name is in the mapping exactly if it is written in the list.
pub proof fn lemma_options_map_names(pairs: Seq<(Seq<char>, Seq<char>)>, name: Seq<char>)
    ensures
        options_map(pairs).contains_key(name) <==> exists|i: int|
            0 <= i < pairs.len() && (#[trigger] pairs[i]).0 == name,
    decreases pairs.len(),
{
    if pairs.len() > 0 {
        let front = pairs.drop_last();
        lemma_options_map_names(front, name);
        if options_map(pairs).contains_key(name) {
            if pairs.last().0 == name {
                assert(pairs[pairs.len() - 1].0 == name);
            } else {
                let i = choose|i: int| 0 <= i < front.len() && (#[trigger] front[i]).0 == name;
                assert(pairs[i].0 == name);
            }
        }
        if exists|i: int| 0 <= i < pairs.len() && (#[trigger] pairs[i]).0 == name {
            let i = choose|i: int| 0 <= i < pairs.len() && (#[trigger] pairs[i]).0 == name;
            if i < pairs.len() - 1 {
                assert(front[i].0 == name);
            }
        }
    }
}

/// A name in the mapping is written in the list beside the value that it is
/// mapped to.
pub proof fn lemma_options_map_entry(pairs: Seq<(Seq<char>, Seq<char>)>, name: Seq<char>)
    requires
        options_map(pairs).contains_key(name),
    ensures
        exists|i: int| 0 <= i < pairs.len() && #[trigger] pairs[i] == (name, options_map(pairs)[name]),
    decreases pairs.len(),
{
    if pairs.len() > 0 {
        if pairs.last().0 == name {
            assert(pairs[pairs.len() - 1] == (name, options_map(pairs)[name]));
        } else {
            let front = pairs.drop_last();
            lemma_options_map_entry(front, name);
            let i = choose|i: int| 0 <= i < front.len() && #[trigger] front[i] == (name, options_map(front)[name]);
            assert(pairs[i] == (name, options_map(pairs)[name]));
        }
    }
}

/// Where no name is written twice, each name is mapped to the value that is
/// written beside it.
pub proof fn lemma_options_map_value(pairs: Seq<(Seq<char>, Seq<char>)>, i: int)
    requires
        distinct_names(pairs),
        0 <= i < pairs.len(),
    ensures
        options_map(pairs).contains_key(pairs[i].0),
        options_map(pairs)[pairs[i].0] == pairs[i].1,
    decreases pairs.len(),
{
    let front = pairs.drop_last();
    if i < pairs.len() - 1 {
        assert(distinct_names(front)) by {
            assert forall|a: int, b: int| 0 <= a < b < front.len() implies (#[trigger] front[a]).0
                != (#[trigger] front[b]).0 by {
                assert(pairs[a].0 != pairs[b].0);
            }
        }
        lemma_options_map_value(front, i);
        assert(front[i] == pairs[i]);
        assert(pairs[i].0 != pairs[pairs.len() - 1].0);
    }
}

/// The place of the first option of a name in a list; the length of the
/// list if there is none.
pub open spec fn name_position(pairs: Seq<(Seq<char>, Seq<char>)>, name: Seq<char>) -> int
    decreases pairs.len(),
{
    if pairs.len() == 0 {
        0
    } else if pairs[0].0 == name {
        0
    } else {
        1 + name_position(pairs.drop_first(), name)
    }
}

/// A list of options with one option set: its value is put in the place of
/// the value that the name had, or the option is added at the end.
pub open spec fn with_option(
    pairs: Seq<(Seq<char>, Seq<char>)>,
    name: Seq<char>,
    value: Seq<char>,
) -> Seq<(Seq<char>, Seq<char>)> {
    let at = name_position(pairs, name);
    if 0 <= at < pairs.len() {
        pairs.update(at, (name, value))
    } else {
        pairs.push((name, value))
    }
}

/// The list that is held for options that are written one after the other:
/// each name once, in the order in which the names first come, with the
/// value that was written for it last.
pub open spec fn options_list(written: Seq<(Seq<char>, Seq<char>)>) -> Seq<(Seq<char>, Seq<char>)>
    decreases written.len(),
{
    if written.len() == 0 {
        Seq::empty()
    } else {
        with_option(options_list(written.drop_last()), written.last().0, written.last().1)
    }
}

/// The place that is found for a name is the first one that holds it.
pub proof fn lemma_name_position(pairs: Seq<(Seq<char>, Seq<char>)>, name: Seq<char>)
    ensures
        0 <= name_position(pairs, name) <= pairs.len(),
        name_position(pairs, name) < pairs.len() ==> pairs[name_position(pairs, name)].0 == name,
        forall|i: int| 0 <= i < name_position(pairs, name) ==> (#[trigger] pairs[i]).0 != name,
    decreases pairs.len(),
{
    if pairs.len() > 0 && pairs[0].0 != name {
        let rest = pairs.drop_first();
        lemma_name_position(rest, name);
        assert forall|i: int| 0 <= i < name_position(pairs, name) implies (#[trigger] pairs[i]).0
            != name by {
            if i > 0 {
                assert(rest[i - 1] == pairs[i]);
            }
        }
    }
}

/// Setting an option in a list that names no option twice gives such a list
/// again, and the mapping with the name mapped to the value.
pub proof fn lemma_with_option(pairs: Seq<(Seq<char>, Seq<char>)>, name: Seq<char>, value: Seq<char>)
    requires
        distinct_names(pairs),
    ensures
        distinct_names(with_option(pairs, name, value)),
        options_map(with_option(pairs, name, value)) == options_map(pairs).insert(name, value),
{
    let at = name_position(pairs, name);
    let after = with_option(pairs, name, value);
    lemma_name_position(pairs, name);
    if at < pairs.len() {
        assert(distinct_names(after));
        assert forall|k: Seq<char>| options_map(after).contains_key(k) <==> options_map(pairs).insert(
            name,
            value,
        ).contains_key(k) by {
            lemma_options_map_names(after, k);
            lemma_options_map_names(pairs, k);
            if exists|j: int| 0 <= j < after.len() && (#[trigger] after[j]).0 == k {
                let j = choose|j: int| 0 <= j < after.len() && (#[trigger] after[j]).0 == k;
                assert(pairs[j].0 == k);
            }
            if exists|j: int| 0 <= j < pairs.len() && (#[trigger] pairs[j]).0 == k {
                let j = choose|j: int| 0 <= j < pairs.len() && (#[trigger] pairs[j]).0 == k;
                assert(after[j].0 == k);
            }
        }
        assert forall|k: Seq<char>| options_map(after).contains_key(k) implies options_map(after)[k]
            == options_map(pairs).insert(name, value)[k] by {
            lemma_options_map_names(after, k);
            let j = choose|j: int| 0 <= j < after.len() && (#[trigger] after[j]).0 == k;
            lemma_options_map_value(after, j);
            if j != at {
                lemma_options_map_value(pairs, j);
                assert(pairs[j].0 != pairs[at].0);
            }
        }
        assert(options_map(after) =~= options_map(pairs).insert(name, value));
    } else {
        assert(after.drop_last() =~= pairs);
        assert(distinct_names(after));
    }
}

/// The list that is held for written options names no option twice, and
/// stands for the same mapping as the options as they were written.
pub proof fn lemma_options_list(written: Seq<(Seq<char>, Seq<char>)>)
    ensures
        distinct_names(options_list(written)),
        options_map(options_list(written)) == options_map(written),
    decreases written.len(),
{
    if written.len() > 0 {
        lemma_options_list(written.drop_last());
        lemma_with_option(options_list(written.drop_last()), written.last().0, written.last().1);
    }
}

/// A list that names no option twice is held as it is.
pub proof fn lemma_options_list_held(pairs: Seq<(Seq<char>, Seq<char>)>)
    requires
        distinct_names(pairs),
    ensures
        options_list(pairs) == pairs,
    decreases pairs.len(),
{
    if pairs.len() > 0 {
        let front = pairs.drop_last();
        assert(distinct_names(front)) by {
            assert forall|a: int, b: int| 0 <= a < b < front.len() implies (#[trigger] front[a]).0
                != (#[trigger] front[b]).0 by {
                assert(pairs[a].0 != pairs[b].0);
            }
        }
        lemma_options_list_held(front);
        lemma_name_position(front, pairs.last().0);
        let at = name_position(front, pairs.last().0);
        if at < front.len() {
            assert(pairs[at].0 == pairs[pairs.len() - 1].0);
        }
        assert(front.push(pairs.last()) =~= pairs);
    }
}

/// The names and values of `entries` as text.
pub open spec fn pairs_of(entries: Seq<(String, String)>) -> Seq<(Seq<char>, Seq<char>)> {
    entries.map_values(|e: (String, String)| (e.0@, e.1@))
}

/// The options of a disk. A name is held once, with one value.
#[derive(Debug, PartialEq, Eq)]
pub struct DiskOptions {
    entries: Vec<(String, String)>,
}

impl View for DiskOptions {
    type V = Map<Seq<char>, Seq<char>>;

    closed spec fn view(&self) -> Map<Seq<char>, Seq<char>> {
        options_map(self.pairs())
    }
}

impl DiskOptions {
    /// The options in the order in which their names were first set.
    pub closed spec fn pairs(&self) -> Seq<(Seq<char>, Seq<char>)> {
        pairs_of(self.entries@)
    }

    #[verifier::type_invariant]
    spec fn well_formed(&self) -> bool {
        distinct_names(self.pairs())
    }

    /// No options.
    pub fn new() -> (r: Self)
        ensures
            r@ == Map::<Seq<char>, Seq<char>>::empty(),
            r.pairs() == Seq::<(Seq<char>, Seq<char>)>::empty(),
    {
        let entries: Vec<(String, String)> = Vec::new();
        assert(pairs_of(entries@) =~= Seq::<(Seq<char>, Seq<char>)>::empty());
        DiskOptions { entries }
    }

    /// The options as a list, in the order in which their names were first
    /// set. No name is in it twice.
    pub fn entries(&self) -> (r: &Vec<(String, String)>)
        ensures
            pairs_of(r@) == self.pairs(),
            distinct_names(self.pairs()),
            self@ == options_map(self.pairs()),
    {
        proof {
            use_type_invariant(self);
        }
        &self.entries
    }

    /// How many options there are.
    pub fn len(&self) -> (r: usize)
        ensures
            r == self.pairs().len(),
    {
        self.entries.len()
    }

    /// Whether there is no option.
    pub fn is_empty(&self) -> (r: bool)
        ensures
            r == (self.pairs().len() == 0),
    {
        self.entries.len() == 0
    }

    /// The position at which `name` is held, if it is.
    fn position(&self, name: &str) -> (r: Option<usize>)
        ensures
            match r {
                Some(i) => i < self.pairs().len() && i == name_position(self.pairs(), name@),
                None => name_position(self.pairs(), name@) == self.pairs().len(),
            },
    {
        let mut i: usize = 0;
        while i < self.entries.len()
            invariant
                i <= self.entries@.len(),
                forall|j: int| 0 <= j < i ==> (#[trigger] self.pairs()[j]).0 != name@,
            decreases self.entries@.len() - i,
        {
            if same_text(self.entries[i].0.as_str(), name) {
                proof {
                    assert(self.pairs()[i as int].0 == name@);
                    lemma_name_position(self.pairs(), name@);
                }
                return Some(i);
            }
            i += 1;
        }
        proof {
            lemma_name_position(self.pairs(), name@);
        }
        None
    }

    /// The value of the option `name`, if it is set.
    pub fn get(&self, name: &str) -> (r: Option<&String>)
        ensures
            match r {
                Some(value) => self@.contains_key(name@) && self@[name@] == value@,
                None => !self@.contains_key(name@),
            },
    {
        proof {
            use_type_invariant(self);
            lemma_options_map_names(self.pairs(), name@);
            lemma_name_position(self.pairs(), name@);
        }
        match self.position(name) {
            Some(i) => {
                proof {
                    lemma_options_map_value(self.pairs(), i as int);
                }
                Some(&self.entries[i].1)
            },
            None => None,
        }
    }

    /// Whether the option `name` is set.
    pub fn contains_key(&self, name: &str) -> (r: bool)
        ensures
            r == self@.contains_key(name@),
    {
        self.get(name).is_some()
    }

    /// These options with the option `name` set to `value`, in place of the
    /// value that it had.
    pub fn insert(self, name: String, value: String) -> (r: Self)
        ensures
            r@ == self@.insert(name@, value@),
            r.pairs() == with_option(self.pairs(), name@, value@),
    {
        proof {
            use_type_invariant(&self);
            lemma_with_option(self.pairs(), name@, value@);
        }
        let found = self.position(name.as_str());
        let ghost before = self.pairs();
        let ghost item = (name@, value@);
        let mut entries = self.entries;
        match found {
            Some(i) => {
                entries.set(i, (name, value));
                assert(pairs_of(entries@) =~= before.update(i as int, item));
            },
            None => {
                entries.push((name, value));
                assert(pairs_of(entries@) =~= before.push(item));
            },
        }
        DiskOptions { entries }
    }
}

} // verus!
