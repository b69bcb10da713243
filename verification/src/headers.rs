//! The header mapping of a request: names to values, each name at most once.

use crate::text::same_text;
use vstd::prelude::*;

verus! {

/// A mapping from header names to header values.
///
/// Names are compared by their literal text: no case is folded. Writing a
/// name a second time replaces its value.
#[derive(Debug)]
pub struct HeaderMap {
    entries: Vec<(String, String)>,
}

/// The mapping that a list of entries writes, later entries replacing
/// earlier ones.
spec fn entries_map(entries: Seq<(String, String)>) -> Map<Seq<char>, Seq<char>>
    decreases entries.len(),
{
    if entries.len() == 0 {
        Map::empty()
    } else {
        entries_map(entries.drop_last()).insert(entries.last().0@, entries.last().1@)
    }
}

/// Whether no name occurs twice among `entries`.
pub open spec fn distinct_names(entries: Seq<(String, String)>) -> bool {
    forall|i: int, j: int|
        0 <= i < j < entries.len() ==> (#[trigger] entries[i]).0@ != (#[trigger] entries[j]).0@
}

/// With distinct names, the mapping holds exactly the listed entries.
proof fn lemma_entries_map(entries: Seq<(String, String)>)
    requires
        distinct_names(entries),
    ensures
        entries_map(entries).dom().finite(),
        entries_map(entries).len() == entries.len(),
        forall|name: Seq<char>|
            entries_map(entries).contains_key(name) <==> exists|i: int|
                0 <= i < entries.len() && (#[trigger] entries[i]).0@ == name,
        forall|i: int|
            0 <= i < entries.len() ==> entries_map(entries).contains_key(
                (#[trigger] entries[i]).0@,
            ) && entries_map(entries)[entries[i].0@] == entries[i].1@,
    decreases entries.len(),
{
    if entries.len() > 0 {
        let earlier = entries.drop_last();
        let last = entries.last();
        assert(distinct_names(earlier)) by {
            assert forall|i: int, j: int| 0 <= i < j < earlier.len() implies (
            #[trigger] earlier[i]).0@ != (#[trigger] earlier[j]).0@ by {
                assert(earlier[i] == entries[i] && earlier[j] == entries[j]);
            }
        }
        lemma_entries_map(earlier);
        assert(!entries_map(earlier).contains_key(last.0@)) by {
            if entries_map(earlier).contains_key(last.0@) {
                let i = choose|i: int| 0 <= i < earlier.len() && (#[trigger] earlier[i]).0@ == last.0@;
                assert(earlier[i] == entries[i]);
                assert(entries[entries.len() - 1] == last);
            }
        }
        assert forall|name: Seq<char>|
            entries_map(entries).contains_key(name) <==> exists|i: int|
                0 <= i < entries.len() && (#[trigger] entries[i]).0@ == name by {
            if entries_map(entries).contains_key(name) {
                if name == last.0@ {
                    assert(entries[entries.len() - 1].0@ == name);
                } else {
                    let i = choose|i: int| 0 <= i < earlier.len() && (#[trigger] earlier[i]).0@ == name;
                    assert(entries[i].0@ == name);
                }
            }
            if exists|i: int| 0 <= i < entries.len() && (#[trigger] entries[i]).0@ == name {
                let i = choose|i: int| 0 <= i < entries.len() && (#[trigger] entries[i]).0@ == name;
                if i < earlier.len() {
                    assert(earlier[i].0@ == name);
                }
            }
        }
        assert forall|i: int| 0 <= i < entries.len() implies entries_map(entries).contains_key(
            (#[trigger] entries[i]).0@,
        ) && entries_map(entries)[entries[i].0@] == entries[i].1@ by {
            if i < earlier.len() {
                assert(earlier[i] == entries[i]);
                assert(entries[entries.len() - 1] == last);
            }
        }
    }
}

/// Where `name` stands among `entries`.
fn position(entries: &Vec<(String, String)>, name: &str) -> (at: Option<usize>)
    ensures
        match at {
            Some(i) => i < entries.len() && entries[i as int].0@ == name@,
            None => forall|i: int| 0 <= i < entries.len() ==> (#[trigger] entries[i]).0@ != name@,
        },
{
    let mut i: usize = 0;
    while i < entries.len()
        invariant
            i <= entries.len(),
            forall|j: int| 0 <= j < i ==> (#[trigger] entries[j]).0@ != name@,
        decreases entries.len() - i,
    {
        if same_text(entries[i].0.as_str(), name) {
            return Some(i);
        }
        i += 1;
    }
    None
}

impl View for HeaderMap {
    type V = Map<Seq<char>, Seq<char>>;

    closed spec fn view(&self) -> Map<Seq<char>, Seq<char>> {
        entries_map(self.entries@)
    }
}

impl HeaderMap {
    #[verifier::type_invariant]
    spec fn names_occur_once(&self) -> bool {
        distinct_names(self.entries@)
    }

    /// A mapping without entries.
    pub fn new() -> (headers: HeaderMap)
        ensures
            headers@ == Map::<Seq<char>, Seq<char>>::empty(),
    {
        HeaderMap { entries: Vec::new() }
    }

    /// The number of names that have a value.
    pub fn len(&self) -> (count: usize)
        ensures
            self@.dom().finite(),
            count == self@.len(),
    {
        proof {
            use_type_invariant(self);
            lemma_entries_map(self.entries@);
        }
        self.entries.len()
    }

    /// Whether no name has a value.
    pub fn is_empty(&self) -> (empty: bool)
        ensures
            empty == (self@ == Map::<Seq<char>, Seq<char>>::empty()),
    {
        proof {
            use_type_invariant(self);
            lemma_entries_map(self.entries@);
            if self.entries@.len() == 0 {
                assert(self@ =~= Map::<Seq<char>, Seq<char>>::empty());
            }
        }
        self.entries.len() == 0
    }

    /// The value written for `name`, if there is one.
    pub fn get(&self, name: &str) -> (value: Option<&String>)
        ensures
            match value {
                Some(text) => self@.contains_key(name@) && text@ == self@[name@],
                None => !self@.contains_key(name@),
            },
    {
        proof {
            use_type_invariant(self);
            lemma_entries_map(self.entries@);
        }
        match position(&self.entries, name) {
            Some(i) => Some(&self.entries[i].1),
            None => None,
        }
    }

    /// Whether `name` has a value.
    pub fn contains_key(&self, name: &str) -> (present: bool)
        ensures
            present == self@.contains_key(name@),
    {
        proof {
            use_type_invariant(self);
            lemma_entries_map(self.entries@);
        }
        position(&self.entries, name).is_some()
    }

    /// Writes `value` for `name`, replacing the value that `name` had.
    pub fn insert(&mut self, name: String, value: String)
        ensures
            final(self)@ == old(self)@.insert(name@, value@),
    {
        proof {
            use_type_invariant(&*self);
            lemma_entries_map(self.entries@);
        }
        let ghost before = self.entries@;
        let mut entries: Vec<(String, String)> = Vec::new();
        core::mem::swap(&mut self.entries, &mut entries);
        match position(&entries, name.as_str()) {
            Some(i) => {
                entries.set(i, (name, value));
                proof {
                    let after = entries@;
                    assert(distinct_names(after)) by {
                        assert forall|a: int, b: int| 0 <= a < b < after.len() implies (
                        #[trigger] after[a]).0@ != (#[trigger] after[b]).0@ by {
                            assert(after[a].0@ == before[a].0@);
                            assert(after[b].0@ == before[b].0@);
                        }
                    }
                    lemma_entries_map(after);
                    assert forall|key: Seq<char>|
                        entries_map(after).contains_key(key) <==> entries_map(before).insert(
                            name@,
                            value@,
                        ).contains_key(key) by {
                        if entries_map(after).contains_key(key) {
                            let a = choose|a: int| 0 <= a < after.len() && (#[trigger] after[a]).0@ == key;
                            assert(before[a].0@ == key);
                        }
                        if entries_map(before).contains_key(key) {
                            let a = choose|a: int|
                                0 <= a < before.len() && (#[trigger] before[a]).0@ == key;
                            assert(after[a].0@ == key);
                        }
                        if key == name@ {
                            assert(after[i as int].0@ == key);
                        }
                    }
                    assert forall|key: Seq<char>| entries_map(after).contains_key(key) implies entries_map(
                        after,
                    )[key] == entries_map(before).insert(name@, value@)[key] by {
                        let a = choose|a: int| 0 <= a < after.len() && (#[trigger] after[a]).0@ == key;
                        if a == i {
                        } else {
                            assert(after[a] == before[a]);
                        }
                    }
                    assert(entries_map(after) =~= entries_map(before).insert(name@, value@));
                }
            },
            None => {
                entries.push((name, value));
                proof {
                    let after = entries@;
                    assert(after.drop_last() =~= before);
                    assert(distinct_names(after)) by {
                        assert forall|a: int, b: int| 0 <= a < b < after.len() implies (
                        #[trigger] after[a]).0@ != (#[trigger] after[b]).0@ by {
                            assert(after[a] == before[a]);
                            if b < before.len() {
                                assert(after[b] == before[b]);
                            }
                        }
                    }
                }
            },
        }
        core::mem::swap(&mut self.entries, &mut entries);
    }

    /// The entries, each name once, in no particular order.
    pub fn entries(&self) -> (entries: &Vec<(String, String)>)
        ensures
            self@.dom().finite(),
            entries@.len() == self@.len(),
            distinct_names(entries@),
            forall|i: int|
                0 <= i < entries@.len() ==> self@.contains_key((#[trigger] entries@[i]).0@)
                    && self@[entries@[i].0@] == entries@[i].1@,
    {
        proof {
            use_type_invariant(self);
            lemma_entries_map(self.entries@);
        }
        &self.entries
    }
}

} // verus!
