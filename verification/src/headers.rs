use crate::text::same_text;
use vstd::prelude::*;

verus! {

/// A header table as contracts see it: name and value of each entry, in the order in which
/// the names were first put in.
pub type HeaderPairs = Seq<(Seq<char>, Seq<char>)>;

/// Whether some entry of `es` is named `name`.
pub open spec fn has_name(es: HeaderPairs, name: Seq<char>) -> bool {
    exists|i: int| 0 <= i < es.len() && es[i].0 == name
}

/// Whether no two entries of `es` have one name.
pub open spec fn distinct_names(es: HeaderPairs) -> bool {
    forall|i: int, j: int| 0 <= i < j < es.len() ==> es[i].0 != es[j].0
}

/// `es` after `name` was given `value`: the entry of that name keeps its place and takes the
/// new value; where there is none, a new entry comes last.
pub open spec fn put(es: HeaderPairs, name: Seq<char>, value: Seq<char>) -> HeaderPairs {
    if has_name(es, name) {
        Seq::new(
            es.len(),
            |i: int|
                if es[i].0 == name {
                    (name, value)
                } else {
                    es[i]
                },
        )
    } else {
        es.push((name, value))
    }
}

/// The value that `es` holds for `name`.
pub open spec fn value_of(es: HeaderPairs, name: Seq<char>) -> Option<Seq<char>> {
    if has_name(es, name) {
        Some(es[choose|i: int| 0 <= i < es.len() && es[i].0 == name].1)
    } else {
        None
    }
}

/// Putting a name into a table without repeated names leaves it without repeated names.
pub proof fn lemma_put_distinct(es: HeaderPairs, name: Seq<char>, value: Seq<char>)
    requires
        distinct_names(es),
    ensures
        distinct_names(put(es, name, value)),
{
    let after = put(es, name, value);
    assert forall|i: int, j: int| 0 <= i < j < after.len() implies after[i].0 != after[j].0 by {
        if has_name(es, name) {
            assert(after[i].0 == es[i].0);
            assert(after[j].0 == es[j].0);
        } else {
            if j == es.len() {
                assert(after[i] == es[i]);
            }
        }
    }
}

/// The last value put under a name is the one found under it, and the other names keep
/// theirs.
pub proof fn lemma_put_value_of(
    es: HeaderPairs,
    name: Seq<char>,
    value: Seq<char>,
    other: Seq<char>,
)
    requires
        distinct_names(es),
    ensures
        value_of(put(es, name, value), name) == Some(value),
        other != name ==> value_of(put(es, name, value), other) == value_of(es, other),
{
    let after = put(es, name, value);
    lemma_put_distinct(es, name, value);
    if has_name(es, name) {
        let k = choose|i: int| 0 <= i < es.len() && es[i].0 == name;
        assert(after[k].0 == name);
        assert(has_name(after, name));
        let c = choose|i: int| 0 <= i < after.len() && after[i].0 == name;
        assert(after[c].1 == value);
    } else {
        assert(after[es.len() as int] == (name, value));
        assert(has_name(after, name));
        let c = choose|i: int| 0 <= i < after.len() && after[i].0 == name;
        assert(c == es.len()) by {
            if c < es.len() {
                assert(after[c] == es[c]);
            }
        }
    }
    if other != name {
        if has_name(es, other) {
            let k = choose|i: int| 0 <= i < es.len() && es[i].0 == other;
            assert(after[k] == es[k]);
            assert(has_name(after, other));
            let c = choose|i: int| 0 <= i < after.len() && after[i].0 == other;
            assert(c == k) by {
                if c < k {
                    assert(after[c].0 != after[k].0);
                } else if k < c {
                    assert(after[k].0 != after[c].0);
                }
            }
        } else {
            if has_name(after, other) {
                let c = choose|i: int| 0 <= i < after.len() && after[i].0 == other;
                if c < es.len() {
                    assert(after[c].0 == es[c].0 || after[c].0 == name);
                }
                assert(false);
            }
        }
    }
}

/// In a table without repeated names, an entry is in the table exactly if its value is the
/// one found under its name.
pub proof fn lemma_value_of_contains(es: HeaderPairs, name: Seq<char>, value: Seq<char>)
    requires
        distinct_names(es),
    ensures
        es.contains((name, value)) <==> value_of(es, name) == Some(value),
{
    if es.contains((name, value)) {
        let i = choose|i: int| 0 <= i < es.len() && es[i] == (name, value);
        assert(es[i].0 == name);
        let c = choose|k: int| 0 <= k < es.len() && es[k].0 == name;
        assert(c == i) by {
            if c < i {
                assert(es[c].0 != es[i].0);
            } else if i < c {
                assert(es[i].0 != es[c].0);
            }
        }
    }
    if value_of(es, name) == Some(value) {
        let c = choose|k: int| 0 <= k < es.len() && es[k].0 == name;
        assert(es[c] == (name, value));
    }
}

/// One header: a name and its value.
#[derive(Debug, PartialEq, Eq, Clone)]
pub struct Header {
    pub name: String,
    pub value: String,
}

/// A table of headers in which no name occurs twice. The entries keep the order in which
/// their names first came. `==` holds of two tables with the same entries in the same
/// order; `same_entries` tells whether two tables hold the same entries in any order.
#[derive(Debug, PartialEq, Eq)]
pub struct Headers {
    entries: Vec<Header>,
}

/// Name and value of each header of `entries`, in their order.
pub open spec fn pairs_of(entries: Seq<Header>) -> HeaderPairs {
    Seq::new(entries.len(), |i: int| (entries[i].name@, entries[i].value@))
}

impl View for Headers {
    type V = HeaderPairs;

    closed spec fn view(&self) -> HeaderPairs {
        pairs_of(self.entries@)
    }
}

impl Clone for Headers {
    /// A table with the same entries in the same order.
    fn clone(&self) -> (r: Headers)
        ensures
            r@ == self@,
    {
        proof {
            use_type_invariant(self);
        }
        let mut entries: Vec<Header> = Vec::new();
        let mut i: usize = 0;
        while i < self.entries.len()
            invariant
                i <= self.entries@.len(),
                entries@.len() == i,
                forall|j: int|
                    0 <= j < i ==> (#[trigger] entries@[j]).name@ == self.entries@[j].name@
                        && entries@[j].value@ == self.entries@[j].value@,
            decreases self.entries@.len() - i,
        {
            let name = self.entries[i].name.clone();
            let value = self.entries[i].value.clone();
            entries.push(Header { name, value });
            i += 1;
        }
        assert(pairs_of(entries@) =~= pairs_of(self.entries@));
        Headers { entries }
    }
}

impl Headers {
    #[verifier::type_invariant]
    closed spec fn distinct(&self) -> bool {
        distinct_names(self@)
    }

    /// A table without entries.
    pub fn new() -> (r: Headers)
        ensures
            r@ == Seq::<(Seq<char>, Seq<char>)>::empty(),
    {
        let entries: Vec<Header> = Vec::new();
        assert(pairs_of(entries@) =~= Seq::<(Seq<char>, Seq<char>)>::empty());
        Headers { entries }
    }

    /// The number of entries. No two of them have one name.
    pub fn len(&self) -> (n: usize)
        ensures
            n == self@.len(),
            distinct_names(self@),
    {
        proof {
            use_type_invariant(self);
        }
        self.entries.len()
    }

    /// Name and value of the entry at `i`.
    pub fn entry(&self, i: usize) -> (r: (&str, &str))
        requires
            i < self@.len(),
        ensures
            r.0@ == self@[i as int].0,
            r.1@ == self@[i as int].1,
    {
        (self.entries[i].name.as_str(), self.entries[i].value.as_str())
    }

    /// Gives `name` the value `value`, whatever it had before.
    pub fn insert(&mut self, name: String, value: String)
        ensures
            final(self)@ == put(old(self)@, name@, value@),
            distinct_names(final(self)@),
    {
        let mut taken = Headers::new();
        core::mem::swap(self, &mut taken);
        proof {
            use_type_invariant(&taken);
            lemma_put_distinct(taken@, name@, value@);
        }
        let mut entries = taken.entries;
        let ghost before = pairs_of(entries@);
        let mut i: usize = 0;
        let mut found = false;
        while i < entries.len() && !found
            invariant
                i <= entries@.len(),
                pairs_of(entries@) == before,
                distinct_names(before),
                !found ==> forall|j: int| 0 <= j < i ==> before[j].0 != name@,
                found ==> i < entries@.len() && before[i as int].0 == name@,
            decreases entries@.len() - i + (if found { 0int } else { 1int }),
        {
            if same_text(entries[i].name.as_str(), name.as_str()) {
                found = true;
            } else {
                i += 1;
            }
        }
        if found {
            entries.set(i, Header { name, value });
            assert forall|j: int| 0 <= j < before.len() && j != i implies before[j].0
                != name@ by {
                if j < i {
                    assert(before[j].0 != before[i as int].0);
                } else {
                    assert(before[i as int].0 != before[j].0);
                }
            }
            assert(pairs_of(entries@) =~= put(before, name@, value@));
        } else {
            assert(!has_name(before, name@));
            entries.push(Header { name, value });
            assert(pairs_of(entries@) =~= put(before, name@, value@));
        }
        *self = Headers { entries };
    }

    /// Tells whether every entry of this table is an entry of `other`.
    pub fn within(&self, other: &Headers) -> (r: bool)
        ensures
            r == self@.to_set().subset_of(other@.to_set()),
    {
        proof {
            use_type_invariant(other);
        }
        let mut i: usize = 0;
        while i < self.entries.len()
            invariant
                i <= self@.len(),
                self@.len() == self.entries@.len(),
                distinct_names(other@),
                forall|j: int| 0 <= j < i ==> other@.contains(#[trigger] self@[j]),
            decreases self.entries@.len() - i,
        {
            let (name, value) = self.entry(i);
            assert(self@[i as int] == (name@, value@));
            proof {
                lemma_value_of_contains(other@, name@, value@);
            }
            let found = match other.get(name) {
                Some(held) => same_text(held, value),
                None => false,
            };
            if !found {
                assert(self@.to_set().contains(self@[i as int]));
                assert(!other@.to_set().contains(self@[i as int]));
                return false;
            }
            i += 1;
        }
        assert forall|e: (Seq<char>, Seq<char>)| self@.to_set().contains(e) implies other@.to_set()
            .contains(e) by {
            let j = choose|j: int| 0 <= j < self@.len() && self@[j] == e;
            assert(other@.contains(self@[j]));
        }
        true
    }

    /// Tells whether the two tables hold the same entries, in whatever order.
    pub fn same_entries(&self, other: &Headers) -> (r: bool)
        ensures
            r == (self@.to_set() == other@.to_set()),
    {
        let r = self.within(other) && other.within(self);
        assert(r ==> self@.to_set() =~= other@.to_set());
        r
    }

    /// The value held for `name`.
    pub fn get(&self, name: &str) -> (r: Option<&str>)
        ensures
            r is Some == has_name(self@, name@),
            match r {
                Some(v) => Some(v@) == value_of(self@, name@),
                None => value_of(self@, name@) is None,
            },
    {
        proof {
            use_type_invariant(self);
        }
        let mut i: usize = 0;
        while i < self.entries.len()
            invariant
                i <= self.entries@.len(),
                distinct_names(self@),
                forall|j: int| 0 <= j < i ==> self@[j].0 != name@,
            decreases self.entries@.len() - i,
        {
            if same_text(self.entries[i].name.as_str(), name) {
                assert(self@[i as int].0 == name@);
                let ghost c = choose|k: int| 0 <= k < self@.len() && self@[k].0 == name@;
                assert(c == i) by {
                    if c < i {
                        assert(self@[c].0 != self@[i as int].0);
                    } else if i < c {
                        assert(self@[i as int].0 != self@[c].0);
                    }
                }
                return Some(self.entries[i].value.as_str());
            }
            i += 1;
        }
        None
    }
}

} // verus!
