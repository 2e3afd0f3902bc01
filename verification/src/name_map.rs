//! A map from names to values that keeps its entries in the order in which
//! the names were first bound.

use vstd::prelude::*;

verus! {

/// The value that `entries` give to `name`: that of the first entry of that
/// name.
pub open spec fn lookup<V>(entries: Seq<(String, V)>, name: Seq<char>) -> Option<V>
    decreases entries.len(),
{
    if entries.len() == 0 {
        None
    } else if entries[0].0@ == name {
        Some(entries[0].1)
    } else {
        lookup(entries.drop_first(), name)
    }
}

/// The place of the first entry of `name` among `entries`, if there is one.
pub open spec fn position<V>(entries: Seq<(String, V)>, name: Seq<char>) -> Option<int>
    decreases entries.len(),
{
    if entries.len() == 0 {
        None
    } else if entries[0].0@ == name {
        Some(0int)
    } else {
        match position(entries.drop_first(), name) {
            Some(i) => Some(i + 1),
            None => None,
        }
    }
}

/// What `position` finds is the first entry of that name, and `lookup` gives
/// its value.
pub proof fn lemma_position<V>(entries: Seq<(String, V)>, name: Seq<char>)
    ensures
        match position(entries, name) {
            Some(i) => {
                &&& 0 <= i < entries.len()
                &&& entries[i].0@ == name
                &&& lookup(entries, name) == Some(entries[i].1)
                &&& forall|k: int| 0 <= k < i ==> entries[k].0@ != name
            },
            None => {
                &&& lookup(entries, name) is None
                &&& forall|k: int| 0 <= k < entries.len() ==> entries[k].0@ != name
            },
        },
    decreases entries.len(),
{
    if entries.len() > 0 && entries[0].0@ != name {
        let rest = entries.drop_first();
        lemma_position(rest, name);
        match position(rest, name) {
            Some(i) => {
                assert forall|k: int| 0 <= k < i + 1 implies entries[k].0@ != name by {
                    if k > 0 {
                        assert(entries[k] == rest[k - 1]);
                    }
                }
            },
            None => {
                assert forall|k: int| 0 <= k < entries.len() implies entries[k].0@ != name by {
                    if k > 0 {
                        assert(entries[k] == rest[k - 1]);
                    }
                }
            },
        }
    }
}

/// An entry of `name` at `i`, with none before it, is what `position` finds.
pub proof fn lemma_first_entry<V>(entries: Seq<(String, V)>, name: Seq<char>, i: int)
    requires
        0 <= i < entries.len(),
        entries[i].0@ == name,
        forall|k: int| 0 <= k < i ==> entries[k].0@ != name,
    ensures
        position(entries, name) == Some(i),
        lookup(entries, name) == Some(entries[i].1),
    decreases entries.len(),
{
    if i > 0 {
        let rest = entries.drop_first();
        assert forall|k: int| 0 <= k < i - 1 implies rest[k].0@ != name by {
            assert(rest[k] == entries[k + 1]);
        }
        lemma_first_entry(rest, name, i - 1);
    }
}

/// Where no entry is of `name`, there is nothing to find.
pub proof fn lemma_no_entry<V>(entries: Seq<(String, V)>, name: Seq<char>)
    requires
        forall|k: int| 0 <= k < entries.len() ==> entries[k].0@ != name,
    ensures
        position(entries, name) is None,
        lookup(entries, name) is None,
    decreases entries.len(),
{
    if entries.len() > 0 {
        let rest = entries.drop_first();
        assert forall|k: int| 0 <= k < rest.len() implies rest[k].0@ != name by {
            assert(rest[k] == entries[k + 1]);
        }
        lemma_no_entry(rest, name);
    }
}

/// The place of the first entry of `name`, if there is one.
pub fn find<V>(entries: &Vec<(String, V)>, name: &String) -> (r: Option<usize>)
    ensures
        match r {
            Some(i) => position(entries@, name@) == Some(i as int) && i < entries.len(),
            None => position(entries@, name@) is None,
        },
{
    let mut i: usize = 0;
    while i < entries.len()
        invariant
            i <= entries.len(),
            forall|k: int| 0 <= k < i ==> entries@[k].0@ != name@,
        decreases entries.len() - i,
    {
        if entries[i].0 == *name {
            proof {
                lemma_first_entry(entries@, name@, i as int);
            }
            return Some(i);
        }
        i += 1;
    }
    proof {
        lemma_no_entry(entries@, name@);
    }
    None
}

/// Binds `name` to `value`: in place where `name` has an entry, at the end
/// where it has none.
pub fn put<V>(entries: &mut Vec<(String, V)>, name: String, value: V)
    ensures
        forall|other: Seq<char>|
            #[trigger] lookup(final(entries)@, other) == if other == name@ {
                Some(value)
            } else {
                lookup(old(entries)@, other)
            },
        match position(old(entries)@, name@) {
            Some(i) => final(entries)@ == old(entries)@.update(i, (name, value)),
            None => final(entries)@ == old(entries)@.push((name, value)),
        },
{
    let found = find(entries, &name);
    let ghost before = entries@;
    let ghost key = name@;
    match found {
        Some(i) => {
            entries[i] = (name, value);
            proof {
                lemma_position(before, key);
                assert forall|other: Seq<char>| #[trigger]
                    lookup(entries@, other) == if other == key {
                        Some(value)
                    } else {
                        lookup(before, other)
                    } by {
                    lemma_position(before, other);
                    if other == key {
                        lemma_first_entry(entries@, key, i as int);
                    } else {
                        match position(before, other) {
                            Some(j) => {
                                lemma_first_entry(entries@, other, j);
                            },
                            None => {
                                lemma_no_entry(entries@, other);
                            },
                        }
                    }
                }
            }
        },
        None => {
            entries.push((name, value));
            proof {
                lemma_position(before, key);
                assert forall|other: Seq<char>| #[trigger]
                    lookup(entries@, other) == if other == key {
                        Some(value)
                    } else {
                        lookup(before, other)
                    } by {
                    lemma_position(before, other);
                    if other == key {
                        lemma_first_entry(entries@, key, before.len() as int);
                    } else {
                        match position(before, other) {
                            Some(j) => {
                                lemma_first_entry(entries@, other, j);
                            },
                            None => {
                                lemma_no_entry(entries@, other);
                            },
                        }
                    }
                }
            }
        },
    }
}

/// The place of the first pair of `name` among `pairs`, if there is one.
pub open spec fn bound_at<V>(pairs: Seq<(Seq<char>, V)>, name: Seq<char>) -> Option<int>
    decreases pairs.len(),
{
    if pairs.len() == 0 {
        None
    } else if pairs[0].0 == name {
        Some(0int)
    } else {
        match bound_at(pairs.drop_first(), name) {
            Some(i) => Some(i + 1),
            None => None,
        }
    }
}

/// `pairs` with `name` bound to `value`: in place where `name` has a pair, at
/// the end where it has none.
pub open spec fn with_bound<V>(pairs: Seq<(Seq<char>, V)>, name: Seq<char>, value: V) -> Seq<
    (Seq<char>, V),
> {
    match bound_at(pairs, name) {
        Some(i) => pairs.update(i, (name, value)),
        None => pairs.push((name, value)),
    }
}

/// Entries and pairs that agree in their names, place by place, have a
/// given name at the same place.
pub proof fn lemma_same_names_same_place<V, W>(
    entries: Seq<(String, V)>,
    pairs: Seq<(Seq<char>, W)>,
    name: Seq<char>,
)
    requires
        entries.len() == pairs.len(),
        forall|i: int| 0 <= i < entries.len() ==> entries[i].0@ == pairs[i].0,
    ensures
        position(entries, name) == bound_at(pairs, name),
    decreases entries.len(),
{
    if entries.len() > 0 {
        assert(entries[0].0@ == pairs[0].0);
        if entries[0].0@ != name {
            let rest = entries.drop_first();
            let others = pairs.drop_first();
            assert forall|i: int| 0 <= i < rest.len() implies rest[i].0@ == others[i].0 by {
                assert(rest[i] == entries[i + 1]);
                assert(others[i] == pairs[i + 1]);
            }
            lemma_same_names_same_place(rest, others, name);
        }
    }
}

} // verus!
