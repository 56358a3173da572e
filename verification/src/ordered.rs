//! Entries found by name in a sequence that keeps the order in which they
//! were put. The generators use such sequences wherever the order of what
//! they write depends on them.

use vstd::prelude::*;

verus! {

/// The first position of `name` in `names`.
pub open spec fn first_index_of(names: Seq<Seq<char>>, name: Seq<char>) -> Option<int>
    decreases names.len(),
{
    if names.len() == 0 {
        None
    } else {
        match first_index_of(names.drop_last(), name) {
            Some(i) => Some(i),
            None => if names.last() == name {
                Some(names.len() - 1)
            } else {
                None
            },
        }
    }
}

/// The last position of `name` in `names`.
pub open spec fn last_index_of(names: Seq<Seq<char>>, name: Seq<char>) -> Option<int>
    decreases names.len(),
{
    if names.len() == 0 {
        None
    } else if names.last() == name {
        Some(names.len() - 1)
    } else {
        last_index_of(names.drop_last(), name)
    }
}

/// The names of `entries`, in order.
pub open spec fn names_of<T>(entries: Seq<(Seq<char>, T)>) -> Seq<Seq<char>> {
    Seq::new(entries.len(), |i: int| entries[i].0)
}

/// No name occurs twice in `names`.
pub open spec fn distinct(names: Seq<Seq<char>>) -> bool {
    forall|i: int, j: int| 0 <= i < j < names.len() ==> names[i] != names[j]
}

/// `entries` with `value` under `name`: in the place of the first entry of that
/// name if there is one, else at the end.
pub open spec fn put<T>(entries: Seq<(Seq<char>, T)>, name: Seq<char>, value: T) -> Seq<
    (Seq<char>, T),
> {
    match first_index_of(names_of(entries), name) {
        Some(i) => entries.update(i, (name, value)),
        None => entries.push((name, value)),
    }
}

/// The value under `name` in `entries`, if there is one.
pub open spec fn get<T>(entries: Seq<(Seq<char>, T)>, name: Seq<char>) -> Option<T> {
    match first_index_of(names_of(entries), name) {
        Some(i) => Some(entries[i].1),
        None => None,
    }
}

/// A position as a mathematical integer.
pub open spec fn as_index(r: Option<usize>) -> Option<int> {
    match r {
        Some(i) => Some(i as int),
        None => None,
    }
}

/// `first_index_of` is the position of `name` before which it does not occur,
/// and is `None` exactly when `name` does not occur at all.
pub proof fn lemma_first_index_of(names: Seq<Seq<char>>, name: Seq<char>)
    ensures
        match first_index_of(names, name) {
            Some(i) => 0 <= i < names.len() && names[i] == name && forall|j: int|
                0 <= j < i ==> names[j] != name,
            None => forall|j: int| 0 <= j < names.len() ==> names[j] != name,
        },
    decreases names.len(),
{
    if names.len() > 0 {
        let front = names.drop_last();
        lemma_first_index_of(front, name);
        assert(forall|j: int| 0 <= j < front.len() ==> front[j] == names[j]);
    }
}

/// `last_index_of` is the position of `name` after which it does not occur,
/// and is `None` exactly when `name` does not occur at all.
pub proof fn lemma_last_index_of(names: Seq<Seq<char>>, name: Seq<char>)
    ensures
        match last_index_of(names, name) {
            Some(i) => 0 <= i < names.len() && names[i] == name && forall|j: int|
                i < j < names.len() ==> names[j] != name,
            None => forall|j: int| 0 <= j < names.len() ==> names[j] != name,
        },
    decreases names.len(),
{
    if names.len() > 0 {
        let front = names.drop_last();
        lemma_last_index_of(front, name);
        assert(forall|j: int| 0 <= j < front.len() ==> front[j] == names[j]);
    }
}

/// A position that holds `name` and has no earlier one that does is the first.
pub proof fn lemma_first_index_is(names: Seq<Seq<char>>, name: Seq<char>, i: int)
    requires
        0 <= i < names.len(),
        names[i] == name,
        forall|j: int| 0 <= j < i ==> names[j] != name,
    ensures
        first_index_of(names, name) == Some(i),
{
    lemma_first_index_of(names, name);
}

/// A position that holds `name` and has no later one that does is the last.
pub proof fn lemma_last_index_is(names: Seq<Seq<char>>, name: Seq<char>, i: int)
    requires
        0 <= i < names.len(),
        names[i] == name,
        forall|j: int| i < j < names.len() ==> names[j] != name,
    ensures
        last_index_of(names, name) == Some(i),
{
    lemma_last_index_of(names, name);
}

/// A name that occurs nowhere has no position.
pub proof fn lemma_index_of_absent(names: Seq<Seq<char>>, name: Seq<char>)
    requires
        forall|j: int| 0 <= j < names.len() ==> names[j] != name,
    ensures
        first_index_of(names, name) is None,
        last_index_of(names, name) is None,
{
    lemma_first_index_of(names, name);
    lemma_last_index_of(names, name);
}

/// Putting a value under a name keeps the names distinct, holds the value
/// under that name afterwards, and leaves every other name's value alone.
pub proof fn lemma_put<T>(entries: Seq<(Seq<char>, T)>, name: Seq<char>, value: T)
    requires
        distinct(names_of(entries)),
    ensures
        distinct(names_of(put(entries, name, value))),
        get(put(entries, name, value), name) == Some(value),
        forall|other: Seq<char>|
            other != name ==> get(put(entries, name, value), other) == get(entries, other),
{
    let names = names_of(entries);
    let after = put(entries, name, value);
    let names_after = names_of(after);
    lemma_first_index_of(names, name);
    match first_index_of(names, name) {
        Some(i) => {
            assert(names_after =~= names);
            lemma_first_index_is(names_after, name, i);
            assert forall|other: Seq<char>| other != name implies get(after, other) == get(
                entries,
                other,
            ) by {
                lemma_first_index_of(names, other);
            }
        },
        None => {
            assert(names_after =~= names.push(name));
            lemma_first_index_is(names_after, name, names.len() as int);
            assert forall|other: Seq<char>| other != name implies get(after, other) == get(
                entries,
                other,
            ) by {
                lemma_first_index_of(names, other);
                lemma_first_index_of(names_after, other);
                match first_index_of(names, other) {
                    Some(k) => {
                        lemma_first_index_is(names_after, other, k);
                    },
                    None => {
                        lemma_index_of_absent(names_after, other);
                    },
                }
            }
        },
    }
}

/// The names of the entries of `entries`, in order.
pub open spec fn entry_names<V>(entries: Seq<(String, V)>) -> Seq<Seq<char>> {
    Seq::new(entries.len(), |i: int| entries[i].0@)
}

/// The first position of an entry named `name`.
pub fn key_index<V>(entries: &Vec<(String, V)>, name: &String) -> (r: Option<usize>)
    ensures
        as_index(r) == first_index_of(entry_names(entries@), name@),
{
    let ghost names = entry_names(entries@);
    let mut i: usize = 0;
    while i < entries.len()
        invariant
            i <= entries.len(),
            names == entry_names(entries@),
            forall|j: int| 0 <= j < i ==> names[j] != name@,
        decreases entries.len() - i,
    {
        if entries[i].0 == *name {
            proof {
                lemma_first_index_is(names, name@, i as int);
            }
            return Some(i);
        }
        i += 1;
    }
    proof {
        lemma_index_of_absent(names, name@);
    }
    None
}

/// Whether `names[at]` occurs before `at`.
pub fn occurs_before(names: &Vec<String>, at: usize) -> (r: bool)
    requires
        at < names.len(),
    ensures
        r == names.deep_view().take(at as int).contains(names@[at as int]@),
{
    let ghost model = names.deep_view();
    let mut i: usize = 0;
    while i < at
        invariant
            i <= at < names.len(),
            model == names.deep_view(),
            forall|j: int| 0 <= j < i ==> model[j] != model[at as int],
        decreases at - i,
    {
        if names[i] == names[at] {
            assert(model.take(at as int)[i as int] == model[at as int]);
            return true;
        }
        i += 1;
    }
    false
}

/// Puts `value` under `name`: in the place of the first entry of that name if
/// there is one, else at the end.
pub fn insert_entry<V: DeepView>(entries: &mut Vec<(String, V)>, name: String, value: V)
    ensures
        final(entries).deep_view() == put(old(entries).deep_view(), name@, value.deep_view()),
{
    let ghost before = entries.deep_view();
    let ghost v = value.deep_view();
    assert(entry_names(entries@) =~= names_of(before));
    proof {
        lemma_first_index_of(names_of(before), name@);
    }
    match key_index(entries, &name) {
        Some(i) => {
            entries.set(i, (name, value));
            assert(entries.deep_view() =~= before.update(i as int, (name@, v)));
        },
        None => {
            entries.push((name, value));
            assert(entries.deep_view() =~= before.push((name@, v)));
        },
    }
}

} // verus!
