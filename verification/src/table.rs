//! A small verified association table: a vector of `(String, V)` pairs with
//! first-match lookup and replace-or-append update. The registries of the
//! crate (variables, sources, macros, bindings) are built on it.

use vstd::prelude::*;

use crate::strutil::str_eq;

verus! {

/// The value stored under `key`: the first entry whose key matches exactly.
pub open spec fn spec_assoc<V>(entries: Seq<(String, V)>, key: Seq<char>) -> Option<V>
    decreases entries.len(),
{
    if entries.len() == 0 {
        None
    } else if entries[0].0@ == key {
        Some(entries[0].1)
    } else {
        spec_assoc(entries.drop_first(), key)
    }
}

/// Looking up skips a prefix of entries whose keys all miss.
pub proof fn lemma_assoc_prefix_miss<V>(entries: Seq<(String, V)>, key: Seq<char>, i: int)
    requires
        0 <= i <= entries.len(),
        forall|j: int| 0 <= j < i ==> entries[j].0@ != key,
    ensures
        spec_assoc(entries, key) == spec_assoc(entries.subrange(i, entries.len() as int), key),
    decreases i,
{
    if i > 0 {
        assert(entries[0].0@ != key);
        assert(entries.drop_first() =~= entries.subrange(1, entries.len() as int));
        lemma_assoc_prefix_miss(entries.drop_first(), key, i - 1);
        assert(entries.drop_first().subrange(i - 1, entries.drop_first().len() as int)
            =~= entries.subrange(i, entries.len() as int));
    } else {
        assert(entries.subrange(0, entries.len() as int) =~= entries);
    }
}

/// The first matching entry determines the lookup result.
pub proof fn lemma_assoc_hit<V>(entries: Seq<(String, V)>, key: Seq<char>, i: int)
    requires
        0 <= i < entries.len(),
        entries[i].0@ == key,
        forall|j: int| 0 <= j < i ==> entries[j].0@ != key,
    ensures
        spec_assoc(entries, key) == Some(entries[i].1),
    decreases i,
{
    if i > 0 {
        assert(entries.drop_first() =~= entries.subrange(1, entries.len() as int));
        lemma_assoc_hit(entries.drop_first(), key, i - 1);
    }
}

/// Replacing the entry at a key leaves every other key's lookup unchanged.
pub proof fn lemma_assoc_update_other<V>(
    orig: Seq<(String, V)>,
    updated: Seq<(String, V)>,
    i: int,
    other: Seq<char>,
)
    requires
        0 <= i < orig.len(),
        updated.len() == orig.len(),
        forall|j: int| 0 <= j < orig.len() && j != i ==> updated[j] == orig[j],
        orig[i].0@ == updated[i].0@,
        orig[i].0@ != other,
    ensures
        spec_assoc(updated, other) == spec_assoc(orig, other),
    decreases orig.len(),
{
    assert(updated[0].0@ == orig[0].0@);
    if updated[0].0@ == other {
        assert(i != 0);
        assert(updated[0] == orig[0]);
    } else if i == 0 {
        assert(orig.drop_first() =~= updated.drop_first());
    } else {
        assert(updated[0] == orig[0]);
        lemma_assoc_update_other(orig.drop_first(), updated.drop_first(), i - 1, other);
    }
}

/// Appending an entry leaves every other key's lookup unchanged.
pub proof fn lemma_assoc_push_other<V>(
    entries: Seq<(String, V)>,
    entry: (String, V),
    other: Seq<char>,
)
    requires
        entry.0@ != other,
    ensures
        spec_assoc(entries.push(entry), other) == spec_assoc(entries, other),
    decreases entries.len(),
{
    let pushed = entries.push(entry);
    if entries.len() == 0 {
        assert(pushed[0] == entry);
        assert(pushed.drop_first().len() == 0);
        assert(spec_assoc(pushed.drop_first(), other) is None);
        assert(spec_assoc(entries, other) is None);
    } else {
        assert(pushed[0] == entries[0]);
        if entries[0].0@ != other {
            assert(pushed.drop_first() =~= entries.drop_first().push(entry));
            lemma_assoc_push_other(entries.drop_first(), entry, other);
        }
    }
}

/// The entry stored under `key`, if any.
pub fn assoc_get<'a, V>(entries: &'a Vec<(String, V)>, key: &str) -> (r: Option<&'a V>)
    ensures
        match r {
            Some(v) => spec_assoc(entries@, key@) == Some(*v),
            None => spec_assoc(entries@, key@) is None,
        },
{
    let mut i: usize = 0;
    while i < entries.len()
        invariant
            i <= entries@.len(),
            forall|j: int| 0 <= j < i ==> entries@[j].0@ != key@,
        decreases entries@.len() - i,
    {
        if str_eq(entries[i].0.as_str(), key) {
            proof {
                lemma_assoc_hit(entries@, key@, i as int);
            }
            return Some(&entries[i].1);
        }
        i = i + 1;
    }
    proof {
        lemma_assoc_prefix_miss(entries@, key@, entries@.len() as int);
        assert(entries@.subrange(entries@.len() as int, entries@.len() as int).len() == 0);
    }
    None
}

/// Whether any entry is stored under `key`.
pub fn assoc_contains<V>(entries: &Vec<(String, V)>, key: &str) -> (r: bool)
    ensures
        r == spec_assoc(entries@, key@).is_some(),
{
    match assoc_get(entries, key) {
        Some(_) => true,
        None => false,
    }
}

/// Stores `value` under `key`: replaces the matching entry if one exists,
/// otherwise appends a new one. Every other key's lookup is untouched.
pub fn assoc_put<V>(entries: &mut Vec<(String, V)>, key: String, value: V)
    ensures
        spec_assoc(final(entries)@, key@) == Some(value),
        forall|other: Seq<char>|
            other != key@ ==> spec_assoc(final(entries)@, other) == spec_assoc(
                old(entries)@,
                other,
            ),
        final(entries)@.len() == if spec_assoc(old(entries)@, key@) is Some {
            old(entries)@.len()
        } else {
            old(entries)@.len() + 1
        },
        spec_assoc(old(entries)@, key@) is None ==> final(entries)@ == old(entries)@.push(
            (key, value),
        ),
{
    let ghost orig = entries@;
    let mut i: usize = 0;
    while i < entries.len()
        invariant
            entries@ == orig,
            old(entries)@ == orig,
            i <= orig.len(),
            forall|j: int| 0 <= j < i ==> orig[j].0@ != key@,
        decreases orig.len() - i,
    {
        if str_eq(entries[i].0.as_str(), key.as_str()) {
            proof {
                lemma_assoc_hit(orig, key@, i as int);
            }
            entries[i] = (key, value);
            proof {
                let updated = entries@;
                assert forall|other: Seq<char>| other != key@ implies spec_assoc(updated, other)
                    == spec_assoc(orig, other) by {
                    lemma_assoc_update_other(orig, updated, i as int, other);
                }
                lemma_assoc_hit(updated, key@, i as int);
            }
            return ;
        }
        i = i + 1;
    }
    proof {
        lemma_assoc_prefix_miss(orig, key@, orig.len() as int);
        assert(orig.subrange(orig.len() as int, orig.len() as int).len() == 0);
    }
    entries.push((key, value));
    proof {
        let updated = entries@;
        lemma_assoc_hit(updated, key@, orig.len() as int);
        assert forall|other: Seq<char>| other != key@ implies spec_assoc(updated, other)
            == spec_assoc(orig, other) by {
            lemma_assoc_push_other(orig, updated.last(), other);
            assert(orig.push(updated.last()) =~= updated);
        }
    }
}

} // verus!
