//! The SafeLang standard collection types: a growable array, a hash map, a
//! hash set, and a double-ended queue, each a thin verified layer over the
//! std container of the same shape.
//!
//! The hash-based containers' contracts hold under vstd's standard
//! assumptions about hashing (`obeys_key_model` for the key type and
//! `builds_valid_hashers` for the default hasher); the array and queue
//! contracts are unconditional.

use vstd::prelude::*;

use std::collections::hash_map::RandomState;
use std::collections::HashMap as StdHashMap;
use std::collections::HashSet as StdHashSet;
use std::collections::VecDeque;
use std::hash::Hash;

verus! {

broadcast use vstd::std_specs::hash::group_hash_axioms;

/// Whether vstd's model of std hashing applies to key type `K` under the
/// default hasher.
pub open spec fn spec_hash_reliable<K>() -> bool {
    vstd::std_specs::hash::obeys_key_model::<K>()
        && vstd::std_specs::hash::builds_valid_hashers::<RandomState>()
}

/// A dynamically-sized array.
#[derive(Debug)]
pub struct Vector<T> {
    inner: Vec<T>,
}

impl<T> Vector<T> {
    /// The elements, in order.
    pub closed spec fn view(&self) -> Seq<T> {
        self.inner@
    }

    /// An empty vector.
    pub fn new() -> (r: Vector<T>)
        ensures
            r@ == Seq::<T>::empty(),
    {
        Vector { inner: Vec::new() }
    }

    /// An empty vector with room reserved for `capacity` elements.
    pub fn with_capacity(capacity: usize) -> (r: Vector<T>)
        ensures
            r@ == Seq::<T>::empty(),
    {
        Vector { inner: Vec::with_capacity(capacity) }
    }

    /// Appends an element at the end.
    pub fn push(&mut self, value: T)
        ensures
            final(self)@ == old(self)@.push(value),
    {
        self.inner.push(value);
    }

    /// Removes and returns the last element, if any.
    pub fn pop(&mut self) -> (r: Option<T>)
        ensures
            old(self)@.len() == 0 ==> r is None && final(self)@ == old(self)@,
            old(self)@.len() > 0 ==> r == Some(old(self)@.last()) && final(self)@ == old(
                self,
            )@.drop_last(),
    {
        self.inner.pop()
    }

    /// The element at `index`, if it is in range.
    pub fn get(&self, index: usize) -> (r: Option<&T>)
        ensures
            index < self@.len() ==> r == Some(&self@[index as int]),
            index >= self@.len() ==> r is None,
    {
        if index < self.inner.len() {
            Some(&self.inner[index])
        } else {
            None
        }
    }

    /// How many elements the vector holds.
    pub fn len(&self) -> (r: usize)
        ensures
            r == self@.len(),
    {
        self.inner.len()
    }

    /// Whether the vector holds no elements.
    pub fn is_empty(&self) -> (r: bool)
        ensures
            r == (self@.len() == 0),
    {
        self.inner.is_empty()
    }

    /// Removes every element.
    pub fn clear(&mut self)
        ensures
            final(self)@ == Seq::<T>::empty(),
    {
        self.inner.clear();
    }

    /// Inserts an element at `index`, shifting the rest to the right.
    pub fn insert(&mut self, index: usize, value: T)
        requires
            index <= old(self)@.len(),
        ensures
            final(self)@ == old(self)@.insert(index as int, value),
    {
        self.inner.insert(index, value);
    }

    /// Removes and returns the element at `index`, shifting the rest left.
    pub fn remove(&mut self, index: usize) -> (r: T)
        requires
            index < old(self)@.len(),
        ensures
            r == old(self)@[index as int],
            final(self)@ == old(self)@.remove(index as int),
    {
        self.inner.remove(index)
    }

    /// Read access to the elements for iteration.
    pub fn iter(&self) -> (r: &Vec<T>)
        ensures
            r@ == self@,
    {
        &self.inner
    }
}

/// A hash map keyed by hashable values.
#[derive(Debug)]
pub struct HashMap<K, V> {
    inner: StdHashMap<K, V>,
}

impl<K: Eq + Hash, V> HashMap<K, V> {
    /// The mathematical map the container holds.
    pub closed spec fn view(&self) -> Map<K, V> {
        self.inner@
    }

    /// An empty map.
    pub fn new() -> (r: HashMap<K, V>)
        ensures
            r@ == Map::<K, V>::empty(),
            r@.dom().finite(),
    {
        HashMap { inner: StdHashMap::new() }
    }

    /// An empty map with room reserved for `capacity` entries.
    pub fn with_capacity(capacity: usize) -> (r: HashMap<K, V>)
        ensures
            r@ == Map::<K, V>::empty(),
            r@.dom().finite(),
    {
        HashMap { inner: StdHashMap::with_capacity(capacity) }
    }

    /// Stores `value` under `key`, returning the value it replaces.
    pub fn insert(&mut self, key: K, value: V) -> (r: Option<V>)
        ensures
            spec_hash_reliable::<K>() ==> {
                &&& final(self)@ == old(self)@.insert(key, value)
                &&& match r {
                    Some(prev) => old(self)@.contains_key(key) && prev == old(self)@[key],
                    None => !old(self)@.contains_key(key),
                }
            },
            spec_hash_reliable::<K>() && old(self)@.dom().finite()
                ==> final(self)@.dom().finite(),
    {
        self.inner.insert(key, value)
    }

    /// The value stored under `key`, if any.
    pub fn get(&self, key: &K) -> (r: Option<&V>)
        ensures
            spec_hash_reliable::<K>() ==> match r {
                Some(v) => self@.contains_key(*key) && *v == self@[*key],
                None => !self@.contains_key(*key),
            },
    {
        self.inner.get(key)
    }

    /// Removes the entry under `key`, returning its value.
    pub fn remove(&mut self, key: &K) -> (r: Option<V>)
        ensures
            spec_hash_reliable::<K>() ==> {
                &&& final(self)@ == old(self)@.remove(*key)
                &&& match r {
                    Some(v) => old(self)@.contains_key(*key) && v == old(self)@[*key],
                    None => !old(self)@.contains_key(*key),
                }
            },
            spec_hash_reliable::<K>() && old(self)@.dom().finite()
                ==> final(self)@.dom().finite(),
    {
        self.inner.remove(key)
    }

    /// Whether an entry is stored under `key`.
    pub fn contains_key(&self, key: &K) -> (r: bool)
        ensures
            spec_hash_reliable::<K>() ==> r == self@.contains_key(*key),
    {
        self.inner.contains_key(key)
    }

    /// How many entries the map holds.
    pub fn len(&self) -> (r: usize)
        ensures
            spec_hash_reliable::<K>() ==> r == self@.len(),
    {
        self.inner.len()
    }

    /// Whether the map holds no entries.
    pub fn is_empty(&self) -> (r: bool)
        ensures
            spec_hash_reliable::<K>() ==> r == (self@.len() == 0),
    {
        self.inner.is_empty()
    }

    /// Removes every entry.
    pub fn clear(&mut self)
        ensures
            final(self)@ == Map::<K, V>::empty(),
            final(self)@.dom().finite(),
    {
        self.inner.clear();
    }

    /// An iterator over the entries, in unspecified order.
    pub fn iter(&self) -> std::collections::hash_map::Iter<'_, K, V> {
        self.inner.iter()
    }

    /// An iterator over the keys, in unspecified order.
    pub fn keys(&self) -> std::collections::hash_map::Keys<'_, K, V> {
        self.inner.keys()
    }

    /// An iterator over the values, in unspecified order.
    pub fn values(&self) -> std::collections::hash_map::Values<'_, K, V> {
        self.inner.values()
    }
}

/// A hash set of hashable values.
#[derive(Debug)]
pub struct HashSet<T> {
    inner: StdHashSet<T>,
}

impl<T: Eq + Hash> HashSet<T> {
    /// The mathematical set the container holds.
    pub closed spec fn view(&self) -> Set<T> {
        self.inner@
    }

    /// An empty set.
    pub fn new() -> (r: HashSet<T>)
        ensures
            r@ == Set::<T>::empty(),
            r@.finite(),
    {
        HashSet { inner: StdHashSet::new() }
    }

    /// An empty set with room reserved for `capacity` values.
    pub fn with_capacity(capacity: usize) -> (r: HashSet<T>)
        ensures
            r@ == Set::<T>::empty(),
            r@.finite(),
    {
        HashSet { inner: StdHashSet::with_capacity(capacity) }
    }

    /// Adds a value; reports whether it was new.
    pub fn insert(&mut self, value: T) -> (r: bool)
        ensures
            spec_hash_reliable::<T>() ==> {
                &&& final(self)@ == old(self)@.insert(value)
                &&& r == !old(self)@.contains(value)
            },
            spec_hash_reliable::<T>() && old(self)@.finite() ==> final(self)@.finite(),
    {
        self.inner.insert(value)
    }

    /// Removes a value; reports whether it was present.
    pub fn remove(&mut self, value: &T) -> (r: bool)
        ensures
            spec_hash_reliable::<T>() ==> {
                &&& final(self)@ == old(self)@.remove(*value)
                &&& r == old(self)@.contains(*value)
            },
            spec_hash_reliable::<T>() && old(self)@.finite() ==> final(self)@.finite(),
    {
        self.inner.remove(value)
    }

    /// Whether the set holds this value.
    pub fn contains(&self, value: &T) -> (r: bool)
        ensures
            spec_hash_reliable::<T>() ==> r == self@.contains(*value),
    {
        self.inner.contains(value)
    }

    /// How many values the set holds.
    pub fn len(&self) -> (r: usize)
        ensures
            spec_hash_reliable::<T>() ==> r == self@.len(),
    {
        self.inner.len()
    }

    /// Whether the set holds no values.
    pub fn is_empty(&self) -> (r: bool)
        ensures
            spec_hash_reliable::<T>() ==> r == (self@.len() == 0),
    {
        self.inner.len() == 0
    }

    /// Removes every value.
    pub fn clear(&mut self)
        ensures
            final(self)@ == Set::<T>::empty(),
            final(self)@.finite(),
    {
        self.inner.clear();
    }

    /// An iterator over the values, in unspecified order.
    pub fn iter(&self) -> std::collections::hash_set::Iter<'_, T> {
        self.inner.iter()
    }
}

/// A double-ended queue.
#[derive(Debug)]
pub struct Queue<T> {
    inner: VecDeque<T>,
}

impl<T> Queue<T> {
    /// The elements, front first.
    pub closed spec fn view(&self) -> Seq<T> {
        self.inner@
    }

    /// An empty queue.
    pub fn new() -> (r: Queue<T>)
        ensures
            r@ == Seq::<T>::empty(),
    {
        Queue { inner: VecDeque::new() }
    }

    /// An empty queue with room reserved for `capacity` elements.
    pub fn with_capacity(capacity: usize) -> (r: Queue<T>)
        ensures
            r@ == Seq::<T>::empty(),
    {
        Queue { inner: VecDeque::with_capacity(capacity) }
    }

    /// Appends an element at the back.
    pub fn push_back(&mut self, value: T)
        ensures
            final(self)@ == old(self)@.push(value),
    {
        self.inner.push_back(value);
    }

    /// Prepends an element at the front.
    pub fn push_front(&mut self, value: T)
        ensures
            final(self)@ == seq![value] + old(self)@,
    {
        self.inner.push_front(value);
    }

    /// Removes and returns the front element, if any.
    pub fn pop_front(&mut self) -> (r: Option<T>)
        ensures
            old(self)@.len() == 0 ==> r is None && final(self)@ == old(self)@,
            old(self)@.len() > 0 ==> r == Some(old(self)@.first()) && final(self)@ == old(
                self,
            )@.drop_first(),
    {
        self.inner.pop_front()
    }

    /// Removes and returns the back element, if any.
    pub fn pop_back(&mut self) -> (r: Option<T>)
        ensures
            old(self)@.len() == 0 ==> r is None && final(self)@ == old(self)@,
            old(self)@.len() > 0 ==> r == Some(old(self)@.last()) && final(self)@ == old(
                self,
            )@.drop_last(),
    {
        self.inner.pop_back()
    }

    /// The front element, if any.
    pub fn front(&self) -> (r: Option<&T>)
        ensures
            self@.len() == 0 ==> r is None,
            self@.len() > 0 ==> r == Some(&self@.first()),
    {
        if self.inner.len() == 0 {
            None
        } else {
            Some(&self.inner[0])
        }
    }

    /// The back element, if any.
    pub fn back(&self) -> (r: Option<&T>)
        ensures
            self@.len() == 0 ==> r is None,
            self@.len() > 0 ==> r == Some(&self@.last()),
    {
        let n = self.inner.len();
        if n == 0 {
            None
        } else {
            Some(&self.inner[n - 1])
        }
    }

    /// How many elements the queue holds.
    pub fn len(&self) -> (r: usize)
        ensures
            r == self@.len(),
    {
        self.inner.len()
    }

    /// Whether the queue holds no elements.
    pub fn is_empty(&self) -> (r: bool)
        ensures
            r == (self@.len() == 0),
    {
        self.inner.len() == 0
    }

    /// Removes every element.
    pub fn clear(&mut self)
        ensures
            final(self)@ == Seq::<T>::empty(),
    {
        self.inner.clear();
    }

    /// An iterator over the elements, front first.
    pub fn iter(&self) -> std::collections::vec_deque::Iter<'_, T> {
        self.inner.iter()
    }
}

} // verus!
