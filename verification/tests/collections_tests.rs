use safelang::collections::HashMap;
use safelang::collections::HashSet;
use safelang::collections::Queue;
use safelang::collections::Vector;

#[test]
fn test_vector_basics() {
    let mut v: Vector<i32> = Vector::new();
    assert!(v.is_empty());
    v.push(1);
    v.push(2);
    v.push(3);
    assert_eq!(v.len(), 3);
    assert_eq!(v.get(0), Some(&1));
    assert_eq!(v.get(2), Some(&3));
    assert_eq!(v.get(3), None);
    assert_eq!(v.pop(), Some(3));
    assert_eq!(v.len(), 2);
    v.insert(1, 9);
    assert_eq!(v.get(1), Some(&9));
    assert_eq!(v.remove(0), 1);
    assert_eq!(v.get(0), Some(&9));
    let collected: Vec<i32> = v.iter().clone();
    assert_eq!(collected, vec![9, 2]);
    v.clear();
    assert!(v.is_empty());
}

#[test]
fn test_vector_with_capacity() {
    let mut v: Vector<&str> = Vector::with_capacity(10);
    assert_eq!(v.len(), 0);
    v.push("a");
    assert_eq!(v.get(0), Some(&"a"));
}

#[test]
fn test_hash_map_basics() {
    let mut m: HashMap<String, i32> = HashMap::new();
    assert!(m.is_empty());
    assert_eq!(m.insert("one".to_string(), 1), None);
    assert_eq!(m.insert("two".to_string(), 2), None);
    assert_eq!(m.insert("one".to_string(), 11), Some(1));
    assert_eq!(m.len(), 2);
    assert_eq!(m.get(&"one".to_string()), Some(&11));
    assert!(m.contains_key(&"two".to_string()));
    assert!(!m.contains_key(&"three".to_string()));
    assert_eq!(m.remove(&"two".to_string()), Some(2));
    assert_eq!(m.remove(&"two".to_string()), None);
    assert_eq!(m.keys().count(), 1);
    assert_eq!(m.values().count(), 1);
    assert_eq!(m.iter().count(), 1);
    m.clear();
    assert!(m.is_empty());
}

#[test]
fn test_hash_set_basics() {
    let mut s: HashSet<u64> = HashSet::with_capacity(4);
    assert!(s.insert(5));
    assert!(!s.insert(5));
    assert!(s.insert(7));
    assert_eq!(s.len(), 2);
    assert!(s.contains(&5));
    assert!(!s.contains(&6));
    assert!(s.remove(&5));
    assert!(!s.remove(&5));
    assert_eq!(s.iter().count(), 1);
    s.clear();
    assert!(s.is_empty());
}

#[test]
fn test_queue_basics() {
    let mut q: Queue<i32> = Queue::new();
    assert!(q.is_empty());
    assert_eq!(q.pop_front(), None);
    q.push_back(1);
    q.push_back(2);
    q.push_front(0);
    assert_eq!(q.len(), 3);
    assert_eq!(q.front(), Some(&0));
    assert_eq!(q.back(), Some(&2));
    assert_eq!(q.pop_front(), Some(0));
    assert_eq!(q.pop_back(), Some(2));
    assert_eq!(q.pop_front(), Some(1));
    assert_eq!(q.pop_back(), None);
    let mut q2: Queue<i32> = Queue::with_capacity(8);
    q2.push_back(4);
    assert_eq!(q2.iter().count(), 1);
    q2.clear();
    assert!(q2.is_empty());
}
