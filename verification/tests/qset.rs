use cxx_qt_lib::qset::reserve_request;
use cxx_qt_lib::QSet;

fn collect(set: &QSet<i32>) -> Vec<i32> {
    let mut items = Vec::new();
    let mut iter = set.iter();
    while let Some(item) = iter.next() {
        items.push(*item);
    }
    items
}

fn set_of(items: &[i32]) -> QSet<i32> {
    QSet::from_iter(items.iter())
}

fn roundtrip(set: &QSet<i32>) -> QSet<i32> {
    let serialized = serde_json::to_value(collect(set)).expect("Could not serialize value");
    let items: Vec<i32> = serde_json::from_value(serialized).expect("Could not deserialize value");
    QSet::from_iter(items.into_iter())
}

#[test]
fn qset_serde() {
    let mut set = QSet::default();
    set.insert(0);
    set.insert(1);
    set.insert(2);
    assert!(roundtrip(&set) == set);
}

#[test]
fn default_is_empty() {
    let set: QSet<u16> = QSet::default();
    assert_eq!(set.len(), 0);
    assert!(set.is_empty());
    assert!(!set.contains(&0));
    assert!(set.iter().next().is_none());
}

#[test]
fn insert_same_integer_again_keeps_length() {
    let mut set: QSet<i32> = QSet::default();
    set.insert(1);
    set.insert(2);
    set.insert(1);
    assert_eq!(set.len(), 2);
    assert!(set.contains(&1));
    assert!(set.contains(&2));
    assert!(!set.contains(&3));
}

#[test]
fn clone_is_independent_of_its_source() {
    let mut set: QSet<i32> = QSet::default();
    set.insert(1);
    set.insert(2);
    set.insert(3);
    let mut copy = set.clone();
    assert!(copy.remove(&2));
    assert_eq!(set.len(), 3);
    assert!(set.contains(&2));
    assert_eq!(copy.len(), 2);
    assert!(!copy.contains(&2));
}

#[test]
fn from_iter_of_equal_strings_keeps_one() {
    let a = String::from("alpha");
    let b = String::from("beta");
    let items = vec![a.clone(), a, b];
    let set: QSet<String> = QSet::from_iter(items.iter());
    assert_eq!(set.len(), 2);
    assert!(set.contains(&String::from("alpha")));
    assert!(set.contains(&String::from("beta")));
    assert!(!set.contains(&String::from("gamma")));
}

#[test]
fn clone_equals_its_source() {
    let set = set_of(&[5, -7, 11]);
    let copy = set.clone();
    assert!(copy == set);
    assert!(set == copy);
    assert!(set == set);
    let empty: QSet<i32> = QSet::default();
    assert!(empty.clone() == empty);
}

#[test]
fn insert_twice_is_insert_once() {
    let mut once: QSet<u64> = QSet::default();
    once.insert(u64::MAX);
    let mut twice: QSet<u64> = QSet::default();
    twice.insert(u64::MAX);
    twice.insert(u64::MAX);
    assert_eq!(once.len(), 1);
    assert_eq!(twice.len(), 1);
    assert!(once.contains(&u64::MAX));
    assert!(twice.contains(&u64::MAX));
    assert!(once == twice);
}

#[test]
fn insert_clone_twice_is_insert_clone_once() {
    let text = String::from("same");
    let mut set: QSet<String> = QSet::default();
    set.insert_clone(&text);
    assert_eq!(set.len(), 1);
    set.insert_clone(&text);
    assert_eq!(set.len(), 1);
    assert!(set.contains(&text));
}

#[test]
fn insert_clone_stores_a_copy() {
    let mut set: QSet<String> = QSet::default();
    {
        let text = String::from("short lived");
        set.insert_clone(&text);
    }
    assert!(set.contains(&String::from("short lived")));
    let stored = set.iter().next().expect("one element");
    assert_eq!(stored.as_str(), "short lived");
}

#[test]
fn len_is_number_of_elements_iterated() {
    let set = set_of(&[4, 8, 15, 16, 23, 42, 8, 4]);
    assert_eq!(set.len(), 6);
    assert_eq!(collect(&set).len(), 6);
    assert_eq!(set.iter().count(), 6);
    let empty: QSet<i32> = QSet::default();
    assert_eq!(collect(&empty).len(), 0);
    assert_eq!(empty.iter().count(), 0);
}

#[test]
fn iteration_visits_each_element_once() {
    let set = set_of(&[3, 1, 2, 3, 1]);
    let mut items = collect(&set);
    items.sort();
    assert_eq!(items, vec![1, 2, 3]);
}

#[test]
fn remove_present_returns_true_and_element_is_gone() {
    let mut set = set_of(&[1, 2, 3]);
    assert!(set.remove(&2));
    assert!(!set.contains(&2));
    assert_eq!(set.len(), 2);
    assert!(set.contains(&1));
    assert!(set.contains(&3));
}

#[test]
fn remove_absent_returns_false_and_length_stays() {
    let mut set = set_of(&[1, 2, 3]);
    assert!(!set.remove(&4));
    assert_eq!(set.len(), 3);
    assert!(set == set_of(&[1, 2, 3]));
    let mut empty: QSet<i32> = QSet::default();
    assert!(!empty.remove(&0));
    assert_eq!(empty.len(), 0);
}

#[test]
fn remove_twice_returns_false_the_second_time() {
    let mut set = set_of(&[9]);
    assert!(set.remove(&9));
    assert!(!set.remove(&9));
    assert!(set.is_empty());
}

#[test]
fn clear_removes_everything() {
    let mut set = set_of(&[1, 2, 3]);
    set.clear();
    assert_eq!(set.len(), 0);
    assert!(set.is_empty());
    assert!(!set.contains(&1));
    set.insert(7);
    assert_eq!(set.len(), 1);
    assert!(set.contains(&7));
}

#[test]
fn is_empty_follows_length() {
    let mut set: QSet<bool> = QSet::default();
    assert!(set.is_empty());
    set.insert(false);
    assert!(!set.is_empty());
    set.remove(&false);
    assert!(set.is_empty());
}

#[test]
fn reserve_zero_changes_nothing() {
    let mut set = set_of(&[10, 20, 30]);
    let before = collect(&set);
    set.reserve(0);
    assert_eq!(set.len(), 3);
    assert_eq!(collect(&set), before);
    let mut empty: QSet<i32> = QSet::default();
    empty.reserve(0);
    assert_eq!(empty.len(), 0);
    assert!(collect(&empty).is_empty());
}

#[test]
fn reserve_of_any_size_changes_nothing() {
    let mut set = set_of(&[10, 20, 30]);
    let before = collect(&set);
    set.reserve(-1);
    assert_eq!(collect(&set), before);
    set.reserve(isize::MIN);
    assert_eq!(collect(&set), before);
    set.reserve(2);
    assert_eq!(collect(&set), before);
    set.reserve(1000);
    assert_eq!(collect(&set), before);
    set.reserve(isize::MAX);
    assert_eq!(collect(&set), before);
    assert_eq!(set.len(), 3);
}

#[test]
fn reserve_usize_changes_nothing() {
    let mut set = set_of(&[10, 20, 30]);
    let before = collect(&set);
    set.reserve_usize(0);
    assert_eq!(collect(&set), before);
    set.reserve_usize(64);
    assert_eq!(collect(&set), before);
    set.reserve_usize(usize::MAX);
    assert_eq!(collect(&set), before);
    assert_eq!(set.len(), 3);
}

#[test]
fn reserve_request_is_none_for_zero() {
    assert_eq!(reserve_request(0), None);
}

#[test]
fn reserve_request_keeps_sizes_that_fit() {
    assert_eq!(reserve_request(1), Some(1));
    assert_eq!(reserve_request(4096), Some(4096));
    assert_eq!(reserve_request(isize::MAX as usize), Some(isize::MAX));
}

#[test]
fn reserve_request_saturates() {
    assert_eq!(reserve_request(isize::MAX as usize + 1), Some(isize::MAX));
    assert_eq!(reserve_request(usize::MAX), Some(isize::MAX));
}

#[test]
fn eq_ignores_order_of_insertion() {
    let a = set_of(&[1, 2, 3]);
    let b = set_of(&[3, 1, 2]);
    assert!(a == b);
    assert!(b == a);
    assert_ne!(collect(&a), collect(&b));
}

#[test]
fn eq_is_false_for_different_lengths() {
    let a = set_of(&[1, 2, 3]);
    let b = set_of(&[1, 2]);
    assert!(a != b);
    assert!(b != a);
}

#[test]
fn eq_is_false_for_same_length_and_different_elements() {
    let a = set_of(&[1, 2, 3]);
    let b = set_of(&[1, 2, 4]);
    assert!(a != b);
    assert!(b != a);
}

#[test]
fn extend_empty_with_distinct_elements_twice() {
    let items = [7, 8, 9, 10, 11];
    let mut set: QSet<i32> = QSet::default();
    set.extend(items.iter());
    assert_eq!(set.len(), 5);
    set.extend(items.iter());
    assert_eq!(set.len(), 5);
    for item in items.iter() {
        assert!(set.contains(item));
    }
}

#[test]
fn extend_adds_to_what_is_there() {
    let mut set = set_of(&[1, 2]);
    set.extend([2, 3, 3, 4].iter());
    assert!(set == set_of(&[1, 2, 3, 4]));
    set.extend([].iter());
    assert_eq!(set.len(), 4);
}

#[test]
fn extend_by_value() {
    let mut set: QSet<i16> = QSet::default();
    set.extend(vec![-1, 0, 1, 0].into_iter());
    assert_eq!(set.len(), 3);
    assert!(set.contains(&-1));
    assert!(set.contains(&0));
    assert!(set.contains(&1));
    set.extend(2..5);
    assert_eq!(set.len(), 6);
    assert!(set.contains(&4));
    assert!(!set.contains(&5));
}

#[test]
fn from_iter_by_value() {
    let set: QSet<u8> = QSet::from_iter(vec![255, 0, 255, 7].into_iter());
    assert_eq!(set.len(), 3);
    assert!(set.contains(&255));
    assert!(set.contains(&0));
    assert!(set.contains(&7));
}

#[test]
fn from_iter_of_nothing_is_empty() {
    let items: Vec<i64> = Vec::new();
    let set: QSet<i64> = QSet::from_iter(items.iter());
    assert!(set.is_empty());
    assert!(set == QSet::default());
}

#[test]
fn bool_set_holds_at_most_two() {
    let mut set: QSet<bool> = QSet::default();
    set.insert(true);
    set.insert(false);
    set.insert(true);
    set.insert(false);
    assert_eq!(set.len(), 2);
    assert!(set.contains(&true));
    assert!(set.contains(&false));
}

#[test]
fn signed_elements_of_every_width() {
    let mut a: QSet<i8> = QSet::default();
    a.insert(i8::MIN);
    a.insert(i8::MAX);
    a.insert(i8::MIN);
    assert_eq!(a.len(), 2);
    assert!(a.contains(&i8::MIN) && a.contains(&i8::MAX) && !a.contains(&0));
    let mut b: QSet<i16> = QSet::default();
    b.insert(i16::MIN);
    b.insert(i16::MAX);
    assert_eq!(b.len(), 2);
    assert!(b.contains(&i16::MIN) && !b.contains(&0));
    let mut c: QSet<i32> = QSet::default();
    c.insert(i32::MIN);
    c.insert(i32::MAX);
    assert_eq!(c.len(), 2);
    assert!(c.contains(&i32::MAX) && !c.contains(&0));
    let mut d: QSet<i64> = QSet::default();
    d.insert(i64::MIN);
    d.insert(i64::MAX);
    d.insert(i64::MAX);
    assert_eq!(d.len(), 2);
    assert!(d.contains(&i64::MIN) && !d.contains(&0));
}

#[test]
fn unsigned_elements_of_every_width() {
    let mut a: QSet<u8> = QSet::default();
    a.insert(0);
    a.insert(u8::MAX);
    a.insert(0);
    assert_eq!(a.len(), 2);
    assert!(a.contains(&u8::MAX) && !a.contains(&1));
    let mut b: QSet<u16> = QSet::default();
    b.insert(u16::MAX);
    assert_eq!(b.len(), 1);
    assert!(b.contains(&u16::MAX) && !b.contains(&0));
    let mut c: QSet<u32> = QSet::default();
    c.insert(u32::MAX);
    c.insert(0);
    assert_eq!(c.len(), 2);
    assert!(c.remove(&u32::MAX));
    assert!(!c.contains(&u32::MAX));
    let mut d: QSet<u64> = QSet::default();
    d.insert(u64::MAX);
    d.insert(1);
    assert_eq!(d.len(), 2);
    assert!(d.contains(&1) && !d.contains(&0));
}

#[test]
fn strings_are_compared_by_content() {
    let mut set: QSet<String> = QSet::default();
    set.insert_clone(&String::from("a"));
    set.insert_clone(&String::from("A"));
    set.insert_clone(&String::new());
    set.insert_clone(&String::from("a"));
    assert_eq!(set.len(), 3);
    assert!(set.remove(&String::new()));
    assert!(!set.remove(&String::from("b")));
    assert_eq!(set.len(), 2);
    let copy = set.clone();
    assert!(copy == set);
}

#[test]
fn byte_buffers_are_compared_by_content() {
    let mut set: QSet<Vec<u8>> = QSet::default();
    set.insert_clone(&vec![1, 2, 3]);
    set.insert_clone(&vec![1, 2]);
    set.insert_clone(&Vec::new());
    set.insert_clone(&vec![1, 2, 3]);
    assert_eq!(set.len(), 3);
    assert!(set.contains(&vec![1, 2]));
    assert!(!set.contains(&vec![3, 2, 1]));
    assert!(set.remove(&Vec::new()));
    assert_eq!(set.len(), 2);
    let buffers = vec![vec![1u8, 2], vec![1u8, 2, 3]];
    let other: QSet<Vec<u8>> = QSet::from_iter(buffers.iter());
    assert!(set == other);
}

#[test]
fn equal_sets_stay_equal_under_the_same_change() {
    let mut a = set_of(&[1, 2, 3]);
    let mut b = set_of(&[3, 2, 1]);
    a.insert(4);
    b.insert(4);
    assert!(a == b);
    a.remove(&1);
    assert!(a != b);
    b.remove(&1);
    assert!(a == b);
    a.clear();
    b.clear();
    assert!(a == b);
}
