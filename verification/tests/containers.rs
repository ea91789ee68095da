use hangul::ext::{OrderedMap, Tree};
use hangul::tui::ext::upper_bound;

#[test]
fn test_upper_bound() {
    //           0  1  2  3  4  5  6  7  8  9   10  11   12   13
    let v = vec![1, 2, 3, 3, 3, 3, 4, 5, 9, 10, 23, 543, 611];
    assert_eq!(
        upper_bound(&v, &0usize, |val: &usize, el: &usize| val.cmp(el)),
        0usize
    );
    assert_eq!(
        upper_bound(&v, &3usize, |val: &usize, el: &usize| val.cmp(el)),
        6usize
    );
    assert_eq!(
        upper_bound(&v, &10usize, |val: &usize, el: &usize| val.cmp(el)),
        10usize
    );
    assert_eq!(
        upper_bound(&v, &611usize, |val: &usize, el: &usize| val.cmp(el)),
        v.len()
    );
}

#[test]
fn tree_stores_and_finds_values_by_key() {
    let mut t: Tree<u32> = Tree::new();
    t.insert(&['a'], 1);
    t.insert(&['a', 'b'], 2);
    t.insert(&['a', 'c'], 3);
    t.insert(&['b'], 4);
    assert_eq!(t.get(&['a']), Some(&1));
    assert_eq!(t.get(&['a', 'b']), Some(&2));
    assert_eq!(t.get(&['a', 'c']), Some(&3));
    assert_eq!(t.get(&['b']), Some(&4));
    assert_eq!(t.get(&['c']), None);
    assert_eq!(t.get(&['a', 'b', 'c']), None);
    // overwriting keeps every other key
    t.insert(&['a', 'b'], 20);
    assert_eq!(t.get(&['a', 'b']), Some(&20));
    assert_eq!(t.get(&['a']), Some(&1));
}

#[test]
fn tree_string_interface_and_subtrees() {
    let mut t: Tree<u32> = Tree::new();
    t.insert_str("go", 1);
    t.insert_str("gone", 2);
    t.insert_str("ga", 3);
    assert_eq!(t.get_str("go"), Some(1));
    assert_eq!(t.get_str("gone"), Some(2));
    assert_eq!(t.get_str("gon"), None);
    let sub = t.get_tree(&['g', 'o']).unwrap();
    let vals: Vec<u32> = sub.all().into_iter().copied().collect();
    assert_eq!(vals, vec![1, 2]);
    assert!(t.get_tree(&['x']).is_none());
    // with_prefix yields full spellings, children in character order
    let hits = t.with_prefix("g");
    let pairs: Vec<(&str, u32)> = hits.iter().map(|(s, v)| (s.as_str(), *v)).collect();
    assert_eq!(pairs, vec![("ga", 3), ("go", 1), ("gone", 2)]);
    // all_path from the root carries the recorded paths
    let paths = t.all_path();
    assert_eq!(paths.len(), 3);
    assert_eq!(paths[0].0, vec!['g', 'a']);
    assert_eq!(*paths[0].1, 3);
}

#[test]
fn ordered_map_keeps_keys_sorted_and_unique() {
    let mut m: OrderedMap<usize, &str> = OrderedMap::new();
    assert_eq!(m.len(), 0);
    assert_eq!(m.insert(5, "five"), None);
    assert_eq!(m.insert(1, "one"), None);
    assert_eq!(m.insert(9, "nine"), None);
    assert_eq!(m.len(), 3);
    assert_eq!(m.entry_at(0), &(1, "one"));
    assert_eq!(m.entry_at(1), &(5, "five"));
    assert_eq!(m.entry_at(2), &(9, "nine"));
    // replacing yields the old value back
    assert_eq!(m.insert(5, "FIVE"), Some((5, "five")));
    assert_eq!(m.len(), 3);
    assert_eq!(m.value(&5), Some(&"FIVE"));
    assert_eq!(m.key_index(&9), Some(2));
    assert_eq!(m.key_index(&2), None);
    assert_eq!(m.get_entry(&1), Some(&(1, "one")));
    assert_eq!(m.remove(&5), Some((5, "FIVE")));
    assert_eq!(m.len(), 2);
    assert_eq!(m.remove(&5), None);
    assert_eq!(m.entries().len(), 2);
}
