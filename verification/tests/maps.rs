use scmstore::assoc::{AssocMap, KeySet};
use scmstore::keys::{HgId, Key};

fn map_key(path: &str, id: u8) -> Key {
    Key::new(path.as_bytes().to_vec(), HgId::from_bytes([id; 20]))
}

#[test]
fn assoc_map_insert_get_remove() {
    let mut m: AssocMap<Key, Vec<u8>> = AssocMap::new();
    assert!(m.is_empty());
    assert!(m.insert(map_key("a", 1), vec![1]).is_none());
    assert!(m.insert(map_key("b", 1), vec![2]).is_none());
    assert!(m.insert(map_key("a", 2), vec![3]).is_none());
    assert_eq!(m.len(), 3);
    assert_eq!(m.get(&map_key("a", 1)), Some(&vec![1]));
    assert_eq!(m.get(&map_key("b", 1)), Some(&vec![2]));
    assert_eq!(m.get(&map_key("b", 2)), None);
    // Replacing keeps the place in the order.
    assert_eq!(m.insert(map_key("a", 1), vec![9]), Some(vec![1]));
    assert_eq!(m.len(), 3);
    assert_eq!(m.key_at(0).path, b"a".to_vec());
    assert_eq!(m.value_at(0), &vec![9]);
    assert_eq!(m.remove(&map_key("b", 1)), Some(vec![2]));
    assert_eq!(m.remove(&map_key("b", 1)), None);
    assert_eq!(m.len(), 2);
    assert!(!m.contains_key(&map_key("b", 1)));
    assert_eq!(m.key_at(1).hgid.bytes, [2u8; 20]);
    assert_eq!(m.position(&map_key("a", 2)), Some(1));
    let last = m.pop().unwrap();
    assert_eq!(last.1, vec![3]);
    assert_eq!(m.len(), 1);
}

#[test]
fn key_set_keeps_order_and_ignores_repeats() {
    let mut s: KeySet<Key> = KeySet::new();
    assert!(s.insert(map_key("x", 1)));
    assert!(s.insert(map_key("y", 1)));
    assert!(!s.insert(map_key("x", 1)));
    assert_eq!(s.len(), 2);
    assert!(s.contains(&map_key("y", 1)));
    assert!(!s.contains(&map_key("y", 2)));
    let copy = s.duplicate();
    assert!(s.remove(&map_key("x", 1)));
    assert!(!s.remove(&map_key("x", 1)));
    assert_eq!(s.len(), 1);
    assert_eq!(s.key_at(0).path, b"y".to_vec());
    assert_eq!(copy.len(), 2);
    assert_eq!(copy.key_at(0).path, b"x".to_vec());
    assert_eq!(s.pop().unwrap().path, b"y".to_vec());
    assert!(s.pop().is_none());
    assert!(s.is_empty());
}
