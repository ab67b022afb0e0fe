use wyst::utils::copy_map::CopyMapEntryMut;
use wyst::utils::map::MapEntryMut;
use wyst::utils::{WystCopyMap, WystMap, WystSet};

#[test]
fn copy_map_insert_get_delete() {
    let mut m: WystCopyMap<usize, u64> = WystCopyMap::empty();
    m.insert(3, 30);
    m.insert(1, 10);
    assert_eq!(m.get(3), Some(30));
    assert_eq!(m.get(1), Some(10));
    assert_eq!(m.get(2), None);
    m.insert(3, 31);
    assert_eq!(m.get(3), Some(31));
    assert_eq!(m.len(), 2);
    assert_eq!(m.delete(3), Some(31));
    assert_eq!(m.get(3), None);
    assert_eq!(m.delete(3), None);
    assert_eq!(m.iter(), vec![(1, 10)]);
}

#[test]
fn copy_map_delete_moves_last_entry() {
    let mut m: WystCopyMap<usize, u64> = WystCopyMap::empty();
    m.insert(1, 10);
    m.insert(2, 20);
    m.insert(3, 30);
    m.delete(1);
    assert_eq!(m.iter(), vec![(3, 30), (2, 20)]);
}

#[test]
fn copy_map_entry_upsert_and_extract() {
    let mut m: WystCopyMap<usize, u64> = WystCopyMap::empty();
    m.entry_mut(5).upsert(|| 1, |v| v + 10);
    assert_eq!(m.get(5), Some(11));
    m.entry_mut(5).upsert(|| 1, |v| v + 10);
    assert_eq!(m.get(5), Some(21));
    let got = m.entry_mut(5).extract(|v| (v * 2, v));
    assert_eq!(got, Some(21));
    assert_eq!(m.get(5), Some(42));
    assert_eq!(m.entry_mut(6).extract(|v| (v, v)), None);
    assert!(matches!(m.entry_mut(6), CopyMapEntryMut::Vacant(_)));
    assert_eq!(m.entry(5).get(), Some(42));
    assert_eq!(m.entry_mut(5).delete(), Some(42));
    assert_eq!(m.entry(5).get(), None);
}

#[test]
fn map_insert_get_delete() {
    let mut m: WystMap<usize, Vec<u8>> = WystMap::empty();
    m.insert(1, vec![1]);
    m.insert(2, vec![2, 2]);
    assert_eq!(m.get(1), Some(&vec![1]));
    assert_eq!(m.get(2), Some(&vec![2, 2]));
    m.delete(1);
    assert_eq!(m.get(1), None);
    assert_eq!(m.len(), 1);
}

#[test]
fn map_entry_upsert_and_extract() {
    let mut m: WystMap<usize, Vec<u8>> = WystMap::empty();
    m.entry_mut(1).upsert(|| vec![], |v| v.push(7));
    assert_eq!(m.get(1), Some(&vec![7]));
    m.entry_mut(1).upsert(|| vec![], |v| v.push(8));
    assert_eq!(m.get(1), Some(&vec![7, 8]));
    let popped = m.entry_mut(1).extract(|v| v.pop());
    assert_eq!(popped, Some(Some(8)));
    assert_eq!(m.entry(1).get(), Some(&vec![7]));
    assert!(matches!(m.entry_mut(9), MapEntryMut::Vacant(_)));
    m.entry_mut(1).delete();
    assert_eq!(m.entry(1).get(), None);
}

#[test]
fn set_add_has_delete() {
    let mut s: WystSet<u64> = WystSet::empty();
    s.add(4);
    s.add(2);
    s.add(4);
    assert!(s.has(4));
    assert!(s.has(2));
    assert!(!s.has(3));
    assert_eq!(s.len(), 2);
    assert_eq!(s.iter(), vec![4, 2]);
    s.delete(4);
    assert!(!s.has(4));
    assert_eq!(s.iter(), vec![2]);
}

#[test]
fn map_iter_and_entry_get() {
    let mut m: WystMap<usize, Vec<u8>> = WystMap::empty();
    m.insert(2, vec![2]);
    m.insert(1, vec![1]);
    let entries = m.iter();
    assert_eq!(entries, vec![(2, &vec![2]), (1, &vec![1])]);
    assert_eq!(m.entry_mut(2).get(), Some(&vec![2]));
    assert_eq!(m.entry_mut(3).get(), None);
    if let Some(v) = m.get_mut(1) {
        v.push(9);
    }
    assert_eq!(m.get(1), Some(&vec![1, 9]));
}
