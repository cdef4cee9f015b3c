use rod_map::families::Families;
use rod_map::order::rank;
use rod_map::order::same_key;
use rod_map::order::Rank;
use rod_map::scanned_index::ScannedIndex;
use rod_map::sorted_index::SortedIndex;
use std::sync::Arc;

#[test]
fn rank_follows_the_order_of_the_keys() {
    assert_eq!(rank(&1u32, &2u32), Rank::Before);
    assert_eq!(rank(&2u32, &2u32), Rank::Same);
    assert_eq!(rank(&3u32, &2u32), Rank::After);
    assert_eq!(rank(&"a", &"b"), Rank::Before);
}

#[test]
fn same_key_is_equality() {
    assert!(same_key(&"a", &"a"));
    assert!(!same_key(&"a", &"b"));
    assert!(same_key(&7u64, &7u64));
}

#[test]
fn families_count_their_holders() {
    let mut families = Families::new();
    assert_eq!(families.holders(0), 0);
    let a = families.found();
    assert_eq!(a, 0);
    assert_eq!(families.holders(a), 1);
    assert!(families.join(a));
    assert_eq!(families.holders(a), 2);
    families.leave(a);
    assert_eq!(families.holders(a), 1);
    families.leave(a);
    assert_eq!(families.holders(a), 0);
    families.leave(a);
    assert_eq!(families.holders(a), 0);
    assert!(!families.join(a));
    assert_eq!(families.holders(a), 0);
}

#[test]
fn families_number_anew_what_is_free() {
    let mut families = Families::new();
    let a = families.found();
    let b = families.found();
    let c = families.found();
    assert_eq!((a, b, c), (0, 1, 2));
    families.leave(b);
    assert_eq!(families.found(), 1);
    assert_eq!(families.found(), 3);
}

#[test]
fn sorted_index_starts_empty() {
    let mut index: SortedIndex<u32, &str> = SortedIndex::new();
    assert_eq!(index.len(), 0);
    assert!(index.is_empty());
    assert!(index.get(&5).is_none());
    assert_eq!(index.len(), 0);
}

#[test]
fn sorted_index_never_inserted_key_is_absent() {
    let mut index: SortedIndex<u32, &str> = SortedIndex::new();
    let one = index.insert(1, "one");
    let three = index.insert(3, "three");
    assert!(index.get(&0).is_none());
    assert!(index.get(&2).is_none());
    assert!(index.get(&4).is_none());
    assert_eq!(index.len(), 2);
    index.release(one.family);
    index.release(three.family);
    assert!(index.get(&2).is_none());
    assert!(index.is_empty());
}

#[test]
fn sorted_index_insert_then_get() {
    let mut index: SortedIndex<u32, &str> = SortedIndex::new();
    let first = index.insert(7, "seven");
    assert_eq!(*first.value, "seven");
    assert_eq!(index.len(), 1);
    assert!(!index.is_empty());
    let second = index.get(&7).unwrap();
    assert_eq!(second.family, first.family);
    assert_eq!(*second.value, "seven");
    assert!(Arc::ptr_eq(&first.value, &second.value));
    assert_eq!(index.len(), 1);
}

#[test]
fn sorted_index_sole_release_removes() {
    let mut index: SortedIndex<u32, &str> = SortedIndex::new();
    let a = index.insert(1, "a");
    let b = index.insert(2, "b");
    assert_eq!(index.len(), 2);
    let gone = index.release(a.family).unwrap();
    assert_eq!(*gone.key_ref(), 1);
    assert_eq!(gone.family_of(), a.family);
    assert_eq!(index.len(), 1);
    assert!(index.get(&1).is_none());
    let gone = index.release(b.family).unwrap();
    assert_eq!(*gone.key_ref(), 2);
    assert!(index.is_empty());
}

#[test]
fn sorted_index_second_holder_keeps_entry() {
    let mut index: SortedIndex<u32, &str> = SortedIndex::new();
    let first = index.insert(1, "a");
    let second = index.get(&1).unwrap();
    assert!(index.release(first.family).is_none());
    assert_eq!(index.len(), 1);
    let third = index.get(&1).unwrap();
    assert_eq!(*third.value, "a");
    index.release(third.family);
    assert_eq!(index.len(), 1);
    assert!(index.release(second.family).is_some());
    assert!(index.is_empty());
    assert!(index.get(&1).is_none());
}

#[test]
fn sorted_index_release_of_a_dead_family_changes_nothing() {
    let mut index: SortedIndex<u32, &str> = SortedIndex::new();
    let a = index.insert(1, "a");
    assert!(index.release(a.family + 1).is_none());
    assert_eq!(index.len(), 1);
    assert!(index.release(a.family).is_some());
    assert!(index.release(a.family).is_none());
    assert!(index.is_empty());
}

#[test]
fn sorted_index_keeps_keys_in_any_order_of_arrival() {
    let mut index: SortedIndex<u32, u32> = SortedIndex::new();
    let keys = [50u32, 10, 40, 20, 30, 60, 0];
    let mut tickets = Vec::new();
    for k in keys {
        tickets.push(index.insert(k, k * 2));
    }
    assert_eq!(index.len(), 7);
    for k in keys {
        assert_eq!(*index.get(&k).unwrap().value, k * 2);
    }
    assert!(index.get(&35).is_none());
    for t in &tickets {
        index.release(t.family);
    }
    assert_eq!(index.len(), 7);
    for t in &tickets {
        index.release(t.family);
    }
    assert!(index.is_empty());
}

#[test]
fn sorted_index_insert_of_a_present_key_replaces() {
    let mut index: SortedIndex<&str, u32> = SortedIndex::new();
    let old = index.insert("k", 1);
    let new = index.insert("k", 2);
    assert_ne!(old.family, new.family);
    assert_eq!(index.len(), 1);
    assert_eq!(*old.value, 1);
    let found = index.get(&"k").unwrap();
    assert_eq!(found.family, new.family);
    assert_eq!(*found.value, 2);
    index.release(found.family);

    // The replaced family goes alone: the key leads to the new family.
    assert!(index.release(old.family).is_none());
    assert_eq!(index.holders(old.family), 0);
    assert_eq!(index.len(), 1);
    assert_eq!(*index.get(&"k").unwrap().value, 2);
    index.release(new.family);

    let gone = index.release(new.family).unwrap();
    assert_eq!(*gone.key_ref(), "k");
    assert!(index.is_empty());
    assert!(index.get(&"k").is_none());
}

#[test]
fn scanned_index_starts_empty() {
    let mut index: ScannedIndex<&str, u32> = ScannedIndex::new();
    assert_eq!(index.len(), 0);
    assert!(index.is_empty());
    assert!(index.get(&"a").is_none());
}

#[test]
fn scanned_index_insert_get_release() {
    let mut index: ScannedIndex<&str, u32> = ScannedIndex::new();
    let a = index.insert("a", 1);
    let b = index.insert("b", 2);
    let c = index.insert("c", 3);
    assert_eq!(index.len(), 3);
    assert!(index.get(&"d").is_none());
    let again = index.get(&"b").unwrap();
    assert_eq!(again.family, b.family);
    assert_eq!(*again.value, 2);
    assert!(index.release(b.family).is_none());
    assert_eq!(index.len(), 3);
    let gone = index.release(again.family).unwrap();
    assert_eq!(*gone.key_ref(), "b");
    assert_eq!(index.len(), 2);
    assert!(index.get(&"b").is_none());
    assert_eq!(*index.get(&"a").unwrap().value, 1);
    assert_eq!(*index.get(&"c").unwrap().value, 3);
    index.release(a.family);
    index.release(a.family);
    index.release(c.family);
    index.release(c.family);
    assert!(index.is_empty());
}

#[test]
fn scanned_index_insert_of_a_present_key_replaces() {
    let mut index: ScannedIndex<&str, u32> = ScannedIndex::new();
    let old = index.insert("k", 1);
    let new = index.insert("k", 2);
    assert_eq!(index.len(), 1);
    assert_eq!(*index.get(&"k").unwrap().value, 2);
    index.release(new.family);
    index.release(old.family);
    assert_eq!(index.len(), 1);
    assert_eq!(*old.value, 1);
    index.release(new.family);
    assert!(index.is_empty());
    assert_eq!(*new.value, 2);
}

#[test]
fn sorted_index_counts_the_holders_of_a_family() {
    let mut index: SortedIndex<u32, &str> = SortedIndex::new();
    assert_eq!(index.holders(0), 0);
    let first = index.insert(9, "nine");
    assert_eq!(index.holders(first.family), 1);
    let second = index.get(&9).unwrap();
    assert_eq!(index.holders(first.family), 2);
    index.get(&8);
    assert_eq!(index.holders(first.family), 2);
    index.release(second.family);
    assert_eq!(index.holders(first.family), 1);
    index.release(first.family);
    assert_eq!(index.holders(first.family), 0);
}

#[test]
fn scanned_index_counts_the_holders_of_a_family() {
    let mut index: ScannedIndex<&str, u32> = ScannedIndex::new();
    let first = index.insert("nine", 9);
    assert_eq!(index.holders(first.family), 1);
    index.get(&"nine").unwrap();
    index.get(&"nine").unwrap();
    assert_eq!(index.holders(first.family), 3);
    index.release(first.family);
    index.release(first.family);
    assert_eq!(index.holders(first.family), 1);
    assert_eq!(index.len(), 1);
    index.release(first.family);
    assert_eq!(index.holders(first.family), 0);
    assert!(index.is_empty());
}

#[test]
fn sorted_index_many_distinct_keys_are_all_found() {
    let mut index: SortedIndex<u64, u64> = SortedIndex::new();
    let mut tickets = Vec::new();
    for k in 0..100u64 {
        tickets.push(index.insert((k * 37) % 101, k));
    }
    assert_eq!(index.len(), 100);
    for k in 0..100u64 {
        let found = index.get(&((k * 37) % 101)).unwrap();
        assert_eq!(*found.value, k);
        assert_eq!(found.family, tickets[k as usize].family);
    }
}

#[test]
fn scanned_index_many_distinct_keys_are_all_found() {
    let mut index: ScannedIndex<u64, u64> = ScannedIndex::new();
    let mut tickets = Vec::new();
    for k in 0..100u64 {
        tickets.push(index.insert((k * 37) % 101, k));
    }
    assert_eq!(index.len(), 100);
    for k in 0..100u64 {
        let found = index.get(&((k * 37) % 101)).unwrap();
        assert_eq!(*found.value, k);
        assert_eq!(found.family, tickets[k as usize].family);
    }
}
