use tokenizer_bridge::handle_table::HandleTable;
use tokenizer_bridge::handle_table::MAX_SLOTS;
use tokenizer_bridge::handle_table::NULL_HANDLE;

#[test]
fn sentinel_is_zero() {
    assert_eq!(NULL_HANDLE, 0);
    assert_eq!(MAX_SLOTS, 4_294_967_295);
}

#[test]
fn new_table_holds_nothing() {
    let table: HandleTable<String> = HandleTable::new();
    assert!(table.get(NULL_HANDLE).is_none());
    assert!(table.get(1).is_none());
    assert!(table.get(u64::MAX).is_none());
}

#[test]
fn insert_issues_a_handle_that_names_the_value() {
    let mut table = HandleTable::new();
    let handle = table.insert(String::from("first")).unwrap();
    assert_ne!(handle, NULL_HANDLE);
    assert_eq!(table.get(handle), Some(&String::from("first")));
}

#[test]
fn first_handles_count_up_from_one() {
    let mut table = HandleTable::new();
    assert_eq!(table.insert('a'), Ok(1));
    assert_eq!(table.insert('b'), Ok(2));
    assert_eq!(table.insert('c'), Ok(3));
}

#[test]
fn handles_are_distinct() {
    let mut table = HandleTable::new();
    let mut seen = Vec::new();
    for value in 0..100u32 {
        let handle = table.insert(value).unwrap();
        assert!(!seen.contains(&handle));
        seen.push(handle);
    }
    for (value, handle) in seen.iter().enumerate() {
        assert_eq!(table.get(*handle), Some(&(value as u32)));
    }
}

#[test]
fn remove_hands_the_value_back_once() {
    let mut table = HandleTable::new();
    let handle = table.insert(String::from("only")).unwrap();
    assert_eq!(table.remove(handle), Some(String::from("only")));
    assert_eq!(table.get(handle), None);
    assert_eq!(table.remove(handle), None);
}

#[test]
fn removing_the_sentinel_changes_nothing() {
    let mut table = HandleTable::new();
    let a = table.insert(10u32).unwrap();
    let b = table.insert(20u32).unwrap();
    assert_eq!(table.remove(NULL_HANDLE), None);
    assert_eq!(table.get(a), Some(&10));
    assert_eq!(table.get(b), Some(&20));
}

#[test]
fn removing_an_unknown_handle_changes_nothing() {
    let mut table = HandleTable::new();
    let a = table.insert(10u32).unwrap();
    for unknown in [2u64, 77, 1 << 32, (1 << 32) + 1, u64::MAX] {
        assert_eq!(table.remove(unknown), None);
    }
    assert_eq!(table.get(a), Some(&10));
}

#[test]
fn removing_one_handle_leaves_the_others() {
    let mut table = HandleTable::new();
    let a = table.insert(String::from("a")).unwrap();
    let b = table.insert(String::from("b")).unwrap();
    let c = table.insert(String::from("c")).unwrap();
    assert_eq!(table.remove(b), Some(String::from("b")));
    assert_eq!(table.get(a), Some(&String::from("a")));
    assert_eq!(table.get(b), None);
    assert_eq!(table.get(c), Some(&String::from("c")));
}

#[test]
fn a_reused_slot_gets_a_new_handle() {
    let mut table = HandleTable::new();
    let old = table.insert(1u32).unwrap();
    assert_eq!(table.remove(old), Some(1));
    let new = table.insert(2u32).unwrap();
    assert_ne!(new, old);
    assert_ne!(new, NULL_HANDLE);
    // same slot, next epoch
    assert_eq!(new & 0xFFFF_FFFF, old & 0xFFFF_FFFF);
    assert_eq!(new >> 32, (old >> 32) + 1);
    assert_eq!(table.get(old), None);
    assert_eq!(table.get(new), Some(&2));
}

#[test]
fn a_spent_handle_stays_spent() {
    let mut table = HandleTable::new();
    let spent = table.insert(0u32).unwrap();
    assert_eq!(table.remove(spent), Some(0));
    for round in 1..=50u32 {
        let handle = table.insert(round).unwrap();
        assert_ne!(handle, spent);
        assert_eq!(table.get(spent), None);
        assert_eq!(table.remove(spent), None);
        assert_eq!(table.get(handle), Some(&round));
        if round % 2 == 0 {
            assert_eq!(table.remove(handle), Some(round));
        }
    }
}

#[test]
fn freed_slots_are_filled_before_new_ones_are_made() {
    let mut table = HandleTable::new();
    let a = table.insert('a').unwrap();
    let b = table.insert('b').unwrap();
    let c = table.insert('c').unwrap();
    assert_eq!(table.remove(a), Some('a'));
    assert_eq!(table.remove(c), Some('c'));
    let d = table.insert('d').unwrap();
    let e = table.insert('e').unwrap();
    let f = table.insert('f').unwrap();
    let slot = |handle: u64| handle & 0xFFFF_FFFF;
    assert_eq!(slot(d), slot(c));
    assert_eq!(slot(e), slot(a));
    assert_eq!(slot(f), 4);
    assert_eq!(table.get(b), Some(&'b'));
    assert_eq!(table.get(d), Some(&'d'));
    assert_eq!(table.get(e), Some(&'e'));
    assert_eq!(table.get(f), Some(&'f'));
}

#[test]
fn a_handle_of_another_epoch_is_rejected() {
    let mut table = HandleTable::new();
    let handle = table.insert(5u32).unwrap();
    assert_eq!(table.get(handle + (1 << 32)), None);
    assert_eq!(table.remove(handle + (1 << 32)), None);
    assert_eq!(table.get(handle), Some(&5));
}
