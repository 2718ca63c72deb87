use singletons::map::ReserveError;
use singletons::{SingletonMap, Type};

fn names(map: &SingletonMap<String>) -> Vec<Type> {
    map.keys().collect().into_iter().copied().collect()
}

#[test]
fn two_keys_give_two_entries() {
    let mut map: SingletonMap<i32> = SingletonMap::new();
    assert_eq!(map.insert::<u8>("u8", 10), None);
    assert_eq!(map.insert::<u16>("u16", 20), None);
    assert_eq!(map.len(), 2);
    assert_eq!(map.get::<u8>(), Some(&10));
    assert_eq!(map.get::<u16>(), Some(&20));
}

#[test]
fn insert_again_replaces_and_returns_prior_value() {
    let mut map: SingletonMap<i32> = SingletonMap::new();
    assert_eq!(map.insert::<u8>("u8", 1), None);
    assert_eq!(map.insert::<u8>("u8", 2), Some(1));
    assert_eq!(map.get::<u8>(), Some(&2));
    assert_eq!(map.len(), 1);
}

#[test]
fn insert_again_keeps_the_place_of_the_entry() {
    let mut map: SingletonMap<String> = SingletonMap::new();
    map.insert::<u8>("u8", "a".to_string());
    map.insert::<u16>("u16", "b".to_string());
    map.insert::<u32>("u32", "c".to_string());
    assert_eq!(map.insert::<u8>("u8", "z".to_string()), Some("a".to_string()));
    assert_eq!(
        names(&map),
        vec![Type::of::<u8>("u8"), Type::of::<u16>("u16"), Type::of::<u32>("u32")]
    );
    let values: Vec<&String> = map.values().collect();
    assert_eq!(values, vec!["z", "b", "c"]);
}

#[test]
fn insert_again_keeps_the_key_that_was_there() {
    let mut map: SingletonMap<i32> = SingletonMap::new();
    map.insert_key(Type::of::<u8>("u8").with_description("first"), 1);
    assert_eq!(
        map.insert_key(Type::of::<u8>("u8").with_description("second"), 2),
        Some(1)
    );
    let keys = map.keys().collect();
    assert_eq!(keys.len(), 1);
    assert_eq!(keys[0].as_str(), "first");
    assert_eq!(map.get_key(Type::of::<u8>("u8")), Some(&2));
}

#[test]
fn removal_keeps_the_order_of_the_rest() {
    let mut map: SingletonMap<String> = SingletonMap::new();
    map.insert::<u8>("u8", "one".to_string());
    map.insert::<u16>("u16", "two".to_string());
    map.insert::<u32>("u32", "three".to_string());
    assert_eq!(map.remove::<u16>(), Some("two".to_string()));
    assert_eq!(names(&map), vec![Type::of::<u8>("u8"), Type::of::<u32>("u32")]);
    let values: Vec<&String> = map.values().collect();
    assert_eq!(values, vec!["one", "three"]);
    assert_eq!(map.get::<u32>(), Some(&"three".to_string()));
}

#[test]
fn removal_of_first_and_last() {
    let mut map: SingletonMap<i32> = SingletonMap::new();
    map.insert::<u8>("u8", 1);
    map.insert::<u16>("u16", 2);
    map.insert::<u32>("u32", 3);
    map.insert::<u64>("u64", 4);
    assert_eq!(map.remove::<u8>(), Some(1));
    assert_eq!(map.remove::<u64>(), Some(4));
    let values: Vec<&i32> = map.values().collect();
    assert_eq!(values, vec![&2, &3]);
    assert_eq!(map.get::<u16>(), Some(&2));
    assert_eq!(map.get::<u32>(), Some(&3));
    assert_eq!(map.insert::<u8>("u8", 5), None);
    let values: Vec<&i32> = map.values().collect();
    assert_eq!(values, vec![&2, &3, &5]);
}

#[test]
fn contains_key_only_between_insert_and_remove() {
    let mut map: SingletonMap<i32> = SingletonMap::new();
    assert!(!map.contains_key::<u8>());
    map.insert::<u8>("u8", 1);
    assert!(map.contains_key::<u8>());
    map.insert::<u8>("u8", 2);
    assert!(map.contains_key::<u8>());
    map.remove::<u8>();
    assert!(!map.contains_key::<u8>());
    assert_eq!(map.remove::<u8>(), None);
    assert!(!map.contains_key::<u8>());
}

#[test]
fn or_insert_twice_inserts_once() {
    let mut map: SingletonMap<i32> = SingletonMap::new();
    assert_eq!(*map.entry::<u8>("u8").or_insert(1), 1);
    assert_eq!(*map.entry::<u8>("u8").or_insert(2), 1);
    assert_eq!(map.get::<u8>(), Some(&1));
    assert_eq!(map.len(), 1);
}

#[test]
fn or_insert_lends_the_value() {
    let mut map: SingletonMap<i32> = SingletonMap::new();
    *map.entry::<u8>("u8").or_insert(1) += 10;
    assert_eq!(map.get::<u8>(), Some(&11));
    *map.entry::<u8>("u8").or_insert(100) += 10;
    assert_eq!(map.get::<u8>(), Some(&21));
}

#[test]
fn or_insert_with_calls_only_for_a_vacant_place() {
    let mut map: SingletonMap<String> = SingletonMap::new();
    assert_eq!(
        map.entry::<u8>("u8").or_insert_with(|| "made".to_string()),
        "made"
    );
    assert_eq!(
        map.entry::<u8>("u8")
            .or_insert_with(|| panic!("the place is occupied")),
        "made"
    );
}

#[test]
fn or_default_fills_a_vacant_place() {
    let mut map: SingletonMap<i32> = SingletonMap::new();
    assert_eq!(*map.entry::<u8>("u8").or_default(), 0);
    map.insert::<u16>("u16", 7);
    assert_eq!(*map.entry::<u16>("u16").or_default(), 7);
    assert_eq!(map.len(), 2);
}

#[test]
fn and_modify_leaves_a_vacant_place() {
    let mut map: SingletonMap<i32> = SingletonMap::new();
    map.entry::<u8>("u8").and_modify(|v| *v += 1);
    assert!(map.is_empty());
    map.entry::<u8>("u8").and_modify(|v| *v += 1).or_insert(5);
    assert_eq!(map.get::<u8>(), Some(&5));
    map.entry::<u8>("u8").and_modify(|v| *v += 1).or_insert(50);
    assert_eq!(map.get::<u8>(), Some(&6));
}

#[test]
fn get_or_insert_default_counts() {
    let mut counters: SingletonMap<i32> = SingletonMap::new();
    *counters.get_or_insert_default::<u8>("u8") += 5;
    *counters.get_or_insert_default::<i8>("i8") -= 3;
    *counters.get_or_insert_default::<u8>("u8") += 1;
    assert_eq!(counters.get::<u8>(), Some(&6));
    assert_eq!(counters.get::<i8>(), Some(&-3));
    assert_eq!(counters.len(), 2);
}

#[test]
fn three_descriptions_in_insertion_order() {
    let mut map: SingletonMap<String> = SingletonMap::new();
    map.insert::<u8>("u8", "An unsigned 8-bit integer".to_string());
    map.insert::<i8>("i8", "A signed 8-bit integer".to_string());
    map.insert::<u16>("u16", "An unsigned 16-bit integer".to_string());
    assert_eq!(map.len(), 3);
    let entries = map.iter().collect();
    assert_eq!(entries.len(), 3);
    assert_eq!(
        entries[0],
        (&Type::of::<u8>("u8"), &"An unsigned 8-bit integer".to_string())
    );
    assert_eq!(
        entries[1],
        (&Type::of::<i8>("i8"), &"A signed 8-bit integer".to_string())
    );
    assert_eq!(
        entries[2],
        (&Type::of::<u16>("u16"), &"An unsigned 16-bit integer".to_string())
    );
}

#[test]
fn keyed_operations_agree_with_typed_ones() {
    let mut map: SingletonMap<i32> = SingletonMap::new();
    let key = Type::of::<u8>("u8");
    assert!(!map.has_key(key));
    assert_eq!(map.insert_key(key, 1), None);
    assert!(map.has_key(key));
    assert!(map.contains_key::<u8>());
    assert_eq!(map.get::<u8>(), Some(&1));
    assert_eq!(map.get_key(key), Some(&1));
    if let Some(v) = map.get_key_mut(key) {
        *v = 2;
    }
    assert_eq!(map.get_key(key), Some(&2));
    assert_eq!(map.get_key_mut(Type::of::<u16>("u16")), None);
    *map.entry_key(Type::of::<u16>("u16")).or_insert(3) += 1;
    assert_eq!(map.get::<u16>(), Some(&4));
    assert_eq!(*map.get_or_insert_default_key(Type::of::<u32>("u32")), 0);
    assert_eq!(map.remove_key(key), Some(2));
    assert_eq!(map.remove_key(key), None);
    assert_eq!(map.len(), 2);
}

#[test]
fn lookup_by_description() {
    let mut map: SingletonMap<i32> = SingletonMap::new();
    map.insert::<u8>("u8", 1);
    map.insert::<Vec<u8>>("alloc::vec::Vec<u8>", 2);
    map.insert::<String>("alloc::string::String", 3);
    map.insert_key(Type::of::<u16>(""), 4);
    assert!(map.contains_type_name("u8"));
    assert!(map.contains_type_name("alloc::vec::Vec<u8>"));
    assert!(map.contains_type_name("alloc::string::String"));
    assert!(!map.contains_type_name("Vec"));
    assert!(!map.contains_type_name("u16"));
    assert!(map.contains_type_name(""));
    assert_eq!(map.get_type_by_name("u8"), Some(&Type::of::<u8>("u8")));
    assert_eq!(
        map.get_type_by_name("alloc::vec::Vec<u8>").map(|k| k.as_name()),
        Some("Vec")
    );
    assert_eq!(map.get_type_by_name(""), Some(&Type::of::<u16>("u16")));
    assert_eq!(map.get_type_by_name("u32"), None);
}

#[test]
fn typed_operations_describe_the_keys_they_make() {
    let mut map: SingletonMap<i32> = SingletonMap::new();
    map.insert::<u8>("u8", 1);
    map.entry::<u16>("u16").or_insert(2);
    *map.get_or_insert_default::<u32>("u32") += 3;
    let keys = map.keys().collect();
    assert_eq!(keys[0].as_str(), "u8");
    assert_eq!(keys[1].as_str(), "u16");
    assert_eq!(keys[2].as_str(), "u32");
    assert_eq!(map.insert::<u8>("other", 10), Some(1));
    assert_eq!(map.keys().collect()[0].as_str(), "u8");
}

#[test]
fn lookup_by_description_gives_the_first_of_equal_descriptions() {
    let mut map: SingletonMap<i32> = SingletonMap::new();
    map.insert_key(Type::of::<u8>("u8").with_description("same"), 1);
    map.insert_key(Type::of::<u16>("u16").with_description("same"), 2);
    assert_eq!(
        map.get_type_by_name("same").map(|k| k.to_id()),
        Some(Type::of::<u8>("u8").to_id())
    );
    map.remove::<u8>();
    assert_eq!(
        map.get_type_by_name("same").map(|k| k.to_id()),
        Some(Type::of::<u16>("u16").to_id())
    );
}

#[test]
fn entries_by_place() {
    let mut map: SingletonMap<i32> = SingletonMap::new();
    map.insert::<u8>("u8", 1);
    map.insert::<u16>("u16", 2);
    assert_eq!(map.get_index(0), Some((&Type::of::<u8>("u8"), &1)));
    assert_eq!(map.get_index(1), Some((&Type::of::<u16>("u16"), &2)));
    assert_eq!(map.get_index(2), None);
    if let Some((key, value)) = map.get_index_mut(1) {
        assert_eq!(*key, Type::of::<u16>("u16"));
        *value = 20;
    }
    assert!(map.get_index_mut(2).is_none());
    assert_eq!(map.get::<u16>(), Some(&20));
}

#[test]
fn capacity_is_never_below_the_length() {
    let mut map: SingletonMap<i32> = SingletonMap::with_capacity(10);
    assert!(map.is_empty());
    assert!(map.capacity() >= 10);
    map.insert::<u8>("u8", 1);
    map.insert::<u16>("u16", 2);
    map.insert::<u32>("u32", 3);
    assert!(map.capacity() >= 3);
    map.reserve(100);
    assert!(map.capacity() >= 103);
    assert_eq!(map.len(), 3);
    map.shrink_to(5);
    assert!(map.capacity() >= 5);
    map.shrink_to_fit();
    assert!(map.capacity() >= 3);
    assert_eq!(map.get::<u16>(), Some(&2));
    let values: Vec<&i32> = map.values().collect();
    assert_eq!(values, vec![&1, &2, &3]);
}

#[test]
fn try_reserve_succeeds_for_a_small_amount() {
    let mut map: SingletonMap<i32> = SingletonMap::new();
    map.insert::<u8>("u8", 1);
    assert!(map.try_reserve(16).is_ok());
    assert!(map.capacity() >= 17);
    assert_eq!(map.get::<u8>(), Some(&1));
}

#[test]
fn try_reserve_reports_an_index_that_cannot_grow() {
    let mut map: SingletonMap<i32> = SingletonMap::new();
    map.insert::<u8>("u8", 1);
    let result = map.try_reserve(usize::MAX);
    assert!(matches!(result, Err(ReserveError::Index(_))));
    assert_eq!(map.len(), 1);
    assert_eq!(map.get::<u8>(), Some(&1));
    assert_eq!(map.insert::<u16>("u16", 2), None);
}

#[test]
fn try_reserve_reports_entries_that_cannot_grow() {
    let mut map: SingletonMap<[u8; 1 << 40]> = SingletonMap::new();
    let result = map.try_reserve(1 << 23);
    assert!(matches!(result, Err(ReserveError::Entries(_))));
    assert!(map.is_empty());
}

#[test]
fn default_map_is_empty() {
    let map: SingletonMap<String> = SingletonMap::default();
    assert!(map.is_empty());
    assert_eq!(map.len(), 0);
    assert_eq!(map.get::<u8>(), None);
}

#[test]
fn clone_is_independent() {
    let mut map: SingletonMap<String> = SingletonMap::new();
    map.insert::<u8>("u8", "a".to_string());
    map.insert::<u16>("u16", "b".to_string());
    let mut cloned = map.clone();
    cloned.insert::<u8>("u8", "z".to_string());
    cloned.remove::<u16>();
    assert_eq!(map.get::<u8>(), Some(&"a".to_string()));
    assert_eq!(map.get::<u16>(), Some(&"b".to_string()));
    assert_eq!(cloned.get::<u8>(), Some(&"z".to_string()));
    assert_eq!(cloned.len(), 1);
    assert_eq!(names(&map), vec![Type::of::<u8>("u8"), Type::of::<u16>("u16")]);
}

#[test]
fn many_types_stay_in_order() {
    let mut map: SingletonMap<usize> = SingletonMap::new();
    map.insert::<u8>("u8", 0);
    map.insert::<u16>("u16", 1);
    map.insert::<u32>("u32", 2);
    map.insert::<u64>("u64", 3);
    map.insert::<i8>("i8", 4);
    map.insert::<i16>("i16", 5);
    map.insert::<i32>("i32", 6);
    map.insert::<i64>("i64", 7);
    map.insert::<String>("String", 8);
    map.insert::<Vec<u8>>("Vec<u8>", 9);
    map.remove::<u32>();
    map.remove::<i64>();
    let values: Vec<&usize> = map.values().collect();
    assert_eq!(values, vec![&0, &1, &3, &4, &5, &6, &8, &9]);
    assert_eq!(map.get::<String>(), Some(&8));
    assert_eq!(map.get::<Vec<u8>>(), Some(&9));
    assert_eq!(map.get::<u32>(), None);
    assert_eq!(map.get_index(2), Some((&Type::of::<u64>("u64"), &3)));
}
