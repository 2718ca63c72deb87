use singletons::{Downcast, Erased, IntoBox, LocalAny, SingletonSet, Type};

#[test]
fn set_overview() {
    let mut set = SingletonSet::new();

    assert!(set.is_empty());
    assert_eq!(set.len(), 0);

    set.insert("u32", 42u32);
    set.insert("&str", "hello");
    set.insert("i64", 7i64);

    assert_eq!(set.len(), 3);

    assert!(set.contains::<u32>());
    assert!(set.contains::<&str>());
    assert!(set.contains::<i64>());
    assert!(!set.contains::<i32>());

    assert_eq!(set.try_get::<u32>(), Some(&42));
    assert_eq!(set.try_get::<&str>(), Some(&"hello"));
    assert_eq!(set.try_get::<i64>(), Some(&7));
    assert_eq!(set.try_get::<i32>(), None);
}

#[test]
fn try_get_on_an_empty_set_gives_nothing() {
    let set = SingletonSet::new();
    assert_eq!(set.try_get::<u32>(), None);
    assert_eq!(set.try_get::<String>(), None);
    assert!(!set.contains::<u32>());
    assert!(set.is_empty());
}

#[test]
fn insert_gives_back_the_value_of_the_same_type() {
    let mut set = SingletonSet::new_local();
    assert_eq!(set.insert("u8", 1u8), None);
    assert_eq!(set.insert("u8", 2u8), Some(1u8));
    assert_eq!(set.insert("alloc::string::String", "text".to_string()), None);
    assert_eq!(set.insert("alloc::string::String", "more".to_string()), Some("text".to_string()));
    assert_eq!(set.len(), 2);
    assert_eq!(set.try_get::<u8>(), Some(&2));
    assert_eq!(set.try_get::<String>(), Some(&"more".to_string()));
}

#[test]
fn types_are_walked_in_insertion_order() {
    let mut set = SingletonSet::new();
    set.insert("u8", 1u8);
    set.insert("u16", 2u16);
    set.insert("u32", 3u32);
    set.insert("u8", 10u8);
    let mut types = set.types();
    assert_eq!(types.len(), 3);
    assert_eq!(types.next(), Some(&Type::of::<u8>("u8")));
    assert_eq!(types.next(), Some(&Type::of::<u16>("u16")));
    assert_eq!(types.next(), Some(&Type::of::<u32>("u32")));
    assert_eq!(types.next(), None);
    assert_eq!(set.types().count(), 3);
}

#[test]
fn removal_from_a_set_keeps_the_order_of_the_rest() {
    let mut set = SingletonSet::new();
    set.insert("u8", 1u8);
    set.insert("u16", 2u16);
    set.insert("u32", 3u32);
    assert_eq!(set.remove::<u16>(), Some(2u16));
    assert_eq!(set.remove::<u16>(), None);
    assert_eq!(set.remove::<i8>(), None);
    assert_eq!(
        set.types().collect(),
        vec![&Type::of::<u8>("u8"), &Type::of::<u32>("u32")]
    );
    assert!(!set.contains::<u16>());
    assert_eq!(set.try_get::<u32>(), Some(&3));
    assert_eq!(set.len(), 2);
}

#[test]
fn get_mut_changes_the_value_in_place() {
    let mut set = SingletonSet::new();
    set.insert("alloc::vec::Vec<u8>", vec![1u8, 2]);
    set.insert("i32", 5i32);
    if let Some(v) = set.get_mut::<Vec<u8>>() {
        v.push(3);
    }
    if let Some(n) = set.get_mut::<i32>() {
        *n += 1;
    }
    assert!(set.get_mut::<u64>().is_none());
    assert_eq!(set.try_get::<Vec<u8>>(), Some(&vec![1u8, 2, 3]));
    assert_eq!(set.try_get::<i32>(), Some(&6));
    assert_eq!(set.len(), 2);
}

#[test]
fn clear_takes_everything_out() {
    let mut set = SingletonSet::new();
    set.insert("u8", 1u8);
    set.insert("&str", "x");
    set.clear();
    assert!(set.is_empty());
    assert_eq!(set.try_get::<u8>(), None);
    assert_eq!(set.insert("u8", 2u8), None);
    assert_eq!(set.len(), 1);
}

#[test]
fn keys_of_a_set_are_those_of_the_types() {
    let mut set = SingletonSet::new();
    set.insert("u8", 1u8);
    assert!(set.contains_key(Type::of::<u8>("u8")));
    assert!(!set.contains_key(Type::of::<u16>("u16")));
    assert!(set.contains_key(Type::of::<u8>("u8").with_description("u8")));
}

#[test]
fn different_types_with_equal_values_are_kept_apart() {
    let mut set = SingletonSet::new();
    set.insert("u8", 1u8);
    set.insert("i8", 1i8);
    set.insert("u16", 1u16);
    assert_eq!(set.len(), 3);
    assert_eq!(set.remove::<i8>(), Some(1i8));
    assert_eq!(set.try_get::<u8>(), Some(&1u8));
    assert_eq!(set.try_get::<u16>(), Some(&1u16));
}

#[test]
fn shared_set_takes_sendable_values() {
    let mut set = SingletonSet::new_shared();
    assert_eq!(set.insert("u32", 1u32), None);
    assert_eq!(set.insert("alloc::string::String", "owned".to_string()), None);
    assert_eq!(set.insert("u32", 2u32), Some(1u32));
    assert_eq!(set.try_get::<String>(), Some(&"owned".to_string()));
    assert_eq!(set.remove::<u32>(), Some(2u32));
    assert_eq!(set.len(), 1);
}

#[test]
fn syncable_set_takes_shareable_values() {
    let mut set = SingletonSet::new_unsync();
    assert_eq!(set.insert("u32", 1u32), None);
    assert_eq!(set.insert("alloc::vec::Vec<u8>", vec![1u8]), None);
    assert!(set.contains::<Vec<u8>>());
    if let Some(v) = set.get_mut::<Vec<u8>>() {
        v.clear();
    }
    assert_eq!(set.try_get::<Vec<u8>>(), Some(&Vec::new()));
    assert_eq!(
        set.types().collect(),
        vec![&Type::of::<u32>("u32"), &Type::of::<Vec<u8>>("Vec<u8>")]
    );
}

#[test]
fn values_are_dropped_with_the_set() {
    let counter = std::rc::Rc::new(());
    {
        let mut set = SingletonSet::new();
        set.insert("alloc::rc::Rc<()>", counter.clone());
        assert_eq!(std::rc::Rc::strong_count(&counter), 2);
        set.insert("alloc::rc::Rc<()>", counter.clone());
        assert_eq!(std::rc::Rc::strong_count(&counter), 2);
    }
    assert_eq!(std::rc::Rc::strong_count(&counter), 1);
    let mut set = SingletonSet::new();
    set.insert("alloc::rc::Rc<()>", counter.clone());
    assert!(set.remove::<std::rc::Rc<()>>().is_some());
    assert_eq!(std::rc::Rc::strong_count(&counter), 1);
}

#[test]
fn handles_are_stored_under_the_type_of_their_value() {
    let mut set = SingletonSet::new();
    let handle: LocalAny = 5u8.into_box();
    assert_eq!(handle.type_id(), std::any::TypeId::of::<u8>());
    assert!(set.insert_handle("u8", handle).is_none());
    assert!(set.contains::<u8>());
    assert!(set.get_handle(Type::of::<u16>("u16")).is_none());
    match set.get_handle(Type::of::<u8>("u8")) {
        Some(found) => {
            assert_eq!(found.downcast_ref::<u8>(), Some(&5));
            assert_eq!(found.downcast_ref::<i8>(), None);
        }
        None => panic!("the handle was stored"),
    }
    let before = set.insert_handle("u8", 6u8.into_box());
    match before {
        Some(old) => match LocalAny::downcast_box::<i8>(old) {
            Ok(_) => panic!("the handle holds a u8"),
            Err(back) => match LocalAny::downcast_box::<u8>(back) {
                Ok(value) => assert_eq!(*value, 5),
                Err(_) => panic!("the handle holds a u8"),
            },
        },
        None => panic!("a handle was replaced"),
    }
    match set.remove_handle(Type::of::<u8>("u8")) {
        Some(mut taken) => {
            if let Some(v) = taken.downcast_mut::<u8>() {
                *v += 1;
            }
            assert_eq!(taken.downcast_ref::<u8>(), Some(&7));
            assert_eq!(taken.type_id(), std::any::TypeId::of::<u8>());
        }
        None => panic!("the handle was stored"),
    }
    assert!(set.remove_handle(Type::of::<u8>("u8")).is_none());
    assert!(set.is_empty());
}

#[test]
fn types_of_a_set_carry_their_descriptions() {
    let mut set = SingletonSet::new();
    set.insert("u8", 1u8);
    set.insert("alloc::string::String", "text".to_string());
    set.insert("renamed", 2u8);
    let types = set.types().collect();
    assert_eq!(types.len(), 2);
    assert_eq!(types[0].as_str(), "u8");
    assert_eq!(types[1].as_str(), "alloc::string::String");
    assert_eq!(types[1].as_name(), "String");
}

#[test]
fn get_gives_the_value_that_is_there() {
    let mut set = SingletonSet::new();
    set.insert("u32", 42u32);
    set.insert("&str", "hello");
    assert_eq!(set.get::<u32>(), &42);
    assert_eq!(set.get::<&str>(), &"hello");
    if let Some(n) = set.get_mut::<u32>() {
        *n = 43;
    }
    assert_eq!(set.get::<u32>(), &43);
    assert_eq!(set.remove::<u32>(), Some(43));
}

#[test]
fn failed_cast_gives_the_handle_back_with_its_value() {
    let handle: LocalAny = 5u32.into_box();
    match LocalAny::downcast_box::<i32>(handle) {
        Ok(_) => panic!("the handle holds a u32"),
        Err(back) => {
            assert_eq!(back.type_id(), std::any::TypeId::of::<u32>());
            assert_eq!(back.downcast_ref::<u32>(), Some(&5));
            match LocalAny::downcast_box::<u32>(back) {
                Ok(value) => assert_eq!(*value, 5),
                Err(_) => panic!("the handle holds a u32"),
            }
        }
    }
}
