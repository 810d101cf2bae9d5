use core::any::TypeId;
use rhubarb::type_map::TypeMap;

struct A;
struct B;
struct C;

#[test]
fn type_map_works() {
    let mut map = TypeMap::<usize>::new();

    map.insert::<A>(1);
    map.insert::<B>(2);
    map.insert::<C>(3);

    assert!(map.get::<A>().is_some_and(|i| *i == 1));
    assert!(map.get::<B>().is_some_and(|i| *i == 2));
    assert!(map.get::<C>().is_some_and(|i| *i == 3));

    assert!(map.drain().len() == 3);
}

#[test]
fn type_map_replaces_and_clears() {
    let mut map = TypeMap::<&str>::new();
    map.insert::<A>("first");
    map.insert::<A>("second");
    assert_eq!(map.get::<A>(), Some(&"second"));
    assert!(map.has::<A>());
    assert!(!map.has::<B>());
    assert!(map.has_id(TypeId::of::<A>()));
    map.insert_for_id(TypeId::of::<u8>(), "byte");
    assert_eq!(map.get_for_id(TypeId::of::<u8>()), Some(&"byte"));
    map.clear();
    assert!(!map.has::<A>());
    assert_eq!(map.drain().len(), 0);
}

#[test]
fn type_map_get_mut_changes_the_stored_value() {
    let mut map = TypeMap::<u32>::new();
    assert!(map.get_mut::<A>().is_none());
    map.insert::<A>(5);
    map.insert::<B>(7);
    if let Some(v) = map.get_mut::<A>() {
        *v += 10;
    }
    assert_eq!(map.get::<A>(), Some(&15));
    assert_eq!(map.get::<B>(), Some(&7));
    if let Some(v) = map.get_mut_for_id(TypeId::of::<B>()) {
        *v = 1;
    }
    assert_eq!(map.get_for_id(TypeId::of::<B>()), Some(&1));
    assert!(map.get_mut_for_id(TypeId::of::<C>()).is_none());
    assert_eq!(map.drain().len(), 2);
}

#[test]
fn type_map_entries_fill_and_keep_values() {
    let mut map = TypeMap::<Vec<u8>>::new();
    map.entry::<A>().or_insert(vec![1]).push(2);
    map.entry::<A>().or_insert(vec![9]).push(3);
    assert_eq!(map.get::<A>(), Some(&vec![1, 2, 3]));
    let made = map.entry::<B>().or_insert_with(|| vec![7]);
    assert_eq!(made, &vec![7]);
    assert!(map.entry::<C>().or_default().is_empty());
    assert_eq!(*map.entry_for_id(TypeId::of::<C>()).key(), TypeId::of::<C>());
    assert_eq!(map.drain().len(), 3);
}
