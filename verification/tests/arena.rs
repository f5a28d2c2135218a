use easy_gpu::{Arena, Handle};

#[test]
fn insert_then_get_returns_the_value() {
    let mut arena: Arena<String> = Arena::new();
    let a = arena.insert("a".to_string());
    let b = arena.insert("b".to_string());
    assert_eq!(arena.get(a).map(|s| s.as_str()), Some("a"));
    assert_eq!(arena.get(b).map(|s| s.as_str()), Some("b"));
    assert_eq!((a.index, a.generation), (0, 0));
    assert_eq!((b.index, b.generation), (1, 0));
}

#[test]
fn get_with_unknown_index_is_none() {
    let mut arena: Arena<u32> = Arena::new();
    arena.insert(1);
    assert!(arena.get(Handle::new(5, 0)).is_none());
}

#[test]
fn get_with_wrong_generation_is_none() {
    let mut arena: Arena<u32> = Arena::new();
    let h = arena.insert(1);
    assert!(arena.get(Handle::new(h.index, h.generation + 1)).is_none());
}

#[test]
fn get_mut_writes_are_seen_by_get() {
    let mut arena: Arena<u32> = Arena::new();
    let h = arena.insert(10);
    let other = arena.insert(20);
    if let Some(v) = arena.get_mut(h) {
        *v = 11;
    } else {
        panic!("live handle did not resolve");
    }
    assert_eq!(arena.get(h), Some(&11));
    assert_eq!(arena.get(other), Some(&20));
    assert!(arena.get_mut(Handle::new(7, 0)).is_none());
}

#[test]
fn remove_gives_back_the_value_and_kills_the_handle() {
    let mut arena: Arena<u32> = Arena::new();
    let h = arena.insert(3);
    let keep = arena.insert(4);
    assert_eq!(arena.remove(h), Some(3));
    assert!(arena.get(h).is_none());
    assert_eq!(arena.remove(h), None);
    assert_eq!(arena.get(keep), Some(&4));
}

#[test]
fn removed_slot_is_reused_with_a_new_generation() {
    let mut arena: Arena<u32> = Arena::new();
    let old = arena.insert(1);
    arena.remove(old);
    let new = arena.insert(2);
    assert_eq!(new.index, old.index);
    assert_eq!(new.generation, old.generation + 1);
    assert!(arena.get(old).is_none());
    assert_eq!(arena.get(new), Some(&2));
}

#[test]
fn most_recently_freed_slot_is_reused_first() {
    let mut arena: Arena<u32> = Arena::new();
    let a = arena.insert(1);
    let b = arena.insert(2);
    let c = arena.insert(3);
    arena.remove(a);
    arena.remove(c);
    let d = arena.insert(4);
    let e = arena.insert(5);
    let f = arena.insert(6);
    assert_eq!(d.index, c.index);
    assert_eq!(e.index, a.index);
    assert_eq!(f.index, 3);
    assert_eq!(arena.get(b), Some(&2));
}

#[test]
fn outdated_handle_stays_dead_through_later_operations() {
    let mut arena: Arena<u32> = Arena::new();
    let h = arena.insert(1);
    arena.remove(h);
    let h2 = arena.insert(2);
    arena.remove(h2);
    let h3 = arena.insert(3);
    assert!(arena.get(h).is_none());
    assert!(arena.get(h2).is_none());
    assert_eq!(arena.get(h3), Some(&3));
    assert_eq!(h3.generation, 2);
}

#[test]
fn removing_with_a_wrong_generation_changes_nothing() {
    let mut arena: Arena<u32> = Arena::new();
    let h = arena.insert(9);
    assert_eq!(arena.remove(Handle::new(h.index, 4)), None);
    assert_eq!(arena.get(h), Some(&9));
    let next = arena.insert(10);
    assert_eq!(next.index, 1);
}

#[test]
fn can_insert_on_a_fresh_arena() {
    let arena: Arena<u32> = Arena::new();
    assert!(arena.can_insert());
}

#[test]
fn handles_compare_by_index_and_generation() {
    let a: Handle<u32> = Handle::new(1, 2);
    let b: Handle<u32> = Handle::new(1, 2);
    let c: Handle<u32> = Handle::new(1, 3);
    let d: Handle<u32> = Handle::new(2, 2);
    assert!(a == b);
    assert!(a != c);
    assert!(a != d);
    let copied = a;
    let cloned = a.clone();
    assert!(copied == a && cloned == a);
}

#[test]
fn removing_through_a_handle_of_an_empty_slot_frees_it_twice() {
    let mut arena: Arena<u32> = Arena::new();
    let h = arena.insert(1);
    assert_eq!(arena.remove(h), Some(1));
    let forged: Handle<u32> = Handle::new(h.index, h.generation + 1);
    assert_eq!(arena.remove(forged), None);
    let a = arena.insert(2);
    let b = arena.insert(3);
    assert!(a == b);
    assert_eq!(arena.get(a), Some(&3));
}

#[test]
fn removed_handle_stays_dead_through_later_operations() {
    let mut arena: Arena<u32> = Arena::new();
    let h0 = arena.insert(10);
    assert_eq!(arena.remove(h0), Some(10));
    let h1 = arena.insert(11);
    assert_eq!(h1.index, h0.index);
    assert!(h1.generation > h0.generation);
    assert!(arena.get(h0).is_none());
    assert!(arena.get_mut(h0).is_none());
    if let Some(v) = arena.get_mut(h1) {
        *v = 12;
    }
    assert!(arena.get(h0).is_none());
    assert_eq!(arena.remove(h0), None);
    assert_eq!(arena.remove(h1), Some(12));
    let h2 = arena.insert(13);
    assert_eq!(h2.index, h0.index);
    assert!(h2.generation > h0.generation);
    assert!(arena.get(h0).is_none());
    assert_eq!(arena.get(h2), Some(&13));
}
