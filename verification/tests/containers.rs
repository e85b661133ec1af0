use muzzman_lib::enums::{AdvanceEnum, CustomEnum};
use muzzman_lib::events::Events;
use muzzman_lib::strmap::StrMap;
use muzzman_lib::session::LocalSession;
use muzzman_lib::session_common::Delivery;
use muzzman_lib::types::Event;
use muzzman_lib::Storage;

#[test]
fn storage_pop_undoes_push() {
    let mut s: Storage<u32> = Storage::new();
    s.push(1);
    s.push(2);
    assert_eq!(s.len(), 2);
    assert_eq!(s.get(1), Some(&2));
    assert_eq!(s.get(2), None);
    assert_eq!(s.pop(), Some(2));
    assert_eq!(s.iter(), &[1]);
    assert_eq!(s.pop(), Some(1));
    assert_eq!(s.pop(), None);
}

#[test]
fn storage_remove_undoes_insert() {
    let mut s: Storage<&str> = Storage::default();
    s.push("a");
    s.push("c");
    s.insert(1, "b");
    assert_eq!(s.iter(), &["a", "b", "c"]);
    assert_eq!(s.remove(1), Some("b"));
    assert_eq!(s.iter(), &["a", "c"]);
    assert_eq!(s.remove(5), None);
    if let Some(x) = s.get_mut(0) {
        *x = "z";
    }
    s.iter_mut().push("d");
    assert_eq!(s.iter(), &["z", "c", "d"]);
}

#[test]
fn strmap_keeps_insertion_order() {
    let mut m: StrMap<u8> = StrMap::new();
    assert_eq!(m.insert("b".to_string(), 1), None);
    assert_eq!(m.insert("a".to_string(), 2), None);
    assert_eq!(m.insert("b".to_string(), 3), Some(1));
    assert_eq!(m.len(), 2);
    assert_eq!(m.get("b"), Some(&3));
    assert_eq!(m.find("a"), Some(1));
    assert_eq!(m.remove("b"), Some(3));
    assert_eq!(m.get("b"), None);
    assert_eq!(m.as_slice().len(), 1);
}

#[test]
fn enum_fields_compare_trimmed() {
    let mut e = CustomEnum::new();
    e.add("Field");
    e.add("  Field  ");
    assert_eq!(e.get_fields(), vec!["Field".to_string()]);
    assert!(e.has(" Field"));
    assert!(e.has("\u{3000}Field\t\n"));
    assert!(!e.has("Fiel"));
    e.add("Other");
    assert!(!e.set_active(Some(2)));
    assert_eq!(e.get_active(), None);
    assert!(e.set_active(Some(1)));
    assert_eq!(e.get_active(), Some("Other".to_string()));
    assert!(e.set_active(None));
    assert_eq!(e.get_active(), None);
    e.lock();
    e.add("Third");
    assert_eq!(e.get_fields().len(), 2);
    let copy = e.clone();
    assert_eq!(copy, e);
}

#[test]
fn switches_read_back() {
    let mut a = AdvanceEnum::new();
    assert!(!a.is_active("x"));
    assert_eq!(a.set("x".to_string(), true), None);
    assert!(a.is_active("x"));
    assert_eq!(a.set("x".to_string(), false), Some(true));
    assert!(!a.is_active("x"));
}

#[test]
fn events_ring_and_subscribers() {
    let mut session = LocalSession::new();
    let mut ev = Events::new();
    for i in 0..21u64 {
        let ds = ev.new_event(Event::ProgressChanged(i), &mut session);
        assert!(ds.is_empty());
    }
    assert_eq!(ev.cursour, 1);
    assert!(matches!(ev.events[0], Some((_, Event::ProgressChanged(20)))));
    assert!(matches!(ev.events[1], Some((_, Event::ProgressChanged(1)))));
    assert!(ev.subscribe(5));
    assert!(!ev.subscribe(5));
    assert!(ev.is_subscribed(&5));
    assert!(ev.subscribe(6));
    assert!(ev.unsubscribe(5));
    assert!(!ev.unsubscribe(5));
    assert_eq!(ev.subscribers, vec![6]);
}

#[test]
fn new_event_tells_found_subscribers_and_drops_others() {
    let mut session = LocalSession::new();
    let root = session.get_default_location().unwrap();
    let a = session.create_element(root, "A".to_string()).unwrap();
    let mut ev = Events::default();
    ev.subscribe(a.uid);
    ev.subscribe(40);
    ev.subscribe(root.uid);
    let ds = ev.new_event(Event::Completed(3), &mut session);
    assert_eq!(ev.subscribers, vec![a.uid, root.uid]);
    assert_eq!(ds.len(), 2);
    assert!(matches!(ds[0], Delivery::Delivered));
    assert_eq!(session.elements[0].events.events.len(), 1);
    assert!(matches!(session.elements[0].events.events[0], Event::Completed(3)));
    assert_eq!(session.locations[0].events.events.len(), 1);
    assert_eq!(ev.cursour, 1);
}
