use muzzman_lib::error::SessionError;
use muzzman_lib::helper::{ElementId, LocationId, ModuleId};
use muzzman_lib::session::{LocalSession, Wraper};
use muzzman_lib::session_common::{finish_emit, Delivery};
use muzzman_lib::session_element::WorkerAction;
use muzzman_lib::settings::Settings;
use muzzman_lib::types::Event;

fn fresh() -> (LocalSession, LocationId) {
    let s = LocalSession::new();
    let root = s.get_default_location().unwrap();
    assert_eq!(root, LocationId { uid: 0 });
    (s, root)
}

#[test]
fn new_session_has_only_the_default_location() {
    let (mut s, root) = fresh();
    assert_eq!(s.locations.len(), 1);
    assert_eq!(s.elements.len(), 0);
    assert_eq!(s.get_name(root.uid).unwrap(), "Default Location");
    assert_eq!(
        s.get_desc(root.uid).unwrap(),
        "This is the default location of the muzzman session"
    );
    assert_eq!(s.location_get_parent(root).unwrap(), None);
}

#[test]
fn lookup_twice_finds_the_same_node() {
    let (mut s, root) = fresh();
    let e = s.create_element(root, "A".to_string()).unwrap();
    let first = s.get(e.uid).unwrap();
    let second = s.get(e.uid).unwrap();
    assert_eq!(first, second);
    assert_eq!(first, Wraper::Element(0));
    assert_eq!(s.locations.len(), 1);
}

#[test]
fn rename_then_read_gives_new_name() {
    let (mut s, root) = fresh();
    let a = s.create_element(root, "A".to_string()).unwrap();
    let b = s.create_element(root, "B".to_string()).unwrap();
    s.set_name(a.uid, "Renamed".to_string()).unwrap();
    assert_eq!(s.get_name(a.uid).unwrap(), "Renamed");
    assert_eq!(s.get_name(b.uid).unwrap(), "B");
    assert_eq!(s.get_name(root.uid).unwrap(), "Default Location");
    s.set_name(root.uid, "Root".to_string()).unwrap();
    assert_eq!(s.get_name(root.uid).unwrap(), "Root");
}

#[test]
fn desc_then_read_gives_new_desc() {
    let (mut s, root) = fresh();
    let a = s.create_element(root, "A".to_string()).unwrap();
    assert_eq!(s.get_desc(a.uid).unwrap(), "");
    s.set_desc(a.uid, "about A".to_string()).unwrap();
    assert_eq!(s.get_desc(a.uid).unwrap(), "about A");
    assert_eq!(s.get_name(a.uid).unwrap(), "A");
}

#[test]
fn failed_lookups_name_the_operation() {
    let (mut s, root) = fresh();
    assert!(matches!(s.get(42), Err(SessionError::InvalidUID)));
    match s.get_name(42) {
        Err(SessionError::GetName(b)) => assert!(matches!(*b, SessionError::InvalidUID)),
        other => panic!("unexpected {:?}", other),
    }
    match s.set_name(42, "x".to_string()) {
        Err(SessionError::SetName(b)) => assert!(matches!(*b, SessionError::InvalidUID)),
        other => panic!("unexpected {:?}", other),
    }
    match s.get_desc(42) {
        Err(SessionError::GetDesc(b)) => assert!(matches!(*b, SessionError::InvalidUID)),
        other => panic!("unexpected {:?}", other),
    }
    // a failed change of description is reported as one of the name
    match s.set_desc(42, "x".to_string()) {
        Err(SessionError::SetName(b)) => assert!(matches!(*b, SessionError::InvalidUID)),
        other => panic!("unexpected {:?}", other),
    }
    let e = s.create_element(root, "E".to_string()).unwrap();
    match s.element_get_parent(ElementId { uid: root.uid }) {
        Err(SessionError::ElementGetParent(b)) => {
            assert!(matches!(*b, SessionError::UIDIsNotAElement))
        }
        other => panic!("unexpected {:?}", other),
    }
    match s.create_element(LocationId { uid: e.uid }, "X".to_string()) {
        Err(SessionError::CreateElement(b)) => {
            assert!(matches!(*b, SessionError::UIDIsNotALocation))
        }
        other => panic!("unexpected {:?}", other),
    }
    match s.create_location(LocationId { uid: 99 }, "X".to_string()) {
        Err(SessionError::CreateLocation(b)) => assert!(matches!(*b, SessionError::InvalidUID)),
        other => panic!("unexpected {:?}", other),
    }
}

#[test]
fn created_elements_are_found_in_order() {
    let (mut s, root) = fresh();
    let a = s.create_element(root, "A".to_string()).unwrap();
    let b = s.create_element(root, "B".to_string()).unwrap();
    assert_eq!(a, ElementId { uid: 1 });
    assert_eq!(b, ElementId { uid: 2 });
    assert_eq!(s.element_path(a).unwrap(), vec![0]);
    assert_eq!(s.element_path(b).unwrap(), vec![1]);
    assert_eq!(s.element_get_parent(b).unwrap(), root);
    assert_eq!(s.location_get_elements_len(root).unwrap(), 2);
    assert_eq!(s.location_get_elements(root, 1, 1).unwrap(), vec![b]);
    assert_eq!(s.location_get_elements(root, 0, 1).unwrap(), vec![a, b]);
    match s.location_get_elements(root, 0, 2) {
        Err(SessionError::LocationGetElements(e)) => {
            assert!(matches!(*e, SessionError::ThereAreLessElements))
        }
        other => panic!("unexpected {:?}", other),
    }
    assert!(!s.element_get_enabled(a).unwrap());
    assert_eq!(s.element_get_url(a).unwrap(), "");
    s.element_set_url(a, "https://example.com/a".to_string()).unwrap();
    assert_eq!(s.element_get_url(a).unwrap(), "https://example.com/a");
}

#[test]
fn created_locations_are_found_and_hold_elements() {
    let (mut s, root) = fresh();
    let l = s.create_location(root, "Sub".to_string()).unwrap();
    assert_eq!(l, LocationId { uid: 1 });
    assert_eq!(s.get_name(l.uid).unwrap(), "Sub");
    assert_eq!(s.location_get_parent(l).unwrap(), Some(root));
    assert_eq!(s.location_get_locations_len(root).unwrap(), 1);
    assert_eq!(s.location_get_locations(root, 0, 0).unwrap(), vec![l]);
    assert_eq!(s.get_location(vec![0]).unwrap(), l);
    let e = s.create_element(l, "Inside".to_string()).unwrap();
    assert_eq!(s.element_get_parent(e).unwrap(), l);
    assert_eq!(s.element_path(e).unwrap(), vec![0, 0]);
    assert_eq!(s.location_get_elements_len(l).unwrap(), 1);
    assert_eq!(s.location_get_elements_len(root).unwrap(), 0);
}

#[test]
fn get_location_creates_missing_locations() {
    let (mut s, _root) = fresh();
    let l = s.get_location(vec![0]).unwrap();
    assert_eq!(s.get_name(l.uid).unwrap(), "Get Location");
    assert_eq!(s.locations.len(), 2);
    let again = s.get_location(vec![0]).unwrap();
    assert_eq!(again, l);
    assert_eq!(s.locations.len(), 2);
}

#[test]
fn uids_are_never_reassigned() {
    let (mut s, root) = fresh();
    let a = s.create_element(root, "A".to_string()).unwrap();
    let l = s.create_location(root, "L".to_string()).unwrap();
    let b = s.create_element(l, "B".to_string()).unwrap();
    assert_eq!((a.uid, l.uid, b.uid), (1, 2, 3));
    assert_eq!(s.refs.len(), 4);
    assert_eq!(s.get_name(a.uid).unwrap(), "A");
    assert_eq!(s.get_name(l.uid).unwrap(), "L");
    assert_eq!(s.get_name(b.uid).unwrap(), "B");
}

#[test]
fn subscribers_get_emitted_events() {
    let (mut s, root) = fresh();
    let a = s.create_element(root, "A".to_string()).unwrap();
    let b = s.create_element(root, "B".to_string()).unwrap();
    s.subscribe(b.uid, a.uid).unwrap();
    s.subscribe(b.uid, a.uid).unwrap();
    assert_eq!(s.elements[0].events.subscribers, vec![b.uid]);
    let ds = s.emit(a.uid, Event::Completed(7)).unwrap();
    assert_eq!(ds.len(), 1);
    assert!(matches!(ds[0], Delivery::Delivered));
    assert_eq!(s.elements[1].events.events.len(), 1);
    match &s.elements[1].events.events[0] {
        Event::From(from, inner) => {
            assert_eq!(*from, a.uid);
            assert!(matches!(**inner, Event::Completed(7)));
        }
        other => panic!("unexpected {:?}", other),
    }
    s.unsubscribe(b.uid, a.uid).unwrap();
    assert!(s.elements[0].events.subscribers.is_empty());
    let ds = s.emit(a.uid, Event::Completed(8)).unwrap();
    assert!(ds.is_empty());
    assert_eq!(s.elements[1].events.events.len(), 1);
}

#[test]
fn emit_collects_failed_deliveries() {
    let (mut s, root) = fresh();
    let a = s.create_element(root, "A".to_string()).unwrap();
    s.subscribe(77, a.uid).unwrap();
    let ds = s.emit(a.uid, Event::Error(1)).unwrap();
    assert_eq!(ds.len(), 1);
    assert!(matches!(ds[0], Delivery::Failed(SessionError::InvalidUID)));
    let outcomes: Vec<Result<(), SessionError>> = vec![Ok(()), Err(SessionError::InvalidUID)];
    match finish_emit(outcomes) {
        Err(SessionError::Emit(b)) => match *b {
            SessionError::Errors(v) => {
                assert_eq!(v.len(), 1);
                assert!(matches!(v[0], SessionError::InvalidUID));
            }
            other => panic!("unexpected {:?}", other),
        },
        other => panic!("unexpected {:?}", other),
    }
    assert!(finish_emit(vec![Ok(()), Ok(())]).is_ok());
}

#[test]
fn notify_and_write_queue_events() {
    let (mut s, root) = fresh();
    let a = s.create_element(root, "A".to_string()).unwrap();
    assert!(s.notify(root.uid, a.uid, Event::ProgressChanged(3)).unwrap().is_none());
    let (n, call) = s.write(a.uid, &[1, 2, 3]).unwrap();
    assert_eq!(n, 3);
    assert!(call.is_none());
    assert_eq!(s.elements[0].events.events.len(), 2);
    match &s.elements[0].events.events[1] {
        Event::NewData(d) => assert_eq!(d, &vec![1, 2, 3]),
        other => panic!("unexpected {:?}", other),
    }
    match s.write(55, &[1]) {
        Err(SessionError::Write(b)) => assert!(matches!(*b, SessionError::InvalidUID)),
        other => panic!("unexpected {:?}", other),
    }
    match s.notify(root.uid, 55, Event::Completed(1)) {
        Err(SessionError::Notify(b)) => assert!(matches!(*b, SessionError::InvalidUID)),
        other => panic!("unexpected {:?}", other),
    }
}

#[test]
fn modules_are_found_and_called() {
    let (mut s, root) = fresh();
    let m = s.add_module(
        "http".to_string(),
        "downloads over http".to_string(),
        7,
        Settings::new(),
        Settings::new(),
    );
    assert_eq!(m, ModuleId { uid: 1 });
    assert_eq!(s.get_name(m.uid).unwrap(), "http");
    assert_eq!(s.module(m.uid).unwrap(), 0);
    let again = s.add_module("http2".to_string(), String::new(), 7, Settings::new(), Settings::new());
    // a module with the same identity points at the first one recorded
    assert_eq!(s.get(again.uid).unwrap(), Wraper::Module(0));
    let a = s.create_element(root, "A".to_string()).unwrap();
    match s.element_set_enabled(a, true) {
        Err(SessionError::ElementSetEnabled(b)) => assert!(matches!(*b, SessionError::NoModule)),
        other => panic!("unexpected {:?}", other),
    }
    s.element_set_module(a, Some(m)).unwrap();
    assert_eq!(s.element_set_enabled(a, true).unwrap(), WorkerAction::Start);
    assert!(s.element_get_enabled(a).unwrap());
    assert_eq!(s.element_set_enabled(a, true).unwrap(), WorkerAction::Nothing);
    assert_eq!(s.element_set_enabled(a, false).unwrap(), WorkerAction::Stop);
    let (_, call) = s.write(a.uid, &[9]).unwrap();
    let call = call.unwrap();
    assert_eq!(call.module, 0);
    assert_eq!(call.target, Wraper::Element(0));
}

#[test]
fn location_fields_read_back() {
    let (mut s, root) = fresh();
    s.location_set_path(root, "downloads".to_string()).unwrap();
    assert_eq!(s.location_get_path(root).unwrap(), "downloads");
    s.location_set_statuses(root, vec!["idle".to_string(), "busy".to_string()])
        .unwrap();
    assert_eq!(s.location_get_statuses(root).unwrap(), vec!["idle", "busy"]);
    s.location_set_status(root, 1).unwrap();
    assert_eq!(s.location_get_status(root).unwrap(), 1);
    assert_eq!(s.location_get_status_str(root).unwrap(), "busy");
    assert!(!s.location_is_completed(root).unwrap());
    assert!(!s.location_is_error(root).unwrap());
    assert!(!s.location_get_enabled(root).unwrap());
    assert_eq!(s.version().unwrap(), 1);
}

#[test]
fn new_element_path_joins_location_path() {
    let (mut s, root) = fresh();
    let a = s.create_element(root, "A".to_string()).unwrap();
    assert_eq!(s.elements[0].element.path, "A");
    s.location_set_path(root, "downloads".to_string()).unwrap();
    let b = s.create_element(root, "B".to_string()).unwrap();
    let expected = std::path::Path::new("downloads").join("B");
    assert_eq!(s.elements[1].element.path, expected.to_string_lossy());
    assert_ne!(s.elements[1].element.path, "B");
    s.location_set_path(root, "downloads/".to_string()).unwrap();
    s.create_element(root, "C".to_string()).unwrap();
    assert_eq!(s.elements[2].element.path, "downloads/C");
    assert_eq!(s.get_name(a.uid).unwrap(), "A");
    assert_eq!(s.get_name(b.uid).unwrap(), "B");
}

#[test]
fn add_location() {
    let (mut s, default_location) = fresh();
    let new_location = s
        .create_location(default_location, "NewLocation".to_string())
        .unwrap();
    let _location_in_new_location = s
        .create_location(new_location, "OtherLocation".to_string())
        .unwrap();

    assert_eq!(s.location_get_locations_len(default_location).unwrap(), 1);
    let first = s.location_get_locations(default_location, 0, 0).unwrap()[0];
    assert_eq!(s.get_name(first.uid).unwrap(), "NewLocation".to_string());
    let inner = s.location_get_locations(first, 0, 0).unwrap()[0];
    assert_eq!(s.get_name(inner.uid).unwrap(), "OtherLocation".to_string());
}

#[test]
fn location_created_past_the_end_records_asked_index() {
    let (mut s, _root) = fresh();
    let b = s.get_location(vec![5, 3]).unwrap();
    assert_eq!(s.locations.len(), 3);
    // the second new location records the index asked for on the first
    // level, not the position it was given there, so it cannot be found
    match s.create_element(b, "x".to_string()) {
        Err(SessionError::CreateElement(e)) => {
            assert!(matches!(*e, SessionError::UIDIsNotALocation))
        }
        other => panic!("unexpected {:?}", other),
    }
    let a = s.get_location(vec![0]).unwrap();
    assert_eq!(s.get_name(a.uid).unwrap(), "Get Location");
}
