use muzzman_lib::data::{Bytes, Data, SeekFrom, Value};
use muzzman_lib::settings::{Atom, AtomTag, Setting, Settings};

#[test]
fn bytes_write_overwrites_then_appends() {
    let mut b = Bytes::from(vec![1, 2, 3]);
    assert_eq!(b.coursor, 3);
    // at the end a byte is appended and the cursor stays, so the next byte
    // overwrites it
    assert_eq!(b.write(&[4, 5]), 2);
    assert_eq!(b.data, vec![1, 2, 3, 5]);
    assert_eq!(b.coursor, 4);
    assert_eq!(b.seek(SeekFrom::Start(1)), Ok(1));
    assert_eq!(b.write(&[9, 8]), 2);
    assert_eq!(b.data, vec![1, 9, 8, 5]);
    assert_eq!(b.coursor, 3);
}

#[test]
fn bytes_read_from_cursor() {
    let mut b = Bytes::from_slice(&[10, 20, 30, 40]);
    assert_eq!(b.seek(SeekFrom::Start(1)), Ok(1));
    let mut buf = [0u8; 2];
    assert_eq!(b.read(&mut buf), 2);
    assert_eq!(buf, [20, 30]);
    assert_eq!(b.coursor, 3);
    let mut rest = [0u8; 5];
    assert_eq!(b.read(&mut rest), 1);
    assert_eq!(rest, [40, 0, 0, 0, 0]);
    // at the end, nothing more is read
    assert_eq!(b.read(&mut rest), 0);
    // at the very start, nothing is read either
    let mut c = Bytes::from_slice(&[1, 2]);
    assert_eq!(c.seek(SeekFrom::Start(0)), Ok(0));
    let mut one = [7u8; 1];
    assert_eq!(c.read(&mut one), 0);
    assert_eq!(one, [7]);
}

#[test]
fn bytes_read_inverted() {
    let mut b = Bytes::from_slice(&[10, 20, 30, 40]);
    b.fast_invert = true;
    assert_eq!(b.seek(SeekFrom::Start(1)), Ok(1));
    let mut buf = [0u8; 2];
    assert_eq!(b.read(&mut buf), 2);
    assert_eq!(buf, [40, 30]);
}

#[test]
fn bytes_seek_errors() {
    let mut b = Bytes::from_slice(&[1, 2, 3]);
    assert_eq!(b.seek(SeekFrom::Start(3)), Err(25));
    assert_eq!(b.coursor, 3);
    assert_eq!(b.seek(SeekFrom::End(0)), Err(24));
    assert_eq!(b.seek(SeekFrom::End(-2)), Ok(1));
    assert_eq!(b.coursor, 1);
    assert_eq!(b.seek(SeekFrom::Current(1)), Ok(2));
    assert_eq!(b.seek(SeekFrom::Current(1)), Err(25));
    assert_eq!(b.coursor, 2);
    let e = Bytes::new();
    assert!(e.data.is_empty());
    assert_eq!(e.coursor, 0);
}

#[test]
fn data_set_get_reset() {
    let mut d = Data::new();
    d.add("speed", Value::from_atom(Atom::U(5)));
    assert!(matches!(d.get("speed"), Some(Atom::U(5))));
    assert!(matches!(d.set("speed", Atom::U(9)), Some(Atom::U(5))));
    assert!(matches!(d.get("speed"), Some(Atom::U(9))));
    assert!(matches!(d.reset("speed"), Some(Atom::U(9))));
    assert!(matches!(d.get("speed"), Some(Atom::U(5))));
    assert!(d.set("missing", Atom::I(1)).is_none());
    assert!(d.get("missing").is_none());
    assert!(d.reset("missing").is_none());
    if let Some(v) = d.get_mut("speed") {
        *v = Atom::U(11);
    }
    assert!(matches!(d.get("speed"), Some(Atom::U(11))));
    assert!(d.remove("speed").is_some());
    assert!(d.get("speed").is_none());
}

#[test]
fn data_validate_reports_first_bad_entry() {
    let mut d = Data::new();
    d.add("ok", Value::from_atom(Atom::I(1)));
    assert_eq!(d.validate(), None);
    d.add(
        "name",
        Value::new(Atom::U(3), vec![AtomTag::S, AtomTag::I], vec![], true, "a name".to_string()),
    );
    d.add(
        "other",
        Value::new(Atom::U(3), vec![AtomTag::F], vec![], true, String::new()),
    );
    assert_eq!(d.validate(), Some("`name` should be: S,I".to_string()));
}

#[test]
fn data_lock_and_iterate() {
    let mut d = Data::new();
    d.add("a", Value::from_atom(Atom::S("x".to_string())));
    d.add("b", Value::from_atom(Atom::F(0)));
    d.lock();
    assert!(d.locked);
    d.unlock();
    assert!(!d.locked);
    let keys: Vec<&str> = d.iter().iter().map(|(k, _)| k.as_str()).collect();
    assert_eq!(keys, vec!["a", "b"]);
    assert!(d.iter_mut(1).is_some());
    assert!(d.iter_mut(2).is_none());
    assert!(d.get_value("a").is_some());
    assert!(d.get_mut_value("zz").is_none());
}

#[test]
fn settings_validate_and_default() {
    let mut s = Settings::new();
    s.add(
        "mode".to_string(),
        Setting::new(
            Atom::S("fast".to_string()),
            vec![Atom::S("fast".to_string()), Atom::S("slow".to_string())],
            "how to download".to_string(),
        ),
    );
    s.add("count".to_string(), Setting::new(Atom::U(1), vec![], String::new()));
    assert!(s.validate().is_empty());
    if let Some(m) = s.settings.get_mut("mode") {
        m.value = Atom::S("medium".to_string());
    }
    assert_eq!(s.validate(), vec!["mode".to_string()]);
    s.set_default("mode");
    assert!(matches!(&s.get("mode").unwrap().value, Atom::S(v) if v == "fast"));
    assert!(s.validate().is_empty());
    assert!(s.get("nothing").is_none());
}

#[test]
fn atoms_from_plain_values() {
    assert!(matches!(Atom::from("x".to_string()), Atom::S(s) if s == "x"));
    assert!(matches!(Atom::from(-3i32), Atom::I(-3)));
    assert!(matches!(Atom::from(-3i64), Atom::I(-3)));
    assert!(matches!(Atom::from(3u64), Atom::U(3)));
}

#[test]
fn atom_kinds_and_names() {
    assert_eq!(Atom::I(-1).to_tag(), AtomTag::I);
    assert_eq!(Atom::S("a".to_string()).to_tag(), AtomTag::S);
    assert_eq!(AtomTag::F.name(), "F");
    assert_eq!(AtomTag::U.name(), "U");
    assert!(Atom::U(3).same(&Atom::U(3)));
    assert!(!Atom::U(3).same(&Atom::I(3)));
    assert!(Atom::S("q".to_string()).duplicate().same(&Atom::S("q".to_string())));
}

#[test]
fn bytes_read_after_write() {
    let mut b = Bytes::from(vec![1, 2, 3, 4, 5]);
    assert_eq!(b.seek(SeekFrom::Start(1)), Ok(1));
    assert_eq!(b.write(&[9, 8]), 2);
    assert_eq!(b.coursor, 3);
    assert_eq!(b.data, vec![1, 9, 8, 4, 5]);
    assert_eq!(b.seek(SeekFrom::Start(1)), Ok(1));
    let mut back = [0u8; 2];
    assert_eq!(b.read(&mut back), 2);
    assert_eq!(back, [9, 8]);
}
