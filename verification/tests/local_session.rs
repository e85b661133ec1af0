use muzzman_lib::session::LocalSession;

#[test]
fn create_element_main() {
    let mut local_session = LocalSession::new();
    let default_location = local_session.get_default_location().unwrap();
    let new_element = local_session
        .create_element(default_location, "NewElement".into())
        .unwrap();

    assert_eq!(
        local_session.get_name(new_element.uid).unwrap(),
        "NewElement".to_string()
    );
    assert_eq!(
        local_session.element_get_parent(new_element).unwrap(),
        default_location
    );
    assert_eq!(local_session.element_path(new_element).unwrap(), vec![0])
}
