use muzzman_lib::enums::CustomEnum;

#[test]
fn add_field() {
    let mut custom_enum = CustomEnum::default();
    custom_enum.add("TestingField");

    assert_eq!(
        custom_enum,
        CustomEnum {
            data: vec!["TestingField".to_owned()],
            locked: false,
            active: None
        }
    );
}

#[test]
fn set_active_field() {
    let mut custom_enum = CustomEnum::default();
    custom_enum.add("TestingField");
    custom_enum.add("FieldTesting");

    custom_enum.set_active(Some(1)); // FieldTesting

    assert_eq!(
        custom_enum,
        CustomEnum {
            data: vec!["TestingField".to_owned(), "FieldTesting".to_owned()],
            locked: false,
            active: Some(1)
        }
    );
}
