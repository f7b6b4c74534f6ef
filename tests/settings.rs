use fracta::settings::LocationSettings;

#[test]
fn test_get_or_create_id_idempotent() {
    let mut settings = LocationSettings::default();
    let id1 = settings.get_or_create_id();
    let id2 = settings.get_or_create_id();
    assert_eq!(id1, id2);
}

#[test]
fn an_existing_id_is_kept() {
    let mut settings = LocationSettings { id: Some(42), label: None };
    assert_eq!(settings.get_or_create_id(), 42);
    assert_eq!(settings.id, Some(42));
}
