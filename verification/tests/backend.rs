use anni_sonic::backend::SonicBackend;

#[test]
fn backend_keeps_each_catalog_once() {
    let backend = SonicBackend::new(vec![
        "B".to_string(),
        "A".to_string(),
        "B".to_string(),
        "C".to_string(),
        "A".to_string(),
    ]);
    assert_eq!(backend.albums(), &vec!["B".to_string(), "A".to_string(), "C".to_string()]);
}

#[test]
fn backend_of_nothing_is_empty() {
    let backend = SonicBackend::new(Vec::new());
    assert!(backend.albums().is_empty());
}
