use nmcr::EntityId;

#[test]
fn normalizes_segments() {
    let cases = [
        ("Rust Crate", "rust_crate"),
        ("API::Client", "api_client"),
        ("  hello-world  ", "hello_world"),
        ("???", ""),
        ("Tęmplaté", "tęmplaté"),
    ];

    for (input, expected) in cases {
        assert_eq!(EntityId::normalize_segment(input), expected);
    }
}

#[test]
fn builds_ids_from_segments() {
    let generator = EntityId::new();
    let id = generator.from_segments(&vec!["Rust Crate".to_string(), "Manifest".to_string()]);
    assert_eq!(id, "rust_crate_manifest");
}

#[test]
fn drops_empty_segments() {
    let generator = EntityId::new();
    let id = generator.from_segments(&vec!["???".to_string(), " Rust File ".to_string()]);
    assert_eq!(id, "rust_file");
}

#[test]
fn avoids_double_underscores() {
    let generator = EntityId::new();
    let id = generator.from_segments(&vec!["API ::: Client -- HTTP".to_string()]);
    assert_eq!(id, "api_client_http");
    assert!(!id.contains("__"));
}
