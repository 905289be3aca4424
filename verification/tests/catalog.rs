use nmcr::{Document, FileRef, IdRegistry, Location, Span, TemplateCatalog};

fn tree_document(path: &str) -> Document {
    Document {
        path: path.to_string(),
        text: "# Rust Crate\n\n## Lib\n\nRust crate library template.\n\n### `./Cargo.toml`\n\n#### Args\n\n- `pkg_name` [string]: Package name.\n\n#### Template\n\n```toml\n[package]\nname = \"{{pkg_name}}\"\n```\n\n### `./src/lib.rs`\n\n#### Template\n\n```rust\npub fn hello() {}\n```\n"
            .to_string(),
    }
}

fn single_document(path: &str) -> Document {
    Document {
        path: path.to_string(),
        text: "# Npm Package\n\nA package manifest.\n\n```json\n{}\n```\n".to_string(),
    }
}

#[test]
fn loads_tree_and_nested_files_without_duplication() {
    let docs = vec![tree_document("rust-crate.md")];
    let catalog = TemplateCatalog::load(&docs).expect("catalog loads");
    assert!(
        catalog.tree_templates().len() >= 1,
        "expected at least one tree template"
    );
    let tree = &catalog.tree_templates()[0];
    assert!(
        !tree.files().is_empty(),
        "expected tree to carry member files"
    );

    for file in tree.files() {
        let file_id = &file.id;
        let is_standalone = catalog
            .standalone_files()
            .iter()
            .any(|standalone| &standalone.id == file_id);
        assert!(
            !is_standalone,
            "tree member {file_id} should not appear as standalone"
        );
        match catalog.get_file(file_id) {
            Some(FileRef::TreeMember { file: nested, .. }) => {
                assert_eq!(nested.id, *file_id);
            },
            other => panic!("expected tree member lookup, got {:?}", other),
        }
    }
}

#[test]
fn duplicate_ids_error() {
    let docs = vec![single_document("npm.md"), single_document("npm.md")];
    let err = TemplateCatalog::load(&docs)
        .expect_err("loading same file twice should surface duplicates");
    let rendered = err.message();
    assert!(rendered.contains("Duplicate template id"));
}

#[test]
fn unmatched_ids_do_not_resolve() {
    let docs = vec![tree_document("rust-crate.md")];
    let catalog = TemplateCatalog::load(&docs).expect("catalog loads");
    let tree = &catalog.tree_templates()[0];
    let bogus_id = format!("{}__missing", tree.id());
    assert!(
        catalog.get_file(&bogus_id).is_none(),
        "unexpected match for {bogus_id}"
    );
    assert!(
        catalog.get_tree("not_a_tree").is_none(),
        "unexpected tree match"
    );
}

fn make_loc(path: &str, start: usize, end: usize) -> Location {
    Location {
        path: path.to_string(),
        span: Span { start, end },
    }
}

#[test]
fn register_template_detects_duplicates() {
    let mut seen = IdRegistry::new();
    let first = make_loc("templates/a.md", 0, 10);
    seen.claim("duplicate", &first).expect("first registration succeeds");

    let second = make_loc("templates/b.md", 5, 15);
    let err = seen.claim("duplicate", &second).expect_err("duplicate should fail");

    let rendered = err.message();
    assert!(rendered.contains("Duplicate template id: duplicate"));
    assert!(rendered.contains("duplicate occurrence at templates/b.md:5-15"));
    assert!(rendered.contains("first occurrence at templates/a.md:0-10"));
}

#[test]
fn duplicate_ids_return_error() {
    let mut context = IdRegistry::new();
    let first = make_loc("templates/a.md", 1, 10);
    context.claim("duplicate", &first).expect("first registration succeeds");

    let second = make_loc("templates/b.md", 5, 15);
    let err = context.claim("duplicate", &second).expect_err("duplicate should fail");

    let rendered = err.message();
    assert!(rendered.contains("Duplicate template id: duplicate"));
    assert!(rendered.contains("duplicate occurrence at templates/b.md:5-15"));
    assert!(rendered.contains("first occurrence at templates/a.md:1-10"));
}

#[test]
fn catalog_queries_and_instructions() {
    let docs = vec![tree_document("rust-crate.md"), single_document("npm.md")];
    let catalog = TemplateCatalog::load(&docs).expect("catalog loads");
    assert!(!catalog.is_empty());
    assert_eq!(
        catalog.instructions().as_deref(),
        Some("Templates available via tools: refer to the tool list in your client")
    );

    let tree = catalog.get_tree("rust_crate_lib").expect("tree resolves");
    assert_eq!(tree.name(), "Lib");
    assert_eq!(tree.description(), "Rust crate library template.");
    assert_eq!(tree.files().len(), 2);
    assert_eq!(tree.location().path, "rust-crate.md");

    match catalog.get_file("npm_package") {
        Some(FileRef::Standalone(f)) => {
            assert_eq!(f.name, "Npm Package");
            assert_eq!(f.lang.as_deref(), Some("json"));
        },
        other => panic!("expected a standalone file, got {other:?}"),
    }

    let empty = TemplateCatalog::load(&Vec::new()).expect("empty load");
    assert!(empty.is_empty());
    assert!(empty.instructions().is_none());
}

#[test]
fn backslashes_in_paths_are_normalized() {
    let docs = vec![single_document("tmpls\\npm.md")];
    let catalog = TemplateCatalog::load(&docs).expect("catalog loads");
    let files = catalog.standalone_files();
    assert_eq!(files.len(), 1);
    assert_eq!(files[0].location.path, "tmpls/npm.md");
}
