use nmcr::{parse_str, ArgKind, ParseError, ParsedMarkdown, Template};

#[test]
fn tree_detection() {
    let input = "# Package\n\n## Lib\n\n### `./Cargo.toml`\n\n```toml\n[package]\nname = \"example\"\nversion = \"0.1.0\"\n```\n\n### `./src/lib.rs`\n\n```rust\npub fn add(a: u8, b: u8) -> u8 { a + b }\n```\n";

    let parsed = parse_str(Some("pkg"), input).expect("parse markdown");

    let collection = match parsed {
        ParsedMarkdown::Collection(c) => c,
        other => panic!("expected a collection, got {other:?}"),
    };
    assert_eq!(collection.name, "pkg");
    assert_eq!(collection.description, "");
    assert_eq!(collection.location.path, "");
    assert_eq!(collection.location.span.start, 0);
    assert_eq!(collection.location.span.end, 170);
    assert_eq!(collection.templates.len(), 3);

    let first = match &collection.templates[0] {
        Template::TemplateFile(f) => f,
        other => panic!("expected a file first, got {other:?}"),
    };
    assert_eq!(first.id, "package_lib_cargo_toml");
    assert_eq!(first.name, "./Cargo.toml");
    assert_eq!(first.description, "");
    assert!(first.args.is_empty());
    assert_eq!(first.lang.as_deref(), Some("toml"));
    assert_eq!(first.content, "[package]\nname = \"example\"\nversion = \"0.1.0\"");
    assert_eq!(first.path.as_deref(), Some("./Cargo.toml"));
    assert_eq!(first.location.span.start, 19);
    assert_eq!(first.location.span.end, 95);

    let second = match &collection.templates[1] {
        Template::TemplateFile(f) => f,
        other => panic!("expected a file second, got {other:?}"),
    };
    assert_eq!(second.id, "package_lib_src_lib_rs");
    assert_eq!(second.name, "./src/lib.rs");
    assert_eq!(second.lang.as_deref(), Some("rust"));
    assert_eq!(second.content, "pub fn add(a: u8, b: u8) -> u8 { a + b }");
    assert_eq!(second.path.as_deref(), Some("./src/lib.rs"));
    assert_eq!(second.location.span.start, 97);
    assert_eq!(second.location.span.end, 169);

    let tree = match &collection.templates[2] {
        Template::TemplateTree(t) => t,
        other => panic!("expected a tree third, got {other:?}"),
    };
    assert_eq!(tree.id, "package_lib");
    assert_eq!(tree.name, "Lib");
    assert_eq!(tree.description, "");
    assert_eq!(tree.location.span.start, 11);
    assert_eq!(tree.location.span.end, 169);
    assert_eq!(tree.files.len(), 2);
    let m0 = match &tree.files[0] {
        Template::TemplateFile(f) => f,
        other => panic!("expected a file member, got {other:?}"),
    };
    assert_eq!(m0.id, "package_lib_cargo_toml");
    assert_eq!(m0.content, "[package]\nname = \"example\"\nversion = \"0.1.0\"");
    let m1 = match &tree.files[1] {
        Template::TemplateFile(f) => f,
        other => panic!("expected a file member, got {other:?}"),
    };
    assert_eq!(m1.id, "package_lib_src_lib_rs");
    assert_eq!(m1.content, "pub fn add(a: u8, b: u8) -> u8 { a + b }");
}

#[test]
fn single() {
    let input = "# Hello World\n\nThis template prints a greeting.\n\n```python\nprint(\"Hello, world!\")\n```\n";

    let parsed = parse_str(Some("hello_world"), input).expect("parse markdown");

    let file = match parsed {
        ParsedMarkdown::Template(Template::TemplateFile(f)) => f,
        other => panic!("expected a bare template, got {other:?}"),
    };
    assert_eq!(file.id, "hello_world");
    assert_eq!(file.name, "Hello World");
    assert_eq!(file.description, "This template prints a greeting.");
    assert!(file.args.is_empty());
    assert_eq!(file.lang.as_deref(), Some("python"));
    assert_eq!(file.content, "print(\"Hello, world!\")");
    assert_eq!(file.path, None);
    assert_eq!(file.location.path, "");
    assert_eq!(file.location.span.start, 0);
    assert_eq!(file.location.span.end, 85);
}

#[test]
fn single_details() {
    let input = "# Personalized Greeting\n\nGenerates a personalized greeting.\n\n## Args\n\n- `name`: Name to greet.\n\n## Template\n\n```handlebars\nHello, {{ name }}!\n```\n";

    let parsed = parse_str(Some("personalized_greeting"), input).expect("parse markdown");

    let file = match parsed {
        ParsedMarkdown::Template(Template::TemplateFile(f)) => f,
        other => panic!("expected a bare template, got {other:?}"),
    };
    assert_eq!(file.id, "personalized_greeting");
    assert_eq!(file.name, "Personalized Greeting");
    assert_eq!(file.description, "Generates a personalized greeting.");
    assert_eq!(file.args.len(), 1);
    assert_eq!(file.args[0].name, "name");
    assert_eq!(file.args[0].description, "Name to greet.");
    assert!(matches!(file.args[0].kind, ArgKind::Any(_)));
    assert!(file.args[0].required);
    assert_eq!(file.lang.as_deref(), Some("handlebars"));
    assert_eq!(file.content, "Hello, {{ name }}!");
    assert_eq!(file.path, None);
    assert_eq!(file.location.span.start, 0);
    assert_eq!(file.location.span.end, 145);
}

#[test]
fn argument_types_and_descriptions() {
    let input = "# Component\n\n## Arguments\n\n- `name` [string]: Display name.\n- `includeProps?` [boolean]\n\n## Template\n\n```handlebars\nexport const Component = () => \"hello\";\n```\n";

    let parsed = parse_str(Some("component"), input).expect("parse markdown");

    let file = match parsed {
        ParsedMarkdown::Template(Template::TemplateFile(file)) => file,
        other => panic!("unexpected parser result: {other:?}"),
    };

    assert_eq!(file.args.len(), 2, "expected two arguments");

    let first = &file.args[0];
    assert_eq!(first.name, "name");
    assert_eq!(first.description, "Display name.");
    assert!(matches!(first.kind, ArgKind::String(_)));
    assert!(first.required);

    let second = &file.args[1];
    assert_eq!(second.name, "includeProps");
    assert!(second.description.is_empty());
    assert!(matches!(second.kind, ArgKind::Boolean(_)));
    assert!(!second.required);
}

#[test]
fn collection() {
    let input = "# Greeting Templates\n\nA collection of greeting snippets.\n\n## Quick Hello\n\n```text\nHello!\n```\n\n## Friendly Greeting\n\n### Args\n\n- `name`: Name to greet.\n\n### Template\n\n```handlebars\nHey, {{ name }}!\n```\n\n## Formal Greeting\n\n```text\nGood day.\n```\n";

    let parsed = parse_str(Some("greetings"), input).expect("parse markdown");

    let file = match parsed {
        ParsedMarkdown::Template(Template::TemplateFile(f)) => f,
        other => panic!("expected a bare template, got {other:?}"),
    };
    assert_eq!(file.id, "greeting_templates_friendly_greeting");
    assert_eq!(file.name, "Friendly Greeting");
    assert_eq!(file.description, "");
    assert_eq!(file.args.len(), 1);
    assert_eq!(file.args[0].name, "name");
    assert_eq!(file.args[0].description, "Name to greet.");
    assert_eq!(file.lang.as_deref(), Some("handlebars"));
    assert_eq!(file.content, "Hey, {{ name }}!");
    assert_eq!(file.path, None);
    assert_eq!(file.location.span.start, 94);
    assert_eq!(file.location.span.end, 200);
}

#[test]
fn parsing_twice_is_idempotent() {
    let input = "# Hello World\n\nA greeting.\n\n```python\nprint(\"hi\")\n```\n";
    let a = parse_str(Some("x"), input).expect("first parse");
    let b = parse_str(Some("x"), input).expect("second parse");
    match (a, b) {
        (
            ParsedMarkdown::Template(Template::TemplateFile(fa)),
            ParsedMarkdown::Template(Template::TemplateFile(fb)),
        ) => {
            assert_eq!(fa.id, fb.id);
            assert_eq!(fa.name, fb.name);
            assert_eq!(fa.description, fb.description);
            assert_eq!(fa.content, fb.content);
            assert_eq!(fa.lang, fb.lang);
            assert_eq!(fa.path, fb.path);
            assert_eq!(fa.location.span.start, fb.location.span.start);
            assert_eq!(fa.location.span.end, fb.location.span.end);
        },
        other => panic!("expected matching bare templates, got {other:?}"),
    }
}

#[test]
fn no_code_blocks_means_no_templates() {
    let input = "# Only Prose\n\nNothing to generate here.\n\n## Inner\n\nStill nothing.\n";
    let err = parse_str(Some("prose"), input).expect_err("should find no templates");
    assert!(matches!(err, ParseError::NoTemplatesFound));
    assert_eq!(err.message(), "No templates found in markdown");
}

#[test]
fn empty_heading_path_is_missing_identifier() {
    let input = "# ???\n\n```text\nbody\n```\n";
    let err = parse_str(Some("odd"), input).expect_err("empty id should be fatal");
    match &err {
        ParseError::MissingIdentifier { heading_path } => {
            assert_eq!(heading_path.len(), 1);
            assert_eq!(heading_path[0], "???");
        },
        other => panic!("expected a missing identifier, got {other:?}"),
    }
    assert_eq!(err.message(), "Unable to derive template id from headings: ???");
}

#[test]
fn one_missing_path_degrades_the_group() {
    // Both siblings declare an output path through their headings: a tree
    // forms alongside the standalone entries.
    let with_paths = "# Package\n\n## Lib\n\n### `./a.txt`\n\n```text\nA\n```\n\n### `./b.txt`\n\n```text\nB\n```\n";
    let parsed = parse_str(Some("pkg"), with_paths).expect("parse markdown");
    let collection = match parsed {
        ParsedMarkdown::Collection(c) => c,
        other => panic!("expected a collection, got {other:?}"),
    };
    let trees = collection
        .templates
        .iter()
        .filter(|t| matches!(t, Template::TemplateTree(_)))
        .count();
    assert_eq!(trees, 1, "a path-complete group builds a tree");

    // Removing the path declaration from one sibling degrades the whole
    // group to loose standalone templates.
    let one_missing = "# Package\n\n## Lib\n\n### `./a.txt`\n\n```text\nA\n```\n\n### B File\n\n```text\nB\n```\n";
    let parsed = parse_str(Some("pkg"), one_missing).expect("parse markdown");
    let collection = match parsed {
        ParsedMarkdown::Collection(c) => c,
        other => panic!("expected a collection, got {other:?}"),
    };
    let trees = collection
        .templates
        .iter()
        .filter(|t| matches!(t, Template::TemplateTree(_)))
        .count();
    assert_eq!(trees, 0, "one path-less sibling keeps the group standalone");
    let files = collection
        .templates
        .iter()
        .filter(|t| matches!(t, Template::TemplateFile(_)))
        .count();
    assert_eq!(files, 2, "the members remain visible as standalone templates");
}
