use nmcr::{
    args_schema, ensure_required_args, Arg, ArgKind, ArgKindBoolean, ArgKindString, JsonValue,
    Location, Span, TemplateFile, TemplateFileKindFile, TemplateTool,
};

fn make_arg(name: &str, description: &str, kind: ArgKind) -> Arg {
    Arg {
        name: name.to_string(),
        description: description.to_string(),
        kind,
        required: true,
    }
}

fn empty_location() -> Location {
    Location {
        path: String::new(),
        span: Span { start: 0, end: 0 },
    }
}

fn make_template(id: &str, name: &str, description: &str, args: Vec<Arg>) -> TemplateFile {
    TemplateFile {
        kind: TemplateFileKindFile,
        id: id.to_string(),
        name: name.to_string(),
        description: description.to_string(),
        args,
        lang: None,
        content: String::new(),
        path: None,
        location: empty_location(),
    }
}

#[test]
fn sanitize_tool_name_basic() {
    assert_eq!(
        TemplateTool::sanitize_tool_name("React Component"),
        "react_component"
    );
    assert_eq!(
        TemplateTool::sanitize_tool_name("  API::Client  "),
        "api_client"
    );
    assert_eq!(TemplateTool::sanitize_tool_name("???"), "");
}

#[test]
fn tool_instructions_include_descriptions_and_args() {
    let mut args = Vec::new();
    args.push(make_arg(
        "name",
        "Name of the component",
        ArgKind::String(ArgKindString),
    ));
    args.push(make_arg(
        "with_css",
        "Generate CSS module",
        ArgKind::Boolean(ArgKindBoolean),
    ));

    let template = make_template("component", "Component", "Create a React component", args);

    let tool = TemplateTool::from_template(template);
    let instructions = tool.instructions_line();

    assert_eq!(
        instructions,
        "- component → Component — Create a React component (args: name, with_css)"
    );
}

#[test]
fn tool_name_uses_template_id() {
    let template = make_template("rust_package_gitignore", "Package Gitignore", "", Vec::new());

    let tool = TemplateTool::from_template(template);
    assert_eq!(tool.tool_name(), "rust_package_gitignore");
}

#[test]
fn optional_args_marked_in_instructions() {
    let args = vec![
        Arg {
            name: "name".into(),
            description: String::new(),
            kind: ArgKind::String(ArgKindString),
            required: true,
        },
        Arg {
            name: "suffix".into(),
            description: String::new(),
            kind: ArgKind::String(ArgKindString),
            required: false,
        },
    ];

    let template = make_template("example", "Example", "", args);

    let tool = TemplateTool::from_template(template);
    let instructions = tool.instructions_line();
    assert!(instructions.contains("suffix?"));
}

#[test]
fn args_schema_lists_properties_and_required() {
    let args = vec![
        make_arg("name", "Display name.", ArgKind::String(ArgKindString)),
        Arg {
            name: "flag".into(),
            description: String::new(),
            kind: ArgKind::Boolean(ArgKindBoolean),
            required: false,
        },
    ];
    let schema = args_schema(&args);
    let members = match schema {
        JsonValue::Obj(ms) => ms,
        other => panic!("expected an object schema, got {other:?}"),
    };
    assert_eq!(members[0].key, "type");
    match &members[0].value {
        JsonValue::Str(s) => assert_eq!(s, "object"),
        other => panic!("expected a string, got {other:?}"),
    }
    assert_eq!(members[1].key, "properties");
    let props = match &members[1].value {
        JsonValue::Obj(ms) => ms,
        other => panic!("expected properties object, got {other:?}"),
    };
    assert_eq!(props.len(), 2);
    assert_eq!(props[0].key, "name");
    assert_eq!(props[1].key, "flag");
    assert_eq!(members[2].key, "additionalProperties");
    assert!(matches!(members[2].value, JsonValue::Bool(false)));
    assert_eq!(members[3].key, "required");
    let req = match &members[3].value {
        JsonValue::Arr(items) => items,
        other => panic!("expected a required list, got {other:?}"),
    };
    assert_eq!(req.len(), 1);
    match &req[0] {
        JsonValue::Str(s) => assert_eq!(s, "name"),
        other => panic!("expected a name, got {other:?}"),
    }
}

#[test]
fn ensure_required_args_reports_missing() {
    let args = vec![
        make_arg("name", "", ArgKind::String(ArgKindString)),
        Arg {
            name: "suffix".into(),
            description: String::new(),
            kind: ArgKind::String(ArgKindString),
            required: false,
        },
    ];
    let template = make_template("greeting", "Greeting", "", args);

    let provided: Vec<String> = vec!["name".to_string()];
    assert!(ensure_required_args(&template, &provided).is_ok());

    let none: Vec<String> = Vec::new();
    let err = ensure_required_args(&template, &none).expect_err("missing required argument");
    assert_eq!(
        err,
        "Missing required argument(s) name for template 'greeting'."
    );
}
