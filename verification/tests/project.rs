use nmcr::{Config, ConfigUser, Project, TemplateArgs};

#[test]
fn config_paths_resolve() {
    assert_eq!(Config::resolve_path("ncmr.toml"), "ncmr.toml");
    assert_eq!(Config::resolve_path("proj/ncmr.toml"), "proj/ncmr.toml");
    assert_eq!(Config::resolve_path("proj"), "proj/ncmr.toml");
    assert_eq!(Config::join_path("proj/"), "proj/ncmr.toml");
    assert_eq!(Config::join_path(""), "ncmr.toml");
    assert_eq!(Config::default_path(), "ncmr.toml");
    assert_eq!(Config::default_templates_glob(), "./tmpls/**/*.md");
}

#[test]
fn project_root_is_config_directory() {
    let user = ConfigUser {
        templates: Config::default_templates_glob(),
    };
    let config = Config::new("work/proj/ncmr.toml".to_string(), user);
    let project = Project::from_config(config);
    assert_eq!(project.path(), "work/proj");

    let top = Project::from_config(Config::new(
        "ncmr.toml".to_string(),
        ConfigUser {
            templates: "x".to_string(),
        },
    ));
    assert_eq!(top.path(), ".");
}

#[test]
fn template_args_keep_declaration_order() {
    let mut args = TemplateArgs::new();
    assert!(args.is_empty());
    args.push("name".to_string(), "Display name".to_string());
    args.push("flag".to_string(), String::new());
    assert_eq!(args.len(), 2);
    assert!(!args.is_empty());
    assert_eq!(args.items[0].name, "name");
    assert_eq!(args.items[1].name, "flag");
}
