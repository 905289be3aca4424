use nmcr::discover_placeholders;

#[test]
fn discovers_placeholders() {
    let found = discover_placeholders("Hello {{ name }} {{#if flag}}{{greeting}}{{/if}}");
    let names: Vec<_> = found.iter().map(|p| p.name.as_str()).collect();
    assert_eq!(names, vec!["flag", "greeting", "name"]);
}

#[test]
fn discover_skips_alias_tokens() {
    let tpl = "{{#each items as |item|}}{{item.name}}{{/each}}";
    let found = discover_placeholders(tpl);
    let names: Vec<_> = found.iter().map(|p| p.name.as_str()).collect();
    assert_eq!(names, vec!["item.name", "items"]);
}

#[test]
fn occurrences_are_recorded_in_scan_order() {
    let found = discover_placeholders("{{name}} and {{name}} again");
    assert_eq!(found.len(), 1);
    assert_eq!(found[0].name, "name");
    assert_eq!(found[0].occurrences.len(), 2);
    assert_eq!(found[0].occurrences[0].start, 0);
    assert_eq!(found[0].occurrences[0].end, 8);
    assert_eq!(found[0].occurrences[1].start, 13);
    assert_eq!(found[0].occurrences[1].end, 21);
}

#[test]
fn comments_and_closings_reference_nothing() {
    assert!(discover_placeholders("{{! a comment }} {{/if}} {{else}}").is_empty());
    assert!(discover_placeholders("no tokens at all").is_empty());
}
