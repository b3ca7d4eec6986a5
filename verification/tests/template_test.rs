use std::collections::HashMap;

use apprunner::template::{
    extract_variables, extract_variables_from_fields, has_required_variables,
    has_template_variables, resolve_values, substitute, sync_template_vars, TemplateError,
    TemplateVar,
};

fn var(name: &str, description: &str, default: Option<&str>) -> TemplateVar {
    TemplateVar {
        name: name.to_string(),
        description: description.to_string(),
        default: default.map(|d| d.to_string()),
    }
}

#[test]
fn test_extract_single_variable() {
    let vars = extract_variables("cargo run -- --port {{port}}");
    assert_eq!(vars, vec!["port"]);
}

#[test]
fn test_extract_multiple_variables() {
    let vars = extract_variables("{{host}}:{{port}}/{{path}}");
    assert_eq!(vars, vec!["host", "port", "path"]);
}

#[test]
fn test_extract_deduplicates() {
    let vars = extract_variables("{{port}} and {{port}} again");
    assert_eq!(vars, vec!["port"]);
}

#[test]
fn test_extract_no_variables() {
    let vars = extract_variables("cargo run -- --port 3000");
    assert!(vars.is_empty());
}

#[test]
fn test_extract_ignores_incomplete_patterns() {
    let vars = extract_variables("{{port and port}} and {{ and }}");
    assert!(vars.is_empty());
}

#[test]
fn test_extract_underscore_variable() {
    let vars = extract_variables("{{my_var}} and {{_private}}");
    assert_eq!(vars, vec!["my_var", "_private"]);
}

#[test]
fn test_extract_alphanumeric_variable() {
    let vars = extract_variables("{{var1}} {{var_2}} {{Var3}}");
    assert_eq!(vars, vec!["var1", "var_2", "Var3"]);
}

#[test]
fn test_extract_rejects_leading_digit() {
    let vars = extract_variables("{{1port}}");
    assert!(vars.is_empty());
}

#[test]
fn test_extract_from_fields_deduplicates_across() {
    let vars = extract_variables_from_fields(&[
        "cargo run -- --port {{port}}",
        "/home/{{user}}/projects",
        "PORT={{port}},USER={{user}},KEY={{api_key}}",
    ]);
    assert_eq!(vars, vec!["port", "user", "api_key"]);
}

#[test]
fn test_substitute_single() {
    let mut values = HashMap::new();
    values.insert("port".to_string(), "3000".to_string());

    let result = substitute("cargo run -- --port {{port}}", &values).unwrap();
    assert_eq!(result, "cargo run -- --port 3000");
}

#[test]
fn test_substitute_multiple() {
    let mut values = HashMap::new();
    values.insert("host".to_string(), "localhost".to_string());
    values.insert("port".to_string(), "8080".to_string());

    let result = substitute("{{host}}:{{port}}", &values).unwrap();
    assert_eq!(result, "localhost:8080");
}

#[test]
fn test_substitute_repeated_variable() {
    let mut values = HashMap::new();
    values.insert("name".to_string(), "world".to_string());

    let result = substitute("hello {{name}}, goodbye {{name}}", &values).unwrap();
    assert_eq!(result, "hello world, goodbye world");
}

#[test]
fn test_substitute_missing_value_errors() {
    let values = HashMap::new();
    let result = substitute("{{port}}", &values);
    assert!(result.is_err());
    assert!(result.unwrap_err().message().contains("port"));
}

#[test]
fn test_substitute_no_variables() {
    let values = HashMap::new();
    let result = substitute("cargo run", &values).unwrap();
    assert_eq!(result, "cargo run");
}

#[test]
fn test_resolve_values_all_defaults() {
    let vars = vec![
        var("port", "Server port", Some("3000")),
        var("host", "Server host", Some("localhost")),
    ];

    let resolved = resolve_values(&vars, &HashMap::new()).unwrap();
    assert_eq!(resolved["port"], "3000");
    assert_eq!(resolved["host"], "localhost");
}

#[test]
fn test_resolve_values_with_overrides() {
    let vars = vec![var("port", "Server port", Some("3000"))];

    let mut overrides = HashMap::new();
    overrides.insert("port".to_string(), "8080".to_string());

    let resolved = resolve_values(&vars, &overrides).unwrap();
    assert_eq!(resolved["port"], "8080");
}

#[test]
fn test_resolve_values_required_without_override_errors() {
    let vars = vec![var("api_key", "API key", None)];

    let result = resolve_values(&vars, &HashMap::new());
    assert!(result.is_err());
    assert!(result.unwrap_err().message().contains("api_key"));
}

#[test]
fn test_resolve_values_required_with_override() {
    let vars = vec![var("api_key", "API key", None)];

    let mut overrides = HashMap::new();
    overrides.insert("api_key".to_string(), "secret123".to_string());

    let resolved = resolve_values(&vars, &overrides).unwrap();
    assert_eq!(resolved["api_key"], "secret123");
}

#[test]
fn test_sync_template_vars_new_variable() {
    let existing: Vec<TemplateVar> = vec![];
    let detected = vec!["port".to_string()];

    let result = sync_template_vars(&existing, &detected);
    assert_eq!(result.len(), 1);
    assert_eq!(result[0].name, "port");
    assert_eq!(result[0].description, "");
    assert_eq!(result[0].default, None);
}

#[test]
fn test_sync_template_vars_preserves_existing() {
    let existing = vec![var("port", "Server port", Some("3000"))];
    let detected = vec!["port".to_string()];

    let result = sync_template_vars(&existing, &detected);
    assert_eq!(result.len(), 1);
    assert_eq!(result[0].description, "Server port");
    assert_eq!(result[0].default, Some("3000".to_string()));
}

#[test]
fn test_sync_template_vars_removes_orphans() {
    let existing = vec![
        var("port", "Server port", Some("3000")),
        var("old_var", "No longer used", Some("x")),
    ];
    let detected = vec!["port".to_string()];

    let result = sync_template_vars(&existing, &detected);
    assert_eq!(result.len(), 1);
    assert_eq!(result[0].name, "port");
}

#[test]
fn test_sync_template_vars_adds_new_keeps_existing() {
    let existing = vec![var("port", "Server port", Some("3000"))];
    let detected = vec!["port".to_string(), "host".to_string()];

    let result = sync_template_vars(&existing, &detected);
    assert_eq!(result.len(), 2);
    assert_eq!(result[0].name, "port");
    assert_eq!(result[0].description, "Server port");
    assert_eq!(result[1].name, "host");
    assert_eq!(result[1].description, "");
}

#[test]
fn test_has_required_variables_true() {
    let vars = vec![var("key", "", None)];
    assert!(has_required_variables(&vars));
}

#[test]
fn test_has_required_variables_false() {
    let vars = vec![var("port", "", Some("3000"))];
    assert!(!has_required_variables(&vars));
}

#[test]
fn test_has_required_variables_empty() {
    assert!(!has_required_variables(&[]));
}

#[test]
fn test_has_template_variables_true() {
    assert!(has_template_variables(&["cargo run --port {{port}}"]));
}

#[test]
fn test_has_template_variables_false() {
    assert!(!has_template_variables(&["cargo run --port 3000"]));
}

// Further cases.

#[test]
fn extract_stops_at_non_identifier_characters() {
    assert_eq!(extract_variables("{{a-b}} {{ok}}"), vec!["ok"]);
    assert_eq!(extract_variables("{{{x}}}"), vec!["x"]);
    assert!(extract_variables("{{}}").is_empty());
}

#[test]
fn substitute_leaves_no_placeholder_behind() {
    let mut values = HashMap::new();
    values.insert("a".to_string(), "{{b}}".to_string());
    values.insert("b".to_string(), "2".to_string());
    // Values are inserted as they are, not substituted again.
    let out = substitute("x={{a}}", &values).unwrap();
    assert_eq!(out, "x={{b}}");
}

#[test]
fn substitute_error_names_first_missing_placeholder() {
    let mut values = HashMap::new();
    values.insert("b".to_string(), "2".to_string());
    match substitute("{{b}}{{c}}{{d}}", &values) {
        Err(TemplateError::MissingValue(name)) => assert_eq!(name, "c"),
        other => panic!("unexpected {:?}", other),
    }
}

#[test]
fn substitute_error_message_text() {
    let e = TemplateError::MissingValue("port".to_string());
    assert_eq!(e.message(), "Template variable 'port' has no value");
    let e = TemplateError::RequiredValue("api_key".to_string());
    assert_eq!(
        e.message(),
        "Template variable 'api_key' requires a value (no default set)"
    );
}

#[test]
fn resolve_values_error_is_required_value() {
    let vars = vec![var("ok", "", Some("1")), var("need", "", None), var("also", "", None)];
    match resolve_values(&vars, &HashMap::new()) {
        Err(TemplateError::RequiredValue(name)) => assert_eq!(name, "need"),
        other => panic!("unexpected {:?}", other),
    }
}

#[test]
fn resolve_values_later_duplicate_wins() {
    let vars = vec![var("p", "", Some("1")), var("p", "", Some("2"))];
    let resolved = resolve_values(&vars, &HashMap::new()).unwrap();
    assert_eq!(resolved.len(), 1);
    assert_eq!(resolved["p"], "2");
}

#[test]
fn template_var_is_required_without_default() {
    assert!(var("k", "", None).is_required());
    assert!(!var("k", "", Some("")).is_required());
}

#[test]
fn extract_variables_agrees_with_the_placeholder_regex() {
    let re = regex::Regex::new(r"\{\{([a-zA-Z_][a-zA-Z0-9_]*)\}\}").unwrap();
    let samples = [
        "cargo run -- --port {{port}}",
        "{{host}}:{{port}}/{{path}}",
        "{{a}}{{b}}{{a}}",
        "{{{x}}} {{ y }} {{z}",
        "{{_1}}{{1a}}{{a1_}}}}",
        "no placeholders",
        "{{é}} {{ok}}",
    ];
    for s in samples.iter() {
        let mut seen = std::collections::HashSet::new();
        let mut expected: Vec<String> = Vec::new();
        for cap in re.captures_iter(s) {
            let name = cap[1].to_string();
            if seen.insert(name.clone()) {
                expected.push(name);
            }
        }
        assert_eq!(extract_variables(s), expected, "input {:?}", s);
    }
}

#[test]
fn syncing_twice_is_syncing_once() {
    let existing = vec![var("port", "the port", Some("80")), var("old", "", None)];
    let names = vec!["port".to_string(), "env".to_string()];
    let once = sync_template_vars(&existing, &names);
    let twice = sync_template_vars(&once, &names);
    assert_eq!(once, twice);
}

#[test]
fn resolution_prefers_overrides_and_names_the_first_missing() {
    let vars = vec![var("a", "", Some("1")), var("b", "", None), var("c", "", None)];
    let mut ov = HashMap::new();
    ov.insert("a".to_string(), "9".to_string());
    ov.insert("zzz".to_string(), "ignored".to_string());
    match resolve_values(&vars, &ov) {
        Err(TemplateError::RequiredValue(name)) => assert_eq!(name, "b"),
        other => panic!("unexpected {:?}", other),
    }
    ov.insert("b".to_string(), "2".to_string());
    ov.insert("c".to_string(), "3".to_string());
    let m = resolve_values(&vars, &ov).unwrap();
    assert_eq!(m.len(), 3);
    assert_eq!(m["a"], "9");
    assert_eq!(m["b"], "2");
    assert_eq!(m["c"], "3");
}
