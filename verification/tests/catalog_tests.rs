use tools::{
    default_tools, parse_catalog, resolve_tool_path, serialize_catalog, user_tools, Action,
    LoadError, SchemaError, Tools, UserSource,
};

fn action(name: &str, tool_names: &[&str]) -> Action {
    Action::new(
        name.to_string(),
        tool_names.iter().map(|t| t.to_string()).collect(),
    )
}

fn pairs(t: &Tools) -> Vec<(String, Vec<String>)> {
    t.actions()
        .iter()
        .map(|a| (a.action().to_string(), a.tools().clone()))
        .collect()
}

fn schema_error(r: Result<Tools, LoadError>) -> SchemaError {
    match r {
        Err(LoadError::Schema(e)) => e,
        Err(other) => panic!("expected a schema fault, got: {}", other.message()),
        Ok(_) => panic!("expected a schema fault, got a catalog"),
    }
}

#[test]
fn round_trip_empty_catalog() {
    let text = serialize_catalog(&Tools::new(vec![])).unwrap();
    let back = parse_catalog(&text).unwrap();
    assert!(back.actions().is_empty());
}

#[test]
fn round_trip_three_actions() {
    let before = Tools::new(vec![
        action("compress files", &["zip", "tar", "gzip"]),
        action("no tools at all", &[]),
        action("compress files", &["zip", "zip"]),
    ]);
    let want = pairs(&before);
    let text = serialize_catalog(&before).unwrap();
    let back = parse_catalog(&text).unwrap();
    assert_eq!(pairs(&back), want);
}

#[test]
fn round_trip_awkward_strings() {
    let before = Tools::new(vec![
        action("quote \" and hash # inside", &["a\\b", ""]),
        action("umlaut \u{e4} and newline\n", &["caf\u{e9}"]),
    ]);
    let want = pairs(&before);
    let text = serialize_catalog(&before).unwrap();
    let back = parse_catalog(&text).unwrap();
    assert_eq!(pairs(&back), want);
}

#[test]
fn missing_file_yields_empty_catalog() {
    let loaded = user_tools(UserSource::Missing).unwrap();
    assert!(loaded.actions().is_empty());
}

#[test]
fn unreadable_file_is_an_io_fault() {
    match user_tools(UserSource::Unreadable("permission denied".to_string())) {
        Err(LoadError::Io(m)) => assert_eq!(m, "permission denied"),
        _ => panic!("expected an I/O fault"),
    }
}

#[test]
fn found_file_is_parsed() {
    let loaded = user_tools(UserSource::Found(
        "actions = [ { action = \"x\", tools = [\"y\"] } ]".to_string(),
    ))
    .unwrap();
    assert_eq!(
        pairs(&loaded),
        vec![("x".to_string(), vec!["y".to_string()])]
    );
}

#[test]
fn empty_document_is_a_schema_fault() {
    assert_eq!(schema_error(parse_catalog("")), SchemaError::MissingActions);
}

#[test]
fn actions_must_be_an_array() {
    assert_eq!(
        schema_error(parse_catalog("actions = 3")),
        SchemaError::ActionsNotArray
    );
}

#[test]
fn entries_must_be_tables() {
    assert_eq!(
        schema_error(parse_catalog("actions = [3]")),
        SchemaError::EntryNotTable
    );
}

#[test]
fn entries_need_an_action_name() {
    assert_eq!(
        schema_error(parse_catalog("actions = [ { tools = [] } ]")),
        SchemaError::MissingActionName
    );
}

#[test]
fn action_names_must_be_strings() {
    assert_eq!(
        schema_error(parse_catalog("actions = [ { action = 5, tools = [] } ]")),
        SchemaError::ActionNameNotString
    );
}

#[test]
fn entries_need_tools() {
    assert_eq!(
        schema_error(parse_catalog("actions = [ { action = \"x\" } ]")),
        SchemaError::MissingTools
    );
}

#[test]
fn tools_must_be_an_array() {
    assert_eq!(
        schema_error(parse_catalog("actions = [ { action = \"x\", tools = \"y\" } ]")),
        SchemaError::ToolsNotArray
    );
}

#[test]
fn tool_names_must_be_strings() {
    assert_eq!(
        schema_error(parse_catalog("actions = [ { action = \"x\", tools = [1] } ]")),
        SchemaError::ToolNotString
    );
}

#[test]
fn broken_toml_is_a_syntax_fault() {
    match parse_catalog("=") {
        Err(LoadError::Syntax(m)) => assert!(!m.is_empty()),
        _ => panic!("expected a syntax fault"),
    }
}

#[test]
fn unknown_keys_are_ignored() {
    let loaded = parse_catalog("extra = 1\nactions = []").unwrap();
    assert!(loaded.actions().is_empty());
}

#[test]
fn table_array_syntax_is_a_catalog_too() {
    let loaded =
        parse_catalog("[[actions]]\naction = \"x\"\ntools = [\"a\", \"b\"]").unwrap();
    assert_eq!(
        pairs(&loaded),
        vec![("x".to_string(), vec!["a".to_string(), "b".to_string()])]
    );
}

#[test]
fn builtin_catalog_holds_compress_files() {
    let builtin = default_tools().unwrap();
    assert_eq!(
        pairs(&builtin),
        vec![(
            "compress files".to_string(),
            vec!["zip".to_string(), "tar".to_string(), "gzip".to_string()]
        )]
    );
}

#[test]
fn tool_path_defaults_without_expansion() {
    assert_eq!(resolve_tool_path(None), "~/.tools.toml");
    assert_eq!(
        resolve_tool_path(Some("/etc/tools.toml".to_string())),
        "/etc/tools.toml"
    );
}

#[test]
fn fault_messages_name_the_fault() {
    let e = LoadError::Schema(SchemaError::MissingActions);
    assert_eq!(e.message(), "missing 'actions' key");
    let io = LoadError::Io("disk fault".to_string());
    assert_eq!(io.message(), "disk fault");
}
