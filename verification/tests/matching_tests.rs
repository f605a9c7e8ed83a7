use tools::{
    find_actions, find_tool, lowercase_query, partition_by_flags, system_tools, Action,
    UserSource,
};

fn action(name: &str, tool_names: &[&str]) -> Action {
    Action::new(
        name.to_string(),
        tool_names.iter().map(|t| t.to_string()).collect(),
    )
}

fn names(actions: &[Action]) -> Vec<String> {
    actions.iter().map(|a| a.action().to_string()).collect()
}

#[test]
fn exact_name_matches_once() {
    let catalog = vec![action("compress", &["zip"])];
    let found = find_actions(&catalog, "compress");
    assert_eq!(names(&found), vec!["compress".to_string()]);
}

#[test]
fn every_token_must_occur() {
    let catalog = vec![action("compress files", &["zip"]), action("compress", &["zip"])];
    let found = find_actions(&catalog, "comp file");
    assert_eq!(names(&found), vec!["compress files".to_string()]);
}

#[test]
fn empty_query_matches_all_in_order() {
    let catalog = vec![
        action("one", &[]),
        action("two", &[]),
        action("three", &[]),
    ];
    let found = find_actions(&catalog, "");
    assert_eq!(
        names(&found),
        vec!["one".to_string(), "two".to_string(), "three".to_string()]
    );
}

#[test]
fn whitespace_query_matches_all() {
    let catalog = vec![action("one", &[]), action("two", &[])];
    let found = find_actions(&catalog, " ");
    assert_eq!(names(&found), vec!["one".to_string(), "two".to_string()]);
}

#[test]
fn upper_case_query_matches_like_lower_case() {
    let catalog = vec![action("compress files", &["zip"]), action("print", &["lp"])];
    let upper = find_actions(&catalog, "COMPRESS");
    let lower = find_actions(&catalog, "compress");
    assert_eq!(names(&upper), vec!["compress files".to_string()]);
    assert_eq!(names(&upper), names(&lower));
}

#[test]
fn mixed_case_names_match_too() {
    let catalog = vec![action("Compress Files", &["zip"])];
    let found = find_actions(&catalog, "compress");
    assert_eq!(names(&found), vec!["Compress Files".to_string()]);
}

#[test]
fn find_tool_returns_builtin_match_with_all_tools() {
    let found = find_tool("compress", UserSource::Missing).unwrap();
    assert_eq!(found.len(), 1);
    assert_eq!(found[0].action(), "compress files");
    assert_eq!(
        found[0].tools().clone(),
        vec!["zip".to_string(), "tar".to_string(), "gzip".to_string()]
    );
}

#[test]
fn find_tool_reports_no_match_as_empty() {
    let found = find_tool("no such action anywhere", UserSource::Missing).unwrap();
    assert!(found.is_empty());
}

#[test]
fn find_tool_lists_builtin_before_user() {
    let user = "actions = [ { action = \"compress pictures\", tools = [\"optipng\"] } ]";
    let found = find_tool("compress", UserSource::Found(user.to_string())).unwrap();
    assert_eq!(
        names(&found),
        vec!["compress files".to_string(), "compress pictures".to_string()]
    );
}

#[test]
fn find_tool_fails_on_unreadable_user_file() {
    assert!(find_tool("compress", UserSource::Unreadable("denied".to_string())).is_err());
}

#[test]
fn find_tool_fails_on_broken_user_file() {
    assert!(find_tool("compress", UserSource::Found("=".to_string())).is_err());
}

#[test]
fn empty_query_lowers_to_empty() {
    assert!(lowercase_query("").is_empty());
}

#[test]
fn query_lowering_folds_case() {
    assert_eq!(lowercase_query("CoMpReSS"), vec!['c', 'o', 'm', 'p', 'r', 'e', 's', 's']);
}

#[test]
fn partition_keeps_order_on_both_sides() {
    let tool_names = vec!["a".to_string(), "b".to_string(), "c".to_string()];
    let flags = vec![false, true, false];
    let (installed, not_installed) = partition_by_flags(&tool_names, &flags);
    assert_eq!(installed, vec!["b".to_string()]);
    assert_eq!(not_installed, vec!["a".to_string(), "c".to_string()]);
}

#[test]
fn unresolvable_names_count_as_not_installed() {
    let tool_names = vec!["surely-no-such-executable-zz".to_string()];
    let (installed, not_installed) = system_tools(&tool_names);
    assert!(installed.is_empty());
    assert_eq!(not_installed, tool_names);
}

#[test]
fn partition_covers_every_tool() {
    let tool_names = vec!["sh".to_string(), "surely-no-such-executable-zz".to_string()];
    let (installed, not_installed) = system_tools(&tool_names);
    assert_eq!(installed.len() + not_installed.len(), tool_names.len());
}
