use run_script::error::{Error, ErrorType};
use run_script::manifest::{collect_scripts, extract_scripts, parse_manifest, scripts_in, Node};
use run_script::table::ScriptTable;

const WORKSPACE_MANIFEST: &str = "[workspace]\nmembers = [\"one\", \"two\"]\n\n[workspace.metadata.scripts]\nhello = \"echo Hello\"\ngoodbye = \"echo Goodbye\"\n";

const PACKAGE_MANIFEST: &str = "[package]\nname = \"demo\"\nversion = \"0.1.0\"\n\n[package.metadata.scripts]\nhello = \"echo Hello\"\ngoodbye = \"echo Goodbye\"\n";

const NO_SCRIPT_INFO_MANIFEST: &str = "[package]\nname = \"demo\"\nversion = \"0.1.0\"\n\n[dependencies]\n";

fn text(s: &str) -> Node {
    Node::Text(s.to_string())
}

fn table(entries: Vec<(&str, Node)>) -> Node {
    Node::Table(entries.into_iter().map(|(k, v)| (k.to_string(), v)).collect())
}

fn sorted(mut names: Vec<String>) -> Vec<String> {
    names.sort();
    names
}

#[test]
fn test_parse_workspace_toml() {
    let result = parse_manifest(WORKSPACE_MANIFEST).unwrap();
    assert!(result.contains_key("hello"));
    assert!(result.contains_key("goodbye"));
}

#[test]
fn test_parse_package_toml() {
    let result = parse_manifest(PACKAGE_MANIFEST).unwrap();
    assert!(result.contains_key("hello"));
    assert!(result.contains_key("goodbye"));
}

#[test]
fn test_parse_no_script_info() {
    let error = parse_manifest(NO_SCRIPT_INFO_MANIFEST).unwrap_err();
    assert_eq!(error, Error::new(ErrorType::NoScriptInfo, ""));
}

#[test]
fn workspace_scripts_have_exactly_the_declared_names() {
    let result = parse_manifest(WORKSPACE_MANIFEST).unwrap();
    assert_eq!(result.len(), 2);
    assert_eq!(sorted(result.names()), vec!["goodbye".to_string(), "hello".to_string()]);
    assert_eq!(result.get("hello"), Some(&"echo Hello".to_string()));
    assert_eq!(result.get("goodbye"), Some(&"echo Goodbye".to_string()));
    assert!(!result.contains_key("members"));
    assert!(!result.contains_key("Hello"));
}

#[test]
fn package_scripts_have_exactly_the_declared_names() {
    let result = parse_manifest(PACKAGE_MANIFEST).unwrap();
    assert_eq!(result.len(), 2);
    assert_eq!(sorted(result.names()), vec!["goodbye".to_string(), "hello".to_string()]);
    assert!(!result.contains_key("name"));
}

#[test]
fn workspace_scripts_come_before_package_scripts() {
    let manifest = "[workspace.metadata.scripts]\nw = \"1\"\n[package.metadata.scripts]\np = \"2\"\n";
    let result = parse_manifest(manifest).unwrap();
    assert_eq!(result.names(), vec!["w".to_string()]);
}

#[test]
fn workspace_without_scripts_falls_back_to_package() {
    let manifest = "[workspace]\nmembers = []\n[package.metadata.scripts]\np = \"2\"\n";
    let result = parse_manifest(manifest).unwrap();
    assert_eq!(result.names(), vec!["p".to_string()]);
    assert_eq!(result.get("p"), Some(&"2".to_string()));
}

#[test]
fn scripts_that_are_not_strings_are_no_scripts() {
    let manifest = "[workspace.metadata.scripts]\nw = 1\n[package.metadata.scripts]\np = \"2\"\n";
    let result = parse_manifest(manifest).unwrap();
    assert_eq!(result.names(), vec!["p".to_string()]);
    let manifest = "[package.metadata.scripts]\nbuild = \"make\"\nbad = true\n";
    let error = parse_manifest(manifest).unwrap_err();
    assert_eq!(error.error_type, ErrorType::NoScriptInfo);
}

#[test]
fn metadata_without_scripts_key_is_rejected() {
    let manifest = "[package.metadata]\nother = \"x\"\n";
    let error = parse_manifest(manifest).unwrap_err();
    assert_eq!(error.error_type, ErrorType::NoScriptInfo);
    assert_eq!(
        error.reason,
        "toml file does not contain package.metadata.scripts or workspace.metadata.scripts table"
    );
}

#[test]
fn scripts_that_are_a_string_are_rejected() {
    let manifest = "[package.metadata]\nscripts = \"x\"\n";
    assert_eq!(parse_manifest(manifest).unwrap_err().error_type, ErrorType::NoScriptInfo);
}

#[test]
fn text_that_is_no_toml_is_rejected() {
    let error = parse_manifest("[package\nname = ").unwrap_err();
    assert_eq!(error.error_type, ErrorType::NoScriptInfo);
    assert_eq!(error.exit_code(), 5);
}

#[test]
fn empty_scripts_table_is_accepted() {
    let result = parse_manifest("[package.metadata.scripts]\n").unwrap();
    assert_eq!(result.len(), 0);
    assert!(result.names().is_empty());
}

#[test]
fn extract_reads_a_tree() {
    let scripts = table(vec![("build", text("cargo build")), ("test", text("cargo test"))]);
    let document = table(vec![
        ("other", Node::Other),
        ("package", table(vec![("name", text("demo")), ("metadata", table(vec![("scripts", scripts)]))])),
    ]);
    let result = extract_scripts(&document).unwrap();
    assert_eq!(result.names(), vec!["build".to_string(), "test".to_string()]);
    assert_eq!(result.get("build"), Some(&"cargo build".to_string()));
    assert_eq!(result.get("test"), Some(&"cargo test".to_string()));
    assert_eq!(result.get("name"), None);
    assert!(scripts_in(&document, "workspace").is_none());
    assert!(scripts_in(&document, "package").is_some());
}

#[test]
fn extract_rejects_a_tree_without_scripts() {
    let document = table(vec![("package", table(vec![("metadata", Node::Other)]))]);
    let error = extract_scripts(&document).unwrap_err();
    assert_eq!(error.error_type, ErrorType::NoScriptInfo);
    assert_eq!(extract_scripts(&Node::Other).unwrap_err().error_type, ErrorType::NoScriptInfo);
    assert_eq!(extract_scripts(&text("x")).unwrap_err().error_type, ErrorType::NoScriptInfo);
}

#[test]
fn first_of_two_entries_with_one_key_counts() {
    let document = table(vec![("a", text("first")), ("a", text("second"))]);
    match document.get("a") {
        Some(Node::Text(found)) => assert_eq!(found, "first"),
        other => panic!("unexpected {:?}", other),
    }
    assert!(document.get("b").is_none());
    assert!(Node::Other.get("a").is_none());
    let entries = vec![("a".to_string(), text("first")), ("a".to_string(), text("second"))];
    let scripts = collect_scripts(&entries).unwrap();
    assert_eq!(scripts.len(), 1);
    assert_eq!(scripts.get("a"), Some(&"first".to_string()));
}

#[test]
fn collect_needs_strings_only() {
    let entries = vec![("a".to_string(), text("x")), ("b".to_string(), Node::Other)];
    assert!(collect_scripts(&entries).is_none());
    let entries = vec![("a".to_string(), table(vec![]))];
    assert!(collect_scripts(&entries).is_none());
}

#[test]
fn table_keeps_the_first_text_of_a_name() {
    let mut scripts = ScriptTable::new();
    assert_eq!(scripts.len(), 0);
    scripts.insert_new("a".to_string(), "one".to_string());
    scripts.insert_new("b".to_string(), "two".to_string());
    scripts.insert_new("a".to_string(), "three".to_string());
    assert_eq!(scripts.len(), 2);
    assert_eq!(scripts.names(), vec!["a".to_string(), "b".to_string()]);
    assert_eq!(scripts.get("a"), Some(&"one".to_string()));
    assert_eq!(scripts.get("b"), Some(&"two".to_string()));
    assert_eq!(scripts.get("c"), None);
    assert!(!scripts.contains_key("A"));
}
