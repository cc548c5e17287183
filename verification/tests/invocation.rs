use run_script::arg_parse::{parse, Args};
use run_script::error::{Error, ErrorType};
use run_script::table::ScriptTable;
use run_script::run::{dispatch, plan, resolve};
use run_script::script::{expand, shell_command};
use run_script::text::decimal;

fn strings(items: &[&str]) -> Vec<String> {
    items.iter().map(|s| s.to_string()).collect()
}

fn args(binary: &str, name: &str, rest: &[&str]) -> Args {
    Args {
        binary_path: binary.to_string(),
        script_name: name.to_string(),
        script_arguments: strings(rest),
    }
}

fn sample_table() -> ScriptTable {
    let mut table = ScriptTable::new();
    table.insert_new("build".to_string(), "cargo build $1".to_string());
    table.insert_new("hello".to_string(), "echo $0 says hello".to_string());
    table
}

#[test]
fn parse_without_script_name_fails() {
    let error = parse(strings(&["myprog"])).unwrap_err();
    assert_eq!(error.error_type, ErrorType::NoScriptName);
    assert_eq!(error.exit_code(), 1);
    let error = parse(Vec::new()).unwrap_err();
    assert_eq!(error.error_type, ErrorType::NoScriptName);
}

#[test]
fn parse_splits_the_tokens() {
    let parsed = parse(strings(&["myprog", "build", "--release"])).unwrap();
    assert_eq!(parsed.binary_path, "myprog");
    assert_eq!(parsed.script_name, "build");
    assert_eq!(parsed.script_arguments, vec!["--release".to_string()]);
}

#[test]
fn parse_keeps_the_order_of_arguments() {
    let parsed = parse(strings(&["p", "s", "c", "a", "b", "a"])).unwrap();
    assert_eq!(parsed.script_arguments, strings(&["c", "a", "b", "a"]));
    let parsed = parse(strings(&["p", "s"])).unwrap();
    assert!(parsed.script_arguments.is_empty());
}

#[test]
fn expand_fills_the_placeholders() {
    let line = expand("echo $0 $1 $2", &args("/usr/bin/x", "s", &["a", "b"]));
    assert_eq!(line, "echo /usr/bin/x a b");
}

#[test]
fn expand_without_placeholders_changes_nothing() {
    let line = expand("echo hello world", &args("/usr/bin/x", "s", &["a", "b"]));
    assert_eq!(line, "echo hello world");
    let line = expand("echo $HOME $3", &args("/usr/bin/x", "s", &["a", "b"]));
    assert_eq!(line, "echo $HOME $3");
    assert_eq!(expand("", &args("x", "s", &[])), "");
}

#[test]
fn expand_replaces_every_occurrence() {
    let line = expand("$1 $1$1 $0$0", &args("x", "s", &["ab"]));
    assert_eq!(line, "ab abab xx");
}

#[test]
fn expand_substitutes_again_what_an_argument_brought() {
    let line = expand("run $1", &args("x", "s", &["$2", "late"]));
    assert_eq!(line, "run late");
    let line = expand("run $0", &args("$1", "s", &["first"]));
    assert_eq!(line, "run first");
    let line = expand("run $2", &args("x", "s", &["one", "$1"]));
    assert_eq!(line, "run $1");
}

#[test]
fn expand_replaces_in_ascending_order() {
    let rest = ["a", "b", "c", "d", "e", "f", "g", "h", "i", "j"];
    let line = expand("$10 $9", &args("x", "s", &rest));
    assert_eq!(line, "a0 i");
    let line = expand("$$1", &args("x", "s", &["0"]));
    assert_eq!(line, "$0");
}

#[test]
fn decimal_writes_numbers() {
    assert_eq!(decimal(0), "0");
    assert_eq!(decimal(7), "7");
    assert_eq!(decimal(10), "10");
    assert_eq!(decimal(1234567890), "1234567890");
    assert_eq!(decimal(usize::MAX), usize::MAX.to_string());
}

#[test]
fn shell_is_picked_by_platform() {
    let unix = shell_command(false, "echo hi".to_string());
    assert_eq!(unix.program, "sh");
    assert_eq!(unix.flag, "-c");
    assert_eq!(unix.script, "echo hi");
    let windows = shell_command(true, "echo hi".to_string());
    assert_eq!(windows.program, "cmd");
    assert_eq!(windows.flag, "/C");
    assert_eq!(windows.script, "echo hi");
}

#[test]
fn exit_status_maps_to_outcome() {
    assert!(Error::parse_exit_status(Some(0)).is_ok());
    let failed = Error::parse_exit_status(Some(7)).unwrap_err();
    assert_eq!(failed.error_type, ErrorType::ScriptFailed);
    assert_eq!(failed.reason, "script failed");
    assert_eq!(Error::parse_exit_status(Some(-1)).unwrap_err().error_type, ErrorType::ScriptFailed);
    let killed = Error::parse_exit_status(None).unwrap_err();
    assert_eq!(killed.error_type, ErrorType::ScriptFailedWithSignal);
    assert_eq!(killed.reason, "exited with signal");
}

#[test]
fn exit_codes_are_fixed() {
    assert_eq!(ErrorType::NoScriptName.code(), 1);
    assert_eq!(ErrorType::InvalidScriptName.code(), 2);
    assert_eq!(ErrorType::ScriptFailed.code(), 3);
    assert_eq!(ErrorType::ScriptFailedWithSignal.code(), 4);
    assert_eq!(ErrorType::NoScriptInfo.code(), 5);
    assert_eq!(ErrorType::NoToml.code(), 6);
    assert_eq!(Error::new(ErrorType::NoToml, "x").exit_code(), 6);
}

#[test]
fn errors_compare_by_kind() {
    assert_eq!(Error::new(ErrorType::NoToml, "a"), Error::new(ErrorType::NoToml, "b"));
    assert_ne!(Error::new(ErrorType::NoToml, "a"), Error::new(ErrorType::NoScriptInfo, "a"));
}

#[test]
fn message_names_code_and_reason() {
    let error = Error::new(ErrorType::ScriptFailed, "script failed");
    assert_eq!(error.message(), "error [3]: script failed");
    let error = Error::new(ErrorType::NoToml, "Failed to read Cargo.toml");
    assert_eq!(error.message(), "error [6]: Failed to read Cargo.toml");
}

#[test]
fn resolve_is_exact() {
    let table = sample_table();
    assert_eq!(resolve(&table, "build").unwrap(), "cargo build $1");
    let error = resolve(&table, "Build").unwrap_err();
    assert_eq!(error.error_type, ErrorType::InvalidScriptName);
    assert_eq!(error.reason, "script name is invalid");
    assert_eq!(error.exit_code(), 2);
}

#[test]
fn plan_runs_a_known_script() {
    let table = sample_table();
    let command = plan(&table, strings(&["/bin/tool", "build", "--release"]), false).unwrap();
    assert_eq!(command.program, "sh");
    assert_eq!(command.flag, "-c");
    assert_eq!(command.script, "cargo build --release");
    let command = plan(&table, strings(&["/bin/tool", "hello"]), true).unwrap();
    assert_eq!(command.program, "cmd");
    assert_eq!(command.flag, "/C");
    assert_eq!(command.script, "echo /bin/tool says hello");
}

#[test]
fn plan_lists_the_names_for_an_unknown_script() {
    let table = sample_table();
    let rejection = plan(&table, strings(&["tool", "deploy"]), false).unwrap_err();
    assert_eq!(rejection.error.error_type, ErrorType::InvalidScriptName);
    let mut names = rejection.script_names;
    names.sort();
    assert_eq!(names, strings(&["build", "hello"]));
}

#[test]
fn plan_lists_the_names_without_a_script_name() {
    let table = sample_table();
    let rejection = plan(&table, strings(&["tool"]), false).unwrap_err();
    assert_eq!(rejection.error.error_type, ErrorType::NoScriptName);
    let mut names = rejection.script_names;
    names.sort();
    assert_eq!(names, strings(&["build", "hello"]));
}

#[test]
fn dispatch_goes_from_text_to_shell_call() {
    let manifest = "[package.metadata.scripts]\ngreet = \"echo $1 from $0\"\n";
    let command = dispatch(manifest, strings(&["tool", "greet", "hi"]), false).unwrap();
    assert_eq!(command.program, "sh");
    assert_eq!(command.script, "echo hi from tool");
    let rejection = dispatch(manifest, strings(&["tool", "other"]), false).unwrap_err();
    assert_eq!(rejection.error.error_type, ErrorType::InvalidScriptName);
    assert_eq!(rejection.script_names, strings(&["greet"]));
    let rejection = dispatch("[package]\n", strings(&["tool", "greet"]), false).unwrap_err();
    assert_eq!(rejection.error.error_type, ErrorType::NoScriptInfo);
    assert!(rejection.script_names.is_empty());
}

#[test]
fn unreadable_manifest_is_no_toml() {
    let error = Error::unreadable("Cargo.toml");
    assert_eq!(error.error_type, ErrorType::NoToml);
    assert_eq!(error.reason, "Failed to read Cargo.toml");
    assert_eq!(error.message(), "error [6]: Failed to read Cargo.toml");
}
