//! From a manifest and an invocation to the shell call that is to be made,
//! or to the failure that ends the run.

use vstd::prelude::*;
use crate::arg_parse::{missing_name_reason, parse, parsed, texts, Args};
use crate::error::{Error, ErrorType};
use crate::manifest::{manifest_scripts, no_script_info_reason, parse_manifest};
use crate::table::ScriptTable;
use crate::script::{expand, expanded, shell_command, shell_flag, shell_program, ShellCommand};

verus! {

/// A run that ends before any script is started.
#[derive(Debug)]
pub struct Rejection {
    /// Why the run ends.
    pub error: Error,
    /// The script names to show to the user before the failure is
    /// reported; empty where none are to be shown.
    pub script_names: Vec<String>,
}

/// Whether `names` holds every script name of `scripts` exactly once, and
/// nothing else.
pub open spec fn lists_names(names: Seq<String>, scripts: Map<Seq<char>, Seq<char>>) -> bool {
    &&& forall|i: int, j: int| 0 <= i < j < names.len() ==> names[i]@ != names[j]@
    &&& forall|name: Seq<char>| #[trigger]
        scripts.contains_key(name) <==> exists|i: int| 0 <= i < names.len() && names[i]@ == name
}

/// The reason given when the requested script is not in the table.
pub open spec fn invalid_name_reason() -> Seq<char> {
    "script name is invalid"@
}

/// The text of the script called `name`. Fails with `InvalidScriptName`
/// exactly when the table has no script of that name.
pub fn resolve(table: &ScriptTable, name: &str) -> (r: Result<String, Error>)
    requires
        table.wf(),
    ensures
        r is Ok <==> table@.contains_key(name@),
        r is Ok ==> r->Ok_0@ == table@[name@],
        r is Err ==> r->Err_0.error_type == ErrorType::InvalidScriptName && r->Err_0.reason@
            == invalid_name_reason(),
{
    match table.get(name) {
        Some(text) => Ok(text.clone()),
        None => Err(Error::new(ErrorType::InvalidScriptName, "script name is invalid")),
    }
}

/// What a run with the scripts `scripts` and the invocation `tokens` comes
/// to. An invocation without a script name is rejected as `NoScriptName`,
/// one that names a script that is not there as `InvalidScriptName`, each
/// with the list of all script names. Any other leads to the shell call
/// that runs the expanded script.
pub open spec fn plan_meets(
    scripts: Map<Seq<char>, Seq<char>>,
    tokens: Seq<Seq<char>>,
    windows: bool,
    r: Result<ShellCommand, Rejection>,
) -> bool {
    match parsed(tokens) {
        None => {
            &&& r is Err
            &&& r->Err_0.error.error_type == ErrorType::NoScriptName
            &&& r->Err_0.error.reason@ == missing_name_reason()
            &&& lists_names(r->Err_0.script_names@, scripts)
        },
        Some(args) => if scripts.contains_key(args.script_name) {
            &&& r is Ok
            &&& r->Ok_0.program@ == shell_program(windows)
            &&& r->Ok_0.flag@ == shell_flag(windows)
            &&& r->Ok_0.script@ == expanded(
                scripts[args.script_name],
                args.binary_path,
                args.script_arguments,
            )
        } else {
            &&& r is Err
            &&& r->Err_0.error.error_type == ErrorType::InvalidScriptName
            &&& r->Err_0.error.reason@ == invalid_name_reason()
            &&& lists_names(r->Err_0.script_names@, scripts)
        },
    }
}

/// Decides what to do for the invocation `tokens`, given the scripts of the
/// manifest; `windows` says which shell is to be used.
pub fn plan(table: &ScriptTable, tokens: Vec<String>, windows: bool) -> (r: Result<
    ShellCommand,
    Rejection,
>)
    requires
        table.wf(),
    ensures
        plan_meets(table@, texts(tokens@), windows, r),
{
    let args: Args = match parse(tokens) {
        Ok(args) => args,
        Err(error) => {
            return Err(Rejection { error, script_names: table.names() });
        },
    };
    match resolve(table, args.script_name.as_str()) {
        Ok(script) => {
            let line = expand(script.as_str(), &args);
            Ok(shell_command(windows, line))
        },
        Err(error) => Err(Rejection { error, script_names: table.names() }),
    }
}

/// What a run with the manifest `manifest` and the invocation `tokens`
/// comes to. A manifest without scripts ends the run as `NoScriptInfo`,
/// with no names to show; else the scripts and the invocation decide.
pub open spec fn dispatch_meets(
    manifest: Seq<char>,
    tokens: Seq<Seq<char>>,
    windows: bool,
    r: Result<ShellCommand, Rejection>,
) -> bool {
    match manifest_scripts(manifest) {
        None => {
            &&& r is Err
            &&& r->Err_0.error.error_type == ErrorType::NoScriptInfo
            &&& r->Err_0.error.reason@ == no_script_info_reason()
            &&& r->Err_0.script_names@.len() == 0
        },
        Some(scripts) => plan_meets(scripts, tokens, windows, r),
    }
}

/// Reads the manifest's text and decides what to do for the invocation
/// `tokens`.
pub fn dispatch(manifest: &str, tokens: Vec<String>, windows: bool) -> (r: Result<
    ShellCommand,
    Rejection,
>)
    ensures
        dispatch_meets(manifest@, texts(tokens@), windows, r),
{
    match parse_manifest(manifest) {
        Ok(table) => plan(&table, tokens, windows),
        Err(error) => Err(Rejection { error, script_names: Vec::new() }),
    }
}

} // verus!
