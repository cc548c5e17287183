//! The invocation: which script is asked for, and with which arguments.

use vstd::prelude::*;
use crate::error::{Error, ErrorType};

verus! {

/// A parsed invocation.
#[derive(Debug)]
pub struct Args {
    /// The path by which this program was called.
    pub binary_path: String,
    /// The name of the script to run.
    pub script_name: String,
    /// What followed the script's name, in order.
    pub script_arguments: Vec<String>,
}

/// An invocation as plain sequences of characters.
pub struct ArgsView {
    pub binary_path: Seq<char>,
    pub script_name: Seq<char>,
    pub script_arguments: Seq<Seq<char>>,
}

/// The texts of a sequence of strings.
pub open spec fn texts(strings: Seq<String>) -> Seq<Seq<char>> {
    Seq::new(strings.len(), |i: int| strings[i]@)
}

impl View for Args {
    type V = ArgsView;

    open spec fn view(&self) -> ArgsView {
        ArgsView {
            binary_path: self.binary_path@,
            script_name: self.script_name@,
            script_arguments: texts(self.script_arguments@),
        }
    }
}

/// What the tokens of an invocation mean: the first is the program's own
/// path, the second the script's name, the rest the script's arguments.
/// Without a script name there is no invocation.
pub open spec fn parsed(tokens: Seq<Seq<char>>) -> Option<ArgsView> {
    if tokens.len() < 2 {
        None
    } else {
        Some(
            ArgsView {
                binary_path: tokens[0],
                script_name: tokens[1],
                script_arguments: tokens.subrange(2, tokens.len() as int),
            },
        )
    }
}

/// The reason given when no script name was supplied.
pub open spec fn missing_name_reason() -> Seq<char> {
    "script name was not specified"@
}

/// Parses the tokens of an invocation, the program's own path first.
/// Fails with `NoScriptName` exactly when no token follows that path.
pub fn parse(args: Vec<String>) -> (r: Result<Args, Error>)
    ensures
        r is Ok <==> parsed(texts(args@)) is Some,
        r is Ok ==> Some(r->Ok_0@) == parsed(texts(args@)),
        r is Err ==> r->Err_0.error_type == ErrorType::NoScriptName && r->Err_0.reason@
            == missing_name_reason(),
{
    if args.len() < 2 {
        return Err(Error::new(ErrorType::NoScriptName, "script name was not specified"));
    }
    let binary_path = args[0].clone();
    let script_name = args[1].clone();
    let mut script_arguments: Vec<String> = Vec::new();
    let mut i: usize = 2;
    while i < args.len()
        invariant
            2 <= i <= args.len(),
            script_arguments@.len() == i - 2,
            forall|j: int| 0 <= j < i - 2 ==> script_arguments@[j]@ == #[trigger] args@[j + 2]@,
        decreases args.len() - i,
    {
        script_arguments.push(args[i].clone());
        i += 1;
    }
    let r = Args { binary_path, script_name, script_arguments };
    proof {
        let tokens = texts(args@);
        assert(texts(r.script_arguments@) =~= tokens.subrange(2, tokens.len() as int)) by {
            assert forall|j: int| 0 <= j < r.script_arguments@.len() implies texts(
                r.script_arguments@,
            )[j] == tokens.subrange(2, tokens.len() as int)[j] by {
                assert(r.script_arguments@[j]@ == args@[j + 2]@);
            }
        }
    }
    Ok(r)
}

} // verus!
