//! Expanding the positional placeholders of a script, and the shell that
//! runs the result.

use vstd::prelude::*;
use vstd::string::*;
use crate::arg_parse::{texts, Args};
use crate::text::{
    decimal, decimal_digits, lemma_replace_absent, occurs_at, occurs_in, replace, replace_all,
};

verus! {

/// The placeholder of position `n`: a dollar sign and `n` in decimal.
pub open spec fn placeholder(n: nat) -> Seq<char> {
    seq!['$'] + decimal_digits(n)
}

/// `text` after the placeholders of the arguments were replaced one after
/// the other, the placeholder of position 1 by the first argument, then
/// that of position 2 by the second, and so on. Each step works on the
/// whole text that the step before left, so text that an earlier argument
/// brought in is replaced again where it holds a later placeholder.
pub open spec fn with_arguments(text: Seq<char>, arguments: Seq<Seq<char>>) -> Seq<char>
    decreases arguments.len(),
{
    if arguments.len() == 0 {
        text
    } else {
        replace_all(
            with_arguments(text, arguments.drop_last()),
            placeholder(arguments.len()),
            arguments.last(),
        )
    }
}

/// The command line that a script stands for: first the placeholder of
/// position 0 is replaced by the program's own path, then those of the
/// arguments, in ascending order.
pub open spec fn expanded(script: Seq<char>, binary_path: Seq<char>, arguments: Seq<Seq<char>>) -> Seq<
    char,
> {
    with_arguments(replace_all(script, placeholder(0), binary_path), arguments)
}

/// Whether none of the placeholders of positions 0 to `count` occurs in `script`.
pub open spec fn free_of_placeholders(script: Seq<char>, count: nat) -> bool {
    forall|n: nat| n <= count ==> !occurs_in(script, #[trigger] placeholder(n))
}

/// A script that holds none of the placeholders that the invocation fills
/// stands for itself: expanding it changes nothing.
pub proof fn lemma_expand_identity(
    script: Seq<char>,
    binary_path: Seq<char>,
    arguments: Seq<Seq<char>>,
)
    requires
        free_of_placeholders(script, arguments.len()),
    ensures
        expanded(script, binary_path, arguments) == script,
    decreases arguments.len(),
{
    assert(!occurs_in(script, placeholder(0)));
    lemma_replace_absent(script, placeholder(0), binary_path);
    if arguments.len() > 0 {
        let fewer = arguments.drop_last();
        assert forall|n: nat| n <= fewer.len() implies !occurs_in(
            script,
            #[trigger] placeholder(n),
        ) by {}
        lemma_expand_identity(script, binary_path, fewer);
        assert(!occurs_in(script, placeholder(arguments.len())));
        lemma_replace_absent(script, placeholder(arguments.len()), arguments.last());
    }
}

/// A script without a dollar sign holds no placeholder at all, and so
/// stands for itself whatever the invocation.
pub proof fn lemma_expand_without_dollar(
    script: Seq<char>,
    binary_path: Seq<char>,
    arguments: Seq<Seq<char>>,
)
    requires
        !script.contains('$'),
    ensures
        expanded(script, binary_path, arguments) == script,
{
    assert forall|n: nat| n <= arguments.len() implies !occurs_in(
        script,
        #[trigger] placeholder(n),
    ) by {
        let token = placeholder(n);
        if occurs_in(script, token) {
            let at = choose|at: int| occurs_at(script, token, at);
            assert(token[0] == '$');
            assert(script.subrange(at, at + token.len())[0] == script[at]);
            assert(script.contains(script[at]));
        }
    }
    lemma_expand_identity(script, binary_path, arguments);
}

/// The text of the placeholder of position `n`.
fn placeholder_text(n: usize) -> (r: String)
    ensures
        r@ == placeholder(n as nat),
{
    proof {
        reveal_strlit("$");
    }
    let number = decimal(n);
    let r = String::from_str("$").concat(number.as_str());
    assert(r@ =~= placeholder(n as nat));
    r
}

/// Expands the placeholders of `script` for the invocation `args`.
pub fn expand(script: &str, args: &Args) -> (r: String)
    ensures
        r@ == expanded(script@, args@.binary_path, args@.script_arguments),
{
    let zero = placeholder_text(0);
    let mut text = replace(script, zero.as_str(), args.binary_path.as_str());
    let ghost arguments = texts(args.script_arguments@);
    let mut i: usize = 0;
    while i < args.script_arguments.len()
        invariant
            i <= args.script_arguments.len(),
            arguments == texts(args.script_arguments@),
            text@ == with_arguments(
                replace_all(script@, placeholder(0), args.binary_path@),
                arguments.subrange(0, i as int),
            ),
        decreases args.script_arguments.len() - i,
    {
        let target = placeholder_text(i + 1);
        let next = replace(text.as_str(), target.as_str(), args.script_arguments[i].as_str());
        proof {
            let upto = arguments.subrange(0, i + 1);
            assert(upto.drop_last() =~= arguments.subrange(0, i as int));
            assert(upto.last() == args.script_arguments@[i as int]@);
        }
        text = next;
        i += 1;
    }
    assert(arguments.subrange(0, i as int) =~= arguments);
    text
}

/// A shell and the two arguments it is started with.
#[derive(Debug)]
pub struct ShellCommand {
    /// The shell's program name.
    pub program: String,
    /// The flag that makes the shell run its next argument.
    pub flag: String,
    /// The command line that the shell is to run.
    pub script: String,
}

/// The shell's program name: `cmd` on Windows, `sh` elsewhere.
pub open spec fn shell_program(windows: bool) -> Seq<char> {
    if windows {
        "cmd"@
    } else {
        "sh"@
    }
}

/// The flag that makes the shell run a command line: `/C` on Windows,
/// `-c` elsewhere.
pub open spec fn shell_flag(windows: bool) -> Seq<char> {
    if windows {
        "/C"@
    } else {
        "-c"@
    }
}

/// The shell call that runs `script`, handed on as it is.
pub fn shell_command(windows: bool, script: String) -> (r: ShellCommand)
    ensures
        r.program@ == shell_program(windows),
        r.flag@ == shell_flag(windows),
        r.script == script,
{
    if windows {
        ShellCommand { program: String::from_str("cmd"), flag: String::from_str("/C"), script }
    } else {
        ShellCommand { program: String::from_str("sh"), flag: String::from_str("-c"), script }
    }
}

} // verus!
