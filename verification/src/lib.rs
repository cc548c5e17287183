//! Named shell scripts declared in a project manifest: reading the script
//! table, parsing the invocation, expanding positional placeholders and
//! mapping a finished child process to an outcome.

pub mod error;
pub mod text;
pub mod arg_parse;
pub mod script;
pub mod manifest;
pub mod table;
pub mod run;
