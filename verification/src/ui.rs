//! The texts of what is printed around a command: the mark of its outcome,
//! and the line that exports a variable to the calling shell.

use vstd::prelude::*;
use vstd::string::*;
use crate::text::{contains, has_substring, replace, replaced};

verus! {

/// How a command ended.
#[derive(Debug, Clone, Copy, PartialEq, Eq)]
pub enum CommandStatus {
    Success,
    Error,
}

/// The mark that stands before the message of a command.
pub open spec fn spec_status_indicator(status: CommandStatus) -> Seq<char> {
    match status {
        CommandStatus::Success => "✓"@,
        CommandStatus::Error => "✗"@,
    }
}

/// The mark that stands before the message of a command.
pub fn status_indicator(status: CommandStatus) -> (mark: &'static str)
    ensures
        mark@ == spec_status_indicator(status),
{
    match status {
        CommandStatus::Success => "✓",
        CommandStatus::Error => "✗",
    }
}

/// A value as it stands between double quotes in a shell: every backslash
/// doubled, then every double quote behind a backslash.
pub open spec fn shell_escaped(value: Seq<char>) -> Seq<char> {
    replaced(replaced(value, "\\"@, "\\\\"@), "\""@, "\\\""@)
}

/// The line that sets `var_name` to `value` in a shell.
pub open spec fn spec_env_export_line(var_name: Seq<char>, value: Seq<char>) -> Seq<char> {
    "export "@ + var_name + "=\""@ + shell_escaped(value) + "\""@
}

/// The line that sets `var_name` to `value` in a shell.
pub fn env_export_line(var_name: &str, value: &str) -> (line: String)
    ensures
        line@ == spec_env_export_line(var_name@, value@),
{
    let doubled = replace(value, "\\", "\\\\");
    let escaped = replace(doubled.as_str(), "\"", "\\\"");
    let mut line = "export ".to_owned();
    line.push_str(var_name);
    line.push_str("=\"");
    line.push_str(escaped.as_str());
    line.push_str("\"");
    line
}

/// How to take the exported line into the shell named by `shell`.
pub open spec fn spec_eval_hint(shell: Seq<char>) -> Seq<char> {
    if has_substring(shell, "fish"@) {
        "Tip: <command> | source"@
    } else {
        "Tip: eval $(<command>)"@
    }
}

/// How to take the exported line into the shell named by `shell`: fish
/// reads it from a pipe, other shells evaluate it.
pub fn eval_hint(shell: &str) -> (hint: &'static str)
    ensures
        hint@ == spec_eval_hint(shell@),
{
    if contains(shell, "fish") {
        "Tip: <command> | source"
    } else {
        "Tip: eval $(<command>)"
    }
}

} // verus!
