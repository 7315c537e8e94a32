//! The texts that the program shows to its user.

use vstd::prelude::*;
use vstd::string::StringExecFns;

verus! {

/// The usage text.
pub const USAGE: &'static str =
    "Usage: rcat <option> <file>\nConcatenate file(s) to standard output.\n\nWith no <file>, or when <file> is -, read stdin.\n\n  -n, --number             number all output lines\n  -d, --delay              add a short delay between chars\n  -s, --squeeze-blank      suppress repeated empty output lines\n  -v, --verbose            display verbose output\n      --help     display this help and exit\n      --version  output version information and exit\n\nExamples:\n$ rcat -n ./file   Adds line numbers to all output lines.\n$ rcat             Copy stdin to stdout.\n";

/// The usage text that a request for help is answered with.
pub fn usage() -> (text: &'static str)
    ensures
        text@ == USAGE@,
{
    USAGE
}

/// The two lines that report `option` as unknown.
pub open spec fn invalid_option_text(option: Seq<char>) -> Seq<char> {
    "rcat: invalid option -- '"@ + option + "'\nTry 'rcat --help' for more information.\n"@
}

/// The line that reports a file that could not be opened; `path` is the
/// file's name as it is to be shown.
pub open spec fn open_error_text(path: Seq<char>) -> Seq<char> {
    "rcat: "@ + path + ": No such file or directory\n"@
}

/// The line that reports a failed read of a file; `path` is the file's name
/// as it is to be shown.
pub open spec fn read_error_text(path: Seq<char>) -> Seq<char> {
    "rcat: "@ + path + ": read error\n"@
}

/// The report of an unknown option, for standard error.
pub fn invalid_option_message(option: &str) -> (text: String)
    ensures
        text@ == invalid_option_text(option@),
{
    let text = String::from_str("rcat: invalid option -- '");
    let text = text.concat(option);
    text.concat("'\nTry 'rcat --help' for more information.\n")
}

/// The report of a file that could not be opened, for standard error.
pub fn open_error_message(path: &str) -> (text: String)
    ensures
        text@ == open_error_text(path@),
{
    let text = String::from_str("rcat: ");
    let text = text.concat(path);
    text.concat(": No such file or directory\n")
}

/// The report of a failed read of a file, for standard error.
pub fn read_error_message(path: &str) -> (text: String)
    ensures
        text@ == read_error_text(path@),
{
    let text = String::from_str("rcat: ");
    let text = text.concat(path);
    text.concat(": read error\n")
}

/// The report of a failed read of standard input, for standard error.
pub fn stdin_error_message() -> (text: &'static str)
    ensures
        text@ == "rcat: stdin read error\n"@,
{
    "rcat: stdin read error\n"
}

} // verus!
