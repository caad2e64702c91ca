use vstd::prelude::*;
use crate::text::texts;

verus! {

/// The error of `shell_words::split`. It is carried from the call to the
/// place that turns it into an error of this library, and never looked
/// into.
#[verifier::external_type_specification]
#[verifier::external_body]
pub struct ExParseError(shell_words::ParseError);

/// The words of a command line as a Unix shell would split it, with quotes
/// and backslashes removed; `None` where a quote is left open.
pub uninterp spec fn split_line(line: Seq<char>) -> Option<Seq<Seq<char>>>;

/// Calls `shell_words::split`. The words that come back are the named result
/// `split_line` of the line, and the call fails exactly where that result
/// is `None`. Nothing else is claimed of the words.
#[verifier::external_body]
pub(crate) fn split_words(line: &str) -> (r: Result<Vec<String>, shell_words::ParseError>)
    ensures
        match r {
            Ok(words) => split_line(line@) == Some(texts(words@)),
            Err(_) => split_line(line@) is None,
        },
{
    shell_words::split(line)
}

/// The flags handed to the sync tool where a rule names none.
pub open spec fn default_flags() -> Seq<Seq<char>> {
    seq!["--delete"@, "-raPhv"@, "--filter"@, ":- .gitignore"@]
}

/// Builds the flags handed to the sync tool where a rule names none.
pub fn default_rsync_flags() -> (flags: Vec<String>)
    ensures
        texts(flags@) == default_flags(),
{
    let mut flags: Vec<String> = Vec::new();
    flags.push("--delete".to_owned());
    flags.push("-raPhv".to_owned());
    flags.push("--filter".to_owned());
    flags.push(":- .gitignore".to_owned());
    assert(texts(flags@) == default_flags());
    flags
}

} // verus!
