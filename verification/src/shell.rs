//! POSIX shell words, through the `shell-words` crate.
use vstd::prelude::*;

verus! {

/// The command line that `shell_words::join` makes of `words`: each word
/// quoted for a POSIX shell, with single spaces between them. The crate
/// leaves its quoting style unspecified, so it stands here as a name.
pub uninterp spec fn shell_join(words: Seq<Seq<char>>) -> Seq<char>;

/// The words that `shell_words::split` parses out of `line` with POSIX
/// quoting rules, or `None` where a quote is left open.
pub uninterp spec fn shell_split(line: Seq<char>) -> Option<Seq<Seq<char>>>;

/// Calls `shell_words::join`; the result is [`shell_join`] of the words.
#[verifier::external_body]
pub(crate) fn join_words(words: &Vec<String>) -> (res: String)
    ensures
        res@ == shell_join(words.deep_view()),
{
    shell_words::join(words)
}

/// Calls `shell_words::split`, mapping its only error (an unterminated
/// quote) to `None`; the result is [`shell_split`] of the line.
#[verifier::external_body]
pub(crate) fn split_words(line: &str) -> (res: Option<Vec<String>>)
    ensures
        match res {
            Some(v) => shell_split(line@) == Some(v.deep_view()),
            None => shell_split(line@) is None,
        },
{
    shell_words::split(line).ok()
}

} // verus!
