use vstd::prelude::*;

verus! {

/// What `shell_words::split` makes of a command line: the words, or the text
/// of its error.
pub uninterp spec fn shell_split_spec(line: Seq<char>) -> Result<Seq<Seq<char>>, Seq<char>>;

/// What `shell_words::join` makes of a list of words.
pub uninterp spec fn shell_join_spec(words: Seq<Seq<char>>) -> Seq<char>;

/// Splits a command line into words as a Unix shell would.
/// Trusted: calls `shell_words::split`, whose result depends on the line alone;
/// on failure the error's text is handed back.
#[verifier::external_body]
pub fn shell_split(line: &str) -> (r: Result<Vec<String>, String>)
    ensures
        match r {
            Ok(words) => shell_split_spec(line@) == Ok::<Seq<Seq<char>>, Seq<char>>(words.deep_view()),
            Err(e) => shell_split_spec(line@) == Err::<Seq<Seq<char>>, Seq<char>>(e@),
        },
{
    match shell_words::split(line) {
        Ok(words) => Ok(words),
        Err(e) => Err(e.to_string()),
    }
}

/// Joins words into one command line, quoting each as a Unix shell needs.
/// Trusted: calls `shell_words::join`, whose result depends on the words alone.
/// The crate calls `join` "essentially an inverse" of `split`; as it states no
/// exact law, the contract claims none, and reading a joined line back is not
/// promised here.
#[verifier::external_body]
pub fn shell_join(words: &Vec<String>) -> (line: String)
    ensures
        line@ == shell_join_spec(words.deep_view()),
{
    shell_words::join(words)
}

} // verus!
