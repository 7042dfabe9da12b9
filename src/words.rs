use regex::Regex;
use vstd::prelude::*;

verus! {

#[verifier::external_type_specification]
#[verifier::external_body]
pub struct ExRegex(Regex);

/// Whether `regex::Regex::new` accepts `pattern`.
pub uninterp spec fn regex_compiles(pattern: Seq<char>) -> bool;

/// The successive non-overlapping matches of `\w+` in `text`, left to right:
/// its maximal runs of word characters (letters, digits, underscore and the
/// other Unicode word characters).
pub uninterp spec fn word_runs(text: Seq<char>) -> Seq<Seq<char>>;

/// The pattern of a word.
pub const WORD_PATTERN: &'static str = r"\w+";

/// Relies on `regex::Regex::new`: it compiles `pattern` or refuses it, and
/// which of the two depends on the pattern alone.
#[verifier::external_body]
fn compile(pattern: &str) -> (r: Option<Regex>)
    ensures
        r is Some <==> regex_compiles(pattern@),
{
    Regex::new(pattern).ok()
}

/// [`WORD_PATTERN`], compiled. Only [`WordRegex::new`] builds one.
pub(crate) struct WordRegex {
    re: Regex,
}

impl WordRegex {
    /// Compiles [`WORD_PATTERN`].
    pub(crate) fn new() -> (r: Option<WordRegex>)
        ensures
            r is Some <==> regex_compiles(WORD_PATTERN@),
    {
        match compile(WORD_PATTERN) {
            Some(re) => Some(WordRegex { re }),
            None => None,
        }
    }

    /// Relies on `regex::Regex::find_iter` and `regex::Match::as_str`: the
    /// text of each successive non-overlapping match, left to right. The
    /// regex is always [`WORD_PATTERN`] compiled.
    #[verifier::external_body]
    pub(crate) fn words(&self, text: &str) -> (r: Vec<String>)
        ensures
            r@.map_values(|w: String| w@) == word_runs(text@),
    {
        self.re.find_iter(text).map(|m| m.as_str().to_string()).collect()
    }
}

} // verus!
