//! Compiled regular expressions, and what the library relies on from the
//! `regex` crate when it searches and cuts text with them.
use regex::Regex;
use vstd::prelude::*;

verus! {

#[verifier::external_type_specification]
#[verifier::external_body]
pub struct ExRegex(regex::Regex);

#[verifier::external_type_specification]
#[verifier::external_body]
pub struct ExRegexError(regex::Error);

/// Whether `regex::Regex::new` accepts the pattern text.
pub uninterp spec fn regex_compiles(pattern: Seq<char>) -> bool;

/// The successive non-overlapping matches of a pattern in a text, leftmost
/// first, as `regex::Regex::find_iter` yields them.
pub uninterp spec fn regex_find_all(pattern: Seq<char>, text: Seq<char>) -> Seq<Seq<char>>;

/// The text with the leftmost match of a pattern removed, as
/// `regex::Regex::replace` returns it for an empty replacement.
pub uninterp spec fn regex_drop_first(pattern: Seq<char>, text: Seq<char>) -> Seq<char>;

/// A compiled regular expression together with the pattern text it was
/// compiled from. Only `compile` builds one, so the two always agree.
pub struct Matcher {
    source: String,
    re: Regex,
}

impl Matcher {
    /// The pattern text this matcher was compiled from.
    pub closed spec fn pattern(&self) -> Seq<char> {
        self.source@
    }
}

/// Relies on `regex::Regex::new`: whether a pattern compiles depends on its
/// text alone.
#[verifier::external_body]
pub(crate) fn compile(pattern: &str) -> (r: Result<Matcher, regex::Error>)
    ensures
        r is Ok <==> regex_compiles(pattern@),
        r matches Ok(m) ==> m.pattern() == pattern@,
{
    match Regex::new(pattern) {
        Ok(re) => Ok(Matcher { source: pattern.to_string(), re }),
        Err(e) => Err(e),
    }
}

/// Relies on `regex::Regex::find_iter` and `regex::Match::as_str`: the text
/// of every successive non-overlapping match, in order.
#[verifier::external_body]
pub(crate) fn find_all(m: &Matcher, text: &str) -> (r: Vec<String>)
    ensures
        r@.len() == regex_find_all(m.pattern(), text@).len(),
        forall|i: int| 0 <= i < r@.len() ==> #[trigger] r@[i]@ == regex_find_all(m.pattern(), text@)[i],
{
    m.re.find_iter(text).map(|x| x.as_str().to_string()).collect()
}

/// Relies on `regex::Regex::replace` with an empty replacement: the text
/// without its leftmost match.
#[verifier::external_body]
pub(crate) fn drop_first(m: &Matcher, text: &str) -> (r: String)
    ensures
        r@ == regex_drop_first(m.pattern(), text@),
{
    m.re.replace(text, "").into_owned()
}

} // verus!
