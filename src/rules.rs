//! The rule table: each rule finds a stem in a message, cuts the stem off
//! what it found and rebuilds a word from the rest.
use crate::matcher::{compile, regex_compiles, Matcher};
use vstd::prelude::*;
use vstd::string::*;

verus! {

/// The result of `str::to_lowercase` on a text.
pub uninterp spec fn lower_of(s: Seq<char>) -> Seq<char>;

/// Relies on `str::to_lowercase`: the result depends on the characters alone.
#[verifier::external_body]
fn lowercase(s: &str) -> (r: String)
    ensures
        r@ == lower_of(s@),
{
    s.to_lowercase()
}

/// How a rule rebuilds a word from the ending left after its stem is cut.
pub enum ReplaceOption {
    /// A fixed prefix followed by the lower-cased ending.
    Suffixed { prefix: &'static str },
    /// A fixed word; the ending is ignored.
    Plain { replacement: &'static str },
}

impl ReplaceOption {
    /// The word rebuilt from `ending`.
    pub open spec fn rebuild(&self, ending: Seq<char>) -> Seq<char> {
        match self {
            ReplaceOption::Suffixed { prefix } => prefix@ + lower_of(ending),
            ReplaceOption::Plain { replacement } => replacement@,
        }
    }
}

/// One rule: `word` finds the occurrences, `cut` strips the stem from each.
pub struct MatchPattern {
    pub cut: Matcher,
    pub word: Matcher,
    pub replacement: ReplaceOption,
}

impl MatchPattern {
    /// Rebuilds a word from the ending that is left after the stem is cut.
    pub fn replace(&self, ending: &str) -> (r: String)
        ensures
            r@ == self.replacement.rebuild(ending@),
    {
        match self.replacement {
            ReplaceOption::Suffixed { prefix } => {
                let lower = lowercase(ending);
                prefix.to_owned().concat(lower.as_str())
            },
            ReplaceOption::Plain { replacement } => replacement.to_owned(),
        }
    }
}

/// Pattern that cuts the adjectival stem of the city's name.
pub const CITY_ADJ_CUT: &'static str = "(?i)питерск";
/// Pattern that finds a word built on the adjectival stem.
pub const CITY_ADJ_WORD: &'static str = r"(?i)питерск[\wа-я]*";
/// Prefix that replaces the adjectival stem.
pub const CITY_ADJ_PREFIX: &'static str = "Пидорск";
/// Pattern that cuts the singular noun for a dweller of the city.
pub const DWELLER_CUT: &'static str = "(?i)питерец";
/// Pattern that finds the singular noun itself, with nothing after it.
pub const DWELLER_WORD: &'static str = "(?i)питерец";
/// Pattern that cuts the shortened stem of the dweller noun.
pub const DWELLER_STEM_CUT: &'static str = "(?i)питерц";
/// Pattern that finds a word built on the shortened stem.
pub const DWELLER_STEM_WORD: &'static str = r"(?i)питерц[\wа-я]*";
/// Word that replaces the dweller noun, and prefix for its other forms.
pub const DWELLER_REPLACEMENT: &'static str = "Пидор";

/// A pattern of the rule table that the regex engine refused.
#[derive(Debug)]
pub struct PatternError {
    pub pattern: &'static str,
}

/// The rule table that a message is rewritten with, in order.
pub type MatchPatternArray = [MatchPattern; 3];

/// Whether `p` is the rule with the given patterns and replacement.
pub open spec fn is_rule(p: MatchPattern, cut: &str, word: &str, replacement: ReplaceOption) -> bool {
    &&& p.cut.pattern() == cut@
    &&& p.word.pattern() == word@
    &&& p.replacement == replacement
}

/// Whether `t` is the default rule table.
pub open spec fn is_default_table(t: MatchPatternArray) -> bool {
    &&& is_rule(t[0], CITY_ADJ_CUT, CITY_ADJ_WORD, ReplaceOption::Suffixed { prefix: CITY_ADJ_PREFIX })
    &&& is_rule(t[1], DWELLER_CUT, DWELLER_WORD, ReplaceOption::Plain { replacement: DWELLER_REPLACEMENT })
    &&& is_rule(t[2], DWELLER_STEM_CUT, DWELLER_STEM_WORD, ReplaceOption::Suffixed { prefix: DWELLER_REPLACEMENT })
}

/// Whether every pattern of the default rule table compiles.
pub open spec fn default_table_compiles() -> bool {
    &&& regex_compiles(CITY_ADJ_CUT@)
    &&& regex_compiles(CITY_ADJ_WORD@)
    &&& regex_compiles(DWELLER_CUT@)
    &&& regex_compiles(DWELLER_WORD@)
    &&& regex_compiles(DWELLER_STEM_CUT@)
    &&& regex_compiles(DWELLER_STEM_WORD@)
}

/// Compiles one pattern, naming it in the error when it is refused.
pub(crate) fn compile_named(pattern: &'static str) -> (r: Result<Matcher, PatternError>)
    ensures
        r is Ok <==> regex_compiles(pattern@),
        r matches Ok(m) ==> m.pattern() == pattern@,
        r matches Err(e) ==> e.pattern == pattern,
{
    match compile(pattern) {
        Ok(m) => Ok(m),
        Err(_) => Err(PatternError { pattern }),
    }
}

/// Compiles the two patterns of one rule.
fn build_rule(cut: &'static str, word: &'static str, replacement: ReplaceOption) -> (r: Result<MatchPattern, PatternError>)
    ensures
        r is Ok <==> regex_compiles(cut@) && regex_compiles(word@),
        r matches Ok(p) ==> is_rule(p, cut, word, replacement),
        r matches Err(e) ==> (e.pattern == cut && !regex_compiles(cut@)) || (e.pattern == word && !regex_compiles(word@)),
{
    let cut_m = compile_named(cut)?;
    let word_m = compile_named(word)?;
    Ok(MatchPattern { cut: cut_m, word: word_m, replacement })
}

/// Builds the default rule table; fails on the first pattern that does not
/// compile.
pub fn get_patterns() -> (r: Result<MatchPatternArray, PatternError>)
    ensures
        r is Ok <==> default_table_compiles(),
        r matches Ok(t) ==> is_default_table(t),
        r matches Err(e) ==> !regex_compiles(e.pattern@),
{
    let adjective = build_rule(CITY_ADJ_CUT, CITY_ADJ_WORD, ReplaceOption::Suffixed { prefix: CITY_ADJ_PREFIX })?;
    let dweller = build_rule(DWELLER_CUT, DWELLER_WORD, ReplaceOption::Plain { replacement: DWELLER_REPLACEMENT })?;
    let dwellers = build_rule(DWELLER_STEM_CUT, DWELLER_STEM_WORD, ReplaceOption::Suffixed { prefix: DWELLER_REPLACEMENT })?;
    Ok([adjective, dweller, dwellers])
}

} // verus!
