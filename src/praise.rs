//! Recognising thanks addressed to the bot.
use crate::matcher::{find_all, regex_compiles, regex_find_all, Matcher};
use crate::rules::{compile_named, PatternError};
use vstd::prelude::*;

verus! {

/// Thanks and praise phrases, in Russian and English, in any case.
pub const PRAISE_PATTERN: &'static str = r"(?i)(молодец|спасибо|хороший\sбот|thanks|good\sbot)";

/// Compiles the praise pattern.
pub fn get_praise_pattern() -> (r: Result<Matcher, PatternError>)
    ensures
        r is Ok <==> regex_compiles(PRAISE_PATTERN@),
        r matches Ok(m) ==> m.pattern() == PRAISE_PATTERN@,
        r matches Err(e) ==> e.pattern == PRAISE_PATTERN,
{
    compile_named(PRAISE_PATTERN)
}

/// Whether `praise_pattern` occurs anywhere in `text`.
pub fn test_for_praise(text: &str, praise_pattern: &Matcher) -> (r: bool)
    ensures
        r <==> regex_find_all(praise_pattern.pattern(), text@).len() > 0,
{
    let found = find_all(praise_pattern, text);
    found.len() > 0
}

} // verus!
