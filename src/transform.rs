//! Rewriting a message with the rule table: every occurrence that a rule
//! finds becomes one marked word, and the words are joined with ", ".
use crate::matcher::{drop_first, find_all, regex_drop_first, regex_find_all};
use crate::rules::{lower_of, MatchPattern, MatchPatternArray, ReplaceOption};
use vstd::prelude::*;
use vstd::string::*;

verus! {

/// The separator between two joined pieces.
pub open spec fn separator() -> Seq<char> {
    seq![',', ' ']
}

/// The marker put after every rewritten word.
pub open spec fn marker() -> Seq<char> {
    seq!['*']
}

/// Appends `v` to `acc`, with a separator only where both are non-empty.
pub open spec fn join_piece(acc: Seq<char>, v: Seq<char>) -> Seq<char> {
    if acc.len() == 0 || v.len() == 0 {
        acc + v
    } else {
        acc + separator() + v
    }
}

/// Folds `join_piece` over the pieces, from the first to the last.
pub open spec fn join_all(pieces: Seq<Seq<char>>) -> Seq<char>
    decreases pieces.len(),
{
    if pieces.len() == 0 {
        Seq::empty()
    } else {
        join_piece(join_all(pieces.drop_last()), pieces.last())
    }
}

/// The word that rule `p` writes for one occurrence `found`.
pub open spec fn rewrite_occurrence(p: MatchPattern, found: Seq<char>) -> Seq<char> {
    p.replacement.rebuild(regex_drop_first(p.cut.pattern(), found)) + marker()
}

/// The words that rule `p` writes for `text`, one per occurrence, in order.
pub open spec fn rule_words(p: MatchPattern, text: Seq<char>) -> Seq<Seq<char>> {
    regex_find_all(p.word.pattern(), text).map_values(|found: Seq<char>| rewrite_occurrence(p, found))
}

/// What rule `p` contributes for `text`.
pub open spec fn rule_result(p: MatchPattern, text: Seq<char>) -> Seq<char> {
    join_all(rule_words(p, text))
}

/// The rewrite of `text` by the rules `ps`, in order.
pub open spec fn transform(ps: Seq<MatchPattern>, text: Seq<char>) -> Seq<char> {
    join_all(ps.map_values(|p: MatchPattern| rule_result(p, text)))
}

/// Appends `v` to `acc`, with ", " between them only where both are
/// non-empty.
pub fn fold_join(acc: String, v: String) -> (r: String)
    ensures
        r@ == join_piece(acc@, v@),
{
    if acc.as_str().is_empty() || v.as_str().is_empty() {
        acc.concat(v.as_str())
    } else {
        proof {
            reveal_strlit(", ");
        }
        acc.concat(", ").concat(v.as_str())
    }
}

proof fn lemma_join_all_step(pieces: Seq<Seq<char>>, i: int)
    requires
        0 <= i < pieces.len(),
    ensures
        join_all(pieces.take(i + 1)) == join_piece(join_all(pieces.take(i)), pieces[i]),
{
    assert(pieces.take(i + 1).drop_last() =~= pieces.take(i));
}

/// What one rule contributes for `text`.
fn rule_text(p: &MatchPattern, text: &str) -> (r: String)
    ensures
        r@ == rule_result(*p, text@),
{
    let found = find_all(&p.word, text);
    let ghost words = rule_words(*p, text@);
    let mut acc = String::new();
    let mut i: usize = 0;
    while i < found.len()
        invariant
            i <= found@.len(),
            found@.len() == words.len(),
            forall|k: int| 0 <= k < found@.len() ==> #[trigger] found@[k]@ == regex_find_all(p.word.pattern(), text@)[k],
            words == rule_words(*p, text@),
            acc@ == join_all(words.take(i as int)),
        decreases found@.len() - i,
    {
        let ending = drop_first(&p.cut, found[i].as_str());
        proof {
            reveal_strlit("*");
        }
        let word = p.replace(ending.as_str()).concat("*");
        assert(word@ == words[i as int]);
        proof {
            lemma_join_all_step(words, i as int);
        }
        acc = fold_join(acc, word);
        i = i + 1;
    }
    assert(words.take(i as int) =~= words);
    acc
}

/// Rewrites `text` with the rule table: the words of every rule, in rule
/// order, joined with ", "; empty where no rule finds anything.
pub fn handle_text(text: &str, patterns: &MatchPatternArray) -> (r: String)
    ensures
        r@ == transform(patterns@, text@),
{
    let ghost results = patterns@.map_values(|p: MatchPattern| rule_result(p, text@));
    let mut acc = String::new();
    let mut i: usize = 0;
    while i < 3
        invariant
            i <= 3,
            results == patterns@.map_values(|p: MatchPattern| rule_result(p, text@)),
            acc@ == join_all(results.take(i as int)),
        decreases 3 - i,
    {
        let part = rule_text(&patterns[i], text);
        proof {
            lemma_join_all_step(results, i as int);
        }
        acc = fold_join(acc, part);
        i = i + 1;
    }
    assert(results.take(3) =~= results);
    acc
}

/// The pieces joined with one separator between each two neighbours.
pub open spec fn separated(pieces: Seq<Seq<char>>) -> Seq<char>
    decreases pieces.len(),
{
    if pieces.len() == 0 {
        Seq::empty()
    } else if pieces.len() == 1 {
        pieces[0]
    } else {
        separated(pieces.drop_last()) + separator() + pieces.last()
    }
}

/// Every word that the rules `ps` write for `text`: those of the first rule
/// first, each rule's in the order of its occurrences.
pub open spec fn all_words(ps: Seq<MatchPattern>, text: Seq<char>) -> Seq<Seq<char>>
    decreases ps.len(),
{
    if ps.len() == 0 {
        Seq::empty()
    } else {
        all_words(ps.drop_last(), text) + rule_words(ps.last(), text)
    }
}

/// Whether no piece is empty.
pub open spec fn all_nonempty(pieces: Seq<Seq<char>>) -> bool {
    forall|i: int| 0 <= i < pieces.len() ==> #[trigger] pieces[i].len() > 0
}

proof fn lemma_separated_nonempty(pieces: Seq<Seq<char>>)
    requires
        pieces.len() > 0,
        all_nonempty(pieces),
    ensures
        separated(pieces).len() > 0,
{
    assert(pieces[pieces.len() - 1].len() > 0);
}

proof fn lemma_separated_concat(a: Seq<Seq<char>>, b: Seq<Seq<char>>)
    requires
        a.len() > 0,
        b.len() > 0,
    ensures
        separated(a + b) == separated(a) + separator() + separated(b),
    decreases b.len(),
{
    if b.len() == 1 {
        assert((a + b).drop_last() =~= a);
        assert((a + b).last() == b[0]);
    } else {
        assert((a + b).drop_last() =~= a + b.drop_last());
        lemma_separated_concat(a, b.drop_last());
        assert((a + b).last() == b.last());
        assert(separated(a + b) =~= separated(a) + separator() + separated(b));
    }
}

proof fn lemma_join_all_nonempty(pieces: Seq<Seq<char>>)
    requires
        all_nonempty(pieces),
    ensures
        join_all(pieces) == separated(pieces),
    decreases pieces.len(),
{
    if pieces.len() > 0 {
        let rest = pieces.drop_last();
        assert(all_nonempty(rest)) by {
            assert forall|i: int| 0 <= i < rest.len() implies #[trigger] rest[i].len() > 0 by {
                assert(rest[i] == pieces[i]);
            }
        }
        lemma_join_all_nonempty(rest);
        assert(pieces.last() == pieces[pieces.len() - 1]);
        if rest.len() > 0 {
            lemma_separated_nonempty(rest);
        } else {
            assert(join_all(rest) =~= Seq::<char>::empty());
            assert(join_all(pieces) =~= pieces[0]);
        }
    }
}

proof fn lemma_all_words_nonempty(ps: Seq<MatchPattern>, text: Seq<char>)
    ensures
        all_nonempty(all_words(ps, text)),
    decreases ps.len(),
{
    if ps.len() > 0 {
        lemma_all_words_nonempty(ps.drop_last(), text);
        let w = all_words(ps.drop_last(), text);
        let r = rule_words(ps.last(), text);
        assert forall|i: int| 0 <= i < (w + r).len() implies #[trigger] (w + r)[i].len() > 0 by {
            if i >= w.len() {
                assert((w + r)[i] == r[i - w.len()]);
            }
        }
    }
}

proof fn lemma_join_all_empty(pieces: Seq<Seq<char>>)
    requires
        forall|i: int| 0 <= i < pieces.len() ==> #[trigger] pieces[i].len() == 0,
    ensures
        join_all(pieces).len() == 0,
    decreases pieces.len(),
{
    if pieces.len() > 0 {
        let rest = pieces.drop_last();
        assert forall|i: int| 0 <= i < rest.len() implies #[trigger] rest[i].len() == 0 by {
            assert(rest[i] == pieces[i]);
        }
        lemma_join_all_empty(rest);
        assert(pieces[pieces.len() - 1].len() == 0);
    }
}

/// A message in which no rule's word pattern finds anything gets an empty
/// rewrite, which means no reply.
pub proof fn lemma_no_occurrence_no_reply(ps: Seq<MatchPattern>, text: Seq<char>)
    requires
        forall|i: int| 0 <= i < ps.len() ==> #[trigger] regex_find_all(ps[i].word.pattern(), text).len() == 0,
    ensures
        transform(ps, text) == Seq::<char>::empty(),
{
    let results = ps.map_values(|p: MatchPattern| rule_result(p, text));
    assert forall|i: int| 0 <= i < results.len() implies #[trigger] results[i].len() == 0 by {
        assert(regex_find_all(ps[i].word.pattern(), text).len() == 0);
        assert(rule_words(ps[i], text) =~= Seq::<Seq<char>>::empty());
    }
    lemma_join_all_empty(results);
    assert(transform(ps, text) =~= Seq::<char>::empty());
}

/// The rewrite of a message is every word that the rules write, in rule
/// order and, within a rule, in the order of the occurrences, with exactly
/// one ", " between each two neighbours: no separator in front, none at the
/// end, and none doubled where a rule in between writes nothing.
pub proof fn lemma_words_joined_in_rule_order(ps: Seq<MatchPattern>, text: Seq<char>)
    ensures
        transform(ps, text) == separated(all_words(ps, text)),
        all_nonempty(all_words(ps, text)),
    decreases ps.len(),
{
    lemma_all_words_nonempty(ps, text);
    if ps.len() > 0 {
        let init = ps.drop_last();
        let f = |p: MatchPattern| rule_result(p, text);
        assert(ps.map_values(f).drop_last() =~= init.map_values(f));
        assert(ps.map_values(f).last() == rule_result(ps.last(), text));
        lemma_words_joined_in_rule_order(init, text);
        let w = all_words(init, text);
        let r = rule_words(ps.last(), text);
        assert forall|i: int| 0 <= i < r.len() implies #[trigger] r[i].len() > 0 by {}
        lemma_join_all_nonempty(r);
        if w.len() == 0 {
            assert(w + r =~= r);
        } else if r.len() == 0 {
            assert(w + r =~= w);
            assert(rule_result(ps.last(), text) =~= Seq::<char>::empty());
        } else {
            lemma_separated_nonempty(w);
            lemma_separated_nonempty(r);
            lemma_separated_concat(w, r);
        }
    }
}

/// Every word that a rule with a suffixed policy writes is the rule's
/// prefix, then the lower-cased ending that is left once the stem is cut
/// from the occurrence, then the marker.
pub proof fn lemma_suffixed_word(p: MatchPattern, prefix: &'static str, text: Seq<char>, i: int)
    requires
        p.replacement == (ReplaceOption::Suffixed { prefix }),
        0 <= i < regex_find_all(p.word.pattern(), text).len(),
    ensures
        rule_words(p, text)[i] == prefix@ + lower_of(
            regex_drop_first(p.cut.pattern(), regex_find_all(p.word.pattern(), text)[i]),
        ) + marker(),
{
}

} // verus!
