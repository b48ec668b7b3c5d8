//! Fuzzy matching of what is typed against what there is.

use vstd::prelude::*;

verus! {

/// How well a text matches what was typed, or nothing if it does not: what
/// `nucleo_matcher::pattern::Pattern::score` gives for the pattern that was typed,
/// with smart case and smart normalization, in the matcher's default
/// configuration.
pub uninterp spec fn fuzzy(query: Seq<char>, text: Seq<char>) -> Option<u32>;

/// The longest that what is typed may be for its scores to fit: with at most 36 for the
/// first character that matches and 26 for each other one, they stay below 65,536.
pub const MAX_QUERY: usize = 2_520;

/// The longest text that can be matched.
pub const MAX_TERM: usize = 4_294_967_295;

/// `nucleo_matcher::pattern::Pattern::parse` reads what was typed, and
/// `Pattern::score` then says how well the text matches it, if it does. The
/// matcher refuses texts of more than 32 bits' worth of characters. It adds up the
/// score of each word that was typed in 16 bits, unchecked, and those of the words in
/// 32.
#[verifier::external_body]
pub(crate) fn fuzzy_score(query: &str, text: &str) -> (r: Option<u32>)
    requires
        query@.len() <= MAX_QUERY,
        text@.len() <= MAX_TERM,
    ensures
        r == fuzzy(query@, text@),
{
    let smart = nucleo_matcher::pattern::CaseMatching::Smart;
    let normal = nucleo_matcher::pattern::Normalization::Smart;
    let pattern = nucleo_matcher::pattern::Pattern::parse(query, smart, normal);
    let mut matcher = nucleo_matcher::Matcher::new(nucleo_matcher::Config::DEFAULT);
    let mut buffer = Vec::new();
    pattern.score(nucleo_matcher::Utf32Str::new(text, &mut buffer), &mut matcher)
}

/// The first `n` items that have a score, with it.
pub open spec fn scored(scores: Seq<Option<u32>>, n: int) -> Seq<(usize, u32)>
    decreases n,
{
    if n <= 0 {
        Seq::empty()
    } else {
        match scores[n - 1] {
            Some(score) => scored(scores, n - 1).push(((n - 1) as usize, score)),
            None => scored(scores, n - 1),
        }
    }
}

/// The items that have a score, with it, in order.
pub fn collect_matches(scores: &Vec<Option<u32>>) -> (r: Vec<(usize, u32)>)
    ensures
        r@ == scored(scores@, scores@.len() as int),
{
    let mut out: Vec<(usize, u32)> = Vec::new();
    for i in 0..scores.len()
        invariant
            out@ == scored(scores@, i as int),
    {
        if let Some(score) = scores[i] {
            out.push((i, score));
        }
    }
    out
}

/// The scores of texts.
pub open spec fn text_scores(query: Seq<char>, texts: Seq<Seq<char>>) -> Seq<Option<u32>> {
    texts.map_values(|text: Seq<char>| fuzzy(query, text))
}

/// Finds the texts that match what was typed, with their scores. Nothing typed
/// means that there is nothing to search for, and every text is shown.
pub fn search_texts(query: &str, texts: &Vec<String>) -> (r: Option<Vec<(usize, u32)>>)
    requires
        query@.len() <= MAX_QUERY,
        forall|i: int| 0 <= i < texts@.len() ==> (#[trigger] texts@[i])@.len() <= MAX_TERM,
    ensures
        match r {
            Some(found) => query@.len() > 0 && found@ == scored(
                text_scores(query@, crate::text::views(texts@)),
                texts@.len() as int,
            ),
            None => query@.len() == 0,
        },
{
    if query.is_empty() {
        return None;
    }
    let ghost all = crate::text::views(texts@);
    let mut scores: Vec<Option<u32>> = Vec::new();
    for i in 0..texts.len()
        invariant
            query@.len() <= MAX_QUERY,
            forall|j: int| 0 <= j < texts@.len() ==> (#[trigger] texts@[j])@.len() <= MAX_TERM,
            all == crate::text::views(texts@),
            scores@ == text_scores(query@, all.take(i as int)),
    {
        scores.push(fuzzy_score(query, &texts[i]));
        assert(scores@ =~= text_scores(query@, all.take(i + 1)));
    }
    assert(all.take(all.len() as int) =~= all);
    Some(collect_matches(&scores))
}

/// Every match is a place among those that were searched, each comes once, and
/// they come in order.
pub proof fn law_matches_are_in_order(scores: Seq<Option<u32>>, n: int)
    requires
        0 <= n <= scores.len() <= usize::MAX,
    ensures
        forall|i: int|
            0 <= i < scored(scores, n).len() ==> (#[trigger] scored(scores, n)[i]).0 < n
                && scores[scored(scores, n)[i].0 as int] == Some(scored(scores, n)[i].1),
        forall|i: int, j: int|
            0 <= i < j < scored(scores, n).len() ==> (#[trigger] scored(scores, n)[i]).0 < (
            #[trigger] scored(scores, n)[j]).0,
    decreases n,
{
    if n > 0 {
        law_matches_are_in_order(scores, n - 1);
    }
}

/// Every item that has a score is listed with it, however many there are.
pub proof fn law_every_match_is_listed(scores: Seq<Option<u32>>, n: int, i: int, score: u32)
    requires
        0 <= i < n <= scores.len() <= usize::MAX,
        scores[i] == Some(score),
    ensures
        scored(scores, n).contains((i as usize, score)),
    decreases n,
{
    let all = scored(scores, n);
    if i == n - 1 {
        assert(all.last() == (i as usize, score));
    } else {
        law_every_match_is_listed(scores, n - 1, i, score);
        let before = scored(scores, n - 1);
        let k = choose|k: int| 0 <= k < before.len() && before[k] == (i as usize, score);
        assert(all[k] == (i as usize, score));
    }
}

/// Every text that matches what was typed is found, with its score, and nothing else is.
pub proof fn law_search_finds_exactly_the_matches(
    query: Seq<char>,
    texts: Seq<Seq<char>>,
    i: usize,
    score: u32,
)
    requires
        texts.len() <= usize::MAX,
    ensures
        scored(text_scores(query, texts), texts.len() as int).contains((i, score)) <==> (i
            < texts.len() && fuzzy(query, texts[i as int]) == Some(score)),
{
    let scores = text_scores(query, texts);
    let all = scored(scores, texts.len() as int);
    law_matches_are_in_order(scores, texts.len() as int);
    if all.contains((i, score)) {
        let k = choose|k: int| 0 <= k < all.len() && all[k] == (i, score);
        assert(all[k].0 < texts.len());
    }
    if i < texts.len() && fuzzy(query, texts[i as int]) == Some(score) {
        law_every_match_is_listed(scores, texts.len() as int, i as int, score);
    }
}

} // verus!
