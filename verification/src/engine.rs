//! The match engine: scoring one candidate against a search term, and ranking
//! all candidates best first.

use vstd::prelude::*;

verus! {

/// One candidate that matched the search term.
#[derive(Debug, PartialEq, Eq)]
pub struct MatchResult {
    /// Position of the candidate in the sequence the picker was started with.
    pub candidate_index: usize,
    /// Match quality; higher is better.
    pub score: i64,
    /// Character offsets in the candidate's text that matched the term.
    pub matched_positions: Vec<usize>,
}

/// The mathematical value of a [`MatchResult`].
pub ghost struct MatchView {
    pub candidate_index: int,
    pub score: int,
    pub matched_positions: Seq<usize>,
}

impl View for MatchResult {
    type V = MatchView;

    open spec fn view(&self) -> MatchView {
        MatchView {
            candidate_index: self.candidate_index as int,
            score: self.score as int,
            matched_positions: self.matched_positions@,
        }
    }
}

/// What scoring one candidate gives: `None` for no match, else the score and
/// the matched offsets.
pub type Outcome = Option<(i64, Vec<usize>)>;

/// The mathematical value of an [`Outcome`].
pub type OutcomeView = Option<(i64, Seq<usize>)>;

pub open spec fn outcome_view(r: Outcome) -> OutcomeView {
    match r {
        Some((score, positions)) => Some((score, positions@)),
        None => None,
    }
}

pub open spec fn outcomes_view(scored: Seq<Outcome>) -> Seq<OutcomeView> {
    Seq::new(scored.len(), |i: int| outcome_view(scored[i]))
}

pub open spec fn ranked_view(ranked: Seq<MatchResult>) -> Seq<MatchView> {
    Seq::new(ranked.len(), |i: int| ranked[i]@)
}

pub open spec fn texts(candidates: Seq<String>) -> Seq<Seq<char>> {
    Seq::new(candidates.len(), |i: int| candidates[i]@)
}

/// Whether two characters are the same letter, ASCII case set aside.
pub open spec fn same_letter(a: char, b: char) -> bool {
    ||| a == b
    ||| ('A' <= a <= 'Z' && b as int == a as int + 32)
    ||| ('A' <= b <= 'Z' && a as int == b as int + 32)
}

/// Whether the characters of `term` occur in `text` in the same order, not
/// necessarily side by side, ASCII case set aside.
pub open spec fn is_subsequence(term: Seq<char>, text: Seq<char>) -> bool
    decreases text.len(),
{
    if term.len() == 0 {
        true
    } else if text.len() == 0 {
        false
    } else if same_letter(term[0], text[0]) {
        is_subsequence(term.drop_first(), text.drop_first())
    } else {
        is_subsequence(term, text.drop_first())
    }
}

/// Whether `at` places the characters of `term` in `text`: one offset for each
/// character of the term, the offsets rising, and at each offset the same
/// letter as in the term.
pub open spec fn embeds(term: Seq<char>, text: Seq<char>, at: Seq<int>) -> bool {
    &&& at.len() == term.len()
    &&& forall|i: int|
        0 <= i < at.len() ==> 0 <= #[trigger] at[i] < text.len() && same_letter(
            term[i],
            text[at[i]],
        )
    &&& forall|i: int, j: int| 0 <= i < j < at.len() ==> #[trigger] at[i] < #[trigger] at[j]
}

/// Where `term` is found in `text`, there are offsets that place it there.
pub proof fn lemma_subsequence_has_offsets(term: Seq<char>, text: Seq<char>) -> (at: Seq<int>)
    requires
        is_subsequence(term, text),
    ensures
        embeds(term, text, at),
    decreases text.len(),
{
    if term.len() == 0 {
        Seq::empty()
    } else if same_letter(term[0], text[0]) {
        let rest = lemma_subsequence_has_offsets(term.drop_first(), text.drop_first());
        let at = Seq::new(term.len(), |i: int| if i == 0 { 0 } else { rest[i - 1] + 1 });
        assert forall|i: int| 0 <= i < at.len() implies 0 <= #[trigger] at[i] < text.len()
            && same_letter(term[i], text[at[i]]) by {
            if i > 0 {
                assert(term.drop_first()[i - 1] == term[i]);
                assert(text.drop_first()[rest[i - 1]] == text[rest[i - 1] + 1]);
            }
        }
        at
    } else {
        let rest = lemma_subsequence_has_offsets(term, text.drop_first());
        let at = Seq::new(term.len(), |i: int| rest[i] + 1);
        assert forall|i: int| 0 <= i < at.len() implies 0 <= #[trigger] at[i] < text.len()
            && same_letter(term[i], text[at[i]]) by {
            assert(text.drop_first()[rest[i]] == text[rest[i] + 1]);
        }
        at
    }
}

/// Where offsets place `term` in `text`, the term is found there.
pub proof fn lemma_offsets_make_subsequence(term: Seq<char>, text: Seq<char>, at: Seq<int>)
    requires
        embeds(term, text, at),
    ensures
        is_subsequence(term, text),
    decreases text.len(),
{
    if term.len() > 0 {
        assert(0 <= at[0] < text.len());
        let tail = text.drop_first();
        if same_letter(term[0], text[0]) {
            let rest = Seq::new((term.len() - 1) as nat, |i: int| at[i + 1] - 1);
            assert forall|i: int| 0 <= i < rest.len() implies 0 <= #[trigger] rest[i] < tail.len()
                && same_letter(term.drop_first()[i], tail[rest[i]]) by {
                assert(at[0] < at[i + 1]);
                assert(same_letter(term[i + 1], text[at[i + 1]]));
                assert(tail[at[i + 1] - 1] == text[at[i + 1]]);
            }
            assert forall|i: int, j: int| 0 <= i < j < rest.len() implies #[trigger] rest[i]
                < #[trigger] rest[j] by {
                assert(at[i + 1] < at[j + 1]);
            }
            lemma_offsets_make_subsequence(term.drop_first(), tail, rest);
        } else {
            let rest = Seq::new(term.len(), |i: int| at[i] - 1);
            assert(same_letter(term[0], text[at[0]]));
            assert(at[0] != 0);
            assert forall|i: int| 0 <= i < rest.len() implies 0 <= #[trigger] rest[i] < tail.len()
                && same_letter(term[i], tail[rest[i]]) by {
                if i > 0 {
                    assert(at[0] < at[i]);
                }
                assert(same_letter(term[i], text[at[i]]));
                assert(tail[at[i] - 1] == text[at[i]]);
            }
            assert forall|i: int, j: int| 0 <= i < j < rest.len() implies #[trigger] rest[i]
                < #[trigger] rest[j] by {
                assert(at[i] < at[j]);
            }
            lemma_offsets_make_subsequence(term, tail, rest);
        }
    }
}

/// What the skim matcher answers for a choice and a pattern. It depends on the
/// two texts alone.
pub uninterp spec fn skim_indices(choice: Seq<char>, pattern: Seq<char>) -> Option<(i64, Seq<usize>)>;

/// Calls `fuzzy_matcher::skim::fuzzy_indices`. Nothing is proved of the matcher.
/// The contract gives its answer a name, so that equal texts are known to give
/// equal answers, and claims that it answers with a match exactly when the
/// pattern's characters occur in the choice in order, compared without regard
/// to ASCII case: the matcher gives up as soon as one pattern character has no
/// occurrence behind the first occurrence of the one before it.
#[verifier::external_body]
#[allow(deprecated)]
fn skim_fuzzy_indices(choice: &str, pattern: &str) -> (r: Outcome)
    ensures
        outcome_view(r) == skim_indices(choice@, pattern@),
        r.is_some() == is_subsequence(pattern@, choice@),
{
    fuzzy_matcher::skim::fuzzy_indices(choice, pattern)
}

/// The score of `text` against `term`. An empty term matches every text with
/// the baseline score 0 and no matched offsets; any other term is judged by
/// the skim matcher.
pub open spec fn score_spec(text: Seq<char>, term: Seq<char>) -> OutcomeView {
    if term.len() == 0 {
        Some((0i64, Seq::<usize>::empty()))
    } else {
        skim_indices(text, term)
    }
}

/// Scores one candidate text against the search term.
pub fn score(text: &str, term: &str) -> (r: Outcome)
    ensures
        outcome_view(r) == score_spec(text@, term@),
        r.is_some() == is_subsequence(term@, text@),
{
    if term.is_empty() {
        Some((0i64, Vec::new()))
    } else {
        skim_fuzzy_indices(text, term)
    }
}

/// The ranking order: a higher score comes first, and of two equal scores the
/// candidate that came first in the input.
pub open spec fn outranks(a: MatchView, b: MatchView) -> bool {
    a.score > b.score || (a.score == b.score && a.candidate_index < b.candidate_index)
}

/// How many leading entries of `ranked` come before `m`.
pub open spec fn ahead_of(ranked: Seq<MatchView>, m: MatchView) -> nat
    decreases ranked.len(),
{
    if ranked.len() > 0 && outranks(ranked[0], m) {
        1 + ahead_of(ranked.drop_first(), m)
    } else {
        0
    }
}

/// `ranked` with `m` put behind the leading entries that come before it.
pub open spec fn insert_ranked(ranked: Seq<MatchView>, m: MatchView) -> Seq<MatchView> {
    ranked.insert(ahead_of(ranked, m) as int, m)
}

/// The entry that candidate `index` contributes for a given outcome.
pub open spec fn entry(index: int, score: i64, positions: Seq<usize>) -> MatchView {
    MatchView { candidate_index: index, score: score as int, matched_positions: positions }
}

/// The ranking of the candidates `from..scored.len()`, given each one's outcome.
pub open spec fn ranking_from(scored: Seq<OutcomeView>, from: int) -> Seq<MatchView>
    decreases scored.len() - from,
{
    if from < 0 || from >= scored.len() {
        Seq::empty()
    } else {
        let rest = ranking_from(scored, from + 1);
        match scored[from] {
            Some((score, positions)) => insert_ranked(rest, entry(from, score, positions)),
            None => rest,
        }
    }
}

/// The ranking of all candidates, given each one's outcome.
pub open spec fn ranking_of(scored: Seq<OutcomeView>) -> Seq<MatchView> {
    ranking_from(scored, 0)
}

/// The outcome of every candidate for one term.
pub open spec fn scores_of(candidates: Seq<Seq<char>>, term: Seq<char>) -> Seq<OutcomeView> {
    Seq::new(candidates.len(), |i: int| score_spec(candidates[i], term))
}

/// The ranking of `candidates` for `term`.
pub open spec fn rank_spec(candidates: Seq<Seq<char>>, term: Seq<char>) -> Seq<MatchView> {
    ranking_of(scores_of(candidates, term))
}

pub proof fn lemma_ahead_of_bounds(ranked: Seq<MatchView>, m: MatchView)
    ensures
        ahead_of(ranked, m) <= ranked.len(),
        forall|j: int| 0 <= j < ahead_of(ranked, m) ==> outranks(#[trigger] ranked[j], m),
        ahead_of(ranked, m) < ranked.len() ==> !outranks(ranked[ahead_of(ranked, m) as int], m),
    decreases ranked.len(),
{
    if ranked.len() > 0 && outranks(ranked[0], m) {
        let rest = ranked.drop_first();
        lemma_ahead_of_bounds(rest, m);
        assert forall|j: int| 0 <= j < ahead_of(ranked, m) implies outranks(
            #[trigger] ranked[j],
            m,
        ) by {
            if j > 0 {
                assert(ranked[j] == rest[j - 1]);
            }
        }
        if ahead_of(ranked, m) < ranked.len() {
            assert(ranked[ahead_of(ranked, m) as int] == rest[ahead_of(rest, m) as int]);
        }
    }
}

pub proof fn lemma_ahead_of_is(ranked: Seq<MatchView>, m: MatchView, i: int)
    requires
        0 <= i <= ranked.len(),
        forall|j: int| 0 <= j < i ==> outranks(#[trigger] ranked[j], m),
        i < ranked.len() ==> !outranks(ranked[i], m),
    ensures
        ahead_of(ranked, m) == i,
    decreases i,
{
    if i > 0 {
        let rest = ranked.drop_first();
        assert(outranks(ranked[0], m));
        assert forall|j: int| 0 <= j < i - 1 implies outranks(#[trigger] rest[j], m) by {
            assert(rest[j] == ranked[j + 1]);
        }
        if i - 1 < rest.len() {
            assert(rest[i - 1] == ranked[i]);
        }
        lemma_ahead_of_is(rest, m, i - 1);
    }
}

/// Whether candidate `index` has an entry in `ranked`.
pub open spec fn is_listed(ranked: Seq<MatchView>, index: int) -> bool {
    exists|k: int| 0 <= k < ranked.len() && (#[trigger] ranked[k]).candidate_index == index
}

/// Whether every entry of `ranked` comes before all entries behind it.
pub open spec fn is_ranked(ranked: Seq<MatchView>) -> bool {
    forall|i: int, j: int|
        0 <= i < j < ranked.len() ==> outranks(#[trigger] ranked[i], #[trigger] ranked[j])
}

/// Whether `m` is the entry of a candidate at `from` or later that matched.
pub open spec fn comes_from(scored: Seq<OutcomeView>, from: int, m: MatchView) -> bool {
    &&& from <= m.candidate_index < scored.len()
    &&& match scored[m.candidate_index] {
        Some((score, positions)) => m == entry(m.candidate_index, score, positions),
        None => false,
    }
}

proof fn lemma_insert_ranked(ranked: Seq<MatchView>, m: MatchView)
    requires
        is_ranked(ranked),
        forall|j: int|
            0 <= j < ranked.len() ==> (#[trigger] ranked[j]).candidate_index != m.candidate_index,
    ensures
        is_ranked(insert_ranked(ranked, m)),
        insert_ranked(ranked, m).len() == ranked.len() + 1,
        forall|x: MatchView|
            insert_ranked(ranked, m).contains(x) <==> (ranked.contains(x) || x == m),
{
    lemma_ahead_of_bounds(ranked, m);
    let at = ahead_of(ranked, m) as int;
    let out = insert_ranked(ranked, m);
    assert forall|i: int, j: int| 0 <= i < j < out.len() implies outranks(
        #[trigger] out[i],
        #[trigger] out[j],
    ) by {
        if j < at {
            assert(out[i] == ranked[i] && out[j] == ranked[j]);
        } else if j == at {
            assert(out[i] == ranked[i]);
        } else if i == at {
            assert(out[j] == ranked[j - 1]);
            assert(!outranks(ranked[at], m));
            assert(ranked[at].candidate_index != m.candidate_index);
            if j - 1 > at {
                assert(outranks(ranked[at], ranked[j - 1]));
            }
        } else if i < at {
            assert(out[i] == ranked[i] && out[j] == ranked[j - 1]);
        } else {
            assert(out[i] == ranked[i - 1] && out[j] == ranked[j - 1]);
        }
    }
    assert forall|x: MatchView| out.contains(x) <==> (ranked.contains(x) || x == m) by {
        if out.contains(x) {
            let k = choose|k: int| 0 <= k < out.len() && out[k] == x;
            if k < at {
                assert(ranked[k] == x);
            } else if k > at {
                assert(ranked[k - 1] == x);
            }
        }
        if ranked.contains(x) {
            let k = choose|k: int| 0 <= k < ranked.len() && ranked[k] == x;
            if k < at {
                assert(out[k] == x);
            } else {
                assert(out[k + 1] == x);
            }
        }
        if x == m {
            assert(out[at] == x);
        }
    }
}

/// The ranking of the candidates from `from` on is in ranking order and holds
/// exactly the entries of those among them that matched.
pub proof fn lemma_ranking_from(scored: Seq<OutcomeView>, from: int)
    requires
        0 <= from <= scored.len(),
    ensures
        is_ranked(ranking_from(scored, from)),
        forall|m: MatchView|
            ranking_from(scored, from).contains(m) <==> comes_from(scored, from, m),
    decreases scored.len() - from,
{
    if from < scored.len() {
        lemma_ranking_from(scored, from + 1);
        let rest = ranking_from(scored, from + 1);
        match scored[from] {
            Some((score, positions)) => {
                let m = entry(from, score, positions);
                assert forall|j: int| 0 <= j < rest.len() implies (#[trigger] rest[j]).candidate_index
                    != m.candidate_index by {
                    assert(rest.contains(rest[j]));
                    assert(comes_from(scored, from + 1, rest[j]));
                }
                lemma_insert_ranked(rest, m);
                assert(comes_from(scored, from, m));
                assert forall|x: MatchView|
                    ranking_from(scored, from).contains(x) <==> comes_from(scored, from, x) by {
                    assert(rest.contains(x) <==> comes_from(scored, from + 1, x));
                    if comes_from(scored, from, x) && x.candidate_index == from {
                        assert(x == m);
                    }
                }
            },
            None => {
                assert forall|x: MatchView|
                    ranking_from(scored, from).contains(x) <==> comes_from(scored, from, x) by {
                    assert(rest.contains(x) <==> comes_from(scored, from + 1, x));
                }
            },
        }
    } else {
        assert forall|m: MatchView| !ranking_from(scored, from).contains(m) by {}
    }
}

/// A ranking is in ranking order, with no candidate twice, and holds exactly
/// the candidates that match the term, each with the outcome of its scoring.
pub proof fn lemma_rank_sorted_and_complete(candidates: Seq<Seq<char>>, term: Seq<char>)
    ensures
        is_ranked(rank_spec(candidates, term)),
        forall|m: MatchView|
            rank_spec(candidates, term).contains(m) <==> (0 <= m.candidate_index
                < candidates.len() && match score_spec(candidates[m.candidate_index], term) {
                Some((score, positions)) => m == entry(m.candidate_index, score, positions),
                None => false,
            }),
{
    let scored = scores_of(candidates, term);
    lemma_ranking_from(scored, 0);
    assert forall|m: MatchView|
        rank_spec(candidates, term).contains(m) <==> (0 <= m.candidate_index < candidates.len()
            && match score_spec(candidates[m.candidate_index], term) {
            Some((score, positions)) => m == entry(m.candidate_index, score, positions),
            None => false,
        }) by {
        assert(rank_spec(candidates, term).contains(m) <==> comes_from(scored, 0, m));
    }
}

/// Ranking is a function of its inputs: equal candidates and equal terms give
/// the same ranking, entry for entry.
pub proof fn lemma_rank_deterministic(
    first: Seq<Seq<char>>,
    first_term: Seq<char>,
    second: Seq<Seq<char>>,
    second_term: Seq<char>,
)
    requires
        first =~= second,
        first_term =~= second_term,
    ensures
        rank_spec(first, first_term) == rank_spec(second, second_term),
{
}

/// What the empty term gives: every candidate, in input order, with the
/// baseline score and no matched offsets.
pub open spec fn unfiltered(count: nat) -> Seq<MatchView> {
    Seq::new(count, |i: int| entry(i, 0i64, Seq::<usize>::empty()))
}

proof fn lemma_ranking_from_baseline(scored: Seq<OutcomeView>, from: int)
    requires
        0 <= from <= scored.len(),
        forall|i: int|
            0 <= i < scored.len() ==> #[trigger] scored[i] == Some(
                (0i64, Seq::<usize>::empty()),
            ),
    ensures
        ranking_from(scored, from) =~= unfiltered(scored.len()).subrange(
            from,
            scored.len() as int,
        ),
    decreases scored.len() - from,
{
    if from < scored.len() {
        lemma_ranking_from_baseline(scored, from + 1);
        let rest = ranking_from(scored, from + 1);
        let m = entry(from, 0i64, Seq::<usize>::empty());
        assert(scored[from] == Some((0i64, Seq::<usize>::empty())));
        if rest.len() > 0 {
            assert(rest[0] == entry(from + 1, 0i64, Seq::<usize>::empty()));
        }
        assert(ahead_of(rest, m) == 0);
        assert(ranking_from(scored, from) == rest.insert(0, m));
    }
}

/// Ranking with the empty term keeps every candidate, in input order.
pub proof fn lemma_rank_empty_term(candidates: Seq<Seq<char>>, term: Seq<char>)
    requires
        term.len() == 0,
    ensures
        rank_spec(candidates, term) == unfiltered(candidates.len()),
        rank_spec(candidates, term).len() == candidates.len(),
        forall|i: int|
            0 <= i < candidates.len() ==> (#[trigger] rank_spec(
                candidates,
                term,
            )[i]).candidate_index == i,
{
    let scored = scores_of(candidates, term);
    lemma_ranking_from_baseline(scored, 0);
    assert(rank_spec(candidates, term) =~= unfiltered(candidates.len()));
}

/// Whether `a` comes before `b` in the ranking order.
pub fn precedes(a: &MatchResult, b: &MatchResult) -> (r: bool)
    ensures
        r == outranks(a@, b@),
{
    a.score > b.score || (a.score == b.score && a.candidate_index < b.candidate_index)
}

/// Puts `m` into a ranking, behind the leading entries that come before it.
pub fn insert_match(ranked: &mut Vec<MatchResult>, m: MatchResult)
    ensures
        ranked_view(final(ranked)@) == insert_ranked(ranked_view(old(ranked)@), m@),
{
    let mut i: usize = 0;
    while i < ranked.len() && precedes(&ranked[i], &m)
        invariant
            i <= ranked.len(),
            *ranked == *old(ranked),
            forall|j: int| 0 <= j < i ==> outranks(#[trigger] ranked_view(ranked@)[j], m@),
        decreases ranked.len() - i,
    {
        i += 1;
    }
    proof {
        lemma_ahead_of_is(ranked_view(ranked@), m@, i as int);
    }
    ranked.insert(i, m);
    assert(ranked_view(ranked@) =~= ranked_view(old(ranked)@).insert(i as int, m@));
}

/// Ranks the candidates whose outcomes are given: entry `i` of `scored` is the
/// outcome of candidate `i`. Candidates without a match are left out; the rest
/// come best first, equal scores in input order.
pub fn rank_scored(scored: Vec<Outcome>) -> (ranked: Vec<MatchResult>)
    ensures
        ranked_view(ranked@) == ranking_of(outcomes_view(scored@)),
{
    let ghost all = outcomes_view(scored@);
    let mut scored = scored;
    let mut ranked: Vec<MatchResult> = Vec::new();
    assert(ranked_view(ranked@) =~= ranking_from(all, all.len() as int));
    while scored.len() > 0
        invariant
            scored.len() <= all.len(),
            outcomes_view(scored@) =~= all.subrange(0, scored.len() as int),
            ranked_view(ranked@) == ranking_from(all, scored.len() as int),
        decreases scored.len(),
    {
        let ghost before = outcomes_view(scored@);
        let index: usize = scored.len() - 1;
        let last = scored.pop();
        assert(outcome_view(last.unwrap()) == before[index as int]);
        assert(before[index as int] == all[index as int]);
        match last {
            Some(Some((score, positions))) => {
                insert_match(
                    &mut ranked,
                    MatchResult { candidate_index: index, score, matched_positions: positions },
                );
            },
            _ => {},
        }
        assert(outcomes_view(scored@) =~= all.subrange(0, scored.len() as int)) by {
            assert forall|k: int| 0 <= k < scored.len() implies outcomes_view(scored@)[k]
                == all[k] by {
                assert(before[k] == all[k]);
            }
        }
    }
    ranked
}

/// Ranks `candidates` against `term`: every candidate is scored, those that do
/// not match are left out, and the rest come best first, equal scores in input
/// order.
pub fn rank(candidates: &Vec<String>, term: &str) -> (ranked: Vec<MatchResult>)
    ensures
        ranked_view(ranked@) == rank_spec(texts(candidates@), term@),
        forall|i: int|
            0 <= i < candidates.len() ==> (is_listed(ranked_view(ranked@), i) <==> is_subsequence(
                term@,
                #[trigger] candidates[i]@,
            )),
{
    let mut scored: Vec<Outcome> = Vec::new();
    let mut i: usize = 0;
    while i < candidates.len()
        invariant
            i <= candidates.len(),
            scored.len() == i,
            forall|k: int|
                0 <= k < i ==> outcome_view(#[trigger] scored[k]) == score_spec(
                    candidates[k]@,
                    term@,
                ),
            forall|k: int|
                0 <= k < i ==> (#[trigger] scored[k]).is_some() == is_subsequence(
                    term@,
                    candidates[k]@,
                ),
        decreases candidates.len() - i,
    {
        let outcome = score(candidates[i].as_str(), term);
        scored.push(outcome);
        i += 1;
    }
    let ghost all = outcomes_view(scored@);
    assert(all =~= scores_of(texts(candidates@), term@));
    proof {
        lemma_ranking_from(all, 0);
        let ranking = ranking_of(all);
        assert forall|i: int| 0 <= i < candidates.len() implies (is_listed(ranking, i)
            <==> is_subsequence(term@, #[trigger] candidates[i]@)) by {
            assert(all[i].is_some() == scored[i].is_some());
            if is_listed(ranking, i) {
                let k = choose|k: int|
                    0 <= k < ranking.len() && (#[trigger] ranking[k]).candidate_index == i;
                assert(ranking.contains(ranking[k]));
                assert(comes_from(all, 0, ranking[k]));
            }
            if all[i].is_some() {
                let m = entry(i, all[i].unwrap().0, all[i].unwrap().1);
                assert(comes_from(all, 0, m));
                assert(ranking.contains(m));
                let k = choose|k: int| 0 <= k < ranking.len() && ranking[k] == m;
                assert(ranking[k].candidate_index == i);
            }
        }
    }
    rank_scored(scored)
}

} // verus!
