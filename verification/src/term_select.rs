//! The matcher that a picker keeps: the candidates, the current search term,
//! and the ranking of the candidates for that term.

use vstd::prelude::*;
use crate::engine::{
    is_listed, is_subsequence, rank, rank_spec, ranked_view, texts, MatchResult, MatchView,
};

verus! {

/// The candidates of one picker run, the search term typed so far, and the
/// ranking that belongs to the two.
pub struct FuzzyMatcher<'a> {
    selections: &'a Vec<String>,
    matches: Vec<MatchResult>,
    search_term: String,
}

impl<'a> FuzzyMatcher<'a> {
    #[verifier::type_invariant]
    spec fn well_formed(self) -> bool {
        &&& ranked_view(self.matches@) == rank_spec(texts(self.selections@), self.search_term@)
        &&& forall|i: int|
            0 <= i < self.selections@.len() ==> (is_listed(ranked_view(self.matches@), i)
                <==> is_subsequence(self.search_term@, #[trigger] self.selections@[i]@))
    }

    /// The candidates' texts, in input order.
    pub closed spec fn candidates(&self) -> Seq<Seq<char>> {
        texts(self.selections@)
    }

    /// The current search term.
    pub closed spec fn term(&self) -> Seq<char> {
        self.search_term@
    }

    /// The current ranking; see [`FuzzyMatcher::get_matches`].
    pub closed spec fn ranked(&self) -> Seq<MatchView> {
        ranked_view(self.matches@)
    }

    /// A matcher over `selections` with an empty search term, so that every
    /// candidate is listed.
    pub fn new(selections: &'a Vec<String>) -> (matcher: Self)
        ensures
            matcher.candidates() == texts(selections@),
            matcher.term() == Seq::<char>::empty(),
            matcher.ranked() == rank_spec(matcher.candidates(), matcher.term()),
    {
        Self::with_term(selections, String::new())
    }

    /// A matcher over `selections` for the given search term.
    pub fn with_term(selections: &'a Vec<String>, search_term: String) -> (matcher: Self)
        ensures
            matcher.candidates() == texts(selections@),
            matcher.term() == search_term@,
            matcher.ranked() == rank_spec(matcher.candidates(), matcher.term()),
    {
        let matches = rank(selections, search_term.as_str());
        FuzzyMatcher { selections, matches, search_term }
    }

    /// Replaces the search term and ranks the candidates anew, unless the term
    /// is the one already set.
    pub fn set_search_term(&mut self, search_term: &str)
        ensures
            final(self).candidates() == old(self).candidates(),
            final(self).term() == search_term@,
            final(self).ranked() == rank_spec(final(self).candidates(), final(self).term()),
    {
        proof {
            use_type_invariant(&*self);
        }
        let term = search_term.to_owned();
        if !(term == self.search_term) {
            let selections = self.selections;
            *self = Self::with_term(selections, term);
        }
    }

    pub fn get_search_term(&self) -> (term: &String)
        ensures
            term@ == self.term(),
    {
        &self.search_term
    }

    /// The ranking for the current term: best match first. A candidate is
    /// listed exactly when the term's characters occur in its text in order.
    pub fn get_matches(&self) -> (matches: &Vec<MatchResult>)
        ensures
            ranked_view(matches@) == self.ranked(),
            self.ranked() == rank_spec(self.candidates(), self.term()),
            forall|i: int|
                0 <= i < self.candidates().len() ==> (is_listed(self.ranked(), i)
                    <==> is_subsequence(self.term(), #[trigger] self.candidates()[i])),
    {
        proof {
            use_type_invariant(self);
        }
        &self.matches
    }

    pub fn get_selections(&self) -> (selections: &'a Vec<String>)
        ensures
            texts(selections@) == self.candidates(),
    {
        self.selections
    }
}

} // verus!
