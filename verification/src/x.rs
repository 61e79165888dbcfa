//! The operations of the snippet tool, and the order in which snippets are
//! offered for a set of keywords.

use vstd::prelude::*;
use crate::engine::{
    outcomes_view, rank_scored, ranked_view, ranking_of, texts, MatchResult, MatchView, Outcome,
    OutcomeView,
};
use crate::project::SnippetLocation;

verus! {

/// What the tool was asked to do.
#[derive(Debug)]
pub enum OpCode<'a> {
    /// A new snippet without a name, in the given location.
    NewSnippet(&'a SnippetLocation),
    /// A new snippet with the given file name, in the given location.
    AddSnippet(String, &'a SnippetLocation),
    /// Listing snippets; `true` to edit the chosen one.
    ListSnippets(bool),
    /// Pulling the locations that are git repositories.
    PullSnippets,
    /// Saving the locations that are git repositories.
    SaveSnippets,
}

/// What the command line asks for, before a location is chosen.
#[derive(Clone, Copy, Debug, PartialEq, Eq, Structural)]
pub enum Mode {
    /// A new snippet with a given file name.
    Add,
    /// A new snippet without a name.
    New,
    /// Listing snippets to edit one.
    Edit,
    Pull,
    Save,
    /// Listing snippets to show one.
    List,
}

/// The mode that the flags of the command line stand for. A file name to add
/// goes before every flag, then `new`, `edit`, `pull` and `save` in this
/// order; with none of them snippets are listed.
pub open spec fn mode_spec(add: bool, new: bool, edit: bool, pull: bool, save: bool) -> Mode {
    if add {
        Mode::Add
    } else if new {
        Mode::New
    } else if edit {
        Mode::Edit
    } else if pull {
        Mode::Pull
    } else if save {
        Mode::Save
    } else {
        Mode::List
    }
}

/// The mode that the flags of the command line stand for; `add` says whether
/// a file name to add was given.
pub fn choose_mode(add: bool, new: bool, edit: bool, pull: bool, save: bool) -> (mode: Mode)
    ensures
        mode == mode_spec(add, new, edit, pull, save),
{
    if add {
        Mode::Add
    } else if new {
        Mode::New
    } else if edit {
        Mode::Edit
    } else if pull {
        Mode::Pull
    } else if save {
        Mode::Save
    } else {
        Mode::List
    }
}

/// How many of the first `upto` tags are among the keywords.
pub open spec fn tag_count_spec(tags: Seq<Seq<char>>, keywords: Seq<Seq<char>>, upto: int) -> nat
    decreases upto,
{
    if upto <= 0 {
        0
    } else {
        tag_count_spec(tags, keywords, upto - 1) + if keywords.contains(tags[upto - 1]) {
            1nat
        } else {
            0nat
        }
    }
}

/// Whether a snippet with `count` matching tags is offered: with no keywords
/// every snippet is, else those with at least one tag among them.
pub open spec fn is_offered(count: nat, keywords: Seq<Seq<char>>) -> bool {
    keywords.len() == 0 || count > 0
}

/// Whether `word` is one of `words`.
pub fn contains_word(words: &Vec<String>, word: &String) -> (found: bool)
    ensures
        found == texts(words@).contains(word@),
{
    let ghost all = texts(words@);
    let mut i: usize = 0;
    while i < words.len()
        invariant
            i <= words.len(),
            all == texts(words@),
            forall|k: int| 0 <= k < i ==> all[k] != word@,
        decreases words.len() - i,
    {
        if words[i] == *word {
            assert(all[i as int] == word@);
            return true;
        }
        i += 1;
    }
    false
}

/// How many of `tags` are among `keywords`; a tag that occurs twice counts
/// twice.
pub fn tag_count(tags: &Vec<String>, keywords: &Vec<String>) -> (count: usize)
    ensures
        count == tag_count_spec(
            texts(tags@),
            texts(keywords@),
            tags@.len() as int,
        ),
{
    let ghost tag_texts = texts(tags@);
    let ghost keys = texts(keywords@);
    let mut count: usize = 0;
    let mut i: usize = 0;
    while i < tags.len()
        invariant
            i <= tags.len(),
            count <= i,
            tag_texts == texts(tags@),
            keys == texts(keywords@),
            count == tag_count_spec(tag_texts, keys, i as int),
        decreases tags.len() - i,
    {
        if contains_word(keywords, &tags[i]) {
            count += 1;
        }
        i += 1;
    }
    count
}

/// The tags of every snippet, as texts.
pub open spec fn tag_texts(tag_lists: Seq<Vec<String>>) -> Seq<Seq<Seq<char>>> {
    Seq::new(tag_lists.len(), |i: int| texts(tag_lists[i]@))
}

/// A count as a score; counts beyond the largest score stand for that score.
pub open spec fn count_score(count: nat) -> i64 {
    if count > i64::MAX {
        i64::MAX
    } else {
        count as i64
    }
}

/// What a snippet with the given tags brings to the order: its count of
/// matching tags as the score, or nothing where it is not offered.
pub open spec fn offer_outcome(tags: Seq<Seq<char>>, keywords: Seq<Seq<char>>) -> OutcomeView {
    let count = tag_count_spec(tags, keywords, tags.len() as int);
    if is_offered(count, keywords) {
        Some((count_score(count), Seq::<usize>::empty()))
    } else {
        None
    }
}

/// The order in which snippets are offered: those that are offered at all,
/// most matching tags first, equal counts in input order.
pub open spec fn offer_order_spec(
    tag_lists: Seq<Seq<Seq<char>>>,
    keywords: Seq<Seq<char>>,
) -> Seq<MatchView> {
    ranking_of(Seq::new(tag_lists.len(), |i: int| offer_outcome(tag_lists[i], keywords)))
}

/// The order in which snippets are offered for `keywords`, given the tags of
/// each: entry `i` of `tag_lists` holds the tags of snippet `i`. Each entry of
/// the answer names a snippet by `candidate_index` and carries its count of
/// matching tags as `score`.
pub fn offer_order(tag_lists: &Vec<Vec<String>>, keywords: &Vec<String>) -> (order: Vec<
    MatchResult,
>)
    ensures
        ranked_view(order@) == offer_order_spec(tag_texts(tag_lists@), texts(keywords@)),
{
    let ghost lists = tag_texts(tag_lists@);
    let ghost keys = texts(keywords@);
    let mut scored: Vec<Outcome> = Vec::new();
    let mut i: usize = 0;
    while i < tag_lists.len()
        invariant
            i <= tag_lists.len(),
            scored.len() == i,
            lists == tag_texts(tag_lists@),
            keys == texts(keywords@),
            forall|k: int|
                0 <= k < i ==> crate::engine::outcome_view(#[trigger] scored[k]) == offer_outcome(
                    lists[k],
                    keys,
                ),
        decreases tag_lists.len() - i,
    {
        let count = tag_count(&tag_lists[i], keywords);
        assert(texts(tag_lists[i as int]@) == lists[i as int]);
        if keywords.len() == 0 || count > 0 {
            let wide: u64 = count as u64;
            let score: i64 = if wide > 0x7fff_ffff_ffff_ffffu64 {
                0x7fff_ffff_ffff_ffffi64
            } else {
                wide as i64
            };
            scored.push(Some((score, Vec::new())));
        } else {
            scored.push(None);
        }
        i += 1;
    }
    assert(outcomes_view(scored@) =~= Seq::new(
        lists.len(),
        |i: int| offer_outcome(lists[i], keys),
    ));
    rank_scored(scored)
}

} // verus!
