//! The selection controller: the state machine that owns the search term and
//! the cursor, reacts to key events and yields the chosen candidate.

use vstd::prelude::*;
use crate::engine::{rank_spec, MatchView};
use crate::term_select::FuzzyMatcher;

verus! {

/// One decoded key event.
#[derive(Clone, Copy, Debug, PartialEq, Eq)]
pub enum Key {
    /// A printable character.
    Char(char),
    Backspace,
    Up,
    Down,
    Enter,
    Cancel,
}

/// Where the controller stands.
#[derive(Clone, Copy, Debug, PartialEq, Eq, Structural)]
pub enum Phase {
    /// Keys are still taken.
    Editing,
    /// Enter was pressed.
    Committed,
    /// The cancel key was pressed.
    Cancelled,
}

/// What the front end has to paint after a key was handled.
#[derive(Clone, Copy, Debug, PartialEq, Eq, Structural)]
pub enum Repaint {
    /// Nothing changed on screen.
    Nothing,
    /// Only the selection marker moved, between two cursor positions.
    Marker { from: usize, to: usize },
    /// The ranking may have changed: list, counter, prompt and marker.
    All,
    /// The controller has finished; the terminal is to be restored.
    Finished,
}

/// The mathematical value of a [`Picker`].
pub ghost struct PickerView {
    pub candidates: Seq<Seq<char>>,
    pub term: Seq<char>,
    pub cursor: int,
    pub phase: Phase,
}

impl PickerView {
    /// The ranking that belongs to the candidates and the term.
    pub open spec fn ranked(self) -> Seq<MatchView> {
        rank_spec(self.candidates, self.term)
    }

    /// The cursor points into the ranking, or stands at 0 where the ranking
    /// is empty.
    pub open spec fn cursor_in_range(self) -> bool {
        0 <= self.cursor && (self.cursor == 0 || self.cursor < self.ranked().len())
    }
}

/// `cursor` pulled back into a ranking of `len` entries.
pub open spec fn clamp_cursor(cursor: int, len: int) -> int {
    if len <= 0 {
        0
    } else if cursor >= len {
        len - 1
    } else {
        cursor
    }
}

/// The state with a new search term: the ranking follows the term, and the
/// cursor is pulled back into it.
pub open spec fn with_term(s: PickerView, term: Seq<char>) -> PickerView {
    PickerView {
        term,
        cursor: clamp_cursor(s.cursor, rank_spec(s.candidates, term).len() as int),
        ..s
    }
}

/// `term` without its last character; the empty term stays as it is.
pub open spec fn erase_last(term: Seq<char>) -> Seq<char> {
    if term.len() > 0 {
        term.drop_last()
    } else {
        term
    }
}

/// The transition table. A controller that is no longer editing ignores keys.
pub open spec fn next_state(s: PickerView, key: Key) -> PickerView {
    if s.phase != Phase::Editing {
        s
    } else {
        match key {
            Key::Char(c) => with_term(s, s.term.push(c)),
            Key::Backspace => with_term(s, erase_last(s.term)),
            Key::Up => PickerView {
                cursor: if s.cursor + 1 < s.ranked().len() {
                    s.cursor + 1
                } else {
                    s.cursor
                },
                ..s
            },
            Key::Down => PickerView {
                cursor: if s.cursor > 0 {
                    s.cursor - 1
                } else {
                    s.cursor
                },
                ..s
            },
            Key::Enter => PickerView { phase: Phase::Committed, ..s },
            Key::Cancel => PickerView { phase: Phase::Cancelled, ..s },
        }
    }
}

/// What is to be painted after `key` was handled in state `s`.
pub open spec fn repaint_for(s: PickerView, key: Key) -> Repaint {
    if s.phase != Phase::Editing {
        Repaint::Finished
    } else {
        match key {
            Key::Char(_) | Key::Backspace => Repaint::All,
            Key::Up | Key::Down => if next_state(s, key).cursor == s.cursor {
                Repaint::Nothing
            } else {
                Repaint::Marker {
                    from: s.cursor as usize,
                    to: next_state(s, key).cursor as usize,
                }
            },
            Key::Enter | Key::Cancel => Repaint::Finished,
        }
    }
}

/// The state after a run of keys, handled one after the other.
pub open spec fn after_keys(s: PickerView, keys: Seq<Key>) -> PickerView
    decreases keys.len(),
{
    if keys.len() == 0 {
        s
    } else {
        next_state(after_keys(s, keys.drop_last()), keys.last())
    }
}

/// What the picker hands back: the chosen candidate's index where enter was
/// pressed on a ranking that is not empty, and nothing otherwise.
pub open spec fn result_spec(s: PickerView) -> Seq<int> {
    if s.phase == Phase::Committed && s.ranked().len() > 0 {
        seq![s.ranked()[s.cursor].candidate_index]
    } else {
        Seq::empty()
    }
}

/// The indices of a result, as mathematical integers.
pub open spec fn indices(chosen: Seq<usize>) -> Seq<int> {
    Seq::new(chosen.len(), |i: int| chosen[i] as int)
}

/// The state that a picker over `candidates` starts in: editing, nothing
/// typed yet, the cursor on the best match.
pub open spec fn initial_state(candidates: Seq<Seq<char>>) -> PickerView {
    PickerView { candidates, term: Seq::empty(), cursor: 0, phase: Phase::Editing }
}

/// Whether every key of the run is an arrow key.
pub open spec fn only_arrows(keys: Seq<Key>) -> bool {
    forall|i: int| 0 <= i < keys.len() ==> (#[trigger] keys[i] is Up || keys[i] is Down)
}

/// No key moves the cursor out of the ranking, and no key changes the
/// candidates.
pub proof fn lemma_step_keeps_cursor_in_range(s: PickerView, key: Key)
    requires
        s.cursor_in_range(),
    ensures
        next_state(s, key).cursor_in_range(),
        next_state(s, key).candidates == s.candidates,
{
}

/// No run of keys moves the cursor out of the ranking.
pub proof fn lemma_keys_keep_cursor_in_range(s: PickerView, keys: Seq<Key>)
    requires
        s.cursor_in_range(),
    ensures
        after_keys(s, keys).cursor_in_range(),
        after_keys(s, keys).candidates == s.candidates,
    decreases keys.len(),
{
    if keys.len() > 0 {
        lemma_keys_keep_cursor_in_range(s, keys.drop_last());
        lemma_step_keeps_cursor_in_range(after_keys(s, keys.drop_last()), keys.last());
    }
}

/// On a ranking that is not empty, any run of up and down keys leaves the
/// ranking as it is and the cursor between 0 and the last entry.
pub proof fn lemma_arrows_keep_cursor_in_range(s: PickerView, keys: Seq<Key>)
    requires
        s.ranked().len() > 0,
        0 <= s.cursor <= s.ranked().len() - 1,
        only_arrows(keys),
    ensures
        after_keys(s, keys).ranked() == s.ranked(),
        after_keys(s, keys).phase == s.phase,
        0 <= after_keys(s, keys).cursor <= s.ranked().len() - 1,
    decreases keys.len(),
{
    if keys.len() > 0 {
        let before = keys.drop_last();
        assert(only_arrows(before)) by {
            assert forall|i: int| 0 <= i < before.len() implies (#[trigger] before[i] is Up
                || before[i] is Down) by {
                assert(before[i] == keys[i]);
            }
        }
        lemma_arrows_keep_cursor_in_range(s, before);
        assert(keys.last() == keys[keys.len() - 1]);
    }
}

/// Typing a character and erasing it at once brings back the term and with it
/// the ranking.
pub proof fn lemma_type_then_erase_restores_ranking(s: PickerView, c: char)
    ensures
        next_state(next_state(s, Key::Char(c)), Key::Backspace).term == s.term,
        next_state(next_state(s, Key::Char(c)), Key::Backspace).candidates == s.candidates,
        next_state(next_state(s, Key::Char(c)), Key::Backspace).phase == s.phase,
        next_state(next_state(s, Key::Char(c)), Key::Backspace).ranked() == s.ranked(),
{
    assert(s.term.push(c).drop_last() =~= s.term);
}

/// Whether the cursor of `s` still points into the ranking once `c` is typed,
/// so that typing `c` does not pull it back.
pub open spec fn cursor_survives(s: PickerView, c: char) -> bool {
    s.cursor == clamp_cursor(s.cursor, rank_spec(s.candidates, s.term.push(c)).len() as int)
}

/// Typing a character and erasing it at once brings back the cursor too, and
/// so the whole state, where typing the character did not pull the cursor
/// back. Where it did, the cursor stays where it was pulled to.
pub proof fn lemma_type_then_erase_restores_cursor(s: PickerView, c: char)
    requires
        s.cursor_in_range(),
        s.phase == Phase::Editing ==> cursor_survives(s, c),
    ensures
        next_state(next_state(s, Key::Char(c)), Key::Backspace) == s,
{
    assert(s.term.push(c).drop_last() =~= s.term);
}

/// Enter on an empty ranking chooses nothing.
pub proof fn lemma_commit_on_empty_ranking(s: PickerView)
    requires
        s.ranked().len() == 0,
    ensures
        result_spec(next_state(s, Key::Enter)) == Seq::<int>::empty(),
{
}

/// Enter on a ranking that is not empty chooses the candidate under the
/// cursor, and only that one.
pub proof fn lemma_commit_chooses_cursor(s: PickerView)
    requires
        s.phase == Phase::Editing,
        s.ranked().len() > 0,
    ensures
        result_spec(next_state(s, Key::Enter)) == seq![s.ranked()[s.cursor].candidate_index],
{
}

/// The cancel key chooses nothing, whatever was typed before.
pub proof fn lemma_cancel_chooses_nothing(s: PickerView)
    requires
        s.phase == Phase::Editing,
    ensures
        result_spec(next_state(s, Key::Cancel)) == Seq::<int>::empty(),
{
}

/// Specified here because vstd leaves it out: `String::push` appends one
/// character, as std documents.
pub assume_specification[ String::push ](s: &mut String, c: char)
    ensures
        final(s)@ == old(s)@.push(c),
;

/// Specified here because vstd leaves it out: `String::pop` removes the last
/// character and returns it, or returns `None` and changes nothing where the
/// string is empty, as std documents.
pub assume_specification[ String::pop ](s: &mut String) -> (last: Option<char>)
    ensures
        old(s)@.len() == 0 ==> last.is_none() && final(s)@ == old(s)@,
        old(s)@.len() > 0 ==> last == Some(old(s)@.last()) && final(s)@ == old(s)@.drop_last(),
;

/// The selection controller of one picker run.
pub struct Picker<'a> {
    matcher: FuzzyMatcher<'a>,
    cursor: usize,
    phase: Phase,
}

impl<'a> View for Picker<'a> {
    type V = PickerView;

    closed spec fn view(&self) -> PickerView {
        PickerView {
            candidates: self.matcher.candidates(),
            term: self.matcher.term(),
            cursor: self.cursor as int,
            phase: self.phase,
        }
    }
}

impl<'a> Picker<'a> {
    #[verifier::type_invariant]
    spec fn well_formed(self) -> bool {
        &&& self.matcher.ranked() == self@.ranked()
        &&& self@.cursor_in_range()
    }

    /// A picker over `selections`, with an empty term and the cursor on the
    /// best match.
    pub fn new(selections: &'a Vec<String>) -> (picker: Self)
        ensures
            picker@ == initial_state(crate::engine::texts(selections@)),
            picker@.cursor_in_range(),
    {
        Picker { matcher: FuzzyMatcher::new(selections), cursor: 0, phase: Phase::Editing }
    }

    pub fn phase(&self) -> (phase: Phase)
        ensures
            phase == self@.phase,
    {
        self.phase
    }

    /// Whether the controller has left the editing phase.
    pub fn is_finished(&self) -> (finished: bool)
        ensures
            finished == (self@.phase != Phase::Editing),
    {
        match self.phase {
            Phase::Editing => false,
            _ => true,
        }
    }

    /// The cursor: an index into the ranking, 0 being the best match.
    pub fn cursor(&self) -> (cursor: usize)
        ensures
            cursor == self@.cursor,
            self@.cursor_in_range(),
    {
        proof {
            use_type_invariant(self);
        }
        self.cursor
    }

    /// The matcher, with the term typed so far and the ranking for it.
    pub fn matcher(&self) -> (matcher: &FuzzyMatcher<'a>)
        ensures
            matcher.candidates() == self@.candidates,
            matcher.term() == self@.term,
            matcher.ranked() == self@.ranked(),
    {
        proof {
            use_type_invariant(self);
        }
        &self.matcher
    }

    fn retarget(&mut self, term: String)
        ensures
            final(self)@ == with_term(old(self)@, term@),
    {
        let selections = self.matcher.get_selections();
        let matcher = FuzzyMatcher::with_term(selections, term);
        let len = matcher.get_matches().len();
        let cursor = if len == 0 {
            0
        } else if self.cursor >= len {
            len - 1
        } else {
            self.cursor
        };
        let phase = self.phase;
        *self = Picker { matcher, cursor, phase };
    }

    /// Handles one key event and says what is to be painted.
    pub fn step(&mut self, key: Key) -> (repaint: Repaint)
        ensures
            final(self)@ == next_state(old(self)@, key),
            repaint == repaint_for(old(self)@, key),
            final(self)@.cursor_in_range(),
    {
        proof {
            use_type_invariant(&*self);
        }
        if self.is_finished() {
            return Repaint::Finished;
        }
        let repaint = match key {
            Key::Char(c) => {
                let mut term = self.matcher.get_search_term().clone();
                term.push(c);
                self.retarget(term);
                Repaint::All
            },
            Key::Backspace => {
                let mut term = self.matcher.get_search_term().clone();
                let _ = term.pop();
                self.retarget(term);
                Repaint::All
            },
            Key::Up => {
                let from = self.cursor;
                let len = self.matcher.get_matches().len();
                if len > 0 && from < len - 1 {
                    self.cursor = from + 1;
                    Repaint::Marker { from, to: from + 1 }
                } else {
                    Repaint::Nothing
                }
            },
            Key::Down => {
                let from = self.cursor;
                if from > 0 {
                    self.cursor = from - 1;
                    Repaint::Marker { from, to: from - 1 }
                } else {
                    Repaint::Nothing
                }
            },
            Key::Enter => {
                self.phase = Phase::Committed;
                Repaint::Finished
            },
            Key::Cancel => {
                self.phase = Phase::Cancelled;
                Repaint::Finished
            },
        };
        proof {
            use_type_invariant(&*self);
        }
        repaint
    }

    /// Handles a run of key events, one after the other.
    pub fn feed(&mut self, keys: &Vec<Key>)
        ensures
            final(self)@ == after_keys(old(self)@, keys@),
            final(self)@.cursor_in_range(),
    {
        let mut i: usize = 0;
        proof {
            use_type_invariant(&*self);
        }
        while i < keys.len()
            invariant
                i <= keys.len(),
                self@ == after_keys(old(self)@, keys@.subrange(0, i as int)),
                self@.cursor_in_range(),
            decreases keys.len() - i,
        {
            let _ = self.step(keys[i]);
            assert(keys@.subrange(0, i + 1).drop_last() =~= keys@.subrange(0, i as int));
            i += 1;
        }
        assert(keys@.subrange(0, i as int) =~= keys@);
    }

    /// The indices chosen: the candidate under the cursor where enter was
    /// pressed on a ranking that is not empty, and nothing otherwise.
    pub fn result(&self) -> (chosen: Vec<usize>)
        ensures
            indices(chosen@) == result_spec(self@),
    {
        proof {
            use_type_invariant(self);
        }
        let mut chosen: Vec<usize> = Vec::new();
        let matches = self.matcher.get_matches();
        match self.phase {
            Phase::Committed => {
                if self.cursor < matches.len() {
                    chosen.push(matches[self.cursor].candidate_index);
                }
            },
            _ => {},
        }
        assert(indices(chosen@) =~= result_spec(self@));
        chosen
    }
}

} // verus!
