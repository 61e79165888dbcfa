//! The renderer's layout: which line of the terminal shows what. The front end
//! turns each [`Paint`] into cursor moves and text.
//!
//! The two lowest rows are reserved: the last one for the prompt with the
//! search term, the one above it for the `matches/total` counter. The rows
//! above them list the ranking from the bottom up, so that the best match
//! stands right above the counter, and the cursor counts rows from there.

use vstd::prelude::*;
use crate::controller::{clamp_cursor, Picker, Repaint};
use crate::engine::{ranked_view, MatchResult, MatchView};

verus! {

/// The size of the terminal, in character cells.
#[derive(Clone, Copy, Debug, PartialEq, Eq, Structural)]
pub struct TerminalGeometry {
    pub width: u16,
    pub height: u16,
}

/// One thing to paint. Every variant but the two marker ones clears its row
/// first; rows count from 0 at the top.
#[derive(Clone, Copy, Debug, PartialEq, Eq, Structural)]
pub enum Paint {
    /// The text of a candidate, behind room for the marker.
    Entry { row: u16, candidate_index: usize },
    /// An empty list row.
    Blank { row: u16 },
    /// The counter: how many candidates match, of how many.
    Counter { row: u16, matches: usize, total: usize },
    /// The prompt with the search term.
    Prompt { row: u16 },
    /// The selection marker at the start of a list row.
    Marker { row: u16 },
    /// The start of a list row without the marker.
    Unmark { row: u16 },
}

/// How many rows list candidates: the height less the two reserved rows.
pub open spec fn visible_rows_spec(geometry: TerminalGeometry) -> int {
    if geometry.height >= 2 {
        geometry.height - 2
    } else {
        0
    }
}

/// What list row `row` shows: entry `visible - 1 - row` of the ranking, or
/// nothing where the ranking is shorter.
pub open spec fn list_row(ranked: Seq<MatchView>, visible: int, row: int) -> Paint {
    let k = visible - 1 - row;
    if k < ranked.len() {
        Paint::Entry { row: row as u16, candidate_index: ranked[k].candidate_index as usize }
    } else {
        Paint::Blank { row: row as u16 }
    }
}

/// The list rows from the top down: the top `visible` entries of the ranking,
/// the best one lowest.
pub open spec fn list_spec(ranked: Seq<MatchView>, geometry: TerminalGeometry) -> Seq<Paint> {
    Seq::new(
        visible_rows_spec(geometry) as nat,
        |row: int| list_row(ranked, visible_rows_spec(geometry), row),
    )
}

/// The reserved rows, as far as the terminal has room for them.
pub open spec fn footer_spec(geometry: TerminalGeometry, matches: int, total: int) -> Seq<Paint> {
    if geometry.height >= 2 {
        seq![
            Paint::Counter {
                row: (geometry.height - 2) as u16,
                matches: matches as usize,
                total: total as usize,
            },
            Paint::Prompt { row: (geometry.height - 1) as u16 },
        ]
    } else if geometry.height == 1 {
        seq![Paint::Prompt { row: 0 }]
    } else {
        Seq::empty()
    }
}

/// The row of the selection marker: the row of the entry under the cursor,
/// the cursor pulled back into the ranking and into the rows that are shown.
/// There is none where nothing is listed.
pub open spec fn marker_row_spec(geometry: TerminalGeometry, cursor: int, len: int) -> Option<u16> {
    let visible = visible_rows_spec(geometry);
    if len <= 0 || visible == 0 {
        None
    } else {
        Some((visible - 1 - clamp_cursor(clamp_cursor(cursor, len), visible)) as u16)
    }
}

/// The marker on its row, if it has one.
pub open spec fn marker_spec(geometry: TerminalGeometry, cursor: int, len: int) -> Seq<Paint> {
    match marker_row_spec(geometry, cursor, len) {
        Some(row) => seq![Paint::Marker { row }],
        None => Seq::empty(),
    }
}

/// Taking the marker off the row of `from` and putting it on the row of `to`.
pub open spec fn marker_move_spec(
    geometry: TerminalGeometry,
    from: int,
    to: int,
    len: int,
) -> Seq<Paint> {
    match (marker_row_spec(geometry, from, len), marker_row_spec(geometry, to, len)) {
        (Some(old_row), Some(new_row)) => seq![
            Paint::Unmark { row: old_row },
            Paint::Marker { row: new_row },
        ],
        _ => Seq::empty(),
    }
}

/// A whole frame: the list, the reserved rows, then the marker.
pub open spec fn frame_spec(
    ranked: Seq<MatchView>,
    total: int,
    cursor: int,
    geometry: TerminalGeometry,
) -> Seq<Paint> {
    list_spec(ranked, geometry) + footer_spec(geometry, ranked.len() as int, total) + marker_spec(
        geometry,
        cursor,
        ranked.len() as int,
    )
}

/// What is to be painted for a [`Repaint`] in state `ranked`, `total`, `cursor`.
pub open spec fn repaint_spec(
    what: Repaint,
    ranked: Seq<MatchView>,
    total: int,
    cursor: int,
    geometry: TerminalGeometry,
) -> Seq<Paint> {
    match what {
        Repaint::All => frame_spec(ranked, total, cursor, geometry),
        Repaint::Marker { from, to } => marker_move_spec(
            geometry,
            from as int,
            to as int,
            ranked.len() as int,
        ),
        Repaint::Nothing | Repaint::Finished => Seq::empty(),
    }
}

/// Every marker row is a list row.
pub proof fn lemma_marker_is_on_list_row(geometry: TerminalGeometry, cursor: int, len: int)
    requires
        0 <= cursor,
    ensures
        match marker_row_spec(geometry, cursor, len) {
            Some(row) => 0 <= row < visible_rows_spec(geometry) && visible_rows_spec(geometry) - 1
                - row < len,
            None => len <= 0 || visible_rows_spec(geometry) == 0,
        },
{
}

/// Where the cursor points at an entry that is shown, the marker stands on the
/// row of that entry.
pub proof fn lemma_marker_marks_cursor(
    ranked: Seq<MatchView>,
    cursor: int,
    geometry: TerminalGeometry,
)
    requires
        0 <= cursor < ranked.len(),
        cursor < visible_rows_spec(geometry),
    ensures
        marker_row_spec(geometry, cursor, ranked.len() as int) is Some,
        list_spec(ranked, geometry)[marker_row_spec(
            geometry,
            cursor,
            ranked.len() as int,
        ).unwrap() as int] == (Paint::Entry {
            row: marker_row_spec(geometry, cursor, ranked.len() as int).unwrap(),
            candidate_index: ranked[cursor].candidate_index as usize,
        }),
{
}

/// How many rows list candidates.
pub fn visible_rows(geometry: TerminalGeometry) -> (rows: u16)
    ensures
        rows == visible_rows_spec(geometry),
{
    if geometry.height >= 2 {
        geometry.height - 2
    } else {
        0
    }
}

/// The row of the selection marker for a cursor in a ranking of `len` entries.
pub fn marker_row(geometry: TerminalGeometry, cursor: usize, len: usize) -> (row: Option<u16>)
    ensures
        row == marker_row_spec(geometry, cursor as int, len as int),
{
    let visible = visible_rows(geometry);
    if len == 0 || visible == 0 {
        None
    } else {
        let in_ranking = if cursor >= len {
            len - 1
        } else {
            cursor
        };
        let last_row = visible - 1;
        let in_window: u16 = if in_ranking >= visible as usize {
            last_row
        } else {
            in_ranking as u16
        };
        Some(last_row - in_window)
    }
}

/// The list rows for a ranking, from the top down.
pub fn list_rows(matches: &Vec<MatchResult>, geometry: TerminalGeometry) -> (paints: Vec<Paint>)
    ensures
        paints@ == list_spec(ranked_view(matches@), geometry),
{
    let visible = visible_rows(geometry);
    let mut paints: Vec<Paint> = Vec::new();
    let mut row: u16 = 0;
    while row < visible
        invariant
            row <= visible,
            visible == visible_rows_spec(geometry),
            paints@ =~= Seq::new(
                row as nat,
                |r: int| list_row(ranked_view(matches@), visible as int, r),
            ),
        decreases visible - row,
    {
        let k = (visible - 1 - row) as usize;
        if k < matches.len() {
            paints.push(Paint::Entry { row, candidate_index: matches[k].candidate_index });
        } else {
            paints.push(Paint::Blank { row });
        }
        row += 1;
    }
    paints
}

/// The reserved rows: the counter and the prompt.
pub fn footer(geometry: TerminalGeometry, matches: usize, total: usize) -> (paints: Vec<Paint>)
    ensures
        paints@ == footer_spec(geometry, matches as int, total as int),
{
    let mut paints: Vec<Paint> = Vec::new();
    if geometry.height >= 2 {
        paints.push(Paint::Counter { row: geometry.height - 2, matches, total });
        paints.push(Paint::Prompt { row: geometry.height - 1 });
    } else if geometry.height == 1 {
        paints.push(Paint::Prompt { row: 0 });
    }
    assert(paints@ =~= footer_spec(geometry, matches as int, total as int));
    paints
}

/// A whole frame for the picker's state: the list, the counter, the prompt
/// and the marker.
pub fn frame(picker: &Picker, geometry: TerminalGeometry) -> (paints: Vec<Paint>)
    ensures
        paints@ == frame_spec(
            picker@.ranked(),
            picker@.candidates.len() as int,
            picker@.cursor,
            geometry,
        ),
{
    let matcher = picker.matcher();
    let matches = matcher.get_matches();
    let total = matcher.get_selections().len();
    let mut paints = list_rows(matches, geometry);
    let mut below = footer(geometry, matches.len(), total);
    paints.append(&mut below);
    match marker_row(geometry, picker.cursor(), matches.len()) {
        Some(row) => {
            paints.push(Paint::Marker { row });
        },
        None => {},
    }
    assert(paints@ =~= frame_spec(
        picker@.ranked(),
        picker@.candidates.len() as int,
        picker@.cursor,
        geometry,
    ));
    paints
}

/// What the front end has to paint after a key was handled: `what` is the
/// answer of [`Picker::step`], `picker` the state after it.
pub fn repaint(picker: &Picker, what: Repaint, geometry: TerminalGeometry) -> (paints: Vec<Paint>)
    ensures
        paints@ == repaint_spec(
            what,
            picker@.ranked(),
            picker@.candidates.len() as int,
            picker@.cursor,
            geometry,
        ),
{
    match what {
        Repaint::All => frame(picker, geometry),
        Repaint::Marker { from, to } => {
            let len = picker.matcher().get_matches().len();
            let mut paints: Vec<Paint> = Vec::new();
            match (marker_row(geometry, from, len), marker_row(geometry, to, len)) {
                (Some(old_row), Some(new_row)) => {
                    paints.push(Paint::Unmark { row: old_row });
                    paints.push(Paint::Marker { row: new_row });
                },
                _ => {},
            }
            assert(paints@ =~= marker_move_spec(geometry, from as int, to as int, len as int));
            paints
        },
        _ => Vec::new(),
    }
}

} // verus!
