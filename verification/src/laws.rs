//! What holds of columns and carets in every buffer.

use crate::caret::{buffer_column_in, screen_column_in, Adjustment, CaretState};
use crate::layout::{
    column_at, landing, last_screen_column, lemma_column_at, lemma_column_at_grows,
    lemma_column_at_unique, lemma_span_grows, screen_length, span,
};
use vstd::prelude::*;

verus! {

/// The buffer column that the screen column of `column` maps back to.
pub open spec fn there_and_back(lines: Seq<Seq<nat>>, line: nat, column: nat) -> Option<nat> {
    buffer_column_in(lines, line, screen_column_in(lines, line, column))
}

/// Mapping a buffer column to the screen and back keeps the order of
/// columns: of two columns of a line, the one further right does not come
/// back further left. On a line that the buffer does not have, nothing comes
/// back.
pub proof fn there_and_back_keeps_order(lines: Seq<Seq<nat>>, line: nat, near: nat, far: nat)
    requires
        near <= far,
    ensures
        line < lines.len() ==> there_and_back(lines, line, near) is Some && there_and_back(
            lines,
            line,
            far,
        ) is Some && there_and_back(lines, line, near)->0 <= there_and_back(lines, line, far)->0,
        line >= lines.len() ==> there_and_back(lines, line, near) is None && there_and_back(
            lines,
            line,
            far,
        ) is None,
{
    if line < lines.len() {
        let cells = lines[line as int];
        if far <= cells.len() {
            lemma_span_grows(cells, near, far);
        } else if near <= cells.len() {
            lemma_span_grows(cells, near, cells.len());
        }
        lemma_column_at_grows(
            cells,
            screen_column_in(lines, line, near),
            screen_column_in(lines, line, far),
        );
    }
}

/// Characters that are all one cell wide take up as many cells as they are.
pub proof fn lemma_span_of_single_cells(cells: Seq<nat>, n: nat)
    requires
        n <= cells.len(),
        forall|i: int| 0 <= i < n ==> cells[i] == 1,
    ensures
        span(cells, n) == n,
    decreases n,
{
    if n > 0 {
        lemma_span_of_single_cells(cells, (n - 1) as nat);
    }
}

/// Where every character of a line up to and with the one at `column` is one
/// cell wide, the column comes back from the screen as it went.
pub proof fn there_and_back_in_single_cells(lines: Seq<Seq<nat>>, line: nat, column: nat)
    requires
        line < lines.len(),
        column <= lines[line as int].len(),
        forall|i: int|
            0 <= i <= column && i < lines[line as int].len() ==> lines[line as int][i] == 1,
    ensures
        screen_column_in(lines, line, column) == column,
        there_and_back(lines, line, column) == Some(column),
{
    let cells = lines[line as int];
    lemma_span_of_single_cells(cells, column);
    if column < cells.len() {
        lemma_span_of_single_cells(cells, column + 1);
    }
    lemma_column_at_unique(cells, column, column);
}

/// A screen column within the cells of a character maps to the column of
/// that character: a caret lands on the character's first cell and never
/// between the two cells of a wide one.
pub proof fn column_of_covering_character(cells: Seq<nat>, column: nat, screen_column: nat)
    requires
        column < cells.len(),
        span(cells, column) <= screen_column < span(cells, column) + cells[column as int],
    ensures
        column_at(cells, screen_column) == column,
{
    lemma_column_at_unique(cells, screen_column, column);
}

/// A vertical move whose desired screen column lies within the cells of a
/// character of the new line lands on that character. For a character two
/// cells wide and a desired column on its second cell, the caret lands
/// directly after the character before it, and the wide one is not split.
pub proof fn vertical_move_lands_on_covering_character(
    caret: CaretState,
    to_line: nat,
    lines: Seq<Seq<nat>>,
    column: nat,
)
    requires
        to_line < lines.len(),
        column < lines[to_line as int].len(),
        span(lines[to_line as int], column) <= caret.desired_column(lines) < span(
            lines[to_line as int],
            column,
        ) + lines[to_line as int][column as int],
    ensures
        caret.moved_to_line(to_line, lines).line == to_line,
        caret.moved_to_line(to_line, lines).column == column,
{
    let cells = lines[to_line as int];
    lemma_span_grows(cells, column + 1, cells.len());
    column_of_covering_character(cells, column, caret.desired_column(lines));
}

/// `CharNext` and then `CharPrev` bring a caret back to its column exactly
/// where it stood at the start of its line or had a character after the one
/// that it stood on. From the last character the caret cannot go on, so that
/// it comes back one column short.
pub proof fn next_then_prev(caret: CaretState, lines: Seq<Seq<nat>>)
    requires
        caret.valid_in(lines),
    ensures
        caret.adjusted(Adjustment::CharNext, lines).adjusted(Adjustment::CharPrev, lines).line
            == caret.line,
        caret.adjusted(Adjustment::CharNext, lines).adjusted(Adjustment::CharPrev, lines).column
            == caret.column <==> caret.column == 0 || caret.column + 1
            < lines[caret.line as int].len(),
{
}

/// `CharPrev` and then `CharNext` bring a caret back to its column exactly
/// where it stood on a character other than the first, or at the start of a
/// line of at most one character. From the end of the line, past the last
/// character, it comes back onto the last character.
pub proof fn prev_then_next(caret: CaretState, lines: Seq<Seq<nat>>)
    requires
        caret.valid_in(lines),
    ensures
        caret.adjusted(Adjustment::CharPrev, lines).adjusted(Adjustment::CharNext, lines).line
            == caret.line,
        caret.adjusted(Adjustment::CharPrev, lines).adjusted(Adjustment::CharNext, lines).column
            == caret.column <==> 1 <= caret.column < lines[caret.line as int].len()
            || caret.column == 0 && lines[caret.line as int].len() <= 1,
{
}

/// Down onto a blank line and up again. A caret that stands on a character
/// with a width, at a screen column other than the first, and that aims for
/// no other screen column than its own, moves down onto a blank line to
/// column 0 and remembers its screen column; moving up again brings it back
/// to the column where it started.
pub proof fn blank_line_and_back(caret: CaretState, lines: Seq<Seq<nat>>)
    requires
        caret.valid_in(lines),
        caret.line + 1 < lines.len(),
        lines[caret.line as int + 1].len() == 0,
        caret.column < lines[caret.line as int].len(),
        lines[caret.line as int][caret.column as int] > 0,
        screen_column_in(lines, caret.line, caret.column) > 0,
        caret.desired_column(lines) == screen_column_in(lines, caret.line, caret.column),
    ensures
        caret.adjusted(Adjustment::LineDown, lines) == (CaretState {
            line: caret.line + 1,
            column: 0,
            saved_column: Some(screen_column_in(lines, caret.line, caret.column)),
        }),
        caret.adjusted(Adjustment::LineDown, lines).adjusted(Adjustment::LineUp, lines).line
            == caret.line,
        caret.adjusted(Adjustment::LineDown, lines).adjusted(Adjustment::LineUp, lines).column
            == caret.column,
{
    let cells = lines[caret.line as int];
    let blank = lines[caret.line as int + 1];
    assert(screen_length(blank) == 0);
    assert(column_at(blank, 0) == 0);
    lemma_span_grows(cells, caret.column + 1, cells.len());
    lemma_column_at_unique(cells, span(cells, caret.column), caret.column);
}

/// The caret stands on a line of the buffer, where a caret lands that aims
/// for its desired screen column.
pub open spec fn settled(caret: CaretState, lines: Seq<Seq<nat>>) -> bool {
    &&& caret.line < lines.len()
    &&& caret.column == landing(lines[caret.line as int], caret.desired_column(lines))
}

/// A caret that remembers no screen column is settled exactly where it
/// stands on a character with a width, or at the end of a line without
/// width. At the end of a line with a width, or on a character without
/// width, it is not.
pub proof fn caret_on_a_character_is_settled(caret: CaretState, lines: Seq<Seq<nat>>)
    requires
        caret.valid_in(lines),
        caret.saved_column is None,
    ensures
        settled(caret, lines) <==> (caret.column < lines[caret.line as int].len()
            && lines[caret.line as int][caret.column as int] > 0) || (caret.column
            == lines[caret.line as int].len() && screen_length(lines[caret.line as int]) == 0),
{
    let cells = lines[caret.line as int];
    let own = span(cells, caret.column);
    lemma_span_grows(cells, caret.column, cells.len());
    lemma_column_at(cells, own);
    lemma_column_at(cells, last_screen_column(cells));
    if caret.column < cells.len() {
        lemma_span_grows(cells, caret.column + 1, cells.len());
    }
    if screen_length(cells) == 0 {
        lemma_column_at_unique(cells, 0, cells.len());
    } else if caret.column < cells.len() && cells[caret.column as int] > 0 {
        lemma_column_at_unique(cells, own, caret.column);
    }
}

/// A vertical move leaves the caret settled on a column of the new line. Its
/// aim is still the same screen column, unless the number of its new column
/// is that of the desired screen column.
pub proof fn vertical_move_settles(caret: CaretState, to_line: nat, lines: Seq<Seq<nat>>)
    requires
        to_line < lines.len(),
    ensures
        caret.moved_to_line(to_line, lines).valid_in(lines),
        settled(caret.moved_to_line(to_line, lines), lines),
        caret.moved_to_line(to_line, lines).column != caret.desired_column(lines)
            ==> caret.moved_to_line(to_line, lines).desired_column(lines) == caret.desired_column(
            lines,
        ),
{
    let cells = lines[to_line as int];
    let desired = caret.desired_column(lines);
    let moved = caret.moved_to_line(to_line, lines);
    let target = if desired < last_screen_column(cells) {
        desired
    } else {
        last_screen_column(cells)
    };
    lemma_column_at(cells, target);
    if moved.column == desired {
        let own = span(cells, moved.column);
        lemma_span_grows(cells, moved.column, cells.len());
        assert(forall|k: nat| moved.column < k <= cells.len() ==> span(cells, k) > own) by {
            assert forall|k: nat| moved.column < k <= cells.len() implies span(cells, k)
                > own by {
                lemma_span_grows(cells, moved.column + 1, k);
            }
        }
        lemma_column_at_unique(cells, own, moved.column);
    }
}

/// A settled caret that moves to another line and back stands in its old
/// column again, as long as it aims for the same screen column on the way.
pub proof fn vertical_move_and_back(caret: CaretState, to_line: nat, lines: Seq<Seq<nat>>)
    requires
        settled(caret, lines),
        to_line < lines.len(),
        caret.moved_to_line(to_line, lines).desired_column(lines) == caret.desired_column(lines),
    ensures
        caret.moved_to_line(to_line, lines).moved_to_line(caret.line, lines).line == caret.line,
        caret.moved_to_line(to_line, lines).moved_to_line(caret.line, lines).column
            == caret.column,
{
}

/// A caret that stands in the buffer still does so after every request but
/// `Place`, which goes where it is told.
pub proof fn adjusted_caret_stays_in_the_buffer(
    caret: CaretState,
    adjustment: Adjustment,
    lines: Seq<Seq<nat>>,
)
    requires
        caret.valid_in(lines),
        !(adjustment is Place),
    ensures
        caret.adjusted(adjustment, lines).valid_in(lines),
{
    if adjustment is LineUp && caret.line > 0 {
        vertical_move_settles(caret, (caret.line - 1) as nat, lines);
    }
    if adjustment is LineDown && caret.line + 1 < lines.len() {
        vertical_move_settles(caret, caret.line + 1, lines);
    }
}

/// A caret at the start of the first line stands in every buffer.
pub proof fn first_position_is_valid(lines: Seq<Seq<nat>>)
    requires
        lines.len() >= 1,
    ensures
        (CaretState { line: 0, column: 0, saved_column: None }).valid_in(lines),
{
}

} // verus!
