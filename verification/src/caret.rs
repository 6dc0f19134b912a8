//! The caret: a position in a buffer, in buffer coordinates, and the
//! requests that move it.

use crate::buffer::{cells_of, Buffer};
use crate::layout::{
    column_at, landing, lemma_column_at, lemma_column_at_unique, lemma_span_grows,
    screen_column_of, screen_length, span,
};
use vstd::prelude::*;

verus! {

/// A request to move the caret.
#[derive(Clone, Copy, PartialEq, Eq, Debug, Structural)]
pub enum Adjustment {
    /// To the line above, keeping the screen column as far as that line allows.
    LineUp,
    /// To the line below, keeping the screen column as far as that line allows.
    LineDown,
    /// To the next character of the line, but not past the last one.
    CharNext,
    /// To the previous character of the line.
    CharPrev,
    /// To the given line and column, which the caller answers for.
    Place(usize, usize),
}

/// A caret. While its position is in buffer coordinates, the column that it
/// remembers across vertical moves is in screen cells.
#[derive(Clone, Copy)]
pub struct Caret {
    line: usize,
    column: usize,
    saved_column: Option<usize>,
}

/// What a caret holds, as numbers without a bound.
pub struct CaretState {
    /// The index of the caret's line.
    pub line: nat,
    /// The count of characters before the caret on its line.
    pub column: nat,
    /// The screen column that vertical moves aim for, while there is one.
    pub saved_column: Option<nat>,
}

/// The screen column of a buffer column on a line of a buffer: the width of
/// the characters before it. On a line that the buffer does not have it is
/// the first column.
pub open spec fn screen_column_in(lines: Seq<Seq<nat>>, line: nat, column: nat) -> nat {
    if line < lines.len() {
        screen_column_of(lines[line as int], column)
    } else {
        0
    }
}

/// The buffer column of a screen column on a line of a buffer, where the
/// buffer has that line.
pub open spec fn buffer_column_in(lines: Seq<Seq<nat>>, line: nat, screen_column: nat) -> Option<
    nat,
> {
    if line < lines.len() {
        Some(column_at(lines[line as int], screen_column))
    } else {
        None
    }
}

/// The column of the last character of a line of `length` characters, and
/// the first column where the line is empty.
pub open spec fn last_column(length: nat) -> nat {
    if length == 0 {
        0
    } else {
        (length - 1) as nat
    }
}

impl CaretState {
    /// The caret stands on a line of the buffer, on one of its characters or
    /// at its end.
    pub open spec fn valid_in(self, lines: Seq<Seq<nat>>) -> bool {
        &&& self.line < lines.len()
        &&& self.column <= lines[self.line as int].len()
    }

    /// The screen column that a vertical move aims for: the remembered one,
    /// or else the one at which the caret stands.
    pub open spec fn desired_column(self, lines: Seq<Seq<nat>>) -> nat {
        match self.saved_column {
            Some(column) => column,
            None => screen_column_in(lines, self.line, self.column),
        }
    }

    /// The caret after a vertical move to `to_line`. It lands on the character
    /// that covers the desired screen column, or on the line's last screen
    /// column where the line is too short, and remembers the desired column
    /// unless its new column is that very number.
    pub open spec fn moved_to_line(self, to_line: nat, lines: Seq<Seq<nat>>) -> CaretState
        recommends
            to_line < lines.len(),
    {
        let desired = self.desired_column(lines);
        let column = landing(lines[to_line as int], desired);
        CaretState {
            line: to_line,
            column,
            saved_column: if column == desired {
                None
            } else {
                Some(desired)
            },
        }
    }

    /// The caret after a move within its line to `column`: where that is its
    /// column already, nothing changes; else it forgets the saved column.
    pub open spec fn moved_to_column(self, column: nat) -> CaretState {
        if column == self.column {
            self
        } else {
            CaretState { line: self.line, column, saved_column: None }
        }
    }

    /// The caret after a request.
    pub open spec fn adjusted(self, adjustment: Adjustment, lines: Seq<Seq<nat>>) -> CaretState
        recommends
            adjustment is Place || adjustment is CharPrev || self.line < lines.len(),
    {
        match adjustment {
            Adjustment::CharPrev => self.moved_to_column(
                if self.column == 0 {
                    0
                } else {
                    (self.column - 1) as nat
                },
            ),
            Adjustment::CharNext => {
                let last = last_column(lines[self.line as int].len());
                self.moved_to_column(
                    if self.column < last {
                        self.column + 1
                    } else {
                        last
                    },
                )
            },
            Adjustment::LineUp => if self.line == 0 {
                self
            } else {
                self.moved_to_line((self.line - 1) as nat, lines)
            },
            Adjustment::LineDown => if self.line + 1 == lines.len() {
                self
            } else {
                self.moved_to_line(self.line + 1, lines)
            },
            Adjustment::Place(line, column) => CaretState {
                line: line as nat,
                column: column as nat,
                saved_column: None,
            },
        }
    }
}

impl View for Caret {
    type V = CaretState;

    closed spec fn view(&self) -> CaretState {
        CaretState {
            line: self.line as nat,
            column: self.column as nat,
            saved_column: match self.saved_column {
                Some(column) => Some(column as nat),
                None => None,
            },
        }
    }
}

impl Caret {
    /// A caret at the start of the first line.
    pub fn new() -> (caret: Caret)
        ensures
            caret@ == (CaretState { line: 0, column: 0, saved_column: None }),
    {
        Caret { line: 0, column: 0, saved_column: None }
    }

    /// The index of the caret's line.
    pub fn line(&self) -> (line: usize)
        ensures
            line == self@.line,
    {
        self.line
    }

    /// The caret's column, in characters.
    pub fn column(&self) -> (column: usize)
        ensures
            column == self@.column,
    {
        self.column
    }

    /// The screen column that vertical moves aim for, while one is
    /// remembered.
    pub fn saved_column(&self) -> (saved: Option<usize>)
        ensures
            match saved {
                Some(column) => self@.saved_column == Some(column as nat),
                None => self@.saved_column is None,
            },
    {
        self.saved_column
    }

    /// Moves the caret as `adjustment` asks, on the lines of `buffer`.
    ///
    /// `CharPrev` and `CharNext` step to the neighbouring character and stop
    /// at the first and at the last one of the line. `LineUp` and `LineDown`
    /// go to the neighbouring line and land where the desired screen column
    /// is, or as near as the line allows, and then remember that column.
    /// `Place` goes where it is told and forgets the saved column, always.
    /// A request of the other four that cannot move the caret leaves it as it
    /// was, the saved column too.
    ///
    /// `CharNext`, `LineUp` and `LineDown` look at the caret's line, which
    /// the buffer has to have.
    pub fn adjust(&mut self, adjustment: Adjustment, buffer: &Buffer)
        requires
            adjustment is Place || adjustment is CharPrev || old(self)@.line < buffer@.len(),
        ensures
            final(self)@ == old(self)@.adjusted(adjustment, buffer@),
            adjustment is Place ==> final(self)@ == (CaretState {
                line: adjustment->Place_0 as nat,
                column: adjustment->Place_1 as nat,
                saved_column: None,
            }),
            adjustment is LineUp && old(self)@.line == 0 ==> final(self)@ == old(self)@,
            adjustment is LineDown && old(self)@.line + 1 == buffer@.len() ==> final(self)@ == old(
                self,
            )@,
            !(adjustment is Place) && old(self)@.valid_in(buffer@) ==> final(self)@.valid_in(
                buffer@,
            ),
            final(self)@.line == old(self)@.line && final(self)@.column == old(self)@.column
                && !(adjustment is Place) ==> final(self)@ == old(self)@,
    {
        match adjustment {
            Adjustment::CharPrev => {
                if self.column > 0 {
                    self.column = self.column - 1;
                    self.saved_column = None;
                }
            },
            Adjustment::CharNext => {
                let length = match buffer.line_length(self.line) {
                    Some(length) => length,
                    None => 0,
                };
                let last = if length == 0 {
                    0
                } else {
                    length - 1
                };
                let column = if self.column < last {
                    self.column + 1
                } else {
                    last
                };
                if column != self.column {
                    self.column = column;
                    self.saved_column = None;
                }
            },
            Adjustment::LineUp => {
                if self.line != 0 {
                    let moved = self.vertical_caret_movement(self.line - 1, buffer);
                    *self = moved;
                }
            },
            Adjustment::LineDown => {
                let last_line = buffer.num_lines() - 1;
                if self.line != last_line {
                    let moved = self.vertical_caret_movement(self.line + 1, buffer);
                    *self = moved;
                }
            },
            Adjustment::Place(line, column) => {
                self.line = line;
                self.column = column;
                self.saved_column = None;
            },
        }
    }

    /// The caret after a vertical move to `to_line`, which keeps the column
    /// to the characters that the line has on screen.
    fn vertical_caret_movement(&self, to_line: usize, buffer: &Buffer) -> (moved: Caret)
        requires
            to_line < buffer@.len(),
        ensures
            moved@ == self@.moved_to_line(to_line as nat, buffer@),
            moved@.valid_in(buffer@),
    {
        let ghost cells = buffer@[to_line as int];
        let to_line_length = match buffer.line_length(to_line) {
            Some(length) => length,
            None => 0,
        };
        let to_line_screen_length = buffer_to_screen_column(to_line, to_line_length, buffer);
        let max_column = if to_line_screen_length == 0 {
            0
        } else {
            to_line_screen_length - 1
        };
        let desired_column = match self.saved_column {
            Some(column) => column,
            None => buffer_to_screen_column(self.line, self.column, buffer),
        };
        let screen_column = if desired_column < max_column {
            desired_column
        } else {
            max_column
        };
        let buffer_column = match screen_to_buffer_column(to_line, screen_column, buffer) {
            Some(column) => column,
            None => 0,
        };
        proof {
            lemma_column_at(cells, screen_column as nat);
        }
        Caret {
            line: to_line,
            column: buffer_column,
            saved_column: if buffer_column == desired_column {
                None
            } else {
                Some(desired_column)
            },
        }
    }
}

/// Sums up the widths of the characters before the given buffer column. On a
/// line that the buffer does not have, the sum is zero.
pub fn buffer_to_screen_column(line: usize, column: usize, buffer: &Buffer) -> (screen_column:
    usize)
    ensures
        screen_column == screen_column_in(buffer@, line as nat, column as nat),
{
    match buffer.line_cells(line) {
        None => 0,
        Some(widths) => {
            let ghost cells = cells_of(widths@);
            let end = if column < widths.len() {
                column
            } else {
                widths.len()
            };
            let mut sum: usize = 0;
            let mut i: usize = 0;
            while i < end
                invariant
                    cells == cells_of(widths@),
                    i <= end <= widths.len(),
                    sum == span(cells, i as nat),
                    screen_length(cells) <= usize::MAX,
                decreases end - i,
            {
                proof {
                    lemma_span_grows(cells, (i + 1) as nat, cells.len());
                }
                sum = sum + widths[i];
                i = i + 1;
            }
            sum
        },
    }
}

/// Scans a line, counting characters up to the given screen column: as many
/// as take up no more than `screen_column` cells together. There is no count
/// on a line that the buffer does not have.
pub fn screen_to_buffer_column(row: usize, screen_column: usize, buffer: &Buffer) -> (column:
    Option<usize>)
    ensures
        match column {
            Some(column) => buffer_column_in(buffer@, row as nat, screen_column as nat) == Some(
                column as nat,
            ),
            None => buffer_column_in(buffer@, row as nat, screen_column as nat) is None,
        },
{
    match buffer.line_cells(row) {
        None => None,
        Some(widths) => {
            let ghost cells = cells_of(widths@);
            let mut sum: usize = 0;
            let mut i: usize = 0;
            while i < widths.len()
                invariant
                    row < buffer@.len(),
                    cells == buffer@[row as int],
                    cells == cells_of(widths@),
                    i <= widths.len(),
                    sum == span(cells, i as nat),
                    sum <= screen_column,
                    screen_length(cells) <= usize::MAX,
                decreases widths.len() - i,
            {
                proof {
                    lemma_span_grows(cells, (i + 1) as nat, cells.len());
                }
                let next = sum + widths[i];
                if next > screen_column {
                    proof {
                        lemma_column_at_unique(cells, screen_column as nat, i as nat);
                    }
                    return Some(i);
                }
                sum = next;
                i = i + 1;
            }
            proof {
                lemma_column_at_unique(cells, screen_column as nat, i as nat);
            }
            Some(i)
        },
    }
}

} // verus!
