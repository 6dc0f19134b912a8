//! The lines of a text buffer, as far as a caret needs to know them.

use crate::layout::{lemma_span_grows, screen_length, span};
use crate::width::{cell_width, cell_width_of};
use vstd::prelude::*;

verus! {

/// The lines of a text buffer as a caret sees them: for each line the width,
/// in screen cells, of each of its characters. The line terminator is no
/// character of its line.
pub struct Buffer {
    lines: Vec<Vec<usize>>,
}

/// The cells of one line, as numbers without a bound.
pub open spec fn cells_of(widths: Seq<usize>) -> Seq<nat> {
    Seq::new(widths.len(), |i: int| widths[i] as nat)
}

/// The lines of a buffer, as sequences of cells.
pub open spec fn lines_of(lines: Seq<Vec<usize>>) -> Seq<Seq<nat>> {
    Seq::new(lines.len(), |i: int| cells_of(lines[i]@))
}

/// What a buffer's lines have to meet: there is at least one line, and the
/// screen length of each line is a number that the machine can hold.
pub open spec fn well_formed(lines: Seq<Seq<nat>>) -> bool {
    &&& lines.len() >= 1
    &&& forall|i: int| 0 <= i < lines.len() ==> screen_length(#[trigger] lines[i]) <= usize::MAX
}

/// The lines of a text: what stands before, between and after its line
/// feeds. A text without a line feed is one line.
pub open spec fn text_lines(text: Seq<char>) -> Seq<Seq<char>>
    decreases text.len(),
{
    if text.len() == 0 {
        seq![Seq::empty()]
    } else if text.last() == '\n' {
        text_lines(text.drop_last()).push(Seq::empty())
    } else {
        let before = text_lines(text.drop_last());
        before.drop_last().push(before.last().push(text.last()))
    }
}

/// Lines put together again, with a line feed between each two.
pub open spec fn joined(lines: Seq<Seq<char>>) -> Seq<char>
    decreases lines.len(),
{
    if lines.len() == 0 {
        Seq::empty()
    } else if lines.len() == 1 {
        lines[0]
    } else {
        joined(lines.drop_last()).push('\n') + lines.last()
    }
}

/// Splitting a text into lines loses nothing and leaves no line feed in a
/// line: the lines, joined by line feeds, are the text.
pub proof fn text_lines_join_to_the_text(text: Seq<char>)
    ensures
        text_lines(text).len() >= 1,
        joined(text_lines(text)) == text,
        forall|i: int, j: int|
            0 <= i < text_lines(text).len() && 0 <= j < text_lines(text)[i].len()
                ==> text_lines(text)[i][j] != '\n',
    decreases text.len(),
{
    if text.len() > 0 {
        let shorter = text.drop_last();
        let before = text_lines(shorter);
        let lines = text_lines(text);
        text_lines_join_to_the_text(shorter);
        assert(shorter.push(text.last()) =~= text);
        if text.last() == '\n' {
            assert(lines.drop_last() =~= before);
            assert(joined(lines) =~= text);
        } else {
            if before.len() > 1 {
                assert(lines.drop_last() =~= before.drop_last());
            }
            assert(joined(lines) =~= text);
        }
    } else {
        assert(joined(text_lines(text)) =~= text);
    }
}

/// The cells of a run of characters: the width of each.
pub open spec fn widths_of(chars: Seq<char>) -> Seq<nat> {
    Seq::new(chars.len(), |i: int| cell_width(chars[i]))
}

/// The lines of a text, as sequences of cells.
pub open spec fn layout_of(text: Seq<char>) -> Seq<Seq<nat>> {
    Seq::new(text_lines(text).len(), |i: int| widths_of(text_lines(text)[i]))
}

/// How the layout of a text grows with one more character: a line feed opens
/// a new line, and any other character adds its cell to the last line.
pub proof fn lemma_layout_grows(text: Seq<char>, c: char)
    ensures
        layout_of(text).len() >= 1,
        c == '\n' ==> layout_of(text.push(c)) == layout_of(text).push(Seq::empty()),
        c != '\n' ==> layout_of(text.push(c)) == layout_of(text).drop_last().push(
            layout_of(text).last().push(cell_width(c)),
        ),
{
    text_lines_join_to_the_text(text);
    let longer = text.push(c);
    assert(longer.drop_last() =~= text);
    if c == '\n' {
        assert(layout_of(longer) =~~= layout_of(text).push(Seq::empty()));
    } else {
        let before = text_lines(text);
        assert(widths_of(before.last().push(c)) =~= widths_of(before.last()).push(
            cell_width(c),
        ));
        assert(layout_of(longer) =~= layout_of(text).drop_last().push(
            layout_of(text).last().push(cell_width(c)),
        ));
    }
}

impl View for Buffer {
    type V = Seq<Seq<nat>>;

    closed spec fn view(&self) -> Seq<Seq<nat>> {
        lines_of(self.lines@)
    }
}

/// Tells whether the screen length of a line fits the machine's numbers.
fn fits(widths: &Vec<usize>) -> (ok: bool)
    ensures
        ok == (screen_length(cells_of(widths@)) <= usize::MAX),
{
    let ghost cells = cells_of(widths@);
    let mut sum: usize = 0;
    let mut i: usize = 0;
    while i < widths.len()
        invariant
            i <= widths.len(),
            cells == cells_of(widths@),
            sum == span(cells, i as nat),
        decreases widths.len() - i,
    {
        if widths[i] > usize::MAX - sum {
            proof {
                lemma_span_grows(cells, (i + 1) as nat, cells.len());
            }
            return false;
        }
        sum = sum + widths[i];
        i = i + 1;
    }
    true
}

impl Buffer {
    #[verifier::type_invariant]
    closed spec fn inv(self) -> bool {
        well_formed(self@)
    }

    /// A buffer of the lines whose cells are given. There is none where no
    /// line is given, or where a line is wider than the machine can count.
    pub fn from_widths(lines: Vec<Vec<usize>>) -> (result: Option<Buffer>)
        ensures
            match result {
                Some(buffer) => buffer@ == lines_of(lines@) && well_formed(buffer@),
                None => !well_formed(lines_of(lines@)),
            },
    {
        if lines.len() == 0 {
            return None;
        }
        let mut i: usize = 0;
        while i < lines.len()
            invariant
                i <= lines.len(),
                forall|k: int|
                    0 <= k < i ==> screen_length(#[trigger] lines_of(lines@)[k]) <= usize::MAX,
            decreases lines.len() - i,
        {
            if !fits(&lines[i]) {
                assert(lines_of(lines@)[i as int] == cells_of(lines[i as int]@));
                return None;
            }
            assert(lines_of(lines@)[i as int] == cells_of(lines[i as int]@));
            i = i + 1;
        }
        Some(Buffer { lines })
    }

    /// A buffer of the lines of a text, each character with the width that
    /// it has on screen. There is none where a line is wider than the machine
    /// can count.
    pub fn from_text(text: &str) -> (result: Option<Buffer>)
        ensures
            match result {
                Some(buffer) => buffer@ == layout_of(text@) && well_formed(buffer@),
                None => !well_formed(layout_of(text@)),
            },
    {
        let mut lines: Vec<Vec<usize>> = Vec::new();
        let mut current: Vec<usize> = Vec::new();
        proof {
            assert(text@.take(0) =~= Seq::<char>::empty());
            assert(lines_of(lines@).push(cells_of(current@)) =~~= layout_of(Seq::empty()));
        }
        for c in it: text.chars()
            invariant
                it.seq() == text@,
                lines_of(lines@).push(cells_of(current@)) == layout_of(
                    text@.take(it.index() as int),
                ),
        {
            let ghost read = text@.take(it.index() as int);
            let ghost closed = lines_of(lines@);
            let ghost open = cells_of(current@);
            proof {
                lemma_layout_grows(read, c);
                assert(text@.take(it.index() + 1) =~= read.push(c));
                assert(closed.push(open).drop_last() =~= closed);
            }
            if c == '\n' {
                lines.push(current);
                current = Vec::new();
                proof {
                    assert(lines_of(lines@) =~= closed.push(open));
                    assert(cells_of(current@) =~= Seq::<nat>::empty());
                }
            } else {
                current.push(cell_width_of(c));
                proof {
                    assert(cells_of(current@) =~= open.push(cell_width(c)));
                }
            }
        }
        proof {
            assert(text@.take(text@.len() as int) =~= text@);
            assert(lines_of(lines@.push(current)) =~= lines_of(lines@).push(cells_of(current@)));
        }
        lines.push(current);
        Buffer::from_widths(lines)
    }

    /// The number of lines, which is never zero.
    pub fn num_lines(&self) -> (n: usize)
        ensures
            n == self@.len(),
            n >= 1,
    {
        proof {
            use_type_invariant(self);
        }
        self.lines.len()
    }

    /// The number of characters of a line, if there is such a line.
    pub fn line_length(&self, line: usize) -> (length: Option<usize>)
        ensures
            match length {
                Some(n) => line < self@.len() && n == self@[line as int].len(),
                None => line >= self@.len(),
            },
    {
        if line < self.lines.len() {
            Some(self.lines[line].len())
        } else {
            None
        }
    }

    /// The cells of a line, if there is such a line.
    pub fn line_cells(&self, line: usize) -> (cells: Option<&Vec<usize>>)
        ensures
            match cells {
                Some(cells) => line < self@.len() && cells_of(cells@) == self@[line as int]
                    && screen_length(self@[line as int]) <= usize::MAX,
                None => line >= self@.len(),
            },
    {
        proof {
            use_type_invariant(self);
        }
        if line < self.lines.len() {
            Some(&self.lines[line])
        } else {
            None
        }
    }
}

} // verus!
