//! The arithmetic of one line on screen.
//!
//! A line is laid out as a sequence of cells: one number for each of its
//! characters, the count of screen columns that the character takes up. A
//! buffer column counts characters, a screen column counts the columns that
//! the characters before it take up together.

use vstd::prelude::*;

verus! {

/// The screen columns taken up by the first `n` characters of a line.
pub open spec fn span(cells: Seq<nat>, n: nat) -> nat
    recommends
        n <= cells.len(),
    decreases n,
{
    if n == 0 || n > cells.len() {
        0
    } else {
        span(cells, (n - 1) as nat) + cells[n - 1]
    }
}

/// The screen columns taken up by the whole line.
pub open spec fn screen_length(cells: Seq<nat>) -> nat {
    span(cells, cells.len())
}

/// The screen column of a buffer column: what the characters before it take
/// up. A column past the end of the line stands at the end.
pub open spec fn screen_column_of(cells: Seq<nat>, column: nat) -> nat {
    if column <= cells.len() {
        span(cells, column)
    } else {
        screen_length(cells)
    }
}

/// The largest count of characters, at most `n`, that take up no more than
/// `limit` screen columns.
pub open spec fn reach(cells: Seq<nat>, limit: nat, n: nat) -> nat
    recommends
        n <= cells.len(),
    decreases n,
{
    if n == 0 {
        0
    } else if span(cells, n) <= limit {
        n
    } else {
        reach(cells, limit, (n - 1) as nat)
    }
}

/// The buffer column of a screen column: the largest count of characters
/// that take up no more than `screen_column` columns together.
pub open spec fn column_at(cells: Seq<nat>, screen_column: nat) -> nat {
    reach(cells, screen_column, cells.len())
}

/// The last screen column that a caret can reach on a line: one before the
/// line's screen length, and the first column on a line without width.
pub open spec fn last_screen_column(cells: Seq<nat>) -> nat {
    if screen_length(cells) == 0 {
        0
    } else {
        (screen_length(cells) - 1) as nat
    }
}

/// The buffer column on which a caret lands that aims for the screen column
/// `desired`: that of the character which covers `desired`, or of the one
/// which covers the last screen column where the line is too short.
pub open spec fn landing(cells: Seq<nat>, desired: nat) -> nat {
    if desired < last_screen_column(cells) {
        column_at(cells, desired)
    } else {
        column_at(cells, last_screen_column(cells))
    }
}

/// More characters never take up fewer columns.
pub proof fn lemma_span_grows(cells: Seq<nat>, i: nat, j: nat)
    requires
        i <= j <= cells.len(),
    ensures
        span(cells, i) <= span(cells, j),
    decreases j,
{
    if i < j {
        lemma_span_grows(cells, i, (j - 1) as nat);
    }
}

/// `reach` returns a count within its bound that fits the limit, and every
/// larger count within the bound exceeds the limit.
pub proof fn lemma_reach(cells: Seq<nat>, limit: nat, n: nat)
    requires
        n <= cells.len(),
    ensures
        reach(cells, limit, n) <= n,
        span(cells, reach(cells, limit, n)) <= limit,
        forall|k: nat| reach(cells, limit, n) < k <= n ==> span(cells, k) > limit,
    decreases n,
{
    if n > 0 && span(cells, n) > limit {
        lemma_reach(cells, limit, (n - 1) as nat);
    }
}

/// What `column_at` returns: a column of the line whose screen column is not
/// beyond `screen_column`, while that of the next column, if there is one, is.
pub proof fn lemma_column_at(cells: Seq<nat>, screen_column: nat)
    ensures
        column_at(cells, screen_column) <= cells.len(),
        span(cells, column_at(cells, screen_column)) <= screen_column,
        column_at(cells, screen_column) < cells.len() ==> span(
            cells,
            column_at(cells, screen_column) + 1,
        ) > screen_column,
{
    lemma_reach(cells, screen_column, cells.len());
}

/// `column_at` is the only column of which `lemma_column_at` holds.
pub proof fn lemma_column_at_unique(cells: Seq<nat>, screen_column: nat, column: nat)
    requires
        column <= cells.len(),
        span(cells, column) <= screen_column,
        column < cells.len() ==> span(cells, column + 1) > screen_column,
    ensures
        column_at(cells, screen_column) == column,
{
    let found = column_at(cells, screen_column);
    lemma_reach(cells, screen_column, cells.len());
    if found < column {
        assert(span(cells, column) > screen_column);
    } else if found > column {
        lemma_span_grows(cells, column + 1, found);
    }
}

/// A screen column further right never maps to a buffer column further left.
pub proof fn lemma_column_at_grows(cells: Seq<nat>, near: nat, far: nat)
    requires
        near <= far,
    ensures
        column_at(cells, near) <= column_at(cells, far),
{
    let a = column_at(cells, near);
    let b = column_at(cells, far);
    lemma_reach(cells, near, cells.len());
    lemma_reach(cells, far, cells.len());
    if b < a {
        assert(span(cells, a) > far);
    }
}

} // verus!
