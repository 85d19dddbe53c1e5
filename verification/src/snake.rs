//! The snake's body as a sequence of cells, head first.
use vstd::prelude::*;
use vstd::set_lib::{lemma_int_range, lemma_len_subset, set_int_range};
use std::collections::VecDeque;
use crate::grid::{adjacent, in_bounds, Cell};

verus! {

/// The body with which every round opens: three cells in a row, head at `(3, 1)`.
pub open spec fn initial_snake() -> Seq<Cell> {
    seq![Cell { x: 3, y: 1 }, Cell { x: 2, y: 1 }, Cell { x: 1, y: 1 }]
}

/// What holds of the body between any two operations: every cell lies on the field,
/// each cell shares an edge with the one behind it, and no cell occurs twice.
pub open spec fn snake_ok(body: Seq<Cell>, width: int, height: int) -> bool {
    &&& forall|i: int| 0 <= i < body.len() ==> in_bounds(#[trigger] body[i], width, height)
    &&& forall|i: int, j: int|
        0 <= i && j == i + 1 && j < body.len() ==> adjacent(#[trigger] body[i], #[trigger] body[j])
    &&& body.no_duplicates()
}

/// Position of a cell when the field is read row by row.
pub open spec fn cell_rank(c: Cell, width: int) -> int {
    c.y * width + c.x
}

proof fn lemma_rank_in_range(c: Cell, width: int, height: int)
    requires
        in_bounds(c, width, height),
    ensures
        0 <= cell_rank(c, width) < width * height,
{
    assert(0 <= c.y * width && (c.y + 1) * width <= height * width) by (nonlinear_arith)
        requires
            0 <= c.y < height,
            0 < width,
    ;
    assert((c.y + 1) * width == c.y * width + width) by (nonlinear_arith);
    assert(height * width == width * height) by (nonlinear_arith);
}

proof fn lemma_rank_injective(a: Cell, b: Cell, width: int)
    requires
        0 <= a.x < width,
        0 <= b.x < width,
        cell_rank(a, width) == cell_rank(b, width),
    ensures
        a == b,
{
    if a.y < b.y {
        assert((a.y + 1) * width <= b.y * width) by (nonlinear_arith)
            requires
                a.y + 1 <= b.y,
                0 < width,
        ;
        assert((a.y + 1) * width == a.y * width + width) by (nonlinear_arith);
    } else if b.y < a.y {
        assert((b.y + 1) * width <= a.y * width) by (nonlinear_arith)
            requires
                b.y + 1 <= a.y,
                0 < width,
        ;
        assert((b.y + 1) * width == b.y * width + width) by (nonlinear_arith);
    }
}

/// A body without repeated cells cannot be longer than the field has cells.
pub proof fn lemma_snake_fits_grid(body: Seq<Cell>, width: int, height: int)
    requires
        forall|i: int| 0 <= i < body.len() ==> in_bounds(#[trigger] body[i], width, height),
        body.no_duplicates(),
    ensures
        width > 0 && height > 0 ==> body.len() <= width * height,
        body.len() > 0 ==> width > 0 && height > 0,
{
    if body.len() > 0 {
        assert(in_bounds(body[0], width, height));
        let ranks = body.map_values(|c: Cell| cell_rank(c, width));
        assert forall|i: int, j: int|
            0 <= i < ranks.len() && 0 <= j < ranks.len() && i != j implies ranks[i] != ranks[j] by {
            assert(in_bounds(body[i], width, height));
            assert(in_bounds(body[j], width, height));
            if ranks[i] == ranks[j] {
                lemma_rank_injective(body[i], body[j], width);
            }
        }
        ranks.unique_seq_to_set();
        let all = set_int_range(0, width * height);
        assert forall|r: int| ranks.to_set().contains(r) implies all.contains(r) by {
            let i = choose|i: int| 0 <= i < ranks.len() && ranks[i] == r;
            lemma_rank_in_range(body[i], width, height);
        }
        lemma_rank_in_range(body[0], width, height);
        lemma_int_range(0, width * height);
        lemma_len_subset(ranks.to_set(), all);
    }
}

/// Dropping the tail keeps a body sound.
pub proof fn lemma_drop_tail_ok(body: Seq<Cell>, width: int, height: int)
    requires
        snake_ok(body, width, height),
        body.len() > 0,
    ensures
        snake_ok(body.drop_last(), width, height),
{
    let rest = body.drop_last();
    assert forall|i: int| 0 <= i < rest.len() implies in_bounds(#[trigger] rest[i], width, height) by {
        assert(rest[i] == body[i]);
    }
    assert forall|i: int, j: int| 0 <= i && j == i + 1 && j < rest.len() implies adjacent(
        #[trigger] rest[i],
        #[trigger] rest[j],
    ) by {
        assert(rest[i] == body[i] && rest[j] == body[j]);
    }
    assert forall|i: int, j: int|
        0 <= i < rest.len() && 0 <= j < rest.len() && i != j implies rest[i] != rest[j] by {
        assert(rest[i] == body[i] && rest[j] == body[j]);
    }
}

/// A new head that lies on the field, touches the old head and is not part of the body
/// keeps a body sound.
pub proof fn lemma_new_head_ok(body: Seq<Cell>, head: Cell, width: int, height: int)
    requires
        snake_ok(body, width, height),
        in_bounds(head, width, height),
        body.len() > 0 ==> adjacent(head, body[0]),
        !body.contains(head),
    ensures
        snake_ok(seq![head] + body, width, height),
{
    let grown = seq![head] + body;
    assert forall|i: int| 0 <= i < grown.len() implies in_bounds(#[trigger] grown[i], width, height) by {
        if i > 0 {
            assert(grown[i] == body[i - 1]);
        }
    }
    assert forall|i: int, j: int| 0 <= i && j == i + 1 && j < grown.len() implies adjacent(
        #[trigger] grown[i],
        #[trigger] grown[j],
    ) by {
        if i > 0 {
            assert(grown[i] == body[i - 1] && grown[j] == body[j - 1]);
        } else {
            assert(grown[j] == body[0]);
        }
    }
    assert forall|i: int, j: int|
        0 <= i < grown.len() && 0 <= j < grown.len() && i != j implies grown[i] != grown[j] by {
        if i > 0 && j > 0 {
            assert(grown[i] == body[i - 1] && grown[j] == body[j - 1]);
        } else if i > 0 {
            assert(grown[i] == body[i - 1]);
        } else {
            assert(grown[j] == body[j - 1]);
        }
    }
}

/// The opening body is sound on every field that is at least 4 wide and 2 high.
pub proof fn lemma_initial_snake_ok(width: int, height: int)
    requires
        width >= 4,
        height >= 2,
    ensures
        snake_ok(initial_snake(), width, height),
        initial_snake().len() == 3,
{
    let s = initial_snake();
    assert(s[0] == Cell { x: 3, y: 1 } && s[1] == Cell { x: 2, y: 1 } && s[2] == Cell { x: 1, y: 1 });
}

/// Whether `point` is one of the first `end` cells of `body`.
pub fn contains_cell_before(body: &VecDeque<Cell>, end: usize, point: Cell) -> (r: bool)
    requires
        end <= body@.len(),
    ensures
        r == body@.take(end as int).contains(point),
{
    let mut i: usize = 0;
    while i < end
        invariant
            end <= body@.len(),
            i <= end,
            forall|j: int| 0 <= j < i ==> body@[j] != point,
        decreases end - i,
    {
        if body[i] == point {
            assert(body@.take(end as int)[i as int] == point);
            return true;
        }
        i += 1;
    }
    false
}

/// Whether `point` is one of the cells of `body`.
pub fn contains_cell(body: &VecDeque<Cell>, point: Cell) -> (r: bool)
    ensures
        r == body@.contains(point),
{
    assert(body@.take(body@.len() as int) =~= body@);
    contains_cell_before(body, body.len(), point)
}

} // verus!
