//! Where food may lie, and how a new place for it is picked.
use vstd::prelude::*;
use std::collections::VecDeque;
use rand::Rng;
use crate::grid::{in_interior, Cell};
use crate::snake::contains_cell;

verus! {

/// How many random cells are drawn for one placement before the field is searched
/// in order.
pub const FOOD_SAMPLES: usize = 32;

/// Food may be put on `c`: the cell lies in the interior of the field and the snake
/// does not cover it.
pub open spec fn is_free(body: Seq<Cell>, width: int, height: int, c: Cell) -> bool {
    in_interior(c, width, height) && !body.contains(c)
}

/// `a` is read no later than `b` when the field is read row by row, each row from the
/// left.
pub open spec fn scans_before(a: Cell, b: Cell) -> bool {
    a.y < b.y || (a.y == b.y && a.x <= b.x)
}

/// `c` is free, and no free cell is read before it.
pub open spec fn is_first_free(body: Seq<Cell>, width: int, height: int, c: Cell) -> bool {
    &&& is_free(body, width, height, c)
    &&& forall|o: Cell| #[trigger] is_free(body, width, height, o) ==> scans_before(c, o)
}

/// The first free cell in reading order, if any cell is free.
pub open spec fn first_free(body: Seq<Cell>, width: int, height: int) -> Option<Cell> {
    if exists|c: Cell| is_first_free(body, width, height, c) {
        Some(choose|c: Cell| is_first_free(body, width, height, c))
    } else {
        None
    }
}

/// The first of the candidates that is free, if one is.
pub open spec fn first_free_candidate(
    body: Seq<Cell>,
    width: int,
    height: int,
    candidates: Seq<Cell>,
) -> Option<Cell>
    decreases candidates.len(),
{
    if candidates.len() == 0 {
        None
    } else if is_free(body, width, height, candidates[0]) {
        Some(candidates[0])
    } else {
        first_free_candidate(body, width, height, candidates.drop_first())
    }
}

/// The place for new food: the first free candidate, else the first free cell in
/// reading order, else none, which happens only when the snake covers the interior.
pub open spec fn food_place(
    body: Seq<Cell>,
    width: int,
    height: int,
    candidates: Seq<Cell>,
) -> Option<Cell> {
    match first_free_candidate(body, width, height, candidates) {
        Some(c) => Some(c),
        None => first_free(body, width, height),
    }
}

/// A first free cell is the only one.
pub proof fn lemma_first_free_unique(body: Seq<Cell>, width: int, height: int, a: Cell, b: Cell)
    requires
        is_first_free(body, width, height, a),
        is_first_free(body, width, height, b),
    ensures
        a == b,
{
    assert(scans_before(a, b));
    assert(scans_before(b, a));
}

/// What `first_free` returns is free, and it returns nothing only if nothing is free.
pub proof fn lemma_first_free(body: Seq<Cell>, width: int, height: int)
    ensures
        match first_free(body, width, height) {
            Some(c) => is_first_free(body, width, height, c),
            None => forall|o: Cell| !is_free(body, width, height, o),
        },
{
    if first_free(body, width, height) is None {
        assert forall|o: Cell| !is_free(body, width, height, o) by {
            if is_free(body, width, height, o) {
                lemma_free_cell_has_first(body, width, height, o);
            }
        }
    }
}

/// Where a cell is free, a first free cell exists.
proof fn lemma_free_cell_has_first(body: Seq<Cell>, width: int, height: int, o: Cell)
    requires
        is_free(body, width, height, o),
    ensures
        exists|c: Cell| is_first_free(body, width, height, c),
    decreases o.y, o.x,
{
    if exists|p: Cell| is_free(body, width, height, p) && !scans_before(o, p) {
        let p = choose|p: Cell| is_free(body, width, height, p) && !scans_before(o, p);
        lemma_free_cell_has_first(body, width, height, p);
    } else {
        assert(is_first_free(body, width, height, o));
    }
}

/// What `food_place` returns is free, and it returns nothing only if nothing is free.
pub proof fn lemma_food_place(body: Seq<Cell>, width: int, height: int, candidates: Seq<Cell>)
    ensures
        match food_place(body, width, height, candidates) {
            Some(c) => is_free(body, width, height, c),
            None => forall|o: Cell| !is_free(body, width, height, o),
        },
    decreases candidates.len(),
{
    lemma_first_free(body, width, height);
    if candidates.len() > 0 && !is_free(body, width, height, candidates[0]) {
        lemma_food_place(body, width, height, candidates.drop_first());
    }
}

/// Draws one number with `rand::thread_rng()` and `Rng::gen_range` on the half-open
/// range `low..high`. `gen_range` panics on an empty range, which the precondition
/// excludes; all that is claimed of the number is that it lies in the range.
#[verifier::external_body]
fn random_in_range(low: i32, high: i32) -> (r: i32)
    requires
        low < high,
    ensures
        low <= r < high,
{
    rand::thread_rng().gen_range(low..high)
}

/// Draws `FOOD_SAMPLES` cells at random from the interior of the field.
pub fn random_candidates(width: i32, height: i32) -> (r: Vec<Cell>)
    requires
        width >= 3,
        height >= 3,
    ensures
        r@.len() == FOOD_SAMPLES,
        forall|i: int| 0 <= i < r@.len() ==> in_interior(#[trigger] r@[i], width as int, height as int),
{
    let mut cells: Vec<Cell> = Vec::new();
    let mut n: usize = 0;
    while n < FOOD_SAMPLES
        invariant
            width >= 3,
            height >= 3,
            n <= FOOD_SAMPLES,
            cells@.len() == n,
            forall|i: int|
                0 <= i < cells@.len() ==> in_interior(#[trigger] cells@[i], width as int, height as int),
        decreases FOOD_SAMPLES - n,
    {
        let x = random_in_range(1, width - 1);
        let y = random_in_range(1, height - 1);
        cells.push(Cell { x, y });
        n += 1;
    }
    cells
}

/// Whether food may be put on `c`.
pub fn cell_is_free(body: &VecDeque<Cell>, width: i32, height: i32, c: Cell) -> (r: bool)
    ensures
        r == is_free(body@, width as int, height as int, c),
{
    c.is_in_interior(width, height) && !contains_cell(body, c)
}

/// Searches the interior row by row for a cell that the snake does not cover.
pub fn first_free_cell(body: &VecDeque<Cell>, width: i32, height: i32) -> (r: Option<Cell>)
    ensures
        r == first_free(body@, width as int, height as int),
        r matches Some(c) ==> is_first_free(body@, width as int, height as int, c),
        r is None ==> forall|o: Cell| !is_free(body@, width as int, height as int, o),
{
    proof {
        lemma_first_free(body@, width as int, height as int);
    }
    let ghost w = width as int;
    let ghost h = height as int;
    if width < 3 || height < 3 {
        assert forall|c: Cell| !is_first_free(body@, w, h, c) by {}
        return None;
    }
    let mut y: i32 = 1;
    while y < height - 1
        invariant
            1 <= y,
            width >= 3,
            height >= 3,
            w == width,
            h == height,
            forall|o: Cell| #[trigger] is_free(body@, w, h, o) ==> o.y >= y,
        decreases height - y,
    {
        let mut x: i32 = 1;
        while x < width - 1
            invariant
                1 <= x,
                1 <= y < height - 1,
                width >= 3,
                w == width,
                h == height,
                forall|o: Cell|
                    #[trigger] is_free(body@, w, h, o) ==> o.y > y || (o.y == y && o.x >= x),
            decreases width - x,
        {
            let c = Cell { x, y };
            if !contains_cell(body, c) {
                proof {
                    assert(is_first_free(body@, w, h, c));
                    let chosen = choose|f: Cell| is_first_free(body@, w, h, f);
                    lemma_first_free_unique(body@, w, h, c, chosen);
                }
                return Some(c);
            }
            proof {
                assert forall|o: Cell| #[trigger] is_free(body@, w, h, o) implies o.y > y || (o.y == y
                    && o.x >= x + 1) by {
                    if o.y == y && o.x == x {
                        assert(o == c);
                    }
                }
            }
            x += 1;
        }
        y += 1;
    }
    proof {
        assert forall|c: Cell| !is_first_free(body@, w, h, c) by {
            if is_free(body@, w, h, c) {
                assert(c.y >= y);
            }
        }
    }
    None
}

/// Picks the place for new food: the first free candidate, else the first free cell in
/// reading order.
pub fn place_food(body: &VecDeque<Cell>, width: i32, height: i32, candidates: &[Cell]) -> (r:
    Option<Cell>)
    ensures
        r == food_place(body@, width as int, height as int, candidates@),
        r matches Some(c) ==> is_free(body@, width as int, height as int, c),
        r is None ==> forall|o: Cell| !is_free(body@, width as int, height as int, o),
{
    proof {
        lemma_food_place(body@, width as int, height as int, candidates@);
    }
    let ghost w = width as int;
    let ghost h = height as int;
    let n = candidates.len();
    let mut i: usize = 0;
    assert(candidates@.skip(0) =~= candidates@);
    while i < n
        invariant
            n == candidates@.len(),
            i <= n,
            w == width,
            h == height,
            first_free_candidate(body@, w, h, candidates@) == first_free_candidate(
                body@,
                w,
                h,
                candidates@.skip(i as int),
            ),
        decreases n - i,
    {
        let c = candidates[i];
        assert(candidates@.skip(i as int)[0] == c);
        if cell_is_free(body, width, height, c) {
            return Some(c);
        }
        assert(candidates@.skip(i as int).drop_first() =~= candidates@.skip(i + 1));
        i += 1;
    }
    assert(candidates@.skip(i as int).len() == 0);
    first_free_cell(body, width, height)
}

} // verus!
