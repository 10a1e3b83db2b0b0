//! The grid model: a `width` by `height` arena stored row by row, so that the
//! cell `(x, y)` sits at the flat index `x + y * width`.
//!
//! In contracts an arena is a `Seq<ObjectType>` together with its two
//! dimensions. This module holds the indexing and counting vocabulary that
//! the rest of the library states its contracts in, and the lemmas about it.

use vstd::prelude::*;
use crate::enums::ObjectType;

verus! {

/// The largest width and the largest height an arena may have. Coordinates
/// and displacements are exchanged as `i16`.
pub const MAX_SIDE: usize = 32767;

/// The flat index of the cell `(x, y)`.
pub open spec fn cell_index(x: int, y: int, width: int) -> int {
    x + y * width
}

/// Whether `(x, y)` names a cell of the arena.
pub open spec fn inside(x: int, y: int, width: int, height: int) -> bool {
    0 <= x < width && 0 <= y < height
}

/// Whether `cells` is the content of a `width` by `height` arena that the
/// engine can work on.
pub open spec fn is_arena(cells: Seq<ObjectType>, width: int, height: int) -> bool {
    &&& 1 <= width <= MAX_SIDE
    &&& 1 <= height <= MAX_SIDE
    &&& cells.len() == width * height
}

/// How many cells hold `what`.
pub open spec fn count(cells: Seq<ObjectType>, what: ObjectType) -> nat
    decreases cells.len(),
{
    if cells.len() == 0 {
        0
    } else {
        count(cells.drop_last(), what) + if cells.last() == what {
            1nat
        } else {
            0nat
        }
    }
}

/// How many robots of either kind stand in the arena.
pub open spec fn robots(cells: Seq<ObjectType>) -> nat {
    count(cells, ObjectType::Robot1) + count(cells, ObjectType::Robot2)
}

/// An arena of `n` cells with nothing in it.
pub open spec fn empty_cells(n: nat) -> Seq<ObjectType> {
    Seq::new(n, |i: int| ObjectType::Empty)
}

/// A cell inside the arena has an index inside the sequence.
pub proof fn lemma_index_inside(x: int, y: int, width: int, height: int)
    requires
        inside(x, y, width, height),
    ensures
        0 <= cell_index(x, y, width) < width * height,
{
    assert(0 <= y * width) by (nonlinear_arith)
        requires
            0 <= y,
            0 <= width,
    ;
    assert((y + 1) * width <= height * width) by (nonlinear_arith)
        requires
            y + 1 <= height,
            0 <= width,
    ;
    assert((y + 1) * width == y * width + width) by (nonlinear_arith);
    assert(height * width == width * height) by (nonlinear_arith);
}

/// The column and the row can be read back from a flat index.
pub proof fn lemma_index_split(x: int, y: int, width: int)
    requires
        0 <= x < width,
    ensures
        cell_index(x, y, width) % width == x,
        cell_index(x, y, width) / width == y,
{
    vstd::arithmetic::div_mod::lemma_fundamental_div_mod_converse(
        cell_index(x, y, width),
        width,
        y,
        x,
    );
}

/// Every index of the sequence names a cell inside the arena.
pub proof fn lemma_index_join(i: int, width: int, height: int)
    requires
        0 < width,
        0 <= i < width * height,
    ensures
        inside(i % width, i / width, width, height),
        cell_index(i % width, i / width, width) == i,
{
    vstd::arithmetic::div_mod::lemma_fundamental_div_mod(i, width);
    vstd::arithmetic::div_mod::lemma_mod_bound(i, width);
    let q = i / width;
    assert(width * q == q * width) by (nonlinear_arith);
    if q >= height {
        assert(q * width >= height * width) by (nonlinear_arith)
            requires
                q >= height,
                0 < width,
        ;
        assert(height * width == width * height) by (nonlinear_arith);
    }
    if q < 0 {
        assert(q * width <= -width) by (nonlinear_arith)
            requires
                q <= -1,
                0 < width,
        ;
    }
}

/// The number of cells of an arena fits every integer type the engine uses
/// for it.
pub proof fn lemma_area_bound(width: int, height: int)
    requires
        1 <= width <= MAX_SIDE,
        1 <= height <= MAX_SIDE,
    ensures
        1 <= width * height <= MAX_SIDE * MAX_SIDE,
        width * height <= 0x3fff_0001,
{
    assert(1 <= width * height <= 32767 * 32767) by (nonlinear_arith)
        requires
            1 <= width <= 32767,
            1 <= height <= 32767,
    ;
}

/// Writing `value` over one cell moves the count of `what` by at most one:
/// down if the cell held `what`, up if `value` is `what`.
pub proof fn lemma_count_update(
    cells: Seq<ObjectType>,
    i: int,
    value: ObjectType,
    what: ObjectType,
)
    requires
        0 <= i < cells.len(),
    ensures
        count(cells.update(i, value), what) + (if cells[i] == what {
            1nat
        } else {
            0nat
        }) == count(cells, what) + (if value == what {
            1nat
        } else {
            0nat
        }),
    decreases cells.len(),
{
    let after = cells.update(i, value);
    if i == cells.len() - 1 {
        assert(after.drop_last() =~= cells.drop_last());
    } else {
        lemma_count_update(cells.drop_last(), i, value, what);
        assert(after.drop_last() =~= cells.drop_last().update(i, value));
    }
}

/// Two arenas that hold `what` in the same cells hold it equally often.
pub proof fn lemma_count_same_cells(a: Seq<ObjectType>, b: Seq<ObjectType>, what: ObjectType)
    requires
        a.len() == b.len(),
        forall|i: int| 0 <= i < a.len() ==> (a[i] == what <==> b[i] == what),
    ensures
        count(a, what) == count(b, what),
    decreases a.len(),
{
    if a.len() > 0 {
        lemma_count_same_cells(a.drop_last(), b.drop_last(), what);
    }
}

/// The count is zero exactly when no cell holds `what`.
pub proof fn lemma_count_zero(cells: Seq<ObjectType>, what: ObjectType)
    ensures
        count(cells, what) == 0 <==> forall|i: int| 0 <= i < cells.len() ==> cells[i] != what,
    decreases cells.len(),
{
    if cells.len() > 0 {
        let front = cells.drop_last();
        lemma_count_zero(front, what);
        if count(cells, what) == 0 {
            assert forall|i: int| 0 <= i < cells.len() implies cells[i] != what by {
                if i < cells.len() - 1 {
                    assert(front[i] == cells[i]);
                }
            }
        } else if cells.last() != what {
            let i = choose|i: int| 0 <= i < front.len() && front[i] == what;
            assert(cells[i] == what);
        }
    }
}

/// The counts of the five kinds of content add up to the number of cells.
pub proof fn lemma_count_partition(cells: Seq<ObjectType>)
    ensures
        count(cells, ObjectType::Robot1) + count(cells, ObjectType::Robot2) + count(
            cells,
            ObjectType::Player,
        ) + count(cells, ObjectType::Heap) + count(cells, ObjectType::Empty) == cells.len(),
    decreases cells.len(),
{
    if cells.len() > 0 {
        lemma_count_partition(cells.drop_last());
    }
}

/// An arena with nothing in it holds no robot, no player and no heap.
pub proof fn lemma_count_empty_cells(n: nat, what: ObjectType)
    ensures
        count(empty_cells(n), what) == if what == ObjectType::Empty {
            n
        } else {
            0
        },
    decreases n,
{
    if n > 0 {
        lemma_count_empty_cells((n - 1) as nat, what);
        assert(empty_cells(n).drop_last() =~= empty_cells((n - 1) as nat));
    }
}

/// An arena that holds `what` in one cell and in no other holds it once.
pub proof fn lemma_count_single(cells: Seq<ObjectType>, what: ObjectType, at: int)
    requires
        0 <= at < cells.len(),
        forall|i: int| 0 <= i < cells.len() ==> (cells[i] == what <==> i == at),
    ensures
        count(cells, what) == 1,
    decreases cells.len(),
{
    let front = cells.drop_last();
    if at == cells.len() - 1 {
        lemma_count_zero(front, what);
    } else {
        lemma_count_single(front, what, at);
    }
}

/// An arena that holds `what` wherever another one does holds it at least
/// as often.
pub proof fn lemma_count_grows(a: Seq<ObjectType>, b: Seq<ObjectType>, what: ObjectType)
    requires
        a.len() == b.len(),
        forall|i: int| 0 <= i < a.len() && a[i] == what ==> b[i] == what,
    ensures
        count(a, what) <= count(b, what),
    decreases a.len(),
{
    if a.len() > 0 {
        lemma_count_grows(a.drop_last(), b.drop_last(), what);
    }
}

/// Two cells inside the arena with the same index are the same cell.
pub proof fn lemma_index_unique(x1: int, y1: int, x2: int, y2: int, width: int)
    requires
        0 <= x1 < width,
        0 <= x2 < width,
        cell_index(x1, y1, width) == cell_index(x2, y2, width),
    ensures
        x1 == x2,
        y1 == y2,
{
    lemma_index_split(x1, y1, width);
    lemma_index_split(x2, y2, width);
}

} // verus!
