use vstd::prelude::*;
use crate::grid::{
    alive_at, born, has_index, cell_index, dead_cells, died, lemma_index_in_range, lists_births,
    lists_deaths, live_neighbors, next_cells, rule,
};

verus! {

/// The grid obtained from `cur` by making every cell listed in `births`
/// alive and then every cell listed in `deaths` dead.
pub open spec fn apply_changes(cur: Seq<bool>, births: Seq<usize>, deaths: Seq<usize>) -> Seq<
    bool,
> {
    Seq::new(
        cur.len(),
        |i: int|
            if has_index(deaths, i) {
                false
            } else if has_index(births, i) {
                true
            } else {
                cur[i]
            },
    )
}

/// Column of the cell with index `i` on a grid `w` cells wide.
pub open spec fn column_of(w: int, i: int) -> int {
    i % w
}

/// Row of the cell with index `i` on a grid `w` cells wide.
pub open spec fn row_of(w: int, i: int) -> int {
    i / w
}

/// Only the cell at `(0, 0)` is alive.
pub open spec fn only_origin_alive(cells: Seq<bool>) -> bool {
    forall|i: int| 0 <= i < cells.len() ==> #[trigger] cells[i] == (i == 0)
}

/// The row-major index is a bijection from the coordinates of a `w` by `h`
/// grid onto `[0, w * h)`.
pub proof fn index_is_bijection(w: int, h: int)
    requires
        0 <= w,
        0 <= h,
    ensures
        forall|x: int, y: int|
            0 <= x < w && 0 <= y < h ==> 0 <= #[trigger] cell_index(w, x, y) < w * h,
        forall|x1: int, y1: int, x2: int, y2: int|
            0 <= x1 < w && 0 <= y1 < h && 0 <= x2 < w && 0 <= y2 < h && #[trigger] cell_index(
                w,
                x1,
                y1,
            ) == #[trigger] cell_index(w, x2, y2) ==> x1 == x2 && y1 == y2,
        forall|i: int|
            #![trigger row_of(w, i)]
            0 < w && 0 <= i < w * h ==> (0 <= column_of(w, i) < w && 0 <= row_of(w, i) < h
                && cell_index(w, column_of(w, i), row_of(w, i)) == i),
{
    assert forall|x: int, y: int| 0 <= x < w && 0 <= y < h implies 0 <= #[trigger] cell_index(
        w,
        x,
        y,
    ) < w * h by {
        lemma_index_in_range(w, h, x, y);
    }
    assert forall|x1: int, y1: int, x2: int, y2: int|
        0 <= x1 < w && 0 <= y1 < h && 0 <= x2 < w && 0 <= y2 < h && #[trigger] cell_index(
            w,
            x1,
            y1,
        ) == #[trigger] cell_index(w, x2, y2) implies x1 == x2 && y1 == y2 by {
        lemma_coordinates_of_index(w, x1, y1);
        lemma_coordinates_of_index(w, x2, y2);
    }
    assert forall|i: int|
        #![trigger row_of(w, i)]
        0 < w && 0 <= i < w * h implies (0 <= column_of(w, i) < w && 0 <= row_of(w, i) < h
            && cell_index(w, column_of(w, i), row_of(w, i)) == i) by {
        lemma_index_onto(w, h, i);
    }
}

/// Every index in `[0, w * h)` is that of some coordinate on the grid.
proof fn lemma_index_onto(w: int, h: int, i: int)
    requires
        0 < w,
        0 <= i < w * h,
    ensures
        0 <= column_of(w, i) < w,
        0 <= row_of(w, i) < h,
        cell_index(w, column_of(w, i), row_of(w, i)) == i,
{
    vstd::arithmetic::div_mod::lemma_fundamental_div_mod(i, w);
    vstd::arithmetic::div_mod::lemma_mod_pos_bound(i, w);
    let x = i % w;
    let y = i / w;
    assert(0 <= y < h && y * w + x == i) by (nonlinear_arith)
        requires
            i == w * y + x,
            0 <= x < w,
            0 <= i < w * h,
    ;
}

/// Column and row are recovered from an index by remainder and quotient.
proof fn lemma_coordinates_of_index(w: int, x: int, y: int)
    requires
        0 <= x < w,
    ensures
        cell_index(w, x, y) % w == x,
        cell_index(w, x, y) / w == y,
{
    vstd::arithmetic::div_mod::lemma_fundamental_div_mod_converse(cell_index(w, x, y), w, y, x);
}

/// A neighbour is counted only when it lies on the grid, so its index lies
/// in `[0, w * h)`; and no more than eight neighbours are ever counted.
pub proof fn neighbor_count_is_bounded(cells: Seq<bool>, w: int, h: int, x: int, y: int)
    ensures
        live_neighbors(cells, w, h, x, y) <= 8,
        forall|dx: int, dy: int|
            -1 <= dx <= 1 && -1 <= dy <= 1 && #[trigger] alive_at(cells, w, h, x + dx, y + dy)
                ==> 0 <= cell_index(w, x + dx, y + dy) < w * h,
{
    assert forall|dx: int, dy: int|
        -1 <= dx <= 1 && -1 <= dy <= 1 && #[trigger] alive_at(
            cells,
            w,
            h,
            x + dx,
            y + dy,
        ) implies 0 <= cell_index(w, x + dx, y + dy) < w * h by {
        lemma_index_in_range(w, h, x + dx, y + dy);
    }
}

/// The next state of the cell at `(x, y)` follows the rule applied to its
/// own state and its live neighbours.
proof fn lemma_next_cell_at(cells: Seq<bool>, w: int, h: int, x: int, y: int)
    requires
        0 <= x < w,
        0 <= y < h,
    ensures
        0 <= cell_index(w, x, y) < next_cells(cells, w, h).len(),
        next_cells(cells, w, h)[cell_index(w, x, y)] == rule(
            cells[cell_index(w, x, y)],
            live_neighbors(cells, w, h, x, y),
        ),
{
    lemma_index_in_range(w, h, x, y);
    lemma_coordinates_of_index(w, x, y);
}

/// On a grid with no live cell, the next generation has no live cell
/// either, and no cell is born or dies.
pub proof fn dead_grid_is_stable(w: int, h: int, births: Seq<usize>, deaths: Seq<usize>)
    requires
        0 <= w,
        0 <= h,
        lists_births(births, dead_cells((w * h) as nat), next_cells(dead_cells((w * h) as nat), w, h)),
        lists_deaths(deaths, dead_cells((w * h) as nat), next_cells(dead_cells((w * h) as nat), w, h)),
    ensures
        next_cells(dead_cells((w * h) as nat), w, h) == dead_cells((w * h) as nat),
        births.len() == 0,
        deaths.len() == 0,
{
    let dead = dead_cells((w * h) as nat);
    assert forall|x: int, y: int| !#[trigger] alive_at(dead, w, h, x, y) by {
        if 0 <= x < w && 0 <= y < h {
            lemma_index_in_range(w, h, x, y);
        }
    }
    assert(next_cells(dead, w, h) =~= dead);
    if births.len() > 0 {
        assert(born(dead, next_cells(dead, w, h), births[0] as int));
    }
    if deaths.len() > 0 {
        assert(died(dead, next_cells(dead, w, h), deaths[0] as int));
    }
}

/// A dead cell with exactly three live neighbours is born.
pub proof fn birth_rule(cells: Seq<bool>, w: int, h: int, x: int, y: int, births: Seq<usize>)
    requires
        cells.len() == w * h,
        0 <= x < w,
        0 <= y < h,
        !cells[cell_index(w, x, y)],
        live_neighbors(cells, w, h, x, y) == 3,
        lists_births(births, cells, next_cells(cells, w, h)),
    ensures
        has_index(births, cell_index(w, x, y)),
{
    lemma_next_cell_at(cells, w, h, x, y);
    assert(born(cells, next_cells(cells, w, h), cell_index(w, x, y)));
}

/// A live cell with two or three live neighbours is neither born nor dies.
pub proof fn survival_rule(
    cells: Seq<bool>,
    w: int,
    h: int,
    x: int,
    y: int,
    births: Seq<usize>,
    deaths: Seq<usize>,
)
    requires
        cells.len() == w * h,
        0 <= x < w,
        0 <= y < h,
        cells[cell_index(w, x, y)],
        live_neighbors(cells, w, h, x, y) == 2 || live_neighbors(cells, w, h, x, y) == 3,
        lists_births(births, cells, next_cells(cells, w, h)),
        lists_deaths(deaths, cells, next_cells(cells, w, h)),
    ensures
        !has_index(births, cell_index(w, x, y)),
        !has_index(deaths, cell_index(w, x, y)),
{
    let i = cell_index(w, x, y);
    lemma_next_cell_at(cells, w, h, x, y);
    if has_index(births, i) {
        let k = choose|k: int| 0 <= k < births.len() && births[k] as int == i;
        assert(born(cells, next_cells(cells, w, h), births[k] as int));
    }
    if has_index(deaths, i) {
        let k = choose|k: int| 0 <= k < deaths.len() && deaths[k] as int == i;
        assert(died(cells, next_cells(cells, w, h), deaths[k] as int));
    }
}

/// A live cell with fewer than two or more than three live neighbours dies.
pub proof fn death_rule(cells: Seq<bool>, w: int, h: int, x: int, y: int, deaths: Seq<usize>)
    requires
        cells.len() == w * h,
        0 <= x < w,
        0 <= y < h,
        cells[cell_index(w, x, y)],
        live_neighbors(cells, w, h, x, y) != 2,
        live_neighbors(cells, w, h, x, y) != 3,
        lists_deaths(deaths, cells, next_cells(cells, w, h)),
    ensures
        has_index(deaths, cell_index(w, x, y)),
{
    lemma_next_cell_at(cells, w, h, x, y);
    assert(died(cells, next_cells(cells, w, h), cell_index(w, x, y)));
}

/// Applying the births and then the deaths reported for a step to the
/// grid before the step gives exactly the grid after it.
pub proof fn changes_rebuild_next(cur: Seq<bool>, nxt: Seq<bool>, births: Seq<usize>, deaths: Seq<usize>)
    requires
        cur.len() == nxt.len(),
        lists_births(births, cur, nxt),
        lists_deaths(deaths, cur, nxt),
    ensures
        apply_changes(cur, births, deaths) == nxt,
{
    assert forall|i: int| 0 <= i < cur.len() implies #[trigger] apply_changes(cur, births, deaths)[i]
        == nxt[i] by {
        if has_index(deaths, i) {
            let k = choose|k: int| 0 <= k < deaths.len() && deaths[k] as int == i;
            assert(died(cur, nxt, deaths[k] as int));
        } else if has_index(births, i) {
            let k = choose|k: int| 0 <= k < births.len() && births[k] as int == i;
            assert(born(cur, nxt, births[k] as int));
        } else {
            if cur[i] != nxt[i] {
                if cur[i] {
                    assert(died(cur, nxt, i));
                } else {
                    assert(born(cur, nxt, i));
                }
            }
        }
    }
    assert(apply_changes(cur, births, deaths) =~= nxt);
}

/// The same, for one step of the automaton.
pub proof fn changes_rebuild_next_generation(
    cur: Seq<bool>,
    w: int,
    h: int,
    births: Seq<usize>,
    deaths: Seq<usize>,
)
    requires
        cur.len() == w * h,
        lists_births(births, cur, next_cells(cur, w, h)),
        lists_deaths(deaths, cur, next_cells(cur, w, h)),
    ensures
        apply_changes(cur, births, deaths) == next_cells(cur, w, h),
{
    changes_rebuild_next(cur, next_cells(cur, w, h), births, deaths);
}

/// The corner `(0, 0)` has at most three neighbours on the grid; and when
/// it is the only live cell, no cell that is not adjacent to it counts it,
/// so nothing wraps round to the opposite edge.
pub proof fn corner_does_not_wrap(cells: Seq<bool>, w: int, h: int)
    requires
        0 < w,
        0 < h,
        cells.len() == w * h,
    ensures
        live_neighbors(cells, w, h, 0, 0) <= 3,
        only_origin_alive(cells) ==> forall|x: int, y: int|
            0 <= x < w && 0 <= y < h && (x > 1 || y > 1) ==> #[trigger] live_neighbors(
                cells,
                w,
                h,
                x,
                y,
            ) == 0,
{
    if only_origin_alive(cells) {
        assert forall|x: int, y: int| #[trigger] alive_at(cells, w, h, x, y) implies x == 0 && y
            == 0 by {
            lemma_index_in_range(w, h, x, y);
            assert(x == 0 && y == 0) by (nonlinear_arith)
                requires
                    y * w + x == 0,
                    0 <= x,
                    0 <= y,
                    0 < w,
            ;
        }
    }
}

} // verus!
