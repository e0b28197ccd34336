use vstd::prelude::*;
use oorandom::Rand32;
use crate::random::rand_range;

verus! {

/// Linear index of the cell at column `x`, row `y` of a row-major grid
/// that is `w` cells wide.
pub open spec fn cell_index(w: int, x: int, y: int) -> int {
    y * w + x
}

/// Whether the coordinate `(x, y)` lies on the grid and its cell is alive.
/// Coordinates off the grid count as dead: the boundary is open.
pub open spec fn alive_at(cells: Seq<bool>, w: int, h: int, x: int, y: int) -> bool {
    0 <= x < w && 0 <= y < h && cells[cell_index(w, x, y)]
}

/// One for `true`, zero for `false`.
pub open spec fn bit(b: bool) -> nat {
    if b {
        1
    } else {
        0
    }
}

/// Number of live cells among the eight Moore neighbours of `(x, y)`.
pub open spec fn live_neighbors(cells: Seq<bool>, w: int, h: int, x: int, y: int) -> nat {
    bit(alive_at(cells, w, h, x - 1, y - 1)) + bit(alive_at(cells, w, h, x, y - 1)) + bit(
        alive_at(cells, w, h, x + 1, y - 1),
    ) + bit(alive_at(cells, w, h, x - 1, y)) + bit(alive_at(cells, w, h, x + 1, y)) + bit(
        alive_at(cells, w, h, x - 1, y + 1),
    ) + bit(alive_at(cells, w, h, x, y + 1)) + bit(alive_at(cells, w, h, x + 1, y + 1))
}

/// The Game of Life rule: a cell with two live neighbours keeps its state,
/// one with three is alive, any other is dead.
pub open spec fn rule(alive: bool, n: nat) -> bool {
    n == 3 || (alive && n == 2)
}

/// The generation that follows `cells`, every cell judged against the
/// unchanged current generation.
pub open spec fn next_cells(cells: Seq<bool>, w: int, h: int) -> Seq<bool> {
    Seq::new(
        (w * h) as nat,
        |i: int| rule(cells[i], live_neighbors(cells, w, h, i % w, i / w)),
    )
}

/// Cell `i` turns alive between `cur` and `nxt`.
pub open spec fn born(cur: Seq<bool>, nxt: Seq<bool>, i: int) -> bool {
    !cur[i] && nxt[i]
}

/// Cell `i` turns dead between `cur` and `nxt`.
pub open spec fn died(cur: Seq<bool>, nxt: Seq<bool>, i: int) -> bool {
    cur[i] && !nxt[i]
}

/// Some entry of `v` is the index `i`.
pub open spec fn has_index(v: Seq<usize>, i: int) -> bool {
    exists|k: int| 0 <= k < v.len() && #[trigger] v[k] as int == i
}

/// Each entry of `v` is smaller than the next, so none repeats.
pub open spec fn strictly_increasing(v: Seq<usize>) -> bool {
    forall|a: int, b: int| 0 <= a < b < v.len() ==> v[a] < v[b]
}

/// `v` lists, in increasing order, exactly the cells born between `cur` and `nxt`.
pub open spec fn lists_births(v: Seq<usize>, cur: Seq<bool>, nxt: Seq<bool>) -> bool {
    &&& strictly_increasing(v)
    &&& forall|k: int| 0 <= k < v.len() ==> v[k] < cur.len() && born(cur, nxt, #[trigger] v[k] as int)
    &&& forall|i: int| 0 <= i < cur.len() && #[trigger] born(cur, nxt, i) ==> has_index(v, i)
}

/// `v` lists, in increasing order, exactly the cells that died between `cur` and `nxt`.
pub open spec fn lists_deaths(v: Seq<usize>, cur: Seq<bool>, nxt: Seq<bool>) -> bool {
    &&& strictly_increasing(v)
    &&& forall|k: int| 0 <= k < v.len() ==> v[k] < cur.len() && died(cur, nxt, #[trigger] v[k] as int)
    &&& forall|i: int| 0 <= i < cur.len() && #[trigger] died(cur, nxt, i) ==> has_index(v, i)
}

/// Exclusive upper bound of the draw made for each cell when seeding: each
/// cell draws a value in `[0, 100)`.
pub const SEED_DRAW_BOUND: u32 = 100;

/// A cell starts alive when its seeding draw is at most this value: five of
/// the hundred possible draws, a 5% chance of starting alive.
pub const SEED_ALIVE_MAX: u32 = 4;

/// The cells of a grid seeded from one draw per cell.
pub open spec fn seeded_cells(draws: Seq<u32>) -> Seq<bool> {
    draws.map_values(|d: u32| d <= SEED_ALIVE_MAX)
}

/// A grid of `n` dead cells.
pub open spec fn dead_cells(n: nat) -> Seq<bool> {
    Seq::new(n, |i: int| false)
}

/// The cells that turned alive and the cells that turned dead in one step,
/// by index.
pub struct Changes {
    pub births: Vec<usize>,
    pub deaths: Vec<usize>,
}

/// The cell matrix, row-major: the cell at `(x, y)` is `cells[y * width + x]`.
pub struct World {
    pub cells: Vec<bool>,
    pub width: usize,
    pub height: usize,
}

impl World {
    /// The grid holds exactly one cell for each coordinate.
    pub open spec fn wf(&self) -> bool {
        &&& self.cells@.len() == self.width * self.height
        &&& self.width * self.height <= usize::MAX
    }

    /// Index of the cell at column `x`, row `y`.
    pub fn calculate_cell_id(&self, x: usize, y: usize) -> (id: usize)
        requires
            self.wf(),
            x < self.width,
            y < self.height,
        ensures
            id == cell_index(self.width as int, x as int, y as int),
            id < self.cells@.len(),
    {
        proof {
            lemma_index_in_range(self.width as int, self.height as int, x as int, y as int);
            assert(0 <= y * self.width <= y * self.width + x) by (nonlinear_arith)
                requires
                    0 <= x,
                    0 <= y,
                    0 <= self.width,
            ;
        }
        y * self.width + x
    }

    /// Whether the cell with index `id` is alive.
    pub fn is_alive(&self, id: usize) -> (alive: bool)
        requires
            id < self.cells@.len(),
        ensures
            alive == self.cells@[id as int],
    {
        self.cells[id]
    }

    /// One if the neighbour at offset `(dx, dy)` of `(x, y)` is on the grid
    /// and alive, zero otherwise. Both coordinates are bounds-checked before
    /// they are combined, so no neighbour is taken from another row.
    fn neighbor_bit(&self, x: usize, y: usize, dx: i8, dy: i8) -> (r: usize)
        requires
            self.wf(),
            x < self.width,
            y < self.height,
            -1 <= dx <= 1,
            -1 <= dy <= 1,
        ensures
            r == bit(
                alive_at(
                    self.cells@,
                    self.width as int,
                    self.height as int,
                    x + dx,
                    y + dy,
                ),
            ),
    {
        if (dx < 0 && x == 0) || (dy < 0 && y == 0) {
            return 0;
        }
        let nx: usize = if dx < 0 {
            x - 1
        } else if dx > 0 {
            x + 1
        } else {
            x
        };
        let ny: usize = if dy < 0 {
            y - 1
        } else if dy > 0 {
            y + 1
        } else {
            y
        };
        if nx >= self.width || ny >= self.height {
            return 0;
        }
        let id = self.calculate_cell_id(nx, ny);
        if self.is_alive(id) {
            1
        } else {
            0
        }
    }

    /// Number of live cells among the eight neighbours of `(x, y)`; cells
    /// beyond any edge count as dead.
    pub fn count_alive_around(&self, x: usize, y: usize) -> (count: usize)
        requires
            self.wf(),
            x < self.width,
            y < self.height,
        ensures
            count == live_neighbors(
                self.cells@,
                self.width as int,
                self.height as int,
                x as int,
                y as int,
            ),
            count <= 8,
    {
        let mut count: usize = 0;
        count = count + self.neighbor_bit(x, y, -1, -1);
        count = count + self.neighbor_bit(x, y, 0, -1);
        count = count + self.neighbor_bit(x, y, 1, -1);
        count = count + self.neighbor_bit(x, y, -1, 0);
        count = count + self.neighbor_bit(x, y, 1, 0);
        count = count + self.neighbor_bit(x, y, -1, 1);
        count = count + self.neighbor_bit(x, y, 0, 1);
        count = count + self.neighbor_bit(x, y, 1, 1);
        count
    }

    /// Computes the next generation from the current one without changing
    /// it, together with the cells born and the cells that died, each list
    /// in increasing order of index.
    pub fn next_generation(&self) -> (r: (Vec<bool>, Vec<usize>, Vec<usize>))
        requires
            self.wf(),
        ensures
            r.0@ == next_cells(self.cells@, self.width as int, self.height as int),
            lists_births(r.1@, self.cells@, r.0@),
            lists_deaths(r.2@, self.cells@, r.0@),
    {
        let ghost cur = self.cells@;
        let ghost w = self.width as int;
        let ghost h = self.height as int;
        let ghost target = next_cells(cur, w, h);
        let n = self.cells.len();
        let mut next: Vec<bool> = Vec::with_capacity(n);
        let mut i: usize = 0;
        let mut x: usize = 0;
        let mut y: usize = 0;
        proof {
            if 0 < n {
                assert(0 < w && 0 < h) by (nonlinear_arith)
                    requires
                        0 < n,
                        n == w * h,
                        0 <= w,
                        0 <= h,
                ;
            }
        }
        while i < n
            invariant
                self.wf(),
                cur == self.cells@,
                w == self.width,
                h == self.height,
                target == next_cells(cur, w, h),
                n == cur.len(),
                i <= n,
                i == cell_index(w, x as int, y as int),
                i < n ==> x < w && y < h,
                next@.len() == i,
                forall|j: int| 0 <= j < i ==> next@[j] == target[j],
            decreases n - i,
        {
            proof {
                vstd::arithmetic::div_mod::lemma_fundamental_div_mod_converse(
                    i as int,
                    w,
                    y as int,
                    x as int,
                );
            }
            let around = self.count_alive_around(x, y);
            let alive = self.is_alive(i);
            next.push(around == 3 || (alive && around == 2));
            i = i + 1;
            if x + 1 == self.width {
                proof {
                    assert(i == (y + 1) * w) by (nonlinear_arith)
                        requires
                            i == y * w + x + 1,
                            x + 1 == w,
                    ;
                }
                x = 0;
                y = y + 1;
            } else {
                x = x + 1;
            }
            proof {
                if i < n {
                    assert(y < h) by (nonlinear_arith)
                        requires
                            i == y * w + x,
                            i < n,
                            n == w * h,
                            0 <= x,
                            0 <= y,
                            0 < w,
                    ;
                }
            }
        }
        proof {
            assert(next@ =~= target);
        }
        let (births, deaths) = diff(&self.cells, &next);
        (next, births, deaths)
    }

    /// Replaces the current generation by the next one and reports which
    /// cells were born and which died.
    pub fn advance(&mut self) -> (changes: Changes)
        requires
            old(self).wf(),
        ensures
            final(self).width == old(self).width,
            final(self).height == old(self).height,
            final(self).wf(),
            final(self).cells@ == next_cells(
                old(self).cells@,
                old(self).width as int,
                old(self).height as int,
            ),
            lists_births(changes.births@, old(self).cells@, final(self).cells@),
            lists_deaths(changes.deaths@, old(self).cells@, final(self).cells@),
    {
        let (next, births, deaths) = self.next_generation();
        self.cells = next;
        Changes { births, deaths }
    }

    /// The column and row of the cell with index `id`.
    pub fn cell_coordinates(&self, id: usize) -> (r: (usize, usize))
        requires
            self.wf(),
            id < self.cells@.len(),
        ensures
            r.0 < self.width,
            r.1 < self.height,
            cell_index(self.width as int, r.0 as int, r.1 as int) == id,
    {
        proof {
            vstd::arithmetic::div_mod::lemma_fundamental_div_mod(id as int, self.width as int);
        }
        let x = id % self.width;
        let y = id / self.width;
        proof {
            assert(y < self.height) by (nonlinear_arith)
                requires
                    id == self.width * y + x,
                    id < self.width * self.height,
                    0 <= x,
            ;
        }
        (x, y)
    }

    /// Builds a `width` by `height` grid from one draw in
    /// `[0, SEED_DRAW_BOUND)` per cell, in index order: a cell starts alive
    /// when its draw is at most `SEED_ALIVE_MAX`. Also returns the indices of
    /// the cells that start alive, in increasing order.
    pub fn seed_from_draws(width: usize, height: usize, draws: &Vec<u32>) -> (r: (World, Vec<usize>))
        requires
            width * height <= usize::MAX,
            draws@.len() == width * height,
        ensures
            r.0.width == width,
            r.0.height == height,
            r.0.wf(),
            r.0.cells@ == seeded_cells(draws@),
            lists_births(r.1@, dead_cells(draws@.len()), r.0.cells@),
    {
        let n = draws.len();
        let mut cells: Vec<bool> = Vec::with_capacity(n);
        let mut dead: Vec<bool> = Vec::with_capacity(n);
        let mut i: usize = 0;
        while i < n
            invariant
                n == draws@.len(),
                i <= n,
                cells@.len() == i,
                dead@.len() == i,
                forall|j: int| 0 <= j < i ==> cells@[j] == (draws@[j] <= SEED_ALIVE_MAX),
                forall|j: int| 0 <= j < i ==> !dead@[j],
            decreases n - i,
        {
            cells.push(draws[i] <= SEED_ALIVE_MAX);
            dead.push(false);
            i = i + 1;
        }
        proof {
            assert(cells@ =~= seeded_cells(draws@));
            assert(dead@ =~= dead_cells(n as nat));
        }
        let (births, _) = diff(&dead, &cells);
        (World { cells, width, height }, births)
    }

    /// Builds a `width` by `height` grid seeded from `rng`, one draw in
    /// `[0, SEED_DRAW_BOUND)` per cell as in `seed_from_draws`. Also returns
    /// the indices of the cells that start alive, in increasing order.
    pub fn seed(width: usize, height: usize, rng: &mut Rand32) -> (r: (World, Vec<usize>))
        requires
            width * height <= usize::MAX,
        ensures
            r.0.width == width,
            r.0.height == height,
            r.0.wf(),
            lists_births(r.1@, dead_cells((width * height) as nat), r.0.cells@),
    {
        let n = width * height;
        let mut draws: Vec<u32> = Vec::with_capacity(n);
        let mut i: usize = 0;
        while i < n
            invariant
                i <= n,
                draws@.len() == i,
            decreases n - i,
        {
            draws.push(rand_range(rng, 0, SEED_DRAW_BOUND));
            i = i + 1;
        }
        World::seed_from_draws(width, height, &draws)
    }
}

/// Lists, in increasing order of index, the cells born and the cells that
/// died between two generations of the same grid.
pub fn diff(cur: &Vec<bool>, nxt: &Vec<bool>) -> (r: (Vec<usize>, Vec<usize>))
    requires
        cur@.len() == nxt@.len(),
    ensures
        lists_births(r.0@, cur@, nxt@),
        lists_deaths(r.1@, cur@, nxt@),
{
    let n = cur.len();
    let mut births: Vec<usize> = Vec::new();
    let mut deaths: Vec<usize> = Vec::new();
    let mut i: usize = 0;
    while i < n
        invariant
            n == cur@.len(),
            n == nxt@.len(),
            i <= n,
            strictly_increasing(births@),
            forall|k: int|
                0 <= k < births@.len() ==> births@[k] < i && born(cur@, nxt@, #[trigger] births@[k] as int),
            forall|j: int| 0 <= j < i && #[trigger] born(cur@, nxt@, j) ==> has_index(births@, j),
            strictly_increasing(deaths@),
            forall|k: int|
                0 <= k < deaths@.len() ==> deaths@[k] < i && died(cur@, nxt@, #[trigger] deaths@[k] as int),
            forall|j: int| 0 <= j < i && #[trigger] died(cur@, nxt@, j) ==> has_index(deaths@, j),
        decreases n - i,
    {
        let ghost old_births = births@;
        let ghost old_deaths = deaths@;
        if !cur[i] && nxt[i] {
            births.push(i);
        } else if cur[i] && !nxt[i] {
            deaths.push(i);
        }
        proof {
            lemma_push_index_list(old_births, births@, i, |j: int| born(cur@, nxt@, j));
            lemma_push_index_list(old_deaths, deaths@, i, |j: int| died(cur@, nxt@, j));
            assert forall|j: int| 0 <= j <= i && #[trigger] born(cur@, nxt@, j) implies has_index(births@, j) by {
                assert((|j: int| born(cur@, nxt@, j))(j));
            }
            assert forall|j: int| 0 <= j <= i && #[trigger] died(cur@, nxt@, j) implies has_index(deaths@, j) by {
                assert((|j: int| died(cur@, nxt@, j))(j));
            }
        }
        i = i + 1;
    }
    (births, deaths)
}

/// Extending an increasing list of the indices below `i` that satisfy
/// `p` by `i` itself, exactly when `p(i)`, keeps it increasing and exact.
proof fn lemma_push_index_list(
    before: Seq<usize>,
    after: Seq<usize>,
    i: usize,
    p: spec_fn(int) -> bool,
)
    requires
        strictly_increasing(before),
        forall|k: int| 0 <= k < before.len() ==> before[k] < i && p(#[trigger] before[k] as int),
        forall|j: int| 0 <= j < i && #[trigger] p(j) ==> has_index(before, j),
        p(i as int) ==> after == before.push(i),
        !p(i as int) ==> after == before,
    ensures
        strictly_increasing(after),
        forall|k: int| 0 <= k < after.len() ==> after[k] <= i && p(#[trigger] after[k] as int),
        forall|j: int| 0 <= j <= i && #[trigger] p(j) ==> has_index(after, j),
{
    if p(i as int) {
        assert forall|k: int| 0 <= k < after.len() implies after[k] <= i && p(#[trigger] after[k] as int) by {
            if k < before.len() {
                assert(after[k] == before[k]);
            }
        }
        assert forall|a: int, b: int| 0 <= a < b < after.len() implies after[a] < after[b] by {
            assert(after[a] == before[a]);
        }
        assert forall|j: int| 0 <= j <= i && #[trigger] p(j) implies has_index(after, j) by {
            if j == i {
                assert(after[after.len() - 1] as int == j);
            } else {
                let k = choose|k: int| 0 <= k < before.len() && before[k] as int == j;
                assert(after[k] as int == j);
            }
        }
    }
}


/// Every coordinate on the grid has an index in `[0, w * h)`.
pub proof fn lemma_index_in_range(w: int, h: int, x: int, y: int)
    requires
        0 <= x < w,
        0 <= y < h,
    ensures
        0 <= cell_index(w, x, y) < w * h,
{
    assert(0 <= y * w + x < w * h) by (nonlinear_arith)
        requires
            0 <= x < w,
            0 <= y < h,
    ;
}

} // verus!
