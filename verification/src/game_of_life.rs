//! The grid and the simulation engine: a rectangular matrix of boolean
//! cells with bounds-checked access, and the generation step that applies
//! the standard transition rule synchronously (every cell is decided from
//! the same prior generation).

use vstd::prelude::*;

verus! {

/// The standard transition rule: an alive cell survives with exactly 2 or
/// 3 alive neighbors; a dead cell is born with exactly 3; everything else
/// is dead in the next generation.
pub open spec fn life_rule(alive: bool, neighbors: int) -> bool {
    if alive {
        neighbors == 2 || neighbors == 3
    } else {
        neighbors == 3
    }
}

/// Declares rand::rngs::ThreadRng, the thread-local generator, so that a
/// handle to it can pass through verified code; its contents stay opaque.
#[verifier::external_type_specification]
#[verifier::external_body]
pub struct ExThreadRng(rand::rngs::ThreadRng);

/// Relies on rand::thread_rng: returns a handle to the thread-local
/// generator. Nothing can be promised of it.
#[verifier::external_body]
fn fresh_rng() -> rand::rngs::ThreadRng {
    rand::thread_rng()
}

/// Relies on rand::Rng::gen_ratio: the result is true with probability
/// `numerator / denominator`. Its documentation guarantees `true` when
/// `numerator == denominator` and `false` when `numerator == 0`, and says
/// the call panics when `denominator == 0` or `numerator > denominator`,
/// so those inputs are excluded here.
#[verifier::external_body]
fn random_ratio(rng: &mut rand::rngs::ThreadRng, numerator: u32, denominator: u32) -> (r: bool)
    requires
        0 < denominator,
        numerator <= denominator,
    ensures
        numerator == denominator ==> r,
        numerator == 0 ==> !r,
{
    rand::Rng::gen_ratio(rng, numerator, denominator)
}

/// Relies on String::from_iter over char: collecting characters yields
/// the string that holds exactly those characters in order.
#[verifier::external_body]
fn chars_to_string(chars: Vec<char>) -> (r: String)
    ensures
        r@ == chars@,
{
    String::from_iter(chars)
}

/// A rectangular matrix of cells. `true` is alive, `false` is dead.
/// Row `y` holds the cells of one horizontal line; `x` indexes the column.
pub struct GameOfLife {
    state: Vec<Vec<bool>>,
}

impl View for GameOfLife {
    type V = Seq<Seq<bool>>;

    closed spec fn view(&self) -> Seq<Seq<bool>> {
        Seq::new(self.state@.len(), |y: int| self.state@[y]@)
    }
}

impl GameOfLife {
    /// Number of rows.
    pub open spec fn height(self) -> nat {
        self@.len()
    }

    /// Number of columns. An empty grid (no rows) has width 0.
    pub open spec fn width(self) -> nat {
        if self@.len() == 0 {
            0
        } else {
            self@[0].len()
        }
    }

    /// The grid is a proper rectangle: every row has exactly `width` cells.
    pub open spec fn wf(self) -> bool {
        forall|y: int| 0 <= y < self@.len() ==> (#[trigger] self@[y]).len() == self.width()
    }

    /// `(x, y)` names an actual cell of the grid.
    pub open spec fn in_bounds(self, x: int, y: int) -> bool {
        0 <= x < self.width() && 0 <= y < self.height()
    }

    /// The state of the cell at `(x, y)`; meaningful only in bounds.
    pub open spec fn cell(self, x: int, y: int) -> bool {
        self@[y][x]
    }

    /// A position contributes to neighbor counts only if it is a real,
    /// alive cell: positions outside the grid are absent, not dead cells.
    pub open spec fn alive_at(self, x: int, y: int) -> bool {
        self.in_bounds(x, y) && self.cell(x, y)
    }

    /// 1 when `(x, y)` is a real, alive cell; 0 otherwise.
    pub open spec fn alive_score(self, x: int, y: int) -> int {
        if self.alive_at(x, y) {
            1
        } else {
            0
        }
    }

    /// How many of the 8 surrounding positions hold an alive cell. A cell
    /// on the border has fewer than 8 candidate positions; the missing
    /// ones contribute nothing.
    pub open spec fn live_neighbors(self, x: int, y: int) -> int {
        self.alive_score(x - 1, y - 1) + self.alive_score(x, y - 1) + self.alive_score(
            x + 1,
            y - 1,
        ) + self.alive_score(x - 1, y) + self.alive_score(x + 1, y) + self.alive_score(x - 1, y + 1)
            + self.alive_score(x, y + 1) + self.alive_score(x + 1, y + 1)
    }

    /// The state the cell at `(x, y)` takes in the next generation,
    /// decided entirely from the current one.
    pub open spec fn next_cell(self, x: int, y: int) -> bool {
        life_rule(self.cell(x, y), self.live_neighbors(x, y))
    }

    /// The alive coordinates of row `y` among the first `x` columns, in
    /// scan order.
    pub open spec fn alive_in_row_up_to(self, y: int, x: int) -> Seq<(i32, i32)>
        decreases x,
    {
        if x <= 0 {
            Seq::empty()
        } else if self.cell(x - 1, y) {
            self.alive_in_row_up_to(y, x - 1).push(((x - 1) as i32, y as i32))
        } else {
            self.alive_in_row_up_to(y, x - 1)
        }
    }

    /// The alive coordinates of the first `y` rows, row-major.
    pub open spec fn alive_up_to(self, y: int) -> Seq<(i32, i32)>
        decreases y,
    {
        if y <= 0 {
            Seq::empty()
        } else {
            self.alive_up_to(y - 1) + self.alive_in_row_up_to(y - 1, self.width() as int)
        }
    }

    /// One `(x, y)` entry per currently alive cell, in row-major scan
    /// order: the snapshot message published once per generation.
    pub open spec fn alive_list(self) -> Seq<(i32, i32)> {
        self.alive_up_to(self.height() as int)
    }

    /// A fresh grid of `h` rows and `w` columns, all cells dead.
    pub fn new(h: usize, w: usize) -> (game: GameOfLife)
        ensures
            game.wf(),
            game.height() == h,
            game.width() == (if h == 0 { 0int } else { w as int }),
            forall|x: int, y: int| game.in_bounds(x, y) ==> !game.cell(x, y),
    {
        let mut state: Vec<Vec<bool>> = Vec::new();
        let mut i: usize = 0;
        while i < h
            invariant
                i <= h,
                state@.len() == i,
                forall|j: int| 0 <= j < i ==> (#[trigger] state@[j])@.len() == w,
                forall|j: int, k: int| 0 <= j < i && 0 <= k < w ==> !(#[trigger] state@[j]@[k]),
            decreases h - i,
        {
            let mut row: Vec<bool> = Vec::new();
            let mut k: usize = 0;
            while k < w
                invariant
                    k <= w,
                    row@.len() == k,
                    forall|m: int| 0 <= m < k ==> !(#[trigger] row@[m]),
                decreases w - k,
            {
                row.push(false);
                k = k + 1;
            }
            state.push(row);
            i = i + 1;
        }
        GameOfLife { state }
    }

    /// A fresh grid where each cell is independently set alive with
    /// probability `alive_numerator / alive_denominator`, one uniform
    /// draw per cell. The two certain probabilities are pinned down: with
    /// probability 1 every cell is alive, with probability 0 none is.
    pub fn new_random(
        h: usize,
        w: usize,
        alive_numerator: u32,
        alive_denominator: u32,
    ) -> (game: GameOfLife)
        requires
            0 < alive_denominator,
            alive_numerator <= alive_denominator,
        ensures
            game.wf(),
            game.height() == h,
            game.width() == (if h == 0 { 0int } else { w as int }),
            alive_numerator == 0 ==> forall|x: int, y: int|
                game.in_bounds(x, y) ==> !game.cell(x, y),
            alive_numerator == alive_denominator ==> forall|x: int, y: int|
                game.in_bounds(x, y) ==> game.cell(x, y),
    {
        let mut game = GameOfLife::new(h, w);
        let mut rng = fresh_rng();
        let mut y: usize = 0;
        while y < h
            invariant
                0 < alive_denominator,
                alive_numerator <= alive_denominator,
                game.wf(),
                game.height() == h,
                game.width() == (if h == 0 { 0int } else { w as int }),
                y <= h,
                alive_numerator == 0 ==> forall|i: int, j: int|
                    game.in_bounds(i, j) ==> !game.cell(i, j),
                alive_numerator == alive_denominator ==> forall|i: int, j: int|
                    0 <= j < y && 0 <= i < w ==> game.in_bounds(i, j) && game.cell(i, j),
            decreases h - y,
        {
            let mut x: usize = 0;
            while x < w
                invariant
                    0 < alive_denominator,
                    alive_numerator <= alive_denominator,
                    game.wf(),
                    game.height() == h,
                    game.width() == (if h == 0 { 0int } else { w as int }),
                    y < h,
                    x <= w,
                    alive_numerator == 0 ==> forall|i: int, j: int|
                        game.in_bounds(i, j) ==> !game.cell(i, j),
                    alive_numerator == alive_denominator ==> forall|i: int, j: int|
                        (0 <= j < y && 0 <= i < w) || (j == y && 0 <= i < x)
                            ==> game.in_bounds(i, j) && game.cell(i, j),
                decreases w - x,
            {
                if random_ratio(&mut rng, alive_numerator, alive_denominator) {
                    game.set(x, y, true);
                }
                x = x + 1;
            }
            y = y + 1;
        }
        game
    }

    /// Writes `value` into the cell at `(x, y)` of a raw matrix, touching
    /// nothing else; answers `None` when no such cell exists.
    fn set_cell(state: &mut Vec<Vec<bool>>, x: usize, y: usize, value: bool) -> (r: Option<()>)
        ensures
            (y < old(state)@.len() && x < old(state)@[y as int]@.len()) ==> {
                &&& r == Some(())
                &&& final(state)@.len() == old(state)@.len()
                &&& final(state)@[y as int]@ == old(state)@[y as int]@.update(x as int, value)
                &&& forall|j: int|
                    0 <= j < old(state)@.len() && j != y ==> final(state)@[j] == old(state)@[j]
            },
            !(y < old(state)@.len() && x < old(state)@[y as int]@.len()) ==> {
                &&& r is None
                &&& final(state)@ == old(state)@
            },
    {
        if y < state.len() {
            let row = &mut state[y];
            if x < row.len() {
                row[x] = value;
                return Some(());
            }
        }
        None
    }

    /// Replaces the whole backing matrix in one assignment: no observer
    /// can see a mix of old and new rows. The new matrix must be a
    /// rectangle of the dimensions the grid was built with.
    pub fn set_state(&mut self, state: Vec<Vec<bool>>)
        requires
            state@.len() == old(self).height(),
            forall|y: int|
                0 <= y < state@.len() ==> (#[trigger] state@[y])@.len() == old(self).width(),
        ensures
            final(self).wf(),
            final(self).height() == old(self).height(),
            final(self).width() == old(self).width(),
            forall|y: int| 0 <= y < state@.len() ==> final(self)@[y] == (#[trigger] state@[y])@,
    {
        self.state = state;
    }

    /// Bounds-checked write to one cell; any other cell keeps its state.
    /// Out-of-bounds coordinates are reported, never clamped.
    pub fn set(&mut self, x: usize, y: usize, alive: bool) -> (r: Option<()>)
        requires
            old(self).wf(),
        ensures
            final(self).wf(),
            final(self).height() == old(self).height(),
            final(self).width() == old(self).width(),
            old(self).in_bounds(x as int, y as int) ==> {
                &&& r == Some(())
                &&& final(self)@ == old(self)@.update(
                    y as int,
                    old(self)@[y as int].update(x as int, alive),
                )
                &&& final(self).cell(x as int, y as int) == alive
                &&& forall|i: int, j: int|
                    old(self).in_bounds(i, j) && !(i == x && j == y)
                        ==> final(self).cell(i, j) == old(self).cell(i, j)
            },
            !old(self).in_bounds(x as int, y as int) ==> {
                &&& r is None
                &&& final(self)@ == old(self)@
            },
    {
        let r = GameOfLife::set_cell(&mut self.state, x, y, alive);
        proof {
            if old(self).in_bounds(x as int, y as int) {
                assert(forall|j: int|
                    0 <= j < self@.len() && j != y ==> self@[j] == old(self)@[j]);
                assert(self@[y as int] == old(self)@[y as int].update(x as int, alive));
                assert(self@ =~= old(self)@.update(
                    y as int,
                    old(self)@[y as int].update(x as int, alive),
                ));
            } else {
                if y < old(self).height() {
                    assert(old(self)@[y as int].len() == old(self).width());
                }
                assert(self@ =~= old(self)@);
            }
        }
        r
    }

    /// Bounds-checked read. Coordinates are signed so that neighbor
    /// arithmetic at the edges needs no care from the caller: any
    /// position outside the grid answers `None`, which is distinguishable
    /// from a dead cell.
    pub fn get(&self, x: i32, y: i32) -> (r: Option<bool>)
        requires
            self.wf(),
        ensures
            self.in_bounds(x as int, y as int) ==> r == Some(self.cell(x as int, y as int)),
            !self.in_bounds(x as int, y as int) ==> r is None,
    {
        if x < 0 || y < 0 {
            return None;
        }
        let xx = x as usize;
        let yy = y as usize;
        if yy < self.state.len() {
            let row = &self.state[yy];
            if xx < row.len() {
                return Some(row[xx]);
            }
        }
        None
    }

    /// Whether `(x, y)` is an alive cell of the grid; any position beyond
    /// the edges simply counts for nothing.
    fn is_alive(&self, x: i32, y: i32) -> (r: bool)
        requires
            self.wf(),
        ensures
            r == self.alive_at(x as int, y as int),
    {
        match self.get(x, y) {
            Some(true) => true,
            _ => false,
        }
    }

    /// Counts the alive cells among the 8 positions surrounding `(x, y)`,
    /// reading only the current generation.
    fn count_neighbours(&self, x: usize, y: usize) -> (n: u8)
        requires
            self.wf(),
            x < self.width(),
            y < self.height(),
            self.width() <= i32::MAX,
            self.height() <= i32::MAX,
        ensures
            n == self.live_neighbors(x as int, y as int),
    {
        let xx = x as i32;
        let yy = y as i32;
        let mut n: u8 = 0;
        if self.is_alive(xx - 1, yy - 1) {
            n = n + 1;
        }
        if self.is_alive(xx, yy - 1) {
            n = n + 1;
        }
        if self.is_alive(xx + 1, yy - 1) {
            n = n + 1;
        }
        if self.is_alive(xx - 1, yy) {
            n = n + 1;
        }
        if self.is_alive(xx + 1, yy) {
            n = n + 1;
        }
        if self.is_alive(xx - 1, yy + 1) {
            n = n + 1;
        }
        if self.is_alive(xx, yy + 1) {
            n = n + 1;
        }
        if self.is_alive(xx + 1, yy + 1) {
            n = n + 1;
        }
        n
    }

    /// Advances the grid one generation. Every cell's next state is
    /// decided from the same prior generation: the new matrix is built in
    /// a separate buffer and installed in one replace, so no decision ever
    /// reads an already-updated neighbor.
    pub fn step(&mut self)
        requires
            old(self).wf(),
            old(self).width() <= i32::MAX,
            old(self).height() <= i32::MAX,
        ensures
            final(self).wf(),
            final(self).height() == old(self).height(),
            final(self).width() == old(self).width(),
            forall|x: int, y: int|
                old(self).in_bounds(x, y) ==> final(self).cell(x, y) == old(self).next_cell(x, y),
    {
        let h = self.state.len();
        let w = if h == 0 {
            0
        } else {
            self.state[0].len()
        };
        let mut next_state: Vec<Vec<bool>> = Vec::new();
        let mut y: usize = 0;
        while y < h
            invariant
                self == old(self),
                self.wf(),
                h == self.height(),
                w == self.width(),
                w <= i32::MAX,
                h <= i32::MAX,
                y <= h,
                next_state@.len() == y,
                forall|j: int| 0 <= j < y ==> (#[trigger] next_state@[j])@.len() == w,
                forall|i: int, j: int|
                    0 <= j < y && 0 <= i < w ==> (#[trigger] next_state@[j]@[i]) == self.next_cell(
                        i,
                        j,
                    ),
            decreases h - y,
        {
            let mut row: Vec<bool> = Vec::new();
            let mut x: usize = 0;
            while x < w
                invariant
                    self == old(self),
                    self.wf(),
                    h == self.height(),
                    w == self.width(),
                    w <= i32::MAX,
                    h <= i32::MAX,
                    y < h,
                    x <= w,
                    row@.len() == x,
                    forall|i: int|
                        0 <= i < x ==> (#[trigger] row@[i]) == self.next_cell(i, y as int),
                decreases w - x,
            {
                proof {
                    assert(self@[y as int].len() == w);
                }
                let alive = self.state[y][x];
                let n = self.count_neighbours(x, y);
                let next = if alive {
                    n == 2 || n == 3
                } else {
                    n == 3
                };
                row.push(next);
                x = x + 1;
            }
            next_state.push(row);
            y = y + 1;
        }
        let ghost rows = next_state@;
        self.set_state(next_state);
        proof {
            assert forall|x: int, j: int| old(self).in_bounds(x, j) implies self.cell(x, j)
                == old(self).next_cell(x, j) by {
                assert(self@[j] == rows[j]@);
                assert(rows[j]@[x] == old(self).next_cell(x, j));
            }
        }
    }

    /// The coordinates of every alive cell, in row-major scan order.
    pub fn alive_cells(&self) -> (r: Vec<(i32, i32)>)
        requires
            self.wf(),
            self.width() <= i32::MAX,
            self.height() <= i32::MAX,
        ensures
            r@ == self.alive_list(),
    {
        let h = self.state.len();
        let w = if h == 0 {
            0
        } else {
            self.state[0].len()
        };
        let mut r: Vec<(i32, i32)> = Vec::new();
        let mut y: usize = 0;
        while y < h
            invariant
                self.wf(),
                h == self.height(),
                w == self.width(),
                w <= i32::MAX,
                h <= i32::MAX,
                y <= h,
                r@ == self.alive_up_to(y as int),
            decreases h - y,
        {
            let mut x: usize = 0;
            while x < w
                invariant
                    self.wf(),
                    h == self.height(),
                    w == self.width(),
                    w <= i32::MAX,
                    h <= i32::MAX,
                    y < h,
                    x <= w,
                    r@ == self.alive_up_to(y as int) + self.alive_in_row_up_to(y as int, x as int),
                decreases w - x,
            {
                proof {
                    assert(self@[y as int].len() == w);
                }
                if self.state[y][x] {
                    r.push((x as i32, y as i32));
                }
                proof {
                    assert(r@ =~= self.alive_up_to(y as int) + self.alive_in_row_up_to(
                        y as int,
                        x + 1,
                    ));
                }
                x = x + 1;
            }
            proof {
                assert(r@ =~= self.alive_up_to(y + 1));
            }
            y = y + 1;
        }
        r
    }

    /// The text of one cell: a `|` separator, then `x` for alive or a
    /// blank for dead, and a closing `|` after the last cell of a row.
    pub open spec fn cell_text(self, x: int, y: int) -> Seq<char> {
        seq!['|'] + (if self.cell(x, y) {
            seq!['x']
        } else {
            seq![' ']
        }) + (if x == self.width() - 1 {
            seq!['|']
        } else {
            Seq::<char>::empty()
        })
    }

    /// The text of row `y` over its first `x` cells.
    pub open spec fn row_text_up_to(self, y: int, x: int) -> Seq<char>
        decreases x,
    {
        if x <= 0 {
            Seq::empty()
        } else {
            self.row_text_up_to(y, x - 1) + self.cell_text(x - 1, y)
        }
    }

    /// The text of the first `y` rows, each closed by a newline.
    pub open spec fn text_up_to(self, y: int) -> Seq<char>
        decreases y,
    {
        if y <= 0 {
            Seq::empty()
        } else {
            self.text_up_to(y - 1) + self.row_text_up_to(y - 1, self.width() as int) + seq!['\n']
        }
    }

    /// The whole grid as text, one line per row.
    pub open spec fn text(self) -> Seq<char> {
        self.text_up_to(self.height() as int)
    }

    /// Renders the grid as text, one line per row: every cell between `|`
    /// separators, `x` for alive and a blank for dead.
    pub fn render(&self) -> (r: String)
        requires
            self.wf(),
        ensures
            r@ == self.text(),
    {
        let h = self.state.len();
        let w = if h == 0 {
            0
        } else {
            self.state[0].len()
        };
        let mut out: Vec<char> = Vec::new();
        let mut y: usize = 0;
        while y < h
            invariant
                self.wf(),
                h == self.height(),
                w == self.width(),
                y <= h,
                out@ == self.text_up_to(y as int),
            decreases h - y,
        {
            let mut x: usize = 0;
            while x < w
                invariant
                    self.wf(),
                    h == self.height(),
                    w == self.width(),
                    y < h,
                    x <= w,
                    out@ == self.text_up_to(y as int) + self.row_text_up_to(y as int, x as int),
                decreases w - x,
            {
                proof {
                    assert(self@[y as int].len() == w);
                }
                out.push('|');
                if self.state[y][x] {
                    out.push('x');
                } else {
                    out.push(' ');
                }
                if x == w - 1 {
                    out.push('|');
                }
                proof {
                    assert(out@ =~= self.text_up_to(y as int) + self.row_text_up_to(
                        y as int,
                        x + 1,
                    ));
                }
                x = x + 1;
            }
            out.push('\n');
            proof {
                assert(out@ =~= self.text_up_to(y + 1));
            }
            y = y + 1;
        }
        chars_to_string(out)
    }

    /// 1 when `(x, y)` is a real cell of the grid, 0 otherwise.
    pub open spec fn present_score(self, x: int, y: int) -> int {
        if self.in_bounds(x, y) {
            1
        } else {
            0
        }
    }

    /// How many of the 8 surrounding positions are real cells. A cell in
    /// the interior has 8; one on an edge or corner has fewer.
    pub open spec fn present_neighbors(self, x: int, y: int) -> int {
        self.present_score(x - 1, y - 1) + self.present_score(x, y - 1) + self.present_score(
            x + 1,
            y - 1,
        ) + self.present_score(x - 1, y) + self.present_score(x + 1, y) + self.present_score(
            x - 1,
            y + 1,
        ) + self.present_score(x, y + 1) + self.present_score(x + 1, y + 1)
    }

    /// Number of rows, as the presentation layer reads it.
    pub fn get_height(&self) -> (h: usize)
        ensures
            h == self.height(),
    {
        self.state.len()
    }

    /// Number of columns, as the presentation layer reads it.
    pub fn get_width(&self) -> (w: usize)
        ensures
            w == self.width(),
    {
        if self.state.len() == 0 {
            0
        } else {
            self.state[0].len()
        }
    }
}

/// A `set` at a valid coordinate followed by a `get` of the same
/// coordinate reads back the just-set value, and no other cell has moved.
/// The hypothesis on `after` is exactly what `set` ensures of a valid
/// write; the conclusions are what `get`'s contract then makes of the new
/// grid: the coordinate is still a real cell, so `get` answers a definite
/// value, and that value is the one just set.
pub proof fn lemma_set_then_get(g: GameOfLife, after: GameOfLife, x: usize, y: usize, alive: bool)
    requires
        g.wf(),
        g.in_bounds(x as int, y as int),
        after@ == g@.update(y as int, g@[y as int].update(x as int, alive)),
    ensures
        after.wf(),
        after.height() == g.height(),
        after.width() == g.width(),
        after.in_bounds(x as int, y as int),
        after.cell(x as int, y as int) == alive,
        forall|i: int, j: int|
            g.in_bounds(i, j) && !(i == x && j == y) ==> after.cell(i, j) == g.cell(i, j),
{
    assert(after@[y as int].len() == g@[y as int].len());
}

proof fn lemma_alive_in_row_membership(g: GameOfLife, y: int, x: int)
    requires
        g.wf(),
        0 <= y < g.height(),
        g.width() <= i32::MAX,
        g.height() <= i32::MAX,
        0 <= x <= g.width(),
    ensures
        forall|p: (i32, i32)| #[trigger] g.alive_in_row_up_to(y, x).contains(p) <==> (p.1 == y && 0
            <= p.0 < x && g.cell(p.0 as int, y)),
    decreases x,
{
    if x > 0 {
        lemma_alive_in_row_membership(g, y, x - 1);
        let prev = g.alive_in_row_up_to(y, x - 1);
        let cur = g.alive_in_row_up_to(y, x);
        assert forall|p: (i32, i32)| #[trigger] cur.contains(p) implies (p.1 == y && 0 <= p.0 < x
            && g.cell(p.0 as int, y)) by {
            let i = choose|i: int| 0 <= i < cur.len() && cur[i] == p;
            if i < prev.len() {
                assert(prev[i] == p);
                assert(prev.contains(p));
            } else {
                assert(g.cell(x - 1, y));
                assert(p == (((x - 1) as i32), y as i32));
            }
        }
        assert forall|p: (i32, i32)| (p.1 == y && 0 <= p.0 < x && g.cell(p.0 as int, y)) implies #[trigger] cur.contains(
            p,
        ) by {
            if p.0 < x - 1 {
                assert(prev.contains(p));
                let i = choose|i: int| 0 <= i < prev.len() && prev[i] == p;
                assert(cur[i] == p);
            } else {
                assert(p == (((x - 1) as i32), y as i32));
                assert(cur[cur.len() - 1] == p);
            }
        }
    }
}

proof fn lemma_alive_up_to_membership(g: GameOfLife, y: int)
    requires
        g.wf(),
        g.width() <= i32::MAX,
        g.height() <= i32::MAX,
        0 <= y <= g.height(),
    ensures
        forall|p: (i32, i32)| #[trigger] g.alive_up_to(y).contains(p) <==> (0 <= p.1 < y && 0 <= p.0
            < g.width() && g.cell(p.0 as int, p.1 as int)),
    decreases y,
{
    if y > 0 {
        lemma_alive_up_to_membership(g, y - 1);
        lemma_alive_in_row_membership(g, y - 1, g.width() as int);
        let prev = g.alive_up_to(y - 1);
        let row = g.alive_in_row_up_to(y - 1, g.width() as int);
        let cur = g.alive_up_to(y);
        assert forall|p: (i32, i32)| #[trigger] cur.contains(p) implies (0 <= p.1 < y && 0 <= p.0
            < g.width() && g.cell(p.0 as int, p.1 as int)) by {
            let i = choose|i: int| 0 <= i < cur.len() && cur[i] == p;
            if i < prev.len() {
                assert(prev[i] == p);
                assert(prev.contains(p));
            } else {
                assert(row[i - prev.len()] == p);
                assert(row.contains(p));
            }
        }
        assert forall|p: (i32, i32)| (0 <= p.1 < y && 0 <= p.0 < g.width() && g.cell(
            p.0 as int,
            p.1 as int,
        )) implies #[trigger] cur.contains(p) by {
            if p.1 < y - 1 {
                assert(prev.contains(p));
                let i = choose|i: int| 0 <= i < prev.len() && prev[i] == p;
                assert(cur[i] == p);
            } else {
                assert(row.contains(p));
                let i = choose|i: int| 0 <= i < row.len() && row[i] == p;
                assert(cur[prev.len() + i] == p);
            }
        }
    }
}

/// The snapshot holds exactly the alive cells: a coordinate pair occurs
/// in the alive list if and only if it names a real cell of the grid that
/// is alive.
pub proof fn lemma_alive_list_membership(g: GameOfLife)
    requires
        g.wf(),
        g.width() <= i32::MAX,
        g.height() <= i32::MAX,
    ensures
        forall|p: (i32, i32)| #[trigger] g.alive_list().contains(p) <==> g.alive_at(
            p.0 as int,
            p.1 as int,
        ),
{
    lemma_alive_up_to_membership(g, g.height() as int);
}

/// A position outside the grid never counts as a neighbor: every neighbor
/// count is bounded by the number of surrounding positions that are real
/// cells, so a border cell's count can never draw on positions past the
/// edge.
pub proof fn lemma_edge_neighbors(g: GameOfLife, x: int, y: int)
    ensures
        0 <= g.live_neighbors(x, y) <= g.present_neighbors(x, y) <= 8,
        !g.in_bounds(x, y) ==> g.alive_score(x, y) == 0,
{
}

} // verus!

