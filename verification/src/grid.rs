//! The bordered playfield: a rectangular cell matrix with an immutable
//! outer ring, food placement, and occupancy queries.

use vstd::prelude::*;
use vstd::string::StringExecFns;
use crate::rng::randint;

verus! {

/// The state of one grid cell.
#[derive(Clone, Copy, Debug, PartialEq, Eq, Structural)]
pub enum Cell {
    Empty,
    Border,
    Food,
    Occupied,
}

/// The playfield matrix: rows of cells, indexed `area[row][column]`.
pub type Area = Vec<Vec<Cell>>;

/// A `(x, y)` cell address: `x` is the column, `y` the row.
pub type Coordinates = (usize, usize);

/// The largest valid column and row index of a grid.
pub type Dimensions = (usize, usize);

/// Is `(x, y)` on the outermost ring of a grid whose last valid indices
/// are `max_x` and `max_y`?
pub open spec fn on_ring(max_x: int, max_y: int, x: int, y: int) -> bool {
    x == 0 || x == max_x || y == 0 || y == max_y
}

/// Does some body segment at an index below `upto` sit on `(x, y)`?
pub open spec fn covered(body: Seq<(usize, usize)>, upto: int, x: int, y: int) -> bool {
    exists|i: int| 0 <= i < upto && i < body.len()
        && (#[trigger] body[i]).0 == x && body[i].1 == y
}

/// The playfield: a cell matrix of `(max_y + 1)` rows of `(max_x + 1)`
/// cells each, whose outermost ring is `Border`.
pub struct Game {
    pub max_x: usize,
    pub max_y: usize,
    pub area: Area,
}

impl Game {
    /// The cell at column `x`, row `y`.
    pub open spec fn cell(self, x: int, y: int) -> Cell {
        self.area@[y]@[x]
    }

    /// Is `(x, y)` a valid cell address?
    pub open spec fn in_bounds(self, x: int, y: int) -> bool {
        0 <= x <= self.max_x && 0 <= y <= self.max_y
    }

    /// Is `(x, y)` strictly inside the border ring?
    pub open spec fn interior(self, x: int, y: int) -> bool {
        1 <= x < self.max_x && 1 <= y < self.max_y
    }

    /// A rectangular matrix, at least one interior cell, border ring intact.
    pub open spec fn wf(self) -> bool {
        &&& 2 <= self.max_x
        &&& 2 <= self.max_y
        &&& self.area@.len() == self.max_y + 1
        &&& forall|y: int| 0 <= y <= self.max_y ==> (#[trigger] self.area@[y])@.len() == self.max_x + 1
        &&& forall|x: int, y: int|
                self.in_bounds(x, y) && on_ring(self.max_x as int, self.max_y as int, x, y)
                ==> #[trigger] self.cell(x, y) == Cell::Border
    }

    /// Every interior cell is `Occupied`: the winning configuration.
    pub open spec fn full(self) -> bool {
        forall|x: int, y: int| self.interior(x, y) ==> #[trigger] self.cell(x, y) == Cell::Occupied
    }

    /// Is the cell at `(x, y)` a legal destination (neither `Border` nor
    /// `Occupied`)?
    pub open spec fn move_legal(self, x: int, y: int) -> bool {
        self.cell(x, y) != Cell::Border && self.cell(x, y) != Cell::Occupied
    }

    /// The largest valid column and row index.
    pub fn size(&self) -> (r: Dimensions)
        ensures
            r == (self.max_x, self.max_y),
    {
        (self.max_x, self.max_y)
    }

    /// Read the cell under `pos`.
    pub fn at(&self, pos: Coordinates) -> (r: Cell)
        requires
            self.wf(),
            self.in_bounds(pos.0 as int, pos.1 as int),
        ensures
            r == self.cell(pos.0 as int, pos.1 as int),
    {
        self.area[pos.1][pos.0]
    }

    /// Set one interior cell to `state`; every other cell keeps its value.
    pub fn mark(&mut self, pos: Coordinates, state: Cell)
        requires
            old(self).wf(),
            old(self).interior(pos.0 as int, pos.1 as int),
        ensures
            final(self).wf(),
            final(self).max_x == old(self).max_x,
            final(self).max_y == old(self).max_y,
            final(self).cell(pos.0 as int, pos.1 as int) == state,
            forall|x: int, y: int|
                old(self).in_bounds(x, y) && !(x == pos.0 as int && y == pos.1 as int)
                ==> #[trigger] final(self).cell(x, y) == old(self).cell(x, y),
    {
        self.area[pos.1][pos.0] = state;
        proof {
            assert(self.area@[pos.1 as int]@ == old(self).area@[pos.1 as int]@.update(pos.0 as int, state));
            assert(self.area@ == old(self).area@.update(pos.1 as int, self.area@[pos.1 as int]));
            assert forall|y: int| 0 <= y <= self.max_y implies
                (#[trigger] self.area@[y])@.len() == self.max_x + 1 by {
                assert(old(self).area@[y]@.len() == self.max_x + 1);
            }
            assert forall|x: int, y: int|
                self.in_bounds(x, y) && !(x == pos.0 as int && y == pos.1 as int)
                implies #[trigger] self.cell(x, y) == old(self).cell(x, y) by {
                assert(self.area@[y] == old(self).area@.update(pos.1 as int, self.area@[pos.1 as int])[y]);
            }
            assert forall|x: int, y: int|
                self.in_bounds(x, y) && on_ring(self.max_x as int, self.max_y as int, x, y)
                implies #[trigger] self.cell(x, y) == Cell::Border by {
                assert(old(self).cell(x, y) == Cell::Border);
            }
        }
    }

    /// Mark the cell under `pos` `Occupied`.
    pub fn to_player(&mut self, pos: Coordinates)
        requires
            old(self).wf(),
            old(self).interior(pos.0 as int, pos.1 as int),
        ensures
            final(self).wf(),
            final(self).max_x == old(self).max_x,
            final(self).max_y == old(self).max_y,
            final(self).cell(pos.0 as int, pos.1 as int) == Cell::Occupied,
            forall|x: int, y: int|
                old(self).in_bounds(x, y) && !(x == pos.0 as int && y == pos.1 as int)
                ==> #[trigger] final(self).cell(x, y) == old(self).cell(x, y),
    {
        self.mark(pos, Cell::Occupied)
    }

    /// Mark the cell under `pos` `Empty`.
    pub fn to_empty(&mut self, pos: Coordinates)
        requires
            old(self).wf(),
            old(self).interior(pos.0 as int, pos.1 as int),
        ensures
            final(self).wf(),
            final(self).max_x == old(self).max_x,
            final(self).max_y == old(self).max_y,
            final(self).cell(pos.0 as int, pos.1 as int) == Cell::Empty,
            forall|x: int, y: int|
                old(self).in_bounds(x, y) && !(x == pos.0 as int && y == pos.1 as int)
                ==> #[trigger] final(self).cell(x, y) == old(self).cell(x, y),
    {
        self.mark(pos, Cell::Empty)
    }

    /// Place food on a uniformly chosen interior cell, overwriting whatever
    /// the cell held; every other cell keeps its value. The chosen cell may
    /// lie under the player's body.
    pub fn new_food(&mut self)
        requires
            old(self).wf(),
        ensures
            final(self).wf(),
            final(self).max_x == old(self).max_x,
            final(self).max_y == old(self).max_y,
            exists|px: int, py: int| {
                &&& #[trigger] old(self).interior(px, py)
                &&& final(self).cell(px, py) == Cell::Food
                &&& forall|x: int, y: int|
                        old(self).in_bounds(x, y) && !(x == px && y == py)
                        ==> #[trigger] final(self).cell(x, y) == old(self).cell(x, y)
            },
    {
        let x = randint(1..self.max_x);
        let y = randint(1..self.max_y);
        self.mark((x, y), Cell::Food);
        proof {
            assert(old(self).interior(x as int, y as int));
        }
    }

    /// Mark the cell of every body segment `Occupied`, the head's
    /// included; every other cell keeps its value.
    pub fn update(&mut self, body: &Vec<Coordinates>)
        requires
            old(self).wf(),
            forall|i: int| 0 <= i < body@.len()
                ==> old(self).interior((#[trigger] body@[i]).0 as int, body@[i].1 as int),
        ensures
            final(self).wf(),
            final(self).max_x == old(self).max_x,
            final(self).max_y == old(self).max_y,
            forall|x: int, y: int| old(self).in_bounds(x, y)
                ==> #[trigger] final(self).cell(x, y) == (
                    if covered(body@, body@.len() as int, x, y) { Cell::Occupied }
                    else { old(self).cell(x, y) }),
    {
        let mut i: usize = 0;
        while i < body.len()
            invariant
                i <= body@.len(),
                self.wf(),
                self.max_x == old(self).max_x,
                self.max_y == old(self).max_y,
                forall|j: int| 0 <= j < body@.len()
                    ==> old(self).interior((#[trigger] body@[j]).0 as int, body@[j].1 as int),
                forall|x: int, y: int| old(self).in_bounds(x, y)
                    ==> #[trigger] self.cell(x, y) == (
                        if covered(body@, i as int, x, y) { Cell::Occupied }
                        else { old(self).cell(x, y) }),
            decreases body@.len() - i,
        {
            let ghost pre = *self;
            let seg = body[i];
            self.mark(seg, Cell::Occupied);
            proof {
                assert forall|x: int, y: int| old(self).in_bounds(x, y)
                    implies #[trigger] self.cell(x, y) == (
                        if covered(body@, i + 1, x, y) { Cell::Occupied }
                        else { old(self).cell(x, y) }) by {
                    if x == seg.0 as int && y == seg.1 as int {
                        assert(covered(body@, i + 1, x, y)) by {
                            assert(0 <= i < i + 1 && i < body@.len()
                                && body@[i as int].0 == x && body@[i as int].1 == y);
                        }
                    } else {
                        assert(self.cell(x, y) == pre.cell(x, y));
                        if covered(body@, i + 1, x, y) {
                            let k = choose|k: int| 0 <= k < i + 1 && k < body@.len()
                                && (#[trigger] body@[k]).0 == x && body@[k].1 == y;
                            assert(k < i);
                            assert(covered(body@, i as int, x, y));
                        }
                    }
                }
            }
            i += 1;
        }
    }

    /// Is every interior cell `Occupied`?
    pub fn is_over(&self) -> (r: bool)
        requires
            self.wf(),
        ensures
            r == self.full(),
    {
        let mut y: usize = 1;
        while y < self.max_y
            invariant
                self.wf(),
                1 <= y <= self.max_y,
                forall|xx: int, yy: int| 1 <= xx < self.max_x && 1 <= yy < y
                    ==> #[trigger] self.cell(xx, yy) == Cell::Occupied,
            decreases self.max_y - y,
        {
            let mut x: usize = 1;
            while x < self.max_x
                invariant
                    self.wf(),
                    1 <= y < self.max_y,
                    1 <= x <= self.max_x,
                    forall|xx: int, yy: int| 1 <= xx < self.max_x && 1 <= yy < y
                        ==> #[trigger] self.cell(xx, yy) == Cell::Occupied,
                    forall|xx: int| 1 <= xx < x
                        ==> #[trigger] self.cell(xx, y as int) == Cell::Occupied,
                decreases self.max_x - x,
            {
                if self.at((x, y)) != Cell::Occupied {
                    return false;
                }
                x += 1;
            }
            y += 1;
        }
        true
    }

    /// Is the cell under `pos` a legal destination?
    pub fn can_move(&self, pos: &Coordinates) -> (r: bool)
        requires
            self.wf(),
            self.in_bounds(pos.0 as int, pos.1 as int),
        ensures
            r == self.move_legal(pos.0 as int, pos.1 as int),
    {
        let c = self.at(*pos);
        c != Cell::Border && c != Cell::Occupied
    }
}

/// Build a `(columns + 2) × (rows + 2)` matrix: a `Border` ring around an
/// all-`Empty` interior, returned with its largest valid indices.
pub fn new_game(columns: usize, rows: usize) -> (g: Game)
    requires
        1 <= columns,
        1 <= rows,
        columns + 2 <= usize::MAX,
        rows + 2 <= usize::MAX,
    ensures
        g.wf(),
        g.max_x == columns + 1,
        g.max_y == rows + 1,
        forall|x: int, y: int| g.interior(x, y) ==> #[trigger] g.cell(x, y) == Cell::Empty,
{
    let columns = columns + 2;
    let rows = rows + 2;

    let max_x = columns - 1;
    let max_y = rows - 1;

    let mut area: Area = Vec::new();
    let mut y: usize = 0;
    while y < rows
        invariant
            columns == max_x + 1,
            rows == max_y + 1,
            2 <= max_x,
            2 <= max_y,
            y <= rows,
            area@.len() == y,
            forall|yy: int| 0 <= yy < y ==> (#[trigger] area@[yy])@.len() == columns,
            forall|xx: int, yy: int| 0 <= yy < y && 0 <= xx < columns
                ==> #[trigger] area@[yy]@[xx] == (
                    if on_ring(max_x as int, max_y as int, xx, yy) { Cell::Border }
                    else { Cell::Empty }),
        decreases rows - y,
    {
        let mut row: Vec<Cell> = Vec::new();
        let mut x: usize = 0;
        while x < columns
            invariant
                columns == max_x + 1,
                rows == max_y + 1,
                y < rows,
                x <= columns,
                row@.len() == x,
                forall|xx: int| 0 <= xx < x
                    ==> #[trigger] row@[xx] == (
                        if on_ring(max_x as int, max_y as int, xx, y as int) { Cell::Border }
                        else { Cell::Empty }),
            decreases columns - x,
        {
            if y == 0 || y == max_y || x == 0 || x == max_x {
                row.push(Cell::Border);
            } else {
                row.push(Cell::Empty);
            }
            x += 1;
        }
        area.push(row);
        y += 1;
    }
    Game { max_x, max_y, area }
}

/// The glyph a cell is drawn with.
pub open spec fn spec_glyph(c: Cell) -> char {
    match c {
        Cell::Empty => ' ',
        Cell::Border => '#',
        Cell::Food => '*',
        Cell::Occupied => 'o',
    }
}

/// The first `upto` cells of one row, rendered: each cell's glyph
/// followed by one space.
pub open spec fn row_text(row: Seq<Cell>, upto: int) -> Seq<char>
    decreases upto,
{
    if upto <= 0 {
        Seq::empty()
    } else {
        row_text(row, upto - 1) + seq![spec_glyph(row[upto - 1]), ' ']
    }
}

/// The first `upto` rows of the matrix, rendered and joined with
/// newlines.
pub open spec fn area_text(area: Seq<Vec<Cell>>, upto: int) -> Seq<char>
    decreases upto,
{
    if upto <= 0 {
        Seq::empty()
    } else if upto == 1 {
        row_text(area[0]@, area[0]@.len() as int)
    } else {
        area_text(area, upto - 1) + seq!['\n'] + row_text(
            area[upto - 1]@,
            area[upto - 1]@.len() as int,
        )
    }
}

/// Render the matrix as one printable frame: one line per row, each cell
/// as its glyph and a space, lines joined with newlines.
pub fn refresh(area: &Area) -> (r: String)
    ensures
        r@ == area_text(area@, area@.len() as int),
{
    let mut bag = String::new();
    let mut y: usize = 0;
    while y < area.len()
        invariant
            y <= area@.len(),
            bag@ == area_text(area@, y as int),
        decreases area@.len() - y,
    {
        let row = &area[y];
        let mut line = String::new();
        let mut x: usize = 0;
        while x < row.len()
            invariant
                y < area@.len(),
                row == area@[y as int],
                x <= row@.len(),
                line@ == row_text(row@, x as int),
            decreases row@.len() - x,
        {
            let piece: &str = match row[x] {
                Cell::Empty => "  ",
                Cell::Border => "# ",
                Cell::Food => "* ",
                Cell::Occupied => "o ",
            };
            proof {
                reveal_strlit("  ");
                reveal_strlit("# ");
                reveal_strlit("* ");
                reveal_strlit("o ");
                assert(piece@ =~= seq![spec_glyph(row@[x as int]), ' ']);
            }
            line.append(piece);
            x += 1;
        }
        if y > 0 {
            proof {
                reveal_strlit("\n");
                assert("\n"@ =~= seq!['\n']);
            }
            bag.append("\n");
        }
        bag.append(line.as_str());
        y += 1;
    }
    bag
}

} // verus!

