use vstd::prelude::*;

verus! {

/// One wall cell of the grid, by column and row.
#[derive(Clone, Copy, Debug, PartialEq, Eq, Structural)]
pub struct Wall {
    pub x: u32,
    pub y: u32,
}

/// The level: a square grid of `world_size` by `world_size` cells, each
/// `cell_size` pixels wide; `walls[y][x]` tells whether cell `(x, y)` is a wall.
#[derive(Clone, Debug)]
pub struct WorldData {
    pub world_size: u32,
    pub cell_size: u32,
    pub walls: Vec<Vec<bool>>,
}

/// Whether cell `(x, y)` of an `n` by `n` grid lies on its border or at its centre.
pub open spec fn border_or_center(n: int, x: int, y: int) -> bool {
    x == 0 || y == 0 || x == n - 1 || y == n - 1 || (x == n / 2 && y == n / 2)
}

/// The walls of the first `n` cells of row `y`, left to right.
pub open spec fn row_walls(row: Seq<bool>, y: u32, n: int) -> Seq<Wall>
    decreases n,
{
    if n <= 0 {
        Seq::empty()
    } else {
        let rest = row_walls(row, y, n - 1);
        if row[n - 1] {
            rest.push(Wall { x: (n - 1) as u32, y })
        } else {
            rest
        }
    }
}

/// The walls of the first `m` rows of the grid, row by row, each `width` cells wide.
pub open spec fn grid_walls(grid: Seq<Seq<bool>>, width: int, m: int) -> Seq<Wall>
    decreases m,
{
    if m <= 0 {
        Seq::empty()
    } else {
        grid_walls(grid, width, m - 1) + row_walls(grid[m - 1], (m - 1) as u32, width)
    }
}

impl WorldData {
    /// The grid as rows of cells.
    pub open spec fn grid(self) -> Seq<Seq<bool>> {
        self.walls@.map_values(|row: Vec<bool>| row@)
    }

    /// The grid has `world_size` rows of `world_size` cells.
    pub open spec fn well_formed(self) -> bool {
        &&& self.walls@.len() == self.world_size
        &&& forall|y: int| 0 <= y < self.world_size ==> #[trigger] self.walls@[y]@.len() == self.world_size
    }

    /// Whether cell `(x, y)` is a wall.
    pub open spec fn wall_at(self, x: int, y: int) -> bool {
        self.walls@[y]@[x]
    }

    /// A `tiles` by `tiles` grid walled along its border and at its centre,
    /// sized to fit a `window_width` by `window_height` window.
    pub fn new(tiles: u32, window_width: u32, window_height: u32) -> (w: WorldData)
        requires
            tiles > 0,
        ensures
            w.well_formed(),
            w.world_size == tiles,
            w.cell_size == (if window_width <= window_height {
                window_width
            } else {
                window_height
            }) / tiles,
            forall|x: int, y: int|
                0 <= x < tiles && 0 <= y < tiles ==> #[trigger] w.wall_at(x, y) == border_or_center(
                    tiles as int,
                    x,
                    y,
                ),
    {
        let min_dimension = if window_width <= window_height {
            window_width
        } else {
            window_height
        };
        let cell_size = min_dimension / tiles;
        let last = tiles - 1;
        let mid = tiles / 2;
        let mut walls: Vec<Vec<bool>> = Vec::new();
        let mut y: u32 = 0;
        while y < tiles
            invariant
                y <= tiles,
                last == tiles - 1,
                mid == tiles / 2,
                walls@.len() == y,
                forall|r: int| 0 <= r < y ==> #[trigger] walls@[r]@.len() == tiles,
                forall|x: int, r: int|
                    0 <= x < tiles && 0 <= r < y ==> #[trigger] walls@[r]@[x] == border_or_center(
                        tiles as int,
                        x,
                        r,
                    ),
            decreases tiles - y,
        {
            let mut row: Vec<bool> = Vec::new();
            let mut x: u32 = 0;
            while x < tiles
                invariant
                    x <= tiles,
                    y < tiles,
                    last == tiles - 1,
                    mid == tiles / 2,
                    row@.len() == x,
                    forall|c: int|
                        0 <= c < x ==> #[trigger] row@[c] == border_or_center(tiles as int, c, y as int),
                decreases tiles - x,
            {
                row.push(x == 0 || y == 0 || x == last || y == last || (x == mid && y == mid));
                x += 1;
            }
            walls.push(row);
            y += 1;
        }
        WorldData { world_size: tiles, cell_size, walls }
    }

    /// Whether the grid has `world_size` rows of `world_size` cells.
    pub fn check_shape(&self) -> (r: bool)
        ensures
            r == self.well_formed(),
    {
        if self.walls.len() != self.world_size as usize {
            return false;
        }
        let mut y: usize = 0;
        while y < self.walls.len()
            invariant
                self.walls@.len() == self.world_size,
                y <= self.walls@.len(),
                forall|r: int| 0 <= r < y ==> #[trigger] self.walls@[r]@.len() == self.world_size,
            decreases self.walls@.len() - y,
        {
            if self.walls[y].len() != self.world_size as usize {
                return false;
            }
            y += 1;
        }
        true
    }

    pub fn get_wall_array(&self) -> (r: &Vec<Vec<bool>>)
        ensures
            r == &self.walls,
    {
        &self.walls
    }

    /// Whether `(x, y)` is a wall; every cell outside the grid counts as one.
    pub fn is_wall(&self, x: i32, y: i32) -> (r: bool)
        requires
            self.well_formed(),
        ensures
            r == if x < 0 || y < 0 || x >= self.world_size || y >= self.world_size {
                true
            } else {
                self.wall_at(x as int, y as int)
            },
    {
        if x < 0 || y < 0 || x as u32 >= self.world_size || y as u32 >= self.world_size {
            return true;
        }
        self.walls[y as usize][x as usize]
    }

    pub fn get_cell_size(&self) -> (r: u32)
        ensures
            r == self.cell_size,
    {
        self.cell_size
    }

    /// Every wall cell, row by row from the top, left to right within a row.
    pub fn get_all_walls(&self) -> (r: Vec<Wall>)
        requires
            self.well_formed(),
        ensures
            r@ == grid_walls(self.grid(), self.world_size as int, self.world_size as int),
    {
        let mut out: Vec<Wall> = Vec::new();
        let mut y: u32 = 0;
        while y < self.world_size
            invariant
                self.well_formed(),
                y <= self.world_size,
                out@ == grid_walls(self.grid(), self.world_size as int, y as int),
            decreases self.world_size - y,
        {
            let ghost base = out@;
            let row = &self.walls[y as usize];
            let mut x: u32 = 0;
            while x < self.world_size
                invariant
                    self.well_formed(),
                    y < self.world_size,
                    *row == self.walls@[y as int],
                    x <= self.world_size,
                    out@ == base + row_walls(row@, y, x as int),
                decreases self.world_size - x,
            {
                if row[x as usize] {
                    out.push(Wall { x, y });
                    proof {
                        assert(base + row_walls(row@, y, x as int).push(Wall { x, y }) =~= (base
                            + row_walls(row@, y, x as int)).push(Wall { x, y }));
                    }
                }
                x += 1;
            }
            proof {
                assert(self.grid()[y as int] == row@);
            }
            y += 1;
        }
        out
    }
}

} // verus!
