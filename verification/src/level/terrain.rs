use vstd::prelude::*;

verus! {

/// How a tile of the level takes part in collisions.
#[derive(Clone, Copy, PartialEq, Eq, Debug, Structural)]
pub enum TileType {
    /// Open space.
    Empty,
    /// Solid from every side.
    Block,
    /// Solid only from above.
    OneWay,
}

impl TileType {
    /// The tile that the code `code` of a level's description stands for: 1
    /// for a block, 2 for a one-way platform, anything else for open space.
    pub open spec fn of_code(code: usize) -> TileType {
        if code == 1 {
            TileType::Block
        } else if code == 2 {
            TileType::OneWay
        } else {
            TileType::Empty
        }
    }

    /// The tile that `code` stands for.
    pub fn from_code(code: usize) -> (tile: TileType)
        ensures
            tile == TileType::of_code(code),
    {
        if code == 1 {
            TileType::Block
        } else if code == 2 {
            TileType::OneWay
        } else {
            TileType::Empty
        }
    }
}

/// The mathematical value of a [`Terrain`]: `height` rows of `width` tiles
/// each, the row with index 0 first.
pub struct Grid {
    pub width: nat,
    pub height: nat,
    pub tiles: Seq<Seq<TileType>>,
}

impl Grid {
    /// Whether the tile indices `x`, `y` lie inside the grid.
    pub open spec fn in_bounds(self, x: int, y: int) -> bool {
        0 <= x < self.width && 0 <= y < self.height
    }

    /// The tile at `x`, `y`. What lies outside the grid counts as solid.
    pub open spec fn tile(self, x: int, y: int) -> TileType {
        if self.in_bounds(x, y) {
            self.tiles[y][x]
        } else {
            TileType::Block
        }
    }

    /// The grid that `rows` spell out.
    pub open spec fn of_rows(rows: Seq<Vec<TileType>>) -> Grid {
        Grid {
            width: if rows.len() > 0 {
                rows[0].len() as nat
            } else {
                0
            },
            height: rows.len(),
            tiles: Seq::new(rows.len(), |y: int| rows[y]@),
        }
    }

    /// Whether all of `rows` have the same length.
    pub open spec fn rectangular(rows: Seq<Vec<TileType>>) -> bool {
        forall|y: int| 0 <= y < rows.len() ==> (#[trigger] rows[y]).len() == rows[0].len()
    }

    /// The grid that the rows of codes `codes` describe. A level is described
    /// from the top: the last of `codes` is the grid's row 0.
    pub open spec fn of_codes(codes: Seq<Vec<usize>>) -> Grid {
        Grid {
            width: if codes.len() > 0 {
                codes[0].len() as nat
            } else {
                0
            },
            height: codes.len(),
            tiles: Seq::new(
                codes.len(),
                |y: int|
                    Seq::new(
                        codes[codes.len() - 1 - y].len() as nat,
                        |x: int| TileType::of_code(codes[codes.len() - 1 - y]@[x]),
                    ),
            ),
        }
    }

    /// Whether all of `codes` have the same length.
    pub open spec fn even(codes: Seq<Vec<usize>>) -> bool {
        forall|y: int| 0 <= y < codes.len() ==> (#[trigger] codes[y]).len() == codes[0].len()
    }
}

/// The tile grid of a level. It does not change once it is made.
pub struct Terrain {
    terrain: Vec<Vec<TileType>>,
    width: usize,
    height: usize,
}

impl View for Terrain {
    type V = Grid;

    closed spec fn view(&self) -> Grid {
        Grid {
            width: self.width as nat,
            height: self.height as nat,
            tiles: Seq::new(self.terrain@.len(), |y: int| self.terrain@[y]@),
        }
    }
}

impl Terrain {
    #[verifier::type_invariant]
    spec fn well_formed(&self) -> bool {
        &&& self.terrain@.len() == self.height
        &&& forall|y: int| 0 <= y < self.height ==> (#[trigger] self.terrain@[y]).len() == self.width
    }

    /// The terrain made of `terrain`, row by row, or `None` where the rows
    /// differ in length.
    pub fn new(terrain: Vec<Vec<TileType>>) -> (made: Option<Terrain>)
        ensures
            made.is_some() <==> Grid::rectangular(terrain@),
            made matches Some(t) ==> t@ == Grid::of_rows(terrain@),
    {
        let height = terrain.len();
        let width = if height > 0 {
            terrain[0].len()
        } else {
            0
        };
        let mut y: usize = 0;
        while y < height
            invariant
                height == terrain.len(),
                height > 0 ==> width == terrain@[0].len(),
                y <= height,
                forall|k: int| 0 <= k < y ==> (#[trigger] terrain@[k]).len() == width,
            decreases height - y,
        {
            if terrain[y].len() != width {
                return None;
            }
            y += 1;
        }
        Some(Terrain { terrain, width, height })
    }

    /// The terrain that the rows of codes `codes` describe, the topmost row
    /// first, or `None` where the rows differ in length.
    pub fn from_codes(codes: &Vec<Vec<usize>>) -> (made: Option<Terrain>)
        ensures
            made.is_some() <==> Grid::even(codes@),
            made matches Some(t) ==> t@ == Grid::of_codes(codes@),
    {
        let height = codes.len();
        let width = if height > 0 {
            codes[0].len()
        } else {
            0
        };
        let mut terrain: Vec<Vec<TileType>> = Vec::new();
        let mut y: usize = 0;
        while y < height
            invariant
                height == codes@.len(),
                height > 0 ==> width == codes@[0].len(),
                y <= height,
                terrain@.len() == y,
                forall|k: int| 0 <= k < y ==> (#[trigger] codes@[height - 1 - k]).len() == width,
                forall|k: int|
                    0 <= k < y ==> (#[trigger] terrain@[k])@ == Grid::of_codes(codes@).tiles[k],
            decreases height - y,
        {
            let line = &codes[height - 1 - y];
            if line.len() != width {
                return None;
            }
            let mut row: Vec<TileType> = Vec::new();
            let mut x: usize = 0;
            while x < width
                invariant
                    x <= width,
                    width == line@.len(),
                    row@.len() == x,
                    forall|k: int| 0 <= k < x ==> row@[k] == TileType::of_code(line@[k]),
                decreases width - x,
            {
                row.push(TileType::from_code(line[x]));
                x += 1;
            }
            assert(row@ =~= Grid::of_codes(codes@).tiles[y as int]);
            terrain.push(row);
            y += 1;
        }
        assert forall|k: int| 0 <= k < height implies (#[trigger] codes@[k]).len() == width by {
            assert(codes@[height - 1 - (height - 1 - k)].len() == width);
        }
        let made = Terrain { terrain, width, height };
        assert(made@.tiles =~= Grid::of_codes(codes@).tiles);
        Some(made)
    }

    /// The number of tiles in a row.
    pub fn width(&self) -> (width: usize)
        ensures
            width == self@.width,
    {
        self.width
    }

    /// The number of rows.
    pub fn height(&self) -> (height: usize)
        ensures
            height == self@.height,
    {
        self.height
    }

    /// The indices `x`, `y` as positions in the grid, or `None` where they
    /// lie outside it.
    pub fn in_bounds(&self, x: isize, y: isize) -> (at: Option<(usize, usize)>)
        ensures
            at.is_some() <==> self@.in_bounds(x as int, y as int),
            at matches Some(p) ==> p.0 == x && p.1 == y,
    {
        if x < 0 || x as usize >= self.width || y < 0 || y as usize >= self.height {
            None
        } else {
            Some((x as usize, y as usize))
        }
    }

    /// The tile at `x`, `y`; `Block` outside the grid.
    pub fn get_tile(&self, x: isize, y: isize) -> (tile: TileType)
        ensures
            tile == self@.tile(x as int, y as int),
    {
        proof {
            use_type_invariant(self);
        }
        match self.in_bounds(x, y) {
            Some((column, row)) => self.terrain[row][column],
            None => TileType::Block,
        }
    }

    /// Whether the tile at `x`, `y` is solid; true outside the grid.
    pub fn is_obstacle(&self, x: isize, y: isize) -> (obstacle: bool)
        ensures
            obstacle == (self@.tile(x as int, y as int) == TileType::Block),
            !self@.in_bounds(x as int, y as int) ==> obstacle,
    {
        self.get_tile(x, y) == TileType::Block
    }

    /// Whether the tile at `x`, `y` can be stood on; false outside the grid.
    pub fn is_ground(&self, x: isize, y: isize) -> (ground: bool)
        ensures
            ground == (self@.in_bounds(x as int, y as int) && self@.tile(x as int, y as int)
                != TileType::Empty),
            !self@.in_bounds(x as int, y as int) ==> !ground,
    {
        proof {
            use_type_invariant(self);
        }
        match self.in_bounds(x, y) {
            Some((column, row)) => {
                let tile = self.terrain[row][column];
                tile == TileType::Block || tile == TileType::OneWay
            },
            None => false,
        }
    }

    /// Whether the tile at `x`, `y` is a one-way platform; false outside the
    /// grid.
    pub fn is_one_way_platform(&self, x: isize, y: isize) -> (platform: bool)
        ensures
            platform == (self@.in_bounds(x as int, y as int) && self@.tile(x as int, y as int)
                == TileType::OneWay),
            !self@.in_bounds(x as int, y as int) ==> !platform,
    {
        proof {
            use_type_invariant(self);
        }
        match self.in_bounds(x, y) {
            Some((column, row)) => self.terrain[row][column] == TileType::OneWay,
            None => false,
        }
    }

    /// Whether the tile at `x`, `y` is open space; false outside the grid.
    pub fn is_empty(&self, x: isize, y: isize) -> (empty: bool)
        ensures
            empty == (self@.in_bounds(x as int, y as int) && self@.tile(x as int, y as int)
                == TileType::Empty),
            !self@.in_bounds(x as int, y as int) ==> !empty,
    {
        proof {
            use_type_invariant(self);
        }
        match self.in_bounds(x, y) {
            Some((column, row)) => self.terrain[row][column] == TileType::Empty,
            None => false,
        }
    }
}

} // verus!
