use crate::level::terrain::{Grid, Terrain, TileType};
use vstd::prelude::*;

verus! {

/// The sign of one component of a velocity.
#[derive(Clone, Copy, Debug, PartialEq, Eq, Structural)]
pub enum Sign {
    Negative,
    Zero,
    Positive,
    /// The component is not a number.
    Undefined,
}

impl Sign {
    /// Whether the component is at most zero.
    pub open spec fn not_positive(self) -> bool {
        self == Sign::Negative || self == Sign::Zero
    }

    /// Whether the component is at least zero.
    pub open spec fn not_negative(self) -> bool {
        self == Sign::Positive || self == Sign::Zero
    }

    /// Whether the component is at most zero.
    pub fn is_not_positive(self) -> (answer: bool)
        ensures
            answer == self.not_positive(),
    {
        self == Sign::Negative || self == Sign::Zero
    }

    /// Whether the component is at least zero.
    pub fn is_not_negative(self) -> (answer: bool)
        ensures
            answer == self.not_negative(),
    {
        self == Sign::Positive || self == Sign::Zero
    }
}

/// The collision state of an entity with a bounding box: what it touches in
/// this tick, what it touched in the tick before, and the frame counters
/// that the player states keep.
#[derive(Clone, Copy, Debug, PartialEq, Eq, Structural)]
pub struct HasAABB {
    pub pushed_right_wall: bool,
    pub pushes_right_wall: bool,
    pub pushed_left_wall: bool,
    pub pushes_left_wall: bool,
    pub was_on_ground: bool,
    pub on_ground: bool,
    pub was_on_platform: bool,
    pub on_platform: bool,
    pub was_at_ceiling: bool,
    pub at_ceiling: bool,
    pub cannot_go_left_frames: usize,
    pub cannot_go_right_frames: usize,
    pub frames_from_jump_start: usize,
}

impl HasAABB {
    /// The state of an entity that touches nothing and has touched nothing,
    /// with all counters at zero.
    pub open spec fn untouched() -> HasAABB {
        HasAABB {
            pushed_right_wall: false,
            pushes_right_wall: false,
            pushed_left_wall: false,
            pushes_left_wall: false,
            was_on_ground: false,
            on_ground: false,
            was_on_platform: false,
            on_platform: false,
            was_at_ceiling: false,
            at_ceiling: false,
            cannot_go_left_frames: 0,
            cannot_go_right_frames: 0,
            frames_from_jump_start: 0,
        }
    }

    /// The state of an entity that touches nothing.
    pub fn new() -> (state: HasAABB)
        ensures
            state == HasAABB::untouched(),
    {
        HasAABB {
            pushed_right_wall: false,
            pushes_right_wall: false,
            pushed_left_wall: false,
            pushes_left_wall: false,
            was_on_ground: false,
            on_ground: false,
            was_on_platform: false,
            on_platform: false,
            was_at_ceiling: false,
            at_ceiling: false,
            cannot_go_left_frames: 0,
            cannot_go_right_frames: 0,
            frames_from_jump_start: 0,
        }
    }
}

/// The lines of tiles that a sweep walks, in order: from the line after the
/// one where the box was, in the direction of the sweep, to the line where
/// the box is now. Where the box did not get that far, the sweep is the one
/// line where the box is now.
pub struct Sweep {
    first: isize,
    last: isize,
}

impl Sweep {
    #[verifier::type_invariant]
    spec fn well_formed(&self) -> bool {
        if self.first >= self.last {
            self.first - self.last < usize::MAX
        } else {
            self.last - self.first < usize::MAX
        }
    }

    /// The line that the sweep starts at.
    pub closed spec fn first(&self) -> int {
        self.first as int
    }

    /// The line that the sweep ends at: the one the box is in now.
    pub closed spec fn last(&self) -> int {
        self.last as int
    }

    /// The number of lines.
    pub open spec fn count(&self) -> int {
        if self.first() >= self.last() {
            self.first() - self.last() + 1
        } else {
            self.last() - self.first() + 1
        }
    }

    /// The `k`-th line, counted from 0.
    pub open spec fn at(&self, k: int) -> int {
        if self.first() >= self.last() {
            self.first() - k
        } else {
            self.first() + k
        }
    }

    /// The share of the box's old place in the point that is tested on the
    /// `k`-th line, as a fraction: all of it on the first line, none of it on
    /// the last, and evenly spaced between. A sweep of one line tests the
    /// box's new place.
    pub open spec fn share(&self, k: int) -> (int, int) {
        (
            self.count() - 1 - k,
            if self.count() > 1 {
                self.count() - 1
            } else {
                1
            },
        )
    }

    /// The sweep towards smaller indices, as for ground and for a wall on the
    /// left: from the line before `old_line`, or from `new_line` where that
    /// lies beyond it, down to `new_line`.
    pub fn downward(old_line: isize, new_line: isize) -> (sweep: Sweep)
        ensures
            sweep.first() == (if old_line - 1 >= new_line {
                old_line - 1
            } else {
                new_line as int
            }),
            sweep.last() == new_line,
    {
        if old_line > new_line {
            Sweep { first: old_line - 1, last: new_line }
        } else {
            Sweep { first: new_line, last: new_line }
        }
    }

    /// The sweep towards greater indices, as for a ceiling and for a wall on
    /// the right: from the line after `old_line`, or from `new_line` where
    /// that lies before it, up to `new_line`.
    pub fn upward(old_line: isize, new_line: isize) -> (sweep: Sweep)
        ensures
            sweep.first() == (if old_line + 1 <= new_line {
                old_line + 1
            } else {
                new_line as int
            }),
            sweep.last() == new_line,
    {
        if old_line < new_line {
            Sweep { first: old_line + 1, last: new_line }
        } else {
            Sweep { first: new_line, last: new_line }
        }
    }

    /// How many lines, counted from the first, lie inside `0..size`.
    pub open spec fn inside(&self, size: int) -> int
        recommends
            0 <= size,
    {
        if self.first() < 0 || self.first() >= size {
            0
        } else if self.first() >= self.last() {
            if self.last() >= 0 {
                self.count()
            } else {
                self.first() + 1
            }
        } else {
            if self.last() < size {
                self.count()
            } else {
                size - self.first()
            }
        }
    }

    /// The number of lines that need to be looked at in a grid of `size`
    /// lines: those up to and including the first that lies outside the
    /// grid, and all of them where none does. A line outside the grid is
    /// solid throughout, so no sweep goes beyond it.
    pub fn reach(&self, size: usize) -> (lines: usize)
        ensures
            lines == (if self.inside(size as int) < self.count() {
                self.inside(size as int) + 1
            } else {
                self.count()
            }),
            1 <= lines <= self.count(),
            forall|k: int| 0 <= k < self.inside(size as int) ==> 0 <= #[trigger] self.at(k) < size,
            lines < self.count() ==> !(0 <= self.at(lines - 1) < size),
    {
        proof {
            use_type_invariant(self);
        }
        let count = self.len();
        let inside: usize = if self.first < 0 || (self.first as i128) >= (size as i128) {
            0
        } else if self.first >= self.last {
            if self.last >= 0 {
                count
            } else {
                self.first as usize + 1
            }
        } else {
            if (self.last as i128) < (size as i128) {
                count
            } else {
                size - self.first as usize
            }
        };
        if inside < count {
            inside + 1
        } else {
            count
        }
    }

    /// The number of lines.
    pub fn len(&self) -> (count: usize)
        ensures
            count == self.count(),
    {
        proof {
            use_type_invariant(self);
        }
        if self.first >= self.last {
            (self.first as i128 - self.last as i128 + 1) as usize
        } else {
            (self.last as i128 - self.first as i128 + 1) as usize
        }
    }

    /// The `k`-th line, or `None` where the sweep has no such line.
    pub fn line(&self, k: usize) -> (line: Option<isize>)
        ensures
            line == (if k < self.count() {
                Some(self.at(k as int) as isize)
            } else {
                None
            }),
            k < self.count() ==> isize::MIN <= self.at(k as int) <= isize::MAX,
    {
        proof {
            use_type_invariant(self);
        }
        if k >= self.len() {
            None
        } else if self.first >= self.last {
            Some((self.first as i128 - k as i128) as isize)
        } else {
            Some((self.first as i128 + k as i128) as isize)
        }
    }

    /// The share of the box's old place on the `k`-th line, as numerator and
    /// denominator, or `None` where the sweep has no such line.
    pub fn weight(&self, k: usize) -> (weight: Option<(usize, usize)>)
        ensures
            weight == (if k < self.count() {
                Some((self.share(k as int).0 as usize, self.share(k as int).1 as usize))
            } else {
                None
            }),
            k < self.count() ==> 0 <= self.share(k as int).0 <= self.share(k as int).1
                <= usize::MAX,
    {
        let count = self.len();
        if k >= count {
            None
        } else if count > 1 {
            Some((count - 1 - k, count - 1))
        } else {
            Some((0, 1))
        }
    }
}

/// One tile row of a vertical sweep: the columns sampled from the box's left
/// edge to its right edge, in that order.
pub struct RowScan {
    pub row: isize,
    pub columns: Vec<isize>,
    /// Whether, at this row, the box has sunk into a one-way platform by no
    /// more than the platform threshold since the last tick. Only the sweep
    /// for ground reads it.
    pub platform_in_reach: bool,
}

/// One tile column of a horizontal sweep: the rows sampled from the box's
/// bottom edge to its top edge, in that order.
pub struct ColumnScan {
    pub column: isize,
    pub rows: Vec<isize>,
    /// Whether the box's edge, where it was before the tick, had not yet
    /// passed the face of a wall in this column.
    pub edge_before_face: bool,
}

impl RowScan {
    /// Whether the `i`-th sampled tile is of type `kind`.
    pub open spec fn cell_is(&self, grid: Grid, i: int, kind: TileType) -> bool {
        grid.tile(self.columns@[i] as int, self.row as int) == kind
    }

    /// Whether a sampled tile is solid.
    pub open spec fn blocked(&self, grid: Grid) -> bool {
        exists|i: int| 0 <= i < self.columns@.len() && #[trigger] self.cell_is(grid, i, TileType::Block)
    }

    /// Whether a sampled tile is a one-way platform.
    pub open spec fn over_platform(&self, grid: Grid) -> bool {
        exists|i: int|
            0 <= i < self.columns@.len() && #[trigger] self.cell_is(grid, i, TileType::OneWay)
    }

    /// Whether the sweep for ground stops at this row: a sampled tile is
    /// solid, or the box rests on a platform. `carried` says that the box was
    /// taken to be on a platform before the sweep came to this row.
    pub open spec fn supports(&self, grid: Grid, carried: bool) -> bool {
        self.blocked(grid) || (self.columns@.len() > 0 && (carried || (self.platform_in_reach
            && self.over_platform(grid))))
    }

    /// Samples the row: whether a tile is solid, and otherwise whether one is
    /// a one-way platform.
    fn sample(&self, terrain: &Terrain) -> (found: (bool, bool))
        ensures
            found.0 == self.blocked(terrain@),
            !found.0 ==> found.1 == self.over_platform(terrain@),
    {
        let mut platform = false;
        let mut i: usize = 0;
        while i < self.columns.len()
            invariant
                i <= self.columns@.len(),
                forall|j: int| 0 <= j < i ==> !#[trigger] self.cell_is(terrain@, j, TileType::Block),
                platform == (exists|j: int|
                    0 <= j < i && #[trigger] self.cell_is(terrain@, j, TileType::OneWay)),
            decreases self.columns@.len() - i,
        {
            let tile = terrain.get_tile(self.columns[i], self.row);
            assert(self.cell_is(terrain@, i as int, tile));
            if tile == TileType::Block {
                return (true, false);
            }
            if tile == TileType::OneWay {
                platform = true;
            }
            i += 1;
        }
        (false, platform)
    }
}

impl ColumnScan {
    /// Whether the `i`-th sampled tile is solid.
    pub open spec fn cell_is_block(&self, grid: Grid, i: int) -> bool {
        grid.tile(self.column as int, self.rows@[i] as int) == TileType::Block
    }

    /// Whether a sampled tile is solid.
    pub open spec fn blocked(&self, grid: Grid) -> bool {
        exists|i: int| 0 <= i < self.rows@.len() && #[trigger] self.cell_is_block(grid, i)
    }

    fn sample(&self, terrain: &Terrain) -> (found: bool)
        ensures
            found == self.blocked(terrain@),
    {
        let mut i: usize = 0;
        while i < self.rows.len()
            invariant
                i <= self.rows@.len(),
                forall|j: int| 0 <= j < i ==> !#[trigger] self.cell_is_block(terrain@, j),
            decreases self.rows@.len() - i,
        {
            if terrain.is_obstacle(self.column, self.rows[i]) {
                assert(self.cell_is_block(terrain@, i as int));
                return true;
            }
            i += 1;
        }
        false
    }
}

/// The sweeps of a walking figure's box against the terrain. Each takes the
/// lines of tiles that lie between where the box was and where it is, nearest
/// to the old place first, and finds the first line at which the box is held.
pub struct HumanoidMovement;

impl HumanoidMovement {
    /// Whether `hit` names the first of `scans` at which the sweep for ground
    /// stops, or is `None` where it stops at none of them.
    pub open spec fn first_support(
        grid: Grid,
        scans: Seq<RowScan>,
        carried: bool,
        hit: Option<usize>,
    ) -> bool {
        match hit {
            Some(k) => {
                &&& k < scans.len()
                &&& scans[k as int].supports(grid, carried)
                &&& forall|j: int| 0 <= j < k ==> !(#[trigger] scans[j]).supports(grid, carried)
            },
            None => forall|j: int| 0 <= j < scans.len() ==> !(#[trigger] scans[j]).supports(grid, carried),
        }
    }

    /// Whether `hit` names the first of `scans` with a solid tile, or is
    /// `None` where none has one.
    pub open spec fn first_blocked_row(grid: Grid, scans: Seq<RowScan>, hit: Option<usize>) -> bool {
        match hit {
            Some(k) => {
                &&& k < scans.len()
                &&& scans[k as int].blocked(grid)
                &&& forall|j: int| 0 <= j < k ==> !(#[trigger] scans[j]).blocked(grid)
            },
            None => forall|j: int| 0 <= j < scans.len() ==> !(#[trigger] scans[j]).blocked(grid),
        }
    }

    /// Whether `hit` names the first of `scans` with a solid tile, or is
    /// `None` where none has one.
    pub open spec fn first_blocked_column(
        grid: Grid,
        scans: Seq<ColumnScan>,
        hit: Option<usize>,
    ) -> bool {
        match hit {
            Some(k) => {
                &&& k < scans.len()
                &&& scans[k as int].blocked(grid)
                &&& forall|j: int| 0 <= j < k ==> !(#[trigger] scans[j]).blocked(grid)
            },
            None => forall|j: int| 0 <= j < scans.len() ==> !(#[trigger] scans[j]).blocked(grid),
        }
    }

    /// The platform flag after a sweep for ground that ended with `hit`: set
    /// where the box came to rest on a platform, cleared where it met a solid
    /// tile, as before where nothing held it.
    pub open spec fn platform_after(
        grid: Grid,
        scans: Seq<RowScan>,
        carried: bool,
        hit: Option<usize>,
    ) -> bool {
        match hit {
            Some(k) => !scans[k as int].blocked(grid),
            None => carried,
        }
    }

    /// Sweeps downwards for ground. The walk stops at the first row with a
    /// solid tile among its samples, or at whose end the box rests on a
    /// platform: a sampled tile is a one-way platform within reach, or
    /// `bb.on_platform` was already set when the sweep began. The result is
    /// the index of that row in `scans`. `bb.on_platform` then says whether
    /// the box rests on a platform rather than on a solid tile.
    pub fn has_ground(bb: &mut HasAABB, terrain: &Terrain, scans: &Vec<RowScan>) -> (hit: Option<usize>)
        ensures
            Self::first_support(terrain@, scans@, old(bb).on_platform, hit),
            *final(bb) == (HasAABB {
                on_platform: Self::platform_after(terrain@, scans@, old(bb).on_platform, hit),
                ..*old(bb)
            }),
    {
        let carried = bb.on_platform;
        let mut k: usize = 0;
        while k < scans.len()
            invariant
                k <= scans@.len(),
                carried == old(bb).on_platform,
                *bb == *old(bb),
                forall|j: int| 0 <= j < k ==> !(#[trigger] scans@[j]).supports(terrain@, carried),
            decreases scans@.len() - k,
        {
            let (blocked, platform) = scans[k].sample(terrain);
            if blocked {
                bb.on_platform = false;
                return Some(k);
            }
            if scans[k].columns.len() > 0 && (carried || (scans[k].platform_in_reach && platform)) {
                bb.on_platform = true;
                return Some(k);
            }
            k += 1;
        }
        None
    }

    /// Sweeps upwards for a ceiling: the index in `scans` of the first row
    /// with a solid tile among its samples.
    pub fn has_ceiling(terrain: &Terrain, scans: &Vec<RowScan>) -> (hit: Option<usize>)
        ensures
            Self::first_blocked_row(terrain@, scans@, hit),
    {
        let mut k: usize = 0;
        while k < scans.len()
            invariant
                k <= scans@.len(),
                forall|j: int| 0 <= j < k ==> !(#[trigger] scans@[j]).blocked(terrain@),
            decreases scans@.len() - k,
        {
            let (blocked, _) = scans[k].sample(terrain);
            if blocked {
                return Some(k);
            }
            k += 1;
        }
        None
    }

    /// Sweeps a column at a time for a solid tile: the index in `scans` of the
    /// first column with one among its samples.
    fn first_wall(terrain: &Terrain, scans: &Vec<ColumnScan>) -> (hit: Option<usize>)
        ensures
            Self::first_blocked_column(terrain@, scans@, hit),
    {
        let mut k: usize = 0;
        while k < scans.len()
            invariant
                k <= scans@.len(),
                forall|j: int| 0 <= j < k ==> !(#[trigger] scans@[j]).blocked(terrain@),
            decreases scans@.len() - k,
        {
            if scans[k].sample(terrain) {
                return Some(k);
            }
            k += 1;
        }
        None
    }

    /// Sweeps leftwards for a wall: the index in `scans` of the first column
    /// with a solid tile among its samples.
    pub fn collides_with_left_wall(terrain: &Terrain, scans: &Vec<ColumnScan>) -> (hit: Option<usize>)
        ensures
            Self::first_blocked_column(terrain@, scans@, hit),
    {
        Self::first_wall(terrain, scans)
    }

    /// Sweeps rightwards for a wall: the index in `scans` of the first column
    /// with a solid tile among its samples.
    pub fn collides_with_right_wall(terrain: &Terrain, scans: &Vec<ColumnScan>) -> (hit: Option<usize>)
        ensures
            Self::first_blocked_column(terrain@, scans@, hit),
    {
        Self::first_wall(terrain, scans)
    }
}

/// A row outside the grid is solid: a scan of it that has a sample is blocked.
pub proof fn lemma_row_outside_the_grid_is_blocked(grid: Grid, scan: RowScan)
    requires
        scan.columns@.len() > 0,
        !(0 <= scan.row < grid.height),
    ensures
        scan.blocked(grid),
        forall|carried: bool| scan.supports(grid, carried),
{
    assert(scan.cell_is(grid, 0, TileType::Block));
}

/// A column outside the grid is solid: a scan of it that has a sample is
/// blocked.
pub proof fn lemma_column_outside_the_grid_is_blocked(grid: Grid, scan: ColumnScan)
    requires
        scan.rows@.len() > 0,
        !(0 <= scan.column < grid.width),
    ensures
        scan.blocked(grid),
{
    assert(scan.cell_is_block(grid, 0));
}

/// The sweep for ground never looks past a row that holds the box: leaving
/// out the rows after such a row changes neither the row that is found nor
/// the platform flag.
pub proof fn lemma_rows_after_a_support_change_nothing(
    grid: Grid,
    scans: Seq<RowScan>,
    carried: bool,
    lines: int,
    hit: Option<usize>,
)
    requires
        0 < lines <= scans.len(),
        scans[lines - 1].supports(grid, carried),
    ensures
        HumanoidMovement::first_support(grid, scans.take(lines), carried, hit)
            <==> HumanoidMovement::first_support(grid, scans, carried, hit),
        HumanoidMovement::first_support(grid, scans, carried, hit)
            ==> HumanoidMovement::platform_after(grid, scans.take(lines), carried, hit)
            == HumanoidMovement::platform_after(grid, scans, carried, hit),
{
    let cut = scans.take(lines);
    assert(forall|j: int| 0 <= j < lines ==> cut[j] == scans[j]);
    if HumanoidMovement::first_support(grid, scans, carried, hit) {
        match hit {
            Some(k) => {
                if k >= lines {
                    assert(!scans[lines - 1].supports(grid, carried));
                }
            },
            None => {
                assert(!scans[lines - 1].supports(grid, carried));
            },
        }
    }
    if HumanoidMovement::first_support(grid, cut, carried, hit) {
        match hit {
            Some(k) => {},
            None => {
                assert(!cut[lines - 1].supports(grid, carried));
            },
        }
    }
}

/// The sweep for a ceiling never looks past a row with a solid tile.
pub proof fn lemma_rows_after_a_block_change_nothing(
    grid: Grid,
    scans: Seq<RowScan>,
    lines: int,
    hit: Option<usize>,
)
    requires
        0 < lines <= scans.len(),
        scans[lines - 1].blocked(grid),
    ensures
        HumanoidMovement::first_blocked_row(grid, scans.take(lines), hit)
            <==> HumanoidMovement::first_blocked_row(grid, scans, hit),
{
    let cut = scans.take(lines);
    assert(forall|j: int| 0 <= j < lines ==> cut[j] == scans[j]);
    if HumanoidMovement::first_blocked_row(grid, scans, hit) {
        match hit {
            Some(k) => {
                if k >= lines {
                    assert(!scans[lines - 1].blocked(grid));
                }
            },
            None => {
                assert(!scans[lines - 1].blocked(grid));
            },
        }
    }
    if HumanoidMovement::first_blocked_row(grid, cut, hit) {
        match hit {
            Some(k) => {},
            None => {
                assert(!cut[lines - 1].blocked(grid));
            },
        }
    }
}

/// The sweep for a wall never looks past a column with a solid tile.
pub proof fn lemma_columns_after_a_block_change_nothing(
    grid: Grid,
    scans: Seq<ColumnScan>,
    lines: int,
    hit: Option<usize>,
)
    requires
        0 < lines <= scans.len(),
        scans[lines - 1].blocked(grid),
    ensures
        HumanoidMovement::first_blocked_column(grid, scans.take(lines), hit)
            <==> HumanoidMovement::first_blocked_column(grid, scans, hit),
{
    let cut = scans.take(lines);
    assert(forall|j: int| 0 <= j < lines ==> cut[j] == scans[j]);
    if HumanoidMovement::first_blocked_column(grid, scans, hit) {
        match hit {
            Some(k) => {
                if k >= lines {
                    assert(!scans[lines - 1].blocked(grid));
                }
            },
            None => {
                assert(!scans[lines - 1].blocked(grid));
            },
        }
    }
    if HumanoidMovement::first_blocked_column(grid, cut, hit) {
        match hit {
            Some(k) => {},
            None => {
                assert(!cut[lines - 1].blocked(grid));
            },
        }
    }
}

} // verus!
