use crate::level::terrain::{Grid, Terrain};
use crate::physics::components::{ColumnScan, HasAABB, HumanoidMovement, RowScan, Sign};
use crate::physics::quad_tree::{
    lemma_occurrences_push, occurrences, same_entity, QuadTree, Volume, MAX_OBJECTS,
};
use specs::Entity;
use vstd::prelude::*;

verus! {

/// The collision step of one entity in one tick, after its motion has been
/// integrated. The checks run in a fixed order: [`AABBMovingSystem::start`],
/// then ground, left wall, right wall and ceiling. Between two checks the
/// caller moves the box as the check's result says, so each check is handed
/// the velocity sign and the sweep that hold at that point.
pub struct AABBMovingSystem;

impl AABBMovingSystem {
    /// The state at the start of a tick's checks: each flag of the tick
    /// before is kept as its `was_` or `pushed_` twin, and the platform flag
    /// is cleared.
    pub open spec fn started(bb: HasAABB) -> HasAABB {
        HasAABB {
            was_on_platform: bb.on_platform,
            was_on_ground: bb.on_ground,
            was_at_ceiling: bb.at_ceiling,
            pushed_left_wall: bb.pushes_left_wall,
            pushed_right_wall: bb.pushes_right_wall,
            on_platform: false,
            ..bb
        }
    }

    /// The state after the check for ground. `landing` is the result of the
    /// sweep, `None` where the box was rising and no sweep was made.
    pub open spec fn grounded(
        bb: HasAABB,
        vertical: Sign,
        grid: Grid,
        scans: Seq<RowScan>,
        landing: Option<usize>,
    ) -> HasAABB {
        HasAABB {
            on_ground: landing.is_some(),
            on_platform: if vertical.not_positive() {
                HumanoidMovement::platform_after(grid, scans, bb.on_platform, landing)
            } else {
                bb.on_platform
            },
            ..bb
        }
    }

    /// The state after the check for a wall on the left. A wall that was met
    /// sets the flag only where the box's old edge had not passed its face;
    /// where it had, the flag stays as it was.
    pub open spec fn walled_left(
        bb: HasAABB,
        scans: Seq<ColumnScan>,
        hit: Option<usize>,
    ) -> HasAABB {
        match hit {
            Some(k) => HasAABB {
                pushes_left_wall: bb.pushes_left_wall || scans[k as int].edge_before_face,
                ..bb
            },
            None => HasAABB { pushes_left_wall: false, ..bb },
        }
    }

    /// The state after the check for a wall on the right.
    pub open spec fn walled_right(
        bb: HasAABB,
        scans: Seq<ColumnScan>,
        hit: Option<usize>,
    ) -> HasAABB {
        match hit {
            Some(k) => HasAABB {
                pushes_right_wall: bb.pushes_right_wall || scans[k as int].edge_before_face,
                ..bb
            },
            None => HasAABB { pushes_right_wall: false, ..bb },
        }
    }

    /// The state after the check for a ceiling.
    pub open spec fn ceilinged(bb: HasAABB, hit: Option<usize>) -> HasAABB {
        HasAABB { at_ceiling: hit.is_some(), ..bb }
    }

    /// Whether `landing` is what the check for ground finds: the first row at
    /// which the sweep stops, and nothing where the box is rising.
    pub open spec fn ground_found(
        vertical: Sign,
        grid: Grid,
        scans: Seq<RowScan>,
        carried: bool,
        landing: Option<usize>,
    ) -> bool {
        if vertical.not_positive() {
            HumanoidMovement::first_support(grid, scans, carried, landing)
        } else {
            landing.is_none()
        }
    }

    /// Whether `hit` is what the check for a wall on the left finds: the first
    /// column with a solid tile, and nothing where the box moves right.
    pub open spec fn left_wall_found(
        horizontal: Sign,
        grid: Grid,
        scans: Seq<ColumnScan>,
        hit: Option<usize>,
    ) -> bool {
        if horizontal.not_positive() {
            HumanoidMovement::first_blocked_column(grid, scans, hit)
        } else {
            hit.is_none()
        }
    }

    /// Whether `hit` is what the check for a wall on the right finds: the
    /// first column with a solid tile, and nothing where the box moves left.
    pub open spec fn right_wall_found(
        horizontal: Sign,
        grid: Grid,
        scans: Seq<ColumnScan>,
        hit: Option<usize>,
    ) -> bool {
        if horizontal.not_negative() {
            HumanoidMovement::first_blocked_column(grid, scans, hit)
        } else {
            hit.is_none()
        }
    }

    /// Whether `hit` is what the check for a ceiling finds: the first row with
    /// a solid tile, and nothing where the box is falling.
    pub open spec fn ceiling_found(
        vertical: Sign,
        grid: Grid,
        scans: Seq<RowScan>,
        hit: Option<usize>,
    ) -> bool {
        if vertical.not_negative() {
            HumanoidMovement::first_blocked_row(grid, scans, hit)
        } else {
            hit.is_none()
        }
    }

    /// Opens a tick's checks.
    pub fn start(bb: &mut HasAABB)
        ensures
            *final(bb) == Self::started(*old(bb)),
    {
        bb.was_on_platform = bb.on_platform;
        bb.was_on_ground = bb.on_ground;
        bb.was_at_ceiling = bb.at_ceiling;
        bb.pushed_left_wall = bb.pushes_left_wall;
        bb.pushed_right_wall = bb.pushes_right_wall;
        bb.on_platform = false;
    }

    /// The check for ground, made unless the box is rising. Where the sweep
    /// stops at a row, the box stands: the result is that row's index in
    /// `scans`, and the caller puts the box on top of the row and stops its
    /// fall. Where the box is rising there is no ground, whatever lies below.
    pub fn ground(
        bb: &mut HasAABB,
        vertical: Sign,
        terrain: &Terrain,
        scans: &Vec<RowScan>,
    ) -> (landing: Option<usize>)
        ensures
            Self::ground_found(vertical, terrain@, scans@, old(bb).on_platform, landing),
            *final(bb) == Self::grounded(*old(bb), vertical, terrain@, scans@, landing),
            final(bb).on_ground == landing.is_some(),
    {
        let landing = if vertical.is_not_positive() {
            HumanoidMovement::has_ground(bb, terrain, scans)
        } else {
            None
        };
        bb.on_ground = landing.is_some();
        landing
    }

    /// The check for a wall on the left, made unless the box moves right.
    /// Where the sweep meets a wall, the result is the index of its column in
    /// `scans`: the caller stops the box's leftward motion and, where that
    /// scan's `edge_before_face` holds, puts the box against the wall's face;
    /// only then is `pushes_left_wall` set. Where no wall is met, or the box
    /// moves right, the flag is cleared.
    pub fn left_wall(
        bb: &mut HasAABB,
        horizontal: Sign,
        terrain: &Terrain,
        scans: &Vec<ColumnScan>,
    ) -> (hit: Option<usize>)
        ensures
            Self::left_wall_found(horizontal, terrain@, scans@, hit),
            *final(bb) == Self::walled_left(*old(bb), scans@, hit),
            horizontal == Sign::Positive ==> !final(bb).pushes_left_wall,
    {
        let hit = if horizontal.is_not_positive() {
            HumanoidMovement::collides_with_left_wall(terrain, scans)
        } else {
            None
        };
        match hit {
            Some(k) => {
                if scans[k].edge_before_face {
                    bb.pushes_left_wall = true;
                }
            },
            None => {
                bb.pushes_left_wall = false;
            },
        }
        hit
    }

    /// The check for a wall on the right, made unless the box moves left. It
    /// mirrors [`AABBMovingSystem::left_wall`].
    pub fn right_wall(
        bb: &mut HasAABB,
        horizontal: Sign,
        terrain: &Terrain,
        scans: &Vec<ColumnScan>,
    ) -> (hit: Option<usize>)
        ensures
            Self::right_wall_found(horizontal, terrain@, scans@, hit),
            *final(bb) == Self::walled_right(*old(bb), scans@, hit),
            horizontal == Sign::Negative ==> !final(bb).pushes_right_wall,
    {
        let hit = if horizontal.is_not_negative() {
            HumanoidMovement::collides_with_right_wall(terrain, scans)
        } else {
            None
        };
        match hit {
            Some(k) => {
                if scans[k].edge_before_face {
                    bb.pushes_right_wall = true;
                }
            },
            None => {
                bb.pushes_right_wall = false;
            },
        }
        hit
    }

    /// The check for a ceiling, made unless the box is falling. Where the
    /// sweep meets a solid row, the result is that row's index in `scans`, and
    /// the caller puts the box just below the row and stops its rise.
    pub fn ceiling(
        bb: &mut HasAABB,
        vertical: Sign,
        terrain: &Terrain,
        scans: &Vec<RowScan>,
    ) -> (hit: Option<usize>)
        ensures
            Self::ceiling_found(vertical, terrain@, scans@, hit),
            *final(bb) == Self::ceilinged(*old(bb), hit),
    {
        let hit = if vertical.is_not_negative() {
            HumanoidMovement::has_ceiling(terrain, scans)
        } else {
            None
        };
        bb.at_ceiling = hit.is_some();
        hit
    }
}

/// The broad phase of the collisions between entities. The tree is built
/// from every entity's box before any of them is looked up. The boxes are in
/// whole world units: a caller whose boxes are finer hands in boxes that
/// enclose them, and tests the pairs that come out once more.
pub struct CollisionSystem;

impl CollisionSystem {
    /// Whether the entity `entity` with the box `rect` meets `item`: another
    /// entity whose box has a point in common with `rect`.
    pub open spec fn meets(entity: Entity, rect: Volume, item: (Entity, Volume)) -> bool {
        item.0 != entity && rect.overlaps(item.1)
    }

    /// A tree over the area `bounds` that holds each of `items` as often as it
    /// occurs among them.
    pub fn build(bounds: Volume, items: &Vec<(Entity, Volume)>) -> (tree: QuadTree)
        ensures
            tree.wf(),
            tree.area() == bounds,
            tree.size() == items@.len(),
            tree.parted() == (items@.len() > MAX_OBJECTS),
            forall|item: (Entity, Volume)| #[trigger]
                tree.count(item) == occurrences(items@, item),
    {
        let mut tree = QuadTree::new(bounds);
        let mut i: usize = 0;
        while i < items.len()
            invariant
                i <= items@.len(),
                tree.wf(),
                tree.area() == bounds,
                tree.size() == i,
                tree.parted() == (i > MAX_OBJECTS),
                forall|item: (Entity, Volume)| #[trigger]
                    tree.count(item) == occurrences(items@.take(i as int), item),
            decreases items@.len() - i,
        {
            let ghost before = tree;
            let (entity, rect) = items[i];
            tree.insert(entity, rect);
            proof {
                assert(items@.take(i + 1) =~= items@.take(i as int).push((entity, rect)));
                assert forall|item: (Entity, Volume)| #[trigger]
                    tree.count(item) == occurrences(items@.take(i + 1), item) by {
                    assert(before.count(item) == occurrences(items@.take(i as int), item));
                    lemma_occurrences_push(items@.take(i as int), (entity, rect), item);
                }
            }
            i += 1;
        }
        assert(items@.take(items@.len() as int) =~= items@);
        tree
    }

    /// The entities that `entity`, with the box `rect`, meets: of what the
    /// tree gives for `rect`, in that order, each other entity whose box has
    /// a point in common with `rect`. None that the tree holds is missed,
    /// and none is given more often than the tree holds it.
    pub fn colliding(tree: &QuadTree, entity: Entity, rect: Volume) -> (met: Vec<(Entity, Volume)>)
        requires
            tree.wf(),
        ensures
            met@ == tree.found(rect).filter(|item: (Entity, Volume)| Self::meets(entity, rect, item)),
            forall|item: (Entity, Volume)| #[trigger]
                occurrences(met@, item) == (if Self::meets(entity, rect, item) {
                    tree.count(item)
                } else {
                    0
                }),
    {
        let found = tree.retrieve(rect);
        let ghost wanted = |item: (Entity, Volume)| Self::meets(entity, rect, item);
        let mut met: Vec<(Entity, Volume)> = Vec::new();
        let mut i: usize = 0;
        while i < found.len()
            invariant
                i <= found@.len(),
                wanted == (|item: (Entity, Volume)| Self::meets(entity, rect, item)),
                met@ == found@.take(i as int).filter(wanted),
                forall|item: (Entity, Volume)| #[trigger]
                    occurrences(met@, item) == (if Self::meets(entity, rect, item) {
                        occurrences(found@.take(i as int), item)
                    } else {
                        0
                    }),
            decreases found@.len() - i,
        {
            let (other, volume) = found[i];
            let ghost so_far = met@;
            proof {
                reveal(Seq::filter);
                assert(found@.take(i + 1).drop_last() =~= found@.take(i as int));
                assert(found@.take(i + 1).last() == (other, volume));
                assert(found@.take(i + 1) =~= found@.take(i as int).push((other, volume)));
            }
            if rect.intersects(&volume) && !same_entity(&entity, &other) {
                met.push((other, volume));
            }
            proof {
                assert forall|item: (Entity, Volume)| #[trigger]
                    occurrences(met@, item) == (if Self::meets(entity, rect, item) {
                        occurrences(found@.take(i + 1), item)
                    } else {
                        0
                    }) by {
                    lemma_occurrences_push(found@.take(i as int), (other, volume), item);
                    lemma_occurrences_push(so_far, (other, volume), item);
                }
            }
            i += 1;
        }
        assert(found@.take(found@.len() as int) =~= found@);
        met
    }
}

/// A box that falls or rests, and below which a sampled tile of some row is
/// solid, lands: the check for ground names that row or one before it, and
/// sets `on_ground`.
pub proof fn lemma_solid_row_stops_the_fall(
    bb: HasAABB,
    vertical: Sign,
    grid: Grid,
    scans: Seq<RowScan>,
    landing: Option<usize>,
    solid: int,
)
    requires
        vertical.not_positive(),
        0 <= solid < scans.len(),
        scans[solid].blocked(grid),
        AABBMovingSystem::ground_found(vertical, grid, scans, bb.on_platform, landing),
    ensures
        landing matches Some(k) && k <= solid,
        AABBMovingSystem::grounded(bb, vertical, grid, scans, landing).on_ground,
{
}

/// A box that falls or rests lands on the first row of its sweep that has a
/// solid tile among its samples, where no row before it holds the box: the
/// check for ground names that row, sets `on_ground` and clears
/// `on_platform`. The caller then puts the box on top of that row and stops
/// its fall.
pub proof fn lemma_first_solid_row_is_the_landing(
    bb: HasAABB,
    vertical: Sign,
    grid: Grid,
    scans: Seq<RowScan>,
    landing: Option<usize>,
    solid: int,
)
    requires
        vertical.not_positive(),
        0 <= solid < scans.len(),
        scans[solid].blocked(grid),
        forall|j: int| 0 <= j < solid ==> !(#[trigger] scans[j]).supports(grid, bb.on_platform),
        AABBMovingSystem::ground_found(vertical, grid, scans, bb.on_platform, landing),
    ensures
        landing == Some(solid as usize),
        AABBMovingSystem::grounded(bb, vertical, grid, scans, landing) == (HasAABB {
            on_ground: true,
            on_platform: false,
            ..bb
        }),
{
}

/// Walls bind on one side per tick: a box that moves right when the left
/// wall is checked does not push a left wall at the end of the tick,
/// whatever the checks for the right wall and the ceiling find.
pub proof fn lemma_moving_right_never_pushes_left(
    bb: HasAABB,
    grid: Grid,
    left_scans: Seq<ColumnScan>,
    left_hit: Option<usize>,
    right_scans: Seq<ColumnScan>,
    right_hit: Option<usize>,
    ceiling_hit: Option<usize>,
)
    requires
        AABBMovingSystem::left_wall_found(Sign::Positive, grid, left_scans, left_hit),
    ensures
        !AABBMovingSystem::ceilinged(
            AABBMovingSystem::walled_right(
                AABBMovingSystem::walled_left(bb, left_scans, left_hit),
                right_scans,
                right_hit,
            ),
            ceiling_hit,
        ).pushes_left_wall,
{
}

/// The mirror image: a box that still moves left when the right wall is
/// checked does not push a right wall at the end of the tick. A box that a
/// wall on the left has stopped in this tick moves no more, and is checked
/// on the right as well.
pub proof fn lemma_moving_left_never_pushes_right(
    bb: HasAABB,
    grid: Grid,
    right_scans: Seq<ColumnScan>,
    right_hit: Option<usize>,
    ceiling_hit: Option<usize>,
)
    requires
        AABBMovingSystem::right_wall_found(Sign::Negative, grid, right_scans, right_hit),
    ensures
        !AABBMovingSystem::ceilinged(
            AABBMovingSystem::walled_right(bb, right_scans, right_hit),
            ceiling_hit,
        ).pushes_right_wall,
{
}

} // verus!
