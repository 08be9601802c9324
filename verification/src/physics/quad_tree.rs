use specs::Entity;
use vstd::prelude::*;

verus! {

/// An entity handle of the entity-component store. The tree carries such
/// handles and never looks inside them.
#[verifier::external_type_specification]
#[verifier::external_body]
pub struct ExEntity(specs::Entity);

/// Whether two handles name the same entity. Calls `==` of `specs::Entity`,
/// which `specs` derives from the handle's index and generation; the contract
/// takes two handles to be the same value exactly if that `==` holds.
#[verifier::external_body]
pub(crate) fn same_entity(a: &Entity, b: &Entity) -> (same: bool)
    ensures
        same == (*a == *b),
{
    a == b
}

/// The most objects a node holds before it is split.
pub const MAX_OBJECTS: usize = 10;

/// The deepest level at which a node may be split.
pub const MAX_LEVELS: usize = 5;

/// An axis-aligned box in whole world units: its corner of least `x` and
/// `y`, its width and its height.
#[derive(Debug, Clone, Copy, PartialEq, Eq, Structural)]
pub struct Volume {
    pub x: i64,
    pub y: i64,
    pub w: u64,
    pub h: u64,
}

impl Volume {
    /// Whether the two boxes have a point in common. Boxes that only touch
    /// do.
    pub open spec fn overlaps(self, other: Volume) -> bool {
        !(self.x + self.w < other.x || other.x + other.w < self.x || self.y + self.h < other.y
            || other.y + other.h < self.y)
    }

    /// The quarter of this area that `rect` lies in entirely, clear of both
    /// of the area's centre lines: 0 for least `y` and greatest `x`, then 1,
    /// 2 and 3 going round through least `x` and `y`; -1 where `rect` lies in
    /// none. Boxes in different quarters have no point in common.
    pub open spec fn quarter(self, rect: Volume) -> int {
        let low_x = 2 * (rect.x + rect.w) < 2 * self.x + self.w;
        let high_x = 2 * rect.x > 2 * self.x + self.w;
        let low_y = 2 * (rect.y + rect.h) < 2 * self.y + self.h;
        let high_y = 2 * rect.y > 2 * self.y + self.h;
        if low_x {
            if low_y {
                1
            } else if high_y {
                2
            } else {
                -1
            }
        } else if high_x {
            if low_y {
                0
            } else if high_y {
                3
            } else {
                -1
            }
        } else {
            -1
        }
    }

    /// The box with the corner `x`, `y`, the width `w` and the height `h`.
    pub fn new(x: i64, y: i64, w: u64, h: u64) -> (volume: Volume)
        ensures
            volume == (Volume { x, y, w, h }),
    {
        Volume { x, y, w, h }
    }

    /// Whether the two boxes have a point in common.
    pub fn intersects(&self, other: &Volume) -> (answer: bool)
        ensures
            answer == self.overlaps(*other),
    {
        !(self.x as i128 + (self.w as i128) < other.x as i128 || other.x as i128 + (other.w as i128)
            < self.x as i128 || self.y as i128 + (self.h as i128) < other.y as i128 || other.y as i128
            + (other.h as i128) < self.y as i128)
    }
}

/// The area of a node, in thirty-seconds of a world unit, so that halving it
/// is exact at every level.
#[derive(Clone, Copy)]
struct Region {
    x: i128,
    y: i128,
    w: i128,
    h: i128,
}

impl Region {
    /// The area `area` as a region.
    spec fn of(area: Volume) -> Region {
        Region {
            x: (32 * area.x) as i128,
            y: (32 * area.y) as i128,
            w: (32 * area.w) as i128,
            h: (32 * area.h) as i128,
        }
    }

    /// Whether the region is one that a node at `level` can have.
    spec fn fits_level(self, level: int) -> bool {
        &&& 0 <= level <= MAX_LEVELS
        &&& -0x40_0000_0000_0000_0000 * (level + 1) <= self.x <= 0x40_0000_0000_0000_0000 * (level
            + 1)
        &&& -0x40_0000_0000_0000_0000 * (level + 1) <= self.y <= 0x40_0000_0000_0000_0000 * (level
            + 1)
        &&& 0 <= self.w <= 0x40_0000_0000_0000_0000
        &&& 0 <= self.h <= 0x40_0000_0000_0000_0000
    }

    /// The quarter of the region that `rect` lies in entirely, clear of both
    /// centre lines: 0 for least `y` and greatest `x`, then 1, 2 and 3 going
    /// round through least `x` and `y`; -1 where `rect` lies in none.
    spec fn quadrant(self, rect: Volume) -> int {
        let low_x = 64 * (rect.x + rect.w) < 2 * self.x + self.w;
        let high_x = 64 * rect.x > 2 * self.x + self.w;
        let low_y = 64 * (rect.y + rect.h) < 2 * self.y + self.h;
        let high_y = 64 * rect.y > 2 * self.y + self.h;
        if low_x {
            if low_y {
                1
            } else if high_y {
                2
            } else {
                -1
            }
        } else if high_x {
            if low_y {
                0
            } else if high_y {
                3
            } else {
                -1
            }
        } else {
            -1
        }
    }
}

/// An area has the same quarters as the region that it is.
proof fn lemma_quarters_of_an_area(area: Volume, rect: Volume)
    ensures
        Region::of(area).quadrant(rect) == area.quarter(rect),
{
}

/// Boxes that lie in different quarters of a region have no point in common.
proof fn lemma_quarters_are_apart(region: Region, a: Volume, b: Volume)
    requires
        region.quadrant(a) != -1,
        region.quadrant(b) != -1,
        region.quadrant(a) != region.quadrant(b),
    ensures
        !a.overlaps(b),
{
}

fn get_index(bounds: &Region, rect: &Volume) -> (index: isize)
    requires
        exists|level: int| bounds.fits_level(level),
    ensures
        index == bounds.quadrant(*rect),
        -1 <= index <= 3,
{
    let centre_x = 2 * bounds.x + bounds.w;
    let centre_y = 2 * bounds.y + bounds.h;
    let low_x = 64 * (rect.x as i128 + rect.w as i128) < centre_x;
    let high_x = 64 * (rect.x as i128) > centre_x;
    let low_y = 64 * (rect.y as i128 + rect.h as i128) < centre_y;
    let high_y = 64 * (rect.y as i128) > centre_y;
    let mut index: isize = -1;
    if low_x {
        if low_y {
            index = 1;
        } else if high_y {
            index = 2;
        }
    } else if high_x {
        if low_y {
            index = 0;
        } else if high_y {
            index = 3;
        }
    }
    index
}


/// How often `item` occurs in `items`.
pub open spec fn occurrences(items: Seq<(Entity, Volume)>, item: (Entity, Volume)) -> nat
    decreases items.len(),
{
    if items.len() == 0 {
        0
    } else {
        occurrences(items.drop_last(), item) + if items.last() == item {
            1nat
        } else {
            0nat
        }
    }
}

/// One more item at the end occurs once more, and no other item does.
pub proof fn lemma_occurrences_push(
    items: Seq<(Entity, Volume)>,
    last: (Entity, Volume),
    item: (Entity, Volume),
)
    ensures
        occurrences(items.push(last), item) == occurrences(items, item) + if last == item {
            1nat
        } else {
            0nat
        },
{
    assert(items.push(last).drop_last() =~= items);
}

/// In two sequences one after the other, an item occurs as often as in both
/// together.
pub proof fn lemma_occurrences_add(
    front: Seq<(Entity, Volume)>,
    back: Seq<(Entity, Volume)>,
    item: (Entity, Volume),
)
    ensures
        occurrences(front + back, item) == occurrences(front, item) + occurrences(back, item),
    decreases back.len(),
{
    if back.len() == 0 {
        assert(front + back =~= front);
    } else {
        assert((front + back).drop_last() =~= front + back.drop_last());
        lemma_occurrences_add(front, back.drop_last(), item);
    }
}

/// A quadtree over boxes in world space. A box is kept in the deepest node
/// whose quarter it lies in entirely; a box that lies across a centre line
/// stays in the node itself.
pub struct QuadTree {
    level: usize,
    bounds: Region,
    objects: Vec<(Entity, Volume)>,
    nodes: Option<Box<Quadrants>>,
}

/// The four children of a node, in the order of their quarters' numbers.
struct Quadrants {
    first: QuadTree,
    second: QuadTree,
    third: QuadTree,
    fourth: QuadTree,
}

impl Quadrants {
    spec fn count(&self, item: (Entity, Volume)) -> nat
        decreases self,
    {
        self.first.count(item) + self.second.count(item) + self.third.count(item)
            + self.fourth.count(item)
    }

    spec fn size(&self) -> nat
        decreases self,
    {
        self.first.size() + self.second.size() + self.third.size() + self.fourth.size()
    }

    /// Whether the children are well formed, one level below `level`, and
    /// each holds only boxes of its own quarter of `bounds`.
    spec fn wf(&self, level: int, bounds: Region) -> bool
        decreases self, 0nat,
    {
        &&& self.first.sound() && self.first.level == level + 1
        &&& self.second.sound() && self.second.level == level + 1
        &&& self.third.sound() && self.third.level == level + 1
        &&& self.fourth.sound() && self.fourth.level == level + 1
        &&& forall|item: (Entity, Volume)| #[trigger]
            self.first.count(item) > 0 ==> bounds.quadrant(item.1) == 0
        &&& forall|item: (Entity, Volume)| #[trigger]
            self.second.count(item) > 0 ==> bounds.quadrant(item.1) == 1
        &&& forall|item: (Entity, Volume)| #[trigger]
            self.third.count(item) > 0 ==> bounds.quadrant(item.1) == 2
        &&& forall|item: (Entity, Volume)| #[trigger]
            self.fourth.count(item) > 0 ==> bounds.quadrant(item.1) == 3
    }

    spec fn found(&self, quarter: int, rect: Volume) -> Seq<(Entity, Volume)>
        decreases self,
    {
        if quarter == 0 {
            self.first.found(rect)
        } else if quarter == 1 {
            self.second.found(rect)
        } else if quarter == 2 {
            self.third.found(rect)
        } else if quarter == 3 {
            self.fourth.found(rect)
        } else {
            self.first.found(rect) + self.second.found(rect) + self.third.found(rect)
                + self.fourth.found(rect)
        }
    }
}

impl QuadTree {
    /// How often the tree holds the entity `item.0` with the box `item.1`:
    /// once for each time that it was put in.
    pub closed spec fn count(&self, item: (Entity, Volume)) -> nat
        decreases self,
    {
        occurrences(self.objects@, item) + match self.nodes {
            Some(nodes) => nodes.count(item),
            None => 0,
        }
    }

    /// Whether the tree holds the entity `item.0` with the box `item.1`.
    pub open spec fn holds(&self, item: (Entity, Volume)) -> bool {
        self.count(item) > 0
    }

    /// The number of boxes in the tree, each counted as often as it was put
    /// in.
    pub closed spec fn size(&self) -> nat
        decreases self,
    {
        self.objects@.len() + match self.nodes {
            Some(nodes) => nodes.size(),
            None => 0,
        }
    }

    /// The area that the tree was made over. Its quarters are those that the
    /// tree sorts its boxes by once it is parted.
    pub closed spec fn area(&self) -> Volume {
        Volume {
            x: (self.bounds.x / 32) as i64,
            y: (self.bounds.y / 32) as i64,
            w: (self.bounds.w / 32) as u64,
            h: (self.bounds.h / 32) as u64,
        }
    }

    /// Whether the tree has been parted: its area is split into quarters, and
    /// each box that lies in a quarter is kept there.
    pub closed spec fn parted(&self) -> bool {
        self.nodes.is_some()
    }

    /// Whether the tree is well formed: it is a whole tree, over its area,
    /// and every node of it is as [`QuadTree::insert`] leaves it.
    pub closed spec fn wf(&self) -> bool {
        &&& self.sound()
        &&& self.level == 0
        &&& self.bounds == Region::of(self.area())
    }

    /// Whether the node lies in the tree as it should: no deeper than
    /// [`MAX_LEVELS`], with children, if it has any, that are well formed and
    /// hold only boxes of their own quarters.
    spec fn placed(&self) -> bool
        decreases self, 0nat,
    {
        &&& self.bounds.fits_level(self.level as int)
        &&& match self.nodes {
            Some(nodes) => self.level < MAX_LEVELS && nodes.wf(self.level as int, self.bounds),
            None => true,
        }
    }

    /// Whether the node and all below it are as they should be. No node lies
    /// deeper than [`MAX_LEVELS`]. Every box lies in the quarter of each node
    /// above the node that keeps it. A node without children keeps no more
    /// than [`MAX_OBJECTS`] boxes, unless it lies at the deepest level; a
    /// node with children keeps only boxes that lie in none of its quarters.
    spec fn sound(&self) -> bool
        decreases self, 1nat,
    {
        &&& self.placed()
        &&& match self.nodes {
            Some(nodes) => forall|i: int|
                0 <= i < self.objects@.len() ==> self.bounds.quadrant(
                    (#[trigger] self.objects@[i]).1,
                ) == -1,
            None => self.objects@.len() <= MAX_OBJECTS || self.level >= MAX_LEVELS,
        }
    }

    /// What [`QuadTree::retrieve`] gives for `rect`, in order: from each node
    /// on the way down, what its children give and then its own boxes. The
    /// way leads into the quarter that `rect` lies in, and into all four
    /// where it lies in none.
    pub closed spec fn found(&self, rect: Volume) -> Seq<(Entity, Volume)>
        decreases self,
    {
        (match self.nodes {
            Some(nodes) => nodes.found(self.bounds.quadrant(rect), rect),
            None => Seq::empty(),
        }) + self.objects@
    }

    /// An empty tree over the area `bounds`: it holds nothing and is not
    /// parted yet.
    pub fn new(bounds: Volume) -> (tree: QuadTree)
        ensures
            tree.wf(),
            tree.area() == bounds,
            !tree.parted(),
            tree.size() == 0,
            forall|item: (Entity, Volume)| tree.count(item) == 0,
    {
        let region = Region {
            x: bounds.x as i128 * 32,
            y: bounds.y as i128 * 32,
            w: bounds.w as i128 * 32,
            h: bounds.h as i128 * 32,
        };
        QuadTree::create(0, region)
    }

    fn create(level: usize, bounds: Region) -> (tree: QuadTree)
        requires
            bounds.fits_level(level as int),
        ensures
            tree.sound(),
            tree.level == level,
            tree.bounds == bounds,
            tree.nodes.is_none(),
            tree.objects@.len() == 0,
            tree.size() == 0,
            forall|item: (Entity, Volume)| tree.count(item) == 0,
    {
        QuadTree { level, bounds, objects: Vec::new(), nodes: None }
    }

    /// Gives the node its four children, each over a quarter of its area.
    fn split(&mut self)
        requires
            old(self).placed(),
            old(self).nodes.is_none(),
            old(self).level < MAX_LEVELS,
        ensures
            final(self).placed(),
            final(self).nodes.is_some(),
            final(self).level == old(self).level,
            final(self).bounds == old(self).bounds,
            final(self).objects == old(self).objects,
            final(self).nodes.unwrap().size() == 0,
            forall|item: (Entity, Volume)| final(self).nodes.unwrap().count(item) == 0,
    {
        let sub_width = self.bounds.w / 2;
        let sub_height = self.bounds.h / 2;
        let x = self.bounds.x;
        let y = self.bounds.y;
        let level = self.level + 1;
        self.nodes = Some(
            Box::new(
                Quadrants {
                    first: QuadTree::create(
                        level,
                        Region { x: x + sub_width, y, w: sub_width, h: sub_height },
                    ),
                    second: QuadTree::create(level, Region { x, y, w: sub_width, h: sub_height }),
                    third: QuadTree::create(
                        level,
                        Region { x, y: y + sub_height, w: sub_width, h: sub_height },
                    ),
                    fourth: QuadTree::create(
                        level,
                        Region { x: x + sub_width, y: y + sub_height, w: sub_width, h: sub_height },
                    ),
                },
            ),
        );
    }

    /// Puts `entity` with its box `rect` into the tree, once more than it
    /// was there before. Nothing else is added or lost, and the tree stays
    /// over its area. A tree that holds [`MAX_OBJECTS`] boxes is parted when
    /// one more is put in, and it stays parted from then on.
    pub fn insert(&mut self, entity: Entity, rect: Volume)
        requires
            old(self).wf(),
        ensures
            final(self).wf(),
            final(self).area() == old(self).area(),
            final(self).size() == old(self).size() + 1,
            final(self).parted() == (old(self).parted() || old(self).size() >= MAX_OBJECTS),
            forall|item: (Entity, Volume)| #[trigger]
                final(self).count(item) == old(self).count(item) + if item == (entity, rect) {
                    1nat
                } else {
                    0nat
                },
    {
        proof {
            lemma_tree_size(*old(self));
        }
        self.insert_at(entity, rect);
    }

    fn insert_at(&mut self, entity: Entity, rect: Volume)
        requires
            old(self).sound(),
        ensures
            final(self).sound(),
            final(self).level == old(self).level,
            final(self).bounds == old(self).bounds,
            final(self).size() == old(self).size() + 1,
            final(self).nodes.is_some() == (old(self).nodes.is_some() || (old(self).objects@.len()
                >= MAX_OBJECTS && old(self).level < MAX_LEVELS)),
            forall|item: (Entity, Volume)| #[trigger]
                final(self).count(item) == old(self).count(item) + if item == (entity, rect) {
                    1nat
                } else {
                    0nat
                },
        decreases MAX_LEVELS - old(self).level,
    {
        let index = if self.nodes.is_some() {
            get_index(&self.bounds, &rect)
        } else {
            -1
        };
        if index != -1 {
            let mut nodes = self.nodes.take().unwrap();
            nodes.insert_into(index, self.level, self.bounds, entity, rect);
            self.nodes = Some(nodes);
            assert forall|item: (Entity, Volume)| #[trigger]
                self.count(item) == old(self).count(item) + if item == (entity, rect) {
                    1nat
                } else {
                    0nat
                } by {
                lemma_tree_count(*self, item);
                lemma_tree_count(*old(self), item);
            }
            proof {
                lemma_tree_size(*self);
                lemma_tree_size(*old(self));
            }
            return ;
        }
        self.objects.push((entity, rect));
        let ghost pushed = *self;
        proof {
            lemma_tree_size(pushed);
            lemma_tree_size(*old(self));
        }
        assert forall|item: (Entity, Volume)| #[trigger]
            pushed.count(item) == old(self).count(item) + if item == (entity, rect) {
                1nat
            } else {
                0nat
            } by {
            lemma_occurrences_push(old(self).objects@, (entity, rect), item);
            lemma_tree_count(pushed, item);
            lemma_tree_count(*old(self), item);
        }
        if self.objects.len() > MAX_OBJECTS && self.level < MAX_LEVELS {
            if self.nodes.is_none() {
                self.split();
            }
            let ghost parted = *self;
            assert forall|item: (Entity, Volume)| #[trigger]
                parted.count(item) == pushed.count(item) by {
                lemma_tree_count(pushed, item);
                lemma_tree_count(parted, item);
            }
            proof {
                lemma_tree_size(parted);
            }
            let mut pending: Vec<(Entity, Volume)> = Vec::new();
            std::mem::swap(&mut pending, &mut self.objects);
            let mut nodes = self.nodes.take().unwrap();
            let ghost before = *nodes;
            let mut i: usize = 0;
            while i < pending.len()
                invariant
                    i <= pending@.len(),
                    self.level == old(self).level,
                    self.level < MAX_LEVELS,
                    self.bounds == old(self).bounds,
                    self.bounds.fits_level(self.level as int),
                    nodes.wf(self.level as int, self.bounds),
                    forall|j: int|
                        0 <= j < self.objects@.len() ==> self.bounds.quadrant(
                            (#[trigger] self.objects@[j]).1,
                        ) == -1,
                    forall|item: (Entity, Volume)| #[trigger]
                        moved(self.objects@, *nodes, before, pending@.take(i as int), item),
                    self.objects@.len() + nodes.size() == before.size() + i,
                decreases pending@.len() - i,
            {
                let (other, volume) = pending[i];
                let ghost kept = self.objects@;
                let ghost below = *nodes;
                let quarter = get_index(&self.bounds, &volume);
                if quarter != -1 {
                    nodes.insert_into(quarter, self.level, self.bounds, other, volume);
                } else {
                    self.objects.push((other, volume));
                }
                proof {
                    assert(pending@.take(i + 1) =~= pending@.take(i as int).push((other, volume)));
                    assert forall|item: (Entity, Volume)| #[trigger]
                        moved(self.objects@, *nodes, before, pending@.take(i + 1), item) by {
                        assert(moved(kept, below, before, pending@.take(i as int), item));
                        lemma_occurrences_push(pending@.take(i as int), (other, volume), item);
                        lemma_occurrences_push(kept, (other, volume), item);
                    }
                }
                i += 1;
            }
            assert(pending@.take(pending@.len() as int) =~= pending@);
            self.nodes = Some(nodes);
            assert forall|item: (Entity, Volume)| #[trigger]
                self.count(item) == parted.count(item) by {
                lemma_tree_count(*self, item);
                lemma_tree_count(parted, item);
                assert(moved(self.objects@, *nodes, before, pending@, item));
            }
            proof {
                lemma_tree_size(*self);
            }
        }
    }

    fn retrieve_rec(&self, ret: &mut Vec<(Entity, Volume)>, rect: Volume)
        requires
            self.sound(),
        ensures
            final(ret)@ == old(ret)@ + self.found(rect),
        decreases self,
    {
        match &self.nodes {
            Some(nodes) => {
                let quarter = get_index(&self.bounds, &rect);
                if quarter == 0 {
                    nodes.first.retrieve_rec(ret, rect);
                } else if quarter == 1 {
                    nodes.second.retrieve_rec(ret, rect);
                } else if quarter == 2 {
                    nodes.third.retrieve_rec(ret, rect);
                } else if quarter == 3 {
                    nodes.fourth.retrieve_rec(ret, rect);
                } else {
                    nodes.first.retrieve_rec(ret, rect);
                    nodes.second.retrieve_rec(ret, rect);
                    nodes.third.retrieve_rec(ret, rect);
                    nodes.fourth.retrieve_rec(ret, rect);
                }
            },
            None => {},
        }
        let ghost below = ret@;
        let mut i: usize = 0;
        while i < self.objects.len()
            invariant
                i <= self.objects@.len(),
                ret@ == below + self.objects@.take(i as int),
            decreases self.objects@.len() - i,
        {
            ret.push(self.objects[i]);
            i += 1;
        }
        assert(self.objects@.take(self.objects@.len() as int) =~= self.objects@);
    }

    /// The candidates for a collision with `rect`: every box in the tree that
    /// has a point in common with `rect`, as often as the tree holds it, and
    /// possibly others, none more often than the tree holds it. Boxes in a
    /// quarter that `rect` lies clear of are left out.
    pub fn retrieve(&self, rect: Volume) -> (ret: Vec<(Entity, Volume)>)
        requires
            self.wf(),
        ensures
            ret@ == self.found(rect),
            forall|item: (Entity, Volume)| #[trigger] occurrences(ret@, item) <= self.count(item),
            forall|item: (Entity, Volume)|
                item.1.overlaps(rect) ==> #[trigger] occurrences(ret@, item) == self.count(item),
    {
        let mut ret: Vec<(Entity, Volume)> = Vec::new();
        self.retrieve_rec(&mut ret, rect);
        proof {
            assert(ret@ =~= self.found(rect));
            assert forall|item: (Entity, Volume)| #[trigger]
                occurrences(ret@, item) <= self.count(item) by {
                lemma_found_is_held(*self, rect, item);
            }
            assert forall|item: (Entity, Volume)| item.1.overlaps(rect) implies #[trigger] occurrences(
                ret@,
                item,
            ) == self.count(item) by {
                lemma_overlapping_box_is_found(*self, rect, item);
            }
        }
        ret
    }
}

impl Quadrants {
    /// Puts `entity` with `rect` into the child of quarter `index`.
    fn insert_into(&mut self, index: isize, level: usize, bounds: Region, entity: Entity, rect: Volume)
        requires
            old(self).wf(level as int, bounds),
            level < MAX_LEVELS,
            0 <= index <= 3,
            index == bounds.quadrant(rect),
        ensures
            final(self).wf(level as int, bounds),
            final(self).size() == old(self).size() + 1,
            forall|item: (Entity, Volume)| #[trigger]
                final(self).count(item) == old(self).count(item) + if item == (entity, rect) {
                    1nat
                } else {
                    0nat
                },
        decreases MAX_LEVELS - level, 0nat,
    {
        if index == 0 {
            self.first.insert_at(entity, rect);
        } else if index == 1 {
            self.second.insert_at(entity, rect);
        } else if index == 2 {
            self.third.insert_at(entity, rect);
        } else {
            self.fourth.insert_at(entity, rect);
        }
        assert forall|item: (Entity, Volume)| #[trigger]
            self.count(item) == old(self).count(item) + if item == (entity, rect) {
                1nat
            } else {
                0nat
            } by {
            lemma_quadrants_count(*self, item);
            lemma_quadrants_count(*old(self), item);
        }
        proof {
            lemma_quadrants_size(*self);
            lemma_quadrants_size(*old(self));
        }
    }
}

/// Whether `item` is accounted for while a node's boxes are handed down:
/// among the boxes kept and those held below it occurs as often as it did
/// below before and among those that were looked at.
spec fn moved(
    kept: Seq<(Entity, Volume)>,
    below: Quadrants,
    before: Quadrants,
    seen: Seq<(Entity, Volume)>,
    item: (Entity, Volume),
) -> bool {
    occurrences(kept, item) + below.count(item) == before.count(item) + occurrences(seen, item)
}

/// A node's boxes are its own and those of its children.
proof fn lemma_tree_size(tree: QuadTree)
    ensures
        tree.size() == tree.objects@.len() + (if tree.nodes.is_some() {
            tree.nodes.unwrap().size()
        } else {
            0
        }),
{
}

/// The children's boxes are those of each of them.
proof fn lemma_quadrants_size(nodes: Quadrants)
    ensures
        nodes.size() == nodes.first.size() + nodes.second.size() + nodes.third.size()
            + nodes.fourth.size(),
{
}

/// A node holds its own boxes and what its children hold.
proof fn lemma_tree_count(tree: QuadTree, item: (Entity, Volume))
    ensures
        tree.count(item) == occurrences(tree.objects@, item) + (if tree.nodes.is_some() {
            tree.nodes.unwrap().count(item)
        } else {
            0
        }),
{
}

/// The children hold what each of them holds.
proof fn lemma_quadrants_count(nodes: Quadrants, item: (Entity, Volume))
    ensures
        nodes.count(item) == nodes.first.count(item) + nodes.second.count(item)
            + nodes.third.count(item) + nodes.fourth.count(item),
{
}

/// Whatever a search gives is held by the tree, and it is given no more
/// often than the tree holds it.
pub proof fn lemma_found_is_held(tree: QuadTree, rect: Volume, item: (Entity, Volume))
    ensures
        occurrences(tree.found(rect), item) <= tree.count(item),
    decreases tree,
{
    lemma_tree_count(tree, item);
    match tree.nodes {
        Some(nodes) => {
            let below = nodes.found(tree.bounds.quadrant(rect), rect);
            lemma_found_below_is_held(*nodes, tree.bounds.quadrant(rect), rect, item);
            lemma_occurrences_add(below, tree.objects@, item);
        },
        None => {
            lemma_occurrences_add(Seq::empty(), tree.objects@, item);
        },
    }
}

proof fn lemma_found_below_is_held(nodes: Quadrants, quarter: int, rect: Volume, item: (Entity, Volume))
    ensures
        occurrences(nodes.found(quarter, rect), item) <= nodes.count(item),
    decreases nodes,
{
    let a = nodes.first.found(rect);
    let b = nodes.second.found(rect);
    let c = nodes.third.found(rect);
    let d = nodes.fourth.found(rect);
    lemma_quadrants_count(nodes, item);
    lemma_found_is_held(nodes.first, rect, item);
    lemma_found_is_held(nodes.second, rect, item);
    lemma_found_is_held(nodes.third, rect, item);
    lemma_found_is_held(nodes.fourth, rect, item);
    if !(0 <= quarter <= 3) {
        lemma_occurrences_add(a, b, item);
        lemma_occurrences_add(a + b, c, item);
        lemma_occurrences_add(a + b + c, d, item);
    }
}

/// No box is missed: a box that has a point in common with `rect` is among
/// what the search for `rect` gives as often as the tree holds it.
pub proof fn lemma_overlapping_box_is_found(tree: QuadTree, rect: Volume, item: (Entity, Volume))
    requires
        tree.wf(),
        item.1.overlaps(rect),
    ensures
        occurrences(tree.found(rect), item) == tree.count(item),
{
    lemma_overlapping_box_is_found_from(tree, rect, item);
}

/// An item that occurs in a sequence stands at a place of it.
proof fn lemma_occurring_item_has_a_place(items: Seq<(Entity, Volume)>, item: (Entity, Volume))
    requires
        occurrences(items, item) > 0,
    ensures
        exists|i: int| 0 <= i < items.len() && items[i] == item,
    decreases items.len(),
{
    if items.last() == item {
        assert(items[items.len() - 1] == item);
    } else {
        lemma_occurring_item_has_a_place(items.drop_last(), item);
        let i = choose|i: int| 0 <= i < items.drop_last().len() && items.drop_last()[i] == item;
        assert(items[i] == item);
    }
}

/// A search in a parted tree for a box that lies in a quarter of the tree's
/// area leaves out what lies in the other quarters: whatever it gives lies in
/// the same quarter, or in none.
pub proof fn lemma_other_quarters_are_left_out(
    tree: QuadTree,
    rect: Volume,
    item: (Entity, Volume),
)
    requires
        tree.wf(),
        tree.parted(),
        tree.area().quarter(rect) != -1,
        occurrences(tree.found(rect), item) > 0,
    ensures
        tree.area().quarter(item.1) == -1 || tree.area().quarter(item.1) == tree.area().quarter(
            rect,
        ),
{
    lemma_quarters_of_an_area(tree.area(), rect);
    lemma_quarters_of_an_area(tree.area(), item.1);
    let nodes = tree.nodes.unwrap();
    let quarter = tree.bounds.quadrant(rect);
    let below = nodes.found(quarter, rect);
    lemma_occurrences_add(below, tree.objects@, item);
    if occurrences(tree.objects@, item) > 0 {
        lemma_occurring_item_has_a_place(tree.objects@, item);
        let i = choose|i: int| 0 <= i < tree.objects@.len() && tree.objects@[i] == item;
        assert(tree.bounds.quadrant(tree.objects@[i].1) == -1);
    } else {
        lemma_found_below_is_held(*nodes, quarter, rect, item);
        lemma_quadrants_count(*nodes, item);
        if quarter == 0 {
            lemma_found_is_held(nodes.first, rect, item);
        } else if quarter == 1 {
            lemma_found_is_held(nodes.second, rect, item);
        } else if quarter == 2 {
            lemma_found_is_held(nodes.third, rect, item);
        } else {
            lemma_found_is_held(nodes.fourth, rect, item);
        }
    }
}

proof fn lemma_overlapping_box_is_found_from(tree: QuadTree, rect: Volume, item: (Entity, Volume))
    requires
        tree.sound(),
        item.1.overlaps(rect),
    ensures
        occurrences(tree.found(rect), item) == tree.count(item),
    decreases tree,
{
    lemma_tree_count(tree, item);
    match tree.nodes {
        Some(nodes) => {
            let below = nodes.found(tree.bounds.quadrant(rect), rect);
            lemma_overlapping_box_is_found_below(
                *nodes,
                tree.level as int,
                tree.bounds,
                rect,
                item,
            );
            lemma_occurrences_add(below, tree.objects@, item);
        },
        None => {
            lemma_occurrences_add(Seq::empty(), tree.objects@, item);
        },
    }
}

proof fn lemma_overlapping_box_is_found_below(
    nodes: Quadrants,
    level: int,
    bounds: Region,
    rect: Volume,
    item: (Entity, Volume),
)
    requires
        nodes.wf(level, bounds),
        item.1.overlaps(rect),
    ensures
        occurrences(nodes.found(bounds.quadrant(rect), rect), item) == nodes.count(item),
    decreases nodes,
{
    let quarter = bounds.quadrant(rect);
    let a = nodes.first.found(rect);
    let b = nodes.second.found(rect);
    let c = nodes.third.found(rect);
    let d = nodes.fourth.found(rect);
    lemma_quadrants_count(nodes, item);
    lemma_overlapping_box_is_found_from(nodes.first, rect, item);
    lemma_overlapping_box_is_found_from(nodes.second, rect, item);
    lemma_overlapping_box_is_found_from(nodes.third, rect, item);
    lemma_overlapping_box_is_found_from(nodes.fourth, rect, item);
    if quarter == -1 {
        lemma_occurrences_add(a, b, item);
        lemma_occurrences_add(a + b, c, item);
        lemma_occurrences_add(a + b + c, d, item);
    } else {
        // A box in another quarter than that of `rect` is apart from `rect`.
        if bounds.quadrant(item.1) != -1 && bounds.quadrant(item.1) != quarter {
            lemma_quarters_are_apart(bounds, item.1, rect);
        }
        assert(quarter != 0 ==> nodes.first.count(item) == 0);
        assert(quarter != 1 ==> nodes.second.count(item) == 0);
        assert(quarter != 2 ==> nodes.third.count(item) == 0);
        assert(quarter != 3 ==> nodes.fourth.count(item) == 0);
    }
}

} // verus!
