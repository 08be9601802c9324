use vstd::prelude::*;

verus! {

/// Where a ground sprite belongs in a block of ground: the corners and
/// edges, the middle, and the four inner corners.
#[derive(PartialEq, Eq, Hash, Clone, Copy, Debug, Structural)]
pub enum Square {
    LT,
    MT,
    RT,
    LM,
    MM,
    RM,
    LB,
    MB,
    RB,
    IBL,
    ILT,
    IBR,
    IRT,
}

/// Where a platform sprite belongs along a platform.
#[derive(PartialEq, Eq, Hash, Clone, Copy, Debug, Structural)]
pub enum Horizontal {
    Left,
    Right,
    Center,
}

/// What a sprite of a level's sprite sheet can be used for.
#[derive(Debug)]
pub enum SpriteType {
    Object,
    Platform { horizontal: Vec<Horizontal> },
    Ground { square: Vec<Square> },
}

impl SpriteType {
    /// A ground sprite that fits nowhere yet.
    pub fn empty_ground() -> (sprite: SpriteType)
        ensures
            sprite matches SpriteType::Ground { square } && square@ == Seq::<Square>::empty(),
    {
        SpriteType::Ground { square: Vec::new() }
    }

    /// A platform sprite that fits nowhere yet.
    pub fn empty_platform() -> (sprite: SpriteType)
        ensures
            sprite matches SpriteType::Platform { horizontal } && horizontal@ == Seq::<
                Horizontal,
            >::empty(),
    {
        SpriteType::Platform { horizontal: Vec::new() }
    }
}

} // verus!
