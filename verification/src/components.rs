use vstd::prelude::*;

verus! {

/// Which way an entity faces.
#[derive(Clone, Copy, Debug, PartialEq, Eq, Structural)]
pub enum Directional {
    Left,
    Right,
}

/// What is drawn for an entity.
#[derive(Clone, Copy, Debug, PartialEq, Eq)]
pub enum RenderableType {
    /// Frame `frame` of the animation `id`, which has `length` frames.
    Animation { id: &'static str, frame: usize, length: usize },
    /// The image `id`.
    Image { id: &'static str },
    /// The sprite batch `id`.
    Batch { id: &'static str },
}

impl RenderableType {
    /// What `self` is after [`RenderableType::set_animation_id`].
    pub open spec fn with_animation_id(self, new_id: &'static str, new_length: usize) -> RenderableType {
        match self {
            RenderableType::Animation { id, frame, length } => RenderableType::Animation {
                id: new_id,
                frame,
                length: new_length,
            },
            _ => self,
        }
    }

    /// Makes an animation show `new_id` with `new_length` frames, keeping the
    /// frame it is at. An image or a batch stays as it is.
    pub fn set_animation_id(&mut self, new_id: &'static str, new_length: usize)
        ensures
            *final(self) == old(self).with_animation_id(new_id, new_length),
    {
        match self {
            RenderableType::Animation { id, length, .. } => {
                *id = new_id;
                *length = new_length;
            },
            _ => {},
        }
    }
}

/// What is drawn for an entity, and in which layer.
#[derive(Clone, Copy, Debug, PartialEq, Eq)]
pub struct Renderable {
    pub layer: usize,
    pub tpe: RenderableType,
}

} // verus!
