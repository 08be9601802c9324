pub mod components;
pub mod quad_tree;
pub mod systems;
