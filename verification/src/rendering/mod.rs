pub mod animation_laws;
pub mod animation_seq;
