use vstd::prelude::*;

pub mod animator;
pub mod attachment;
pub mod collision;
pub mod entity;
pub mod font;
pub mod gem_counter;
pub mod hex_color;
pub mod input;
pub mod level;
pub mod push;
pub mod recorder;
pub mod seq_lemmas;
pub mod server;
pub mod strings;
pub mod switch;
pub mod text;
pub mod time;
pub mod xy_range_iterator;
pub mod z_index;

verus! {

} // verus!
