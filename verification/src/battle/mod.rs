//! What the world needs to know of battles: the monsters that take part,
//! the slots they stand in, and the text that tells what happens.

pub mod closer;
pub mod growth;
pub mod gui;
pub mod option;
pub mod pokemon;
pub mod text;
