//! The requirements extractor: from a criterion's loosely shaped condition
//! tree to a list of typed subjects.

pub mod blocks;
pub mod criteria;
pub mod effects;
pub mod entities;
pub mod ids;
pub mod items;
pub mod laws;
pub mod location;
pub mod misc;
pub mod nbt;
pub mod players;
