//! Progress-tracking engine for a Minecraft save: catalog loading, requirement
//! extraction and live state updates, with machine-checked contracts.

pub mod advancements;
pub mod archive;
pub mod cache;
pub mod catalog;
pub mod codec;
pub mod context;
pub mod criteria;
pub mod error;
pub mod ident;
pub mod json;
pub mod loader;
pub mod model;
pub mod players;
pub mod requirements;
pub mod sorted;
pub mod state;
pub mod spreadsheet;
pub mod strmap;
pub mod subject;
pub mod tags;
pub mod text;
pub mod world;
