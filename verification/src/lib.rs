//! Terminal user-interface building blocks: geometry, layout, scrolling,
//! text editing, key maps and theme primitives, each stated as a contract.

pub mod action;
pub mod diagnostics;
pub mod geometry;
pub mod id;
pub mod keys;
pub mod keymap;
pub mod layer;
pub mod layout;
pub mod measure;
pub mod response;
pub mod runtime;
pub mod scroll;
pub mod secret;
pub mod text;
pub mod theme;
pub mod wipe;
mod fence;
