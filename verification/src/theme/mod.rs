//! Theme primitives: glyph roles, colour roles and surfaces, design tokens,
//! style patches, border sets, and the recipes patches are organised in.

pub mod border;
pub mod builtin;
pub mod colors;
pub mod glyph;
pub mod palettes;
pub mod patch;
pub mod recipe;
pub mod resolve;
pub mod role;
pub mod tokens;
