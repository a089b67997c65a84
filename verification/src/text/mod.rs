//! Text: Unicode facts, measurement, editing, fuzzy matching and
//! role-carrying spans.

pub mod unicode;
pub mod measure;
pub mod buffer;
pub mod clusters;
pub mod editor;
pub mod fuzzy;
pub mod span;
