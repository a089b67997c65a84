//! Border sets: eight glyphs a frame is drawn with.

use vstd::prelude::*;

verus! {

/// The glyphs of a frame: four corners and the four edges.
#[derive(Clone, Copy, PartialEq, Eq, Debug)]
pub struct BorderSet {
    /// Top-left corner.
    pub top_left: &'static str,
    /// Top-right corner.
    pub top_right: &'static str,
    /// Bottom-left corner.
    pub bottom_left: &'static str,
    /// Bottom-right corner.
    pub bottom_right: &'static str,
    /// Left edge.
    pub vertical_left: &'static str,
    /// Right edge.
    pub vertical_right: &'static str,
    /// Top edge.
    pub horizontal_top: &'static str,
    /// Bottom edge.
    pub horizontal_bottom: &'static str,
}

/// The pure-ASCII border set, for terminals and fonts without box-drawing
/// glyphs: `+` corners, `|` sides, `-` top and bottom.
pub fn ascii() -> (s: BorderSet)
    ensures
        s.top_left@ == "+"@,
        s.top_right@ == "+"@,
        s.bottom_left@ == "+"@,
        s.bottom_right@ == "+"@,
        s.vertical_left@ == "|"@,
        s.vertical_right@ == "|"@,
        s.horizontal_top@ == "-"@,
        s.horizontal_bottom@ == "-"@,
{
    BorderSet {
        top_left: "+",
        top_right: "+",
        bottom_left: "+",
        bottom_right: "+",
        vertical_left: "|",
        vertical_right: "|",
        horizontal_top: "-",
        horizontal_bottom: "-",
    }
}

} // verus!
