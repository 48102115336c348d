//! Logical colors and the depth-to-color cycling rule.

use vstd::prelude::*;

verus! {

/// A logical terminal color. The surrounding program decides how a tag is
/// realized on an actual terminal; the rendering logic only picks tags.
#[derive(Clone, Copy, Debug, PartialEq, Eq, Structural)]
pub enum ColorTag {
    Cyan,
    Magenta,
    Red,
    Yellow,
    Green,
    Blue,
    White,
}

/// The color a branch at depth `d` gets from a color-depth map: the map is
/// cycled, so depth `d` is colored `map[d mod map.len()]`.
pub open spec fn color_at(map: Seq<ColorTag>, d: int) -> ColorTag {
    map[d % map.len() as int]
}

/// The fixed palette that branch colors cycle through, in order.
pub fn default_color_map() -> (map: Vec<ColorTag>)
    ensures
        map@ =~= seq![
            ColorTag::Cyan,
            ColorTag::Magenta,
            ColorTag::Red,
            ColorTag::Yellow,
            ColorTag::Green,
        ],
{
    let mut map: Vec<ColorTag> = Vec::new();
    map.push(ColorTag::Cyan);
    map.push(ColorTag::Magenta);
    map.push(ColorTag::Red);
    map.push(ColorTag::Yellow);
    map.push(ColorTag::Green);
    map
}

/// The branch color for `depth`: the color-depth map cycled, independent of
/// anything but the depth and the map itself.
pub fn branch_color(map: &Vec<ColorTag>, depth: u32) -> (c: ColorTag)
    requires
        map@.len() > 0,
    ensures
        c == color_at(map@, depth as int),
{
    let i: usize = (depth as usize) % map.len();
    map[i]
}

} // verus!
