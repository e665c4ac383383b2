//! The colours that bars and slices cycle through.

use vstd::prelude::*;
use crate::chart::bar::BAR_PALETTE_SIZE;
use crate::chart::pie::PIE_PALETTE_SIZE;

verus! {

/// A colour by its red, green and blue parts.
#[derive(Debug, Clone, Copy, PartialEq, Eq)]
pub struct Color {
    pub r: u8,
    pub g: u8,
    pub b: u8,
}

/// The colours of a pie, in order. The first six are the colours of bars.
pub open spec fn spec_palette() -> Seq<Color> {
    seq![
        Color { r: 100, g: 150, b: 250 },
        Color { r: 250, g: 150, b: 100 },
        Color { r: 100, g: 250, b: 150 },
        Color { r: 250, g: 100, b: 150 },
        Color { r: 150, g: 100, b: 250 },
        Color { r: 150, g: 250, b: 100 },
        Color { r: 100, g: 200, b: 250 },
        Color { r: 250, g: 200, b: 100 },
        Color { r: 100, g: 250, b: 200 },
        Color { r: 250, g: 100, b: 200 },
        Color { r: 200, g: 100, b: 250 },
        Color { r: 200, g: 250, b: 100 },
    ]
}

/// The colours of a pie, in order.
pub fn palette() -> (colors: Vec<Color>)
    ensures
        colors@ == spec_palette(),
        colors@.len() == PIE_PALETTE_SIZE,
{
    let mut colors: Vec<Color> = Vec::new();
    colors.push(Color { r: 100, g: 150, b: 250 });
    colors.push(Color { r: 250, g: 150, b: 100 });
    colors.push(Color { r: 100, g: 250, b: 150 });
    colors.push(Color { r: 250, g: 100, b: 150 });
    colors.push(Color { r: 150, g: 100, b: 250 });
    colors.push(Color { r: 150, g: 250, b: 100 });
    colors.push(Color { r: 100, g: 200, b: 250 });
    colors.push(Color { r: 250, g: 200, b: 100 });
    colors.push(Color { r: 100, g: 250, b: 200 });
    colors.push(Color { r: 250, g: 100, b: 200 });
    colors.push(Color { r: 200, g: 100, b: 250 });
    colors.push(Color { r: 200, g: 250, b: 100 });
    assert(colors@ =~= spec_palette());
    colors
}

/// The colour of the bar of bucket `i`.
pub fn bar_color(i: usize) -> (color: Color)
    ensures
        color == spec_palette()[(i % BAR_PALETTE_SIZE) as int],
{
    let colors = palette();
    colors[i % BAR_PALETTE_SIZE]
}

/// The colour of the slice of bucket `i`.
pub fn pie_color(i: usize) -> (color: Color)
    ensures
        color == spec_palette()[(i % PIE_PALETTE_SIZE) as int],
{
    let colors = palette();
    colors[i % PIE_PALETTE_SIZE]
}

} // verus!
