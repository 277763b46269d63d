use vstd::prelude::*;

verus! {

/// An RGB color of three bytes.
#[derive(Debug, PartialEq, Eq, Structural)]
pub struct Color {
    pub r: u8,
    pub g: u8,
    pub b: u8,
}

/// The sum of two color components, modulo 256.
pub open spec fn component_sum(a: u8, b: u8) -> u8 {
    ((a as int + b as int) % 256) as u8
}

impl Color {
    pub fn new(r: u8, g: u8, b: u8) -> (c: Color)
        ensures
            c == (Color { r, g, b }),
    {
        Color { r, g, b }
    }

    pub fn new_red() -> (c: Color)
        ensures
            c == (Color { r: 255, g: 0, b: 0 }),
    {
        Color::new(255, 0, 0)
    }

    pub fn new_green() -> (c: Color)
        ensures
            c == (Color { r: 0, g: 255, b: 0 }),
    {
        Color::new(0, 255, 0)
    }

    pub fn new_blue() -> (c: Color)
        ensures
            c == (Color { r: 0, g: 0, b: 255 }),
    {
        Color::new(0, 0, 255)
    }

    /// A color whose components are the sums of those of `c1` and `c2`,
    /// each modulo 256.
    pub fn cross(c1: &Color, c2: &Color) -> (c: Color)
        ensures
            c.r == component_sum(c1.r, c2.r),
            c.g == component_sum(c1.g, c2.g),
            c.b == component_sum(c1.b, c2.b),
    {
        Color::new(c1.r.wrapping_add(c2.r), c1.g.wrapping_add(c2.g), c1.b.wrapping_add(c2.b))
    }
}

} // verus!
