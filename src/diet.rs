use vstd::prelude::*;

use crate::rand::{next_count, rand32, RandomSource};

verus! {

/// A crab's diet: fish, shellfish, or plants (seaweed, algae, etc).
#[derive(Debug, PartialEq, Eq, Structural, Copy, Clone)]
pub enum Diet {
    Fish,
    Shellfish,
    Plants,
}

/// The diet that a random draw stands for: the draw modulo three, read in
/// the order fish, shellfish, plants.
pub open spec fn diet_of_draw(draw: u32) -> Diet {
    if draw % 3 == 0 {
        Diet::Fish
    } else if draw % 3 == 1 {
        Diet::Shellfish
    } else {
        Diet::Plants
    }
}

impl Diet {
    /// Maps a random draw onto a diet.
    pub fn from_draw(draw: u32) -> (d: Diet)
        ensures
            d == diet_of_draw(draw),
    {
        let r: u32 = draw % 3;
        if r == 0 {
            Diet::Fish
        } else if r == 1 {
            Diet::Shellfish
        } else {
            Diet::Plants
        }
    }

    /// Draws a diet uniformly from the three values, using the next value of
    /// the given source.
    pub fn random_diet(source: &mut RandomSource) -> (d: Diet)
        ensures
            d == diet_of_draw(old(source).next_value()),
            final(source).seed_of() == old(source).seed_of(),
            final(source).drawn_of() == next_count(old(source).drawn_of()),
    {
        let draw = rand32(source);
        Diet::from_draw(draw)
    }
}

} // verus!
