use vstd::prelude::*;

use crate::crab::Crab;
use crate::diet::Diet;

verus! {

/// Something a crab may eat.
///
/// `escapes` and `after_attempt` describe `try_escape`: whether the prey gets
/// away from a crab of the given speed, and what the prey is like afterwards.
pub trait Prey: Sized {
    spec fn diet_of(&self) -> Diet;

    spec fn escapes(&self, crab_speed: u32) -> bool;

    spec fn after_attempt(&self, crab_speed: u32) -> Self;

    /// What diet does this prey fit into?
    fn diet(&self) -> (d: Diet)
        ensures
            d == self.diet_of(),
    ;

    /// Called when `crab` tries to eat this prey: true if the prey gets away,
    /// false if it does not. Only the prey's own state changes.
    fn try_escape(&mut self, crab: &Crab) -> (escaped: bool)
        ensures
            escaped == old(self).escapes(crab@.speed),
            *final(self) == old(self).after_attempt(crab@.speed),
    ;
}

/// Shrimp move in bursts, and escape while they have energy left.
#[derive(Debug, PartialEq, Eq, Structural, Clone, Copy)]
pub struct Shrimp {
    pub energy: u32,
}

impl Shrimp {
    pub fn new(energy: u32) -> (s: Shrimp)
        ensures
            s.energy == energy,
    {
        Shrimp { energy }
    }
}

impl Prey for Shrimp {
    open spec fn diet_of(&self) -> Diet {
        Diet::Shellfish
    }

    open spec fn escapes(&self, crab_speed: u32) -> bool {
        self.energy > 0
    }

    open spec fn after_attempt(&self, crab_speed: u32) -> Shrimp {
        if self.energy > 0 {
            Shrimp { energy: (self.energy - 1) as u32 }
        } else {
            *self
        }
    }

    fn diet(&self) -> (d: Diet) {
        Diet::Shellfish
    }

    fn try_escape(&mut self, crab: &Crab) -> (escaped: bool) {
        if self.energy == 0 {
            // No energy left to escape.
            false
        } else {
            // Escaped, but more tired.
            self.energy = self.energy - 1;
            true
        }
    }
}

/// Minnows are fast and tireless: they always escape from slower crabs.
#[derive(Debug, PartialEq, Eq, Structural, Clone, Copy)]
pub struct Minnow {
    pub speed: u32,
}

impl Minnow {
    pub fn new(speed: u32) -> (m: Minnow)
        ensures
            m.speed == speed,
    {
        Minnow { speed }
    }
}

impl Prey for Minnow {
    open spec fn diet_of(&self) -> Diet {
        Diet::Fish
    }

    open spec fn escapes(&self, crab_speed: u32) -> bool {
        self.speed > crab_speed
    }

    open spec fn after_attempt(&self, crab_speed: u32) -> Minnow {
        *self
    }

    fn diet(&self) -> (d: Diet) {
        Diet::Fish
    }

    fn try_escape(&mut self, crab: &Crab) -> (escaped: bool) {
        self.speed > crab.speed()
    }
}

/// Algae cannot move: they never escape.
#[derive(Debug, PartialEq, Eq, Structural, Clone, Copy)]
pub struct Algae {}

impl Algae {
    pub fn new() -> (a: Algae) {
        Algae {  }
    }
}

impl Prey for Algae {
    open spec fn diet_of(&self) -> Diet {
        Diet::Plants
    }

    open spec fn escapes(&self, crab_speed: u32) -> bool {
        false
    }

    open spec fn after_attempt(&self, crab_speed: u32) -> Algae {
        *self
    }

    fn diet(&self) -> (d: Diet) {
        Diet::Plants
    }

    fn try_escape(&mut self, crab: &Crab) -> (escaped: bool) {
        false
    }
}

/// There is no escape for the clam.
#[derive(Debug, PartialEq, Eq, Structural, Clone, Copy)]
pub struct Clam {}

impl Clam {
    pub fn new() -> (c: Clam) {
        Clam {  }
    }
}

impl Prey for Clam {
    open spec fn diet_of(&self) -> Diet {
        Diet::Shellfish
    }

    open spec fn escapes(&self, crab_speed: u32) -> bool {
        false
    }

    open spec fn after_attempt(&self, crab_speed: u32) -> Clam {
        *self
    }

    fn diet(&self) -> (d: Diet) {
        Diet::Shellfish
    }

    fn try_escape(&mut self, crab: &Crab) -> (escaped: bool) {
        false
    }
}

/// A prey of any of the four kinds: what reefs hold.
#[derive(Debug, PartialEq, Eq, Structural, Clone, Copy)]
pub enum AnyPrey {
    Shrimp(Shrimp),
    Minnow(Minnow),
    Algae(Algae),
    Clam(Clam),
}

impl Prey for AnyPrey {
    open spec fn diet_of(&self) -> Diet {
        match self {
            AnyPrey::Shrimp(p) => p.diet_of(),
            AnyPrey::Minnow(p) => p.diet_of(),
            AnyPrey::Algae(p) => p.diet_of(),
            AnyPrey::Clam(p) => p.diet_of(),
        }
    }

    open spec fn escapes(&self, crab_speed: u32) -> bool {
        match self {
            AnyPrey::Shrimp(p) => p.escapes(crab_speed),
            AnyPrey::Minnow(p) => p.escapes(crab_speed),
            AnyPrey::Algae(p) => p.escapes(crab_speed),
            AnyPrey::Clam(p) => p.escapes(crab_speed),
        }
    }

    open spec fn after_attempt(&self, crab_speed: u32) -> AnyPrey {
        match self {
            AnyPrey::Shrimp(p) => AnyPrey::Shrimp(p.after_attempt(crab_speed)),
            AnyPrey::Minnow(p) => AnyPrey::Minnow(p.after_attempt(crab_speed)),
            AnyPrey::Algae(p) => AnyPrey::Algae(p.after_attempt(crab_speed)),
            AnyPrey::Clam(p) => AnyPrey::Clam(p.after_attempt(crab_speed)),
        }
    }

    fn diet(&self) -> (d: Diet) {
        match self {
            AnyPrey::Shrimp(p) => p.diet(),
            AnyPrey::Minnow(p) => p.diet(),
            AnyPrey::Algae(p) => p.diet(),
            AnyPrey::Clam(p) => p.diet(),
        }
    }

    fn try_escape(&mut self, crab: &Crab) -> (escaped: bool) {
        match self {
            AnyPrey::Shrimp(p) => p.try_escape(crab),
            AnyPrey::Minnow(p) => p.try_escape(crab),
            AnyPrey::Algae(p) => p.try_escape(crab),
            AnyPrey::Clam(p) => p.try_escape(crab),
        }
    }
}

/// An attempt leaves a prey's diet as it was.
pub proof fn lemma_attempt_keeps_diet(p: AnyPrey, crab_speed: u32)
    ensures
        p.after_attempt(crab_speed).diet_of() == p.diet_of(),
{
}

/// A prey that does not escape is left as it was by the attempt.
pub proof fn lemma_caught_prey_unchanged(p: AnyPrey, crab_speed: u32)
    requires
        !p.escapes(crab_speed),
    ensures
        p.after_attempt(crab_speed) == p,
{
}

} // verus!
