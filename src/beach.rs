use vstd::prelude::*;

use crate::color::{component_sum, Color};
use crate::crab::Crab;
use crate::diet::{diet_of_draw, Diet};
use crate::rand::{next_count, RandomSource, DEFAULT_SEED};

verus! {

/// The crabs of `crabs` whose name is `name`, in their order.
pub open spec fn named(crabs: Seq<Crab>, name: Seq<char>) -> Seq<Crab>
    decreases crabs.len(),
{
    if crabs.len() == 0 {
        Seq::empty()
    } else if crabs.last()@.name == name {
        named(crabs.drop_last(), name).push(crabs.last())
    } else {
        named(crabs.drop_last(), name)
    }
}

/// Whether `k` is the first position of a crab of the greatest speed.
pub open spec fn is_fastest(crabs: Seq<Crab>, k: int) -> bool {
    &&& 0 <= k < crabs.len()
    &&& forall|j: int| 0 <= j < crabs.len() ==> crabs[j]@.speed <= crabs[k]@.speed
    &&& forall|j: int| 0 <= j < k ==> crabs[j]@.speed < crabs[k]@.speed
}

/// The speed of every crab that breeding produces.
pub const BRED_SPEED: u32 = 1;

/// A collection of crabs, with the random source that breeding draws from.
#[derive(Debug)]
pub struct Beach {
    crabs: Vec<Crab>,
    source: RandomSource,
}

impl Beach {
    /// The crabs, in the order they were added.
    pub closed spec fn crab_seq(&self) -> Seq<Crab> {
        self.crabs@
    }

    /// The random source that breeding draws diets from.
    pub closed spec fn source_of(&self) -> RandomSource {
        self.source
    }

    /// An empty beach, whose random source has seed [`DEFAULT_SEED`].
    pub fn new() -> (b: Beach)
        ensures
            b.crab_seq().len() == 0,
            b.source_of().seed_of() == DEFAULT_SEED,
            b.source_of().drawn_of() == 0,
    {
        Beach { crabs: Vec::new(), source: RandomSource::new() }
    }

    /// The number of crabs on the beach.
    pub fn size(&self) -> (n: usize)
        ensures
            n == self.crab_seq().len(),
    {
        self.crabs.len()
    }

    pub fn add_crab(&mut self, crab: Crab)
        ensures
            final(self).crab_seq() == old(self).crab_seq().push(crab),
    {
        self.crabs.push(crab);
    }

    pub fn get_crab(&self, index: usize) -> (c: &Crab)
        requires
            index < self.crab_seq().len(),
        ensures
            *c == self.crab_seq()[index as int],
    {
        &self.crabs[index]
    }

    /// The crabs, in the order they were added.
    pub fn crabs(&self) -> (c: &Vec<Crab>)
        ensures
            c@ == self.crab_seq(),
    {
        &self.crabs
    }

    /// The first of the fastest crabs; `None` on an empty beach.
    pub fn get_fastest_crab(&self) -> (c: Option<&Crab>)
        ensures
            self.crab_seq().len() == 0 ==> c is None,
            self.crab_seq().len() > 0 ==> exists|k: int|
                is_fastest(self.crab_seq(), k) && c == Some(&#[trigger] self.crab_seq()[k]),
    {
        if self.crabs.len() == 0 {
            return None;
        }
        let mut best: usize = 0;
        let mut i: usize = 1;
        while i < self.crabs.len()
            invariant
                1 <= i <= self.crabs@.len(),
                best < i,
                forall|j: int| 0 <= j < i ==> self.crabs@[j]@.speed <= self.crabs@[best as int]@.speed,
                forall|j: int| 0 <= j < best ==> self.crabs@[j]@.speed < self.crabs@[best as int]@.speed,
            decreases self.crabs@.len() - i,
        {
            if self.crabs[i].speed() > self.crabs[best].speed() {
                best = i;
            }
            i = i + 1;
        }
        assert(is_fastest(self.crabs@, best as int));
        Some(&self.crabs[best])
    }

    /// The crabs named `name`, in their order.
    pub fn find_crabs_by_name(&self, name: &str) -> (found: Vec<&Crab>)
        ensures
            found@.map_values(|c: &Crab| *c) == named(self.crab_seq(), name@),
    {
        let target = name.to_owned();
        let mut found: Vec<&Crab> = Vec::new();
        let mut i: usize = 0;
        while i < self.crabs.len()
            invariant
                i <= self.crabs@.len(),
                target@ == name@,
                found@.map_values(|c: &Crab| *c) == named(self.crabs@.subrange(0, i as int), name@),
            decreases self.crabs@.len() - i,
        {
            let ghost prefix = self.crabs@.subrange(0, i as int + 1);
            assert(prefix.drop_last() =~= self.crabs@.subrange(0, i as int));
            let ghost before = found@;
            if self.crabs[i].has_name(&target) {
                found.push(&self.crabs[i]);
                assert(found@.map_values(|c: &Crab| *c) =~= before.map_values(|c: &Crab| *c).push(
                    self.crabs@[i as int],
                ));
            }
            i = i + 1;
        }
        assert(self.crabs@.subrange(0, i as int) =~= self.crabs@);
        found
    }

    /// Adds a child of the crabs at `first` and `second`, named `name`: its
    /// speed is [`BRED_SPEED`], its color the cross of its parents' colors,
    /// and its diet drawn from the beach's random source.
    pub fn breed_crabs(&mut self, first: usize, second: usize, name: String)
        requires
            first < old(self).crab_seq().len(),
            second < old(self).crab_seq().len(),
        ensures
            final(self).crab_seq().len() == old(self).crab_seq().len() + 1,
            final(self).crab_seq().drop_last() == old(self).crab_seq(),
            final(self).crab_seq().last()@.name == name@,
            final(self).crab_seq().last()@.speed == BRED_SPEED,
            final(self).crab_seq().last()@.color == (Color {
                r: component_sum(old(self).crab_seq()[first as int]@.color.r, old(self).crab_seq()[second as int]@.color.r),
                g: component_sum(old(self).crab_seq()[first as int]@.color.g, old(self).crab_seq()[second as int]@.color.g),
                b: component_sum(old(self).crab_seq()[first as int]@.color.b, old(self).crab_seq()[second as int]@.color.b),
            }),
            final(self).crab_seq().last()@.reefs == Seq::<usize>::empty(),
            final(self).crab_seq().last()@.diet == diet_of_draw(old(self).source_of().next_value()),
            final(self).source_of().seed_of() == old(self).source_of().seed_of(),
            final(self).source_of().drawn_of() == next_count(old(self).source_of().drawn_of()),
    {
        let color = Color::cross(self.crabs[first].color(), self.crabs[second].color());
        let diet = Diet::random_diet(&mut self.source);
        let child = Crab::new(name, BRED_SPEED, color, diet);
        self.crabs.push(child);
        assert(self.crabs@.drop_last() =~= old(self).crabs@);
    }
}

} // verus!
