use vstd::prelude::*;

use crate::beach::Beach;
use crate::crab::Crab;
use crate::diet::Diet;
use crate::hunting::{
    hunt_outcome, law_hunt_fails_without_diet, law_hunt_finds_edible, law_hunt_keeps_inedible,
    reef_holds, reefs_within,
};
use crate::prey::{Algae, AnyPrey, Clam, Minnow, Prey, Shrimp};
use crate::reef::{stock, Reef};

verus! {

/// The speed of the minnows of a generated reef.
pub const MINNOW_SPEED: u32 = 25;

/// The energy of the shrimp of a generated reef.
pub const SHRIMP_ENERGY: u32 = 1;

/// `n` copies of `p`.
pub open spec fn repeated(p: AnyPrey, n: nat) -> Seq<AnyPrey> {
    Seq::new(n, |_i: int| p)
}

/// The contents of a generated reef: the minnows, then the shrimp, the clams
/// and the algae.
pub open spec fn generated(n_minnows: nat, n_shrimp: nat, n_clams: nat, n_algae: nat) -> Seq<AnyPrey> {
    repeated(AnyPrey::Minnow(Minnow { speed: MINNOW_SPEED }), n_minnows) + repeated(
        AnyPrey::Shrimp(Shrimp { energy: SHRIMP_ENERGY }),
        n_shrimp,
    ) + repeated(AnyPrey::Clam(Clam {  }), n_clams) + repeated(AnyPrey::Algae(Algae {  }), n_algae)
}

/// The beaches and the reef arena of a simulation.
#[derive(Debug)]
pub struct Ocean {
    beaches: Vec<Beach>,
    reefs: Vec<Reef>,
}

/// Adds `n` copies of `p` at the tail of `reef`.
fn add_copies(reef: &mut Reef, p: AnyPrey, n: u32)
    ensures
        final(reef)@ == old(reef)@ + repeated(p, n as nat),
{
    let mut i: u32 = 0;
    while i < n
        invariant
            i <= n,
            reef@ == old(reef)@ + repeated(p, i as nat),
        decreases n - i,
    {
        reef.add_prey(p);
        i = i + 1;
        assert(reef@ =~= old(reef)@ + repeated(p, i as nat));
    }
}

impl Ocean {
    /// The beaches, in the order they were added.
    pub closed spec fn beach_seq(&self) -> Seq<Beach> {
        self.beaches@
    }

    /// The reef arena: reef handles are indices into it.
    pub closed spec fn reef_seq(&self) -> Seq<Reef> {
        self.reefs@
    }

    /// An ocean with no beaches and no reefs.
    pub fn new() -> (o: Ocean)
        ensures
            o.beach_seq().len() == 0,
            o.reef_seq().len() == 0,
    {
        Ocean { beaches: Vec::new(), reefs: Vec::new() }
    }

    pub fn add_beach(&mut self, beach: Beach)
        ensures
            final(self).beach_seq() == old(self).beach_seq().push(beach),
            final(self).reef_seq() == old(self).reef_seq(),
    {
        self.beaches.push(beach);
    }

    pub fn beaches(&self) -> (b: &Vec<Beach>)
        ensures
            b@ == self.beach_seq(),
    {
        &self.beaches
    }

    pub fn reefs(&self) -> (r: &Vec<Reef>)
        ensures
            r@ == self.reef_seq(),
    {
        &self.reefs
    }

    /// The reef with handle `id`.
    pub fn reef(&self, id: usize) -> (r: &Reef)
        requires
            id < self.reef_seq().len(),
        ensures
            *r == self.reef_seq()[id as int],
    {
        &self.reefs[id]
    }

    /// Builds a reef with the given numbers of minnows (of speed
    /// [`MINNOW_SPEED`]), shrimp (of energy [`SHRIMP_ENERGY`]), clams and
    /// algae, in that order, adds it to the ocean and returns its handle.
    pub fn generate_reef(&mut self, n_minnows: u32, n_shrimp: u32, n_clams: u32, n_algae: u32) -> (id:
        usize)
        ensures
            id == old(self).reef_seq().len(),
            final(self).reef_seq().len() == old(self).reef_seq().len() + 1,
            stock(final(self).reef_seq()) == stock(old(self).reef_seq()).push(
                generated(n_minnows as nat, n_shrimp as nat, n_clams as nat, n_algae as nat),
            ),
            final(self).beach_seq() == old(self).beach_seq(),
    {
        let mut reef = Reef::new();
        add_copies(&mut reef, AnyPrey::Minnow(Minnow::new(MINNOW_SPEED)), n_minnows);
        add_copies(&mut reef, AnyPrey::Shrimp(Shrimp::new(SHRIMP_ENERGY)), n_shrimp);
        add_copies(&mut reef, AnyPrey::Clam(Clam::new()), n_clams);
        add_copies(&mut reef, AnyPrey::Algae(Algae::new()), n_algae);
        let id = self.reefs.len();
        self.reefs.push(reef);
        assert(stock(self.reefs@) =~= stock(old(self).reefs@).push(
            generated(n_minnows as nat, n_shrimp as nat, n_clams as nat, n_algae as nat),
        ));
        id
    }

    /// Sends `crab` hunting in this ocean's reefs (see [`Crab::hunt`]).
    pub fn hunt(&mut self, crab: &mut Crab) -> (caught: bool)
        requires
            reefs_within(old(crab)@.reefs, old(self).reef_seq().len()),
        ensures
            *final(crab) == *old(crab),
            final(self).beach_seq() == old(self).beach_seq(),
            final(self).reef_seq().len() == old(self).reef_seq().len(),
            (caught, stock(final(self).reef_seq())) == hunt_outcome(
                old(crab)@.speed,
                old(crab)@.diet,
                old(crab)@.reefs,
                stock(old(self).reef_seq()),
            ),
    {
        crab.hunt(&mut self.reefs)
    }
}

/// In a reef generated with `n >= 1` prey of each kind, the one reef that a
/// crab discovered, a shellfish eater (which eats the clams) and a plant
/// eater (which eats the algae) each succeed, whatever their speed.
pub proof fn law_generated_reef_feeds(speed: u32, r: usize, reefs: Seq<Seq<AnyPrey>>, n: nat)
    requires
        n >= 1,
        r < reefs.len(),
        reefs[r as int] == generated(n, n, n, n),
    ensures
        hunt_outcome(speed, Diet::Shellfish, seq![r], reefs).0,
        hunt_outcome(speed, Diet::Plants, seq![r], reefs).0,
{
    let ids = seq![r];
    assert(reefs[r as int][2 * n as int] == AnyPrey::Clam(Clam {  }));
    assert(reefs[r as int][3 * n as int] == AnyPrey::Algae(Algae {  }));
    law_hunt_finds_edible(speed, Diet::Shellfish, ids, reefs, 0, 2 * n as int);
    law_hunt_finds_edible(speed, Diet::Plants, ids, reefs, 0, 3 * n as int);
}

/// In a generated reef of algae alone, the one reef that a crab discovered,
/// a crab that does not eat plants never succeeds.
pub proof fn law_algae_reef_starves_others(
    speed: u32,
    diet: Diet,
    r: usize,
    reefs: Seq<Seq<AnyPrey>>,
    n: nat,
)
    requires
        diet != Diet::Plants,
        r < reefs.len(),
        reefs[r as int] == generated(0, 0, 0, n),
    ensures
        !hunt_outcome(speed, diet, seq![r], reefs).0,
{
    let ids = seq![r];
    assert forall|j: int, i: int|
        0 <= j < ids.len() && 0 <= i < reefs[ids[j] as int].len() implies (
        #[trigger] reefs[ids[j] as int][i]).diet_of() != diet by {
        assert(reefs[r as int][i] == AnyPrey::Algae(Algae {  }));
    }
    law_hunt_fails_without_diet(speed, diet, ids, reefs);
}

/// In a reef generated with `n >= 1` prey of each kind, the one reef that
/// two crabs discovered, a plant eater still succeeds after a shellfish eater
/// has hunted there: the algae outlast the first hunt.
pub proof fn law_plant_eater_after_shellfish_eater(
    shellfish_speed: u32,
    plants_speed: u32,
    r: usize,
    reefs: Seq<Seq<AnyPrey>>,
    n: nat,
)
    requires
        n >= 1,
        r < reefs.len(),
        reefs[r as int] == generated(n, n, n, n),
    ensures
        hunt_outcome(
            plants_speed,
            Diet::Plants,
            seq![r],
            hunt_outcome(shellfish_speed, Diet::Shellfish, seq![r], reefs).1,
        ).0,
{
    let ids = seq![r];
    let algae = AnyPrey::Algae(Algae {  });
    assert(reefs[r as int][3 * n as int] == algae);
    assert(reef_holds(reefs, r as int, algae));
    law_hunt_keeps_inedible(shellfish_speed, Diet::Shellfish, ids, reefs, r as int, algae);
    let after = hunt_outcome(shellfish_speed, Diet::Shellfish, ids, reefs).1;
    let i = choose|i: int| 0 <= i < after[r as int].len() && #[trigger] after[r as int][i] == algae;
    assert(ids[0] == r);
    law_hunt_finds_edible(plants_speed, Diet::Plants, ids, after, 0, i);
}

} // verus!
