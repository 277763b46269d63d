use vstd::prelude::*;

use crate::color::Color;
use crate::cookbook::{is_first_for_diet, Cookbook, Recipe};
use crate::diet::Diet;
use crate::hunting::{
    first_stocked, given_to, hunt_outcome, lemma_first_stocked, hunt_run, is_first_stocked, lemma_total_taken,
    reefs_within, released, stocked, taken_from, total,
};
use crate::prey::{AnyPrey, Prey};
use crate::reef::{stock, Reef};

verus! {

/// What a crab is, seen from outside: its name, speed, color, diet, and the
/// reefs it has discovered, as indices into a reef arena, in discovery order.
pub struct CrabModel {
    pub name: Seq<char>,
    pub speed: u32,
    pub color: Color,
    pub diet: Diet,
    pub reefs: Seq<usize>,
}

/// A crab. It is never copied implicitly.
#[derive(Debug)]
pub struct Crab {
    name: String,
    speed: u32,
    color: Color,
    diet: Diet,
    reefs: Vec<usize>,
}

impl View for Crab {
    type V = CrabModel;

    closed spec fn view(&self) -> CrabModel {
        CrabModel {
            name: self.name@,
            speed: self.speed,
            color: self.color,
            diet: self.diet,
            reefs: self.reefs@,
        }
    }
}

impl Crab {
    pub fn new(name: String, speed: u32, color: Color, diet: Diet) -> (c: Crab)
        ensures
            c@.name == name@,
            c@.speed == speed,
            c@.color == color,
            c@.diet == diet,
            c@.reefs == Seq::<usize>::empty(),
    {
        Crab { name, speed, color, diet, reefs: Vec::new() }
    }

    pub fn name(&self) -> (n: &str)
        ensures
            n@ == self@.name,
    {
        self.name.as_str()
    }

    /// Whether this crab is named `name`.
    pub fn has_name(&self, name: &String) -> (r: bool)
        ensures
            r == (self@.name == name@),
    {
        self.name == *name
    }

    pub fn speed(&self) -> (s: u32)
        ensures
            s == self@.speed,
    {
        self.speed
    }

    pub fn color(&self) -> (c: &Color)
        ensures
            *c == self@.color,
    {
        &self.color
    }

    pub fn diet(&self) -> (d: Diet)
        ensures
            d == self@.diet,
    {
        self.diet
    }

    /// The first recipe of `cookbook` whose diet is this crab's, if any.
    pub fn choose_recipe<'a>(&self, cookbook: &'a Cookbook) -> (r: Option<&'a Recipe>)
        ensures
            match r {
                Some(rec) => exists|k: int|
                    is_first_for_diet(cookbook.recipe_seq(), self@.diet, k) && *rec
                        == #[trigger] cookbook.recipe_seq()[k],
                None => forall|k: int|
                    0 <= k < cookbook.recipe_seq().len() ==> #[trigger] cookbook.recipe_seq()[k]@.diet
                        != self@.diet,
            },
    {
        let recipes = cookbook.recipes();
        let mut i: usize = 0;
        while i < recipes.len()
            invariant
                recipes@ == cookbook.recipe_seq(),
                i <= recipes@.len(),
                forall|j: int| 0 <= j < i ==> #[trigger] recipes@[j]@.diet != self.diet,
            decreases recipes@.len() - i,
        {
            if recipes[i].diet() == self.diet {
                assert(is_first_for_diet(recipes@, self.diet, i as int));
                return Some(&recipes[i]);
            }
            i = i + 1;
        }
        None
    }

    /// The discovered reefs, as indices into the reef arena, in discovery order.
    pub fn discovered_reefs(&self) -> (r: &Vec<usize>)
        ensures
            r@ == self@.reefs,
    {
        &self.reefs
    }

    /// Remembers `reef`, an index into the reef arena, as this crab's newest
    /// discovered reef.
    pub fn discover_reef(&mut self, reef: usize)
        ensures
            final(self)@ == (CrabModel { reefs: old(self)@.reefs.push(reef), ..old(self)@ }),
    {
        self.reefs.push(reef);
    }

    /// Takes the head of the first discovered reef, in discovery order, that
    /// holds prey, and returns it with that reef's position in the discovered
    /// list; `None` when no discovered reef holds prey.
    fn catch_prey(&self, reefs: &mut Vec<Reef>) -> (r: Option<(AnyPrey, usize)>)
        requires
            reefs_within(self@.reefs, old(reefs)@.len()),
        ensures
            final(reefs)@.len() == old(reefs)@.len(),
            match first_stocked(self@.reefs, stock(old(reefs)@)) {
                None => r is None && stock(final(reefs)@) == stock(old(reefs)@),
                Some(k) => {
                    &&& r == Some(
                        (stock(old(reefs)@)[self@.reefs[k] as int][0], k as usize),
                    )
                    &&& stock(final(reefs)@) == taken_from(
                        stock(old(reefs)@),
                        self@.reefs[k] as int,
                    )
                },
            },
    {
        let ghost ids = self@.reefs;
        let ghost s0 = stock(reefs@);
        let mut k: usize = 0;
        while k < self.reefs.len()
            invariant
                ids == self@.reefs,
                s0 == stock(old(reefs)@),
                k <= ids.len(),
                reefs_within(ids, reefs@.len()),
                reefs@.len() == s0.len(),
                stock(reefs@) == s0,
                forall|j: int| 0 <= j < k ==> !stocked(ids, s0, j),
            decreases ids.len() - k,
        {
            let r = self.reefs[k];
            assert(ids[k as int] < reefs@.len());
            let got = reefs[r].take_prey();
            match got {
                Some(p) => {
                    assert(is_first_stocked(ids, s0, k as int));
                    proof {
                        lemma_first_stocked(ids, s0);
                    }
                    assert(stock(reefs@) =~= taken_from(s0, r as int));
                    return Some((p, k));
                },
                None => {
                    assert(stock(reefs@) =~= s0);
                },
            }
            k = k + 1;
        }
        proof {
            lemma_first_stocked(ids, s0);
        }
        None
    }

    /// Adds `prey` back at the tail of the reef at position `k` of the
    /// discovered list.
    fn release_prey(&self, reefs: &mut Vec<Reef>, prey: AnyPrey, k: usize)
        requires
            k < self@.reefs.len(),
            reefs_within(self@.reefs, old(reefs)@.len()),
        ensures
            final(reefs)@.len() == old(reefs)@.len(),
            stock(final(reefs)@) == given_to(stock(old(reefs)@), self@.reefs[k as int] as int, prey),
    {
        let r = self.reefs[k];
        assert(self@.reefs[k as int] < reefs@.len());
        reefs[r].add_prey(prey);
        assert(stock(reefs@) =~= given_to(stock(old(reefs)@), r as int, prey));
    }

    /// Goes hunting in the discovered reefs of `reefs`: catches prey, first
    /// reef first, until one neither escapes nor is of another diet, and eats
    /// it; or until no discovered reef holds prey. The prey that escaped or
    /// were not eaten go back, in the order they were caught, to the tails of
    /// the reefs they came from. Returns whether the crab ate.
    pub fn hunt(&mut self, reefs: &mut Vec<Reef>) -> (caught: bool)
        requires
            reefs_within(old(self)@.reefs, old(reefs)@.len()),
        ensures
            *final(self) == *old(self),
            final(reefs)@.len() == old(reefs)@.len(),
            (caught, stock(final(reefs)@)) == hunt_outcome(
                old(self)@.speed,
                old(self)@.diet,
                old(self)@.reefs,
                stock(old(reefs)@),
            ),
    {
        let ghost ids = self@.reefs;
        let ghost s0 = stock(reefs@);
        let ghost run = hunt_run(self.speed, self.diet, ids, s0, Seq::empty());
        let mut escaped: Vec<(AnyPrey, usize)> = Vec::new();
        let mut caught = false;
        assert(ids.len() == self.reefs.len());
        loop
            invariant_except_break
                !caught,
                hunt_run(self.speed, self.diet, ids, stock(reefs@), escaped@) == run,
            invariant
                ids == self@.reefs,
                ids.len() <= usize::MAX,
                s0 == stock(old(reefs)@),
                reefs@.len() == s0.len(),
                reefs_within(ids, reefs@.len()),
                forall|e: int| 0 <= e < escaped@.len() ==> #[trigger] escaped@[e].1 < ids.len(),
            ensures
                run == (caught, stock(reefs@), escaped@),
            decreases total(stock(reefs@)),
        {
            let ghost before = stock(reefs@);
            proof {
                lemma_first_stocked(ids, before);
            }
            let attempt = self.catch_prey(reefs);
            match attempt {
                None => {
                    break;
                },
                Some((prey, k)) => {
                    let ghost r = ids[k as int] as int;
                    proof {
                        let kk = first_stocked(ids, before)->Some_0;
                        assert(is_first_stocked(ids, before, kk));
                        lemma_total_taken(before, r);
                    }
                    let mut prey = prey;
                    let got_away = prey.try_escape(self);
                    if got_away || prey.diet() != self.diet {
                        escaped.push((prey, k));
                    } else {
                        caught = true;
                        break;
                    }
                },
            }
        }
        let ghost after_run = stock(reefs@);
        let ghost all_escaped = escaped@;
        while escaped.len() > 0
            invariant
                ids == self@.reefs,
                s0 == stock(old(reefs)@),
                reefs@.len() == s0.len(),
                reefs_within(ids, reefs@.len()),
                forall|e: int| 0 <= e < escaped@.len() ==> #[trigger] escaped@[e].1 < ids.len(),
                released(ids, stock(reefs@), escaped@) == released(ids, after_run, all_escaped),
            decreases escaped@.len(),
        {
            let ghost pending = escaped@;
            let (prey, k) = escaped.remove(0);
            assert(escaped@ =~= pending.drop_first());
            self.release_prey(reefs, prey, k);
        }
        caught
    }
}


} // verus!
