use vstd::prelude::*;

use std::collections::VecDeque;

use crate::prey::AnyPrey;

verus! {

/// A first-in, first-out collection of prey.
#[derive(Debug)]
pub struct Reef {
    prey: VecDeque<AnyPrey>,
}

impl View for Reef {
    type V = Seq<AnyPrey>;

    /// The prey, earliest arrival first.
    closed spec fn view(&self) -> Seq<AnyPrey> {
        self.prey@
    }
}

/// The contents of each reef of an arena.
pub open spec fn stock(reefs: Seq<Reef>) -> Seq<Seq<AnyPrey>> {
    reefs.map_values(|r: Reef| r@)
}

impl Reef {
    pub fn new() -> (r: Reef)
        ensures
            r@ == Seq::<AnyPrey>::empty(),
    {
        Reef { prey: VecDeque::new() }
    }

    /// The prey at position `i`, counted from the earliest arrival.
    pub fn prey(&self, i: usize) -> (p: &AnyPrey)
        requires
            i < self@.len(),
        ensures
            *p == self@[i as int],
    {
        &self.prey[i]
    }

    /// The number of prey in the reef.
    pub fn population(&self) -> (n: usize)
        ensures
            n == self@.len(),
    {
        self.prey.len()
    }

    /// Adds a prey at the tail.
    pub fn add_prey(&mut self, prey: AnyPrey)
        ensures
            final(self)@ == old(self)@.push(prey),
    {
        self.prey.push_back(prey);
    }

    /// Removes and returns the earliest-added prey, if there is one.
    pub fn take_prey(&mut self) -> (p: Option<AnyPrey>)
        ensures
            old(self)@.len() == 0 ==> p is None && final(self)@ == old(self)@,
            old(self)@.len() > 0 ==> p == Some(old(self)@[0]) && final(self)@ == old(self)@.drop_first(),
    {
        self.prey.pop_front()
    }
}

/// A reef's contents after `ps` are added, in order.
pub open spec fn after_adds(q: Seq<AnyPrey>, ps: Seq<AnyPrey>) -> Seq<AnyPrey>
    decreases ps.len(),
{
    if ps.len() == 0 {
        q
    } else {
        after_adds(q, ps.drop_last()).push(ps.last())
    }
}

/// A reef's contents after `n` successful takes.
pub open spec fn after_takes(q: Seq<AnyPrey>, n: nat) -> Seq<AnyPrey>
    decreases n,
{
    if n == 0 {
        q
    } else {
        after_takes(q, (n - 1) as nat).drop_first()
    }
}

proof fn lemma_after_adds(q: Seq<AnyPrey>, ps: Seq<AnyPrey>)
    ensures
        after_adds(q, ps) == q + ps,
    decreases ps.len(),
{
    if ps.len() > 0 {
        lemma_after_adds(q, ps.drop_last());
        assert(q + ps =~= (q + ps.drop_last()).push(ps.last()));
    } else {
        assert(q + ps =~= q);
    }
}

proof fn lemma_after_takes(q: Seq<AnyPrey>, n: nat)
    requires
        n <= q.len(),
    ensures
        after_takes(q, n) == q.subrange(n as int, q.len() as int),
    decreases n,
{
    if n == 0 {
        assert(q.subrange(0, q.len() as int) =~= q);
    } else {
        lemma_after_takes(q, (n - 1) as nat);
        assert(q.subrange(n - 1, q.len() as int).drop_first() =~= q.subrange(n as int, q.len() as int));
    }
}

/// A reef is first in, first out: after `ps` are added to an empty reef, the
/// takes hand them out in the order they were added. Each add raises the
/// population by one, each successful take lowers it by one.
pub proof fn law_reef_fifo(ps: Seq<AnyPrey>)
    ensures
        after_adds(Seq::empty(), ps).len() == ps.len(),
        forall|i: nat|
            i < ps.len() ==> {
                &&& (#[trigger] after_takes(after_adds(Seq::empty(), ps), i))[0] == ps[i as int]
                &&& after_takes(after_adds(Seq::empty(), ps), i).len() == ps.len() - i
            },
{
    lemma_after_adds(Seq::empty(), ps);
    assert(Seq::<AnyPrey>::empty() + ps =~= ps);
    assert forall|i: nat| i < ps.len() implies {
        &&& (#[trigger] after_takes(after_adds(Seq::empty(), ps), i))[0] == ps[i as int]
        &&& after_takes(after_adds(Seq::empty(), ps), i).len() == ps.len() - i
    } by {
        lemma_after_takes(ps, i);
    }
}

} // verus!
