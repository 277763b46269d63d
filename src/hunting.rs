//! The hunting algorithm as mathematics: what a hunt takes from and gives back
//! to the reefs of an arena, and the laws that follow.

use vstd::prelude::*;

use crate::diet::Diet;
use crate::prey::{AnyPrey, Prey, Shrimp};

verus! {

/// Every reef that a crab discovered is an index below `n`.
pub open spec fn reefs_within(ids: Seq<usize>, n: nat) -> bool {
    forall|k: int| 0 <= k < ids.len() ==> #[trigger] ids[k] < n
}

/// Whether the `k`-th discovered reef exists in the arena and holds prey.
pub open spec fn stocked(ids: Seq<usize>, reefs: Seq<Seq<AnyPrey>>, k: int) -> bool {
    &&& 0 <= k < ids.len()
    &&& ids[k] < reefs.len()
    &&& reefs[ids[k] as int].len() > 0
}

/// Whether `k` is the first discovered reef, in discovery order, that holds prey.
pub open spec fn is_first_stocked(ids: Seq<usize>, reefs: Seq<Seq<AnyPrey>>, k: int) -> bool {
    &&& stocked(ids, reefs, k)
    &&& forall|j: int| 0 <= j < k ==> !stocked(ids, reefs, j)
}

/// The position, in discovery order, of the first discovered reef that holds
/// prey; `None` when none does.
pub open spec fn first_stocked(ids: Seq<usize>, reefs: Seq<Seq<AnyPrey>>) -> Option<int> {
    if exists|k: int| is_first_stocked(ids, reefs, k) {
        Some(choose|k: int| is_first_stocked(ids, reefs, k))
    } else {
        None
    }
}

/// A discovered reef that holds prey has a first such reef at or before it.
proof fn lemma_least_stocked(ids: Seq<usize>, reefs: Seq<Seq<AnyPrey>>, j: int)
    requires
        stocked(ids, reefs, j),
    ensures
        exists|k: int| is_first_stocked(ids, reefs, k),
    decreases j,
{
    if exists|i: int| 0 <= i < j && stocked(ids, reefs, i) {
        let i = choose|i: int| 0 <= i < j && stocked(ids, reefs, i);
        lemma_least_stocked(ids, reefs, i);
    } else {
        assert(is_first_stocked(ids, reefs, j));
    }
}

/// `first_stocked` names the first discovered reef that holds prey, and is
/// `None` exactly when no discovered reef holds prey.
pub proof fn lemma_first_stocked(ids: Seq<usize>, reefs: Seq<Seq<AnyPrey>>)
    ensures
        match first_stocked(ids, reefs) {
            Some(k) => is_first_stocked(ids, reefs, k),
            None => forall|j: int| !stocked(ids, reefs, j),
        },
        forall|k: int| is_first_stocked(ids, reefs, k) ==> first_stocked(ids, reefs) == Some(k),
{
    assert forall|j: int| !stocked(ids, reefs, j) || first_stocked(ids, reefs) is Some by {
        if stocked(ids, reefs, j) {
            lemma_least_stocked(ids, reefs, j);
        }
    }
    assert forall|k: int| is_first_stocked(ids, reefs, k) implies first_stocked(ids, reefs) == Some(k) by {
        let c = choose|c: int| is_first_stocked(ids, reefs, c);
        if c < k {
            assert(stocked(ids, reefs, c));
        } else if k < c {
            assert(stocked(ids, reefs, k));
        }
    }
}

/// The number of prey in all reefs of the arena together.
pub open spec fn total(reefs: Seq<Seq<AnyPrey>>) -> nat
    decreases reefs.len(),
{
    if reefs.len() == 0 {
        0
    } else {
        total(reefs.drop_last()) + reefs.last().len()
    }
}

/// The arena after the head of reef `r` is taken.
pub open spec fn taken_from(reefs: Seq<Seq<AnyPrey>>, r: int) -> Seq<Seq<AnyPrey>> {
    reefs.update(r, reefs[r].drop_first())
}

/// The arena after `p` is added at the tail of reef `r`.
pub open spec fn given_to(reefs: Seq<Seq<AnyPrey>>, r: int, p: AnyPrey) -> Seq<Seq<AnyPrey>> {
    reefs.update(r, reefs[r].push(p))
}

/// Taking one prey lowers the arena's total by one.
pub proof fn lemma_total_taken(reefs: Seq<Seq<AnyPrey>>, r: int)
    requires
        0 <= r < reefs.len(),
        reefs[r].len() > 0,
    ensures
        total(taken_from(reefs, r)) + 1 == total(reefs),
    decreases reefs.len(),
{
    let t = taken_from(reefs, r);
    if r == reefs.len() - 1 {
        assert(t.drop_last() =~= reefs.drop_last());
    } else {
        assert(t.drop_last() =~= taken_from(reefs.drop_last(), r));
        lemma_total_taken(reefs.drop_last(), r);
    }
}

/// The catching loop of a hunt by a crab of speed `speed` and diet `diet`
/// whose discovered reefs are `ids`, from arena `reefs`, with the prey in
/// `escaped` held out (each with the position of its reef in `ids`).
///
/// Each round takes the head of the first discovered reef that holds prey.
/// The prey is eaten if it neither escapes nor is of another diet; otherwise
/// it is held out, as the attempt left it. The result tells whether a prey
/// was eaten, the arena when the loop ended, and the prey held out.
pub open spec fn hunt_run(
    speed: u32,
    diet: Diet,
    ids: Seq<usize>,
    reefs: Seq<Seq<AnyPrey>>,
    escaped: Seq<(AnyPrey, usize)>,
) -> (bool, Seq<Seq<AnyPrey>>, Seq<(AnyPrey, usize)>)
    decreases total(reefs),
{
    match first_stocked(ids, reefs) {
        None => (false, reefs, escaped),
        Some(k) => {
            let r = ids[k] as int;
            let p = reefs[r][0];
            proof {
                lemma_total_taken(reefs, r);
            }
            if !p.escapes(speed) && p.diet_of() == diet {
                (true, taken_from(reefs, r), escaped)
            } else {
                hunt_run(
                    speed,
                    diet,
                    ids,
                    taken_from(reefs, r),
                    escaped.push((p.after_attempt(speed), k as usize)),
                )
            }
        },
    }
}

/// The arena after each prey of `escaped` is added back, in order, at the tail
/// of the reef it came from.
pub open spec fn released(
    ids: Seq<usize>,
    reefs: Seq<Seq<AnyPrey>>,
    escaped: Seq<(AnyPrey, usize)>,
) -> Seq<Seq<AnyPrey>>
    decreases escaped.len(),
{
    if escaped.len() == 0 {
        reefs
    } else {
        let (p, k) = escaped[0];
        released(ids, given_to(reefs, ids[k as int] as int, p), escaped.drop_first())
    }
}

/// A whole hunt: whether the crab ate, and the arena afterwards.
pub open spec fn hunt_outcome(speed: u32, diet: Diet, ids: Seq<usize>, reefs: Seq<Seq<AnyPrey>>) -> (
    bool,
    Seq<Seq<AnyPrey>>,
) {
    let run = hunt_run(speed, diet, ids, reefs, Seq::empty());
    (run.0, released(ids, run.1, run.2))
}

/// A crab that discovered no reef, or only empty reefs, eats nothing, and
/// every reef is left as it was.
pub proof fn law_hunt_without_prey(
    speed: u32,
    diet: Diet,
    ids: Seq<usize>,
    reefs: Seq<Seq<AnyPrey>>,
)
    requires
        reefs_within(ids, reefs.len()),
        forall|k: int| 0 <= k < ids.len() ==> (#[trigger] reefs[ids[k] as int]).len() == 0,
    ensures
        hunt_outcome(speed, diet, ids, reefs) == (false, reefs),
{
    lemma_first_stocked(ids, reefs);
    if first_stocked(ids, reefs) is Some {
        let k = first_stocked(ids, reefs)->Some_0;
        assert(stocked(ids, reefs, k));
    }
}

/// A crab whose one discovered reef holds a single prey of its diet that
/// does not escape eats it, and leaves that reef empty.
pub proof fn law_hunt_eats_lone_edible(
    speed: u32,
    diet: Diet,
    r: usize,
    reefs: Seq<Seq<AnyPrey>>,
    p: AnyPrey,
)
    requires
        r < reefs.len(),
        reefs[r as int] == seq![p],
        !p.escapes(speed),
        p.diet_of() == diet,
    ensures
        hunt_outcome(speed, diet, seq![r], reefs) == (true, reefs.update(r as int, Seq::<AnyPrey>::empty())),
{
    let ids = seq![r];
    assert(is_first_stocked(ids, reefs, 0));
    lemma_first_stocked(ids, reefs);
    assert(reefs[r as int].drop_first() =~= Seq::<AnyPrey>::empty());
}

/// A crab whose one discovered reef holds a single prey of another diet that
/// does not escape eats nothing, and the prey is back in its reef.
pub proof fn law_hunt_releases_inedible(
    speed: u32,
    diet: Diet,
    r: usize,
    reefs: Seq<Seq<AnyPrey>>,
    p: AnyPrey,
)
    requires
        r < reefs.len(),
        reefs[r as int] == seq![p],
        !p.escapes(speed),
        p.diet_of() != diet,
    ensures
        hunt_outcome(speed, diet, seq![r], reefs) == (false, reefs),
{
    lemma_lone_prey_held_out(speed, diet, r, reefs, p);
    assert(p.after_attempt(speed) == p);
    assert(seq![p] == Seq::<AnyPrey>::empty().push(p));
    assert(given_to(reefs.update(r as int, Seq::<AnyPrey>::empty()), r as int, p) =~= reefs);
}

/// One hunt from a discovered reef that holds a single prey, which escapes
/// or is of another diet: nothing is eaten, and the prey is back in its reef
/// as the attempt left it.
proof fn lemma_lone_prey_held_out(
    speed: u32,
    diet: Diet,
    r: usize,
    reefs: Seq<Seq<AnyPrey>>,
    p: AnyPrey,
)
    requires
        r < reefs.len(),
        reefs[r as int] == seq![p],
        p.escapes(speed) || p.diet_of() != diet,
    ensures
        hunt_outcome(speed, diet, seq![r], reefs) == (
            false,
            given_to(reefs.update(r as int, Seq::<AnyPrey>::empty()), r as int, p.after_attempt(speed)),
        ),
{
    let ids = seq![r];
    assert(is_first_stocked(ids, reefs, 0));
    lemma_first_stocked(ids, reefs);
    let rest = taken_from(reefs, r as int);
    assert(reefs[r as int].drop_first() =~= Seq::<AnyPrey>::empty());
    assert(rest =~= reefs.update(r as int, Seq::<AnyPrey>::empty()));
    lemma_first_stocked(ids, rest);
    if first_stocked(ids, rest) is Some {
        let k = first_stocked(ids, rest)->Some_0;
        assert(stocked(ids, rest, k));
    }
    let escaped = Seq::<(AnyPrey, usize)>::empty().push((p.after_attempt(speed), 0usize));
    assert(hunt_run(speed, diet, ids, rest, escaped) == (false, rest, escaped));
    assert(Seq::<(AnyPrey, usize)>::empty().push((p.after_attempt(speed), 0usize)) == escaped);
    assert(hunt_run(speed, diet, ids, reefs, Seq::empty()) == (false, rest, escaped));
    assert(escaped.drop_first() =~= Seq::<(AnyPrey, usize)>::empty());
    assert(released(ids, rest, escaped) == released(
        ids,
        given_to(rest, r as int, p.after_attempt(speed)),
        escaped.drop_first(),
    ));
}

/// A shrimp with one unit of energy, alone in the one reef that a
/// shellfish-eating crab discovered, escapes the first hunt and is back in
/// the reef, tired out; the second hunt eats it and leaves the reef empty.
pub proof fn law_shrimp_escapes_once(speed: u32, r: usize, reefs: Seq<Seq<AnyPrey>>)
    requires
        r < reefs.len(),
        reefs[r as int] == seq![AnyPrey::Shrimp(Shrimp { energy: 1 })],
    ensures
        hunt_outcome(speed, Diet::Shellfish, seq![r], reefs) == (
            false,
            reefs.update(r as int, seq![AnyPrey::Shrimp(Shrimp { energy: 0 })]),
        ),
        hunt_outcome(
            speed,
            Diet::Shellfish,
            seq![r],
            reefs.update(r as int, seq![AnyPrey::Shrimp(Shrimp { energy: 0 })]),
        ) == (true, reefs.update(r as int, Seq::<AnyPrey>::empty())),
{
    let p = AnyPrey::Shrimp(Shrimp { energy: 1 });
    let tired = AnyPrey::Shrimp(Shrimp { energy: 0 });
    lemma_lone_prey_held_out(speed, Diet::Shellfish, r, reefs, p);
    assert(p.after_attempt(speed) == tired);
    assert(given_to(reefs.update(r as int, Seq::<AnyPrey>::empty()), r as int, tired) =~= reefs.update(
        r as int,
        seq![tired],
    ));
    let second = reefs.update(r as int, seq![tired]);
    law_hunt_eats_lone_edible(speed, Diet::Shellfish, r, second, tired);
    assert(second.update(r as int, Seq::<AnyPrey>::empty()) =~= reefs.update(
        r as int,
        Seq::<AnyPrey>::empty(),
    ));
}

/// The catching loop ends in a meal whenever some discovered reef holds a
/// prey of the crab's diet that does not escape it.
proof fn lemma_run_finds_edible(
    speed: u32,
    diet: Diet,
    ids: Seq<usize>,
    reefs: Seq<Seq<AnyPrey>>,
    escaped: Seq<(AnyPrey, usize)>,
    j: int,
    i: int,
)
    requires
        reefs_within(ids, reefs.len()),
        0 <= j < ids.len(),
        0 <= i < reefs[ids[j] as int].len(),
        !reefs[ids[j] as int][i].escapes(speed),
        reefs[ids[j] as int][i].diet_of() == diet,
    ensures
        hunt_run(speed, diet, ids, reefs, escaped).0,
    decreases total(reefs),
{
    assert(stocked(ids, reefs, j));
    lemma_first_stocked(ids, reefs);
    let k = first_stocked(ids, reefs)->Some_0;
    let r = ids[k] as int;
    let p = reefs[r][0];
    if !(!p.escapes(speed) && p.diet_of() == diet) {
        let rest = taken_from(reefs, r);
        lemma_total_taken(reefs, r);
        let q = reefs[ids[j] as int][i];
        if ids[j] as int == r {
            assert(i > 0);
            assert(rest[r][i - 1] == q);
            lemma_run_finds_edible(
                speed,
                diet,
                ids,
                rest,
                escaped.push((p.after_attempt(speed), k as usize)),
                j,
                i - 1,
            );
        } else {
            assert(rest[ids[j] as int] == reefs[ids[j] as int]);
            lemma_run_finds_edible(
                speed,
                diet,
                ids,
                rest,
                escaped.push((p.after_attempt(speed), k as usize)),
                j,
                i,
            );
        }
    }
}

/// A hunt succeeds whenever some discovered reef holds a prey of the crab's
/// diet that does not escape it (the `i`-th prey of the `j`-th discovered
/// reef).
pub proof fn law_hunt_finds_edible(
    speed: u32,
    diet: Diet,
    ids: Seq<usize>,
    reefs: Seq<Seq<AnyPrey>>,
    j: int,
    i: int,
)
    requires
        reefs_within(ids, reefs.len()),
        0 <= j < ids.len(),
        0 <= i < reefs[ids[j] as int].len(),
        !reefs[ids[j] as int][i].escapes(speed),
        reefs[ids[j] as int][i].diet_of() == diet,
    ensures
        hunt_outcome(speed, diet, ids, reefs).0,
{
    lemma_run_finds_edible(speed, diet, ids, reefs, Seq::empty(), j, i);
}

/// Whether the `i`-th prey of the `j`-th discovered reef is of the crab's
/// diet and does not escape it.
pub open spec fn edible_at(
    speed: u32,
    diet: Diet,
    ids: Seq<usize>,
    reefs: Seq<Seq<AnyPrey>>,
    j: int,
    i: int,
) -> bool {
    &&& 0 <= j < ids.len()
    &&& 0 <= i < reefs[ids[j] as int].len()
    &&& !reefs[ids[j] as int][i].escapes(speed)
    &&& reefs[ids[j] as int][i].diet_of() == diet
}

/// The catching loop never ends in a meal when no prey in the discovered
/// reefs is both of the crab's diet and unable to escape it.
proof fn lemma_run_without_edible(
    speed: u32,
    diet: Diet,
    ids: Seq<usize>,
    reefs: Seq<Seq<AnyPrey>>,
    escaped: Seq<(AnyPrey, usize)>,
)
    requires
        reefs_within(ids, reefs.len()),
        forall|j: int, i: int| !#[trigger] edible_at(speed, diet, ids, reefs, j, i),
    ensures
        !hunt_run(speed, diet, ids, reefs, escaped).0,
    decreases total(reefs),
{
    lemma_first_stocked(ids, reefs);
    if first_stocked(ids, reefs) is Some {
        let k = first_stocked(ids, reefs)->Some_0;
        let r = ids[k] as int;
        let p = reefs[r][0];
        assert(!edible_at(speed, diet, ids, reefs, k, 0));
        let rest = taken_from(reefs, r);
        lemma_total_taken(reefs, r);
        assert forall|j: int, i: int| !#[trigger] edible_at(speed, diet, ids, rest, j, i) by {
            if 0 <= j < ids.len() && ids[j] as int == r && 0 <= i < rest[r].len() {
                assert(rest[r][i] == reefs[r][i + 1]);
                assert(!edible_at(speed, diet, ids, reefs, j, i + 1));
            } else if 0 <= j < ids.len() {
                assert(!edible_at(speed, diet, ids, reefs, j, i));
            }
        }
        lemma_run_without_edible(speed, diet, ids, rest, escaped.push((p.after_attempt(speed), k as usize)));
    }
}

/// A hunt succeeds exactly when some discovered reef holds a prey of the
/// crab's diet that does not escape it.
pub proof fn law_hunt_succeeds_iff_edible(
    speed: u32,
    diet: Diet,
    ids: Seq<usize>,
    reefs: Seq<Seq<AnyPrey>>,
)
    requires
        reefs_within(ids, reefs.len()),
    ensures
        hunt_outcome(speed, diet, ids, reefs).0 <==> exists|j: int, i: int|
            #[trigger] edible_at(speed, diet, ids, reefs, j, i),
{
    if exists|j: int, i: int| #[trigger] edible_at(speed, diet, ids, reefs, j, i) {
        let (j, i) = choose|j: int, i: int| #[trigger] edible_at(speed, diet, ids, reefs, j, i);
        law_hunt_finds_edible(speed, diet, ids, reefs, j, i);
    } else {
        lemma_run_without_edible(speed, diet, ids, reefs, Seq::empty());
    }
}

/// A hunt never succeeds when no prey in the discovered reefs is of the
/// crab's diet.
pub proof fn law_hunt_fails_without_diet(
    speed: u32,
    diet: Diet,
    ids: Seq<usize>,
    reefs: Seq<Seq<AnyPrey>>,
)
    requires
        reefs_within(ids, reefs.len()),
        forall|j: int, i: int|
            0 <= j < ids.len() && 0 <= i < reefs[ids[j] as int].len() ==> (#[trigger] reefs[ids[j] as int][i]).diet_of()
                != diet,
    ensures
        !hunt_outcome(speed, diet, ids, reefs).0,
{
    assert forall|j: int, i: int| !#[trigger] edible_at(speed, diet, ids, reefs, j, i) by {
        if 0 <= j < ids.len() && 0 <= i < reefs[ids[j] as int].len() {
            assert(reefs[ids[j] as int][i].diet_of() != diet);
        }
    }
    lemma_run_without_edible(speed, diet, ids, reefs, Seq::empty());
}

/// Whether reef `r` of the arena holds `q`.
pub open spec fn reef_holds(reefs: Seq<Seq<AnyPrey>>, r: int, q: AnyPrey) -> bool {
    exists|i: int| 0 <= i < reefs[r].len() && #[trigger] reefs[r][i] == q
}

/// Whether `q` is held out of reef `r` in `escaped`.
pub open spec fn held_out_of(ids: Seq<usize>, escaped: Seq<(AnyPrey, usize)>, r: int, q: AnyPrey) -> bool {
    exists|e: int|
        0 <= e < escaped.len() && (#[trigger] escaped[e]).0 == q && escaped[e].1 < ids.len()
            && ids[escaped[e].1 as int] == r
}

/// Every held-out prey names a discovered reef.
pub open spec fn escaped_within(ids: Seq<usize>, escaped: Seq<(AnyPrey, usize)>) -> bool {
    forall|e: int| 0 <= e < escaped.len() ==> #[trigger] escaped[e].1 < ids.len()
}

/// A prey of another diet than the hunter's, which an attempt leaves as it
/// was, is never eaten: it stays in its reef or is held out of it.
proof fn lemma_run_keeps_inedible(
    speed: u32,
    diet: Diet,
    ids: Seq<usize>,
    reefs: Seq<Seq<AnyPrey>>,
    escaped: Seq<(AnyPrey, usize)>,
    r: int,
    q: AnyPrey,
)
    requires
        ids.len() <= usize::MAX,
        reefs_within(ids, reefs.len()),
        0 <= r < reefs.len(),
        q.diet_of() != diet,
        q.after_attempt(speed) == q,
        reef_holds(reefs, r, q) || held_out_of(ids, escaped, r, q),
    ensures
        ({
            let run = hunt_run(speed, diet, ids, reefs, escaped);
            &&& run.1.len() == reefs.len()
            &&& reef_holds(run.1, r, q) || held_out_of(ids, run.2, r, q)
        }),
    decreases total(reefs),
{
    lemma_first_stocked(ids, reefs);
    if first_stocked(ids, reefs) is Some {
        let k = first_stocked(ids, reefs)->Some_0;
        let rr = ids[k] as int;
        let p = reefs[rr][0];
        let rest = taken_from(reefs, rr);
        let escaped2 = escaped.push((p.after_attempt(speed), k as usize));
        lemma_total_taken(reefs, rr);
        let eaten = !p.escapes(speed) && p.diet_of() == diet;
        if reef_holds(reefs, r, q) {
            let i = choose|i: int| 0 <= i < reefs[r].len() && #[trigger] reefs[r][i] == q;
            if r == rr && i == 0 {
                if !eaten {
                    assert(is_first_stocked(ids, reefs, k));
                    assert(escaped2[escaped.len() as int] == (p.after_attempt(speed), k as usize));
                    assert((k as usize) as int == k);
                    assert(held_out_of(ids, escaped2, r, q));
                }
            } else if r == rr {
                assert(rest[r][i - 1] == q);
                assert(reef_holds(rest, r, q));
            } else {
                assert(rest[r][i] == q);
                assert(reef_holds(rest, r, q));
            }
        }
        if held_out_of(ids, escaped, r, q) {
            let e = choose|e: int|
                0 <= e < escaped.len() && (#[trigger] escaped[e]).0 == q && escaped[e].1 < ids.len()
                    && ids[escaped[e].1 as int] == r;
            assert(escaped2[e] == escaped[e]);
        }
        if !eaten {
            lemma_run_keeps_inedible(speed, diet, ids, rest, escaped2, r, q);
        }
    }
}

/// Giving back the held-out prey keeps what reef `r` held, and brings back to
/// it what was held out of it.
proof fn lemma_released_keeps(
    ids: Seq<usize>,
    reefs: Seq<Seq<AnyPrey>>,
    escaped: Seq<(AnyPrey, usize)>,
    r: int,
    q: AnyPrey,
)
    requires
        reefs_within(ids, reefs.len()),
        escaped_within(ids, escaped),
        0 <= r < reefs.len(),
        reef_holds(reefs, r, q) || held_out_of(ids, escaped, r, q),
    ensures
        released(ids, reefs, escaped).len() == reefs.len(),
        reef_holds(released(ids, reefs, escaped), r, q),
    decreases escaped.len(),
{
    if escaped.len() > 0 {
        let (p, k) = escaped[0];
        let rr = ids[k as int] as int;
        let next = given_to(reefs, rr, p);
        let rest = escaped.drop_first();
        if reef_holds(reefs, r, q) {
            let i = choose|i: int| 0 <= i < reefs[r].len() && #[trigger] reefs[r][i] == q;
            assert(next[r][i] == q);
        } else {
            let e = choose|e: int|
                0 <= e < escaped.len() && (#[trigger] escaped[e]).0 == q && escaped[e].1 < ids.len()
                    && ids[escaped[e].1 as int] == r;
            if e == 0 {
                assert(next[r][next[r].len() - 1] == q);
            } else {
                assert(rest[e - 1] == escaped[e]);
            }
        }
        assert forall|e: int| 0 <= e < rest.len() implies #[trigger] rest[e].1 < ids.len() by {
            assert(rest[e] == escaped[e + 1]);
        }
        lemma_released_keeps(ids, next, rest, r, q);
    }
}

/// The catching loop records only discovered reefs for the prey it holds out.
proof fn lemma_run_escaped_within(
    speed: u32,
    diet: Diet,
    ids: Seq<usize>,
    reefs: Seq<Seq<AnyPrey>>,
    escaped: Seq<(AnyPrey, usize)>,
)
    requires
        reefs_within(ids, reefs.len()),
        escaped_within(ids, escaped),
    ensures
        escaped_within(ids, hunt_run(speed, diet, ids, reefs, escaped).2),
        hunt_run(speed, diet, ids, reefs, escaped).1.len() == reefs.len(),
    decreases total(reefs),
{
    lemma_first_stocked(ids, reefs);
    if first_stocked(ids, reefs) is Some {
        let k = first_stocked(ids, reefs)->Some_0;
        let rr = ids[k] as int;
        let p = reefs[rr][0];
        lemma_total_taken(reefs, rr);
        let escaped2 = escaped.push((p.after_attempt(speed), k as usize));
        assert forall|e: int| 0 <= e < escaped2.len() implies #[trigger] escaped2[e].1 < ids.len() by {
            if e < escaped.len() {
                assert(escaped2[e] == escaped[e]);
            }
        }
        if !(!p.escapes(speed) && p.diet_of() == diet) {
            lemma_run_escaped_within(speed, diet, ids, taken_from(reefs, rr), escaped2);
        }
    }
}

/// A hunt never takes away for good a prey of another diet than the
/// hunter's that an attempt leaves as it was: if reef `r` held it before,
/// reef `r` holds it afterwards.
pub proof fn law_hunt_keeps_inedible(
    speed: u32,
    diet: Diet,
    ids: Seq<usize>,
    reefs: Seq<Seq<AnyPrey>>,
    r: int,
    q: AnyPrey,
)
    requires
        ids.len() <= usize::MAX,
        reefs_within(ids, reefs.len()),
        0 <= r < reefs.len(),
        q.diet_of() != diet,
        q.after_attempt(speed) == q,
        reef_holds(reefs, r, q),
    ensures
        hunt_outcome(speed, diet, ids, reefs).1.len() == reefs.len(),
        reef_holds(hunt_outcome(speed, diet, ids, reefs).1, r, q),
{
    let run = hunt_run(speed, diet, ids, reefs, Seq::empty());
    lemma_run_keeps_inedible(speed, diet, ids, reefs, Seq::empty(), r, q);
    lemma_run_escaped_within(speed, diet, ids, reefs, Seq::empty());
    lemma_released_keeps(ids, run.1, run.2, r, q);
}

/// Each prey of `s` as an attempt leaves it, held out of the first
/// discovered reef.
pub open spec fn attempts(s: Seq<AnyPrey>, speed: u32) -> Seq<(AnyPrey, usize)> {
    s.map_values(|p: AnyPrey| (p.after_attempt(speed), 0usize))
}

/// A catching loop over one discovered reef that ends without a meal has
/// emptied the reef and held out each of its prey, in order.
proof fn lemma_lone_reef_run(
    speed: u32,
    diet: Diet,
    r: usize,
    reefs: Seq<Seq<AnyPrey>>,
    escaped: Seq<(AnyPrey, usize)>,
)
    requires
        r < reefs.len(),
        !hunt_run(speed, diet, seq![r], reefs, escaped).0,
    ensures
        hunt_run(speed, diet, seq![r], reefs, escaped).1 == reefs.update(r as int, Seq::<AnyPrey>::empty()),
        hunt_run(speed, diet, seq![r], reefs, escaped).2 == escaped + attempts(reefs[r as int], speed),
    decreases reefs[r as int].len(),
{
    let ids = seq![r];
    lemma_first_stocked(ids, reefs);
    if reefs[r as int].len() == 0 {
        if first_stocked(ids, reefs) is Some {
            let k = first_stocked(ids, reefs)->Some_0;
            assert(stocked(ids, reefs, k));
        }
        assert(reefs[r as int] =~= Seq::<AnyPrey>::empty());
        assert(reefs.update(r as int, Seq::<AnyPrey>::empty()) =~= reefs);
        assert(escaped + attempts(reefs[r as int], speed) =~= escaped);
    } else {
        assert(is_first_stocked(ids, reefs, 0));
        let p = reefs[r as int][0];
        let rest = taken_from(reefs, r as int);
        let escaped2 = escaped.push((p.after_attempt(speed), 0usize));
        lemma_total_taken(reefs, r as int);
        lemma_lone_reef_run(speed, diet, r, rest, escaped2);
        assert(rest.update(r as int, Seq::<AnyPrey>::empty()) =~= reefs.update(
            r as int,
            Seq::<AnyPrey>::empty(),
        ));
        assert(escaped2 + attempts(rest[r as int], speed) =~= escaped + attempts(reefs[r as int], speed));
    }
}

/// Giving back prey all held out of the first discovered reef appends them
/// to it, in order.
proof fn lemma_lone_reef_released(
    r: usize,
    reefs: Seq<Seq<AnyPrey>>,
    escaped: Seq<(AnyPrey, usize)>,
)
    requires
        r < reefs.len(),
        forall|e: int| 0 <= e < escaped.len() ==> (#[trigger] escaped[e]).1 == 0,
    ensures
        released(seq![r], reefs, escaped) == reefs.update(
            r as int,
            reefs[r as int] + escaped.map_values(|e: (AnyPrey, usize)| e.0),
        ),
    decreases escaped.len(),
{
    if escaped.len() == 0 {
        assert(reefs.update(r as int, reefs[r as int] + escaped.map_values(|e: (AnyPrey, usize)| e.0))
            =~= reefs);
    } else {
        let next = given_to(reefs, r as int, escaped[0].0);
        let rest = escaped.drop_first();
        assert(escaped[0].1 == 0);
        assert forall|e: int| 0 <= e < rest.len() implies (#[trigger] rest[e]).1 == 0 by {
            assert(rest[e] == escaped[e + 1]);
        }
        lemma_lone_reef_released(r, next, rest);
        assert(next[r as int] + rest.map_values(|e: (AnyPrey, usize)| e.0) =~= reefs[r as int]
            + escaped.map_values(|e: (AnyPrey, usize)| e.0));
        assert(next.update(r as int, next[r as int] + rest.map_values(|e: (AnyPrey, usize)| e.0))
            =~= reefs.update(r as int, reefs[r as int] + escaped.map_values(|e: (AnyPrey, usize)| e.0)));
    }
}

/// After a failed hunt in one discovered reef, the reef holds the same prey
/// in the same order, each as the attempt left it.
pub proof fn law_failed_hunt_keeps_order(speed: u32, diet: Diet, r: usize, reefs: Seq<Seq<AnyPrey>>)
    requires
        r < reefs.len(),
        !hunt_outcome(speed, diet, seq![r], reefs).0,
    ensures
        hunt_outcome(speed, diet, seq![r], reefs).1 == reefs.update(
            r as int,
            reefs[r as int].map_values(|p: AnyPrey| p.after_attempt(speed)),
        ),
{
    let empty = Seq::<(AnyPrey, usize)>::empty();
    lemma_lone_reef_run(speed, diet, r, reefs, empty);
    let run = hunt_run(speed, diet, seq![r], reefs, empty);
    let cleared = reefs.update(r as int, Seq::<AnyPrey>::empty());
    assert(run.2 =~= attempts(reefs[r as int], speed));
    lemma_lone_reef_released(r, cleared, run.2);
    assert(cleared[r as int] + run.2.map_values(|e: (AnyPrey, usize)| e.0) =~= reefs[r as int].map_values(
        |p: AnyPrey| p.after_attempt(speed),
    ));
    assert(cleared.update(
        r as int,
        reefs[r as int].map_values(|p: AnyPrey| p.after_attempt(speed)),
    ) =~= reefs.update(r as int, reefs[r as int].map_values(|p: AnyPrey| p.after_attempt(speed))));
}

} // verus!
