//! How many hits it takes to clear asteroids, whatever the order of the
//! hits.

use vstd::prelude::*;
use crate::asteroid::{Asteroid, Shape};
use crate::collision::{
    lemma_one_hit_removes, lemma_one_hit_splits, met_only_by, shapes, sweep, unmet,
};
use crate::geometry::Vector2;
use crate::ship::Bullet;

verus! {

/// The row after one hit on asteroid `i`: where it can split, it is halved in
/// its place and the asteroid that splits off joins the row; where it is of
/// the smallest class, it leaves the row.
pub open spec fn hit(row: Seq<Shape>, i: int) -> Seq<Shape> {
    if row[i].splits_left > 0 {
        row.update(i, row[i].shrunk()).push(row[i].spawned())
    } else {
        row.remove(i)
    }
}

/// The row after a run of hits, one at a time: `picks` names the asteroid of
/// each hit by its place in the row at that moment.
pub open spec fn run(row: Seq<Shape>, picks: Seq<int>) -> Seq<Shape>
    decreases picks.len(),
{
    if picks.len() == 0 {
        row
    } else {
        hit(run(row, picks.drop_last()), picks.last())
    }
}

/// A frame in which exactly one bullet meets exactly one asteroid is one hit
/// on that asteroid: the asteroids after it, survivors first and then what
/// split off, are the row after the hit.
pub proof fn lemma_one_hit_frame(
    asteroids: Seq<Asteroid>,
    bullets: Seq<Bullet>,
    ship: Vector2,
    i: int,
    k: int,
)
    requires
        0 <= i < asteroids.len(),
        asteroids[i].wf(),
        met_only_by(asteroids[i]@, bullets, k),
        forall|j: int|
            0 <= j < asteroids.len() && j != i ==> unmet((#[trigger] asteroids[j])@, bullets),
    ensures
        sweep(asteroids, bullets, ship).survivors + sweep(asteroids, bullets, ship).spawned == hit(
            shapes(asteroids),
            i,
        ),
{
    let sw = sweep(asteroids, bullets, ship);
    if asteroids[i]@.splits_left > 0 {
        lemma_one_hit_splits(asteroids, bullets, ship, i, k);
        assert(sw.survivors + sw.spawned =~= hit(shapes(asteroids), i));
    } else {
        lemma_one_hit_removes(asteroids, bullets, ship, i, k);
        assert(sw.survivors + sw.spawned =~= hit(shapes(asteroids), i));
    }
}

/// Every hit of the run names an asteroid that is in the row at that moment.
pub open spec fn run_ok(row: Seq<Shape>, picks: Seq<int>) -> bool
    decreases picks.len(),
{
    picks.len() == 0 || (run_ok(row, picks.drop_last()) && 0 <= picks.last() < run(
        row,
        picks.drop_last(),
    ).len())
}

/// Every asteroid of the row is of one of the four classes.
pub open spec fn classed(row: Seq<Shape>) -> bool {
    forall|i: int| 0 <= i < row.len() ==> (#[trigger] row[i]).splits_left <= 3
}

/// The number of smallest asteroids that an asteroid comes to when it is
/// split as far as it goes.
pub open spec fn pieces(a: Shape) -> nat {
    if a.splits_left >= 3 {
        8
    } else if a.splits_left == 2 {
        4
    } else if a.splits_left == 1 {
        2
    } else {
        1
    }
}

/// The hits that it takes to clear the whole row.
pub open spec fn work(row: Seq<Shape>) -> nat
    decreases row.len(),
{
    if row.len() == 0 {
        0
    } else {
        work(row.drop_last()) + row.last().hits_to_clear()
    }
}

/// The smallest asteroids that the whole row comes to.
pub open spec fn weight(row: Seq<Shape>) -> nat
    decreases row.len(),
{
    if row.len() == 0 {
        0
    } else {
        weight(row.drop_last()) + pieces(row.last())
    }
}

/// Replacing one asteroid changes the work and the weight by the difference
/// between the two asteroids.
proof fn lemma_update(row: Seq<Shape>, i: int, a: Shape)
    requires
        0 <= i < row.len(),
    ensures
        work(row.update(i, a)) + row[i].hits_to_clear() == work(row) + a.hits_to_clear(),
        weight(row.update(i, a)) + pieces(row[i]) == weight(row) + pieces(a),
    decreases row.len(),
{
    let after = row.update(i, a);
    if i == row.len() - 1 {
        assert(after.drop_last() =~= row.drop_last());
    } else {
        assert(after.drop_last() =~= row.drop_last().update(i, a));
        lemma_update(row.drop_last(), i, a);
    }
}

/// Removing one asteroid takes its part from the work and from the weight.
proof fn lemma_remove(row: Seq<Shape>, i: int)
    requires
        0 <= i < row.len(),
    ensures
        work(row.remove(i)) + row[i].hits_to_clear() == work(row),
        weight(row.remove(i)) + pieces(row[i]) == weight(row),
    decreases row.len(),
{
    let after = row.remove(i);
    if i == row.len() - 1 {
        assert(after =~= row.drop_last());
    } else {
        assert(after.drop_last() =~= row.drop_last().remove(i));
        assert(after.last() == row.last());
        lemma_remove(row.drop_last(), i);
    }
}

/// A row has no more asteroids than its weight, and its work is at least its
/// length.
proof fn lemma_length(row: Seq<Shape>)
    ensures
        row.len() <= weight(row),
        row.len() <= work(row),
    decreases row.len(),
{
    if row.len() > 0 {
        lemma_length(row.drop_last());
    }
}

/// One hit leaves exactly one hit less to do, never makes the row heavier,
/// and changes the number of asteroids by one: one more after a split, one
/// less after a removal.
pub proof fn lemma_hit(row: Seq<Shape>, i: int)
    requires
        classed(row),
        0 <= i < row.len(),
    ensures
        classed(hit(row, i)),
        work(hit(row, i)) + 1 == work(row),
        weight(hit(row, i)) <= weight(row),
        row[i].splits_left > 0 ==> hit(row, i).len() == row.len() + 1 && weight(hit(row, i))
            == weight(row),
        row[i].splits_left == 0 ==> hit(row, i).len() == row.len() - 1 && weight(hit(row, i)) + 1
            == weight(row),
{
    let a = row[i];
    if a.splits_left > 0 {
        let halved = row.update(i, a.shrunk());
        lemma_update(row, i, a.shrunk());
        assert(hit(row, i).drop_last() =~= halved);
        assert(hit(row, i).last() == a.spawned());
        assert forall|j: int| 0 <= j < hit(row, i).len() implies (#[trigger] hit(
            row,
            i,
        )[j]).splits_left <= 3 by {
            if j < row.len() && j != i {
                assert(hit(row, i)[j] == row[j]);
            }
        }
    } else {
        lemma_remove(row, i);
        assert forall|j: int| 0 <= j < hit(row, i).len() implies (#[trigger] hit(
            row,
            i,
        )[j]).splits_left <= 3 by {
            if j < i {
                assert(hit(row, i)[j] == row[j]);
            } else {
                assert(hit(row, i)[j] == row[j + 1]);
            }
        }
    }
}

/// After any run of hits, in any order: the hits done and the hits still to
/// do add up to the work of the row at the start, and at no moment of the run
/// were there more asteroids than the weight of the row at the start.
pub proof fn lemma_run(row: Seq<Shape>, picks: Seq<int>)
    requires
        classed(row),
        run_ok(row, picks),
    ensures
        classed(run(row, picks)),
        work(run(row, picks)) + picks.len() == work(row),
        weight(run(row, picks)) <= weight(row),
        forall|t: int|
            0 <= t <= picks.len() ==> (#[trigger] run(row, picks.take(t))).len() <= weight(row),
    decreases picks.len(),
{
    if picks.len() > 0 {
        let front = picks.drop_last();
        lemma_run(row, front);
        lemma_hit(run(row, front), picks.last());
        lemma_length(run(row, picks));
        assert forall|t: int| 0 <= t <= picks.len() implies (#[trigger] run(
            row,
            picks.take(t),
        )).len() <= weight(row) by {
            if t == picks.len() {
                assert(picks.take(t) =~= picks);
            } else {
                assert(picks.take(t) =~= front.take(t));
            }
        }
    } else {
        lemma_length(row);
        assert forall|t: int| 0 <= t <= picks.len() implies (#[trigger] run(
            row,
            picks.take(t),
        )).len() <= weight(row) by {
            assert(picks.take(t) =~= picks);
        }
    }
}

/// Which asteroids belong to a family after one hit on asteroid `i`: every
/// asteroid keeps its mark, and what splits off an asteroid belongs where
/// that asteroid belongs.
pub open spec fn kin_hit(row: Seq<Shape>, kin: Seq<bool>, i: int) -> Seq<bool> {
    if row[i].splits_left > 0 {
        kin.push(kin[i])
    } else {
        kin.remove(i)
    }
}

/// Which asteroids belong to the family after a run of hits.
pub open spec fn kin_run(row: Seq<Shape>, kin: Seq<bool>, picks: Seq<int>) -> Seq<bool>
    decreases picks.len(),
{
    if picks.len() == 0 {
        kin
    } else {
        kin_hit(
            run(row, picks.drop_last()),
            kin_run(row, kin, picks.drop_last()),
            picks.last(),
        )
    }
}

/// Every hit of the run is on an asteroid of the family.
pub open spec fn run_in_kin(row: Seq<Shape>, kin: Seq<bool>, picks: Seq<int>) -> bool
    decreases picks.len(),
{
    picks.len() == 0 || (run_in_kin(row, kin, picks.drop_last()) && kin_run(
        row,
        kin,
        picks.drop_last(),
    )[picks.last()])
}

/// The family of one asteroid: in a row of `len`, asteroid `x` alone.
pub open spec fn only(len: nat, x: int) -> Seq<bool> {
    Seq::new(len, |j: int| j == x)
}

/// The number of asteroids of the family.
pub open spec fn members(kin: Seq<bool>) -> nat
    decreases kin.len(),
{
    if kin.len() == 0 {
        0
    } else {
        members(kin.drop_last()) + if kin.last() {
            1nat
        } else {
            0nat
        }
    }
}

/// The number of asteroids outside the family.
pub open spec fn strangers(kin: Seq<bool>) -> nat
    decreases kin.len(),
{
    if kin.len() == 0 {
        0
    } else {
        strangers(kin.drop_last()) + if kin.last() {
            0nat
        } else {
            1nat
        }
    }
}

/// The hits that it takes to clear the family.
pub open spec fn kin_work(row: Seq<Shape>, kin: Seq<bool>) -> nat
    decreases row.len(),
{
    if row.len() == 0 {
        0
    } else {
        kin_work(row.drop_last(), kin.drop_last()) + if kin.last() {
            row.last().hits_to_clear()
        } else {
            0nat
        }
    }
}

/// The smallest asteroids that the family comes to.
pub open spec fn kin_weight(row: Seq<Shape>, kin: Seq<bool>) -> nat
    decreases row.len(),
{
    if row.len() == 0 {
        0
    } else {
        kin_weight(row.drop_last(), kin.drop_last()) + if kin.last() {
            pieces(row.last())
        } else {
            0nat
        }
    }
}

/// Replacing an asteroid of the family changes the family's work and weight
/// by the difference between the two asteroids.
proof fn lemma_kin_update(row: Seq<Shape>, kin: Seq<bool>, i: int, a: Shape)
    requires
        kin.len() == row.len(),
        0 <= i < row.len(),
        kin[i],
    ensures
        kin_work(row.update(i, a), kin) + row[i].hits_to_clear() == kin_work(row, kin)
            + a.hits_to_clear(),
        kin_weight(row.update(i, a), kin) + pieces(row[i]) == kin_weight(row, kin) + pieces(a),
    decreases row.len(),
{
    let after = row.update(i, a);
    if i == row.len() - 1 {
        assert(after.drop_last() =~= row.drop_last());
    } else {
        assert(after.drop_last() =~= row.drop_last().update(i, a));
        assert(kin.drop_last()[i]);
        lemma_kin_update(row.drop_last(), kin.drop_last(), i, a);
    }
}

/// Removing an asteroid of the family takes its part from the family's work
/// and weight and one from its members, and leaves the strangers.
proof fn lemma_kin_remove(row: Seq<Shape>, kin: Seq<bool>, i: int)
    requires
        kin.len() == row.len(),
        0 <= i < row.len(),
        kin[i],
    ensures
        kin_work(row.remove(i), kin.remove(i)) + row[i].hits_to_clear() == kin_work(row, kin),
        kin_weight(row.remove(i), kin.remove(i)) + pieces(row[i]) == kin_weight(row, kin),
        members(kin.remove(i)) + 1 == members(kin),
        strangers(kin.remove(i)) == strangers(kin),
    decreases row.len(),
{
    if i == row.len() - 1 {
        assert(row.remove(i) =~= row.drop_last());
        assert(kin.remove(i) =~= kin.drop_last());
    } else {
        assert(row.remove(i).drop_last() =~= row.drop_last().remove(i));
        assert(kin.remove(i).drop_last() =~= kin.drop_last().remove(i));
        assert(row.remove(i).last() == row.last());
        assert(kin.remove(i).last() == kin.last());
        assert(kin.drop_last()[i]);
        lemma_kin_remove(row.drop_last(), kin.drop_last(), i);
    }
}

/// Members and strangers make up the row; the family has no more members
/// than its weight; and a family without members takes no hits to clear.
proof fn lemma_kin_length(row: Seq<Shape>, kin: Seq<bool>)
    requires
        kin.len() == row.len(),
    ensures
        members(kin) + strangers(kin) == row.len(),
        members(kin) <= kin_weight(row, kin),
        members(kin) == 0 ==> kin_work(row, kin) == 0,
    decreases row.len(),
{
    if row.len() > 0 {
        lemma_kin_length(row.drop_last(), kin.drop_last());
    }
}

/// The family of one asteroid has that asteroid's work and weight, and all
/// the others are strangers.
proof fn lemma_only(row: Seq<Shape>, x: int)
    ensures
        0 <= x < row.len() ==> kin_work(row, only(row.len(), x)) == row[x].hits_to_clear()
            && kin_weight(row, only(row.len(), x)) == pieces(row[x]) && strangers(
            only(row.len(), x),
        ) == row.len() - 1,
        !(0 <= x < row.len()) ==> kin_work(row, only(row.len(), x)) == 0 && kin_weight(
            row,
            only(row.len(), x),
        ) == 0 && strangers(only(row.len(), x)) == row.len(),
    decreases row.len(),
{
    if row.len() > 0 {
        let front = row.drop_last();
        assert(only(row.len(), x).drop_last() =~= only(front.len(), x));
        if x == row.len() - 1 {
            lemma_only(front, x);
        } else {
            lemma_only(front, x);
            if 0 <= x < front.len() {
                assert(front[x] == row[x]);
            }
        }
    }
}

/// One hit on an asteroid of the family leaves the family exactly one hit
/// less to do, never makes it heavier, and leaves the strangers alone.
pub proof fn lemma_kin_hit(row: Seq<Shape>, kin: Seq<bool>, i: int)
    requires
        classed(row),
        kin.len() == row.len(),
        0 <= i < row.len(),
        kin[i],
    ensures
        kin_hit(row, kin, i).len() == hit(row, i).len(),
        kin_work(hit(row, i), kin_hit(row, kin, i)) + 1 == kin_work(row, kin),
        kin_weight(hit(row, i), kin_hit(row, kin, i)) <= kin_weight(row, kin),
        strangers(kin_hit(row, kin, i)) == strangers(kin),
{
    let a = row[i];
    if a.splits_left > 0 {
        lemma_kin_update(row, kin, i, a.shrunk());
        assert(hit(row, i).drop_last() =~= row.update(i, a.shrunk()));
        assert(hit(row, i).last() == a.spawned());
        assert(kin_hit(row, kin, i).drop_last() =~= kin);
        assert(kin_hit(row, kin, i).last());
    } else {
        lemma_kin_remove(row, kin, i);
    }
}

/// After any run of hits on one family, in any order: the hits done and the
/// hits that the family still takes add up to what it took at the start, the
/// strangers are as many as before, and at no moment of the run were there
/// more asteroids than the strangers and the family's weight at the start.
pub proof fn lemma_kin_run(row: Seq<Shape>, kin: Seq<bool>, picks: Seq<int>)
    requires
        classed(row),
        kin.len() == row.len(),
        run_ok(row, picks),
        run_in_kin(row, kin, picks),
    ensures
        classed(run(row, picks)),
        kin_run(row, kin, picks).len() == run(row, picks).len(),
        kin_work(run(row, picks), kin_run(row, kin, picks)) + picks.len() == kin_work(row, kin),
        kin_weight(run(row, picks), kin_run(row, kin, picks)) <= kin_weight(row, kin),
        strangers(kin_run(row, kin, picks)) == strangers(kin),
        forall|t: int|
            0 <= t <= picks.len() ==> (#[trigger] run(row, picks.take(t))).len() <= strangers(kin)
                + kin_weight(row, kin),
    decreases picks.len(),
{
    let bound = strangers(kin) + kin_weight(row, kin);
    if picks.len() > 0 {
        let front = picks.drop_last();
        lemma_kin_run(row, kin, front);
        lemma_run(row, front);
        lemma_hit(run(row, front), picks.last());
        lemma_kin_hit(run(row, front), kin_run(row, kin, front), picks.last());
        lemma_kin_length(run(row, picks), kin_run(row, kin, picks));
        assert forall|t: int| 0 <= t <= picks.len() implies (#[trigger] run(
            row,
            picks.take(t),
        )).len() <= bound by {
            if t == picks.len() {
                assert(picks.take(t) =~= picks);
            } else {
                assert(picks.take(t) =~= front.take(t));
            }
        }
    } else {
        lemma_kin_length(row, kin);
        assert forall|t: int| 0 <= t <= picks.len() implies (#[trigger] run(
            row,
            picks.take(t),
        )).len() <= bound by {
            assert(picks.take(t) =~= picks);
        }
    }
}

/// Clearing one asteroid of the largest class, and all that splits off it,
/// out of a row takes exactly fifteen hits, in whatever order they come:
/// seven splits and eight removals. During the run the row never has more
/// than seven asteroids more than at the start, and at the end it has one
/// less.
pub proof fn lemma_clearing_a_largest_asteroid(row: Seq<Shape>, x: int, picks: Seq<int>)
    requires
        classed(row),
        0 <= x < row.len(),
        row[x].splits_left == 3,
        run_ok(row, picks),
        run_in_kin(row, only(row.len(), x), picks),
        members(kin_run(row, only(row.len(), x), picks)) == 0,
    ensures
        picks.len() == 15,
        run(row, picks).len() == row.len() - 1,
        forall|t: int|
            0 <= t <= picks.len() ==> (#[trigger] run(row, picks.take(t))).len() <= row.len() + 7,
{
    let kin = only(row.len(), x);
    lemma_only(row, x);
    lemma_kin_run(row, kin, picks);
    lemma_kin_length(run(row, picks), kin_run(row, kin, picks));
}

} // verus!
