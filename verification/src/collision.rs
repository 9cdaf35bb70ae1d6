//! What one frame's hits do to the asteroids: which bullets stop, which
//! asteroids split or vanish, and whether the ship is touched.

use vstd::prelude::*;
use crate::asteroid::{Asteroid, Shape};
use crate::geometry::{Screen, Vector2};
use crate::ship::{Bullet, live_bullets};

verus! {

/// The shapes of a row of asteroids.
pub open spec fn shapes(asteroids: Seq<Asteroid>) -> Seq<Shape> {
    Seq::new(asteroids.len(), |i: int| asteroids[i]@)
}

/// What a row of bullets makes of one asteroid.
pub struct Strike {
    /// The asteroid after its last split.
    pub body: Shape,
    /// A bullet met the asteroid when it could split no more.
    pub gone: bool,
    /// The asteroids that split off, in the order of the bullets.
    pub spawned: Seq<Shape>,
    /// For each bullet, whether it met the asteroid.
    pub hits: Seq<bool>,
}

/// The bullets are taken in their order. A bullet that is closer to the
/// asteroid than the asteroid's size at that moment meets it: the asteroid
/// splits, or is marked as gone if it is of the smallest class.
pub open spec fn strike(a: Shape, bullets: Seq<Bullet>) -> Strike
    decreases bullets.len(),
{
    if bullets.len() == 0 {
        Strike { body: a, gone: false, spawned: Seq::empty(), hits: Seq::empty() }
    } else {
        let before = strike(a, bullets.drop_last());
        if !before.body.touches(bullets.last().position) {
            Strike { hits: before.hits.push(false), ..before }
        } else if before.body.splits_left == 0 {
            Strike { gone: true, hits: before.hits.push(true), ..before }
        } else {
            Strike {
                body: before.body.shrunk(),
                gone: before.gone,
                spawned: before.spawned.push(before.body.spawned()),
                hits: before.hits.push(true),
            }
        }
    }
}

/// What a row of bullets makes of a row of asteroids.
pub struct Sweep {
    /// The asteroids that are not gone, each after its last split, in their
    /// order.
    pub survivors: Seq<Shape>,
    /// For each survivor, its number of sides where no bullet split it; a
    /// split draws a new one.
    pub kept_sides: Seq<Option<u8>>,
    /// The asteroids that split off, in the order of the asteroids they
    /// split from.
    pub spawned: Seq<Shape>,
    /// For each bullet, whether it met any asteroid.
    pub hits: Seq<bool>,
    /// Some asteroid, after its last split, reaches the ship.
    pub ship_touched: bool,
}

/// Every asteroid is struck by the whole row of bullets, one asteroid after
/// the other; nothing is removed or added before the last pair is done.
pub open spec fn sweep(asteroids: Seq<Asteroid>, bullets: Seq<Bullet>, ship: Vector2) -> Sweep
    decreases asteroids.len(),
{
    if asteroids.len() == 0 {
        Sweep {
            survivors: Seq::empty(),
            kept_sides: Seq::empty(),
            spawned: Seq::empty(),
            hits: Seq::new(bullets.len(), |k: int| false),
            ship_touched: false,
        }
    } else {
        let before = sweep(asteroids.drop_last(), bullets, ship);
        let s = strike(asteroids.last()@, bullets);
        Sweep {
            survivors: if s.gone {
                before.survivors
            } else {
                before.survivors.push(s.body)
            },
            kept_sides: if s.gone {
                before.kept_sides
            } else if s.spawned.len() == 0 {
                before.kept_sides.push(Some(asteroids.last().sides))
            } else {
                before.kept_sides.push(None)
            },
            spawned: before.spawned + s.spawned,
            hits: Seq::new(bullets.len(), |k: int| before.hits[k] || s.hits[k]),
            ship_touched: before.ship_touched || s.body.touches(ship),
        }
    }
}

/// The first asteroids of the row are the survivors of a sweep, each with
/// the number of sides that the sweep kept for it.
pub open spec fn sides_kept(asteroids: Seq<Asteroid>, kept: Seq<Option<u8>>) -> bool {
    &&& kept.len() <= asteroids.len()
    &&& forall|j: int|
        0 <= j < kept.len() && kept[j].is_some() ==> (#[trigger] asteroids[j]).sides
            == kept[j].unwrap()
}

/// The asteroids are what a sweep leaves: as shapes, the survivors followed
/// by the asteroids that split off; and every survivor that no bullet split
/// has its old number of sides, so that one that no bullet met is unchanged.
pub open spec fn left_by(asteroids: Seq<Asteroid>, sweep: Sweep) -> bool {
    &&& shapes(asteroids) == sweep.survivors + sweep.spawned
    &&& sides_kept(asteroids, sweep.kept_sides)
}

/// The bullets with the mark of a hit set on each one that met an asteroid.
pub open spec fn marked(bullets: Seq<Bullet>, hits: Seq<bool>) -> Seq<Bullet> {
    Seq::new(
        bullets.len(),
        |k: int| Bullet { collided: bullets[k].collided || hits[k], ..bullets[k] },
    )
}

/// A strike keeps the asteroid in its place and valid, tells of every bullet
/// whether it hit, and brings only valid asteroids at that same place.
pub proof fn lemma_strike(a: Shape, bullets: Seq<Bullet>)
    requires
        a.wf(),
    ensures
        strike(a, bullets).hits.len() == bullets.len(),
        strike(a, bullets).body.wf(),
        strike(a, bullets).body.position == a.position,
        strike(a, bullets).gone ==> strike(a, bullets).body.splits_left == 0,
        forall|k: int|
            0 <= k < strike(a, bullets).spawned.len() ==> (#[trigger] strike(
                a,
                bullets,
            ).spawned[k]).wf() && strike(a, bullets).spawned[k].position == a.position,
    decreases bullets.len(),
{
    if bullets.len() > 0 {
        lemma_strike(a, bullets.drop_last());
    }
}

/// An asteroid of the largest class splits exactly three times before it is
/// removed: of four bullets at its place, the first three split it, each into
/// the next smaller class, and the fourth removes it.
pub proof fn lemma_largest_splits_three_times(a: Shape, bullets: Seq<Bullet>)
    requires
        a.wf(),
        a.splits_left == 3,
        a.size >= 8,
        bullets.len() == 4,
        forall|k: int| 0 <= k < 4 ==> (#[trigger] bullets[k]).position == a.position,
    ensures
        !strike(a, bullets.take(1)).gone && strike(a, bullets.take(1)).body.splits_left == 2,
        !strike(a, bullets.take(2)).gone && strike(a, bullets.take(2)).body.splits_left == 1,
        !strike(a, bullets.take(3)).gone && strike(a, bullets.take(3)).body.splits_left == 0,
        strike(a, bullets).gone,
        strike(a, bullets).spawned.len() == 3,
        strike(a, bullets).hits == seq![true, true, true, true],
{
    let b0 = bullets.take(0);
    let b1 = bullets.take(1);
    let b2 = bullets.take(2);
    let b3 = bullets.take(3);
    assert(b1.drop_last() =~= b0);
    assert(b2.drop_last() =~= b1);
    assert(b3.drop_last() =~= b2);
    assert(bullets.drop_last() =~= b3);
    assert(b1.last() == bullets[0]);
    assert(b2.last() == bullets[1]);
    assert(b3.last() == bullets[2]);
    assert(bullets.last() == bullets[3]);
    let s0 = strike(a, b0);
    assert(s0.body == a && s0.spawned.len() == 0 && s0.hits.len() == 0);
    lemma_touches_own_place(s0.body);
    let s1 = strike(a, b1);
    assert(s1.body == a.shrunk() && s1.spawned.len() == 1 && !s1.gone);
    lemma_touches_own_place(s1.body);
    let s2 = strike(a, b2);
    assert(s2.body == a.shrunk().shrunk() && s2.spawned.len() == 2 && !s2.gone);
    lemma_touches_own_place(s2.body);
    let s3 = strike(a, b3);
    assert(s3.body == a.shrunk().shrunk().shrunk() && s3.spawned.len() == 3 && !s3.gone);
    lemma_touches_own_place(s3.body);
    let s4 = strike(a, bullets);
    assert(s4.gone && s4.spawned.len() == 3);
    assert(s4.hits =~= seq![true, true, true, true]);
}

/// An asteroid with a size reaches its own place.
pub proof fn lemma_touches_own_place(a: Shape)
    requires
        a.size > 0,
    ensures
        a.touches(a.position),
{
    assert(a.size * a.size > 0) by (nonlinear_arith)
        requires
            a.size > 0,
    ;
}

/// No bullet is closer to the asteroid than the asteroid's size.
pub open spec fn unmet(a: Shape, bullets: Seq<Bullet>) -> bool {
    forall|j: int| 0 <= j < bullets.len() ==> !a.touches((#[trigger] bullets[j]).position)
}

/// Bullet `k` is closer to the asteroid than the asteroid's size, and no other
/// bullet is.
pub open spec fn met_only_by(a: Shape, bullets: Seq<Bullet>, k: int) -> bool {
    &&& 0 <= k < bullets.len()
    &&& forall|j: int|
        0 <= j < bullets.len() ==> (a.touches((#[trigger] bullets[j]).position) <==> j == k)
}

/// The marks of a row of `len` bullets of which only bullet `k` hit.
pub open spec fn only_hit(len: nat, k: int) -> Seq<bool> {
    Seq::new(len, |j: int| j == k)
}

/// What the halved asteroid reaches, the whole asteroid reached.
pub proof fn lemma_shrunk_reaches_less(a: Shape, point: Vector2)
    requires
        a.size >= 0,
        a.shrunk().touches(point),
    ensures
        a.touches(point),
{
    let r = a.size as int;
    let h = a.shrunk().size as int;
    assert(h == r / 2);
    assert(h * h <= r * r) by (nonlinear_arith)
        requires
            0 <= h <= r,
    ;
}

/// An asteroid that no bullet meets stays as it is: nothing splits off, it is
/// not gone, and no bullet is marked.
pub proof fn lemma_strike_unmet(a: Shape, bullets: Seq<Bullet>)
    requires
        unmet(a, bullets),
    ensures
        strike(a, bullets) == (Strike {
            body: a,
            gone: false,
            spawned: Seq::empty(),
            hits: only_hit(bullets.len(), -1),
        }),
    decreases bullets.len(),
{
    if bullets.len() > 0 {
        let front = bullets.drop_last();
        assert forall|j: int| 0 <= j < front.len() implies !a.touches(
            (#[trigger] front[j]).position,
        ) by {
            assert(front[j] == bullets[j]);
        }
        lemma_strike_unmet(a, front);
        assert(!a.touches(bullets[bullets.len() - 1].position));
        assert(strike(a, bullets).hits =~= only_hit(bullets.len(), -1));
    } else {
        assert(strike(a, bullets).hits =~= only_hit(bullets.len(), -1));
    }
}

/// An asteroid that exactly one bullet meets is hit once. If it can split, it
/// is halved and one asteroid splits off; if it is of the smallest class, it
/// is gone. Only that bullet is marked.
pub proof fn lemma_strike_met_once(a: Shape, bullets: Seq<Bullet>, k: int)
    requires
        a.wf(),
        met_only_by(a, bullets, k),
    ensures
        a.splits_left > 0 ==> strike(a, bullets) == (Strike {
            body: a.shrunk(),
            gone: false,
            spawned: seq![a.spawned()],
            hits: only_hit(bullets.len(), k),
        }),
        a.splits_left == 0 ==> strike(a, bullets) == (Strike {
            body: a,
            gone: true,
            spawned: Seq::empty(),
            hits: only_hit(bullets.len(), k),
        }),
    decreases bullets.len(),
{
    let front = bullets.drop_last();
    let last = bullets[bullets.len() - 1];
    if k == bullets.len() - 1 {
        assert forall|j: int| 0 <= j < front.len() implies !a.touches(
            (#[trigger] front[j]).position,
        ) by {
            assert(front[j] == bullets[j]);
        }
        lemma_strike_unmet(a, front);
        assert(a.touches(last.position));
        assert(strike(a, bullets).hits =~= only_hit(bullets.len(), k));
        if a.splits_left > 0 {
            assert(strike(a, bullets).spawned =~= seq![a.spawned()]);
        }
    } else {
        assert forall|j: int| 0 <= j < front.len() implies (a.touches(
            (#[trigger] front[j]).position,
        ) <==> j == k) by {
            assert(front[j] == bullets[j]);
        }
        lemma_strike_met_once(a, front, k);
        assert(!a.touches(last.position));
        if a.splits_left > 0 {
            if a.shrunk().touches(last.position) {
                lemma_shrunk_reaches_less(a, last.position);
            }
        }
        assert(strike(a, bullets).hits =~= only_hit(bullets.len(), k));
    }
}

/// The sides of a row of asteroids, each kept.
pub open spec fn all_sides(asteroids: Seq<Asteroid>) -> Seq<Option<u8>> {
    Seq::new(asteroids.len(), |j: int| Some(asteroids[j].sides))
}

/// A frame in which no bullet meets an asteroid leaves every asteroid as it
/// is and marks no bullet.
pub proof fn lemma_sweep_unmet(asteroids: Seq<Asteroid>, bullets: Seq<Bullet>, ship: Vector2)
    requires
        forall|i: int| 0 <= i < asteroids.len() ==> unmet((#[trigger] asteroids[i])@, bullets),
    ensures
        sweep(asteroids, bullets, ship).survivors == shapes(asteroids),
        sweep(asteroids, bullets, ship).kept_sides == all_sides(asteroids),
        sweep(asteroids, bullets, ship).spawned == Seq::<Shape>::empty(),
        sweep(asteroids, bullets, ship).hits == only_hit(bullets.len(), -1),
    decreases asteroids.len(),
{
    let sw = sweep(asteroids, bullets, ship);
    if asteroids.len() > 0 {
        let front = asteroids.drop_last();
        assert forall|i: int| 0 <= i < front.len() implies unmet((#[trigger] front[i])@, bullets) by {
            assert(front[i] == asteroids[i]);
        }
        lemma_sweep_unmet(front, bullets, ship);
        lemma_strike_unmet(asteroids.last()@, bullets);
        assert(sw.survivors =~= shapes(asteroids));
        assert(sw.kept_sides =~= all_sides(asteroids));
        assert(sw.spawned =~= Seq::<Shape>::empty());
        assert(sw.hits =~= only_hit(bullets.len(), -1));
    } else {
        assert(sw.survivors =~= shapes(asteroids));
        assert(sw.kept_sides =~= all_sides(asteroids));
        assert(sw.hits =~= only_hit(bullets.len(), -1));
    }
}

/// A frame with exactly one hit, on an asteroid that can split: asteroid `i`
/// is halved in its place, one asteroid splits off it, every other asteroid
/// stays as it is, and only bullet `k` is marked. There is one asteroid more
/// than before.
pub proof fn lemma_one_hit_splits(
    asteroids: Seq<Asteroid>,
    bullets: Seq<Bullet>,
    ship: Vector2,
    i: int,
    k: int,
)
    requires
        0 <= i < asteroids.len(),
        asteroids[i].wf(),
        asteroids[i]@.splits_left > 0,
        met_only_by(asteroids[i]@, bullets, k),
        forall|j: int|
            0 <= j < asteroids.len() && j != i ==> unmet((#[trigger] asteroids[j])@, bullets),
    ensures
        sweep(asteroids, bullets, ship).survivors == shapes(asteroids).update(
            i,
            asteroids[i]@.shrunk(),
        ),
        sweep(asteroids, bullets, ship).kept_sides == all_sides(asteroids).update(i, None),
        sweep(asteroids, bullets, ship).spawned == seq![asteroids[i]@.spawned()],
        sweep(asteroids, bullets, ship).hits == only_hit(bullets.len(), k),
        sweep(asteroids, bullets, ship).survivors.len() + sweep(
            asteroids,
            bullets,
            ship,
        ).spawned.len() == asteroids.len() + 1,
    decreases asteroids.len(),
{
    let sw = sweep(asteroids, bullets, ship);
    let front = asteroids.drop_last();
    let a = asteroids.last();
    if i == asteroids.len() - 1 {
        assert forall|j: int| 0 <= j < front.len() implies unmet((#[trigger] front[j])@, bullets) by {
            assert(front[j] == asteroids[j]);
        }
        lemma_sweep_unmet(front, bullets, ship);
        lemma_strike_met_once(a@, bullets, k);
    } else {
        assert(front[i] == asteroids[i]);
        assert forall|j: int| 0 <= j < front.len() && j != i implies unmet(
            (#[trigger] front[j])@,
            bullets,
        ) by {
            assert(front[j] == asteroids[j]);
        }
        lemma_one_hit_splits(front, bullets, ship, i, k);
        lemma_strike_unmet(a@, bullets);
    }
    assert(sw.survivors =~= shapes(asteroids).update(i, asteroids[i]@.shrunk()));
    assert(sw.kept_sides =~= all_sides(asteroids).update(i, None));
    assert(sw.spawned =~= seq![asteroids[i]@.spawned()]);
    assert(sw.hits =~= only_hit(bullets.len(), k));
}

/// A frame with exactly one hit, on an asteroid of the smallest class:
/// asteroid `i` is removed, nothing splits off, every other asteroid stays as
/// it is and in its order, and only bullet `k` is marked. There is one
/// asteroid less than before.
pub proof fn lemma_one_hit_removes(
    asteroids: Seq<Asteroid>,
    bullets: Seq<Bullet>,
    ship: Vector2,
    i: int,
    k: int,
)
    requires
        0 <= i < asteroids.len(),
        asteroids[i].wf(),
        asteroids[i]@.splits_left == 0,
        met_only_by(asteroids[i]@, bullets, k),
        forall|j: int|
            0 <= j < asteroids.len() && j != i ==> unmet((#[trigger] asteroids[j])@, bullets),
    ensures
        sweep(asteroids, bullets, ship).survivors == shapes(asteroids).remove(i),
        sweep(asteroids, bullets, ship).kept_sides == all_sides(asteroids).remove(i),
        sweep(asteroids, bullets, ship).spawned == Seq::<Shape>::empty(),
        sweep(asteroids, bullets, ship).hits == only_hit(bullets.len(), k),
        sweep(asteroids, bullets, ship).survivors.len() + sweep(
            asteroids,
            bullets,
            ship,
        ).spawned.len() == asteroids.len() - 1,
    decreases asteroids.len(),
{
    let sw = sweep(asteroids, bullets, ship);
    let front = asteroids.drop_last();
    let a = asteroids.last();
    if i == asteroids.len() - 1 {
        assert forall|j: int| 0 <= j < front.len() implies unmet((#[trigger] front[j])@, bullets) by {
            assert(front[j] == asteroids[j]);
        }
        lemma_sweep_unmet(front, bullets, ship);
        lemma_strike_met_once(a@, bullets, k);
    } else {
        assert(front[i] == asteroids[i]);
        assert forall|j: int| 0 <= j < front.len() && j != i implies unmet(
            (#[trigger] front[j])@,
            bullets,
        ) by {
            assert(front[j] == asteroids[j]);
        }
        lemma_one_hit_removes(front, bullets, ship, i, k);
        lemma_strike_unmet(a@, bullets);
    }
    assert(sw.survivors =~= shapes(asteroids).remove(i));
    assert(sw.kept_sides =~= all_sides(asteroids).remove(i));
    assert(sw.spawned =~= Seq::<Shape>::empty());
    assert(sw.hits =~= only_hit(bullets.len(), k));
}

/// Where every bullet is in play, all of them stay.
pub proof fn lemma_all_live(bullets: Seq<Bullet>, now: u64)
    requires
        forall|j: int| 0 <= j < bullets.len() ==> (#[trigger] bullets[j]).live(now),
    ensures
        live_bullets(bullets, now) == bullets,
    decreases bullets.len(),
{
    if bullets.len() > 0 {
        let front = bullets.drop_last();
        assert forall|j: int| 0 <= j < front.len() implies (#[trigger] front[j]).live(now) by {
            assert(front[j] == bullets[j]);
        }
        lemma_all_live(front, now);
        assert(bullets[bullets.len() - 1].live(now));
        assert(live_bullets(bullets, now) =~= bullets);
    } else {
        assert(live_bullets(bullets, now) =~= bullets);
    }
}

/// After a frame with exactly one hit, where every bullet was in play: the
/// bullet that hit is dropped, and the others stay as they are and in their
/// order. There is one bullet less than before.
pub proof fn lemma_one_hit_drops_its_bullet(bullets: Seq<Bullet>, k: int, now: u64)
    requires
        0 <= k < bullets.len(),
        forall|j: int| 0 <= j < bullets.len() ==> (#[trigger] bullets[j]).live(now),
    ensures
        live_bullets(marked(bullets, only_hit(bullets.len(), k)), now) == bullets.remove(k),
        bullets.remove(k).len() == bullets.len() - 1,
    decreases bullets.len(),
{
    let after = marked(bullets, only_hit(bullets.len(), k));
    let front = bullets.drop_last();
    assert forall|j: int| 0 <= j < front.len() implies (#[trigger] front[j]).live(now) by {
        assert(front[j] == bullets[j]);
    }
    if k == bullets.len() - 1 {
        assert(after.drop_last() =~= front);
        lemma_all_live(front, now);
        assert(!after.last().live(now));
        assert(live_bullets(after, now) =~= bullets.remove(k));
    } else {
        assert(after.drop_last() =~= marked(front, only_hit(front.len(), k)));
        lemma_one_hit_drops_its_bullet(front, k, now);
        assert(after.last() == bullets[bullets.len() - 1]);
        assert(after.last().live(now));
        assert(live_bullets(after, now) =~= bullets.remove(k));
    }
}

/// A sweep tells of every bullet whether it hit, and of every survivor
/// whether it kept its sides.
pub proof fn lemma_sweep_hits(asteroids: Seq<Asteroid>, bullets: Seq<Bullet>, ship: Vector2)
    ensures
        sweep(asteroids, bullets, ship).hits.len() == bullets.len(),
        sweep(asteroids, bullets, ship).kept_sides.len() == sweep(
            asteroids,
            bullets,
            ship,
        ).survivors.len(),
    decreases asteroids.len(),
{
    if asteroids.len() > 0 {
        lemma_sweep_hits(asteroids.drop_last(), bullets, ship);
    }
}

/// Strikes one asteroid with every bullet in turn. The asteroid is split in
/// place; `marks` gains a mark for each bullet that hit, `spawned` the
/// asteroids that split off. Returns whether the asteroid is gone.
pub fn strike_one(
    a: &mut Asteroid,
    bullets: &Vec<Bullet>,
    marks: &mut Vec<bool>,
    spawned: &mut Vec<Asteroid>,
) -> (gone: bool)
    requires
        old(a).wf(),
        old(marks)@.len() == bullets@.len(),
    ensures
        final(a)@ == strike(old(a)@, bullets@).body,
        gone == strike(old(a)@, bullets@).gone,
        final(a).wf(),
        final(a).position == old(a).position,
        strike(old(a)@, bullets@).spawned.len() == 0 ==> *final(a) == *old(a),
        final(marks)@.len() == bullets@.len(),
        forall|k: int|
            0 <= k < bullets@.len() ==> final(marks)@[k] == (old(marks)@[k] || strike(
                old(a)@,
                bullets@,
            ).hits[k]),
        final(spawned)@.len() == old(spawned)@.len() + strike(old(a)@, bullets@).spawned.len(),
        forall|k: int| 0 <= k < old(spawned)@.len() ==> final(spawned)@[k] == old(spawned)@[k],
        forall|k: int|
            old(spawned)@.len() <= k < final(spawned)@.len() ==> (#[trigger] final(spawned)@[k]).wf()
                && final(spawned)@[k].position == old(a).position && final(spawned)@[k]@ == strike(
                old(a)@,
                bullets@,
            ).spawned[k - old(spawned)@.len()],
{
    let n: usize = bullets.len();
    let mut gone: bool = false;
    let mut b: usize = 0;
    let ghost start = a@;
    let ghost base = spawned@.len();
    proof {
        lemma_strike(start, bullets@.take(0));
    }
    while b < n
        invariant
            b <= n,
            n == bullets@.len(),
            start == old(a)@,
            start.wf(),
            base == old(spawned)@.len(),
            a.wf(),
            a.position == old(a).position,
            spawned@.len() == base ==> *a == *old(a),
            a@ == strike(start, bullets@.take(b as int)).body,
            gone == strike(start, bullets@.take(b as int)).gone,
            strike(start, bullets@.take(b as int)).hits.len() == b,
            marks@.len() == n,
            forall|k: int|
                0 <= k < b ==> marks@[k] == (old(marks)@[k] || strike(
                    start,
                    bullets@.take(b as int),
                ).hits[k]),
            forall|k: int| b <= k < n ==> marks@[k] == old(marks)@[k],
            spawned@.len() == base + strike(start, bullets@.take(b as int)).spawned.len(),
            forall|k: int| 0 <= k < base ==> spawned@[k] == old(spawned)@[k],
            forall|k: int|
                base <= k < spawned@.len() ==> (#[trigger] spawned@[k]).wf() && spawned@[k].position
                    == old(a).position && spawned@[k]@ == strike(
                    start,
                    bullets@.take(b as int),
                ).spawned[k - base],
        decreases n - b,
    {
        proof {
            assert(bullets@.take(b + 1).drop_last() =~= bullets@.take(b as int));
            assert(bullets@.take(b + 1).last() == bullets@[b as int]);
            lemma_strike(start, bullets@.take(b + 1));
        }
        let point: Vector2 = bullets[b].position;
        if a.collided(&point) {
            marks.set(b, true);
            match a.resize() {
                Some(child) => {
                    spawned.push(child);
                },
                None => {
                    gone = true;
                },
            }
        }
        b += 1;
    }
    proof {
        assert(bullets@.take(n as int) =~= bullets@);
    }
    gone
}

/// Runs the whole sweep on a row of asteroids, which it replaces by the
/// survivors followed by the asteroids that split off. `marks` gets one mark
/// for each bullet. Returns whether an asteroid reaches `ship`.
pub fn sweep_all(
    asteroids: &mut Vec<Asteroid>,
    bullets: &Vec<Bullet>,
    ship: &Vector2,
    screen: &Screen,
) -> (out: (Vec<bool>, bool))
    requires
        forall|i: int|
            0 <= i < old(asteroids)@.len() ==> (#[trigger] old(asteroids)@[i]).wf() && screen.holds(
                old(asteroids)@[i].position,
            ),
    ensures
        left_by(final(asteroids)@, sweep(old(asteroids)@, bullets@, *ship)),
        out.0@ == sweep(old(asteroids)@, bullets@, *ship).hits,
        out.1 == sweep(old(asteroids)@, bullets@, *ship).ship_touched,
        forall|i: int|
            0 <= i < final(asteroids)@.len() ==> (#[trigger] final(asteroids)@[i]).wf()
                && screen.holds(final(asteroids)@[i].position),
{
    let n: usize = asteroids.len();
    let m: usize = bullets.len();
    let mut marks: Vec<bool> = Vec::new();
    let mut k: usize = 0;
    while k < m
        invariant
            k <= m,
            marks@.len() == k,
            forall|j: int| 0 <= j < k ==> marks@[j] == false,
        decreases m - k,
    {
        marks.push(false);
        k += 1;
    }
    let mut kept: Vec<Asteroid> = Vec::new();
    let mut spawned: Vec<Asteroid> = Vec::new();
    let mut touched: bool = false;
    let mut i: usize = 0;
    let ghost all = asteroids@;
    proof {
        assert(marks@ =~= sweep(all.take(0), bullets@, *ship).hits);
        assert(shapes(kept@) =~= sweep(all.take(0), bullets@, *ship).survivors);
        assert(shapes(spawned@) =~= sweep(all.take(0), bullets@, *ship).spawned);
    }
    while i < n
        invariant
            i <= n,
            n == asteroids@.len(),
            m == bullets@.len(),
            asteroids@ == old(asteroids)@,
            all == old(asteroids)@,
            forall|j: int|
                0 <= j < asteroids@.len() ==> (#[trigger] asteroids@[j]).wf() && screen.holds(
                    asteroids@[j].position,
                ),
            marks@ == sweep(all.take(i as int), bullets@, *ship).hits,
            marks@.len() == m,
            touched == sweep(all.take(i as int), bullets@, *ship).ship_touched,
            shapes(kept@) == sweep(all.take(i as int), bullets@, *ship).survivors,
            kept@.len() == sweep(all.take(i as int), bullets@, *ship).kept_sides.len(),
            sides_kept(kept@, sweep(all.take(i as int), bullets@, *ship).kept_sides),
            shapes(spawned@) == sweep(all.take(i as int), bullets@, *ship).spawned,
            forall|j: int|
                0 <= j < kept@.len() ==> (#[trigger] kept@[j]).wf() && screen.holds(
                    kept@[j].position,
                ),
            forall|j: int|
                0 <= j < spawned@.len() ==> (#[trigger] spawned@[j]).wf() && screen.holds(
                    spawned@[j].position,
                ),
        decreases n - i,
    {
        let mut a: Asteroid = asteroids[i];
        let ghost before = sweep(all.take(i as int), bullets@, *ship);
        let ghost old_spawned = spawned@;
        let ghost old_kept = kept@;
        proof {
            assert(all.take(i + 1).drop_last() =~= all.take(i as int));
            assert(all.take(i + 1).last() == a);
            lemma_strike(a@, bullets@);
        }
        let gone: bool = strike_one(&mut a, bullets, &mut marks, &mut spawned);
        if a.collided(ship) {
            touched = true;
        }
        if !gone {
            kept.push(a);
        }
        proof {
            let after = sweep(all.take(i + 1), bullets@, *ship);
            assert(marks@ =~= after.hits);
            assert(shapes(spawned@) =~= after.spawned) by {
                assert(shapes(spawned@).len() == after.spawned.len());
                assert forall|j: int| 0 <= j < after.spawned.len() implies shapes(spawned@)[j]
                    == after.spawned[j] by {
                    if j < old_spawned.len() {
                        assert(shapes(old_spawned)[j] == before.spawned[j]);
                    }
                }
            }
            assert(shapes(kept@) =~= after.survivors) by {
                assert forall|j: int| 0 <= j < after.survivors.len() implies shapes(kept@)[j]
                    == after.survivors[j] by {
                    if j < old_kept.len() {
                        assert(shapes(old_kept)[j] == before.survivors[j]);
                    }
                }
            }
            assert(sides_kept(kept@, after.kept_sides)) by {
                assert forall|j: int|
                    0 <= j < after.kept_sides.len() && after.kept_sides[j].is_some() implies (
                #[trigger] kept@[j]).sides == after.kept_sides[j].unwrap() by {
                    if j < old_kept.len() {
                        assert(old_kept[j].sides == before.kept_sides[j].unwrap());
                    }
                }
            }
        }
        i += 1;
    }
    let ghost done = sweep(all, bullets@, *ship);
    proof {
        assert(all.take(n as int) =~= all);
    }
    let ghost survivors = kept@;
    let count: usize = spawned.len();
    let mut j: usize = 0;
    while j < count
        invariant
            j <= count,
            count == spawned@.len(),
            kept@.len() == survivors.len() + j,
            forall|t: int| 0 <= t < survivors.len() ==> kept@[t] == survivors[t],
            forall|t: int| 0 <= t < j ==> kept@[survivors.len() + t] == spawned@[t],
            forall|t: int|
                0 <= t < survivors.len() ==> (#[trigger] survivors[t]).wf() && screen.holds(
                    survivors[t].position,
                ),
            forall|t: int|
                0 <= t < spawned@.len() ==> (#[trigger] spawned@[t]).wf() && screen.holds(
                    spawned@[t].position,
                ),
        decreases count - j,
    {
        kept.push(spawned[j]);
        j += 1;
    }
    proof {
        assert(shapes(kept@) =~= done.survivors + done.spawned) by {
            assert forall|t: int| 0 <= t < kept@.len() implies shapes(kept@)[t] == (done.survivors
                + done.spawned)[t] by {
                if t < survivors.len() {
                    assert(shapes(survivors)[t] == done.survivors[t]);
                } else {
                    assert(shapes(spawned@)[t - survivors.len()] == done.spawned[t
                        - survivors.len()]);
                }
            }
        }
        assert forall|t: int| 0 <= t < kept@.len() implies (#[trigger] kept@[t]).wf()
            && screen.holds(kept@[t].position) by {
            if t < survivors.len() {
                assert(kept@[t] == survivors[t]);
            } else {
                assert(kept@[t] == spawned@[t - survivors.len()]);
            }
        }
        assert(sides_kept(kept@, done.kept_sides)) by {
            assert forall|t: int|
                0 <= t < done.kept_sides.len() && done.kept_sides[t].is_some() implies (
            #[trigger] kept@[t]).sides == done.kept_sides[t].unwrap() by {
                assert(kept@[t] == survivors[t]);
            }
        }
    }
    *asteroids = kept;
    (marks, touched)
}

} // verus!
