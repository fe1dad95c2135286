//! Collision records and how the player's velocity responds to them.

use vstd::prelude::*;

verus! {

/// The side of an obstacle from which the player is pushed back.
#[derive(Clone, Copy, Debug, PartialEq, Eq, Structural)]
pub enum Direction {
    Up,
    Down,
    Left,
    Right,
    NoDir,
}

/// One collision: the direction in which the player must stop, and the
/// distance between the centers of the player and the obstacle.
#[derive(Clone, Copy, Debug, PartialEq, Eq, Structural)]
pub struct CollisionDecider {
    pub dir: Direction,
    pub dist: i32,
}

impl CollisionDecider {
    pub fn new(dir: Direction, dist: i32) -> (c: CollisionDecider)
        ensures
            c.dir == dir,
            c.dist == dist,
    {
        CollisionDecider { dir, dist }
    }
}

/// The deceleration applied to a velocity when no input accelerates it:
/// a non-zero input is kept, otherwise the velocity is nudged one step
/// towards zero.
pub open spec fn spec_resist(vel: int, delta: int) -> int {
    if delta == 0 {
        if vel > 0 {
            -1
        } else if vel < 0 {
            1
        } else {
            0
        }
    } else {
        delta
    }
}

/// Velocity resistance: see `spec_resist`.
pub fn resist(vel: i32, delta: i32) -> (r: i32)
    ensures
        r == spec_resist(vel as int, delta as int),
{
    if delta == 0 {
        if vel > 0 {
            -1
        } else if vel < 0 {
            1
        } else {
            delta
        }
    } else {
        delta
    }
}

/// Resistance never pushes a velocity across zero: with no input, the
/// velocity plus the resistance stays on the same side of zero, and one
/// step closer to it; an input is passed on as it is.
pub proof fn lemma_resist_towards_zero(vel: int)
    ensures
        vel > 0 ==> 0 <= vel + spec_resist(vel, 0) < vel,
        vel < 0 ==> vel < vel + spec_resist(vel, 0) <= 0,
        vel == 0 ==> spec_resist(vel, 0) == 0,
        forall|delta: int| delta != 0 ==> #[trigger] spec_resist(vel, delta) == delta,
{
}

/// The value clamped into `[lo, hi]`.
pub open spec fn clamp(v: int, lo: int, hi: int) -> int {
    if v < lo {
        lo
    } else if v > hi {
        hi
    } else {
        v
    }
}

/// Clamps `v` into `[lo, hi]`.
pub fn clamp_value(v: i32, lo: i32, hi: i32) -> (r: i32)
    requires
        lo <= hi,
    ensures
        r == clamp(v as int, lo as int, hi as int),
{
    if v < lo {
        lo
    } else if v > hi {
        hi
    } else {
        v
    }
}

/// A clamped value lies within its bounds, and a value already within them
/// is left as it is.
pub proof fn lemma_clamp_bounds(v: int, lo: int, hi: int)
    requires
        lo <= hi,
    ensures
        lo <= clamp(v, lo, hi) <= hi,
        lo <= v <= hi ==> clamp(v, lo, hi) == v,
{
}

/// The largest speed that a collision leaves in the direction away from the
/// obstacle.
pub const BOUNCE_LIMIT: i32 = 100i32;

/// The opposite direction.
pub open spec fn opposite(d: Direction) -> Direction {
    match d {
        Direction::Up => Direction::Down,
        Direction::Down => Direction::Up,
        Direction::Left => Direction::Right,
        Direction::Right => Direction::Left,
        Direction::NoDir => Direction::NoDir,
    }
}

/// The velocity `(x, y)` after stopping against an obstacle on side `d`:
/// the component that points into the obstacle becomes zero, and the one
/// that points away is capped at `BOUNCE_LIMIT`.
pub open spec fn push_back(vel: (int, int), d: Direction) -> (int, int) {
    match d {
        Direction::Up => (vel.0, clamp(vel.1, 0, BOUNCE_LIMIT as int)),
        Direction::Down => (vel.0, clamp(vel.1, -BOUNCE_LIMIT, 0)),
        Direction::Left => (clamp(vel.0, 0, BOUNCE_LIMIT as int), vel.1),
        Direction::Right => (clamp(vel.0, -BOUNCE_LIMIT, 0), vel.1),
        Direction::NoDir => vel,
    }
}

/// Collisions sorted by distance, nearest first: the entry `c` goes after
/// every entry whose distance is not greater than its own.
pub open spec fn insert_by_dist(s: Seq<CollisionDecider>, c: CollisionDecider) -> Seq<CollisionDecider>
    decreases s.len(),
{
    if s.len() == 0 {
        seq![c]
    } else if s.last().dist <= c.dist {
        s.push(c)
    } else {
        insert_by_dist(s.drop_last(), c).push(s.last())
    }
}

/// The collisions in order of distance, nearest first; collisions at equal
/// distance keep the order in which they were recorded.
pub open spec fn sort_by_dist(s: Seq<CollisionDecider>) -> Seq<CollisionDecider>
    decreases s.len(),
{
    if s.len() == 0 {
        s
    } else {
        insert_by_dist(sort_by_dist(s.drop_last()), s.last())
    }
}

/// The velocity after resolving the collisions `sorted`, nearest first:
/// the player stops against the nearest one; when there are more than two,
/// a second one is taken into account too (the third nearest, or the
/// second nearest when the nearest lies to the left), unless it lies on the
/// opposite side of the first.
pub open spec fn resolve_velocity(vel: (int, int), sorted: Seq<CollisionDecider>) -> (int, int) {
    if sorted.len() == 0 {
        vel
    } else {
        let first = sorted[0].dir;
        let v1 = push_back(vel, first);
        if sorted.len() > 2 && first != Direction::NoDir {
            let second = if first == Direction::Left {
                sorted[1].dir
            } else {
                sorted[2].dir
            };
            if second == opposite(first) {
                v1
            } else {
                push_back(v1, second)
            }
        } else {
            v1
        }
    }
}

/// The absolute value.
pub open spec fn abs(v: int) -> int {
    if v < 0 {
        -v
    } else {
        v
    }
}

/// After resolving collisions, the player no longer moves into the nearest
/// obstacle.
pub proof fn lemma_resolve_stops_at_nearest(vel: (int, int), sorted: Seq<CollisionDecider>)
    requires
        sorted.len() > 0,
    ensures
        ({
            let r = resolve_velocity(vel, sorted);
            &&& sorted[0].dir == Direction::Up ==> r.1 >= 0
            &&& sorted[0].dir == Direction::Down ==> r.1 <= 0
            &&& sorted[0].dir == Direction::Left ==> r.0 >= 0
            &&& sorted[0].dir == Direction::Right ==> r.0 <= 0
        }),
{
}

/// Stopping against the nearest obstacle cuts only the motion into it: on
/// the axis of the nearest collision, a speed pointing into the obstacle
/// becomes zero, a speed pointing away from it is kept up to
/// `BOUNCE_LIMIT` and capped there beyond. With fewer than three collisions
/// the other axis is left as it is, and a collision without a side changes
/// nothing.
pub proof fn lemma_resolve_axis(vel: (int, int), sorted: Seq<CollisionDecider>)
    requires
        sorted.len() > 0,
    ensures
        ({
            let r = resolve_velocity(vel, sorted);
            let d = sorted[0].dir;
            let b = BOUNCE_LIMIT as int;
            &&& d == Direction::Up ==> {
                &&& (vel.1 < 0 ==> r.1 == 0)
                &&& (0 <= vel.1 <= b ==> r.1 == vel.1)
                &&& (vel.1 > b ==> r.1 == b)
                &&& (sorted.len() <= 2 ==> r.0 == vel.0)
            }
            &&& d == Direction::Down ==> {
                &&& (vel.1 > 0 ==> r.1 == 0)
                &&& (-b <= vel.1 <= 0 ==> r.1 == vel.1)
                &&& (vel.1 < -b ==> r.1 == -b)
                &&& (sorted.len() <= 2 ==> r.0 == vel.0)
            }
            &&& d == Direction::Left ==> {
                &&& (vel.0 < 0 ==> r.0 == 0)
                &&& (0 <= vel.0 <= b ==> r.0 == vel.0)
                &&& (vel.0 > b ==> r.0 == b)
                &&& (sorted.len() <= 2 ==> r.1 == vel.1)
            }
            &&& d == Direction::Right ==> {
                &&& (vel.0 > 0 ==> r.0 == 0)
                &&& (-b <= vel.0 <= 0 ==> r.0 == vel.0)
                &&& (vel.0 < -b ==> r.0 == -b)
                &&& (sorted.len() <= 2 ==> r.1 == vel.1)
            }
            &&& d == Direction::NoDir ==> r == vel
        }),
{
}

/// A later collision never undoes the stop against the nearest one: when
/// the nearest lies above, the player still moves down at most
/// `BOUNCE_LIMIT`, whatever else it hits (and likewise for the other sides).
pub proof fn lemma_resolve_second_keeps_first(vel: (int, int), sorted: Seq<CollisionDecider>)
    requires
        sorted.len() > 0,
    ensures
        ({
            let r = resolve_velocity(vel, sorted);
            let d = sorted[0].dir;
            let b = BOUNCE_LIMIT as int;
            &&& d == Direction::Up ==> r.1 == (if vel.1 < 0 { 0 } else if vel.1 > b { b } else { vel.1 })
            &&& d == Direction::Down ==> r.1 == (if vel.1 > 0 { 0 } else if vel.1 < -b { -b } else { vel.1 })
            &&& d == Direction::Left ==> r.0 == (if vel.0 < 0 { 0 } else if vel.0 > b { b } else { vel.0 })
            &&& d == Direction::Right ==> r.0 == (if vel.0 > 0 { 0 } else if vel.0 < -b { -b } else { vel.0 })
        }),
{
}

/// Resolving collisions never speeds the player up, on either axis.
pub proof fn lemma_resolve_never_speeds_up(vel: (int, int), sorted: Seq<CollisionDecider>)
    ensures
        abs(resolve_velocity(vel, sorted).0) <= abs(vel.0),
        abs(resolve_velocity(vel, sorted).1) <= abs(vel.1),
{
}

/// Without collisions the velocity is left as it is.
pub proof fn lemma_resolve_no_collision(vel: (int, int))
    ensures
        resolve_velocity(vel, Seq::<CollisionDecider>::empty()) == vel,
{
}

proof fn lemma_insert_step(s: Seq<CollisionDecider>, c: CollisionDecider, k: int)
    requires
        0 < k <= s.len(),
        s[k - 1].dist > c.dist,
    ensures
        insert_by_dist(s.take(k), c) + s.skip(k) == insert_by_dist(s.take(k - 1), c) + s.skip(k - 1),
{
    assert(s.take(k).drop_last() =~= s.take(k - 1));
    assert(s.take(k).last() == s[k - 1]);
    assert(insert_by_dist(s.take(k), c) == insert_by_dist(s.take(k - 1), c).push(s[k - 1]));
    assert(insert_by_dist(s.take(k - 1), c).push(s[k - 1]) + s.skip(k) =~= insert_by_dist(
        s.take(k - 1),
        c,
    ) + s.skip(k - 1));
}

/// Distances never decrease along the sequence.
pub open spec fn dist_sorted(s: Seq<CollisionDecider>) -> bool {
    forall|i: int, j: int| 0 <= i < j < s.len() ==> #[trigger] s[i].dist <= #[trigger] s[j].dist
}

/// Selects the collisions at distance `d`.
pub open spec fn at_dist(d: int) -> spec_fn(CollisionDecider) -> bool {
    |x: CollisionDecider| x.dist == d
}

proof fn lemma_insert_by_dist(s: Seq<CollisionDecider>, c: CollisionDecider)
    requires
        dist_sorted(s),
    ensures
        dist_sorted(insert_by_dist(s, c)),
        insert_by_dist(s, c).to_multiset() =~= s.to_multiset().insert(c),
        forall|i: int|
            0 <= i < insert_by_dist(s, c).len() ==> #[trigger] insert_by_dist(s, c)[i] == c
                || s.contains(insert_by_dist(s, c)[i]),
        forall|d: int|
            #[trigger] insert_by_dist(s, c).filter(at_dist(d)) == if c.dist == d {
                s.filter(at_dist(d)).push(c)
            } else {
                s.filter(at_dist(d))
            },
    decreases s.len(),
{
    broadcast use vstd::seq_lib::group_to_multiset_ensures;
    broadcast use vstd::seq::Seq::lemma_filter_push;

    if s.len() == 0 {
        assert(seq![c] =~= s.push(c));
    } else if s.last().dist <= c.dist {
        let r = s.push(c);
        assert forall|i: int, j: int| 0 <= i < j < r.len() implies #[trigger] r[i].dist
            <= #[trigger] r[j].dist by {
            if j == r.len() - 1 {
                assert(r[i].dist <= s[s.len() - 1].dist || i == s.len() - 1);
            }
        }
        assert forall|i: int| 0 <= i < r.len() implies #[trigger] r[i] == c || s.contains(r[i]) by {
            if i < s.len() {
                assert(r[i] == s[i]);
            }
        }
    } else {
        let t = s.drop_last();
        let l = s.last();
        assert(dist_sorted(t));
        lemma_insert_by_dist(t, c);
        let q = insert_by_dist(t, c);
        let r = q.push(l);
        assert(s =~= t.push(l));
        assert forall|i: int| 0 <= i < q.len() implies #[trigger] q[i].dist <= l.dist by {
            if q[i] != c {
                let k = choose|k: int| 0 <= k < t.len() && t[k] == q[i];
                assert(s[k] == t[k]);
                assert(s[k].dist <= s[s.len() - 1].dist);
            }
        }
        assert forall|i: int, j: int| 0 <= i < j < r.len() implies #[trigger] r[i].dist
            <= #[trigger] r[j].dist by {
            if j == r.len() - 1 {
                assert(q[i].dist <= l.dist);
            } else {
                assert(r[i] == q[i] && r[j] == q[j]);
            }
        }
        assert forall|i: int| 0 <= i < r.len() implies #[trigger] r[i] == c || s.contains(r[i]) by {
            if i < q.len() {
                assert(r[i] == q[i]);
                if q[i] != c {
                    let k = choose|k: int| 0 <= k < t.len() && t[k] == q[i];
                    assert(s[k] == t[k]);
                }
            } else {
                assert(s[s.len() - 1] == l);
            }
        }
        assert forall|d: int|
            #[trigger] r.filter(at_dist(d)) == if c.dist == d {
                s.filter(at_dist(d)).push(c)
            } else {
                s.filter(at_dist(d))
            } by {
            assert(q.filter(at_dist(d)) == if c.dist == d {
                t.filter(at_dist(d)).push(c)
            } else {
                t.filter(at_dist(d))
            });
            assert(r.filter(at_dist(d)) == if at_dist(d)(l) {
                q.filter(at_dist(d)).push(l)
            } else {
                q.filter(at_dist(d))
            });
            assert(s.filter(at_dist(d)) == if at_dist(d)(l) {
                t.filter(at_dist(d)).push(l)
            } else {
                t.filter(at_dist(d))
            });
        }
    }
}

/// Sorting collisions by distance yields them nearest first, loses and adds
/// none, and keeps the recorded order among collisions at equal distance.
pub proof fn lemma_sort_by_dist(s: Seq<CollisionDecider>)
    ensures
        dist_sorted(sort_by_dist(s)),
        sort_by_dist(s).to_multiset() =~= s.to_multiset(),
        forall|d: int| #[trigger] sort_by_dist(s).filter(at_dist(d)) == s.filter(at_dist(d)),
    decreases s.len(),
{
    broadcast use vstd::seq_lib::group_to_multiset_ensures;
    broadcast use vstd::seq::Seq::lemma_filter_push;

    if s.len() == 0 {
    } else {
        let t = s.drop_last();
        lemma_sort_by_dist(t);
        lemma_insert_by_dist(sort_by_dist(t), s.last());
        assert(s =~= t.push(s.last()));
        assert forall|d: int| #[trigger] sort_by_dist(s).filter(at_dist(d)) == s.filter(at_dist(d)) by {
            assert(sort_by_dist(t).filter(at_dist(d)) == t.filter(at_dist(d)));
        }
    }
}

/// No two collisions lie at the same distance.
pub open spec fn distinct_dists(s: Seq<CollisionDecider>) -> bool {
    forall|i: int, j: int|
        0 <= i < s.len() && 0 <= j < s.len() && i != j ==> #[trigger] s[i].dist != #[trigger] s[j].dist
}

proof fn lemma_distinct_dists_perm(s: Seq<CollisionDecider>, t: Seq<CollisionDecider>)
    requires
        distinct_dists(s),
        t.to_multiset() =~= s.to_multiset(),
    ensures
        distinct_dists(t),
{
    broadcast use vstd::seq_lib::group_to_multiset_ensures;

    assert forall|i: int, j: int| 0 <= i < s.len() && 0 <= j < s.len() && i != j implies s[i] != s[j] by {
        assert(s[i].dist != s[j].dist);
    }
    assert(s.no_duplicates());
    s.lemma_multiset_has_no_duplicates();
    t.lemma_multiset_has_no_duplicates_conv();
    assert forall|i: int, j: int|
        0 <= i < t.len() && 0 <= j < t.len() && i != j implies #[trigger] t[i].dist != #[trigger] t[j].dist by {
        if t[i].dist == t[j].dist {
            assert(t.contains(t[i]));
            assert(t.contains(t[j]));
            assert(s.to_multiset().count(t[i]) > 0);
            assert(s.to_multiset().count(t[j]) > 0);
            assert(s.contains(t[i]));
            assert(s.contains(t[j]));
            let k1 = choose|k: int| 0 <= k < s.len() && s[k] == t[i];
            let k2 = choose|k: int| 0 <= k < s.len() && s[k] == t[j];
            if k1 != k2 {
                assert(s[k1].dist != s[k2].dist);
            }
            assert(t[i] == t[j]);
        }
    }
}

proof fn lemma_sorted_unique(a: Seq<CollisionDecider>, b: Seq<CollisionDecider>)
    requires
        dist_sorted(a),
        dist_sorted(b),
        distinct_dists(a),
        distinct_dists(b),
        a.to_multiset() =~= b.to_multiset(),
    ensures
        a == b,
    decreases a.len(),
{
    broadcast use vstd::seq_lib::group_to_multiset_ensures;
    broadcast use vstd::multiset::group_multiset_axioms;

    assert(a.len() == a.to_multiset().len());
    assert(b.len() == b.to_multiset().len());
    if a.len() == 0 {
        assert(a =~= b);
    } else {
        let n = a.len() - 1;
        let x = a[n];
        let y = b[n];
        assert(a.contains(x));
        assert(b.to_multiset().count(x) > 0);
        assert(b.contains(x));
        let kx = choose|k: int| 0 <= k < b.len() && b[k] == x;
        assert(b.contains(y));
        assert(a.to_multiset().count(y) > 0);
        assert(a.contains(y));
        let ky = choose|k: int| 0 <= k < a.len() && a[k] == y;
        if kx < n {
            assert(b[kx].dist <= b[n].dist);
        }
        if ky < n {
            assert(a[ky].dist <= a[n].dist);
        }
        assert(x.dist == y.dist);
        if kx != n {
            assert(b[kx].dist != b[n].dist);
        }
        assert(x == y);
        let a0 = a.drop_last();
        let b0 = b.drop_last();
        assert(a =~= a0.push(x));
        assert(b =~= b0.push(x));
        assert(a0.to_multiset().insert(x) =~= b0.to_multiset().insert(x));
        assert(a0.to_multiset() =~= b0.to_multiset()) by {
            assert forall|e: CollisionDecider| a0.to_multiset().count(e) == b0.to_multiset().count(e) by {
                assert(a0.to_multiset().insert(x).count(e) == b0.to_multiset().insert(x).count(e));
            }
        }
        assert(dist_sorted(a0));
        assert(dist_sorted(b0));
        assert(distinct_dists(a0));
        assert(distinct_dists(b0));
        lemma_sorted_unique(a0, b0);
    }
}

/// When no two collisions lie at the same distance, the order in which they
/// were recorded does not matter: any rearrangement of them sorts the same.
pub proof fn lemma_sort_order_free(c: Seq<CollisionDecider>, c2: Seq<CollisionDecider>)
    requires
        distinct_dists(c),
        c2.to_multiset() =~= c.to_multiset(),
    ensures
        sort_by_dist(c) == sort_by_dist(c2),
{
    lemma_sort_by_dist(c);
    lemma_sort_by_dist(c2);
    lemma_distinct_dists_perm(c, sort_by_dist(c));
    lemma_distinct_dists_perm(c, sort_by_dist(c2));
    lemma_sorted_unique(sort_by_dist(c), sort_by_dist(c2));
}

/// When no two collisions lie at the same distance, the velocity after
/// resolving them depends only on the collisions, not on the order in which
/// they were recorded.
pub proof fn lemma_resolve_order_free(vel: (int, int), c: Seq<CollisionDecider>, c2: Seq<CollisionDecider>)
    requires
        distinct_dists(c),
        c2.to_multiset() =~= c.to_multiset(),
    ensures
        resolve_velocity(vel, sort_by_dist(c)) == resolve_velocity(vel, sort_by_dist(c2)),
{
    lemma_sort_order_free(c, c2);
}

/// Sorts collisions by distance, nearest first, keeping the recorded order
/// among collisions at equal distance.
pub fn sort_collisions(collisions: &Vec<CollisionDecider>) -> (sorted: Vec<CollisionDecider>)
    ensures
        sorted@ == sort_by_dist(collisions@),
{
    let mut sorted: Vec<CollisionDecider> = Vec::new();
    let n = collisions.len();
    for i in 0..n
        invariant
            n == collisions.len(),
            sorted@ == sort_by_dist(collisions@.take(i as int)),
    {
        let c = collisions[i];
        let mut k = sorted.len();
        proof {
            assert(sorted@.take(k as int) =~= sorted@);
            assert(sorted@.skip(k as int) =~= Seq::<CollisionDecider>::empty());
            assert(insert_by_dist(sorted@, c) + sorted@.skip(k as int) =~= insert_by_dist(sorted@, c));
        }
        while k > 0 && sorted[k - 1].dist > c.dist
            invariant
                k <= sorted.len(),
                insert_by_dist(sorted@, c) == insert_by_dist(sorted@.take(k as int), c) + sorted@.skip(
                    k as int,
                ),
            decreases k,
        {
            proof {
                lemma_insert_step(sorted@, c, k as int);
            }
            k = k - 1;
        }
        proof {
            assert(collisions@.take(i + 1).drop_last() =~= collisions@.take(i as int));
            assert(collisions@.take(i + 1).last() == c);
            if k == 0 {
                assert(sorted@.take(0) =~= Seq::<CollisionDecider>::empty());
            } else {
                assert(sorted@.take(k as int).drop_last().push(sorted@[k - 1]) =~= sorted@.take(
                    k as int,
                ));
            }
            assert(insert_by_dist(sorted@.take(k as int), c) == sorted@.take(k as int).push(c));
            assert(sorted@.take(k as int).push(c) + sorted@.skip(k as int) =~= sorted@.insert(
                k as int,
                c,
            ));
        }
        sorted.insert(k, c);
    }
    assert(collisions@.take(n as int) =~= collisions@);
    sorted
}

} // verus!
