//! Towers: a repeating cooldown, and a shot at the nearest target each time
//! it completes.
use vstd::prelude::*;
use crate::geometry::{Point3, dist_sq, coord_in_world, coord_is_in_world};
use crate::bullet::{ActiveBullet, BULLET_SPEED, BULLET_LIFETIME_NS, new_bullet};
use crate::timer::{
    NANOS_PER_SEC, TimerModel, total, timer_view, fresh_timer, ticked, tick_fits, just_finished,
    new_timer, tick_timer, timer_just_finished,
};

verus! {

/// Whether `i` is the first among the points of `s` that lie nearest to `from`.
pub open spec fn is_first_nearest(from: Point3, s: Seq<Point3>, i: int) -> bool {
    &&& 0 <= i < s.len()
    &&& forall|j: int| 0 <= j < s.len() ==> dist_sq(from, s[i]) <= dist_sq(from, s[j])
    &&& forall|j: int| 0 <= j < i ==> dist_sq(from, s[j]) > dist_sq(from, s[i])
}

pub open spec fn all_in_world(s: Seq<Point3>) -> bool {
    forall|j: int| 0 <= j < s.len() ==> s[j].in_world()
}

/// The index of the target nearest to `from`, the first one on a tie, or
/// `None` when there is no target.
pub fn nearest_target(from: Point3, targets: &Vec<Point3>) -> (r: Option<usize>)
    requires
        from.in_world(),
        all_in_world(targets@),
    ensures
        r is None <==> targets@.len() == 0,
        r matches Some(i) ==> is_first_nearest(from, targets@, i as int),
{
    if targets.len() == 0 {
        return None;
    }
    let mut best: usize = 0;
    let mut best_d: u128 = from.distance_squared(targets[0]);
    let mut k: usize = 1;
    while k < targets.len()
        invariant
            from.in_world(),
            all_in_world(targets@),
            1 <= k <= targets@.len(),
            best < k,
            best_d as int == dist_sq(from, targets@[best as int]),
            forall|j: int| 0 <= j < k ==> dist_sq(from, targets@[best as int]) <= dist_sq(from, targets@[j]),
            forall|j: int| 0 <= j < best ==> dist_sq(from, targets@[j]) > dist_sq(from, targets@[best as int]),
        decreases targets@.len() - k,
    {
        let d = from.distance_squared(targets[k]);
        if d < best_d {
            best = k;
            best_d = d;
        }
        k = k + 1;
    }
    Some(best)
}


/// How long a tower waits between shots, in nanoseconds.
pub const TOWER_COOLDOWN_NS: u64 = NANOS_PER_SEC;

/// The offset that leads from `from` to `to`.
pub open spec fn offset_between(to: Point3, from: Point3) -> Point3 {
    Point3 { x: (to.x - from.x) as i64, y: (to.y - from.y) as i64, z: (to.z - from.z) as i64 }
}

/// The shooting state of a tower.
pub struct Tower {
    pub shooting_timer: bevy::time::Timer,
    /// Where bullets leave the tower, relative to its position.
    pub bullet_offset: Point3,
}

impl Tower {
    pub open spec fn timer(&self) -> TimerModel {
        timer_view(self.shooting_timer)
    }

    /// A tower with a fresh repeating cooldown, firing from its own position.
    pub fn default() -> (r: Tower)
        ensures
            r.timer() == fresh_timer(TOWER_COOLDOWN_NS as nat, true),
            r.bullet_offset == (Point3 { x: 0, y: 0, z: 0 }),
    {
        Tower {
            shooting_timer: new_timer(TOWER_COOLDOWN_NS, bevy::time::TimerMode::Repeating),
            bullet_offset: Point3::zero(),
        }
    }
}

/// A tower standing in the world.
pub struct PlacedTower {
    pub position: Point3,
    pub tower: Tower,
}

/// A bullet that a tower fired, with the index of that tower.
pub struct Shot {
    pub tower: usize,
    pub bullet: ActiveBullet,
}

impl PlacedTower {
    /// Where this tower's bullets appear.
    pub open spec fn muzzle_spec(&self) -> Point3 {
        Point3 {
            x: (self.position.x + self.tower.bullet_offset.x) as i64,
            y: (self.position.y + self.tower.bullet_offset.y) as i64,
            z: (self.position.z + self.tower.bullet_offset.z) as i64,
        }
    }

    /// The tower and its muzzle lie in the world.
    pub open spec fn placed_in_world(&self) -> bool {
        &&& self.position.in_world()
        &&& self.tower.bullet_offset.in_world()
        &&& coord_in_world(self.position.x + self.tower.bullet_offset.x)
        &&& coord_in_world(self.position.y + self.tower.bullet_offset.y)
        &&& coord_in_world(self.position.z + self.tower.bullet_offset.z)
    }

    /// The tower lies in the world, its muzzle too, and its cooldown can
    /// take a tick of `delta` nanoseconds.
    pub open spec fn can_tick(&self, delta: nat) -> bool {
        self.placed_in_world() && tick_fits(self.tower.timer(), delta)
    }

    /// What a bullet fired by this tower at `targets` looks like, after the
    /// cooldown ticked: it leaves the muzzle at bullet speed with a fresh
    /// lifetime, aimed at the first of the nearest targets.
    pub open spec fn fired_at_nearest(&self, targets: Seq<Point3>, b: ActiveBullet) -> bool {
        &&& b.position == self.muzzle_spec()
        &&& b.bullet.speed == BULLET_SPEED
        &&& b.timer() == fresh_timer(BULLET_LIFETIME_NS as nat, false)
        &&& exists|i: int|
            is_first_nearest(self.muzzle_spec(), targets, i) && b.bullet.direction
                == offset_between(#[trigger] targets[i], self.muzzle_spec())
    }

    /// The tower after a tick: same place and muzzle, cooldown ticked.
    pub open spec fn after_tick(&self, next: PlacedTower, delta: nat) -> bool {
        &&& next.position == self.position
        &&& next.tower.bullet_offset == self.tower.bullet_offset
        &&& next.tower.timer() == ticked(self.tower.timer(), delta)
    }

    /// Whether this tower fires on a tick of `delta` nanoseconds: its cooldown
    /// completes a cycle and some target exists.
    pub open spec fn fires(&self, targets: Seq<Point3>, delta: nat) -> bool {
        just_finished(ticked(self.tower.timer(), delta)) && targets.len() > 0
    }

    pub fn new(position: Point3) -> (r: PlacedTower)
        ensures
            r.position == position,
            r.tower.timer() == fresh_timer(TOWER_COOLDOWN_NS as nat, true),
            r.tower.bullet_offset == (Point3 { x: 0, y: 0, z: 0 }),
    {
        PlacedTower { position, tower: Tower::default() }
    }

    /// Whether the tower and its muzzle lie in the world.
    pub fn is_placed_in_world(&self) -> (r: bool)
        ensures
            r == self.placed_in_world(),
    {
        let p = self.position;
        let o = self.tower.bullet_offset;
        p.is_in_world() && o.is_in_world() && coord_is_in_world(p.x as i128 + o.x as i128)
            && coord_is_in_world(p.y as i128 + o.y as i128) && coord_is_in_world(p.z as i128 + o.z as i128)
    }

    pub fn muzzle(&self) -> (r: Point3)
        requires
            self.placed_in_world(),
        ensures
            r == self.muzzle_spec(),
            r.in_world(),
    {
        self.position.translated(self.tower.bullet_offset)
    }

    /// Advances the cooldown by `delta_ns`; when that completes a cycle and
    /// a target exists, fires one bullet at the nearest target.
    pub fn fire(&mut self, targets: &Vec<Point3>, delta_ns: u64) -> (r: Option<ActiveBullet>)
        requires
            old(self).can_tick(delta_ns as nat),
            all_in_world(targets@),
        ensures
            old(self).after_tick(*final(self), delta_ns as nat),
            r is Some <==> old(self).fires(targets@, delta_ns as nat),
            r matches Some(b) ==> old(self).fired_at_nearest(targets@, b),
    {
        tick_timer(&mut self.tower.shooting_timer, delta_ns);
        if !timer_just_finished(&self.tower.shooting_timer) {
            return None;
        }
        let muzzle = self.muzzle();
        match nearest_target(muzzle, targets) {
            None => None,
            Some(i) => {
                let direction = targets[i].offset_from(muzzle);
                let b = new_bullet(muzzle, direction);
                assert(b.bullet.direction == offset_between(targets@[i as int], muzzle));
                Some(b)
            },
        }
    }
}

/// Every tower can take a tick of `delta` nanoseconds.
pub open spec fn all_can_tick(towers: Seq<PlacedTower>, delta: nat) -> bool {
    forall|j: int| 0 <= j < towers.len() ==> #[trigger] towers[j].can_tick(delta)
}

/// Ticks every tower's cooldown by `delta_ns` and collects the bullets fired:
/// one from each tower whose cooldown completed a cycle, none when there is
/// no target, in the order of the towers.
pub fn tower_shooting(towers: &mut Vec<PlacedTower>, targets: &Vec<Point3>, delta_ns: u64) -> (r: Vec<Shot>)
    requires
        all_can_tick(old(towers)@, delta_ns as nat),
        all_in_world(targets@),
    ensures
        final(towers)@.len() == old(towers)@.len(),
        forall|j: int| 0 <= j < old(towers)@.len() ==> #[trigger] old(towers)@[j].after_tick(final(towers)@[j], delta_ns as nat),
        forall|k: int| 0 <= k < r@.len() ==> (#[trigger] r@[k]).tower < old(towers)@.len()
            && old(towers)@[r@[k].tower as int].fired_at_nearest(targets@, r@[k].bullet),
        forall|k: int, l: int| 0 <= k < l < r@.len() ==> r@[k].tower < r@[l].tower,
        forall|k: int| 0 <= k < r@.len() ==> #[trigger] final(towers)@[r@[k].tower as int].tower.timer().times_finished >= 1,
        forall|j: int| 0 <= j < old(towers)@.len() ==>
            (#[trigger] old(towers)@[j].fires(targets@, delta_ns as nat) <==> exists|k: int| 0 <= k < r@.len() && r@[k].tower == j),
{
    let ghost before = towers@;
    let mut shots: Vec<Shot> = Vec::new();
    let mut i: usize = 0;
    while i < towers.len()
        invariant
            towers@.len() == before.len(),
            0 <= i <= before.len(),
            all_in_world(targets@),
            forall|j: int| i <= j < before.len() ==> towers@[j] == before[j],
            all_can_tick(before, delta_ns as nat),
            forall|j: int| 0 <= j < i ==> #[trigger] before[j].after_tick(towers@[j], delta_ns as nat),
            forall|k: int| 0 <= k < shots@.len() ==> (#[trigger] shots@[k]).tower < i
                && before[shots@[k].tower as int].fired_at_nearest(targets@, shots@[k].bullet),
            forall|k: int, l: int| 0 <= k < l < shots@.len() ==> shots@[k].tower < shots@[l].tower,
            forall|j: int| 0 <= j < i ==>
                (#[trigger] before[j].fires(targets@, delta_ns as nat) <==> exists|k: int| 0 <= k < shots@.len() && shots@[k].tower == j),
        decreases before.len() - i,
    {
        assert(before[i as int].can_tick(delta_ns as nat));
        let ghost earlier = shots@;
        let fired = towers[i].fire(targets, delta_ns);
        match fired {
            Some(b) => {
                shots.push(Shot { tower: i, bullet: b });
                assert(shots@[shots@.len() - 1].tower == i);
            },
            None => {},
        }
        proof {
            assert forall|j: int| 0 <= j <= i implies (#[trigger] before[j].fires(targets@, delta_ns as nat)
                <==> exists|k: int| 0 <= k < shots@.len() && shots@[k].tower == j) by {
                if j < i {
                    if before[j].fires(targets@, delta_ns as nat) {
                        let k = choose|k: int| 0 <= k < earlier.len() && earlier[k].tower == j;
                        assert(shots@[k] == earlier[k]);
                    }
                    if exists|k: int| 0 <= k < shots@.len() && shots@[k].tower == j {
                        let k = choose|k: int| 0 <= k < shots@.len() && shots@[k].tower == j;
                        assert(k < earlier.len());
                        assert(earlier[k].tower == j);
                    }
                } else {
                    if before[j].fires(targets@, delta_ns as nat) {
                        assert(shots@[shots@.len() - 1].tower == j);
                    }
                    if exists|k: int| 0 <= k < shots@.len() && shots@[k].tower == j {
                        let k = choose|k: int| 0 <= k < shots@.len() && shots@[k].tower == j;
                        assert(k == earlier.len());
                    }
                }
            }
        }
        i = i + 1;
    }
    proof {
        assert forall|k: int| 0 <= k < shots@.len() implies #[trigger] towers@[shots@[k].tower as int].tower.timer().times_finished >= 1 by {
            let j = shots@[k].tower as int;
            assert(before[j].after_tick(towers@[j], delta_ns as nat));
            assert(before[j].fires(targets@, delta_ns as nat));
        }
    }
    shots
}


/// How many of the first `k` entries of `s` hold.
pub open spec fn count_true(s: Seq<bool>, k: int) -> nat
    decreases k,
{
    if k <= 0 {
        0
    } else {
        count_true(s, k - 1) + if s[k - 1] {
            1nat
        } else {
            0nat
        }
    }
}

/// Over the first `k` ticks of a run, the cooldown stays a running repeating
/// timer of the same length, and each shot is paid for by a whole cycle of
/// the time ticked.
proof fn cycles_pay_for_shots(
    states: Seq<PlacedTower>,
    targets: Seq<Seq<Point3>>,
    deltas: Seq<nat>,
    fired: Seq<bool>,
    k: int,
)
    requires
        states.len() == deltas.len() + 1,
        targets.len() == deltas.len(),
        fired.len() == deltas.len(),
        states[0].tower.timer().repeating,
        !states[0].tower.timer().paused,
        states[0].tower.timer().duration > 0,
        forall|j: int| 0 <= j < deltas.len() ==> #[trigger] states[j].after_tick(states[j + 1], deltas[j]),
        forall|j: int| 0 <= j < deltas.len() && #[trigger] fired[j] ==> states[j].fires(targets[j], deltas[j]),
        0 <= k <= deltas.len(),
    ensures
        states[k].tower.timer().repeating,
        !states[k].tower.timer().paused,
        states[k].tower.timer().duration == states[0].tower.timer().duration,
        states[0].tower.timer().duration * count_true(fired, k) + states[k].tower.timer().elapsed
            <= states[0].tower.timer().elapsed + total(deltas, k),
    decreases k,
{
    if k > 0 {
        cycles_pay_for_shots(states, targets, deltas, fired, k - 1);
        let j = k - 1;
        assert(states[j].after_tick(states[j + 1], deltas[j]));
        let m = states[j].tower.timer();
        let d = deltas[j];
        let big_d = m.duration;
        let c = count_true(fired, j);
        let e0 = states[0].tower.timer().elapsed;
        let t = total(deltas, j);
        if fired[j] {
            assert(states[j].fires(targets[j], deltas[j]));
        }
        assert(total(deltas, k) == t + d);
        assert(count_true(fired, k) <= c + 1);
        assert(states[k].tower.timer() == ticked(m, d));
        if m.elapsed + d >= big_d {
            let q = (m.elapsed + d) / big_d;
            let r = (m.elapsed + d) % big_d;
            assert(big_d * q + r == m.elapsed + d && q >= 1 && r >= 0) by (nonlinear_arith)
                requires
                    big_d > 0,
                    m.elapsed + d >= big_d,
                    q == (m.elapsed + d) / big_d,
                    r == (m.elapsed + d) % big_d,
            ;
            assert(big_d * count_true(fired, k) + r <= e0 + t + d) by (nonlinear_arith)
                requires
                    big_d * c + m.elapsed <= e0 + t,
                    big_d * q + r == m.elapsed + d,
                    q >= 1,
                    count_true(fired, k) <= c + 1,
                    big_d > 0,
            ;
            assert(states[k].tower.timer().elapsed == r);
        } else {
            assert(!fired[j]);
            assert(count_true(fired, k) == c);
            assert(states[k].tower.timer().elapsed == m.elapsed + d);
            assert(big_d * count_true(fired, k) + m.elapsed + d <= e0 + t + d) by (nonlinear_arith)
                requires
                    big_d * c + m.elapsed <= e0 + t,
                    count_true(fired, k) == c,
            ;
        }
    } else {
        let big_d = states[0].tower.timer().duration;
        assert(count_true(fired, 0) == 0);
        assert(big_d * count_true(fired, 0) == 0) by (nonlinear_arith)
            requires
                count_true(fired, 0) == 0,
        ;
    }
}

/// A tower fires at most once per completed cooldown cycle. Take a tower
/// through a run of ticks of `deltas[k]` nanoseconds, `states[k]` before
/// tick `k`, with `fired[k]` telling whether it fired on that tick; on a tick
/// where it fired, its cooldown completed a cycle and there was a target,
/// `targets[k]`. Then, for a running repeating cooldown of length `D`, it fired
/// on no more ticks than `(elapsed at the start + time ticked) / D`, however
/// many cycles a single tick completed.
pub proof fn fires_at_most_once_per_cycle(
    states: Seq<PlacedTower>,
    targets: Seq<Seq<Point3>>,
    deltas: Seq<nat>,
    fired: Seq<bool>,
)
    requires
        states.len() == deltas.len() + 1,
        targets.len() == deltas.len(),
        fired.len() == deltas.len(),
        states[0].tower.timer().repeating,
        !states[0].tower.timer().paused,
        states[0].tower.timer().duration > 0,
        forall|j: int| 0 <= j < deltas.len() ==> #[trigger] states[j].after_tick(states[j + 1], deltas[j]),
        forall|j: int| 0 <= j < deltas.len() && #[trigger] fired[j] ==> states[j].fires(targets[j], deltas[j]),
    ensures
        count_true(fired, deltas.len() as int) <= (states[0].tower.timer().elapsed + total(
            deltas,
            deltas.len() as int,
        )) / states[0].tower.timer().duration,
{
    let n = deltas.len() as int;
    cycles_pay_for_shots(states, targets, deltas, fired, n);
    let big_d = states[0].tower.timer().duration;
    let x = states[0].tower.timer().elapsed + total(deltas, n);
    let c = count_true(fired, n);
    assert(c <= x / big_d) by (nonlinear_arith)
        requires
            big_d * c <= x,
            big_d > 0,
            x >= 0,
    ;
}

/// A placeholder where a tower may be built, and whether it is selected.
#[derive(Clone, Copy, Debug, PartialEq, Eq, Structural)]
pub struct Marker {
    pub position: Point3,
    pub selected: bool,
}

/// The marker a new game starts with.
pub fn base_tower_marker() -> (r: Marker)
    ensures
        r.position == (Point3 { x: 0, y: 100_000, z: 0 }),
        !r.selected,
{
    Marker { position: Point3::new(0, 100_000, 0), selected: false }
}

/// A tower to build in place of the marker of index `marker`.
pub struct Placement {
    pub marker: usize,
    pub tower: PlacedTower,
}

/// One fresh tower for each selected marker, at its position, in the order of
/// the markers; each selected marker gives way to its tower.
pub fn build_tower(markers: &Vec<Marker>) -> (r: Vec<Placement>)
    ensures
        forall|k: int| 0 <= k < r@.len() ==> {
            let p = #[trigger] r@[k];
            &&& p.marker < markers@.len()
            &&& markers@[p.marker as int].selected
            &&& p.tower.position == markers@[p.marker as int].position
            &&& p.tower.tower.timer() == fresh_timer(TOWER_COOLDOWN_NS as nat, true)
            &&& p.tower.tower.bullet_offset == (Point3 { x: 0, y: 0, z: 0 })
        },
        forall|k: int, l: int| 0 <= k < l < r@.len() ==> r@[k].marker < r@[l].marker,
        forall|j: int| 0 <= j < markers@.len() && (#[trigger] markers@[j]).selected
            ==> exists|k: int| 0 <= k < r@.len() && r@[k].marker == j,
{
    let mut r: Vec<Placement> = Vec::new();
    let mut i: usize = 0;
    while i < markers.len()
        invariant
            0 <= i <= markers@.len(),
            forall|k: int| 0 <= k < r@.len() ==> {
                let p = #[trigger] r@[k];
                &&& p.marker < i
                &&& markers@[p.marker as int].selected
                &&& p.tower.position == markers@[p.marker as int].position
                &&& p.tower.tower.timer() == fresh_timer(TOWER_COOLDOWN_NS as nat, true)
                &&& p.tower.tower.bullet_offset == (Point3 { x: 0, y: 0, z: 0 })
            },
            forall|k: int, l: int| 0 <= k < l < r@.len() ==> r@[k].marker < r@[l].marker,
            forall|j: int| 0 <= j < i && (#[trigger] markers@[j]).selected
                ==> exists|k: int| 0 <= k < r@.len() && r@[k].marker == j,
        decreases markers@.len() - i,
    {
        let ghost earlier = r@;
        if markers[i].selected {
            r.push(Placement { marker: i, tower: PlacedTower::new(markers[i].position) });
            proof {
                assert forall|j: int| 0 <= j <= i && (#[trigger] markers@[j]).selected
                    implies exists|k: int| 0 <= k < r@.len() && r@[k].marker == j by {
                    if j < i {
                        let k = choose|k: int| 0 <= k < earlier.len() && earlier[k].marker == j;
                        assert(r@[k] == earlier[k]);
                    } else {
                        assert(r@[r@.len() - 1].marker == j);
                    }
                }
            }
        }
        i = i + 1;
    }
    r
}

} // verus!
