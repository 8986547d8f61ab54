//! Bullets: fixed direction and speed, and a one-shot lifetime timer.
use vstd::prelude::*;
use crate::geometry::{Point3, div_trunc, scaled_trunc, coord_in_world, coord_is_in_world};
use crate::timer::{
    NANOS_PER_SEC, TimerModel, total, timer_view, fresh_timer, ticked, tick_fits, just_finished,
    new_timer, tick_timer, timer_just_finished,
};

verus! {

/// A bullet's speed as it leaves a tower, in thousandths per second.
pub const BULLET_SPEED: u64 = 2500;

/// How long a bullet lives, in nanoseconds.
pub const BULLET_LIFETIME_NS: u64 = 5 * NANOS_PER_SEC;

/// What divides direction times speed times nanoseconds into length units:
/// a thousand for the speed's thousandths, a billion for the nanoseconds.
pub const BULLET_STEP_SCALE: u64 = 1_000_000_000_000;

/// Motion of a bullet. The direction is the raw offset to the target when the
/// bullet was fired, not a unit vector, so its length scales the speed.
#[derive(Clone, Copy, Debug, PartialEq, Eq, Structural)]
pub struct Bullet {
    pub direction: Point3,
    /// Thousandths per second.
    pub speed: u64,
}

/// How long a bullet has left.
pub struct Lifetime {
    pub timer: bevy::time::Timer,
}

/// A bullet in flight.
pub struct ActiveBullet {
    pub position: Point3,
    pub bullet: Bullet,
    pub lifetime: Lifetime,
}

impl ActiveBullet {
    pub open spec fn timer(&self) -> TimerModel {
        timer_view(self.lifetime.timer)
    }
}

/// A bullet fired from `muzzle` along `direction`: the bullet speed and a
/// one-shot timer of the bullet lifetime.
pub fn new_bullet(muzzle: Point3, direction: Point3) -> (r: ActiveBullet)
    ensures
        r.position == muzzle,
        r.bullet.direction == direction,
        r.bullet.speed == BULLET_SPEED,
        r.timer() == fresh_timer(BULLET_LIFETIME_NS as nat, false),
{
    ActiveBullet {
        position: muzzle,
        bullet: Bullet { direction, speed: BULLET_SPEED },
        lifetime: Lifetime { timer: new_timer(BULLET_LIFETIME_NS, bevy::time::TimerMode::Once) },
    }
}


/// How far a bullet moves along one axis in `delta` nanoseconds, for a
/// direction component `d`.
pub open spec fn bullet_step(d: i64, speed: u64, delta: nat) -> int {
    div_trunc(d * speed * delta, BULLET_STEP_SCALE as int)
}

pub open spec fn fits_i128(v: int) -> bool {
    -0x7fff_ffff_ffff_ffff_ffff_ffff_ffff_ffff <= v <= 0x7fff_ffff_ffff_ffff_ffff_ffff_ffff_ffff
}

/// A bullet with motion `m` at `p` lies in the world and stays there after
/// flying for `delta` nanoseconds, and the products of its motion fit in
/// 128 bits.
pub open spec fn can_fly_from(p: Point3, m: Bullet, delta: nat) -> bool {
    let d = m.direction;
    let s = m.speed;
    &&& p.in_world()
    &&& fits_i128(d.x * s * delta) && fits_i128(d.y * s * delta) && fits_i128(d.z * s * delta)
    &&& coord_in_world(p.x + bullet_step(d.x, s, delta))
    &&& coord_in_world(p.y + bullet_step(d.y, s, delta))
    &&& coord_in_world(p.z + bullet_step(d.z, s, delta))
}

/// Where a bullet with motion `m` at `p` is after flying for `delta`
/// nanoseconds.
pub open spec fn flown_from(p: Point3, m: Bullet, delta: nat) -> Point3 {
    let d = m.direction;
    let s = m.speed;
    Point3 {
        x: (p.x + bullet_step(d.x, s, delta)) as i64,
        y: (p.y + bullet_step(d.y, s, delta)) as i64,
        z: (p.z + bullet_step(d.z, s, delta)) as i64,
    }
}

pub open spec fn can_fly(b: ActiveBullet, delta: nat) -> bool {
    can_fly_from(b.position, b.bullet, delta)
}

pub open spec fn flown(b: ActiveBullet, delta: nat) -> Point3 {
    flown_from(b.position, b.bullet, delta)
}

/// Whether a bullet coordinate `p` lies in the world and stays there after
/// flying for `delta_ns` nanoseconds along direction component `d`.
fn coord_can_fly(p: i64, d: i64, speed: u64, delta_ns: u64) -> (r: bool)
    ensures
        r == (coord_in_world(p as int) && fits_i128(d * speed * delta_ns) && coord_in_world(
            p + bullet_step(d, speed, delta_ns as nat),
        )),
{
    if !coord_is_in_world(p as i128) {
        return false;
    }
    assert(fits_i128(d * speed)) by (nonlinear_arith)
        requires
            -0x8000_0000_0000_0000 <= d <= 0x7fff_ffff_ffff_ffff,
            0 <= speed <= 0xffff_ffff_ffff_ffff,
    ;
    let ds: i128 = d as i128 * speed as i128;
    match ds.checked_mul(delta_ns as i128) {
        None => false,
        Some(prod) => {
            if prod == i128::MIN {
                return false;
            }
            let step = scaled_trunc(ds, delta_ns, BULLET_STEP_SCALE);
            assert(-0x1_0000_0000_0000_0000_0000_0000_0000 <= step <= 0x1_0000_0000_0000_0000_0000_0000_0000)
                by (nonlinear_arith)
                requires
                    prod == ds * delta_ns,
                    prod >= 0 ==> 0 <= step && step * 1_000_000_000_000 <= prod,
                    prod < 0 ==> step <= 0 && -step * 1_000_000_000_000 <= -prod,
                    fits_i128(prod as int),
            ;
            coord_is_in_world(p as i128 + step)
        },
    }
}

/// Whether a bullet with motion `m` at `p` lies in the world and stays
/// there after flying for `delta_ns` nanoseconds.
pub fn bullet_can_fly(p: Point3, m: &Bullet, delta_ns: u64) -> (r: bool)
    ensures
        r == can_fly_from(p, *m, delta_ns as nat),
{
    let d = m.direction;
    let s = m.speed;
    coord_can_fly(p.x, d.x, s, delta_ns) && coord_can_fly(p.y, d.y, s, delta_ns) && coord_can_fly(p.z, d.z, s, delta_ns)
}

/// One coordinate of a bullet after flying for `delta_ns` nanoseconds.
fn flown_coord(p: i64, d: i64, speed: u64, delta_ns: u64) -> (r: i64)
    requires
        coord_in_world(p as int),
        fits_i128(d * speed * delta_ns),
        coord_in_world(p + bullet_step(d, speed, delta_ns as nat)),
    ensures
        r == p + bullet_step(d, speed, delta_ns as nat),
{
    assert(fits_i128(d * speed)) by (nonlinear_arith)
        requires
            -0x8000_0000_0000_0000 <= d <= 0x7fff_ffff_ffff_ffff,
            0 <= speed <= 0xffff_ffff_ffff_ffff,
    ;
    let step = scaled_trunc(d as i128 * speed as i128, delta_ns, BULLET_STEP_SCALE);
    (p as i128 + step) as i64
}

/// Where a bullet with motion `m` at `p` is after flying for `delta_ns`
/// nanoseconds along its direction.
pub fn fly(p: Point3, m: &Bullet, delta_ns: u64) -> (r: Point3)
    requires
        can_fly_from(p, *m, delta_ns as nat),
    ensures
        r == flown_from(p, *m, delta_ns as nat),
        r.in_world(),
{
    let d = m.direction;
    let s = m.speed;
    Point3 {
        x: flown_coord(p.x, d.x, s, delta_ns),
        y: flown_coord(p.y, d.y, s, delta_ns),
        z: flown_coord(p.z, d.z, s, delta_ns),
    }
}

/// Moves every bullet along its direction for `delta_ns` nanoseconds.
pub fn move_bullets(bullets: &mut Vec<ActiveBullet>, delta_ns: u64)
    requires
        forall|j: int| 0 <= j < old(bullets)@.len() ==> can_fly(#[trigger] old(bullets)@[j], delta_ns as nat),
    ensures
        final(bullets)@.len() == old(bullets)@.len(),
        forall|j: int| 0 <= j < old(bullets)@.len() ==> (#[trigger] final(bullets)@[j]) == (ActiveBullet {
            position: flown(old(bullets)@[j], delta_ns as nat),
            ..old(bullets)@[j]
        }),
{
    let ghost before = bullets@;
    let mut i: usize = 0;
    while i < bullets.len()
        invariant
            bullets@.len() == before.len(),
            0 <= i <= before.len(),
            forall|j: int| 0 <= j < before.len() ==> can_fly(#[trigger] before[j], delta_ns as nat),
            forall|j: int| 0 <= j < i ==> (#[trigger] bullets@[j]) == (ActiveBullet {
                position: flown(before[j], delta_ns as nat),
                ..before[j]
            }),
            forall|j: int| i <= j < before.len() ==> bullets@[j] == before[j],
        decreases before.len() - i,
    {
        assert(can_fly(before[i as int], delta_ns as nat));
        let next = fly(bullets[i].position, &bullets[i].bullet, delta_ns);
        bullets[i].position = next;
        i = i + 1;
    }
}

/// Whether the bullet's lifetime runs out on a tick of `delta` nanoseconds.
pub open spec fn expires(b: ActiveBullet, delta: nat) -> bool {
    just_finished(ticked(b.timer(), delta))
}

/// `next` is `b` a tick of `delta` nanoseconds older: same place and motion,
/// lifetime ticked.
pub open spec fn aged(b: ActiveBullet, next: ActiveBullet, delta: nat) -> bool {
    next.position == b.position && next.bullet == b.bullet && next.timer() == ticked(b.timer(), delta)
}

/// `after` holds, in order, the bullets of `before` whose lifetime does not
/// run out on a tick of `delta` nanoseconds, each aged by that tick.
pub open spec fn survivors(before: Seq<ActiveBullet>, after: Seq<ActiveBullet>, delta: nat) -> bool
    decreases before.len(),
{
    if before.len() == 0 {
        after.len() == 0
    } else if expires(before.last(), delta) {
        survivors(before.drop_last(), after, delta)
    } else {
        after.len() > 0 && aged(before.last(), after.last(), delta) && survivors(
            before.drop_last(),
            after.drop_last(),
            delta,
        )
    }
}

/// Ticks a lifetime by `delta_ns`; tells whether it ran out on this tick.
pub fn age_lifetime(l: &mut Lifetime, delta_ns: u64) -> (gone: bool)
    requires
        tick_fits(timer_view(old(l).timer), delta_ns as nat),
    ensures
        timer_view(final(l).timer) == ticked(timer_view(old(l).timer), delta_ns as nat),
        gone == just_finished(ticked(timer_view(old(l).timer), delta_ns as nat)),
{
    tick_timer(&mut l.timer, delta_ns);
    timer_just_finished(&l.timer)
}

/// Ticks every bullet's lifetime by `delta_ns` and removes the bullets whose
/// lifetime ran out, wherever they are.
pub fn bullet_despawn(bullets: &mut Vec<ActiveBullet>, delta_ns: u64)
    requires
        forall|j: int| 0 <= j < old(bullets)@.len() ==> tick_fits((#[trigger] old(bullets)@[j]).timer(), delta_ns as nat),
    ensures
        survivors(old(bullets)@, final(bullets)@, delta_ns as nat),
{
    let ghost before = bullets@;
    let mut rest: Vec<ActiveBullet> = Vec::new();
    std::mem::swap(bullets, &mut rest);
    let total: usize = rest.len();
    let mut i: usize = 0;
    while rest.len() > 0
        invariant
            0 <= i <= before.len(),
            rest@ == before.subrange(i as int, before.len() as int),
            rest@.len() == before.len() - i,
            before.len() == total,
            forall|j: int| 0 <= j < before.len() ==> tick_fits((#[trigger] before[j]).timer(), delta_ns as nat),
            survivors(before.subrange(0, i as int), bullets@, delta_ns as nat),
        decreases rest@.len(),
    {
        let mut b = rest.remove(0);
        assert(b == before[i as int]);
        let gone = age_lifetime(&mut b.lifetime, delta_ns);
        let ghost upto = before.subrange(0, i + 1);
        assert(upto.drop_last() =~= before.subrange(0, i as int));
        let ghost kept = bullets@;
        if !gone {
            bullets.push(b);
            assert(bullets@.drop_last() =~= kept);
        }
        i = i + 1;
        assert(rest@ =~= before.subrange(i as int, before.len() as int));
    }
    assert(before.subrange(0, i as int) =~= before);
}

/// A bullet's lifetime runs out on the tick that brings its one-shot timer to
/// the configured duration, and on no other; where the bullet is plays no part.
pub proof fn lifetime_ends_at_duration(b: ActiveBullet, delta: nat)
    requires
        !b.timer().repeating,
        !b.timer().paused,
        !b.timer().finished,
    ensures
        expires(b, delta) <==> b.timer().elapsed + delta >= b.timer().duration,
        forall|p: Point3| #[trigger] expires(ActiveBullet { position: p, ..b }, delta) == expires(b, delta),
{
}

/// Over the first `k` ticks of a run, the lifetime stays a running one-shot
/// timer of the bullet lifetime; it has not finished while the time ticked is
/// below that length, and has finished once it is not; the bullet has not
/// expired on any of those ticks exactly while the time ticked is below it.
proof fn lifetime_follows_time_ticked(states: Seq<ActiveBullet>, deltas: Seq<nat>, k: int)
    requires
        states.len() == deltas.len() + 1,
        states[0].timer() == fresh_timer(BULLET_LIFETIME_NS as nat, false),
        forall|j: int| 0 <= j < deltas.len() ==> #[trigger] states[j + 1].timer() == ticked(states[j].timer(), deltas[j]),
        0 <= k <= deltas.len(),
    ensures
        states[k].timer().duration == BULLET_LIFETIME_NS,
        !states[k].timer().repeating,
        !states[k].timer().paused,
        total(deltas, k) < BULLET_LIFETIME_NS ==> !states[k].timer().finished && states[k].timer().elapsed
            == total(deltas, k),
        total(deltas, k) >= BULLET_LIFETIME_NS ==> states[k].timer().finished,
        (forall|i: int| 0 <= i < k ==> !#[trigger] expires(states[i], deltas[i])) <==> total(deltas, k)
            < BULLET_LIFETIME_NS,
    decreases k,
{
    if k > 0 {
        let j = k - 1;
        lifetime_follows_time_ticked(states, deltas, j);
        assert(states[j + 1].timer() == ticked(states[j].timer(), deltas[j]));
        assert(total(deltas, k) == total(deltas, j) + deltas[j]);
        if forall|i: int| 0 <= i < k ==> !#[trigger] expires(states[i], deltas[i]) {
            assert(forall|i: int| 0 <= i < j ==> !#[trigger] expires(states[i], deltas[i]));
            assert(!expires(states[j], deltas[j]));
        }
        if total(deltas, k) < BULLET_LIFETIME_NS {
            assert forall|i: int| 0 <= i < k implies !#[trigger] expires(states[i], deltas[i]) by {
                if i < j {
                } else {
                    assert(!expires(states[j], deltas[j]));
                }
            }
        }
    }
}

/// A bullet is removed exactly when its lifetime reaches its length. Take a
/// bullet as fired, `states[0]`, through a run of ticks of `deltas[k]`
/// nanoseconds, `states[k]` before tick `k`, wherever it is at each tick.
/// Its lifetime runs out on the tick that brings the time ticked since it was
/// fired to the bullet lifetime or past it, and on no other; it is still there
/// after `j` ticks exactly when the time of those ticks is below that length.
pub proof fn expires_when_lifetime_is_reached(states: Seq<ActiveBullet>, deltas: Seq<nat>)
    requires
        states.len() == deltas.len() + 1,
        states[0].timer() == fresh_timer(BULLET_LIFETIME_NS as nat, false),
        forall|j: int| 0 <= j < deltas.len() ==> #[trigger] states[j + 1].timer() == ticked(states[j].timer(), deltas[j]),
    ensures
        forall|j: int| 0 <= j < deltas.len() ==> (#[trigger] expires(states[j], deltas[j]) <==> total(deltas, j)
            < BULLET_LIFETIME_NS <= total(deltas, j + 1)),
        forall|j: int| 0 <= j <= deltas.len() ==> ((forall|i: int| 0 <= i < j ==> !#[trigger] expires(states[i], deltas[i]))
            <==> #[trigger] total(deltas, j) < BULLET_LIFETIME_NS),
{
    assert forall|j: int| 0 <= j < deltas.len() implies (#[trigger] expires(states[j], deltas[j]) <==> total(deltas, j)
        < BULLET_LIFETIME_NS <= total(deltas, j + 1)) by {
        lifetime_follows_time_ticked(states, deltas, j);
        assert(total(deltas, j + 1) == total(deltas, j) + deltas[j]);
    }
    assert forall|j: int| 0 <= j <= deltas.len() implies ((forall|i: int| 0 <= i < j ==> !#[trigger] expires(states[i], deltas[i]))
        <==> #[trigger] total(deltas, j) < BULLET_LIFETIME_NS) by {
        lifetime_follows_time_ticked(states, deltas, j);
    }
}

} // verus!
