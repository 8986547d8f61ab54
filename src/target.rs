//! Targets: they move along the x axis and leave once out of health.
use vstd::prelude::*;
use crate::geometry::{Point3, UNIT, div_trunc, scaled_trunc, coord_in_world, coord_is_in_world};
use crate::timer::NANOS_PER_SEC;

verus! {

/// The health a target starts with.
pub const START_HEALTH: i32 = 3;

/// How fast a target moves, in length units per second.
pub const TARGET_SPEED: i64 = 300_000;

/// Movement of a target along the x axis, in length units per second.
#[derive(Clone, Copy, Debug, PartialEq, Eq, Structural)]
pub struct Target {
    pub speed: i64,
}

#[derive(Clone, Copy, Debug, PartialEq, Eq, Structural)]
pub struct Health {
    pub value: i32,
}

/// A target in the world.
#[derive(Clone, Copy, Debug, PartialEq, Eq, Structural)]
pub struct ActiveTarget {
    pub position: Point3,
    pub target: Target,
    pub health: Health,
}

/// How far a target of speed `speed` moves in `delta` nanoseconds.
pub open spec fn target_step(speed: i64, delta: nat) -> int {
    div_trunc(speed * delta, NANOS_PER_SEC as int)
}

/// The target after moving for `delta` nanoseconds.
pub open spec fn moved(t: ActiveTarget, delta: nat) -> ActiveTarget {
    ActiveTarget {
        position: Point3 { x: (t.position.x + target_step(t.target.speed, delta)) as i64, ..t.position },
        ..t
    }
}

/// The target lies in the world and stays there after moving for `delta`
/// nanoseconds.
pub open spec fn can_move(t: ActiveTarget, delta: nat) -> bool {
    t.position.in_world() && coord_in_world(t.position.x + target_step(t.target.speed, delta))
}

pub open spec fn alive(t: ActiveTarget) -> bool {
    t.health.value > 0
}

/// The targets of `s` that are still alive, in order.
pub open spec fn survivors(s: Seq<ActiveTarget>) -> Seq<ActiveTarget> {
    s.filter(|t: ActiveTarget| alive(t))
}

/// Whether the target lies in the world and stays there after moving for
/// `delta_ns` nanoseconds.
pub fn target_can_move(t: &ActiveTarget, delta_ns: u64) -> (r: bool)
    ensures
        r == can_move(*t, delta_ns as nat),
{
    if !t.position.is_in_world() {
        return false;
    }
    let s = t.target.speed;
    assert(-0x7fff_ffff_ffff_ffff_ffff_ffff_ffff_ffff <= s * delta_ns <= 0x7fff_ffff_ffff_ffff_ffff_ffff_ffff_ffff)
        by (nonlinear_arith)
        requires
            -0x8000_0000_0000_0000 <= s <= 0x7fff_ffff_ffff_ffff,
            0 <= delta_ns <= 0xffff_ffff_ffff_ffff,
    ;
    let step = scaled_trunc(s as i128, delta_ns, NANOS_PER_SEC);
    assert(-0x1_0000_0000_0000_0000_0000_0000_0000 <= step <= 0x1_0000_0000_0000_0000_0000_0000_0000)
        by (nonlinear_arith)
        requires
            s * delta_ns >= 0 ==> 0 <= step && step * 1_000_000_000 <= s * delta_ns,
            s * delta_ns < 0 ==> step <= 0 && -step * 1_000_000_000 <= -(s * delta_ns),
            -0x7fff_ffff_ffff_ffff_ffff_ffff_ffff_ffff <= s * delta_ns <= 0x7fff_ffff_ffff_ffff_ffff_ffff_ffff_ffff,
    ;
    coord_is_in_world(t.position.x as i128 + step)
}

/// A fresh target at `position`, with the start health and target speed.
pub fn new_target(position: Point3) -> (r: ActiveTarget)
    ensures
        r.position == position,
        r.target.speed == TARGET_SPEED,
        r.health.value == START_HEALTH,
{
    ActiveTarget { position, target: Target { speed: TARGET_SPEED }, health: Health { value: START_HEALTH } }
}

/// Where a target appears when one is called in.
pub fn target_spawn_point() -> (r: Point3)
    ensures
        r.x == -5 * UNIT && r.y == UNIT && r.z == -2 * UNIT,
{
    Point3::new(-5 * UNIT, UNIT, -2 * UNIT)
}

/// The targets of a new scene.
pub fn initial_targets() -> (r: Vec<ActiveTarget>)
    ensures
        r@.len() == 2,
        r@[0].position.x == -2 * UNIT && r@[0].position.y == UNIT && r@[0].position.z == -2 * UNIT,
        r@[1].position.x == -5 * UNIT && r@[1].position.y == UNIT && r@[1].position.z == -2 * UNIT,
        forall|j: int| 0 <= j < 2 ==> (#[trigger] r@[j]).target.speed == TARGET_SPEED
            && r@[j].health.value == START_HEALTH,
{
    let mut r: Vec<ActiveTarget> = Vec::new();
    r.push(new_target(Point3::new(-2 * UNIT, UNIT, -2 * UNIT)));
    r.push(new_target(target_spawn_point()));
    r
}

/// The target moved for `delta_ns` nanoseconds along x at its speed.
pub fn move_target(t: ActiveTarget, delta_ns: u64) -> (r: ActiveTarget)
    requires
        can_move(t, delta_ns as nat),
    ensures
        r == moved(t, delta_ns as nat),
{
    let s = t.target.speed;
    assert(-0x7fff_ffff_ffff_ffff_ffff_ffff_ffff_ffff <= s * delta_ns <= 0x7fff_ffff_ffff_ffff_ffff_ffff_ffff_ffff)
        by (nonlinear_arith)
        requires
            -0x8000_0000_0000_0000 <= s <= 0x7fff_ffff_ffff_ffff,
            0 <= delta_ns <= 0xffff_ffff_ffff_ffff,
    ;
    let step = scaled_trunc(s as i128, delta_ns, NANOS_PER_SEC);
    let x = (t.position.x as i128 + step) as i64;
    ActiveTarget { position: Point3 { x, ..t.position }, ..t }
}

/// Moves every target for `delta_ns` nanoseconds.
pub fn move_targets(targets: &mut Vec<ActiveTarget>, delta_ns: u64)
    requires
        forall|j: int| 0 <= j < old(targets)@.len() ==> can_move(#[trigger] old(targets)@[j], delta_ns as nat),
    ensures
        final(targets)@ == old(targets)@.map_values(|t: ActiveTarget| moved(t, delta_ns as nat)),
{
    let ghost before = targets@;
    let mut i: usize = 0;
    while i < targets.len()
        invariant
            targets@.len() == before.len(),
            0 <= i <= before.len(),
            forall|j: int| 0 <= j < before.len() ==> can_move(#[trigger] before[j], delta_ns as nat),
            forall|j: int| 0 <= j < i ==> targets@[j] == moved(before[j], delta_ns as nat),
            forall|j: int| i <= j < before.len() ==> targets@[j] == before[j],
        decreases before.len() - i,
    {
        assert(can_move(before[i as int], delta_ns as nat));
        let t = move_target(targets[i], delta_ns);
        targets.set(i, t);
        i = i + 1;
    }
    assert(targets@ =~= before.map_values(|t: ActiveTarget| moved(t, delta_ns as nat)));
}

/// Whether the target still has health left.
pub fn target_alive(t: &ActiveTarget) -> (r: bool)
    ensures
        r == alive(*t),
{
    t.health.value > 0
}

/// Removes every target whose health is used up, keeping the others in order.
pub fn target_despawn(targets: &mut Vec<ActiveTarget>)
    ensures
        final(targets)@ == survivors(old(targets)@),
        forall|k: int| 0 <= k < final(targets)@.len() ==> #[trigger] final(targets)@[k].health.value > 0,
        forall|j: int| 0 <= j < old(targets)@.len() && old(targets)@[j].health.value > 0
            ==> final(targets)@.contains(#[trigger] old(targets)@[j]),
{
    let ghost before = targets@;
    let mut kept: Vec<ActiveTarget> = Vec::new();
    let mut i: usize = 0;
    while i < targets.len()
        invariant
            targets@ == before,
            0 <= i <= before.len(),
            kept@ == survivors(before.subrange(0, i as int)),
        decreases before.len() - i,
    {
        let t = targets[i];
        let ghost upto = before.subrange(0, i + 1);
        assert(upto.drop_last() =~= before.subrange(0, i as int));
        assert(upto.last() == t);
        proof {
            reveal(Seq::filter);
        }
        if target_alive(&t) {
            kept.push(t);
        }
        assert(kept@ == survivors(upto));
        i = i + 1;
    }
    assert(before.subrange(0, before.len() as int) =~= before);
    *targets = kept;
    proof {
        let f = |t: ActiveTarget| alive(t);
        assert(targets@ == before.filter(f));
        assert forall|k: int| 0 <= k < targets@.len() implies #[trigger] targets@[k].health.value > 0 by {
            before.lemma_filter_pred(f, k);
        }
        assert forall|j: int| 0 <= j < before.len() && before[j].health.value > 0
            implies targets@.contains(#[trigger] before[j]) by {
            before.lemma_filter_contains(f, j);
        }
    }
}

} // verus!
