//! Verlet-integrated point masses: state, gravity accumulation, the
//! integrator, and the per-object collision report lists.

use vstd::prelude::*;
use crate::num::{lemma_trunc_div_bound, trunc_div, SCALE};
use crate::num::{div_trunc_i128, div_trunc_i64, mul_wide};
use crate::vec2::Vec2;
use crate::topology::POS_LIMIT;

verus! {

/// Largest acceleration magnitude (fixed units) one gravity pass may add.
pub const GRAV_LIMIT: i64 = 500_000_000;

/// Largest accumulated acceleration magnitude the integrator accepts.
pub const ACC_LIMIT: i64 = 1_000_000_000;

/// A point mass under Verlet integration: current position, the position
/// one step ago (velocity is their difference, never stored), and the
/// acceleration accumulated since the last step.
#[derive(Clone, Copy, PartialEq, Eq, Structural, Debug)]
pub struct VerletObject {
    pub position: Vec2,
    pub position_old: Vec2,
    pub acceleration: Vec2,
}

/// Marks an object as subject to gravity.
#[derive(Clone, Copy, Debug)]
pub struct Gravitate();

/// One contact found this step: the curve it was against, the contact
/// point on the curve, and the outward surface normal (a fixed-point unit
/// vector).
#[derive(Clone, Copy, PartialEq, Eq, Structural, Debug)]
pub struct Collision {
    pub other: usize,
    pub point: Vec2,
    pub normal: Vec2,
}

/// Per-object collision reports: this step's list, rebuilt every step,
/// and the previous step's list kept as a snapshot.
#[derive(Debug)]
pub struct Collider {
    pub collisions: Vec<Collision>,
    pub collisions_old: Vec<Collision>,
}

impl Collider {
    /// A collider with no reports yet.
    pub fn new() -> (r: Collider)
        ensures
            r.collisions@.len() == 0,
            r.collisions_old@.len() == 0,
    {
        Collider { collisions: Vec::new(), collisions_old: Vec::new() }
    }

    /// Records a contact in both the current and the snapshot list.
    pub fn add_collision(&mut self, c: Collision)
        ensures
            final(self).collisions@ == old(self).collisions@.push(c),
            final(self).collisions_old@ == old(self).collisions_old@.push(c),
    {
        self.collisions.push(c);
        self.collisions_old.push(c);
    }
}

/// How one integration step transforms an object: the old position becomes
/// the current one, the position advances by the implied velocity plus
/// `acceleration * dt * dt`, and the acceleration resets to zero.
pub open spec fn integ_rel(o: VerletObject, o2: VerletObject, dt: int) -> bool {
    let dtsq = trunc_div(dt * dt, SCALE as int);
    &&& o2.position_old == o.position
    &&& o2.acceleration.x == 0 && o2.acceleration.y == 0
    &&& o2.position.x == o.position.x + (o.position.x - o.position_old.x) + trunc_div(
        o.acceleration.x * dtsq,
        SCALE as int,
    )
    &&& o2.position.y == o.position.y + (o.position.y - o.position_old.y) + trunc_div(
        o.acceleration.y * dtsq,
        SCALE as int,
    )
}

/// Advances one object by one Verlet step of length `dt` (a fixed-point
/// fraction of a second) and zeroes its accumulated acceleration.
pub fn integrate(obj: &mut VerletObject, dt: i64)
    requires
        old(obj).position.within(POS_LIMIT as int),
        old(obj).position_old.within(POS_LIMIT as int),
        old(obj).acceleration.within(ACC_LIMIT as int),
        0 <= dt <= SCALE,
    ensures
        integ_rel(*old(obj), *final(obj), dt as int),
        final(obj).position.within((POS_LIMIT as int) * 3 + ACC_LIMIT as int),
        final(obj).position_old.within(POS_LIMIT as int),
{
    proof {
        assert(0 <= (dt as int) * (dt as int) <= 1000000000000) by (nonlinear_arith)
            requires
                0 <= dt <= 1000000,
        ;
    }
    let dtsq: i64 = div_trunc_i64(dt * dt, SCALE);
    proof {
        lemma_trunc_div_bound((dt * dt) as int, SCALE as int, SCALE as int);
        let accx = old(obj).acceleration.x as int;
        let accy = old(obj).acceleration.y as int;
        assert(-(ACC_LIMIT as int) * (SCALE as int) <= accx * (dtsq as int) <= (ACC_LIMIT as int)
            * (SCALE as int)) by (nonlinear_arith)
            requires
                -1000000000 <= accx <= 1000000000,
                0 <= dtsq <= 1000000,
        ;
        assert(-(ACC_LIMIT as int) * (SCALE as int) <= accy * (dtsq as int) <= (ACC_LIMIT as int)
            * (SCALE as int)) by (nonlinear_arith)
            requires
                -1000000000 <= accy <= 1000000000,
                0 <= dtsq <= 1000000,
        ;
        lemma_trunc_div_bound(accx * dtsq as int, SCALE as int, ACC_LIMIT as int);
        lemma_trunc_div_bound(accy * dtsq as int, SCALE as int, ACC_LIMIT as int);
    }
    let ax: i64 = div_trunc_i128(mul_wide(obj.acceleration.x, dtsq), SCALE as i128) as i64;
    let ay: i64 = div_trunc_i128(mul_wide(obj.acceleration.y, dtsq), SCALE as i128) as i64;
    let velx: i64 = obj.position.x - obj.position_old.x;
    let vely: i64 = obj.position.y - obj.position_old.y;
    obj.position_old = obj.position;
    obj.position = Vec2 { x: obj.position.x + velx + ax, y: obj.position.y + vely + ay };
    obj.acceleration = Vec2 { x: 0, y: 0 };
}

/// Adds `gravity` to the accumulated acceleration of every marked object;
/// unmarked objects and all positions stay as they were.
pub fn apply_gravity(
    objects: &mut Vec<VerletObject>,
    marks: &Vec<Option<Gravitate>>,
    gravity: Vec2,
)
    requires
        marks@.len() == old(objects)@.len(),
        gravity.within(GRAV_LIMIT as int),
        forall|k: int|
            0 <= k < old(objects)@.len() ==> (#[trigger] old(objects)@[k]).acceleration.within(
                GRAV_LIMIT as int,
            ),
    ensures
        final(objects)@.len() == old(objects)@.len(),
        forall|k: int|
            0 <= k < old(objects)@.len() && marks@[k] is Some ==> {
                let o = old(objects)@[k];
                let o2 = #[trigger] final(objects)@[k];
                &&& o2.acceleration.x == o.acceleration.x + gravity.x
                &&& o2.acceleration.y == o.acceleration.y + gravity.y
                &&& o2.position == o.position
                &&& o2.position_old == o.position_old
            },
        forall|k: int|
            0 <= k < old(objects)@.len() && marks@[k] is None ==> #[trigger] final(objects)@[k]
                == old(objects)@[k],
        forall|k: int|
            0 <= k < old(objects)@.len() ==> (#[trigger] final(objects)@[k]).acceleration.within(
                ACC_LIMIT as int,
            ),
{
    let n: usize = objects.len();
    let mut i: usize = 0;
    while i < n
        invariant
            n == objects@.len(),
            n == old(objects)@.len(),
            n == marks@.len(),
            i <= n,
            gravity.within(GRAV_LIMIT as int),
            forall|k: int|
                0 <= k < n ==> (#[trigger] old(objects)@[k]).acceleration.within(
                    GRAV_LIMIT as int,
                ),
            forall|k: int| i <= k < n ==> #[trigger] objects@[k] == old(objects)@[k],
            forall|k: int|
                0 <= k < i && marks@[k] is Some ==> {
                    let o = old(objects)@[k];
                    let o2 = #[trigger] objects@[k];
                    &&& o2.acceleration.x == o.acceleration.x + gravity.x
                    &&& o2.acceleration.y == o.acceleration.y + gravity.y
                    &&& o2.position == o.position
                    &&& o2.position_old == o.position_old
                },
            forall|k: int|
                0 <= k < i && marks@[k] is None ==> #[trigger] objects@[k] == old(objects)@[k],
        decreases n - i,
    {
        if marks[i].is_some() {
            let o: VerletObject = objects[i];
            let na: Vec2 = Vec2 { x: o.acceleration.x + gravity.x, y: o.acceleration.y + gravity.y };
            objects[i] = VerletObject {
                position: o.position,
                position_old: o.position_old,
                acceleration: na,
            };
        }
        i = i + 1;
    }
}

/// Advances every object by one Verlet step.
pub fn update_position(objects: &mut Vec<VerletObject>, dt: i64)
    requires
        0 <= dt <= SCALE,
        forall|k: int|
            0 <= k < old(objects)@.len() ==> {
                let o = #[trigger] old(objects)@[k];
                &&& o.position.within(POS_LIMIT as int)
                &&& o.position_old.within(POS_LIMIT as int)
                &&& o.acceleration.within(ACC_LIMIT as int)
            },
    ensures
        final(objects)@.len() == old(objects)@.len(),
        forall|k: int|
            0 <= k < old(objects)@.len() ==> integ_rel(
                old(objects)@[k],
                #[trigger] final(objects)@[k],
                dt as int,
            ),
{
    let n: usize = objects.len();
    let mut i: usize = 0;
    while i < n
        invariant
            n == objects@.len(),
            n == old(objects)@.len(),
            0 <= dt <= SCALE,
            i <= n,
            forall|k: int|
                0 <= k < n ==> {
                    let o = #[trigger] old(objects)@[k];
                    &&& o.position.within(POS_LIMIT as int)
                    &&& o.position_old.within(POS_LIMIT as int)
                    &&& o.acceleration.within(ACC_LIMIT as int)
                },
            forall|k: int| i <= k < n ==> #[trigger] objects@[k] == old(objects)@[k],
            forall|k: int|
                0 <= k < i ==> integ_rel(old(objects)@[k], #[trigger] objects@[k], dt as int),
        decreases n - i,
    {
        let mut o: VerletObject = objects[i];
        integrate(&mut o, dt);
        objects[i] = o;
        i = i + 1;
    }
}

/// Starts a new step's report lists: the current list becomes the
/// snapshot, and the current list is emptied.
pub fn reset_collisions(colliders: &mut Vec<Collider>)
    ensures
        final(colliders)@.len() == old(colliders)@.len(),
        forall|k: int|
            0 <= k < old(colliders)@.len() ==> {
                let c2 = #[trigger] final(colliders)@[k];
                &&& c2.collisions@.len() == 0
                &&& c2.collisions_old@ == old(colliders)@[k].collisions@
            },
{
    let n: usize = colliders.len();
    let mut i: usize = 0;
    while i < n
        invariant
            n == colliders@.len(),
            n == old(colliders)@.len(),
            i <= n,
            forall|k: int| i <= k < n ==> #[trigger] colliders@[k].collisions@ == old(
                colliders,
            )@[k].collisions@,
            forall|k: int|
                0 <= k < i ==> {
                    let c2 = #[trigger] colliders@[k];
                    &&& c2.collisions@.len() == 0
                    &&& c2.collisions_old@ == old(colliders)@[k].collisions@
                },
        decreases n - i,
    {
        let mut fresh: Vec<Collision> = Vec::new();
        core::mem::swap(&mut colliders[i].collisions, &mut fresh);
        colliders[i].collisions_old = fresh;
        i = i + 1;
    }
}

} // verus!
