//! Scene assembly and the fixed-step drivers: the initial boundary and
//! player, the control-point dynamics that deform the boundary each step,
//! and the physics pass that runs reset, collision, gravity and
//! integration in their required order.

use vstd::prelude::*;
use crate::num::{div_trunc_i128, div_trunc_i64, mul_wide, trunc_div, SCALE};
use crate::num::lemma_trunc_div_bound;
use crate::vec2::{isqrt_s, lemma_isqrt_unique, unit_pair_s, Vec2};
use crate::curve::{build_curve, Curve};
use crate::spline::{blend_pt, blend2_s, pt, wf_points, COORD_LIMIT};
use crate::topology::{info_wf, POS_LIMIT};
use crate::verlet::{integ_rel, integrate, Collider, Gravitate, VerletObject, GRAV_LIMIT};
use crate::resolve::{
    collide, collide_mid_phase, reset_collisions_phase, scale_unit, SplineMemory, RADIUS_LIMIT,
};
use crate::verlet::reset_collisions;

verus! {

/// How far a pusher reaches, in fixed units: 190 world units.
pub const PUSH_RANGE: i64 = 190_000_000;

/// The fixed-step schedule: the step length `dt` (a fixed-point fraction
/// of a second) and how many sub-steps run per frame.
#[derive(Clone, Copy, Debug)]
pub struct PhySched {
    pub dt: i64,
    pub substeps: u64,
}

/// The tuning the physics pass runs with: the gravity accumulated before
/// each integration, and the clearance radius and line thickness the
/// resolver keeps objects away from the boundary by.
#[derive(Clone, Copy, Debug)]
pub struct PhysicsPlugin {
    pub gravity: Vec2,
    pub radius: i64,
    pub thickness: i64,
}

impl PhySched {
    /// A usable schedule: a nonnegative step no longer than one second.
    pub open spec fn wf(&self) -> bool {
        0 <= self.dt <= SCALE
    }
}

impl PhysicsPlugin {
    /// Usable tuning: bounded gravity and a clearance in range.
    pub open spec fn wf(&self) -> bool {
        &&& self.gravity.within(GRAV_LIMIT as int)
        &&& 0 <= self.radius
        &&& 0 <= self.thickness
        &&& self.radius + self.thickness <= RADIUS_LIMIT
    }
}

/// The whole simulation state: the deformable boundary with the data its
/// dynamics need, and the moving objects with their collision state.
#[derive(Debug)]
pub struct Scene {
    pub curves: Vec<Curve>,
    pub control_targets: Vec<Vec2>,
    pub control_old: Vec<Vec2>,
    pub control_defaults: Vec<Vec2>,
    pub pusher: Vec2,
    pub objects: Vec<VerletObject>,
    pub gravitate: Vec<Option<Gravitate>>,
    pub colliders: Vec<Collider>,
    pub memories: Vec<SplineMemory>,
}

impl Scene {
    /// The invariants the drivers keep: valid curves, parallel object
    /// arrays, and per-object memories sized to the curve list.
    pub open spec fn wf(&self) -> bool {
        &&& forall|j: int| 0 <= j < self.curves@.len() ==> (#[trigger] self.curves@[j]).wf()
        &&& self.gravitate@.len() == self.objects@.len()
        &&& self.colliders@.len() == self.objects@.len()
        &&& self.memories@.len() == self.objects@.len()
        &&& forall|i: int|
            0 <= i < self.memories@.len() ==> (#[trigger] self.memories@[i]).spline_intersections@.len()
                == self.curves@.len()
        &&& forall|i: int, j: int|
            0 <= i < self.memories@.len() && 0 <= j < self.curves@.len() ==> ((
            #[trigger] self.memories@[i].spline_intersections@[j]) matches Some(m) ==> info_wf(
                m,
            ))
    }
}

/// Builds the initial scene: one boundary curve whose control points sit
/// forty world units apart from `x = -1000` on, at the given heights,
/// with targets, history and defaults equal to those points; a pusher
/// high above; and one gravitating player object at `(100, 300)` with an
/// empty collision state.
pub fn setup(heights: &Vec<i64>) -> (scene: Scene)
    requires
        4 <= heights@.len() <= 25000,
        forall|i: int|
            0 <= i < heights@.len() ==> -COORD_LIMIT <= #[trigger] heights@[i] <= COORD_LIMIT,
    ensures
        scene.wf(),
        scene.curves@.len() == 1,
        scene.curves@[0].points@.len() == heights@.len(),
        forall|i: int|
            0 <= i < heights@.len() ==> {
                let p = #[trigger] scene.curves@[0].points@[i];
                p.x == -1000 * SCALE + 40 * SCALE * i && p.y == heights@[i]
            },
        scene.control_targets@ == scene.curves@[0].points@,
        scene.control_old@ == scene.curves@[0].points@,
        scene.control_defaults@ == scene.curves@[0].points@,
        scene.pusher.x == 0 && scene.pusher.y == 1000 * SCALE,
        scene.objects@.len() == 1,
        scene.objects@[0].position.x == 100 * SCALE && scene.objects@[0].position.y == 300
            * SCALE,
        scene.objects@[0].position_old == scene.objects@[0].position,
        scene.objects@[0].acceleration.x == 0 && scene.objects@[0].acceleration.y == 0,
        scene.gravitate@[0] is Some,
        scene.colliders@[0].collisions@.len() == 0,
        scene.colliders@[0].collisions_old@.len() == 0,
        scene.memories@[0].spline_intersections@ =~= seq![Option::<
            crate::topology::SplineColliderInfo,
        >::None],
{
    let n: usize = heights.len();
    let mut points: Vec<Vec2> = Vec::new();
    let mut targets: Vec<Vec2> = Vec::new();
    let mut olds: Vec<Vec2> = Vec::new();
    let mut defaults: Vec<Vec2> = Vec::new();
    let mut i: usize = 0;
    while i < n
        invariant
            n == heights@.len(),
            4 <= n <= 25000,
            forall|k: int| 0 <= k < n ==> -COORD_LIMIT <= #[trigger] heights@[k] <= COORD_LIMIT,
            i <= n,
            points@.len() == i,
            targets@ == points@,
            olds@ == points@,
            defaults@ == points@,
            forall|k: int|
                0 <= k < i ==> {
                    let p = #[trigger] points@[k];
                    p.x == -1000 * SCALE + 40 * SCALE * k && p.y == heights@[k]
                },
            forall|k: int| 0 <= k < i ==> (#[trigger] points@[k]).within(COORD_LIMIT as int),
        decreases n - i,
    {
        proof {
            assert(0 <= (i as int) * 40000000 <= 1000000000000) by (nonlinear_arith)
                requires
                    0 <= i <= 25000,
            ;
        }
        let x: i64 = -1000 * SCALE + (i as i64) * (40 * SCALE);
        let p: Vec2 = Vec2 { x, y: heights[i] };
        points.push(p);
        targets.push(p);
        olds.push(p);
        defaults.push(p);
        i = i + 1;
    }
    let curve: Curve = match build_curve(points) {
        Ok(c) => c,
        Err(_) => {
            proof {
                assert(false);
            }
            Curve { points: Vec::new() }
        },
    };
    let mut curves: Vec<Curve> = Vec::new();
    curves.push(curve);
    let player: VerletObject = VerletObject {
        position: Vec2 { x: 100 * SCALE, y: 300 * SCALE },
        position_old: Vec2 { x: 100 * SCALE, y: 300 * SCALE },
        acceleration: Vec2 { x: 0, y: 0 },
    };
    let mut objects: Vec<VerletObject> = Vec::new();
    objects.push(player);
    let mut gravitate: Vec<Option<Gravitate>> = Vec::new();
    gravitate.push(Some(Gravitate()));
    let mut colliders: Vec<Collider> = Vec::new();
    colliders.push(Collider::new());
    let mut slots: Vec<Option<crate::topology::SplineColliderInfo>> = Vec::new();
    slots.push(None);
    let mut memories: Vec<SplineMemory> = Vec::new();
    memories.push(SplineMemory { spline_intersections: slots });
    Scene {
        curves,
        control_targets: targets,
        control_old: olds,
        control_defaults: defaults,
        pusher: Vec2 { x: 0, y: 1000 * SCALE },
        objects,
        gravitate,
        colliders,
        memories,
    }
}

/// Remembers each control point's position before this step's movement.
pub fn update_old_pos(positions: &Vec<Vec2>, old_positions: &mut Vec<Vec2>)
    requires
        old(old_positions)@.len() == positions@.len(),
    ensures
        final(old_positions)@ == positions@,
{
    let n: usize = positions.len();
    let mut i: usize = 0;
    while i < n
        invariant
            n == positions@.len(),
            old_positions@.len() == n,
            i <= n,
            forall|k: int| 0 <= k < i ==> #[trigger] old_positions@[k] == positions@[k],
        decreases n - i,
    {
        old_positions[i] = positions[i];
        i = i + 1;
    }
    proof {
        assert(final(old_positions)@ =~= positions@);
    }
}

/// Where one relaxation step moves a control point: ninety-eight percent
/// of the way it was, two percent of its target.
pub open spec fn approach_s(p: Vec2, t: Vec2) -> (int, int) {
    (
        trunc_div(980000 * p.x + 20000 * t.x, SCALE as int),
        trunc_div(980000 * p.y + 20000 * t.y, SCALE as int),
    )
}

/// Relaxes every control point two percent of the way toward its target.
pub fn go_to_target(positions: &mut Vec<Vec2>, targets: &Vec<Vec2>)
    requires
        targets@.len() == old(positions)@.len(),
        wf_points(old(positions)@),
        forall|k: int|
            0 <= k < targets@.len() ==> (#[trigger] targets@[k]).within(COORD_LIMIT as int),
    ensures
        final(positions)@.len() == old(positions)@.len(),
        forall|k: int|
            0 <= k < old(positions)@.len() ==> pt(#[trigger] final(positions)@[k]) == approach_s(
                old(positions)@[k],
                targets@[k],
            ),
        wf_points(final(positions)@),
{
    let n: usize = positions.len();
    let mut i: usize = 0;
    while i < n
        invariant
            n == old(positions)@.len(),
            positions@.len() == n,
            targets@.len() == n,
            wf_points(old(positions)@),
            forall|k: int|
                0 <= k < n ==> (#[trigger] targets@[k]).within(COORD_LIMIT as int),
            i <= n,
            forall|k: int| i <= k < n ==> #[trigger] positions@[k] == old(positions)@[k],
            forall|k: int|
                0 <= k < i ==> pt(#[trigger] positions@[k]) == approach_s(
                    old(positions)@[k],
                    targets@[k],
                ),
            forall|k: int| 0 <= k < i ==> (#[trigger] positions@[k]).within(COORD_LIMIT as int),
        decreases n - i,
    {
        proof {
            assert(old(positions)@[i as int].within(COORD_LIMIT as int));
            assert(targets@[i as int].within(COORD_LIMIT as int));
        }
        let p: Vec2 = positions[i];
        let t: Vec2 = targets[i];
        proof {
            let cl = COORD_LIMIT as int;
            assert(-(cl * (SCALE as int)) <= 980000 * p.x + 20000 * t.x <= cl * (SCALE as int));
            assert(-(cl * (SCALE as int)) <= 980000 * p.y + 20000 * t.y <= cl * (SCALE as int));
            lemma_trunc_div_bound(980000 * p.x + 20000 * t.x, SCALE as int, cl);
            lemma_trunc_div_bound(980000 * p.y + 20000 * t.y, SCALE as int, cl);
        }
        let nx: i64 = div_trunc_i128(
            mul_wide(p.x, 980000) + mul_wide(t.x, 20000),
            SCALE as i128,
        ) as i64;
        let ny: i64 = div_trunc_i128(
            mul_wide(p.y, 980000) + mul_wide(t.y, 20000),
            SCALE as i128,
        ) as i64;
        positions[i] = Vec2 { x: nx, y: ny };
        i = i + 1;
    }
}

/// Where a pusher within reach displaces a control point: part of the way
/// toward the sphere of radius `PUSH_RANGE` around the pusher, weighted
/// by how deep inside the reach the point sits.
pub open spec fn push_one_s(p: Vec2, pusher: Vec2) -> (int, int) {
    let dx = p.x - pusher.x;
    let dy = p.y - pusher.y;
    let len = isqrt_s(dx * dx + dy * dy);
    if len <= PUSH_RANGE {
        let u = unit_pair_s(dx, dy);
        let sx = pusher.x + trunc_div(u.0 * PUSH_RANGE, SCALE as int);
        let sy = pusher.y + trunc_div(u.1 * PUSH_RANGE, SCALE as int);
        let f = trunc_div(SCALE - trunc_div(len, 190), 2);
        blend2_s(pt(p), (sx, sy), f)
    } else {
        pt(p)
    }
}

/// Pushes every control point within reach of the pusher away from it.
pub fn push(positions: &mut Vec<Vec2>, pusher: Vec2)
    requires
        wf_points(old(positions)@),
        pusher.within(COORD_LIMIT as int - PUSH_RANGE as int),
    ensures
        final(positions)@.len() == old(positions)@.len(),
        forall|k: int|
            0 <= k < old(positions)@.len() ==> pt(#[trigger] final(positions)@[k]) == push_one_s(
                old(positions)@[k],
                pusher,
            ),
        wf_points(final(positions)@),
{
    let n: usize = positions.len();
    let mut i: usize = 0;
    while i < n
        invariant
            n == old(positions)@.len(),
            positions@.len() == n,
            wf_points(old(positions)@),
            pusher.within(COORD_LIMIT as int - PUSH_RANGE as int),
            i <= n,
            forall|k: int| i <= k < n ==> #[trigger] positions@[k] == old(positions)@[k],
            forall|k: int|
                0 <= k < i ==> pt(#[trigger] positions@[k]) == push_one_s(
                    old(positions)@[k],
                    pusher,
                ),
            forall|k: int| 0 <= k < i ==> (#[trigger] positions@[k]).within(COORD_LIMIT as int),
        decreases n - i,
    {
        proof {
            assert(old(positions)@[i as int].within(COORD_LIMIT as int));
        }
        let p: Vec2 = positions[i];
        let d: Vec2 = p.minus(pusher);
        let n2: i128 = d.dot_wide(d);
        proof {
            assert(0 <= (d.x as int) * (d.x as int) + (d.y as int) * (d.y as int)
                <= 32000000000000000000000000) by (nonlinear_arith)
                requires
                    -4000000000000 <= d.x <= 4000000000000,
                    -4000000000000 <= d.y <= 4000000000000,
            ;
        }
        let len128: u64 = crate::num::isqrt_u128(n2 as u128);
        proof {
            lemma_isqrt_unique(n2 as int, len128 as int);
            let lu = len128 as int;
            assert(lu <= 6000000000000) by (nonlinear_arith)
                requires
                    0 <= lu,
                    lu * lu <= n2,
                    n2 <= 32000000000000000000000000,
            ;
        }
        let len: i64 = len128 as i64;
        if len <= PUSH_RANGE {
            let u: Vec2 = d.unit();
            let surface: Vec2 = pusher.plus(scale_unit(u, PUSH_RANGE));
            proof {
                crate::num::lemma_trunc_div_small(len as int, 190);
                crate::num::lemma_trunc_div_bound(len as int, 190, SCALE as int);
                crate::num::lemma_trunc_div_small(
                    SCALE as int - trunc_div(len as int, 190),
                    2,
                );
            }
            let f: i64 = div_trunc_i64(SCALE - div_trunc_i64(len, 190), 2);
            let np: Vec2 = blend_pt(p, surface, f);
            positions[i] = np;
        }
        i = i + 1;
    }
}

/// Lifts each control point by its externally computed vertical offset
/// (the waves the boundary rides on).
pub fn move_points(positions: &mut Vec<Vec2>, offsets: &Vec<i64>)
    requires
        offsets@.len() == old(positions)@.len(),
        wf_points(old(positions)@),
        forall|k: int| 0 <= k < offsets@.len() ==> -SCALE <= #[trigger] offsets@[k] <= SCALE,
        forall|k: int|
            0 <= k < old(positions)@.len() ==> -COORD_LIMIT <= (#[trigger] old(
                positions,
            )@[k]).y + offsets@[k] <= COORD_LIMIT,
    ensures
        final(positions)@.len() == old(positions)@.len(),
        forall|k: int|
            0 <= k < old(positions)@.len() ==> {
                let p0 = old(positions)@[k];
                let p2 = #[trigger] final(positions)@[k];
                p2.x == p0.x && p2.y == p0.y + offsets@[k]
            },
        wf_points(final(positions)@),
{
    let n: usize = positions.len();
    let mut i: usize = 0;
    while i < n
        invariant
            n == old(positions)@.len(),
            positions@.len() == n,
            offsets@.len() == n,
            wf_points(old(positions)@),
            forall|k: int| 0 <= k < n ==> -SCALE <= #[trigger] offsets@[k] <= SCALE,
            forall|k: int|
                0 <= k < n ==> -COORD_LIMIT <= (#[trigger] old(positions)@[k]).y + offsets@[k]
                    <= COORD_LIMIT,
            i <= n,
            forall|k: int| i <= k < n ==> #[trigger] positions@[k] == old(positions)@[k],
            forall|k: int|
                0 <= k < i ==> {
                    let p0 = old(positions)@[k];
                    let p2 = #[trigger] positions@[k];
                    p2.x == p0.x && p2.y == p0.y + offsets@[k]
                },
            forall|k: int| 0 <= k < i ==> (#[trigger] positions@[k]).within(COORD_LIMIT as int),
        decreases n - i,
    {
        proof {
            assert(old(positions)@[i as int].within(COORD_LIMIT as int));
        }
        let p: Vec2 = positions[i];
        positions[i] = Vec2 { x: p.x, y: p.y + offsets[i] };
        i = i + 1;
    }
}

/// An object whose state is still inside the range the advance accepts.
pub open spec fn safe_obj(o: VerletObject) -> bool {
    &&& o.position.within(POS_LIMIT as int)
    &&& o.position_old.within(POS_LIMIT as int)
    &&& o.acceleration.within(GRAV_LIMIT as int)
}

/// The object with one gravity pass accumulated, when it is marked.
pub open spec fn with_gravity(o: VerletObject, mk: Option<Gravitate>, g: Vec2) -> VerletObject {
    if mk is Some {
        VerletObject {
            position: o.position,
            position_old: o.position_old,
            acceleration: Vec2 {
                x: (o.acceleration.x + g.x) as i64,
                y: (o.acceleration.y + g.y) as i64,
            },
        }
    } else {
        o
    }
}

/// How the gravity-and-integrate phase advances one object: a safe object
/// accumulates gravity (if marked) and takes one Verlet step; an object
/// outside the accepted range is left alone.
pub open spec fn advance_rel(
    o: VerletObject,
    mk: Option<Gravitate>,
    g: Vec2,
    dt: int,
    o2: VerletObject,
) -> bool {
    if safe_obj(o) {
        integ_rel(with_gravity(o, mk, g), o2, dt)
    } else {
        o2 == o
    }
}

/// Everything one physics sub-step promises: the scene stays
/// well-formed, the boundary and its control data are untouched, and the
/// new object, collider and memory states arise from rolling the report
/// lists over, one collision pass, then the guarded gravity-and-integrate
/// advance, in that order.
pub open spec fn tick_rel(s1: Scene, s2: Scene, cfg: PhysicsPlugin, dt: int) -> bool {
    &&& s2.wf()
    &&& s2.objects@.len() == s1.objects@.len()
    &&& s2.colliders@.len() == s1.colliders@.len()
    &&& s2.memories@.len() == s1.memories@.len()
    &&& s2.curves == s1.curves
    &&& s2.control_targets == s1.control_targets
    &&& s2.control_old == s1.control_old
    &&& s2.control_defaults == s1.control_defaults
    &&& s2.pusher == s1.pusher
    &&& s2.gravitate == s1.gravitate
    &&& exists|c1: Seq<Collider>, o2: Seq<VerletObject>|
        {
            &&& #[trigger] collide_mid_phase(
                s1.objects@,
                c1,
                s1.memories@,
                s1.curves@,
                cfg.radius as int,
                cfg.thickness as int,
                o2,
                s2.colliders@,
                s2.memories@,
            )
            &&& reset_collisions_phase(s1.colliders@, c1)
            &&& o2.len() == s1.objects@.len()
            &&& forall|i: int|
                0 <= i < o2.len() ==> advance_rel(
                    o2[i],
                    s1.gravitate@[i],
                    cfg.gravity,
                    dt,
                    #[trigger] s2.objects@[i],
                )
        }
}

/// One physics sub-step over the whole scene, in the order the pipeline
/// requires: report lists roll over, every object is resolved against
/// every curve in enumeration order, then gravity accumulates and the
/// integrator advances whatever is still in range. The boundary itself
/// and its control data are not touched.
pub fn tick(scene: &mut Scene, cfg: &PhysicsPlugin, dt: i64)
    requires
        old(scene).wf(),
        cfg.wf(),
        0 <= dt <= SCALE,
    ensures
        tick_rel(*old(scene), *final(scene), *cfg, dt as int),
{
    reset_collisions(&mut scene.colliders);
    let ghost c1 = scene.colliders@;
    collide(
        &mut scene.objects,
        &mut scene.colliders,
        &mut scene.memories,
        &scene.curves,
        cfg.radius,
        cfg.thickness,
    );
    let ghost o2 = scene.objects@;
    let ghost c2s = scene.colliders@;
    let ghost m2s = scene.memories@;
    let n: usize = scene.objects.len();
    let mut i: usize = 0;
    while i < n
        invariant
            n == scene.objects@.len(),
            n == o2.len(),
            scene.gravitate@.len() == n,
            cfg.wf(),
            0 <= dt <= SCALE,
            scene.curves == old(scene).curves,
            scene.control_targets == old(scene).control_targets,
            scene.control_old == old(scene).control_old,
            scene.control_defaults == old(scene).control_defaults,
            scene.pusher == old(scene).pusher,
            scene.gravitate == old(scene).gravitate,
            scene.colliders@ == c2s,
            scene.memories@ == m2s,
            scene.wf(),
            i <= n,
            forall|k: int| i <= k < n ==> #[trigger] scene.objects@[k] == o2[k],
            forall|k: int|
                0 <= k < i ==> advance_rel(
                    o2[k],
                    scene.gravitate@[k],
                    cfg.gravity,
                    dt as int,
                    #[trigger] scene.objects@[k],
                ),
        decreases n - i,
    {
        let mut o: VerletObject = scene.objects[i];
        let safe: bool = o.position.x <= POS_LIMIT && o.position.x >= -POS_LIMIT && o.position.y
            <= POS_LIMIT && o.position.y >= -POS_LIMIT && o.position_old.x <= POS_LIMIT
            && o.position_old.x >= -POS_LIMIT && o.position_old.y <= POS_LIMIT
            && o.position_old.y >= -POS_LIMIT && o.acceleration.x <= GRAV_LIMIT
            && o.acceleration.x >= -GRAV_LIMIT && o.acceleration.y <= GRAV_LIMIT
            && o.acceleration.y >= -GRAV_LIMIT;
        if safe {
            if scene.gravitate[i].is_some() {
                o.acceleration = Vec2 {
                    x: o.acceleration.x + cfg.gravity.x,
                    y: o.acceleration.y + cfg.gravity.y,
                };
            }
            integrate(&mut o, dt);
            scene.objects[i] = o;
        }
        i = i + 1;
    }
    proof {
        assert(reset_collisions_phase(old(scene).colliders@, c1));
        assert(collide_mid_phase(
            old(scene).objects@,
            c1,
            old(scene).memories@,
            old(scene).curves@,
            cfg.radius as int,
            cfg.thickness as int,
            o2,
            scene.colliders@,
            scene.memories@,
        ));
    }
}

/// The scene is carried from `s1` to `s2` by `k` physics sub-steps of
/// length `dt`, each satisfying the sub-step contract, in order.
pub open spec fn sched_chain(s1: Scene, s2: Scene, cfg: PhysicsPlugin, dt: int, k: int) -> bool
    decreases k,
{
    if k <= 0 {
        s2 == s1
    } else {
        exists|mid: Scene|
            #[trigger] tick_rel(s1, mid, cfg, dt) && sched_chain(mid, s2, cfg, dt, k - 1)
    }
}

/// A chain of `k` sub-steps followed by one more is a chain of `k + 1`.
pub proof fn lemma_sched_snoc(s1: Scene, m: Scene, s2: Scene, cfg: PhysicsPlugin, dt: int, k: int)
    requires
        0 <= k,
        sched_chain(s1, m, cfg, dt, k),
        tick_rel(m, s2, cfg, dt),
    ensures
        sched_chain(s1, s2, cfg, dt, k + 1),
    decreases k,
{
    if k <= 0 {
        assert(m == s1);
        assert(sched_chain(s2, s2, cfg, dt, k));
    } else {
        let mid = choose|mid: Scene|
            #[trigger] tick_rel(s1, mid, cfg, dt) && sched_chain(mid, m, cfg, dt, k - 1);
        lemma_sched_snoc(mid, m, s2, cfg, dt, k - 1);
    }
}

/// Runs the physics pass `substeps` times with the schedule's step
/// length, each sub-step meeting the sub-step contract in order.
pub fn run_my_schedule(scene: &mut Scene, sched: &PhySched, cfg: &PhysicsPlugin)
    requires
        old(scene).wf(),
        sched.wf(),
        cfg.wf(),
    ensures
        sched_chain(*old(scene), *final(scene), *cfg, sched.dt as int, sched.substeps as int),
        final(scene).wf(),
        final(scene).objects@.len() == old(scene).objects@.len(),
        final(scene).colliders@.len() == old(scene).colliders@.len(),
        final(scene).memories@.len() == old(scene).memories@.len(),
        final(scene).curves == old(scene).curves,
{
    let mut s: u64 = 0;
    while s < sched.substeps
        invariant
            scene.wf(),
            sched.wf(),
            cfg.wf(),
            s <= sched.substeps,
            sched_chain(*old(scene), *scene, *cfg, sched.dt as int, s as int),
            scene.objects@.len() == old(scene).objects@.len(),
            scene.colliders@.len() == old(scene).colliders@.len(),
            scene.memories@.len() == old(scene).memories@.len(),
            scene.curves == old(scene).curves,
        decreases sched.substeps - s,
    {
        let ghost pre = *scene;
        tick(scene, cfg, sched.dt);
        proof {
            lemma_sched_snoc(*old(scene), pre, *scene, *cfg, sched.dt as int, s as int);
        }
        s = s + 1;
    }
}

} // verus!
