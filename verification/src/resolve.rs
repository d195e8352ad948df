//! Collision resolution of a Verlet object against a curve: outward normal
//! from the nearest curve point, topology-corrected side, a tunneling guard
//! that pulls the Verlet history back behind the clearance surface, and the
//! positional snap that records a contact.

use vstd::prelude::*;
use crate::num::{lemma_trunc_div_bound, trunc_div, SCALE};
use crate::num::{div_trunc_i128, mul_wide};
use crate::vec2::{dot_s, lemma_dot_bound, unit_pair_s, Vec2, VAL_LIMIT};
use crate::knots::{find_knot, knot_vector};
use crate::curve::{curve_eval_s, Curve};
use crate::spline::de_boors;
use crate::nearest::{get_nearest_spline_point, nearest_ok};
use crate::topology::{
    classify_some_s, crossing_count_s, info_wf, point_inside, sector_s, SplineColliderInfo,
    POS_LIMIT,
};
use crate::verlet::{Collider, Collision, VerletObject};

verus! {

/// Largest clearance (`radius + thickness`, fixed units) the resolver
/// accepts.
pub const RADIUS_LIMIT: i64 = 1_000_000_000;

/// The small bias added to the projected Verlet offset, so the history is
/// pulled slightly past the clearance surface.
pub const CONTACT_BIAS: i64 = 20_000;

/// How far beyond `POS_LIMIT` a corrected Verlet history may land in one
/// resolution.
pub const POS_OUT_LIMIT: i64 = 400_000_000_000_000;

/// How one resolution step, at nearest parameter `t`, transforms the
/// object, the per-curve memory and the report. Everything is determined
/// by the inputs and `t`:
/// - the contact point is the curve at `t`, and the normal is the unit
///   vector from it toward the object, flipped when the tracker says the
///   object is inside;
/// - when the tracker reports outside, the memory is rebaselined to the
///   current crossing count and sectors, otherwise kept;
/// - the clearance surface lies `radius + thickness` along the normal;
///   when the history plus implied velocity projects behind it (with the
///   small bias), the history is pulled back along the normal by that
///   offset;
/// - when the object's projected distance from the contact point is below
///   the clearance, its position snaps onto the surface and a report
///   carrying curve, contact point and normal is produced.
pub open spec fn resolve_rel(
    o: VerletObject,
    ps: Seq<Vec2>,
    m0: Option<SplineColliderInfo>,
    t: int,
    radius: int,
    thickness: int,
    cid: int,
    o2: VerletObject,
    m2: Option<SplineColliderInfo>,
    rep: Option<Collision>,
) -> bool {
    let s = SCALE as int;
    let p = curve_eval_s(ps, t);
    let dx = o.position.x - p.0;
    let dy = o.position.y - p.1;
    let u = unit_pair_s(dx, dy);
    let inside = match m0 {
        Some(m) => classify_some_s(ps, o.position, m),
        None => false,
    };
    let nx = if inside {
        -u.0
    } else {
        u.0
    };
    let ny = if inside {
        -u.1
    } else {
        u.1
    };
    let ogx = p.0 + trunc_div(nx * (radius + thickness), s);
    let ogy = p.1 + trunc_div(ny * (radius + thickness), s);
    let wx = o.position.x - ogx;
    let wy = o.position.y - ogy;
    let off = trunc_div(wx * nx + wy * ny, s) + CONTACT_BIAS;
    let pen = trunc_div(dx * nx + dy * ny, s);
    let hit = pen < radius + thickness;
    &&& o2.position_old.x == if off < 0 {
        o.position_old.x - trunc_div(nx * off, s)
    } else {
        o.position_old.x as int
    }
    &&& o2.position_old.y == if off < 0 {
        o.position_old.y - trunc_div(ny * off, s)
    } else {
        o.position_old.y as int
    }
    &&& o2.position.x == if hit {
        ogx
    } else {
        o.position.x as int
    }
    &&& o2.position.y == if hit {
        ogy
    } else {
        o.position.y as int
    }
    &&& o2.acceleration == o.acceleration
    &&& if inside {
        m2 == m0
    } else {
        match m2 {
            Some(m) => {
                &&& m.intersections as int == crossing_count_s(ps, o.position, ps.len() - 1)
                &&& m.start_sector as int == sector_s(ps[0], o.position)
                &&& m.end_sector as int == sector_s(ps[ps.len() - 1], o.position)
            },
            None => false,
        }
    }
    &&& match rep {
        Some(c) => hit && c.other == cid && c.point.x == p.0 && c.point.y == p.1 && c.normal.x
            == nx && c.normal.y == ny,
        None => !hit,
    }
}

/// `normal * c / SCALE`: a length `c` laid along a fixed-point unit
/// vector; each coordinate stays within `|c|`.
pub(crate) fn scale_unit(n: Vec2, c: i64) -> (r: Vec2)
    requires
        n.within(SCALE as int),
        -VAL_LIMIT <= c <= VAL_LIMIT,
    ensures
        r.x == trunc_div(n.x as int * c, SCALE as int),
        r.y == trunc_div(n.y as int * c, SCALE as int),
        r.within(if c >= 0 {
            c as int
        } else {
            -c as int
        }),
{
    proof {
        let m = if c >= 0 {
            c as int
        } else {
            -c as int
        };
        assert(-(m * SCALE) <= (n.x as int) * (c as int) <= m * SCALE) by (nonlinear_arith)
            requires
                -1000000 <= n.x <= 1000000,
                -m <= c <= m,
                0 <= m,
                SCALE == 1000000,
        ;
        assert(-(m * SCALE) <= (n.y as int) * (c as int) <= m * SCALE) by (nonlinear_arith)
            requires
                -1000000 <= n.y <= 1000000,
                -m <= c <= m,
                0 <= m,
                SCALE == 1000000,
        ;
        lemma_trunc_div_bound(n.x as int * c as int, SCALE as int, m);
        lemma_trunc_div_bound(n.y as int * c as int, SCALE as int, m);
    }
    let rx: i128 = div_trunc_i128(mul_wide(n.x, c), SCALE as i128);
    let ry: i128 = div_trunc_i128(mul_wide(n.y, c), SCALE as i128);
    Vec2 { x: rx as i64, y: ry as i64 }
}

/// Resolves one object against one curve: finds the nearest curve point,
/// classifies the side with the per-curve memory, corrects the Verlet
/// history against tunneling, snaps a penetrating object onto the
/// clearance surface, and reports the contact. The nearest parameter is
/// found by a solver with a random restart, so the contract states what
/// holds for some parameter carrying the solver's guarantee.
pub fn resolve_collision(
    obj: &mut VerletObject,
    curve: &Curve,
    curve_id: usize,
    memory: &mut Option<SplineColliderInfo>,
    radius: i64,
    thickness: i64,
) -> (rep: Option<Collision>)
    requires
        curve.wf(),
        old(obj).position.within(POS_LIMIT as int),
        old(obj).position_old.within(POS_LIMIT as int),
        0 <= radius,
        0 <= thickness,
        radius + thickness <= RADIUS_LIMIT,
        (*old(memory)) matches Some(m) ==> info_wf(m),
    ensures
        exists|t: int|
            #[trigger] nearest_ok(curve.points@, old(obj).position, t) && resolve_rel(
                *old(obj),
                curve.points@,
                *old(memory),
                t,
                radius as int,
                thickness as int,
                curve_id as int,
                *final(obj),
                *final(memory),
                rep,
            ),
        final(obj).acceleration == old(obj).acceleration,
        final(obj).position.within(POS_LIMIT as int),
        final(obj).position_old.within(POS_OUT_LIMIT as int),
        (*final(memory)) matches Some(m) ==> info_wf(m),
{
    let ghost ps = curve.points@;
    let ghost q0 = obj.position;
    let t: i64 = get_nearest_spline_point(obj.position, &curve.points);
    let knots: Vec<i64> = match knot_vector(curve.points.len()) {
        Ok(v) => v,
        Err(_) => {
            proof {
                assert(false);
            }
            Vec::new()
        },
    };
    let l: usize = find_knot(t, &knots);
    let point: Vec2 = de_boors(&curve.points, t, &knots, l);
    let diff: Vec2 = obj.position.minus(point);
    let mut normal: Vec2 = diff.unit();
    let side: (bool, SplineColliderInfo) = point_inside(
        obj.position,
        &curve.points,
        memory.as_ref(),
    );
    let inside: bool = side.0;
    if inside {
        normal = normal.negated();
    } else {
        *memory = Some(side.1);
    }
    let rt: i64 = radius + thickness;
    let overground: Vec2 = point.plus(scale_unit(normal, rt));
    let vel: Vec2 = obj.position.minus(obj.position_old);
    let w: Vec2 = obj.position_old.plus(vel).minus(overground);
    proof {
        lemma_dot_bound(w, normal, 102000000000000int, SCALE as int);
        lemma_trunc_div_bound(dot_s(w, normal), SCALE as int, 204000000000000int);
        lemma_dot_bound(diff, normal, 102000000000000int, SCALE as int);
        lemma_trunc_div_bound(dot_s(diff, normal), SCALE as int, 204000000000000int);
    }
    let off: i64 = div_trunc_i128(w.dot_wide(normal), SCALE as i128) as i64 + CONTACT_BIAS;
    if off < 0 {
        obj.position_old = obj.position_old.minus(scale_unit(normal, off));
    }
    let pen: i64 = div_trunc_i128(diff.dot_wide(normal), SCALE as i128) as i64;
    let rep: Option<Collision> = if pen < rt {
        obj.position = overground;
        Some(Collision { other: curve_id, point, normal })
    } else {
        None
    };
    proof {
        assert(nearest_ok(ps, q0, t as int));
    }
    rep
}


/// The per-(object, curve) memory, keyed by curve index, persisted across
/// frames.
#[derive(Debug)]
pub struct SplineMemory {
    pub spline_intersections: Vec<Option<SplineColliderInfo>>,
}

/// An object whose positions are still inside the range the resolver
/// accepts; the pipeline skips a pair that has left it.
pub open spec fn pair_ok(o: VerletObject) -> bool {
    o.position.within(POS_LIMIT as int) && o.position_old.within(POS_LIMIT as int)
}

/// One pipeline step of an object against one curve: a resolution at some
/// parameter carrying the solver's guarantee, or no change at all when the
/// object's coordinates have left the accepted range.
pub open spec fn collide_step_rel(
    o: VerletObject,
    m: Option<SplineColliderInfo>,
    ps: Seq<Vec2>,
    cid: int,
    radius: int,
    thickness: int,
    o2: VerletObject,
    m2: Option<SplineColliderInfo>,
    added: Option<Collision>,
) -> bool {
    if pair_ok(o) {
        exists|t: int|
            #[trigger] nearest_ok(ps, o.position, t) && resolve_rel(
                o,
                ps,
                m,
                t,
                radius,
                thickness,
                cid,
                o2,
                m2,
                added,
            )
    } else {
        o2 == o && m2 == m && added is None
    }
}

/// A report list after an optional contact was appended.
pub open spec fn reports_after(r: Seq<Collision>, added: Option<Collision>) -> Seq<Collision> {
    match added {
        Some(c) => r.push(c),
        None => r,
    }
}

/// The contact one step appended, read off the report lists before and
/// after it.
pub open spec fn added_of(r1: Seq<Collision>, r2: Seq<Collision>) -> Option<Collision> {
    if r2.len() == r1.len() + 1 {
        Some(r2[r2.len() - 1])
    } else {
        None
    }
}

/// The state one object carries through the pipeline: the object, its
/// per-curve memories, and its report list.
pub open spec fn collide_step_full(
    s1: (VerletObject, Seq<Option<SplineColliderInfo>>, Seq<Collision>),
    s2: (VerletObject, Seq<Option<SplineColliderInfo>>, Seq<Collision>),
    ps: Seq<Vec2>,
    cid: int,
    radius: int,
    thickness: int,
) -> bool {
    let add = added_of(s1.2, s2.2);
    &&& 0 <= cid < s1.1.len()
    &&& s2.1 == s1.1.update(cid, s2.1[cid])
    &&& s2.2 == reports_after(s1.2, add)
    &&& collide_step_rel(s1.0, s1.1[cid], ps, cid, radius, thickness, s2.0, s2.1[cid], add)
}

/// The object's state is carried from `sa` to `sb` by processing the
/// curves with indices `i .. j`, in enumeration order. This chain is what
/// makes the pipeline's processing order part of its contract.
pub open spec fn collide_chain_rel(
    sa: (VerletObject, Seq<Option<SplineColliderInfo>>, Seq<Collision>),
    curves: Seq<Curve>,
    radius: int,
    thickness: int,
    i: int,
    j: int,
    sb: (VerletObject, Seq<Option<SplineColliderInfo>>, Seq<Collision>),
) -> bool
    decreases j - i,
{
    if i >= j {
        sb == sa
    } else {
        exists|mid: (VerletObject, Seq<Option<SplineColliderInfo>>, Seq<Collision>)|
            #[trigger] collide_step_full(sa, mid, curves[i].points@, i, radius, thickness)
                && collide_chain_rel(mid, curves, radius, thickness, i + 1, j, sb)
    }
}

/// A chain over `i .. j` followed by one more step at curve `j` is a
/// chain over `i .. j + 1`.
pub proof fn lemma_chain_snoc(
    sa: (VerletObject, Seq<Option<SplineColliderInfo>>, Seq<Collision>),
    curves: Seq<Curve>,
    radius: int,
    thickness: int,
    i: int,
    j: int,
    s1: (VerletObject, Seq<Option<SplineColliderInfo>>, Seq<Collision>),
    s2: (VerletObject, Seq<Option<SplineColliderInfo>>, Seq<Collision>),
)
    requires
        0 <= i <= j < curves.len(),
        collide_chain_rel(sa, curves, radius, thickness, i, j, s1),
        collide_step_full(s1, s2, curves[j].points@, j, radius, thickness),
    ensures
        collide_chain_rel(sa, curves, radius, thickness, i, j + 1, s2),
    decreases j - i,
{
    if i >= j {
        assert(s1 == sa);
        assert(collide_step_full(sa, s2, curves[i].points@, i, radius, thickness));
        assert(collide_chain_rel(s2, curves, radius, thickness, i + 1, j + 1, s2));
    } else {
        let mid = choose|mid: (VerletObject, Seq<Option<SplineColliderInfo>>, Seq<Collision>)|
            #[trigger] collide_step_full(sa, mid, curves[i].points@, i, radius, thickness)
                && collide_chain_rel(mid, curves, radius, thickness, i + 1, j, s1);
        lemma_chain_snoc(mid, curves, radius, thickness, i + 1, j, s1, s2);
    }
}

/// Runs one object against every curve, in curve order, threading the
/// object's position corrections, memories and reports through the whole
/// chain. Contacts are appended to the current report list only; the
/// snapshot list stays untouched.
pub fn collide_object(
    obj: &mut VerletObject,
    collider: &mut Collider,
    memory: &mut SplineMemory,
    curves: &Vec<Curve>,
    radius: i64,
    thickness: i64,
)
    requires
        forall|j: int| 0 <= j < curves@.len() ==> (#[trigger] curves@[j]).wf(),
        old(memory).spline_intersections@.len() == curves@.len(),
        forall|j: int|
            0 <= j < curves@.len() ==> ((#[trigger] old(memory).spline_intersections@[j])
                matches Some(m) ==> info_wf(m)),
        0 <= radius,
        0 <= thickness,
        radius + thickness <= RADIUS_LIMIT,
    ensures
        collide_chain_rel(
            (*old(obj), old(memory).spline_intersections@, old(collider).collisions@),
            curves@,
            radius as int,
            thickness as int,
            0,
            curves@.len() as int,
            (*final(obj), final(memory).spline_intersections@, final(collider).collisions@),
        ),
        final(collider).collisions_old@ == old(collider).collisions_old@,
        final(memory).spline_intersections@.len() == curves@.len(),
        forall|j: int|
            0 <= j < curves@.len() ==> ((#[trigger] final(memory).spline_intersections@[j])
                matches Some(m) ==> info_wf(m)),
{
    let ghost s0 = (*obj, memory.spline_intersections@, collider.collisions@);
    let n: usize = curves.len();
    let mut j: usize = 0;
    while j < n
        invariant
            n == curves@.len(),
            forall|k: int| 0 <= k < n ==> (#[trigger] curves@[k]).wf(),
            0 <= radius,
            0 <= thickness,
            radius + thickness <= RADIUS_LIMIT,
            j <= n,
            memory.spline_intersections@.len() == n,
            forall|k: int|
                0 <= k < n ==> ((#[trigger] memory.spline_intersections@[k]) matches Some(m)
                    ==> info_wf(m)),
            collide_chain_rel(
                s0,
                curves@,
                radius as int,
                thickness as int,
                0,
                j as int,
                (*obj, memory.spline_intersections@, collider.collisions@),
            ),
            collider.collisions_old@ == old(collider).collisions_old@,
            s0 == (*old(obj), old(memory).spline_intersections@, old(collider).collisions@),
        decreases n - j,
    {
        let ghost s_pre = (*obj, memory.spline_intersections@, collider.collisions@);
        let ok: bool = obj.position.x <= POS_LIMIT && obj.position.x >= -POS_LIMIT
            && obj.position.y <= POS_LIMIT && obj.position.y >= -POS_LIMIT
            && obj.position_old.x <= POS_LIMIT && obj.position_old.x >= -POS_LIMIT
            && obj.position_old.y <= POS_LIMIT && obj.position_old.y >= -POS_LIMIT;
        if ok {
            let mut slot: Option<SplineColliderInfo> = memory.spline_intersections[j];
            let rep: Option<Collision> = resolve_collision(
                obj,
                &curves[j],
                j,
                &mut slot,
                radius,
                thickness,
            );
            memory.spline_intersections[j] = slot;
            match rep {
                Some(c) => collider.collisions.push(c),
                None => {},
            }
            proof {
                let s_now = (*obj, memory.spline_intersections@, collider.collisions@);
                assert(added_of(s_pre.2, s_now.2) == rep);
                assert(collide_step_rel(
                    s_pre.0,
                    s_pre.1[j as int],
                    curves@[j as int].points@,
                    j as int,
                    radius as int,
                    thickness as int,
                    s_now.0,
                    s_now.1[j as int],
                    rep,
                ));
                assert(collide_step_full(
                    s_pre,
                    s_now,
                    curves@[j as int].points@,
                    j as int,
                    radius as int,
                    thickness as int,
                ));
                lemma_chain_snoc(
                    s0,
                    curves@,
                    radius as int,
                    thickness as int,
                    0,
                    j as int,
                    s_pre,
                    s_now,
                );
            }
        } else {
            proof {
                let s_now = (*obj, memory.spline_intersections@, collider.collisions@);
                assert(s_now == s_pre);
                assert(s_pre.1.update(j as int, s_pre.1[j as int]) =~= s_pre.1);
                assert(collide_step_full(
                    s_pre,
                    s_now,
                    curves@[j as int].points@,
                    j as int,
                    radius as int,
                    thickness as int,
                ));
                lemma_chain_snoc(
                    s0,
                    curves@,
                    radius as int,
                    thickness as int,
                    0,
                    j as int,
                    s_pre,
                    s_now,
                );
            }
        }
        j = j + 1;
    }
}

/// One collision pass over every object and every curve: objects are
/// independent of one another, and each object meets the curves in their
/// enumeration order.
pub fn collide(
    objects: &mut Vec<VerletObject>,
    colliders: &mut Vec<Collider>,
    memories: &mut Vec<SplineMemory>,
    curves: &Vec<Curve>,
    radius: i64,
    thickness: i64,
)
    requires
        old(colliders)@.len() == old(objects)@.len(),
        old(memories)@.len() == old(objects)@.len(),
        forall|j: int| 0 <= j < curves@.len() ==> (#[trigger] curves@[j]).wf(),
        forall|i: int|
            0 <= i < old(memories)@.len() ==> (#[trigger] old(memories)@[i]).spline_intersections@.len() == curves@.len(),
        forall|i: int, j: int|
            0 <= i < old(memories)@.len() && 0 <= j < curves@.len() ==> ((#[trigger] old(memories)@[i].spline_intersections@[j]) matches Some(m) ==> info_wf(m)),
        0 <= radius,
        0 <= thickness,
        radius + thickness <= RADIUS_LIMIT,
    ensures
        final(objects)@.len() == old(objects)@.len(),
        final(colliders)@.len() == old(colliders)@.len(),
        final(memories)@.len() == old(memories)@.len(),
        forall|i: int|
            0 <= i < old(objects)@.len() ==> collide_chain_rel(
                (
                    old(objects)@[i],
                    old(memories)@[i].spline_intersections@,
                    old(colliders)@[i].collisions@,
                ),
                curves@,
                radius as int,
                thickness as int,
                0,
                curves@.len() as int,
                (
                    #[trigger] final(objects)@[i],
                    final(memories)@[i].spline_intersections@,
                    final(colliders)@[i].collisions@,
                ),
            ),
        forall|i: int|
            0 <= i < old(colliders)@.len() ==> (#[trigger] final(colliders)@[i]).collisions_old@
                == old(colliders)@[i].collisions_old@,
        forall|i: int|
            0 <= i < old(memories)@.len() ==> (#[trigger] final(memories)@[i]).spline_intersections@.len() == curves@.len(),
        forall|i: int, j: int|
            0 <= i < old(memories)@.len() && 0 <= j < curves@.len() ==> ((#[trigger] final(memories)@[i].spline_intersections@[j]) matches Some(m) ==> info_wf(m)),
{
    let n: usize = objects.len();
    let mut i: usize = 0;
    while i < n
        invariant
            n == objects@.len(),
            n == old(objects)@.len(),
            colliders@.len() == n,
            memories@.len() == n,
            forall|j: int| 0 <= j < curves@.len() ==> (#[trigger] curves@[j]).wf(),
            0 <= radius,
            0 <= thickness,
            radius + thickness <= RADIUS_LIMIT,
            i <= n,
            forall|k: int| i <= k < n ==> #[trigger] objects@[k] == old(objects)@[k],
            forall|k: int|
                i <= k < n ==> (#[trigger] colliders@[k]).collisions@ == old(
                    colliders,
                )@[k].collisions@,
            forall|k: int|
                0 <= k < n ==> (#[trigger] colliders@[k]).collisions_old@ == old(
                    colliders,
                )@[k].collisions_old@,
            forall|k: int|
                i <= k < n ==> (#[trigger] memories@[k]).spline_intersections@ == old(
                    memories,
                )@[k].spline_intersections@,
            forall|k: int|
                0 <= k < n ==> (#[trigger] memories@[k]).spline_intersections@.len()
                    == curves@.len(),
            forall|k: int, j: int|
                0 <= k < n && 0 <= j < curves@.len() ==> ((#[trigger] memories@[k].spline_intersections@[j])
                    matches Some(m) ==> info_wf(m)),
            forall|k: int|
                0 <= k < i ==> collide_chain_rel(
                    (
                        old(objects)@[k],
                        old(memories)@[k].spline_intersections@,
                        old(colliders)@[k].collisions@,
                    ),
                    curves@,
                    radius as int,
                    thickness as int,
                    0,
                    curves@.len() as int,
                    (
                        #[trigger] objects@[k],
                        memories@[k].spline_intersections@,
                        colliders@[k].collisions@,
                    ),
                ),
        decreases n - i,
    {
        let mut o: VerletObject = objects[i];
        let cref: &mut Collider = vstd::std_specs::vec::vec_index_mut(colliders, i);
        let mref: &mut SplineMemory = vstd::std_specs::vec::vec_index_mut(memories, i);
        collide_object(&mut o, cref, mref, curves, radius, thickness);
        objects[i] = o;
        i = i + 1;
    }
}



/// What rolling the report lists over does to the collider sequence.
pub open spec fn reset_collisions_phase(c0: Seq<Collider>, c1: Seq<Collider>) -> bool {
    &&& c1.len() == c0.len()
    &&& forall|i: int|
        0 <= i < c0.len() ==> (#[trigger] c1[i]).collisions@.len() == 0 && c1[i].collisions_old@
            == c0[i].collisions@
}

/// What one collision pass does to the parallel object, collider and
/// memory sequences: each object's state runs through the whole curve
/// chain, and the snapshot lists stay as they were.
pub open spec fn collide_mid_phase(
    o0: Seq<VerletObject>,
    c1: Seq<Collider>,
    m0: Seq<SplineMemory>,
    curves: Seq<Curve>,
    radius: int,
    thickness: int,
    o2: Seq<VerletObject>,
    c2: Seq<Collider>,
    m2: Seq<SplineMemory>,
) -> bool {
    &&& c1.len() == o0.len()
    &&& m0.len() == o0.len()
    &&& o2.len() == o0.len()
    &&& c2.len() == o0.len()
    &&& m2.len() == o0.len()
    &&& forall|i: int|
        0 <= i < o0.len() ==> collide_chain_rel(
            (o0[i], m0[i].spline_intersections@, c1[i].collisions@),
            curves,
            radius,
            thickness,
            0,
            curves.len() as int,
            (#[trigger] o2[i], m2[i].spline_intersections@, c2[i].collisions@),
        )
    &&& forall|i: int|
        0 <= i < o0.len() ==> (#[trigger] c2[i]).collisions_old@ == c1[i].collisions_old@
}


} // verus!
