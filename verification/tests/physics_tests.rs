//! Topology classification, Verlet integration, collision resolution and
//! the scene drivers.

use spline_sim::curve::build_curve;
use spline_sim::curve::Curve;
use spline_sim::num::SCALE;
use spline_sim::resolve::{collide, resolve_collision, SplineMemory};
use spline_sim::scene::{
    go_to_target, move_points, push, run_my_schedule, setup, tick, update_old_pos, PhySched,
    PhysicsPlugin, Scene,
};
use spline_sim::topology::{classify_side, goes_through_line, point_inside, SplineColliderInfo};
use spline_sim::vec2::Vec2;
use spline_sim::verlet::{
    apply_gravity, integrate, reset_collisions, update_position, Collider, Collision, Gravitate,
    VerletObject,
};

fn w(v: i64) -> i64 {
    v * SCALE
}

fn flat_points() -> Vec<Vec2> {
    let mut pts: Vec<Vec2> = Vec::new();
    for i in 0..6i64 {
        pts.push(Vec2 { x: w(-100 + 40 * i), y: 0 });
    }
    pts
}

fn flat_curve() -> Curve {
    build_curve(flat_points()).unwrap()
}

#[test]
fn ray_crossing_follows_the_half_open_rule() {
    let a = Vec2 { x: 0, y: w(10) };
    let b = Vec2 { x: w(10), y: w(10) };
    // segment strictly above the query, query x inside (0, 10]
    assert!(goes_through_line(a, b, Vec2 { x: w(5), y: 0 }));
    assert!(goes_through_line(a, b, Vec2 { x: w(10), y: 0 }));
    // fraction 0 is excluded, fraction above 1 as well
    assert!(!goes_through_line(a, b, Vec2 { x: 0, y: 0 }));
    assert!(!goes_through_line(a, b, Vec2 { x: w(11), y: 0 }));
    // segment below the query does not count
    assert!(!goes_through_line(a, b, Vec2 { x: w(5), y: w(20) }));
    // a vertical segment never counts
    let c = Vec2 { x: w(5), y: 0 };
    let d = Vec2 { x: w(5), y: w(10) };
    assert!(!goes_through_line(c, d, Vec2 { x: w(5), y: -w(1) }));
}

#[test]
fn point_inside_baseline_reports_outside_and_stores_memory() {
    // six control points on a flat line at y = 0 spanning x = [-100, 100];
    // the object sits below at (0, -10)
    let pts = flat_points();
    let q = Vec2 { x: 0, y: w(-10) };
    let (inside, m) = point_inside(q, &pts, None);
    assert!(!inside, "first call only establishes a baseline");
    // exactly one segment straddles the query's vertical and passes above
    assert_eq!(m.intersections, 1);
    // the first endpoint is left of the query and level with it, the last
    // is to its right
    assert_eq!(m.start_sector, 1);
    assert_eq!(m.end_sector, 0);
    // a second call with the stored memory and unmoved geometry must not
    // flip the parity
    let (inside2, m2) = point_inside(q, &pts, Some(&m));
    assert!(!inside2, "no spurious flip when nothing moved");
    assert_eq!(m2, m);
}

#[test]
fn classify_side_is_stable_across_repeated_calls() {
    let c = flat_curve();
    let q = Vec2 { x: w(3), y: w(-7) };
    let (_, m) = classify_side(&c, q, None);
    let first = classify_side(&c, q, Some(&m));
    let second = classify_side(&c, q, Some(&m));
    assert_eq!(first.0, second.0);
    assert_eq!(first.1, second.1);
}

#[test]
fn classify_side_flips_on_parity_change() {
    let c = flat_curve();
    // baseline taken below the curve, then the query reappears above it:
    // the crossing count changes parity while the sectors keep their
    // codes, so the tracker reports the other side
    let below = Vec2 { x: 0, y: w(-10) };
    let above = Vec2 { x: 0, y: w(10) };
    let (_, m) = classify_side(&c, below, None);
    let (inside, _) = classify_side(&c, above, Some(&m));
    assert!(inside, "crossing the boundary must flip the corrected parity");
}

#[test]
fn endpoint_sweep_corrects_the_parity() {
    // a stored start sector of 0 against a new start sector of 1 means the
    // curve's free end swept across the query's vertical: the modifier
    // must shift the parity even though the crossing count is unchanged
    let pts = flat_points();
    let q = Vec2 { x: 0, y: w(-10) };
    let (_, m) = point_inside(q, &pts, None);
    assert_eq!((m.intersections, m.start_sector, m.end_sector), (1, 1, 0));
    let swept = SplineColliderInfo { intersections: 1, start_sector: 0, end_sector: 0 };
    let (inside, _) = point_inside(q, &pts, Some(&swept));
    assert!(inside, "a swept start sector must shift the corrected parity");
    let unswept = SplineColliderInfo { intersections: 1, start_sector: 1, end_sector: 0 };
    let (inside2, _) = point_inside(q, &pts, Some(&unswept));
    assert!(!inside2);
}

#[test]
fn verlet_integration_step_is_exact() {
    // position (0, 100), previous (0, 100), acceleration (0, -10),
    // dt = 0.1: the new position is exactly (0, 99.9)
    let mut o = VerletObject {
        position: Vec2 { x: 0, y: w(100) },
        position_old: Vec2 { x: 0, y: w(100) },
        acceleration: Vec2 { x: 0, y: w(-10) },
    };
    integrate(&mut o, SCALE / 10);
    assert_eq!(o.position, Vec2 { x: 0, y: 99_900_000 });
    assert_eq!(o.position_old, Vec2 { x: 0, y: w(100) });
    assert_eq!(o.acceleration, Vec2 { x: 0, y: 0 });
}

#[test]
fn update_position_advances_every_object() {
    let mut objects = vec![
        VerletObject {
            position: Vec2 { x: 0, y: w(100) },
            position_old: Vec2 { x: 0, y: w(99) },
            acceleration: Vec2 { x: 0, y: 0 },
        },
    ];
    update_position(&mut objects, SCALE / 10);
    // velocity carries the object one more unit upward
    assert_eq!(objects[0].position, Vec2 { x: 0, y: w(101) });
    assert_eq!(objects[0].position_old, Vec2 { x: 0, y: w(100) });
}

#[test]
fn apply_gravity_touches_only_marked_objects() {
    let still = VerletObject {
        position: Vec2 { x: 0, y: 0 },
        position_old: Vec2 { x: 0, y: 0 },
        acceleration: Vec2 { x: 0, y: 0 },
    };
    let mut objects = vec![still, still];
    let marks = vec![Some(Gravitate()), None];
    apply_gravity(&mut objects, &marks, Vec2 { x: 0, y: w(-10) });
    assert_eq!(objects[0].acceleration, Vec2 { x: 0, y: w(-10) });
    assert_eq!(objects[1].acceleration, Vec2 { x: 0, y: 0 });
}

#[test]
fn reset_collisions_rolls_reports_over() {
    let mut c = Collider::new();
    let report = Collision {
        other: 0,
        point: Vec2 { x: 0, y: 0 },
        normal: Vec2 { x: 0, y: SCALE },
    };
    c.collisions.push(report);
    let mut colliders = vec![c];
    reset_collisions(&mut colliders);
    assert!(colliders[0].collisions.is_empty());
    assert_eq!(colliders[0].collisions_old.len(), 1);
    assert_eq!(colliders[0].collisions_old[0], report);
}

#[test]
fn add_collision_fills_both_lists() {
    let mut c = Collider::new();
    let report = Collision {
        other: 3,
        point: Vec2 { x: w(1), y: 0 },
        normal: Vec2 { x: 0, y: SCALE },
    };
    c.add_collision(report);
    assert_eq!(c.collisions, vec![report]);
    assert_eq!(c.collisions_old, vec![report]);
}

#[test]
fn resolver_snaps_a_penetrating_object_to_the_clearance_surface() {
    // clearance 30 units (radius 25 + thickness 5), actual distance 10:
    // the object must be pushed out to exactly the clearance surface and
    // a report returned
    let c = flat_curve();
    let mut obj = VerletObject {
        position: Vec2 { x: 0, y: w(10) },
        position_old: Vec2 { x: 0, y: w(10) },
        acceleration: Vec2 { x: 0, y: 0 },
    };
    let mut memory: Option<SplineColliderInfo> = None;
    let rep = resolve_collision(&mut obj, &c, 0, &mut memory, w(25), w(5));
    let rep = rep.expect("a penetrating object must produce a report");
    assert_eq!(rep.other, 0);
    assert!(memory.is_some(), "an outside verdict stores a baseline memory");
    // the new position sits radius + thickness along the normal from the
    // contact point, within fixed-point rounding
    let dx = (obj.position.x - rep.point.x) as i128;
    let dy = (obj.position.y - rep.point.y) as i128;
    let along = (dx * rep.normal.x as i128 + dy * rep.normal.y as i128) / SCALE as i128;
    let err = (along - w(30) as i128).abs();
    assert!(err <= w(1) as i128 / 100, "clearance off by {err} fixed units");
    // the Verlet history was pulled out behind the surface as well
    assert!(obj.position_old.y >= w(29));
}

#[test]
fn resolver_leaves_a_distant_object_alone() {
    let c = flat_curve();
    let start = VerletObject {
        position: Vec2 { x: 0, y: w(200) },
        position_old: Vec2 { x: 0, y: w(200) },
        acceleration: Vec2 { x: 0, y: 0 },
    };
    let mut obj = start;
    let mut memory: Option<SplineColliderInfo> = None;
    let rep = resolve_collision(&mut obj, &c, 0, &mut memory, w(25), w(5));
    assert!(rep.is_none());
    assert_eq!(obj.position, start.position);
    assert_eq!(obj.position_old, start.position_old);
}

#[test]
fn collide_runs_every_object_against_every_curve() {
    let curves = vec![flat_curve()];
    let mut objects = vec![
        VerletObject {
            position: Vec2 { x: 0, y: w(10) },
            position_old: Vec2 { x: 0, y: w(10) },
            acceleration: Vec2 { x: 0, y: 0 },
        },
    ];
    let mut colliders = vec![Collider::new()];
    let mut memories = vec![SplineMemory { spline_intersections: vec![None] }];
    collide(&mut objects, &mut colliders, &mut memories, &curves, w(25), w(5));
    assert_eq!(colliders[0].collisions.len(), 1, "the penetrating object must report");
    assert!(memories[0].spline_intersections[0].is_some());
    assert!(objects[0].position.y > w(29), "the object was pushed out");
}

#[test]
fn control_point_dynamics_formulas_are_exact() {
    // relaxation: 98 percent of the position plus 2 percent of the target
    let mut positions = vec![Vec2 { x: w(100), y: 0 }, Vec2 { x: 0, y: w(50) },
        Vec2 { x: 0, y: 0 }, Vec2 { x: w(1), y: w(1) }];
    let targets = vec![Vec2 { x: 0, y: 0 }, Vec2 { x: 0, y: w(50) },
        Vec2 { x: 0, y: 0 }, Vec2 { x: w(1), y: w(1) }];
    go_to_target(&mut positions, &targets);
    assert_eq!(positions[0], Vec2 { x: w(98), y: 0 });
    assert_eq!(positions[1], Vec2 { x: 0, y: w(50) });

    // a pusher at the origin drives a point at distance 100 outward
    let mut pushed = vec![Vec2 { x: w(100), y: 0 }, Vec2 { x: w(300), y: 0 },
        Vec2 { x: w(320), y: 0 }, Vec2 { x: w(340), y: 0 }];
    push(&mut pushed, Vec2 { x: 0, y: 0 });
    assert_eq!(pushed[0], Vec2 { x: 121_315_780, y: 0 });
    // points beyond the reach stay put
    assert_eq!(pushed[1], Vec2 { x: w(300), y: 0 });

    // vertical offsets move only the y coordinate
    let mut moved = vec![Vec2 { x: w(5), y: w(7) }; 4];
    let offsets = vec![200_000i64, -200_000, 0, 1];
    move_points(&mut moved, &offsets);
    assert_eq!(moved[0], Vec2 { x: w(5), y: w(7) + 200_000 });
    assert_eq!(moved[1], Vec2 { x: w(5), y: w(7) - 200_000 });

    // the history buffer copies the current positions
    let mut old = vec![Vec2 { x: 0, y: 0 }; 4];
    update_old_pos(&moved, &mut old);
    assert_eq!(old, moved);
}

fn small_scene() -> Scene {
    let heights = vec![0i64; 6];
    setup(&heights)
}

#[test]
fn setup_builds_the_documented_scene() {
    let scene = small_scene();
    assert_eq!(scene.curves.len(), 1);
    let pts = &scene.curves[0].points;
    assert_eq!(pts.len(), 6);
    assert_eq!(pts[0], Vec2 { x: w(-1000), y: 0 });
    assert_eq!(pts[5], Vec2 { x: w(-1000) + 5 * w(40), y: 0 });
    assert_eq!(scene.control_targets, *pts);
    assert_eq!(scene.pusher, Vec2 { x: 0, y: w(1000) });
    assert_eq!(scene.objects.len(), 1);
    assert_eq!(scene.objects[0].position, Vec2 { x: w(100), y: w(300) });
    assert!(scene.gravitate[0].is_some());
    assert!(scene.colliders[0].collisions.is_empty());
    assert_eq!(scene.memories[0].spline_intersections, vec![None]);
}

#[test]
fn tick_applies_gravity_then_integrates() {
    let mut scene = small_scene();
    let cfg = PhysicsPlugin { gravity: Vec2 { x: 0, y: w(-10) }, radius: w(60), thickness: w(5) };
    // far from the boundary, one tick of dt = 0.1 is pure free fall
    tick(&mut scene, &cfg, SCALE / 10);
    assert_eq!(scene.objects[0].position, Vec2 { x: w(100), y: w(300) - 100_000 });
    assert_eq!(scene.objects[0].position_old, Vec2 { x: w(100), y: w(300) });
    assert_eq!(scene.objects[0].acceleration, Vec2 { x: 0, y: 0 });
    // the second tick keeps the velocity and adds the same pull again
    tick(&mut scene, &cfg, SCALE / 10);
    assert_eq!(scene.objects[0].position, Vec2 { x: w(100), y: w(300) - 300_000 });
}

#[test]
fn run_my_schedule_preserves_the_scene_shape() {
    let mut scene = small_scene();
    let cfg = PhysicsPlugin { gravity: Vec2 { x: 0, y: w(-10) }, radius: w(60), thickness: w(5) };
    let sched = PhySched { dt: 16_000, substeps: 8 };
    run_my_schedule(&mut scene, &sched, &cfg);
    assert_eq!(scene.objects.len(), 1);
    assert_eq!(scene.colliders.len(), 1);
    assert_eq!(scene.memories.len(), 1);
    assert!(scene.objects[0].position.y < w(300), "gravity must pull the player down");
}
