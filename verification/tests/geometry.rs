use corrosive_physics::aabb::AABB;
use corrosive_physics::fx::{fx_div, fx_mul, half64, Half, Two};
use corrosive_physics::oriented::OBB;
use corrosive_physics::quat::Quat;
use corrosive_physics::inertia::Transformer;
use corrosive_physics::trig::{fx_cos, fx_sin, fx_sqrt, FX_PI};
use corrosive_physics::vec3::V3;
use corrosive_physics::model::{IndexBuffer, PhysicsMesh, VertexBuffer};
use corrosive_physics::separated_axis::intersects_obb_aabb_2d;
use corrosive_physics::vec3::V2;
use corrosive_physics::volume::BVIntersector;

const ONE: i64 = 65536;

fn fx(v: f64) -> i64 {
    (v * 65536.0).round() as i64
}

fn v(x: f64, y: f64, z: f64) -> V3 {
    V3 { x: fx(x), y: fx(y), z: fx(z) }
}

fn unit_scale() -> V3 {
    V3 { x: ONE, y: ONE, z: ONE }
}

fn cube_at(x: f64, y: f64, z: f64, half: f64, rot: Quat) -> OBB {
    OBB {
        half_size: v(half, half, half),
        transform: Transformer::new(v(x, y, z), rot, unit_scale(), v(0.0, 0.0, 0.0)),
    }
}

fn quat_y(angle: f64) -> Quat {
    Quat { i: 0, j: fx((angle / 2.0).sin()), k: 0, w: fx((angle / 2.0).cos()) }
}

#[test]
fn scalar_ops_are_exact() {
    assert_eq!(fx_mul(3 * ONE, 2 * ONE), 6 * ONE);
    assert_eq!(fx_mul(-3 * ONE, 2 * ONE), -6 * ONE);
    assert_eq!(fx_mul(ONE / 2, ONE / 2), ONE / 4);
    assert_eq!(fx_div(6 * ONE, 2 * ONE), 3 * ONE);
    assert_eq!(fx_div(ONE, 3), (ONE as i128 * ONE as i128 / 3) as i64);
    assert_eq!(half64(5), 2);
    assert_eq!(half64(-5), -2);
    assert_eq!(<i64 as Two>::two(), 2 * ONE);
    assert_eq!(<i64 as Half>::half(), ONE / 2);
}

#[test]
fn sqrt_is_the_exact_floor() {
    for value in [0i64, 1, ONE, 4 * ONE, 100 * ONE, 12345678] {
        let r = fx_sqrt(value);
        let target = value as i128 * ONE as i128;
        assert!(r as i128 * r as i128 <= target);
        assert!((r as i128 + 1) * (r as i128 + 1) > target);
    }
    assert_eq!(fx_sqrt(4 * ONE), 2 * ONE);
}

#[test]
fn sine_and_cosine_track_the_circle() {
    let cases = [0.0f64, 0.5, 1.0, std::f64::consts::FRAC_PI_2, 2.0, 3.0, -1.0, -2.5];
    for a in cases {
        let s = fx_sin(fx(a)) as f64 / 65536.0;
        let c = fx_cos(fx(a)) as f64 / 65536.0;
        assert!((s - a.sin()).abs() < 2e-3, "sin({a}) = {s}");
        assert!((c - a.cos()).abs() < 2e-3, "cos({a}) = {c}");
    }
    assert_eq!(fx_sin(0), 0);
    assert!((fx_sin(FX_PI / 2) - ONE).abs() <= 64);
}

#[test]
fn grown_boxes_stay_valid() {
    // a fresh box is in the empty sentinel state; any grow sequence leaves it
    // valid with min at most max on every axis
    let mut a = AABB::new();
    assert!(a.min.x > a.max.x);
    a.grow(&v(1.0, 2.0, 3.0));
    assert_eq!(a.min, v(1.0, 2.0, 3.0));
    assert_eq!(a.max, v(1.0, 2.0, 3.0));
    a.grow(&v(-1.0, 5.0, 0.0));
    assert!(a.min.x <= a.max.x && a.min.y <= a.max.y && a.min.z <= a.max.z);
    assert_eq!(a.min, v(-1.0, 2.0, 0.0));
    assert_eq!(a.max, v(1.0, 5.0, 3.0));

    // growing by an empty box is a no-op
    let before = a;
    let empty = AABB::new();
    a.grow_other(&empty);
    assert_eq!(a, before);

    // the union covers both operands
    let mut b = AABB::new();
    b.grow(&v(10.0, 10.0, 10.0));
    let mut u = AABB::new();
    u.adjust(&a, &b);
    assert_eq!(u.min, v(-1.0, 2.0, 0.0));
    assert_eq!(u.max, v(10.0, 10.0, 10.0));
}

#[test]
fn box_box_overlap_is_closed_and_symmetric() {
    let mut a = AABB::new();
    a.grow(&v(0.0, 0.0, 0.0));
    a.grow(&v(1.0, 1.0, 1.0));
    let mut b = AABB::new();
    b.grow(&v(1.0, 0.0, 0.0));
    b.grow(&v(2.0, 1.0, 1.0));
    let mut c = AABB::new();
    c.grow(&v(1.5, 0.0, 0.0));
    c.grow(&v(2.0, 1.0, 1.0));
    // touching counts as overlap
    assert!(a.intersects(&b));
    assert!(b.intersects(&a));
    assert!(!a.intersects(&c));
    assert!(!c.intersects(&a));
}

#[test]
fn separated_overlapping_and_touching_cubes() {
    // two axis-aligned boxes of size one: apart, overlapping, and touching
    // (the closed test reports touching as overlap)
    let a = cube_at(0.0, 0.0, 0.0, 0.5, Quat { i: 0, j: 0, k: 0, w: ONE });
    let apart = cube_at(2.0, 0.0, 0.0, 0.5, Quat { i: 0, j: 0, k: 0, w: ONE });
    let overlapping = cube_at(0.9, 0.0, 0.0, 0.5, Quat { i: 0, j: 0, k: 0, w: ONE });
    let touching = cube_at(1.0, 0.0, 0.0, 0.5, Quat { i: 0, j: 0, k: 0, w: ONE });
    assert!(!a.intersects(&apart));
    assert!(a.intersects(&overlapping));
    assert!(a.intersects(&touching));
    // the oriented pairing answers the same both ways on these boxes
    assert_eq!(a.intersects(&apart), apart.intersects(&a));
    assert_eq!(a.intersects(&overlapping), overlapping.intersects(&a));
    assert_eq!(a.intersects(&touching), touching.intersects(&a));
}

#[test]
fn rotated_cube_meets_across_the_diagonal() {
    // box A of half size one half; box B equal but turned a quarter of a
    // right angle about the vertical, so its horizontal reach grows to half
    // the diagonal: contact at 0.5 + sqrt(2)/2
    let contact = 0.5 + std::f64::consts::SQRT_2 / 2.0;
    let a = cube_at(0.0, 0.0, 0.0, 0.5, Quat { i: 0, j: 0, k: 0, w: ONE });
    let near = cube_at(contact - 0.01, 0.0, 0.0, 0.5, quat_y(std::f64::consts::FRAC_PI_4));
    let far = cube_at(contact + 0.01, 0.0, 0.0, 0.5, quat_y(std::f64::consts::FRAC_PI_4));
    assert!(a.intersects(&near));
    assert!(!a.intersects(&far));
    assert_eq!(a.intersects(&near), near.intersects(&a));
    assert_eq!(a.intersects(&far), far.intersects(&a));
}

#[test]
fn oriented_box_against_world_box() {
    let o = cube_at(0.0, 0.0, 0.0, 0.5, quat_y(std::f64::consts::FRAC_PI_4));
    let mut near = AABB::new();
    near.grow(&v(0.6, -0.4, -0.4));
    near.grow(&v(1.6, 0.4, 0.4));
    let mut far = AABB::new();
    far.grow(&v(0.8, -0.4, -0.4));
    far.grow(&v(1.8, 0.4, 0.4));
    // the diagonal reaches out to sqrt(2)/2, past 0.707
    assert!(o.intersects(&near));
    assert!(!o.intersects(&far));
    // the delegated pairing agrees exactly
    assert_eq!(o.intersects(&near), near.intersects(&o));
    assert_eq!(o.intersects(&far), far.intersects(&o));
}

#[test]
fn points_inside_and_outside() {
    let mut a = AABB::new();
    a.grow(&v(0.0, 0.0, 0.0));
    a.grow(&v(1.0, 1.0, 1.0));
    let inside = v(0.5, 0.5, 0.5);
    let border = v(1.0, 1.0, 1.0);
    let outside = v(1.5, 0.5, 0.5);
    assert!(inside.intersects(&a));
    assert!(border.intersects(&a));
    assert!(!outside.intersects(&a));
    assert_eq!(a.intersects(&inside), inside.intersects(&a));

    let o = cube_at(0.0, 0.0, 0.0, 0.5, quat_y(std::f64::consts::FRAC_PI_4));
    // along the diagonal the rotated box reaches past a half
    let reach = v(0.6, 0.0, 0.0);
    assert!(reach.intersects(&o));
    let beyond = v(0.8, 0.0, 0.0);
    assert!(!beyond.intersects(&o));
    // a point never hits a point
    assert!(!inside.intersects(&outside));
    assert!(!outside.intersects(&inside));
}

#[test]
fn wrap_encloses_the_rotated_box() {
    let o = cube_at(1.0, 2.0, 3.0, 0.5, quat_y(std::f64::consts::FRAC_PI_4));
    let w = o.wrap();
    assert!(w.min.x <= w.max.x && w.min.y <= w.max.y && w.min.z <= w.max.z);
    // the horizontal extent grows to half the diagonal, the vertical stays
    let ext_x = (w.max.x - w.min.x) as f64 / 65536.0 / 2.0;
    let ext_y = (w.max.y - w.min.y) as f64 / 65536.0 / 2.0;
    assert!((ext_x - std::f64::consts::SQRT_2 / 2.0).abs() < 1e-3, "{ext_x}");
    assert!((ext_y - 0.5).abs() < 1e-3, "{ext_y}");
    // corners of the box stay inside the wrap
    assert!(v(1.0, 2.0, 3.0).intersects(&w));
}

#[test]
fn oriented_box_test_is_monotone_at_odd_raw_coordinates() {
    // a rotated box against a degenerate box at odd raw coordinates, then
    // against boxes enclosing it: growing the box never loses the hit,
    // whatever the rounding of the corner products
    let o = cube_at(0.0, 0.0, 0.0, 0.5, quat_y(std::f64::consts::FRAC_PI_4));
    let odd = V3 { x: 3 * ONE / 8 + 1, y: 1, z: 1 };
    let mut point_box = AABB::new();
    point_box.grow(&odd);
    assert!(o.intersects(&point_box));
    let mut grown = point_box;
    grown.grow(&V3 { x: odd.x + 1, y: odd.y + 3, z: odd.z + 1 });
    assert!(o.intersects(&grown));
    let mut wide = AABB::new();
    wide.grow(&V3 { x: -7 * ONE, y: -ONE - 1, z: -3 });
    wide.grow(&V3 { x: 9 * ONE + 5, y: ONE + 1, z: 7 });
    assert!(o.intersects(&wide));
}

#[test]
fn rotated_box_hits_its_own_wrap() {
    // the wrap is centered on the box's world center, so the box hits it,
    // and every box enclosing it, also at odd raw coordinates
    let o = cube_at(0.31, -2.47, 5.003, 0.5, quat_y(0.7));
    let w = o.wrap();
    assert!(o.intersects(&w));
    let mut big = w;
    big.grow(&V3 { x: w.min.x - 1, y: w.min.y - 1, z: w.min.z - 1 });
    assert!(o.intersects(&big));
}

#[test]
fn planar_oriented_box_against_world_box() {
    let ex = V2 { x: ONE, y: 0 };
    let ey = V2 { x: 0, y: ONE };
    // axis-aligned unit boxes: overlapping at half a unit, apart at two; the
    // planar kernel's two extra cross terms make exact touching separate
    assert!(intersects_obb_aabb_2d(&ex, &ey, &V2 { x: ONE / 2, y: 0 }, ONE / 2, ONE / 2, ONE / 2, ONE / 2));
    assert!(!intersects_obb_aabb_2d(&ex, &ey, &V2 { x: ONE, y: 0 }, ONE / 2, ONE / 2, ONE / 2, ONE / 2));
    assert!(!intersects_obb_aabb_2d(&ex, &ey, &V2 { x: 2 * ONE, y: 0 }, ONE / 2, ONE / 2, ONE / 2, ONE / 2));
    // an eighth of a turn: overlap deep inside, separation past the reach
    let c = fx((std::f64::consts::FRAC_PI_4).cos());
    let s = fx((std::f64::consts::FRAC_PI_4).sin());
    let a0 = V2 { x: c, y: s };
    let a1 = V2 { x: -s, y: c };
    assert!(intersects_obb_aabb_2d(&a0, &a1, &V2 { x: fx(0.5), y: 0 }, ONE / 2, ONE / 2, ONE / 2, ONE / 2));
    assert!(!intersects_obb_aabb_2d(&a0, &a1, &V2 { x: fx(0.9), y: 0 }, ONE / 2, ONE / 2, ONE / 2, ONE / 2));
}

#[test]
fn mesh_vertices_transform_exactly() {
    let identity = Quat { i: 0, j: 0, k: 0, w: ONE };
    let shift = Transformer::new(v(2.0, 3.0, 4.0), identity, unit_scale(), v(0.0, 0.0, 0.0));
    let vbo = VertexBuffer::new(vec![v(1.0, 1.0, 1.0), v(-1.0, 0.0, 0.5)]);
    let moved = vbo.transformed(&shift);
    assert_eq!(moved.len(), 2);
    assert_eq!(*moved.at(0), v(3.0, 4.0, 5.0));
    assert_eq!(*moved.at(1), v(1.0, 3.0, 4.5));
    let mut in_place = VertexBuffer::new(vec![v(1.0, 1.0, 1.0), v(-1.0, 0.0, 0.5)]);
    in_place.transform_mut(&shift);
    assert_eq!(*in_place.at(0), v(3.0, 4.0, 5.0));
    assert_eq!(*in_place.at(1), v(1.0, 3.0, 4.5));
    // the mesh resolves a slot through the index buffer: vbo[ibo[idx]]
    let mesh = PhysicsMesh { vbo, ibo: IndexBuffer::new(vec![1, 0, 1]) };
    assert_eq!(*mesh.vertex(0), v(-1.0, 0.0, 0.5));
    assert_eq!(*mesh.vertex(1), v(1.0, 1.0, 1.0));
    assert_eq!(*mesh.vertex(2), v(-1.0, 0.0, 0.5));
}
