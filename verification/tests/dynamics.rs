use corrosive_physics::inertia::{Error, ErrorType, Inertia, IS, Mat3, MassDistribution,
    Transformer};
use corrosive_physics::mat::{mat4_mul, Mat4};
use corrosive_physics::object::{PhyEntity, PhyEntityID};
use corrosive_physics::quat::Quat;
use corrosive_physics::vec3::V3;

const ONE: i64 = 65536;

fn fx(v: f64) -> i64 {
    (v * 65536.0).round() as i64
}

fn v(x: f64, y: f64, z: f64) -> V3 {
    V3 { x: fx(x), y: fx(y), z: fx(z) }
}

fn unit_scale() -> V3 {
    V3 { x: ONE, y: ONE, z: ONE }
}

fn ident() -> Quat {
    Quat { i: 0, j: 0, k: 0, w: ONE }
}

fn approx(a: i64, b: f64, tol: f64) -> bool {
    (a as f64 / 65536.0 - b).abs() < tol
}

#[test]
fn error_values_carry_their_class() {
    let e = Error::new(ErrorType::MathError, None);
    assert_eq!(e.ty, ErrorType::MathError);
    assert!(e.msg.is_none());
    let p = Error::new(ErrorType::PhysicsError, Some(String::from("inverted")));
    assert_eq!(p.ty, ErrorType::PhysicsError);
    assert_eq!(p.msg.as_deref(), Some("inverted"));
}

#[test]
fn translation_matrices_invert_exactly() {
    // a pure translation: the cached forward and inverse matrices compose to
    // the exact identity
    let t = Transformer::new(v(3.0, -2.0, 7.5), ident(), unit_scale(), v(0.25, 0.0, -1.0));
    let product = mat4_mul(t.tsro(), t.inv_tsro());
    let id = Mat4::identity();
    assert_eq!(product, id);
}

#[test]
fn rotated_matrices_invert_closely() {
    let q = Quat { i: 0, j: fx((0.4f64).sin()), k: 0, w: fx((0.4f64).cos()) };
    let t = Transformer::new(v(1.0, 2.0, 3.0), q, unit_scale(), v(0.0, 0.0, 0.0));
    let product = mat4_mul(t.tsro(), t.inv_tsro());
    // near the identity: within a few thousandths on every entry
    let entries = [
        product.m00 - ONE,
        product.m01,
        product.m02,
        product.m03,
        product.m10,
        product.m11 - ONE,
        product.m12,
        product.m13,
        product.m20,
        product.m21,
        product.m22 - ONE,
        product.m23,
    ];
    for e in entries {
        assert!(e.abs() < fx(0.01), "entry off by {e}");
    }
}

#[test]
fn update_refreshes_stale_caches() {
    let mut t = Transformer::new(v(0.0, 0.0, 0.0), ident(), unit_scale(), v(0.0, 0.0, 0.0));
    t.pos = v(5.0, 0.0, 0.0);
    t.update_transformation();
    assert_eq!(t.tsro().m03, fx(5.0));
    assert_eq!(t.inv_tsro().m03, fx(-5.0));
    let p = t.trafo_point(&v(1.0, 0.0, 0.0));
    assert_eq!(p, v(6.0, 0.0, 0.0));
    let back = t.inv_trafo_point(&p);
    assert_eq!(back, v(1.0, 0.0, 0.0));
    let d = t.trafo_vec(&v(1.0, 0.0, 0.0));
    assert_eq!(d, v(1.0, 0.0, 0.0));
}

#[test]
fn transformer_inverse_swaps_caches() {
    let t = Transformer::new(v(1.0, 0.0, 0.0), ident(), unit_scale(), v(0.0, 0.0, 0.0));
    let inv = t.inverse();
    assert_eq!(inv.pos, v(-1.0, 0.0, 0.0));
    assert_eq!(*inv.tsro(), *t.inv_tsro());
    assert_eq!(*inv.inv_tsro(), *t.tsro());
    let mut u = t;
    u.inverse_mut();
    assert_eq!(u.pos, inv.pos);
    assert_eq!(*u.tsro(), *inv.tsro());
}

#[test]
fn axes_follow_the_rotation() {
    let quarter = Quat { i: 0, j: fx((std::f64::consts::FRAC_PI_4).sin()), k: 0, w: fx(
        (std::f64::consts::FRAC_PI_4).cos(),
    ) };
    let t = Transformer::new(v(0.0, 0.0, 0.0), quarter, unit_scale(), v(0.0, 0.0, 0.0));
    // a quarter turn about the vertical carries right into backward
    let r = t.right();
    assert!(approx(r.x, 0.0, 0.01) && approx(r.y, 0.0, 0.01) && approx(r.z, -1.0, 0.01));
    let u = t.up();
    assert!(approx(u.y, 1.0, 0.01));
    let f = t.forward();
    assert!(approx(f.x, 1.0, 0.01) && approx(f.z, 0.0, 0.01));
    let l = t.left();
    assert_eq!(l.x, -r.x);
    assert_eq!(l.z, -r.z);
    assert_eq!(t.down().y, -u.y);
    assert_eq!(t.backward().x, -f.x);
}

#[test]
fn mass_distribution_caches_the_identity_inverse() {
    let md = MassDistribution::new(ONE, v(0.0, 0.0, 0.0), Mat3::identity()).unwrap();
    assert_eq!(md.inv_inertia, Mat3::identity());
    assert_eq!(*md.mass(), ONE);
    assert_eq!(*md.center_of_mass(), v(0.0, 0.0, 0.0));
    assert_eq!(*md.inertia(), Mat3::identity());
    // a doubled diagonal inverts to the halved diagonal
    let mut two = Mat3::identity();
    two.e00 = 2 * ONE;
    two.e11 = 2 * ONE;
    two.e22 = 2 * ONE;
    let md2 = MassDistribution::new(ONE, v(0.0, 0.0, 0.0), two).unwrap();
    assert_eq!(md2.inv_inertia.e00, ONE / 2);
    assert_eq!(md2.inv_inertia.e11, ONE / 2);
    assert_eq!(md2.inv_inertia.e22, ONE / 2);
    assert_eq!(md2.inv_inertia.e01, 0);
}

#[test]
fn singular_inertia_is_a_physics_error() {
    let zero = Mat3 { e00: 0, e01: 0, e02: 0, e10: 0, e11: 0, e12: 0, e20: 0, e21: 0, e22: 0 };
    let r = MassDistribution::new(ONE, v(0.0, 0.0, 0.0), zero);
    assert_eq!(r.unwrap_err().ty, ErrorType::PhysicsError);
}

#[test]
fn oversized_inverse_is_a_math_error() {
    // an invertible tensor whose inverse entry leaves the raw range
    let mut m = Mat3::identity();
    m.e00 = 1;
    m.e01 = 1 << 39;
    m.e11 = 1;
    m.e22 = 1 << 40;
    let r = MassDistribution::new(ONE, v(0.0, 0.0, 0.0), m);
    assert_eq!(r.unwrap_err().ty, ErrorType::MathError);
}

#[test]
fn point_masses_accumulate_symmetrically() {
    let mut m = Mat3 { e00: 0, e01: 0, e02: 0, e10: 0, e11: 0, e12: 0, e20: 0, e21: 0, e22: 0 };
    m.add_mass_point(&v(1.0, 2.0, 3.0), ONE);
    // the tensor stays symmetric and the diagonal carries the squared radii
    assert_eq!(m.e01, m.e10);
    assert_eq!(m.e02, m.e20);
    assert_eq!(m.e12, m.e21);
    assert_eq!(m.e00, fx(4.0 + 9.0));
    assert_eq!(m.e11, fx(1.0 + 9.0));
    assert_eq!(m.e22, fx(1.0 + 4.0));
    assert_eq!(m.e10, fx(-2.0));
    let snapshot = m;
    m.add_mass_point(&v(0.5, 0.0, 0.0), 2 * ONE);
    m.sub_mass_point(&v(0.5, 0.0, 0.0), 2 * ONE);
    assert_eq!(m, snapshot);
}

fn free_body() -> IS {
    IS::new(
        v(0.0, 0.0, 0.0),
        v(0.0, 0.0, 0.0),
        Transformer::default(),
        MassDistribution::default(),
    )
}

#[test]
fn impulses_cancel_exactly() {
    // applying an impulse and then its negation restores both momenta
    let mut body = free_body();
    body.apply_impulse(&v(0.25, -1.5, 3.0), &v(1.0, 0.5, -0.75));
    let mid_mom = body.momentum;
    let mid_ang = body.angular_mom;
    assert_ne!(mid_mom, v(0.0, 0.0, 0.0));
    assert_ne!(mid_ang, v(0.0, 0.0, 0.0));
    body.apply_impulse(&v(-0.25, 1.5, -3.0), &v(1.0, 0.5, -0.75));
    assert_eq!(body.momentum, v(0.0, 0.0, 0.0));
    assert_eq!(body.angular_mom, v(0.0, 0.0, 0.0));
}

#[test]
fn angular_velocity_comes_from_the_inverse_inertia() {
    let mut body = free_body();
    body.angular_mom = v(0.0, 2.0, 0.0);
    // the identity inertia passes the momentum through
    assert_eq!(body.get_angular_vel(), v(0.0, 2.0, 0.0));
    let pv = body.get_point_vel(&v(1.0, 0.0, 0.0));
    // omega cross r: (0, 2, 0) x (1, 0, 0) = (0, 0, -2)
    assert_eq!(pv, v(0.0, 0.0, -2.0));
}

#[test]
fn free_fall_descends_exactly() {
    // a unit-mass body ten units up with downward momentum one covers the
    // whole drop in 1024 steps of dt = 10/1024, exactly
    let mut body = free_body();
    body.state.pos = v(0.0, 10.0, 0.0);
    body.momentum = v(0.0, -1.0, 0.0);
    let dt = fx(10.0 / 1024.0);
    for _ in 0..1024 {
        body.integrate(dt);
    }
    assert_eq!(body.state.pos, v(0.0, 0.0, 0.0));
    assert_eq!(body.momentum, v(0.0, -1.0, 0.0));
}

#[test]
fn quarter_turn_integration() {
    // angular momentum pi/2 about the vertical with the identity inertia:
    // one unit step turns the body a quarter turn about the vertical
    let mut body = free_body();
    body.angular_mom = V3 { x: 0, y: fx(std::f64::consts::FRAC_PI_2), z: 0 };
    body.integrate(ONE);
    let expect_j = (std::f64::consts::FRAC_PI_4).sin();
    let expect_w = (std::f64::consts::FRAC_PI_4).cos();
    assert!(approx(body.state.rot.i, 0.0, 0.005), "i = {}", body.state.rot.i);
    assert!(approx(body.state.rot.j, expect_j, 0.005), "j = {}", body.state.rot.j);
    assert!(approx(body.state.rot.k, 0.0, 0.005), "k = {}", body.state.rot.k);
    assert!(approx(body.state.rot.w, expect_w, 0.005), "w = {}", body.state.rot.w);
}

#[test]
fn sync_keeps_the_box_on_the_state() {
    let id = PhyEntityID { world_id: 0, chunk_id: 1, entity_id: 2 };
    let mut e = PhyEntity::cube(id, v(1.0, 1.0, 1.0));
    assert_eq!(e.obb.half_size, v(0.5, 0.5, 0.5));
    e.is.state.pos = v(4.0, 5.0, 6.0);
    e.sync();
    assert_eq!(e.obb.transform.pos, v(4.0, 5.0, 6.0));
    assert_eq!(e.obb.transform.tsro().m03, fx(4.0));
    let same = PhyEntityID { world_id: 0, chunk_id: 1, entity_id: 2 };
    let other = PhyEntityID { world_id: 0, chunk_id: 1, entity_id: 3 };
    assert_eq!(e.id, same);
    assert_ne!(e.id, other);
}
