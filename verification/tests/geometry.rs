use hawxide::aabb::{clip, enclosure, Slab, AABB};
use hawxide::hit::{flip_face, off_axes, rot_coeffs, rot_coeffs_vec, rotated, HitRecord};
use hawxide::ray::Ray;
use hawxide::scalar::Scalar;
use hawxide::vec3::{Axis, Color, Point3, Vec3};

fn s(x: f64) -> Scalar {
    Scalar::from_bits(x.to_bits())
}

fn f(x: Scalar) -> f64 {
    f64::from_bits(x.to_bits())
}

fn v(x: f64, y: f64, z: f64) -> Vec3 {
    Vec3(s(x), s(y), s(z))
}

fn bx(min: [f64; 3], max: [f64; 3]) -> AABB {
    AABB { min: v(min[0], min[1], min[2]), max: v(max[0], max[1], max[2]) }
}

struct Lcg(u64);

impl Lcg {
    fn next(&mut self) -> f64 {
        self.0 = self.0.wrapping_mul(6364136223846793005).wrapping_add(1442695040888963407);
        ((self.0 >> 11) as f64) / ((1u64 << 53) as f64)
    }

    fn range(&mut self, lo: f64, hi: f64) -> f64 {
        lo + (hi - lo) * self.next()
    }
}

#[test]
fn vec3_accessors() {
    let a = v(1.0, 2.0, 3.0);
    assert_eq!(a.x(), s(1.0));
    assert_eq!(a.y(), s(2.0));
    assert_eq!(a.z(), s(3.0));
    assert_eq!(a.r(), s(1.0));
    assert_eq!(a.g(), s(2.0));
    assert_eq!(a.b(), s(3.0));
    assert_eq!(a.axis(Axis::X), s(1.0));
    assert_eq!(a.axis(Axis::Y), s(2.0));
    assert_eq!(a.axis(Axis::Z), s(3.0));
    assert_eq!(a.get(0), s(1.0));
    assert_eq!(a.get(1), s(2.0));
    assert_eq!(a.get(2), s(3.0));
    assert_eq!(a.to_array(), [s(1.0), s(2.0), s(3.0)]);
    assert_eq!(Vec3::from_array([s(1.0), s(2.0), s(3.0)]), a);
}

#[test]
fn vec3_new_is_zero() {
    assert_eq!(Vec3::new(), v(0.0, 0.0, 0.0));
    assert_eq!(Point3(s(1.0), s(2.0), s(3.0)), v(1.0, 2.0, 3.0));
    assert_eq!(Color(s(0.25), s(0.5), s(0.75)), v(0.25, 0.5, 0.75));
}

#[test]
fn vec3_set_replaces_one_component() {
    let mut a = v(1.0, 2.0, 3.0);
    a.set(1, s(9.0));
    assert_eq!(a, v(1.0, 9.0, 3.0));
    a.set(0, s(8.0));
    assert_eq!(a, v(8.0, 9.0, 3.0));
    a.set(2, s(7.0));
    assert_eq!(a, v(8.0, 9.0, 7.0));
}

#[test]
fn vec3_neg_flips_every_sign() {
    assert_eq!(v(1.0, -2.0, 0.0).neg(), v(-1.0, 2.0, -0.0));
}

#[test]
fn vec3_near_zero() {
    assert!(v(1e-9, -1e-9, 0.0).near_zero());
    assert!(!v(1e-8, 0.0, 0.0).near_zero());
    assert!(!v(0.0, 0.0, -1e-7).near_zero());
    assert!(!v(f64::NAN, 0.0, 0.0).near_zero());
    assert!(v(9.9e-9, 9.9e-9, -9.9e-9).near_zero());
}

#[test]
fn vec3_is_nan() {
    assert!(!v(1.0, 2.0, 3.0).is_nan());
    assert!(v(f64::NAN, 2.0, 3.0).is_nan());
    assert!(v(1.0, f64::NAN, 3.0).is_nan());
    assert!(v(1.0, 2.0, f64::NAN).is_nan());
    assert!(!v(f64::INFINITY, 2.0, 3.0).is_nan());
}

#[test]
fn axis_indices() {
    assert_eq!(Axis::X.index(), 0);
    assert_eq!(Axis::Y.index(), 1);
    assert_eq!(Axis::Z.index(), 2);
    assert_eq!(Axis::from_index(0), Some(Axis::X));
    assert_eq!(Axis::from_index(1), Some(Axis::Y));
    assert_eq!(Axis::from_index(2), Some(Axis::Z));
    assert_eq!(Axis::from_index(3), None);
}

#[test]
fn ray_new_keeps_its_parts() {
    let r = Ray::new(v(1.0, 2.0, 3.0), v(0.0, 0.0, -1.0), s(0.5));
    assert_eq!(r.origin, v(1.0, 2.0, 3.0));
    assert_eq!(r.dir, v(0.0, 0.0, -1.0));
    assert_eq!(r.time, s(0.5));
}

#[test]
fn surrounding_box_spans_both() {
    let a = bx([0.0, 0.0, 0.0], [1.0, 1.0, 1.0]);
    let b = bx([-1.0, 0.5, 0.25], [0.5, 2.0, 0.75]);
    let c = AABB::surrounding_box(a, b);
    assert_eq!(c, bx([-1.0, 0.0, 0.0], [1.0, 2.0, 1.0]));
    assert_eq!(AABB::surrounding_box(b, a), c);
    assert_eq!(AABB::surrounding_box(a, a), a);
}

fn encloses(outer: &AABB, inner: &AABB) -> bool {
    outer.min.0.le(inner.min.0)
        && outer.min.1.le(inner.min.1)
        && outer.min.2.le(inner.min.2)
        && inner.max.0.le(outer.max.0)
        && inner.max.1.le(outer.max.1)
        && inner.max.2.le(outer.max.2)
}

#[test]
fn surrounding_box_contains_both_and_is_tight() {
    let mut rng = Lcg(7);
    for _ in 0..200 {
        let mut corners = [[0.0f64; 3]; 4];
        for c in corners.iter_mut() {
            for x in c.iter_mut() {
                *x = rng.range(-10.0, 10.0);
            }
        }
        let lo = |p: [f64; 3], q: [f64; 3]| [p[0].min(q[0]), p[1].min(q[1]), p[2].min(q[2])];
        let hi = |p: [f64; 3], q: [f64; 3]| [p[0].max(q[0]), p[1].max(q[1]), p[2].max(q[2])];
        let a = bx(lo(corners[0], corners[1]), hi(corners[0], corners[1]));
        let b = bx(lo(corners[2], corners[3]), hi(corners[2], corners[3]));
        let c = AABB::surrounding_box(a, b);
        assert!(encloses(&c, &a));
        assert!(encloses(&c, &b));
        for axis in [Axis::X, Axis::Y, Axis::Z] {
            let m = c.min.axis(axis);
            assert!(m == a.min.axis(axis) || m == b.min.axis(axis));
            let m = c.max.axis(axis);
            assert!(m == a.max.axis(axis) || m == b.max.axis(axis));
        }
    }
}

fn slabs(b: &AABB, origin: [f64; 3], dir: [f64; 3]) -> [Slab; 3] {
    let one = |a: usize| {
        let inv_dir = 1.0 / dir[a];
        Slab {
            t0: s((f(b.min.get(a)) - origin[a]) * inv_dir),
            t1: s((f(b.max.get(a)) - origin[a]) * inv_dir),
            inv_dir: s(inv_dir),
        }
    };
    [one(0), one(1), one(2)]
}

fn slab_test_in_floats(b: &AABB, origin: [f64; 3], dir: [f64; 3], t_min: f64, t_max: f64) -> bool {
    let mut t_min = t_min;
    let mut t_max = t_max;
    for a in 0..3 {
        let inv_dir = 1.0 / dir[a];
        let mut t0 = (f(b.min.get(a)) - origin[a]) * inv_dir;
        let mut t1 = (f(b.max.get(a)) - origin[a]) * inv_dir;
        if inv_dir < 0.0 {
            std::mem::swap(&mut t0, &mut t1);
        }
        t_min = if t0 > t_min { t0 } else { t_min };
        t_max = if t1 < t_max { t1 } else { t_max };
        if t_max < t_min {
            return false;
        }
    }
    true
}

#[test]
fn a_box_reached_at_the_end_of_the_range_is_hit() {
    let b = bx([0.0, 0.0, 0.0], [1.0, 1.0, 1.0]);
    let sl = slabs(&b, [-1.0, 0.5, 0.5], [1.0, 0.0, 0.0]);
    // The ray reaches the box at 1 and leaves it at 2.
    assert!(AABB::hit(&sl, s(0.0), s(1.0)));
    assert!(AABB::hit(&sl, s(2.0), s(3.0)));
    assert!(AABB::hit(&sl, s(1.0), s(1.0)));
    assert!(AABB::hit(&sl, s(2.0), s(2.0)));
    assert!(!AABB::hit(&sl, s(0.0), s(0.999)));
    assert!(!AABB::hit(&sl, s(2.001), s(3.0)));
    assert!(slab_test_in_floats(&b, [-1.0, 0.5, 0.5], [1.0, 0.0, 0.0], 0.0, 1.0));
    // A box without depth is met at one parameter.
    let flat = bx([0.0, 0.0, 3.0], [1.0, 1.0, 3.0]);
    let through = slabs(&flat, [0.5, 0.5, 0.0], [0.0, 0.0, 1.0]);
    assert!(AABB::hit(&through, s(0.001), s(f64::INFINITY)));
    assert!(AABB::hit(&through, s(0.001), s(3.0)));
    assert!(!AABB::hit(&through, s(0.001), s(2.5)));
    assert!(!AABB::hit(&through, s(3.5), s(f64::INFINITY)));
}

#[test]
fn box_hit_straight_on() {
    let b = bx([-1.0, -1.0, -1.0], [1.0, 1.0, 1.0]);
    let sl = slabs(&b, [0.0, 0.0, -5.0], [0.0, 0.0, 1.0]);
    assert!(AABB::hit(&sl, s(0.001), s(f64::INFINITY)));
    assert!(!AABB::hit(&sl, s(0.001), s(3.0)));
    assert!(!AABB::hit(&sl, s(7.0), s(f64::INFINITY)));
    assert!(AABB::hit(&sl, s(5.0), s(5.5)));
    let away = slabs(&b, [0.0, 0.0, -5.0], [0.0, 0.0, -1.0]);
    assert!(!AABB::hit(&away, s(0.001), s(f64::INFINITY)));
    let beside = slabs(&b, [3.0, 0.0, -5.0], [0.0, 0.0, 1.0]);
    assert!(!AABB::hit(&beside, s(0.001), s(f64::INFINITY)));
}

#[test]
fn a_ray_that_meets_a_box_meets_the_boxes_around_it() {
    let mut rng = Lcg(29);
    let mut hits = 0;
    for _ in 0..2000 {
        let c = [rng.range(-3.0, 3.0), rng.range(-3.0, 3.0), rng.range(-3.0, 3.0)];
        let h = [rng.range(0.1, 2.0), rng.range(0.1, 2.0), rng.range(0.1, 2.0)];
        let g = [rng.range(0.0, 2.0), rng.range(0.0, 2.0), rng.range(0.0, 2.0)];
        let inner =
            bx([c[0] - h[0], c[1] - h[1], c[2] - h[2]], [c[0] + h[0], c[1] + h[1], c[2] + h[2]]);
        let outer = bx(
            [c[0] - h[0] - g[0], c[1] - h[1] - g[1], c[2] - h[2] - g[2]],
            [c[0] + h[0] + g[1], c[1] + h[1] + g[2], c[2] + h[2] + g[0]],
        );
        assert!(encloses(&outer, &inner));
        let origin = [rng.range(-6.0, 6.0), rng.range(-6.0, 6.0), rng.range(-6.0, 6.0)];
        let aim = [rng.range(-2.0, 2.0), rng.range(-2.0, 2.0), rng.range(-2.0, 2.0)];
        let dir = [c[0] + aim[0] - origin[0], c[1] + aim[1] - origin[1], c[2] + aim[2] - origin[2]];
        let near = rng.range(0.0, 10.0);
        let far = near + rng.range(0.0, 5.0);
        if AABB::hit(&slabs(&inner, origin, dir), s(0.001), s(near)) {
            hits += 1;
            assert!(AABB::hit(&slabs(&inner, origin, dir), s(0.001), s(far)));
            assert!(AABB::hit(&slabs(&outer, origin, dir), s(0.001), s(near)));
            assert!(AABB::hit(&slabs(&outer, origin, dir), s(0.001), s(far)));
            assert!(AABB::hit(&slabs(&outer, origin, dir), s(0.001), s(f64::INFINITY)));
        }
    }
    assert!(hits > 200);
}

#[test]
fn box_hit_agrees_with_float_slab_test() {
    let mut rng = Lcg(11);
    let mut hits = 0;
    for _ in 0..2000 {
        let c = [rng.range(-3.0, 3.0), rng.range(-3.0, 3.0), rng.range(-3.0, 3.0)];
        let h = [rng.range(0.1, 2.0), rng.range(0.1, 2.0), rng.range(0.1, 2.0)];
        let b = bx([c[0] - h[0], c[1] - h[1], c[2] - h[2]], [c[0] + h[0], c[1] + h[1], c[2] + h[2]]);
        let origin = [rng.range(-6.0, 6.0), rng.range(-6.0, 6.0), rng.range(-6.0, 6.0)];
        let aim = [rng.range(-2.0, 2.0), rng.range(-2.0, 2.0), rng.range(-2.0, 2.0)];
        let mut dir =
            [c[0] + aim[0] - origin[0], c[1] + aim[1] - origin[1], c[2] + aim[2] - origin[2]];
        if rng.next() < 0.2 {
            dir[0] = 0.0;
        }
        if rng.next() < 0.1 {
            dir[1] = -0.0;
        }
        let t_min = 0.001;
        let t_max = if rng.next() < 0.5 { f64::INFINITY } else { rng.range(0.0, 10.0) };
        let want = slab_test_in_floats(&b, origin, dir, t_min, t_max);
        let got = AABB::hit(&slabs(&b, origin, dir), s(t_min), s(t_max));
        assert_eq!(got, want);
        if got {
            hits += 1;
        }
    }
    assert!(hits > 50);
}

#[test]
fn clip_swaps_for_a_negative_direction() {
    let forward = Slab { t0: s(1.0), t1: s(3.0), inv_dir: s(2.0) };
    assert_eq!(clip(forward, (s(0.0), s(10.0))), (s(1.0), s(3.0)));
    let backward = Slab { t0: s(3.0), t1: s(1.0), inv_dir: s(-2.0) };
    assert_eq!(clip(backward, (s(0.0), s(10.0))), (s(1.0), s(3.0)));
    assert_eq!(clip(forward, (s(2.0), s(2.5))), (s(2.0), s(2.5)));
    let nan = Slab { t0: s(f64::NAN), t1: s(f64::NAN), inv_dir: s(f64::INFINITY) };
    assert_eq!(clip(nan, (s(2.0), s(2.5))), (s(2.0), s(2.5)));
}

#[test]
fn corners_of_a_box() {
    let b = bx([0.0, 1.0, 2.0], [3.0, 4.0, 5.0]);
    assert_eq!(b.corner(false, false, false), v(0.0, 1.0, 2.0));
    assert_eq!(b.corner(true, true, true), v(3.0, 4.0, 5.0));
    assert_eq!(b.corner(true, false, true), v(3.0, 1.0, 5.0));
    assert_eq!(b.corner(false, true, false), v(0.0, 4.0, 2.0));
    assert_eq!(b.min_along(Axis::Y), s(1.0));
}

#[test]
fn enclosure_of_points() {
    let pts = [v(1.0, 5.0, -2.0), v(-1.0, 6.0, 0.0), v(0.0, 4.0, 3.0)];
    assert_eq!(enclosure(&pts), bx([-1.0, 4.0, -2.0], [1.0, 6.0, 3.0]));
    assert_eq!(enclosure(&pts[0..1]), bx([1.0, 5.0, -2.0], [1.0, 5.0, -2.0]));
    let none: [Vec3; 0] = [];
    let inf = f64::INFINITY;
    assert_eq!(enclosure(&none), bx([inf, inf, inf], [-inf, -inf, -inf]));
}

fn rotate_y_in_floats(p: [f64; 3], sin: f64, cos: f64) -> [f64; 3] {
    [cos * p[0] + sin * p[2], p[1], -sin * p[0] + cos * p[2]]
}

#[test]
fn rotation_terms_about_y() {
    let (sin, cos) = (0.6f64, 0.8f64);
    let p = [1.0, 2.0, 3.0];
    let (a, b) = rot_coeffs(s(p[0]), s(p[1]), s(p[2]), Axis::Y);
    let new_a = cos * f(a.0) + sin * f(a.1);
    let new_b = sin * f(b.0) + cos * f(b.1);
    let got = rotated(v(p[0], p[1], p[2]), Axis::Y, s(new_a), s(new_b));
    let want = rotate_y_in_floats(p, sin, cos);
    assert_eq!(got, v(want[0], want[1], want[2]));
}

#[test]
fn rotation_terms_by_axis() {
    let (x, y, z) = (s(1.0), s(2.0), s(3.0));
    assert_eq!(rot_coeffs(x, y, z, Axis::X), ((y, z.neg()), (y, z)));
    assert_eq!(rot_coeffs(x, y, z, Axis::Y), ((x, z), (x.neg(), z)));
    assert_eq!(rot_coeffs(x, y, z, Axis::Z), ((x, y.neg()), (x, y)));
    assert_eq!(rot_coeffs_vec(Vec3(x, y, z), Axis::Z), rot_coeffs(x, y, z, Axis::Z));
    assert_eq!(off_axes(Axis::X), (1, 2));
    assert_eq!(off_axes(Axis::Y), (0, 2));
    assert_eq!(off_axes(Axis::Z), (0, 1));
}

#[test]
fn rotated_keeps_the_axis_component() {
    let p = v(1.0, 2.0, 3.0);
    assert_eq!(rotated(p, Axis::X, s(8.0), s(9.0)), v(1.0, 8.0, 9.0));
    assert_eq!(rotated(p, Axis::Y, s(8.0), s(9.0)), v(8.0, 2.0, 9.0));
    assert_eq!(rotated(p, Axis::Z, s(8.0), s(9.0)), v(8.0, 9.0, 3.0));
}

#[test]
fn turning_there_and_back_returns_the_point() {
    let angle = 0.7f64;
    let (sin, cos) = (angle.sin(), angle.cos());
    let p = [1.5, -2.0, 0.25];
    for axis in [Axis::X, Axis::Y, Axis::Z] {
        let turn = |q: Vec3, sin: f64, cos: f64| {
            let (a, b) = rot_coeffs_vec(q, axis);
            let new_a = cos * f(a.0) + sin * f(a.1);
            let new_b = sin * f(b.0) + cos * f(b.1);
            rotated(q, axis, s(new_a), s(new_b))
        };
        let there = turn(v(p[0], p[1], p[2]), sin, cos);
        let back = turn(there, -sin, cos);
        assert!((f(back.0) - p[0]).abs() < 1e-12);
        assert!((f(back.1) - p[1]).abs() < 1e-12);
        assert!((f(back.2) - p[2]).abs() < 1e-12);
    }
}

#[test]
fn hit_record_from_outside_keeps_the_normal() {
    let n = v(0.0, 0.0, 1.0);
    let hr = HitRecord::new(s(-1.0), v(0.0, 0.0, 1.0), n, s(4.0), s(0.5), s(0.25), 7);
    assert!(hr.front_face);
    assert_eq!(hr.norm, n);
    assert_eq!(hr.shading_geo.n, n);
    assert_eq!(hr.t, s(4.0));
    assert_eq!(hr.u, s(0.5));
    assert_eq!(hr.v, s(0.25));
    assert_eq!(hr.mat, 7);
    assert_eq!(hr.p, v(0.0, 0.0, 1.0));
    assert_eq!(hr.shading_geo.dpdu, Vec3::new());
    assert_eq!(hr.shading_geo.dpdv, Vec3::new());
}

#[test]
fn hit_record_from_inside_turns_the_normal() {
    let n = v(0.0, 0.0, 1.0);
    let hr = HitRecord::new(s(1.0), v(0.0, 0.0, 1.0), n, s(4.0), s(0.0), s(0.0), 0);
    assert!(!hr.front_face);
    assert_eq!(hr.norm, v(-0.0, -0.0, -1.0));
    let grazing = HitRecord::new(s(0.0), v(0.0, 0.0, 1.0), n, s(4.0), s(0.0), s(0.0), 0);
    assert!(!grazing.front_face);
    let undefined = HitRecord::new(s(f64::NAN), v(0.0, 0.0, 1.0), n, s(4.0), s(0.0), s(0.0), 0);
    assert!(!undefined.front_face);
}

#[test]
fn hit_record_with_dps_keeps_the_derivatives() {
    let n = v(0.0, 1.0, 0.0);
    let du = v(1.0, 0.0, 0.0);
    let dv = v(0.0, 0.0, 1.0);
    let hr = HitRecord::with_dps(s(-0.5), v(0.0, 0.0, 0.0), n, s(1.0), s(0.0), s(0.0), 1, du, dv);
    assert!(hr.front_face);
    assert_eq!(hr.shading_geo.dpdu, du);
    assert_eq!(hr.shading_geo.dpdv, dv);
    assert_eq!(hr.shading_geo.n, n);
}

#[test]
fn set_face_normal_orients() {
    let n = v(0.0, 1.0, 0.0);
    let mut hr = HitRecord::new(s(-1.0), v(0.0, 0.0, 0.0), n, s(1.0), s(0.0), s(0.0), 1);
    hr.set_face_normal(s(2.0), v(1.0, 0.0, 0.0));
    assert!(!hr.front_face);
    assert_eq!(hr.norm, v(-1.0, -0.0, -0.0));
    assert_eq!(hr.shading_geo.n, n);
    hr.set_face_normal(s(-2.0), v(1.0, 0.0, 0.0));
    assert!(hr.front_face);
    assert_eq!(hr.norm, v(1.0, 0.0, 0.0));
}

#[test]
fn set_shading_geometry_turns_to_the_geometric_side() {
    let n = v(0.0, 1.0, 0.0);
    let du = v(1.0, 0.0, 0.0);
    let dv = v(0.0, 0.0, 1.0);
    let mut hr = HitRecord::new(s(-1.0), v(0.0, 0.0, 0.0), n, s(1.0), s(0.0), s(0.0), 1);
    hr.set_shading_geometry(v(0.0, -1.0, 0.0), s(-1.0), du, dv);
    assert_eq!(hr.shading_geo.n, v(-0.0, 1.0, -0.0));
    assert_eq!(hr.shading_geo.dpdu, du);
    assert_eq!(hr.shading_geo.dpdv, dv);
    assert_eq!(hr.norm, n);
    hr.set_shading_geometry(v(0.6, 0.8, 0.0), s(0.8), dv, du);
    assert_eq!(hr.shading_geo.n, v(0.6, 0.8, 0.0));
    assert_eq!(hr.shading_geo.dpdu, dv);
}

#[test]
fn set_shading_geometry_ignores_a_degenerate_normal() {
    let n = v(0.0, 1.0, 0.0);
    let mut hr = HitRecord::new(s(-1.0), v(0.0, 0.0, 0.0), n, s(1.0), s(0.0), s(0.0), 1);
    let before = hr;
    hr.set_shading_geometry(v(f64::NAN, 0.0, 0.0), s(1.0), v(1.0, 0.0, 0.0), v(0.0, 0.0, 1.0));
    assert_eq!(hr, before);
}

#[test]
fn flip_face_exchanges_the_sides() {
    let n = v(0.0, 1.0, 0.0);
    let hr = HitRecord::new(s(-1.0), v(0.0, 0.0, 0.0), n, s(1.0), s(0.0), s(0.0), 1);
    let flipped = flip_face(Some(hr)).unwrap();
    assert!(!flipped.front_face);
    assert_eq!(flipped.norm, hr.norm);
    assert_eq!(flipped.t, hr.t);
    assert_eq!(flip_face(Some(flipped)), Some(hr));
    assert_eq!(flip_face(None), None);
}

#[test]
fn all_corners_of_a_box() {
    let b = bx([0.0, 1.0, 2.0], [3.0, 4.0, 5.0]);
    assert_eq!(
        b.corners(),
        [
            v(0.0, 1.0, 2.0),
            v(0.0, 1.0, 5.0),
            v(0.0, 4.0, 2.0),
            v(0.0, 4.0, 5.0),
            v(3.0, 1.0, 2.0),
            v(3.0, 1.0, 5.0),
            v(3.0, 4.0, 2.0),
            v(3.0, 4.0, 5.0),
        ]
    );
    assert_eq!(enclosure(&b.corners()), b);
}

#[test]
fn box_of_a_turned_box_holds_the_turned_corners() {
    let b = bx([-1.0, 0.0, -2.0], [1.0, 3.0, 2.0]);
    let angle = 0.5f64;
    let (sin, cos) = (angle.sin(), angle.cos());
    let turned: Vec<Vec3> = b
        .corners()
        .iter()
        .map(|c| {
            let (a, bb) = rot_coeffs_vec(*c, Axis::Y);
            rotated(
                *c,
                Axis::Y,
                s(cos * f(a.0) + sin * f(a.1)),
                s(sin * f(bb.0) + cos * f(bb.1)),
            )
        })
        .collect();
    let around = enclosure(&turned);
    for c in turned.iter() {
        for axis in [Axis::X, Axis::Y, Axis::Z] {
            assert!(around.min.axis(axis).le(c.axis(axis)));
            assert!(c.axis(axis).le(around.max.axis(axis)));
        }
    }
    assert_eq!(around.min.axis(Axis::Y), s(0.0));
    assert_eq!(around.max.axis(Axis::Y), s(3.0));
}

#[test]
fn toward_keeps_or_turns() {
    let a = v(1.0, -2.0, 3.0);
    assert_eq!(a.toward(s(0.5)), a);
    assert_eq!(a.toward(s(-0.5)), a.neg());
    assert_eq!(a.toward(s(0.0)), a.neg());
    assert_eq!(a.toward(s(f64::NAN)), a.neg());
}
