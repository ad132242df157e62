use hawxide::aabb::AABB;
use hawxide::aarect::AARect;
use hawxide::boxx::Boxx;
use hawxide::constant_medium::{scatters, span_inside};
use hawxide::cylinder::{is_beyond, past_the_turn, select_hit, Crossings};
use hawxide::disk::{hits, Meeting};
use hawxide::scalar::Scalar;
use hawxide::sphere::{is_in_range, select_root};
use hawxide::triangle::{is_negligible, Solution, Triangle};
use hawxide::triangle_mesh::TriangleMesh;
use hawxide::vec3::{Axis, Vec3};
use std::sync::Arc;

fn s(x: f64) -> Scalar {
    Scalar::from_bits(x.to_bits())
}

fn v(x: f64, y: f64, z: f64) -> Vec3 {
    Vec3(s(x), s(y), s(z))
}

const INF: f64 = f64::INFINITY;
const NAN: f64 = f64::NAN;

#[test]
fn range_includes_its_ends() {
    assert!(is_in_range(s(1.0), s(1.0), s(2.0)));
    assert!(is_in_range(s(2.0), s(1.0), s(2.0)));
    assert!(is_in_range(s(1.5), s(1.0), s(2.0)));
    assert!(!is_in_range(s(0.999), s(1.0), s(2.0)));
    assert!(!is_in_range(s(2.001), s(1.0), s(2.0)));
    assert!(!is_in_range(s(NAN), s(1.0), s(2.0)));
    assert!(is_in_range(s(INF), s(1.0), s(INF)));
}

#[test]
fn sphere_takes_the_smaller_root_in_range() {
    assert_eq!(select_root(s(1.0), s(3.0), s(5.0), s(0.001), s(INF)), Some(s(3.0)));
    assert_eq!(select_root(s(1.0), s(3.0), s(5.0), s(0.001), s(4.0)), Some(s(3.0)));
    assert_eq!(select_root(s(1.0), s(3.0), s(5.0), s(3.0), s(3.0)), Some(s(3.0)));
}

#[test]
fn sphere_takes_the_larger_root_from_inside() {
    assert_eq!(select_root(s(4.0), s(-3.0), s(5.0), s(0.001), s(INF)), Some(s(5.0)));
    assert_eq!(select_root(s(1.0), s(3.0), s(5.0), s(3.5), s(INF)), Some(s(5.0)));
}

#[test]
fn sphere_misses() {
    assert_eq!(select_root(s(NAN), s(NAN), s(NAN), s(0.001), s(INF)), None);
    assert_eq!(select_root(s(NAN), s(3.0), s(5.0), s(0.001), s(INF)), None);
    assert_eq!(select_root(s(1.0), s(-5.0), s(-3.0), s(0.001), s(INF)), None);
    assert_eq!(select_root(s(1.0), s(3.0), s(5.0), s(0.001), s(2.0)), None);
    assert_eq!(select_root(s(1.0), s(3.0), s(5.0), s(3.5), s(4.5)), None);
    assert_eq!(select_root(s(1.0), s(3.0), s(5.0), s(6.0), s(INF)), None);
}

#[test]
fn sphere_grazing_root_counts() {
    assert_eq!(select_root(s(0.0), s(2.0), s(2.0), s(0.001), s(INF)), Some(s(2.0)));
}

fn cyl(r1: f64, y1: f64, r2: f64, y2: f64) -> Crossings {
    Crossings { sqrtd: s(1.0), r1: s(r1), y1: s(y1), r2: s(r2), y2: s(y2) }
}

#[test]
fn cylinder_takes_the_first_root_within_the_extent() {
    assert_eq!(select_hit(cyl(2.0, 0.5, 4.0, 0.7), s(0.001), s(INF), s(0.0), s(1.0)), Some(s(2.0)));
    assert_eq!(select_hit(cyl(2.0, 0.0, 4.0, 5.0), s(0.001), s(INF), s(0.0), s(1.0)), Some(s(2.0)));
    assert_eq!(select_hit(cyl(2.0, 1.0, 4.0, 5.0), s(0.001), s(INF), s(0.0), s(1.0)), Some(s(2.0)));
}

#[test]
fn cylinder_tries_the_second_root_past_the_extent() {
    assert_eq!(select_hit(cyl(2.0, 1.5, 4.0, 0.7), s(0.001), s(INF), s(0.0), s(1.0)), Some(s(4.0)));
    assert_eq!(select_hit(cyl(2.0, -0.5, 4.0, 0.0), s(0.001), s(INF), s(0.0), s(1.0)), Some(s(4.0)));
}

#[test]
fn cylinder_misses() {
    assert_eq!(select_hit(cyl(2.0, 1.5, 4.0, 1.7), s(0.001), s(INF), s(0.0), s(1.0)), None);
    assert_eq!(select_hit(cyl(2.0, 1.5, 4.0, 0.7), s(0.001), s(3.0), s(0.0), s(1.0)), None);
    assert_eq!(select_hit(cyl(-2.0, 0.5, 4.0, 1.7), s(0.001), s(INF), s(0.0), s(1.0)), None);
    assert_eq!(select_hit(cyl(2.0, 1.5, 2.0, 0.5), s(0.001), s(INF), s(0.0), s(1.0)), None);
    assert_eq!(select_hit(cyl(-4.0, 0.5, -2.0, 0.5), s(0.001), s(INF), s(0.0), s(1.0)), None);
    let missed = Crossings { sqrtd: s(NAN), r1: s(2.0), y1: s(0.5), r2: s(4.0), y2: s(0.5) };
    assert_eq!(select_hit(missed, s(0.001), s(INF), s(0.0), s(1.0)), None);
}

#[test]
fn cylinder_from_inside_takes_the_far_root() {
    assert_eq!(select_hit(cyl(-2.0, 0.5, 4.0, 0.7), s(0.001), s(INF), s(0.0), s(1.0)), Some(s(4.0)));
}

#[test]
fn extent_and_turn() {
    assert!(is_beyond(s(-0.1), s(0.0), s(1.0)));
    assert!(is_beyond(s(1.1), s(0.0), s(1.0)));
    assert!(!is_beyond(s(0.0), s(0.0), s(1.0)));
    assert!(!is_beyond(s(1.0), s(0.0), s(1.0)));
    assert!(is_beyond(s(NAN), s(0.0), s(1.0)));
    assert!(is_beyond(s(0.5), s(NAN), s(1.0)));
    let full = 2.0 * std::f64::consts::PI;
    assert!(!past_the_turn(s(full), s(full)));
    assert!(!past_the_turn(s(1.0), s(full)));
    assert!(past_the_turn(s(4.0), s(3.0)));
    assert!(past_the_turn(s(NAN), s(full)));
}

fn disk(dir_y: f64, t_hit: f64, dist2: f64, phi: f64) -> Meeting {
    Meeting {
        dir_y: s(dir_y),
        t_hit: s(t_hit),
        dist2: s(dist2),
        radius2: s(4.0),
        inner_radius2: s(1.0),
        phi: s(phi),
        phi_max: s(2.0 * std::f64::consts::PI),
    }
}

#[test]
fn disk_hits_between_hole_and_rim() {
    assert!(hits(disk(-1.0, 3.0, 2.0, 1.0), s(0.001), s(INF)));
    assert!(hits(disk(-1.0, 3.0, 4.0, 1.0), s(0.001), s(INF)));
    assert!(hits(disk(-1.0, 3.0, 1.0, 1.0), s(0.001), s(INF)));
    assert!(hits(disk(1.0, 3.0, 2.0, 0.0), s(3.0), s(3.0)));
}

#[test]
fn disk_misses() {
    assert!(!hits(disk(0.0, 3.0, 2.0, 1.0), s(0.001), s(INF)));
    assert!(!hits(disk(-0.0, 3.0, 2.0, 1.0), s(0.001), s(INF)));
    assert!(!hits(disk(-1.0, -3.0, 2.0, 1.0), s(0.001), s(INF)));
    assert!(!hits(disk(-1.0, 3.0, 2.0, 1.0), s(0.001), s(2.0)));
    assert!(!hits(disk(-1.0, 3.0, 4.5, 1.0), s(0.001), s(INF)));
    assert!(!hits(disk(-1.0, 3.0, 0.5, 1.0), s(0.001), s(INF)));
    assert!(!hits(disk(-1.0, 3.0, 2.0, 7.0), s(0.001), s(INF)));
    assert!(!hits(disk(-1.0, NAN, 2.0, 1.0), s(0.001), s(INF)));
}

#[test]
fn rect_constructors_place_the_plane() {
    let xy = AARect::xy_rect(s(0.0), s(1.0), s(2.0), s(3.0), s(9.0), 5);
    assert_eq!(xy.p0, v(0.0, 2.0, 9.0));
    assert_eq!(xy.p1, v(1.0, 3.0, 9.0));
    assert_eq!(xy.norm, v(0.0, 0.0, 1.0));
    assert_eq!(xy.k_axis, Axis::Z);
    assert_eq!(xy.mat, 5);
    assert_eq!(xy.axes(), (Axis::X, Axis::Y));
    let xz = AARect::xz_rect(s(0.0), s(1.0), s(2.0), s(3.0), s(9.0), 5);
    assert_eq!(xz.p0, v(0.0, 9.0, 2.0));
    assert_eq!(xz.p1, v(1.0, 9.0, 3.0));
    assert_eq!(xz.norm, v(0.0, 1.0, 0.0));
    assert_eq!(xz.k_axis, Axis::Y);
    assert_eq!(xz.axes(), (Axis::X, Axis::Z));
    let yz = AARect::yz_rect(s(0.0), s(1.0), s(2.0), s(3.0), s(9.0), 5);
    assert_eq!(yz.p0, v(9.0, 0.0, 2.0));
    assert_eq!(yz.p1, v(9.0, 1.0, 3.0));
    assert_eq!(yz.norm, v(1.0, 0.0, 0.0));
    assert_eq!(yz.k_axis, Axis::X);
    assert_eq!(yz.axes(), (Axis::Y, Axis::Z));
}

#[test]
fn rect_hit_needs_range_and_cover() {
    let r = AARect::xz_rect(s(-1.0), s(1.0), s(-2.0), s(2.0), s(5.0), 0);
    assert!(r.hit(s(3.0), s(0.0), s(0.0), s(0.001), s(INF)));
    assert!(r.hit(s(3.0), s(-1.0), s(2.0), s(0.001), s(INF)));
    assert!(r.hit(s(3.0), s(1.0), s(-2.0), s(3.0), s(3.0)));
    assert!(!r.hit(s(3.0), s(1.5), s(0.0), s(0.001), s(INF)));
    assert!(!r.hit(s(3.0), s(-1.5), s(0.0), s(0.001), s(INF)));
    assert!(!r.hit(s(3.0), s(0.0), s(2.5), s(0.001), s(INF)));
    assert!(!r.hit(s(3.0), s(0.0), s(-2.5), s(0.001), s(INF)));
    assert!(!r.hit(s(-3.0), s(0.0), s(0.0), s(0.001), s(INF)));
    assert!(!r.hit(s(3.0), s(0.0), s(0.0), s(0.001), s(2.0)));
    assert!(r.hit(s(0.001), s(1.0), s(2.0), s(0.001), s(INF)));
}

#[test]
fn a_ray_in_the_plane_of_a_rectangle_misses_it() {
    // The ray runs in the plane y = 5: it meets the plane at no parameter,
    // and the division by its direction across the plane gives no number.
    let r = AARect::xz_rect(s(-1.0), s(1.0), s(-2.0), s(2.0), s(5.0), 0);
    let t = (5.0f64 - 5.0) / 0.0;
    assert!(t.is_nan());
    assert!(!r.hit(s(t), s(0.0), s(0.0), s(0.001), s(INF)));
    assert!(!r.hit(s(NAN), s(NAN), s(NAN), s(0.001), s(INF)));
    assert!(!r.hit(s(-NAN), s(0.0), s(0.0), s(0.001), s(INF)));
    assert!(!r.hit(s(3.0), s(NAN), s(0.0), s(0.001), s(INF)));
    assert!(!r.hit(s(3.0), s(0.0), s(NAN), s(0.001), s(INF)));
    assert!(!r.hit(s(3.0), s(0.0), s(0.0), s(NAN), s(INF)));
    assert!(!r.hit(s(3.0), s(0.0), s(0.0), s(0.001), s(NAN)));
    // A ray beside the plane and along it meets the plane at infinity.
    assert!(!r.hit(s(-INF), s(0.0), s(0.0), s(0.001), s(INF)));
}

#[test]
fn box_has_six_faces() {
    let b = Boxx::new(v(0.0, 1.0, 2.0), v(3.0, 4.0, 5.0), 8);
    assert_eq!(b.box_min, v(0.0, 1.0, 2.0));
    assert_eq!(b.box_max, v(3.0, 4.0, 5.0));
    assert_eq!(b.sides.len(), 6);
    let want = [
        AARect::xy_rect(s(0.0), s(3.0), s(1.0), s(4.0), s(5.0), 8),
        AARect::xy_rect(s(0.0), s(3.0), s(1.0), s(4.0), s(2.0), 8),
        AARect::xz_rect(s(0.0), s(3.0), s(2.0), s(5.0), s(4.0), 8),
        AARect::xz_rect(s(0.0), s(3.0), s(2.0), s(5.0), s(1.0), 8),
        AARect::yz_rect(s(1.0), s(4.0), s(2.0), s(5.0), s(3.0), 8),
        AARect::yz_rect(s(1.0), s(4.0), s(2.0), s(5.0), s(0.0), 8),
    ];
    assert_eq!(b.sides.objects, want.to_vec());
    assert_eq!(
        b.bounding_box(),
        Some(AABB { min: v(0.0, 1.0, 2.0), max: v(3.0, 4.0, 5.0) })
    );
}

#[test]
fn medium_clips_the_crossing() {
    assert_eq!(span_inside(s(1.0), s(5.0), s(0.001), s(INF)), Some((s(1.0), s(5.0))));
    assert_eq!(span_inside(s(-3.0), s(5.0), s(0.001), s(INF)), Some((s(0.001), s(5.0))));
    assert_eq!(span_inside(s(1.0), s(5.0), s(2.0), s(4.0)), Some((s(2.0), s(4.0))));
    assert_eq!(span_inside(s(-3.0), s(5.0), s(-10.0), s(INF)), Some((s(0.0), s(5.0))));
    assert_eq!(span_inside(s(1.0), s(5.0), s(6.0), s(INF)), None);
    assert_eq!(span_inside(s(1.0), s(5.0), s(0.001), s(0.5)), None);
    assert_eq!(span_inside(s(1.0), s(5.0), s(0.001), s(1.0)), None);
    assert_eq!(span_inside(s(3.0), s(3.0), s(0.001), s(INF)), None);
}

#[test]
fn medium_scatters_within_the_boundary() {
    assert!(scatters(s(1.0), s(2.0)));
    assert!(scatters(s(2.0), s(2.0)));
    assert!(!scatters(s(2.5), s(2.0)));
    assert!(!scatters(s(INF), s(2.0)));
    assert!(scatters(s(INF), s(INF)));
}

fn sol(det: f64, t_hit: f64, b1: f64, b2: f64) -> Solution {
    Solution { det: s(det), t_hit: s(t_hit), b1: s(b1), b2: s(b2), b_sum: s(b1 + b2) }
}

#[test]
fn triangle_accepts_points_of_the_simplex() {
    assert!(Triangle::accepts(sol(2.0, 3.0, 0.25, 0.25), s(0.001), s(INF)));
    assert!(Triangle::accepts(sol(-2.0, 3.0, 0.0, 0.0), s(0.001), s(INF)));
    assert!(Triangle::accepts(sol(2.0, 3.0, 1.0, 0.0), s(0.001), s(INF)));
    assert!(Triangle::accepts(sol(2.0, 3.0, 0.0, 1.0), s(0.001), s(INF)));
    assert!(Triangle::accepts(sol(2.0, 3.0, 0.5, 0.5), s(3.0), s(3.0)));
    assert!(Triangle::accepts(sol(1e-6, 3.0, 0.5, 0.5), s(0.001), s(INF)));
}

#[test]
fn triangle_rejects() {
    assert!(!Triangle::accepts(sol(9.9e-7, 3.0, 0.25, 0.25), s(0.001), s(INF)));
    assert!(!Triangle::accepts(sol(-9.9e-7, 3.0, 0.25, 0.25), s(0.001), s(INF)));
    assert!(!Triangle::accepts(sol(0.0, 3.0, 0.25, 0.25), s(0.001), s(INF)));
    assert!(!Triangle::accepts(sol(2.0, 3.0, -0.01, 0.25), s(0.001), s(INF)));
    assert!(!Triangle::accepts(sol(2.0, 3.0, 0.25, -0.01), s(0.001), s(INF)));
    assert!(!Triangle::accepts(sol(2.0, 3.0, 1.01, 0.0), s(0.001), s(INF)));
    assert!(!Triangle::accepts(sol(2.0, 3.0, 0.6, 0.5), s(0.001), s(INF)));
    assert!(!Triangle::accepts(sol(2.0, 0.0, 0.25, 0.25), s(0.001), s(INF)));
    assert!(!Triangle::accepts(sol(2.0, 3.0, 0.25, 0.25), s(0.001), s(2.9)));
    // A solution that holds no number is no hit.
    assert!(!Triangle::accepts(sol(NAN, NAN, NAN, NAN), s(0.001), s(INF)));
    assert!(!Triangle::accepts(sol(NAN, 3.0, 0.25, 0.25), s(0.001), s(INF)));
    assert!(!Triangle::accepts(sol(2.0, NAN, 0.25, 0.25), s(0.001), s(INF)));
    assert!(!Triangle::accepts(sol(2.0, 3.0, NAN, 0.25), s(0.001), s(INF)));
    assert!(!Triangle::accepts(sol(2.0, 3.0, 0.25, NAN), s(0.001), s(INF)));
    assert!(!Triangle::accepts(sol(2.0, 3.0, 0.25, 0.25), s(NAN), s(INF)));
    assert!(!Triangle::accepts(sol(2.0, 3.0, 0.25, 0.25), s(0.001), s(NAN)));
}

#[test]
fn negligible_is_below_a_millionth() {
    assert!(is_negligible(s(0.0)));
    assert!(is_negligible(s(-0.0)));
    assert!(is_negligible(s(0.000_000_999)));
    assert!(is_negligible(s(-0.000_000_999)));
    assert!(!is_negligible(s(0.000_001)));
    assert!(!is_negligible(s(-0.000_001)));
    assert!(!is_negligible(s(NAN)));
    assert_eq!(hawxide::triangle::DEGENERATE_BITS, 0.000_001f64.to_bits());
}

fn quad() -> TriangleMesh {
    TriangleMesh::new(
        2,
        vec![0, 1, 2, 0, 2, 3],
        4,
        vec![v(0.0, 0.0, 0.0), v(1.0, 0.0, 0.0), v(1.0, 1.0, 0.5), v(0.0, 1.0, 0.0)],
        None,
        None,
        Some(vec![(s(0.0), s(0.0)), (s(1.0), s(0.0)), (s(1.0), s(1.0)), (s(0.0), s(1.0))]),
        3,
    )
}

#[test]
fn flat_arrays_are_cut_into_vertices() {
    let flat: Vec<Scalar> = [1.0, 2.0, 3.0, 4.0, 5.0, 6.0].iter().map(|x| s(*x)).collect();
    assert_eq!(
        hawxide::triangle_mesh::triples(&flat),
        vec![v(1.0, 2.0, 3.0), v(4.0, 5.0, 6.0)]
    );
    assert_eq!(
        hawxide::triangle_mesh::pairs(&flat),
        vec![(s(1.0), s(2.0)), (s(3.0), s(4.0)), (s(5.0), s(6.0))]
    );
    assert_eq!(hawxide::triangle_mesh::triples(&[]), vec![]);
    assert_eq!(hawxide::triangle_mesh::pairs(&[]), vec![]);
}

#[test]
fn mesh_keeps_its_arrays() {
    let m = quad();
    assert_eq!(m.n_faces, 2);
    assert_eq!(m.n_vertices, 4);
    assert_eq!(m.vertex_indices, vec![0, 1, 2, 0, 2, 3]);
    assert_eq!(m.p.len(), 4);
    assert!(m.n.is_none());
    assert!(m.s.is_none());
    assert_eq!(m.uv.as_ref().unwrap().len(), 4);
    assert_eq!(m.mat, 3);
    assert!(m.vertex_indices.iter().all(|&i| i < m.n_vertices));
}

#[test]
fn mesh_lengths_are_checked() {
    let p = vec![v(0.0, 0.0, 0.0), v(1.0, 0.0, 0.0), v(1.0, 1.0, 0.0)];
    let n = Some(vec![v(0.0, 0.0, 1.0); 3]);
    let short = Some(vec![v(0.0, 0.0, 1.0); 2]);
    let uv = Some(vec![(s(0.0), s(0.0)); 3]);
    let uv_long = Some(vec![(s(0.0), s(0.0)); 4]);
    assert!(TriangleMesh::fits(1, &vec![0, 1, 2], 3, &p, &None, &None, &None));
    assert!(TriangleMesh::fits(1, &vec![0, 1, 2, 0], 3, &p, &n, &n, &uv));
    assert!(TriangleMesh::fits(0, &vec![], 3, &p, &None, &None, &None));
    assert!(!TriangleMesh::fits(2, &vec![0, 1, 2, 0, 1], 3, &p, &None, &None, &None));
    assert!(!TriangleMesh::fits(1, &vec![0, 1], 3, &p, &None, &None, &None));
    assert!(!TriangleMesh::fits(1, &vec![0, 1, 2], 4, &p, &None, &None, &None));
    assert!(!TriangleMesh::fits(1, &vec![0, 1, 2], 3, &p, &short, &None, &None));
    assert!(!TriangleMesh::fits(1, &vec![0, 1, 2], 3, &p, &None, &short, &None));
    assert!(!TriangleMesh::fits(1, &vec![0, 1, 2], 3, &p, &None, &None, &uv_long));
    assert!(!TriangleMesh::fits(usize::MAX, &vec![0, 1, 2], 3, &p, &None, &None, &None));
    assert!(!TriangleMesh::fits(usize::MAX / 3 + 1, &vec![0, 1, 2], 3, &p, &None, &None, &None));
}

#[test]
fn mesh_indices_out_of_range_are_found() {
    let p = vec![v(0.0, 0.0, 0.0), v(1.0, 0.0, 0.0), v(1.0, 1.0, 0.0)];
    assert!(!TriangleMesh::fits(1, &vec![0, 1, 3], 3, &p, &None, &None, &None));
    assert!(!TriangleMesh::fits(1, &vec![3, 1, 2], 3, &p, &None, &None, &None));
    assert!(!TriangleMesh::fits(1, &vec![0, usize::MAX, 2], 3, &p, &None, &None, &None));
    assert!(!TriangleMesh::fits(2, &vec![0, 1, 2, 2, 1, 7], 3, &p, &None, &None, &None));
    assert!(TriangleMesh::fits(2, &vec![0, 1, 2, 2, 1, 0], 3, &p, &None, &None, &None));
    // An index past the last triangle is the corner of none.
    assert!(TriangleMesh::fits(1, &vec![0, 1, 2, 9], 3, &p, &None, &None, &None));
    let spare = TriangleMesh::new(1, vec![0, 1, 2, 9], 3, p, None, None, None, 0);
    let only = Triangle::new(Arc::new(spare), 0);
    assert_eq!(only.vs, [0, 1, 2]);
}

#[test]
fn triangle_reads_its_corners() {
    let mesh = Arc::new(quad());
    let t0 = Triangle::new(mesh.clone(), 0);
    let t1 = Triangle::new(mesh.clone(), 1);
    assert_eq!(t0.i_min, 0);
    assert_eq!(t0.vs, [0, 1, 2]);
    assert_eq!(t1.i_min, 3);
    assert_eq!(t1.vs, [0, 2, 3]);
    assert_eq!(t1.vertex(0), v(0.0, 0.0, 0.0));
    assert_eq!(t1.vertex(1), v(1.0, 1.0, 0.5));
    assert_eq!(t1.vertex(2), v(0.0, 1.0, 0.0));
    assert_eq!(t1.get_uvs(), [(s(0.0), s(0.0)), (s(1.0), s(1.0)), (s(0.0), s(1.0))]);
    assert_eq!(t1.corner_normals(), None);
    assert_eq!(
        t1.corner_box(),
        AABB { min: v(0.0, 0.0, 0.0), max: v(1.0, 1.0, 0.5) }
    );
}

#[test]
fn triangle_without_texture_coordinates_gets_the_default() {
    let p = vec![v(0.0, 0.0, 0.0), v(1.0, 0.0, 0.0), v(1.0, 1.0, 0.0)];
    let n = vec![v(0.0, 0.0, 1.0), v(0.0, 1.0, 0.0), v(1.0, 0.0, 0.0)];
    let mesh = Arc::new(TriangleMesh::new(1, vec![2, 0, 1], 3, p, Some(n), None, None, 0));
    let t = Triangle::new(mesh, 0);
    assert_eq!(t.get_uvs(), [(s(0.0), s(0.0)), (s(1.0), s(0.0)), (s(1.0), s(1.0))]);
    assert_eq!(
        t.corner_normals(),
        Some([v(1.0, 0.0, 0.0), v(0.0, 0.0, 1.0), v(0.0, 1.0, 0.0)])
    );
}
