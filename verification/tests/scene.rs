use raytracer::aabb::{Slab, AABB};
use raytracer::bvh::{BVHNode, BVH};
use raytracer::hitrec::{HitRec, Rec};
use raytracer::hittable::{try_primitive, Hit, HittableList};
use raytracer::rng::Rng;
use raytracer::scalar::Scalar;
use raytracer::sorting::sort_along;
use raytracer::sphere::{Roots, Sphere};
use raytracer::vec3::Vec3;

fn s(x: f64) -> Scalar {
    Scalar::from_bits(x.to_bits())
}

fn f(x: Scalar) -> f64 {
    f64::from_bits(x.to_bits())
}

fn v(x: f64, y: f64, z: f64) -> Vec3 {
    Vec3 { x: s(x), y: s(y), z: s(z) }
}

fn arr(p: Vec3) -> [f64; 3] {
    [f(p.x), f(p.y), f(p.z)]
}

fn dot(a: [f64; 3], b: [f64; 3]) -> f64 {
    a[0] * b[0] + a[1] * b[1] + a[2] * b[2]
}

fn at(o: [f64; 3], d: [f64; 3], t: f64) -> [f64; 3] {
    [o[0] + t * d[0], o[1] + t * d[1], o[2] + t * d[2]]
}

fn slabs(b: AABB, o: [f64; 3], d: [f64; 3]) -> [Slab; 3] {
    let mut out = [Slab { at_min: s(0.0), at_max: s(0.0), inv_d: s(0.0) }; 3];
    for a in 0..3 {
        let inv_d = 1.0 / d[a];
        out[a] = Slab {
            at_min: s((f(b.min.index(a)) - o[a]) * inv_d),
            at_max: s((f(b.max.index(a)) - o[a]) * inv_d),
            inv_d: s(inv_d),
        };
    }
    out
}

fn roots(sp: &Sphere, o: [f64; 3], d: [f64; 3]) -> Roots {
    let c = arr(sp.c);
    let r = f(sp.r);
    let oc = [o[0] - c[0], o[1] - c[1], o[2] - c[2]];
    let a = dot(d, d);
    let half_b = dot(oc, d);
    let cc = dot(oc, oc) - r * r;
    let disc = half_b * half_b - a * cc;
    let sqrtd = disc.sqrt();
    Roots { disc: s(disc), near: s((-half_b - sqrtd) / a), far: s((-half_b + sqrtd) / a) }
}

fn bounds(sp: &Sphere) -> AABB {
    let c = arr(sp.c);
    let r = f(sp.r);
    AABB { min: v(c[0] - r, c[1] - r, c[2] - r), max: v(c[0] + r, c[1] + r, c[2] + r) }
}

fn sphere(x: f64, y: f64, z: f64, r: f64) -> Sphere {
    Sphere::new(v(x, y, z), s(r), None)
}

fn list_of(spheres: &[Sphere]) -> HittableList {
    let mut l = HittableList::new();
    for sp in spheres {
        l.push(*sp);
    }
    l
}

fn boxes_of(l: &HittableList) -> Vec<Option<AABB>> {
    l.objects.iter().map(|sp| Some(bounds(sp))).collect()
}

fn list_hit(l: &HittableList, o: [f64; 3], d: [f64; 3], lo: f64, hi: f64) -> Option<Hit> {
    l.hit(&|i: usize| roots(&l.objects[i], o, d), s(lo), s(hi))
}

fn tree_hit(t: &BVH, l: &HittableList, o: [f64; 3], d: [f64; 3], lo: f64, hi: f64) -> Option<Hit> {
    t.hit(&|b: AABB| slabs(b, o, d), &|i: usize| roots(&l.objects[i], o, d), s(lo), s(hi))
}

fn leaves(t: &BVH, out: &mut Vec<usize>) {
    match t {
        BVH::Empty => {}
        BVH::Leaf { prim, .. } => out.push(*prim),
        BVH::Node(BVHNode { left, right, .. }) => {
            leaves(left, out);
            leaves(right, out);
        }
    }
}

fn check_boxes(t: &BVH, boxes: &[Option<AABB>]) -> Option<AABB> {
    match t {
        BVH::Empty => None,
        BVH::Leaf { prim, bounds } => {
            assert_eq!(Some(*bounds), boxes[*prim]);
            Some(*bounds)
        }
        BVH::Node(BVHNode { bounds, left, right }) => {
            let l = check_boxes(left, boxes).unwrap();
            let r = check_boxes(right, boxes).unwrap();
            assert_eq!(*bounds, AABB::union(l, r));
            let mut nl = Vec::new();
            let mut nr = Vec::new();
            leaves(left, &mut nl);
            leaves(right, &mut nr);
            assert_eq!(nl.len(), (nl.len() + nr.len()) / 2);
            Some(*bounds)
        }
    }
}

#[test]
fn sphere_hit() {
    let sp = sphere(0.0, 0.0, 0.0, 1.0);
    let r1 = roots(&sp, [2.0, 2.0, 2.0], [1.0, 1.0, 1.0]);
    let r2 = roots(&sp, [-2.0, -2.0, -2.0], [1.0, 1.0, 1.0]);
    assert!(match Sphere::hit(&r1, s(0.0), s(10.0)) {
        None => true,
        _ => false,
    });
    assert!(match Sphere::hit(&r2, s(0.0), s(10.0)) {
        Some(_) => true,
        _ => false,
    });
}

#[test]
fn unit_sphere_from_the_left() {
    let sp = sphere(0.0, 0.0, 0.0, 1.0);
    let o = [-2.0, 0.0, 0.0];
    let d = [1.0, 0.0, 0.0];
    let t = Sphere::hit(&roots(&sp, o, d), s(0.0), s(10.0)).unwrap();
    assert_eq!(t, s(1.0));
    let p = at(o, d, f(t));
    assert_eq!(p, [-1.0, 0.0, 0.0]);
    let n = [p[0] / 1.0, p[1] / 1.0, p[2] / 1.0];
    let rec = HitRec::hit(v(p[0], p[1], p[2]), t, s(0.0), s(0.0), s(dot(d, n)), v(n[0], n[1], n[2]), None);
    match rec {
        HitRec::Hit(rec, mat) => {
            assert_eq!(rec.t, s(1.0));
            assert_eq!(rec.p, v(-1.0, 0.0, 0.0));
            assert_eq!(rec.n, v(-1.0, 0.0, 0.0));
            assert!(rec.front_face);
            assert_eq!(mat, None);
        }
        HitRec::Miss => panic!("no hit"),
    }
}

#[test]
fn sphere_hit_chooses_by_the_span() {
    let r = Roots { disc: s(4.0), near: s(1.0), far: s(3.0) };
    assert_eq!(Sphere::hit(&r, s(0.0), s(10.0)), Some(s(1.0)));
    // The nearer root lies behind the start: the farther one counts.
    assert_eq!(Sphere::hit(&r, s(2.0), s(10.0)), Some(s(3.0)));
    // The ends of the span do not belong to it.
    assert_eq!(Sphere::hit(&r, s(1.0), s(3.0)), None);
    assert_eq!(Sphere::hit(&r, s(1.0), s(10.0)), Some(s(3.0)));
    assert_eq!(Sphere::hit(&r, s(0.0), s(1.0)), None);
    assert_eq!(Sphere::hit(&r, s(3.0), s(10.0)), None);
    // A negative discriminant is a miss whatever the roots hold.
    let none = Roots { disc: s(-1.0), near: s(1.0), far: s(3.0) };
    assert_eq!(Sphere::hit(&none, s(0.0), s(10.0)), None);
    // A grazing ray has one root twice.
    let graze = Roots { disc: s(0.0), near: s(2.0), far: s(2.0) };
    assert_eq!(Sphere::hit(&graze, s(0.0), s(10.0)), Some(s(2.0)));
    // Roots that are no numbers are never chosen.
    let nan = Roots { disc: s(f64::NAN), near: s(f64::NAN), far: s(f64::NAN) };
    assert_eq!(Sphere::hit(&nan, s(0.0), s(10.0)), None);
}

#[test]
fn hit_record_turns_the_normal_against_the_ray() {
    let n = v(0.0, 1.0, 0.0);
    let p = v(0.0, 0.0, 0.0);
    let outside = HitRec::hit(p, s(1.0), s(0.25), s(0.5), s(-0.5), n, Some(3));
    assert_eq!(
        outside,
        HitRec::Hit(Rec { p, n, t: s(1.0), u: s(0.25), v: s(0.5), front_face: true }, Some(3))
    );
    let inside = HitRec::hit(p, s(1.0), s(0.25), s(0.5), s(0.5), n, Some(3));
    assert_eq!(
        inside,
        HitRec::Hit(
            Rec { p, n: v(-0.0, -1.0, -0.0), t: s(1.0), u: s(0.25), v: s(0.5), front_face: false },
            Some(3)
        )
    );
    // A ray along the surface counts as coming from inside.
    match HitRec::hit(p, s(1.0), s(0.0), s(0.0), s(0.0), n, None) {
        HitRec::Hit(rec, _) => assert!(!rec.front_face),
        HitRec::Miss => panic!("no hit"),
    }
    let mut rec = Rec { p, n: p, t: s(2.0), u: s(0.0), v: s(0.0), front_face: false };
    rec.set_face_normal(s(-1.0), n);
    assert_eq!(rec, Rec { p, n, t: s(2.0), u: s(0.0), v: s(0.0), front_face: true });
    rec.set_face_normal(s(1.0), n);
    assert_eq!(rec, Rec { p, n: n.neg(), t: s(2.0), u: s(0.0), v: s(0.0), front_face: false });
}

#[test]
fn try_primitive_keeps_the_nearer() {
    let r = Roots { disc: s(1.0), near: s(2.0), far: s(4.0) };
    assert_eq!(try_primitive(None, 7, &r, s(0.0), s(10.0)), Some(Hit { prim: 7, t: s(2.0) }));
    let found = Some(Hit { prim: 1, t: s(3.0) });
    assert_eq!(try_primitive(found, 7, &r, s(0.0), s(10.0)), Some(Hit { prim: 7, t: s(2.0) }));
    let nearer = Some(Hit { prim: 1, t: s(1.5) });
    assert_eq!(try_primitive(nearer, 7, &r, s(0.0), s(10.0)), nearer);
    let tie = Some(Hit { prim: 1, t: s(2.0) });
    assert_eq!(try_primitive(tie, 7, &r, s(0.0), s(10.0)), tie);
}

#[test]
fn list_returns_the_nearest() {
    let l = list_of(&[
        sphere(6.0, 0.0, 0.0, 1.0),
        sphere(2.0, 0.0, 0.0, 1.0),
        sphere(10.0, 0.0, 0.0, 1.0),
        sphere(0.0, 5.0, 0.0, 1.0),
    ]);
    let o = [-3.0, 0.0, 0.0];
    let d = [1.0, 0.0, 0.0];
    assert_eq!(list_hit(&l, o, d, 0.0, f64::INFINITY), Some(Hit { prim: 1, t: s(4.0) }));
    assert_eq!(list_hit(&l, o, d, 4.5, f64::INFINITY), Some(Hit { prim: 1, t: s(6.0) }));
    assert_eq!(list_hit(&l, o, d, 6.5, f64::INFINITY), Some(Hit { prim: 0, t: s(8.0) }));
    assert_eq!(list_hit(&l, o, d, 0.0, 4.0), None);
    assert_eq!(list_hit(&l, o, [0.0, 0.0, 1.0], 0.0, f64::INFINITY), None);
}

#[test]
fn list_keeps_the_earlier_of_two_at_one_distance() {
    let l = list_of(&[sphere(2.0, 0.0, 0.0, 1.0), sphere(2.0, 0.0, 0.0, 1.0)]);
    let h = list_hit(&l, [-3.0, 0.0, 0.0], [1.0, 0.0, 0.0], 0.0, f64::INFINITY);
    assert_eq!(h, Some(Hit { prim: 0, t: s(4.0) }));
}

#[test]
fn empty_list_misses_and_has_no_box() {
    let mut l = list_of(&[sphere(2.0, 0.0, 0.0, 1.0)]);
    l.clear();
    assert_eq!(l.objects.len(), 0);
    assert_eq!(list_hit(&l, [-3.0, 0.0, 0.0], [1.0, 0.0, 0.0], 0.0, f64::INFINITY), None);
    assert_eq!(l.aabb(&vec![]), None);
}

#[test]
fn list_box_is_the_union() {
    let l = list_of(&[
        sphere(0.0, 0.0, 0.0, 1.0),
        sphere(2.0, 2.0, 2.0, 1.0),
        sphere(-2.0, -2.0, -2.0, 0.5),
    ]);
    let boxes = boxes_of(&l);
    assert_eq!(l.aabb(&boxes), Some(AABB { min: v(-2.5, -2.5, -2.5), max: v(3.0, 3.0, 3.0) }));
    let mut holed = boxes.clone();
    holed[1] = None;
    assert_eq!(l.aabb(&holed), None);
    let one = list_of(&[sphere(0.0, 0.0, 0.0, 1.0)]);
    assert_eq!(one.aabb(&boxes_of(&one)), Some(AABB { min: v(-1.0, -1.0, -1.0), max: v(1.0, 1.0, 1.0) }));
}

#[test]
fn sorting_goes_by_key_then_by_index() {
    let boxes: Vec<AABB> = [3.0, -1.0, 3.0, 0.0, -0.0, -7.5]
        .iter()
        .map(|&x| AABB { min: v(x, -x, 0.0), max: v(x + 1.0, 1.0 - x, 1.0) })
        .collect();
    assert_eq!(sort_along(&boxes, 0, vec![0, 1, 2, 3, 4, 5]), vec![5, 1, 3, 4, 0, 2]);
    assert_eq!(sort_along(&boxes, 0, vec![5, 4, 3, 2, 1, 0]), vec![5, 1, 3, 4, 0, 2]);
    assert_eq!(sort_along(&boxes, 1, vec![0, 1, 2, 3, 4, 5]), vec![0, 2, 3, 4, 1, 5]);
    assert_eq!(sort_along(&boxes, 2, vec![4, 2, 0]), vec![0, 2, 4]);
    assert_eq!(sort_along(&boxes, 0, vec![]), Vec::<usize>::new());
    assert_eq!(sort_along(&boxes, 0, vec![3]), vec![3]);
}

#[test]
fn build() {
    let mut rng = Rng::new(1234);
    let mut draw = |lo: f64, hi: f64| lo + (hi - lo) * (rng.next_fraction() as f64 / 8388608.0);
    let spheres: Vec<Sphere> = (0..8)
        .map(|_| {
            let x = draw(-5.0, 5.0);
            let y = draw(-5.0, 5.0);
            let z = draw(-5.0, 5.0);
            sphere(x, y, z, 0.5)
        })
        .collect();
    let l = list_of(&spheres);
    let boxes = boxes_of(&l);
    let bvh = BVH::build(&boxes, &mut rng).unwrap();
    let mut got = Vec::new();
    leaves(&bvh, &mut got);
    got.sort();
    assert_eq!(got, (0..8).collect::<Vec<usize>>());
    check_boxes(&bvh, &boxes);
    assert_eq!(bvh.aabb(), l.aabb(&boxes));
}

#[test]
fn build_draws_one_axis_for_each_node() {
    // From the seed 1234 the first axes drawn are z, z and x.
    let l = list_of(&[
        sphere(0.0, 0.0, 5.0, 1.0),
        sphere(1.0, 0.0, 3.0, 1.0),
        sphere(2.0, 0.0, 4.0, 1.0),
        sphere(3.0, 0.0, 1.0, 1.0),
    ]);
    let boxes = boxes_of(&l);
    let mut rng = Rng::new(1234);
    let bvh = BVH::build(&boxes, &mut rng).unwrap();
    let mut got = Vec::new();
    leaves(&bvh, &mut got);
    // Along z the order is 3, 1, 2, 0; each half is then sorted again, the
    // first along z and the second along x.
    assert_eq!(got, vec![3, 1, 0, 2]);
    let mut after = Rng::new(1234);
    for _ in 0..3 {
        after.next_fraction();
    }
    assert_eq!(rng.next_fraction(), after.next_fraction());
}

#[test]
fn build_of_small_scenes() {
    let mut rng = Rng::new(9);
    let none = BVH::build(&vec![], &mut rng).unwrap();
    assert!(matches!(none, BVH::Empty));
    assert_eq!(none.aabb(), None);
    let b = AABB { min: v(0.0, 0.0, 0.0), max: v(1.0, 1.0, 1.0) };
    let one = BVH::build(&vec![Some(b)], &mut rng).unwrap();
    assert!(matches!(one, BVH::Leaf { prim: 0, .. }));
    assert_eq!(one.aabb(), Some(b));
    // Neither build has drawn.
    assert_eq!(rng.next_fraction(), Rng::new(9).next_fraction());
    let c = AABB { min: v(-3.0, -3.0, -3.0), max: v(-2.0, -2.0, -2.0) };
    let two = BVH::build(&vec![Some(b), Some(c)], &mut rng).unwrap();
    let mut got = Vec::new();
    leaves(&two, &mut got);
    assert_eq!(got, vec![1, 0]);
    assert_eq!(two.aabb(), Some(AABB { min: v(-3.0, -3.0, -3.0), max: v(1.0, 1.0, 1.0) }));
}

#[test]
fn build_fails_without_a_box() {
    let b = AABB { min: v(0.0, 0.0, 0.0), max: v(1.0, 1.0, 1.0) };
    let mut rng = Rng::new(1234);
    assert!(BVH::build(&vec![Some(b), None, Some(b)], &mut rng).is_none());
    assert!(BVH::build(&vec![None], &mut rng).is_none());
    // A failed build leaves the generator as it was.
    assert_eq!(rng.next_fraction(), Rng::new(1234).next_fraction());
    let l = list_of(&[sphere(0.0, 0.0, 0.0, 1.0)]);
    assert!(l.into_bvh(&vec![None], &mut rng).is_none());
    assert!(l.into_bvh(&boxes_of(&l), &mut rng).is_some());
}

#[test]
fn bvh_hit() {
    let mut rng = Rng::new(1234);
    let l = list_of(&[
        sphere(0.0, 0.0, 0.0, 1.0),
        sphere(2.0, 2.0, 2.0, 1.0),
        sphere(-2.0, -2.0, -2.0, 1.0),
    ]);
    let bvh = BVH::build(&boxes_of(&l), &mut rng).unwrap();

    let o1 = [-3.0, 0.0, 0.0];
    let d1 = [1.0, 0.0, 0.0];
    match tree_hit(&bvh, &l, o1, d1, 0.0, f64::INFINITY) {
        Some(h) => assert_eq!(at(o1, d1, f(h.t)), [-1.0, 0.0, 0.0]),
        None => assert!(false),
    }

    let o2 = [2.0, 5.0, 2.0];
    let d2 = [0.0, -1.0, 0.0];
    match tree_hit(&bvh, &l, o2, d2, 0.0, f64::INFINITY) {
        Some(h) => assert_eq!(at(o2, d2, f(h.t)), [2.0, 3.0, 2.0]),
        None => assert!(false),
    }
}

#[test]
fn bvh_agrees_with_the_list() {
    let centres = [0.0, 2.0, -2.0, 4.0, -4.0, 6.0, -6.0];
    let spheres: Vec<Sphere> = centres.iter().map(|&c| sphere(c, c, c, 1.0)).collect();
    let l = list_of(&spheres);
    let boxes = boxes_of(&l);
    for seed in [1u32, 1234, 99, 4711] {
        let mut rng = Rng::new(seed);
        let bvh = BVH::build(&boxes, &mut rng).unwrap();
        for (k, &c) in centres.iter().enumerate() {
            // Straight at one sphere, along each axis and from either side.
            for axis in 0..3 {
                for sign in [-1.0, 1.0] {
                    let mut o = [c, c, c];
                    o[axis] = c + sign * 1.75;
                    let mut d = [0.0, 0.0, 0.0];
                    d[axis] = -sign;
                    let by_list = list_hit(&l, o, d, 0.001, f64::INFINITY);
                    let by_tree = tree_hit(&bvh, &l, o, d, 0.001, f64::INFINITY);
                    assert_eq!(by_list, Some(Hit { prim: k, t: s(0.75) }));
                    assert_eq!(by_tree, by_list);
                }
            }
        }
        // Along the diagonal through all of them, and past all of them.
        for (o, d) in [
            ([-20.0, -20.0, -20.0], [1.0, 1.0, 1.0]),
            ([20.0, 20.0, 20.0], [-1.0, -1.0, -1.0]),
            ([0.5, 0.25, -30.0], [0.0, 0.0, 1.0]),
            ([30.0, 0.0, 0.0], [-1.0, 0.3, 0.0]),
            ([3.0, 0.0, -9.0], [0.0, 0.0, 1.0]),
        ] {
            for (lo, hi) in [(0.001, f64::INFINITY), (0.0, 15.0), (25.0, 40.0), (12.0, 13.0)] {
                assert_eq!(tree_hit(&bvh, &l, o, d, lo, hi), list_hit(&l, o, d, lo, hi));
            }
        }
    }
}

#[test]
fn bvh_passes_over_what_the_ray_misses() {
    let l = list_of(&[
        sphere(0.0, 0.0, 0.0, 1.0),
        sphere(10.0, 0.0, 0.0, 1.0),
        sphere(20.0, 0.0, 0.0, 1.0),
        sphere(30.0, 0.0, 0.0, 1.0),
    ]);
    let mut rng = Rng::new(5);
    let bvh = BVH::build(&boxes_of(&l), &mut rng).unwrap();
    let o = [30.0, 5.0, 0.0];
    let d = [0.0, -1.0, 0.0];
    let asked = std::cell::RefCell::new(Vec::new());
    let h = bvh.hit(
        &|b: AABB| slabs(b, o, d),
        &|i: usize| {
            asked.borrow_mut().push(i);
            roots(&l.objects[i], o, d)
        },
        s(0.0),
        s(f64::INFINITY),
    );
    assert_eq!(h, Some(Hit { prim: 3, t: s(4.0) }));
    assert!(!asked.borrow().contains(&0));
    assert!(!asked.borrow().contains(&1));
    // A ray that misses the root box asks for nothing at all.
    asked.borrow_mut().clear();
    let far = [0.0, 50.0, 0.0];
    let h = bvh.hit(
        &|b: AABB| slabs(b, far, [1.0, 0.0, 0.0]),
        &|i: usize| {
            asked.borrow_mut().push(i);
            roots(&l.objects[i], far, [1.0, 0.0, 0.0])
        },
        s(0.0),
        s(f64::INFINITY),
    );
    assert_eq!(h, None);
    assert!(asked.borrow().is_empty());
}

#[test]
fn empty_tree_misses() {
    let l = list_of(&[]);
    let h = tree_hit(&BVH::Empty, &l, [0.0, 0.0, 0.0], [1.0, 0.0, 0.0], 0.0, f64::INFINITY);
    assert_eq!(h, None);
    let b = AABB { min: v(1.0, -1.0, -1.0), max: v(3.0, 1.0, 1.0) };
    // A node with one side missing answers with the other side.
    let lone = list_of(&[sphere(2.0, 0.0, 0.0, 1.0)]);
    let half = BVH::Node(BVHNode {
        bounds: b,
        left: Box::new(BVH::Empty),
        right: Box::new(BVH::Leaf { prim: 0, bounds: b }),
    });
    let h = tree_hit(&half, &lone, [0.0, 0.0, 0.0], [1.0, 0.0, 0.0], 0.0, f64::INFINITY);
    assert_eq!(h, Some(Hit { prim: 0, t: s(1.0) }));
    let h = half.hit_from(
        Some(Hit { prim: 9, t: s(0.5) }),
        &|bx: AABB| slabs(bx, [0.0, 0.0, 0.0], [1.0, 0.0, 0.0]),
        &|i: usize| roots(&lone.objects[i], [0.0, 0.0, 0.0], [1.0, 0.0, 0.0]),
        s(0.0),
        s(f64::INFINITY),
    );
    assert_eq!(h, Some(Hit { prim: 9, t: s(0.5) }));
}

#[test]
fn negative_radius_turns_the_surface_inside_out() {
    let shell = sphere(0.0, 0.0, 0.0, -1.0);
    assert_eq!(shell.r, s(-1.0));
    let o = [-2.0, 0.0, 0.0];
    let d = [1.0, 0.0, 0.0];
    // The crossings are those of the sphere with the radius 1.
    assert_eq!(roots(&shell, o, d), roots(&sphere(0.0, 0.0, 0.0, 1.0), o, d));
    let t = Sphere::hit(&roots(&shell, o, d), s(0.0), s(10.0)).unwrap();
    assert_eq!(t, s(1.0));
    let p = at(o, d, f(t));
    let r = f(shell.r);
    let n = [p[0] / r, p[1] / r, p[2] / r];
    match HitRec::hit(v(p[0], p[1], p[2]), t, s(0.0), s(0.0), s(dot(d, n)), v(n[0], n[1], n[2]), shell.mat) {
        HitRec::Hit(rec, _) => {
            // The outward normal points inwards, so the ray counts as coming
            // from inside, and the normal is turned against it.
            assert!(!rec.front_face);
            assert_eq!(rec.n, v(-1.0, 0.0, 0.0));
        }
        HitRec::Miss => panic!("no hit"),
    }
}
