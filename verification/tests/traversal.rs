use ray::aabb::{surrounding_box, Aabb, Slab};
use ray::bvh::{compare_on, key_of, order_pair, sort_by_min, BvhNode, BvhTree};
use ray::geom::{Axis, Vec3};
use ray::object::{EmptyObject, FlipFace, HitRecord, Object, Objects, Probe, TimeRange};
use ray::scalar::Scalar;
use ray::sphere::{choose_root, passes_by};
use std::cmp::Ordering;

fn rank(x: f32) -> i32 {
    let bits = x.to_bits();
    let magnitude = (bits & 0x7fff_ffff) as i32;
    if bits & 0x8000_0000 != 0 {
        -magnitude
    } else {
        magnitude
    }
}

fn number(s: Scalar) -> f32 {
    if s.rank < 0 {
        -f32::from_bits((-s.rank) as u32)
    } else {
        f32::from_bits(s.rank as u32)
    }
}

fn s(x: f32) -> Scalar {
    Scalar::from_rank(rank(x))
}

fn v(p: [f32; 3]) -> Vec3 {
    Vec3::new(s(p[0]), s(p[1]), s(p[2]))
}

fn floats(p: &Vec3) -> [f32; 3] {
    [number(p.x), number(p.y), number(p.z)]
}

fn dot(a: [f32; 3], b: [f32; 3]) -> f32 {
    a[0] * b[0] + a[1] * b[1] + a[2] * b[2]
}

/// A ray with real coordinates.
#[derive(Clone, Copy)]
struct Beam {
    origin: [f32; 3],
    direction: [f32; 3],
}

impl Beam {
    fn at(&self, t: f32) -> [f32; 3] {
        [
            self.origin[0] + t * self.direction[0],
            self.origin[1] + t * self.direction[1],
            self.origin[2] + t * self.direction[2],
        ]
    }
}

impl Probe for Beam {
    fn slabs(&self, bbox: &Aabb) -> (Slab, Slab, Slab) {
        let low = floats(&bbox.box_min);
        let high = floats(&bbox.box_max);
        let slab = |a: usize| {
            let inv_d = 1.0 / self.direction[a];
            Slab {
                at_min: s((low[a] - self.origin[a]) * inv_d),
                at_max: s((high[a] - self.origin[a]) * inv_d),
                descending: inv_d < 0.0,
            }
        };
        (slab(0), slab(1), slab(2))
    }

    fn opposes(&self, direction: &Vec3) -> bool {
        dot(self.direction, floats(direction)) < 0.0
    }
}

/// A sphere with real coordinates.
#[derive(Clone, Copy)]
struct Ball {
    center: [f32; 3],
    radius: f32,
    material: usize,
}

impl Object<Beam> for Ball {
    fn hit(&self, r: &Beam, t_min: Scalar, t_max: Scalar) -> Option<HitRecord> {
        let oc = [
            r.origin[0] - self.center[0],
            r.origin[1] - self.center[1],
            r.origin[2] - self.center[2],
        ];
        let a = dot(r.direction, r.direction);
        let half_b = dot(oc, r.direction);
        let c = dot(oc, oc) - self.radius * self.radius;
        let discriminant = half_b * half_b - a * c;
        if passes_by(s(discriminant)) {
            return None;
        }
        let sqrtd = discriminant.sqrt();
        let near = (-half_b - sqrtd) / a;
        let far = (-half_b + sqrtd) / a;
        let root = number(choose_root(s(near), s(far), t_min, t_max)?);
        let p = r.at(root);
        let outward = [
            (p[0] - self.center[0]) / self.radius,
            (p[1] - self.center[1]) / self.radius,
            (p[2] - self.center[2]) / self.radius,
        ];
        Some(HitRecord::with_ray(r, v(p), v(outward), self.material, s(root), s(0.0), s(0.0)))
    }

    fn bounding_box(&self, _time: &TimeRange) -> Option<Aabb> {
        let r = self.radius;
        Some(Aabb::new(
            v([self.center[0] - r, self.center[1] - r, self.center[2] - r]),
            v([self.center[0] + r, self.center[1] + r, self.center[2] + r]),
        ))
    }
}

/// An object without bounds: a plane across the third axis.
struct Ground {
    z: f32,
}

impl Object<Beam> for Ground {
    fn hit(&self, r: &Beam, t_min: Scalar, t_max: Scalar) -> Option<HitRecord> {
        let t = (self.z - r.origin[2]) / r.direction[2];
        if !(t >= number(t_min) && t <= number(t_max)) {
            return None;
        }
        Some(HitRecord::with_ray(r, v(r.at(t)), v([0.0, 0.0, 1.0]), 0, s(t), s(0.0), s(0.0)))
    }

    fn bounding_box(&self, _time: &TimeRange) -> Option<Aabb> {
        None
    }
}

/// A small generator of numbers in [0, 1) with a fixed seed.
struct Lcg(u64);

impl Lcg {
    fn next(&mut self) -> f32 {
        self.0 = self.0.wrapping_mul(6364136223846793005).wrapping_add(1442695040888963407);
        ((self.0 >> 40) as f32) / ((1u64 << 24) as f32)
    }
}

fn exposure() -> TimeRange {
    TimeRange::new(s(0.0), s(1.0))
}

fn balls(n: usize, seed: u64) -> Vec<Ball> {
    let mut g = Lcg(seed);
    let mut out = Vec::new();
    for k in 0..n {
        out.push(Ball {
            center: [g.next() * 20.0 - 10.0, g.next() * 20.0 - 10.0, g.next() * 20.0 - 10.0],
            radius: 0.2 + g.next(),
            material: k,
        });
    }
    out
}

fn beams(n: usize, seed: u64) -> Vec<Beam> {
    let mut g = Lcg(seed);
    let mut out = Vec::new();
    for _ in 0..n {
        out.push(Beam {
            origin: [g.next() * 4.0 - 2.0, g.next() * 4.0 - 2.0, -30.0],
            direction: [g.next() * 0.6 - 0.3, g.next() * 0.6 - 0.3, 1.0],
        });
    }
    out
}

fn leaves(tree: &BvhTree, out: &mut Vec<usize>) {
    match tree {
        BvhTree::Leaf { index } => out.push(*index),
        BvhTree::Node { left, right, .. } => {
            leaves(left, out);
            leaves(right, out);
        }
    }
}

fn box_of(tree: &BvhTree, boxes: &[Aabb]) -> Aabb {
    match tree {
        BvhTree::Leaf { index } => boxes[*index],
        BvhTree::Node { bbox, .. } => *bbox,
    }
}

/// Checks the invariant of the hierarchy below `tree` built over `count` objects.
fn check_tree(tree: &BvhTree, boxes: &[Aabb], count: usize) {
    match tree {
        BvhTree::Leaf { .. } => panic!("a run of objects is always a node"),
        BvhTree::Node { axis, left, right, bbox } => {
            assert_eq!(*bbox, surrounding_box(box_of(left, boxes), box_of(right, boxes)));
            let mut l = Vec::new();
            let mut r = Vec::new();
            leaves(left, &mut l);
            leaves(right, &mut r);
            for i in &l {
                for j in &r {
                    assert!(boxes[*i].min_on(*axis).le(boxes[*j].min_on(*axis)));
                }
                assert!(bbox.box_min.min(boxes[*i].box_min) == bbox.box_min);
                assert!(bbox.box_max.max(boxes[*i].box_max) == bbox.box_max);
            }
            if count == 1 {
                assert!(matches!(**left, BvhTree::Leaf { .. }));
                assert_eq!(l, r);
            } else if count == 2 {
                assert!(matches!(**left, BvhTree::Leaf { .. }));
                assert!(matches!(**right, BvhTree::Leaf { .. }));
            } else {
                check_tree(left, boxes, count / 2);
                check_tree(right, boxes, count - count / 2);
            }
        }
    }
}

#[test]
fn hit_record_with_ray_turns_the_normal_against_the_ray() {
    let down = Beam { origin: [0.0, 0.0, 5.0], direction: [0.0, 0.0, -1.0] };
    let up_normal = v([0.0, 0.0, 1.0]);
    let front = HitRecord::with_ray(&down, v([0.0, 0.0, 0.0]), up_normal, 4, s(5.0), s(0.25), s(0.75));
    assert!(front.front_face);
    assert_eq!(front.normal, up_normal);
    assert_eq!(front.material, 4);
    assert_eq!(front.t, s(5.0));
    assert_eq!(front.u, s(0.25));
    assert_eq!(front.v, s(0.75));
    let up = Beam { origin: [0.0, 0.0, -5.0], direction: [0.0, 0.0, 1.0] };
    let back = HitRecord::with_ray(&up, v([0.0, 0.0, 0.0]), up_normal, 4, s(5.0), s(0.0), s(0.0));
    assert!(!back.front_face);
    assert_eq!(back.normal, v([0.0, 0.0, -1.0]));
    assert_eq!(back, HitRecord::oriented(false, v([0.0, 0.0, 0.0]), up_normal, 4, s(5.0), s(0.0), s(0.0)));
    let mut rec = HitRecord::new(v([1.0, 2.0, 3.0]), v([9.0, 9.0, 9.0]), 1, s(2.0), s(0.5), s(0.5), true);
    rec.set_face_normal(&up, up_normal);
    assert!(!rec.front_face);
    assert_eq!(rec.normal, v([0.0, 0.0, -1.0]));
    assert_eq!(rec.p, v([1.0, 2.0, 3.0]));
    assert_eq!(rec.t, s(2.0));
    rec.set_face_normal(&down, up_normal);
    assert!(rec.front_face);
    assert_eq!(rec.normal, up_normal);
}

#[test]
fn every_hit_normal_points_against_the_ray() {
    let list = Objects::new(balls(50, 3));
    for beam in beams(300, 4) {
        if let Some(rec) = list.hit(&beam, s(0.001), s(f32::INFINITY)) {
            let n = floats(&rec.normal);
            assert!(dot(beam.direction, n) <= 0.0);
            assert!((dot(n, n).sqrt() - 1.0).abs() < 1e-3);
        }
    }
}

#[test]
fn flip_face_inverts_front_face_only() {
    let beam = Beam { origin: [0.0, 0.0, -5.0], direction: [0.0, 0.0, 1.0] };
    let ball = Ball { center: [0.0, 0.0, 0.0], radius: 1.0, material: 3 };
    let plain = ball.hit(&beam, s(0.001), s(f32::INFINITY)).unwrap();
    let flipped = FlipFace::new(ball).hit(&beam, s(0.001), s(f32::INFINITY)).unwrap();
    assert!(plain.front_face);
    assert!(!flipped.front_face);
    assert_eq!(HitRecord { front_face: true, ..flipped }, plain);
    assert_eq!(FlipFace::new(ball).bounding_box(&exposure()), ball.bounding_box(&exposure()));
}

#[test]
fn flip_face_twice_is_identity() {
    let ball = Ball { center: [0.5, 0.0, 0.0], radius: 2.0, material: 9 };
    let twice = FlipFace::new(FlipFace::new(ball));
    for beam in beams(100, 11) {
        assert_eq!(
            twice.hit(&beam, s(0.001), s(f32::INFINITY)),
            ball.hit(&beam, s(0.001), s(f32::INFINITY))
        );
    }
    let miss = Beam { origin: [50.0, 0.0, -5.0], direction: [0.0, 0.0, 1.0] };
    assert_eq!(twice.hit(&miss, s(0.001), s(f32::INFINITY)), None);
}

#[test]
fn empty_object_is_never_hit() {
    let beam = Beam { origin: [0.0, 0.0, -5.0], direction: [0.0, 0.0, 1.0] };
    assert!(EmptyObject {}.hit(&beam, s(0.0), s(f32::INFINITY)).is_none());
    assert!(<EmptyObject as Object<Beam>>::bounding_box(&EmptyObject {}, &exposure()).is_none());
}

#[test]
fn objects_report_the_closest_hit() {
    let beam = Beam { origin: [0.0, 0.0, -10.0], direction: [0.0, 0.0, 1.0] };
    let far = Ball { center: [0.0, 0.0, 5.0], radius: 1.0, material: 0 };
    let near = Ball { center: [0.0, 0.0, 0.0], radius: 1.0, material: 1 };
    let aside = Ball { center: [9.0, 0.0, 0.0], radius: 1.0, material: 2 };
    for order in [[far, near, aside], [near, far, aside], [aside, far, near]] {
        let list = Objects::new(order.to_vec());
        let rec = list.hit(&beam, s(0.001), s(f32::INFINITY)).unwrap();
        assert_eq!(rec.material, 1);
        assert_eq!(rec.t, s(9.0));
        assert!(rec.front_face);
    }
    let list = Objects::new(vec![far, near, aside]);
    // the far bound cuts the scene short
    assert_eq!(list.hit(&beam, s(0.001), s(8.0)), None);
    // the near bound skips the first sphere
    assert_eq!(list.hit(&beam, s(11.5), s(f32::INFINITY)).unwrap().material, 0);
    assert_eq!(Objects::<Ball>::new(Vec::new()).hit(&beam, s(0.0), s(f32::INFINITY)), None);
}

#[test]
fn objects_add_clear_len() {
    let mut list = Objects::new(Vec::new());
    assert_eq!(list.len(), 0);
    list.add(Ball { center: [0.0; 3], radius: 1.0, material: 7 });
    list.add(Ball { center: [1.0; 3], radius: 1.0, material: 8 });
    assert_eq!(list.len(), 2);
    assert_eq!(list.objects[0].material, 7);
    assert_eq!(list.objects[1].material, 8);
    list.clear();
    assert_eq!(list.len(), 0);
}

#[test]
fn objects_bounding_box_is_the_union() {
    let a = Ball { center: [0.0, 0.0, 0.0], radius: 1.0, material: 0 };
    let b = Ball { center: [4.0, -2.0, 1.0], radius: 2.0, material: 1 };
    let list = Objects::new(vec![a, b]);
    assert_eq!(
        list.bounding_box(&exposure()),
        Some(Aabb::new(v([-1.0, -4.0, -1.0]), v([6.0, 1.0, 3.0])))
    );
    let nothing: Objects<Ball> = Objects::new(Vec::new());
    assert_eq!(nothing.bounding_box(&exposure()), Some(Aabb::empty()));
    let open_ended = Objects::new(vec![Ground { z: 0.0 }]);
    assert_eq!(open_ended.bounding_box(&exposure()), None);
}

#[test]
fn an_unbounded_object_in_the_middle_unbounds_the_list() {
    enum Either {
        Ball(Ball),
        Ground(Ground),
    }
    impl Object<Beam> for Either {
        fn hit(&self, r: &Beam, t_min: Scalar, t_max: Scalar) -> Option<HitRecord> {
            match self {
                Either::Ball(b) => b.hit(r, t_min, t_max),
                Either::Ground(g) => g.hit(r, t_min, t_max),
            }
        }
        fn bounding_box(&self, time: &TimeRange) -> Option<Aabb> {
            match self {
                Either::Ball(b) => b.bounding_box(time),
                Either::Ground(g) => g.bounding_box(time),
            }
        }
    }
    let ball = Ball { center: [0.0; 3], radius: 1.0, material: 0 };
    let list = Objects::new(vec![Either::Ball(ball), Either::Ground(Ground { z: 0.0 }), Either::Ball(ball)]);
    assert_eq!(list.bounding_box(&exposure()), None);
    assert!(BvhNode::new(list, 0, 3, &exposure()).is_none());
}

#[test]
fn comparators_order_by_the_smallest_corner() {
    let a = Aabb::new(v([1.0, 5.0, -3.0]), v([9.0, 9.0, 9.0]));
    let b = Aabb::new(v([2.0, 5.0, -4.0]), v([3.0, 6.0, 0.0]));
    assert_eq!(BvhNode::<Ball>::x_comparator(&a, &b), Ordering::Less);
    assert_eq!(BvhNode::<Ball>::y_comparator(&a, &b), Ordering::Equal);
    assert_eq!(BvhNode::<Ball>::z_comparator(&a, &b), Ordering::Greater);
    assert_eq!(BvhNode::<Ball>::x_comparator(&b, &a), Ordering::Greater);
    assert_eq!(compare_on(&a, &b, Axis::Z), Ordering::Greater);
    assert_eq!(compare_on(&a, &a, Axis::X), Ordering::Equal);
    assert_eq!(key_of(&vec![a, b], 1, Axis::Z), s(-4.0));
}

#[test]
fn sort_by_min_orders_a_run_and_leaves_the_rest() {
    let boxes: Vec<Aabb> = [5.0, 1.0, 4.0, 2.0, 3.0, 9.0, 0.0]
        .iter()
        .map(|x| Aabb::new(v([*x, -*x, 0.0]), v([10.0, 10.0, 10.0])))
        .collect();
    let mut order: Vec<usize> = vec![6, 0, 1, 2, 3, 4, 5];
    sort_by_min(&mut order, &boxes, Axis::X, 1, 6);
    // keys 5 1 4 2 3 of the objects 0 1 2 3 4
    assert_eq!(order, vec![6, 1, 3, 4, 2, 0, 5]);
    sort_by_min(&mut order, &boxes, Axis::Y, 0, 7);
    assert_eq!(order, vec![5, 0, 2, 4, 3, 1, 6]);
    // all keys equal on the third axis: the entries stay the same
    sort_by_min(&mut order, &boxes, Axis::Z, 0, 7);
    let mut entries = order.clone();
    entries.sort();
    assert_eq!(entries, vec![0, 1, 2, 3, 4, 5, 6]);
    let mut untouched = vec![3, 2, 1];
    sort_by_min(&mut untouched, &boxes, Axis::X, 1, 1);
    assert_eq!(untouched, vec![3, 2, 1]);
    sort_by_min(&mut untouched, &boxes, Axis::X, 2, 3);
    assert_eq!(untouched, vec![3, 2, 1]);
}

#[test]
fn every_axis_is_drawn_for_some_node() {
    let mut seen = [false; 3];
    for _ in 0..200 {
        let ball = Ball { center: [0.0; 3], radius: 1.0, material: 0 };
        let node = BvhNode::new(Objects::new(vec![ball]), 0, 1, &exposure()).unwrap();
        match node.root() {
            BvhTree::Node { axis: Axis::X, .. } => seen[0] = true,
            BvhTree::Node { axis: Axis::Y, .. } => seen[1] = true,
            BvhTree::Node { axis: Axis::Z, .. } => seen[2] = true,
            BvhTree::Leaf { .. } => panic!("a run of objects is always a node"),
        }
    }
    assert_eq!(seen, [true, true, true]);
}

#[test]
fn hierarchy_over_two_objects_orders_them_ascending() {
    for round in 0..40 {
        let a = Ball { center: [3.0, -1.0, 7.0], radius: 1.0, material: 0 };
        let b = Ball { center: [-2.0, 4.0, 8.0 + round as f32], radius: 0.5, material: 1 };
        let node = BvhNode::new(Objects::new(vec![a, b]), 0, 2, &exposure()).unwrap();
        match node.root() {
            BvhTree::Node { axis, left, right, bbox } => {
                let (l, r) = match (&**left, &**right) {
                    (BvhTree::Leaf { index: l }, BvhTree::Leaf { index: r }) => (*l, *r),
                    _ => panic!("two objects are two leaves"),
                };
                assert_ne!(l, r);
                let boxes = [a.bounding_box(&exposure()).unwrap(), b.bounding_box(&exposure()).unwrap()];
                assert!(boxes[l].min_on(*axis).le(boxes[r].min_on(*axis)));
                match axis {
                    Axis::X => assert_eq!((l, r), (1, 0)),
                    Axis::Y => assert_eq!((l, r), (0, 1)),
                    Axis::Z => assert_eq!((l, r), (0, 1)),
                }
                assert_eq!(*bbox, surrounding_box(boxes[0], boxes[1]));
            }
            BvhTree::Leaf { .. } => panic!("a run of objects is always a node"),
        }
    }
}

#[test]
fn hierarchy_of_equal_keys_keeps_the_order_of_the_list() {
    for _ in 0..20 {
        let a = Ball { center: [1.0, 1.0, 1.0], radius: 1.0, material: 0 };
        let node = BvhNode::new(Objects::new(vec![a, a, a]), 1, 3, &exposure()).unwrap();
        match node.root() {
            BvhTree::Node { left, right, .. } => {
                assert!(matches!(**left, BvhTree::Leaf { index: 1 }));
                assert!(matches!(**right, BvhTree::Leaf { index: 2 }));
            }
            BvhTree::Leaf { .. } => panic!("a run of objects is always a node"),
        }
    }
}

#[test]
fn order_pair_swaps_only_a_larger_first() {
    let boxes = vec![
        Aabb::new(v([1.0, 5.0, -3.0]), v([9.0, 9.0, 9.0])),
        Aabb::new(v([2.0, 5.0, -4.0]), v([3.0, 6.0, 0.0])),
    ];
    assert_eq!(order_pair(&boxes, 0, 1, Axis::X), (0, 1));
    assert_eq!(order_pair(&boxes, 1, 0, Axis::X), (0, 1));
    assert_eq!(order_pair(&boxes, 0, 1, Axis::Y), (0, 1));
    assert_eq!(order_pair(&boxes, 1, 0, Axis::Y), (1, 0));
    assert_eq!(order_pair(&boxes, 0, 1, Axis::Z), (1, 0));
    assert_eq!(order_pair(&boxes, 1, 0, Axis::Z), (1, 0));
}

#[test]
fn a_ray_beside_the_box_does_not_cross_it() {
    let unit = Aabb::new(v([0.0, 0.0, 0.0]), v([1.0, 1.0, 1.0]));
    // the first and third slabs give 1 to 2, the second gives 3 to 4
    let beside = Beam { origin: [-1.0, -3.0, -1.0], direction: [1.0, 1.0, 1.0] };
    assert!(!unit.hit(&beside, s(0.0), s(f32::MAX)));
    let through = Beam { origin: [-1.0, -1.0, -1.0], direction: [1.0, 1.0, 1.0] };
    assert!(unit.hit(&through, s(0.0), s(f32::MAX)));
    // the box lies beyond the far bound, or behind the near bound
    assert!(!unit.hit(&through, s(0.0), s(1.0)));
    assert!(!unit.hit(&through, s(2.0), s(f32::MAX)));
    assert!(unit.hit(&through, s(1.5), s(f32::MAX)));
    // against the axes
    let back = Beam { origin: [2.0, 2.0, 2.0], direction: [-1.0, -1.0, -1.0] };
    assert!(unit.hit(&back, s(0.0), s(f32::MAX)));
    // parallel to two axes, inside and outside the slabs
    let along = Beam { origin: [0.5, 0.5, -5.0], direction: [0.0, 0.0, 1.0] };
    assert!(unit.hit(&along, s(0.0), s(f32::MAX)));
    let aside = Beam { origin: [1.5, 0.5, -5.0], direction: [0.0, 0.0, 1.0] };
    assert!(!unit.hit(&aside, s(0.0), s(f32::MAX)));
    // inside a plane of the box and parallel to it: the slab is no number, a miss
    let grazing = Beam { origin: [0.0, 0.5, -5.0], direction: [0.0, 0.0, 1.0] };
    assert!(!unit.hit(&grazing, s(0.0), s(f32::MAX)));
}

#[test]
fn a_tangent_ray_misses_the_sphere() {
    let ball = Ball { center: [0.0, 0.0, 0.0], radius: 1.0, material: 0 };
    let tangent = Beam { origin: [1.0, 0.0, -2.0], direction: [0.0, 0.0, 1.0] };
    assert_eq!(ball.hit(&tangent, s(0.001), s(f32::MAX)), None);
    let inside = Beam { origin: [0.5, 0.0, -2.0], direction: [0.0, 0.0, 1.0] };
    assert!(ball.hit(&inside, s(0.001), s(f32::MAX)).is_some());
}

#[test]
fn hierarchy_keeps_its_invariant() {
    for n in [1usize, 2, 3, 4, 5, 7, 8, 16, 33, 100] {
        let items = balls(n, 17 + n as u64);
        let boxes: Vec<Aabb> = items.iter().map(|b| b.bounding_box(&exposure()).unwrap()).collect();
        let node = BvhNode::new(Objects::new(items), 0, n, &exposure()).unwrap();
        check_tree(node.root(), &boxes, n);
        let mut found = Vec::new();
        leaves(node.root(), &mut found);
        found.sort();
        found.dedup();
        assert_eq!(found, (0..n).collect::<Vec<usize>>());
        assert_eq!(node.objects().len(), n);
        assert_eq!(node.bbox(), box_of(node.root(), &boxes));
        assert_eq!(node.bounding_box(&exposure()), Some(node.bbox()));
    }
}

#[test]
fn hierarchy_over_a_run_names_only_the_run() {
    let items = balls(10, 5);
    let boxes: Vec<Aabb> = items.iter().map(|b| b.bounding_box(&exposure()).unwrap()).collect();
    let node = BvhNode::new(Objects::new(items), 3, 8, &exposure()).unwrap();
    check_tree(node.root(), &boxes, 5);
    let mut found = Vec::new();
    leaves(node.root(), &mut found);
    found.sort();
    found.dedup();
    assert_eq!(found, vec![3, 4, 5, 6, 7]);
}

#[test]
fn hierarchy_with_boxes_needs_a_box_for_every_object_of_the_run() {
    let items = balls(4, 1);
    let mut boxes: Vec<Option<Aabb>> = items.iter().map(|b| b.bounding_box(&exposure())).collect();
    boxes[0] = None;
    assert!(BvhNode::with_boxes(Objects::new(items.clone()), boxes.clone(), 1, 4).is_some());
    assert!(BvhNode::with_boxes(Objects::new(items.clone()), boxes.clone(), 0, 4).is_none());
    boxes[0] = items[0].bounding_box(&exposure());
    boxes[3] = None;
    assert!(BvhNode::with_boxes(Objects::new(items.clone()), boxes.clone(), 0, 4).is_none());
    assert!(BvhNode::with_boxes(Objects::new(items), boxes, 0, 3).is_some());
}

#[test]
fn hierarchy_over_a_single_object_answers_as_the_object() {
    let ball = Ball { center: [0.3, -0.2, 1.0], radius: 1.5, material: 6 };
    let node = BvhNode::new(Objects::new(vec![ball]), 0, 1, &exposure()).unwrap();
    let mut hits = 0;
    for mut beam in beams(500, 21) {
        beam.direction[0] *= 0.2;
        beam.direction[1] *= 0.2;
        let alone = ball.hit(&beam, s(0.0), s(f32::INFINITY));
        assert_eq!(node.hit(&beam, s(0.0), s(f32::INFINITY)), alone);
        if alone.is_some() {
            hits += 1;
        }
    }
    assert!(hits > 50);
    // from inside the sphere the one hit is the far wall
    let inside = Beam { origin: [0.3, -0.2, 1.0], direction: [0.0, 1.0, 0.0] };
    let rec = node.hit(&inside, s(0.001), s(f32::INFINITY)).unwrap();
    assert_eq!(rec.t, s(1.5));
    assert!(!rec.front_face);
}

#[test]
fn hierarchy_and_sweep_find_the_same_closest_hit() {
    let items = balls(200, 99);
    let list = Objects::new(items.clone());
    let node = BvhNode::new(Objects::new(items.clone()), 0, 200, &exposure()).unwrap();
    let mut hits = 0;
    for beam in beams(2000, 7) {
        let swept = list.hit(&beam, s(0.0), s(f32::INFINITY));
        let found = node.hit(&beam, s(0.0), s(f32::INFINITY));
        assert_eq!(found.map(|h| h.t), swept.map(|h| h.t));
        let least = items
            .iter()
            .filter_map(|b| b.hit(&beam, s(0.0), s(f32::INFINITY)))
            .map(|h| number(h.t))
            .fold(f32::INFINITY, f32::min);
        match found {
            Some(h) => {
                assert_eq!(number(h.t), least);
                hits += 1;
            }
            None => assert_eq!(least, f32::INFINITY),
        }
    }
    assert!(hits > 200);
}

#[test]
fn a_ray_from_a_hit_point_does_not_hit_the_same_surface_again() {
    let ball = Ball { center: [0.0, 0.0, 0.0], radius: 1.0, material: 0 };
    let beam = Beam { origin: [0.0, 0.0, -5.0], direction: [0.0, 0.0, 1.0] };
    let rec = ball.hit(&beam, s(0.001), s(f32::INFINITY)).unwrap();
    let away = Beam { origin: floats(&rec.p), direction: floats(&rec.normal) };
    assert_eq!(ball.hit(&away, s(0.001), s(f32::INFINITY)), None);
}
