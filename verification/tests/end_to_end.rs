use rand::rngs::SmallRng;
use rand::{Rng, SeedableRng};
use ray::aabb::{Aabb, Slab};
use ray::bvh::BvhNode;
use ray::geom::{Color, Point3, Vec3};
use ray::integrator::{bounce, Bounce, Sampling};
use ray::material::{Lambertian, Material, Scatter};
use ray::object::{EmptyObject, HitRecord, Object, Objects, Probe, TimeRange};
use ray::pdf::Pdf;
use ray::render::{pixel_offset, render, strata, Rgb8};
use ray::scalar::Scalar;
use ray::scenes::{Environment, RenderParams};
use ray::sphere::{choose_root, passes_by};
use std::cell::RefCell;

fn rank(x: f32) -> i32 {
    let bits = x.to_bits();
    let magnitude = (bits & 0x7fff_ffff) as i32;
    if bits & 0x8000_0000 != 0 {
        -magnitude
    } else {
        magnitude
    }
}

fn number(s: Scalar) -> f32 {
    if s.rank < 0 {
        -f32::from_bits((-s.rank) as u32)
    } else {
        f32::from_bits(s.rank as u32)
    }
}

fn s(x: f32) -> Scalar {
    Scalar::from_rank(rank(x))
}

fn v(p: [f32; 3]) -> Vec3 {
    Vec3::new(s(p[0]), s(p[1]), s(p[2]))
}

fn floats(p: &Vec3) -> [f32; 3] {
    [number(p.x), number(p.y), number(p.z)]
}

fn dot(a: [f32; 3], b: [f32; 3]) -> f32 {
    a[0] * b[0] + a[1] * b[1] + a[2] * b[2]
}

fn scaled(a: [f32; 3], k: f32) -> [f32; 3] {
    [a[0] * k, a[1] * k, a[2] * k]
}

fn sum(a: [f32; 3], b: [f32; 3]) -> [f32; 3] {
    [a[0] + b[0], a[1] + b[1], a[2] + b[2]]
}

fn unit(a: [f32; 3]) -> [f32; 3] {
    scaled(a, 1.0 / dot(a, a).sqrt())
}

#[derive(Clone, Copy)]
struct Beam {
    origin: [f32; 3],
    direction: [f32; 3],
}

impl Probe for Beam {
    fn slabs(&self, bbox: &Aabb) -> (Slab, Slab, Slab) {
        let low = floats(&bbox.box_min);
        let high = floats(&bbox.box_max);
        let slab = |a: usize| {
            let inv_d = 1.0 / self.direction[a];
            Slab {
                at_min: s((low[a] - self.origin[a]) * inv_d),
                at_max: s((high[a] - self.origin[a]) * inv_d),
                descending: inv_d < 0.0,
            }
        };
        (slab(0), slab(1), slab(2))
    }

    fn opposes(&self, direction: &Vec3) -> bool {
        dot(self.direction, floats(direction)) < 0.0
    }
}

#[derive(Clone, Copy)]
struct Ball {
    center: [f32; 3],
    radius: f32,
}

impl Object<Beam> for Ball {
    fn hit(&self, r: &Beam, t_min: Scalar, t_max: Scalar) -> Option<HitRecord> {
        let oc = sum(r.origin, scaled(self.center, -1.0));
        let a = dot(r.direction, r.direction);
        let half_b = dot(oc, r.direction);
        let c = dot(oc, oc) - self.radius * self.radius;
        let discriminant = half_b * half_b - a * c;
        if passes_by(s(discriminant)) {
            return None;
        }
        let sqrtd = discriminant.sqrt();
        let root = number(choose_root(s((-half_b - sqrtd) / a), s((-half_b + sqrtd) / a), t_min, t_max)?);
        let p = sum(r.origin, scaled(r.direction, root));
        let outward = scaled(sum(p, scaled(self.center, -1.0)), 1.0 / self.radius);
        Some(HitRecord::with_ray(r, v(p), v(outward), 0, s(root), s(0.0), s(0.0)))
    }

    fn bounding_box(&self, _time: &TimeRange) -> Option<Aabb> {
        let r = [self.radius; 3];
        Some(Aabb::new(v(sum(self.center, scaled(r, -1.0))), v(sum(self.center, r))))
    }
}

/// The density of a matte surface around its normal.
struct Lobe {
    normal: [f32; 3],
}

impl Pdf for Lobe {
    fn value(&self, direction: Vec3) -> Scalar {
        s((dot(unit(floats(&direction)), self.normal) / std::f32::consts::PI).max(0.0))
    }

    fn generate(&self, rng: &mut SmallRng) -> Vec3 {
        loop {
            let p = [rng.gen_range(-1.0f32..1.0), rng.gen_range(-1.0f32..1.0), rng.gen_range(-1.0f32..1.0)];
            let length_squared = dot(p, p);
            if length_squared < 1.0 && length_squared > 1e-6 {
                return v(sum(self.normal, unit(p)));
            }
        }
    }
}

/// One matte gray for every surface.
struct Gray(Lambertian<Color>);

impl Material<Beam, Lobe> for Gray {
    fn scatter(&self, _r_in: &Beam, rec: &HitRecord) -> Option<Scatter<Beam, Lobe>> {
        self.0.respond(rec, Lobe { normal: floats(&rec.normal) })
    }

    fn scattering_pdf(&self, _r_in: &Beam, rec: &HitRecord, scattered: &Beam) -> Scalar {
        s((dot(unit(scattered.direction), floats(&rec.normal)) / std::f32::consts::PI).max(0.0))
    }

    fn color_emitted(&self, _rec: &HitRecord, _u: Scalar, _v: Scalar, _p: Point3) -> Color {
        v([0.0; 3])
    }
}

fn radiance<W: Object<Beam>>(
    rng: &mut SmallRng,
    r: &Beam,
    background: [f32; 3],
    world: &W,
    materials: &Gray,
    depth: u32,
) -> [f32; 3] {
    let b = bounce(r, world, materials, depth);
    if let Some(radiance) = b.settled(v(background)) {
        return floats(&radiance);
    }
    match b {
        Bounce::Exhausted | Bounce::Escaped => unreachable!("a path without a surface is settled"),
        Bounce::Absorbed { rec } => floats(&materials.color_emitted(&rec, rec.u, rec.v, rec.p)),
        Bounce::Specular { ray, attenuation, .. } => {
            let incoming = radiance(rng, &ray, background, world, materials, depth - 1);
            let a = floats(&attenuation);
            [a[0] * incoming[0], a[1] * incoming[1], a[2] * incoming[2]]
        }
        Bounce::Diffuse { rec, pdf, attenuation } => {
            assert_eq!(Sampling::for_lights(0), Sampling::MaterialOnly);
            let direction = pdf.generate(rng);
            let density = number(pdf.value(direction));
            let scattered = Beam { origin: floats(&rec.p), direction: floats(&direction) };
            let weight = number(materials.scattering_pdf(r, &rec, &scattered));
            let incoming = radiance(rng, &scattered, background, world, materials, depth - 1);
            let a = floats(&attenuation);
            let k = weight / density;
            [a[0] * k * incoming[0], a[1] * k * incoming[1], a[2] * k * incoming[2]]
        }
    }
}

fn encode(pixel: [f32; 3], samples: u32) -> Rgb8 {
    let scale = 1.0 / samples as f32;
    let channel = |c: f32| (255.999 * (scale * c).sqrt()) as u8;
    (channel(pixel[0]), channel(pixel[1]), channel(pixel[2]))
}

/// Renders `world` as seen from (0, 0, 3) towards the origin with a vertical field of
/// view of 90 degrees.
fn picture<W: Object<Beam>>(world: W, width: u32, height: u32, samples: u32) -> Vec<u8> {
    let background = [0.5, 0.75, 1.0];
    let params = RenderParams::new(v(background), s(1.0), width, height, samples, 10);
    let environment = Environment::new(world, (), EmptyObject {}, params);
    let materials = Gray(Lambertian::solid_color(v([0.5, 0.5, 0.5])));
    let rng = RefCell::new(SmallRng::seed_from_u64(2024));
    let n = strata(environment.samples_per_pixel());
    render(&environment, |j| {
        let mut rng = rng.borrow_mut();
        let mut row = Vec::new();
        for i in 0..environment.width() {
            let mut pixel = [0.0f32; 3];
            for a in 0..n {
                for b in 0..n {
                    let x = (i as f32 + (a as f32 + rng.gen::<f32>()) / n as f32) / (width - 1) as f32;
                    let y = (j as f32 + (b as f32 + rng.gen::<f32>()) / n as f32) / (height - 1) as f32;
                    // the viewport at distance 1 reaches from -1 to 1 both ways
                    let beam = Beam { origin: [0.0, 0.0, 3.0], direction: [2.0 * x - 1.0, 2.0 * y - 1.0, -1.0] };
                    let c = radiance(
                        &mut rng,
                        &beam,
                        background,
                        &environment.scene,
                        &materials,
                        environment.max_depth(),
                    );
                    pixel = sum(pixel, c);
                }
            }
            row.push(encode(pixel, n * n));
        }
        row
    })
}

#[test]
fn a_matte_sphere_before_the_sky() {
    let data = picture(Ball { center: [0.0; 3], radius: 1.0 }, 32, 32, 16);
    assert_eq!(data.len(), 3 * 32 * 32);
    let sky = encode([0.5, 0.75, 1.0], 1);
    for (i, j) in [(0, 0), (31, 0), (0, 31), (31, 31)] {
        let at = pixel_offset(i, j, 32, 32);
        assert_eq!((data[at], data[at + 1], data[at + 2]), sky);
    }
    for (i, j) in [(15, 15), (16, 15), (15, 16), (16, 16)] {
        let at = pixel_offset(i, j, 32, 32);
        for c in 0..3 {
            let channel = data[at + c] as f32 / 255.0;
            assert!(channel > 0.2 && channel < 0.9);
        }
        // the sky is bluer than it is red, and so is the light that the gray sphere returns
        assert!(data[at] < data[at + 2]);
    }
}

#[test]
fn a_hierarchy_and_a_list_render_the_same_picture() {
    let mut balls = Vec::new();
    let mut rng = SmallRng::seed_from_u64(5);
    for _ in 0..200 {
        balls.push(Ball {
            center: [rng.gen_range(-3.0f32..3.0), rng.gen_range(-3.0f32..3.0), rng.gen_range(-6.0f32..0.0)],
            radius: rng.gen_range(0.05f32..0.3),
        });
    }
    let time = TimeRange::new(s(0.0), s(1.0));
    let node = BvhNode::new(Objects::new(balls.clone()), 0, 200, &time).unwrap();
    let by_tree = picture(node, 64, 64, 1);
    let by_list = picture(Objects::new(balls), 64, 64, 1);
    assert_eq!(by_tree, by_list);
    // the spheres are in the picture
    let sky = encode([0.5, 0.75, 1.0], 1);
    let covered = by_list.chunks(3).filter(|p| (p[0], p[1], p[2]) != sky).count();
    assert!(covered > 200);
}
