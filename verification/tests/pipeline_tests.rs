use std::sync::atomic::{AtomicU64, Ordering};
use std::sync::Arc;

use raytracer::camera::{Builder, Camera, Optics, Path, PathEnd, WORKERS};
use raytracer::color::{linear_to_gamma, Color};
use raytracer::geometry::hittable::{HitRecord, Hittable, HittableList};
use raytracer::geometry::sphere::{Roots, Sphere};
use raytracer::interval::Interval;
use raytracer::material::{Lambertian, Material, Scatter};
use raytracer::ray::Ray;
use raytracer::scalar::Scalar;
use raytracer::vec3::Vector3;

fn s(x: f64) -> Scalar {
    Scalar::from_bits(x.to_bits())
}

fn f(x: Scalar) -> f64 {
    f64::from_bits(x.to_bits())
}

/// A source of numbers in `[0, 1)` that gives the same sequence for the same
/// seed.
struct Dice(AtomicU64);

impl Dice {
    fn next(&self) -> f64 {
        let state = self
            .0
            .load(Ordering::SeqCst)
            .wrapping_mul(6364136223846793005)
            .wrapping_add(1442695040888963407);
        self.0.store(state, Ordering::SeqCst);
        ((state >> 11) as f64) / 9007199254740992.0
    }

    fn between(&self, min: f64, max: f64) -> f64 {
        min + (max - min) * self.next()
    }
}

#[derive(Clone, Copy)]
struct V(f64, f64, f64);

impl V {
    fn of(v: Vector3) -> V {
        V(f(v.x()), f(v.y()), f(v.z()))
    }

    fn out(self) -> Vector3 {
        Vector3::new(s(self.0), s(self.1), s(self.2))
    }

    fn plus(self, o: V) -> V {
        V(self.0 + o.0, self.1 + o.1, self.2 + o.2)
    }

    fn minus(self, o: V) -> V {
        V(self.0 - o.0, self.1 - o.1, self.2 - o.2)
    }

    fn times(self, k: f64) -> V {
        V(self.0 * k, self.1 * k, self.2 * k)
    }

    fn by(self, o: V) -> V {
        V(self.0 * o.0, self.1 * o.1, self.2 * o.2)
    }

    fn dot(self, o: V) -> f64 {
        self.0 * o.0 + self.1 * o.1 + self.2 * o.2
    }

    fn cross(self, o: V) -> V {
        V(
            self.1 * o.2 - o.1 * self.2,
            self.2 * o.0 - self.0 * o.2,
            self.0 * o.1 - o.0 * self.1,
        )
    }

    fn length_squared(self) -> f64 {
        self.dot(self)
    }

    fn length(self) -> f64 {
        f64::sqrt(self.length_squared())
    }

    fn unit(self) -> V {
        assert!(Vector3::normalizable(s(self.length_squared())));
        self.times(1.0 / self.length())
    }
}

struct Matte {
    data: Lambertian,
    dice: Arc<Dice>,
}

impl Matte {
    fn random_unit_vector(&self) -> V {
        loop {
            let p = V(
                self.dice.between(-1.0, 1.0),
                self.dice.between(-1.0, 1.0),
                self.dice.between(-1.0, 1.0),
            );
            if Vector3::in_unit_ball(s(p.length_squared())) {
                return p.times(1.0 / p.length());
            }
        }
    }
}

impl Material for Matte {
    fn scatter(&self, _r_in: &Ray, rec: &HitRecord<Self>) -> Option<Scatter> {
        let candidate = V::of(rec.normal).plus(self.random_unit_vector());
        let direction = Lambertian::direction(&rec.normal, &candidate.out());
        Some(Scatter { attenuation: self.data.albedo, scattered: Ray::new(&rec.p, &direction) })
    }
}

struct Ball(Sphere<Matte>);

impl Hittable for Ball {
    type Mat = Matte;

    fn hit(&self, ray: &Ray, ray_t: Interval) -> Option<HitRecord<Matte>> {
        let center = V::of(self.0.center);
        let radius = f(self.0.radius);
        let origin = V::of(*ray.origin());
        let direction = V::of(*ray.direction());
        let oc = center.minus(origin);

        let a = direction.length_squared();
        let h = direction.dot(oc);
        let c = oc.length_squared() - radius * radius;
        let discriminant = h * h - a * c;
        let sqrtd = f64::sqrt(discriminant);
        let roots = Roots::new(s(discriminant), s((h - sqrtd) / a), s((h + sqrtd) / a));

        let t = roots.select(ray_t)?;
        let p = origin.plus(direction.times(f(t)));
        let outward = p.minus(center).times(1.0 / radius);

        let mut rec = HitRecord::new();
        rec.t = t;
        rec.p = p.out();
        rec.set_face_normal(
            &outward.out(),
            s(f64::abs(outward.length() - 1.0)),
            s(direction.dot(outward)),
        )
        .unwrap();
        rec.set_material(&self.0.mat);
        Some(rec)
    }
}

fn optics(b: &Builder) -> Optics {
    let image_width = b.image_width as f64;
    let height_quotient = image_width / f(b.image_aspect_ratio);
    let image_height = Builder::image_height(s(height_quotient)) as f64;

    let lookfrom = V::of(b.lookfrom);
    let to_target = lookfrom.minus(V::of(b.lookat));
    let focus = f(b.focus_dist);

    let theta = f(b.vfov) * std::f64::consts::PI / 180.0;
    let h = f64::tan(theta / 2.0);
    let viewport_height = 2.0 * h * focus;
    let viewport_width = viewport_height * (image_width / image_height);

    let w = to_target.unit();
    let side = V::of(b.vup).cross(w);
    let u = side.unit();
    let v = w.cross(u);

    let viewport_u = u.times(viewport_width);
    let viewport_v = V::of(v.out().neg()).times(viewport_height);
    let delta_u = viewport_u.times(1.0 / image_width);
    let delta_v = viewport_v.times(1.0 / image_height);
    let upper_left =
        lookfrom.minus(w.times(focus)).minus(viewport_u.times(0.5)).minus(viewport_v.times(0.5));
    let pixel00 = upper_left.plus(delta_u.plus(delta_v).times(0.5));
    let defocus_radius = focus * f64::tan((f(b.defocus_angle) / 2.0) * std::f64::consts::PI / 180.0);

    Optics {
        height_quotient: s(height_quotient),
        look_length_squared: s(to_target.length_squared()),
        side_length_squared: s(side.length_squared()),
        pixel_delta_u: delta_u.out(),
        pixel_delta_v: delta_v.out(),
        pixel00_loc: pixel00.out(),
        defocus_disk_u: u.times(defocus_radius).out(),
        defocus_disk_v: v.times(defocus_radius).out(),
    }
}

fn get_ray(camera: &Camera, dice: &Dice, i: u32, j: u32) -> Ray {
    let ox = dice.next() - 0.5;
    let oy = dice.next() - 0.5;
    assert!(!camera.defocused());
    let sample = V::of(camera.pixel00_loc)
        .plus(V::of(camera.pixel_delta_u).times(i as f64 + ox))
        .plus(V::of(camera.pixel_delta_v).times(j as f64 + oy));
    let origin = V::of(camera.center);
    Ray::new(&origin.out(), &sample.minus(origin).out())
}

fn radiance(path: &Path) -> V {
    let mut color = match path.end {
        PathEnd::Escaped => {
            let unit = V::of(*path.last.direction()).unit();
            let alpha = 0.5 * (unit.1 + 1.0);
            V(1.0, 1.0, 1.0).times(1.0 - alpha).plus(V(0.5, 0.7, 1.0).times(alpha))
        }
        PathEnd::Exhausted | PathEnd::Absorbed => V(0.0, 0.0, 0.0),
    };
    for attenuation in path.attenuations.iter().rev() {
        color = V::of(*attenuation).by(color);
    }
    color
}

fn picture(seed: u64, samples: u32, depth: u32) -> String {
    let dice = Arc::new(Dice(AtomicU64::new(seed)));

    let matte =
        Arc::new(Matte { data: Lambertian::new(&V(0.5, 0.5, 0.5).out()), dice: Arc::clone(&dice) });
    let mut world = HittableList::new();
    world.add(Ball(Sphere::new(&V(0.0, 0.0, -1.0).out(), s(0.5), matte)));

    let mut builder = Builder::new();
    builder
        .set_image_width(8)
        .set_image_aspect_ratio(s(2.0))
        .set_samples_per_pixel(samples)
        .set_max_depth(depth)
        .set_vfov(s(90.0))
        .set_lookfrom(&V(0.0, 0.0, 0.0).out())
        .set_lookat(&V(0.0, 0.0, -1.0).out())
        .set_vup(&V(0.0, 1.0, 0.0).out())
        .set_defocus_angle(s(0.0))
        .set_focus_dist(s(1.0));
    let camera = builder.build(&optics(&builder)).unwrap();

    let mut pixels: Vec<Color> = Vec::new();
    let mut index = 0;
    while let Some((i, j)) = camera.pixel_at(index) {
        let mut sum = V(0.0, 0.0, 0.0);
        for worker in 0..WORKERS {
            for _ in 0..camera.samples_for(worker) {
                let ray = get_ray(&camera, &dice, i, j);
                sum = sum.plus(radiance(&Camera::ray_color(&ray, camera.max_depth, &world)));
            }
        }
        let mean = sum.times(1.0 / camera.samples_per_pixel as f64);
        pixels.push(Vector3::new(
            linear_to_gamma(s(mean.0), s(f64::sqrt(mean.0))),
            linear_to_gamma(s(mean.1), s(f64::sqrt(mean.1))),
            linear_to_gamma(s(mean.2), s(f64::sqrt(mean.2))),
        ));
        index += 1;
    }
    String::from_utf8(camera.render(&pixels).unwrap()).unwrap()
}

#[test]
fn same_seed_gives_the_same_picture() {
    assert_eq!(picture(2024, 1, 1), picture(2024, 1, 1));
    assert_eq!(picture(7, 3, 4), picture(7, 3, 4));
}

#[test]
fn single_sphere_single_sample_single_bounce() {
    let image = picture(2024, 1, 1);
    assert_eq!(image, EXPECTED);
}

#[test]
fn picture_has_one_line_for_each_pixel() {
    let image = picture(99, 2, 3);
    let lines: Vec<&str> = image.lines().collect();
    assert_eq!(&lines[..3], &["P3", "8 4", "255"]);
    assert_eq!(lines.len(), 3 + 8 * 4);
    for line in &lines[3..] {
        let bytes: Vec<u32> = line.split(' ').map(|b| b.parse().unwrap()).collect();
        assert_eq!(bytes.len(), 3);
        assert!(bytes.iter().all(|&b| b <= 255));
    }
}

#[test]
fn escaped_rays_bring_the_sky_gradient() {
    let world: HittableList<Ball> = HittableList::new();
    let origin = V(0.0, 0.0, 0.0).out();
    let cases = [
        (V(0.0, -1.0, 0.0), (1.0, 1.0, 1.0)),
        (V(1.0, 0.0, 0.0), (0.75, 0.85, 1.0)),
        (V(0.0, 0.0, -3.0), (0.75, 0.85, 1.0)),
        (V(0.0, 1.0, 0.0), (0.5, 0.7, 1.0)),
    ];
    for (direction, want) in cases {
        let path = Camera::ray_color(&Ray::new(&origin, &direction.out()), 5, &world);
        assert_eq!(path.end, PathEnd::Escaped);
        let got = radiance(&path);
        assert_eq!((got.0, got.1, got.2), want);
    }
}

#[test]
fn no_depth_gives_a_black_picture() {
    let image = picture(5, 2, 0);
    let lines: Vec<&str> = image.lines().collect();
    assert_eq!(lines.len(), 3 + 8 * 4);
    assert!(lines[3..].iter().all(|line| *line == "0 0 0"));
}

const EXPECTED: &str = "P3\n\
8 4\n\
255\n\
207 228 255\n\
202 225 255\n\
199 223 255\n\
197 222 255\n\
197 222 255\n\
201 225 255\n\
209 229 255\n\
212 230 255\n\
215 232 255\n\
210 229 255\n\
210 229 255\n\
0 0 0\n\
0 0 0\n\
220 235 255\n\
210 230 255\n\
218 234 255\n\
229 240 255\n\
222 236 255\n\
234 243 255\n\
0 0 0\n\
0 0 0\n\
235 243 255\n\
226 238 255\n\
230 240 255\n\
234 243 255\n\
231 241 255\n\
241 247 255\n\
242 248 255\n\
243 248 255\n\
242 247 255\n\
239 246 255\n\
236 244 255\n\
";
