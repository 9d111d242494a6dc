use raytracer::perlin::{Perlin, POINT_COUNT};
use raytracer::rand::Rand;
use raytracer::rng::{row_seed, Rng};
use raytracer::scalar::Scalar;
use raytracer::vec3::Vec3;

fn s(x: f64) -> Scalar {
    Scalar::from_bits(x.to_bits())
}

fn v(x: f64, y: f64, z: f64) -> Vec3 {
    Vec3 { x: s(x), y: s(y), z: s(z) }
}

/// The draw of a double in `[0, 1)` from 23 bits, by way of a single float.
fn as_double(fraction: u32) -> f64 {
    let float = f32::from_bits(fraction | 0x3F80_0000);
    (float - 1.0) as f64
}

fn unit_from(rng: Rng) -> (Vec3, Rng) {
    let mut rng = rng;
    let x = -1.0 + 2.0 * as_double(rng.next_fraction());
    let y = -1.0 + 2.0 * as_double(rng.next_fraction());
    let z = -1.0 + 2.0 * as_double(rng.next_fraction());
    let l = 1.0 / (x * x + y * y + z * z).sqrt();
    (v(x * l, y * l, z * l), rng)
}

#[test]
fn xorshift_sequence() {
    let mut rng = Rng::new(1234);
    assert_eq!(rng.next_fraction(), 6890740);
    assert_eq!(rng.next_fraction(), 6811872);
    assert_eq!(rng.next_fraction(), 2214465);
    assert_eq!(rng.next_fraction(), 6278037);
    assert_eq!(rng.next_fraction(), 1958144);
    let mut zero = Rng::new(0);
    assert_eq!(zero.next_fraction(), 0);
    assert_eq!(zero.next_fraction(), 0);
}

#[test]
fn fraction_is_the_numerator_of_the_double() {
    let mut rng = Rng::new(99);
    for _ in 0..1000 {
        let fr = rng.next_fraction();
        assert!(fr < 0x80_0000);
        assert_eq!(as_double(fr), fr as f64 / 8388608.0);
    }
}

#[test]
fn int_between_draws_axes() {
    let mut rng = Rng::new(1234);
    let drawn: Vec<i64> = (0..10).map(|_| rng.int_between(0, 2)).collect();
    assert_eq!(drawn, vec![2, 2, 0, 2, 0, 1, 1, 2, 1, 2]);
}

#[test]
fn int_between_is_the_formula_over_doubles() {
    let limit: i64 = 0x2000_0000;
    let ranges = [
        (0, 2),
        (0, 0),
        (0, 255),
        (5, 5),
        (-3, -1),
        (-10, 10),
        (-1, 0),
        (1, 1000000),
        (-limit, limit - 1),
        (-limit, -limit),
        (limit - 1, limit - 1),
        (0, limit - 1),
        (-limit, 0),
    ];
    let mut rng = Rng::new(2024);
    let mut twin = Rng::new(2024);
    for round in 0..2000 {
        let (min, max) = ranges[round % ranges.len()];
        let got = rng.int_between(min, max);
        let gen = as_double(twin.next_fraction());
        let expected = (min as f64 + ((max + 1) as f64 - min as f64) * gen) as i64;
        assert_eq!(got, expected, "range {}..={}", min, max);
        assert!(min <= got && got <= max + 1);
        if min >= 0 {
            assert!(got <= max);
        }
    }
}

#[test]
fn int_between_cuts_off_towards_zero() {
    let mut rng = Rng::new(1234);
    let drawn: Vec<i64> = (0..10).map(|_| rng.int_between(-3, -1)).collect();
    assert_eq!(drawn, vec![0, 0, -2, 0, -2, -1, -1, 0, -1, 0]);
}

#[test]
fn rows_have_seeds_of_their_own() {
    assert_eq!(row_seed(0), 123);
    assert_eq!(row_seed(1), 124);
    assert_eq!(row_seed(799), 922);
    assert_eq!(row_seed(u32::MAX - 123), u32::MAX);
}

#[test]
fn rand_sequence() {
    let mut r = Rand::new(0);
    assert_eq!(r, Rand { x: 123456789, y: 362436069, z: 521288629, w: 88675123 });
    let drawn: Vec<u32> = (0..6).map(|_| r.rand()).collect();
    assert_eq!(drawn, vec![3701687786, 458299110, 2500872618, 3633119408, 516391518, 2377269574]);
    let mut r = Rand::new(42);
    assert_eq!(r.x, 123456789 ^ 42);
    assert_eq!(r.y, 362436069 ^ 42);
    let drawn: Vec<u32> = (0..6).map(|_| r.rand()).collect();
    assert_eq!(drawn, vec![3701609616, 458299110, 2500872618, 3633119408, 340232613, 2268220397]);
}

#[test]
fn rand_set_seed_keeps_the_last_words() {
    let mut r = Rand::new(0);
    r.rand();
    let (z, w) = (r.z, r.w);
    r.set_seed(7);
    assert_eq!(r, Rand { x: 123456789 ^ 7, y: 362436069 ^ 7, z, w });
}

#[test]
fn rand_range_stays_in_range() {
    let mut r = Rand::new(42);
    let drawn: Vec<i32> = (0..6).map(|_| r.rand_range(-5, 5)).collect();
    assert_eq!(drawn, vec![-4, 0, -3, 1, 1, -2]);
    let mut r = Rand::new(42);
    assert_eq!(r.rand_range(10, 20), 11);
    for _ in 0..1000 {
        let x = r.rand_range(-3, 4);
        assert!(-3 <= x && x <= 4);
        assert_eq!(r.rand_range(9, 9), 9);
    }
    let wide = r.rand_range(i32::MIN, -2);
    assert!(wide <= -2);
    let wide = r.rand_range(0, i32::MAX - 1);
    assert!(0 <= wide && wide < i32::MAX);
}

#[test]
fn permute_is_a_shuffle_from_the_back() {
    let mut rng = Rng::new(1234);
    let mut p: Vec<usize> = vec![10, 11, 12, 13, 14];
    Perlin::permute(&mut p, 5, &mut rng);
    // Replaying the draws by hand.
    let mut twin = Rng::new(1234);
    let mut q: Vec<usize> = vec![10, 11, 12, 13, 14];
    for i in (0..5).rev() {
        let target = twin.int_between(0, i as i64) as usize;
        q.swap(i, target);
    }
    assert_eq!(p, q);
    let mut sorted = p.clone();
    sorted.sort();
    assert_eq!(sorted, vec![10, 11, 12, 13, 14]);
    assert_eq!(rng.next_fraction(), twin.next_fraction());
    // Only the first entries are touched.
    let mut p: Vec<usize> = vec![1, 2, 3, 4, 5, 6];
    Perlin::permute(&mut p, 2, &mut rng);
    assert_eq!(&p[2..], &[3, 4, 5, 6]);
    Perlin::permute(&mut p, 0, &mut rng);
    assert_eq!(&p[2..], &[3, 4, 5, 6]);
}

#[test]
fn generate_perm_holds_each_place_once() {
    let mut rng = Rng::new(1234);
    let p = Perlin::generate_perm(&mut rng);
    assert_eq!(p.len(), POINT_COUNT);
    let mut sorted = p.clone();
    sorted.sort();
    assert_eq!(sorted, (0..POINT_COUNT).collect::<Vec<usize>>());
    assert_ne!(p, sorted);
}

#[test]
fn wrap_is_the_remainder() {
    assert_eq!(Perlin::wrap(0), 0);
    assert_eq!(Perlin::wrap(255), 255);
    assert_eq!(Perlin::wrap(256), 0);
    assert_eq!(Perlin::wrap(-1), 255);
    assert_eq!(Perlin::wrap(-256), 0);
    assert_eq!(Perlin::wrap(-257), 255);
    assert_eq!(Perlin::wrap(1000), 232);
    assert_eq!(Perlin::wrap(i64::MAX), 255);
    assert_eq!(Perlin::wrap(i64::MIN), 0);
    for i in -600i64..600 {
        assert_eq!(Perlin::wrap(i), (i & 255) as usize);
    }
}

#[test]
fn lattice_is_drawn_from_its_seed() {
    let perlin = Perlin::new(&unit_from);
    assert_eq!(perlin.ranvec.len(), POINT_COUNT);
    let mut rng = Rng::new(1234);
    for i in 0..POINT_COUNT {
        let (g, next) = unit_from(rng);
        assert_eq!(perlin.ranvec[i], g);
        rng = next;
    }
    assert_eq!(perlin.perm_x, Perlin::generate_perm(&mut rng));
    assert_eq!(perlin.perm_y, Perlin::generate_perm(&mut rng));
    assert_eq!(perlin.perm_z, Perlin::generate_perm(&mut rng));
    assert_ne!(perlin.perm_x, perlin.perm_y);
}

#[test]
fn corners_pick_gradients_by_the_tables() {
    let perlin = Perlin::new(&unit_from);
    for (i, j, k) in [(0i64, 0i64, 0i64), (3, -7, 255), (-1, -1, -1), (1000, -1000, 12345)] {
        let c = perlin.corners(i, j, k);
        for di in 0..2usize {
            for dj in 0..2usize {
                for dk in 0..2usize {
                    let a = perlin.perm_x[((i + di as i64) & 255) as usize];
                    let b = perlin.perm_y[((j + dj as i64) & 255) as usize];
                    let d = perlin.perm_z[((k + dk as i64) & 255) as usize];
                    assert_eq!(c[di][dj][dk], perlin.ranvec[a ^ b ^ d]);
                    assert_eq!(
                        c[di][dj][dk],
                        perlin.corner(i + di as i64, j + dj as i64, k + dk as i64)
                    );
                }
            }
        }
    }
}

#[test]
fn gen_is_the_double_of_the_fraction() {
    let mut rng = Rng::new(1234);
    let mut twin = Rng::new(1234);
    for _ in 0..5000 {
        let g = f64::from_bits(rng.gen().to_bits());
        let fr = twin.next_fraction();
        assert_eq!(g, as_double(fr));
        assert!(0.0 <= g && g < 1.0);
    }
    let mut first = Rng::new(1234);
    assert_eq!(first.gen(), s(6890740.0 / 8388608.0));
    assert_eq!(Rng::new(0).gen(), s(0.0));
    // Fractions with many leading zeros, and fractions close to one.
    let mut seen_small = false;
    let mut probe = Rng::new(7);
    for _ in 0..200000 {
        let before = probe;
        let fr = probe.next_fraction();
        if fr < 64 || fr > 0x7F_FFC0 {
            let mut again = before;
            assert_eq!(f64::from_bits(again.gen().to_bits()), fr as f64 / 8388608.0);
            seen_small = true;
        }
    }
    assert!(seen_small);
}

#[test]
fn random_vector_draws_three_times() {
    let mut rng = Rng::new(55);
    let mut twin = Rng::new(55);
    let r = Vec3::random(&mut rng);
    assert_eq!(r, v(as_double(twin.next_fraction()), as_double(twin.next_fraction()), as_double(twin.next_fraction())));
    assert_eq!(rng.next_fraction(), twin.next_fraction());
}
