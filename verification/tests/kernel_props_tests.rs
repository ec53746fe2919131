use ray_tracer::{combine_numbers, float_equality, hit, Intersection, Matrix, Ray, Sphere,
    SphereRegistry, Tuple};
use ray_tracer::ppm_header;
use ray_tracer::scalar::{float_eq, float_le, float_lt};
use ray_tracer::sqrt::float_sqrt;

fn bits(x: f32) -> u32 {
    x.to_bits()
}

fn fb(x: u32) -> f32 {
    f32::from_bits(x)
}

fn point(x: f32, y: f32, z: f32) -> Tuple {
    Tuple::point(x.to_bits(), y.to_bits(), z.to_bits())
}

fn vector(x: f32, y: f32, z: f32) -> Tuple {
    Tuple::vector(x.to_bits(), y.to_bits(), z.to_bits())
}

fn m4(v: [f32; 16]) -> Matrix {
    Matrix::new4x4(
        v[0].to_bits(), v[1].to_bits(), v[2].to_bits(), v[3].to_bits(),
        v[4].to_bits(), v[5].to_bits(), v[6].to_bits(), v[7].to_bits(),
        v[8].to_bits(), v[9].to_bits(), v[10].to_bits(), v[11].to_bits(),
        v[12].to_bits(), v[13].to_bits(), v[14].to_bits(), v[15].to_bits(),
    )
}

fn approx_equal(a: Matrix, b: Matrix) -> bool {
    for i in 0..a.data.len() {
        if (fb(a.data[i]) - fb(b.data[i])).abs() > 0.001 {
            return false;
        }
    }
    true
}

#[test]
fn add_then_subtract_gives_back_first_operand() {
    let a = Tuple::raw(bits(1.25), bits(-7.5), bits(3.75), bits(1.0));
    let b = Tuple::raw(bits(0.5), bits(2.25), bits(-4.5), bits(0.0));
    assert_eq!(a.add(b).sub(b), a);
}

#[test]
fn multiply_then_divide_gives_back_tuple() {
    // Components stay below two: there one unit of least precision is
    // within the fixed tolerance of the approximate equality.
    let a = Tuple::raw(bits(0.3), bits(-0.8), bits(0.9), bits(1.0));
    let s = bits(2.6);
    assert_eq!(a.mul_scalar(s).div_scalar(s), a);
}

#[test]
fn normalised_vector_has_magnitude_one() {
    let v = vector(3.5, -4.25, 12.75);
    assert!(float_equality(v.normalise().magnitude(), bits(1.0)));
}

#[test]
fn cross_product_is_orthogonal_to_both_operands() {
    let a = vector(1.5, 2.25, -3.0);
    let b = vector(-2.0, 3.5, 4.75);
    let c = Tuple::cross(&a, &b);

    assert!(float_equality(Tuple::dot(&c, &a), bits(0.0)));
    assert!(float_equality(Tuple::dot(&c, &b), bits(0.0)));
}

#[test]
fn identity_times_matrix_gives_matrix() {
    let m = m4([
        1.0, 2.0, 3.0, 4.0,
        2.0, 4.0, 4.0, 2.0,
        8.0, 6.0, 4.0, 1.0,
        0.0, 0.0, 0.0, 1.0,
    ]);

    assert_eq!(m, Matrix::identity().mul_matrix(&m));
    assert_eq!(m, m.mul_matrix(&Matrix::identity()));
}

#[test]
fn inverse_times_matrix_is_identity() {
    let m = m4([
        -5.0, 2.0, 6.0, -8.0,
        1.0, -5.0, 1.0, 8.0,
        7.0, 7.0, -6.0, -7.0,
        1.0, -3.0, 7.0, 4.0,
    ]);

    assert!(approx_equal(m.invert().mul_matrix(&m), Matrix::identity()));
}

#[test]
fn inverse_of_product_is_reversed_product_of_inverses() {
    let a = m4([
        3.0, -9.0, 7.0, 3.0,
        3.0, -8.0, 2.0, -9.0,
        -4.0, 4.0, 4.0, 1.0,
        -6.0, 5.0, -1.0, 1.0,
    ]);
    let b = m4([
        8.0, 2.0, 2.0, 2.0,
        3.0, -1.0, 7.0, 0.0,
        7.0, 0.0, 5.0, 4.0,
        6.0, -2.0, 0.0, 5.0,
    ]);

    let left = a.mul_matrix(&b).invert();
    let right = b.invert().mul_matrix(&a.invert());
    assert!(approx_equal(left, right));
}

#[test]
fn transpose_twice_gives_back_matrix() {
    let m = m4([
        1.0, 2.0, 3.0, 4.0,
        5.5, 6.6, 7.5, 8.5,
        9.0, 10.0, 11.0, 12.0,
        13.5, 14.5, 15.5, 16.5,
    ]);
    let back = m.transpose().transpose();
    assert_eq!(back.data, m.data);
}

#[test]
fn try_invert_rejects_singular_matrix() {
    let singular = m4([
        -4.0, 2.0, -2.0, -3.0,
        9.0, 6.0, 2.0, 6.0,
        0.0, -5.0, 1.0, -5.0,
        0.0, 0.0, 0.0, 0.0,
    ]);
    assert_eq!(fb(singular.determinant()), 0.0);
    assert!(singular.try_invert().is_none());
}

#[test]
fn try_invert_accepts_invertible_matrix() {
    let m = m4([
        -5.0, 2.0, 6.0, -8.0,
        1.0, -5.0, 1.0, 8.0,
        7.0, 7.0, -6.0, -7.0,
        1.0, -3.0, 7.0, 4.0,
    ]);
    let inv = m.try_invert().unwrap();
    assert!(approx_equal(inv.mul_matrix(&m), Matrix::identity()));
}

#[test]
fn try_intersect_rejects_singular_transform() {
    let r = Ray::new(point(0.0, 0.0, -5.0), vector(0.0, 0.0, 1.0));
    let mut s = Sphere::new(0);
    s.transform = Matrix::scaling(bits(0.0), bits(0.0), bits(0.0));
    assert!(s.try_intersect(&r).is_none());
}

#[test]
fn try_intersect_accepts_default_sphere() {
    let r = Ray::new(point(0.0, 0.0, -5.0), vector(0.0, 0.0, 1.0));
    let s = Sphere::new(0);
    let xs = s.try_intersect(&r).unwrap();
    assert_eq!(xs.len(), 2);
    assert_eq!(fb(xs[0].t), 4.0);
    assert_eq!(fb(xs[1].t), 6.0);
}

#[test]
fn hit_of_equal_distances_returns_last() {
    let s1 = Sphere::new(0);
    let s2 = Sphere::new(1);
    let xs = vec![
        Intersection::new(bits(2.0), &s1),
        Intersection::new(bits(2.0), &s2),
    ];
    let i = hit(&xs).unwrap();
    assert!(std::ptr::eq(i.object, &s2));
}

#[test]
fn sqrt_matches_hardware_square_root() {
    let samples = [
        0.25f32, 0.5, 1.0, 2.0, 3.0, 14.0, 100.0, 532.0, 1e-8, 1e8, 3.4e38, 1.1e-38, 1e-44,
    ];
    for x in samples {
        assert_eq!(float_sqrt(x.to_bits()), x.sqrt().to_bits());
    }
    assert_eq!(float_sqrt(0.0f32.to_bits()), 0.0f32.to_bits());
    assert_eq!(float_sqrt((-0.0f32).to_bits()), (-0.0f32).to_bits());
    assert_eq!(
        float_sqrt(f32::INFINITY.to_bits()),
        f32::INFINITY.to_bits()
    );
    assert!(f32::from_bits(float_sqrt((-4.0f32).to_bits())).is_nan());
}

#[test]
fn ray_transform_moves_origin_and_direction() {
    let r = Ray::new(point(1.0, 2.0, 3.0), vector(0.0, 1.0, 0.0));
    let m = Matrix::translation(bits(3.0), bits(4.0), bits(5.0));
    let r2 = r.transform(m);

    assert_eq!(r2.origin, point(4.0, 6.0, 8.0));
    assert_eq!(r2.direction, vector(0.0, 1.0, 0.0));
}

#[test]
fn registry_hands_out_distinct_tokens() {
    let mut registry = SphereRegistry::new();
    let a = registry.new_sphere();
    let b = registry.new_sphere();
    let c = registry.new_sphere();
    assert_eq!(a.id, 0);
    assert_eq!(b.id, 1);
    assert_eq!(c.id, 2);
    assert_ne!(a.id, b.id);
    assert_eq!(a.transform, Matrix::identity());
}

#[test]
fn point_test_tolerates_epsilon_but_vector_test_is_exact() {
    // The asymmetry is deliberate: is_point compares w against one
    // within epsilon, is_vector compares w against zero exactly.
    let almost_point = Tuple::raw(bits(0.0), bits(0.0), bits(0.0), bits(1.0 + 5.0e-8));
    assert!(almost_point.is_point());

    let almost_vector = Tuple::raw(bits(0.0), bits(0.0), bits(0.0), bits(1.0e-10));
    assert!(!almost_vector.is_vector());
    assert!(Tuple::raw(bits(0.0), bits(0.0), bits(0.0), bits(-0.0)).is_vector());
}

#[test]
fn float_equality_rejects_distant_values() {
    assert!(!float_equality(bits(1.0), bits(1.1)));
    assert!(float_equality(bits(1.0), bits(1.0)));
}

#[test]
fn scalar_comparisons_match_hardware() {
    let values = [
        0.0f32, -0.0, 1.0, -1.0, 2.5, -2.5, 3.5, f32::EPSILON, f32::INFINITY,
        f32::NEG_INFINITY, f32::NAN, f32::MIN_POSITIVE, 1.0e-44, -1.0e-44, f32::MAX,
    ];
    for a in values {
        for b in values {
            assert_eq!(float_le(a.to_bits(), b.to_bits()), a <= b);
            assert_eq!(float_lt(a.to_bits(), b.to_bits()), a < b);
            assert_eq!(float_eq(a.to_bits(), b.to_bits()), a == b);
        }
    }
}

#[test]
fn ppm_header_formats_dimensions() {
    assert_eq!(ppm_header(80, 40), "P3\n80 40\n255\n");
    assert_eq!(ppm_header(2, 2), "P3\n2 2\n255\n");
    assert_eq!(ppm_header(400, 200), "P3\n400 200\n255\n");
}

#[test]
fn combine_numbers_wraps_at_seventy_columns() {
    let numbers: Vec<String> = std::iter::repeat("255".to_string()).take(20).collect();
    let combined = combine_numbers(&numbers);
    for line in combined.lines() {
        assert!(line.len() <= 70);
        assert!(!line.ends_with(' '));
    }
    let rejoined: Vec<&str> = combined.split_whitespace().collect();
    assert_eq!(rejoined.len(), 20);

    let few: Vec<String> = vec!["1".to_string(), "22".to_string(), "333".to_string()];
    assert_eq!(combine_numbers(&few), "1 22 333");
}
