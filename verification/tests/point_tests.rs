use ray_tracer::Tuple;

fn bits(x: f32) -> u32 {
    x.to_bits()
}

#[test]
fn point_point_makes_point() {
    let p = Tuple::point(bits(1.3), bits(1.5), bits(45.8));
    assert_eq!(p, Tuple::raw(bits(1.3), bits(1.5), bits(45.8), bits(1.0)))
}

#[test]
fn point_vector_makes_vector() {
    let v = Tuple::vector(bits(1.3), bits(1.5), bits(45.8));
    assert_eq!(v, Tuple::raw(bits(1.3), bits(1.5), bits(45.8), bits(0.0)))
}

#[test]
fn point_is_point_check_works() {
    let p = Tuple::point(bits(1.3), bits(1.5), bits(45.8));
    let v = Tuple::vector(bits(1.3), bits(1.5), bits(45.8));

    assert!(p.is_point());
    assert!(v.is_point() == false);
}

#[test]
fn point_vector_check_works() {
    let p = Tuple::point(bits(1.3), bits(1.5), bits(45.8));
    let v = Tuple::vector(bits(1.3), bits(1.5), bits(45.8));

    assert!(p.is_vector() == false);
    assert!(v.is_vector());
}

#[test]
fn point_equality_accounts_for_floating_errors() {
    let a = 0.4 + 0.05;
    let b = 0.45;
    assert_ne!(a, b);

    let p = Tuple::point(bits(a), bits(a), bits(a));
    assert_eq!(p, Tuple::raw(bits(b), bits(b), bits(b), bits(1.0)));
}

#[test]
fn point_can_add_two_tuples() {
    let a = Tuple::point(bits(3.0), bits(-2.0), bits(5.0));
    let b = Tuple::vector(bits(-2.0), bits(3.0), bits(1.0));
    assert_eq!(a.add(b), Tuple::point(bits(1.0), bits(1.0), bits(6.0)));
}

#[test]
fn point_can_subtract_two_points() {
    let a = Tuple::point(bits(3.0), bits(2.0), bits(1.0));
    let b = Tuple::point(bits(5.0), bits(6.0), bits(7.0));
    assert_eq!(a.sub(b), Tuple::vector(bits(-2.0), bits(-4.0), bits(-6.0)));
}

#[test]
fn point_can_subtract_vector_from_point() {
    let a = Tuple::point(bits(3.0), bits(2.0), bits(1.0));
    let b = Tuple::vector(bits(5.0), bits(6.0), bits(7.0));
    assert_eq!(a.sub(b), Tuple::point(bits(-2.0), bits(-4.0), bits(-6.0)));
}

#[test]
fn point_can_subtract_two_vectors() {
    let a = Tuple::vector(bits(3.0), bits(2.0), bits(1.0));
    let b = Tuple::vector(bits(5.0), bits(6.0), bits(7.0));
    assert_eq!(a.sub(b), Tuple::vector(bits(-2.0), bits(-4.0), bits(-6.0)));
}

#[test]
fn point_subtracting_vector_from_zero() {
    let zero = Tuple::vector(bits(0.0), bits(0.0), bits(0.0));
    let v = Tuple::vector(bits(1.0), bits(-2.0), bits(3.0));
    assert_eq!(zero.sub(v), Tuple::vector(bits(-1.0), bits(2.0), bits(-3.0)));
}

#[test]
fn point_can_negate_a_tuple() {
    let t = Tuple::raw(bits(1.0), bits(-2.0), bits(3.0), bits(-4.0));
    assert_eq!(t.neg(), Tuple::raw(bits(-1.0), bits(2.0), bits(-3.0), bits(4.0)));
}

#[test]
fn point_can_multiple_a_tuple_by_scalar() {
    let t = Tuple::raw(bits(1.0), bits(-2.0), bits(3.0), bits(-4.0));
    assert_eq!(
        t.mul_scalar(bits(3.5)),
        Tuple::raw(bits(3.5), bits(-7.0), bits(10.5), bits(-14.0))
    );
}

#[test]
fn point_can_multiple_a_tuple_by_fraction() {
    let t = Tuple::raw(bits(1.0), bits(-2.0), bits(3.0), bits(-4.0));
    assert_eq!(
        t.mul_scalar(bits(0.5)),
        Tuple::raw(bits(0.5), bits(-1.0), bits(1.5), bits(-2.0))
    );
}

#[test]
fn point_can_divide_a_tuple_by_fraction() {
    let t = Tuple::raw(bits(1.0), bits(-2.0), bits(3.0), bits(-4.0));
    assert_eq!(
        t.div_scalar(bits(2.0)),
        Tuple::raw(bits(0.5), bits(-1.0), bits(1.5), bits(-2.0))
    );
}
