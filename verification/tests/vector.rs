use spaceflight::scalar::{
    cosine, difference, from_integer, from_natural, negate, power, product, quotient, remainder,
    raised, sine, square_root, sum, to_integer, to_signed, Op, HALF, ONE, TWO,
};
use spaceflight::vector2::Vector2;

/// The arithmetic of binary64 numbers on their bit patterns.
fn reals(op: Op, a: u64, b: u64) -> u64 {
    let x = f64::from_bits(a);
    let y = f64::from_bits(b);
    let r = match op {
        Op::Add => x + y,
        Op::Sub => x - y,
        Op::Mul => x * y,
        Op::Div => x / y,
        Op::Sqrt => x.sqrt(),
        Op::Sin => x.sin(),
        Op::Cos => x.cos(),
        Op::Powi => x.powi(b as i32),
        Op::Powf => x.powf(y),
        Op::RemEuclid => x.rem_euclid(y),
        Op::FromInt => {
            if b == 1 {
                -(a as f64)
            } else {
                a as f64
            }
        }
        Op::ToInt => return x as u64,
        Op::ToSigned => return x as i32 as u32 as u64,
    };
    r.to_bits()
}

fn vec2(x: f64, y: f64) -> Vector2 {
    Vector2::new(x.to_bits(), y.to_bits())
}

fn xy(v: Vector2) -> (f64, f64) {
    (f64::from_bits(v.x), f64::from_bits(v.y))
}

fn num(bits: u64) -> f64 {
    f64::from_bits(bits)
}

#[test]
fn scalar_operations_ask_the_arithmetic() {
    let (a, b) = (7.5f64, -2.25f64);
    assert_eq!(num(sum(&reals, a.to_bits(), b.to_bits())), a + b);
    assert_eq!(num(difference(&reals, a.to_bits(), b.to_bits())), a - b);
    assert_eq!(num(product(&reals, a.to_bits(), b.to_bits())), a * b);
    assert_eq!(num(quotient(&reals, a.to_bits(), b.to_bits())), a / b);
    assert_eq!(num(square_root(&reals, a.to_bits())), a.sqrt());
    assert_eq!(num(sine(&reals, a.to_bits())), a.sin());
    assert_eq!(num(cosine(&reals, a.to_bits())), a.cos());
    assert_eq!(num(power(&reals, b.to_bits(), 3)), b.powi(3));
    assert_eq!(ONE, 1.0f64.to_bits());
}

#[test]
fn negate_flips_the_sign() {
    for x in [0.0f64, -0.0, 1.0, -1.0, 1e300, -1e-300, f64::INFINITY, f64::NEG_INFINITY] {
        assert_eq!(negate(x.to_bits()), (-x).to_bits());
    }
    assert_eq!(negate(f64::NAN.to_bits()), (-f64::NAN).to_bits());
    assert_eq!(negate(negate(0x1234_5678_9ABC_DEF0)), 0x1234_5678_9ABC_DEF0);
}

#[test]
fn vector_new_holds_its_coordinates() {
    let v = Vector2::new(3, 4);
    assert_eq!(v.x, 3);
    assert_eq!(v.y, 4);
}

#[test]
fn vector_add() {
    assert_eq!(xy(vec2(1.5, -2.0).add(&vec2(0.25, 10.0), &reals)), (1.75, 8.0));
}

#[test]
fn vector_subtract() {
    assert_eq!(xy(vec2(1.5, -2.0).subtract(&vec2(0.25, 10.0), &reals)), (1.25, -12.0));
}

#[test]
fn vector_multiply() {
    assert_eq!(xy(vec2(1.5, -2.0).multiply(&vec2(4.0, 10.0), &reals)), (6.0, -20.0));
}

#[test]
fn vector_divide() {
    assert_eq!(xy(vec2(1.5, -2.0).divide(&vec2(4.0, 10.0), &reals)), (0.375, -0.2));
    let (x, y) = xy(vec2(1.0, 0.0).divide(&vec2(0.0, 0.0), &reals));
    assert!(x.is_infinite() && y.is_nan());
}

#[test]
fn vector_magnitude() {
    assert_eq!(num(vec2(3.0, -4.0).magnitude(&reals)), 5.0);
    assert_eq!(num(vec2(0.0, 0.0).magnitude(&reals)), 0.0);
    assert_eq!(num(vec2(0.1, 0.7).magnitude(&reals)), (0.1f64 * 0.1 + 0.7 * 0.7).sqrt());
}

#[test]
fn vector_normalize() {
    assert_eq!(xy(vec2(3.0, -4.0).normalize(&reals)), (0.6, -0.8));
    let v = vec2(0.1, 0.7);
    let m = (0.1f64 * 0.1 + 0.7 * 0.7).sqrt();
    assert_eq!(xy(v.normalize(&reals)), (0.1 / m, 0.7 / m));
}

#[test]
fn vector_dot() {
    assert_eq!(num(vec2(1.5, -2.0).dot(&vec2(4.0, 10.0), &reals)), -14.0);
    assert_eq!(num(vec2(1.0, 0.0).dot(&vec2(0.0, 1.0), &reals)), 0.0);
}

#[test]
fn vector_cross() {
    assert_eq!(num(vec2(1.5, -2.0).cross(&vec2(4.0, 10.0), &reals)), 23.0);
    assert_eq!(num(vec2(1.0, 0.0).cross(&vec2(0.0, 1.0), &reals)), 1.0);
    assert_eq!(num(vec2(0.0, 1.0).cross(&vec2(1.0, 0.0), &reals)), -1.0);
}

#[test]
fn vector_distance() {
    assert_eq!(num(vec2(1.0, 1.0).distance(&vec2(4.0, 5.0), &reals)), 5.0);
    assert_eq!(num(vec2(1.0, 1.0).distance(&vec2(1.0, 1.0), &reals)), 0.0);
    let d = ((0.3f64 - 1.7).powi(2) + (2.2f64 - 0.4).powi(2)).sqrt();
    assert_eq!(num(vec2(0.3, 2.2).distance(&vec2(1.7, 0.4), &reals)), d);
}

#[test]
fn vector_angle_is_a_cosine() {
    assert_eq!(num(vec2(1.0, 0.0).angle(&vec2(0.0, 3.0), &reals)), 0.0);
    assert_eq!(num(vec2(2.0, 0.0).angle(&vec2(5.0, 0.0), &reals)), 1.0);
    assert_eq!(num(vec2(2.0, 0.0).angle(&vec2(-5.0, 0.0), &reals)), -1.0);
    let a = vec2(1.0, 1.0).angle(&vec2(1.0, 0.0), &reals);
    assert!((num(a) - std::f64::consts::FRAC_1_SQRT_2).abs() < 1e-15);
}

#[test]
fn vector_rotate() {
    let quarter = std::f64::consts::FRAC_PI_2;
    let (x, y) = xy(vec2(1.0, 0.0).rotate(quarter.to_bits(), &reals));
    assert_eq!((x, y), (1.0 * quarter.cos() - 0.0 * quarter.sin(), 1.0 * quarter.sin() + 0.0 * quarter.cos()));
    assert!(x.abs() < 1e-15 && (y - 1.0).abs() < 1e-15);
    let (x, y) = xy(vec2(2.0, 3.0).rotate(0.7f64.to_bits(), &reals));
    assert_eq!(x, 2.0 * 0.7f64.cos() - 3.0 * 0.7f64.sin());
    assert_eq!(y, 2.0 * 0.7f64.sin() + 3.0 * 0.7f64.cos());
}

#[test]
fn vector_scale() {
    assert_eq!(xy(vec2(1.5, -2.0).scale(4.0f64.to_bits(), &reals)), (6.0, -8.0));
    assert_eq!(xy(vec2(1.5, -2.0).scale(0.0f64.to_bits(), &reals)), (0.0, -0.0));
}

#[test]
fn vector_lerp() {
    assert_eq!(xy(vec2(1.0, 10.0).lerp(&vec2(3.0, 20.0), 0.0f64.to_bits(), &reals)), (1.0, 10.0));
    assert_eq!(xy(vec2(1.0, 10.0).lerp(&vec2(3.0, 20.0), 1.0f64.to_bits(), &reals)), (3.0, 20.0));
    assert_eq!(xy(vec2(1.0, 10.0).lerp(&vec2(3.0, 20.0), 0.25f64.to_bits(), &reals)), (1.5, 12.5));
    assert_eq!(xy(vec2(1.0, 10.0).lerp(&vec2(3.0, 20.0), 2.0f64.to_bits(), &reals)), (5.0, 30.0));
}

#[test]
fn integers_become_numbers_and_numbers_integers() {
    assert_eq!(num(from_integer(&reals, 0)), 0.0);
    assert_eq!(num(from_integer(&reals, 17)), 17.0);
    assert_eq!(num(from_integer(&reals, -17)), -17.0);
    assert_eq!(num(from_integer(&reals, -2147483648)), -2147483648.0);
    assert_eq!(num(from_natural(&reals, 4294967295)), 4294967295.0);
    assert_eq!(to_integer(&reals, 17.9f64.to_bits()), 17);
    assert_eq!(to_integer(&reals, (-17.9f64).to_bits()), 0);
    assert_eq!(to_integer(&reals, f64::NAN.to_bits()), 0);
    assert_eq!(to_integer(&reals, 1e30f64.to_bits()), u64::MAX);
    assert_eq!(to_signed(&reals, 17.9f64.to_bits()), 17);
    assert_eq!(to_signed(&reals, (-17.9f64).to_bits()), -17);
    assert_eq!(to_signed(&reals, (-0.5f64).to_bits()), 0);
    assert_eq!(to_signed(&reals, f64::NAN.to_bits()), 0);
    assert_eq!(to_signed(&reals, 1e30f64.to_bits()), i32::MAX);
    assert_eq!(to_signed(&reals, (-1e30f64).to_bits()), i32::MIN);
    assert_eq!(num(remainder(&reals, 7.5f64.to_bits(), 2.0f64.to_bits())), 1.5);
    assert_eq!(num(remainder(&reals, (-0.5f64).to_bits(), 2.0f64.to_bits())), 1.5);
    assert_eq!(HALF, 0.5f64.to_bits());
    assert_eq!(TWO, 2.0f64.to_bits());
}

#[test]
fn powers_with_real_exponents() {
    assert_eq!(num(raised(&reals, 1.1f64.to_bits(), 2.0f64.to_bits())), 1.1f64.powf(2.0));
    assert_eq!(num(raised(&reals, 0.9f64.to_bits(), 0.5f64.to_bits())), 0.9f64.powf(0.5));
    assert_eq!(num(raised(&reals, 4.0f64.to_bits(), 0.5f64.to_bits())), 2.0);
    assert_eq!(num(raised(&reals, 7.0f64.to_bits(), 0.0f64.to_bits())), 1.0);
}
