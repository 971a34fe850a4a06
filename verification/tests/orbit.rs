use spaceflight::initial_universe::calculate_stable_orbit;
use spaceflight::scalar::Op;
use spaceflight::vector2::Vector2;

/// The arithmetic of binary64 numbers on their bit patterns.
fn reals(op: Op, a: u64, b: u64) -> u64 {
    let x = f64::from_bits(a);
    let y = f64::from_bits(b);
    let r = match op {
        Op::Add => x + y,
        Op::Sub => x - y,
        Op::Mul => x * y,
        Op::Div => x / y,
        Op::Sqrt => x.sqrt(),
        Op::Sin => x.sin(),
        Op::Cos => x.cos(),
        Op::Powi => x.powi(b as i32),
        Op::Powf => x.powf(y),
        Op::RemEuclid => x.rem_euclid(y),
        Op::FromInt => {
            if b == 1 {
                -(a as f64)
            } else {
                a as f64
            }
        }
        Op::ToInt => return x as u64,
        Op::ToSigned => return x as i32 as u32 as u64,
    };
    r.to_bits()
}

fn vec2(x: f64, y: f64) -> Vector2 {
    Vector2::new(x.to_bits(), y.to_bits())
}

fn orbit(center: (f64, f64), velocity: (f64, f64), mass: f64, radius: f64, e: f64) -> ((f64, f64), (f64, f64)) {
    let (p, v) = calculate_stable_orbit(
        vec2(center.0, center.1),
        vec2(velocity.0, velocity.1),
        mass.to_bits(),
        radius.to_bits(),
        e.to_bits(),
        0.000001f64.to_bits(),
        &reals,
    );
    (
        (f64::from_bits(p.x), f64::from_bits(p.y)),
        (f64::from_bits(v.x), f64::from_bits(v.y)),
    )
}

#[test]
fn circular_orbit_around_a_body_at_rest() {
    let (position, velocity) = orbit((0.0, 0.0), (0.0, 0.0), 1e15, 15000.0, 0.0);
    assert_eq!(position, (15000.0, 0.0));
    assert_eq!(velocity, (0.0, (0.000001f64 * 1e15 / 15000.0).sqrt()));
}

#[test]
fn circular_orbit_around_a_moving_body() {
    let (position, velocity) = orbit((100.0, -50.0), (3.0, 4.0), 1e12, 5000.0, -0.0);
    assert_eq!(position, (5100.0, -50.0));
    assert_eq!(velocity, (3.0, 4.0 + 200.0f64.sqrt()));
}

#[test]
fn eccentric_orbit_is_faster_at_its_periapsis() {
    let (position, velocity) = orbit((0.0, 0.0), (0.0, 0.0), 1e15, 25000.0, 0.1);
    assert_eq!(position, (25000.0, 0.0));
    let speed = (0.000001f64 * 1e15 * (1.0 + 0.1) / (25000.0 * (1.0 - 0.1))).sqrt();
    assert_eq!(velocity, (0.0, speed));
    assert!(speed > (0.000001f64 * 1e15 / 25000.0).sqrt());
}
