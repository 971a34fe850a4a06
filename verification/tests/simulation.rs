use spaceflight::game::{
    CachedTrajectories, Game, ValidationError, BIG_GRAVITY, THRUST_FORCE, TRAJECTORY_NUM_STEPS,
};
use spaceflight::keyboard_input::{InputState, ROTATION_SPEED};
use spaceflight::physics::{
    Body, SystemState, SUBSTEPS_REAL, TRAJECTORY_DT, TRAJECTORY_SUBSTEPS,
};
use spaceflight::planet::Planet;
use spaceflight::player::Player;
use spaceflight::render::find_dominant_planet;
use spaceflight::scalar::Op;
use spaceflight::vector2::Vector2;

/// The arithmetic of binary64 numbers on their bit patterns.
fn reals(op: Op, a: u64, b: u64) -> u64 {
    let x = f64::from_bits(a);
    let y = f64::from_bits(b);
    let r = match op {
        Op::Add => x + y,
        Op::Sub => x - y,
        Op::Mul => x * y,
        Op::Div => x / y,
        Op::Sqrt => x.sqrt(),
        Op::Sin => x.sin(),
        Op::Cos => x.cos(),
        Op::Powi => x.powi(b as i32),
        Op::Powf => x.powf(y),
        Op::RemEuclid => x.rem_euclid(y),
        Op::FromInt => {
            if b == 1 {
                -(a as f64)
            } else {
                a as f64
            }
        }
        Op::ToInt => return x as u64,
        Op::ToSigned => return x as i32 as u32 as u64,
    };
    r.to_bits()
}

type Reals = fn(Op, u64, u64) -> u64;

fn num(bits: u64) -> f64 {
    f64::from_bits(bits)
}

fn vec2(x: f64, y: f64) -> Vector2 {
    Vector2::new(x.to_bits(), y.to_bits())
}

/// One step of pairwise Newtonian gravity with semi-implicit Euler
/// integration, in plain floating point: velocities first, then positions.
fn newton(state: SystemState, dt: u64) -> SystemState {
    let dt = num(dt);
    let g = num(state.big_gravity);
    let n = state.bodies.len();
    let px: Vec<f64> = state.bodies.iter().map(|b| num(b.position.x)).collect();
    let py: Vec<f64> = state.bodies.iter().map(|b| num(b.position.y)).collect();
    let mass: Vec<f64> = state.bodies.iter().map(|b| num(b.mass)).collect();
    let mut ax = vec![0.0f64; n];
    let mut ay = vec![0.0f64; n];
    for i in 0..n {
        for j in (i + 1)..n {
            let dx = px[j] - px[i];
            let dy = py[j] - py[i];
            let distance = (dx * dx + dy * dy).sqrt();
            if distance > 0.0 {
                let force = g / (distance * distance);
                let ux = dx * (1.0 / distance);
                let uy = dy * (1.0 / distance);
                ax[i] += ux * (force * mass[j]);
                ay[i] += uy * (force * mass[j]);
                ax[j] += ux * (-force * mass[i]);
                ay[j] += uy * (-force * mass[i]);
            }
        }
    }
    let player_mass = num(state.player.mass);
    let sx = num(state.player.position.x);
    let sy = num(state.player.position.y);
    let mut pax = 0.0f64;
    let mut pay = 0.0f64;
    for i in 0..n {
        let dx = px[i] - sx;
        let dy = py[i] - sy;
        let distance = (dx * dx + dy * dy).sqrt();
        if distance > 0.0 {
            let force = g * mass[i] * player_mass / (distance * distance);
            let ux = dx * (1.0 / distance);
            let uy = dy * (1.0 / distance);
            pax += ux * (force / player_mass);
            pay += uy * (force / player_mass);
            ax[i] += ux * (-force / mass[i]);
            ay[i] += uy * (-force / mass[i]);
        }
    }
    let mut bodies = Vec::with_capacity(n);
    for i in 0..n {
        let b = state.bodies[i];
        let vx = num(b.velocity.x) + ax[i] * dt;
        let vy = num(b.velocity.y) + ay[i] * dt;
        bodies.push(Body {
            mass: b.mass,
            position: vec2(px[i] + vx * dt, py[i] + vy * dt),
            velocity: vec2(vx, vy),
        });
    }
    let vx = num(state.player.velocity.x) + pax * dt;
    let vy = num(state.player.velocity.y) + pay * dt;
    SystemState {
        big_gravity: state.big_gravity,
        player: Player {
            position: vec2(sx + vx * dt, sy + vy * dt),
            velocity: vec2(vx, vy),
            mass: state.player.mass,
            rotation: state.player.rotation,
        },
        bodies,
    }
}

fn planet(name: &str, mass: f64, position: Vector2, velocity: Vector2) -> Planet {
    Planet::new(name.to_string(), 100.0f64.to_bits(), mass.to_bits(), position, velocity, 0x4040FF)
}

/// A heavy body at rest, a light body on the circular orbit that the heavy
/// one alone would give it, and a player of small mass close to the heavy
/// body.
fn two_bodies() -> (Vec<Planet>, Player) {
    let g = num(BIG_GRAVITY);
    let speed = (g * 1e12 / 5000.0).sqrt();
    let planets = vec![
        planet("heavy", 1e12, vec2(0.0, 0.0), vec2(0.0, 0.0)),
        planet("light", 1e11, vec2(5000.0, 0.0), vec2(0.0, speed)),
    ];
    let player_speed = (g * 1e12 / 300.0).sqrt();
    let player = Player::new(vec2(300.0, 0.0), vec2(0.0, player_speed), 1.0f64.to_bits(), 0.5f64.to_bits());
    (planets, player)
}

fn session(horizon: usize) -> Game<Reals> {
    let (planets, player) = two_bodies();
    Game::with_horizon(planets, player, reals as Reals, horizon).unwrap()
}

fn queue_lengths(cache: &CachedTrajectories) -> Vec<usize> {
    let mut lengths = vec![
        cache.player_positions.len(),
        cache.player_velocities.len(),
        cache.player_rotations.len(),
    ];
    for queue in &cache.planet_positions {
        lengths.push(queue.len());
    }
    for queue in &cache.planet_velocities {
        lengths.push(queue.len());
    }
    lengths
}

fn same_queues(a: &CachedTrajectories, b: &CachedTrajectories) -> bool {
    a.player_positions == b.player_positions
        && a.player_velocities == b.player_velocities
        && a.player_rotations == b.player_rotations
        && a.planet_positions == b.planet_positions
        && a.planet_velocities == b.planet_velocities
}

#[test]
fn constants_are_the_patterns_of_their_values() {
    assert_eq!(TRAJECTORY_DT, 0.016f64.to_bits());
    assert_eq!(SUBSTEPS_REAL, 5.0f64.to_bits());
    assert_eq!(THRUST_FORCE, 25.0f64.to_bits());
    assert_eq!(ROTATION_SPEED, 3.0f64.to_bits());
    assert_eq!(BIG_GRAVITY, 0.000001f64.to_bits());
    assert_eq!(TRAJECTORY_SUBSTEPS, 5);
    assert_eq!(TRAJECTORY_NUM_STEPS, 100000);
}

#[test]
fn new_predicts_the_default_horizon() {
    let (planets, player) = two_bodies();
    let game = Game::new(planets, player, reals).unwrap();
    assert_eq!(game.horizon(), TRAJECTORY_NUM_STEPS);
    assert_eq!(game.big_gravity(), BIG_GRAVITY);
    assert!(game.cached_trajectories().is_valid);
    assert_eq!(game.cached_trajectories().len(), TRAJECTORY_NUM_STEPS);
    assert!(queue_lengths(game.cached_trajectories()).iter().all(|&l| l == TRAJECTORY_NUM_STEPS));
}

#[test]
fn new_keeps_the_bodies_it_is_given() {
    let (planets, player) = two_bodies();
    let game = Game::with_horizon(planets.clone(), player, reals, 4).unwrap();
    assert_eq!(*game.player(), player);
    assert_eq!(game.planets().len(), 2);
    for (kept, given) in game.planets().iter().zip(planets.iter()) {
        assert_eq!(kept.name, given.name);
        assert_eq!(kept.mass, given.mass);
        assert_eq!(kept.position, given.position);
        assert_eq!(kept.velocity, given.velocity);
    }
}

#[test]
fn zero_mass_planet_is_refused() {
    let (mut planets, player) = two_bodies();
    planets[1].mass = 0.0f64.to_bits();
    let r = Game::with_horizon(planets, player, reals, 4);
    assert_eq!(r.err(), Some(ValidationError::PlanetMass { index: 1 }));
}

#[test]
fn negative_mass_planet_is_refused() {
    let (mut planets, player) = two_bodies();
    planets[0].mass = (-1e12f64).to_bits();
    planets[1].mass = (-0.0f64).to_bits();
    let r = Game::with_horizon(planets, player, reals, 4);
    assert_eq!(r.err(), Some(ValidationError::PlanetMass { index: 0 }));
}

#[test]
fn nan_mass_planet_is_refused() {
    let (mut planets, player) = two_bodies();
    planets[1].mass = f64::NAN.to_bits();
    let r = Game::new(planets, player, reals);
    assert_eq!(r.err(), Some(ValidationError::PlanetMass { index: 1 }));
}

#[test]
fn player_without_mass_is_refused() {
    let (planets, mut player) = two_bodies();
    player.mass = 0.0f64.to_bits();
    let r = Game::with_horizon(planets, player, reals, 4);
    assert_eq!(r.err(), Some(ValidationError::PlayerMass));
}

#[test]
fn planets_are_looked_at_before_the_player() {
    let (mut planets, mut player) = two_bodies();
    planets[1].mass = (-3.0f64).to_bits();
    player.mass = (-1.0f64).to_bits();
    let r = Game::with_horizon(planets, player, reals, 4);
    assert_eq!(r.err(), Some(ValidationError::PlanetMass { index: 1 }));
}

#[test]
fn recompute_starts_with_the_present_state() {
    let game = session(10);
    let cache = game.cached_trajectories();
    assert!(cache.is_valid);
    assert_eq!(cache.len(), 10);
    assert_eq!(cache.player_positions[0], game.player().position);
    assert_eq!(cache.player_velocities[0], game.player().velocity);
    assert_eq!(cache.player_rotations[0], game.player().rotation);
    for (i, p) in game.planets().iter().enumerate() {
        assert_eq!(cache.planet_positions[i][0], p.position);
        assert_eq!(cache.planet_velocities[i][0], p.velocity);
    }
}

#[test]
fn each_cached_tick_is_five_sub_steps_after_the_one_before() {
    let game = session(6);
    let cache = game.cached_trajectories();
    let mut state = game.present_state();
    for i in 0..6 {
        assert_eq!(cache.player_positions[i], state.player.position);
        assert_eq!(cache.player_velocities[i], state.player.velocity);
        for j in 0..2 {
            assert_eq!(cache.planet_positions[j][i], state.bodies[j].position);
            assert_eq!(cache.planet_velocities[j][i], state.bodies[j].velocity);
        }
        for _ in 0..5 {
            state = newton(state, (0.016f64 / 5.0).to_bits());
        }
    }
}

#[test]
fn one_step_is_the_step_of_plain_floating_point() {
    let game = session(1);
    let mut expected = game.present_state();
    let mut got = game.present_state();
    for dt in [0.0032f64, 0.016, 1.0, 0.0, 1e-9] {
        expected = newton(expected, dt.to_bits());
        got.update(dt.to_bits(), &reals);
        assert_eq!(got.player, expected.player);
        assert_eq!(got.bodies, expected.bodies);
        assert_eq!(got.big_gravity, expected.big_gravity);
    }
}

#[test]
fn one_step_with_many_bodies_is_the_step_of_plain_floating_point() {
    let bodies: Vec<Body> = (0..7)
        .map(|i| {
            let t = i as f64;
            Body {
                mass: (1e12 * (1.0 + t)).to_bits(),
                position: vec2(1000.0 * t.cos() * (1.0 + t), 700.0 * t.sin() * (2.0 + t)),
                velocity: vec2(3.0 - t, 0.5 * t),
            }
        })
        .collect();
    let player = Player::new(vec2(10.0, -20.0), vec2(1.0, 2.0), 2.5f64.to_bits(), 0.3f64.to_bits());
    let mut expected = SystemState { big_gravity: BIG_GRAVITY, player, bodies: bodies.clone() };
    let mut got = SystemState { big_gravity: BIG_GRAVITY, player, bodies };
    for _ in 0..50 {
        expected = newton(expected, 0.0032f64.to_bits());
        got.update(0.0032f64.to_bits(), &reals);
        assert_eq!(got.player, expected.player);
        assert_eq!(got.bodies, expected.bodies);
    }
}

#[test]
fn bodies_at_one_place_do_not_pull_at_each_other() {
    let at = vec2(5.0, 5.0);
    let still = vec2(0.0, 0.0);
    let bodies = vec![
        Body { mass: 1e12f64.to_bits(), position: at, velocity: still },
        Body { mass: 2e12f64.to_bits(), position: at, velocity: still },
    ];
    let player = Player::new(at, still, 1.0f64.to_bits(), 0.0f64.to_bits());
    let mut state = SystemState { big_gravity: BIG_GRAVITY, player, bodies: bodies.clone() };
    state.update(0.016f64.to_bits(), &reals);
    assert_eq!(state.bodies, bodies);
    assert_eq!(state.player, player);
}

#[test]
fn two_bodies_pull_each_other_by_their_masses() {
    let still = vec2(0.0, 0.0);
    let bodies = vec![
        Body { mass: 4e12f64.to_bits(), position: vec2(0.0, 0.0), velocity: still },
        Body { mass: 1e12f64.to_bits(), position: vec2(1000.0, 0.0), velocity: still },
    ];
    let player = Player::new(vec2(0.0, 1e9), still, 1.0f64.to_bits(), 0.0f64.to_bits());
    let mut state = SystemState { big_gravity: BIG_GRAVITY, player, bodies };
    state.update(1.0f64.to_bits(), &reals);
    // a = G m / r^2: 1e-6 * 1e12 / 1e6 = 1 for the heavy body, 4 for the light one.
    let heavy = num(state.bodies[0].velocity.x);
    let light = num(state.bodies[1].velocity.x);
    assert!((heavy - 1.0).abs() < 1e-9);
    assert!((light + 4.0).abs() < 1e-9);
    assert!((num(state.bodies[0].position.x) - heavy).abs() < 1e-12);
    assert!((num(state.bodies[1].position.x) - (1000.0 + light)).abs() < 1e-12);
}

#[test]
fn a_step_keeps_masses_constant_and_rotation() {
    let game = session(1);
    let before = game.present_state();
    let mut state = game.present_state();
    state.update(0.5f64.to_bits(), &reals);
    assert_eq!(state.big_gravity, before.big_gravity);
    assert_eq!(state.player.mass, before.player.mass);
    assert_eq!(state.player.rotation, before.player.rotation);
    assert_eq!(state.bodies.len(), before.bodies.len());
    for (a, b) in state.bodies.iter().zip(before.bodies.iter()) {
        assert_eq!(a.mass, b.mass);
        assert!(a.position != b.position);
    }
}

#[test]
fn a_tick_makes_five_steps() {
    let game = session(1);
    let mut expected = game.present_state();
    for _ in 0..5 {
        expected = newton(expected, (0.016f64 / 5.0).to_bits());
    }
    let mut got = game.present_state();
    got.tick(&reals);
    assert_eq!(got.player, expected.player);
    assert_eq!(got.bodies, expected.bodies);
    assert_eq!(got.big_gravity, expected.big_gravity);
}

#[test]
fn update_moves_the_present_and_leaves_the_cache() {
    let mut game = session(6);
    let reference = session(6);
    let expected = newton(game.present_state(), 0.25f64.to_bits());
    game.update(0.25f64.to_bits());
    assert_eq!(game.player().position, expected.player.position);
    assert_eq!(game.player().velocity, expected.player.velocity);
    assert_eq!(game.player().rotation, reference.player().rotation);
    for (planet, body) in game.planets().iter().zip(expected.bodies.iter()) {
        assert_eq!(planet.position, body.position);
        assert_eq!(planet.velocity, body.velocity);
        assert_eq!(planet.mass, body.mass);
    }
    assert_eq!(game.planets()[1].name, "light");
    assert!(same_queues(game.cached_trajectories(), reference.cached_trajectories()));
}

#[test]
fn two_recomputes_from_one_state_agree() {
    let a = session(500);
    let mut b = session(500);
    assert!(same_queues(a.cached_trajectories(), b.cached_trajectories()));
    b.recalculate_trajectories();
    assert!(same_queues(a.cached_trajectories(), b.cached_trajectories()));
    assert!(b.cached_trajectories().is_valid);
}

#[test]
fn recompute_leaves_the_present_state() {
    let mut game = session(20);
    let player = *game.player();
    let before: Vec<(Vector2, Vector2)> =
        game.planets().iter().map(|p| (p.position, p.velocity)).collect();
    game.recalculate_trajectories();
    assert_eq!(*game.player(), player);
    let after: Vec<(Vector2, Vector2)> =
        game.planets().iter().map(|p| (p.position, p.velocity)).collect();
    assert_eq!(before, after);
}

#[test]
fn queues_keep_one_length_under_matched_drain_and_extend() {
    let mut game = session(50);
    for n in [1usize, 3, 7, 0, 2, 50, 49] {
        for _ in 0..n {
            game.advance_trajectory();
        }
        game.extend_trajectories(n);
        let lengths = queue_lengths(game.cached_trajectories());
        assert!(lengths.iter().all(|&l| l == lengths[0]));
    }
    for _ in 0..5 {
        game.advance_trajectory();
        let lengths = queue_lengths(game.cached_trajectories());
        assert!(lengths.iter().all(|&l| l == lengths[0]));
    }
}

#[test]
fn matched_drain_and_extend_keep_the_length() {
    let mut game = session(50);
    for n in [1usize, 3, 7, 0, 2] {
        for _ in 0..n {
            game.advance_trajectory();
        }
        game.extend_trajectories(n);
        assert_eq!(game.cached_trajectories().len(), 50);
    }
}

#[test]
fn extension_equals_a_longer_recompute() {
    let mut extended = session(40);
    extended.extend_trajectories(25);
    let longer = session(65);
    assert_eq!(extended.cached_trajectories().len(), 65);
    assert!(same_queues(extended.cached_trajectories(), longer.cached_trajectories()));
    for i in 40..65 {
        assert_eq!(
            extended.cached_trajectories().player_positions[i],
            longer.cached_trajectories().player_positions[i]
        );
        assert_eq!(
            extended.cached_trajectories().planet_velocities[1][i],
            longer.cached_trajectories().planet_velocities[1][i]
        );
    }
}

#[test]
fn drained_and_extended_cache_equals_the_tail_of_a_longer_recompute() {
    let mut game = session(30);
    for _ in 0..10 {
        game.advance_trajectory();
    }
    game.extend_trajectories(10);
    let longer = session(40);
    for i in 0..30 {
        assert_eq!(
            game.cached_trajectories().player_positions[i],
            longer.cached_trajectories().player_positions[i + 10]
        );
        assert_eq!(
            game.cached_trajectories().planet_positions[0][i],
            longer.cached_trajectories().planet_positions[0][i + 10]
        );
        assert_eq!(
            game.cached_trajectories().planet_velocities[1][i],
            longer.cached_trajectories().planet_velocities[1][i + 10]
        );
    }
}

#[test]
fn extension_keeps_the_cached_ticks_and_the_present() {
    let mut game = session(12);
    let before = session(12);
    let player = *game.player();
    game.extend_trajectories(3);
    assert_eq!(*game.player(), player);
    for i in 0..12 {
        assert_eq!(
            game.cached_trajectories().player_positions[i],
            before.cached_trajectories().player_positions[i]
        );
        assert_eq!(
            game.cached_trajectories().planet_positions[1][i],
            before.cached_trajectories().planet_positions[1][i]
        );
    }
    assert_eq!(game.cached_trajectories().len(), 15);
}

#[test]
fn advance_commits_the_soonest_tick() {
    let mut game = session(10);
    game.advance_trajectory();
    let before = session(10);
    let mut second = session(10);
    second.advance_trajectory();
    second.advance_trajectory();
    let cache = before.cached_trajectories();
    assert_eq!(second.player().position, cache.player_positions[1]);
    assert_eq!(second.player().velocity, cache.player_velocities[1]);
    for j in 0..2 {
        assert_eq!(second.planets()[j].position, cache.planet_positions[j][1]);
        assert_eq!(second.planets()[j].velocity, cache.planet_velocities[j][1]);
    }
    assert_eq!(second.cached_trajectories().len(), 8);
    assert!(queue_lengths(second.cached_trajectories()).iter().all(|&l| l == 8));
    assert_eq!(second.cached_trajectories().player_positions[0], cache.player_positions[2]);
    assert_eq!(game.cached_trajectories().len(), 9);
    assert_eq!(game.player().position, cache.player_positions[0]);
}

#[test]
fn advance_does_not_take_the_rotation_from_the_cache() {
    let mut game = session(10);
    game.apply_rotation(1.75f64.to_bits());
    game.advance_trajectory();
    assert_eq!(game.player().rotation, 2.25f64.to_bits());
    assert_eq!(game.cached_trajectories().player_rotations[0], 0.5f64.to_bits());
}

#[test]
fn advance_keeps_names_and_masses() {
    let mut game = session(5);
    game.advance_trajectory();
    game.advance_trajectory();
    assert_eq!(game.planets()[0].name, "heavy");
    assert_eq!(game.planets()[1].name, "light");
    assert_eq!(game.planets()[0].mass, 1e12f64.to_bits());
    assert_eq!(game.planets()[1].mass, 1e11f64.to_bits());
    assert_eq!(game.planets()[1].color, 0x4040FF);
    assert_eq!(game.player().mass, 1.0f64.to_bits());
}

#[test]
fn advance_on_an_empty_cache_does_nothing() {
    let mut game = session(2);
    game.advance_trajectory();
    game.advance_trajectory();
    assert_eq!(game.cached_trajectories().len(), 0);
    let player = *game.player();
    game.advance_trajectory();
    assert_eq!(game.cached_trajectories().len(), 0);
    assert_eq!(*game.player(), player);
    assert!(game.cached_trajectories().is_valid);
}

#[test]
fn extend_on_an_empty_cache_does_nothing() {
    let mut game = session(0);
    assert!(game.cached_trajectories().is_valid);
    game.extend_trajectories(5);
    assert_eq!(game.cached_trajectories().len(), 0);
    assert!(queue_lengths(game.cached_trajectories()).iter().all(|&l| l == 0));
}

#[test]
fn extend_by_nothing_does_nothing() {
    let mut game = session(7);
    game.extend_trajectories(0);
    assert_eq!(game.cached_trajectories().len(), 7);
    assert!(same_queues(game.cached_trajectories(), session(7).cached_trajectories()));
}

#[test]
fn rotation_leaves_the_cache_alone() {
    let mut game = session(30);
    let reference = session(30);
    let mut expected = 0.5f64;
    for k in 0..100 {
        let delta = 0.1f64 * k as f64 - 3.0;
        game.apply_rotation(delta.to_bits());
        expected += delta;
        assert!(game.cached_trajectories().is_valid);
        assert!(same_queues(game.cached_trajectories(), reference.cached_trajectories()));
    }
    assert_eq!(game.player().rotation, expected.to_bits());
    assert_eq!(game.player().position, reference.player().position);
    assert_eq!(game.player().velocity, reference.player().velocity);
}

#[test]
fn held_rotation_keys_leave_the_cache_alone() {
    let mut game = session(30);
    let reference = session(30);
    let mut input = InputState::new();
    input.rotate_left = true;
    let dt = 0.02f64.to_bits();
    for _ in 0..10 {
        input.apply_to_game(&mut game, dt);
    }
    assert!(same_queues(game.cached_trajectories(), reference.cached_trajectories()));
    let mut expected = 0.5f64;
    for _ in 0..10 {
        expected -= 3.0 * 0.02;
    }
    assert_eq!(game.player().rotation, expected.to_bits());
    input.rotate_left = false;
    input.rotate_right = true;
    input.apply_to_game(&mut game, dt);
    assert_eq!(game.player().rotation, (expected + 3.0 * 0.02).to_bits());
    assert!(same_queues(game.cached_trajectories(), reference.cached_trajectories()));
}

#[test]
fn both_rotation_keys_turn_left_then_right() {
    let mut game = session(3);
    let mut input = InputState::new();
    input.rotate_left = true;
    input.rotate_right = true;
    input.apply_to_game(&mut game, 0.25f64.to_bits());
    assert_eq!(game.player().rotation, ((0.5f64 - 3.0 * 0.25) + 3.0 * 0.25).to_bits());
}

#[test]
fn no_held_key_changes_nothing() {
    let mut game = session(9);
    for _ in 0..3 {
        game.advance_trajectory();
    }
    let player = *game.player();
    InputState::new().apply_to_game(&mut game, 0.016f64.to_bits());
    assert_eq!(*game.player(), player);
    assert_eq!(game.cached_trajectories().len(), 6);
}

#[test]
fn thrust_for_one_tick_changes_the_velocity_and_recomputes() {
    let mut game = session(200);
    for _ in 0..50 {
        game.advance_trajectory();
    }
    game.apply_rotation(0.25f64.to_bits());
    assert_eq!(game.player().rotation, 0.75f64.to_bits());
    let before = *game.player();
    let mut input = InputState::new();
    input.thrust = true;
    let dt = 0.016f64;
    input.apply_to_game(&mut game, dt.to_bits());
    let mass = num(before.mass);
    let dvx = 0.75f64.sin() * 25.0 / mass * dt;
    let dvy = -(0.75f64.cos()) * 25.0 / mass * dt;
    assert_eq!(num(game.player().velocity.x), num(before.velocity.x) + dvx);
    assert_eq!(num(game.player().velocity.y), num(before.velocity.y) + dvy);
    assert!(dvx > 0.0 && dvy < 0.0);
    assert_eq!(game.player().position, before.position);
    assert_eq!(game.player().rotation, before.rotation);
    let cache = game.cached_trajectories();
    assert!(cache.is_valid);
    assert_eq!(cache.len(), 200);
    assert!(queue_lengths(cache).iter().all(|&l| l == 200));
    assert_eq!(cache.player_velocities[0], game.player().velocity);
    assert_eq!(cache.player_positions[0], game.player().position);
    assert_eq!(cache.player_rotations[0], 0.75f64.to_bits());
    for (j, p) in game.planets().iter().enumerate() {
        assert_eq!(cache.planet_positions[j][0], p.position);
    }
}

#[test]
fn apply_thrust_pushes_along_the_rotation_and_recomputes() {
    let mut game = session(20);
    for _ in 0..15 {
        game.advance_trajectory();
    }
    let before = *game.player();
    game.apply_thrust(0.5f64.to_bits());
    let vx = num(before.velocity.x) + 0.5f64.sin() * 25.0 / 1.0 * 0.5;
    let vy = num(before.velocity.y) + -(0.5f64.cos()) * 25.0 / 1.0 * 0.5;
    assert_eq!(game.player().velocity, vec2(vx, vy));
    assert_eq!(game.player().position, before.position);
    assert_eq!(game.cached_trajectories().len(), 20);
    assert!(game.cached_trajectories().is_valid);
    assert_eq!(game.cached_trajectories().player_velocities[0], vec2(vx, vy));
}

#[test]
fn thrust_without_rotation_pushes_up_the_screen() {
    let (planets, mut player) = two_bodies();
    player.rotation = 0.0f64.to_bits();
    player.mass = 5.0f64.to_bits();
    let mut game = Game::with_horizon(planets, player, reals, 3).unwrap();
    game.apply_thrust(2.0f64.to_bits());
    assert_eq!(num(game.player().velocity.x), num(player.velocity.x));
    assert_eq!(num(game.player().velocity.y), num(player.velocity.y) - 25.0 / 5.0 * 2.0);
}

#[test]
fn dominant_planet_of_a_session() {
    let game = session(2);
    assert_eq!(find_dominant_planet(&game, &vec2(100.0, 0.0)), 0);
    assert_eq!(find_dominant_planet(&game, &vec2(4990.0, 0.0)), 1);
    // G m / r^2 is equal where r_heavy^2 = 10 r_light^2; on the heavy body
    // itself only the light one pulls.
    assert_eq!(find_dominant_planet(&game, &vec2(0.0, 0.0)), 1);
    assert_eq!(find_dominant_planet(&game, &vec2(5000.0, 0.0)), 0);
    let far = vec2(f64::NAN, 0.0);
    assert_eq!(find_dominant_planet(&game, &far), 0);
}

#[test]
fn dominant_planet_ties_go_to_the_first() {
    let planets = vec![
        planet("left", 1e12, vec2(-100.0, 0.0), vec2(0.0, 0.0)),
        planet("right", 1e12, vec2(100.0, 0.0), vec2(0.0, 0.0)),
        planet("far", 1e12, vec2(0.0, 500.0), vec2(0.0, 0.0)),
    ];
    let player = Player::new(vec2(0.0, 0.0), vec2(0.0, 0.0), 1.0f64.to_bits(), 0.0f64.to_bits());
    let game = Game::with_horizon(planets, player, reals, 1).unwrap();
    assert_eq!(find_dominant_planet(&game, &vec2(0.0, 0.0)), 0);
    assert_eq!(find_dominant_planet(&game, &vec2(1.0, 0.0)), 1);
    assert_eq!(find_dominant_planet(&game, &vec2(0.0, 450.0)), 2);
}

#[test]
fn dominant_planet_without_planets() {
    let player = Player::new(vec2(0.0, 0.0), vec2(0.0, 0.0), 1.0f64.to_bits(), 0.0f64.to_bits());
    let game = Game::with_horizon(vec![], player, reals, 3).unwrap();
    assert_eq!(find_dominant_planet(&game, &vec2(1.0, 1.0)), 0);
    assert_eq!(game.cached_trajectories().len(), 3);
}

#[test]
fn momentum_is_conserved_without_thrust() {
    let game = session(5000);
    let cache = game.cached_trajectories();
    let masses = [1e12f64, 1e11f64];
    let player_mass = 1.0f64;
    let momentum = |i: usize| -> (f64, f64) {
        let mut px = player_mass * num(cache.player_velocities[i].x);
        let mut py = player_mass * num(cache.player_velocities[i].y);
        for j in 0..2 {
            px += masses[j] * num(cache.planet_velocities[j][i].x);
            py += masses[j] * num(cache.planet_velocities[j][i].y);
        }
        (px, py)
    };
    let (px0, py0) = momentum(0);
    let scale = 1e11 * (num(BIG_GRAVITY) * 1e12 / 5000.0).sqrt();
    for i in 0..5000 {
        let (px, py) = momentum(i);
        assert!((px - px0).abs() <= 1e-9 * scale);
        assert!((py - py0).abs() <= 1e-9 * scale);
    }
}

#[test]
fn two_body_orbit_stays_near_its_radius() {
    let (planets, player) = two_bodies();
    let game = Game::new(planets, player, reals).unwrap();
    let cache = game.cached_trajectories();
    assert_eq!(cache.len(), TRAJECTORY_NUM_STEPS);
    let mut lowest = f64::INFINITY;
    let mut highest = 0.0f64;
    for i in 0..TRAJECTORY_NUM_STEPS {
        let dx = num(cache.planet_positions[1][i].x) - num(cache.planet_positions[0][i].x);
        let dy = num(cache.planet_positions[1][i].y) - num(cache.planet_positions[0][i].y);
        let d = (dx * dx + dy * dy).sqrt();
        lowest = lowest.min(d);
        highest = highest.max(d);
    }
    println!("distance between {} and {}", lowest, highest);
    assert!(highest <= 5000.0 * 1.001);
    assert!(lowest >= 5000.0 * 0.80);
}

#[test]
fn a_frame_of_elapsed_ticks_keeps_the_length() {
    let mut game = session(30);
    let longer = session(60);
    for steps in [1usize, 0, 4, 10, 15] {
        game.advance_and_extend(steps);
        assert_eq!(game.cached_trajectories().len(), 30);
        assert!(queue_lengths(game.cached_trajectories()).iter().all(|&l| l == 30));
    }
    for i in 0..30 {
        assert_eq!(
            game.cached_trajectories().player_positions[i],
            longer.cached_trajectories().player_positions[i + 30]
        );
        assert_eq!(
            game.cached_trajectories().planet_positions[1][i],
            longer.cached_trajectories().planet_positions[1][i + 30]
        );
    }
    assert_eq!(game.player().position, longer.cached_trajectories().player_positions[29]);
    assert_eq!(game.planets()[1].velocity, longer.cached_trajectories().planet_velocities[1][29]);
}

#[test]
fn a_frame_longer_than_the_cache_drains_it() {
    let mut game = session(5);
    let reference = session(5);
    game.advance_and_extend(5);
    assert_eq!(game.cached_trajectories().len(), 0);
    assert!(game.cached_trajectories().is_valid);
    assert_eq!(game.player().position, reference.cached_trajectories().player_positions[4]);
    game.advance_and_extend(3);
    assert_eq!(game.cached_trajectories().len(), 0);
    assert_eq!(game.player().position, reference.cached_trajectories().player_positions[4]);
    game.recalculate_trajectories();
    assert_eq!(game.cached_trajectories().len(), 5);
    assert_eq!(game.cached_trajectories().player_positions[0], game.player().position);
}

#[test]
fn a_frame_commits_the_ticks_that_have_accumulated() {
    let mut game = session(40);
    let longer = session(80);
    let input = InputState::new();
    // 0.01 + 0.05 * 1.0 = 0.06 holds three ticks of 0.016.
    let left = spaceflight::frame::run_frame(
        &mut game,
        &input,
        0.01f64.to_bits(),
        0.05f64.to_bits(),
        1.0f64.to_bits(),
    );
    let accumulated = 0.01f64 + 0.05 * 1.0;
    assert_eq!((accumulated / 0.016) as usize, 3);
    assert_eq!(num(left), accumulated - 3.0 * 0.016);
    assert_eq!(game.cached_trajectories().len(), 40);
    assert_eq!(game.player().position, longer.cached_trajectories().player_positions[2]);
    for i in 0..40 {
        assert_eq!(
            game.cached_trajectories().planet_positions[1][i],
            longer.cached_trajectories().planet_positions[1][i + 3]
        );
    }
}

#[test]
fn a_short_frame_only_accumulates() {
    let mut game = session(10);
    let reference = session(10);
    let left = spaceflight::frame::run_frame(
        &mut game,
        &InputState::new(),
        0.004f64.to_bits(),
        0.005f64.to_bits(),
        2.0f64.to_bits(),
    );
    assert_eq!(num(left), 0.004 + 0.005 * 2.0);
    assert_eq!(*game.player(), *reference.player());
    assert!(same_queues(game.cached_trajectories(), reference.cached_trajectories()));
}

#[test]
fn a_frame_with_thrust_recomputes_before_it_commits() {
    let mut game = session(30);
    let mut by_hand = session(30);
    let mut input = InputState::new();
    input.thrust = true;
    input.rotate_right = true;
    let dt = 0.02f64;
    let left = spaceflight::frame::run_frame(
        &mut game,
        &input,
        0.0f64.to_bits(),
        dt.to_bits(),
        4.0f64.to_bits(),
    );
    input.apply_to_game(&mut by_hand, dt.to_bits());
    by_hand.advance_and_extend(5);
    assert_eq!(((dt * 4.0) / 0.016) as usize, 5);
    assert_eq!(num(left), dt * 4.0 - 5.0 * 0.016);
    assert_eq!(*game.player(), *by_hand.player());
    assert_eq!(game.player().rotation, (0.5 + 3.0 * dt).to_bits());
    assert!(same_queues(game.cached_trajectories(), by_hand.cached_trajectories()));
    assert_eq!(game.cached_trajectories().len(), 30);
}

#[test]
fn a_frame_longer_than_the_horizon_drains_the_cache() {
    let mut game = session(4);
    let reference = session(4);
    let left = spaceflight::frame::run_frame(
        &mut game,
        &InputState::new(),
        0.0f64.to_bits(),
        1.0f64.to_bits(),
        1.0f64.to_bits(),
    );
    assert_eq!(num(left), 1.0 - 62.0 * 0.016);
    assert_eq!(game.cached_trajectories().len(), 0);
    assert_eq!(game.player().position, reference.cached_trajectories().player_positions[3]);
}

#[test]
fn a_new_cache_is_empty_and_not_valid() {
    let cache = CachedTrajectories::new(3);
    assert!(!cache.is_valid);
    assert_eq!(cache.len(), 0);
    assert_eq!(cache.planet_positions.len(), 3);
    assert_eq!(cache.planet_velocities.len(), 3);
    assert!(queue_lengths(&cache).iter().all(|&l| l == 0));
}

#[test]
fn a_cache_records_behind_and_pops_in_front() {
    let game = session(1);
    let first = game.present_state();
    let mut second = game.present_state();
    second.tick(&reals);
    let mut cache = CachedTrajectories::new(2);
    cache.record(&first);
    cache.record(&second);
    assert_eq!(cache.len(), 2);
    assert!(queue_lengths(&cache).iter().all(|&l| l == 2));
    assert_eq!(cache.player_positions[0], first.player.position);
    assert_eq!(cache.player_velocities[1], second.player.velocity);
    assert_eq!(cache.player_rotations[1], second.player.rotation);
    assert_eq!(cache.planet_positions[1][0], first.bodies[1].position);
    assert_eq!(cache.planet_velocities[0][1], second.bodies[0].velocity);
    assert!(!cache.is_valid);
    cache.pop_front();
    assert_eq!(cache.len(), 1);
    assert!(queue_lengths(&cache).iter().all(|&l| l == 1));
    assert_eq!(cache.player_positions[0], second.player.position);
    assert_eq!(cache.planet_positions[1][0], second.bodies[1].position);
}

#[test]
fn the_tail_state_is_the_last_cached_tick() {
    let game = session(9);
    let tail = game.tail_state();
    let cache = game.cached_trajectories();
    assert_eq!(tail.player.position, cache.player_positions[8]);
    assert_eq!(tail.player.velocity, cache.player_velocities[8]);
    assert_eq!(tail.player.rotation, cache.player_rotations[8]);
    assert_eq!(tail.player.mass, game.player().mass);
    assert_eq!(tail.big_gravity, BIG_GRAVITY);
    for j in 0..2 {
        assert_eq!(tail.bodies[j].position, cache.planet_positions[j][8]);
        assert_eq!(tail.bodies[j].velocity, cache.planet_velocities[j][8]);
        assert_eq!(tail.bodies[j].mass, game.planets()[j].mass);
    }
}

#[test]
fn the_first_mass_that_is_not_positive_is_found() {
    let (mut planets, _) = two_bodies();
    assert_eq!(spaceflight::game::first_invalid_mass(&planets), None);
    planets.push(planet("none", 0.0, vec2(0.0, 0.0), vec2(0.0, 0.0)));
    planets.push(planet("less", -5.0, vec2(0.0, 0.0), vec2(0.0, 0.0)));
    assert_eq!(spaceflight::game::first_invalid_mass(&planets), Some(2));
    assert_eq!(spaceflight::game::first_invalid_mass(&vec![]), None);
}

#[test]
fn a_session_runs_on_the_arithmetic_it_was_given() {
    let game = session(1);
    let arithmetic = game.reals();
    assert_eq!(num(arithmetic(Op::Mul, 1.5f64.to_bits(), 4.0f64.to_bits())), 6.0);
}

#[test]
fn every_frame_of_a_prediction_has_the_rotation_of_the_present() {
    let game = session(300);
    for i in 0..300 {
        assert_eq!(game.cached_trajectories().player_rotations[i], game.player().rotation);
    }
}

#[test]
fn two_body_orbit_at_the_speed_of_both_masses_is_a_circle() {
    let g = num(BIG_GRAVITY);
    let speed = (g * (1e12 + 1e11) / 5000.0).sqrt();
    let planets = vec![
        planet("heavy", 1e12, vec2(0.0, 0.0), vec2(0.0, 0.0)),
        planet("light", 1e11, vec2(5000.0, 0.0), vec2(0.0, speed)),
    ];
    let player = Player::new(vec2(0.0, 1e7), vec2(0.0, 0.0), 1e-6f64.to_bits(), 0.0f64.to_bits());
    let game = Game::new(planets, player, reals).unwrap();
    let cache = game.cached_trajectories();
    for i in 0..TRAJECTORY_NUM_STEPS {
        let dx = num(cache.planet_positions[1][i].x) - num(cache.planet_positions[0][i].x);
        let dy = num(cache.planet_positions[1][i].y) - num(cache.planet_positions[0][i].y);
        let d = (dx * dx + dy * dy).sqrt();
        assert!((d - 5000.0).abs() <= 5000.0 * 0.01, "distance {} at tick {}", d, i);
    }
}
