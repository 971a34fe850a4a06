//! A deterministic N-body simulator with a sliding-window trajectory cache,
//! and the picture that is drawn of it.
//!
//! Every real quantity (a coordinate, a mass, an angle) is carried as the
//! bit pattern of an IEEE 754 binary64 number. The library stores, moves and
//! compares these patterns itself; sums, products, roots and the like it
//! asks of an arithmetic that the host supplies as a function value. What a
//! function of the library returns is stated over the answers of that
//! arithmetic.

pub mod scalar;
pub mod vector2;
pub mod player;
pub mod texture;
pub mod planet;
pub mod physics;
pub mod prediction;
pub mod game;
pub mod keyboard_input;
pub mod frame;
pub mod laws;
pub mod initial_universe;
pub mod render;
pub mod sprite_renderer;
pub mod shapes;
pub mod font;
pub mod trajectories;
pub mod scene;
pub mod info;
pub mod view;
