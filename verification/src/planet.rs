//! Passive bodies.

use vstd::prelude::*;
use crate::texture::Texture;
use crate::vector2::Vector2;

verus! {

/// A passive body. `radius` and `mass` are binary64 bit patterns; `color` is
/// packed as `0xRRGGBB`.
#[derive(Clone, Debug)]
pub struct Planet {
    pub name: String,
    pub radius: u64,
    pub mass: u64,
    pub position: Vector2,
    pub velocity: Vector2,
    pub color: u32,
    pub texture: Option<Texture>,
    pub description: String,
}

impl Planet {
    /// A body without texture and with an empty description.
    pub fn new(
        name: String,
        radius: u64,
        mass: u64,
        position: Vector2,
        velocity: Vector2,
        color: u32,
    ) -> (r: Planet)
        ensures
            r.name == name,
            r.radius == radius,
            r.mass == mass,
            r.position == position,
            r.velocity == velocity,
            r.color == color,
            r.texture is None,
            r.description@ == Seq::<char>::empty(),
    {
        Planet {
            name,
            radius,
            mass,
            position,
            velocity,
            color,
            texture: None,
            description: String::new(),
        }
    }

    /// The same body, drawn with `texture`.
    pub fn with_texture(self, texture: Texture) -> (r: Planet)
        ensures
            r == (Planet { texture: Some(texture), ..self }),
    {
        let mut planet = self;
        planet.texture = Some(texture);
        planet
    }

    /// The same body, described by `description`.
    pub fn with_description(self, description: String) -> (r: Planet)
        ensures
            r == (Planet { description, ..self }),
    {
        let mut planet = self;
        planet.description = description;
        planet
    }
}

} // verus!
