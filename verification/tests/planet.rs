use spaceflight::planet::Planet;
use spaceflight::texture::Texture;
use spaceflight::vector2::Vector2;

#[test]
fn planet_builders_set_their_fields() {
    let position = Vector2::new(1.0f64.to_bits(), 2.0f64.to_bits());
    let velocity = Vector2::new(3.0f64.to_bits(), 4.0f64.to_bits());
    let planet = Planet::new(
        "Earth".to_string(),
        150.0f64.to_bits(),
        6e12f64.to_bits(),
        position,
        velocity,
        0x4040FF,
    );
    assert_eq!(planet.name, "Earth");
    assert_eq!(planet.radius, 150.0f64.to_bits());
    assert_eq!(planet.mass, 6e12f64.to_bits());
    assert_eq!(planet.position, position);
    assert_eq!(planet.velocity, velocity);
    assert_eq!(planet.color, 0x4040FF);
    assert!(planet.texture.is_none());
    assert_eq!(planet.description, "");
    let described = planet.with_description("A small blue planet.".to_string());
    assert_eq!(described.description, "A small blue planet.");
    assert_eq!(described.name, "Earth");
    assert!(described.texture.is_none());
    let textured =
        described.with_texture(Texture { width: 1, height: 2, pixels: vec![0xFF000000, 0x80FFFFFF] });
    let texture = textured.texture.unwrap();
    assert_eq!((texture.width, texture.height), (1, 2));
    assert_eq!(texture.pixels, vec![0xFF000000, 0x80FFFFFF]);
    assert_eq!(textured.description, "A small blue planet.");
    assert_eq!(textured.mass, 6e12f64.to_bits());
}
