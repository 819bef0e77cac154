use foxiefox::events::EventHandleResult;
use foxiefox::resources::shaders::Shader;
use foxiefox::resources::textures::TextureAsset;
use foxiefox::util::identifier::Identifier;

#[test]
fn shader_new_names_it_in_game_namespace() {
    let shader = Shader::new("colored_rectangle", "@vertex fn main() {}");
    assert_eq!(shader.identifier().to_string(), "foxiefox:colored_rectangle");
    assert_eq!(shader.source(), "@vertex fn main() {}");
    let copy = shader.duplicate();
    assert!(copy.identifier().same_as(shader.identifier()));
}

#[test]
fn texture_new_keeps_identifier_and_bytes() {
    static BYTES: [u8; 3] = [1, 2, 3];
    let tex = TextureAsset::new(Identifier::new("ui/image"), &BYTES);
    assert_eq!(tex.identifier().to_string(), "foxiefox:ui/image");
    assert_eq!(tex.raw_bytes(), &[1, 2, 3]);
}

#[test]
fn event_handle_results_differ() {
    assert_ne!(EventHandleResult::Consumed, EventHandleResult::Pass);
}
