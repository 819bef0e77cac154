use foxiefox::util::identifier::{Identifier, GAME_ID};

#[test]
fn identifier_new_uses_game_namespace() {
    let id = Identifier::new("ui/image");
    assert_eq!(id.namespace, "foxiefox");
    assert_eq!(id.path, "ui/image");
    assert_eq!(GAME_ID, "foxiefox");
}

#[test]
fn identifier_new_const_matches_new() {
    let a = Identifier::new_const("ui/colored_rectangle");
    let b = Identifier::new("ui/colored_rectangle");
    assert!(a.same_as(&b));
    assert_eq!(a, b);
}

#[test]
fn identifier_displays_namespace_and_path() {
    let id = Identifier::new("background");
    assert_eq!(id.to_string(), "foxiefox:background");
    let other = Identifier { namespace: "mod".to_string(), path: "a/b".to_string() };
    assert_eq!(other.to_string(), "mod:a/b");
}

#[test]
fn identifier_same_as_compares_both_parts() {
    let a = Identifier::new("x");
    let b = Identifier { namespace: "other".to_string(), path: "x".to_string() };
    let c = Identifier::new("y");
    assert!(!a.same_as(&b));
    assert!(!a.same_as(&c));
    assert!(a.same_as(&a.duplicate()));
}
