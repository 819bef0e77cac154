use foxiefox::registries::textures::{SingleTextureLoadError, TextureLoadError};
use foxiefox::registries::util::collect_loaded;
use foxiefox::registries::LoadError;
use foxiefox::registry::Registry;
use foxiefox::util::identifier::Identifier;

#[test]
fn registry_new_is_empty() {
    let reg: Registry<u32> = Registry::new();
    assert_eq!(reg.len(), 0);
    assert!(reg.get(&Identifier::new("anything")).is_none());
}

#[test]
fn registry_get_after_add() {
    let mut reg = Registry::new();
    reg.add(Identifier::new("a"), 1u32);
    reg.add(Identifier::new("b"), 2u32);
    assert_eq!(reg.get(&Identifier::new("a")), Some(&1));
    assert_eq!(reg.get(&Identifier::new("b")), Some(&2));
    assert_eq!(reg.get(&Identifier::new("c")), None);
    assert_eq!(reg.len(), 2);
}

#[test]
fn registry_add_replaces_previous_data() {
    let mut reg = Registry::new();
    reg.add(Identifier::new("a"), 1u32);
    reg.add(Identifier::new("a"), 7u32);
    assert_eq!(reg.get(&Identifier::new("a")), Some(&7));
    assert_eq!(reg.len(), 1);
}

#[test]
fn registry_distinguishes_namespaces() {
    let mut reg = Registry::new();
    reg.add(Identifier::new("a"), 1u32);
    let foreign = Identifier { namespace: "other".to_string(), path: "a".to_string() };
    assert_eq!(reg.get(&foreign), None);
    reg.add(foreign.clone(), 2u32);
    assert_eq!(reg.get(&foreign), Some(&2));
    assert_eq!(reg.get(&Identifier::new("a")), Some(&1));
}

#[test]
fn collect_loaded_builds_registry_when_all_succeed() {
    let results: Vec<Result<(Identifier, u32), String>> = vec![
        Ok((Identifier::new("a"), 1)),
        Ok((Identifier::new("b"), 2)),
        Ok((Identifier::new("a"), 3)),
    ];
    let reg = collect_loaded(results).ok().unwrap();
    assert_eq!(reg.get(&Identifier::new("a")), Some(&3));
    assert_eq!(reg.get(&Identifier::new("b")), Some(&2));
    assert_eq!(reg.len(), 2);
}

#[test]
fn collect_loaded_reports_every_failure_in_order() {
    let results: Vec<Result<(Identifier, u32), String>> = vec![
        Err("first".to_string()),
        Ok((Identifier::new("a"), 1)),
        Err("second".to_string()),
    ];
    let failures = collect_loaded(results).err().unwrap();
    assert_eq!(failures, vec!["first".to_string(), "second".to_string()]);
}

#[test]
fn collect_loaded_of_nothing_is_empty_registry() {
    let results: Vec<Result<(Identifier, u32), String>> = Vec::new();
    let reg = collect_loaded(results).ok().unwrap();
    assert_eq!(reg.len(), 0);
}

#[test]
fn texture_load_error_counts_failures() {
    let err = TextureLoadError {
        failures: vec![
            (Identifier::new("a"), anyhow::Error::msg("broken")),
            (Identifier::new("b"), anyhow::Error::msg("missing")),
        ],
    };
    assert_eq!(err.message(), "There are 2 textures failed to load");
    assert_eq!(err.source().unwrap().to_string(), "broken");
}

#[test]
fn texture_load_error_with_many_failures() {
    let mut failures = Vec::new();
    for i in 0..12 {
        failures.push((Identifier::new(&format!("t{i}")), anyhow::Error::msg("bad")));
    }
    let err = TextureLoadError { failures };
    assert_eq!(err.message(), "There are 12 textures failed to load");
}

#[test]
fn texture_load_error_without_failures_has_no_source() {
    let err = TextureLoadError { failures: Vec::new() };
    assert!(err.source().is_none());
    assert_eq!(err.message(), "There are 0 textures failed to load");
}

#[test]
fn load_error_messages() {
    let single = SingleTextureLoadError::FailedToLoadImage {
        path: "foxiefox:background".to_string(),
        error: anyhow::Error::msg("bad"),
    };
    assert_eq!(single.message(), "Cannot load image");
    let err = LoadError::TextureLoad(TextureLoadError { failures: Vec::new() });
    assert_eq!(err.message(), "failed to load textures");
}
