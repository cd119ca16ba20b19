use bespoke_engine::resource_loader::{
    lookup_resource, normalize_path, ResourceMap, ResourceType,
};

fn sample_map() -> ResourceMap {
    ResourceMap {
        entries: vec![
            (
                "shaders/a.wgsl".to_string(),
                ResourceType::Static(b"fn main() {}".to_vec()),
            ),
            (
                "textures/t.png".to_string(),
                ResourceType::Dynamic("assets/t.png".to_string()),
            ),
            (
                "shaders/a.wgsl".to_string(),
                ResourceType::Static(b"shadowed".to_vec()),
            ),
        ],
    }
}

#[test]
fn backslashes_are_normalized() {
    assert_eq!(normalize_path("a\\b/c.png"), "a/b/c.png");
    assert_eq!(normalize_path("plain"), "plain");
    assert_eq!(normalize_path(""), "");
}

#[test]
fn lookup_finds_static_bytes() {
    let map = sample_map();
    match lookup_resource(&map, "shaders/a.wgsl") {
        Some(ResourceType::Static(bytes)) => assert_eq!(bytes, b"fn main() {}"),
        _ => panic!("registered static asset not found"),
    }
}

#[test]
fn lookup_accepts_backslash_spelling() {
    let map = sample_map();
    match lookup_resource(&map, "shaders\\a.wgsl") {
        Some(ResourceType::Static(bytes)) => assert_eq!(bytes, b"fn main() {}"),
        _ => panic!("backslash spelling of a registered asset not found"),
    }
}

#[test]
fn lookup_returns_dynamic_path() {
    let map = sample_map();
    match lookup_resource(&map, "textures/t.png") {
        Some(ResourceType::Dynamic(path)) => assert_eq!(path, "assets/t.png"),
        _ => panic!("registered dynamic asset not found"),
    }
}

#[test]
fn lookup_misses_unregistered_paths() {
    let map = sample_map();
    assert!(lookup_resource(&map, "missing").is_none());
}

#[test]
fn lookup_takes_the_first_match() {
    let map = sample_map();
    match lookup_resource(&map, "shaders/a.wgsl") {
        Some(ResourceType::Static(bytes)) => assert_ne!(bytes, b"shadowed"),
        _ => panic!("registered static asset not found"),
    }
}
