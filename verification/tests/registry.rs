use cosmic_cults::registry::{CrimsonUnits, LeaderScenes, MaterialRegistry, UnitScenes};

#[test]
fn test_crimson_units_get() {
    let units = CrimsonUnits::asset_paths();
    assert!(units.get("cultist").is_some());
    assert!(units.get("warrior").is_some());
    assert!(units.get("berserker").is_some());
    assert!(units.get("invalid").is_none());
}

#[test]
fn test_material_registry() {
    let mut registry: MaterialRegistry<u64> = MaterialRegistry::default();
    let handle: u64 = 17;
    registry.register("test_material".to_string(), handle);
    assert!(registry.contains("test_material"));
    assert_eq!(*registry.get("test_material").unwrap(), handle);
    assert!(!registry.contains("nonexistent"));
}

#[test]
fn test_unit_scenes_get() {
    let scenes = UnitScenes::asset_paths();
    assert!(scenes.get("crimson_covenant", "cultist").is_some());
    assert!(scenes.get("deep_ones", "guardian").is_some());
    assert!(scenes.get("void_seekers", "assassin").is_some());
    assert!(scenes.get("invalid_cult", "cultist").is_none());
}

#[test]
fn test_leader_scenes_get() {
    let scenes = LeaderScenes::asset_paths();
    assert!(scenes.get("crimson_covenant").is_some());
    assert!(scenes.get("deep_ones").is_some());
    assert!(scenes.get("void_seekers").is_some());
    assert!(scenes.get("invalid_cult").is_none());
}

#[test]
fn unit_types_map_to_their_models() {
    let scenes = UnitScenes::asset_paths();
    assert_eq!(scenes.get("crimson_covenant", "acolyte"), Some(&"assets/models/units/crimson/blood_acolyte.glb#Scene0"));
    assert_eq!(scenes.get("crimson_covenant", "cultist"), scenes.get("crimson_covenant", "acolyte"));
    assert_eq!(scenes.get("void_seekers", "scout"), Some(&"assets/models/units/void/void_initiate.glb#Scene0"));
    assert_eq!(scenes.get("deep_ones", "horror"), Some(&"assets/models/units/deep/abyssal_horror.glb#Scene0"));
    assert_eq!(scenes.get("deep_ones", "warrior"), None);
    assert_eq!(
        LeaderScenes::asset_paths().get("void_seekers"),
        Some(&"assets/models/leaders/void/void_scholar.glb#Scene0")
    );
}

#[test]
fn registering_again_replaces_the_material() {
    let mut registry: MaterialRegistry<u64> = MaterialRegistry::default();
    registry.register("stone".to_string(), 1);
    registry.register("moss".to_string(), 2);
    registry.register("stone".to_string(), 3);
    assert_eq!(registry.get("stone"), Some(&3));
    assert_eq!(registry.get("moss"), Some(&2));
    assert_eq!(registry.get("sand"), None);
}
