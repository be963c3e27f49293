use open_forge::assets::{Asset, AssetError, AssetStore, AssetType};
use open_forge::clock::Timestamp;
use open_forge::json::JsonValue;
use open_forge::script::{
    ComponentDefinition, ConditionExpr, EntityDefinition, SceneCompiler, SceneDefinition, ScriptError, Trigger,
    TriggerAction,
};

fn asset(id: &str, project: &str) -> Asset {
    Asset {
        id: id.to_string(),
        project_id: project.to_string(),
        name: format!("{id}.png"),
        asset_type: AssetType::Image,
        url: format!("/assets/{id}.png"),
        size: 1024,
        created_at: Timestamp { secs: 1_700_000_000, nanos: 0 },
        metadata: JsonValue::Null,
    }
}

#[test]
fn register_get_list_remove() {
    let mut store = AssetStore::new("/data/assets");
    assert!(store.register(asset("a1", "p1")).is_ok());
    assert!(store.register(asset("a2", "p2")).is_ok());
    assert!(store.register(asset("a3", "p1")).is_ok());
    assert_eq!(store.get("a2").unwrap().project_id, "p2");
    let ids: Vec<&str> = store.list_by_project("p1").iter().map(|a| a.id.as_str()).collect();
    assert_eq!(ids, vec!["a1", "a3"]);
    assert!(store.list_by_project("p3").is_empty());
    let removed = store.remove("a1").unwrap();
    assert_eq!(removed.id, "a1");
    match store.get("a1") {
        Err(AssetError::NotFound(id)) => assert_eq!(id, "a1"),
        _ => panic!("expected not found"),
    }
    assert!(matches!(store.remove("a1"), Err(AssetError::NotFound(_))));
}

#[test]
fn register_replaces_same_id() {
    let mut store = AssetStore::new("/tmp");
    store.register(asset("a", "p1")).unwrap();
    store.register(asset("a", "p2")).unwrap();
    assert_eq!(store.get("a").unwrap().project_id, "p2");
    assert_eq!(store.list_by_project("p1").len(), 0);
}

#[test]
fn asset_error_messages() {
    assert_eq!(AssetError::NotFound("x".to_string()).message(), "asset not found: x");
    assert_eq!(AssetError::TooLarge { size: 2048, max: 1024 }.message(), "asset too large: 2048 bytes (max 1024)");
    assert_eq!(AssetError::InvalidType("psd".to_string()).message(), "invalid asset type: psd");
    assert_eq!(AssetError::Storage("disk".to_string()).message(), "storage error: disk");
    assert_eq!(AssetType::Other("x".to_string()), AssetType::Other("x".to_string()));
}

fn entity(id: &str) -> EntityDefinition {
    EntityDefinition {
        id: id.to_string(),
        entity_type: "sprite".to_string(),
        position: [0, 0],
        rotation: 0,
        scale: [1.0f64.to_bits(), 1.0f64.to_bits()],
        components: vec![ComponentDefinition { component_type: "movement".to_string(), params: JsonValue::Null }],
    }
}

fn scene(name: &str, ids: &[&str]) -> SceneDefinition {
    SceneDefinition {
        scene: name.to_string(),
        entities: ids.iter().map(|i| entity(i)).collect(),
        triggers: vec![Trigger {
            condition: ConditionExpr { condition_type: "key".to_string(), params: JsonValue::Null },
            action: vec![TriggerAction { action_type: "hide".to_string(), target: Some("a".to_string()), params: JsonValue::Null }],
            once: false,
        }],
    }
}

#[test]
fn validate_accepts_good_scene() {
    let c = SceneCompiler::new();
    assert!(c.validate(&scene("level1", &["a", "b", "c"])).is_ok());
    assert!(c.validate(&scene("empty", &[])).is_ok());
}

#[test]
fn validate_rejects_empty_name() {
    let c = SceneCompiler::default();
    match c.validate(&scene("", &["a", "a"])) {
        Err(ScriptError::Validation(m)) => assert_eq!(m, "scene name cannot be empty"),
        _ => panic!("expected a validation error"),
    }
}

#[test]
fn validate_reports_first_duplicate() {
    let c = SceneCompiler::new();
    match c.validate(&scene("s", &["a", "b", "b", "a"])) {
        Err(ScriptError::Validation(m)) => assert_eq!(m, "duplicate entity id: b"),
        _ => panic!("expected a validation error"),
    }
    let e = ScriptError::Validation("x".to_string());
    assert_eq!(e.message(), "validation error: x");
    assert_eq!(ScriptError::UnknownAction("fly".to_string()).message(), "unknown action type: fly");
}
