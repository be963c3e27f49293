use open_forge::registry::{ExtensionRegistry, HookPhase, RegistryError, RuntimeType, ActionResult};

type Reg = ExtensionRegistry<u32, u32, &'static str, u32>;

#[test]
fn register_and_get_action() {
    let mut r: Reg = ExtensionRegistry::new();
    assert!(r.register_action("move".to_string(), 1).is_ok());
    assert!(r.register_action("jump".to_string(), 2).is_ok());
    assert_eq!(r.get_action("move"), Some(&1));
    assert_eq!(r.get_action("fly"), None);
    assert_eq!(r.action_names(), vec!["move", "jump"]);
}

#[test]
fn duplicate_registration_refused() {
    let mut r: Reg = ExtensionRegistry::new();
    r.register_action("move".to_string(), 1).unwrap();
    match r.register_action("move".to_string(), 5) {
        Err(RegistryError::Duplicate(n)) => assert_eq!(n, "move"),
        _ => panic!("expected a duplicate"),
    }
    assert_eq!(r.get_action("move"), Some(&1));
    r.register_condition("score".to_string(), 3).unwrap();
    assert!(matches!(r.register_condition("score".to_string(), 4), Err(RegistryError::Duplicate(_))));
    assert_eq!(r.get_condition("score"), Some(&3));
    r.register_component("sprite".to_string(), 9).unwrap();
    assert!(matches!(r.register_component("sprite".to_string(), 1), Err(RegistryError::Duplicate(_))));
    assert_eq!(r.get_component("sprite"), Some(&9));
    assert_eq!(r.get_component("audio"), None);
    r.register_hook("h".to_string(), HookPhase::OnInit, 1, "a").unwrap();
    assert!(matches!(r.register_hook("h".to_string(), HookPhase::OnRender, 0, "b"), Err(RegistryError::Duplicate(_))));
}

#[test]
fn same_name_in_different_pillars() {
    let mut r: Reg = ExtensionRegistry::new();
    assert!(r.register_action("x".to_string(), 1).is_ok());
    assert!(r.register_condition("x".to_string(), 1).is_ok());
    assert!(r.register_component("x".to_string(), 1).is_ok());
    assert!(r.register_hook("x".to_string(), HookPhase::OnEvent, 0, "x").is_ok());
}

#[test]
fn hooks_by_phase_sorted_by_priority() {
    let mut r: Reg = ExtensionRegistry::default();
    r.register_hook("late".to_string(), HookPhase::OnUpdate, 10, "late").unwrap();
    r.register_hook("early".to_string(), HookPhase::OnUpdate, -5, "early").unwrap();
    r.register_hook("render".to_string(), HookPhase::OnRender, 0, "render").unwrap();
    r.register_hook("mid".to_string(), HookPhase::OnUpdate, 3, "mid").unwrap();
    let hooks = r.get_hooks_by_phase(HookPhase::OnUpdate);
    let names: Vec<&str> = hooks.iter().map(|h| h.handler).collect();
    assert_eq!(names, vec!["early", "mid", "late"]);
    let prios: Vec<i32> = hooks.iter().map(|h| h.priority).collect();
    assert_eq!(prios, vec![-5, 3, 10]);
    assert_eq!(r.get_hooks_by_phase(HookPhase::OnRender).len(), 1);
    assert!(r.get_hooks_by_phase(HookPhase::OnShutdown).is_empty());
}

#[test]
fn registry_error_messages() {
    assert_eq!(RegistryError::NotFound("jump".to_string()).message(), "extension 'jump' not found");
    assert_eq!(RegistryError::Duplicate("jump".to_string()).message(), "extension 'jump' already registered");
    assert_eq!(RegistryError::InvalidConfig("bad".to_string()).message(), "invalid extension config: bad");
}

#[test]
fn phases_and_runtimes() {
    assert!(HookPhase::OnInit < HookPhase::OnShutdown);
    assert_ne!(RuntimeType::Light, RuntimeType::Godot);
    let r = ActionResult::SwitchScene("level2".to_string());
    assert!(matches!(r, ActionResult::SwitchScene(s) if s == "level2"));
}
