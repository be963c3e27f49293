use open_forge::canvas::Canvas;
use open_forge::json::{JsonNumber, JsonValue};
use open_forge::renderer::{LightError, Renderer};
use open_forge::runtime::{MouseButton, RuntimeConfig, RuntimeError};
use open_forge::scene_runner::{DrawCommand, EntityInstance, LightRuntime, ONE_BITS};
use open_forge::table::Table;

fn s(x: &str) -> JsonValue {
    JsonValue::String(x.to_string())
}

fn on_key(keys: &[&str], action: &str) -> JsonValue {
    JsonValue::Object(vec![
        ("keys".to_string(), JsonValue::Array(keys.iter().map(|k| s(k)).collect())),
        ("action".to_string(), s(action)),
    ])
}

fn entity_with(id: &str, component: &str, value: JsonValue) -> EntityInstance {
    let mut e = EntityInstance::new(id.to_string());
    let mut c = Table::new();
    c.insert(component.to_string(), value);
    e.components = c;
    e
}

#[test]
fn entity_defaults_and_builders() {
    let e = EntityInstance::new("p".to_string());
    assert_eq!(e.x, 0f64.to_bits());
    assert_eq!(e.scale_x, ONE_BITS);
    assert_eq!(f64::from_bits(ONE_BITS), 1.0);
    assert!(e.visible);
    assert_eq!(e.layer, 0);
    let e = e.with_position(3.5f64.to_bits(), (-2.0f64).to_bits()).with_scale(2.0f64.to_bits(), 0.5f64.to_bits()).with_layer(7);
    assert_eq!(f64::from_bits(e.x), 3.5);
    assert_eq!(f64::from_bits(e.y), -2.0);
    assert_eq!(f64::from_bits(e.scale_y), 0.5);
    assert_eq!(e.layer, 7);
}

#[test]
fn add_get_remove_move() {
    let mut rt = LightRuntime::new();
    rt.add_entity(EntityInstance::new("a".to_string()));
    assert!(rt.get_entity("a").is_some());
    assert_eq!(rt.move_entity("a", 10f64.to_bits(), 20f64.to_bits()), Some(()));
    assert_eq!(f64::from_bits(rt.get_entity("a").unwrap().x), 10.0);
    assert_eq!(rt.move_entity("nobody", 0, 0), None);
    assert!(rt.remove_entity("a").is_some());
    assert!(rt.get_entity("a").is_none());
    assert!(rt.remove_entity("a").is_none());
}

#[test]
fn entities_ordered_by_layer() {
    let mut rt = LightRuntime::default();
    rt.add_entity(EntityInstance::new("top".to_string()).with_layer(5));
    rt.add_entity(EntityInstance::new("bottom".to_string()).with_layer(-1));
    rt.add_entity(EntityInstance::new("middle".to_string()).with_layer(2));
    let ids: Vec<&str> = rt.get_entities().iter().map(|e| e.id.as_str()).collect();
    assert_eq!(ids, vec!["bottom", "middle", "top"]);
}

#[test]
fn key_down_runs_actions() {
    let mut rt = LightRuntime::new();
    rt.add_entity(entity_with("door", "on_key", on_key(&["Space", "Enter"], "hide")));
    rt.add_entity(entity_with("enemy", "on_key", on_key(&["x"], "destroy")));
    rt.add_entity(EntityInstance::new("plain".to_string()));
    let acts = rt.key_actions("Space");
    assert_eq!(acts, vec![("door".to_string(), "hide".to_string())]);
    rt.handle_key_down("Space");
    assert!(!rt.get_entity("door").unwrap().visible);
    rt.handle_key_down("x");
    assert!(rt.get_entity("enemy").is_none());
    assert!(rt.get_entity("plain").unwrap().visible);
    rt.handle_key_down("q");
    assert!(rt.get_entity("plain").is_some());
}

#[test]
fn key_listed_twice_gives_two_actions() {
    let mut rt = LightRuntime::new();
    rt.add_entity(entity_with("lamp", "on_key", on_key(&["l", "l"], "show")));
    assert_eq!(rt.key_actions("l").len(), 2);
}

#[test]
fn on_key_without_action_does_nothing() {
    let mut rt = LightRuntime::new();
    let comp = JsonValue::Object(vec![("keys".to_string(), JsonValue::Array(vec![s("k")]))]);
    rt.add_entity(entity_with("e", "on_key", comp));
    assert!(rt.key_actions("k").is_empty());
}

#[test]
fn execute_actions_in_order() {
    let mut rt = LightRuntime::new();
    rt.add_entity(EntityInstance::new("e".to_string()));
    rt.execute_action("e", "hide");
    assert!(!rt.get_entity("e").unwrap().visible);
    rt.execute_action("e", "show");
    assert!(rt.get_entity("e").unwrap().visible);
    rt.execute_action("e", "dance");
    assert!(rt.get_entity("e").is_some());
    rt.execute_actions(&vec![("e".to_string(), "hide".to_string()), ("e".to_string(), "destroy".to_string())]);
    assert!(rt.get_entity("e").is_none());
    rt.execute_action("e", "show");
    assert!(rt.get_entity("e").is_none());
}

#[test]
fn hover_action_reads_component() {
    let comp = JsonValue::Object(vec![("action".to_string(), s("hide"))]);
    let e = entity_with("btn", "on_hover", comp);
    assert_eq!(e.hover_action(), Some("hide"));
    assert_eq!(EntityInstance::new("x".to_string()).hover_action(), None);
}

#[test]
fn lifecycle() {
    let mut rt = LightRuntime::new();
    assert_eq!(rt.name(), "light");
    assert!(!rt.is_initialized());
    match rt.begin_render() {
        Err(RuntimeError::RenderFailed(m)) => assert_eq!(m, "runtime not initialized"),
        _ => panic!("expected a render failure"),
    }
    let mut cfg = RuntimeConfig::default();
    cfg.background_color = [1, 2, 3, 4];
    assert!(rt.init(cfg).is_ok());
    assert!(rt.is_initialized());
    assert!(rt.is_running());
    match rt.begin_render() {
        Ok((r, bg)) => {
            assert_eq!(bg, [1, 2, 3, 4]);
            assert_eq!(r.canvas().width(), 1280);
        }
        Err(_) => panic!("expected a renderer"),
    }
    rt.tick_frame();
    rt.tick_frame();
    assert_eq!(rt.frame_count(), 2);
    rt.add_entity(EntityInstance::new("a".to_string()));
    assert!(rt.shutdown().is_ok());
    assert!(!rt.is_running());
    assert!(rt.get_entity("a").is_none());
    assert!(rt.is_initialized());
    assert!(rt.begin_render().is_err());
}

#[test]
fn runtime_config_default() {
    let c = RuntimeConfig::default();
    assert_eq!((c.width, c.height, c.target_fps), (1280, 720, 60));
    assert_eq!(c.background_color, [0, 0, 0, 255]);
}

#[test]
fn runtime_error_messages() {
    assert_eq!(RuntimeError::InitFailed("gpu".to_string()).message(), "initialization failed: gpu");
    assert_eq!(RuntimeError::EventFailed("x".to_string()).message(), "event handling failed: x");
    assert_eq!(RuntimeError::Unsupported("3d".to_string()).message(), "unsupported operation: 3d");
    assert_ne!(MouseButton::Left, MouseButton::Right);
}

#[test]
fn canvas_clip() {
    let mut c = Canvas::new(640, 480);
    assert_eq!((c.width(), c.height()), (640, 480));
    c.set_clip(1, 2, 3, 4);
    c.clear_clip();
    c.fill_rect(0, 0, 1, 1, [0, 0, 0, 0]);
    c.clear([0, 0, 0, 255]);
    assert_eq!(c.width(), 640);
}

#[test]
fn renderer_basics() {
    let r = Renderer::new(320, 200);
    assert_eq!(r.canvas().height(), 200);
    r.begin_frame([0, 0, 0, 255]);
    r.set_clip(0, 0, 10, 10);
    r.clear_clip();
    r.end_frame();
}

#[test]
fn parse_color_cases() {
    assert_eq!(Renderer::parse_color("#ff0000"), [255, 0, 0, 255]);
    assert_eq!(Renderer::parse_color("#1a2B3c80"), [0x1a, 0x2b, 0x3c, 0x80]);
    assert_eq!(Renderer::parse_color("00ff00"), [0, 255, 0, 255]);
    assert_eq!(Renderer::parse_color("##0000ff"), [0, 0, 255, 255]);
    assert_eq!(Renderer::parse_color("#zz0000"), [255, 0, 0, 255]);
    assert_eq!(Renderer::parse_color("#+f0000"), [15, 0, 0, 255]);
    assert_eq!(Renderer::parse_color("#fff"), [255, 255, 255, 255]);
    assert_eq!(Renderer::parse_color(""), [255, 255, 255, 255]);
    assert_eq!(Renderer::parse_color("#-10000"), [255, 0, 0, 255]);
}

fn obj(fields: Vec<(&str, JsonValue)>) -> JsonValue {
    JsonValue::Object(fields.into_iter().map(|(k, v)| (k.to_string(), v)).collect())
}

fn num(n: u64) -> JsonValue {
    JsonValue::Number(JsonNumber::PosInt(n))
}

#[test]
fn draw_list_follows_layers_and_components() {
    let mut rt = LightRuntime::new();
    let mut hero = EntityInstance::new("hero".to_string()).with_layer(2).with_position(5f64.to_bits(), 6f64.to_bits());
    let mut c = Table::new();
    c.insert("text".to_string(), obj(vec![("content", s("hi")), ("size", num(20))]));
    c.insert("sprite".to_string(), obj(vec![("image", s("hero.png"))]));
    c.insert("rect".to_string(), obj(vec![("width", num(10)), ("color", s("#00ff00"))]));
    hero.components = c;
    rt.add_entity(hero);
    rt.add_entity(entity_with("floor", "rect", obj(vec![])).with_layer(1));
    let mut ghost = entity_with("ghost", "rect", obj(vec![]));
    ghost.visible = false;
    rt.add_entity(ghost);
    rt.add_entity(entity_with("broken", "sprite", obj(vec![("image", num(3))])));
    let cmds = rt.draw_list();
    assert_eq!(cmds.len(), 4);
    match &cmds[0] {
        DrawCommand::Rect { width, height, color, .. } => {
            assert!(width.is_none() && height.is_none());
            assert_eq!(color, "#ff0000");
        }
        other => panic!("unexpected {:?}", other),
    }
    match &cmds[1] {
        DrawCommand::Sprite { image, x, y, scale_x, .. } => {
            assert_eq!(image, "hero.png");
            assert_eq!(f64::from_bits(*x), 5.0);
            assert_eq!(f64::from_bits(*y), 6.0);
            assert_eq!(*scale_x, ONE_BITS);
        }
        other => panic!("unexpected {:?}", other),
    }
    match &cmds[2] {
        DrawCommand::Rect { width, height, color, .. } => {
            assert!(matches!(width, Some(JsonNumber::PosInt(10))));
            assert!(height.is_none());
            assert_eq!(color, "#00ff00");
        }
        other => panic!("unexpected {:?}", other),
    }
    match &cmds[3] {
        DrawCommand::Text { content, size, color, .. } => {
            assert_eq!(content, "hi");
            assert!(matches!(size, Some(JsonNumber::PosInt(20))));
            assert_eq!(color, "#ffffff");
        }
        other => panic!("unexpected {:?}", other),
    }
}

#[test]
fn velocities_need_both_numbers() {
    let mut rt = LightRuntime::new();
    rt.add_entity(entity_with("runner", "movement", obj(vec![("vx", num(3)), ("vy", JsonValue::Number(JsonNumber::NegInt(-2)))])));
    rt.add_entity(entity_with("half", "movement", obj(vec![("vx", num(1))])));
    rt.add_entity(entity_with("text", "movement", obj(vec![("vx", s("1")), ("vy", num(1))])));
    let v = rt.velocities();
    assert_eq!(v.len(), 1);
    assert_eq!(v[0].0, "runner");
    assert!(matches!(v[0].1, JsonNumber::PosInt(3)));
    assert!(matches!(v[0].2, JsonNumber::NegInt(-2)));
}

#[test]
fn hover_targets_name_an_action() {
    let mut rt = LightRuntime::new();
    rt.add_entity(entity_with("button", "on_hover", obj(vec![("action", s("hide")), ("width", num(64))])).with_position(1f64.to_bits(), 2f64.to_bits()));
    rt.add_entity(entity_with("mute", "on_hover", obj(vec![("width", num(64))])));
    let t = rt.hover_targets();
    assert_eq!(t.len(), 1);
    assert_eq!(t[0].id, "button");
    assert_eq!(t[0].action, "hide");
    assert!(matches!(t[0].width, Some(JsonNumber::PosInt(64))));
    assert!(t[0].height.is_none());
    assert_eq!(f64::from_bits(t[0].y), 2.0);
}

#[test]
fn light_error_messages() {
    assert_eq!(LightError::Render("x".to_string()).message(), "render error: x");
    assert_eq!(LightError::Scene("y".to_string()).message(), "scene error: y");
    assert_eq!(LightError::AssetNotLoaded("z".to_string()).message(), "asset not loaded: z");
}
