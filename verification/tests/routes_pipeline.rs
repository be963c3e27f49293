use open_forge::clock::Timestamp;
use open_forge::json::{JsonNumber, JsonValue};
use open_forge::pipeline::{BuildError, BuildManifest, BuildPipeline, BuildTarget, JS_HEAD, JS_TAIL};
use open_forge::routes::{
    health, AppState, CreateProjectRequest, CreateSceneRequest, UpdateProjectRequest, UpdateSceneRequest, NOT_FOUND,
};
use open_forge::table::Table;

#[test]
fn health_body() {
    assert_eq!(health(), r#"{"status":"ok","version":"0.1.0"}"#);
}

#[test]
fn project_crud() {
    let mut st = AppState::new();
    let p = st.create_project(CreateProjectRequest { name: "A".to_string(), description: "first".to_string() });
    assert_eq!(p.id.len(), 36);
    assert_eq!(st.get_project(&p.id).unwrap().name, "A");
    assert_eq!(st.list_projects().len(), 1);
    let upd = st.update_project(&p.id, UpdateProjectRequest { name: None, description: Some("changed".to_string()) }).unwrap();
    assert_eq!((upd.name.as_str(), upd.description.as_str()), ("A", "changed"));
    assert_eq!(upd.created_at, p.created_at);
    assert_eq!(st.update_project("nope", UpdateProjectRequest { name: None, description: None }).unwrap_err(), NOT_FOUND);
    assert_eq!(st.get_project("nope").unwrap_err(), 404);
    assert!(st.delete_project(&p.id).is_ok());
    assert_eq!(st.delete_project(&p.id), Err(404));
}

#[test]
fn project_with_fixed_values() {
    let mut st = AppState::default();
    let p = st.create_project_with(
        CreateProjectRequest { name: "N".to_string(), description: "D".to_string() },
        "id-1".to_string(),
        "t0".to_string(),
        "t1".to_string(),
    );
    assert_eq!((p.id.as_str(), p.created_at.as_str(), p.updated_at.as_str()), ("id-1", "t0", "t1"));
    let p = st.update_project_with("id-1", UpdateProjectRequest { name: Some("M".to_string()), description: None }, "t2".to_string()).unwrap();
    assert_eq!((p.name.as_str(), p.description.as_str(), p.updated_at.as_str()), ("M", "D", "t2"));
}

#[test]
fn scene_crud() {
    let mut st = AppState::new();
    let a = st.create_scene(CreateSceneRequest { project_id: "p1".to_string(), name: "s1".to_string(), description: "".to_string() });
    let b = st.create_scene_for_project("p2".to_string(), CreateSceneRequest { project_id: "ignored".to_string(), name: "s2".to_string(), description: "".to_string() });
    assert_eq!(b.project_id, "p2");
    st.create_scene_with("p1".to_string(), "s3".to_string(), "d".to_string(), "fixed".to_string(), "t".to_string(), "t".to_string());
    assert_eq!(st.list_scenes().len(), 3);
    let names: Vec<String> = st.list_scenes_by_project("p1").into_iter().map(|s| s.name).collect();
    assert_eq!(names, vec!["s1".to_string(), "s3".to_string()]);
    let s = st.update_scene(&a.id, UpdateSceneRequest { name: Some("renamed".to_string()), description: None }).unwrap();
    assert_eq!(s.name, "renamed");
    assert_eq!(st.get_scene(&a.id).unwrap().name, "renamed");
    let s = st.update_scene_with("fixed", UpdateSceneRequest { name: None, description: Some("x".to_string()) }, "u".to_string()).unwrap();
    assert_eq!((s.description.as_str(), s.updated_at.as_str()), ("x", "u"));
    assert_eq!(st.get_scene("nope").unwrap_err(), 404);
    assert!(st.update_scene("nope", UpdateSceneRequest { name: None, description: None }).is_err());
    assert!(st.delete_scene("fixed").is_ok());
    assert!(st.delete_scene("fixed").is_err());
}

fn manifest(target: BuildTarget, config: Table<JsonValue>) -> BuildManifest {
    BuildManifest {
        build_id: "b42".to_string(),
        project_id: "p".to_string(),
        project_name: "My Game".to_string(),
        target,
        scene_ids: vec![],
        scenes: vec![],
        config,
        created_at: Timestamp { secs: 0, nanos: 0 },
    }
}

#[test]
fn html_page_dimensions() {
    let p = BuildPipeline::new("/out");
    let html = p.generate_html(&manifest(BuildTarget::Web, Table::new()));
    assert!(html.starts_with("<!DOCTYPE html>\n<html lang=\"zh-CN\">"));
    assert!(html.contains("<title>My Game</title>"));
    assert!(html.contains("<canvas id=\"game-canvas\" width=\"800\" height=\"600\"></canvas>"));
    assert!(html.contains("* { margin: 0; padding: 0; box-sizing: border-box; }"));
    assert!(html.ends_with("</html>\n"));
    let mut cfg = Table::new();
    cfg.insert("width".to_string(), JsonValue::Number(JsonNumber::PosInt(1024)));
    cfg.insert("height".to_string(), JsonValue::String("tall".to_string()));
    let html = p.generate_html(&manifest(BuildTarget::Web, cfg));
    assert!(html.contains("width=\"1024\" height=\"600\""));
}

#[test]
fn game_script_carries_scenes() {
    let p = BuildPipeline::new("/out");
    let js = p.generate_game_js("[{\"id\":\"s\"}]");
    assert!(js.starts_with("(function() {\n    // OpenForge Runtime"));
    assert!(js.contains("const scenes = [{\"id\":\"s\"}];"));
    assert_eq!(js, format!("{}{}{}", JS_HEAD, "[{\"id\":\"s\"}]", JS_TAIL));
    assert!(js.ends_with("})();\n"));
}

#[test]
fn targets_and_paths() {
    let p = BuildPipeline::new("/out");
    assert!(p.check_target(&manifest(BuildTarget::Web, Table::new())).is_ok());
    match p.check_target(&manifest(BuildTarget::WechatMini, Table::new())) {
        Err(BuildError::UnsupportedTarget(n)) => assert_eq!(n, "WechatMini"),
        _ => panic!("expected unsupported"),
    }
    assert_eq!(BuildTarget::Desktop.name(), format!("{:?}", BuildTarget::Desktop));
    let m = manifest(BuildTarget::Web, Table::new());
    assert_eq!(p.output_path(&m), "/out/b42");
    let r = p.web_result(&m, "/out/b42".to_string(), 99);
    assert!(r.success);
    assert_eq!(r.output_size, Some(99));
    assert_eq!(r.duration_ms, 0);
    assert_eq!(r.build_id, "b42");
}
