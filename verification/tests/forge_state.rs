use open_forge::clock::Timestamp;
use open_forge::error::ForgeError;
use open_forge::models::{BuildStatus, CreateProjectRequest, CreateSceneRequest, ProjectSettings, Resolution};
use open_forge::script::ScriptError;
use open_forge::state::ForgeState;

fn t(secs: i64) -> Timestamp {
    Timestamp { secs, nanos: 0 }
}

fn req(name: &str) -> CreateProjectRequest {
    CreateProjectRequest { name: name.to_string(), description: None, settings: None }
}

#[test]
fn create_project_defaults() {
    let mut st = ForgeState::new();
    let p = st.create_project_with(req("Space Game"), "1234", t(10)).unwrap();
    assert_eq!(p.id, "proj_1234");
    assert_eq!(p.description, "");
    assert_eq!(p.created_at, t(10));
    assert_eq!(p.settings.resolution, Resolution { width: 1280, height: 720 });
    assert_eq!(p.settings.target_platforms, vec!["web".to_string()]);
    assert!(p.settings.default_scene.is_none());
    assert_eq!(st.get_project("proj_1234").unwrap().name, "Space Game");
    assert_eq!(st.list_projects().len(), 1);
}

#[test]
fn create_project_name_rules() {
    let mut st = ForgeState::new();
    match st.create_project_with(req(""), "u", t(0)) {
        Err(ForgeError::Validation(m)) => assert_eq!(m, "name must be 1-100 chars"),
        _ => panic!("expected a validation error"),
    }
    assert!(st.create_project_with(req(&"a".repeat(100)), "u1", t(0)).is_ok());
    assert!(st.create_project_with(req(&"a".repeat(101)), "u2", t(0)).is_err());
    assert!(st.create_project_with(req(&"é".repeat(100)), "u3", t(0)).is_ok());
    assert!(st.create_project_with(req(&"é".repeat(101)), "u4", t(0)).is_err());
    assert!(st.create_project_with(req(&"游".repeat(34)), "u5", t(0)).is_ok());
    assert_eq!(st.list_projects().len(), 3);
}

#[test]
fn create_project_with_fresh_id() {
    let mut st = ForgeState::new();
    let p = st.create_project(req("Demo")).unwrap();
    assert!(p.id.starts_with("proj_"));
    assert_eq!(p.id.len(), 41);
    assert_eq!(&p.id[13..14], "-");
    let q = st.create_project(req("Demo")).unwrap();
    assert_ne!(p.id, q.id);
}

#[test]
fn update_and_delete_project() {
    let mut st = ForgeState::new();
    st.create_project_with(req("Old"), "x", t(1)).unwrap();
    let settings = ProjectSettings { default_scene: Some("s1".to_string()), resolution: Resolution { width: 800, height: 600 }, target_platforms: vec![] };
    let upd = CreateProjectRequest { name: "New".to_string(), description: Some("d".to_string()), settings: Some(settings) };
    let p = st.update_project_with("proj_x", upd, t(5)).unwrap();
    assert_eq!((p.name.as_str(), p.description.as_str()), ("New", "d"));
    assert_eq!(p.created_at, t(1));
    assert_eq!(p.updated_at, t(5));
    assert_eq!(p.settings.resolution.width, 800);
    let p = st.update_project_with("proj_x", req("Newer"), t(6)).unwrap();
    assert_eq!(p.settings.resolution.width, 800);
    assert_eq!(p.description, "");
    match st.update_project_with("proj_y", req("z"), t(7)) {
        Err(ForgeError::NotFound(m)) => assert_eq!(m, "project proj_y"),
        _ => panic!("expected not found"),
    }
    assert!(st.delete_project("proj_x").is_ok());
    assert!(matches!(st.delete_project("proj_x"), Err(ForgeError::NotFound(_))));
    assert!(st.get_project("proj_x").is_err());
}

#[test]
fn scenes_need_project_and_valid_yaml() {
    let mut st = ForgeState::new();
    let sreq = || CreateSceneRequest { name: "Main".to_string(), yaml_content: "scene: main".to_string() };
    match st.create_scene_with("proj_none", sreq(), Ok(()), "s", t(0)) {
        Err(ForgeError::NotFound(m)) => assert_eq!(m, "project proj_none"),
        _ => panic!("expected not found"),
    }
    st.create_project_with(req("P"), "p", t(0)).unwrap();
    match st.create_scene_with("proj_p", sreq(), Err(ScriptError::Validation("scene name cannot be empty".to_string())), "s", t(0)) {
        Err(ForgeError::Validation(m)) => assert_eq!(m, "invalid YAML: validation error: scene name cannot be empty"),
        _ => panic!("expected a validation error"),
    }
    let sc = st.create_scene_with("proj_p", sreq(), Ok(()), "s1", t(3)).unwrap();
    assert_eq!(sc.id, "scene_s1");
    assert_eq!(sc.project_id, "proj_p");
    st.create_scene_with("proj_p", sreq(), Ok(()), "s2", t(4)).unwrap();
    assert_eq!(st.list_scenes("proj_p").len(), 2);
    assert!(st.list_scenes("proj_q").is_empty());
    let upd = CreateSceneRequest { name: "Renamed".to_string(), yaml_content: "scene: b".to_string() };
    let sc = st.update_scene_with("scene_s1", upd, Ok(()), t(9)).unwrap();
    assert_eq!(sc.name, "Renamed");
    assert_eq!(sc.created_at, t(3));
    assert_eq!(sc.updated_at, t(9));
    assert!(matches!(st.update_scene_with("scene_zz", sreq(), Ok(()), t(9)), Err(ForgeError::NotFound(_))));
    assert!(matches!(
        st.update_scene_with("scene_zz", sreq(), Err(ScriptError::Validation("x".to_string())), t(9)),
        Err(ForgeError::Validation(_))
    ));
    assert!(st.delete_scene("scene_s1").is_ok());
    match st.get_scene("scene_s1") {
        Err(ForgeError::NotFound(m)) => assert_eq!(m, "scene scene_s1"),
        _ => panic!("expected not found"),
    }
}

#[test]
fn builds_start_pending() {
    let mut st = ForgeState::new();
    assert!(matches!(st.start_build_with("proj_a", "b", t(0)), Err(ForgeError::NotFound(_))));
    st.create_project_with(req("A"), "a", t(0)).unwrap();
    let b = st.start_build_with("proj_a", "b1", t(2)).unwrap();
    assert_eq!(b.id, "build_b1");
    assert_eq!(b.status, BuildStatus::Pending);
    assert_eq!(b.progress, 0);
    assert!(b.output_url.is_none() && b.completed_at.is_none() && b.error.is_none());
    assert_eq!(st.get_build("build_b1").unwrap().project_id, "proj_a");
    match st.get_build("build_x") {
        Err(ForgeError::NotFound(m)) => assert_eq!(m, "build build_x"),
        _ => panic!("expected not found"),
    }
    let b = st.start_build("proj_a").unwrap();
    assert!(b.id.starts_with("build_"));
}

#[test]
fn load_projects_later_wins() {
    let mut a = ForgeState::new();
    let p1 = a.create_project_with(req("First"), "x", t(0)).unwrap();
    let p2 = a.create_project_with(req("Second"), "x", t(1)).unwrap();
    let p3 = a.create_project_with(req("Other"), "y", t(2)).unwrap();
    let mut st = ForgeState::new();
    st.load_projects(vec![p1, p2, p3]);
    assert_eq!(st.get_project("proj_x").unwrap().name, "Second");
    assert_eq!(st.list_projects().len(), 2);
}

#[test]
fn forge_error_answers() {
    assert_eq!(ForgeError::NotFound("project p".to_string()).status_and_code(), (404, "NOT_FOUND"));
    assert_eq!(ForgeError::Validation("v".to_string()).status_and_code(), (400, "VALIDATION_ERROR"));
    assert_eq!(ForgeError::Unauthorized.status_and_code(), (401, "UNAUTHORIZED"));
    assert_eq!(ForgeError::Internal("i".to_string()).status_and_code(), (500, "INTERNAL_ERROR"));
    assert_eq!(ForgeError::BuildFailed("b".to_string()).status_and_code(), (500, "BUILD_FAILED"));
    assert_eq!(ForgeError::RuntimeError("r".to_string()).status_and_code(), (500, "RUNTIME_ERROR"));
    assert_eq!(ForgeError::NotFound("project p".to_string()).message(), "not found: project p");
    assert_eq!(ForgeError::Unauthorized.message(), "unauthorized");
}

#[test]
fn yaml_parse_error_text() {
    let mut st = ForgeState::new();
    st.create_project_with(req("P"), "p", t(0)).unwrap();
    let err = serde_yaml::from_str::<serde_yaml::Value>("a: [1").unwrap_err();
    let sreq = CreateSceneRequest { name: "Main".to_string(), yaml_content: "a: [1".to_string() };
    match st.create_scene_with("proj_p", sreq, Err(ScriptError::YamlParse(err)), "s", t(0)) {
        Err(ForgeError::Validation(m)) => assert!(m.starts_with("invalid YAML: YAML parse error: "), "{m}"),
        _ => panic!("expected a validation error"),
    }
    assert!(st.list_scenes("proj_p").is_empty());
}

#[test]
fn projects_listed_in_creation_order() {
    let mut st = ForgeState::new();
    st.create_project_with(req("A"), "a", t(0)).unwrap();
    st.create_project_with(req("B"), "b", t(0)).unwrap();
    st.create_project_with(req("C"), "c", t(0)).unwrap();
    st.delete_project("proj_b").unwrap();
    let names: Vec<&str> = st.list_projects().iter().map(|p| p.name.as_str()).collect();
    assert_eq!(names, vec!["A", "C"]);
}

#[test]
fn records_save_and_load_back() {
    let mut st = ForgeState::new();
    st.create_project_with(req("A"), "a", t(1)).unwrap();
    st.create_project_with(req("B"), "b", t(2)).unwrap();
    st.start_build_with("proj_a", "x", t(3)).unwrap();
    let projects: Vec<_> = st.list_projects().into_iter().map(|p| p.duplicate()).collect();
    let builds: Vec<_> = st.all_builds().into_iter().map(|b| b.duplicate()).collect();
    let mut fresh = ForgeState::new();
    fresh.load_projects(projects);
    fresh.load_builds(builds);
    assert_eq!(fresh.list_projects().len(), 2);
    assert_eq!(fresh.get_project("proj_b").unwrap().name, "B");
    assert_eq!(fresh.get_build("build_x").unwrap().project_id, "proj_a");
    assert!(fresh.all_entities().is_empty());
    assert!(fresh.all_assets().is_empty());
}
