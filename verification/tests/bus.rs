use std::cell::RefCell;

use open_forge::bus::{event_passes, msg_matches_project, BusMessage, BusMessageHandler, ForgeBus, WsParams};

struct Recorder {
    name: &'static str,
    log: std::rc::Rc<RefCell<Vec<String>>>,
}

impl BusMessageHandler for Recorder {
    fn handle(&self, message: &BusMessage) {
        self.log.borrow_mut().push(format!("{}:{}", self.name, message.type_tag()));
    }
}

fn created(p: &str) -> BusMessage {
    BusMessage::ProjectCreated { project_id: p.to_string() }
}

#[test]
fn type_tags() {
    assert_eq!(created("p").type_tag(), "project_created");
    let m = BusMessage::RuntimeUpdate { project_id: "p".to_string(), frame: 3, delta_time: 0.016f64.to_bits() };
    assert_eq!(m.type_tag(), "runtime_update");
    let m = BusMessage::ExtensionRegistered { extension_type: "action".to_string(), name: "jump".to_string() };
    assert_eq!(m.type_tag(), "extension_registered");
    let m = BusMessage::BuildProgress { project_id: "p".to_string(), build_id: "b".to_string(), percent: 50, step: "pack".to_string() };
    assert_eq!(m.type_tag(), "build_progress");
}

#[test]
fn project_filter() {
    assert!(msg_matches_project(&created("p1"), "p1"));
    assert!(!msg_matches_project(&created("p1"), "p2"));
    let node = BusMessage::NodeAdded { scene_id: "s".to_string(), node_id: "n".to_string(), parent_id: None };
    assert!(msg_matches_project(&node, "anything"));
    let scene = BusMessage::SceneDeleted { project_id: "p9".to_string(), scene_id: "s".to_string() };
    assert!(msg_matches_project(&scene, "p9"));
    assert!(!msg_matches_project(&scene, "p8"));
    assert_eq!(scene.project_id().map(|s| s.as_str()), Some("p9"));
    assert!(node.project_id().is_none());
}

#[test]
fn publish_reaches_type_then_wildcard_handlers() {
    let log = std::rc::Rc::new(RefCell::new(Vec::new()));
    let mut bus: ForgeBus<Recorder> = ForgeBus::new();
    bus.subscribe("*".to_string(), Recorder { name: "all", log: log.clone() });
    bus.subscribe("project_created".to_string(), Recorder { name: "first", log: log.clone() });
    bus.subscribe("project_created".to_string(), Recorder { name: "second", log: log.clone() });
    bus.subscribe("scene_created".to_string(), Recorder { name: "scenes", log: log.clone() });
    bus.publish(&created("p"));
    assert_eq!(
        *log.borrow(),
        vec!["first:project_created", "second:project_created", "all:project_created"]
    );
    assert_eq!(bus.handlers_for(&created("q")).len(), 3);
}

#[test]
fn unsubscribe_removes_type_handlers() {
    let log = std::rc::Rc::new(RefCell::new(Vec::new()));
    let mut bus: ForgeBus<Recorder> = ForgeBus::default();
    bus.subscribe("project_created".to_string(), Recorder { name: "one", log: log.clone() });
    bus.unsubscribe("project_created");
    bus.publish(&created("p"));
    assert!(log.borrow().is_empty());
    assert!(bus.handlers_for(&created("p")).is_empty());
}

#[test]
fn event_stream_filter() {
    let mine = BusMessage::SceneCreated { project_id: "p1".to_string(), scene_id: "s".to_string() };
    let other = BusMessage::ProjectDeleted { project_id: "p2".to_string() };
    let global = BusMessage::NodeDeleted { scene_id: "s".to_string(), node_id: "n".to_string() };
    let filter = Some("p1".to_string());
    assert!(event_passes(&filter, &mine));
    assert!(!event_passes(&filter, &other));
    assert!(event_passes(&filter, &global));
    assert!(event_passes(&None, &other));
    let params = WsParams { token: "t".to_string(), project_id: None };
    assert!(event_passes(&params.project_id, &other));
}
