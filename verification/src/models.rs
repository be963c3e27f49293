//! Forge core's records: projects, scenes, builds, entities and assets.
//!
//! Coordinates are `f64` values held as their IEEE-754 bit patterns.

use crate::clock::Timestamp;
use crate::json::JsonValue;
use crate::table::Keyed;
use vstd::prelude::*;

verus! {

/// A game project.
#[derive(Debug)]
pub struct Project {
    pub id: String,
    pub name: String,
    pub description: String,
    pub created_at: Timestamp,
    pub updated_at: Timestamp,
    pub settings: ProjectSettings,
}

/// A project's settings.
#[derive(Debug)]
pub struct ProjectSettings {
    pub default_scene: Option<String>,
    pub resolution: Resolution,
    pub target_platforms: Vec<String>,
}

/// A screen resolution.
#[derive(Debug, Clone, Copy, PartialEq, Eq, Structural)]
pub struct Resolution {
    pub width: u32,
    pub height: u32,
}

/// The settings a project gets when it is created without any: no default
/// scene, 1280x720, the web as the only target platform.
pub open spec fn is_default_settings(s: ProjectSettings) -> bool {
    &&& s.default_scene is None
    &&& s.resolution == (Resolution { width: 1280, height: 720 })
    &&& s.target_platforms@.len() == 1
    &&& s.target_platforms@[0]@ == "web"@
}

impl ProjectSettings {
    /// The settings of a project created without any.
    pub fn default_settings() -> (s: Self)
        ensures
            is_default_settings(s),
    {
        let mut platforms: Vec<String> = Vec::new();
        platforms.push(String::from_str("web"));
        ProjectSettings {
            default_scene: None,
            resolution: Resolution { width: 1280, height: 720 },
            target_platforms: platforms,
        }
    }
}

/// A request to create (or update) a project.
#[derive(Debug)]
pub struct CreateProjectRequest {
    pub name: String,
    pub description: Option<String>,
    pub settings: Option<ProjectSettings>,
}

/// A scene of a project, written in YAML.
#[derive(Debug)]
pub struct Scene {
    pub id: String,
    pub project_id: String,
    pub name: String,
    pub yaml_content: String,
    pub created_at: Timestamp,
    pub updated_at: Timestamp,
}

/// A request to create (or update) a scene.
#[derive(Debug)]
pub struct CreateSceneRequest {
    pub name: String,
    pub yaml_content: String,
}

/// A build of a project.
#[derive(Debug)]
pub struct Build {
    pub id: String,
    pub project_id: String,
    pub status: BuildStatus,
    pub progress: u8,
    pub output_url: Option<String>,
    pub created_at: Timestamp,
    pub completed_at: Option<Timestamp>,
    pub error: Option<String>,
}

/// The state of a build.
#[derive(Debug, Clone, Copy, PartialEq, Eq, Structural)]
pub enum BuildStatus {
    Pending,
    Building,
    Completed,
    Failed,
}

/// An entity of a scene.
#[derive(Debug)]
pub struct Entity {
    pub id: String,
    pub scene_id: String,
    pub name: String,
    pub entity_type: String,
    pub components: JsonValue,
    pub position: Option<Vec3>,
    pub rotation: Option<Vec3>,
    pub scale: Option<Vec3>,
    pub parent_id: Option<String>,
}

/// A point or vector; each coordinate is the bit pattern of an `f64`.
#[derive(Debug, Clone, Copy, PartialEq, Eq, Structural)]
pub struct Vec3 {
    pub x: u64,
    pub y: u64,
    pub z: Option<u64>,
}

/// A request to create an entity.
#[derive(Debug)]
pub struct CreateEntityRequest {
    pub name: String,
    pub entity_type: Option<String>,
    pub components: Option<JsonValue>,
    pub position: Option<Vec3>,
    pub rotation: Option<Vec3>,
    pub scale: Option<Vec3>,
    pub parent_id: Option<String>,
}

/// An asset of a project.
#[derive(Debug)]
pub struct Asset {
    pub id: String,
    pub name: String,
    pub asset_type: String,
    pub url: String,
    pub size: u64,
    pub created_at: Timestamp,
}

/// A request to create an asset.
#[derive(Debug)]
pub struct CreateAssetRequest {
    pub name: String,
    pub asset_type: String,
    pub url: String,
    pub size: Option<u64>,
}

impl Keyed for Project {
    open spec fn spec_key(&self) -> Seq<char> {
        self.id@
    }

    fn key(&self) -> (k: String) {
        self.id.clone()
    }
}

impl Keyed for Scene {
    open spec fn spec_key(&self) -> Seq<char> {
        self.id@
    }

    fn key(&self) -> (k: String) {
        self.id.clone()
    }
}

impl Keyed for Build {
    open spec fn spec_key(&self) -> Seq<char> {
        self.id@
    }

    fn key(&self) -> (k: String) {
        self.id.clone()
    }
}

impl Keyed for Entity {
    open spec fn spec_key(&self) -> Seq<char> {
        self.id@
    }

    fn key(&self) -> (k: String) {
        self.id.clone()
    }
}

impl Keyed for Asset {
    open spec fn spec_key(&self) -> Seq<char> {
        self.id@
    }

    fn key(&self) -> (k: String) {
        self.id.clone()
    }
}

} // verus!
