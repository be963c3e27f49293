//! The build pipeline: turns a project's scenes into a runnable package.
//!
//! Phase 1 targets an HTML5 web package: an `index.html` page holding a
//! canvas of the configured size (800x600 unless the build configuration
//! says otherwise) and a `game.js` runtime carrying the scene data.  Other
//! targets (WeChat and Douyin mini games, desktop) are not supported yet.
//! Entity coordinates are `f64` values held as their IEEE-754 bit patterns.

use crate::clock::Timestamp;
use crate::json::JsonValue;
use crate::table::Table;
use crate::text::{decimal, u64_to_decimal};
use vstd::prelude::*;

verus! {

/// The I/O error type of std, carried opaquely.
#[verifier::external_type_specification]
#[verifier::external_body]
pub struct ExIoError(std::io::Error);

/// The platform a build targets.
#[derive(Debug, Clone, Copy, PartialEq, Eq, Structural)]
pub enum BuildTarget {
    /// An HTML5 web package.
    Web,
    /// A WeChat mini game.
    WechatMini,
    /// A Douyin mini game.
    DouyinMini,
    /// A desktop application.
    Desktop,
}

impl BuildTarget {
    /// The target's name, as its `Debug` form prints it.
    pub open spec fn spec_name(&self) -> Seq<char> {
        match self {
            BuildTarget::Web => "Web"@,
            BuildTarget::WechatMini => "WechatMini"@,
            BuildTarget::DouyinMini => "DouyinMini"@,
            BuildTarget::Desktop => "Desktop"@,
        }
    }

    /// The target's name.
    pub fn name(&self) -> (s: &'static str)
        ensures
            s@ == self.spec_name(),
    {
        match self {
            BuildTarget::Web => "Web",
            BuildTarget::WechatMini => "WechatMini",
            BuildTarget::DouyinMini => "DouyinMini",
            BuildTarget::Desktop => "Desktop",
        }
    }
}

/// Why a build failed.
#[derive(Debug)]
pub enum BuildError {
    CompilationFailed(String),
    PackagingFailed(String),
    UnsupportedTarget(String),
    Io(std::io::Error),
}

/// What a build is made from.
#[derive(Debug)]
pub struct BuildManifest {
    pub build_id: String,
    pub project_id: String,
    pub project_name: String,
    pub target: BuildTarget,
    pub scene_ids: Vec<String>,
    pub scenes: Vec<SceneData>,
    /// Build settings by name (`width`, `height`, ...).
    pub config: Table<JsonValue>,
    pub created_at: Timestamp,
}

/// A scene as a build packages it.
#[derive(Debug)]
pub struct SceneData {
    pub id: String,
    pub name: String,
    pub entities: Vec<EntityData>,
}

/// An entity as a build packages it.
#[derive(Debug)]
pub struct EntityData {
    pub id: String,
    /// Horizontal position (bits of an `f64`).
    pub x: u64,
    /// Vertical position (bits of an `f64`).
    pub y: u64,
    pub visible: bool,
    pub components: Table<JsonValue>,
}

/// The outcome of a build.
#[derive(Debug, Clone)]
pub struct BuildResult {
    pub build_id: String,
    pub success: bool,
    pub output_path: Option<String>,
    pub output_size: Option<u64>,
    pub error: Option<String>,
    pub duration_ms: u64,
}

/// The page text before the title.
pub const HTML_HEAD: &'static str = "<!DOCTYPE html>\n<html lang=\"zh-CN\">\n<head>\n    <meta charset=\"UTF-8\">\n    <meta name=\"viewport\" content=\"width=device-width, initial-scale=1.0\">\n    <title>";

/// The page text between the title and the canvas width.
pub const HTML_MIDDLE: &'static str = "</title>\n    <style>\n        * { margin: 0; padding: 0; box-sizing: border-box; }\n        body {\n            background: #000;\n            display: flex;\n            justify-content: center;\n            align-items: center;\n            min-height: 100vh;\n            font-family: Arial, sans-serif;\n        }\n        #game-canvas {\n            background: #1a1a2e;\n            border: 2px solid #e94560;\n        }\n    </style>\n</head>\n<body>\n    <canvas id=\"game-canvas\" width=\"";

/// The page text between the canvas width and height.
pub const HTML_BETWEEN: &'static str = "\" height=\"";

/// The page text after the canvas height.
pub const HTML_TAIL: &'static str = "\"></canvas>\n    <script src=\"game.js\"></script>\n</body>\n</html>\n";

/// The runtime script before the scene data.
pub const JS_HEAD: &'static str = "(function() {\n    // OpenForge Runtime\n    const canvas = document.getElementById('game-canvas');\n    const ctx = canvas.getContext('2d');\n    \n    // 游戏状态\n    let currentScene = null;\n    let entities = [];\n    let lastTime = 0;\n    let frameCount = 0;\n    let fps = 0;\n    \n    // 场景数据\n    const scenes = ";

/// The runtime script after the scene data.
pub const JS_TAIL: &'static str = ";\n    \n    // 初始化\n    function init() {\n        if (scenes.length > 0) {\n            loadScene(scenes[0]);\n        }\n        requestAnimationFrame(gameLoop);\n    }\n    \n    // 加载场景\n    function loadScene(scene) {\n        currentScene = scene;\n        entities = scene.entities || [];\n        console.log('Loaded scene:', scene.name);\n    }\n    \n    // 游戏循环\n    function gameLoop(timestamp) {\n        // FPS 计算\n        frameCount++;\n        if (timestamp - lastTime >= 1000) {\n            fps = frameCount;\n            frameCount = 0;\n            lastTime = timestamp;\n        }\n        \n        // 更新\n        update();\n        \n        // 渲染\n        render();\n        \n        requestAnimationFrame(gameLoop);\n    }\n    \n    // 更新\n    function update() {\n        entities.forEach(entity => {\n            if (entity.components && entity.components.movement) {\n                const m = entity.components.movement;\n                if (m.vx) entity.x += m.vx;\n                if (m.vy) entity.y += m.vy;\n            }\n        });\n    }\n    \n    // 渲染\n    function render() {\n        // 清空画布\n        ctx.fillStyle = '#1a1a2e';\n        ctx.fillRect(0, 0, canvas.width, canvas.height);\n        \n        // 绘制实体\n        entities.forEach(entity => {\n            if (!entity.visible) return;\n            \n            // 绘制矩形\n            if (entity.components && entity.components.rect) {\n                const rect = entity.components.rect;\n                ctx.fillStyle = rect.color || '#e94560';\n                ctx.fillRect(entity.x, entity.y, rect.width || 50, rect.height || 50);\n            }\n            \n            // 绘制精灵\n            if (entity.components && entity.components.sprite) {\n                const sprite = entity.components.sprite;\n                ctx.fillStyle = sprite.color || '#4caf50';\n                ctx.beginPath();\n                ctx.arc(entity.x, entity.y, sprite.radius || 20, 0, Math.PI * 2);\n                ctx.fill();\n            }\n            \n            // 绘制文字\n            if (entity.components && entity.components.text) {\n                const text = entity.components.text;\n                ctx.fillStyle = text.color || '#fff';\n                ctx.font = (text.size || 16) + 'px Arial';\n                ctx.fillText(text.content || '', entity.x, entity.y);\n            }\n        });\n        \n        // 绘制标题\n        if (currentScene) {\n            ctx.fillStyle = '#e94560';\n            ctx.font = '24px Arial';\n            ctx.fillText(currentScene.name || 'OpenForge Game', 20, 40);\n            ctx.fillStyle = '#888';\n            ctx.font = '14px Arial';\n            ctx.fillText('FPS: ' + fps, 20, 65);\n        }\n    }\n    \n    // 启动\n    init();\n})();\n";

/// A dimension of the canvas: the configured setting when it is a
/// non-negative integer, else the default.
pub open spec fn dimension(config: Map<Seq<char>, JsonValue>, key: Seq<char>, default: u64) -> u64 {
    if config.contains_key(key) {
        match config[key].spec_as_u64() {
            Some(v) => v,
            None => default,
        }
    } else {
        default
    }
}

/// The page of a web package.
pub open spec fn html_page(title: Seq<char>, width: u64, height: u64) -> Seq<char> {
    HTML_HEAD@ + title + HTML_MIDDLE@ + decimal(width as nat) + HTML_BETWEEN@ + decimal(height as nat)
        + HTML_TAIL@
}

/// The runtime script of a web package, carrying the scenes as JSON.
pub open spec fn game_script(scenes_json: Seq<char>) -> Seq<char> {
    JS_HEAD@ + scenes_json + JS_TAIL@
}

/// The build pipeline, writing packages under its output directory.
pub struct BuildPipeline {
    output_dir: String,
}

impl BuildPipeline {
    /// The directory packages are written under.
    pub closed spec fn output_dir(&self) -> Seq<char> {
        self.output_dir@
    }

    /// A pipeline writing under `output_dir`.
    pub fn new(output_dir: &str) -> (p: Self)
        ensures
            p.output_dir() == output_dir@,
    {
        BuildPipeline { output_dir: String::from_str(output_dir) }
    }

    /// Whether the manifest's target can be built: only the web is;
    /// another target is `UnsupportedTarget` with its name.
    pub fn check_target(&self, manifest: &BuildManifest) -> (r: Result<(), BuildError>)
        ensures
            manifest.target == BuildTarget::Web ==> r is Ok,
            manifest.target != BuildTarget::Web ==> (r matches Err(BuildError::UnsupportedTarget(n))
                && n@ == manifest.target.spec_name()),
    {
        match manifest.target {
            BuildTarget::Web => Ok(()),
            _ => Err(BuildError::UnsupportedTarget(String::from_str(manifest.target.name()))),
        }
    }

    /// Where a build's package goes: `<output dir>/<build id>`.
    pub fn output_path(&self, manifest: &BuildManifest) -> (p: String)
        ensures
            p@ == self.output_dir() + "/"@ + manifest.build_id@,
    {
        self.output_dir.clone().concat("/").concat(manifest.build_id.as_str())
    }

    /// The page of a web package: titled with the project's name, with a
    /// canvas as wide and high as the configuration says (800 by 600 by
    /// default).
    pub fn generate_html(&self, manifest: &BuildManifest) -> (s: String)
        requires
            manifest.config.wf(),
        ensures
            s@ == html_page(
                manifest.project_name@,
                dimension(manifest.config@, "width"@, 800),
                dimension(manifest.config@, "height"@, 600),
            ),
    {
        let width = match manifest.config.get("width") {
            Some(v) => match v.as_u64() {
                Some(w) => w,
                None => 800,
            },
            None => 800,
        };
        let height = match manifest.config.get("height") {
            Some(v) => match v.as_u64() {
                Some(h) => h,
                None => 600,
            },
            None => 600,
        };
        let w = u64_to_decimal(width);
        let h = u64_to_decimal(height);
        String::from_str(HTML_HEAD).concat(manifest.project_name.as_str()).concat(HTML_MIDDLE).concat(
            w.as_str(),
        ).concat(HTML_BETWEEN).concat(h.as_str()).concat(HTML_TAIL)
    }

    /// The runtime script of a web package, carrying the scenes as JSON
    /// text (`scenes_json`).
    pub fn generate_game_js(&self, scenes_json: &str) -> (s: String)
        ensures
            s@ == game_script(scenes_json@),
    {
        String::from_str(JS_HEAD).concat(scenes_json).concat(JS_TAIL)
    }

    /// The outcome of a web build written to `output_path` with
    /// `output_size` bytes; its duration is filled in by the caller.
    pub fn web_result(&self, manifest: &BuildManifest, output_path: String, output_size: u64) -> (r: BuildResult)
        ensures
            r.build_id@ == manifest.build_id@,
            r.success,
            r.output_path == Some(output_path),
            r.output_size == Some(output_size),
            r.error is None,
            r.duration_ms == 0,
    {
        BuildResult {
            build_id: manifest.build_id.clone(),
            success: true,
            output_path: Some(output_path),
            output_size: Some(output_size),
            error: None,
            duration_ms: 0,
        }
    }
}

} // verus!
