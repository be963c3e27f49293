//! Script forge: scene definitions written in YAML or JSON, and the checks
//! a definition must pass before it runs.
//!
//! A scene needs a name, and its entity ids must be distinct.  Positions,
//! rotations and scales are `f64` values, held as their IEEE-754 bit
//! patterns.

use crate::json::JsonValue;
use crate::text::str_eq;
use vstd::prelude::*;

verus! {

/// serde_yaml's error type, carried opaquely.
#[verifier::external_type_specification]
#[verifier::external_body]
pub struct ExYamlError(serde_yaml::Error);

/// serde_json's error type, carried opaquely.
#[verifier::external_type_specification]
#[verifier::external_body]
pub struct ExJsonError(serde_json::Error);

/// The text of a YAML error: its `Display` output.  Nothing is claimed of it.
#[verifier::external_body]
fn yaml_error_text(e: &serde_yaml::Error) -> String {
    e.to_string()
}

/// The text of a JSON error: its `Display` output.  Nothing is claimed of it.
#[verifier::external_body]
fn json_error_text(e: &serde_json::Error) -> String {
    e.to_string()
}

/// A scene definition.
#[derive(Debug)]
pub struct SceneDefinition {
    /// The scene's name.
    pub scene: String,
    /// The scene's entities.
    pub entities: Vec<EntityDefinition>,
    /// The scene's triggers.
    pub triggers: Vec<Trigger>,
}

/// An entity definition.
#[derive(Debug)]
pub struct EntityDefinition {
    /// The entity's id, unique in its scene.
    pub id: String,
    /// The entity's type (sprite, text, tilemap, ...).
    pub entity_type: String,
    /// Initial position `[x, y]` (bits of `f64`s).
    pub position: [u64; 2],
    /// Rotation in degrees (bits of an `f64`).
    pub rotation: u64,
    /// Scale `[x, y]` (bits of `f64`s).
    pub scale: [u64; 2],
    /// The entity's components.
    pub components: Vec<ComponentDefinition>,
}

/// A component definition: its type and free-form parameters.
#[derive(Debug)]
pub struct ComponentDefinition {
    pub component_type: String,
    pub params: JsonValue,
}

/// A trigger: when the condition holds, the actions run.
#[derive(Debug)]
pub struct Trigger {
    pub condition: ConditionExpr,
    pub action: Vec<TriggerAction>,
    /// Whether the trigger fires only once.
    pub once: bool,
}

/// A condition: its type and parameters.
#[derive(Debug)]
pub struct ConditionExpr {
    pub condition_type: String,
    pub params: JsonValue,
}

/// An action a trigger runs: its type, the entity it targets, parameters.
#[derive(Debug)]
pub struct TriggerAction {
    pub action_type: String,
    pub target: Option<String>,
    pub params: JsonValue,
}

/// Why a scene could not be compiled.
#[derive(Debug)]
pub enum ScriptError {
    YamlParse(serde_yaml::Error),
    JsonParse(serde_json::Error),
    Validation(String),
    UnknownComponent(String),
    UnknownAction(String),
    UnknownCondition(String),
}

impl ScriptError {
    /// The text of the error, for the errors whose text the library makes.
    pub open spec fn spec_message(&self) -> Option<Seq<char>> {
        match self {
            ScriptError::Validation(m) => Some("validation error: "@ + m@),
            ScriptError::UnknownComponent(m) => Some("unknown component type: "@ + m@),
            ScriptError::UnknownAction(m) => Some("unknown action type: "@ + m@),
            ScriptError::UnknownCondition(m) => Some("unknown condition type: "@ + m@),
            _ => None,
        }
    }

    /// The text the error's description starts with: for a parse error,
    /// the words before the parser's own text; for the others, all of it.
    pub open spec fn spec_prefix(&self) -> Seq<char> {
        match self {
            ScriptError::YamlParse(_) => "YAML parse error: "@,
            ScriptError::JsonParse(_) => "JSON parse error: "@,
            ScriptError::Validation(m) => "validation error: "@ + m@,
            ScriptError::UnknownComponent(m) => "unknown component type: "@ + m@,
            ScriptError::UnknownAction(m) => "unknown action type: "@ + m@,
            ScriptError::UnknownCondition(m) => "unknown condition type: "@ + m@,
        }
    }

    /// The text that describes the error; a parse error's text comes from
    /// the parser.
    pub fn message(&self) -> (s: String)
        ensures
            self.spec_message() matches Some(m) ==> s@ == m,
            self.spec_prefix().is_prefix_of(s@),
    {
        match self {
            ScriptError::YamlParse(e) => {
                let head = String::from_str("YAML parse error: ");
                let r = head.concat(yaml_error_text(e).as_str());
                assert(r@.subrange(0, head@.len() as int) =~= head@);
                r
            },
            ScriptError::JsonParse(e) => {
                let head = String::from_str("JSON parse error: ");
                let r = head.concat(json_error_text(e).as_str());
                assert(r@.subrange(0, head@.len() as int) =~= head@);
                r
            },
            ScriptError::Validation(m) => String::from_str("validation error: ").concat(m.as_str()),
            ScriptError::UnknownComponent(m) => String::from_str("unknown component type: ").concat(
                m.as_str(),
            ),
            ScriptError::UnknownAction(m) => String::from_str("unknown action type: ").concat(
                m.as_str(),
            ),
            ScriptError::UnknownCondition(m) => String::from_str("unknown condition type: ").concat(
                m.as_str(),
            ),
        }
    }
}

/// Entity `j` repeats the id of an earlier entity.
pub open spec fn repeats_earlier(ids: Seq<Seq<char>>, j: int) -> bool {
    exists|i: int| 0 <= i < j && ids[i] == ids[j]
}

/// The first entity that repeats an earlier id, if any.
pub open spec fn first_repeat(ids: Seq<Seq<char>>) -> Option<int> {
    if exists|j: int| 0 <= j < ids.len() && repeats_earlier(ids, j) {
        Some(
            choose|j: int|
                0 <= j < ids.len() && repeats_earlier(ids, j) && forall|k: int|
                    0 <= k < j ==> !repeats_earlier(ids, k),
        )
    } else {
        None
    }
}

/// The first repeat is `j` when `j` repeats and no earlier entity does.
proof fn lemma_first_repeat_is(ids: Seq<Seq<char>>, j: int)
    requires
        0 <= j < ids.len(),
        exists|i: int| 0 <= i < j && ids[i] == ids[j],
        forall|k: int| 0 <= k < j ==> !repeats_earlier(ids, k),
    ensures
        first_repeat(ids) == Some(j),
{
    assert(repeats_earlier(ids, j));
    let c = first_repeat(ids)->0;
    assert(repeats_earlier(ids, c) && forall|k: int| 0 <= k < c ==> !repeats_earlier(ids, k));
    if c > j {
        assert(!repeats_earlier(ids, j));
    }
}

/// The ids of a scene's entities, in order.
pub open spec fn entity_ids(scene: SceneDefinition) -> Seq<Seq<char>> {
    scene.entities@.map_values(|e: EntityDefinition| e.id@)
}

/// The outcome of checking a scene: an empty name is refused, then the
/// first entity whose id repeats an earlier one.
pub open spec fn validation_outcome(scene: SceneDefinition) -> Option<Seq<char>> {
    if scene.scene@.len() == 0 {
        Some("scene name cannot be empty"@)
    } else {
        match first_repeat(entity_ids(scene)) {
            Some(j) => Some("duplicate entity id: "@ + entity_ids(scene)[j]),
            None => None,
        }
    }
}

/// Compiles scene definitions into what the runtime runs.
pub struct SceneCompiler;

impl SceneCompiler {
    /// A compiler.
    pub fn new() -> Self {
        SceneCompiler
    }

    /// Checks a scene definition: its name is not empty and its entity ids
    /// are distinct.
    pub fn validate(&self, scene: &SceneDefinition) -> (r: Result<(), ScriptError>)
        ensures
            match validation_outcome(*scene) {
                Some(m) => r matches Err(ScriptError::Validation(msg)) && msg@ == m,
                None => r is Ok,
            },
    {
        if scene.scene.as_str().is_empty() {
            return Err(ScriptError::Validation(String::from_str("scene name cannot be empty")));
        }
        let ghost ids = entity_ids(*scene);
        let mut j: usize = 0;
        while j < scene.entities.len()
            invariant
                j <= scene.entities@.len(),
                ids == entity_ids(*scene),
                ids.len() == scene.entities@.len(),
                scene.scene@.len() != 0,
                forall|k: int| 0 <= k < j ==> !repeats_earlier(ids, k),
            decreases scene.entities@.len() - j,
        {
            let mut i: usize = 0;
            while i < j
                invariant
                    i <= j < scene.entities@.len(),
                    ids == entity_ids(*scene),
                    ids.len() == scene.entities@.len(),
                    scene.scene@.len() != 0,
                    forall|k: int| 0 <= k < j ==> !repeats_earlier(ids, k),
                    forall|k: int| 0 <= k < i ==> ids[k] != ids[j as int],
                decreases j - i,
            {
                if str_eq(scene.entities[i].id.as_str(), scene.entities[j].id.as_str()) {
                    proof {
                        assert(ids[i as int] == ids[j as int]);
                        lemma_first_repeat_is(ids, j as int);
                        assert(ids[j as int] == scene.entities@[j as int].id@);
                    }
                    return Err(
                        ScriptError::Validation(
                            String::from_str("duplicate entity id: ").concat(
                                scene.entities[j].id.as_str(),
                            ),
                        ),
                    );
                }
                i = i + 1;
            }
            proof {
                assert(!repeats_earlier(ids, j as int));
            }
            j = j + 1;
        }
        proof {
            assert(!exists|j: int| 0 <= j < ids.len() && repeats_earlier(ids, j));
        }
        Ok(())
    }
}

impl Default for SceneCompiler {
    /// A compiler.
    fn default() -> Self {
        Self::new()
    }
}

} // verus!
