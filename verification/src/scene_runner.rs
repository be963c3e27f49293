//! The light runtime: the self-developed 2D canvas runtime.
//!
//! The runtime keeps its entities by id, draws them ordered by layer, and
//! answers input: a key press runs the `on_key` action of every entity that
//! listens for that key, and the pointer runs the `on_hover` action of the
//! entities it is over.  The actions are `hide`, `show` and `destroy`.
//!
//! Positions, rotations and scales are `f64` values; they are held here as
//! their IEEE-754 bit patterns.

use crate::json::{JsonNumber, JsonValue};
use crate::renderer::Renderer;
use crate::runtime::{RuntimeConfig, RuntimeError};
use crate::sorting::{sort_by_rank, sorted_by_rank};
use crate::table::{Table, lemma_index_of, lemma_put, lemma_update_is_put, lemma_del, put, del, keys_unique, to_map};
use crate::text::str_eq;
use vstd::prelude::*;
use vstd::seq_lib::*;

verus! {

/// The bits of the `f64` value 1.0.
pub const ONE_BITS: u64 = 0x3FF0_0000_0000_0000u64;

/// An entity placed in the running scene.
pub struct EntityInstance {
    pub id: String,
    /// Horizontal position (bits of an `f64`).
    pub x: u64,
    /// Vertical position (bits of an `f64`).
    pub y: u64,
    /// Rotation (bits of an `f64`).
    pub rotation: u64,
    /// Horizontal scale (bits of an `f64`).
    pub scale_x: u64,
    /// Vertical scale (bits of an `f64`).
    pub scale_y: u64,
    pub visible: bool,
    pub layer: i32,
    /// Components by name, each with free-form parameters.
    pub components: Table<JsonValue>,
}

impl EntityInstance {
    /// A visible entity at the origin, unrotated, at scale 1, on layer 0,
    /// with no components.
    pub fn new(id: String) -> (e: Self)
        ensures
            e.id@ == id@,
            e.x == 0,
            e.y == 0,
            e.rotation == 0,
            e.scale_x == ONE_BITS,
            e.scale_y == ONE_BITS,
            e.visible,
            e.layer == 0,
            e.components.wf(),
            e.components@ == Map::<Seq<char>, JsonValue>::empty(),
    {
        EntityInstance {
            id,
            x: 0,
            y: 0,
            rotation: 0,
            scale_x: ONE_BITS,
            scale_y: ONE_BITS,
            visible: true,
            layer: 0,
            components: Table::new(),
        }
    }

    /// The same entity at position `(x, y)`.
    pub fn with_position(self, x: u64, y: u64) -> (e: Self)
        ensures
            e == (EntityInstance { x, y, ..self }),
    {
        let mut e = self;
        e.x = x;
        e.y = y;
        e
    }

    /// The same entity at scale `(sx, sy)`.
    pub fn with_scale(self, sx: u64, sy: u64) -> (e: Self)
        ensures
            e == (EntityInstance { scale_x: sx, scale_y: sy, ..self }),
    {
        let mut e = self;
        e.scale_x = sx;
        e.scale_y = sy;
        e
    }

    /// The same entity on `layer`.
    pub fn with_layer(self, layer: i32) -> (e: Self)
        ensures
            e == (EntityInstance { layer, ..self }),
    {
        let mut e = self;
        e.layer = layer;
        e
    }

    /// The action of the entity's `on_hover` component, if it names one.
    pub open spec fn spec_hover_action(&self) -> Option<Seq<char>> {
        if self.components@.contains_key("on_hover"@) {
            match self.components@["on_hover"@].spec_get("action"@) {
                Some(a) => a.spec_as_str(),
                None => None,
            }
        } else {
            None
        }
    }

    /// The action of the entity's `on_hover` component, if it names one.
    pub fn hover_action(&self) -> (r: Option<&str>)
        requires
            self.components.wf(),
        ensures
            match r {
                Some(a) => self.spec_hover_action() == Some(a@),
                None => self.spec_hover_action() is None,
            },
    {
        match self.components.get("on_hover") {
            Some(h) => match h.get("action") {
                Some(a) => a.as_str(),
                None => None,
            },
            None => None,
        }
    }
}

/// The actions a key press asks of one entity: one `(entity id, action)`
/// for every listed key equal to `key`, when its `on_key` component names
/// an action.
pub open spec fn key_actions_of(e: EntityInstance, key: Seq<char>) -> Seq<(Seq<char>, Seq<char>)> {
    if e.components@.contains_key("on_key"@) {
        let on_key = e.components@["on_key"@];
        match on_key.spec_get("keys"@) {
            Some(keys) => match keys.spec_as_array() {
                Some(items) => match on_key.spec_get("action"@) {
                    Some(a) => match a.spec_as_str() {
                        Some(act) => items.filter(|k: JsonValue| k.spec_as_str() == Some(key)).map_values(
                            |k: JsonValue| (e.id@, act),
                        ),
                        None => Seq::empty(),
                    },
                    None => Seq::empty(),
                },
                None => Seq::empty(),
            },
            None => Seq::empty(),
        }
    } else {
        Seq::empty()
    }
}

/// The actions a key press asks of all entities, in entity order.
pub open spec fn key_actions(entities: Seq<(Seq<char>, EntityInstance)>, key: Seq<char>) -> Seq<
    (Seq<char>, Seq<char>),
>
    decreases entities.len(),
{
    if entities.len() == 0 {
        Seq::empty()
    } else {
        key_actions(entities.drop_last(), key) + key_actions_of(entities.last().1, key)
    }
}

/// The entities after running `action` on entity `id`: `hide` and `show`
/// set its visibility, `destroy` removes it, any other action changes
/// nothing; so does an action on an entity that is not there.
pub open spec fn apply_action(m: Map<Seq<char>, EntityInstance>, id: Seq<char>, action: Seq<char>) -> Map<
    Seq<char>,
    EntityInstance,
> {
    if action == "hide"@ {
        if m.contains_key(id) {
            m.insert(id, EntityInstance { visible: false, ..m[id] })
        } else {
            m
        }
    } else if action == "show"@ {
        if m.contains_key(id) {
            m.insert(id, EntityInstance { visible: true, ..m[id] })
        } else {
            m
        }
    } else if action == "destroy"@ {
        m.remove(id)
    } else {
        m
    }
}

/// The entities after running the actions in order.
pub open spec fn apply_actions(m: Map<Seq<char>, EntityInstance>, acts: Seq<(Seq<char>, Seq<char>)>) -> Map<
    Seq<char>,
    EntityInstance,
>
    decreases acts.len(),
{
    if acts.len() == 0 {
        m
    } else {
        apply_action(apply_actions(m, acts.drop_last()), acts.last().0, acts.last().1)
    }
}

/// A drawing call of a frame.  Positions, rotation and scale are the bits
/// of `f64` values.  A size is the number the component gives, `None` when
/// it gives none (the drawing then uses 32 for a rectangle's sides and 16
/// for text).
#[derive(Debug)]
pub enum DrawCommand {
    Sprite { image: String, x: u64, y: u64, rotation: u64, scale_x: u64, scale_y: u64 },
    Rect { x: u64, y: u64, width: Option<JsonNumber>, height: Option<JsonNumber>, color: String },
    Text { content: String, x: u64, y: u64, size: Option<JsonNumber>, color: String },
}

/// A drawing call with its texts as character sequences.
pub enum DrawView {
    Sprite { image: Seq<char>, x: u64, y: u64, rotation: u64, scale_x: u64, scale_y: u64 },
    Rect { x: u64, y: u64, width: Option<JsonNumber>, height: Option<JsonNumber>, color: Seq<char> },
    Text { content: Seq<char>, x: u64, y: u64, size: Option<JsonNumber>, color: Seq<char> },
}

impl View for DrawCommand {
    type V = DrawView;

    open spec fn view(&self) -> DrawView {
        match self {
            DrawCommand::Sprite { image, x, y, rotation, scale_x, scale_y } => DrawView::Sprite {
                image: image@,
                x: *x,
                y: *y,
                rotation: *rotation,
                scale_x: *scale_x,
                scale_y: *scale_y,
            },
            DrawCommand::Rect { x, y, width, height, color } => DrawView::Rect {
                x: *x,
                y: *y,
                width: *width,
                height: *height,
                color: color@,
            },
            DrawCommand::Text { content, x, y, size, color } => DrawView::Text {
                content: content@,
                x: *x,
                y: *y,
                size: *size,
                color: color@,
            },
        }
    }
}

/// The number a component gives for `key`, when it is a number.
pub open spec fn number_param(c: JsonValue, key: Seq<char>) -> Option<JsonNumber> {
    match c.spec_get(key) {
        Some(JsonValue::Number(n)) => Some(n),
        _ => None,
    }
}

/// The text a component gives for `key`, else `default`.
pub open spec fn text_param(c: JsonValue, key: Seq<char>, default: Seq<char>) -> Seq<char> {
    match c.spec_get(key) {
        Some(v) => match v.spec_as_str() {
            Some(s) => s,
            None => default,
        },
        None => default,
    }
}

/// The entity's component `name`, if it has one.
pub open spec fn component(e: EntityInstance, name: Seq<char>) -> Option<JsonValue> {
    if e.components@.contains_key(name) {
        Some(e.components@[name])
    } else {
        None
    }
}

/// What a frame draws of one entity: nothing when it is hidden; else its
/// sprite (when the `sprite` component names an image), then its `rect`
/// (red by default), then its `text` (empty and white by default).
pub open spec fn entity_draws(e: EntityInstance) -> Seq<DrawView> {
    if !e.visible {
        Seq::empty()
    } else {
        let sprite = match component(e, "sprite"@) {
            Some(s) => match s.spec_get("image"@) {
                Some(i) => match i.spec_as_str() {
                    Some(image) => seq![
                        DrawView::Sprite {
                            image,
                            x: e.x,
                            y: e.y,
                            rotation: e.rotation,
                            scale_x: e.scale_x,
                            scale_y: e.scale_y,
                        },
                    ],
                    None => Seq::empty(),
                },
                None => Seq::empty(),
            },
            None => Seq::empty(),
        };
        let rect = match component(e, "rect"@) {
            Some(r) => seq![
                DrawView::Rect {
                    x: e.x,
                    y: e.y,
                    width: number_param(r, "width"@),
                    height: number_param(r, "height"@),
                    color: text_param(r, "color"@, "#ff0000"@),
                },
            ],
            None => Seq::empty(),
        };
        let text = match component(e, "text"@) {
            Some(t) => seq![
                DrawView::Text {
                    content: text_param(t, "content"@, ""@),
                    x: e.x,
                    y: e.y,
                    size: number_param(t, "size"@),
                    color: text_param(t, "color"@, "#ffffff"@),
                },
            ],
            None => Seq::empty(),
        };
        sprite + rect + text
    }
}

/// What a frame draws of `es`, in order.
pub open spec fn frame_draws(es: Seq<EntityInstance>) -> Seq<DrawView>
    decreases es.len(),
{
    if es.len() == 0 {
        Seq::empty()
    } else {
        frame_draws(es.drop_last()) + entity_draws(es.last())
    }
}

/// `es` holds the entities of `pairs`, ordered by layer.
pub open spec fn in_layer_order(es: Seq<EntityInstance>, pairs: Seq<(Seq<char>, EntityInstance)>) -> bool {
    &&& es.to_multiset() == pairs.map_values(|p: (Seq<char>, EntityInstance)| p.1).to_multiset()
    &&& forall|i: int, j: int| 0 <= i <= j < es.len() ==> (#[trigger] es[i]).layer <= (#[trigger] es[j]).layer
}

/// The velocity of an entity whose `movement` component gives numbers for
/// both `vx` and `vy`.
pub open spec fn velocity(e: EntityInstance) -> Option<(JsonNumber, JsonNumber)> {
    match component(e, "movement"@) {
        Some(m) => match (number_param(m, "vx"@), number_param(m, "vy"@)) {
            (Some(vx), Some(vy)) => Some((vx, vy)),
            _ => None,
        },
        None => None,
    }
}

/// `(id, vx, vy)` of each moving entity of `pairs`, in order.
pub open spec fn velocities(pairs: Seq<(Seq<char>, EntityInstance)>) -> Seq<(Seq<char>, JsonNumber, JsonNumber)>
    decreases pairs.len(),
{
    if pairs.len() == 0 {
        Seq::empty()
    } else {
        let rest = velocities(pairs.drop_last());
        match velocity(pairs.last().1) {
            Some((vx, vy)) => rest.push((pairs.last().0, vx, vy)),
            None => rest,
        }
    }
}

/// An entity the pointer may act on: where it is, the size of its hover
/// box (`None` for the default 32), and the action its `on_hover`
/// component names.
#[derive(Debug)]
pub struct HoverTarget {
    pub id: String,
    pub x: u64,
    pub y: u64,
    pub width: Option<JsonNumber>,
    pub height: Option<JsonNumber>,
    pub action: String,
}

/// `(id, x, y, width, height, action)` of a hover target.
pub open spec fn target_view(t: HoverTarget) -> (Seq<char>, u64, u64, Option<JsonNumber>, Option<JsonNumber>, Seq<char>) {
    (t.id@, t.x, t.y, t.width, t.height, t.action@)
}

/// The hover targets among `pairs`, in order: the entities whose
/// `on_hover` component names an action.
pub open spec fn hover_targets_of(pairs: Seq<(Seq<char>, EntityInstance)>) -> Seq<
    (Seq<char>, u64, u64, Option<JsonNumber>, Option<JsonNumber>, Seq<char>),
>
    decreases pairs.len(),
{
    if pairs.len() == 0 {
        Seq::empty()
    } else {
        let rest = hover_targets_of(pairs.drop_last());
        let e = pairs.last().1;
        match (component(e, "on_hover"@), e.spec_hover_action()) {
            (Some(h), Some(a)) => rest.push(
                (pairs.last().0, e.x, e.y, number_param(h, "width"@), number_param(h, "height"@), a),
            ),
            _ => rest,
        }
    }
}

/// The number `c` gives for `key`, when it is a number.
pub fn number_param_exec(c: &JsonValue, key: &str) -> (r: Option<JsonNumber>)
    ensures
        r == number_param(*c, key@),
{
    match c.get(key) {
        Some(JsonValue::Number(n)) => Some(*n),
        _ => None,
    }
}

/// The text `c` gives for `key`, else `default`.
pub fn text_param_exec(c: &JsonValue, key: &str, default: &str) -> (r: String)
    ensures
        r@ == text_param(*c, key@, default@),
{
    match c.get(key) {
        Some(v) => match v.as_str() {
            Some(s) => String::from_str(s),
            None => String::from_str(default),
        },
        None => String::from_str(default),
    }
}

/// Appends what a frame draws of entity `e`.
fn push_entity_draws(e: &EntityInstance, out: &mut Vec<DrawCommand>)
    requires
        e.components.wf(),
    ensures
        final(out)@.map_values(|c: DrawCommand| c@) == old(out)@.map_values(|c: DrawCommand| c@)
            + entity_draws(*e),
{
    let ghost base = old(out)@.map_values(|c: DrawCommand| c@);
    if !e.visible {
        assert(base + entity_draws(*e) =~= base);
        return;
    }
    match e.components.get("sprite") {
        Some(s) => match s.get("image") {
            Some(i) => match i.as_str() {
                Some(image) => {
                    out.push(DrawCommand::Sprite {
                        image: String::from_str(image),
                        x: e.x,
                        y: e.y,
                        rotation: e.rotation,
                        scale_x: e.scale_x,
                        scale_y: e.scale_y,
                    });
                },
                None => {},
            },
            None => {},
        },
        None => {},
    }
    let ghost after_sprite = out@.map_values(|c: DrawCommand| c@);
    match e.components.get("rect") {
        Some(r) => {
            out.push(DrawCommand::Rect {
                x: e.x,
                y: e.y,
                width: number_param_exec(r, "width"),
                height: number_param_exec(r, "height"),
                color: text_param_exec(r, "color", "#ff0000"),
            });
        },
        None => {},
    }
    let ghost after_rect = out@.map_values(|c: DrawCommand| c@);
    match e.components.get("text") {
        Some(t) => {
            out.push(DrawCommand::Text {
                content: text_param_exec(t, "content", ""),
                x: e.x,
                y: e.y,
                size: number_param_exec(t, "size"),
                color: text_param_exec(t, "color", "#ffffff"),
            });
        },
        None => {},
    }
    proof {
        let sprite = match component(*e, "sprite"@) {
            Some(s) => match s.spec_get("image"@) {
                Some(i) => match i.spec_as_str() {
                    Some(image) => seq![
                        DrawView::Sprite {
                            image,
                            x: e.x,
                            y: e.y,
                            rotation: e.rotation,
                            scale_x: e.scale_x,
                            scale_y: e.scale_y,
                        },
                    ],
                    None => Seq::empty(),
                },
                None => Seq::empty(),
            },
            None => Seq::empty(),
        };
        assert(after_sprite =~= base + sprite);
        assert(out@.map_values(|c: DrawCommand| c@) =~= base + entity_draws(*e));
    }
}

/// The light runtime.
pub struct LightRuntime {
    config: Option<RuntimeConfig>,
    renderer: Option<Renderer>,
    entities: Table<EntityInstance>,
    frame: u64,
    running: bool,
}

impl LightRuntime {
    /// The entities by id.
    pub closed spec fn entities(&self) -> Map<Seq<char>, EntityInstance> {
        self.entities@
    }

    /// The entities in the order they were added.
    pub closed spec fn entity_pairs(&self) -> Seq<(Seq<char>, EntityInstance)> {
        self.entities.pairs()
    }

    /// The configuration given at initialisation.
    pub closed spec fn config(&self) -> Option<RuntimeConfig> {
        self.config
    }

    /// Whether the runtime has a renderer.
    pub closed spec fn has_renderer(&self) -> bool {
        self.renderer is Some
    }

    /// The number of frames updated.
    pub closed spec fn frame(&self) -> u64 {
        self.frame
    }

    /// Whether the runtime is running.
    pub closed spec fn running(&self) -> bool {
        self.running
    }

    /// The runtime's invariant: entity ids are distinct and each entity is
    /// kept under its own id with well-formed components; a renderer exists
    /// only after a configuration was given.
    pub closed spec fn wf(&self) -> bool {
        &&& self.entities.wf()
        &&& forall|i: int|
            0 <= i < self.entities.pairs().len() ==> (#[trigger] self.entities.pairs()[i]).0
                == self.entities.pairs()[i].1.id@ && self.entities.pairs()[i].1.components.wf()
        &&& self.renderer is Some ==> self.config is Some
    }

    /// A runtime with no configuration, no renderer and no entities, not running.
    pub fn new() -> (r: Self)
        ensures
            r.wf(),
            r.entities() == Map::<Seq<char>, EntityInstance>::empty(),
            r.config() is None,
            !r.has_renderer(),
            r.frame() == 0,
            !r.running(),
            r.entity_pairs() == Seq::<(Seq<char>, EntityInstance)>::empty(),
    {
        LightRuntime {
            config: None,
            renderer: None,
            entities: Table::new(),
            frame: 0,
            running: false,
        }
    }

    /// The listing of a well-formed runtime holds each entity once, under
    /// its own id, and denotes the entity map.
    pub proof fn lemma_entity_pairs(&self)
        requires
            self.wf(),
        ensures
            keys_unique(self.entity_pairs()),
            to_map(self.entity_pairs()) == self.entities(),
            forall|i: int|
                0 <= i < self.entity_pairs().len() ==> (#[trigger] self.entity_pairs()[i]).0
                    == self.entity_pairs()[i].1.id@,
    {
    }

    /// The runtime's name.
    pub fn name(&self) -> (n: &str)
        ensures
            n@ == "light"@,
    {
        "light"
    }

    /// Adds an entity under its id, replacing an entity with the same id.
    pub fn add_entity(&mut self, entity: EntityInstance)
        requires
            old(self).wf(),
            entity.components.wf(),
        ensures
            final(self).wf(),
            final(self).entities() == old(self).entities().insert(entity.id@, entity),
            final(self).entity_pairs() == put(old(self).entity_pairs(), entity.id@, entity),
            final(self).config() == old(self).config(),
            final(self).has_renderer() == old(self).has_renderer(),
            final(self).frame() == old(self).frame(),
            final(self).running() == old(self).running(),
    {
        let ghost s = self.entities.pairs();
        let key = entity.id.clone();
        proof {
            lemma_put(s, key@, entity);
        }
        self.entities.insert(key, entity);
        proof {
            self.lemma_put_keeps_ids(s, key@, entity);
        }
    }

    proof fn lemma_put_keeps_ids(&self, s: Seq<(Seq<char>, EntityInstance)>, k: Seq<char>, e: EntityInstance)
        requires
            crate::table::keys_unique(s),
            forall|i: int| 0 <= i < s.len() ==> (#[trigger] s[i]).0 == s[i].1.id@ && s[i].1.components.wf(),
            k == e.id@,
            e.components.wf(),
            self.entities.pairs() == put(s, k, e),
        ensures
            forall|i: int|
                0 <= i < self.entities.pairs().len() ==> (#[trigger] self.entities.pairs()[i]).0
                    == self.entities.pairs()[i].1.id@ && self.entities.pairs()[i].1.components.wf(),
    {
        let t = self.entities.pairs();
        assert forall|i: int| 0 <= i < t.len() implies (#[trigger] t[i]).0 == t[i].1.id@
            && t[i].1.components.wf() by {
            if i < s.len() {
                if crate::table::has_key(s, k) && i == crate::table::index_of(s, k) {
                } else {
                    assert(t[i] == s[i]);
                }
            }
        }
    }

    /// Removes the entity `id`, returning it.
    pub fn remove_entity(&mut self, id: &str) -> (r: Option<EntityInstance>)
        requires
            old(self).wf(),
        ensures
            final(self).wf(),
            final(self).entities() == old(self).entities().remove(id@),
            final(self).entity_pairs() == del(old(self).entity_pairs(), id@),
            match r {
                Some(e) => old(self).entities().contains_key(id@) && e == old(self).entities()[id@],
                None => !old(self).entities().contains_key(id@),
            },
            final(self).config() == old(self).config(),
            final(self).has_renderer() == old(self).has_renderer(),
            final(self).frame() == old(self).frame(),
            final(self).running() == old(self).running(),
    {
        let ghost s = self.entities.pairs();
        let r = self.entities.remove(id);
        proof {
            self.lemma_del_keeps_ids(s, id@);
        }
        r
    }

    proof fn lemma_del_keeps_ids(&self, s: Seq<(Seq<char>, EntityInstance)>, k: Seq<char>)
        requires
            crate::table::keys_unique(s),
            forall|i: int| 0 <= i < s.len() ==> (#[trigger] s[i]).0 == s[i].1.id@ && s[i].1.components.wf(),
            self.entities.pairs() == crate::table::del(s, k),
        ensures
            forall|i: int|
                0 <= i < self.entities.pairs().len() ==> (#[trigger] self.entities.pairs()[i]).0
                    == self.entities.pairs()[i].1.id@ && self.entities.pairs()[i].1.components.wf(),
    {
        let t = self.entities.pairs();
        if crate::table::has_key(s, k) {
            let p = crate::table::index_of(s, k);
            assert forall|i: int| 0 <= i < t.len() implies (#[trigger] t[i]).0 == t[i].1.id@
                && t[i].1.components.wf() by {
                if i < p {
                    assert(t[i] == s[i]);
                } else {
                    assert(t[i] == s[i + 1]);
                }
            }
        }
    }

    /// The entity `id`.
    pub fn get_entity(&self, id: &str) -> (r: Option<&EntityInstance>)
        requires
            self.wf(),
        ensures
            match r {
                Some(e) => self.entities().contains_key(id@) && *e == self.entities()[id@],
                None => !self.entities().contains_key(id@),
            },
    {
        self.entities.get(id)
    }

    /// All entities, ordered by layer (lowest first).
    pub fn get_entities(&self) -> (r: Vec<&EntityInstance>)
        requires
            self.wf(),
        ensures
            r@.map_values(|e: &EntityInstance| *e).to_multiset() == self.entity_pairs().map_values(
                |p: (Seq<char>, EntityInstance)| p.1,
            ).to_multiset(),
            forall|i: int, j: int|
                0 <= i <= j < r@.len() ==> (#[trigger] r@[i]).layer <= (#[trigger] r@[j]).layer,
    {
        let ghost all = self.entities.pairs().map_values(|p: (Seq<char>, EntityInstance)| p.1);
        let mut ranked: Vec<(i32, &EntityInstance)> = Vec::new();
        let mut i: usize = 0;
        while i < self.entities.len()
            invariant
                i <= self.entities.pairs().len(),
                all == self.entities.pairs().map_values(|p: (Seq<char>, EntityInstance)| p.1),
                ranked@.map_values(|x: (i32, &EntityInstance)| *x.1) == all.take(i as int),
                forall|j: int| 0 <= j < ranked@.len() ==> (#[trigger] ranked@[j]).0 == ranked@[j].1.layer,
            decreases self.entities.pairs().len() - i,
        {
            let e = self.entities.value_at(i);
            let ghost before = ranked@;
            ranked.push((e.layer, e));
            assert(all[i as int] == *e);
            assert(all.take(i + 1) =~= all.take(i as int).push(*e));
            assert(ranked@.map_values(|x: (i32, &EntityInstance)| *x.1) =~= before.map_values(
                |x: (i32, &EntityInstance)| *x.1,
            ).push(*e));
            assert(ranked@.map_values(|x: (i32, &EntityInstance)| *x.1) =~= all.take(i + 1));
            i = i + 1;
        }
        assert(all.take(i as int) =~= all);
        let ghost unsorted = ranked@;
        let sorted = sort_by_rank(ranked);
        proof {
            assert forall|j: int| 0 <= j < sorted@.len() implies (#[trigger] sorted@[j]).0
                == sorted@[j].1.layer by {
                assert(sorted@.contains(sorted@[j]));
                to_multiset_contains(sorted@, sorted@[j]);
                to_multiset_contains(unsorted, sorted@[j]);
                assert(unsorted.contains(sorted@[j]));
            }
        }
        let mut out: Vec<&EntityInstance> = Vec::new();
        let mut k: usize = 0;
        while k < sorted.len()
            invariant
                k <= sorted@.len(),
                out@.len() == k,
                forall|j: int| 0 <= j < k ==> out@[j] == (#[trigger] sorted@[j]).1,
            decreases sorted@.len() - k,
        {
            out.push(sorted[k].1);
            k = k + 1;
        }
        proof {
            let f = |x: (i32, &EntityInstance)| *x.1;
            assert(out@.map_values(|e: &EntityInstance| *e) =~= sorted@.map_values(f));
            crate::registry::lemma_map_values_multiset(sorted@, unsorted, f);
            assert forall|a: int, b: int| 0 <= a <= b < out@.len() implies (#[trigger] out@[a]).layer
                <= (#[trigger] out@[b]).layer by {
                assert(sorted@[a].0 <= sorted@[b].0);
            }
        }
        out
    }

    /// Moves entity `id` to `(x, y)`; `None` when there is no such entity.
    pub fn move_entity(&mut self, id: &str, x: u64, y: u64) -> (r: Option<()>)
        requires
            old(self).wf(),
        ensures
            final(self).wf(),
            r is Some <==> old(self).entities().contains_key(id@),
            final(self).entities() == if old(self).entities().contains_key(id@) {
                old(self).entities().insert(
                    id@,
                    EntityInstance { x, y, ..old(self).entities()[id@] },
                )
            } else {
                old(self).entities()
            },
            final(self).config() == old(self).config(),
            final(self).has_renderer() == old(self).has_renderer(),
            final(self).frame() == old(self).frame(),
            final(self).running() == old(self).running(),
    {
        match self.entities.position(id) {
            Some(i) => {
                let ghost s = self.entities.pairs();
                proof {
                    lemma_index_of(s, i as int);
                }
                let (k, e) = self.entities.remove_at(i);
                let ghost e0 = e;
                let e = e.with_position(x, y);
                proof {
                    lemma_update_is_put(s, i as int, e);
                    lemma_put(s, k@, e);
                }
                self.entities.insert_at(i, k, e);
                proof {
                    self.lemma_put_keeps_ids(s, s[i as int].0, e);
                }
                Some(())
            },
            None => None,
        }
    }

    /// Runs `action` on entity `id` (see `apply_action`).
    pub fn execute_action(&mut self, entity_id: &str, action: &str)
        requires
            old(self).wf(),
        ensures
            final(self).wf(),
            final(self).entities() == apply_action(old(self).entities(), entity_id@, action@),
            final(self).config() == old(self).config(),
            final(self).has_renderer() == old(self).has_renderer(),
            final(self).frame() == old(self).frame(),
            final(self).running() == old(self).running(),
    {
        if str_eq(action, "hide") {
            self.set_visible(entity_id, false);
        } else if str_eq(action, "show") {
            self.set_visible(entity_id, true);
        } else if str_eq(action, "destroy") {
            self.remove_entity(entity_id);
        }
    }

    /// Sets the visibility of entity `id`, if it is there.
    fn set_visible(&mut self, id: &str, visible: bool)
        requires
            old(self).wf(),
        ensures
            final(self).wf(),
            final(self).entities() == if old(self).entities().contains_key(id@) {
                old(self).entities().insert(id@, EntityInstance { visible, ..old(self).entities()[id@] })
            } else {
                old(self).entities()
            },
            final(self).config() == old(self).config(),
            final(self).has_renderer() == old(self).has_renderer(),
            final(self).frame() == old(self).frame(),
            final(self).running() == old(self).running(),
    {
        match self.entities.position(id) {
            Some(i) => {
                let ghost s = self.entities.pairs();
                proof {
                    lemma_index_of(s, i as int);
                }
                let (k, mut e) = self.entities.remove_at(i);
                e.visible = visible;
                proof {
                    lemma_update_is_put(s, i as int, e);
                    lemma_put(s, k@, e);
                }
                self.entities.insert_at(i, k, e);
                proof {
                    self.lemma_put_keeps_ids(s, s[i as int].0, e);
                }
            },
            None => {},
        }
    }

    /// Runs the actions in order.
    pub fn execute_actions(&mut self, actions: &Vec<(String, String)>)
        requires
            old(self).wf(),
        ensures
            final(self).wf(),
            final(self).entities() == apply_actions(
                old(self).entities(),
                actions@.map_values(|a: (String, String)| (a.0@, a.1@)),
            ),
            final(self).config() == old(self).config(),
            final(self).has_renderer() == old(self).has_renderer(),
            final(self).frame() == old(self).frame(),
            final(self).running() == old(self).running(),
    {
        let ghost acts = actions@.map_values(|a: (String, String)| (a.0@, a.1@));
        let mut i: usize = 0;
        while i < actions.len()
            invariant
                i <= actions@.len(),
                acts == actions@.map_values(|a: (String, String)| (a.0@, a.1@)),
                self.wf(),
                self.entities() == apply_actions(old(self).entities(), acts.take(i as int)),
                self.config() == old(self).config(),
                self.has_renderer() == old(self).has_renderer(),
                self.frame() == old(self).frame(),
                self.running() == old(self).running(),
            decreases actions@.len() - i,
        {
            assert(acts.take(i + 1).drop_last() =~= acts.take(i as int));
            self.execute_action(actions[i].0.as_str(), actions[i].1.as_str());
            i = i + 1;
        }
        assert(acts.take(i as int) =~= acts);
    }

    /// The `(entity id, action)` pairs a press of `key` asks for.
    pub fn key_actions(&self, key: &str) -> (r: Vec<(String, String)>)
        requires
            self.wf(),
        ensures
            r@.map_values(|a: (String, String)| (a.0@, a.1@)) == key_actions(self.entity_pairs(), key@),
    {
        let ghost pairs = self.entities.pairs();
        let mut out: Vec<(String, String)> = Vec::new();
        let mut i: usize = 0;
        while i < self.entities.len()
            invariant
                i <= pairs.len(),
                pairs == self.entities.pairs(),
                self.wf(),
                out@.map_values(|a: (String, String)| (a.0@, a.1@)) == key_actions(
                    pairs.take(i as int),
                    key@,
                ),
            decreases pairs.len() - i,
        {
            let e = self.entities.value_at(i);
            assert(pairs.take(i + 1).drop_last() =~= pairs.take(i as int));
            assert(pairs[i as int].1.components.wf());
            let ghost before = out@.map_values(|a: (String, String)| (a.0@, a.1@));
            Self::push_key_actions(e, key, &mut out);
            i = i + 1;
        }
        assert(pairs.take(i as int) =~= pairs);
        out
    }

    /// Appends the actions a press of `key` asks of entity `e`.
    fn push_key_actions(e: &EntityInstance, key: &str, out: &mut Vec<(String, String)>)
        requires
            e.components.wf(),
        ensures
            final(out)@.map_values(|a: (String, String)| (a.0@, a.1@)) == old(out)@.map_values(
                |a: (String, String)| (a.0@, a.1@),
            ) + key_actions_of(*e, key@),
    {
        let ghost base = old(out)@.map_values(|a: (String, String)| (a.0@, a.1@));
        let on_key = match e.components.get("on_key") {
            Some(v) => v,
            None => {
                assert(base + key_actions_of(*e, key@) =~= base);
                return;
            },
        };
        let items = match on_key.get("keys") {
            Some(keys) => match keys.as_array() {
                Some(items) => items,
                None => {
                    assert(base + key_actions_of(*e, key@) =~= base);
                    return;
                },
            },
            None => {
                assert(base + key_actions_of(*e, key@) =~= base);
                return;
            },
        };
        let ghost pred = |k: JsonValue| k.spec_as_str() == Some(key@);
        let mut j: usize = 0;
        assert(items@.take(0).filter(pred) =~= Seq::<JsonValue>::empty()) by {
            reveal(Seq::filter);
        }
        while j < items.len()
            invariant
                j <= items@.len(),
                e.components.wf(),
                e.components@.contains_key("on_key"@),
                *on_key == e.components@["on_key"@],
                on_key.spec_get("keys"@) matches Some(keys) && keys.spec_as_array() == Some(items@),
                pred == (|k: JsonValue| k.spec_as_str() == Some(key@)),
                base == old(out)@.map_values(|a: (String, String)| (a.0@, a.1@)),
                match on_key.spec_get("action"@) {
                    Some(a) => match a.spec_as_str() {
                        Some(act) => out@.map_values(|a: (String, String)| (a.0@, a.1@)) == base
                            + items@.take(j as int).filter(pred).map_values(
                            |k: JsonValue| (e.id@, act),
                        ),
                        None => out@ == old(out)@,
                    },
                    None => out@ == old(out)@,
                },
            decreases items@.len() - j,
        {
            let k = &items[j];
            proof {
                assert(items@.take(j + 1) =~= items@.take(j as int).push(*k));
                items@.take(j as int).lemma_filter_push(*k, pred);
            }
            let matches_key = match k.as_str() {
                Some(s) => str_eq(s, key),
                None => false,
            };
            if matches_key {
                match on_key.get("action") {
                    Some(a) => match a.as_str() {
                        Some(act) => {
                            let ghost before = out@;
                            out.push((e.id.clone(), act.to_owned()));
                            proof {
                                let f = |a: (String, String)| (a.0@, a.1@);
                                let g = |kk: JsonValue| (e.id@, act@);
                                assert(out@.map_values(f) =~= before.map_values(f).push((e.id@, act@)));
                                assert(items@.take(j + 1).filter(pred).map_values(g) =~= items@.take(
                                    j as int,
                                ).filter(pred).map_values(g).push((e.id@, act@)));
                            }
                        },
                        None => {},
                    },
                    None => {},
                }
            } else {
                proof {
                    match on_key.spec_get("action"@) {
                        Some(a) => match a.spec_as_str() {
                            Some(act) => {
                                let g = |kk: JsonValue| (e.id@, act);
                                assert(items@.take(j + 1).filter(pred) == items@.take(
                                    j as int,
                                ).filter(pred));
                            },
                            None => {},
                        },
                        None => {},
                    }
                }
            }
            j = j + 1;
        }
        proof {
            assert(items@.take(j as int) =~= items@);
            match on_key.spec_get("action"@) {
                Some(a) => match a.spec_as_str() {
                    Some(act) => {},
                    None => {
                        assert(base + key_actions_of(*e, key@) =~= base);
                        assert(out@.map_values(|a: (String, String)| (a.0@, a.1@)) == base);
                    },
                },
                None => {
                    assert(base + key_actions_of(*e, key@) =~= base);
                    assert(out@.map_values(|a: (String, String)| (a.0@, a.1@)) == base);
                },
            }
        }
    }

    /// Answers a press of `key`: collects the actions it asks for, then
    /// runs them.
    pub fn handle_key_down(&mut self, key: &str)
        requires
            old(self).wf(),
        ensures
            final(self).wf(),
            final(self).entities() == apply_actions(
                old(self).entities(),
                key_actions(old(self).entity_pairs(), key@),
            ),
            final(self).config() == old(self).config(),
            final(self).has_renderer() == old(self).has_renderer(),
            final(self).frame() == old(self).frame(),
            final(self).running() == old(self).running(),
    {
        let actions = self.key_actions(key);
        self.execute_actions(&actions);
    }

    /// Sets the runtime up with `config`: a renderer of its size, and running.
    pub fn init(&mut self, config: RuntimeConfig) -> (r: Result<(), RuntimeError>)
        requires
            old(self).wf(),
        ensures
            final(self).wf(),
            r is Ok,
            final(self).config() == Some(config),
            final(self).has_renderer(),
            final(self).running(),
            final(self).entities() == old(self).entities(),
            final(self).entity_pairs() == old(self).entity_pairs(),
            final(self).frame() == old(self).frame(),
    {
        self.renderer = Some(Renderer::new(config.width, config.height));
        self.config = Some(config);
        self.running = true;
        Ok(())
    }

    /// Counts one more updated frame.
    pub fn tick_frame(&mut self)
        requires
            old(self).wf(),
            old(self).frame() < u64::MAX,
        ensures
            final(self).wf(),
            final(self).frame() == old(self).frame() + 1,
            final(self).entities() == old(self).entities(),
            final(self).entity_pairs() == old(self).entity_pairs(),
            final(self).config() == old(self).config(),
            final(self).has_renderer() == old(self).has_renderer(),
            final(self).running() == old(self).running(),
    {
        self.frame = self.frame + 1;
    }

    /// The renderer and background colour a frame is drawn with; an error
    /// when the runtime has no renderer.
    pub fn begin_render(&self) -> (r: Result<(&Renderer, [u8; 4]), RuntimeError>)
        requires
            self.wf(),
        ensures
            self.has_renderer() <==> r is Ok,
            match r {
                Ok((_, bg)) => bg == self.config().unwrap().background_color,
                Err(RuntimeError::RenderFailed(m)) => m@ == "runtime not initialized"@,
                Err(_) => false,
            },
    {
        match &self.renderer {
            Some(renderer) => {
                let bg = match &self.config {
                    Some(c) => c.background_color,
                    None => [0u8, 0u8, 0u8, 0u8],
                };
                Ok((renderer, bg))
            },
            None => Err(RuntimeError::RenderFailed(String::from_str("runtime not initialized"))),
        }
    }

    /// Stops the runtime: no entities, no renderer, not running.
    pub fn shutdown(&mut self) -> (r: Result<(), RuntimeError>)
        requires
            old(self).wf(),
        ensures
            final(self).wf(),
            r is Ok,
            !final(self).running(),
            !final(self).has_renderer(),
            final(self).entities() == Map::<Seq<char>, EntityInstance>::empty(),
            final(self).entity_pairs() == Seq::<(Seq<char>, EntityInstance)>::empty(),
            final(self).config() == old(self).config(),
            final(self).frame() == old(self).frame(),
    {
        self.running = false;
        self.entities.clear();
        self.renderer = None;
        Ok(())
    }

    /// Whether a configuration was given.
    pub fn is_initialized(&self) -> (b: bool)
        ensures
            b == self.config() is Some,
    {
        self.config.is_some()
    }

    /// The number of frames updated.
    pub fn frame_count(&self) -> (n: u64)
        ensures
            n == self.frame(),
    {
        self.frame
    }

    /// Whether the runtime is running.
    pub fn is_running(&self) -> (b: bool)
        ensures
            b == self.running(),
    {
        self.running
    }

    /// Every entity of a well-formed runtime has well-formed components,
    /// wherever it stands in a reordering of them.
    proof fn lemma_reordered_wf(&self, es: Seq<EntityInstance>)
        requires
            self.wf(),
            es.to_multiset() == self.entity_pairs().map_values(|p: (Seq<char>, EntityInstance)| p.1).to_multiset(),
        ensures
            forall|k: int| 0 <= k < es.len() ==> (#[trigger] es[k]).components.wf(),
    {
        let vals = self.entity_pairs().map_values(|p: (Seq<char>, EntityInstance)| p.1);
        assert forall|k: int| 0 <= k < es.len() implies (#[trigger] es[k]).components.wf() by {
            assert(es.contains(es[k]));
            to_multiset_contains(es, es[k]);
            to_multiset_contains(vals, es[k]);
            let j = choose|j: int| 0 <= j < vals.len() && vals[j] == es[k];
            assert(self.entities.pairs()[j].1 == vals[j]);
        }
    }

    /// What a frame draws: the visible entities ordered by layer, each
    /// with its sprite, rectangle and text, as far as it has them.
    pub fn draw_list(&self) -> (r: Vec<DrawCommand>)
        requires
            self.wf(),
        ensures
            exists|es: Seq<EntityInstance>|
                #[trigger] in_layer_order(es, self.entity_pairs()) && r@.map_values(|c: DrawCommand| c@)
                    == frame_draws(es),
    {
        let ents = self.get_entities();
        let ghost es = ents@.map_values(|e: &EntityInstance| *e);
        proof {
            self.lemma_reordered_wf(es);
        }
        let mut out: Vec<DrawCommand> = Vec::new();
        let mut i: usize = 0;
        while i < ents.len()
            invariant
                i <= es.len(),
                es == ents@.map_values(|e: &EntityInstance| *e),
                forall|k: int| 0 <= k < es.len() ==> (#[trigger] es[k]).components.wf(),
                out@.map_values(|c: DrawCommand| c@) == frame_draws(es.take(i as int)),
            decreases es.len() - i,
        {
            assert(es[i as int] == *ents[i as int]);
            push_entity_draws(ents[i], &mut out);
            assert(es.take(i + 1).drop_last() =~= es.take(i as int));
            i = i + 1;
        }
        assert(es.take(i as int) =~= es);
        assert(in_layer_order(es, self.entity_pairs()));
        out
    }

    /// `(id, vx, vy)` of each entity whose `movement` component gives both
    /// velocities as numbers, in the order the entities were added.
    pub fn velocities(&self) -> (r: Vec<(String, JsonNumber, JsonNumber)>)
        requires
            self.wf(),
        ensures
            r@.map_values(|v: (String, JsonNumber, JsonNumber)| (v.0@, v.1, v.2)) == velocities(
                self.entity_pairs(),
            ),
    {
        let ghost pairs = self.entities.pairs();
        let mut out: Vec<(String, JsonNumber, JsonNumber)> = Vec::new();
        let mut i: usize = 0;
        while i < self.entities.len()
            invariant
                i <= pairs.len(),
                pairs == self.entities.pairs(),
                self.wf(),
                out@.map_values(|v: (String, JsonNumber, JsonNumber)| (v.0@, v.1, v.2)) == velocities(
                    pairs.take(i as int),
                ),
            decreases pairs.len() - i,
        {
            let e = self.entities.value_at(i);
            assert(pairs.take(i + 1).drop_last() =~= pairs.take(i as int));
            assert(pairs[i as int].1.components.wf());
            let ghost before = out@.map_values(|v: (String, JsonNumber, JsonNumber)| (v.0@, v.1, v.2));
            match e.components.get("movement") {
                Some(m) => {
                    match (number_param_exec(m, "vx"), number_param_exec(m, "vy")) {
                        (Some(vx), Some(vy)) => {
                            out.push((e.id.clone(), vx, vy));
                            assert(out@.map_values(|v: (String, JsonNumber, JsonNumber)| (v.0@, v.1, v.2))
                                =~= before.push((pairs[i as int].0, vx, vy)));
                        },
                        _ => {},
                    }
                },
                None => {},
            }
            i = i + 1;
        }
        assert(pairs.take(i as int) =~= pairs);
        out
    }

    /// The entities the pointer may act on, in the order they were added:
    /// those whose `on_hover` component names an action.
    pub fn hover_targets(&self) -> (r: Vec<HoverTarget>)
        requires
            self.wf(),
        ensures
            r@.map_values(|t: HoverTarget| target_view(t)) == hover_targets_of(self.entity_pairs()),
    {
        let ghost pairs = self.entities.pairs();
        let mut out: Vec<HoverTarget> = Vec::new();
        let mut i: usize = 0;
        while i < self.entities.len()
            invariant
                i <= pairs.len(),
                pairs == self.entities.pairs(),
                self.wf(),
                out@.map_values(|t: HoverTarget| target_view(t)) == hover_targets_of(pairs.take(i as int)),
            decreases pairs.len() - i,
        {
            let e = self.entities.value_at(i);
            assert(pairs.take(i + 1).drop_last() =~= pairs.take(i as int));
            assert(pairs[i as int].1.components.wf());
            let ghost before = out@.map_values(|t: HoverTarget| target_view(t));
            match e.components.get("on_hover") {
                Some(h) => match e.hover_action() {
                    Some(a) => {
                        out.push(HoverTarget {
                            id: e.id.clone(),
                            x: e.x,
                            y: e.y,
                            width: number_param_exec(h, "width"),
                            height: number_param_exec(h, "height"),
                            action: String::from_str(a),
                        });
                        assert(out@.map_values(|t: HoverTarget| target_view(t)) =~= before.push(
                            target_view(out@.last()),
                        ));
                    },
                    None => {},
                },
                None => {},
            }
            i = i + 1;
        }
        assert(pairs.take(i as int) =~= pairs);
        out
    }
}

impl Default for LightRuntime {
    /// A runtime with nothing set up.
    fn default() -> (r: Self)
        ensures
            r.wf(),
            r.entities() == Map::<Seq<char>, EntityInstance>::empty(),
            r.config() is None,
            !r.has_renderer(),
            r.frame() == 0,
            !r.running(),
    {
        Self::new()
    }
}

} // verus!
