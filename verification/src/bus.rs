//! The Forge bus: the platform's message bus.
//!
//! Handlers subscribe to a message type by its name, or to every message
//! with `*`.  Publishing a message calls the handlers of its type, in
//! subscription order, then the `*` handlers.  The WebSocket event stream
//! uses `msg_matches_project` to pass a client only the events of its
//! project; events that belong to no project always pass.

use crate::table::{Table, lemma_index_of, lemma_put, lemma_update_is_put, put, has_key};
use crate::text::str_eq;
use vstd::prelude::*;

verus! {

/// A message on the bus.  `delta_time` in `RuntimeUpdate` is the bit
/// pattern of an `f64` number of seconds.
#[derive(Debug)]
pub enum BusMessage {
    ProjectCreated { project_id: String },
    ProjectUpdated { project_id: String },
    ProjectDeleted { project_id: String },
    EntityCreated { project_id: String, scene_id: String, entity_id: String },
    SceneCreated { project_id: String, scene_id: String },
    SceneUpdated { project_id: String, scene_id: String },
    SceneDeleted { project_id: String, scene_id: String },
    NodeAdded { scene_id: String, node_id: String, parent_id: Option<String> },
    NodeUpdated { scene_id: String, node_id: String },
    NodeDeleted { scene_id: String, node_id: String },
    AssetCreated { project_id: String, asset_id: String },
    AssetUpdated { project_id: String, asset_id: String },
    AssetDeleted { project_id: String, asset_id: String },
    AssetReady { project_id: String, asset_id: String, url: String },
    ScriptCreated { project_id: String, script_id: String },
    ScriptUpdated { project_id: String, script_id: String },
    ScriptDeleted { project_id: String, script_id: String },
    ScriptCompiled { project_id: String, script_id: String, success: bool },
    BuildStarted { project_id: String, build_id: String },
    BuildProgress { project_id: String, build_id: String, percent: u8, step: String },
    BuildCompleted { project_id: String, build_id: String, download_url: String },
    BuildFailed { project_id: String, build_id: String, error: String },
    RuntimeInit { project_id: String, scene_id: String },
    RuntimeUpdate { project_id: String, frame: u64, delta_time: u64 },
    RuntimeError { project_id: String, code: String, message: String },
    ExtensionRegistered { extension_type: String, name: String },
}

impl BusMessage {
    /// The message's type tag, by which handlers subscribe.
    pub open spec fn spec_type_tag(&self) -> Seq<char> {
        match self {
            BusMessage::ProjectCreated { .. } => "project_created"@,
            BusMessage::ProjectUpdated { .. } => "project_updated"@,
            BusMessage::ProjectDeleted { .. } => "project_deleted"@,
            BusMessage::EntityCreated { .. } => "entity_created"@,
            BusMessage::SceneCreated { .. } => "scene_created"@,
            BusMessage::SceneUpdated { .. } => "scene_updated"@,
            BusMessage::SceneDeleted { .. } => "scene_deleted"@,
            BusMessage::NodeAdded { .. } => "node_added"@,
            BusMessage::NodeUpdated { .. } => "node_updated"@,
            BusMessage::NodeDeleted { .. } => "node_deleted"@,
            BusMessage::AssetCreated { .. } => "asset_created"@,
            BusMessage::AssetUpdated { .. } => "asset_updated"@,
            BusMessage::AssetDeleted { .. } => "asset_deleted"@,
            BusMessage::AssetReady { .. } => "asset_ready"@,
            BusMessage::ScriptCreated { .. } => "script_created"@,
            BusMessage::ScriptUpdated { .. } => "script_updated"@,
            BusMessage::ScriptDeleted { .. } => "script_deleted"@,
            BusMessage::ScriptCompiled { .. } => "script_compiled"@,
            BusMessage::BuildStarted { .. } => "build_started"@,
            BusMessage::BuildProgress { .. } => "build_progress"@,
            BusMessage::BuildCompleted { .. } => "build_completed"@,
            BusMessage::BuildFailed { .. } => "build_failed"@,
            BusMessage::RuntimeInit { .. } => "runtime_init"@,
            BusMessage::RuntimeUpdate { .. } => "runtime_update"@,
            BusMessage::RuntimeError { .. } => "runtime_error"@,
            BusMessage::ExtensionRegistered { .. } => "extension_registered"@,
        }
    }

    /// The project a message belongs to; `None` for the scene-node and
    /// extension events, which belong to no project.
    pub open spec fn spec_project(&self) -> Option<Seq<char>> {
        match self {
            BusMessage::ProjectCreated { project_id } => Some(project_id@),
            BusMessage::ProjectUpdated { project_id } => Some(project_id@),
            BusMessage::ProjectDeleted { project_id } => Some(project_id@),
            BusMessage::EntityCreated { project_id, .. } => Some(project_id@),
            BusMessage::SceneCreated { project_id, .. } => Some(project_id@),
            BusMessage::SceneUpdated { project_id, .. } => Some(project_id@),
            BusMessage::SceneDeleted { project_id, .. } => Some(project_id@),
            BusMessage::AssetCreated { project_id, .. } => Some(project_id@),
            BusMessage::AssetUpdated { project_id, .. } => Some(project_id@),
            BusMessage::AssetDeleted { project_id, .. } => Some(project_id@),
            BusMessage::AssetReady { project_id, .. } => Some(project_id@),
            BusMessage::ScriptCreated { project_id, .. } => Some(project_id@),
            BusMessage::ScriptUpdated { project_id, .. } => Some(project_id@),
            BusMessage::ScriptDeleted { project_id, .. } => Some(project_id@),
            BusMessage::ScriptCompiled { project_id, .. } => Some(project_id@),
            BusMessage::BuildStarted { project_id, .. } => Some(project_id@),
            BusMessage::BuildProgress { project_id, .. } => Some(project_id@),
            BusMessage::BuildCompleted { project_id, .. } => Some(project_id@),
            BusMessage::BuildFailed { project_id, .. } => Some(project_id@),
            BusMessage::RuntimeInit { project_id, .. } => Some(project_id@),
            BusMessage::RuntimeUpdate { project_id, .. } => Some(project_id@),
            BusMessage::RuntimeError { project_id, .. } => Some(project_id@),
            BusMessage::NodeAdded { .. } => None,
            BusMessage::NodeUpdated { .. } => None,
            BusMessage::NodeDeleted { .. } => None,
            BusMessage::ExtensionRegistered { .. } => None,
        }
    }

    /// The message's type tag.
    pub fn type_tag(&self) -> (n: &'static str)
        ensures
            n@ == self.spec_type_tag(),
    {
        match self {
            BusMessage::ProjectCreated { .. } => "project_created",
            BusMessage::ProjectUpdated { .. } => "project_updated",
            BusMessage::ProjectDeleted { .. } => "project_deleted",
            BusMessage::EntityCreated { .. } => "entity_created",
            BusMessage::SceneCreated { .. } => "scene_created",
            BusMessage::SceneUpdated { .. } => "scene_updated",
            BusMessage::SceneDeleted { .. } => "scene_deleted",
            BusMessage::NodeAdded { .. } => "node_added",
            BusMessage::NodeUpdated { .. } => "node_updated",
            BusMessage::NodeDeleted { .. } => "node_deleted",
            BusMessage::AssetCreated { .. } => "asset_created",
            BusMessage::AssetUpdated { .. } => "asset_updated",
            BusMessage::AssetDeleted { .. } => "asset_deleted",
            BusMessage::AssetReady { .. } => "asset_ready",
            BusMessage::ScriptCreated { .. } => "script_created",
            BusMessage::ScriptUpdated { .. } => "script_updated",
            BusMessage::ScriptDeleted { .. } => "script_deleted",
            BusMessage::ScriptCompiled { .. } => "script_compiled",
            BusMessage::BuildStarted { .. } => "build_started",
            BusMessage::BuildProgress { .. } => "build_progress",
            BusMessage::BuildCompleted { .. } => "build_completed",
            BusMessage::BuildFailed { .. } => "build_failed",
            BusMessage::RuntimeInit { .. } => "runtime_init",
            BusMessage::RuntimeUpdate { .. } => "runtime_update",
            BusMessage::RuntimeError { .. } => "runtime_error",
            BusMessage::ExtensionRegistered { .. } => "extension_registered",
        }
    }

    /// The project the message belongs to, if any.
    pub fn project_id(&self) -> (r: Option<&String>)
        ensures
            match r {
                Some(p) => self.spec_project() == Some(p@),
                None => self.spec_project() is None,
            },
    {
        match self {
            BusMessage::ProjectCreated { project_id } => Some(project_id),
            BusMessage::ProjectUpdated { project_id } => Some(project_id),
            BusMessage::ProjectDeleted { project_id } => Some(project_id),
            BusMessage::EntityCreated { project_id, .. } => Some(project_id),
            BusMessage::SceneCreated { project_id, .. } => Some(project_id),
            BusMessage::SceneUpdated { project_id, .. } => Some(project_id),
            BusMessage::SceneDeleted { project_id, .. } => Some(project_id),
            BusMessage::AssetCreated { project_id, .. } => Some(project_id),
            BusMessage::AssetUpdated { project_id, .. } => Some(project_id),
            BusMessage::AssetDeleted { project_id, .. } => Some(project_id),
            BusMessage::AssetReady { project_id, .. } => Some(project_id),
            BusMessage::ScriptCreated { project_id, .. } => Some(project_id),
            BusMessage::ScriptUpdated { project_id, .. } => Some(project_id),
            BusMessage::ScriptDeleted { project_id, .. } => Some(project_id),
            BusMessage::ScriptCompiled { project_id, .. } => Some(project_id),
            BusMessage::BuildStarted { project_id, .. } => Some(project_id),
            BusMessage::BuildProgress { project_id, .. } => Some(project_id),
            BusMessage::BuildCompleted { project_id, .. } => Some(project_id),
            BusMessage::BuildFailed { project_id, .. } => Some(project_id),
            BusMessage::RuntimeInit { project_id, .. } => Some(project_id),
            BusMessage::RuntimeUpdate { project_id, .. } => Some(project_id),
            BusMessage::RuntimeError { project_id, .. } => Some(project_id),
            BusMessage::NodeAdded { .. } => None,
            BusMessage::NodeUpdated { .. } => None,
            BusMessage::NodeDeleted { .. } => None,
            BusMessage::ExtensionRegistered { .. } => None,
        }
    }
}

/// Whether a client following `project_id` receives `msg`: the events of
/// that project, and every event that belongs to no project.
pub open spec fn spec_matches_project(msg: BusMessage, project_id: Seq<char>) -> bool {
    match msg.spec_project() {
        Some(p) => p == project_id,
        None => true,
    }
}

/// Whether a client following `project_id` receives `msg`.
pub fn msg_matches_project(msg: &BusMessage, project_id: &str) -> (b: bool)
    ensures
        b == spec_matches_project(*msg, project_id@),
{
    match msg.project_id() {
        Some(p) => str_eq(p.as_str(), project_id),
        None => true,
    }
}

/// The parameters of a connection to the event stream.
#[derive(Debug)]
pub struct WsParams {
    /// The JWT the connection is authorised with.
    pub token: String,
    /// The project whose events the connection follows, if any.
    pub project_id: Option<String>,
}

/// Whether a connection following `project_filter` (every event when
/// `None`) is sent `msg`.
pub fn event_passes(project_filter: &Option<String>, msg: &BusMessage) -> (b: bool)
    ensures
        b == match project_filter {
            Some(p) => spec_matches_project(*msg, p@),
            None => true,
        },
{
    match project_filter {
        Some(p) => msg_matches_project(msg, p.as_str()),
        None => true,
    }
}

/// A receiver of bus messages.
pub trait BusMessageHandler {
    /// Handles one message.
    fn handle(&self, message: &BusMessage);
}

/// The message bus: handlers by the message type they subscribed to.
pub struct ForgeBus<H> {
    subscribers: Table<Vec<H>>,
}

/// The handlers a message of type `t` reaches: those of `t`, then those of `*`.
pub open spec fn reached<H>(subs: Map<Seq<char>, Seq<H>>, t: Seq<char>) -> Seq<H> {
    (if subs.contains_key(t) {
        subs[t]
    } else {
        Seq::empty()
    }) + (if subs.contains_key("*"@) {
        subs["*"@]
    } else {
        Seq::empty()
    })
}

impl<H> ForgeBus<H> {
    /// The handlers by subscribed type, in subscription order.
    pub closed spec fn subscribers(&self) -> Map<Seq<char>, Seq<H>> {
        self.subscribers@.map_values(|v: Vec<H>| v@)
    }

    /// The bus's table is well formed.
    pub closed spec fn wf(&self) -> bool {
        self.subscribers.wf()
    }

    /// A bus with no subscribers.
    pub fn new() -> (b: Self)
        ensures
            b.wf(),
            b.subscribers() == Map::<Seq<char>, Seq<H>>::empty(),
    {
        let b = ForgeBus { subscribers: Table::new() };
        assert(b.subscribers() =~= Map::<Seq<char>, Seq<H>>::empty());
        b
    }

    /// Adds `handler` to the handlers of `message_type`.
    pub fn subscribe(&mut self, message_type: String, handler: H)
        requires
            old(self).wf(),
        ensures
            final(self).wf(),
            final(self).subscribers() == old(self).subscribers().insert(
                message_type@,
                if old(self).subscribers().contains_key(message_type@) {
                    old(self).subscribers()[message_type@].push(handler)
                } else {
                    seq![handler]
                },
            ),
    {
        let ghost s = self.subscribers.pairs();
        let ghost t = message_type@;
        match self.subscribers.position(message_type.as_str()) {
            Some(i) => {
                proof {
                    lemma_index_of(s, i as int);
                }
                let (k, mut handlers) = self.subscribers.remove_at(i);
                let ghost before = handlers@;
                handlers.push(handler);
                proof {
                    lemma_update_is_put(s, i as int, handlers);
                    lemma_put(s, k@, handlers);
                }
                self.subscribers.insert_at(i, k, handlers);
                assert(self.subscribers() =~= old(self).subscribers().insert(t, before.push(handler)));
            },
            None => {
                let mut handlers = Vec::new();
                handlers.push(handler);
                self.subscribers.insert(message_type, handlers);
                assert(handlers@ =~= seq![handler]);
                assert(self.subscribers() =~= old(self).subscribers().insert(t, seq![handler]));
            },
        }
    }

    /// Removes every handler of `message_type`.
    pub fn unsubscribe(&mut self, message_type: &str)
        requires
            old(self).wf(),
        ensures
            final(self).wf(),
            final(self).subscribers() == old(self).subscribers().remove(message_type@),
    {
        self.subscribers.remove(message_type);
        assert(self.subscribers() =~= old(self).subscribers().remove(message_type@));
    }

    /// The handlers `message` reaches, in the order they are called.
    pub fn handlers_for(&self, message: &BusMessage) -> (r: Vec<&H>)
        requires
            self.wf(),
        ensures
            r@.map_values(|h: &H| *h) == reached(self.subscribers(), message.spec_type_tag()),
    {
        let mut out: Vec<&H> = Vec::new();
        let t = message.type_tag();
        match self.subscribers.get(t) {
            Some(hs) => Self::push_all(&mut out, hs),
            None => {},
        }
        let ghost mid = out@.map_values(|h: &H| *h);
        match self.subscribers.get("*") {
            Some(hs) => Self::push_all(&mut out, hs),
            None => {},
        }
        proof {
            let subs = self.subscribers();
            assert(mid == (if subs.contains_key(t@) {
                subs[t@]
            } else {
                Seq::<H>::empty()
            }));
        }
        assert(out@.map_values(|h: &H| *h) =~= reached(self.subscribers(), message.spec_type_tag()));
        out
    }

    /// Appends references to `hs` to `out`.
    fn push_all<'a>(out: &mut Vec<&'a H>, hs: &'a Vec<H>)
        ensures
            final(out)@.map_values(|h: &H| *h) == old(out)@.map_values(|h: &H| *h) + hs@,
    {
        let mut i: usize = 0;
        while i < hs.len()
            invariant
                i <= hs@.len(),
                out@.map_values(|h: &H| *h) == old(out)@.map_values(|h: &H| *h) + hs@.take(i as int),
            decreases hs@.len() - i,
        {
            let ghost before = out@.map_values(|h: &H| *h);
            out.push(&hs[i]);
            assert(out@.map_values(|h: &H| *h) =~= before.push(hs@[i as int]));
            assert(hs@.take(i + 1) =~= hs@.take(i as int).push(hs@[i as int]));
            i = i + 1;
        }
        assert(hs@.take(i as int) =~= hs@);
    }
}

impl<H> Default for ForgeBus<H> {
    /// A bus with no subscribers.
    fn default() -> (b: Self)
        ensures
            b.wf(),
            b.subscribers() == Map::<Seq<char>, Seq<H>>::empty(),
    {
        Self::new()
    }
}

impl<H: BusMessageHandler> ForgeBus<H> {
    /// Delivers `message` to every handler it reaches (see `handlers_for`).
    pub fn publish(&self, message: &BusMessage)
        requires
            self.wf(),
    {
        let handlers = self.handlers_for(message);
        let mut i: usize = 0;
        while i < handlers.len()
            invariant
                i <= handlers@.len(),
            decreases handlers@.len() - i,
        {
            handlers[i].handle(message);
            i = i + 1;
        }
    }
}

} // verus!
