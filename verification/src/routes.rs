//! The forge API service: project and scene records kept in memory, with
//! create, list, get, update and delete.
//!
//! Records get a fresh UUID as id and RFC 3339 timestamps.  A lookup of an
//! unknown id is answered with status 404.

use crate::clock::now_rfc3339;
use crate::ids::new_uuid;
use crate::table::{
    Table,
    put,
    del,
    keyed,
    keys_unique,
    to_map,
    lemma_keyed_values,
    keys_match,
    lemma_del_keys_match,
    lemma_index_of,
    lemma_put,
    lemma_put_keys_match,
    lemma_update_is_put,
    values_of,
};
use crate::text::str_eq;
use vstd::prelude::*;

verus! {

/// The status of a request for an unknown record.
pub const NOT_FOUND: u16 = 404;

/// The body of the health check.
#[derive(Debug)]
pub struct HealthResponse {
    pub status: String,
    pub version: String,
}

/// The health check's answer.
pub fn health() -> (r: &'static str)
    ensures
        r@ == "{\"status\":\"ok\",\"version\":\"0.1.0\"}"@,
{
    "{\"status\":\"ok\",\"version\":\"0.1.0\"}"
}

/// A project.
#[derive(Debug, Clone)]
pub struct Project {
    pub id: String,
    pub name: String,
    pub description: String,
    pub created_at: String,
    pub updated_at: String,
}

/// A request to create a project.
#[derive(Debug)]
pub struct CreateProjectRequest {
    pub name: String,
    pub description: String,
}

/// A request to change a project: each field present replaces the old one.
#[derive(Debug)]
pub struct UpdateProjectRequest {
    pub name: Option<String>,
    pub description: Option<String>,
}

/// A scene.
#[derive(Debug, Clone)]
pub struct Scene {
    pub id: String,
    pub project_id: String,
    pub name: String,
    pub description: String,
    pub created_at: String,
    pub updated_at: String,
}

/// A request to create a scene.
#[derive(Debug)]
pub struct CreateSceneRequest {
    pub project_id: String,
    pub name: String,
    pub description: String,
}

/// A request to change a scene: each field present replaces the old one.
#[derive(Debug)]
pub struct UpdateSceneRequest {
    pub name: Option<String>,
    pub description: Option<String>,
}

impl Project {
    /// A copy of the project.
    pub fn duplicate(&self) -> (r: Self)
        ensures
            r == *self,
    {
        Project {
            id: self.id.clone(),
            name: self.name.clone(),
            description: self.description.clone(),
            created_at: self.created_at.clone(),
            updated_at: self.updated_at.clone(),
        }
    }
}

impl Scene {
    /// A copy of the scene.
    pub fn duplicate(&self) -> (r: Self)
        ensures
            r == *self,
    {
        Scene {
            id: self.id.clone(),
            project_id: self.project_id.clone(),
            name: self.name.clone(),
            description: self.description.clone(),
            created_at: self.created_at.clone(),
            updated_at: self.updated_at.clone(),
        }
    }
}

/// A field after an update: the new value when there is one.
pub open spec fn updated_field(old: String, new: Option<String>) -> String {
    match new {
        Some(v) => v,
        None => old,
    }
}

/// Projects, each under its id.
pub open spec fn project_pairs(s: Seq<Project>) -> Seq<(Seq<char>, Project)> {
    keyed(s, |p: Project| p.id@)
}

/// Scenes, each under its id.
pub open spec fn scene_pairs(s: Seq<Scene>) -> Seq<(Seq<char>, Scene)> {
    keyed(s, |s: Scene| s.id@)
}

/// The service's records.
pub struct AppState {
    store: Table<Project>,
    scenes: Table<Scene>,
}

impl AppState {
    /// The projects by id.
    pub closed spec fn projects(&self) -> Map<Seq<char>, Project> {
        self.store@
    }

    /// The projects in creation order.
    pub closed spec fn project_list(&self) -> Seq<Project> {
        values_of(self.store.pairs())
    }

    /// The scenes by id.
    pub closed spec fn scenes(&self) -> Map<Seq<char>, Scene> {
        self.scenes@
    }

    /// The scenes in creation order.
    pub closed spec fn scene_list(&self) -> Seq<Scene> {
        values_of(self.scenes.pairs())
    }

    /// Every record is kept under its own id.
    pub closed spec fn wf(&self) -> bool {
        &&& self.store.wf()
        &&& keys_match(self.store.pairs(), |p: Project| p.id@)
        &&& self.scenes.wf()
        &&& keys_match(self.scenes.pairs(), |s: Scene| s.id@)
    }

    /// After storing project `k`, it stands where it stood, or last when it
    /// is new; the scene list is as it was.
    pub open spec fn project_put_from(&self, before: Self, k: Seq<char>) -> bool {
        &&& project_pairs(self.project_list()) == put(project_pairs(before.project_list()), k, self.projects()[k])
        &&& self.scene_list() == before.scene_list()
    }

    /// After storing scene `k`, it stands where it stood, or last when it
    /// is new; the project list is as it was.
    pub open spec fn scene_put_from(&self, before: Self, k: Seq<char>) -> bool {
        &&& scene_pairs(self.scene_list()) == put(scene_pairs(before.scene_list()), k, self.scenes()[k])
        &&& self.project_list() == before.project_list()
    }

    /// The lists of a well-formed state hold each record once, under its
    /// own id, and denote the maps by id.
    pub proof fn lemma_lists(&self)
        requires
            self.wf(),
        ensures
            keys_unique(project_pairs(self.project_list())),
            to_map(project_pairs(self.project_list())) == self.projects(),
            keys_unique(scene_pairs(self.scene_list())),
            to_map(scene_pairs(self.scene_list())) == self.scenes(),
    {
        lemma_keyed_values(self.store.pairs(), |p: Project| p.id@);
        lemma_keyed_values(self.scenes.pairs(), |s: Scene| s.id@);
    }

    /// No records.
    pub fn new() -> (s: Self)
        ensures
            s.wf(),
            s.projects() == Map::<Seq<char>, Project>::empty(),
            s.scenes() == Map::<Seq<char>, Scene>::empty(),
            s.project_list() == Seq::<Project>::empty(),
            s.scene_list() == Seq::<Scene>::empty(),
    {
        let s = AppState { store: Table::new(), scenes: Table::new() };
        assert(s.project_list() =~= Seq::<Project>::empty());
        assert(s.scene_list() =~= Seq::<Scene>::empty());
        s
    }

    /// Every project, in creation order.
    pub fn list_projects(&self) -> (r: Vec<Project>)
        requires
            self.wf(),
        ensures
            r@ == self.project_list(),
    {
        let mut out: Vec<Project> = Vec::new();
        let mut i: usize = 0;
        while i < self.store.len()
            invariant
                i <= self.store.pairs().len(),
                out@ == self.project_list().take(i as int),
            decreases self.store.pairs().len() - i,
        {
            let p = self.store.value_at(i).duplicate();
            out.push(p);
            assert(out@ =~= self.project_list().take(i + 1));
            i = i + 1;
        }
        assert(self.project_list().take(i as int) =~= self.project_list());
        out
    }

    /// Adds `project` under its id.
    fn put_project(&mut self, project: Project)
        requires
            old(self).wf(),
        ensures
            final(self).wf(),
            final(self).projects() == old(self).projects().insert(project.id@, project),
            final(self).project_put_from(*old(self), project.id@),
            final(self).scenes() == old(self).scenes(),
    {
        let ghost s = self.store.pairs();
        let key = project.id.clone();
        proof {
            lemma_put_keys_match(s, key@, project, |p: Project| p.id@);
        }
        self.store.insert(key, project);
        proof {
            lemma_keyed_values(s, |p: Project| p.id@);
            lemma_keyed_values(self.store.pairs(), |p: Project| p.id@);
        }
    }

    /// Creates a project with id `id` and timestamps `created_at` and `updated_at`.
    pub fn create_project_with(
        &mut self,
        payload: CreateProjectRequest,
        id: String,
        created_at: String,
        updated_at: String,
    ) -> (r: Project)
        requires
            old(self).wf(),
        ensures
            final(self).wf(),
            r == (Project {
                id,
                name: payload.name,
                description: payload.description,
                created_at,
                updated_at,
            }),
            final(self).projects() == old(self).projects().insert(id@, r),
            final(self).scenes() == old(self).scenes(),
            final(self).project_put_from(*old(self), r.id@),
    {
        let project = Project {
            id,
            name: payload.name,
            description: payload.description,
            created_at,
            updated_at,
        };
        let reply = project.duplicate();
        self.put_project(project);
        reply
    }

    /// Creates a project with a fresh UUID as id, stamped with the current time.
    pub fn create_project(&mut self, payload: CreateProjectRequest) -> (r: Project)
        requires
            old(self).wf(),
        ensures
            final(self).wf(),
            crate::ids::uuid_v4_text(r.id@),
            r.name == payload.name,
            r.description == payload.description,
            final(self).projects() == old(self).projects().insert(r.id@, r),
            final(self).scenes() == old(self).scenes(),
            final(self).project_put_from(*old(self), r.id@),
    {
        let id = new_uuid();
        let created_at = now_rfc3339();
        let updated_at = now_rfc3339();
        self.create_project_with(payload, id, created_at, updated_at)
    }

    /// The project `id`; 404 when there is none.
    pub fn get_project(&self, id: &str) -> (r: Result<Project, u16>)
        requires
            self.wf(),
        ensures
            match r {
                Ok(p) => self.projects().contains_key(id@) && p == self.projects()[id@],
                Err(code) => !self.projects().contains_key(id@) && code == NOT_FOUND,
            },
    {
        match self.store.get(id) {
            Some(p) => Ok(p.duplicate()),
            None => Err(NOT_FOUND),
        }
    }

    /// Updates the project `id` with the fields the request has, stamping it
    /// with `updated_at`; 404 when there is none.
    pub fn update_project_with(&mut self, id: &str, payload: UpdateProjectRequest, updated_at: String) -> (r:
        Result<Project, u16>)
        requires
            old(self).wf(),
        ensures
            final(self).wf(),
            final(self).scenes() == old(self).scenes(),
            !old(self).projects().contains_key(id@) ==> r == Err::<Project, u16>(NOT_FOUND)
                && final(self).projects() == old(self).projects(),
            old(self).projects().contains_key(id@) ==> (r matches Ok(p) && p == (Project {
                name: updated_field(old(self).projects()[id@].name, payload.name),
                description: updated_field(old(self).projects()[id@].description, payload.description),
                updated_at,
                ..old(self).projects()[id@]
            }) && final(self).projects() == old(self).projects().insert(id@, p)),
            r is Ok ==> final(self).project_put_from(*old(self), id@),
            r is Err ==> final(self).project_list() == old(self).project_list() && final(self).scene_list()
                == old(self).scene_list(),
    {
        match self.store.position(id) {
            None => Err(NOT_FOUND),
            Some(i) => {
                let ghost s = self.store.pairs();
                proof {
                    lemma_index_of(s, i as int);
                }
                let (k, mut p) = self.store.remove_at(i);
                match payload.name {
                    Some(name) => {
                        p.name = name;
                    },
                    None => {},
                }
                match payload.description {
                    Some(description) => {
                        p.description = description;
                    },
                    None => {},
                }
                p.updated_at = updated_at;
                let reply = p.duplicate();
                proof {
                    lemma_update_is_put(s, i as int, p);
                    lemma_put(s, k@, p);
                    lemma_put_keys_match(s, k@, p, |p: Project| p.id@);
                }
                self.store.insert_at(i, k, p);
                proof {
                    lemma_keyed_values(s, |p: Project| p.id@);
                    lemma_keyed_values(self.store.pairs(), |p: Project| p.id@);
                }
                Ok(reply)
            },
        }
    }

    /// Updates the project `id` with the fields the request has, stamped
    /// with the current time; 404 when there is none.
    pub fn update_project(&mut self, id: &str, payload: UpdateProjectRequest) -> (r: Result<Project, u16>)
        requires
            old(self).wf(),
        ensures
            final(self).wf(),
            final(self).scenes() == old(self).scenes(),
            !old(self).projects().contains_key(id@) ==> r == Err::<Project, u16>(NOT_FOUND)
                && final(self).projects() == old(self).projects(),
            old(self).projects().contains_key(id@) ==> (r matches Ok(p) && p.id
                == old(self).projects()[id@].id && p.name == updated_field(
                old(self).projects()[id@].name,
                payload.name,
            ) && p.description == updated_field(old(self).projects()[id@].description, payload.description)
                && p.created_at == old(self).projects()[id@].created_at
                && final(self).projects() == old(self).projects().insert(id@, p)),
            r is Ok ==> final(self).project_put_from(*old(self), id@),
            r is Err ==> final(self).project_list() == old(self).project_list() && final(self).scene_list()
                == old(self).scene_list(),
    {
        let updated_at = now_rfc3339();
        self.update_project_with(id, payload, updated_at)
    }

    /// Deletes the project `id`; 404 when there is none.
    pub fn delete_project(&mut self, id: &str) -> (r: Result<(), u16>)
        requires
            old(self).wf(),
        ensures
            final(self).wf(),
            final(self).projects() == old(self).projects().remove(id@),
            final(self).scenes() == old(self).scenes(),
            r is Ok <==> old(self).projects().contains_key(id@),
            r matches Err(code) ==> code == NOT_FOUND,
            project_pairs(final(self).project_list()) == del(project_pairs(old(self).project_list()), id@),
            final(self).scene_list() == old(self).scene_list(),
    {
        let ghost s = self.store.pairs();
        proof {
            lemma_del_keys_match(s, id@, |p: Project| p.id@);
        }
        let removed = self.store.remove(id);
        proof {
            lemma_keyed_values(s, |p: Project| p.id@);
            lemma_keyed_values(self.store.pairs(), |p: Project| p.id@);
        }
        match removed {
            Some(_) => Ok(()),
            None => Err(NOT_FOUND),
        }
    }

    /// Every scene, in creation order.
    pub fn list_scenes(&self) -> (r: Vec<Scene>)
        requires
            self.wf(),
        ensures
            r@ == self.scene_list(),
    {
        let mut out: Vec<Scene> = Vec::new();
        let mut i: usize = 0;
        while i < self.scenes.len()
            invariant
                i <= self.scenes.pairs().len(),
                out@ == self.scene_list().take(i as int),
            decreases self.scenes.pairs().len() - i,
        {
            let sc = self.scenes.value_at(i).duplicate();
            out.push(sc);
            assert(out@ =~= self.scene_list().take(i + 1));
            i = i + 1;
        }
        assert(self.scene_list().take(i as int) =~= self.scene_list());
        out
    }

    /// The scenes of project `project_id`, in creation order.
    pub fn list_scenes_by_project(&self, project_id: &str) -> (r: Vec<Scene>)
        requires
            self.wf(),
        ensures
            r@ == self.scene_list().filter(|s: Scene| s.project_id@ == project_id@),
    {
        let ghost all = self.scene_list();
        let ghost pred = |s: Scene| s.project_id@ == project_id@;
        let mut out: Vec<Scene> = Vec::new();
        let mut i: usize = 0;
        assert(all.take(0).filter(pred) =~= Seq::<Scene>::empty()) by {
            reveal(Seq::filter);
        }
        while i < self.scenes.len()
            invariant
                i <= all.len(),
                all == self.scene_list(),
                all.len() == self.scenes.pairs().len(),
                pred == (|s: Scene| s.project_id@ == project_id@),
                out@ == all.take(i as int).filter(pred),
            decreases all.len() - i,
        {
            let sc = self.scenes.value_at(i);
            assert(all[i as int] == *sc);
            assert(all.take(i + 1) =~= all.take(i as int).push(*sc));
            proof {
                all.take(i as int).lemma_filter_push(*sc, pred);
            }
            if str_eq(sc.project_id.as_str(), project_id) {
                out.push(sc.duplicate());
            }
            i = i + 1;
        }
        assert(all.take(i as int) =~= all);
        out
    }

    /// Adds `scene` under its id.
    fn put_scene(&mut self, scene: Scene)
        requires
            old(self).wf(),
        ensures
            final(self).wf(),
            final(self).scenes() == old(self).scenes().insert(scene.id@, scene),
            final(self).scene_put_from(*old(self), scene.id@),
            final(self).projects() == old(self).projects(),
    {
        let ghost s = self.scenes.pairs();
        let key = scene.id.clone();
        proof {
            lemma_put_keys_match(s, key@, scene, |s: Scene| s.id@);
        }
        self.scenes.insert(key, scene);
        proof {
            lemma_keyed_values(s, |s: Scene| s.id@);
            lemma_keyed_values(self.scenes.pairs(), |s: Scene| s.id@);
        }
    }

    /// Creates a scene of project `project_id` with id `id` and the given
    /// timestamps.  The project need not exist.
    pub fn create_scene_with(
        &mut self,
        project_id: String,
        name: String,
        description: String,
        id: String,
        created_at: String,
        updated_at: String,
    ) -> (r: Scene)
        requires
            old(self).wf(),
        ensures
            final(self).wf(),
            r == (Scene { id, project_id, name, description, created_at, updated_at }),
            final(self).scenes() == old(self).scenes().insert(id@, r),
            final(self).projects() == old(self).projects(),
            final(self).scene_put_from(*old(self), r.id@),
    {
        let scene = Scene { id, project_id, name, description, created_at, updated_at };
        let reply = scene.duplicate();
        self.put_scene(scene);
        reply
    }

    /// Creates a scene for the project the request names, with a fresh id,
    /// stamped with the current time.
    pub fn create_scene(&mut self, payload: CreateSceneRequest) -> (r: Scene)
        requires
            old(self).wf(),
        ensures
            final(self).wf(),
            crate::ids::uuid_v4_text(r.id@),
            r.project_id == payload.project_id,
            r.name == payload.name,
            r.description == payload.description,
            final(self).scenes() == old(self).scenes().insert(r.id@, r),
            final(self).projects() == old(self).projects(),
            final(self).scene_put_from(*old(self), r.id@),
    {
        let id = new_uuid();
        let created_at = now_rfc3339();
        let updated_at = now_rfc3339();
        self.create_scene_with(payload.project_id, payload.name, payload.description, id, created_at, updated_at)
    }

    /// Creates a scene for project `project_id` (the request's own project
    /// id is ignored), with a fresh id, stamped with the current time.
    pub fn create_scene_for_project(&mut self, project_id: String, payload: CreateSceneRequest) -> (r: Scene)
        requires
            old(self).wf(),
        ensures
            final(self).wf(),
            crate::ids::uuid_v4_text(r.id@),
            r.project_id == project_id,
            r.name == payload.name,
            r.description == payload.description,
            final(self).scenes() == old(self).scenes().insert(r.id@, r),
            final(self).projects() == old(self).projects(),
            final(self).scene_put_from(*old(self), r.id@),
    {
        let id = new_uuid();
        let created_at = now_rfc3339();
        let updated_at = now_rfc3339();
        self.create_scene_with(project_id, payload.name, payload.description, id, created_at, updated_at)
    }

    /// The scene `id`; 404 when there is none.
    pub fn get_scene(&self, id: &str) -> (r: Result<Scene, u16>)
        requires
            self.wf(),
        ensures
            match r {
                Ok(s) => self.scenes().contains_key(id@) && s == self.scenes()[id@],
                Err(code) => !self.scenes().contains_key(id@) && code == NOT_FOUND,
            },
    {
        match self.scenes.get(id) {
            Some(s) => Ok(s.duplicate()),
            None => Err(NOT_FOUND),
        }
    }

    /// Updates the scene `id` with the fields the request has, stamping it
    /// with `updated_at`; 404 when there is none.
    pub fn update_scene_with(&mut self, id: &str, payload: UpdateSceneRequest, updated_at: String) -> (r: Result<
        Scene,
        u16,
    >)
        requires
            old(self).wf(),
        ensures
            final(self).wf(),
            final(self).projects() == old(self).projects(),
            !old(self).scenes().contains_key(id@) ==> r == Err::<Scene, u16>(NOT_FOUND)
                && final(self).scenes() == old(self).scenes(),
            old(self).scenes().contains_key(id@) ==> (r matches Ok(s) && s == (Scene {
                name: updated_field(old(self).scenes()[id@].name, payload.name),
                description: updated_field(old(self).scenes()[id@].description, payload.description),
                updated_at,
                ..old(self).scenes()[id@]
            }) && final(self).scenes() == old(self).scenes().insert(id@, s)),
            r is Ok ==> final(self).scene_put_from(*old(self), id@),
            r is Err ==> final(self).scene_list() == old(self).scene_list() && final(self).project_list()
                == old(self).project_list(),
    {
        match self.scenes.position(id) {
            None => Err(NOT_FOUND),
            Some(i) => {
                let ghost s = self.scenes.pairs();
                proof {
                    lemma_index_of(s, i as int);
                }
                let (k, mut sc) = self.scenes.remove_at(i);
                match payload.name {
                    Some(name) => {
                        sc.name = name;
                    },
                    None => {},
                }
                match payload.description {
                    Some(description) => {
                        sc.description = description;
                    },
                    None => {},
                }
                sc.updated_at = updated_at;
                let reply = sc.duplicate();
                proof {
                    lemma_update_is_put(s, i as int, sc);
                    lemma_put(s, k@, sc);
                    lemma_put_keys_match(s, k@, sc, |s: Scene| s.id@);
                }
                self.scenes.insert_at(i, k, sc);
                proof {
                    lemma_keyed_values(s, |s: Scene| s.id@);
                    lemma_keyed_values(self.scenes.pairs(), |s: Scene| s.id@);
                }
                Ok(reply)
            },
        }
    }

    /// Updates the scene `id` with the fields the request has, stamped with
    /// the current time; 404 when there is none.
    pub fn update_scene(&mut self, id: &str, payload: UpdateSceneRequest) -> (r: Result<Scene, u16>)
        requires
            old(self).wf(),
        ensures
            final(self).wf(),
            final(self).projects() == old(self).projects(),
            !old(self).scenes().contains_key(id@) ==> r == Err::<Scene, u16>(NOT_FOUND)
                && final(self).scenes() == old(self).scenes(),
            old(self).scenes().contains_key(id@) ==> (r matches Ok(s) && s.id == old(self).scenes()[id@].id
                && s.project_id == old(self).scenes()[id@].project_id && s.name == updated_field(
                old(self).scenes()[id@].name,
                payload.name,
            ) && s.description == updated_field(old(self).scenes()[id@].description, payload.description)
                && s.created_at == old(self).scenes()[id@].created_at
                && final(self).scenes() == old(self).scenes().insert(id@, s)),
            r is Ok ==> final(self).scene_put_from(*old(self), id@),
            r is Err ==> final(self).scene_list() == old(self).scene_list() && final(self).project_list()
                == old(self).project_list(),
    {
        let updated_at = now_rfc3339();
        self.update_scene_with(id, payload, updated_at)
    }

    /// Deletes the scene `id`; 404 when there is none.
    pub fn delete_scene(&mut self, id: &str) -> (r: Result<(), u16>)
        requires
            old(self).wf(),
        ensures
            final(self).wf(),
            final(self).scenes() == old(self).scenes().remove(id@),
            final(self).projects() == old(self).projects(),
            r is Ok <==> old(self).scenes().contains_key(id@),
            r matches Err(code) ==> code == NOT_FOUND,
            scene_pairs(final(self).scene_list()) == del(scene_pairs(old(self).scene_list()), id@),
            final(self).project_list() == old(self).project_list(),
    {
        let ghost s = self.scenes.pairs();
        proof {
            lemma_del_keys_match(s, id@, |s: Scene| s.id@);
        }
        let removed = self.scenes.remove(id);
        proof {
            lemma_keyed_values(s, |s: Scene| s.id@);
            lemma_keyed_values(self.scenes.pairs(), |s: Scene| s.id@);
        }
        match removed {
            Some(_) => Ok(()),
            None => Err(NOT_FOUND),
        }
    }
}

impl Default for AppState {
    /// No records.
    fn default() -> (s: Self)
        ensures
            s.wf(),
            s.projects() == Map::<Seq<char>, Project>::empty(),
            s.scenes() == Map::<Seq<char>, Scene>::empty(),
    {
        Self::new()
    }
}

} // verus!
