//! Forge core's state and the operations of its REST API.
//!
//! Projects, scenes and builds are kept by id.  A project is created with a
//! name of 1 to 100 characters and the id `proj_<uuid>`; a scene belongs to an
//! existing project, holds YAML that compiles, and gets the id
//! `scene_<uuid>`; a build of an existing project starts pending with the id
//! `build_<uuid>`.  Each operation that creates or changes a record answers
//! with a copy of it.

use crate::clock::{Timestamp, utc_now};
use crate::error::ForgeError;
use crate::ids::new_uuid;
use crate::models::{Build, BuildStatus, CreateProjectRequest, CreateSceneRequest, Project, ProjectSettings, Scene, Entity, Asset, is_default_settings};
use crate::script::ScriptError;
use crate::table::{
    Table,
    Keyed,
    insert_all,
    lemma_insert_all_values,
    put,
    del,
    keyed,
    keys_unique,
    to_map,
    lemma_keyed_values,
    keys_match,
    lemma_del_keys_match,
    lemma_index_of,
    lemma_put,
    lemma_put_keys_match,
    lemma_update_is_put,
    values_of,
};
use crate::text::str_eq;
use vstd::prelude::*;

verus! {

/// A copy of a list of strings.
pub fn copy_strings(v: &Vec<String>) -> (r: Vec<String>)
    ensures
        r@ == v@,
{
    let mut r: Vec<String> = Vec::new();
    let mut i: usize = 0;
    while i < v.len()
        invariant
            i <= v@.len(),
            r@ == v@.take(i as int),
        decreases v@.len() - i,
    {
        r.push(v[i].clone());
        assert(r@ =~= v@.take(i + 1));
        i = i + 1;
    }
    assert(v@.take(i as int) =~= v@);
    r
}

/// A copy of an optional string.
pub fn copy_opt_string(s: &Option<String>) -> (r: Option<String>)
    ensures
        r == *s,
{
    match s {
        Some(x) => Some(x.clone()),
        None => None,
    }
}

/// Two settings hold the same values.
pub open spec fn same_settings(a: ProjectSettings, b: ProjectSettings) -> bool {
    &&& a.default_scene == b.default_scene
    &&& a.resolution == b.resolution
    &&& a.target_platforms@ == b.target_platforms@
}

/// Two projects hold the same values.
pub open spec fn same_project(a: Project, b: Project) -> bool {
    &&& a.id == b.id
    &&& a.name == b.name
    &&& a.description == b.description
    &&& a.created_at == b.created_at
    &&& a.updated_at == b.updated_at
    &&& same_settings(a.settings, b.settings)
}

impl ProjectSettings {
    /// A copy of the settings.
    pub fn duplicate(&self) -> (r: Self)
        ensures
            same_settings(r, *self),
    {
        let platforms = copy_strings(&self.target_platforms);
        let r = ProjectSettings {
            default_scene: copy_opt_string(&self.default_scene),
            resolution: self.resolution,
            target_platforms: platforms,
        };
        assert(r.target_platforms@ == self.target_platforms@);
        r
    }
}

impl Project {
    /// A copy of the project.
    pub fn duplicate(&self) -> (r: Self)
        ensures
            same_project(r, *self),
    {
        Project {
            id: self.id.clone(),
            name: self.name.clone(),
            description: self.description.clone(),
            created_at: self.created_at,
            updated_at: self.updated_at,
            settings: self.settings.duplicate(),
        }
    }
}

impl Scene {
    /// A copy of the scene.
    pub fn duplicate(&self) -> (r: Self)
        ensures
            r == *self,
    {
        Scene {
            id: self.id.clone(),
            project_id: self.project_id.clone(),
            name: self.name.clone(),
            yaml_content: self.yaml_content.clone(),
            created_at: self.created_at,
            updated_at: self.updated_at,
        }
    }
}

impl Build {
    /// A copy of the build.
    pub fn duplicate(&self) -> (r: Self)
        ensures
            r == *self,
    {
        Build {
            id: self.id.clone(),
            project_id: self.project_id.clone(),
            status: self.status,
            progress: self.progress,
            output_url: copy_opt_string(&self.output_url),
            created_at: self.created_at,
            completed_at: self.completed_at,
            error: copy_opt_string(&self.error),
        }
    }
}

/// A project name is 1 to 100 characters long.
pub open spec fn valid_project_name(name: Seq<char>) -> bool {
    0 < name.len() <= 100
}

/// The project a create request makes, given its fresh id suffix and the time.
pub open spec fn created_project(p: Project, req: CreateProjectRequest, uuid: Seq<char>, now: Timestamp) -> bool {
    &&& p.id@ == "proj_"@ + uuid
    &&& p.name == req.name
    &&& p.description@ == match req.description {
        Some(d) => d@,
        None => Seq::empty(),
    }
    &&& p.created_at == now
    &&& p.updated_at == now
    &&& match req.settings {
        Some(s) => p.settings == s,
        None => is_default_settings(p.settings),
    }
}

/// The project after an update request at time `now`: new name and
/// description, new settings when the request has some.
pub open spec fn updated_project(old_p: Project, p: Project, req: CreateProjectRequest, now: Timestamp) -> bool {
    &&& p.id == old_p.id
    &&& p.name == req.name
    &&& p.description@ == match req.description {
        Some(d) => d@,
        None => Seq::empty(),
    }
    &&& p.created_at == old_p.created_at
    &&& p.updated_at == now
    &&& p.settings == match req.settings {
        Some(s) => s,
        None => old_p.settings,
    }
}

/// The text of a YAML check's failure, as forge core reports it.
pub open spec fn yaml_failure_text(e: ScriptError) -> Option<Seq<char>> {
    match e.spec_message() {
        Some(m) => Some("invalid YAML: "@ + m),
        None => None,
    }
}

/// Projects, each under its id.
pub open spec fn project_pairs(s: Seq<Project>) -> Seq<(Seq<char>, Project)> {
    keyed(s, |p: Project| p.id@)
}

/// Scenes, each under its id.
pub open spec fn scene_pairs(s: Seq<Scene>) -> Seq<(Seq<char>, Scene)> {
    keyed(s, |sc: Scene| sc.id@)
}

/// The text a YAML check's failure starts with, as forge core reports it:
/// `invalid YAML: ` and the words that begin the error's description.
pub open spec fn yaml_failure_prefix(e: ScriptError) -> Seq<char> {
    "invalid YAML: "@ + e.spec_prefix()
}

/// Forge core's records by id.
pub struct ForgeState {
    projects: Table<Project>,
    scenes: Table<Scene>,
    builds: Table<Build>,
    entities: Table<Entity>,
    assets: Table<Asset>,
}

impl ForgeState {
    /// The projects by id.
    pub closed spec fn projects(&self) -> Map<Seq<char>, Project> {
        self.projects@
    }

    /// The projects in creation order.
    pub closed spec fn project_list(&self) -> Seq<Project> {
        values_of(self.projects.pairs())
    }

    /// The scenes by id.
    pub closed spec fn scenes(&self) -> Map<Seq<char>, Scene> {
        self.scenes@
    }

    /// The scenes in creation order.
    pub closed spec fn scene_list(&self) -> Seq<Scene> {
        values_of(self.scenes.pairs())
    }

    /// The builds by id.
    pub closed spec fn builds(&self) -> Map<Seq<char>, Build> {
        self.builds@
    }

    /// The entities by id.
    pub closed spec fn entities(&self) -> Map<Seq<char>, Entity> {
        self.entities@
    }

    /// The assets by id.
    pub closed spec fn assets(&self) -> Map<Seq<char>, Asset> {
        self.assets@
    }

    /// Every record is kept under its own id.
    pub closed spec fn wf(&self) -> bool {
        &&& self.projects.wf()
        &&& keys_match(self.projects.pairs(), |p: Project| p.id@)
        &&& self.scenes.wf()
        &&& keys_match(self.scenes.pairs(), |s: Scene| s.id@)
        &&& self.builds.wf()
        &&& keys_match(self.builds.pairs(), |b: Build| b.spec_key())
        &&& self.entities.wf()
        &&& keys_match(self.entities.pairs(), |e: Entity| e.spec_key())
        &&& self.assets.wf()
        &&& keys_match(self.assets.pairs(), |a: Asset| a.spec_key())
    }

    /// After storing project `k`, it stands where it stood, or last when it
    /// is new; the scene list is as it was.
    pub open spec fn project_put_from(&self, before: Self, k: Seq<char>) -> bool {
        &&& project_pairs(self.project_list()) == put(project_pairs(before.project_list()), k, self.projects()[k])
        &&& self.scene_list() == before.scene_list()
    }

    /// After storing scene `k`, it stands where it stood, or last when it
    /// is new; the project list is as it was.
    pub open spec fn scene_put_from(&self, before: Self, k: Seq<char>) -> bool {
        &&& scene_pairs(self.scene_list()) == put(scene_pairs(before.scene_list()), k, self.scenes()[k])
        &&& self.project_list() == before.project_list()
    }

    /// The lists of a well-formed state hold each record once, under its
    /// own id, and denote the maps by id.
    pub proof fn lemma_lists(&self)
        requires
            self.wf(),
        ensures
            keys_unique(project_pairs(self.project_list())),
            to_map(project_pairs(self.project_list())) == self.projects(),
            keys_unique(scene_pairs(self.scene_list())),
            to_map(scene_pairs(self.scene_list())) == self.scenes(),
    {
        lemma_keyed_values(self.projects.pairs(), |p: Project| p.id@);
        lemma_keyed_values(self.scenes.pairs(), |sc: Scene| sc.id@);
    }

    /// No records.
    pub fn new() -> (s: Self)
        ensures
            s.wf(),
            s.projects() == Map::<Seq<char>, Project>::empty(),
            s.scenes() == Map::<Seq<char>, Scene>::empty(),
            s.builds() == Map::<Seq<char>, Build>::empty(),
            s.entities() == Map::<Seq<char>, Entity>::empty(),
            s.assets() == Map::<Seq<char>, Asset>::empty(),
            s.project_list() == Seq::<Project>::empty(),
            s.scene_list() == Seq::<Scene>::empty(),
    {
        let s = ForgeState {
            projects: Table::new(),
            scenes: Table::new(),
            builds: Table::new(),
            entities: Table::new(),
            assets: Table::new(),
        };
        assert(s.project_list() =~= Seq::<Project>::empty());
        assert(s.scene_list() =~= Seq::<Scene>::empty());
        s
    }

    // === Projects ===
    /// Creates a project from `req` with the id `proj_<uuid>` at time `now`;
    /// a name that is empty or longer than 100 characters is refused.
    pub fn create_project_with(&mut self, req: CreateProjectRequest, uuid: &str, now: Timestamp) -> (r:
        Result<Project, ForgeError>)
        requires
            old(self).wf(),
        ensures
            final(self).wf(),
            !valid_project_name(req.name@) ==> (r matches Err(ForgeError::Validation(m)) && m@
                == "name must be 1-100 chars"@ && final(self).projects() == old(self).projects()),
            valid_project_name(req.name@) ==> (r matches Ok(p) && final(self).projects().contains_key(
                p.id@,
            ) && created_project(final(self).projects()[p.id@], req, uuid@, now) && same_project(
                p,
                final(self).projects()[p.id@],
            ) && final(self).projects() == old(self).projects().insert(
                p.id@,
                final(self).projects()[p.id@],
            )),
            r matches Ok(p) ==> final(self).project_put_from(*old(self), p.id@),
            r is Err ==> final(self).project_list() == old(self).project_list() && final(self).scene_list()
                == old(self).scene_list(),
            final(self).scenes() == old(self).scenes(),
            final(self).builds() == old(self).builds(),
    {
        let name_len = req.name.as_str().unicode_len();
        if name_len == 0 || name_len > 100 {
            return Err(ForgeError::Validation(String::from_str("name must be 1-100 chars")));
        }
        let id = String::from_str("proj_").concat(uuid);
        let settings = match req.settings {
            Some(s) => s,
            None => ProjectSettings::default_settings(),
        };
        let description = match req.description {
            Some(d) => d,
            None => String::new(),
        };
        let project = Project {
            id: id.clone(),
            name: req.name,
            description,
            created_at: now,
            updated_at: now,
            settings,
        };
        let reply = project.duplicate();
        let ghost s = self.projects.pairs();
        proof {
            lemma_put_keys_match(s, id@, project, |p: Project| p.id@);
        }
        self.projects.insert(id, project);
        proof {
            lemma_keyed_values(s, |p: Project| p.id@);
            lemma_keyed_values(self.projects.pairs(), |p: Project| p.id@);
        }
        Ok(reply)
    }

    /// Creates a project from `req` with a fresh id at the current time.
    pub fn create_project(&mut self, req: CreateProjectRequest) -> (r: Result<Project, ForgeError>)
        requires
            old(self).wf(),
        ensures
            final(self).wf(),
            !valid_project_name(req.name@) ==> (r matches Err(ForgeError::Validation(m)) && m@
                == "name must be 1-100 chars"@ && final(self).projects() == old(self).projects()),
            valid_project_name(req.name@) ==> (r matches Ok(p) && final(self).projects().contains_key(
                p.id@,
            ) && (exists|u: Seq<char>, t: Timestamp|
                crate::ids::uuid_v4_text(u) && created_project(final(self).projects()[p.id@], req, u, t))
                && same_project(p, final(self).projects()[p.id@]) && final(self).projects() == old(
                self).projects().insert(p.id@, final(self).projects()[p.id@])),
            r matches Ok(p) ==> final(self).project_put_from(*old(self), p.id@),
            r is Err ==> final(self).project_list() == old(self).project_list() && final(self).scene_list()
                == old(self).scene_list(),
            final(self).scenes() == old(self).scenes(),
            final(self).builds() == old(self).builds(),
    {
        let uuid = new_uuid();
        let now = utc_now();
        self.create_project_with(req, uuid.as_str(), now)
    }

    /// Every project, in creation order.
    pub fn list_projects(&self) -> (r: Vec<&Project>)
        requires
            self.wf(),
        ensures
            r@.map_values(|p: &Project| *p) == self.project_list(),
    {
        let mut out: Vec<&Project> = Vec::new();
        let mut i: usize = 0;
        while i < self.projects.len()
            invariant
                i <= self.projects.pairs().len(),
                out@.map_values(|p: &Project| *p) == self.project_list().take(i as int),
            decreases self.projects.pairs().len() - i,
        {
            let p = self.projects.value_at(i);
            let ghost before = out@.map_values(|p: &Project| *p);
            out.push(p);
            assert(self.project_list()[i as int] == *p);
            assert(out@.map_values(|p: &Project| *p) =~= before.push(*p));
            assert(out@.map_values(|p: &Project| *p) =~= self.project_list().take(i + 1));
            i = i + 1;
        }
        assert(self.project_list().take(i as int) =~= self.project_list());
        out
    }

    /// The project `id`; `NotFound("project <id>")` when there is none.
    pub fn get_project(&self, id: &str) -> (r: Result<&Project, ForgeError>)
        requires
            self.wf(),
        ensures
            match r {
                Ok(p) => self.projects().contains_key(id@) && *p == self.projects()[id@],
                Err(e) => !self.projects().contains_key(id@) && (e matches ForgeError::NotFound(m)
                    && m@ == "project "@ + id@),
            },
    {
        match self.projects.get(id) {
            Some(p) => Ok(p),
            None => Err(ForgeError::NotFound(String::from_str("project ").concat(id))),
        }
    }

    /// Updates the project `id` from `req` at time `now`: its name and
    /// description, and its settings when the request has some.
    pub fn update_project_with(&mut self, id: &str, req: CreateProjectRequest, now: Timestamp) -> (r:
        Result<Project, ForgeError>)
        requires
            old(self).wf(),
        ensures
            final(self).wf(),
            !old(self).projects().contains_key(id@) ==> (r matches Err(ForgeError::NotFound(m))
                && m@ == "project "@ + id@ && final(self).projects() == old(self).projects()),
            old(self).projects().contains_key(id@) ==> (r matches Ok(p) && final(self).projects().contains_key(id@)
                && updated_project(old(self).projects()[id@], final(self).projects()[id@], req, now)
                && same_project(p, final(self).projects()[id@]) && final(self).projects() == old(
                self).projects().insert(id@, final(self).projects()[id@])),
            r is Ok ==> final(self).project_put_from(*old(self), id@),
            r is Err ==> final(self).project_list() == old(self).project_list() && final(self).scene_list()
                == old(self).scene_list(),
            final(self).scenes() == old(self).scenes(),
            final(self).builds() == old(self).builds(),
    {
        match self.projects.position(id) {
            None => Err(ForgeError::NotFound(String::from_str("project ").concat(id))),
            Some(i) => {
                let ghost s = self.projects.pairs();
                proof {
                    lemma_index_of(s, i as int);
                }
                let (k, mut p) = self.projects.remove_at(i);
                p.name = req.name;
                p.description = match req.description {
                    Some(d) => d,
                    None => String::new(),
                };
                p.updated_at = now;
                match req.settings {
                    Some(settings) => {
                        p.settings = settings;
                    },
                    None => {},
                }
                let reply = p.duplicate();
                proof {
                    lemma_update_is_put(s, i as int, p);
                    lemma_put(s, k@, p);
                    lemma_put_keys_match(s, k@, p, |p: Project| p.id@);
                }
                self.projects.insert_at(i, k, p);
                proof {
                    lemma_keyed_values(s, |p: Project| p.id@);
                    lemma_keyed_values(self.projects.pairs(), |p: Project| p.id@);
                }
                Ok(reply)
            },
        }
    }

    /// Updates the project `id` from `req` at the current time.
    pub fn update_project(&mut self, id: &str, req: CreateProjectRequest) -> (r: Result<Project, ForgeError>)
        requires
            old(self).wf(),
        ensures
            final(self).wf(),
            !old(self).projects().contains_key(id@) ==> (r matches Err(ForgeError::NotFound(m))
                && m@ == "project "@ + id@ && final(self).projects() == old(self).projects()),
            old(self).projects().contains_key(id@) ==> (r matches Ok(p) && final(self).projects().contains_key(id@)
                && (exists|t: Timestamp| updated_project(old(self).projects()[id@], final(self).projects()[id@], req, t))
                && same_project(p, final(self).projects()[id@]) && final(self).projects() == old(
                self).projects().insert(id@, final(self).projects()[id@])),
            r is Ok ==> final(self).project_put_from(*old(self), id@),
            r is Err ==> final(self).project_list() == old(self).project_list() && final(self).scene_list()
                == old(self).scene_list(),
            final(self).scenes() == old(self).scenes(),
            final(self).builds() == old(self).builds(),
    {
        let now = utc_now();
        self.update_project_with(id, req, now)
    }

    /// Deletes the project `id`; `NotFound("project <id>")` when there is none.
    pub fn delete_project(&mut self, id: &str) -> (r: Result<(), ForgeError>)
        requires
            old(self).wf(),
        ensures
            final(self).wf(),
            final(self).projects() == old(self).projects().remove(id@),
            r is Ok <==> old(self).projects().contains_key(id@),
            r matches Err(e) ==> (e matches ForgeError::NotFound(m) && m@ == "project "@ + id@),
            project_pairs(final(self).project_list()) == del(project_pairs(old(self).project_list()), id@),
            final(self).scene_list() == old(self).scene_list(),
            final(self).scenes() == old(self).scenes(),
            final(self).builds() == old(self).builds(),
    {
        let ghost s = self.projects.pairs();
        proof {
            lemma_del_keys_match(s, id@, |p: Project| p.id@);
        }
        let removed = self.projects.remove(id);
        proof {
            lemma_keyed_values(s, |p: Project| p.id@);
            lemma_keyed_values(self.projects.pairs(), |p: Project| p.id@);
        }
        match removed {
            Some(_) => Ok(()),
            None => Err(ForgeError::NotFound(String::from_str("project ").concat(id))),
        }
    }

    // === Scenes ===
    /// Creates a scene of project `project_id` from `req`, whose YAML
    /// compiled with outcome `yaml_check`, with the id `scene_<uuid>` at
    /// time `now`.  A missing project is reported first, then YAML that
    /// does not compile.
    pub fn create_scene_with(
        &mut self,
        project_id: &str,
        req: CreateSceneRequest,
        yaml_check: Result<(), ScriptError>,
        uuid: &str,
        now: Timestamp,
    ) -> (r: Result<Scene, ForgeError>)
        requires
            old(self).wf(),
        ensures
            final(self).wf(),
            final(self).projects() == old(self).projects(),
            final(self).builds() == old(self).builds(),
            r matches Ok(sc) ==> final(self).scene_put_from(*old(self), sc.id@),
            r is Err ==> final(self).scene_list() == old(self).scene_list() && final(self).project_list()
                == old(self).project_list(),
            !old(self).projects().contains_key(project_id@) ==> (r matches Err(
                ForgeError::NotFound(m),
            ) && m@ == "project "@ + project_id@ && final(self).scenes() == old(self).scenes()),
            old(self).projects().contains_key(project_id@) && yaml_check is Err ==> (r matches Err(
                ForgeError::Validation(m),
            ) && (yaml_failure_text(yaml_check->Err_0) matches Some(t) ==> m@ == t)
                && yaml_failure_prefix(yaml_check->Err_0).is_prefix_of(m@) && final(self).scenes() == old(self).scenes()),
            old(self).projects().contains_key(project_id@) && yaml_check is Ok ==> (r matches Ok(sc)
                && sc.id@ == "scene_"@ + uuid@ && sc.project_id@ == project_id@ && sc.name
                == req.name && sc.yaml_content == req.yaml_content && sc.created_at == now
                && sc.updated_at == now && final(self).scenes() == old(self).scenes().insert(
                sc.id@,
                sc,
            )),
    {
        if !self.projects.contains_key(project_id) {
            return Err(ForgeError::NotFound(String::from_str("project ").concat(project_id)));
        }
        match yaml_check {
            Err(e) => {
                let text = e.message();
                let head = String::from_str("invalid YAML: ");
                let m = head.concat(text.as_str());
                proof {
                    let p = e.spec_prefix();
                    assert(m@.subrange(0, (head@.len() + p.len()) as int) =~= head@ + p) by {
                        assert(text@.subrange(0, p.len() as int) =~= p);
                        assert forall|i: int| 0 <= i < head@.len() + p.len() implies m@.subrange(
                            0,
                            (head@.len() + p.len()) as int,
                        )[i] == (head@ + p)[i] by {
                            if i >= head@.len() {
                                assert(m@[i] == text@[i - head@.len()]);
                                assert(text@.subrange(0, p.len() as int)[i - head@.len()] == text@[i - head@.len()]);
                            }
                        }
                    }
                }
                return Err(ForgeError::Validation(m));
            },
            Ok(()) => {},
        }
        let id = String::from_str("scene_").concat(uuid);
        let scene = Scene {
            id: id.clone(),
            project_id: String::from_str(project_id),
            name: req.name,
            yaml_content: req.yaml_content,
            created_at: now,
            updated_at: now,
        };
        let reply = scene.duplicate();
        let ghost s = self.scenes.pairs();
        proof {
            lemma_put_keys_match(s, id@, scene, |s: Scene| s.id@);
        }
        self.scenes.insert(id, scene);
        proof {
            lemma_keyed_values(s, |sc: Scene| sc.id@);
            lemma_keyed_values(self.scenes.pairs(), |sc: Scene| sc.id@);
        }
        Ok(reply)
    }

    /// Creates a scene of project `project_id` with a fresh id at the
    /// current time.
    pub fn create_scene(&mut self, project_id: &str, req: CreateSceneRequest, yaml_check: Result<(), ScriptError>) -> (r:
        Result<Scene, ForgeError>)
        requires
            old(self).wf(),
        ensures
            final(self).wf(),
            final(self).projects() == old(self).projects(),
            final(self).builds() == old(self).builds(),
            r matches Ok(sc) ==> final(self).scene_put_from(*old(self), sc.id@),
            r is Err ==> final(self).scene_list() == old(self).scene_list() && final(self).project_list()
                == old(self).project_list(),
            !old(self).projects().contains_key(project_id@) ==> (r matches Err(
                ForgeError::NotFound(m),
            ) && m@ == "project "@ + project_id@ && final(self).scenes() == old(self).scenes()),
            old(self).projects().contains_key(project_id@) && yaml_check is Err ==> (r matches Err(
                ForgeError::Validation(m),
            ) && (yaml_failure_text(yaml_check->Err_0) matches Some(t) ==> m@ == t)
                && yaml_failure_prefix(yaml_check->Err_0).is_prefix_of(m@) && final(self).scenes() == old(self).scenes()),
            old(self).projects().contains_key(project_id@) && yaml_check is Ok ==> (r matches Ok(sc)
                && (exists|u: Seq<char>| #[trigger] crate::ids::uuid_v4_text(u) && sc.id@ == "scene_"@ + u)
                && sc.project_id@ == project_id@ && sc.name == req.name && sc.yaml_content
                == req.yaml_content && sc.created_at == sc.updated_at
                && final(self).scenes() == old(self).scenes().insert(sc.id@, sc)),
    {
        let uuid = new_uuid();
        let now = utc_now();
        self.create_scene_with(project_id, req, yaml_check, uuid.as_str(), now)
    }

    /// The scenes of project `project_id`, in creation order.
    pub fn list_scenes(&self, project_id: &str) -> (r: Vec<&Scene>)
        requires
            self.wf(),
        ensures
            r@.map_values(|s: &Scene| *s) == self.scene_list().filter(
                |s: Scene| s.project_id@ == project_id@,
            ),
    {
        let ghost all = self.scene_list();
        let ghost pred = |s: Scene| s.project_id@ == project_id@;
        let mut out: Vec<&Scene> = Vec::new();
        let mut i: usize = 0;
        assert(all.take(0).filter(pred) =~= Seq::<Scene>::empty()) by {
            reveal(Seq::filter);
        }
        while i < self.scenes.len()
            invariant
                i <= all.len(),
                all == self.scene_list(),
                all.len() == self.scenes.pairs().len(),
                pred == (|s: Scene| s.project_id@ == project_id@),
                out@.map_values(|s: &Scene| *s) == all.take(i as int).filter(pred),
            decreases all.len() - i,
        {
            let sc = self.scenes.value_at(i);
            let ghost before = out@.map_values(|s: &Scene| *s);
            assert(all[i as int] == *sc);
            assert(all.take(i + 1) =~= all.take(i as int).push(*sc));
            proof {
                all.take(i as int).lemma_filter_push(*sc, pred);
            }
            if str_eq(sc.project_id.as_str(), project_id) {
                out.push(sc);
                assert(out@.map_values(|s: &Scene| *s) =~= before.push(*sc));
            }
            i = i + 1;
        }
        assert(all.take(i as int) =~= all);
        out
    }

    /// The scene `id`; `NotFound("scene <id>")` when there is none.
    pub fn get_scene(&self, id: &str) -> (r: Result<&Scene, ForgeError>)
        requires
            self.wf(),
        ensures
            match r {
                Ok(s) => self.scenes().contains_key(id@) && *s == self.scenes()[id@],
                Err(e) => !self.scenes().contains_key(id@) && (e matches ForgeError::NotFound(m)
                    && m@ == "scene "@ + id@),
            },
    {
        match self.scenes.get(id) {
            Some(s) => Ok(s),
            None => Err(ForgeError::NotFound(String::from_str("scene ").concat(id))),
        }
    }

    /// Updates the scene `id` from `req`, whose YAML compiled with outcome
    /// `yaml_check`, at time `now`.  YAML that does not compile is reported
    /// first, then a missing scene.
    pub fn update_scene_with(
        &mut self,
        id: &str,
        req: CreateSceneRequest,
        yaml_check: Result<(), ScriptError>,
        now: Timestamp,
    ) -> (r: Result<Scene, ForgeError>)
        requires
            old(self).wf(),
        ensures
            final(self).wf(),
            final(self).projects() == old(self).projects(),
            final(self).builds() == old(self).builds(),
            r matches Ok(sc) ==> final(self).scene_put_from(*old(self), sc.id@),
            r is Err ==> final(self).scene_list() == old(self).scene_list() && final(self).project_list()
                == old(self).project_list(),
            yaml_check is Err ==> (r matches Err(ForgeError::Validation(m)) && (yaml_failure_text(
                yaml_check->Err_0,
            ) matches Some(t) ==> m@ == t) && yaml_failure_prefix(yaml_check->Err_0).is_prefix_of(m@)
                && final(self).scenes() == old(self).scenes()),
            yaml_check is Ok && !old(self).scenes().contains_key(id@) ==> (r matches Err(
                ForgeError::NotFound(m),
            ) && m@ == "scene "@ + id@ && final(self).scenes() == old(self).scenes()),
            yaml_check is Ok && old(self).scenes().contains_key(id@) ==> (r matches Ok(sc) && sc
                == (Scene {
                name: req.name,
                yaml_content: req.yaml_content,
                updated_at: now,
                ..old(self).scenes()[id@]
            }) && final(self).scenes() == old(self).scenes().insert(id@, sc)),
    {
        match yaml_check {
            Err(e) => {
                let text = e.message();
                let head = String::from_str("invalid YAML: ");
                let m = head.concat(text.as_str());
                proof {
                    let p = e.spec_prefix();
                    assert(m@.subrange(0, (head@.len() + p.len()) as int) =~= head@ + p) by {
                        assert(text@.subrange(0, p.len() as int) =~= p);
                        assert forall|i: int| 0 <= i < head@.len() + p.len() implies m@.subrange(
                            0,
                            (head@.len() + p.len()) as int,
                        )[i] == (head@ + p)[i] by {
                            if i >= head@.len() {
                                assert(m@[i] == text@[i - head@.len()]);
                                assert(text@.subrange(0, p.len() as int)[i - head@.len()] == text@[i - head@.len()]);
                            }
                        }
                    }
                }
                return Err(ForgeError::Validation(m));
            },
            Ok(()) => {},
        }
        match self.scenes.position(id) {
            None => Err(ForgeError::NotFound(String::from_str("scene ").concat(id))),
            Some(i) => {
                let ghost s = self.scenes.pairs();
                proof {
                    lemma_index_of(s, i as int);
                }
                let (k, mut sc) = self.scenes.remove_at(i);
                sc.name = req.name;
                sc.yaml_content = req.yaml_content;
                sc.updated_at = now;
                let reply = sc.duplicate();
                proof {
                    lemma_update_is_put(s, i as int, sc);
                    lemma_put(s, k@, sc);
                    lemma_put_keys_match(s, k@, sc, |s: Scene| s.id@);
                }
                self.scenes.insert_at(i, k, sc);
                proof {
                    lemma_keyed_values(s, |sc: Scene| sc.id@);
                    lemma_keyed_values(self.scenes.pairs(), |sc: Scene| sc.id@);
                }
                Ok(reply)
            },
        }
    }

    /// Updates the scene `id` from `req` at the current time.
    pub fn update_scene(&mut self, id: &str, req: CreateSceneRequest, yaml_check: Result<(), ScriptError>) -> (r:
        Result<Scene, ForgeError>)
        requires
            old(self).wf(),
        ensures
            final(self).wf(),
            final(self).projects() == old(self).projects(),
            final(self).builds() == old(self).builds(),
            r matches Ok(sc) ==> final(self).scene_put_from(*old(self), sc.id@),
            r is Err ==> final(self).scene_list() == old(self).scene_list() && final(self).project_list()
                == old(self).project_list(),
            yaml_check is Err ==> (r matches Err(ForgeError::Validation(m)) && (yaml_failure_text(
                yaml_check->Err_0,
            ) matches Some(t) ==> m@ == t) && yaml_failure_prefix(yaml_check->Err_0).is_prefix_of(m@)
                && final(self).scenes() == old(self).scenes()),
            yaml_check is Ok && !old(self).scenes().contains_key(id@) ==> (r matches Err(
                ForgeError::NotFound(m),
            ) && m@ == "scene "@ + id@ && final(self).scenes() == old(self).scenes()),
            yaml_check is Ok && old(self).scenes().contains_key(id@) ==> (r matches Ok(sc) && sc
                == (Scene {
                name: req.name,
                yaml_content: req.yaml_content,
                updated_at: sc.updated_at,
                ..old(self).scenes()[id@]
            }) && final(self).scenes() == old(self).scenes().insert(id@, sc)),
    {
        let now = utc_now();
        self.update_scene_with(id, req, yaml_check, now)
    }

    /// Deletes the scene `id`; `NotFound("scene <id>")` when there is none.
    pub fn delete_scene(&mut self, id: &str) -> (r: Result<(), ForgeError>)
        requires
            old(self).wf(),
        ensures
            final(self).wf(),
            final(self).scenes() == old(self).scenes().remove(id@),
            r is Ok <==> old(self).scenes().contains_key(id@),
            r matches Err(e) ==> (e matches ForgeError::NotFound(m) && m@ == "scene "@ + id@),
            final(self).projects() == old(self).projects(),
            final(self).builds() == old(self).builds(),
            scene_pairs(final(self).scene_list()) == del(scene_pairs(old(self).scene_list()), id@),
            final(self).project_list() == old(self).project_list(),
    {
        let ghost s = self.scenes.pairs();
        proof {
            lemma_del_keys_match(s, id@, |s: Scene| s.id@);
        }
        let removed = self.scenes.remove(id);
        proof {
            lemma_keyed_values(s, |sc: Scene| sc.id@);
            lemma_keyed_values(self.scenes.pairs(), |sc: Scene| sc.id@);
        }
        match removed {
            Some(_) => Ok(()),
            None => Err(ForgeError::NotFound(String::from_str("scene ").concat(id))),
        }
    }

    // === Builds ===
    /// Starts a build of project `project_id` with the id `build_<uuid>` at
    /// time `now`: pending, at 0%, with no output, completion or error.
    pub fn start_build_with(&mut self, project_id: &str, uuid: &str, now: Timestamp) -> (r: Result<
        Build,
        ForgeError,
    >)
        requires
            old(self).wf(),
        ensures
            final(self).wf(),
            final(self).projects() == old(self).projects(),
            final(self).scenes() == old(self).scenes(),
            final(self).project_list() == old(self).project_list(),
            final(self).scene_list() == old(self).scene_list(),
            !old(self).projects().contains_key(project_id@) ==> (r matches Err(
                ForgeError::NotFound(m),
            ) && m@ == "project "@ + project_id@ && final(self).builds() == old(self).builds()),
            old(self).projects().contains_key(project_id@) ==> (r matches Ok(b) && b.id@ == "build_"@
                + uuid@ && b.project_id@ == project_id@ && b.status == BuildStatus::Pending
                && b.progress == 0 && b.output_url is None && b.created_at == now
                && b.completed_at is None && b.error is None && final(self).builds() == old(self).builds().insert(b.id@, b)),
    {
        if !self.projects.contains_key(project_id) {
            return Err(ForgeError::NotFound(String::from_str("project ").concat(project_id)));
        }
        let id = String::from_str("build_").concat(uuid);
        let build = Build {
            id: id.clone(),
            project_id: String::from_str(project_id),
            status: BuildStatus::Pending,
            progress: 0,
            output_url: None,
            created_at: now,
            completed_at: None,
            error: None,
        };
        let reply = build.duplicate();
        let ghost s = self.builds.pairs();
        proof {
            lemma_put_keys_match(s, id@, build, |b: Build| b.spec_key());
        }
        self.builds.insert(id, build);
        Ok(reply)
    }

    /// Starts a build of project `project_id` with a fresh id at the current time.
    pub fn start_build(&mut self, project_id: &str) -> (r: Result<Build, ForgeError>)
        requires
            old(self).wf(),
        ensures
            final(self).wf(),
            final(self).projects() == old(self).projects(),
            final(self).scenes() == old(self).scenes(),
            final(self).project_list() == old(self).project_list(),
            final(self).scene_list() == old(self).scene_list(),
            !old(self).projects().contains_key(project_id@) ==> (r matches Err(
                ForgeError::NotFound(m),
            ) && m@ == "project "@ + project_id@ && final(self).builds() == old(self).builds()),
            old(self).projects().contains_key(project_id@) ==> (r matches Ok(b)
                && (exists|u: Seq<char>| #[trigger] crate::ids::uuid_v4_text(u) && b.id@ == "build_"@ + u)
                && b.project_id@ == project_id@ && b.status == BuildStatus::Pending && b.progress == 0
                && b.output_url is None && b.completed_at is None && b.error is None
                && final(self).builds() == old(self).builds().insert(b.id@, b)),
    {
        let uuid = new_uuid();
        let now = utc_now();
        self.start_build_with(project_id, uuid.as_str(), now)
    }

    /// The build `id`; `NotFound("build <id>")` when there is none.
    pub fn get_build(&self, id: &str) -> (r: Result<&Build, ForgeError>)
        requires
            self.wf(),
        ensures
            match r {
                Ok(b) => self.builds().contains_key(id@) && *b == self.builds()[id@],
                Err(e) => !self.builds().contains_key(id@) && (e matches ForgeError::NotFound(m)
                    && m@ == "build "@ + id@),
            },
    {
        match self.builds.get(id) {
            Some(b) => Ok(b),
            None => Err(ForgeError::NotFound(String::from_str("build ").concat(id))),
        }
    }

    // === Persistence ===
    /// The builds in the order they were started.
    pub closed spec fn build_list(&self) -> Seq<Build> {
        values_of(self.builds.pairs())
    }

    /// The entities in the order they were stored.
    pub closed spec fn entity_list(&self) -> Seq<Entity> {
        values_of(self.entities.pairs())
    }

    /// The assets in the order they were stored.
    pub closed spec fn asset_list(&self) -> Seq<Asset> {
        values_of(self.assets.pairs())
    }

    /// Adds loaded projects, each under its id; a later project replaces an
    /// earlier one with the same id.
    pub fn load_projects(&mut self, projects: Vec<Project>)
        requires
            old(self).wf(),
        ensures
            final(self).wf(),
            final(self).projects() == insert_all(old(self).projects(), projects@),
            final(self).scenes() == old(self).scenes(),
            final(self).builds() == old(self).builds(),
            final(self).entities() == old(self).entities(),
            final(self).assets() == old(self).assets(),
    {
        assert(keys_match(self.projects.pairs(), |v: Project| v.spec_key()));
        self.projects.load_all(projects);
        assert(keys_match(self.projects.pairs(), |p: Project| p.id@));
    }

    /// Adds loaded scenes, each under its id; a later scene replaces an
    /// earlier one with the same id.
    pub fn load_scenes(&mut self, scenes: Vec<Scene>)
        requires
            old(self).wf(),
        ensures
            final(self).wf(),
            final(self).scenes() == insert_all(old(self).scenes(), scenes@),
            final(self).projects() == old(self).projects(),
            final(self).builds() == old(self).builds(),
            final(self).entities() == old(self).entities(),
            final(self).assets() == old(self).assets(),
    {
        assert(keys_match(self.scenes.pairs(), |v: Scene| v.spec_key()));
        self.scenes.load_all(scenes);
        assert(keys_match(self.scenes.pairs(), |s: Scene| s.id@));
    }

    /// Adds loaded builds, each under its id; a later build replaces an
    /// earlier one with the same id.
    pub fn load_builds(&mut self, builds: Vec<Build>)
        requires
            old(self).wf(),
        ensures
            final(self).wf(),
            final(self).builds() == insert_all(old(self).builds(), builds@),
            final(self).projects() == old(self).projects(),
            final(self).scenes() == old(self).scenes(),
            final(self).entities() == old(self).entities(),
            final(self).assets() == old(self).assets(),
    {
        self.builds.load_all(builds);
    }

    /// Adds loaded entities, each under its id; a later entity replaces an
    /// earlier one with the same id.
    pub fn load_entities(&mut self, entities: Vec<Entity>)
        requires
            old(self).wf(),
        ensures
            final(self).wf(),
            final(self).entities() == insert_all(old(self).entities(), entities@),
            final(self).projects() == old(self).projects(),
            final(self).scenes() == old(self).scenes(),
            final(self).builds() == old(self).builds(),
            final(self).assets() == old(self).assets(),
    {
        self.entities.load_all(entities);
    }

    /// Adds loaded assets, each under its id; a later asset replaces an
    /// earlier one with the same id.
    pub fn load_assets(&mut self, assets: Vec<Asset>)
        requires
            old(self).wf(),
        ensures
            final(self).wf(),
            final(self).assets() == insert_all(old(self).assets(), assets@),
            final(self).projects() == old(self).projects(),
            final(self).scenes() == old(self).scenes(),
            final(self).builds() == old(self).builds(),
            final(self).entities() == old(self).entities(),
    {
        self.assets.load_all(assets);
    }

    /// Every build, in the order they were started.
    pub fn all_builds(&self) -> (r: Vec<&Build>)
        ensures
            r@.map_values(|b: &Build| *b) == self.build_list(),
    {
        self.builds.values()
    }

    /// Every entity, in the order they were stored.
    pub fn all_entities(&self) -> (r: Vec<&Entity>)
        ensures
            r@.map_values(|e: &Entity| *e) == self.entity_list(),
    {
        self.entities.values()
    }

    /// Every asset, in the order they were stored.
    pub fn all_assets(&self) -> (r: Vec<&Asset>)
        ensures
            r@.map_values(|a: &Asset| *a) == self.asset_list(),
    {
        self.assets.values()
    }

    /// Saving then loading gives the records back: storing each list of a
    /// well-formed state, in order, into empty maps gives its maps.
    pub proof fn law_records_load_back(&self)
        requires
            self.wf(),
        ensures
            insert_all(Map::<Seq<char>, Project>::empty(), self.project_list()) == self.projects(),
            insert_all(Map::<Seq<char>, Scene>::empty(), self.scene_list()) == self.scenes(),
            insert_all(Map::<Seq<char>, Build>::empty(), self.build_list()) == self.builds(),
            insert_all(Map::<Seq<char>, Entity>::empty(), self.entity_list()) == self.entities(),
            insert_all(Map::<Seq<char>, Asset>::empty(), self.asset_list()) == self.assets(),
    {
        assert(keys_match(self.projects.pairs(), |v: Project| v.spec_key()));
        assert(keys_match(self.scenes.pairs(), |v: Scene| v.spec_key()));
        lemma_insert_all_values(self.projects.pairs());
        lemma_insert_all_values(self.scenes.pairs());
        lemma_insert_all_values(self.builds.pairs());
        lemma_insert_all_values(self.entities.pairs());
        lemma_insert_all_values(self.assets.pairs());
    }

    /// Every scene, in creation order.
    pub fn all_scenes(&self) -> (r: Vec<&Scene>)
        requires
            self.wf(),
        ensures
            r@.map_values(|s: &Scene| *s) == self.scene_list(),
    {
        let mut out: Vec<&Scene> = Vec::new();
        let mut i: usize = 0;
        while i < self.scenes.len()
            invariant
                i <= self.scenes.pairs().len(),
                out@.map_values(|s: &Scene| *s) == self.scene_list().take(i as int),
            decreases self.scenes.pairs().len() - i,
        {
            let sc = self.scenes.value_at(i);
            let ghost before = out@.map_values(|s: &Scene| *s);
            out.push(sc);
            assert(self.scene_list()[i as int] == *sc);
            assert(out@.map_values(|s: &Scene| *s) =~= before.push(*sc));
            assert(out@.map_values(|s: &Scene| *s) =~= self.scene_list().take(i + 1));
            i = i + 1;
        }
        assert(self.scene_list().take(i as int) =~= self.scene_list());
        out
    }
}



} // verus!
