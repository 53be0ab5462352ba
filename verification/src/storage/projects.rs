//! Project registry.

use vstd::prelude::*;
use crate::error::{IdeError, Result};
use crate::storage::rows::{StoredRow, Table, row_inserted};
use crate::storage::{Database, now, sql};
use crate::text::{spec_trim, trim, i64_to_text, spec_decimal, concat2, concat3};
use crate::order::{Ordered, sort, sorted, text_le, text_in_order, lemma_reorder_keeps_keys};

verus! {

/// A registered project folder that bounds what the agent may touch.
#[derive(Debug, Clone, PartialEq, Eq)]
pub struct Project {
    pub id: i64,
    pub name: String,
    pub path: String,
    pub auto_approve_read_only: bool,
    pub available: bool,
    pub created_at: String,
    pub updated_at: String,
}

/// The project stored under `id`, if any.
pub open spec fn stored_project(rows: Map<(Table, i64), StoredRow>, id: i64) -> Option<Project> {
    if rows.contains_key((Table::Projects, id)) {
        match rows[(Table::Projects, id)] {
            StoredRow::Project(p) => Some(p),
            _ => None,
        }
    } else {
        None
    }
}

/// Whether some stored project is registered at `path`.
pub open spec fn path_registered(rows: Map<(Table, i64), StoredRow>, path: Seq<char>) -> bool {
    exists|id: i64| #[trigger] stored_project(rows, id) matches Some(p) && p.path@ == path
}

/// No two stored projects share a path.
pub open spec fn paths_unique(rows: Map<(Table, i64), StoredRow>) -> bool {
    forall|a: i64, b: i64|
        #[trigger] stored_project(rows, a) matches Some(p) && #[trigger] stored_project(rows, b) matches Some(q)
            && p.path@ == q.path@ ==> a == b
}

/// Whether `path` is absolute: on Unix, it starts at the root.
pub open spec fn spec_is_absolute(path: Seq<char>) -> bool {
    path.len() > 0 && path[0] == '/'
}

/// Whether `name` and `path` pass the registration checks, `is_directory`
/// telling whether the path names an existing directory.
pub open spec fn valid_registration(name: Seq<char>, path: Seq<char>, is_directory: bool) -> bool {
    spec_trim(name).len() > 0 && spec_is_absolute(path) && is_directory
}

/// Only an existing directory, given by an absolute path, under a name that
/// is not blank, can be registered.
pub proof fn lemma_registration_needs_an_absolute_directory(name: Seq<char>, path: Seq<char>, is_directory: bool)
    requires
        valid_registration(name, path, is_directory),
    ensures
        is_directory,
        path.len() > 0 && path[0] == '/',
        spec_trim(name).len() > 0,
{
}

/// The not-found error for project `id`.
pub open spec fn project_not_found(id: i64) -> Seq<char> {
    "project "@ + spec_decimal(id as int)
}

/// CRUD for registered project folders.
pub struct ProjectRepository<'a> {
    pub db: &'a mut Database,
}

/// Reads the project stored under `id`.
pub fn read_project(db: &Database, id: i64) -> (r: Result<Project>)
    ensures
        r matches Ok(p) ==> stored_project(db.rows(), id) == Some(p) && p.id == id,
        r matches Err(e) ==> (e is NotFound && stored_project(db.rows(), id) is None
            && e->NotFound_0@ == project_not_found(id)) || e is Database,
        stored_project(db.rows(), id) is Some ==> r is Ok || r->Err_0 is Database,
{
    match sql::select_project(db, id) {
        Ok(Some(p)) => Ok(p),
        Ok(None) => {
            let t = i64_to_text(id);
            proof { reveal_strlit("project "); }
            Err(IdeError::NotFound(concat2("project ", t.as_str())))
        },
        Err(e) => Err(IdeError::Database(e)),
    }
}

/// Whether `path` is absolute.
pub fn is_absolute(path: &str) -> (b: bool)
    ensures
        b == spec_is_absolute(path@),
{
    path.unicode_len() > 0 && path.get_char(0) == '/'
}

/// `listed` holds every stored project exactly once.
pub open spec fn lists_projects(rows: Map<(Table, i64), StoredRow>, listed: Seq<Project>) -> bool {
    &&& forall|i: int| 0 <= i < listed.len() ==> stored_project(rows, #[trigger] listed[i].id) == Some(listed[i])
    &&& forall|id: i64| #[trigger] stored_project(rows, id) is Some ==> exists|i: int| 0 <= i < listed.len() && listed[i].id == id
    &&& forall|i: int, j: int| 0 <= i < j < listed.len() ==> #[trigger] listed[i].id != #[trigger] listed[j].id
}

/// Projects are listed by name.
impl Ordered for Project {
    open spec fn precedes(&self, other: &Self) -> bool {
        text_le(self.name@, other.name@)
    }

    proof fn lemma_total(a: &Self, b: &Self) {
        crate::order::lemma_text_le_total(a.name@, b.name@);
    }

    proof fn lemma_transitive(a: &Self, b: &Self, c: &Self) {
        crate::order::lemma_text_le_transitive(a.name@, b.name@, c.name@);
    }

    fn in_order(&self, other: &Self) -> (r: bool) {
        text_in_order(self.name.as_str(), other.name.as_str())
    }
}

/// Reads every stored project, in no particular order.
fn read_projects(db: &Database) -> (r: Result<Vec<Project>>)
    ensures
        r matches Ok(v) ==> lists_projects(db.rows(), v@),
        r matches Err(e) ==> e is Database,
{
    match sql::select_all_projects(db) {
        Ok(v) => {
            proof {
                let listed = v@.map_values(|p: Project| (p.id, StoredRow::Project(p)));
                assert forall|i: int| 0 <= i < v@.len() implies stored_project(db.rows(), #[trigger] v@[i].id) == Some(v@[i]) by {
                    assert(listed[i] == (v@[i].id, StoredRow::Project(v@[i])));
                    assert(db.rows().contains_key((Table::Projects, listed[i].0)));
                }
                assert forall|id: i64| #[trigger] stored_project(db.rows(), id) is Some implies exists|i: int| 0 <= i < v@.len() && v@[i].id == id by {
                    assert(db.rows().contains_key((Table::Projects, id)));
                    let i = choose|i: int| 0 <= i < listed.len() && #[trigger] listed[i].0 == id;
                    assert(listed[i] == (v@[i].id, StoredRow::Project(v@[i])));
                }
                assert forall|i: int, j: int| 0 <= i < j < v@.len() implies #[trigger] v@[i].id != #[trigger] v@[j].id by {
                    assert(listed[i].0 == v@[i].id && listed[j].0 == v@[j].id);
                }
            }
            Ok(v)
        },
        Err(e) => Err(IdeError::Database(e)),
    }
}

impl<'a> ProjectRepository<'a> {
    pub fn new(db: &'a mut Database) -> (r: Self)
        ensures
            *r.db == *old(db),
            *final(db) == *final(r.db),
    {
        ProjectRepository { db }
    }

    /// Register a project folder. The path must be an absolute directory
    /// (`is_directory` tells whether it exists as one) and unique across
    /// projects; the name must not be blank.
    pub fn create(&mut self, name: &str, path: &str, is_directory: bool) -> (r: Result<Project>)
        ensures
            *final(final(self).db) == *final(old(self).db),
            !valid_registration(name@, path@, is_directory) ==> r is Err && r->Err_0 is Validation,
            !is_directory ==> r is Err && r->Err_0 is Validation,
            !spec_is_absolute(path@) ==> r is Err && r->Err_0 is Validation,
            spec_trim(name@).len() == 0 ==> r is Err && r->Err_0 is Validation,
            r is Ok ==> is_directory && spec_is_absolute(path@) && spec_trim(name@).len() > 0,
            valid_registration(name@, path@, is_directory) && path_registered(old(self).db.rows(), path@)
                ==> r is Err,
            r matches Ok(p) ==> {
                &&& valid_registration(name@, path@, is_directory)
                &&& !path_registered(old(self).db.rows(), path@)
                &&& p.name@ == spec_trim(name@)
                &&& p.path@ == path@
                &&& !p.auto_approve_read_only
                &&& p.available
                &&& p.created_at@ == p.updated_at@
                &&& row_inserted(old(self).db.rows(), final(self).db.rows(), (Table::Projects, p.id), StoredRow::Project(p))
            },
            r matches Err(e) ==> final(self).db.rows() == old(self).db.rows() && (e is Validation || e is Database),
            r matches Err(e) && e is Validation ==> !valid_registration(name@, path@, is_directory)
                || path_registered(old(self).db.rows(), path@),
            valid_registration(name@, path@, is_directory) && !path_registered(old(self).db.rows(), path@)
                ==> r is Ok || r->Err_0 is Database,
    {
        let trimmed = trim(name);
        if trimmed.unicode_len() == 0 {
            return Err(IdeError::Validation("project name must not be empty".to_string()));
        }
        if !is_absolute(path) {
            return Err(IdeError::Validation(concat3("project path ", path, " must be absolute")));
        }
        if !is_directory {
            return Err(IdeError::Validation(concat3("project path ", path, " is not a directory")));
        }
        let existing = match read_projects(self.db) {
            Ok(v) => v,
            Err(e) => return Err(e),
        };
        let found = find_path(&existing, path);
        if found.is_some() {
            proof {
                let i = found->0 as int;
                assert(stored_project(old(self.db).rows(), existing@[i].id) == Some(existing@[i]));
            }
            return Err(IdeError::Validation(concat3("project already registered (", path, ")")));
        }
        proof {
            if path_registered(old(self.db).rows(), path@) {
                let id = choose|id: i64| #[trigger] stored_project(old(self.db).rows(), id) matches Some(p) && p.path@ == path@;
                let i = choose|i: int| 0 <= i < existing@.len() && existing@[i].id == id;
                assert(stored_project(old(self.db).rows(), existing@[i].id) == Some(existing@[i]));
            }
        }
        let timestamp = now();
        let row = Project {
            id: 0,
            name: trimmed,
            path: path.to_string(),
            auto_approve_read_only: false,
            available: true,
            created_at: timestamp.clone(),
            updated_at: timestamp,
        };
        match sql::insert_project(self.db, &row) {
            Ok(id) => Ok(Project { id, ..row }),
            Err(e) => Err(IdeError::Database(e)),
        }
    }

    pub fn get(&self, id: i64) -> (r: Result<Project>)
        ensures
            r matches Ok(p) ==> stored_project(old(self.db).rows(), id) == Some(p),
            r matches Err(e) ==> (e is NotFound && stored_project(old(self.db).rows(), id) is None
                && e->NotFound_0@ == project_not_found(id)) || e is Database,
            stored_project(old(self.db).rows(), id) is None ==> r is Err,
    {
        read_project(self.db, id)
    }

    /// The project registered at `path`, if any.
    pub fn find_by_path(&self, path: &str) -> (r: Result<Option<Project>>)
        ensures
            r matches Ok(Some(p)) ==> stored_project(old(self.db).rows(), p.id) == Some(p) && p.path@ == path@,
            r matches Ok(None) ==> !path_registered(old(self.db).rows(), path@),
            r matches Err(e) ==> e is Database,
    {
        let projects = match read_projects(self.db) {
            Ok(v) => v,
            Err(e) => return Err(e),
        };
        match find_path(&projects, path) {
            Some(i) => Ok(Some(projects[i].clone_project())),
            None => {
                proof {
                    if path_registered(old(self.db).rows(), path@) {
                        let id = choose|id: i64| #[trigger] stored_project(old(self.db).rows(), id) matches Some(p) && p.path@ == path@;
                        let i = choose|i: int| 0 <= i < projects@.len() && projects@[i].id == id;
                        assert(stored_project(old(self.db).rows(), projects@[i].id) == Some(projects@[i]));
                    }
                }
                Ok(None)
            },
        }
    }

    /// Every project, ordered by name.
    pub fn list(&self) -> (r: Result<Vec<Project>>)
        ensures
            r matches Ok(v) ==> lists_projects(old(self.db).rows(), v@) && sorted(v@),
            r matches Err(e) ==> e is Database,
    {
        let projects = match read_projects(self.db) {
            Ok(v) => v,
            Err(e) => return Err(e),
        };
        let ghost before = projects@;
        let out = sort(projects);
        proof {
            lemma_reorder_keeps_keys(before, out@, |p: Project| p.id);
            assert forall|i: int| 0 <= i < out@.len() implies stored_project(old(self.db).rows(), #[trigger] out@[i].id) == Some(out@[i]) by {
                assert(before.contains(out@[i]));
                let k = choose|k: int| 0 <= k < before.len() && before[k] == out@[i];
                assert(stored_project(old(self.db).rows(), before[k].id) == Some(before[k]));
            }
            assert forall|id: i64| #[trigger] stored_project(old(self.db).rows(), id) is Some implies exists|i: int| 0 <= i < out@.len() && out@[i].id == id by {
                let k = choose|k: int| 0 <= k < before.len() && before[k].id == id;
                assert(out@.contains(before[k]));
            }
            assert forall|i: int, j: int| 0 <= i < j < out@.len() implies #[trigger] out@[i].id != #[trigger] out@[j].id by {
                assert((|p: Project| p.id)(out@[i]) != (|p: Project| p.id)(out@[j]));
            }
        }
        Ok(out)
    }

    /// Give a project a new, non-blank name.
    pub fn rename(&mut self, id: i64, name: &str) -> (r: Result<Project>)
        ensures
            *final(final(self).db) == *final(old(self).db),
            spec_trim(name@).len() == 0 ==> r is Err && r->Err_0 is Validation,
            spec_trim(name@).len() > 0 && stored_project(old(self).db.rows(), id) is None ==> r is Err,
            r matches Ok(p) ==> {
                let q = stored_project(old(self).db.rows(), id)->0;
                &&& stored_project(old(self).db.rows(), id) is Some
                &&& p.id == id && p.name@ == spec_trim(name@) && p.path@ == q.path@
                &&& p.auto_approve_read_only == q.auto_approve_read_only && p.available == q.available
                &&& p.created_at@ == q.created_at@
                &&& final(self).db.rows() == old(self).db.rows().insert((Table::Projects, id), StoredRow::Project(p))
            },
            r matches Err(e) ==> final(self).db.rows() == old(self).db.rows() && (e is Validation
                || e is Database || (e is NotFound && stored_project(old(self).db.rows(), id) is None
                && e->NotFound_0@ == project_not_found(id))),
            r matches Err(e) && e is Validation ==> spec_trim(name@).len() == 0,
            spec_trim(name@).len() > 0 && stored_project(old(self).db.rows(), id) is Some ==> r is Ok || r->Err_0 is Database,
    {
        let trimmed = trim(name);
        if trimmed.unicode_len() == 0 {
            return Err(IdeError::Validation("project name must not be empty".to_string()));
        }
        let current = match read_project(self.db, id) {
            Ok(p) => p,
            Err(e) => return Err(e),
        };
        let updated = Project { name: trimmed, updated_at: now(), ..current };
        self.store(updated)
    }

    /// Turn automatic approval of read-only actions on or off.
    pub fn set_auto_approve_read_only(&mut self, id: i64, enabled: bool) -> (r: Result<Project>)
        ensures
            *final(final(self).db) == *final(old(self).db),
            stored_project(old(self).db.rows(), id) is None ==> r is Err,
            r matches Ok(p) ==> {
                let q = stored_project(old(self).db.rows(), id)->0;
                &&& stored_project(old(self).db.rows(), id) is Some
                &&& p.id == id && p.name@ == q.name@ && p.path@ == q.path@
                &&& p.auto_approve_read_only == enabled && p.available == q.available
                &&& p.created_at@ == q.created_at@
                &&& final(self).db.rows() == old(self).db.rows().insert((Table::Projects, id), StoredRow::Project(p))
            },
            r matches Err(e) ==> final(self).db.rows() == old(self).db.rows() && (e is Database
                || (e is NotFound && stored_project(old(self).db.rows(), id) is None
                && e->NotFound_0@ == project_not_found(id))),
    {
        let current = match read_project(self.db, id) {
            Ok(p) => p,
            Err(e) => return Err(e),
        };
        let updated = Project { auto_approve_read_only: enabled, updated_at: now(), ..current };
        self.store(updated)
    }

    /// Write back a project that was read under the same id.
    fn store(&mut self, p: Project) -> (r: Result<Project>)
        requires
            stored_project(old(self).db.rows(), p.id) is Some,
        ensures
            *final(final(self).db) == *final(old(self).db),
            r matches Ok(q) ==> q == p && final(self).db.rows() == old(self).db.rows().insert(
                (Table::Projects, p.id), StoredRow::Project(p)),
            r matches Err(e) ==> final(self).db.rows() == old(self).db.rows() && e is Database,
    {
        match sql::update_project(self.db, &p) {
            Ok(_) => Ok(p),
            Err(e) => Err(IdeError::Database(e)),
        }
    }

    /// Unregister a project. Projects that sessions still reference are
    /// refused by the database.
    pub fn remove(&mut self, id: i64) -> (r: Result<()>)
        ensures
            *final(final(self).db) == *final(old(self).db),
            stored_project(old(self).db.rows(), id) is None ==> r is Err,
            r is Ok ==> stored_project(old(self).db.rows(), id) is Some
                && final(self).db.rows() == old(self).db.rows().remove((Table::Projects, id)),
            r matches Err(e) ==> final(self).db.rows() == old(self).db.rows() && (e is Database
                || (e is NotFound && stored_project(old(self).db.rows(), id) is None
                && e->NotFound_0@ == project_not_found(id))),
    {
        match sql::delete_project(self.db, id) {
            Ok(0) => {
                let t = i64_to_text(id);
                proof { reveal_strlit("project "); }
                Err(IdeError::NotFound(concat2("project ", t.as_str())))
            },
            Ok(_) => Ok(()),
            Err(e) => Err(IdeError::Database(e)),
        }
    }

    /// Re-check whether the folder still exists (`is_directory`, probed by
    /// the caller) and store the result.
    pub fn refresh_availability(&mut self, id: i64, is_directory: bool) -> (r: Result<Project>)
        ensures
            *final(final(self).db) == *final(old(self).db),
            stored_project(old(self).db.rows(), id) is None ==> r is Err,
            r matches Ok(p) ==> {
                let q = stored_project(old(self).db.rows(), id)->0;
                &&& stored_project(old(self).db.rows(), id) is Some
                &&& p.available == is_directory
                &&& if q.available == is_directory {
                    p == q && final(self).db.rows() == old(self).db.rows()
                } else {
                    &&& p.id == id && p.name@ == q.name@ && p.path@ == q.path@
                    &&& p.auto_approve_read_only == q.auto_approve_read_only
                    &&& p.created_at@ == q.created_at@
                    &&& final(self).db.rows() == old(self).db.rows().insert((Table::Projects, id), StoredRow::Project(p))
                }
            },
            r matches Err(e) ==> final(self).db.rows() == old(self).db.rows() && (e is Database
                || (e is NotFound && stored_project(old(self).db.rows(), id) is None
                && e->NotFound_0@ == project_not_found(id))),
    {
        let current = match read_project(self.db, id) {
            Ok(p) => p,
            Err(e) => return Err(e),
        };
        if current.available == is_directory {
            return Ok(current);
        }
        let updated = Project { available: is_directory, updated_at: now(), ..current };
        self.store(updated)
    }
}

impl Project {
    /// A field-by-field copy.
    pub fn clone_project(&self) -> (r: Project)
        ensures
            r == *self,
    {
        Project {
            id: self.id,
            name: self.name.clone(),
            path: self.path.clone(),
            auto_approve_read_only: self.auto_approve_read_only,
            available: self.available,
            created_at: self.created_at.clone(),
            updated_at: self.updated_at.clone(),
        }
    }
}

/// Index of the project registered at `path`, if any.
fn find_path(projects: &Vec<Project>, path: &str) -> (r: Option<usize>)
    ensures
        r matches Some(i) ==> i < projects.len() && projects@[i as int].path@ == path@,
        r is None ==> forall|i: int| 0 <= i < projects.len() ==> projects@[i].path@ != path@,
{
    let mut i: usize = 0;
    while i < projects.len()
        invariant
            i <= projects.len(),
            forall|j: int| 0 <= j < i ==> projects@[j].path@ != path@,
        decreases projects.len() - i,
    {
        if crate::text::str_eq(projects[i].path.as_str(), path) {
            return Some(i);
        }
        i = i + 1;
    }
    None
}

} // verus!
