//! A global record of every project that has been linked to the shared
//! store. Powers `hub status` and cross-project analytics.

use vstd::prelude::*;

use crate::text::same_text;
use crate::util::{current_time, unix_secs, unix_secs_spec, Timestamp};

verus! {

/// One linked project.
pub struct Project {
    pub path: String,
    pub ecosystem: String,
    pub linked_at: u64,
}

/// A project as text.
pub struct ProjectView {
    pub path: Seq<char>,
    pub ecosystem: Seq<char>,
    pub linked_at: u64,
}

impl View for Project {
    type V = ProjectView;

    open spec fn view(&self) -> ProjectView {
        ProjectView { path: self.path@, ecosystem: self.ecosystem@, linked_at: self.linked_at }
    }
}

/// Every linked project, in the order they were first linked.
pub struct Registry {
    pub projects: Vec<Project>,
}

/// The projects of a registry, as text.
pub open spec fn projects_view(r: &Registry) -> Seq<ProjectView> {
    r.projects@.map_values(|p: Project| p@)
}

/// No path is recorded twice.
pub open spec fn paths_unique(s: Seq<ProjectView>) -> bool {
    forall|i: int, j: int| 0 <= i < s.len() && 0 <= j < s.len() && i != j ==> s[i].path != s[j].path
}

/// Some project has `path`.
pub open spec fn has_path(s: Seq<ProjectView>, path: Seq<char>) -> bool {
    exists|i: int| 0 <= i < s.len() && s[i].path == path
}

/// The effect of recording `path` as an `ecosystem` project at time `now`:
/// the first project with that path is refreshed in place (new ecosystem,
/// new time), or a new project is appended when none has it.
pub open spec fn upserted(
    old: Seq<ProjectView>,
    new: Seq<ProjectView>,
    path: Seq<char>,
    ecosystem: Seq<char>,
    now: u64,
) -> bool {
    let entry = ProjectView { path, ecosystem, linked_at: now };
    ||| exists|i: int|
        0 <= i < old.len() && old[i].path == path && (forall|j: int| 0 <= j < i ==> old[j].path != path)
            && new == old.update(i, entry)
    ||| !has_path(old, path) && new == old.push(entry)
}

/// The registration time recorded at clock reading `t`: its Unix seconds,
/// or 0 for a time before the epoch.
pub open spec fn stamp_of(t: Timestamp) -> u64 {
    match unix_secs_spec(t) {
        Some(s) => s,
        None => 0,
    }
}

impl Registry {
    /// A registry with no projects.
    pub fn empty() -> (res: Registry)
        ensures
            projects_view(&res) == Seq::<ProjectView>::empty(),
    {
        let r = Registry { projects: Vec::new() };
        assert(projects_view(&r) =~= Seq::<ProjectView>::empty());
        r
    }

    /// Record (or refresh) a project at time `now` (Unix seconds).
    /// De-duplicates by path.
    pub fn upsert_at(&mut self, path: &str, ecosystem: &str, now: u64)
        ensures
            upserted(projects_view(old(self)), projects_view(final(self)), path@, ecosystem@, now),
    {
        let ghost before = projects_view(self);
        let n = self.projects.len();
        let mut i: usize = 0;
        while i < n
            invariant
                i <= n,
                n == self.projects@.len(),
                before == projects_view(self),
                before == projects_view(old(self)),
                forall|j: int| 0 <= j < i ==> before[j].path != path@,
            decreases n - i,
        {
            if same_text(self.projects[i].path.as_str(), path) {
                let old_entry = self.projects.remove(i);
                let entry = Project {
                    path: old_entry.path,
                    ecosystem: String::from_str(ecosystem),
                    linked_at: now,
                };
                self.projects.insert(i, entry);
                proof {
                    let after = projects_view(self);
                    let e = ProjectView { path: path@, ecosystem: ecosystem@, linked_at: now };
                    assert(after =~= before.update(i as int, e));
                }
                return;
            }
            i = i + 1;
        }
        self.projects.push(
            Project { path: String::from_str(path), ecosystem: String::from_str(ecosystem), linked_at: now },
        );
        proof {
            let e = ProjectView { path: path@, ecosystem: ecosystem@, linked_at: now };
            assert(projects_view(self) =~= before.push(e));
        }
    }

    /// Record (or refresh) a project, stamped with the current time.
    /// De-duplicates by path.
    pub fn upsert(&mut self, path: &str, ecosystem: &str)
        ensures
            exists|t: Timestamp|
                upserted(projects_view(old(self)), projects_view(final(self)), path@, ecosystem@, stamp_of(t)),
    {
        let t = current_time();
        let now = match unix_secs(t) {
            Some(s) => s,
            None => 0,
        };
        self.upsert_at(path, ecosystem, now);
        assert(now == stamp_of(t));
    }
}

} // verus!

verus! {

/// Recording a project de-duplicates by path: if no path was recorded twice
/// before, none is after; the path is then recorded, and the registry grew
/// by one exactly when the path was new.
pub proof fn lemma_upsert_dedup(
    old: Seq<ProjectView>,
    new: Seq<ProjectView>,
    path: Seq<char>,
    ecosystem: Seq<char>,
    now: u64,
)
    requires
        paths_unique(old),
        upserted(old, new, path, ecosystem, now),
    ensures
        paths_unique(new),
        has_path(new, path),
        new.len() == old.len() + (if has_path(old, path) { 0int } else { 1int }),
{
    let entry = ProjectView { path, ecosystem, linked_at: now };
    if !has_path(old, path) && new == old.push(entry) {
        assert(new[old.len() as int].path == path);
        assert forall|i: int, j: int|
            0 <= i < new.len() && 0 <= j < new.len() && i != j implies new[i].path != new[j].path by {
            if i < old.len() && j < old.len() {
                assert(new[i] == old[i] && new[j] == old[j]);
            } else if i < old.len() {
                assert(new[i] == old[i]);
                assert(!(0 <= i < old.len() && old[i].path == path));
            } else {
                assert(new[j] == old[j]);
                assert(!(0 <= j < old.len() && old[j].path == path));
            }
        }
    } else {
        let i = choose|i: int|
            0 <= i < old.len() && old[i].path == path && (forall|j: int| 0 <= j < i ==> old[j].path != path)
                && new == old.update(i, entry);
        assert(new[i].path == path);
        assert(has_path(old, path));
    }
}

} // verus!
