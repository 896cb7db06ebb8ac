//! What a project knows that decides where and how its terminals open.

use std::path::PathBuf;

use vstd::prelude::*;

use crate::paths::{bytes_of_paths, optional_bytes, parent_of, path_bytes, path_parent};
use crate::terminals::Terminals;

verus! {

/// A file or directory of a worktree.
#[derive(Debug, PartialEq, Eq)]
pub struct Entry {
    pub absolute_path: PathBuf,
    pub is_dir: bool,
}

/// The worktree that holds the active entry.
#[derive(Debug, PartialEq, Eq)]
pub struct ActiveWorktree {
    /// Its root, if that is a directory.
    pub root_dir: Option<PathBuf>,
    /// The active entry, if the worktree still has it.
    pub entry: Option<Entry>,
}

/// The entry that is active in the project.
#[derive(Debug, PartialEq, Eq)]
pub struct ActiveEntry {
    /// The worktree that holds it, if one does.
    pub worktree: Option<ActiveWorktree>,
}

/// A worktree of the project.
#[derive(Debug, PartialEq, Eq)]
pub struct Worktree {
    pub abs_path: PathBuf,
    /// Whether the user sees it.
    pub is_visible: bool,
    /// Its root, if that is a directory.
    pub root_dir: Option<PathBuf>,
    /// Whether its root entry, if it has one, is a directory.
    pub root_entry_is_dir: Option<bool>,
}

/// The connection of a remote project.
#[derive(Debug, PartialEq, Eq)]
pub struct RemoteClient {
    /// The shell of the remote side, where it is known.
    pub shell: Option<String>,
}

/// A project, as far as its terminals depend on it.
#[derive(Debug, PartialEq, Eq)]
pub struct Project {
    pub active_entry: Option<ActiveEntry>,
    /// All worktrees, in their order.
    pub worktrees: Vec<Worktree>,
    pub remote_client: Option<RemoteClient>,
    /// Whether the project is opened over a remote server.
    pub is_via_remote_server: bool,
    pub terminals: Terminals,
}

/// The worktree of the active entry.
pub open spec fn active_worktree(project: Project) -> Option<ActiveWorktree> {
    match project.active_entry {
        Some(active) => active.worktree,
        None => None,
    }
}

/// The directory of the active entry: the entry itself if it is a directory,
/// and the directory that holds it else.
pub open spec fn entry_directory(project: Project) -> Option<Seq<u8>> {
    match active_worktree(project) {
        Some(worktree) => match worktree.entry {
            Some(entry) => if entry.is_dir {
                Some(path_bytes(entry.absolute_path))
            } else {
                path_parent(path_bytes(entry.absolute_path))
            },
            None => None,
        },
        None => None,
    }
}

/// The first of `worktrees` whose root is a directory.
pub open spec fn first_root_dir(worktrees: Seq<Worktree>) -> Option<Seq<u8>>
    decreases worktrees.len(),
{
    if worktrees.len() == 0 {
        None
    } else if worktrees[0].root_dir is Some {
        optional_bytes(worktrees[0].root_dir)
    } else {
        first_root_dir(worktrees.drop_first())
    }
}

/// The root directory of the active worktree, or else of the first worktree
/// that has one.
pub open spec fn project_directory(project: Project) -> Option<Seq<u8>> {
    match active_worktree(project) {
        Some(worktree) => if worktree.root_dir is Some {
            optional_bytes(worktree.root_dir)
        } else {
            first_root_dir(project.worktrees@)
        },
        None => first_root_dir(project.worktrees@),
    }
}

/// The path of the first worktree, if its root entry is a directory.
pub open spec fn first_directory(project: Project) -> Option<Seq<u8>> {
    if project.worktrees.len() > 0 && project.worktrees@[0].root_entry_is_dir == Some(true) {
        Some(path_bytes(project.worktrees@[0].abs_path))
    } else {
        None
    }
}

/// The paths of those of `worktrees` that the user sees.
pub open spec fn visible_paths(worktrees: Seq<Worktree>) -> Seq<Seq<u8>>
    decreases worktrees.len(),
{
    if worktrees.len() == 0 {
        Seq::empty()
    } else {
        let before = visible_paths(worktrees.drop_last());
        if worktrees.last().is_visible {
            before.push(path_bytes(worktrees.last().abs_path))
        } else {
            before
        }
    }
}

impl Project {
    /// The directory of the active entry.
    pub fn active_entry_directory(&self) -> (r: Option<PathBuf>)
        ensures
            optional_bytes(r) == entry_directory(*self),
            match self.active_entry {
                Some(
                    ActiveEntry { worktree: Some(ActiveWorktree { entry: Some(entry), .. }) },
                ) => {
                    &&& entry.is_dir ==> r is Some && path_bytes(r->0) == path_bytes(
                        entry.absolute_path,
                    )
                    &&& !entry.is_dir ==> (r is Some <==> path_parent(
                        path_bytes(entry.absolute_path),
                    ) is Some)
                    &&& !entry.is_dir && r is Some ==> path_parent(
                        path_bytes(entry.absolute_path),
                    ) == Some(path_bytes(r->0))
                },
                _ => r is None,
            },
    {
        match &self.active_entry {
            Some(active) => match &active.worktree {
                Some(worktree) => match &worktree.entry {
                    Some(entry) => {
                        if entry.is_dir {
                            Some(entry.absolute_path.clone())
                        } else {
                            parent_of(&entry.absolute_path)
                        }
                    },
                    None => None,
                },
                None => None,
            },
            None => None,
        }
    }

    /// The root directory of the active worktree, or else of the first worktree
    /// that has one.
    pub fn active_project_directory(&self) -> (r: Option<PathBuf>)
        ensures
            optional_bytes(r) == project_directory(*self),
            match self.active_entry {
                Some(
                    ActiveEntry { worktree: Some(ActiveWorktree { root_dir: Some(root), .. }) },
                ) => r is Some && path_bytes(r->0) == path_bytes(root),
                _ => {
                    &&& forall|i: int|
                        0 <= i < self.worktrees.len() && (#[trigger] self.worktrees@[i]).root_dir is Some
                            && (forall|j: int|
                            0 <= j < i ==> (#[trigger] self.worktrees@[j]).root_dir is None)
                            ==> r is Some && path_bytes(r->0) == path_bytes(
                            self.worktrees@[i].root_dir->0,
                        )
                    &&& (forall|i: int|
                        0 <= i < self.worktrees.len() ==> (
                        #[trigger] self.worktrees@[i]).root_dir is None) ==> r is None
                },
            },
    {
        proof {
            lemma_first_root_dir(self.worktrees@);
        }
        if let Some(active) = &self.active_entry {
            if let Some(worktree) = &active.worktree {
                if worktree.root_dir.is_some() {
                    return worktree.root_dir.clone();
                }
            }
        }
        let mut i: usize = 0;
        assert(self.worktrees@.skip(0) =~= self.worktrees@);
        while i < self.worktrees.len()
            invariant
                i <= self.worktrees.len(),
                project_directory(*self) == first_root_dir(self.worktrees@.skip(i as int)),
            decreases self.worktrees.len() - i,
        {
            proof {
                lemma_first_root_dir(self.worktrees@);
                assert(self.worktrees@.skip(i as int).drop_first() =~= self.worktrees@.skip(i + 1));
            }
            if self.worktrees[i].root_dir.is_some() {
                return self.worktrees[i].root_dir.clone();
            }
            i = i + 1;
        }
        None
    }

    /// The path of the first worktree, if its root entry is a directory.
    pub fn first_project_directory(&self) -> (r: Option<PathBuf>)
        ensures
            optional_bytes(r) == first_directory(*self),
            r is Some <==> self.worktrees.len() > 0 && self.worktrees@[0].root_entry_is_dir == Some(
                true,
            ),
            r is Some ==> path_bytes(r->0) == path_bytes(self.worktrees@[0].abs_path),
    {
        if self.worktrees.len() == 0 {
            return None;
        }
        match self.worktrees[0].root_entry_is_dir {
            Some(is_dir) => {
                if is_dir {
                    Some(self.worktrees[0].abs_path.clone())
                } else {
                    None
                }
            },
            None => None,
        }
    }

    /// The paths of the worktrees that the user sees.
    pub fn visible_worktree_paths(&self) -> (r: Vec<PathBuf>)
        ensures
            bytes_of_paths(r@) == visible_paths(self.worktrees@),
    {
        let mut r: Vec<PathBuf> = Vec::new();
        let mut i: usize = 0;
        assert(bytes_of_paths(r@) =~= visible_paths(self.worktrees@.take(0)));
        while i < self.worktrees.len()
            invariant
                i <= self.worktrees.len(),
                bytes_of_paths(r@) == visible_paths(self.worktrees@.take(i as int)),
            decreases self.worktrees.len() - i,
        {
            let ghost before = bytes_of_paths(r@);
            proof {
                assert(self.worktrees@.take(i + 1).drop_last() =~= self.worktrees@.take(i as int));
            }
            if self.worktrees[i].is_visible {
                r.push(self.worktrees[i].abs_path.clone());
                assert(bytes_of_paths(r@) =~= before.push(
                    path_bytes(self.worktrees@[i as int].abs_path),
                ));
            }
            i = i + 1;
        }
        assert(self.worktrees@.take(i as int) =~= self.worktrees@);
        r
    }

    /// The ids of the open terminals.
    pub fn local_terminal_handles(&self) -> (r: &Vec<u64>)
        ensures
            *r == self.terminals.local_handles,
    {
        &self.terminals.local_handles
    }
}

/// The first root directory of `worktrees` is that of the worktree with the
/// smallest index among those that have one.
proof fn lemma_first_root_dir(worktrees: Seq<Worktree>)
    ensures
        forall|i: int|
            0 <= i < worktrees.len() && (#[trigger] worktrees[i]).root_dir is Some && (forall|j: int|
                0 <= j < i ==> (#[trigger] worktrees[j]).root_dir is None) ==> first_root_dir(
                worktrees,
            ) == Some(path_bytes(worktrees[i].root_dir->0)),
        (forall|i: int| 0 <= i < worktrees.len() ==> (#[trigger] worktrees[i]).root_dir is None)
            ==> first_root_dir(worktrees) is None,
    decreases worktrees.len(),
{
    if worktrees.len() > 0 && worktrees[0].root_dir is None {
        let rest = worktrees.drop_first();
        lemma_first_root_dir(rest);
        assert forall|i: int|
            0 <= i < worktrees.len() && (#[trigger] worktrees[i]).root_dir is Some && (forall|j: int|
                0 <= j < i ==> (
                #[trigger] worktrees[j]).root_dir is None) implies first_root_dir(worktrees)
            == Some(path_bytes(worktrees[i].root_dir->0)) by {
            assert(rest[i - 1] == worktrees[i]);
            assert forall|j: int| 0 <= j < i - 1 implies (#[trigger] rest[j]).root_dir is None by {
                assert(rest[j] == worktrees[j + 1]);
            }
        }
        if forall|i: int| 0 <= i < worktrees.len() ==> (#[trigger] worktrees[i]).root_dir is None {
            assert forall|j: int| 0 <= j < rest.len() implies (#[trigger] rest[j]).root_dir is None by {
                assert(rest[j] == worktrees[j + 1]);
            }
        }
    }
}

/// The directory of the active entry is the entry itself if it is a directory,
/// and its parent if it is a file.
pub proof fn entry_directory_holds_the_entry(
    project: Project,
    root_dir: Option<PathBuf>,
    entry: Entry,
)
    requires
        project.active_entry == Some(
            ActiveEntry { worktree: Some(ActiveWorktree { root_dir, entry: Some(entry) }) },
        ),
    ensures
        entry.is_dir ==> entry_directory(project) == Some(path_bytes(entry.absolute_path)),
        !entry.is_dir ==> entry_directory(project) == path_parent(path_bytes(entry.absolute_path)),
{
}

/// Where the active entry stands in a worktree whose root is a directory, the
/// project's directory is that root, whichever entry of it is active.
pub proof fn active_root_is_project_directory(
    project: Project,
    root: PathBuf,
    entry: Option<Entry>,
)
    requires
        project.active_entry == Some(
            ActiveEntry { worktree: Some(ActiveWorktree { root_dir: Some(root), entry }) },
        ),
    ensures
        project_directory(project) == Some(path_bytes(root)),
{
}

/// Without an active worktree whose root is a directory, the project's
/// directory is the root of the first worktree that has one.
pub proof fn first_root_is_project_directory(project: Project, i: int)
    requires
        match project.active_entry {
            Some(ActiveEntry { worktree: Some(worktree) }) => worktree.root_dir is None,
            _ => true,
        },
        0 <= i < project.worktrees.len(),
        project.worktrees@[i].root_dir is Some,
        forall|j: int| 0 <= j < i ==> (#[trigger] project.worktrees@[j]).root_dir is None,
    ensures
        project_directory(project) == Some(path_bytes(project.worktrees@[i].root_dir->0)),
{
    lemma_first_root_dir(project.worktrees@);
}

/// A project in which no root is a directory has no directory.
pub proof fn project_without_roots_has_no_directory(project: Project)
    requires
        match project.active_entry {
            Some(ActiveEntry { worktree: Some(worktree) }) => worktree.root_dir is None,
            _ => true,
        },
        forall|i: int|
            0 <= i < project.worktrees.len() ==> (#[trigger] project.worktrees@[i]).root_dir is None,
    ensures
        project_directory(project) is None,
{
    lemma_first_root_dir(project.worktrees@);
}

/// The first directory of a project is the path of its first worktree, if the
/// root entry of that is a directory, and none else. Nothing but the first
/// worktree counts, of a project here or at the far end.
pub proof fn first_worktree_gives_first_directory(project: Project)
    ensures
        first_directory(project) is Some <==> project.worktrees.len() > 0
            && project.worktrees@[0].root_entry_is_dir == Some(true),
        first_directory(project) is Some ==> first_directory(project)->0 == path_bytes(
            project.worktrees@[0].abs_path,
        ),
{
}

/// The paths that the user sees are those of the visible worktrees, in the
/// order of the worktrees.
pub proof fn visible_paths_keep_visible_worktrees(worktrees: Seq<Worktree>)
    ensures
        visible_paths(worktrees) == worktrees.filter(|w: Worktree| w.is_visible).map_values(
            |w: Worktree| path_bytes(w.abs_path),
        ),
    decreases worktrees.len(),
{
    let seen = |w: Worktree| w.is_visible;
    let path = |w: Worktree| path_bytes(w.abs_path);
    reveal(Seq::filter);
    if worktrees.len() > 0 {
        let rest = worktrees.drop_last();
        visible_paths_keep_visible_worktrees(rest);
        if worktrees.last().is_visible {
            assert(worktrees.filter(seen) == rest.filter(seen).push(worktrees.last()));
            assert(rest.filter(seen).push(worktrees.last()).map_values(path) =~= rest.filter(
                seen,
            ).map_values(path).push(path_bytes(worktrees.last().abs_path)));
        }
    } else {
        assert(worktrees.filter(seen).map_values(path) =~= Seq::empty());
    }
}

} // verus!
