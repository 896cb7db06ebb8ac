//! A shell history file of its own for every workspace.
//!
//! A local POSIX shell gets `HISTFILE` set to
//! `<data_dir>/terminal_history/<workspace id>/bash_history`, so that each set
//! of worktrees keeps its own command history. Remote shells, other families
//! of shells, and users who set `HISTFILE` themselves are left alone.

use std::path::PathBuf;

use sha2::Digest;
use vstd::prelude::*;
use vstd::utf8::{decode_utf8_encode_utf8, encode_utf8, encode_utf8_decode_utf8, valid_utf8};

use crate::env::Env;
use crate::paths::{
    bytes_of_paths, join_path, parent_of, path_before, path_bytes, path_joined, path_parent,
    path_sorted, path_text, sort_paths, sorting_ignores_arrangement, sorting_keeps_paths, text_of_path,
    told_apart,
};
use crate::shell::ShellKind;
use crate::text::{
    hex, hex_spells_bytes, hex_text, hex_value, join_texts, joined, joined_is_injective,
};

verus! {

/// The SHA-256 digest of `data`.
pub uninterp spec fn sha256_digest(data: Seq<u8>) -> Seq<u8>;

/// `<sha2::Sha256 as Digest>::digest`, named by `sha256_digest`; a digest has
/// 32 bytes.
#[verifier::external_body]
fn sha256(data: &[u8]) -> (r: Vec<u8>)
    ensures
        r@ == sha256_digest(data@),
        r.len() == 32,
{
    sha2::Sha256::digest(data).to_vec()
}

/// The text of each of `paths`.
pub open spec fn path_texts(paths: Seq<Seq<u8>>) -> Seq<Seq<char>> {
    paths.map_values(|path: Seq<u8>| path_text(path))
}

/// What identifies the workspace with the worktrees `paths`: the texts of its
/// sorted paths, which a zero byte separates.
pub open spec fn workspace_bytes(paths: Seq<Seq<u8>>) -> Seq<u8> {
    encode_utf8(joined(path_texts(path_sorted(paths)), seq!['\0']))
}

/// The id of the workspace with the worktrees `paths`: the first eight bytes
/// of the SHA-256 digest of what identifies it, in hexadecimal.
pub open spec fn history_id(paths: Seq<Seq<u8>>) -> Seq<char> {
    hex(sha256_digest(workspace_bytes(paths)).take(8))
}

/// The history file of the workspace with the worktrees `paths`.
pub open spec fn history_file(data_dir: Seq<u8>, paths: Seq<Seq<u8>>) -> Seq<u8> {
    path_joined(
        path_joined(path_joined(data_dir, "terminal_history"@), history_id(paths)),
        "bash_history"@,
    )
}

/// A lower-case hexadecimal digit.
pub open spec fn is_hex_digit(c: char) -> bool {
    ('0' <= c && c <= '9') || ('a' <= c && c <= 'f')
}

/// The texts of `paths`.
fn texts_of_paths(paths: &Vec<PathBuf>) -> (r: Vec<String>)
    ensures
        r.deep_view() == path_texts(bytes_of_paths(paths@)),
{
    let mut r: Vec<String> = Vec::new();
    let mut i: usize = 0;
    while i < paths.len()
        invariant
            i <= paths.len(),
            r.len() == i,
            forall|j: int|
                0 <= j < i ==> (#[trigger] r@[j])@ == path_text(path_bytes(paths@[j])),
        decreases paths.len() - i,
    {
        r.push(text_of_path(&paths[i]));
        i = i + 1;
    }
    assert(r.deep_view() =~= path_texts(bytes_of_paths(paths@)));
    r
}

/// The id of the workspace with the worktrees at `worktree_abs_paths`.
///
/// The id does not depend on the order of the worktrees, as long as the order
/// of paths tells different ones apart (it does not for `/a` and `/a/`).
pub fn workspace_history_id(worktree_abs_paths: &[PathBuf]) -> (r: String)
    ensures
        r@ == history_id(bytes_of_paths(worktree_abs_paths@)),
        r@.len() == 16,
        forall|i: int| 0 <= i < 16 ==> is_hex_digit(#[trigger] r@[i]),
        forall|other: Seq<Seq<u8>>|
            told_apart(bytes_of_paths(worktree_abs_paths@))
                && #[trigger] other.to_multiset() == bytes_of_paths(
                worktree_abs_paths@,
            ).to_multiset() ==> r@ == history_id(other),
        forall|other: Seq<PathBuf>|
            (forall|i: int, j: int|
                0 <= i < worktree_abs_paths@.len() && 0 <= j < worktree_abs_paths@.len()
                    && path_bytes(#[trigger] worktree_abs_paths@[i]) != path_bytes(
                    #[trigger] worktree_abs_paths@[j],
                ) ==> path_before(
                    path_bytes(worktree_abs_paths@[i]),
                    path_bytes(worktree_abs_paths@[j]),
                ) || path_before(
                    path_bytes(worktree_abs_paths@[j]),
                    path_bytes(worktree_abs_paths@[i]),
                )) && #[trigger] other.to_multiset() == worktree_abs_paths@.to_multiset() ==> r@
                == history_id(bytes_of_paths(other)),
{
    let ghost paths = bytes_of_paths(worktree_abs_paths@);
    let sorted = sort_paths(worktree_abs_paths);
    let texts = texts_of_paths(&sorted);
    let text = join_texts(&texts, "\0");
    let digest = sha256(text.as_str().as_bytes());
    let r = hex_text(&digest, 8);
    proof {
        reveal_strlit("\0");
        assert("\0"@ =~= seq!['\0']);
        assert forall|i: int| 0 <= i < 16 implies is_hex_digit(#[trigger] r@[i]) by {
            let b = digest@[i / 2];
            assert(0 <= b as int / 16 < 16 && 0 <= b as int % 16 < 16);
        }
        assert forall|other: Seq<Seq<u8>>|
            told_apart(paths) && #[trigger] other.to_multiset()
                == paths.to_multiset() implies r@ == history_id(other) by {
            sorting_ignores_arrangement(paths, other);
        }
        assert forall|other: Seq<PathBuf>|
            (forall|i: int, j: int|
                0 <= i < worktree_abs_paths@.len() && 0 <= j < worktree_abs_paths@.len()
                    && path_bytes(#[trigger] worktree_abs_paths@[i]) != path_bytes(
                    #[trigger] worktree_abs_paths@[j],
                ) ==> path_before(
                    path_bytes(worktree_abs_paths@[i]),
                    path_bytes(worktree_abs_paths@[j]),
                ) || path_before(
                    path_bytes(worktree_abs_paths@[j]),
                    path_bytes(worktree_abs_paths@[i]),
                )) && #[trigger] other.to_multiset()
                == worktree_abs_paths@.to_multiset() implies r@ == history_id(
            bytes_of_paths(other),
        ) by {
            lemma_same_bytes(worktree_abs_paths@, other);
            assert forall|i: int, j: int|
                0 <= i < paths.len() && 0 <= j < paths.len() && paths[i] != paths[j] implies (
            #[trigger] path_before(paths[i], paths[j]) || path_before(paths[j], paths[i])) by {
                assert(paths[i] == path_bytes(worktree_abs_paths@[i]));
                assert(paths[j] == path_bytes(worktree_abs_paths@[j]));
            }
            assert(told_apart(paths));
            sorting_ignores_arrangement(paths, bytes_of_paths(other));
        }
    }
    r
}

/// The history file of the workspace with the worktrees at
/// `worktree_abs_paths`, below the directory `data_dir`; none for a workspace
/// without worktrees.
pub fn workspace_bash_history_path(data_dir: &PathBuf, worktree_abs_paths: &[PathBuf]) -> (r:
    Option<PathBuf>)
    ensures
        r is None <==> worktree_abs_paths@.len() == 0,
        r is Some ==> path_bytes(r->0) == history_file(
            path_bytes(*data_dir),
            bytes_of_paths(worktree_abs_paths@),
        ),
        forall|other: Seq<Seq<u8>>|
            r is Some && told_apart(bytes_of_paths(worktree_abs_paths@))
                && #[trigger] other.to_multiset() == bytes_of_paths(
                worktree_abs_paths@,
            ).to_multiset() ==> path_bytes(r->0) == history_file(path_bytes(*data_dir), other),
{
    if worktree_abs_paths.len() == 0 {
        return None;
    }
    let id = workspace_history_id(worktree_abs_paths);
    let dir = join_path(data_dir, "terminal_history");
    let dir = join_path(&dir, id.as_str());
    Some(join_path(&dir, "bash_history"))
}

/// Whether a terminal gets the history file of its workspace: it is not
/// remote, its shell is a POSIX one, and `HISTFILE` is not set already.
pub fn should_use_workspace_bash_history(is_remote: bool, shell_kind: ShellKind, env: &Env) -> (r:
    bool)
    ensures
        r == (!is_remote && shell_kind == ShellKind::Posix && !env@.contains_key("HISTFILE"@)),
{
    if is_remote {
        return false;
    }
    if shell_kind != ShellKind::Posix {
        return false;
    }
    if env.contains_key("HISTFILE") {
        return false;
    }
    true
}

/// `env` with the variable `key` set to `value` unless it is set already.
pub open spec fn with_default(
    env: Map<Seq<char>, Seq<char>>,
    key: Seq<char>,
    value: Seq<char>,
) -> Map<Seq<char>, Seq<char>> {
    if env.contains_key(key) {
        env
    } else {
        env.insert(key, value)
    }
}

/// `env` with the history file `file`, and with sizes for it where none are set.
pub open spec fn with_history(env: Map<Seq<char>, Seq<char>>, file: Seq<char>) -> Map<
    Seq<char>,
    Seq<char>,
> {
    with_default(
        with_default(env.insert("HISTFILE"@, file), "HISTSIZE"@, "10000"@),
        "HISTFILESIZE"@,
        "20000"@,
    )
}

/// Points the terminal's environment to the history file of its workspace,
/// where it is to have one. Returns that file, which has to be made ready with
/// [`ensure_workspace_bash_history_exists`] before the shell starts.
pub fn inject_workspace_bash_history(
    is_remote: bool,
    shell_kind: ShellKind,
    data_dir: &PathBuf,
    worktree_abs_paths: &[PathBuf],
    env: &mut Env,
) -> (r: Option<PathBuf>)
    ensures
        r is Some <==> !is_remote && shell_kind == ShellKind::Posix && !old(env)@.contains_key(
            "HISTFILE"@,
        ) && worktree_abs_paths@.len() > 0,
        r is Some ==> path_bytes(r->0) == history_file(
            path_bytes(*data_dir),
            bytes_of_paths(worktree_abs_paths@),
        ),
        r is Some ==> final(env)@ == with_history(old(env)@, path_text(path_bytes(r->0))),
        r is None ==> final(env)@ == old(env)@,
{
    if !should_use_workspace_bash_history(is_remote, shell_kind, env) {
        return None;
    }
    match workspace_bash_history_path(data_dir, worktree_abs_paths) {
        None => None,
        Some(history_path) => {
            env.insert("HISTFILE".to_owned(), text_of_path(&history_path));
            env.insert_if_absent("HISTSIZE".to_owned(), "10000".to_owned());
            env.insert_if_absent("HISTFILESIZE".to_owned(), "20000".to_owned());
            Some(history_path)
        },
    }
}

/// What became of the last step that made the history file ready.
#[derive(Clone, Copy, Debug, PartialEq, Eq, Structural)]
pub enum HistoryFileEvent {
    /// It was looked up whether the history file exists.
    HistoryChecked { exists: bool },
    /// Its directory was to be created.
    DirCreated { ok: bool },
    /// It was looked up whether the user's own history file exists.
    GlobalChecked { exists: bool },
    /// The history file was to be written.
    Seeded { ok: bool },
}

/// The next step that makes the history file ready.
#[derive(Debug, PartialEq, Eq)]
pub enum HistoryFileAction {
    /// Nothing is left to do.
    Done,
    /// Create the directory with all its parents.
    CreateDir { dir: PathBuf },
    /// Look up whether the user's own history file exists.
    CheckGlobal { file: PathBuf },
    /// Copy the user's own history file.
    CopyGlobal { from: PathBuf, to: PathBuf },
    /// Create an empty history file.
    CreateEmpty { file: PathBuf },
    /// Log that the directory could not be created. Nothing is left to do.
    WarnDir { dir: PathBuf },
    /// Log that the history file could not be written. Nothing is left to do.
    WarnSeed { file: PathBuf },
}

/// A step that makes the history file ready, its paths as bytes.
pub enum HistoryFileActionView {
    Done,
    CreateDir { dir: Seq<u8> },
    CheckGlobal { file: Seq<u8> },
    CopyGlobal { from: Seq<u8>, to: Seq<u8> },
    CreateEmpty { file: Seq<u8> },
    WarnDir { dir: Seq<u8> },
    WarnSeed { file: Seq<u8> },
}

impl View for HistoryFileAction {
    type V = HistoryFileActionView;

    open spec fn view(&self) -> HistoryFileActionView {
        match *self {
            HistoryFileAction::Done => HistoryFileActionView::Done,
            HistoryFileAction::CreateDir { dir } => HistoryFileActionView::CreateDir {
                dir: path_bytes(dir),
            },
            HistoryFileAction::CheckGlobal { file } => HistoryFileActionView::CheckGlobal {
                file: path_bytes(file),
            },
            HistoryFileAction::CopyGlobal { from, to } => HistoryFileActionView::CopyGlobal {
                from: path_bytes(from),
                to: path_bytes(to),
            },
            HistoryFileAction::CreateEmpty { file } => HistoryFileActionView::CreateEmpty {
                file: path_bytes(file),
            },
            HistoryFileAction::WarnDir { dir } => HistoryFileActionView::WarnDir {
                dir: path_bytes(dir),
            },
            HistoryFileAction::WarnSeed { file } => HistoryFileActionView::WarnSeed {
                file: path_bytes(file),
            },
        }
    }
}

/// The user's own history file.
pub open spec fn global_history(home_dir: Seq<u8>) -> Seq<u8> {
    path_joined(home_dir, ".bash_history"@)
}

/// The step that follows `event` while the history file `history` is made
/// ready. An existing file is left alone; a new one starts with the user's own
/// history where there is one; a failure is logged and ends the matter.
pub open spec fn history_file_step(
    history: Seq<u8>,
    home_dir: Seq<u8>,
    event: HistoryFileEvent,
) -> HistoryFileActionView {
    match event {
        HistoryFileEvent::HistoryChecked { exists } => if exists {
            HistoryFileActionView::Done
        } else {
            match path_parent(history) {
                Some(dir) => HistoryFileActionView::CreateDir { dir },
                None => HistoryFileActionView::CheckGlobal { file: global_history(home_dir) },
            }
        },
        HistoryFileEvent::DirCreated { ok } => if ok {
            HistoryFileActionView::CheckGlobal { file: global_history(home_dir) }
        } else {
            match path_parent(history) {
                Some(dir) => HistoryFileActionView::WarnDir { dir },
                None => HistoryFileActionView::Done,
            }
        },
        HistoryFileEvent::GlobalChecked { exists } => if exists {
            HistoryFileActionView::CopyGlobal { from: global_history(home_dir), to: history }
        } else {
            HistoryFileActionView::CreateEmpty { file: history }
        },
        HistoryFileEvent::Seeded { ok } => if ok {
            HistoryFileActionView::Done
        } else {
            HistoryFileActionView::WarnSeed { file: history }
        },
    }
}

/// The step that follows `event` while the history file is made ready. The
/// first event is that of the lookup whether it exists.
pub fn ensure_workspace_bash_history_exists(
    history_path: &PathBuf,
    home_dir: &PathBuf,
    event: HistoryFileEvent,
) -> (r: HistoryFileAction)
    ensures
        r@ == history_file_step(path_bytes(*history_path), path_bytes(*home_dir), event),
        match event {
            HistoryFileEvent::HistoryChecked { exists } => {
                let dir = path_parent(path_bytes(*history_path));
                &&& exists ==> r is Done
                &&& !exists && dir is Some ==> r is CreateDir && path_bytes(r->CreateDir_dir)
                    == dir->0
                &&& !exists && dir is None ==> r is CheckGlobal && path_bytes(r->CheckGlobal_file)
                    == path_joined(path_bytes(*home_dir), ".bash_history"@)
            },
            HistoryFileEvent::DirCreated { ok } => {
                let dir = path_parent(path_bytes(*history_path));
                &&& ok ==> r is CheckGlobal && path_bytes(r->CheckGlobal_file) == path_joined(
                    path_bytes(*home_dir),
                    ".bash_history"@,
                )
                &&& !ok && dir is Some ==> r is WarnDir && path_bytes(r->WarnDir_dir) == dir->0
                &&& !ok && dir is None ==> r is Done
            },
            HistoryFileEvent::GlobalChecked { exists } => {
                &&& exists ==> {
                    &&& r is CopyGlobal
                    &&& path_bytes(r->from) == path_joined(
                        path_bytes(*home_dir),
                        ".bash_history"@,
                    )
                    &&& path_bytes(r->to) == path_bytes(*history_path)
                }
                &&& !exists ==> r is CreateEmpty && path_bytes(r->CreateEmpty_file) == path_bytes(
                    *history_path,
                )
            },
            HistoryFileEvent::Seeded { ok } => {
                &&& ok ==> r is Done
                &&& !ok ==> r is WarnSeed && path_bytes(r->WarnSeed_file) == path_bytes(
                    *history_path,
                )
            },
        },
{
    match event {
        HistoryFileEvent::HistoryChecked { exists } => {
            if exists {
                return HistoryFileAction::Done;
            }
            match parent_of(history_path) {
                Some(dir) => HistoryFileAction::CreateDir { dir },
                None => HistoryFileAction::CheckGlobal {
                    file: join_path(home_dir, ".bash_history"),
                },
            }
        },
        HistoryFileEvent::DirCreated { ok } => {
            if ok {
                return HistoryFileAction::CheckGlobal {
                    file: join_path(home_dir, ".bash_history"),
                };
            }
            match parent_of(history_path) {
                Some(dir) => HistoryFileAction::WarnDir { dir },
                None => HistoryFileAction::Done,
            }
        },
        HistoryFileEvent::GlobalChecked { exists } => {
            if exists {
                HistoryFileAction::CopyGlobal {
                    from: join_path(home_dir, ".bash_history"),
                    to: history_path.clone(),
                }
            } else {
                HistoryFileAction::CreateEmpty { file: history_path.clone() }
            }
        },
        HistoryFileEvent::Seeded { ok } => {
            if ok {
                HistoryFileAction::Done
            } else {
                HistoryFileAction::WarnSeed { file: history_path.clone() }
            }
        },
    }
}

/// Workspaces that are identified by the same bytes have the same worktrees, as
/// far as the texts of their paths tell: a path does not contain the character
/// that separates them. Where all paths are Unicode, the worktrees are the same.
pub proof fn workspaces_are_told_apart(paths: Seq<Seq<u8>>, other: Seq<Seq<u8>>)
    requires
        paths.len() > 0,
        other.len() > 0,
        forall|i: int| 0 <= i < paths.len() ==> !path_text(#[trigger] paths[i]).contains('\0'),
        forall|i: int| 0 <= i < other.len() ==> !path_text(#[trigger] other[i]).contains('\0'),
        workspace_bytes(paths) == workspace_bytes(other),
    ensures
        path_texts(path_sorted(paths)) == path_texts(path_sorted(other)),
        are_unicode(paths) && are_unicode(other) ==> paths.to_multiset() == other.to_multiset(),
{
    let s = path_sorted(paths);
    let t = path_sorted(other);
    lemma_sorted_all(paths, |path: Seq<u8>| !path_text(path).contains('\0'));
    lemma_sorted_all(other, |path: Seq<u8>| !path_text(path).contains('\0'));
    encode_utf8_decode_utf8(joined(path_texts(s), seq!['\0']));
    encode_utf8_decode_utf8(joined(path_texts(t), seq!['\0']));
    joined_is_injective(path_texts(s), path_texts(t), '\0');
    if are_unicode(paths) && are_unicode(other) {
        lemma_sorted_all(paths, |path: Seq<u8>| valid_utf8(path));
        lemma_sorted_all(other, |path: Seq<u8>| valid_utf8(path));
        assert(s.len() == path_texts(s).len() && t.len() == path_texts(t).len());
        assert forall|i: int| 0 <= i < s.len() implies s[i] == t[i] by {
            assert(path_texts(s)[i] == path_texts(t)[i]);
            decode_utf8_encode_utf8(s[i]);
            decode_utf8_encode_utf8(t[i]);
        }
        assert(s =~= t);
        sorting_keeps_paths(paths);
        sorting_keeps_paths(other);
    }
}

/// Each of `paths` is Unicode.
pub open spec fn are_unicode(paths: Seq<Seq<u8>>) -> bool {
    forall|i: int| 0 <= i < paths.len() ==> valid_utf8(#[trigger] paths[i])
}

/// What holds of all paths holds of all of them once they are sorted.
proof fn lemma_sorted_all(paths: Seq<Seq<u8>>, holds: spec_fn(Seq<u8>) -> bool)
    requires
        forall|i: int| 0 <= i < paths.len() ==> holds(#[trigger] paths[i]),
    ensures
        path_sorted(paths).len() == paths.len(),
        forall|i: int|
            0 <= i < path_sorted(paths).len() ==> holds(#[trigger] path_sorted(paths)[i]),
{
    broadcast use vstd::seq_lib::group_to_multiset_ensures;

    sorting_keeps_paths(paths);
    let sorted = path_sorted(paths);
    assert(sorted.len() == sorted.to_multiset().len() && paths.len() == paths.to_multiset().len());
    assert forall|i: int| 0 <= i < sorted.len() implies holds(#[trigger] sorted[i]) by {
        assert(sorted.contains(sorted[i]));
        assert(paths.to_multiset().count(sorted[i]) > 0);
        let j = choose|j: int| 0 <= j < paths.len() && paths[j] == sorted[i];
        assert(holds(paths[j]));
    }
}

/// Giving a terminal its history leaves every other variable alone, and the
/// sizes too where the user has set them.
pub proof fn history_leaves_other_variables(
    env: Map<Seq<char>, Seq<char>>,
    file: Seq<char>,
    key: Seq<char>,
)
    ensures
        with_history(env, file).contains_key("HISTFILE"@),
        with_history(env, file)["HISTFILE"@] == file,
        key != "HISTFILE"@ && env.contains_key(key) ==> with_history(env, file).contains_key(key)
            && with_history(env, file)[key] == env[key],
        key != "HISTFILE"@ && key != "HISTSIZE"@ && key != "HISTFILESIZE"@
            && !env.contains_key(key) ==> !with_history(env, file).contains_key(key),
        with_history(env, file).contains_key("HISTSIZE"@),
        with_history(env, file).contains_key("HISTFILESIZE"@),
        !env.contains_key("HISTSIZE"@) ==> with_history(env, file)["HISTSIZE"@] == "10000"@,
        !env.contains_key("HISTFILESIZE"@) ==> with_history(env, file)["HISTFILESIZE"@]
            == "20000"@,
{
    reveal_strlit("HISTFILE");
    reveal_strlit("HISTSIZE");
    reveal_strlit("HISTFILESIZE");
    assert("HISTFILE"@.len() == 8 && "HISTSIZE"@.len() == 8 && "HISTFILESIZE"@.len() == 12);
    assert("HISTFILE"@[4] == 'F' && "HISTSIZE"@[4] == 'S');
}

/// How the machine answers the steps that make a history file ready.
pub struct HistoryFileWorld {
    pub history_exists: bool,
    pub dir_created: bool,
    pub global_exists: bool,
    pub seeded: bool,
}

/// The event that answers a step; none if nothing is left to do.
pub open spec fn history_file_answer(
    world: HistoryFileWorld,
    action: HistoryFileActionView,
) -> Option<HistoryFileEvent> {
    match action {
        HistoryFileActionView::CreateDir { .. } => Some(
            HistoryFileEvent::DirCreated { ok: world.dir_created },
        ),
        HistoryFileActionView::CheckGlobal { .. } => Some(
            HistoryFileEvent::GlobalChecked { exists: world.global_exists },
        ),
        HistoryFileActionView::CopyGlobal { .. } | HistoryFileActionView::CreateEmpty { .. } => {
            Some(HistoryFileEvent::Seeded { ok: world.seeded })
        },
        _ => None,
    }
}

/// The steps that follow `event`, at most `limit` of them.
pub open spec fn history_file_steps(
    history: Seq<u8>,
    home_dir: Seq<u8>,
    world: HistoryFileWorld,
    event: HistoryFileEvent,
    limit: nat,
) -> Seq<HistoryFileActionView>
    decreases limit,
{
    if limit == 0 {
        Seq::empty()
    } else {
        let action = history_file_step(history, home_dir, event);
        match history_file_answer(world, action) {
            Some(next) => seq![action] + history_file_steps(
                history,
                home_dir,
                world,
                next,
                (limit - 1) as nat,
            ),
            None => seq![action],
        }
    }
}

/// An existing history file is left alone. A new one is written once, from the
/// user's own history where there is one, unless its directory cannot be
/// created. It takes at most four steps, whatever `limit` allows beyond that.
pub proof fn history_file_is_written_once(
    history: Seq<u8>,
    home_dir: Seq<u8>,
    world: HistoryFileWorld,
    limit: nat,
)
    requires
        limit >= 4,
    ensures
        history_file_steps(
            history,
            home_dir,
            world,
            HistoryFileEvent::HistoryChecked { exists: world.history_exists },
            limit,
        ) == if world.history_exists {
            seq![HistoryFileActionView::Done]
        } else {
            let global = global_history(home_dir);
            let write = if world.global_exists {
                HistoryFileActionView::CopyGlobal { from: global, to: history }
            } else {
                HistoryFileActionView::CreateEmpty { file: history }
            };
            let last = if world.seeded {
                HistoryFileActionView::Done
            } else {
                HistoryFileActionView::WarnSeed { file: history }
            };
            let check = HistoryFileActionView::CheckGlobal { file: global };
            match path_parent(history) {
                Some(dir) => if world.dir_created {
                    seq![HistoryFileActionView::CreateDir { dir }, check, write, last]
                } else {
                    seq![
                        HistoryFileActionView::CreateDir { dir },
                        HistoryFileActionView::WarnDir { dir },
                    ]
                },
                None => seq![check, write, last],
            }
        },
{
    reveal_with_fuel(history_file_steps, 5);
}

/// The id of a workspace spells the first eight bytes of the SHA-256 digest of
/// its texts: those of its paths in order, with a zero character between them.
pub proof fn id_spells_start_of_digest(paths: Seq<Seq<u8>>, k: int)
    requires
        0 <= k < 8,
    ensures
        ({
            let texts = path_sorted(paths).map_values(|path: Seq<u8>| path_text(path));
            let digest = sha256_digest(encode_utf8(joined(texts, seq!['\0'])));
            let id = history_id(paths);
            digest.len() == 32 ==> {
                &&& id.len() == 16
                &&& digest[k] == 16 * hex_value(id[2 * k]) + hex_value(id[2 * k + 1])
            }
        }),
{
    let digest = sha256_digest(workspace_bytes(paths));
    assert(path_texts(path_sorted(paths)) =~= path_sorted(paths).map_values(
        |path: Seq<u8>| path_text(path),
    ));
    if digest.len() == 32 {
        hex_spells_bytes(digest.take(8));
        assert(digest.take(8)[k] == digest[k]);
    }
}

/// The history file stands below the data directory, in a directory that is
/// named by the workspace; the user's own history stands in the home directory.
pub proof fn history_files_have_their_places(
    data_dir: Seq<u8>,
    home_dir: Seq<u8>,
    paths: Seq<Seq<u8>>,
)
    ensures
        ({
            let all = path_joined(data_dir, "terminal_history"@);
            let own = path_joined(all, history_id(paths));
            history_file(data_dir, paths) == path_joined(own, "bash_history"@)
        }),
        global_history(home_dir) == path_joined(home_dir, ".bash_history"@),
{
}

/// A failure to create the directory or to write the file ends the matter with
/// a warning that names it, and success goes on.
pub proof fn history_failures_are_logged(history: Seq<u8>, home_dir: Seq<u8>)
    ensures
        ({
            let failed = history_file_step(
                history,
                home_dir,
                HistoryFileEvent::DirCreated { ok: false },
            );
            &&& path_parent(history) is Some ==> failed == (HistoryFileActionView::WarnDir {
                dir: path_parent(history)->0,
            })
            &&& path_parent(history) is None ==> failed is Done
            &&& history_file_step(history, home_dir, HistoryFileEvent::Seeded { ok: false })
                == (HistoryFileActionView::WarnSeed { file: history })
            &&& history_file_step(history, home_dir, HistoryFileEvent::Seeded { ok: true }) is Done
        }),
{
}

/// Rearranging paths rearranges their bytes.
proof fn lemma_same_bytes(paths: Seq<PathBuf>, other: Seq<PathBuf>)
    requires
        paths.to_multiset() == other.to_multiset(),
    ensures
        bytes_of_paths(paths).to_multiset() == bytes_of_paths(other).to_multiset(),
    decreases paths.len(),
{
    broadcast use vstd::seq_lib::group_to_multiset_ensures;

    assert(paths.len() == paths.to_multiset().len() && other.len() == other.to_multiset().len());
    if paths.len() > 0 {
        let path = paths.last();
        let rest = paths.drop_last();
        assert(paths.contains(path));
        assert(other.to_multiset().count(path) > 0);
        let k = choose|k: int| 0 <= k < other.len() && other[k] == path;
        let left = other.remove(k);
        assert(rest =~= paths.remove(paths.len() - 1));
        vstd::seq_lib::to_multiset_remove(paths, paths.len() - 1);
        vstd::seq_lib::to_multiset_remove(other, k);
        lemma_same_bytes(rest, left);
        let a = bytes_of_paths(paths);
        let b = bytes_of_paths(other);
        assert(bytes_of_paths(rest) =~= a.remove(a.len() - 1));
        assert(bytes_of_paths(left) =~= b.remove(k));
        vstd::seq_lib::to_multiset_remove(a, a.len() - 1);
        vstd::seq_lib::to_multiset_remove(b, k);
        assert(a[a.len() - 1] == path_bytes(path) && b[k] == path_bytes(path));
        assert(a.contains(path_bytes(path)) && b.contains(path_bytes(path)));
        assert(a.to_multiset().remove(path_bytes(path)) == b.to_multiset().remove(path_bytes(path)));
        assert(a.to_multiset() =~= a.to_multiset().remove(path_bytes(path)).insert(path_bytes(path)));
        assert(b.to_multiset() =~= b.to_multiset().remove(path_bytes(path)).insert(path_bytes(path)));
    } else {
        assert(paths =~= other);
    }
}

} // verus!
