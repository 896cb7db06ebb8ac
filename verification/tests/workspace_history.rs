use std::path::PathBuf;

use editor_session::env::Env;
use editor_session::paths::sort_paths;
use editor_session::shell::ShellKind;
use editor_session::workspace_history::{
    ensure_workspace_bash_history_exists, inject_workspace_bash_history,
    should_use_workspace_bash_history, workspace_bash_history_path, workspace_history_id,
    HistoryFileAction, HistoryFileEvent,
};

fn paths(words: &[&str]) -> Vec<PathBuf> {
    words.iter().map(|w| PathBuf::from(w)).collect()
}

fn data() -> PathBuf {
    PathBuf::from("/data")
}

#[test]
fn workspace_history_id_is_stable_and_order_insensitive() {
    let a = PathBuf::from("/home/u/projects/alpha");
    let b = PathBuf::from("/home/u/projects/beta");

    let id1 = workspace_history_id(&[a.clone(), b.clone()]);
    let id2 = workspace_history_id(&[b.clone(), a.clone()]);
    let id3 = workspace_history_id(&[a.clone(), b.clone()]);

    assert_eq!(id1, id2, "顺序不应影响指纹");
    assert_eq!(id1, id3, "同一组路径必须给出相同指纹");
    assert_eq!(id1.len(), 16, "指纹必须为 16 位十六进制");
    assert!(
        id1.chars().all(|c| c.is_ascii_hexdigit()),
        "指纹必须是合法 hex"
    );
}

#[test]
fn workspace_history_id_differs_for_different_workspaces() {
    let id1 = workspace_history_id(&[PathBuf::from("/home/u/alpha")]);
    let id2 = workspace_history_id(&[PathBuf::from("/home/u/beta")]);
    assert_ne!(id1, id2);
}

#[test]
fn workspace_bash_history_path_returns_none_for_empty_worktrees() {
    assert!(workspace_bash_history_path(&data(), &[]).is_none());
}

#[test]
fn should_use_workspace_bash_history_respects_user_histfile() {
    let mut env = Env::default();
    env.insert("HISTFILE".to_string(), "/tmp/custom".to_string());
    assert!(!should_use_workspace_bash_history(
        false,
        ShellKind::Posix,
        &env
    ));
}

#[test]
fn should_use_workspace_bash_history_skips_remote() {
    let env = Env::default();
    assert!(!should_use_workspace_bash_history(
        true,
        ShellKind::Posix,
        &env
    ));
}

#[test]
fn should_use_workspace_bash_history_skips_non_posix() {
    let env = Env::default();
    assert!(!should_use_workspace_bash_history(
        false,
        ShellKind::PowerShell,
        &env
    ));
    assert!(!should_use_workspace_bash_history(
        false,
        ShellKind::Fish,
        &env
    ));
}

#[test]
fn should_use_workspace_bash_history_accepts_default_posix() {
    let env = Env::default();
    assert!(should_use_workspace_bash_history(
        false,
        ShellKind::Posix,
        &env
    ));
}

#[test]
fn workspace_history_id_is_the_start_of_the_digest() {
    assert_eq!(workspace_history_id(&paths(&["/home/u/alpha"])), "a479d7a4a957341f");
    assert_eq!(
        workspace_history_id(&paths(&["/home/u/projects/beta", "/home/u/projects/alpha"])),
        "556ae466e51d5770"
    );
    assert_eq!(workspace_history_id(&paths(&["/w/é"])), "90d941a8109fa2fc");
    assert_eq!(workspace_history_id(&[]), "e3b0c44298fc1c14");
}

#[test]
fn paths_are_ordered_by_their_components() {
    assert_eq!(sort_paths(&paths(&["/a-b", "/a/b"])), paths(&["/a/b", "/a-b"]));
    assert_eq!(workspace_history_id(&paths(&["/a-b", "/a/b"])), "a819e47488927fee");
    assert_eq!(
        sort_paths(&paths(&["/c", "/a", "/b", "/a"])),
        paths(&["/a", "/a", "/b", "/c"])
    );
}

#[test]
fn paths_that_are_not_told_apart_keep_their_order() {
    assert_eq!(sort_paths(&paths(&["/a/", "/a"])), paths(&["/a/", "/a"]));
    assert_eq!(sort_paths(&paths(&["/a", "/a/"])), paths(&["/a", "/a/"]));
}

#[test]
fn history_file_stands_below_the_data_directory() {
    assert_eq!(
        workspace_bash_history_path(&data(), &paths(&["/home/u/alpha"])),
        Some(PathBuf::from("/data/terminal_history/a479d7a4a957341f/bash_history"))
    );
}

#[test]
fn history_is_injected_once() {
    let mut env = Env::new();
    env.insert("HISTSIZE".to_string(), "5".to_string());
    env.insert("PATH".to_string(), "/bin".to_string());
    let worktrees = paths(&["/home/u/alpha"]);
    let file = inject_workspace_bash_history(false, ShellKind::Posix, &data(), &worktrees, &mut env);
    assert_eq!(
        file,
        Some(PathBuf::from("/data/terminal_history/a479d7a4a957341f/bash_history"))
    );
    assert_eq!(
        env.get("HISTFILE"),
        Some("/data/terminal_history/a479d7a4a957341f/bash_history".to_string())
    );
    assert_eq!(env.get("HISTSIZE"), Some("5".to_string()));
    assert_eq!(env.get("HISTFILESIZE"), Some("20000".to_string()));
    assert_eq!(env.get("PATH"), Some("/bin".to_string()));

    let again = inject_workspace_bash_history(false, ShellKind::Posix, &PathBuf::from("/other"), &worktrees, &mut env);
    assert_eq!(again, None);
    assert_eq!(
        env.get("HISTFILE"),
        Some("/data/terminal_history/a479d7a4a957341f/bash_history".to_string())
    );
}

#[test]
fn default_history_sizes_are_set() {
    let mut env = Env::new();
    let worktrees = paths(&["/home/u/alpha"]);
    inject_workspace_bash_history(false, ShellKind::Posix, &data(), &worktrees, &mut env);
    assert_eq!(env.get("HISTSIZE"), Some("10000".to_string()));
    assert_eq!(env.get("HISTFILESIZE"), Some("20000".to_string()));
}

#[test]
fn nothing_is_injected_without_worktrees() {
    let mut env = Env::new();
    assert_eq!(
        inject_workspace_bash_history(false, ShellKind::Posix, &data(), &[], &mut env),
        None
    );
    assert!(env.into_pairs().is_empty());
}

const FILE: &str = "/data/terminal_history/0/bash_history";

fn step(event: HistoryFileEvent) -> HistoryFileAction {
    ensure_workspace_bash_history_exists(&PathBuf::from(FILE), &PathBuf::from("/home/u"), event)
}

#[test]
fn existing_history_file_is_left_alone() {
    assert_eq!(
        step(HistoryFileEvent::HistoryChecked { exists: true }),
        HistoryFileAction::Done
    );
}

#[test]
fn new_history_file_starts_with_the_user_history() {
    assert_eq!(
        step(HistoryFileEvent::HistoryChecked { exists: false }),
        HistoryFileAction::CreateDir {
            dir: PathBuf::from("/data/terminal_history/0")
        }
    );
    assert_eq!(
        step(HistoryFileEvent::DirCreated { ok: true }),
        HistoryFileAction::CheckGlobal {
            file: PathBuf::from("/home/u/.bash_history")
        }
    );
    assert_eq!(
        step(HistoryFileEvent::GlobalChecked { exists: true }),
        HistoryFileAction::CopyGlobal {
            from: PathBuf::from("/home/u/.bash_history"),
            to: PathBuf::from(FILE)
        }
    );
    assert_eq!(
        step(HistoryFileEvent::GlobalChecked { exists: false }),
        HistoryFileAction::CreateEmpty {
            file: PathBuf::from(FILE)
        }
    );
    assert_eq!(
        step(HistoryFileEvent::Seeded { ok: true }),
        HistoryFileAction::Done
    );
}

#[test]
fn history_file_failures_are_logged() {
    assert_eq!(
        step(HistoryFileEvent::DirCreated { ok: false }),
        HistoryFileAction::WarnDir {
            dir: PathBuf::from("/data/terminal_history/0")
        }
    );
    assert_eq!(
        step(HistoryFileEvent::Seeded { ok: false }),
        HistoryFileAction::WarnSeed {
            file: PathBuf::from(FILE)
        }
    );
}

#[test]
fn history_file_without_directory_needs_none() {
    assert_eq!(
        ensure_workspace_bash_history_exists(
            &PathBuf::from("/"),
            &PathBuf::from("/home/u"),
            HistoryFileEvent::HistoryChecked { exists: false }
        ),
        HistoryFileAction::CheckGlobal {
            file: PathBuf::from("/home/u/.bash_history")
        }
    );
    assert_eq!(
        ensure_workspace_bash_history_exists(
            &PathBuf::from("/"),
            &PathBuf::from("/home/u"),
            HistoryFileEvent::DirCreated { ok: false }
        ),
        HistoryFileAction::Done
    );
}

#[test]
fn workspaces_with_the_same_letters_differ() {
    let id1 = workspace_history_id(&paths(&["/a", "/b"]));
    let id2 = workspace_history_id(&paths(&["/a/b"]));
    let id3 = workspace_history_id(&paths(&["/a", "/b", "/b"]));
    assert_ne!(id1, id2);
    assert_ne!(id1, id3);
    assert_ne!(id2, id3);
}
