use std::path::PathBuf;

use editor_session::activation::{activation_step, ActivationAction, ActivationEvent};
use editor_session::env::Env;
use editor_session::project::{
    ActiveEntry, ActiveWorktree, Entry, Project, RemoteClient, Worktree,
};
use editor_session::shell::{Shell, ShellKind, SpawnInTerminal};
use editor_session::terminal_launch::{
    create_remote_shell, remote_process, terminal_environment, CommandTemplate,
    EnvironmentSource, ExecLaunch, Launch, SettingsLocation, ShellPrograms, TerminalClone,
    TerminalRequest, ToolchainQuery, WorktreeLocation,
};
use editor_session::terminals::Terminals;

fn some(text: &str) -> Option<String> {
    Some(text.to_string())
}

fn path(text: &str) -> Option<PathBuf> {
    Some(PathBuf::from(text))
}

fn paths(words: &[&str]) -> Vec<PathBuf> {
    words.iter().map(|w| PathBuf::from(w)).collect()
}

fn texts(words: &[&str]) -> Vec<String> {
    words.iter().map(|w| w.to_string()).collect()
}

fn worktree(abs_path: &str, is_visible: bool, is_dir: bool) -> Worktree {
    Worktree {
        abs_path: PathBuf::from(abs_path),
        is_visible,
        root_dir: if is_dir { path(abs_path) } else { None },
        root_entry_is_dir: Some(is_dir),
    }
}

fn project(worktrees: Vec<Worktree>, remote_client: Option<RemoteClient>) -> Project {
    Project {
        active_entry: None,
        worktrees,
        is_via_remote_server: remote_client.is_some(),
        remote_client,
        terminals: Terminals::new(),
    }
}

fn local() -> Project {
    project(
        vec![
            worktree("/w/file.txt", true, false),
            worktree("/w/one", true, true),
            worktree("/w/hidden", false, true),
            worktree("/w/two", true, true),
        ],
        None,
    )
}

fn remote(shell: Option<&str>) -> Project {
    project(
        vec![worktree("/srv/app", true, true)],
        Some(RemoteClient {
            shell: shell.map(|s| s.to_string()),
        }),
    )
}

fn active(root_dir: Option<&str>, absolute_path: &str, is_dir: bool) -> Option<ActiveEntry> {
    Some(ActiveEntry {
        worktree: Some(ActiveWorktree {
            root_dir: root_dir.map(PathBuf::from),
            entry: Some(Entry {
                absolute_path: PathBuf::from(absolute_path),
                is_dir,
            }),
        }),
    })
}

fn task(command: Option<&str>, args: &[&str], cwd: Option<&str>) -> SpawnInTerminal {
    SpawnInTerminal {
        command: command.map(|c| c.to_string()),
        args: texts(args),
        shell_kind: ShellKind::Posix,
        env: Env::new(),
        cwd: cwd.map(PathBuf::from),
    }
}

fn env(pairs: &[(&str, &str)]) -> Env {
    let pairs: Vec<(String, String)> = pairs
        .iter()
        .map(|(k, v)| (k.to_string(), v.to_string()))
        .collect();
    Env::from_pairs(&pairs)
}

fn request(path: Option<&str>, is_via_remote: bool) -> TerminalRequest {
    TerminalRequest {
        path: path.map(PathBuf::from),
        is_via_remote,
    }
}

fn located() -> Option<WorktreeLocation> {
    Some(WorktreeLocation {
        worktree_id: 7,
        relative_path: "sub".to_string(),
    })
}

#[test]
fn active_entry_directory_is_a_directory() {
    let mut project = local();
    assert_eq!(project.active_entry_directory(), None);
    project.active_entry = active(None, "/w/one/src", true);
    assert_eq!(project.active_entry_directory(), path("/w/one/src"));
    project.active_entry = active(None, "/w/one/src/main.rs", false);
    assert_eq!(project.active_entry_directory(), path("/w/one/src"));
    project.active_entry = active(None, "/", false);
    assert_eq!(project.active_entry_directory(), None);
    project.active_entry = Some(ActiveEntry { worktree: None });
    assert_eq!(project.active_entry_directory(), None);
    project.active_entry = Some(ActiveEntry {
        worktree: Some(ActiveWorktree {
            root_dir: None,
            entry: None,
        }),
    });
    assert_eq!(project.active_entry_directory(), None);
}

#[test]
fn project_directory_prefers_the_active_worktree() {
    let mut project = local();
    assert_eq!(project.active_project_directory(), path("/w/one"));
    project.active_entry = active(Some("/w/two"), "/w/two/a", false);
    assert_eq!(project.active_project_directory(), path("/w/two"));
    project.active_entry = active(None, "/w/file.txt", false);
    assert_eq!(project.active_project_directory(), path("/w/one"));
    project.worktrees = vec![worktree("/w/file.txt", true, false)];
    assert_eq!(project.active_project_directory(), None);
}

#[test]
fn first_project_directory_looks_at_one_worktree() {
    assert_eq!(local().first_project_directory(), None);
    assert_eq!(remote(None).first_project_directory(), path("/srv/app"));
    assert_eq!(project(Vec::new(), None).first_project_directory(), None);
    let mut unknown = worktree("/w", true, true);
    unknown.root_entry_is_dir = None;
    assert_eq!(project(vec![unknown], None).first_project_directory(), None);
}

fn task_directory(project: &Project, cwd: Option<&str>, home: Option<&str>) -> TerminalRequest {
    let home = home.map(|h| h.to_string());
    project.create_terminal_task(&task(None, &[], cwd), &home)
}

#[test]
fn task_opens_in_its_directory() {
    assert_eq!(
        task_directory(&local(), Some("/tmp/x"), Some("/home/u")),
        request(Some("/tmp/x"), false)
    );
    assert_eq!(
        task_directory(&local(), None, Some("/home/u")),
        request(Some("/w/one"), false)
    );
    assert_eq!(
        task_directory(&remote(None), Some("~/x"), Some("/home/u")),
        request(Some("~/x"), true)
    );
}

#[test]
fn home_is_expanded_on_this_machine() {
    for (cwd, expanded) in [
        ("~", "/home/u"),
        ("~/", "/home/u/"),
        ("~/sub/x", "/home/u/sub/x"),
        ("~/~", "/home/u/~"),
        ("~other/x", "~other/x"),
        ("/a/~", "/a/~"),
        ("", ""),
    ] {
        assert_eq!(
            task_directory(&local(), Some(cwd), Some("/home/u")),
            request(Some(expanded), false)
        );
        assert_eq!(
            task_directory(&local(), Some(cwd), None),
            request(Some(cwd), false)
        );
    }
}

#[test]
fn shells_open_in_the_given_directory() {
    let shell = local().create_terminal_shell(path("/d"));
    assert_eq!(shell.terminal, request(Some("/d"), false));
    assert_eq!(
        shell.workspace_worktree_paths,
        paths(&["/w/file.txt", "/w/one", "/w/two"])
    );
    let shell = remote(None).create_terminal_shell(path("/d"));
    assert_eq!(shell.terminal, request(Some("/d"), true));
    assert!(shell.workspace_worktree_paths.is_empty());
    assert_eq!(shell.terminal.local_path(), None);
}

#[test]
fn local_terminal_breaks_out_of_a_remote_project() {
    let shell = remote(Some("/bin/fish")).create_local_terminal();
    assert_eq!(shell.terminal, request(None, false));
    assert_eq!(shell.workspace_worktree_paths, paths(&["/srv/app"]));
    let project = local();
    assert_eq!(
        project.create_local_terminal(),
        project.create_terminal_shell(project.active_project_directory())
    );
}

#[test]
fn task_terminals_are_not_cloned() {
    let project = local();
    assert_eq!(
        project.clone_terminal(true, path("/d")),
        TerminalClone::NewShell {
            request: project.create_terminal_shell(path("/d"))
        }
    );
    assert_eq!(
        project.clone_terminal(false, path("/d")),
        TerminalClone::Copy {
            local_path: path("/d")
        }
    );
    assert_eq!(
        remote(None).clone_terminal(false, path("/d")),
        TerminalClone::Copy { local_path: None }
    );
}

#[test]
fn settings_are_those_of_the_worktree() {
    let project = local();
    assert_eq!(
        project.terminal_settings(&path("/w/one/sub"), &located()),
        Some(SettingsLocation { worktree_id: 7 })
    );
    assert_eq!(project.terminal_settings(&path("/x"), &None), None);
    assert_eq!(project.terminal_settings(&None, &located()), None);
}

#[test]
fn toolchain_is_looked_for_in_the_worktree_of_the_terminal() {
    let terminal = request(Some("/w/one/sub"), false);
    assert_eq!(
        terminal.toolchain_queries(&located(), true),
        vec![ToolchainQuery {
            worktree_id: 7,
            path: "sub".to_string(),
            language_name: "Python".to_string()
        }]
    );
    assert!(terminal.toolchain_queries(&located(), false).is_empty());
    assert!(terminal.toolchain_queries(&None, true).is_empty());
    assert!(request(None, false)
        .toolchain_queries(&located(), true)
        .is_empty());
}

#[test]
fn shell_program_depends_on_the_side() {
    assert_eq!(local().shell_program(false, "/bin/sh", "/bin/zsh"), "/bin/zsh");
    assert_eq!(
        remote(Some("/bin/fish")).shell_program(true, "/bin/sh", "/bin/zsh"),
        "/bin/fish"
    );
    assert_eq!(remote(None).shell_program(true, "/bin/sh", "/bin/zsh"), "/bin/sh");
    assert_eq!(
        remote(Some("/bin/fish")).shell_program(false, "/bin/sh", "/bin/zsh"),
        "/bin/zsh"
    );
}

#[test]
fn environment_comes_from_the_directory() {
    assert_eq!(
        local().resolve_directory_environment("sh", &None, false),
        EnvironmentSource::Nothing
    );
    assert_eq!(
        local().resolve_directory_environment("sh", &path("/d"), false),
        EnvironmentSource::LocalDirectory {
            shell: Shell::Program("sh".to_string()),
            path: PathBuf::from("/d")
        }
    );
    assert_eq!(
        remote(None).resolve_directory_environment("sh", &path("/d"), true),
        EnvironmentSource::RemoteDirectory {
            shell: Shell::Program("sh".to_string()),
            path: PathBuf::from("/d")
        }
    );
    assert_eq!(
        remote(None).resolve_directory_environment("sh", &path("/d"), false),
        EnvironmentSource::LocalDirectory {
            shell: Shell::Program("sh".to_string()),
            path: PathBuf::from("/d")
        }
    );
}

fn programs() -> ShellPrograms {
    ShellPrograms {
        system: "system".to_string(),
        default_system: "default".to_string(),
        settings: "settings".to_string(),
    }
}

#[test]
fn terminals_are_prepared_with_the_right_shells() {
    let here = request(Some("/d"), false);
    let task = local().prepare_task_terminal(&here, &located(), true, &programs());
    assert_eq!(task.shell, "system");
    assert_eq!(
        task.environment,
        EnvironmentSource::LocalDirectory {
            shell: Shell::Program("system".to_string()),
            path: PathBuf::from("/d")
        }
    );
    assert_eq!(task.toolchains, here.toolchain_queries(&located(), true));

    let shell = local().prepare_shell_terminal(&here, &None, true, &programs());
    assert_eq!(shell.shell, "settings");
    assert_eq!(shell.environment, task.environment);
    assert!(shell.toolchains.is_empty());

    let there = request(Some("/d"), true);
    let far = remote(None).prepare_shell_terminal(&there, &located(), false, &programs());
    assert_eq!(far.shell, "default");
    assert_eq!(
        far.environment,
        EnvironmentSource::RemoteDirectory {
            shell: Shell::Program("default".to_string()),
            path: PathBuf::from("/d")
        }
    );
    assert!(far.toolchains.is_empty());
    let far = remote(Some("fish")).prepare_task_terminal(&there, &None, true, &programs());
    assert_eq!(far.shell, "fish");

    let forced = remote(Some("fish")).prepare_shell_terminal(&here, &None, true, &programs());
    assert_eq!(forced.shell, "settings");
}

#[test]
fn command_environment_comes_from_its_side() {
    let far = remote(Some("fish"));
    assert_eq!(
        far.exec_environment(&far.exec_in_shell(), "fish"),
        EnvironmentSource::RemoteDirectory {
            shell: Shell::Program("fish".to_string()),
            path: PathBuf::from("/srv/app")
        }
    );
    let here = local();
    assert_eq!(
        here.exec_environment(&here.exec_in_shell(), "sh"),
        EnvironmentSource::Nothing
    );
}

#[test]
fn settings_go_before_the_directory() {
    let settings = env(&[("A", "settings"), ("B", "settings")]);
    let merged = terminal_environment(Some(env(&[("A", "dir"), ("C", "dir")])), &settings);
    assert_eq!(merged.get("A"), some("settings"));
    assert_eq!(merged.get("B"), some("settings"));
    assert_eq!(merged.get("C"), some("dir"));
    assert_eq!(terminal_environment(None, &settings).get("B"), some("settings"));
}

#[test]
fn shell_environment_points_to_the_workspace_history() {
    let shell = project(vec![worktree("/home/u/alpha", true, true)], None)
        .create_terminal_shell(None);
    let (with_history, file) =
        shell.environment(None, &env(&[("A", "1")]), ShellKind::Posix, &PathBuf::from("/data"));
    assert_eq!(
        file,
        path("/data/terminal_history/a479d7a4a957341f/bash_history")
    );
    assert_eq!(
        with_history.get("HISTFILE"),
        some("/data/terminal_history/a479d7a4a957341f/bash_history")
    );
    assert_eq!(with_history.get("A"), some("1"));

    let (kept, file) = shell.environment(
        Some(env(&[("HISTFILE", "/dir")])),
        &env(&[("HISTFILE", "/mine")]),
        ShellKind::Posix,
        &PathBuf::from("/data"),
    );
    assert_eq!(file, None);
    assert_eq!(kept.get("HISTFILE"), some("/mine"));

    let far = remote(None).create_terminal_shell(path("/srv/app"));
    let (plain, file) = far.environment(None, &Env::new(), ShellKind::Posix, &PathBuf::from("/data"));
    assert_eq!(file, None);
    assert!(plain.into_pairs().is_empty());
}

fn local_shell(launch: Launch) -> (Shell, Env) {
    match launch {
        Launch::Local { shell, env } => (shell, env),
        Launch::Remote { .. } => panic!("remote"),
    }
}

#[test]
fn local_task_runs_its_command() {
    let terminal = request(Some("/d"), false);
    let mut spawn = task(Some("cargo"), &["test"], None);
    spawn.env = env(&[("A", "task")]);
    let (shell, merged) = local_shell(terminal.task_launch(
        &spawn,
        env(&[("A", "settings"), ("B", "settings")]),
        None,
    ));
    assert_eq!(
        shell,
        Shell::WithArguments {
            program: "cargo".to_string(),
            args: texts(&["test"]),
            title_override: None
        }
    );
    assert_eq!(merged.get("A"), some("task"));
    assert_eq!(merged.get("B"), some("settings"));

    let (shell, _) = local_shell(terminal.task_launch(&task(None, &["x"], None), Env::new(), None));
    assert_eq!(shell, Shell::System);

    let activated = Some(("/bin/sh".to_string(), texts(&["-c", "act; run"])));
    let (shell, _) = local_shell(terminal.task_launch(&spawn, Env::new(), activated));
    assert_eq!(
        shell,
        Shell::WithArguments {
            program: "/bin/sh".to_string(),
            args: texts(&["-c", "act; run"]),
            title_override: None
        }
    );
}

fn remote_command(launch: Launch) -> (Option<String>, Vec<String>, Option<String>) {
    match launch {
        Launch::Remote {
            program,
            args,
            working_directory,
            ..
        } => (program, args, working_directory),
        Launch::Local { .. } => panic!("local"),
    }
}

#[test]
fn remote_task_is_wrapped() {
    let terminal = request(Some("/srv"), true);
    let spawn = task(Some("make"), &["all"], None);
    assert_eq!(
        remote_command(terminal.task_launch(&spawn, Env::new(), None)),
        (some("make"), texts(&["all"]), some("/srv"))
    );
    assert_eq!(
        remote_command(terminal.task_launch(&task(None, &["x"], None), Env::new(), None)),
        (None, Vec::new(), some("/srv"))
    );
    let activated = Some(("fish".to_string(), texts(&["-c", "act"])));
    assert_eq!(
        remote_command(terminal.task_launch(&spawn, Env::new(), activated)),
        (some("fish"), texts(&["-c", "act"]), some("/srv"))
    );
}

#[test]
fn plain_shell_runs_on_its_side() {
    let (shell, _) = local_shell(
        request(None, false).shell_launch(Shell::Program("zsh".to_string()), Env::new()),
    );
    assert_eq!(shell, Shell::Program("zsh".to_string()));
    assert_eq!(
        remote_command(request(Some("/srv"), true).shell_launch(Shell::System, Env::new())),
        (None, Vec::new(), some("/srv"))
    );
}

fn ssh(args: &[&str]) -> Result<CommandTemplate, String> {
    Ok(CommandTemplate {
        program: "ssh".to_string(),
        args: texts(args),
        env: env(&[("A", "1")]),
    })
}

#[test]
fn remote_shell_is_titled_by_its_host() {
    let (shell, made) = create_remote_shell(ssh(&["host", "sh"]), "box").unwrap();
    assert_eq!(
        shell,
        Shell::WithArguments {
            program: "ssh".to_string(),
            args: texts(&["host", "sh"]),
            title_override: some("box — Terminal")
        }
    );
    assert_eq!(made.get("A"), some("1"));
}

#[test]
fn failure_to_wrap_a_command_is_handed_on() {
    let failed = || -> Result<CommandTemplate, String> { Err("no connection".to_string()) };
    assert_eq!(
        create_remote_shell(failed(), "box").err(),
        some("no connection")
    );
    assert_eq!(remote_process(failed()).err(), some("no connection"));
}

#[test]
fn commands_run_in_the_first_directory() {
    let far = remote(Some("/bin/fish"));
    let start = far.exec_in_shell();
    assert_eq!(start.path, path("/srv/app"));
    assert_eq!(start.shell, Shell::Program("/bin/fish".to_string()));
    assert_eq!(remote(None).exec_in_shell().shell, Shell::System);
    assert_eq!(local().exec_in_shell().shell, Shell::System);

    match far.exec_launch("sh".to_string(), texts(&["-c"]), Env::new(), start.path) {
        ExecLaunch::Remote { command, args, .. } => {
            assert_eq!(command, "sh");
            assert_eq!(args, texts(&["-c"]));
        }
        ExecLaunch::Local { .. } => panic!("local"),
    }
    match local().exec_launch("sh".to_string(), texts(&["-c"]), Env::new(), path("/d")) {
        ExecLaunch::Local { process } => {
            assert_eq!(process.program, "sh");
            assert_eq!(process.args, texts(&["-c"]));
            assert_eq!(process.current_dir, path("/d"));
        }
        ExecLaunch::Remote { .. } => panic!("remote"),
    }
    let process = remote_process(ssh(&["x"])).unwrap();
    assert_eq!(process.program, "ssh");
    assert_eq!(process.args, texts(&["x"]));
    assert_eq!(process.env.get("A"), some("1"));
    assert_eq!(process.current_dir, None);
}

#[test]
fn only_built_terminals_are_registered() {
    let mut terminals = Terminals::new();
    let built: Result<(u64, &str), String> = Ok((4, "terminal"));
    assert_eq!(terminals.register_built(built), Ok("terminal"));
    let failed: Result<(u64, &str), String> = Err("no pty".to_string());
    assert_eq!(terminals.register_built(failed), Err("no pty".to_string()));
    assert_eq!(terminals.local_handles, vec![4]);
}

#[test]
fn released_terminals_are_forgotten() {
    let mut project = local();
    project.terminals.register(4);
    project.terminals.register(9);
    assert_eq!(project.local_terminal_handles(), &vec![4, 9]);
    assert!(project.terminals.release(4));
    assert!(!project.terminals.release(4));
    assert_eq!(project.local_terminal_handles(), &vec![9]);
    assert!(project.terminals.release(9));
    assert_eq!(project.terminals, Terminals::default());
}

fn done(commands: &[&str]) -> ActivationAction {
    ActivationAction::Done {
        script: texts(commands),
    }
}

#[test]
fn activation_is_that_of_the_first_toolchain() {
    let step = |event: ActivationEvent| activation_step(2, event);
    assert_eq!(activation_step(0, ActivationEvent::Started), done(&[]));
    assert_eq!(
        step(ActivationEvent::Started),
        ActivationAction::ResolveToolchain { index: 0 }
    );
    assert_eq!(
        step(ActivationEvent::ToolchainResolved {
            index: 0,
            found: false
        }),
        ActivationAction::ResolveToolchain { index: 1 }
    );
    assert_eq!(
        step(ActivationEvent::ToolchainResolved {
            index: 1,
            found: false
        }),
        done(&[])
    );
    assert_eq!(
        step(ActivationEvent::ToolchainResolved {
            index: 0,
            found: true
        }),
        ActivationAction::ResolveLister { index: 0 }
    );
    assert_eq!(
        step(ActivationEvent::ListerResolved {
            index: 0,
            found: false
        }),
        done(&[])
    );
    assert_eq!(
        step(ActivationEvent::ListerResolved {
            index: 0,
            found: true
        }),
        ActivationAction::ResolveScript { index: 0 }
    );
    assert_eq!(
        step(ActivationEvent::ScriptResolved {
            script: texts(&["activate"])
        }),
        done(&["activate"])
    );
}

#[test]
fn remote_connection_is_shown_the_directory() {
    assert_eq!(
        remote_command(request(Some("/srv/é x"), true).shell_launch(Shell::System, Env::new())),
        (None, Vec::new(), some("/srv/é x"))
    );
}

#[test]
fn launched_environment_gives_back_its_pairs() {
    let mut spawn = task(Some("make"), &[], None);
    spawn.env = env(&[("A", "task")]);
    let (_, merged) = local_shell(request(None, false).task_launch(
        &spawn,
        env(&[("A", "settings")]),
        None,
    ));
    assert_eq!(
        merged.into_pairs(),
        vec![("A".to_string(), "task".to_string())]
    );
}
