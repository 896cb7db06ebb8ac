//! How a terminal opens: where, with which environment, and with which shell,
//! on this machine or at the far end of a remote project.

use std::path::PathBuf;

use vstd::prelude::*;
use vstd::utf8::{encode_utf8, encode_utf8_decode_utf8, encode_utf8_valid_utf8};

use crate::env::Env;
use crate::paths::{
    bytes_of_paths, optional_bytes, path_bytes, path_from_text, path_shown, path_text, show_path,
    text_of_path,
};
use crate::project::{
    first_directory, project_directory, visible_paths, visible_paths_keep_visible_worktrees, Project,
    Worktree,
};
use crate::shell::{copy_texts, Shell, ShellKind, ShellView, SpawnInTerminal};
use crate::workspace_history::{history_file, inject_workspace_bash_history, with_history};

verus! {

/// Whether the `~` at the start of a path stands for the home directory: it
/// ends the path, or a slash follows.
pub open spec fn starts_at_home(path: Seq<char>) -> bool {
    path.len() > 0 && path[0] == '~' && (path.len() == 1 || path[1] == '/')
}

/// Whether the `~` at the start of a path stands for the home directory where
/// the backslash separates paths.
pub open spec fn starts_at_windows_home(path: Seq<char>) -> bool {
    path.len() > 1 && path[0] == '~' && path[1] == '\\'
}

/// `path` with the home directory, where there is one, in the place of its
/// first character.
pub open spec fn placed_at_home(path: Seq<char>, home: Option<Seq<char>>) -> Seq<char> {
    match home {
        Some(home) => home + path.skip(1),
        None => path,
    }
}

/// What the expansion of `~` makes of `path`. A path that starts at home has
/// the home directory in the place of the `~`, and every other path stays. One
/// that starts at home on Windows alone is treated in either way.
pub open spec fn tilde_expansion(
    path: Seq<char>,
    home: Option<Seq<char>>,
    expanded: Seq<char>,
) -> bool {
    if starts_at_home(path) {
        expanded == placed_at_home(path, home)
    } else if starts_at_windows_home(path) {
        expanded == placed_at_home(path, home) || expanded == path
    } else {
        expanded == path
    }
}

/// `shellexpand::tilde_with_context`. It puts `home` in the place of a leading
/// `~` that ends the path or stands before a slash, and keeps every other path;
/// without a home directory every path stays.
///
/// Before a backslash the `~` is replaced in a build for Windows and kept in
/// any other, which is left open.
#[verifier::external_body]
fn expand_tilde(path: &str, home: &Option<String>) -> (r: String)
    ensures
        tilde_expansion(path@, home.deep_view(), r@),
{
    shellexpand::tilde_with_context(path, || home.as_ref()).into_owned()
}

/// Where a terminal is to open.
#[derive(Debug, PartialEq, Eq)]
pub struct TerminalRequest {
    /// The directory, at the far end for a remote terminal.
    pub path: Option<PathBuf>,
    /// Whether the terminal runs at the far end of a remote project.
    pub is_via_remote: bool,
}

/// A request, its path as bytes.
pub struct TerminalRequestView {
    pub path: Option<Seq<u8>>,
    pub is_via_remote: bool,
}

impl View for TerminalRequest {
    type V = TerminalRequestView;

    open spec fn view(&self) -> TerminalRequestView {
        TerminalRequestView { path: optional_bytes(self.path), is_via_remote: self.is_via_remote }
    }
}

/// Where a terminal with a plain shell is to open.
#[derive(Debug, PartialEq, Eq)]
pub struct ShellTerminalRequest {
    pub terminal: TerminalRequest,
    /// The worktrees whose workspace keeps the shell's history. A remote
    /// terminal has none: the paths belong to the remote file system.
    pub workspace_worktree_paths: Vec<PathBuf>,
}

/// How a terminal is to be cloned.
#[derive(Debug, PartialEq, Eq)]
pub enum TerminalClone {
    /// A terminal that runs a task is not run once more: a shell opens instead.
    NewShell { request: ShellTerminalRequest },
    /// The terminal is cloned, in the given directory of this machine.
    Copy { local_path: Option<PathBuf> },
}

/// The place of a path in the project's worktrees.
#[derive(Debug, PartialEq, Eq)]
pub struct WorktreeLocation {
    pub worktree_id: u64,
    pub relative_path: String,
}

/// The worktree whose settings apply, at its root.
#[derive(Clone, Copy, Debug, PartialEq, Eq, Structural)]
pub struct SettingsLocation {
    pub worktree_id: u64,
}

/// A toolchain to look for: that of a language at a path of a worktree.
#[derive(Debug, PartialEq, Eq)]
pub struct ToolchainQuery {
    pub worktree_id: u64,
    pub path: String,
    pub language_name: String,
}

/// The programs that may serve as the shell of a terminal.
#[derive(Debug, PartialEq, Eq)]
pub struct ShellPrograms {
    /// The user's shell on this machine.
    pub system: String,
    /// The shell to fall back to where the remote side does not name one.
    pub default_system: String,
    /// The shell that the terminal's settings name.
    pub settings: String,
}

/// What has to be found out before a terminal can open, and its shell.
#[derive(Debug, PartialEq, Eq)]
pub struct TerminalPreparation {
    pub shell: String,
    pub environment: EnvironmentSource,
    pub toolchains: Vec<ToolchainQuery>,
}

/// Where the environment of a directory comes from.
#[derive(Debug, PartialEq, Eq)]
pub enum EnvironmentSource {
    /// No directory, no environment.
    Nothing,
    /// A shell of this machine, started in the directory.
    LocalDirectory { shell: Shell, path: PathBuf },
    /// A shell of the remote side, started in the directory.
    RemoteDirectory { shell: Shell, path: PathBuf },
}

/// A source of an environment, its texts and its path as sequences.
pub enum EnvironmentSourceView {
    Nothing,
    LocalDirectory { shell: ShellView, path: Seq<u8> },
    RemoteDirectory { shell: ShellView, path: Seq<u8> },
}

impl View for EnvironmentSource {
    type V = EnvironmentSourceView;

    open spec fn view(&self) -> EnvironmentSourceView {
        match *self {
            EnvironmentSource::Nothing => EnvironmentSourceView::Nothing,
            EnvironmentSource::LocalDirectory { shell, path } => {
                EnvironmentSourceView::LocalDirectory { shell: shell@, path: path_bytes(path) }
            },
            EnvironmentSource::RemoteDirectory { shell, path } => {
                EnvironmentSourceView::RemoteDirectory { shell: shell@, path: path_bytes(path) }
            },
        }
    }
}

/// What a terminal runs.
#[derive(Debug)]
pub enum Launch {
    /// A shell of this machine.
    Local { shell: Shell, env: Env },
    /// A command that the remote connection has to wrap; a login shell of the
    /// remote side if there is no program.
    Remote {
        program: Option<String>,
        args: Vec<String>,
        env: Env,
        working_directory: Option<String>,
    },
}

/// What a terminal runs, its texts as sequences.
pub enum LaunchView {
    Local { shell: ShellView, env: Map<Seq<char>, Seq<char>> },
    Remote {
        program: Option<Seq<char>>,
        args: Seq<Seq<char>>,
        env: Map<Seq<char>, Seq<char>>,
        working_directory: Option<Seq<char>>,
    },
}

impl View for Launch {
    type V = LaunchView;

    open spec fn view(&self) -> LaunchView {
        match *self {
            Launch::Local { shell, env } => LaunchView::Local { shell: shell@, env: env@ },
            Launch::Remote { program, args, env, working_directory } => LaunchView::Remote {
                program: program.deep_view(),
                args: args.deep_view(),
                env: env@,
                working_directory: working_directory.deep_view(),
            },
        }
    }
}

/// A command as the remote connection wraps it.
#[derive(Debug)]
pub struct CommandTemplate {
    pub program: String,
    pub args: Vec<String>,
    pub env: Env,
}

/// Where a command that runs without a terminal starts from.
#[derive(Debug, PartialEq, Eq)]
pub struct ExecRequest {
    pub path: Option<PathBuf>,
    pub shell: Shell,
}

/// A process to start on this machine.
#[derive(Debug)]
pub struct ProcessCommand {
    pub program: String,
    pub args: Vec<String>,
    pub env: Env,
    pub current_dir: Option<PathBuf>,
}

/// What a command that runs without a terminal becomes.
#[derive(Debug)]
pub enum ExecLaunch {
    Local { process: ProcessCommand },
    /// A command that the remote connection has to wrap.
    Remote { command: String, args: Vec<String>, env: Env },
}

/// The path of a terminal on this machine.
pub open spec fn local_path_of(request: TerminalRequestView) -> Option<Seq<u8>> {
    if request.is_via_remote {
        None
    } else {
        request.path
    }
}

/// A request for a shell in the directory `cwd`.
pub open spec fn shell_request(
    project: Project,
    cwd: Option<Seq<u8>>,
    force_local: bool,
) -> (TerminalRequestView, Seq<Seq<u8>>) {
    let is_via_remote = !force_local && project.remote_client is Some;
    (
        TerminalRequestView { path: cwd, is_via_remote },
        if is_via_remote {
            Seq::empty()
        } else {
            visible_paths(project.worktrees@)
        },
    )
}

impl View for ShellTerminalRequest {
    type V = (TerminalRequestView, Seq<Seq<u8>>);

    open spec fn view(&self) -> (TerminalRequestView, Seq<Seq<u8>>) {
        (self.terminal@, bytes_of_paths(self.workspace_worktree_paths@))
    }
}

/// The shell of a terminal: that of the remote side, or the system's default
/// where that is not known, and `local_shell` on this machine.
pub open spec fn shell_program_of(
    project: Project,
    is_via_remote: bool,
    default_system_shell: Seq<char>,
    local_shell: Seq<char>,
) -> Seq<char> {
    if is_via_remote && project.remote_client is Some {
        match project.remote_client->0.shell {
            Some(shell) => shell@,
            None => default_system_shell,
        }
    } else {
        local_shell
    }
}

/// Where the environment of the requested directory comes from, with the shell
/// `shell`: from its own side.
pub open spec fn environment_source(
    project: Project,
    request: TerminalRequestView,
    shell: Seq<char>,
) -> EnvironmentSourceView {
    match request.path {
        None => EnvironmentSourceView::Nothing,
        Some(path) => if request.is_via_remote && project.remote_client is Some {
            EnvironmentSourceView::RemoteDirectory { shell: ShellView::Program(shell), path }
        } else {
            EnvironmentSourceView::LocalDirectory { shell: ShellView::Program(shell), path }
        },
    }
}

/// The toolchains to look for are that of Python where the requested path
/// stands in the worktrees, if that is to be detected, and none else.
pub open spec fn queries_toolchain(
    queries: Seq<ToolchainQuery>,
    request: TerminalRequest,
    located: Option<WorktreeLocation>,
    detect_venv: bool,
) -> bool {
    if request.path is Some && located is Some && detect_venv {
        &&& queries.len() == 1
        &&& queries[0].worktree_id == located->0.worktree_id
        &&& queries[0].path@ == located->0.relative_path@
        &&& queries[0].language_name@ == "Python"@
    } else {
        queries.len() == 0
    }
}

impl Project {
    /// Where the terminal of a task opens: in the directory that the task
    /// names, or else in that of the project. On this machine the text of the
    /// task's directory counts, and a leading `~` of it stands for the home
    /// directory `home`, if there is one.
    pub fn create_terminal_task(&self, spawn_task: &SpawnInTerminal, home: &Option<String>) -> (r:
        TerminalRequest)
        ensures
            r.is_via_remote == self.remote_client is Some,
            spawn_task.cwd is None ==> optional_bytes(r.path) == project_directory(*self),
            spawn_task.cwd is Some ==> r.path is Some,
            spawn_task.cwd is Some && self.remote_client is Some ==> path_bytes(r.path->0)
                == path_bytes(spawn_task.cwd->0),
            spawn_task.cwd is Some && self.remote_client is None ==> {
                let expanded = path_text(path_bytes(r.path->0));
                &&& path_bytes(r.path->0) == encode_utf8(expanded)
                &&& tilde_expansion(
                    path_text(path_bytes(spawn_task.cwd->0)),
                    home.deep_view(),
                    expanded,
                )
            },
    {
        let cwd = match &spawn_task.cwd {
            Some(cwd) => {
                if self.remote_client.is_some() {
                    Some(cwd.clone())
                } else {
                    let text = text_of_path(cwd);
                    let expanded = expand_tilde(text.as_str(), home);
                    proof {
                        encode_utf8_valid_utf8(expanded@);
                        encode_utf8_decode_utf8(expanded@);
                    }
                    Some(path_from_text(expanded.as_str()))
                }
            },
            None => None,
        };
        self.task_request(cwd)
    }

    /// Where the terminal of a task opens that names the directory `cwd`, a
    /// leading `~` having been expanded.
    pub fn task_request(&self, cwd: Option<PathBuf>) -> (r: TerminalRequest)
        ensures
            r@ == (TerminalRequestView {
                path: if cwd is Some {
                    optional_bytes(cwd)
                } else {
                    project_directory(*self)
                },
                is_via_remote: self.remote_client is Some,
            }),
    {
        let path = match cwd {
            Some(cwd) => Some(cwd),
            None => self.active_project_directory(),
        };
        TerminalRequest { path, is_via_remote: self.remote_client.is_some() }
    }

    /// Where a shell opens in the directory `cwd`, at the far end of a remote
    /// project.
    pub fn create_terminal_shell(&self, cwd: Option<PathBuf>) -> (r: ShellTerminalRequest)
        ensures
            r@ == shell_request(*self, optional_bytes(cwd), false),
    {
        self.create_terminal_shell_internal(cwd, false)
    }

    /// Where a shell opens on this machine even if the project is remote: in
    /// the project's directory, or for a remote project in the directory that
    /// the editor was started in.
    pub fn create_local_terminal(&self) -> (r: ShellTerminalRequest)
        ensures
            r@ == shell_request(
                *self,
                if self.remote_client is Some {
                    None
                } else {
                    project_directory(*self)
                },
                true,
            ),
    {
        let working_directory = if self.remote_client.is_some() {
            None
        } else {
            self.active_project_directory()
        };
        self.create_terminal_shell_internal(working_directory, true)
    }

    /// Where a shell opens in the directory `cwd`; on this machine even for a
    /// remote project, if `force_local` says so.
    pub fn create_terminal_shell_internal(&self, cwd: Option<PathBuf>, force_local: bool) -> (r:
        ShellTerminalRequest)
        ensures
            r@ == shell_request(*self, optional_bytes(cwd), force_local),
            r.terminal.is_via_remote <==> !force_local && self.remote_client is Some,
            r.terminal.path is Some <==> cwd is Some,
            cwd is Some ==> path_bytes(r.terminal.path->0) == path_bytes(cwd->0),
            r.terminal.is_via_remote ==> r.workspace_worktree_paths.len() == 0,
    {
        let is_via_remote = !force_local && self.remote_client.is_some();
        let workspace_worktree_paths = if is_via_remote {
            let none: Vec<PathBuf> = Vec::new();
            assert(bytes_of_paths(none@) =~= Seq::empty());
            none
        } else {
            self.visible_worktree_paths()
        };
        ShellTerminalRequest {
            terminal: TerminalRequest { path: cwd, is_via_remote },
            workspace_worktree_paths,
        }
    }

    /// How a terminal is cloned into the directory `cwd`. `has_task` tells
    /// whether it runs a task.
    pub fn clone_terminal(&self, has_task: bool, cwd: Option<PathBuf>) -> (r: TerminalClone)
        ensures
            r is NewShell <==> has_task,
            r is NewShell ==> r->request@ == shell_request(*self, optional_bytes(cwd), false),
            r is Copy ==> optional_bytes(r->local_path) == if self.is_via_remote_server {
                None
            } else {
                optional_bytes(cwd)
            },
    {
        if has_task {
            return TerminalClone::NewShell { request: self.create_terminal_shell(cwd) };
        }
        let local_path = if self.is_via_remote_server {
            None
        } else {
            cwd
        };
        TerminalClone::Copy { local_path }
    }

    /// The worktree whose settings apply to a terminal at `path`, which stands
    /// in the worktrees at `located`.
    pub fn terminal_settings(
        &self,
        path: &Option<PathBuf>,
        located: &Option<WorktreeLocation>,
    ) -> (r: Option<SettingsLocation>)
        ensures
            r == if path is Some && located is Some {
                Some(SettingsLocation { worktree_id: located->0.worktree_id })
            } else {
                None
            },
    {
        if path.is_none() {
            return None;
        }
        match located {
            Some(location) => Some(SettingsLocation { worktree_id: location.worktree_id }),
            None => None,
        }
    }

    /// The shell of a terminal.
    pub fn shell_program(
        &self,
        is_via_remote: bool,
        default_system_shell: &str,
        local_shell: &str,
    ) -> (r: String)
        ensures
            r@ == shell_program_of(*self, is_via_remote, default_system_shell@, local_shell@),
    {
        match &self.remote_client {
            Some(remote_client) => {
                if !is_via_remote {
                    return local_shell.to_owned();
                }
                match &remote_client.shell {
                    Some(shell) => shell.clone(),
                    None => default_system_shell.to_owned(),
                }
            },
            None => local_shell.to_owned(),
        }
    }

    /// Where the environment of the directory `path` comes from, with the
    /// shell `shell`.
    pub fn resolve_directory_environment(
        &self,
        shell: &str,
        path: &Option<PathBuf>,
        is_via_remote: bool,
    ) -> (r: EnvironmentSource)
        ensures
            r@ == environment_source(
                *self,
                TerminalRequestView { path: optional_bytes(*path), is_via_remote },
                shell@,
            ),
    {
        match path {
            None => EnvironmentSource::Nothing,
            Some(path) => {
                let shell = Shell::Program(shell.to_owned());
                if is_via_remote && self.remote_client.is_some() {
                    EnvironmentSource::RemoteDirectory { shell, path: path.clone() }
                } else {
                    EnvironmentSource::LocalDirectory { shell, path: path.clone() }
                }
            },
        }
    }

    /// What the terminal of a task needs before it can open. On this machine it
    /// runs in the user's shell.
    ///
    /// `located` is the place of the requested path in the worktrees, and
    /// `detect_venv` is what the settings there say.
    pub fn prepare_task_terminal(
        &self,
        request: &TerminalRequest,
        located: &Option<WorktreeLocation>,
        detect_venv: bool,
        programs: &ShellPrograms,
    ) -> (r: TerminalPreparation)
        ensures
            r.shell@ == shell_program_of(
                *self,
                request.is_via_remote,
                programs.default_system@,
                programs.system@,
            ),
            r.environment@ == environment_source(
                *self,
                request@,
                shell_program_of(
                    *self,
                    request.is_via_remote,
                    programs.default_system@,
                    programs.system@,
                ),
            ),
            queries_toolchain(r.toolchains@, *request, *located, detect_venv),
    {
        let shell = self.shell_program(
            request.is_via_remote,
            programs.default_system.as_str(),
            programs.system.as_str(),
        );
        let environment = self.resolve_directory_environment(
            shell.as_str(),
            &request.path,
            request.is_via_remote,
        );
        let toolchains = request.toolchain_queries(located, detect_venv);
        TerminalPreparation { shell, environment, toolchains }
    }

    /// What a terminal with a plain shell needs before it can open. On this
    /// machine it runs the shell of the settings, in an environment that the
    /// user's shell gives.
    ///
    /// `located` is the place of the requested path in the worktrees, and
    /// `detect_venv` is what the settings there say.
    pub fn prepare_shell_terminal(
        &self,
        request: &TerminalRequest,
        located: &Option<WorktreeLocation>,
        detect_venv: bool,
        programs: &ShellPrograms,
    ) -> (r: TerminalPreparation)
        ensures
            r.shell@ == shell_program_of(
                *self,
                request.is_via_remote,
                programs.default_system@,
                programs.settings@,
            ),
            r.environment@ == environment_source(
                *self,
                request@,
                shell_program_of(
                    *self,
                    request.is_via_remote,
                    programs.default_system@,
                    programs.system@,
                ),
            ),
            queries_toolchain(r.toolchains@, *request, *located, detect_venv),
    {
        let shell = self.shell_program(
            request.is_via_remote,
            programs.default_system.as_str(),
            programs.settings.as_str(),
        );
        let env_shell = self.shell_program(
            request.is_via_remote,
            programs.default_system.as_str(),
            programs.system.as_str(),
        );
        let environment = self.resolve_directory_environment(
            env_shell.as_str(),
            &request.path,
            request.is_via_remote,
        );
        let toolchains = request.toolchain_queries(located, detect_venv);
        TerminalPreparation { shell, environment, toolchains }
    }

    /// Where the environment of a command comes from that needs no terminal,
    /// `shell` being the program of its shell.
    pub fn exec_environment(&self, request: &ExecRequest, shell: &str) -> (r: EnvironmentSource)
        ensures
            r@ == environment_source(
                *self,
                TerminalRequestView {
                    path: optional_bytes(request.path),
                    is_via_remote: self.remote_client is Some,
                },
                shell@,
            ),
    {
        self.resolve_directory_environment(shell, &request.path, self.remote_client.is_some())
    }

    /// Where a command runs that needs no terminal, and in which shell: that
    /// of the remote side where it is known, and else the system's.
    pub fn exec_in_shell(&self) -> (r: ExecRequest)
        ensures
            optional_bytes(r.path) == first_directory(*self),
            r.path is Some <==> self.worktrees.len() > 0 && self.worktrees@[0].root_entry_is_dir
                == Some(true),
            r.path is Some ==> path_bytes(r.path->0) == path_bytes(self.worktrees@[0].abs_path),
            r.shell@ == if self.remote_client is Some && self.remote_client->0.shell is Some {
                ShellView::Program(self.remote_client->0.shell->0@)
            } else {
                ShellView::System
            },
    {
        let path = self.first_project_directory();
        let shell = match &self.remote_client {
            Some(remote_client) => match &remote_client.shell {
                Some(shell) => Shell::Program(shell.clone()),
                None => Shell::System,
            },
            None => Shell::System,
        };
        ExecRequest { path, shell }
    }

    /// The process that runs `command` with `args` on this machine, in the
    /// directory `path`, or the command for the remote connection to wrap,
    /// which has no directory.
    pub fn exec_launch(
        &self,
        command: String,
        args: Vec<String>,
        env: Env,
        path: Option<PathBuf>,
    ) -> (r: ExecLaunch)
        ensures
            self.remote_client is Some ==> r == (ExecLaunch::Remote { command, args, env }),
            self.remote_client is None ==> r == (ExecLaunch::Local {
                process: ProcessCommand { program: command, args, env, current_dir: path },
            }),
    {
        if self.remote_client.is_some() {
            ExecLaunch::Remote { command, args, env }
        } else {
            ExecLaunch::Local {
                process: ProcessCommand { program: command, args, env, current_dir: path },
            }
        }
    }
}

impl TerminalRequest {
    /// The directory of a terminal on this machine. A remote path is none.
    pub fn local_path(&self) -> (r: Option<PathBuf>)
        ensures
            optional_bytes(r) == local_path_of(self@),
    {
        if self.is_via_remote {
            None
        } else {
            self.path.clone()
        }
    }

    /// The toolchains to look for: that of Python in the worktree that the
    /// terminal opens in, at `located`, and nowhere else. Without `detect_venv`
    /// there is nothing to look for.
    pub fn toolchain_queries(
        &self,
        located: &Option<WorktreeLocation>,
        detect_venv: bool,
    ) -> (r: Vec<ToolchainQuery>)
        ensures
            queries_toolchain(r@, *self, *located, detect_venv),
    {
        let mut queries: Vec<ToolchainQuery> = Vec::new();
        if self.path.is_some() && detect_venv {
            if let Some(location) = located {
                queries.push(
                    ToolchainQuery {
                        worktree_id: location.worktree_id,
                        path: location.relative_path.clone(),
                        language_name: "Python".to_owned(),
                    },
                );
            }
        }
        queries
    }

    /// What the terminal of a task runs.
    ///
    /// `env` is the environment of the directory with that of the settings;
    /// the task's own goes before both. `activated` is the shell with the
    /// arguments that make it run the activation and the task, where there is
    /// an activation; else the task runs by itself, or a shell alone if it has
    /// no command.
    pub fn task_launch(
        &self,
        spawn_task: &SpawnInTerminal,
        env: Env,
        activated: Option<(String, Vec<String>)>,
    ) -> (r: Launch)
        ensures
            r@ == task_launch_of(
                self@,
                *spawn_task,
                env@,
                match activated {
                    Some((program, args)) => Some((program@, args.deep_view())),
                    None => None,
                },
            ),
    {
        let mut env = env;
        env.extend(&spawn_task.env);
        let command = match activated {
            Some(command) => Some(command),
            None => match &spawn_task.command {
                Some(program) => Some((program.clone(), copy_texts(&spawn_task.args))),
                None => None,
            },
        };
        if self.is_via_remote {
            remote_launch(command, env, &self.path)
        } else {
            let shell = match command {
                Some((program, args)) => Shell::WithArguments {
                    program,
                    args,
                    title_override: None,
                },
                None => Shell::System,
            };
            Launch::Local { shell, env }
        }
    }

    /// What a terminal with a plain shell runs: the shell of the settings, or
    /// at the far end the login shell there.
    pub fn shell_launch(&self, settings_shell: Shell, env: Env) -> (r: Launch)
        ensures
            r@ == if self.is_via_remote {
                LaunchView::Remote {
                    program: None,
                    args: Seq::empty(),
                    env: env@,
                    working_directory: working_directory_of(self@.path),
                }
            } else {
                LaunchView::Local { shell: settings_shell@, env: env@ }
            },
    {
        if self.is_via_remote {
            remote_launch(None, env, &self.path)
        } else {
            Launch::Local { shell: settings_shell, env }
        }
    }
}

/// The command that the terminal of a task runs.
pub open spec fn task_command(
    spawn_task: SpawnInTerminal,
    activated: Option<(Seq<char>, Seq<Seq<char>>)>,
) -> Option<(Seq<char>, Seq<Seq<char>>)> {
    if activated is Some {
        activated
    } else {
        match spawn_task.command {
            Some(command) => Some((command@, spawn_task.args.deep_view())),
            None => None,
        }
    }
}

/// What the terminal of a task runs.
pub open spec fn task_launch_of(
    request: TerminalRequestView,
    spawn_task: SpawnInTerminal,
    env: Map<Seq<char>, Seq<char>>,
    activated: Option<(Seq<char>, Seq<Seq<char>>)>,
) -> LaunchView {
    let env = env.union_prefer_right(spawn_task.env@);
    let command = task_command(spawn_task, activated);
    if request.is_via_remote {
        remote_launch_of(command, env, request.path)
    } else {
        LaunchView::Local {
            shell: match command {
                Some((program, args)) => ShellView::WithArguments {
                    program,
                    args,
                    title_override: None,
                },
                None => ShellView::System,
            },
            env,
        }
    }
}

/// How the remote connection is told of the directory `path`.
pub open spec fn working_directory_of(path: Option<Seq<u8>>) -> Option<Seq<char>> {
    match path {
        Some(path) => Some(path_shown(path)),
        None => None,
    }
}

/// What a remote terminal runs.
pub open spec fn remote_launch_of(
    command: Option<(Seq<char>, Seq<Seq<char>>)>,
    env: Map<Seq<char>, Seq<char>>,
    path: Option<Seq<u8>>,
) -> LaunchView {
    match command {
        Some((program, args)) => LaunchView::Remote {
            program: Some(program),
            args,
            env,
            working_directory: working_directory_of(path),
        },
        None => LaunchView::Remote {
            program: None,
            args: Seq::empty(),
            env,
            working_directory: working_directory_of(path),
        },
    }
}

fn remote_launch(
    command: Option<(String, Vec<String>)>,
    env: Env,
    path: &Option<PathBuf>,
) -> (r: Launch)
    ensures
        r@ == remote_launch_of(
            match command {
                Some((program, args)) => Some((program@, args.deep_view())),
                None => None,
            },
            env@,
            optional_bytes(*path),
        ),
{
    let (program, args) = match command {
        Some((program, args)) => (Some(program), args),
        None => {
            let none: Vec<String> = Vec::new();
            assert(none.deep_view() =~= Seq::empty());
            (None, none)
        },
    };
    let working_directory = match path {
        Some(path) => Some(show_path(path)),
        None => None,
    };
    Launch::Remote { program, args, env, working_directory }
}

/// The shell and the environment of a remote terminal, from the command that
/// the connection to `host` made. Where it failed to, its error is the result.
pub fn create_remote_shell<E>(built: Result<CommandTemplate, E>, host: &str) -> (r: Result<
    (Shell, Env),
    E,
>)
    ensures
        r is Err <==> built is Err,
        r is Err ==> r->Err_0 == built->Err_0,
        r is Ok ==> r->Ok_0.0@ == (ShellView::WithArguments {
            program: built->Ok_0.program@,
            args: built->Ok_0.args.deep_view(),
            title_override: Some(host@ + " — Terminal"@),
        }),
        r is Ok ==> r->Ok_0.1 == built->Ok_0.env,
{
    match built {
        Ok(command) => {
            let mut title = host.to_owned();
            title.append(" — Terminal");
            Ok(
                (
                    Shell::WithArguments {
                        program: command.program,
                        args: command.args,
                        title_override: Some(title),
                    },
                    command.env,
                ),
            )
        },
        Err(error) => Err(error),
    }
}

/// The process that runs a command which the remote connection has wrapped.
/// Where it failed to, its error is the result.
pub fn remote_process<E>(built: Result<CommandTemplate, E>) -> (r: Result<ProcessCommand, E>)
    ensures
        r == match built {
            Ok(command) => Ok(
                ProcessCommand {
                    program: command.program,
                    args: command.args,
                    env: command.env,
                    current_dir: None,
                },
            ),
            Err(error) => Err(error),
        },
{
    match built {
        Ok(command) => Ok(
            ProcessCommand {
                program: command.program,
                args: command.args,
                env: command.env,
                current_dir: None,
            },
        ),
        Err(error) => Err(error),
    }
}

/// The environment of a directory, if there is one, and that of the settings,
/// which goes before it.
pub open spec fn merged_environment(
    resolved: Option<Env>,
    settings_env: Map<Seq<char>, Seq<char>>,
) -> Map<Seq<char>, Seq<char>> {
    match resolved {
        Some(env) => env@.union_prefer_right(settings_env),
        None => settings_env,
    }
}

/// The environment of a terminal: that of its directory, if there is one, and
/// that of the settings, which goes before it.
pub fn terminal_environment(resolved: Option<Env>, settings_env: &Env) -> (r: Env)
    ensures
        r@ == merged_environment(resolved, settings_env@),
{
    let mut env = match resolved {
        Some(env) => env,
        None => Env::new(),
    };
    env.extend(settings_env);
    proof {
        if resolved is None {
            assert(env@ =~= settings_env@);
        }
    }
    env
}

impl ShellTerminalRequest {
    /// The environment of a terminal with a plain shell of the family
    /// `shell_kind`, which keeps its history with the workspace where that
    /// applies. The second value is the history file to make ready.
    pub fn environment(
        &self,
        resolved: Option<Env>,
        settings_env: &Env,
        shell_kind: ShellKind,
        data_dir: &PathBuf,
    ) -> (r: (Env, Option<PathBuf>))
        ensures
            r.1 is Some <==> {
                &&& !self.terminal.is_via_remote
                &&& shell_kind == ShellKind::Posix
                &&& !merged_environment(resolved, settings_env@).contains_key("HISTFILE"@)
                &&& self.workspace_worktree_paths.len() > 0
            },
            r.1 is Some ==> path_bytes(r.1->0) == history_file(
                path_bytes(*data_dir),
                bytes_of_paths(self.workspace_worktree_paths@),
            ),
            r.0@ == if r.1 is Some {
                with_history(
                    merged_environment(resolved, settings_env@),
                    path_text(path_bytes(r.1->0)),
                )
            } else {
                merged_environment(resolved, settings_env@)
            },
    {
        let mut env = terminal_environment(resolved, settings_env);
        let history = inject_workspace_bash_history(
            self.terminal.is_via_remote,
            shell_kind,
            data_dir,
            self.workspace_worktree_paths.as_slice(),
            &mut env,
        );
        (env, history)
    }
}

/// A remote terminal has no directory on this machine.
pub proof fn remote_terminal_has_no_local_path(request: TerminalRequestView)
    ensures
        request.is_via_remote ==> local_path_of(request) is None,
        !request.is_via_remote ==> local_path_of(request) == request.path,
{
}

/// A terminal that is forced to be local runs on this machine, whatever the
/// project is.
pub proof fn forced_local_terminal_is_local(project: Project, cwd: Option<Seq<u8>>)
    ensures
        !shell_request(project, cwd, true).0.is_via_remote,
        local_path_of(shell_request(project, cwd, true).0) == cwd,
{
}

/// In a project of this machine, forcing a terminal to be local changes
/// nothing.
pub proof fn local_terminal_is_regular_in_local_project(project: Project, cwd: Option<Seq<u8>>)
    requires
        project.remote_client is None,
    ensures
        shell_request(project, cwd, true) == shell_request(project, cwd, false),
{
}

/// A shell at the far end of a remote project has no worktrees to keep its
/// history with.
pub proof fn remote_shell_has_no_workspace(project: Project, cwd: Option<Seq<u8>>)
    requires
        project.remote_client is Some,
    ensures
        shell_request(project, cwd, false).0.is_via_remote,
        shell_request(project, cwd, false).1.len() == 0,
{
}

/// A toolchain is looked for only in the worktree that the terminal opens in.
pub proof fn toolchains_stay_in_their_worktree(
    queries: Seq<ToolchainQuery>,
    request: TerminalRequest,
    located: Option<WorktreeLocation>,
    detect_venv: bool,
)
    requires
        queries_toolchain(queries, request, located, detect_venv),
    ensures
        queries.len() <= 1,
        forall|i: int|
            0 <= i < queries.len() ==> located is Some && (#[trigger] queries[i]).worktree_id
                == located->0.worktree_id,
{
}

/// The environment that a launch runs with.
pub open spec fn launch_env(launch: LaunchView) -> Map<Seq<char>, Seq<char>> {
    match launch {
        LaunchView::Local { env, .. } => env,
        LaunchView::Remote { env, .. } => env,
    }
}

/// In the environment of a task's terminal the task goes before the settings,
/// and the settings go before the directory.
pub proof fn task_env_goes_first(
    request: TerminalRequestView,
    spawn_task: SpawnInTerminal,
    resolved: Option<Env>,
    settings_env: Map<Seq<char>, Seq<char>>,
    activated: Option<(Seq<char>, Seq<Seq<char>>)>,
    key: Seq<char>,
)
    ensures
        ({
            let merged = merged_environment(resolved, settings_env);
            let env = launch_env(task_launch_of(request, spawn_task, merged, activated));
            &&& spawn_task.env@.contains_key(key) ==> env.contains_key(key) && env[key]
                == spawn_task.env@[key]
            &&& !spawn_task.env@.contains_key(key) && settings_env.contains_key(key)
                ==> env.contains_key(key) && env[key] == settings_env[key]
            &&& !spawn_task.env@.contains_key(key) && !settings_env.contains_key(key) ==> (
            env.contains_key(key) <==> resolved is Some && resolved->0@.contains_key(key))
            &&& !spawn_task.env@.contains_key(key) && !settings_env.contains_key(key)
                && env.contains_key(key) ==> env[key] == resolved->0@[key]
        }),
{
}

/// A task's terminal runs remotely if and only if it was requested so, and then
/// in the requested directory.
pub proof fn task_launch_follows_request(
    request: TerminalRequestView,
    spawn_task: SpawnInTerminal,
    env: Map<Seq<char>, Seq<char>>,
    activated: Option<(Seq<char>, Seq<Seq<char>>)>,
)
    ensures
        ({
            let launch = task_launch_of(request, spawn_task, env, activated);
            &&& launch is Remote <==> request.is_via_remote
            &&& launch is Remote ==> launch->working_directory == working_directory_of(
                request.path,
            )
        }),
{
}

/// A `~` that ends the path or stands before a slash becomes the home
/// directory, with the rest of the path behind it; without a home directory the
/// path stays.
pub proof fn tilde_becomes_home(
    rest: Seq<char>,
    home: Option<Seq<char>>,
    expanded: Seq<char>,
)
    requires
        rest.len() == 0 || rest[0] == '/',
        tilde_expansion(seq!['~'] + rest, home, expanded),
    ensures
        home is Some ==> expanded == home->0 + rest,
        home is None ==> expanded == seq!['~'] + rest,
{
    let path = seq!['~'] + rest;
    assert(path.skip(1) =~= rest);
    assert(path[0] == '~');
    if rest.len() > 0 {
        assert(path[1] == rest[0]);
    }
}

/// A path that does not start with `~`, or that names another user behind it,
/// stays.
pub proof fn other_paths_are_not_expanded(
    path: Seq<char>,
    home: Option<Seq<char>>,
    expanded: Seq<char>,
)
    requires
        path.len() == 0 || path[0] != '~' || (path.len() > 1 && path[1] != '/' && path[1] != '\\'),
        tilde_expansion(path, home, expanded),
    ensures
        expanded == path,
{
}

/// A shell opens in the given directory, at the far end of a remote project
/// unless it is forced to be local. On this machine its workspace is made of
/// the visible worktrees, in their order, and at the far end of none.
pub proof fn shell_opens_in_the_given_directory(
    project: Project,
    cwd: Option<Seq<u8>>,
    force_local: bool,
)
    ensures
        ({
            let (terminal, paths) = shell_request(project, cwd, force_local);
            &&& terminal.path == cwd
            &&& terminal.is_via_remote <==> !force_local && project.remote_client is Some
            &&& terminal.is_via_remote ==> paths.len() == 0
            &&& !terminal.is_via_remote ==> paths == project.worktrees@.filter(
                |w: Worktree| w.is_visible,
            ).map_values(|w: Worktree| path_bytes(w.abs_path))
        }),
{
    visible_paths_keep_visible_worktrees(project.worktrees@);
}

/// A remote terminal runs the shell that the remote side names, or the system's
/// default where it names none; a terminal of this machine runs the local
/// shell, in a remote project too.
pub proof fn shell_is_that_of_its_side(
    project: Project,
    default_system_shell: Seq<char>,
    local_shell: Seq<char>,
)
    ensures
        shell_program_of(project, false, default_system_shell, local_shell) == local_shell,
        project.remote_client matches Some(client) ==> {
            let program = shell_program_of(project, true, default_system_shell, local_shell);
            &&& client.shell is Some ==> program == client.shell->0@
            &&& client.shell is None ==> program == default_system_shell
        },
        project.remote_client is None ==> shell_program_of(
            project,
            true,
            default_system_shell,
            local_shell,
        ) == local_shell,
{
}

/// The environment of a terminal comes from its directory, of its own side, as
/// the given shell has it there. Without a directory there is none.
pub proof fn environment_is_that_of_the_directory(
    project: Project,
    request: TerminalRequestView,
    shell: Seq<char>,
)
    ensures
        ({
            let source = environment_source(project, request, shell);
            &&& request.path is None <==> source is Nothing
            &&& source is RemoteDirectory <==> request.path is Some && request.is_via_remote
                && project.remote_client is Some
            &&& source matches EnvironmentSourceView::RemoteDirectory { shell: s, path } ==> s
                == ShellView::Program(shell) && Some(path) == request.path
            &&& source matches EnvironmentSourceView::LocalDirectory { shell: s, path } ==> s
                == ShellView::Program(shell) && Some(path) == request.path
        }),
{
}

/// Python's toolchain is looked for at the terminal's place in its worktree,
/// and nothing is looked for where that is not to be detected, or where the
/// terminal is in no worktree.
pub proof fn python_is_looked_for_where_the_terminal_opens(
    queries: Seq<ToolchainQuery>,
    request: TerminalRequest,
    located: Option<WorktreeLocation>,
    detect_venv: bool,
)
    requires
        queries_toolchain(queries, request, located, detect_venv),
    ensures
        queries.len() == 0 <==> !detect_venv || request.path is None || located is None,
        queries.len() > 0 ==> {
            &&& queries.len() == 1
            &&& queries[0].worktree_id == located->0.worktree_id
            &&& queries[0].path@ == located->0.relative_path@
            &&& queries[0].language_name@ == "Python"@
        },
{
}

/// The settings go before the environment of the directory, and nothing else
/// comes in.
pub proof fn settings_go_before_the_directory(
    resolved: Option<Env>,
    settings_env: Map<Seq<char>, Seq<char>>,
    key: Seq<char>,
)
    ensures
        ({
            let merged = merged_environment(resolved, settings_env);
            &&& settings_env.contains_key(key) ==> merged.contains_key(key) && merged[key]
                == settings_env[key]
            &&& !settings_env.contains_key(key) ==> (merged.contains_key(key) <==> resolved is Some
                && resolved->0@.contains_key(key))
            &&& !settings_env.contains_key(key) && merged.contains_key(key) ==> merged[key]
                == resolved->0@[key]
        }),
{
}

/// On this machine a task's terminal runs the activated line where there is
/// one, else the command of the task with its arguments, else the system's
/// shell.
pub proof fn local_task_runs_its_command(
    request: TerminalRequestView,
    spawn_task: SpawnInTerminal,
    env: Map<Seq<char>, Seq<char>>,
    activated: Option<(Seq<char>, Seq<Seq<char>>)>,
)
    requires
        !request.is_via_remote,
    ensures
        ({
            let launch = task_launch_of(request, spawn_task, env, activated);
            &&& launch is Local
            &&& activated matches Some((program, args)) ==> launch->shell
                == (ShellView::WithArguments { program, args, title_override: None })
            &&& activated is None && spawn_task.command is Some ==> launch->shell
                == (ShellView::WithArguments {
                program: spawn_task.command->0@,
                args: spawn_task.args.deep_view(),
                title_override: None,
            })
            &&& activated is None && spawn_task.command is None ==> launch->shell is System
        }),
{
}

/// At the far end a task's terminal has the connection run the activated line
/// where there is one, else the command of the task with its arguments, else
/// the login shell, in the requested directory.
pub proof fn remote_task_runs_its_command(
    request: TerminalRequestView,
    spawn_task: SpawnInTerminal,
    env: Map<Seq<char>, Seq<char>>,
    activated: Option<(Seq<char>, Seq<Seq<char>>)>,
)
    requires
        request.is_via_remote,
    ensures
        ({
            let launch = task_launch_of(request, spawn_task, env, activated);
            &&& launch is Remote
            &&& activated matches Some((program, args)) ==> launch->program == Some(program)
                && launch->args == args
            &&& activated is None && spawn_task.command is Some ==> launch->program == Some(
                spawn_task.command->0@,
            ) && launch->args == spawn_task.args.deep_view()
            &&& activated is None && spawn_task.command is None ==> launch->program is None
                && launch->args.len() == 0
            &&& request.path is None ==> launch->working_directory is None
            &&& request.path is Some ==> launch->working_directory == Some(
                path_shown(request.path->0),
            )
        }),
{
}

/// The views of a request, a launch and a source of an environment tell all
/// that these hold.
pub proof fn terminal_views_are_complete(
    request: TerminalRequest,
    shell_terminal: ShellTerminalRequest,
    shell: Shell,
    env: Env,
    path: PathBuf,
)
    ensures
        request@.is_via_remote == request.is_via_remote,
        request@.path is Some <==> request.path is Some,
        request.path is Some ==> request@.path->0 == path_bytes(request.path->0),
        shell_terminal@.0 == shell_terminal.terminal@,
        shell_terminal@.1.len() == shell_terminal.workspace_worktree_paths.len(),
        forall|i: int|
            0 <= i < shell_terminal.workspace_worktree_paths.len() ==> shell_terminal@.1[i]
                == path_bytes(#[trigger] shell_terminal.workspace_worktree_paths@[i]),
        (Launch::Local { shell, env })@ == (LaunchView::Local { shell: shell@, env: env@ }),
        (EnvironmentSource::LocalDirectory { shell, path })@ == (
        EnvironmentSourceView::LocalDirectory { shell: shell@, path: path_bytes(path) }),
        (EnvironmentSource::RemoteDirectory { shell, path })@ == (
        EnvironmentSourceView::RemoteDirectory { shell: shell@, path: path_bytes(path) }),
{
}

/// The view of a remote launch tells all that it holds.
pub proof fn remote_launch_view_is_complete(
    program: Option<String>,
    args: Vec<String>,
    env: Env,
    working_directory: Option<String>,
)
    ensures
        ({
            let view = (Launch::Remote { program, args, env, working_directory })@;
            &&& view is Remote
            &&& view->program is Some <==> program is Some
            &&& program is Some ==> view->program->0 == program->0@
            &&& view->args.len() == args.len()
            &&& forall|i: int| 0 <= i < args.len() ==> view->args[i] == (#[trigger] args@[i])@
            &&& view->Remote_env == env@
            &&& view->working_directory is Some <==> working_directory is Some
            &&& working_directory is Some ==> view->working_directory->0 == working_directory->0@
        }),
{
}

} // verus!
