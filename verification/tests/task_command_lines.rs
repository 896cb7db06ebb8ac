use editor_session::env::Env;
use editor_session::shell::{
    activated_task_line, activation_command_line, format_task_for_activation,
    quote_cmd_command_arg_for_outer_shell, quote_prepared_task_arg_for_activation, QuotedWords,
    ShellKind, SpawnInTerminal,
};

fn texts(words: &[&str]) -> Vec<String> {
    words.iter().map(|w| w.to_string()).collect()
}

fn task(command: Option<&str>, args: &[&str], shell_kind: ShellKind) -> SpawnInTerminal {
    SpawnInTerminal {
        command: command.map(|c| c.to_string()),
        args: texts(args),
        shell_kind,
        env: Env::new(),
        cwd: None,
    }
}

fn prepared_cmd_task(command_arg: &str) -> SpawnInTerminal {
    task(Some("cmd.exe"), &["/S", "/C", command_arg], ShellKind::Cmd)
}

fn quoted(command: Option<&str>, args: &[Option<&str>]) -> QuotedWords {
    QuotedWords {
        command: command.map(|c| c.to_string()),
        args: args.iter().map(|a| a.map(|a| a.to_string())).collect(),
    }
}

#[test]
fn formats_prepared_cmd_task_for_powershell_activation() {
    let task = prepared_cmd_task("\"echo Hi there\"");
    let words = quoted(Some("&cmd.exe"), &[Some("/S"), Some("/C"), Some("quoted again")]);

    assert_eq!(
        format_task_for_activation(&task, ShellKind::PowerShell, "powershell.exe", &words),
        "&cmd.exe /S /C '\"echo Hi there\"'"
    );
}

#[test]
fn formats_prepared_cmd_task_for_cmd_activation() {
    let task = prepared_cmd_task("\"echo Hi there\"");
    let words = quoted(Some("cmd.exe"), &[Some("/S"), Some("/C"), Some("quoted again")]);

    assert_eq!(
        format_task_for_activation(&task, ShellKind::Cmd, "cmd.exe", &words),
        "cmd.exe /S /C \"echo Hi there\""
    );
}

#[test]
fn formats_prepared_cmd_task_with_shell_args_for_activation() {
    let task = task(
        Some("cmd.exe"),
        &["/D", "/S", "/C", "\"echo Hi there\""],
        ShellKind::Cmd,
    );
    let words = quoted(
        Some("&cmd.exe"),
        &[Some("/D"), Some("/S"), Some("/C"), Some("quoted again")],
    );

    assert_eq!(
        format_task_for_activation(&task, ShellKind::PowerShell, "powershell.exe", &words),
        "&cmd.exe /D /S /C '\"echo Hi there\"'"
    );
}

#[test]
fn formats_prepared_cmd_task_with_single_quote_for_powershell_activation() {
    let task = prepared_cmd_task("\"echo It's fine\"");
    let words = quoted(Some("&cmd.exe"), &[Some("/S"), Some("/C"), Some("quoted again")]);

    assert_eq!(
        format_task_for_activation(&task, ShellKind::PowerShell, "powershell.exe", &words),
        "&cmd.exe /S /C '\"echo It''s fine\"'"
    );
}

#[test]
fn formats_non_cmd_task_for_activation() {
    let task = task(Some("cargo"), &["test", "some test"], ShellKind::Posix);
    let words = quoted(Some("&cargo"), &[Some("test"), Some("'some test'")]);

    assert_eq!(
        format_task_for_activation(&task, ShellKind::PowerShell, "powershell.exe", &words),
        "&cargo test 'some test'"
    );
}

#[test]
fn task_without_command_becomes_a_login_shell() {
    let task = task(None, &["ignored"], ShellKind::Posix);
    assert_eq!(
        format_task_for_activation(&task, ShellKind::Posix, "/bin/zsh", &quoted(None, &[None])),
        "exec /bin/zsh -l"
    );
}

#[test]
fn words_that_cannot_be_quoted_are_left_out() {
    let task = task(Some("run"), &["a", "b", "c"], ShellKind::Posix);
    let words = quoted(None, &[Some("a"), None, Some("c")]);
    assert_eq!(
        format_task_for_activation(&task, ShellKind::Fish, "fish", &words),
        "a c"
    );
    let nothing = quoted(None, &[None, None, None]);
    assert_eq!(
        format_task_for_activation(&task, ShellKind::Fish, "fish", &nothing),
        ""
    );
}

#[test]
fn cmd_switches_are_found_in_any_case() {
    let task = task(Some("cmd.exe"), &["/s", "/c", "dir"], ShellKind::Cmd);
    let outer = Some("'dir'".to_string());
    let word = |index: usize, shell_kind: ShellKind| {
        quote_prepared_task_arg_for_activation(
            &task,
            shell_kind,
            task.args[index].as_str(),
            index,
            &outer,
        )
    };
    assert_eq!(word(2, ShellKind::Cmd), Some("dir".to_string()));
    assert_eq!(word(1, ShellKind::Cmd), Some("'dir'".to_string()));
    assert_eq!(word(2, ShellKind::Posix), Some("'dir'".to_string()));
    assert_eq!(
        quote_prepared_task_arg_for_activation(&task, ShellKind::Cmd, "x", 3, &None),
        None
    );
    assert_eq!(
        quote_prepared_task_arg_for_activation(&task, ShellKind::Cmd, "x", 9, &None),
        None
    );
}

#[test]
fn switches_in_another_order_are_no_command_line() {
    let task = task(Some("cmd.exe"), &["/C", "/S", "dir"], ShellKind::Cmd);
    assert_eq!(
        quote_prepared_task_arg_for_activation(&task, ShellKind::Cmd, "dir", 2, &None),
        None
    );
}

#[test]
fn other_task_shells_have_no_command_line() {
    let task = task(Some("sh"), &["/S", "/C", "dir"], ShellKind::Posix);
    let outer = Some("'dir'".to_string());
    assert_eq!(
        quote_prepared_task_arg_for_activation(&task, ShellKind::Cmd, "dir", 2, &outer),
        outer
    );
}

#[test]
fn every_outer_shell_gets_its_word() {
    let outer = Some("outer".to_string());
    for kind in [ShellKind::PowerShell, ShellKind::Pwsh] {
        assert_eq!(
            quote_cmd_command_arg_for_outer_shell("a'b''c", kind, &outer),
            Some("'a''b''''c'".to_string())
        );
        assert_eq!(
            quote_cmd_command_arg_for_outer_shell("", kind, &None),
            Some("''".to_string())
        );
    }
    assert_eq!(
        quote_cmd_command_arg_for_outer_shell("a'b", ShellKind::Cmd, &outer),
        Some("a'b".to_string())
    );
    for kind in [
        ShellKind::Posix,
        ShellKind::Csh,
        ShellKind::Tcsh,
        ShellKind::Rc,
        ShellKind::Fish,
        ShellKind::Nushell,
        ShellKind::Xonsh,
        ShellKind::Elvish,
    ] {
        assert_eq!(quote_cmd_command_arg_for_outer_shell("a'b", kind, &outer), outer);
        assert_eq!(quote_cmd_command_arg_for_outer_shell("a'b", kind, &None), None);
    }
}

#[test]
fn activation_comes_before_the_task() {
    assert_eq!(
        activation_command_line(&texts(&["conda activate base", "cd x"]), ';', "run"),
        "conda activate base; cd x; run"
    );
    assert_eq!(activation_command_line(&texts(&["one"]), '&', "run"), "one& run");
}

#[test]
fn empty_activation_leaves_the_task_alone() {
    let task = task(Some("run"), &["a"], ShellKind::Posix);
    let words = quoted(Some("run"), &[Some("a")]);
    assert_eq!(
        activated_task_line(&Vec::new(), ';', &task, ShellKind::Posix, "sh", &words),
        None
    );
    assert_eq!(
        activated_task_line(&texts(&[". act"]), ';', &task, ShellKind::Posix, "sh", &words),
        Some(". act; run a".to_string())
    );
}
