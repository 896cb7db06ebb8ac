//! Shells, the tasks they run, and the command line that runs a task behind the
//! activation of a toolchain.

use std::path::PathBuf;

use vstd::prelude::*;

use crate::env::Env;
use crate::text::{
    ascii_lowered, eq_ignore_ascii_case, few_texts_are_joined, join_texts, joined,
    joined_lists_are_separated, lowering_moves_capitals_only, replace_char, replaced,
};

verus! {

/// The families of shells that differ in syntax.
#[derive(Clone, Copy, Debug, PartialEq, Eq, Structural)]
pub enum ShellKind {
    Posix,
    Csh,
    Tcsh,
    Rc,
    Fish,
    PowerShell,
    Pwsh,
    Nushell,
    Cmd,
    Xonsh,
    Elvish,
}

/// A shell for a terminal.
#[derive(Debug, PartialEq, Eq)]
pub enum Shell {
    /// The shell that the system has for the user.
    System,
    /// A program without arguments.
    Program(String),
    /// A program with arguments, and a title for the terminal.
    WithArguments { program: String, args: Vec<String>, title_override: Option<String> },
}

/// A shell, its texts as sequences.
pub enum ShellView {
    System,
    Program(Seq<char>),
    WithArguments {
        program: Seq<char>,
        args: Seq<Seq<char>>,
        title_override: Option<Seq<char>>,
    },
}

impl View for Shell {
    type V = ShellView;

    open spec fn view(&self) -> ShellView {
        match *self {
            Shell::System => ShellView::System,
            Shell::Program(program) => ShellView::Program(program@),
            Shell::WithArguments { program, args, title_override } => ShellView::WithArguments {
                program: program@,
                args: args.deep_view(),
                title_override: title_override.deep_view(),
            },
        }
    }
}

/// A task that is to run in a terminal.
#[derive(Debug)]
pub struct SpawnInTerminal {
    /// The program, or none for a shell alone.
    pub command: Option<String>,
    pub args: Vec<String>,
    /// The family of the shell that the command was prepared for.
    pub shell_kind: ShellKind,
    pub env: Env,
    /// The directory to run in, where the task names one.
    pub cwd: Option<PathBuf>,
}

/// A copy of `texts`.
pub(crate) fn copy_texts(texts: &Vec<String>) -> (r: Vec<String>)
    ensures
        r.deep_view() == texts.deep_view(),
{
    let r = texts.clone();
    assert(r.deep_view() =~= texts.deep_view());
    r
}

/// How the shell that runs the activation quotes the words of a task: the
/// command with its prefix, and the arguments one by one. What it cannot quote
/// is none.
#[derive(Debug, PartialEq, Eq)]
pub struct QuotedWords {
    pub command: Option<String>,
    pub args: Vec<Option<String>>,
}

/// Whether the argument at `index` is a command line for cmd, which stands
/// behind `/S /C` in any case.
pub open spec fn is_cmd_command_line(
    task_shell_kind: ShellKind,
    args: Seq<Seq<char>>,
    index: int,
) -> bool {
    &&& task_shell_kind == ShellKind::Cmd
    &&& 2 <= index <= args.len()
    &&& ascii_lowered(args[index - 2]) == ascii_lowered("/S"@)
    &&& ascii_lowered(args[index - 1]) == ascii_lowered("/C"@)
}

/// A command line for cmd as one word of the outer shell: in single quotes for
/// the PowerShells, as it is for cmd, and as the outer shell quotes it else.
pub open spec fn cmd_command_word(
    arg: Seq<char>,
    outer: ShellKind,
    quoted: Option<Seq<char>>,
) -> Option<Seq<char>> {
    match outer {
        ShellKind::PowerShell | ShellKind::Pwsh => Some(
            "'"@ + replaced(arg, '\'', "''"@) + "'"@,
        ),
        ShellKind::Cmd => Some(arg),
        _ => quoted,
    }
}

/// A command line for cmd as one word of the shell `shell_kind`, which quotes
/// it as `quoted`.
pub fn quote_cmd_command_arg_for_outer_shell(
    arg: &str,
    shell_kind: ShellKind,
    quoted: &Option<String>,
) -> (r: Option<String>)
    ensures
        r.deep_view() == cmd_command_word(arg@, shell_kind, quoted.deep_view()),
{
    match shell_kind {
        ShellKind::PowerShell | ShellKind::Pwsh => {
            let mut word = "'".to_owned();
            let inner = replace_char(arg, '\'', "''");
            word.append(inner.as_str());
            word.append("'");
            Some(word)
        },
        ShellKind::Cmd => Some(arg.to_owned()),
        ShellKind::Posix
        | ShellKind::Csh
        | ShellKind::Tcsh
        | ShellKind::Fish
        | ShellKind::Nushell
        | ShellKind::Rc
        | ShellKind::Xonsh
        | ShellKind::Elvish => quoted.clone(),
    }
}

/// The word for the argument at `index` of a task.
pub open spec fn task_word(
    task_shell_kind: ShellKind,
    args: Seq<Seq<char>>,
    index: int,
    arg: Seq<char>,
    outer: ShellKind,
    quoted: Option<Seq<char>>,
) -> Option<Seq<char>> {
    if is_cmd_command_line(task_shell_kind, args, index) {
        cmd_command_word(arg, outer, quoted)
    } else {
        quoted
    }
}

/// The word for the argument `arg` at `index` of a task in the shell
/// `shell_kind`, which quotes it as `quoted`.
///
/// A command line for cmd is quoted already; quoting it once more would make
/// cmd see the quotes as part of the text.
pub fn quote_prepared_task_arg_for_activation(
    spawn_task: &SpawnInTerminal,
    shell_kind: ShellKind,
    arg: &str,
    index: usize,
    quoted: &Option<String>,
) -> (r: Option<String>)
    ensures
        r.deep_view() == task_word(
            spawn_task.shell_kind,
            spawn_task.args.deep_view(),
            index as int,
            arg@,
            shell_kind,
            quoted.deep_view(),
        ),
        spawn_task.shell_kind != ShellKind::Cmd || index < 2 || index > spawn_task.args.len()
            ==> r.deep_view() == quoted.deep_view(),
        2 <= index <= spawn_task.args.len() && ({
            ||| spawn_task.args@[index - 2]@ != "/S"@ && spawn_task.args@[index - 2]@ != "/s"@
            ||| spawn_task.args@[index - 1]@ != "/C"@ && spawn_task.args@[index - 1]@ != "/c"@
        }) ==> r.deep_view() == quoted.deep_view(),
{
    proof {
        let args = spawn_task.args.deep_view();
        if 2 <= index <= args.len() {
            assert(args[index - 2] == spawn_task.args@[index - 2]@);
            assert(args[index - 1] == spawn_task.args@[index - 1]@);
            lemma_switches(args[index - 2], args[index - 1]);
        }
    }
    if spawn_task.shell_kind == ShellKind::Cmd && index >= 2 && index <= spawn_task.args.len()
        && eq_ignore_ascii_case(spawn_task.args[index - 2].as_str(), "/S")
        && eq_ignore_ascii_case(spawn_task.args[index - 1].as_str(), "/C") {
        return quote_cmd_command_arg_for_outer_shell(arg, shell_kind, quoted);
    }
    quoted.clone()
}

/// The first `n` words for the arguments of a task; what has no word is left
/// out.
pub open spec fn task_words(
    task_shell_kind: ShellKind,
    args: Seq<Seq<char>>,
    n: nat,
    outer: ShellKind,
    quoted: Seq<Option<Seq<char>>>,
) -> Seq<Seq<char>>
    decreases n,
{
    if n == 0 {
        Seq::empty()
    } else {
        let i = n - 1;
        let before = task_words(task_shell_kind, args, i as nat, outer, quoted);
        match task_word(task_shell_kind, args, i, args[i], outer, quoted[i]) {
            Some(word) => before.push(word),
            None => before,
        }
    }
}

/// The command line that runs a task: its words with a space between them, or
/// a new login shell for a task without a command.
pub open spec fn task_command_line(
    spawn_task: SpawnInTerminal,
    outer: ShellKind,
    shell: Seq<char>,
    quoted: QuotedWords,
) -> Seq<char> {
    if spawn_task.command is Some {
        let command = match quoted.command {
            Some(command) => seq![command@],
            None => Seq::empty(),
        };
        joined(
            command + task_words(
                spawn_task.shell_kind,
                spawn_task.args.deep_view(),
                spawn_task.args.len() as nat,
                outer,
                quoted.args.deep_view(),
            ),
            " "@,
        )
    } else {
        "exec "@ + shell + " -l"@
    }
}

/// The command line that runs a task in the shell `shell` of the family
/// `shell_kind`, which quotes the task's words as `quoted`.
pub fn format_task_for_activation(
    spawn_task: &SpawnInTerminal,
    shell_kind: ShellKind,
    shell: &str,
    quoted: &QuotedWords,
) -> (r: String)
    requires
        quoted.args.len() == spawn_task.args.len(),
    ensures
        r@ == task_command_line(*spawn_task, shell_kind, shell@, *quoted),
{
    if spawn_task.command.is_none() {
        let mut line = "exec ".to_owned();
        line.append(shell);
        line.append(" -l");
        return line;
    }
    let mut words: Vec<String> = Vec::new();
    if let Some(command) = &quoted.command {
        words.push(command.clone());
    }
    let ghost command = words.deep_view();
    let ghost args = spawn_task.args.deep_view();
    let mut i: usize = 0;
    assert(command =~= command + task_words(
        spawn_task.shell_kind,
        args,
        0,
        shell_kind,
        quoted.args.deep_view(),
    ));
    while i < spawn_task.args.len()
        invariant
            i <= spawn_task.args.len(),
            quoted.args.len() == spawn_task.args.len(),
            args == spawn_task.args.deep_view(),
            words.deep_view() == command + task_words(
                spawn_task.shell_kind,
                args,
                i as nat,
                shell_kind,
                quoted.args.deep_view(),
            ),
        decreases spawn_task.args.len() - i,
    {
        let ghost before = words.deep_view();
        let word = quote_prepared_task_arg_for_activation(
            spawn_task,
            shell_kind,
            spawn_task.args[i].as_str(),
            i,
            &quoted.args[i],
        );
        if let Some(word) = word {
            words.push(word);
            assert(words.deep_view() =~= before.push(word@));
        }
        proof {
            let done = task_words(
                spawn_task.shell_kind,
                args,
                i as nat,
                shell_kind,
                quoted.args.deep_view(),
            );
            let next = task_words(
                spawn_task.shell_kind,
                args,
                (i + 1) as nat,
                shell_kind,
                quoted.args.deep_view(),
            );
            assert(words.deep_view() =~= command + next);
        }
        i = i + 1;
    }
    proof {
        if quoted.command is Some {
            assert(command =~= seq![quoted.command->0@]);
        } else {
            assert(command =~= Seq::empty());
        }
    }
    join_texts(&words, " ")
}

/// The commands of an activation script and behind them the command `to_run`,
/// with a separator between the commands.
pub open spec fn activated(
    script: Seq<Seq<char>>,
    separator: char,
    to_run: Seq<char>,
) -> Seq<char> {
    joined(script, seq![separator, ' ']) + seq![separator, ' '] + to_run
}

/// The commands of an activation script and behind them the command `to_run`,
/// with the separator that the shell has between commands.
pub fn activation_command_line(
    activation_script: &Vec<String>,
    separator: char,
    to_run: &str,
) -> (r: String)
    ensures
        r@ == activated(activation_script.deep_view(), separator, to_run@),
{
    let mut between = String::new();
    between.push(separator);
    between.push(' ');
    assert(between@ =~= seq![separator, ' ']);
    let mut line = join_texts(activation_script, between.as_str());
    line.append(between.as_str());
    line.append(to_run);
    line
}

/// The command line with which a shell activates a toolchain and then runs a
/// task, or none where there is nothing to activate.
pub open spec fn activated_task(
    script: Seq<Seq<char>>,
    separator: char,
    spawn_task: SpawnInTerminal,
    outer: ShellKind,
    shell: Seq<char>,
    quoted: QuotedWords,
) -> Option<Seq<char>> {
    if script.len() == 0 {
        None
    } else {
        Some(activated(script, separator, task_command_line(spawn_task, outer, shell, quoted)))
    }
}

/// The command line with which the shell `shell` of the family `shell_kind`
/// runs an activation script and then a task, or none for an empty script.
pub fn activated_task_line(
    activation_script: &Vec<String>,
    separator: char,
    spawn_task: &SpawnInTerminal,
    shell_kind: ShellKind,
    shell: &str,
    quoted: &QuotedWords,
) -> (r: Option<String>)
    requires
        quoted.args.len() == spawn_task.args.len(),
    ensures
        r.deep_view() == activated_task(
            activation_script.deep_view(),
            separator,
            *spawn_task,
            shell_kind,
            shell@,
            *quoted,
        ),
{
    if activation_script.len() == 0 {
        return None;
    }
    let to_run = format_task_for_activation(spawn_task, shell_kind, shell, quoted);
    Some(activation_command_line(activation_script, separator, to_run.as_str()))
}

/// The text that a PowerShell reads between single quotes: two quotes stand for
/// one.
pub open spec fn single_quoted_text(inner: Seq<char>) -> Seq<char>
    decreases inner.len(),
{
    let n = inner.len();
    if n >= 2 && inner[n - 1] == '\'' && inner[n - 2] == '\'' {
        single_quoted_text(inner.take(n - 2)).push('\'')
    } else if n > 0 {
        single_quoted_text(inner.drop_last()).push(inner.last())
    } else {
        Seq::empty()
    }
}

/// A PowerShell reads the word for a cmd command line as the command line.
pub proof fn powershell_reads_command_line_back(arg: Seq<char>, quoted: Option<Seq<char>>)
    ensures
        ({
            let word = cmd_command_word(arg, ShellKind::PowerShell, quoted)->0;
            &&& cmd_command_word(arg, ShellKind::PowerShell, quoted) is Some
            &&& cmd_command_word(arg, ShellKind::Pwsh, quoted) == Some(word)
            &&& word.len() >= 2
            &&& word.first() == '\''
            &&& word.last() == '\''
            &&& single_quoted_text(word.subrange(1, word.len() - 1)) == arg
        }),
{
    reveal_strlit("'");
    let word = cmd_command_word(arg, ShellKind::PowerShell, quoted)->0;
    let inner = replaced(arg, '\'', "''"@);
    assert(word.subrange(1, word.len() - 1) =~= inner);
    lemma_doubled_quotes_read_back(arg);
}

proof fn lemma_doubled_quotes_read_back(arg: Seq<char>)
    ensures
        single_quoted_text(replaced(arg, '\'', "''"@)) == arg,
    decreases arg.len(),
{
    reveal_strlit("''");
    if arg.len() > 0 {
        let rest = arg.drop_last();
        lemma_doubled_quotes_read_back(rest);
        let before = replaced(rest, '\'', "''"@);
        let whole = replaced(arg, '\'', "''"@);
        if arg.last() == '\'' {
            assert(whole.take(whole.len() - 2) =~= before);
        } else {
            assert(whole.drop_last() =~= before);
        }
        assert(arg =~= rest.push(arg.last()));
    }
}

/// The command line of a task that was prepared for cmd reaches an outer cmd
/// as it is, with no quotes added.
pub proof fn cmd_keeps_command_line(
    args: Seq<Seq<char>>,
    index: int,
    quoted: Option<Seq<char>>,
)
    requires
        is_cmd_command_line(ShellKind::Cmd, args, index),
        index < args.len(),
    ensures
        task_word(ShellKind::Cmd, args, index, args[index], ShellKind::Cmd, quoted) == Some(
            args[index],
        ),
{
}

/// Texts are `/S` and `/C` in any case if and only if they are spelled with
/// either letter.
proof fn lemma_switches(s: Seq<char>, c: Seq<char>)
    ensures
        ascii_lowered(s) == ascii_lowered("/S"@) <==> s == "/S"@ || s == "/s"@,
        ascii_lowered(c) == ascii_lowered("/C"@) <==> c == "/C"@ || c == "/c"@,
{
    reveal_strlit("/S");
    reveal_strlit("/s");
    reveal_strlit("/C");
    reveal_strlit("/c");
    lemma_switch(s, 'S', 's');
    lemma_switch(c, 'C', 'c');
    assert("/S"@ =~= seq!['/', 'S'] && "/s"@ =~= seq!['/', 's']);
    assert("/C"@ =~= seq!['/', 'C'] && "/c"@ =~= seq!['/', 'c']);
}

proof fn lemma_switch(text: Seq<char>, upper: char, lower: char)
    requires
        'A' <= upper && upper <= 'Z',
        lower as int == upper as int + 32,
    ensures
        ascii_lowered(text) == ascii_lowered(seq!['/', upper]) <==> text == seq!['/', upper] || text
            == seq!['/', lower],
{
    let wanted = seq!['/', upper];
    lowering_moves_capitals_only(text);
    lowering_moves_capitals_only(wanted);
    lowering_moves_capitals_only(seq!['/', lower]);
    assert(ascii_lowered(seq!['/', lower]) =~= ascii_lowered(wanted)) by {
        assert(seq!['/', lower][1] == lower && wanted[1] == upper);
        assert(seq!['/', lower][0] == '/' && wanted[0] == '/');
        assert(ascii_lowered(wanted)[1] as int == lower as int);
        assert(ascii_lowered(seq!['/', lower])[1] as int == lower as int);
    }
    if ascii_lowered(text) == ascii_lowered(wanted) {
        assert(text.len() == 2);
        assert(wanted[0] == '/' && wanted[1] == upper);
        assert(ascii_lowered(text)[0] == ascii_lowered(wanted)[0]);
        assert(ascii_lowered(text)[1] == ascii_lowered(wanted)[1]);
        assert(text[0] as int == '/' as int);
        assert(text[1] as int == upper as int || text[1] as int == lower as int);
        assert(text =~= seq!['/', text[1]]);
    }
}

/// An argument that is no command line for cmd is the word that the outer shell
/// quotes it as, in every family of shells. It is no such command line in a
/// task of another family, as one of the first two arguments, or unless `/S`
/// and `/C` stand before it in any case.
pub proof fn plain_argument_is_quoted_by_the_shell(
    task_shell_kind: ShellKind,
    args: Seq<Seq<char>>,
    index: int,
    arg: Seq<char>,
    outer: ShellKind,
    quoted: Option<Seq<char>>,
)
    requires
        0 <= index <= args.len(),
        ({
            ||| task_shell_kind != ShellKind::Cmd
            ||| index < 2
            ||| args[index - 2] != "/S"@ && args[index - 2] != "/s"@
            ||| args[index - 1] != "/C"@ && args[index - 1] != "/c"@
        }),
    ensures
        task_word(task_shell_kind, args, index, arg, outer, quoted) == quoted,
{
    lemma_switches(args[index - 2], args[index - 1]);
}

/// A command line for cmd is handed to cmd as it is, to a PowerShell between
/// single quotes with every single quote in it doubled, and to every other
/// shell as that quotes it.
pub proof fn cmd_command_line_is_quoted_once(
    args: Seq<Seq<char>>,
    index: int,
    arg: Seq<char>,
    outer: ShellKind,
    quoted: Option<Seq<char>>,
)
    requires
        2 <= index <= args.len(),
        args[index - 2] == "/S"@ || args[index - 2] == "/s"@,
        args[index - 1] == "/C"@ || args[index - 1] == "/c"@,
    ensures
        ({
            let word = task_word(ShellKind::Cmd, args, index, arg, outer, quoted);
            &&& outer == ShellKind::Cmd ==> word == Some(arg)
            &&& outer == ShellKind::PowerShell || outer == ShellKind::Pwsh ==> word == Some(
                "'"@ + replaced(arg, '\'', "''"@) + "'"@,
            )
            &&& outer != ShellKind::Cmd && outer != ShellKind::PowerShell && outer
                != ShellKind::Pwsh ==> word == quoted
        }),
{
    lemma_switches(args[index - 2], args[index - 1]);
}

/// The words for the arguments of a task are those of the arguments one by one
/// and in order; an argument without a word is left out.
pub proof fn arguments_become_words_in_order(
    task_shell_kind: ShellKind,
    args: Seq<Seq<char>>,
    n: nat,
    outer: ShellKind,
    quoted: Seq<Option<Seq<char>>>,
)
    ensures
        task_words(task_shell_kind, args, n, outer, quoted) == Seq::new(
            n,
            |i: int| task_word(task_shell_kind, args, i, args[i], outer, quoted[i]),
        ).filter(|word: Option<Seq<char>>| word is Some).map_values(
            |word: Option<Seq<char>>| word->0,
        ),
    decreases n,
{
    let all = Seq::new(
        n,
        |i: int| task_word(task_shell_kind, args, i, args[i], outer, quoted[i]),
    );
    let given = |word: Option<Seq<char>>| word is Some;
    let text = |word: Option<Seq<char>>| word->0;
    reveal(Seq::filter);
    if n > 0 {
        let m = (n - 1) as nat;
        let rest = Seq::new(
            m,
            |i: int| task_word(task_shell_kind, args, i, args[i], outer, quoted[i]),
        );
        arguments_become_words_in_order(task_shell_kind, args, m, outer, quoted);
        assert(all.drop_last() =~= rest);
        if all.last() is Some {
            assert(rest.filter(given).push(all.last()).map_values(text) =~= rest.filter(
                given,
            ).map_values(text).push(all.last()->0));
        }
    } else {
        assert(all.filter(given).map_values(text) =~= Seq::empty());
    }
}

/// In a task that was not prepared for cmd, the words for the arguments are the
/// arguments as the outer shell quotes them, in order and without those that it
/// cannot quote, in every family of shells.
pub proof fn words_are_the_quoted_arguments(
    task_shell_kind: ShellKind,
    args: Seq<Seq<char>>,
    outer: ShellKind,
    quoted: Seq<Option<Seq<char>>>,
)
    requires
        task_shell_kind != ShellKind::Cmd,
        quoted.len() == args.len(),
    ensures
        task_words(task_shell_kind, args, args.len(), outer, quoted) == quoted.filter(
            |word: Option<Seq<char>>| word is Some,
        ).map_values(|word: Option<Seq<char>>| word->0),
{
    arguments_become_words_in_order(task_shell_kind, args, args.len(), outer, quoted);
    let all = Seq::new(
        args.len(),
        |i: int| task_word(task_shell_kind, args, i, args[i], outer, quoted[i]),
    );
    assert forall|i: int| 0 <= i < args.len() implies all[i] == quoted[i] by {
        plain_argument_is_quoted_by_the_shell(
            task_shell_kind,
            args,
            i,
            args[i],
            outer,
            quoted[i],
        );
    }
    assert(all =~= quoted);
}

/// The command line of a task is its quoted command, then the words for its
/// arguments, with one space between them. A command that the shell cannot
/// quote is left out.
pub proof fn command_line_starts_with_the_command(
    spawn_task: SpawnInTerminal,
    outer: ShellKind,
    shell: Seq<char>,
    quoted: QuotedWords,
)
    requires
        spawn_task.command is Some,
    ensures
        ({
            let line = task_command_line(spawn_task, outer, shell, quoted);
            let words = task_words(
                spawn_task.shell_kind,
                spawn_task.args.deep_view(),
                spawn_task.args.len() as nat,
                outer,
                quoted.args.deep_view(),
            );
            &&& quoted.command is Some && words.len() == 0 ==> line == quoted.command->0@
            &&& quoted.command is Some && words.len() > 0 ==> line == quoted.command->0@ + seq![' ']
                + joined(words, seq![' '])
            &&& quoted.command is None ==> line == joined(words, seq![' '])
        }),
{
    reveal_strlit(" ");
    assert(" "@ =~= seq![' ']);
    let words = task_words(
        spawn_task.shell_kind,
        spawn_task.args.deep_view(),
        spawn_task.args.len() as nat,
        outer,
        quoted.args.deep_view(),
    );
    if quoted.command is Some {
        let command = seq![quoted.command->0@];
        few_texts_are_joined(quoted.command->0@, seq![' ']);
        if words.len() > 0 {
            joined_lists_are_separated(command, words, seq![' ']);
        } else {
            assert(command + words =~= command);
        }
    } else {
        assert(Seq::<Seq<char>>::empty() + words =~= words);
    }
}

/// A task without a command becomes a new login shell.
pub proof fn task_without_command_is_a_login_shell(
    spawn_task: SpawnInTerminal,
    outer: ShellKind,
    shell: Seq<char>,
    quoted: QuotedWords,
)
    requires
        spawn_task.command is None,
    ensures
        task_command_line(spawn_task, outer, shell, quoted) == "exec "@ + shell + " -l"@,
{
}

/// The activation and the task are commands of one line, the task the last of
/// them, with the separator and a space between them. Without an activation
/// there is no such line.
pub proof fn task_runs_behind_the_activation(
    script: Seq<Seq<char>>,
    separator: char,
    spawn_task: SpawnInTerminal,
    outer: ShellKind,
    shell: Seq<char>,
    quoted: QuotedWords,
)
    ensures
        ({
            let line = activated_task(script, separator, spawn_task, outer, shell, quoted);
            &&& line is None <==> script.len() == 0
            &&& line is Some ==> line->0 == joined(
                script.push(task_command_line(spawn_task, outer, shell, quoted)),
                seq![separator, ' '],
            )
        }),
{
    let to_run = task_command_line(spawn_task, outer, shell, quoted);
    if script.len() > 0 {
        few_texts_are_joined(to_run, seq![separator, ' ']);
        joined_lists_are_separated(script, seq![to_run], seq![separator, ' ']);
        assert(script + seq![to_run] =~= script.push(to_run));
    }
}

/// A command behind an activation script is one more command of the script.
pub proof fn activated_command_comes_last(
    script: Seq<Seq<char>>,
    separator: char,
    to_run: Seq<char>,
)
    requires
        script.len() > 0,
    ensures
        activated(script, separator, to_run) == joined(
            script.push(to_run),
            seq![separator, ' '],
        ),
{
    few_texts_are_joined(to_run, seq![separator, ' ']);
    joined_lists_are_separated(script, seq![to_run], seq![separator, ' ']);
    assert(script + seq![to_run] =~= script.push(to_run));
}

/// The view of a shell tells all that it holds.
pub proof fn shell_view_is_complete(
    program: String,
    args: Vec<String>,
    title_override: Option<String>,
)
    ensures
        Shell::System@ is System,
        Shell::Program(program)@ == ShellView::Program(program@),
        ({
            let view = (Shell::WithArguments { program, args, title_override })@;
            &&& view is WithArguments
            &&& view->program == program@
            &&& view->args.len() == args.len()
            &&& forall|i: int| 0 <= i < args.len() ==> view->args[i] == (#[trigger] args@[i])@
            &&& view->title_override is Some <==> title_override is Some
            &&& title_override is Some ==> view->title_override->0 == title_override->0@
        }),
{
}

} // verus!
