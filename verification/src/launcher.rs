//! The text of the command that runs a program in a terminal window of its
//! own: the shell command line with quoted arguments, the window title, the
//! terminals tried, and the arguments each terminal takes.
use vstd::prelude::*;
use crate::text::{chars_of, join, string_of_all, str_eq};

verus! {

/// `s` with every single quote written as `'\''`, the shell's way of putting a
/// quote inside a single-quoted word.
pub open spec fn escape_quotes(s: Seq<char>) -> Seq<char>
    decreases s.len(),
{
    if s.len() == 0 {
        Seq::empty()
    } else if s.last() == '\'' {
        escape_quotes(s.drop_last()) + seq!['\'', '\\', '\'', '\'']
    } else {
        escape_quotes(s.drop_last()).push(s.last())
    }
}

/// `s` as one single-quoted shell word.
pub open spec fn shell_quoted(s: Seq<char>) -> Seq<char> {
    seq!['\''] + escape_quotes(s) + seq!['\'']
}

/// The arguments as shell words, separated by single spaces.
pub open spec fn quoted_args(args: Seq<Seq<char>>) -> Seq<char>
    decreases args.len(),
{
    if args.len() == 0 {
        Seq::empty()
    } else if args.len() == 1 {
        shell_quoted(args[0])
    } else {
        quoted_args(args.drop_last()) + seq![' '] + shell_quoted(args.last())
    }
}

/// The shell command that changes to `cwd`, runs `exe` with `args`, and then
/// waits for Enter, naming the program `bin` in the prompt.
pub open spec fn console_command(bin: Seq<char>, exe: Seq<char>, cwd: Seq<char>, args: Seq<Seq<char>>) -> Seq<char> {
    let run = "cd '"@ + cwd + "' && '"@ + exe + "'"@;
    let run = if args.len() == 0 { run } else { run + " "@ + quoted_args(args) };
    run + "; echo ''; read -p '"@ + bin + " terminated. Press Enter to close...' -r"@
}

/// `s` as one single-quoted shell word; see [`shell_quoted`].
pub fn shell_quote(s: &str) -> (r: String)
    ensures
        r@ == shell_quoted(s@),
{
    let v = chars_of(s);
    let mut out: Vec<char> = Vec::new();
    out.push('\'');
    let mut i: usize = 0;
    while i < v.len()
        invariant
            i <= v@.len(),
            v@ == s@,
            out@ == seq!['\''] + escape_quotes(v@.take(i as int)),
        decreases v.len() - i,
    {
        let c = v[i];
        proof {
            assert(v@.take(i as int + 1).drop_last() =~= v@.take(i as int));
            assert(v@.take(i as int + 1).last() == c);
        }
        let ghost before = out@;
        if c == '\'' {
            out.push('\'');
            out.push('\\');
            out.push('\'');
            out.push('\'');
            assert(out@ =~= before + seq!['\'', '\\', '\'', '\'']);
        } else {
            out.push(c);
        }
        i = i + 1;
    }
    assert(v@.take(v@.len() as int) =~= v@);
    out.push('\'');
    string_of_all(&out)
}

/// The command that runs `exe` in `cwd` with `args` in a terminal and keeps
/// the window open afterwards; see [`console_command`].
pub fn linux_console_command(bin_name: &str, exe: &str, cwd: &str, args: &Vec<String>) -> (r: String)
    ensures
        r@ == console_command(bin_name@, exe@, cwd@, args@.map_values(|a: String| a@)),
{
    let ghost words = args@.map_values(|a: String| a@);
    let mut run = join(join(join(join("cd '".to_owned(), cwd), "' && '"), exe), "'");
    if args.len() > 0 {
        let mut quoted = shell_quote(args[0].as_str());
        let mut i: usize = 1;
        assert(words.take(1) =~= seq![words[0]]);
        while i < args.len()
            invariant
                1 <= i <= args@.len(),
                words == args@.map_values(|a: String| a@),
                quoted@ == quoted_args(words.take(i as int)),
            decreases args.len() - i,
        {
            assert(words.take(i as int + 1).drop_last() =~= words.take(i as int));
            assert(words.take(i as int + 1).last() == args@[i as int]@);
            let next = shell_quote(args[i].as_str());
            proof {
                reveal_strlit(" ");
                assert(" "@ =~= seq![' ']);
            }
            quoted = join(join(quoted, " "), next.as_str());
            i = i + 1;
        }
        assert(words.take(args@.len() as int) =~= words);
        run = join(join(run, " "), quoted.as_str());
    }
    join(join(join(run, "; echo ''; read -p '"), bin_name), " terminated. Press Enter to close...' -r")
}

/// What [`str::to_uppercase`] gives for `s`.
pub uninterp spec fn uppercased(s: Seq<char>) -> Seq<char>;

/// `str::to_uppercase`: the result depends on the text alone; the Unicode
/// case mapping itself is not stated.
#[verifier::external_body]
fn to_upper(s: &str) -> (r: String)
    ensures
        r@ == uppercased(s@),
{
    s.to_uppercase()
}

/// The title of the terminal window of the program `bin_name`.
pub fn console_title(bin_name: &str) -> (r: String)
    ensures
        r@ == "REKTAL "@ + uppercased(bin_name@),
{
    let upper = to_upper(bin_name);
    join("REKTAL ".to_owned(), upper.as_str())
}

/// The terminals to try, in order: the user's choice, if any, then the
/// common ones.
pub open spec fn terminal_candidates_of(user_terminal: Option<Seq<char>>) -> Seq<Seq<char>> {
    let common = seq!["xdg-terminal-exec"@, "x-terminal-emulator"@, "gnome-terminal"@, "konsole"@, "xterm"@];
    match user_terminal {
        Some(t) => seq![t] + common,
        None => common,
    }
}

pub open spec fn text_option(o: Option<String>) -> Option<Seq<char>> {
    match o {
        Some(t) => Some(t@),
        None => None,
    }
}

/// The terminals to try; see [`terminal_candidates_of`].
pub fn terminal_candidates(user_terminal: Option<String>) -> (r: Vec<String>)
    ensures
        r@.map_values(|s: String| s@) == terminal_candidates_of(text_option(user_terminal)),
{
    let ghost user = text_option(user_terminal);
    let mut out: Vec<String> = Vec::new();
    if let Some(t) = user_terminal {
        out.push(t);
    }
    out.push("xdg-terminal-exec".to_owned());
    out.push("x-terminal-emulator".to_owned());
    out.push("gnome-terminal".to_owned());
    out.push("konsole".to_owned());
    out.push("xterm".to_owned());
    assert(out@.map_values(|s: String| s@) =~= terminal_candidates_of(user));
    out
}

/// The arguments that make the terminal `term` run `cmd` with bash, titled
/// `title` where the terminal takes a title.
pub open spec fn terminal_args(term: Seq<char>, title: Seq<char>, cmd: Seq<char>) -> Seq<Seq<char>> {
    if term == "xdg-terminal-exec"@ {
        seq!["bash"@, "-c"@, cmd]
    } else if term == "gnome-terminal"@ {
        seq!["--title"@, title, "--"@, "bash"@, "-c"@, cmd]
    } else if term == "konsole"@ {
        seq!["-p"@, "tabtitle="@ + title, "-e"@, "bash"@, "-c"@, cmd]
    } else {
        seq!["-e"@, "bash"@, "-c"@, cmd]
    }
}

/// The arguments of the terminal `term`; see [`terminal_args`].
pub fn terminal_arguments(term: &str, title: &str, cmd: &str) -> (r: Vec<String>)
    ensures
        r@.map_values(|s: String| s@) == terminal_args(term@, title@, cmd@),
{
    let mut out: Vec<String> = Vec::new();
    if str_eq(term, "xdg-terminal-exec") {
        out.push("bash".to_owned());
        out.push("-c".to_owned());
        out.push(cmd.to_owned());
    } else if str_eq(term, "gnome-terminal") {
        out.push("--title".to_owned());
        out.push(title.to_owned());
        out.push("--".to_owned());
        out.push("bash".to_owned());
        out.push("-c".to_owned());
        out.push(cmd.to_owned());
    } else if str_eq(term, "konsole") {
        out.push("-p".to_owned());
        out.push(join("tabtitle=".to_owned(), title));
        out.push("-e".to_owned());
        out.push("bash".to_owned());
        out.push("-c".to_owned());
        out.push(cmd.to_owned());
    } else {
        out.push("-e".to_owned());
        out.push("bash".to_owned());
        out.push("-c".to_owned());
        out.push(cmd.to_owned());
    }
    assert(out@.map_values(|s: String| s@) =~= terminal_args(term@, title@, cmd@));
    out
}

/// Law: `xdg-terminal-exec` runs `bash -c cmd` directly, `gnome-terminal` and
/// `konsole` are given the title and then the command, and every other
/// terminal is given exactly `-e bash -c cmd`.
pub proof fn law_terminal_arguments(term: Seq<char>, title: Seq<char>, cmd: Seq<char>)
    ensures
        term == "xdg-terminal-exec"@ ==> terminal_args(term, title, cmd) == seq!["bash"@, "-c"@, cmd],
        term == "gnome-terminal"@ ==> terminal_args(term, title, cmd)
            == seq!["--title"@, title, "--"@, "bash"@, "-c"@, cmd],
        term == "konsole"@ ==> terminal_args(term, title, cmd)
            == seq!["-p"@, "tabtitle="@ + title, "-e"@, "bash"@, "-c"@, cmd],
        term != "xdg-terminal-exec"@ && term != "gnome-terminal"@ && term != "konsole"@
            ==> terminal_args(term, title, cmd) == seq!["-e"@, "bash"@, "-c"@, cmd],
{
    reveal_strlit("xdg-terminal-exec");
    reveal_strlit("gnome-terminal");
    reveal_strlit("konsole");
    assert("gnome-terminal"@.len() != "xdg-terminal-exec"@.len());
    assert("konsole"@.len() != "xdg-terminal-exec"@.len());
    assert("konsole"@.len() != "gnome-terminal"@.len());
}

/// Law: the user's own terminal, where one is named, is tried first; after it
/// come `xdg-terminal-exec`, `x-terminal-emulator`, `gnome-terminal`, `konsole`
/// and `xterm`, in that order, and nothing else.
pub proof fn law_terminal_candidates(user_terminal: Option<Seq<char>>)
    ensures
        ({
            let c = terminal_candidates_of(user_terminal);
            let k: int = if user_terminal is Some { 1 } else { 0 };
            &&& c.len() == k + 5
            &&& (user_terminal matches Some(t) ==> c[0] == t)
            &&& c[k] == "xdg-terminal-exec"@
            &&& c[k + 1] == "x-terminal-emulator"@
            &&& c[k + 2] == "gnome-terminal"@
            &&& c[k + 3] == "konsole"@
            &&& c[k + 4] == "xterm"@
        }),
{
}

} // verus!
