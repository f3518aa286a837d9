//! Log levels and the text of a terminal log line.
use vstd::prelude::*;
use crate::text::{chars_of, string_of_all};

verus! {

/// The severity or kind of a log message.
#[derive(Debug, PartialEq, Eq, Structural, Copy, Clone)]
pub enum LogLevel {
    /// A background success event or system confirmation.
    SuccessEvent,
    /// General information.
    Info,
    /// A non-fatal issue.
    Warning,
    /// A critical or fatal error.
    Error,
    /// An error caused by invalid user input.
    UserError,
    /// The success of a user action.
    UserSuccess,
}

/// The name a log line shows for a level.
pub open spec fn level_name(l: LogLevel) -> Seq<char> {
    match l {
        LogLevel::SuccessEvent => "Success"@,
        LogLevel::Info => "INFO"@,
        LogLevel::Warning => "WARN"@,
        LogLevel::Error => "ERROR"@,
        LogLevel::UserError => "USER ERROR"@,
        LogLevel::UserSuccess => "USER success"@,
    }
}

/// The terminal escape sequence that colors a line of this level: system
/// messages get a background color, user messages a foreground color.
pub open spec fn level_color(l: LogLevel) -> Seq<char> {
    match l {
        LogLevel::SuccessEvent => "\x1B[42m\x1B[30m"@,
        LogLevel::Info => "\x1B[44m\x1B[30m"@,
        LogLevel::Warning => "\x1B[43m\x1B[30m"@,
        LogLevel::Error => "\x1B[41m\x1B[30m"@,
        LogLevel::UserError => "\x1B[35m"@,
        LogLevel::UserSuccess => "\x1B[32m"@,
    }
}

/// Whether the level is a system message (shown on a colored background).
pub open spec fn is_system_level(l: LogLevel) -> bool {
    l is SuccessEvent || l is Info || l is Warning || l is Error
}

impl LogLevel {
    /// The level's displayed name.
    pub fn name(&self) -> (r: &'static str)
        ensures
            r@ == level_name(*self),
    {
        proof {
            reveal_strlit("Success");
            reveal_strlit("INFO");
            reveal_strlit("WARN");
            reveal_strlit("ERROR");
            reveal_strlit("USER ERROR");
            reveal_strlit("USER success");
        }
        match self {
            LogLevel::SuccessEvent => "Success",
            LogLevel::Info => "INFO",
            LogLevel::Warning => "WARN",
            LogLevel::Error => "ERROR",
            LogLevel::UserError => "USER ERROR",
            LogLevel::UserSuccess => "USER success",
        }
    }

    /// The escape sequence that colors a terminal line of this level.
    pub fn color(&self) -> (r: &'static str)
        ensures
            r@ == level_color(*self),
    {
        match self {
            LogLevel::SuccessEvent => "\x1B[42m\x1B[30m",
            LogLevel::Info => "\x1B[44m\x1B[30m",
            LogLevel::Warning => "\x1B[43m\x1B[30m",
            LogLevel::Error => "\x1B[41m\x1B[30m",
            LogLevel::UserError => "\x1B[35m",
            LogLevel::UserSuccess => "\x1B[32m",
        }
    }
}

/// `n` copies of `c`.
pub open spec fn repeat(c: char, n: nat) -> Seq<char> {
    Seq::new(n, |i: int| c)
}

/// `s` centered in `width` characters with `fill` (as `{:-^12}` does):
/// the shorter half of the padding goes left.
pub open spec fn centered(s: Seq<char>, width: nat, fill: char) -> Seq<char> {
    if s.len() >= width {
        s
    } else {
        let pad = (width - s.len()) as nat;
        repeat(fill, pad / 2) + s + repeat(fill, ((pad + 1) / 2) as nat)
    }
}

/// `s` padded on the right with spaces to `width` characters.
pub open spec fn left_aligned(s: Seq<char>, width: nat) -> Seq<char> {
    if s.len() >= width { s } else { s + repeat(' ', (width - s.len()) as nat) }
}

/// The text of a terminal log line: `(time) [--LEVEL---] text`, colored;
/// a system message is padded to the terminal `width`.
pub open spec fn terminal_line(level: LogLevel, time: Seq<char>, text: Seq<char>, width: nat) -> Seq<char> {
    let raw = raw_line(level, time, text);
    if is_system_level(level) {
        level_color(level) + " "@ + left_aligned(raw, width) + " \x1B[0m"@
    } else {
        level_color(level) + " "@ + raw + " \x1B[0m"@
    }
}

fn push_repeat(out: &mut Vec<char>, c: char, n: usize)
    ensures
        final(out)@ == old(out)@ + repeat(c, n as nat),
{
    let mut i: usize = 0;
    while i < n
        invariant
            i <= n,
            out@ == old(out)@ + repeat(c, i as nat),
        decreases n - i,
    {
        out.push(c);
        i = i + 1;
        assert(out@ =~= old(out)@ + repeat(c, i as nat));
    }
}

fn push_str(out: &mut Vec<char>, s: &str)
    ensures
        final(out)@ == old(out)@ + s@,
{
    let v = chars_of(s);
    let mut i: usize = 0;
    while i < v.len()
        invariant
            v@ == s@,
            i <= v@.len(),
            out@ == old(out)@ + v@.take(i as int),
        decreases v.len() - i,
    {
        out.push(v[i]);
        i = i + 1;
        assert(out@ =~= old(out)@ + v@.take(i as int));
    }
    assert(v@.take(v@.len() as int) =~= v@);
}

/// The uncolored text of a log line: `(time) [--LEVEL---] text`.
pub open spec fn raw_line(level: LogLevel, time: Seq<char>, text: Seq<char>) -> Seq<char> {
    "("@ + time + ") ["@ + centered(level_name(level), 12, '-') + "] "@ + text
}

fn raw_chars(level: LogLevel, time: &str, text: &str) -> (r: Vec<char>)
    ensures
        r@ == raw_line(level, time@, text@),
{
    proof {
        reveal_strlit("(");
        reveal_strlit(") [");
        reveal_strlit("] ");
    }
    let mut raw: Vec<char> = Vec::new();
    push_str(&mut raw, "(");
    push_str(&mut raw, time);
    push_str(&mut raw, ") [");
    let name = level.name();
    let name_len = chars_of(name).len();
    let ghost before_name = raw@;
    if name_len >= 12 {
        push_str(&mut raw, name);
    } else {
        let pad = 12 - name_len;
        push_repeat(&mut raw, '-', pad / 2);
        push_str(&mut raw, name);
        push_repeat(&mut raw, '-', (pad + 1) / 2);
    }
    assert(raw@ =~= before_name + centered(level_name(level), 12, '-'));
    push_str(&mut raw, "] ");
    push_str(&mut raw, text);
    assert(raw@ =~= "("@ + time@ + ") ["@ + centered(level_name(level), 12, '-') + "] "@ + text@);
    raw
}

/// The line a log file gets for a message: the uncolored line and a newline.
pub fn file_line(level: LogLevel, time: &str, text: &str) -> (r: String)
    ensures
        r@ == raw_line(level, time@, text@).push('\n'),
{
    let mut raw = raw_chars(level, time, text);
    raw.push('\n');
    string_of_all(&raw)
}

/// A sink that prints log lines to the terminal, restoring a command prompt
/// after each line when one is set.
pub struct TerminalSink {
    /// The prompt to print again after a log line.
    pub cli_prompt: Option<String>,
}

impl TerminalSink {
    /// The line this sink prints for a message, or `None` when the message is
    /// a debug message that is hidden (`show_debug` false).
    pub fn line_for(&self, level: LogLevel, time: &str, text: &str, width: usize, is_debug: bool, show_debug: bool)
        -> (r: Option<String>)
        ensures
            is_debug && !show_debug ==> r is None,
            !(is_debug && !show_debug) ==> (r matches Some(l) && l@ == terminal_line(level, time@, text@, width as nat)),
    {
        if is_debug && !show_debug {
            return None;
        }
        let raw = raw_chars(level, time, text);
        proof {
            reveal_strlit(" ");
            reveal_strlit(" \x1B[0m");
        }
        let mut line: Vec<char> = Vec::new();
        push_str(&mut line, level.color());
        push_str(&mut line, " ");
        let system = match level {
            LogLevel::SuccessEvent | LogLevel::Info | LogLevel::Warning | LogLevel::Error => true,
            _ => false,
        };
        let ghost before_raw = line@;
        let mut i: usize = 0;
        while i < raw.len()
            invariant
                i <= raw@.len(),
                line@ == before_raw + raw@.take(i as int),
            decreases raw.len() - i,
        {
            line.push(raw[i]);
            i = i + 1;
            assert(line@ =~= before_raw + raw@.take(i as int));
        }
        assert(raw@.take(raw@.len() as int) =~= raw@);
        if system && raw.len() < width {
            push_repeat(&mut line, ' ', width - raw.len());
        }
        push_str(&mut line, " \x1B[0m");
        Some(string_of_all(&line))
    }
}

} // verus!
