use rektal::launcher::{console_title, linux_console_command, shell_quote, terminal_arguments, terminal_candidates};

#[test]
fn quotes_are_escaped_inside_single_quotes() {
    assert_eq!(shell_quote("plain"), "'plain'");
    assert_eq!(shell_quote("it's"), "'it'\\''s'");
    assert_eq!(shell_quote(""), "''");
}

#[test]
fn console_command_without_arguments() {
    let cmd = linux_console_command("kernel", "/opt/rektal/kernel", "/opt/rektal", &Vec::new());
    assert_eq!(cmd, "cd '/opt/rektal' && '/opt/rektal/kernel'; echo ''; read -p 'kernel terminated. Press Enter to close...' -r");
}

#[test]
fn console_command_with_arguments() {
    let args = vec!["--port".to_string(), "a b".to_string(), "c'd".to_string()];
    let cmd = linux_console_command("gui", "/bin/gui", "/tmp", &args);
    assert_eq!(cmd, "cd '/tmp' && '/bin/gui' '--port' 'a b' 'c'\\''d'; echo ''; read -p 'gui terminated. Press Enter to close...' -r");
}

#[test]
fn window_title_is_upper_case() {
    assert_eq!(console_title("kernel"), "REKTAL KERNEL");
}

#[test]
fn terminals_tried_in_order() {
    let with_user = terminal_candidates(Some("alacritty".to_string()));
    assert_eq!(with_user, vec!["alacritty", "xdg-terminal-exec", "x-terminal-emulator", "gnome-terminal", "konsole", "xterm"]);
    let without = terminal_candidates(None);
    assert_eq!(without, vec!["xdg-terminal-exec", "x-terminal-emulator", "gnome-terminal", "konsole", "xterm"]);
}

#[test]
fn arguments_per_terminal() {
    assert_eq!(terminal_arguments("xdg-terminal-exec", "T", "x"), vec!["bash", "-c", "x"]);
    assert_eq!(terminal_arguments("gnome-terminal", "T", "x"), vec!["--title", "T", "--", "bash", "-c", "x"]);
    assert_eq!(terminal_arguments("konsole", "T", "x"), vec!["-p", "tabtitle=T", "-e", "bash", "-c", "x"]);
    assert_eq!(terminal_arguments("xterm", "T", "x"), vec!["-e", "bash", "-c", "x"]);
}
