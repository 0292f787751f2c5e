use pipec::options::{Options, PrintOnExit};
use pipec::pipeline::shell_arguments;
use pipec::text::{clean_command, join_commands};

fn options(shell: Option<&[u8]>) -> Options {
    Options {
        commands: Vec::new(),
        parse_commands: false,
        execute_on_start: false,
        syntax_highlight: false,
        print_on_exit: PrintOnExit::Nothing,
        shell: shell.map(|s| s.to_vec()),
        pager: Some(b"most".to_vec()),
        editor: None,
    }
}

#[test]
fn commands_are_joined_with_bars() {
    let commands: Vec<String> = ["ls -l", "grep .toml", "wc"].iter().map(|c| c.to_string()).collect();
    assert_eq!(join_commands(&commands), "ls -l | grep .toml | wc");
    assert_eq!(join_commands(&commands[..1].to_vec()), "ls -l");
    assert_eq!(join_commands(&Vec::new()), "");
}

#[test]
fn edited_commands_become_one_line() {
    assert_eq!(clean_command("  \n echo a\nb \u{3000}\n"), "echo a b");
    assert_eq!(clean_command("\t\r\n "), "");
    assert_eq!(clean_command("a\r\nb"), "a\r b");
}

#[test]
fn shell_comes_from_settings_then_environment_then_default() {
    let zsh = b"/bin/zsh".to_vec();
    assert_eq!(options(Some(b"fish")).resolve_shell(Some(zsh.clone())), b"fish".to_vec());
    assert_eq!(options(None).resolve_shell(Some(zsh.clone())), zsh);
    assert_eq!(options(None).resolve_shell(None), b"/bin/sh".to_vec());
}

#[test]
fn pager_and_editor_are_found_like_the_shell() {
    let given = b"more".to_vec();
    let mut settings = options(None);
    assert_eq!(settings.resolve_pager(Some(given.clone())), b"most".to_vec());
    settings.pager = None;
    assert_eq!(settings.resolve_pager(Some(given.clone())), given);
    assert_eq!(settings.resolve_pager(None), b"less".to_vec());
    assert_eq!(settings.resolve_editor(Some(b"ed".to_vec())), b"ed".to_vec());
    assert_eq!(settings.resolve_editor(None), b"vi".to_vec());
    settings.editor = Some(b"nano".to_vec());
    assert_eq!(settings.resolve_editor(Some(b"ed".to_vec())), b"nano".to_vec());
}

#[test]
fn shells_get_the_command_behind_their_flag() {
    assert_eq!(shell_arguments("echo a", false), vec!["-c".to_string(), "echo a".to_string()]);
    assert_eq!(shell_arguments("echo a", true), vec!["/C".to_string(), "echo a".to_string()]);
}
