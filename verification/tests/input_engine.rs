use rsh::completion::CompletionEnv;
use rsh::config::{AliasEntry, Config};
use rsh::shell::{CommandAction, KeyEvent, KeyOutcome, RedrawHint, Shell};

fn plain_config() -> Config {
    Config {
        prompt: "$ ".to_string(),
        history_size: 100,
        enable_colors: false,
        aliases: Vec::new(),
    }
}

fn empty_env() -> CompletionEnv {
    CompletionEnv {
        home: None,
        path_commands: Vec::new(),
        dirs: Vec::new(),
    }
}

fn type_line(shell: &mut Shell, env: &CompletionEnv, line: &str) {
    for c in line.chars() {
        shell.handle_key(KeyEvent::Char(c), env);
    }
}

#[test]
fn typing_inserts_at_cursor() {
    let mut shell = Shell::new(plain_config());
    let env = empty_env();
    type_line(&mut shell, &env, "eco");
    shell.handle_key(KeyEvent::Left, &env);
    shell.handle_key(KeyEvent::Char('h'), &env);
    assert_eq!(shell.current_input, "echo".to_string());
    assert_eq!(shell.cursor_pos, 3);
}

#[test]
fn backspace_removes_before_cursor() {
    let mut shell = Shell::new(plain_config());
    let env = empty_env();
    type_line(&mut shell, &env, "ab");
    let r = shell.handle_key(KeyEvent::Backspace, &env);
    assert!(matches!(r, KeyOutcome::Continue(RedrawHint::FullLine)));
    assert_eq!(shell.current_input, "a".to_string());
    assert_eq!(shell.cursor_pos, 1);
    shell.handle_key(KeyEvent::Backspace, &env);
    let r = shell.handle_key(KeyEvent::Backspace, &env);
    assert!(matches!(r, KeyOutcome::Continue(RedrawHint::NoChange)));
    assert_eq!(shell.current_input, "".to_string());
}

#[test]
fn delete_removes_at_cursor() {
    let mut shell = Shell::new(plain_config());
    let env = empty_env();
    type_line(&mut shell, &env, "abc");
    shell.handle_key(KeyEvent::Home, &env);
    let r = shell.handle_key(KeyEvent::Delete, &env);
    assert!(matches!(r, KeyOutcome::Continue(RedrawHint::FullLine)));
    assert_eq!(shell.current_input, "bc".to_string());
    assert_eq!(shell.cursor_pos, 0);
    shell.handle_key(KeyEvent::End, &env);
    let r = shell.handle_key(KeyEvent::Delete, &env);
    assert!(matches!(r, KeyOutcome::Continue(RedrawHint::NoChange)));
    assert_eq!(shell.current_input, "bc".to_string());
}

#[test]
fn arrows_respect_bounds() {
    let mut shell = Shell::new(plain_config());
    let env = empty_env();
    type_line(&mut shell, &env, "hi");
    let r = shell.handle_key(KeyEvent::Right, &env);
    assert!(matches!(r, KeyOutcome::Continue(RedrawHint::NoChange)));
    shell.handle_key(KeyEvent::Left, &env);
    shell.handle_key(KeyEvent::Left, &env);
    let r = shell.handle_key(KeyEvent::Left, &env);
    assert!(matches!(r, KeyOutcome::Continue(RedrawHint::NoChange)));
    assert_eq!(shell.cursor_pos, 0);
    let r = shell.handle_key(KeyEvent::Right, &env);
    assert!(matches!(r, KeyOutcome::Continue(RedrawHint::CursorOnly)));
    assert_eq!(shell.cursor_pos, 1);
}

#[test]
fn enter_emits_buffer_unchanged() {
    let mut shell = Shell::new(plain_config());
    let env = empty_env();
    type_line(&mut shell, &env, "pwd");
    let r = shell.handle_key(KeyEvent::Enter, &env);
    match r {
        KeyOutcome::CommandReady(cmd) => assert_eq!(cmd, "pwd".to_string()),
        _ => panic!("expected a finished command"),
    }
    assert_eq!(shell.current_input, "pwd".to_string());
}

#[test]
fn interrupt_always_exits() {
    let mut shell = Shell::new(plain_config());
    let env = empty_env();
    type_line(&mut shell, &env, "half a line");
    let r = shell.handle_key(KeyEvent::CtrlC, &env);
    assert!(matches!(r, KeyOutcome::Exit));
}

#[test]
fn end_of_input_exits_only_on_empty_buffer() {
    let mut shell = Shell::new(plain_config());
    let env = empty_env();
    let r = shell.handle_key(KeyEvent::CtrlD, &env);
    assert!(matches!(r, KeyOutcome::Exit));
    type_line(&mut shell, &env, "x");
    let r = shell.handle_key(KeyEvent::CtrlD, &env);
    assert!(matches!(r, KeyOutcome::Continue(RedrawHint::NoChange)));
}

#[test]
fn tab_completes_from_path_and_history() {
    let mut shell = Shell::new(plain_config());
    shell.add_to_history("echo hi".to_string());
    let env = CompletionEnv {
        home: None,
        path_commands: vec![vec!["echo".to_string()], vec!["echo".to_string()]],
        dirs: Vec::new(),
    };
    type_line(&mut shell, &env, "ec");
    let r = shell.handle_key(KeyEvent::Tab, &env);
    assert!(matches!(r, KeyOutcome::Continue(RedrawHint::FullLine)));
    assert_eq!(shell.completion.completions, vec!["echo".to_string()]);
    assert_eq!(shell.current_input, "echo".to_string());
    assert_eq!(shell.cursor_pos, 4);
}

#[test]
fn tab_with_no_candidates_is_noop() {
    let mut shell = Shell::new(plain_config());
    let env = empty_env();
    type_line(&mut shell, &env, "zzz");
    let r = shell.handle_key(KeyEvent::Tab, &env);
    assert!(matches!(r, KeyOutcome::Continue(RedrawHint::NoChange)));
    assert_eq!(shell.current_input, "zzz".to_string());
}

#[test]
fn repeated_tab_cycles_candidates() {
    let mut shell = Shell::new(plain_config());
    let env = CompletionEnv {
        home: None,
        path_commands: vec![vec!["cat".to_string()]],
        dirs: Vec::new(),
    };
    type_line(&mut shell, &env, "c");
    shell.handle_key(KeyEvent::Tab, &env);
    assert_eq!(shell.current_input, "cat".to_string());
    shell.handle_key(KeyEvent::Tab, &env);
    assert_eq!(shell.current_input, "cd".to_string());
    shell.handle_key(KeyEvent::Tab, &env);
    assert_eq!(shell.current_input, "cat".to_string());
}

#[test]
fn typing_resets_completion_session() {
    let mut shell = Shell::new(plain_config());
    let env = CompletionEnv {
        home: None,
        path_commands: vec![vec!["cat".to_string()]],
        dirs: Vec::new(),
    };
    type_line(&mut shell, &env, "c");
    shell.handle_key(KeyEvent::Tab, &env);
    assert!(!shell.completion.is_empty());
    shell.handle_key(KeyEvent::Char('x'), &env);
    assert!(shell.completion.is_empty());
    assert_eq!(shell.completion.completion_index, None);
}

#[test]
fn up_down_through_handle_key() {
    let mut shell = Shell::new(plain_config());
    let env = empty_env();
    shell.add_to_history("a".to_string());
    shell.add_to_history("b".to_string());
    shell.handle_key(KeyEvent::Up, &env);
    assert_eq!(shell.current_input, "b".to_string());
    shell.handle_key(KeyEvent::Up, &env);
    assert_eq!(shell.current_input, "a".to_string());
    shell.handle_key(KeyEvent::Down, &env);
    assert_eq!(shell.current_input, "b".to_string());
    shell.handle_key(KeyEvent::Down, &env);
    assert_eq!(shell.current_input, "".to_string());
    assert_eq!(shell.history_index, None);
}

#[test]
fn execute_blank_line_does_nothing() {
    let mut shell = Shell::new(plain_config());
    let r = shell.execute_command("   ");
    assert!(matches!(r, CommandAction::Nothing));
    assert_eq!(shell.history, Vec::<String>::new());
}

#[test]
fn execute_builtin_with_arguments() {
    let mut shell = Shell::new(plain_config());
    let r = shell.execute_command(" cd /tmp ");
    match r {
        CommandAction::Builtin(name, args) => {
            assert_eq!(name, "cd".to_string());
            assert_eq!(args, vec!["/tmp".to_string()]);
        },
        _ => panic!("expected a builtin"),
    }
    assert_eq!(shell.history, vec!["cd /tmp".to_string()]);
}

#[test]
fn execute_external_command() {
    let mut shell = Shell::new(plain_config());
    let r = shell.execute_command("ls -l \"my docs\"");
    match r {
        CommandAction::External(name, args) => {
            assert_eq!(name, "ls".to_string());
            assert_eq!(args, vec!["-l".to_string(), "my docs".to_string()]);
        },
        _ => panic!("expected an external command"),
    }
}

#[test]
fn execute_alias_reports_expansion() {
    let mut config = plain_config();
    config.aliases.push(AliasEntry {
        name: "ll".to_string(),
        command: "ls -l".to_string(),
    });
    let mut shell = Shell::new(config);
    let r = shell.execute_command("ll");
    match r {
        CommandAction::Alias(expansion) => assert_eq!(expansion, "ls -l".to_string()),
        _ => panic!("expected an alias expansion"),
    }
    assert_eq!(shell.history, vec!["ll".to_string()]);
}

#[test]
fn execute_quotes_only_line_records_history_and_does_nothing() {
    let mut shell = Shell::new(plain_config());
    let r = shell.execute_command("\"\"");
    assert!(matches!(r, CommandAction::Nothing));
    assert_eq!(shell.history, vec!["\"\"".to_string()]);
}

#[test]
fn reset_input_clears_line_state() {
    let mut shell = Shell::new(plain_config());
    let env = empty_env();
    type_line(&mut shell, &env, "partial");
    shell.handle_key(KeyEvent::Up, &env);
    shell.reset_input();
    assert_eq!(shell.current_input, "".to_string());
    assert_eq!(shell.cursor_pos, 0);
    assert_eq!(shell.history_index, None);
    assert!(shell.completion.is_empty());
}

#[test]
fn set_alias_overwrites_previous_definition() {
    let mut config = plain_config();
    config.set_alias("g".to_string(), "git".to_string());
    config.set_alias("ll".to_string(), "ls -l".to_string());
    config.set_alias("g".to_string(), "grep".to_string());
    assert_eq!(config.lookup_alias("g"), Some("grep".to_string()));
    assert_eq!(config.lookup_alias("ll"), Some("ls -l".to_string()));
    assert_eq!(config.lookup_alias("x"), None);
}

#[test]
fn default_config_values() {
    let config = Config::default();
    assert_eq!(config.history_size, 1000);
    assert!(config.enable_colors);
    assert!(config.aliases.is_empty());
    assert!(config.prompt.contains("{cwd}"));
}

#[test]
fn multibyte_characters_edit_cleanly() {
    let mut shell = Shell::new(plain_config());
    let env = empty_env();
    type_line(&mut shell, &env, "héllo");
    assert_eq!(shell.cursor_pos, 5);
    shell.handle_key(KeyEvent::Left, &env);
    shell.handle_key(KeyEvent::Left, &env);
    shell.handle_key(KeyEvent::Left, &env);
    shell.handle_key(KeyEvent::Backspace, &env);
    assert_eq!(shell.current_input, "hllo".to_string());
    assert_eq!(shell.cursor_pos, 1);
}
