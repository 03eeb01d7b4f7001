use rsh::completion::{Completion, CompletionEnv, DirEntry, DirListing};
use rsh::config::Config;
use rsh::ui::UI;

fn empty_config() -> Config {
    Config {
        prompt: "$ ".to_string(),
        history_size: 100,
        enable_colors: false,
        aliases: Vec::new(),
    }
}

fn empty_env() -> CompletionEnv {
    CompletionEnv {
        home: None,
        path_commands: Vec::new(),
        dirs: Vec::new(),
    }
}

fn entry(name: &str, is_dir: bool) -> DirEntry {
    DirEntry {
        name: name.to_string(),
        is_dir,
    }
}

#[test]
fn classify_trailing_space_means_path_mode_empty_prefix() {
    let env = CompletionEnv {
        home: None,
        path_commands: Vec::new(),
        dirs: vec![DirListing {
            path: ".".to_string(),
            entries: vec![entry("notes.txt", false)],
        }],
    };
    let mut c = Completion::new();
    c.generate("ls ", 3, &empty_config(), &env, &Vec::new());
    assert_eq!(c.completion_prefix, "".to_string());
    assert_eq!(c.completions, vec!["notes.txt".to_string()]);
}

#[test]
fn classify_second_token_means_path_mode_with_prefix() {
    let env = CompletionEnv {
        home: None,
        path_commands: Vec::new(),
        dirs: vec![DirListing {
            path: "/".to_string(),
            entries: vec![entry("tmp", true), entry("usr", true)],
        }],
    };
    let mut c = Completion::new();
    c.generate("ls /tm", 6, &empty_config(), &env, &Vec::new());
    assert_eq!(c.completion_prefix, "/tm".to_string());
    assert_eq!(c.completions, vec!["/tmp/".to_string()]);
}

#[test]
fn classify_single_token_means_command_mode() {
    let mut c = Completion::new();
    c.generate("ec", 2, &empty_config(), &env_with_path(&[&["echo"]]), &Vec::new());
    assert_eq!(c.completion_prefix, "ec".to_string());
    assert_eq!(c.completions, vec!["echo".to_string()]);
}

fn env_with_path(dirs: &[&[&str]]) -> CompletionEnv {
    CompletionEnv {
        home: None,
        path_commands: dirs
            .iter()
            .map(|names| names.iter().map(|n| n.to_string()).collect())
            .collect(),
        dirs: Vec::new(),
    }
}

#[test]
fn command_mode_includes_builtins_sorted() {
    let mut c = Completion::new();
    c.generate("h", 1, &empty_config(), &empty_env(), &Vec::new());
    assert_eq!(c.completions, vec!["help".to_string(), "history".to_string()]);
}

#[test]
fn command_mode_merges_aliases_and_history() {
    let config = Config {
        prompt: "$ ".to_string(),
        history_size: 100,
        enable_colors: false,
        aliases: vec![rsh::config::AliasEntry {
            name: "gs".to_string(),
            command: "git status".to_string(),
        }],
    };
    let history = vec!["grep foo".to_string(), "gs".to_string()];
    let mut c = Completion::new();
    c.generate("g", 1, &config, &env_with_path(&[&["gcc"]]), &history);
    assert_eq!(c.completions, vec![
        "gcc".to_string(),
        "grep".to_string(),
        "gs".to_string()
    ]);
}

#[test]
fn command_mode_dedups_across_path_dirs() {
    let mut c = Completion::new();
    c.generate("ec", 2, &empty_config(), &env_with_path(&[&["echo"], &["echo"]]), &Vec::new());
    assert_eq!(c.completions, vec!["echo".to_string()]);
}

#[test]
fn hidden_files_stay_hidden_without_dot_prefix() {
    let env = CompletionEnv {
        home: None,
        path_commands: Vec::new(),
        dirs: vec![DirListing {
            path: ".".to_string(),
            entries: vec![entry(".bashrc", false), entry("notes.txt", false)],
        }],
    };
    let mut c = Completion::new();
    c.generate("cat ", 4, &empty_config(), &env, &Vec::new());
    assert_eq!(c.completions, vec!["notes.txt".to_string()]);
}

#[test]
fn dot_prefix_reveals_hidden_files() {
    let env = CompletionEnv {
        home: None,
        path_commands: Vec::new(),
        dirs: vec![DirListing {
            path: ".".to_string(),
            entries: vec![entry(".bashrc", false), entry("notes.txt", false)],
        }],
    };
    let mut c = Completion::new();
    c.generate("cat .", 5, &empty_config(), &env, &Vec::new());
    assert_eq!(c.completions, vec![".bashrc".to_string()]);
}

#[test]
fn path_mode_appends_slash_to_directories() {
    let env = CompletionEnv {
        home: None,
        path_commands: Vec::new(),
        dirs: vec![DirListing {
            path: ".".to_string(),
            entries: vec![entry("src", true), entry("setup.py", false)],
        }],
    };
    let mut c = Completion::new();
    c.generate("ls s", 4, &empty_config(), &env, &Vec::new());
    assert_eq!(c.completions, vec!["setup.py".to_string(), "src/".to_string()]);
}

#[test]
fn path_mode_expands_tilde() {
    let env = CompletionEnv {
        home: Some("/home/u".to_string()),
        path_commands: Vec::new(),
        dirs: vec![DirListing {
            path: "/home/u".to_string(),
            entries: vec![entry("docs", true)],
        }],
    };
    let mut c = Completion::new();
    c.generate("ls ~/d", 6, &empty_config(), &env, &Vec::new());
    assert_eq!(c.completions, vec!["/home/u/docs/".to_string()]);
}

#[test]
fn path_mode_unknown_directory_yields_nothing() {
    let mut c = Completion::new();
    c.generate("ls /nowhere/x", 13, &empty_config(), &empty_env(), &Vec::new());
    assert!(c.is_empty());
}

#[test]
fn apply_and_cycle_do_not_compound() {
    let mut c = Completion {
        completions: vec!["cat".to_string(), "cd".to_string()],
        completion_index: None,
        completion_prefix: "c".to_string(),
        original_input_before_completion: String::new(),
        completion_start_pos: 0,
    };
    let mut buffer = "c".to_string();
    let mut cursor = 1usize;
    c.start(buffer.as_str(), cursor);
    c.apply(&mut buffer, &mut cursor);
    assert_eq!(buffer, "cat".to_string());
    assert_eq!(cursor, 3);
    // apply again: still the snapshot with the first candidate
    c.apply(&mut buffer, &mut cursor);
    assert_eq!(buffer, "cat".to_string());
    assert_eq!(cursor, 3);
    c.cycle_next();
    c.apply(&mut buffer, &mut cursor);
    assert_eq!(buffer, "cd".to_string());
    assert_eq!(cursor, 2);
}

#[test]
fn cycle_wraps_to_first_candidate() {
    let mut c = Completion {
        completions: vec!["cat".to_string(), "cd".to_string()],
        completion_index: Some(1),
        completion_prefix: "c".to_string(),
        original_input_before_completion: "c".to_string(),
        completion_start_pos: 0,
    };
    c.cycle_next();
    assert_eq!(c.completion_index, Some(0));
}

#[test]
fn reset_clears_session() {
    let mut c = Completion {
        completions: vec!["cat".to_string()],
        completion_index: Some(0),
        completion_prefix: "c".to_string(),
        original_input_before_completion: "c".to_string(),
        completion_start_pos: 0,
    };
    c.reset();
    assert!(c.is_empty());
    assert_eq!(c.completion_index, None);
    assert_eq!(c.completion_prefix, "".to_string());
}

#[test]
fn summary_shown_only_for_several_candidates() {
    let mut c = Completion::new();
    assert!(!c.should_show_info());
    c.completions = vec!["a".to_string()];
    assert!(!c.should_show_info());
    c.completions = vec!["a".to_string(), "b".to_string()];
    assert!(c.should_show_info());
}

#[test]
fn generation_only_reads_before_the_cursor() {
    // With the cursor inside the first word, the text after it is ignored
    // and the context is still a command name.
    let mut c = Completion::new();
    c.generate("ech xyz", 3, &empty_config(), &env_with_path(&[&["echo"]]), &Vec::new());
    assert_eq!(c.completion_prefix, "ech".to_string());
    assert_eq!(c.completions, vec!["echo".to_string()]);
}

#[test]
fn empty_buffer_offers_all_builtins() {
    let mut c = Completion::new();
    c.generate("", 0, &empty_config(), &empty_env(), &Vec::new());
    assert_eq!(c.completion_prefix, "".to_string());
    assert_eq!(c.completions, vec![
        "alias".to_string(),
        "cd".to_string(),
        "exit".to_string(),
        "help".to_string(),
        "history".to_string(),
        "pwd".to_string()
    ]);
}

#[test]
fn history_typed_while_browsing_is_overwritten() {
    // Pressing Up on a fresh line replaces whatever was typed; the text is
    // not saved anywhere.
    let mut shell = rsh::shell::Shell::new(empty_config());
    shell.add_to_history("old".to_string());
    let env = empty_env();
    shell.handle_key(rsh::shell::KeyEvent::Char('x'), &env);
    shell.handle_key(rsh::shell::KeyEvent::Up, &env);
    assert_eq!(shell.current_input, "old".to_string());
    shell.handle_key(rsh::shell::KeyEvent::Down, &env);
    assert_eq!(shell.current_input, "".to_string());
}

#[test]
fn window_start_tracks_selection() {
    assert_eq!(UI::completion_window_start(5, Some(3)), 0);
    assert_eq!(UI::completion_window_start(20, Some(2)), 0);
    assert_eq!(UI::completion_window_start(20, Some(10)), 5);
    assert_eq!(UI::completion_window_start(20, Some(14)), 9);
    assert_eq!(UI::completion_window_start(20, Some(18)), 10);
    assert_eq!(UI::completion_window_start(20, None), 0);
}
