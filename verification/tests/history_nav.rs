use rsh::config::Config;
use rsh::shell::Shell;

fn config_with_capacity(cap: usize) -> Config {
    Config {
        prompt: "$ ".to_string(),
        history_size: cap,
        enable_colors: false,
        aliases: Vec::new(),
    }
}

fn shell_with_history(cap: usize, entries: &[&str]) -> Shell {
    let mut shell = Shell::new(config_with_capacity(cap));
    for e in entries {
        shell.add_to_history(e.to_string());
    }
    shell
}

#[test]
fn history_immediate_repeat_stored_once() {
    let shell = shell_with_history(10, &["ls", "ls"]);
    assert_eq!(shell.history, vec!["ls".to_string()]);
}

#[test]
fn history_eviction_drops_oldest() {
    let shell = shell_with_history(2, &["a", "b", "c"]);
    assert_eq!(shell.history, vec!["b".to_string(), "c".to_string()]);
}

#[test]
fn history_non_adjacent_duplicate_appends() {
    let shell = shell_with_history(10, &["a", "b", "a"]);
    assert_eq!(shell.history, vec![
        "a".to_string(),
        "b".to_string(),
        "a".to_string()
    ]);
}

#[test]
fn history_zero_capacity_stays_empty() {
    let shell = shell_with_history(0, &["a", "b"]);
    assert_eq!(shell.history, Vec::<String>::new());
}

#[test]
fn navigation_round_trip_restores_empty_buffer() {
    let mut shell = shell_with_history(10, &["a", "b", "c"]);
    for _ in 0..3 {
        shell.navigate_history(true);
    }
    assert_eq!(shell.current_input, "a".to_string());
    assert_eq!(shell.history_index, Some(0));
    for _ in 0..3 {
        shell.navigate_history(false);
    }
    assert_eq!(shell.current_input, "".to_string());
    assert_eq!(shell.cursor_pos, 0);
    assert_eq!(shell.history_index, None);
}

#[test]
fn navigation_up_enters_at_newest() {
    let mut shell = shell_with_history(10, &["first", "second"]);
    let moved = shell.navigate_history(true);
    assert!(moved);
    assert_eq!(shell.current_input, "second".to_string());
    assert_eq!(shell.cursor_pos, 6);
    assert_eq!(shell.history_index, Some(1));
}

#[test]
fn navigation_up_stops_at_oldest() {
    let mut shell = shell_with_history(10, &["only"]);
    assert!(shell.navigate_history(true));
    let moved = shell.navigate_history(true);
    assert!(!moved);
    assert_eq!(shell.current_input, "only".to_string());
    assert_eq!(shell.history_index, Some(0));
}

#[test]
fn navigation_down_without_browsing_is_noop() {
    let mut shell = shell_with_history(10, &["x"]);
    let moved = shell.navigate_history(false);
    assert!(!moved);
    assert_eq!(shell.history_index, None);
    assert_eq!(shell.current_input, "".to_string());
}

#[test]
fn navigation_with_empty_history_is_noop() {
    let mut shell = shell_with_history(10, &[]);
    assert!(!shell.navigate_history(true));
    assert!(!shell.navigate_history(false));
    assert_eq!(shell.history_index, None);
}

#[test]
fn navigation_down_past_newest_clears_buffer() {
    let mut shell = shell_with_history(10, &["abc"]);
    shell.navigate_history(true);
    assert_eq!(shell.current_input, "abc".to_string());
    let moved = shell.navigate_history(false);
    assert!(moved);
    assert_eq!(shell.current_input, "".to_string());
    assert_eq!(shell.cursor_pos, 0);
    assert_eq!(shell.history_index, None);
}
