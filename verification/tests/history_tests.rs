use stoac::history::{
    get_bash_command, get_history_command, get_zsh_command, history_line_at, HistoryError,
};
use stoac::shell::Shell;

fn sample_lines() -> Vec<Vec<u8>> {
    vec![
        b": 1700000001:0;cargo build".to_vec(),
        b"123:0;ls -la".to_vec(),
        b"plain line".to_vec(),
    ]
}

#[test]
fn zsh_line_extracts_after_timestamp() {
    let lines = vec![b"123:0;ls -la".to_vec()];
    let command = get_zsh_command(&lines, 1).unwrap();
    assert_eq!(command, b"ls -la".to_vec());
}

#[test]
fn bash_line_comes_back_unmodified() {
    let lines = vec![b"123:0;ls -la".to_vec()];
    let command = get_bash_command(&lines, 1).unwrap();
    assert_eq!(command, b"123:0;ls -la".to_vec());
}

#[test]
fn out_of_range_index_is_rejected() {
    let lines = sample_lines();
    assert_eq!(get_bash_command(&lines, 4), Err(HistoryError::IndexOutOfRange));
    assert_eq!(get_zsh_command(&lines, 4), Err(HistoryError::IndexOutOfRange));
    assert_eq!(get_bash_command(&lines, 0), Err(HistoryError::IndexOutOfRange));
}

#[test]
fn zsh_line_without_semicolon_yields_empty_command() {
    let lines = vec![b"plain line".to_vec()];
    let command = get_zsh_command(&lines, 1).unwrap();
    assert_eq!(command, b"".to_vec());
}

#[test]
fn zsh_strip_stops_at_the_first_semicolon() {
    let lines = vec![b": 1700000001:0;echo a;echo b".to_vec()];
    let command = get_zsh_command(&lines, 1).unwrap();
    assert_eq!(command, b"echo a;echo b".to_vec());
}

#[test]
fn indexing_is_one_based() {
    let lines = sample_lines();
    let line = history_line_at(&lines, 3).unwrap();
    assert_eq!(line, b"plain line".to_vec());
}

#[test]
fn extraction_follows_the_shell() {
    let lines = sample_lines();
    let zsh = get_history_command(Shell::Zsh, &lines, 1).unwrap();
    assert_eq!(zsh, b"cargo build".to_vec());
    let bash = get_history_command(Shell::Bash, &lines, 1).unwrap();
    assert_eq!(bash, b": 1700000001:0;cargo build".to_vec());
}
