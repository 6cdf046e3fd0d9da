use stoac::shell::{resolve_shell, Shell, ShellResolveError};

#[test]
fn bash_hint_is_respected() {
    let r = resolve_shell(&Some(b"bash".to_vec()), &None);
    assert_eq!(r, Ok(Shell::Bash));
}

#[test]
fn zsh_hint_is_respected() {
    let r = resolve_shell(&Some(b"zsh".to_vec()), &None);
    assert_eq!(r, Ok(Shell::Zsh));
}

#[test]
fn hints_are_read_without_regard_to_case() {
    assert_eq!(resolve_shell(&Some(b"BASH".to_vec()), &None), Ok(Shell::Bash));
    assert_eq!(resolve_shell(&Some(b"Zsh".to_vec()), &None), Ok(Shell::Zsh));
}

#[test]
fn unknown_hint_is_rejected() {
    let r = resolve_shell(&Some(b"fish".to_vec()), &None);
    assert_eq!(r, Err(ShellResolveError::UnsupportedHint));
}

#[test]
fn missing_hint_and_environment_is_rejected() {
    let r = resolve_shell(&None, &None);
    assert_eq!(r, Err(ShellResolveError::ShellVarMissing));
    let r = resolve_shell(&Some(b"".to_vec()), &None);
    assert_eq!(r, Err(ShellResolveError::ShellVarMissing));
}

#[test]
fn environment_names_the_shell() {
    let r = resolve_shell(&None, &Some(b"/usr/bin/zsh".to_vec()));
    assert_eq!(r, Ok(Shell::Zsh));
    let r = resolve_shell(&None, &Some(b"/bin/bash".to_vec()));
    assert_eq!(r, Ok(Shell::Bash));
}

#[test]
fn zsh_is_preferred_when_the_environment_names_both() {
    let r = resolve_shell(&None, &Some(b"/opt/bash/zsh".to_vec()));
    assert_eq!(r, Ok(Shell::Zsh));
}

#[test]
fn unknown_environment_shell_is_rejected() {
    let r = resolve_shell(&None, &Some(b"/usr/bin/fish".to_vec()));
    assert_eq!(r, Err(ShellResolveError::UnsupportedShell));
}

#[test]
fn hint_wins_over_the_environment() {
    let r = resolve_shell(&Some(b"bash".to_vec()), &Some(b"/usr/bin/zsh".to_vec()));
    assert_eq!(r, Ok(Shell::Bash));
}
