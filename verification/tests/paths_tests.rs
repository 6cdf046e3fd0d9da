use stoac::paths::resolve_db_path;

#[test]
fn xdg_config_home_decides_the_path() {
    let path = resolve_db_path(&Some(b"/home/u/.config".to_vec()), &Some(b"/home/u".to_vec()));
    assert_eq!(path, Some(b"/home/u/.config/stoac/db".to_vec()));
}

#[test]
fn a_trailing_separator_is_not_doubled() {
    let path = resolve_db_path(&Some(b"/home/u/.config/".to_vec()), &None);
    assert_eq!(path, Some(b"/home/u/.config/stoac/db".to_vec()));
}

#[test]
fn home_alone_goes_through_the_config_directory() {
    let path = resolve_db_path(&None, &Some(b"/home/u".to_vec()));
    assert_eq!(path, Some(b"/home/u/.config/stoac/db".to_vec()));
}

#[test]
fn no_environment_yields_no_path() {
    assert_eq!(resolve_db_path(&None, &None), None);
}
