use stoac::store::{CommandStore, LoadOutcome};

#[test]
fn store_then_load_round_trip() {
    let mut store = CommandStore::open_temporary().unwrap();
    store.store(&b"git-a".to_vec(), &b"git add .".to_vec()).unwrap();
    let outcome = store.load(&b"git-a".to_vec()).unwrap();
    assert_eq!(outcome, LoadOutcome::Found(b"git add .".to_vec()));
}

#[test]
fn delete_then_load_not_found() {
    let mut store = CommandStore::open_temporary().unwrap();
    store.store(&b"build".to_vec(), &b"make -j8".to_vec()).unwrap();
    let was_present = store.delete(&b"build".to_vec()).unwrap();
    assert!(was_present);
    let outcome = store.load(&b"build".to_vec()).unwrap();
    assert_eq!(outcome, LoadOutcome::NotFound);
}

#[test]
fn prefix_miss_suggests_both_tags() {
    let mut store = CommandStore::open_temporary().unwrap();
    store.store(&b"git-a".to_vec(), &b"git add .".to_vec()).unwrap();
    store.store(&b"git-b".to_vec(), &b"git branch".to_vec()).unwrap();
    let outcome = store.load(&b"git".to_vec()).unwrap();
    assert_eq!(
        outcome,
        LoadOutcome::Suggestions(vec![b"git-a".to_vec(), b"git-b".to_vec()])
    );
}

#[test]
fn exact_match_wins_over_prefix() {
    let mut store = CommandStore::open_temporary().unwrap();
    store.store(&b"git".to_vec(), &b"git status".to_vec()).unwrap();
    store.store(&b"git-a".to_vec(), &b"git add .".to_vec()).unwrap();
    let outcome = store.load(&b"git".to_vec()).unwrap();
    assert_eq!(outcome, LoadOutcome::Found(b"git status".to_vec()));
}

#[test]
fn store_overwrites_previous_command() {
    let mut store = CommandStore::open_temporary().unwrap();
    store.store(&b"ls".to_vec(), &b"ls -l".to_vec()).unwrap();
    store.store(&b"ls".to_vec(), &b"ls -la".to_vec()).unwrap();
    let outcome = store.load(&b"ls".to_vec()).unwrap();
    assert_eq!(outcome, LoadOutcome::Found(b"ls -la".to_vec()));
}

#[test]
fn delete_of_absent_tag_reports_absence() {
    let mut store = CommandStore::open_temporary().unwrap();
    let was_present = store.delete(&b"missing".to_vec()).unwrap();
    assert!(!was_present);
}

#[test]
fn load_on_empty_store_is_not_found() {
    let store = CommandStore::open_temporary().unwrap();
    let outcome = store.load(&b"anything".to_vec()).unwrap();
    assert_eq!(outcome, LoadOutcome::NotFound);
}

#[test]
fn entries_come_back_in_tag_order() {
    let mut store = CommandStore::open_temporary().unwrap();
    store.store(&b"b".to_vec(), &b"two".to_vec()).unwrap();
    store.store(&b"c".to_vec(), &b"three".to_vec()).unwrap();
    store.store(&b"a".to_vec(), &b"one".to_vec()).unwrap();
    let entries = store.entries().unwrap();
    assert_eq!(
        entries,
        vec![
            (b"a".to_vec(), b"one".to_vec()),
            (b"b".to_vec(), b"two".to_vec()),
            (b"c".to_vec(), b"three".to_vec()),
        ]
    );
}

#[test]
fn suggestions_do_not_reach_past_the_prefix_range() {
    let mut store = CommandStore::open_temporary().unwrap();
    store.store(&b"git-a".to_vec(), &b"git add .".to_vec()).unwrap();
    store.store(&b"gja".to_vec(), &b"other".to_vec()).unwrap();
    let outcome = store.load(&b"git".to_vec()).unwrap();
    assert_eq!(outcome, LoadOutcome::Suggestions(vec![b"git-a".to_vec()]));
}
