use stoac::cli::{plan_action, Action, CliRequest, PlanError};

fn empty_request() -> CliRequest {
    CliRequest {
        load: None,
        store: None,
        delete: None,
        print: false,
        text_store: None,
        print_output: false,
        interactive_store: false,
        index_store: None,
        shell: None,
    }
}

#[test]
fn print_verb_plans_a_listing() {
    let mut req = empty_request();
    req.print = true;
    assert_eq!(plan_action(req), Ok((Action::PrintDb, false)));
}

#[test]
fn load_verb_plans_a_load() {
    let mut req = empty_request();
    req.load = Some(b"git-a".to_vec());
    assert_eq!(
        plan_action(req),
        Ok((Action::Load { tag: b"git-a".to_vec(), print_only: false }, false))
    );
}

#[test]
fn load_with_print_output_plans_a_print_only_load() {
    let mut req = empty_request();
    req.load = Some(b"git-a".to_vec());
    req.print_output = true;
    assert_eq!(
        plan_action(req),
        Ok((Action::Load { tag: b"git-a".to_vec(), print_only: true }, false))
    );
}

#[test]
fn load_reports_ignored_store_modifiers() {
    let mut req = empty_request();
    req.load = Some(b"git-a".to_vec());
    req.text_store = Some(b"ls".to_vec());
    assert_eq!(
        plan_action(req),
        Ok((Action::Load { tag: b"git-a".to_vec(), print_only: false }, true))
    );
}

#[test]
fn delete_verb_plans_a_delete() {
    let mut req = empty_request();
    req.delete = Some(b"old".to_vec());
    assert_eq!(
        plan_action(req),
        Ok((Action::Delete { tag: b"old".to_vec() }, false))
    );
}

#[test]
fn store_from_text_plans_the_given_command() {
    let mut req = empty_request();
    req.store = Some(b"ls".to_vec());
    req.text_store = Some(b"ls -la".to_vec());
    assert_eq!(
        plan_action(req),
        Ok((Action::StoreText { tag: b"ls".to_vec(), text: b"ls -la".to_vec() }, false))
    );
}

#[test]
fn interactive_store_takes_precedence_over_text() {
    let mut req = empty_request();
    req.store = Some(b"ls".to_vec());
    req.interactive_store = true;
    req.text_store = Some(b"ls -la".to_vec());
    assert_eq!(
        plan_action(req),
        Ok((Action::StoreInteractive { tag: b"ls".to_vec() }, false))
    );
}

#[test]
fn store_from_history_keeps_index_and_hint() {
    let mut req = empty_request();
    req.store = Some(b"last".to_vec());
    req.index_store = Some(3);
    req.shell = Some(b"zsh".to_vec());
    assert_eq!(
        plan_action(req),
        Ok((
            Action::StoreFromHistory {
                tag: b"last".to_vec(),
                index: 3,
                shell_hint: Some(b"zsh".to_vec()),
            },
            false
        ))
    );
}

#[test]
fn store_without_a_source_is_rejected() {
    let mut req = empty_request();
    req.store = Some(b"ls".to_vec());
    assert_eq!(plan_action(req), Err(PlanError::NothingToStore));
}

#[test]
fn no_verb_is_rejected() {
    assert_eq!(plan_action(empty_request()), Err(PlanError::NoVerbGiven));
}
