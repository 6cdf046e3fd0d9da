//! Turning the parsed command-line flags into the one action to perform:
//! printing the database, loading, deleting, or storing from one of three
//! sources, with the original's precedence between them.

use vstd::prelude::*;

verus! {

/// The command-line flags, as plain values: which of the four verbs was
/// given, and the modifiers that accompany them.
pub struct CliRequest {
    pub load: Option<Vec<u8>>,
    pub store: Option<Vec<u8>>,
    pub delete: Option<Vec<u8>>,
    pub print: bool,
    pub text_store: Option<Vec<u8>>,
    pub print_output: bool,
    pub interactive_store: bool,
    pub index_store: Option<usize>,
    pub shell: Option<Vec<u8>>,
}

/// The one thing an invocation does.
#[derive(Debug, PartialEq)]
pub enum Action {
    /// List every stored tag and command.
    PrintDb,
    /// Resolve a tag; print the command alone, or offer it for execution.
    Load { tag: Vec<u8>, print_only: bool },
    /// Remove a tag.
    Delete { tag: Vec<u8> },
    /// Store whatever the user types at an empty prompt.
    StoreInteractive { tag: Vec<u8> },
    /// Store the given text.
    StoreText { tag: Vec<u8>, text: Vec<u8> },
    /// Store a line of the shell history.
    StoreFromHistory { tag: Vec<u8>, index: usize, shell_hint: Option<Vec<u8>> },
}

/// Why no action could be planned.
#[derive(Debug, PartialEq, Eq, Clone, Copy)]
pub enum PlanError {
    /// A store was asked for, but no source of the command was named.
    NothingToStore,
    /// None of the four verbs was given.
    NoVerbGiven,
}

/// A load ignores the store modifiers; their presence is reported so that a
/// warning can be shown.
pub open spec fn ignored_arguments(req: CliRequest) -> bool {
    req.text_store is Some || req.index_store is Some || req.shell is Some
        || req.interactive_store
}

/// The action a request decides on, with a flag for ignored store modifiers:
/// printing wins, then loading, then deleting; a store takes its command
/// from the interactive prompt, the given text, or the history index, in
/// that order of precedence, and fails with nothing to store otherwise.
pub open spec fn plan_spec(req: CliRequest) -> Result<(Action, bool), PlanError> {
    if req.print {
        Result::Ok((Action::PrintDb, false))
    } else if req.load is Some {
        Result::Ok(
            (
                Action::Load { tag: req.load->0, print_only: req.print_output },
                ignored_arguments(req),
            ),
        )
    } else if req.delete is Some {
        Result::Ok((Action::Delete { tag: req.delete->0 }, false))
    } else if req.store is Some {
        if req.interactive_store {
            Result::Ok((Action::StoreInteractive { tag: req.store->0 }, false))
        } else if req.text_store is Some {
            Result::Ok(
                (Action::StoreText { tag: req.store->0, text: req.text_store->0 }, false),
            )
        } else if req.index_store is Some {
            Result::Ok(
                (
                    Action::StoreFromHistory {
                        tag: req.store->0,
                        index: req.index_store->0,
                        shell_hint: req.shell,
                    },
                    false,
                ),
            )
        } else {
            Result::Err(PlanError::NothingToStore)
        }
    } else {
        Result::Err(PlanError::NoVerbGiven)
    }
}

/// Plans the one action a request performs, with a flag for store modifiers
/// that a load ignores.
pub fn plan_action(req: CliRequest) -> (r: Result<(Action, bool), PlanError>)
    ensures
        r == plan_spec(req),
{
    let warn = req.text_store.is_some() || req.index_store.is_some() || req.shell.is_some()
        || req.interactive_store;
    if req.print {
        return Ok((Action::PrintDb, false));
    }
    match req.load {
        Some(tag) => {
            return Ok((Action::Load { tag, print_only: req.print_output }, warn));
        },
        None => {},
    }
    match req.delete {
        Some(tag) => {
            return Ok((Action::Delete { tag }, false));
        },
        None => {},
    }
    match req.store {
        Some(tag) => {
            if req.interactive_store {
                Ok((Action::StoreInteractive { tag }, false))
            } else {
                match req.text_store {
                    Some(text) => Ok((Action::StoreText { tag, text }, false)),
                    None => match req.index_store {
                        Some(index) => Ok(
                            (
                                Action::StoreFromHistory { tag, index, shell_hint: req.shell },
                                false,
                            ),
                        ),
                        None => Err(PlanError::NothingToStore),
                    },
                }
            }
        },
        None => Err(PlanError::NoVerbGiven),
    }
}

} // verus!
