//! Deciding which shell's history to read: an explicit hint wins, compared
//! without regard to ASCII case; with no hint, the shell named by the
//! caller's environment decides, by substring.

use vstd::prelude::*;
use crate::bytes::{
    contains_bytes,
    lower_bytes,
    lower_bytes_vec,
    bytes_eq,
    find_substring,
    opt_bytes_view,
    copy_bytes,
};

verus! {

/// A shell whose history format this library understands.
#[derive(Debug, PartialEq, Eq, Clone, Copy)]
pub enum Shell {
    Bash,
    Zsh,
}

/// Why no shell could be decided on.
#[derive(Debug, PartialEq, Eq, Clone, Copy)]
pub enum ShellResolveError {
    /// The hint named a shell this library does not understand.
    UnsupportedHint,
    /// No hint was given and no shell name was supplied by the environment.
    ShellVarMissing,
    /// The environment names neither of the understood shells.
    UnsupportedShell,
}

/// The byte spelling of "bash".
pub open spec fn bash_bytes() -> Seq<u8> {
    seq![98u8, 97u8, 115u8, 104u8]
}

/// The byte spelling of "zsh".
pub open spec fn zsh_bytes() -> Seq<u8> {
    seq![122u8, 115u8, 104u8]
}

/// The hint's bytes: an absent hint behaves as an empty one.
pub open spec fn hint_bytes(o: Option<Vec<u8>>) -> Seq<u8> {
    match o {
        Option::None => Seq::empty(),
        Option::Some(v) => v@,
    }
}

/// Which shell a hint and an environment value decide on: a hint spelling
/// "bash" or "zsh" in any ASCII case wins; any other non-empty hint is
/// rejected; with an empty hint, an environment value containing "zsh", or
/// failing that "bash", decides; anything else is rejected.
pub open spec fn resolve_shell_spec(hint: Seq<u8>, shell_env: Option<Seq<u8>>) -> Result<
    Shell,
    ShellResolveError,
> {
    if lower_bytes(hint) == bash_bytes() {
        Result::Ok(Shell::Bash)
    } else if lower_bytes(hint) == zsh_bytes() {
        Result::Ok(Shell::Zsh)
    } else if hint.len() > 0 {
        Result::Err(ShellResolveError::UnsupportedHint)
    } else {
        match shell_env {
            Option::None => Result::Err(ShellResolveError::ShellVarMissing),
            Option::Some(s) => if contains_bytes(s, zsh_bytes()) {
                Result::Ok(Shell::Zsh)
            } else if contains_bytes(s, bash_bytes()) {
                Result::Ok(Shell::Bash)
            } else {
                Result::Err(ShellResolveError::UnsupportedShell)
            },
        }
    }
}

/// The byte spelling of "bash", as a vector.
fn bash_lit() -> (r: Vec<u8>)
    ensures
        r@ == bash_bytes(),
{
    let mut v: Vec<u8> = Vec::new();
    v.push(98);
    v.push(97);
    v.push(115);
    v.push(104);
    proof {
        assert(v@ =~= bash_bytes());
    }
    v
}

/// The byte spelling of "zsh", as a vector.
fn zsh_lit() -> (r: Vec<u8>)
    ensures
        r@ == zsh_bytes(),
{
    let mut v: Vec<u8> = Vec::new();
    v.push(122);
    v.push(115);
    v.push(104);
    proof {
        assert(v@ =~= zsh_bytes());
    }
    v
}

/// Decides which shell's history to read, from the hint given on the
/// command line, if any, and the shell name the environment supplies.
pub fn resolve_shell(hint: &Option<Vec<u8>>, shell_env: &Option<Vec<u8>>) -> (r: Result<
    Shell,
    ShellResolveError,
>)
    ensures
        r == resolve_shell_spec(hint_bytes(*hint), opt_bytes_view(*shell_env)),
{
    let hint_vec: Vec<u8> = match hint {
        Some(h) => copy_bytes(h),
        None => Vec::new(),
    };
    proof {
        assert(hint_vec@ =~= hint_bytes(*hint));
    }
    let lowered = lower_bytes_vec(&hint_vec);
    let bash = bash_lit();
    let zsh = zsh_lit();
    if bytes_eq(&lowered, &bash) {
        Ok(Shell::Bash)
    } else if bytes_eq(&lowered, &zsh) {
        Ok(Shell::Zsh)
    } else if hint_vec.len() > 0 {
        Err(ShellResolveError::UnsupportedHint)
    } else {
        match shell_env {
            None => Err(ShellResolveError::ShellVarMissing),
            Some(s) => {
                if find_substring(s, &zsh) {
                    Ok(Shell::Zsh)
                } else if find_substring(s, &bash) {
                    Ok(Shell::Bash)
                } else {
                    Err(ShellResolveError::UnsupportedShell)
                }
            },
        }
    }
}

} // verus!
