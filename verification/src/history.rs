//! Extraction of commands from shell history lines: the line at a 1-based
//! index, raw for bash, and with the extended-history timestamp prefix
//! stripped for zsh.

use vstd::prelude::*;
use crate::bytes::copy_bytes;
use crate::shell::Shell;

verus! {

/// The byte that closes a zsh extended-history timestamp prefix.
pub const SEMICOLON: u8 = 59;

/// Everything after the first occurrence of `b` in `line`; empty when `b`
/// does not occur.
pub open spec fn after_first(line: Seq<u8>, b: u8) -> Seq<u8>
    decreases line.len(),
{
    if line.len() == 0 {
        Seq::empty()
    } else if line[0] == b {
        line.drop_first()
    } else {
        after_first(line.drop_first(), b)
    }
}

/// A history index that no line answers to.
#[derive(Debug, PartialEq)]
pub enum HistoryError {
    IndexOutOfRange,
}

/// The history line at a 1-based index; an index outside `1..=len` is
/// rejected.
pub fn history_line_at(lines: &Vec<Vec<u8>>, line_num: usize) -> (r: Result<Vec<u8>, HistoryError>)
    ensures
        (r is Ok) <==> (1 <= line_num && line_num <= lines@.len()),
        r is Ok ==> r->Ok_0@ == lines@[line_num - 1]@,
        r is Err ==> r->Err_0 is IndexOutOfRange,
{
    if line_num >= 1 && line_num <= lines.len() {
        Ok(copy_bytes(&lines[line_num - 1]))
    } else {
        Err(HistoryError::IndexOutOfRange)
    }
}

/// Drops a zsh timestamp prefix: everything up to and including the first
/// `;` goes; a line without `;` yields the empty command.
pub fn strip_zsh_timestamp(line: &Vec<u8>) -> (r: Vec<u8>)
    ensures
        r@ == after_first(line@, SEMICOLON),
{
    proof {
        assert(line@.skip(0) =~= line@);
    }
    let mut i: usize = 0;
    loop
        invariant
            i <= line@.len(),
            after_first(line@, SEMICOLON) == after_first(line@.skip(i as int), SEMICOLON),
        decreases line@.len() - i,
    {
        if i == line.len() {
            proof {
                assert(line@.skip(i as int) =~= Seq::<u8>::empty());
            }
            return Vec::new();
        }
        if line[i] == SEMICOLON {
            let mut out: Vec<u8> = Vec::new();
            let mut j: usize = i + 1;
            while j < line.len()
                invariant
                    i < line@.len(),
                    i + 1 <= j <= line@.len(),
                    out@ =~= line@.subrange(i + 1, j as int),
                decreases line@.len() - j,
            {
                out.push(line[j]);
                j = j + 1;
            }
            proof {
                assert(line@.skip(i as int).drop_first() =~= line@.subrange(i + 1, line@.len() as int));
                assert(out@ =~= line@.subrange(i + 1, line@.len() as int));
            }
            return out;
        }
        proof {
            assert(line@.skip(i as int).drop_first() =~= line@.skip(i + 1));
        }
        i = i + 1;
    }
}

/// Extracts the command at a 1-based index of a zsh history: the line with
/// everything up to and including the first `;` stripped, which drops zsh's
/// extended-history timestamp prefix.
pub fn get_zsh_command(lines: &Vec<Vec<u8>>, line_num: usize) -> (r: Result<Vec<u8>, HistoryError>)
    ensures
        (r is Ok) <==> (1 <= line_num && line_num <= lines@.len()),
        r is Ok ==> r->Ok_0@ == after_first(lines@[line_num - 1]@, SEMICOLON),
        r is Err ==> r->Err_0 is IndexOutOfRange,
{
    match history_line_at(lines, line_num) {
        Ok(line) => Ok(strip_zsh_timestamp(&line)),
        Err(e) => Err(e),
    }
}

/// Extracts the command at a 1-based index of a bash history: the raw line,
/// unmodified.
pub fn get_bash_command(lines: &Vec<Vec<u8>>, line_num: usize) -> (r: Result<Vec<u8>, HistoryError>)
    ensures
        (r is Ok) <==> (1 <= line_num && line_num <= lines@.len()),
        r is Ok ==> r->Ok_0@ == lines@[line_num - 1]@,
        r is Err ==> r->Err_0 is IndexOutOfRange,
{
    history_line_at(lines, line_num)
}

/// What extracting a history line yields for each shell: the raw line for
/// bash, the line after its timestamp prefix for zsh.
pub open spec fn extracted(shell: Shell, line: Seq<u8>) -> Seq<u8> {
    match shell {
        Shell::Bash => line,
        Shell::Zsh => after_first(line, SEMICOLON),
    }
}

/// Extracts the command at a 1-based index of the given shell's history.
pub fn get_history_command(shell: Shell, lines: &Vec<Vec<u8>>, line_num: usize) -> (r: Result<
    Vec<u8>,
    HistoryError,
>)
    ensures
        (r is Ok) <==> (1 <= line_num && line_num <= lines@.len()),
        r is Ok ==> r->Ok_0@ == extracted(shell, lines@[line_num - 1]@),
        r is Err ==> r->Err_0 is IndexOutOfRange,
{
    match shell {
        Shell::Bash => get_bash_command(lines, line_num),
        Shell::Zsh => get_zsh_command(lines, line_num),
    }
}

} // verus!
