//! Where the command database lives: a fixed subpath under the
//! configuration root that the environment names.

use vstd::prelude::*;
use crate::bytes::{copy_bytes, append_bytes, opt_bytes_view};

verus! {

/// The path separator byte, `/`.
pub const SLASH: u8 = 47;

/// The byte spelling of the database's subpath, "stoac/db".
pub open spec fn db_subpath() -> Seq<u8> {
    seq![115u8, 116u8, 111u8, 97u8, 99u8, 47u8, 100u8, 98u8]
}

/// The byte spelling of the configuration directory, ".config".
pub open spec fn config_dir() -> Seq<u8> {
    seq![46u8, 99u8, 111u8, 110u8, 102u8, 105u8, 103u8]
}

/// One path joined below another: a separator stands between them unless
/// the base already ends in one or is empty.
pub open spec fn joined(base: Seq<u8>, rest: Seq<u8>) -> Seq<u8> {
    if base.len() == 0 {
        rest
    } else if base.last() == SLASH {
        base + rest
    } else {
        base + seq![SLASH] + rest
    }
}

/// The database path a pair of environment values decides on: the fixed
/// subpath under the first configuration root when one is set, under the
/// home's configuration directory otherwise, and none when neither is set.
pub open spec fn db_path_spec(xdg: Option<Seq<u8>>, home: Option<Seq<u8>>) -> Option<Seq<u8>> {
    match xdg {
        Option::Some(x) => Option::Some(joined(x, db_subpath())),
        Option::None => match home {
            Option::Some(h) => Option::Some(joined(joined(h, config_dir()), db_subpath())),
            Option::None => Option::None,
        },
    }
}

/// The byte spelling of "stoac/db", as a vector.
fn db_subpath_lit() -> (r: Vec<u8>)
    ensures
        r@ == db_subpath(),
{
    let mut v: Vec<u8> = Vec::new();
    v.push(115);
    v.push(116);
    v.push(111);
    v.push(97);
    v.push(99);
    v.push(47);
    v.push(100);
    v.push(98);
    proof {
        assert(v@ =~= db_subpath());
    }
    v
}

/// The byte spelling of ".config", as a vector.
fn config_dir_lit() -> (r: Vec<u8>)
    ensures
        r@ == config_dir(),
{
    let mut v: Vec<u8> = Vec::new();
    v.push(46);
    v.push(99);
    v.push(111);
    v.push(110);
    v.push(102);
    v.push(105);
    v.push(103);
    proof {
        assert(v@ =~= config_dir());
    }
    v
}

/// Joins one path below another.
pub fn join_path(base: &Vec<u8>, rest: &Vec<u8>) -> (r: Vec<u8>)
    ensures
        r@ == joined(base@, rest@),
{
    if base.len() == 0 {
        return copy_bytes(rest);
    }
    let mut out = copy_bytes(base);
    if out[out.len() - 1] != SLASH {
        out.push(SLASH);
        proof {
            assert(out@ =~= base@ + seq![SLASH]);
        }
    }
    append_bytes(&mut out, rest);
    out
}

/// Resolves the database path from the two environment values that can name
/// the configuration root.
pub fn resolve_db_path(xdg_config_home: &Option<Vec<u8>>, home: &Option<Vec<u8>>) -> (r: Option<
    Vec<u8>,
>)
    ensures
        opt_bytes_view(r) == db_path_spec(opt_bytes_view(*xdg_config_home), opt_bytes_view(*home)),
{
    let sub = db_subpath_lit();
    match xdg_config_home {
        Some(x) => Some(join_path(x, &sub)),
        None => match home {
            Some(h) => {
                let config = join_path(h, &config_dir_lit());
                Some(join_path(&config, &sub))
            },
            None => None,
        },
    }
}

} // verus!
