//! The logging filter directive the binaries install at startup.
use vstd::prelude::*;
use vstd::string::*;
use crate::text::{push_replacing, push_str, replace_char};

verus! {

/// The directive list for `crates` at `level`: `warn` for everything, then
/// one `,<crate>=<level>` entry per listed crate, with `-` in crate names
/// written as `_`.
pub open spec fn filter_directives(crates: Seq<Seq<char>>, level: Seq<char>) -> Seq<char>
    decreases crates.len(),
{
    if crates.len() == 0 {
        "warn"@
    } else {
        filter_directives(crates.drop_last(), level) + ","@ + replace_char(crates.last(), '-', '_')
            + "="@ + level
    }
}

/// Builds an `EnvFilter` directive list that silences dependencies at `warn`
/// while raising our own crates to `level`. Crates absent from `crates` stay at
/// `warn`, which is why a crate that logs progress must be listed.
pub fn log_filter(crates: &[&str], level: &str) -> (directives: String)
    ensures
        directives@ == filter_directives(crates@.map_values(|c: &str| c@), level@),
{
    let ghost names = crates@.map_values(|c: &str| c@);
    let mut directives = String::from_str("warn");
    let n = crates.len();
    let mut i: usize = 0;
    while i < n
        invariant
            n == crates@.len(),
            names == crates@.map_values(|c: &str| c@),
            i <= n,
            directives@ == filter_directives(names.take(i as int), level@),
        decreases n - i,
    {
        push_str(&mut directives, ",");
        push_replacing(&mut directives, crates[i], '-', '_');
        push_str(&mut directives, "=");
        push_str(&mut directives, level);
        assert(names.take(i + 1).drop_last() =~= names.take(i as int));
        assert(names.take(i + 1).last() == crates[i as int]@);
        assert(directives@ =~= filter_directives(names.take(i + 1), level@));
        i = i + 1;
    }
    assert(names.take(n as int) =~= names);
    directives
}

} // verus!
