//! Locations of the on-disk dictionary corpus, relative to a home directory.

use vstd::prelude::*;
use vstd::string::StringExecFns;

verus! {

/// The directory that holds all of this game's data, under the given
/// home directory.
pub fn base_dir(home: &str) -> (r: String)
    ensures
        r@ == home@ + "/.langgame"@,
{
    let mut out = String::from_str(home);
    out.append("/.langgame");
    out
}

/// The directory the dictionary corpus is kept in, under the given
/// home directory.
pub fn repo_dir(home: &str) -> (r: String)
    ensures
        r@ == home@ + "/.langgame"@ + "/dictionaries"@,
{
    let mut out = base_dir(home);
    out.append("/dictionaries");
    out
}

} // verus!
