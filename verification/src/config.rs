//! Where a run takes its region from.

use vstd::prelude::*;
use vstd::string::StringExecFns;

verus! {

/// The region of a run: the one given on the command line, or else the one
/// from the environment. An empty text counts as not given. With neither
/// there is no region.
pub open spec fn region_of(flag: Seq<char>, environment: Seq<char>) -> Option<Seq<char>> {
    if flag.len() > 0 {
        Some(flag)
    } else if environment.len() > 0 {
        Some(environment)
    } else {
        None
    }
}

/// Settles the region of a run from the command line's value and the
/// environment's: the command line wins wherever it names one.
pub fn resolve_region(flag: &str, environment: &str) -> (region: Option<String>)
    ensures
        region.deep_view() == region_of(flag@, environment@),
{
    if !flag.is_empty() {
        Some(String::from_str(flag))
    } else if !environment.is_empty() {
        Some(String::from_str(environment))
    } else {
        None
    }
}

} // verus!
