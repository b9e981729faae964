//! Keys, prefixes and the delimiter that groups them into levels.

use vstd::prelude::*;
use vstd::string::{StrSliceExecFns, StringExecFns};

verus! {

/// The character on which the store groups keys into levels.
pub const DELIMITER: char = '/';

/// Whether a key names a level rather than an object: it is not empty and its
/// last character is the delimiter.
pub open spec fn is_group(key: Seq<char>) -> bool {
    key.len() > 0 && key.last() == DELIMITER
}

/// Tests whether `key` ends with the delimiter.
pub fn ends_with_delimiter(key: &str) -> (r: bool)
    ensures
        r == is_group(key@),
{
    let n: usize = key.unicode_len();
    if n == 0 {
        false
    } else {
        key.get_char(n - 1) == DELIMITER
    }
}

/// A key without the one delimiter that it ends with, or the key itself if
/// it ends with none.
pub open spec fn without_delimiter(key: Seq<char>) -> Seq<char> {
    if is_group(key) {
        key.drop_last()
    } else {
        key
    }
}

/// Copies `key`, leaving out the one delimiter that it ends with, if any.
pub fn strip_delimiter(key: &str) -> (stripped: String)
    ensures
        stripped@ == without_delimiter(key@),
{
    let n: usize = key.unicode_len();
    if n > 0 && key.get_char(n - 1) == DELIMITER {
        String::from_str(key.substring_char(0, n - 1))
    } else {
        String::from_str(key)
    }
}

} // verus!
