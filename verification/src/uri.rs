//! The console link for a chosen object or folder.
//!
//! A link is plain templating over the bucket, the key and the region.
//! Nothing is escaped: a key with characters that a URL cannot carry gives a
//! link that does not open.

use crate::path::{ends_with_delimiter, is_group};
use vstd::prelude::*;
use vstd::string::StringExecFns;

verus! {

/// Whether a prefix names something that a link can point at: it is not
/// empty and does not end with the delimiter.
pub open spec fn is_terminal(prefix: Seq<char>) -> bool {
    prefix.len() > 0 && !is_group(prefix)
}

/// The link that lists what a folder holds.
pub open spec fn folder_uri(bucket: Seq<char>, prefix: Seq<char>, region: Seq<char>) -> Seq<char> {
    "https://s3.console.aws.amazon.com/s3/buckets/"@ + bucket + "?prefix="@ + prefix
        + "/&region="@ + region
}

/// The link that shows a single object.
pub open spec fn object_uri(bucket: Seq<char>, prefix: Seq<char>, region: Seq<char>) -> Seq<char> {
    "https://s3.console.aws.amazon.com/s3/object/"@ + bucket + "?prefix="@ + prefix
        + "&region="@ + region
}

/// The link for a traversal that stands at `prefix`: none (the empty text)
/// while the prefix is not terminal, else the folder's or the object's.
pub open spec fn console_uri(
    bucket: Seq<char>,
    prefix: Seq<char>,
    region: Seq<char>,
    is_directory: bool,
) -> Seq<char> {
    if !is_terminal(prefix) {
        Seq::empty()
    } else if is_directory {
        folder_uri(bucket, prefix, region)
    } else {
        object_uri(bucket, prefix, region)
    }
}

/// The line that is printed for a resolved link.
pub open spec fn output_line_of(uri: Seq<char>) -> Seq<char> {
    "URI: "@ + uri
}

/// Builds the console link for `prefix` in `bucket`, or the empty text when
/// the prefix is empty or ends with the delimiter and the traversal has to
/// go on.
pub fn make_uri(bucket: &str, prefix: &str, region: &str, is_directory: bool) -> (uri: String)
    ensures
        uri@ == console_uri(bucket@, prefix@, region@, is_directory),
        uri@.len() > 0 <==> is_terminal(prefix@),
{
    if prefix.is_empty() || ends_with_delimiter(prefix) {
        return String::new();
    }
    proof {
        reveal_strlit("https://s3.console.aws.amazon.com/s3/buckets/");
        reveal_strlit("https://s3.console.aws.amazon.com/s3/object/");
    }
    if is_directory {
        let mut uri = String::from_str("https://s3.console.aws.amazon.com/s3/buckets/");
        uri.append(bucket);
        uri.append("?prefix=");
        uri.append(prefix);
        uri.append("/&region=");
        uri.append(region);
        uri
    } else {
        let mut uri = String::from_str("https://s3.console.aws.amazon.com/s3/object/");
        uri.append(bucket);
        uri.append("?prefix=");
        uri.append(prefix);
        uri.append("&region=");
        uri.append(region);
        uri
    }
}

/// Builds the line that announces a resolved link.
pub fn output_line(uri: &str) -> (line: String)
    ensures
        line@ == output_line_of(uri@),
{
    let mut line = String::from_str("URI: ");
    line.append(uri);
    line
}

/// A prefix that is empty or ends with the delimiter has no link, whatever
/// the bucket, the region and the kind asked for.
pub proof fn lemma_no_uri_before_terminal(
    bucket: Seq<char>,
    prefix: Seq<char>,
    region: Seq<char>,
    is_directory: bool,
)
    requires
        prefix.len() == 0 || is_group(prefix),
    ensures
        console_uri(bucket, prefix, region, is_directory) == Seq::<char>::empty(),
{
}

/// A terminal prefix has a link of either kind, and the two differ: the
/// folder's link is never the object's.
pub proof fn lemma_folder_and_object_uris_differ(
    bucket: Seq<char>,
    prefix: Seq<char>,
    region: Seq<char>,
)
    requires
        is_terminal(prefix),
    ensures
        console_uri(bucket, prefix, region, true).len() > 0,
        console_uri(bucket, prefix, region, false).len() > 0,
        console_uri(bucket, prefix, region, true) != console_uri(bucket, prefix, region, false),
{
    reveal_strlit("https://s3.console.aws.amazon.com/s3/buckets/");
    reveal_strlit("https://s3.console.aws.amazon.com/s3/object/");
    let folder = folder_uri(bucket, prefix, region);
    let object = object_uri(bucket, prefix, region);
    assert(folder[37] == 'b');
    assert(object[37] == 'o');
}

} // verus!
