//! Locating benchmark reports beside the build tree. Whether a report file
//! exists is a filesystem fact and is handed in; what is assembled here is
//! the path and the link.

use vstd::prelude::*;

use crate::text::concat2;

verus! {

/// The location of an example's benchmark report page, when the caller
/// found one under the example's report directory.
pub fn report_path(base: &str, report_exists: bool) -> (r: Option<String>)
    ensures
        report_exists ==> (r matches Some(p) && p@ == base@ + "/report/index.html"@),
        !report_exists ==> r is None,
{
    if report_exists {
        Some(concat2(base, "/report/index.html"))
    } else {
        None
    }
}

/// A browser link to a local file.
pub fn file_url(path: String) -> (r: String)
    ensures
        r@ == "file://"@ + path@,
{
    concat2("file://", path.as_str())
}

} // verus!
