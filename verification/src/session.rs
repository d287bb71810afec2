//! The two session files without a label: the current session and the previous
//! one.

use vstd::prelude::*;
use vstd::string::*;

use crate::text::{opt_str_view, str_or, text_or};

verus! {

/// The file of the current session.
pub const LAST_SESSION_FILE: &'static str = "last_session.jsonl";

/// The file of the previous session.
pub const PREVIOUS_SESSION_FILE: &'static str = "previous_session.jsonl";

/// The paths of the session files, for display; a path that is not known is
/// left empty.
pub fn session_file_display(last: Option<&str>, previous: Option<&str>) -> (r: String)
    ensures
        r@ == "last="@ + text_or(opt_str_view(last), ""@) + ", previous="@ + text_or(
            opt_str_view(previous),
            ""@,
        ),
{
    let mut s = String::from_str("last=");
    s.append(str_or(last, ""));
    s.append(", previous=");
    s.append(str_or(previous, ""));
    s
}

} // verus!
