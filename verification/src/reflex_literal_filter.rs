//! Shallow filter of tool arguments by literal comparison: the strict form,
//! without short forms of options.

use vstd::prelude::*;
use vstd::string::*;

use crate::reflex_literal::{matches_read_command, shallow_command};

pub use crate::reflex_literal::{is_exact_matched_command, is_safe_grep_query, is_safe_subpath};

verus! {

/// Whether a command reads one file below the working directory.
pub fn is_shallow_matched_command(cmd: &str) -> (r: bool)
    ensures
        r == shallow_command(cmd@, false),
{
    matches_read_command(cmd, false)
}

} // verus!
