//! The command-line surface's one rule: the tool takes between one and five
//! input files, each labelled `CDR1`..`CDR5` by its position.

use vstd::prelude::*;

verus! {

/// The largest number of input files accepted in one invocation.
pub const MAX_FILES: usize = 5;

/// Whether an invocation naming this many input files is accepted; any
/// other count is a usage error.
pub fn valid_file_count(n: usize) -> (r: bool)
    ensures
        r == (1 <= n <= MAX_FILES),
{
    1 <= n && n <= MAX_FILES
}

} // verus!
