//! Detection of unsafe code patterns; no pattern is recognised yet.

use vstd::prelude::*;
use crate::ir::schema::{FileObject, RiskFlagObject};

verus! {

/// No unsafe pattern is recognised: every file yields no flag.
pub fn detect_unsafe_patterns(file: &FileObject, base_path: &str) -> (r: Option<RiskFlagObject>)
    ensures
        r is None,
{
    None
}

} // verus!
