//! Token estimates and the plans of which files to hand to a language model.

pub mod priority;
pub mod token_estimator;
pub mod planner;
pub mod map_planner;

use vstd::prelude::*;
use crate::map::schema::{Centrality, ProjectSkeleton, Symbol};
use crate::text::{chars_of, contains_text, str_contains};

verus! {

/// What is handed over to explain one element: the file, the element, the
/// file's text, the project's outline and the element's centrality.
pub struct ExplainContext {
    pub file_path: String,
    pub element: Symbol,
    pub file_content: String,
    pub project_skeleton: ProjectSkeleton,
    pub centrality: Centrality,
}

/// A symbol answers to `element` when it is its name or occurs in its id.
pub open spec fn names_element(s: Symbol, element: Seq<char>) -> bool {
    s.name@ == element || contains_text(s.id@, element)
}

/// The position of the first symbol that answers to `element`, or none.
pub fn find_element(symbols: &[Symbol], element: &str) -> (r: Option<usize>)
    ensures
        match r {
            Some(i) => i < symbols@.len() && names_element(symbols@[i as int], element@) && forall|j: int|
                0 <= j < i ==> !names_element(#[trigger] symbols@[j], element@),
            None => forall|j: int| 0 <= j < symbols@.len() ==> !names_element(#[trigger] symbols@[j], element@),
        },
{
    let ec = chars_of(element);
    let mut i: usize = 0;
    while i < symbols.len()
        invariant
            i <= symbols@.len(),
            ec@ == element@,
            forall|j: int| 0 <= j < i ==> !names_element(#[trigger] symbols@[j], element@),
        decreases symbols.len() - i,
    {
        let s = &symbols[i];
        let nc = chars_of(s.name.as_str());
        let ic = chars_of(s.id.as_str());
        if crate::text::same_exec(nc.as_slice(), ec.as_slice()) || str_contains(ic.as_slice(), element) {
            return Some(i);
        }
        i += 1;
    }
    None
}

} // verus!
