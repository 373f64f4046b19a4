//! The search roots: the directories under which an application's files are
//! looked for.

use vstd::prelude::*;
use crate::distinct::{distinct_keys, distinct_texts, keep_first, text_key};

verus! {

/// The search roots of a scan. Roots are hints: one that does not exist is
/// passed over, and roots may overlap.
#[derive(Debug)]
pub struct LocationsScan {
    pub paths: Vec<String>,
}

impl View for LocationsScan {
    type V = Seq<Seq<char>>;

    open spec fn view(&self) -> Seq<Seq<char>> {
        self.paths.deep_view()
    }
}

impl LocationsScan {
    /// No search root.
    pub fn new() -> (r: LocationsScan)
        ensures
            r@ == Seq::<Seq<char>>::empty(),
    {
        let paths: Vec<String> = Vec::new();
        assert(paths.deep_view() =~= Seq::<Seq<char>>::empty());
        LocationsScan { paths }
    }

    /// The given roots, each once, in the order given.
    pub fn from_roots(roots: &Vec<String>) -> (r: LocationsScan)
        ensures
            r@ == keep_first(roots.deep_view(), text_key()),
            distinct_keys(r@, text_key()),
    {
        LocationsScan { paths: distinct_texts(roots) }
    }

    /// The number of roots.
    pub fn len(&self) -> (r: usize)
        ensures
            r == self@.len(),
    {
        self.paths.len()
    }
}

} // verus!
