//! The error a lookup past the end of a list of cells reports.
use vstd::prelude::*;

verus! {

/// A lookup that found no element.
#[derive(Debug)]
pub enum Error {
    /// No element in list `list_name` at `index`; the list holds `len` elements.
    InvalidIndex { list_name: String, index: usize, len: usize },
}

} // verus!
