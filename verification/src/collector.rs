//! The description of a collected field.

use vstd::prelude::*;

verus! {

/// A field that a collector reports: its number, name and description.
pub struct Field {
    pub id: u64,
    pub name: String,
    pub desc: String,
}

} // verus!
