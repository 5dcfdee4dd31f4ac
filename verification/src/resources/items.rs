//! Item resources as the service reports them.

use vstd::prelude::*;

verus! {

/// An item as the service reports it.
#[derive(Debug)]
pub struct Item {
}

/// A list of items as the service reports it.
#[derive(Debug)]
pub struct Items {
    pub items: Vec<Item>,
}

} // verus!
