//! The static part of a loaded project: its targets in order.

use vstd::prelude::*;
use crate::target::Target;

verus! {

/// A loaded project: the ordered targets, the stage among them.
#[derive(Debug)]
pub struct Project {
    pub targets: Vec<Target>,
}

} // verus!
