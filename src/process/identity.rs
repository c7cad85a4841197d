//! The processor that leaves a tree as it is.
use crate::process::Process;
use crate::syntax::{Node, Tree};
use vstd::prelude::*;

verus! {

/// Returns the tree unchanged.
#[derive(Debug, Clone, Copy, PartialEq, Eq, Structural)]
pub struct Identity {}

impl Process for Identity {
    open spec fn rewrite(&self, t: Node) -> Node {
        t
    }

    fn process(&mut self, exp: Tree) -> (r: Tree) {
        exp
    }
}

pub fn new() -> (r: Identity) {
    Identity {}
}

} // verus!
