//! Rewrites of the syntax tree that run between parsing and rendering.
use crate::syntax::{Node, Tree};
use vstd::prelude::*;

pub mod canonicalize;
pub mod chain;
pub mod code_block;

pub mod identity;
pub mod image_converter;


verus! {

/// A processor rewrites a syntax tree.
pub trait Process: Sized {
    /// The tree that processing `t` gives.
    spec fn rewrite(&self, t: Node) -> Node;

    fn process(&mut self, exp: Tree) -> (r: Tree)
        ensures
            r@ == old(self).rewrite(exp@),
            *final(self) == *old(self),
    ;
}

} // verus!
