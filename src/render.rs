//! Renderers from a syntax tree to the text of a target language.
use crate::syntax::{Node, Tree};
use vstd::prelude::*;

pub mod groff;
pub mod markdown;
pub mod tex;



verus! {

/// A renderer turns a tree into text, possibly updating its own state.
pub trait Render: Sized {
    /// The text that rendering `t` gives.
    spec fn output(&self, t: Node) -> Seq<char>;

    /// The renderer after rendering `t`.
    spec fn after(&self, t: Node) -> Self;

    /// The renderer has a form for every node of `t`.
    spec fn accepts(&self, t: Node) -> bool;

    /// Whether the renderer has a form for every node of `t`.
    fn can_render(&self, t: &Tree) -> (b: bool)
        ensures
            b == self.accepts(t@),
    ;

    fn render(&mut self, tree: Tree) -> (r: String)
        requires
            old(self).accepts(tree@),
        ensures
            r@ == old(self).output(tree@),
            *final(self) == old(self).after(tree@),
    ;
}

} // verus!
