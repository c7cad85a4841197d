//! Composition of two processors.
use crate::process::Process;
use crate::syntax::{Node, Tree};
use vstd::prelude::*;

verus! {

/// Runs `a`, then `b` on its result.
pub struct Chain<A: Process, B: Process> {
    pub a: A,
    pub b: B,
}

impl<A: Process, B: Process> Process for Chain<A, B> {
    open spec fn rewrite(&self, t: Node) -> Node {
        self.b.rewrite(self.a.rewrite(t))
    }

    fn process(&mut self, exp: Tree) -> (r: Tree) {
        let result = self.a.process(exp);
        self.b.process(result)
    }
}

impl<A: Process, B: Process> Chain<A, B> {
    /// This chain followed by `p`.
    pub fn append<C: Process>(self, p: C) -> (r: Chain<Chain<A, B>, C>)
        ensures
            r.a == self,
            r.b == p,
    {
        new(self, p)
    }
}

/// The chain of `a` and then `b`.
pub fn new<A: Process, B: Process>(a: A, b: B) -> (r: Chain<A, B>)
    ensures
        r.a == a,
        r.b == b,
{
    Chain { a, b }
}

} // verus!
