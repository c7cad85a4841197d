//! The TeX back end. TeX nests styles itself, so this renderer keeps no state.
use crate::render::Render;
use crate::syntax::{Node, Tree};
use crate::text::push_str;
use vstd::prelude::*;

verus! {

/// Renders trees as TeX.
#[derive(Debug, Clone, Copy, PartialEq, Eq, Structural)]
pub struct Renderer {}

/// The sectioning command of a heading level.
pub open spec fn section(level: u8) -> Seq<char> {
    if level == 2 {
        "subsubsection"@
    } else if level == 1 {
        "subsection"@
    } else {
        "section"@
    }
}

/// The TeX text of `t`.
pub open spec fn tex(t: Node) -> Seq<char>
    decreases t,
{
    match t {
        Node::Literal(s) => s,
        Node::PreformattedLiteral(s) => s,
        Node::EscapeLit(s) => "\\"@ + s,
        Node::Bold(b) => "\\textbf{"@ + tex(*b) + "}"@,
        Node::Italic(b) => "\\textit{"@ + tex(*b) + "}"@,
        Node::BoldItalic(b) => "\\textbf{\\textit{"@ + tex(*b) + "}}"@,
        Node::SmallCaps(b) => tex(*b),
        Node::CodeBlock(_, b) => "\\texttt{"@ + tex(*b) + "}"@,
        Node::InlineCode(b) => "\\texttt{"@ + tex(*b) + "}"@,
        Node::Heading(b, level, _) => "\\"@ + section(level) + "{"@ + tex(*b) + "}"@,
        Node::Quote(b) => "\"`"@ + tex(*b) + "\"'"@,
        Node::ChapterMark(b) => tex(*b),
        Node::RightSidenote(b) => tex(*b),
        Node::Footnote(b) => "~\\footnote{"@ + tex(*b) + "}"@,
        Node::HyperRef(text, url) => "\\href{"@ + tex(*url) + "}{"@ + tex(*text) + "}"@,
        Node::DocRef(_, text) => tex(*text),
        Node::Cat(a, b) => tex(*a) + tex(*b),
        Node::Document(_, b) => tex(*b),
        Node::LineBreak => "\n"@,
        _ => Seq::empty(),
    }
}

/// `pre`, then `x`, then `post`.
fn framed(pre: &str, x: String, post: &str) -> (r: String)
    ensures
        r@ == pre@ + x@ + post@,
{
    let mut out = pre.to_owned();
    push_str(&mut out, x.as_str());
    push_str(&mut out, post);
    out
}

/// Renders `exp` as TeX.
pub fn render_internal(exp: Tree) -> (r: String)
    ensures
        r@ == tex(exp@),
    decreases exp,
{
    match exp {
        Tree::Literal(s) => s,
        Tree::PreformattedLiteral(s) => s,
        Tree::EscapeLit(s) => {
            let mut x = "\\".to_owned();
            push_str(&mut x, s.as_str());
            x
        },
        Tree::Bold(b) => framed("\\textbf{", render_internal(*b), "}"),
        Tree::Italic(b) => framed("\\textit{", render_internal(*b), "}"),
        Tree::BoldItalic(b) => framed("\\textbf{\\textit{", render_internal(*b), "}}"),
        Tree::SmallCaps(b) => render_internal(*b),
        Tree::CodeBlock(_, b) => framed("\\texttt{", render_internal(*b), "}"),
        Tree::InlineCode(b) => framed("\\texttt{", render_internal(*b), "}"),
        Tree::Heading(b, level, _) => {
            let name = if level == 2 {
                "subsubsection"
            } else if level == 1 {
                "subsection"
            } else {
                "section"
            };
            let head = framed("\\", name.to_owned(), "{");
            framed(head.as_str(), render_internal(*b), "}")
        },
        Tree::Quote(b) => framed("\"`", render_internal(*b), "\"'"),
        Tree::ChapterMark(b) => render_internal(*b),
        Tree::RightSidenote(b) => render_internal(*b),
        Tree::Footnote(b) => framed("~\\footnote{", render_internal(*b), "}"),
        Tree::HyperRef(text, url) => {
            let u = framed("\\href{", render_internal(*url), "}{");
            framed(u.as_str(), render_internal(*text), "}")
        },
        Tree::DocRef(_, text) => render_internal(*text),
        Tree::Cat(a, b) => {
            let mut x = render_internal(*a);
            let y = render_internal(*b);
            push_str(&mut x, y.as_str());
            x
        },
        Tree::Document(_, b) => render_internal(*b),
        Tree::LineBreak() => "\n".to_owned(),
        _ => String::new(),
    }
}

impl Render for Renderer {
    open spec fn output(&self, t: Node) -> Seq<char> {
        tex(t)
    }

    open spec fn after(&self, t: Node) -> Renderer {
        *self
    }

    open spec fn accepts(&self, t: Node) -> bool {
        true
    }

    fn can_render(&self, t: &Tree) -> (b: bool) {
        true
    }

    fn render(&mut self, tree: Tree) -> (r: String) {
        render_internal(tree)
    }
}

/// A TeX renderer.
pub fn new() -> (r: Renderer) {
    Renderer {}
}

} // verus!
