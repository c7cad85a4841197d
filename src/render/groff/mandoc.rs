//! The man page back end (mdoc macros). A tree with a kind of node that a man page has
//! no form for (code blocks, quotes, notes, links, images, meta data) is refused.
use crate::render::Render;
use crate::syntax::{Node, Tree};
use crate::text::{push_char, push_str, to_uppercase, upper_of};
use vstd::prelude::*;

verus! {

/// Renders trees as mdoc macros; the first level 1 heading ends the title section.
#[derive(Debug, Clone, Copy, PartialEq, Eq, Structural)]
pub struct ManDocRenderer {
    /// still in the title section
    pub in_title: bool,
    /// a synopsis line of the title section is open
    pub title_open: bool,
}

pub fn new() -> (r: ManDocRenderer)
    ensures
        r.in_title,
        r.title_open,
{
    ManDocRenderer { in_title: true, title_open: true }
}

/// The mdoc text of `t` and the renderer after it.
pub open spec fn mdoc(t: Node, st: ManDocRenderer) -> (Seq<char>, ManDocRenderer)
    decreases t,
{
    match t {
        Node::Document(_, b) => {
            let (x, st1) = mdoc(*b, st);
            (".Dd $Mdocdate$\n"@ + x, st1)
        },
        Node::Paragraph => (".Pp\n"@, st),
        Node::Literal(s) => (s, st),
        Node::EscapeLit(s) => (if s == "."@ { "\\&."@ } else { s }, st),
        Node::DropCap(c, _) => (seq![c], st),
        Node::Heading(b, level, _) => {
            let (x, st1) = mdoc(*b, st);
            if level == 0 {
                (".Dt "@ + upper_of(x) + " 7\n.Os\n.Sh Title\n.Nm "@ + x + "\n"@, st1)
            } else if level == 1 {
                if st1.in_title {
                    (".Nd "@ + x, ManDocRenderer { in_title: false, title_open: false })
                } else {
                    (".Sh "@ + x, st1)
                }
            } else if level == 2 {
                (".Ss "@ + x, st1)
            } else {
                (x, st1)
            }
        },
        Node::Bold(b) => {
            let (x, st1) = mdoc(*b, st);
            ("\\c\n.B "@ + x + "\\c\n"@, st1)
        },
        Node::Italic(b) => {
            let (x, st1) = mdoc(*b, st);
            ("\\c\n.I "@ + x + "\\c\n"@, st1)
        },
        Node::InlineCode(b) => if st.in_title {
            let (x, st1) = mdoc(*b, ManDocRenderer { in_title: st.in_title, title_open: true });
            ((if st.title_open { ".YS\n"@ } else { Seq::empty() }) + ".SY "@ + x + "\n"@, st1)
        } else {
            mdoc(*b, st)
        },
        Node::Cat(a, b) => {
            let (x, st1) = mdoc(*a, st);
            let (y, st2) = mdoc(*b, st1);
            (x + y, st2)
        },
        Node::List(b, _) => {
            let (x, st1) = mdoc(*b, st);
            (".\n"@ + x, st1)
        },
        Node::ListItem(b, _) => {
            let (x, st1) = mdoc(*b, st);
            (".TP\n.B "@ + x, st1)
        },
        Node::LineBreak => (if st.in_title { Seq::empty() } else { "\n"@ }, st),
        _ => (Seq::empty(), st),
    }
}

/// The nodes this back end has a form for; a tree with any other node is refused.
pub open spec fn renders(t: Node) -> bool
    decreases t,
{
    match t {
        Node::Document(_, b) => renders(*b),
        Node::Literal(_) => true,
        Node::EscapeLit(_) => true,
        Node::Paragraph => true,
        Node::LineBreak => true,
        Node::VSpace => true,
        Node::Empty => true,
        Node::DropCap(_, _) => true,
        Node::Color(_) => true,
        Node::ChapterMark(_) => true,
        Node::Heading(b, _, _) => renders(*b),
        Node::Bold(b) => renders(*b),
        Node::Italic(b) => renders(*b),
        Node::InlineCode(b) => renders(*b),
        Node::Cat(a, b) => renders(*a) && renders(*b),
        Node::List(b, _) => renders(*b),
        Node::ListItem(b, _) => renders(*b),
        _ => false,
    }
}

/// Whether every node of `t` has a form in this back end.
pub fn renderable(t: &Tree) -> (b: bool)
    ensures
        b == renders(t@),
    decreases t,
{
    match t {
        Tree::Document(_, b) => renderable(b),
        Tree::Literal(_) | Tree::EscapeLit(_) | Tree::Paragraph() | Tree::LineBreak() | Tree::VSpace()
        | Tree::Empty() | Tree::DropCap(_, _) | Tree::Color(_) | Tree::ChapterMark(_) => true,
        Tree::Heading(b, _, _) => renderable(b),
        Tree::Bold(b) => renderable(b),
        Tree::Italic(b) => renderable(b),
        Tree::InlineCode(b) => renderable(b),
        Tree::Cat(a, b) => renderable(a) && renderable(b),
        Tree::List(b, _) => renderable(b),
        Tree::ListItem(b, _) => renderable(b),
        _ => false,
    }
}

/// `pre`, then `x`, then `post`.
fn framed(pre: &str, x: String, post: &str) -> (r: String)
    ensures
        r@ == pre@ + x@ + post@,
{
    let mut out = pre.to_owned();
    push_str(&mut out, x.as_str());
    push_str(&mut out, post);
    out
}

fn prefixed(pre: &str, x: String) -> (r: String)
    ensures
        r@ == pre@ + x@,
{
    let mut out = pre.to_owned();
    push_str(&mut out, x.as_str());
    out
}

fn text_is(a: &String, b: &str) -> (r: bool)
    ensures
        r == (a@ == b@),
{
    let t = b.to_owned();
    *a == t
}

impl ManDocRenderer {
    /// Renders `tree` as mdoc macros.
    pub fn render_tree(&mut self, tree: Tree) -> (r: String)
        requires
            renders(tree@),
        ensures
            (r@, *final(self)) == mdoc(tree@, *old(self)),
        decreases tree,
    {
        match tree {
            Tree::Document(_, t) => prefixed(".Dd $Mdocdate$\n", self.render_tree(*t)),
            Tree::Paragraph() => ".Pp\n".to_owned(),
            Tree::Literal(l) => l,
            Tree::EscapeLit(s) => {
                if text_is(&s, ".") {
                    "\\&.".to_owned()
                } else {
                    s
                }
            },
            Tree::DropCap(c, _) => {
                let mut out = String::new();
                push_char(&mut out, c);
                out
            },
            Tree::Heading(t, level, _) => {
                let x = self.render_tree(*t);
                if level == 0 {
                    let upper = to_uppercase(x.as_str());
                    let out = framed(".Dt ", upper, " 7\n.Os\n.Sh Title\n.Nm ");
                    framed(out.as_str(), x, "\n")
                } else if level == 1 {
                    if self.in_title {
                        self.in_title = false;
                        self.title_open = false;
                        prefixed(".Nd ", x)
                    } else {
                        prefixed(".Sh ", x)
                    }
                } else if level == 2 {
                    prefixed(".Ss ", x)
                } else {
                    x
                }
            },
            Tree::Bold(t) => framed("\\c\n.B ", self.render_tree(*t), "\\c\n"),
            Tree::Italic(t) => framed("\\c\n.I ", self.render_tree(*t), "\\c\n"),
            Tree::InlineCode(t) => {
                if self.in_title {
                    let mut out = if self.title_open {
                        ".YS\n".to_owned()
                    } else {
                        String::new()
                    };
                    self.title_open = true;
                    let x = self.render_tree(*t);
                    push_str(&mut out, ".SY ");
                    push_str(&mut out, x.as_str());
                    push_str(&mut out, "\n");
                    out
                } else {
                    self.render_tree(*t)
                }
            },
            Tree::Cat(t1, t2) => {
                let mut x = self.render_tree(*t1);
                let y = self.render_tree(*t2);
                push_str(&mut x, y.as_str());
                x
            },
            Tree::List(t, _) => prefixed(".\n", self.render_tree(*t)),
            Tree::ListItem(t, _) => prefixed(".TP\n.B ", self.render_tree(*t)),
            Tree::LineBreak() => {
                if self.in_title {
                    String::new()
                } else {
                    "\n".to_owned()
                }
            },
            _ => String::new(),
        }
    }
}

impl Render for ManDocRenderer {
    open spec fn output(&self, t: Node) -> Seq<char> {
        mdoc(t, *self).0
    }

    open spec fn after(&self, t: Node) -> ManDocRenderer {
        mdoc(t, *self).1
    }

    open spec fn accepts(&self, t: Node) -> bool {
        renders(t)
    }

    fn can_render(&self, t: &Tree) -> (b: bool) {
        renderable(t)
    }

    fn render(&mut self, tree: Tree) -> (r: String) {
        self.render_tree(tree)
    }
}

} // verus!
