//! The man page back end (man macros). A tree with a kind of node that a man page has
//! no form for (code blocks, quotes, notes, links, images, meta data) is refused.
use crate::render::Render;
use crate::syntax::{Node, Tree};
use crate::text::{push_str, to_uppercase, upper_of};
use vstd::prelude::*;

verus! {

/// Renders trees as man macros; inline code in the synopsis section becomes synopsis lines.
#[derive(Debug, Clone, Copy, PartialEq, Eq, Structural)]
pub struct ManRenderer {
    /// the current section is the synopsis
    pub in_synopsis: bool,
    /// a synopsis line is open
    pub sy_open: bool,
}

pub fn new() -> (r: ManRenderer)
    ensures
        !r.in_synopsis,
        !r.sy_open,
{
    ManRenderer { in_synopsis: false, sy_open: false }
}

/// The man text of `t` and the renderer after it.
pub open spec fn man(t: Node, st: ManRenderer) -> (Seq<char>, ManRenderer)
    decreases t,
{
    match t {
        Node::Document(_, b) => man(*b, st),
        Node::Paragraph => (".P\n"@, st),
        Node::Literal(s) => (s, st),
        Node::EscapeLit(s) => (if s == "."@ { "\\&."@ } else { s }, st),
        Node::Heading(b, level, _) => {
            let (x, st1) = man(*b, st);
            if level == 0 {
                (".TH "@ + x + "\n"@, st1)
            } else if level == 1 {
                if upper_of(x) == "SYNOPSIS"@ {
                    (".\n.SH "@ + x, ManRenderer { in_synopsis: true, sy_open: st1.sy_open })
                } else if st1.sy_open {
                    (".YS\n"@ + ".\n.SH "@ + x, ManRenderer { in_synopsis: false, sy_open: false })
                } else {
                    (".\n.SH "@ + x, ManRenderer { in_synopsis: false, sy_open: st1.sy_open })
                }
            } else if level == 2 {
                (".SS "@ + x + "\n"@, st1)
            } else {
                (x, st1)
            }
        },
        Node::Bold(b) => {
            let (x, st1) = man(*b, st);
            ("\\c\n.B "@ + x + "\\c\n"@, st1)
        },
        Node::Italic(b) => {
            let (x, st1) = man(*b, st);
            ("\\c\n.I "@ + x + "\\c\n"@, st1)
        },
        Node::InlineCode(b) => if st.in_synopsis {
            let (x, st1) = man(*b, ManRenderer { in_synopsis: st.in_synopsis, sy_open: true });
            ((if st.sy_open { ".YS\n"@ } else { Seq::empty() }) + ".SY "@ + x + "\n"@, st1)
        } else {
            man(*b, st)
        },
        Node::Cat(a, b) => {
            let (x, st1) = man(*a, st);
            let (y, st2) = man(*b, st1);
            (x + y, st2)
        },
        Node::List(b, _) => {
            let (x, st1) = man(*b, st);
            (".\n"@ + x, st1)
        },
        Node::ListItem(b, _) => {
            let (x, st1) = man(*b, st);
            (".TP\n.B "@ + x, st1)
        },
        Node::LineBreak => ("\n"@, st),
        _ => (Seq::empty(), st),
    }
}

/// The nodes this back end has a form for; a tree with any other node is refused.
pub open spec fn renders(t: Node) -> bool
    decreases t,
{
    match t {
        Node::Document(_, b) => renders(*b),
        Node::Literal(_) => true,
        Node::EscapeLit(_) => true,
        Node::Paragraph => true,
        Node::LineBreak => true,
        Node::VSpace => true,
        Node::Empty => true,
        Node::Heading(b, _, _) => renders(*b),
        Node::Bold(b) => renders(*b),
        Node::Italic(b) => renders(*b),
        Node::InlineCode(b) => renders(*b),
        Node::Cat(a, b) => renders(*a) && renders(*b),
        Node::List(b, _) => renders(*b),
        Node::ListItem(b, _) => renders(*b),
        _ => false,
    }
}

/// Whether every node of `t` has a form in this back end.
pub fn renderable(t: &Tree) -> (b: bool)
    ensures
        b == renders(t@),
    decreases t,
{
    match t {
        Tree::Document(_, b) => renderable(b),
        Tree::Literal(_) | Tree::EscapeLit(_) | Tree::Paragraph() | Tree::LineBreak() | Tree::VSpace()
        | Tree::Empty() => true,
        Tree::Heading(b, _, _) => renderable(b),
        Tree::Bold(b) => renderable(b),
        Tree::Italic(b) => renderable(b),
        Tree::InlineCode(b) => renderable(b),
        Tree::Cat(a, b) => renderable(a) && renderable(b),
        Tree::List(b, _) => renderable(b),
        Tree::ListItem(b, _) => renderable(b),
        _ => false,
    }
}

/// `pre`, then `x`, then `post`.
fn framed(pre: &str, x: String, post: &str) -> (r: String)
    ensures
        r@ == pre@ + x@ + post@,
{
    let mut out = pre.to_owned();
    push_str(&mut out, x.as_str());
    push_str(&mut out, post);
    out
}

fn text_is(a: &String, b: &str) -> (r: bool)
    ensures
        r == (a@ == b@),
{
    let t = b.to_owned();
    *a == t
}

impl ManRenderer {
    /// Renders `tree` as man macros.
    pub fn render_tree(&mut self, tree: Tree) -> (r: String)
        requires
            renders(tree@),
        ensures
            (r@, *final(self)) == man(tree@, *old(self)),
        decreases tree,
    {
        match tree {
            Tree::Document(_, t) => self.render_tree(*t),
            Tree::Paragraph() => ".P\n".to_owned(),
            Tree::Literal(l) => l,
            Tree::EscapeLit(s) => {
                if text_is(&s, ".") {
                    "\\&.".to_owned()
                } else {
                    s
                }
            },
            Tree::Heading(t, level, _) => {
                let x = self.render_tree(*t);
                if level == 0 {
                    framed(".TH ", x, "\n")
                } else if level == 1 {
                    let upper = to_uppercase(x.as_str());
                    if text_is(&upper, "SYNOPSIS") {
                        self.in_synopsis = true;
                        let mut out = ".\n.SH ".to_owned();
                        push_str(&mut out, x.as_str());
                        out
                    } else {
                        self.in_synopsis = false;
                        let mut out = String::new();
                        if self.sy_open {
                            out = ".YS\n".to_owned();
                            self.sy_open = false;
                        }
                        let h = ".\n.SH ".to_owned();
                        let mut out2 = out;
                        push_str(&mut out2, h.as_str());
                        push_str(&mut out2, x.as_str());
                        out2
                    }
                } else if level == 2 {
                    framed(".SS ", x, "\n")
                } else {
                    x
                }
            },
            Tree::Bold(t) => framed("\\c\n.B ", self.render_tree(*t), "\\c\n"),
            Tree::Italic(t) => framed("\\c\n.I ", self.render_tree(*t), "\\c\n"),
            Tree::InlineCode(t) => {
                if self.in_synopsis {
                    let mut out = if self.sy_open {
                        ".YS\n".to_owned()
                    } else {
                        String::new()
                    };
                    self.sy_open = true;
                    let x = self.render_tree(*t);
                    push_str(&mut out, ".SY ");
                    push_str(&mut out, x.as_str());
                    push_str(&mut out, "\n");
                    out
                } else {
                    self.render_tree(*t)
                }
            },
            Tree::Cat(t1, t2) => {
                let mut x = self.render_tree(*t1);
                let y = self.render_tree(*t2);
                push_str(&mut x, y.as_str());
                x
            },
            Tree::List(t, _) => {
                let x = self.render_tree(*t);
                let mut out = ".\n".to_owned();
                push_str(&mut out, x.as_str());
                out
            },
            Tree::ListItem(t, _) => {
                let x = self.render_tree(*t);
                let mut out = ".TP\n.B ".to_owned();
                push_str(&mut out, x.as_str());
                out
            },
            Tree::LineBreak() => "\n".to_owned(),
            _ => String::new(),
        }
    }
}

impl Render for ManRenderer {
    open spec fn output(&self, t: Node) -> Seq<char> {
        man(t, *self).0
    }

    open spec fn after(&self, t: Node) -> ManRenderer {
        man(t, *self).1
    }

    open spec fn accepts(&self, t: Node) -> bool {
        renders(t)
    }

    fn can_render(&self, t: &Tree) -> (b: bool) {
        renderable(t)
    }

    fn render(&mut self, tree: Tree) -> (r: String) {
        self.render_tree(tree)
    }
}

} // verus!
