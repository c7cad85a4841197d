//! Makes the paths of all images absolute, relative to the directory of the source file.
use crate::config::Config;
use crate::paths::{join_path, joined_path};
use crate::process::Process;
use crate::syntax::{cat_node, Node, Tree};
use vstd::prelude::*;

verus! {

/// Resolves relative image paths against `parent_dir`.
#[derive(Debug, Clone, PartialEq, Eq)]
pub struct ImageConverter {
    /// the directory of the source document
    pub parent_dir: String,
}

/// The path `p` resolved against `dir`: absolute paths stay as they are.
pub open spec fn resolved(dir: Seq<char>, p: Seq<char>) -> Seq<char> {
    if p.len() > 0 && p[0] == '/' {
        p
    } else {
        joined_path(dir, p)
    }
}

/// `t` with the literal path of every image resolved against `dir`.
pub open spec fn with_resolved_images(t: Node, dir: Seq<char>) -> Node
    decreases t,
{
    match t {
        Node::Document(dt, b) => Node::Document(dt, Box::new(with_resolved_images(*b, dir))),
        Node::Color(b) => Node::Color(Box::new(with_resolved_images(*b, dir))),
        Node::ChapterMark(b) => Node::ChapterMark(Box::new(with_resolved_images(*b, dir))),
        Node::Bold(b) => Node::Bold(Box::new(with_resolved_images(*b, dir))),
        Node::Italic(b) => Node::Italic(Box::new(with_resolved_images(*b, dir))),
        Node::BoldItalic(b) => Node::BoldItalic(Box::new(with_resolved_images(*b, dir))),
        Node::SmallCaps(b) => Node::SmallCaps(Box::new(with_resolved_images(*b, dir))),
        Node::InlineCode(b) => Node::InlineCode(Box::new(with_resolved_images(*b, dir))),
        Node::Quote(b) => Node::Quote(Box::new(with_resolved_images(*b, dir))),
        Node::Footnote(b) => Node::Footnote(Box::new(with_resolved_images(*b, dir))),
        Node::RightSidenote(b) => Node::RightSidenote(Box::new(with_resolved_images(*b, dir))),
        Node::MetaDataBlock(b) => Node::MetaDataBlock(Box::new(with_resolved_images(*b, dir))),
        Node::Heading(b, l, n) => Node::Heading(Box::new(with_resolved_images(*b, dir)), l, n),
        Node::DocRef(n, b) => Node::DocRef(n, Box::new(with_resolved_images(*b, dir))),
        Node::List(b, l) => Node::List(Box::new(with_resolved_images(*b, dir)), l),
        Node::ListItem(b, l) => Node::ListItem(Box::new(with_resolved_images(*b, dir)), l),
        Node::Cat(a, b) => cat_node(with_resolved_images(*a, dir), with_resolved_images(*b, dir)),
        Node::HyperRef(a, b) => Node::HyperRef(
            Box::new(with_resolved_images(*a, dir)),
            Box::new(with_resolved_images(*b, dir)),
        ),
        Node::ImageSizeSpec(a, b) => Node::ImageSizeSpec(
            Box::new(with_resolved_images(*a, dir)),
            Box::new(with_resolved_images(*b, dir)),
        ),
        Node::Image(c, p, s) => {
            let caption = Box::new(with_resolved_images(*c, dir));
            match *p {
                Node::Literal(path) => Node::Image(
                    caption,
                    Box::new(Node::Literal(resolved(dir, path))),
                    s,
                ),
                _ => Node::Image(caption, p, s),
            }
        },
        _ => t,
    }
}

/// A node with one sub tree.
pub open spec fn single_child(t: Node) -> bool {
    t is Document || t is Color || t is ChapterMark || t is Bold || t is Italic || t is BoldItalic
        || t is SmallCaps || t is InlineCode || t is Quote || t is Footnote || t is RightSidenote
        || t is MetaDataBlock || t is Heading || t is DocRef || t is List || t is ListItem
}

impl ImageConverter {
    /// Walks the whole tree, resolving image paths.
    pub fn walk(&self, exp: Tree) -> (r: Tree)
        ensures
            r@ == with_resolved_images(exp@, self.parent_dir@),
        decreases exp, 1nat,
    {
        match exp {
            Tree::Document(dt, be) => Tree::Document(dt, Box::new(self.walk(*be))),
            Tree::Color(b) => Tree::Color(Box::new(self.walk(*b))),
            Tree::ChapterMark(b) => Tree::ChapterMark(Box::new(self.walk(*b))),
            Tree::Bold(b) => Tree::Bold(Box::new(self.walk(*b))),
            Tree::Italic(b) => Tree::Italic(Box::new(self.walk(*b))),
            Tree::BoldItalic(b) => Tree::BoldItalic(Box::new(self.walk(*b))),
            Tree::SmallCaps(b) => Tree::SmallCaps(Box::new(self.walk(*b))),
            Tree::InlineCode(b) => Tree::InlineCode(Box::new(self.walk(*b))),
            Tree::Quote(b) => Tree::Quote(Box::new(self.walk(*b))),
            Tree::Footnote(b) => Tree::Footnote(Box::new(self.walk(*b))),
            Tree::RightSidenote(b) => Tree::RightSidenote(Box::new(self.walk(*b))),
            Tree::MetaDataBlock(b) => Tree::MetaDataBlock(Box::new(self.walk(*b))),
            Tree::Heading(b, l, n) => Tree::Heading(Box::new(self.walk(*b)), l, n),
            Tree::DocRef(n, b) => Tree::DocRef(n, Box::new(self.walk(*b))),
            Tree::List(b, l) => Tree::List(Box::new(self.walk(*b)), l),
            Tree::ListItem(b, l) => Tree::ListItem(Box::new(self.walk(*b)), l),
            other => self.walk_more(other),
        }
    }

    fn walk_more(&self, exp: Tree) -> (r: Tree)
        requires
            !single_child(exp@),
        ensures
            r@ == with_resolved_images(exp@, self.parent_dir@),
        decreases exp, 0nat,
    {
        match exp {
            Tree::Cat(b1, b2) => self.walk(*b1).cat(self.walk(*b2)),
            Tree::HyperRef(b1, b2) => Tree::HyperRef(Box::new(self.walk(*b1)), Box::new(self.walk(*b2))),
            Tree::ImageSizeSpec(b1, b2) => Tree::ImageSizeSpec(
                Box::new(self.walk(*b1)),
                Box::new(self.walk(*b2)),
            ),
            Tree::Image(caption, path, size_spec) => {
                let caption = self.walk(*caption);
                self.resolve_path(caption, *path, *size_spec)
            },
            other => other,
        }
    }

    /// The image with its path resolved, if the path is a literal.
    pub fn resolve_path(&self, caption: Tree, path: Tree, size_spec: Tree) -> (r: Tree)
        ensures
            r@ == match path@ {
                Node::Literal(p) => Node::Image(
                    Box::new(caption@),
                    Box::new(Node::Literal(resolved(self.parent_dir@, p))),
                    Box::new(size_spec@),
                ),
                _ => Node::Image(Box::new(caption@), Box::new(path@), Box::new(size_spec@)),
            },
    {
        proof {
            reveal_with_fuel(Tree::model, 2);
        }
        let path = match path {
            Tree::Literal(p) => {
                if starts_with_slash(p.as_str()) {
                    Tree::Literal(p)
                } else {
                    Tree::Literal(join_path(self.parent_dir.as_str(), p.as_str()))
                }
            },
            other => other,
        };
        Tree::Image(Box::new(caption), Box::new(path), Box::new(size_spec))
    }
}

fn starts_with_slash(s: &str) -> (r: bool)
    ensures
        r == (s@.len() > 0 && s@[0] == '/'),
{
    if s.is_empty() {
        false
    } else {
        s.get_char(0) == '/'
    }
}

impl Process for ImageConverter {
    open spec fn rewrite(&self, t: Node) -> Node {
        with_resolved_images(t, self.parent_dir@)
    }

    fn process(&mut self, exp: Tree) -> (r: Tree) {
        self.walk(exp)
    }
}

/// An image converter for the directory that `config` names.
pub fn new(c: &Config) -> (r: ImageConverter)
    ensures
        r.parent_dir@ == c.parent_dir@,
{
    ImageConverter { parent_dir: c.parent_dir.clone() }
}

} // verus!
