//! Replaces code blocks of the diagram dialect `pic`, wherever they stand, by the typesetter input
//! that the diagram preprocessor made of them. Running the preprocessor is the
//! caller's part: `pic_sources` lists its inputs, in document order, and the
//! processor puts the outputs in their places.
use crate::process::Process;
use crate::syntax::{cat_node, Node, Tree};
use crate::text::push_str;
use vstd::prelude::*;

verus! {

/// Puts rendered diagrams in place of `pic` code blocks.
#[derive(Debug, Clone, PartialEq, Eq)]
pub struct CodeBlockProcessor {
    /// the preprocessor output for each `pic` block, in document order
    pub fragments: Vec<String>,
}

/// A code block whose kind is the literal `pic`.
pub open spec fn is_pic(kind: Node) -> bool {
    kind == Node::Literal("pic"@)
}

/// The text of a code block body.
pub open spec fn body_text(content: Node) -> Seq<char> {
    match content {
        Node::PreformattedLiteral(s) => s,
        Node::Literal(s) => s,
        _ => Seq::empty(),
    }
}

/// The preprocessor input for a diagram body: the body inside `.PS` and `.PE`.
pub open spec fn pic_input(content: Node) -> Seq<char> {
    ".PS\n"@ + body_text(content) + "\n.PE\n"@
}

/// The preprocessor inputs of the `pic` blocks in the document and its sequences, in order.
pub open spec fn pic_inputs(t: Node) -> Seq<Seq<char>>
    decreases t,
{
    match t {
        Node::Document(_, b) => pic_inputs(*b),
        Node::Color(b) => pic_inputs(*b),
        Node::ChapterMark(b) => pic_inputs(*b),
        Node::Bold(b) => pic_inputs(*b),
        Node::Italic(b) => pic_inputs(*b),
        Node::BoldItalic(b) => pic_inputs(*b),
        Node::SmallCaps(b) => pic_inputs(*b),
        Node::InlineCode(b) => pic_inputs(*b),
        Node::Quote(b) => pic_inputs(*b),
        Node::Footnote(b) => pic_inputs(*b),
        Node::RightSidenote(b) => pic_inputs(*b),
        Node::MetaDataBlock(b) => pic_inputs(*b),
        Node::Heading(b, _, _) => pic_inputs(*b),
        Node::DocRef(_, b) => pic_inputs(*b),
        Node::List(b, _) => pic_inputs(*b),
        Node::ListItem(b, _) => pic_inputs(*b),
        Node::Cat(a, b) => pic_inputs(*a) + pic_inputs(*b),
        Node::HyperRef(a, b) => pic_inputs(*a) + pic_inputs(*b),
        Node::ImageSizeSpec(a, b) => pic_inputs(*a) + pic_inputs(*b),
        Node::Image(a, b, c) => pic_inputs(*a) + pic_inputs(*b) + pic_inputs(*c),
        Node::CodeBlock(k, c) => if is_pic(*k) {
            seq![pic_input(*c)]
        } else {
            Seq::empty()
        },
        _ => Seq::empty(),
    }
}

/// `t` with its `pic` blocks replaced by the fragments from index `i` on, as far
/// as there are fragments; and the index of the next fragment.
pub open spec fn with_pictures(t: Node, frags: Seq<Seq<char>>, i: int) -> (Node, int)
    decreases t,
{
    match t {
        Node::Document(dt, b) => {
            let (x, j) = with_pictures(*b, frags, i);
            (Node::Document(dt, Box::new(x)), j)
        },
        Node::Color(b) => {
            let (x, j) = with_pictures(*b, frags, i);
            (Node::Color(Box::new(x)), j)
        },
        Node::ChapterMark(b) => {
            let (x, j) = with_pictures(*b, frags, i);
            (Node::ChapterMark(Box::new(x)), j)
        },
        Node::Bold(b) => {
            let (x, j) = with_pictures(*b, frags, i);
            (Node::Bold(Box::new(x)), j)
        },
        Node::Italic(b) => {
            let (x, j) = with_pictures(*b, frags, i);
            (Node::Italic(Box::new(x)), j)
        },
        Node::BoldItalic(b) => {
            let (x, j) = with_pictures(*b, frags, i);
            (Node::BoldItalic(Box::new(x)), j)
        },
        Node::SmallCaps(b) => {
            let (x, j) = with_pictures(*b, frags, i);
            (Node::SmallCaps(Box::new(x)), j)
        },
        Node::InlineCode(b) => {
            let (x, j) = with_pictures(*b, frags, i);
            (Node::InlineCode(Box::new(x)), j)
        },
        Node::Quote(b) => {
            let (x, j) = with_pictures(*b, frags, i);
            (Node::Quote(Box::new(x)), j)
        },
        Node::Footnote(b) => {
            let (x, j) = with_pictures(*b, frags, i);
            (Node::Footnote(Box::new(x)), j)
        },
        Node::RightSidenote(b) => {
            let (x, j) = with_pictures(*b, frags, i);
            (Node::RightSidenote(Box::new(x)), j)
        },
        Node::MetaDataBlock(b) => {
            let (x, j) = with_pictures(*b, frags, i);
            (Node::MetaDataBlock(Box::new(x)), j)
        },
        Node::Heading(b, l, n) => {
            let (x, j) = with_pictures(*b, frags, i);
            (Node::Heading(Box::new(x), l, n), j)
        },
        Node::DocRef(n, b) => {
            let (x, j) = with_pictures(*b, frags, i);
            (Node::DocRef(n, Box::new(x)), j)
        },
        Node::List(b, l) => {
            let (x, j) = with_pictures(*b, frags, i);
            (Node::List(Box::new(x), l), j)
        },
        Node::ListItem(b, l) => {
            let (x, j) = with_pictures(*b, frags, i);
            (Node::ListItem(Box::new(x), l), j)
        },
        Node::Cat(a, b) => {
            let (x, j) = with_pictures(*a, frags, i);
            let (y, k) = with_pictures(*b, frags, j);
            (cat_node(x, y), k)
        },
        Node::HyperRef(a, b) => {
            let (x, j) = with_pictures(*a, frags, i);
            let (y, k) = with_pictures(*b, frags, j);
            (Node::HyperRef(Box::new(x), Box::new(y)), k)
        },
        Node::ImageSizeSpec(a, b) => {
            let (x, j) = with_pictures(*a, frags, i);
            let (y, k) = with_pictures(*b, frags, j);
            (Node::ImageSizeSpec(Box::new(x), Box::new(y)), k)
        },
        Node::Image(a, b, c) => {
            let (x, j) = with_pictures(*a, frags, i);
            let (y, k) = with_pictures(*b, frags, j);
            let (z, m) = with_pictures(*c, frags, k);
            (Node::Image(Box::new(x), Box::new(y), Box::new(z)), m)
        },
        Node::CodeBlock(kind, c) => if is_pic(*kind) {
            if 0 <= i < frags.len() {
                (Node::Literal(frags[i]), i + 1)
            } else {
                (t, i)
            }
        } else {
            (t, i)
        },
        _ => (t, i),
    }
}

/// A node with one sub tree.
pub open spec fn single_child(t: Node) -> bool {
    t is Document || t is Color || t is ChapterMark || t is Bold || t is Italic || t is BoldItalic
        || t is SmallCaps || t is InlineCode || t is Quote || t is Footnote || t is RightSidenote
        || t is MetaDataBlock || t is Heading || t is DocRef || t is List || t is ListItem
}

pub open spec fn views(v: Seq<String>) -> Seq<Seq<char>> {
    v.map_values(|s: String| s@)
}

fn is_pic_kind(kind: &Tree) -> (r: bool)
    ensures
        r == is_pic(kind@),
{
    match kind {
        Tree::Literal(s) => {
            let pic = "pic".to_owned();
            *s == pic
        },
        _ => false,
    }
}

/// The preprocessor input for a diagram body.
pub fn pic_source(content: &Tree) -> (r: String)
    ensures
        r@ == pic_input(content@),
{
    let mut out = ".PS\n".to_owned();
    match content {
        Tree::PreformattedLiteral(s) => push_str(&mut out, s.as_str()),
        Tree::Literal(s) => push_str(&mut out, s.as_str()),
        _ => {
            assert(out@ =~= ".PS\n"@ + body_text(content@));
        },
    }
    push_str(&mut out, "\n.PE\n");
    out
}

fn concat_sources(mut x: Vec<String>, mut y: Vec<String>) -> (r: Vec<String>)
    ensures
        views(r@) == views(x@) + views(y@),
{
    let ghost vx = x@;
    let ghost vy = y@;
    x.append(&mut y);
    assert(views(x@) =~= views(vx) + views(vy));
    x
}

fn no_sources() -> (r: Vec<String>)
    ensures
        views(r@) == Seq::<Seq<char>>::empty(),
{
    let v: Vec<String> = Vec::new();
    assert(views(v@) =~= Seq::<Seq<char>>::empty());
    v
}

/// The preprocessor inputs of the `pic` blocks, in document order.
pub fn pic_sources(t: &Tree) -> (r: Vec<String>)
    ensures
        views(r@) == pic_inputs(t@),
    decreases t,
{
    match t {
        Tree::Document(_, b) => pic_sources(b),
        Tree::Color(b) => pic_sources(b),
        Tree::ChapterMark(b) => pic_sources(b),
        Tree::Bold(b) => pic_sources(b),
        Tree::Italic(b) => pic_sources(b),
        Tree::BoldItalic(b) => pic_sources(b),
        Tree::SmallCaps(b) => pic_sources(b),
        Tree::InlineCode(b) => pic_sources(b),
        Tree::Quote(b) => pic_sources(b),
        Tree::Footnote(b) => pic_sources(b),
        Tree::RightSidenote(b) => pic_sources(b),
        Tree::MetaDataBlock(b) => pic_sources(b),
        Tree::Heading(b, _, _) => pic_sources(b),
        Tree::DocRef(_, b) => pic_sources(b),
        Tree::List(b, _) => pic_sources(b),
        Tree::ListItem(b, _) => pic_sources(b),
        Tree::Cat(a, b) => concat_sources(pic_sources(a), pic_sources(b)),
        Tree::HyperRef(a, b) => concat_sources(pic_sources(a), pic_sources(b)),
        Tree::ImageSizeSpec(a, b) => concat_sources(pic_sources(a), pic_sources(b)),
        Tree::Image(a, b, c) => concat_sources(
            concat_sources(pic_sources(a), pic_sources(b)),
            pic_sources(c),
        ),
        Tree::CodeBlock(k, c) => {
            if is_pic_kind(k) {
                let v = vec![pic_source(c)];
                assert(views(v@) =~= seq![pic_input(c@)]);
                v
            } else {
                no_sources()
            }
        },
        _ => no_sources(),
    }
}

impl CodeBlockProcessor {
    /// Replaces the `pic` blocks from the `i`-th fragment on; returns the index of the next one.
    pub fn walk(&self, exp: Tree, i: usize) -> (r: (Tree, usize))
        ensures
            with_pictures(exp@, views(self.fragments@), i as int) == (r.0@, r.1 as int),
        decreases exp, 1nat,
    {
        match exp {
            Tree::Document(dt, be) => {
                let (x, j) = self.walk(*be, i);
                (Tree::Document(dt, Box::new(x)), j)
            },
            Tree::Color(b) => {
                let (x, j) = self.walk(*b, i);
                (Tree::Color(Box::new(x)), j)
            },
            Tree::ChapterMark(b) => {
                let (x, j) = self.walk(*b, i);
                (Tree::ChapterMark(Box::new(x)), j)
            },
            Tree::Bold(b) => {
                let (x, j) = self.walk(*b, i);
                (Tree::Bold(Box::new(x)), j)
            },
            Tree::Italic(b) => {
                let (x, j) = self.walk(*b, i);
                (Tree::Italic(Box::new(x)), j)
            },
            Tree::BoldItalic(b) => {
                let (x, j) = self.walk(*b, i);
                (Tree::BoldItalic(Box::new(x)), j)
            },
            Tree::SmallCaps(b) => {
                let (x, j) = self.walk(*b, i);
                (Tree::SmallCaps(Box::new(x)), j)
            },
            Tree::InlineCode(b) => {
                let (x, j) = self.walk(*b, i);
                (Tree::InlineCode(Box::new(x)), j)
            },
            Tree::Quote(b) => {
                let (x, j) = self.walk(*b, i);
                (Tree::Quote(Box::new(x)), j)
            },
            Tree::Footnote(b) => {
                let (x, j) = self.walk(*b, i);
                (Tree::Footnote(Box::new(x)), j)
            },
            Tree::RightSidenote(b) => {
                let (x, j) = self.walk(*b, i);
                (Tree::RightSidenote(Box::new(x)), j)
            },
            Tree::MetaDataBlock(b) => {
                let (x, j) = self.walk(*b, i);
                (Tree::MetaDataBlock(Box::new(x)), j)
            },
            Tree::Heading(b, l, n) => {
                let (x, j) = self.walk(*b, i);
                (Tree::Heading(Box::new(x), l, n), j)
            },
            Tree::DocRef(n, b) => {
                let (x, j) = self.walk(*b, i);
                (Tree::DocRef(n, Box::new(x)), j)
            },
            Tree::List(b, l) => {
                let (x, j) = self.walk(*b, i);
                (Tree::List(Box::new(x), l), j)
            },
            Tree::ListItem(b, l) => {
                let (x, j) = self.walk(*b, i);
                (Tree::ListItem(Box::new(x), l), j)
            },
            other => self.walk_more(other, i),
        }
    }

    fn walk_more(&self, exp: Tree, i: usize) -> (r: (Tree, usize))
        requires
            !single_child(exp@),
        ensures
            with_pictures(exp@, views(self.fragments@), i as int) == (r.0@, r.1 as int),
        decreases exp, 0nat,
    {
        match exp {
            Tree::Cat(b1, b2) => {
                let (x, j) = self.walk(*b1, i);
                let (y, k) = self.walk(*b2, j);
                (x.cat(y), k)
            },
            Tree::HyperRef(b1, b2) => {
                let (x, j) = self.walk(*b1, i);
                let (y, k) = self.walk(*b2, j);
                (Tree::HyperRef(Box::new(x), Box::new(y)), k)
            },
            Tree::ImageSizeSpec(b1, b2) => {
                let (x, j) = self.walk(*b1, i);
                let (y, k) = self.walk(*b2, j);
                (Tree::ImageSizeSpec(Box::new(x), Box::new(y)), k)
            },
            Tree::Image(b1, b2, b3) => {
                let (x, j) = self.walk(*b1, i);
                let (y, k) = self.walk(*b2, j);
                let (z, m) = self.walk(*b3, k);
                (Tree::Image(Box::new(x), Box::new(y), Box::new(z)), m)
            },
            Tree::CodeBlock(kind, content) => {
                if is_pic_kind(&kind) && i < self.fragments.len() {
                    (Tree::Literal(self.fragments[i].clone()), i + 1)
                } else {
                    (Tree::CodeBlock(kind, content), i)
                }
            },
            other => (other, i),
        }
    }
}

impl Process for CodeBlockProcessor {
    open spec fn rewrite(&self, t: Node) -> Node {
        with_pictures(t, views(self.fragments@), 0).0
    }

    fn process(&mut self, exp: Tree) -> (r: Tree) {
        self.walk(exp, 0).0
    }
}

/// A processor without rendered diagrams: it leaves every code block as it is.
pub fn new() -> (r: CodeBlockProcessor)
    ensures
        r.fragments@.len() == 0,
{
    CodeBlockProcessor { fragments: Vec::new() }
}

/// A processor that puts `fragments` in place of the `pic` blocks, in order.
pub fn with_fragments(fragments: Vec<String>) -> (r: CodeBlockProcessor)
    ensures
        r.fragments@ == fragments@,
{
    CodeBlockProcessor { fragments }
}

/// `t` with every `pic` block replaced by the literal that `o` makes of its
/// preprocessor input.
pub open spec fn rendered(t: Node, o: spec_fn(Seq<char>) -> Seq<char>) -> Node
    decreases t,
{
    match t {
        Node::Document(dt, b) => Node::Document(dt, Box::new(rendered(*b, o))),
        Node::Color(b) => Node::Color(Box::new(rendered(*b, o))),
        Node::ChapterMark(b) => Node::ChapterMark(Box::new(rendered(*b, o))),
        Node::Bold(b) => Node::Bold(Box::new(rendered(*b, o))),
        Node::Italic(b) => Node::Italic(Box::new(rendered(*b, o))),
        Node::BoldItalic(b) => Node::BoldItalic(Box::new(rendered(*b, o))),
        Node::SmallCaps(b) => Node::SmallCaps(Box::new(rendered(*b, o))),
        Node::InlineCode(b) => Node::InlineCode(Box::new(rendered(*b, o))),
        Node::Quote(b) => Node::Quote(Box::new(rendered(*b, o))),
        Node::Footnote(b) => Node::Footnote(Box::new(rendered(*b, o))),
        Node::RightSidenote(b) => Node::RightSidenote(Box::new(rendered(*b, o))),
        Node::MetaDataBlock(b) => Node::MetaDataBlock(Box::new(rendered(*b, o))),
        Node::Heading(b, l, n) => Node::Heading(Box::new(rendered(*b, o)), l, n),
        Node::DocRef(n, b) => Node::DocRef(n, Box::new(rendered(*b, o))),
        Node::List(b, l) => Node::List(Box::new(rendered(*b, o)), l),
        Node::ListItem(b, l) => Node::ListItem(Box::new(rendered(*b, o)), l),
        Node::Cat(a, b) => cat_node(rendered(*a, o), rendered(*b, o)),
        Node::HyperRef(a, b) => Node::HyperRef(Box::new(rendered(*a, o)), Box::new(rendered(*b, o))),
        Node::ImageSizeSpec(a, b) => Node::ImageSizeSpec(
            Box::new(rendered(*a, o)),
            Box::new(rendered(*b, o)),
        ),
        Node::Image(a, b, c) => Node::Image(
            Box::new(rendered(*a, o)),
            Box::new(rendered(*b, o)),
            Box::new(rendered(*c, o)),
        ),
        Node::CodeBlock(k, c) => if is_pic(*k) {
            Node::Literal(o(pic_input(*c)))
        } else {
            t
        },
        _ => t,
    }
}

proof fn lemma_split_outputs(
    frags: Seq<Seq<char>>,
    i: int,
    a: Seq<Seq<char>>,
    b: Seq<Seq<char>>,
    o: spec_fn(Seq<char>) -> Seq<char>,
)
    requires
        0 <= i,
        i + a.len() + b.len() <= frags.len(),
        frags.subrange(i, i + a.len() + b.len()) == (a + b).map_values(o),
    ensures
        frags.subrange(i, i + a.len()) == a.map_values(o),
        frags.subrange(i + a.len(), i + a.len() + b.len()) == b.map_values(o),
{
    assert forall|j: int| 0 <= j < a.len() implies frags.subrange(i, i + a.len())[j]
        == a.map_values(o)[j] by {
        assert(frags[i + j] == frags.subrange(i, i + a.len() + b.len())[j]);
        assert((a + b)[j] == a[j]);
    }
    assert forall|j: int| 0 <= j < b.len() implies frags.subrange(
        i + a.len(),
        i + a.len() + b.len(),
    )[j] == b.map_values(o)[j] by {
        assert(frags[i + a.len() + j] == frags.subrange(i, i + a.len() + b.len())[a.len() + j]);
        assert((a + b)[a.len() + j] == b[j]);
    }
    assert(frags.subrange(i, i + a.len()) =~= a.map_values(o));
    assert(frags.subrange(i + a.len(), i + a.len() + b.len()) =~= b.map_values(o));
}

proof fn lemma_pictures(t: Node, frags: Seq<Seq<char>>, i: int, o: spec_fn(Seq<char>) -> Seq<char>)
    requires
        0 <= i,
        i + pic_inputs(t).len() <= frags.len(),
        frags.subrange(i, i + pic_inputs(t).len()) == pic_inputs(t).map_values(o),
    ensures
        with_pictures(t, frags, i) == (rendered(t, o), i + pic_inputs(t).len()),
    decreases t,
{
    match t {
        Node::Document(_, b) => lemma_pictures(*b, frags, i, o),
        Node::Color(b) => lemma_pictures(*b, frags, i, o),
        Node::ChapterMark(b) => lemma_pictures(*b, frags, i, o),
        Node::Bold(b) => lemma_pictures(*b, frags, i, o),
        Node::Italic(b) => lemma_pictures(*b, frags, i, o),
        Node::BoldItalic(b) => lemma_pictures(*b, frags, i, o),
        Node::SmallCaps(b) => lemma_pictures(*b, frags, i, o),
        Node::InlineCode(b) => lemma_pictures(*b, frags, i, o),
        Node::Quote(b) => lemma_pictures(*b, frags, i, o),
        Node::Footnote(b) => lemma_pictures(*b, frags, i, o),
        Node::RightSidenote(b) => lemma_pictures(*b, frags, i, o),
        Node::MetaDataBlock(b) => lemma_pictures(*b, frags, i, o),
        Node::Heading(b, _, _) => lemma_pictures(*b, frags, i, o),
        Node::DocRef(_, b) => lemma_pictures(*b, frags, i, o),
        Node::List(b, _) => lemma_pictures(*b, frags, i, o),
        Node::ListItem(b, _) => lemma_pictures(*b, frags, i, o),
        Node::Cat(a, b) => {
            lemma_split_outputs(frags, i, pic_inputs(*a), pic_inputs(*b), o);
            lemma_pictures(*a, frags, i, o);
            lemma_pictures(*b, frags, i + pic_inputs(*a).len(), o);
        },
        Node::HyperRef(a, b) => {
            lemma_split_outputs(frags, i, pic_inputs(*a), pic_inputs(*b), o);
            lemma_pictures(*a, frags, i, o);
            lemma_pictures(*b, frags, i + pic_inputs(*a).len(), o);
        },
        Node::ImageSizeSpec(a, b) => {
            lemma_split_outputs(frags, i, pic_inputs(*a), pic_inputs(*b), o);
            lemma_pictures(*a, frags, i, o);
            lemma_pictures(*b, frags, i + pic_inputs(*a).len(), o);
        },
        Node::Image(a, b, c) => {
            let ab = pic_inputs(*a) + pic_inputs(*b);
            lemma_split_outputs(frags, i, ab, pic_inputs(*c), o);
            lemma_split_outputs(frags, i, pic_inputs(*a), pic_inputs(*b), o);
            lemma_pictures(*a, frags, i, o);
            lemma_pictures(*b, frags, i + pic_inputs(*a).len(), o);
            lemma_pictures(*c, frags, i + ab.len(), o);
        },
        Node::CodeBlock(k, c) => {
            if is_pic(*k) {
                assert(frags[i] == frags.subrange(i, i + 1)[0]);
            }
        },
        _ => {},
    }
}

/// Given, in document order, the output `o` makes of each `pic` block's
/// preprocessor input, the processor puts each block's own output in its place.
pub proof fn lemma_each_block_gets_its_output(t: Node, o: spec_fn(Seq<char>) -> Seq<char>)
    ensures
        with_pictures(t, pic_inputs(t).map_values(o), 0) == (rendered(t, o), pic_inputs(t).len() as int),
{
    let frags = pic_inputs(t).map_values(o);
    assert(frags.subrange(0, pic_inputs(t).len() as int) =~= frags);
    lemma_pictures(t, frags, 0, o);
}

} // verus!
