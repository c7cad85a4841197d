//! The abstract syntax tree of a document and its mathematical model.
use vstd::prelude::*;

verus! {

/// The kind of a document, chosen by the `doctype` meta data key.
#[allow(non_camel_case_types)]
#[derive(Debug, Clone, Copy, PartialEq, Eq, Structural)]
pub enum DocType {
    DEFAULT,
    CHAPTER,
    SLIDES,
    LETTER,
}

/// A node of the syntax tree; every sub tree is owned by its parent.
#[derive(Debug)]
pub enum Tree {
    Document(DocType, Box<Tree>),
    /// Separates consecutive paragraphs.
    Paragraph(),
    /// Verbatim text, such as the body of a code block.
    PreformattedLiteral(String),
    /// Text rendered as it is.
    Literal(String),
    /// A character that each back end renders in its own escaped form.
    EscapeLit(String),
    /// A dropped capital: the character and the number of lines it spans.
    DropCap(char, u8),
    Color(Box<Tree>),
    ChapterMark(Box<Tree>),
    /// Title, level and anchor name of a section heading.
    Heading(Box<Tree>, u8, String),
    Bold(Box<Tree>),
    Italic(Box<Tree>),
    /// Bold and italic at once: the typesetter needs one combined switch.
    BoldItalic(Box<Tree>),
    SmallCaps(Box<Tree>),
    /// Kind and body of a code block.
    CodeBlock(Box<Tree>, Box<Tree>),
    InlineCode(Box<Tree>),
    Quote(Box<Tree>),
    Footnote(Box<Tree>),
    RightSidenote(Box<Tree>),
    /// Link text and address of a web link.
    HyperRef(Box<Tree>, Box<Tree>),
    /// Target name and link text of a link inside the document.
    DocRef(String, Box<Tree>),
    /// Sequential composition.
    Cat(Box<Tree>, Box<Tree>),
    /// Items and nesting level of a list.
    List(Box<Tree>, u8),
    /// Content and nesting level of a list item.
    ListItem(Box<Tree>, u8),
    MetaDataBlock(Box<Tree>),
    /// Key and value of a meta data entry.
    MetaDataItem(String, String),
    /// Width and height of an image.
    ImageSizeSpec(Box<Tree>, Box<Tree>),
    /// Caption, path and size of an image.
    Image(Box<Tree>, Box<Tree>, Box<Tree>),
    LineBreak(),
    /// Explicit vertical space, as after a heading.
    VSpace(),
    /// The neutral element of `Cat`.
    Empty(),
}

/// The mathematical value of a `Tree`: the same shape, with text as sequences of characters.
pub enum Node {
    Document(DocType, Box<Node>),
    Paragraph,
    PreformattedLiteral(Seq<char>),
    Literal(Seq<char>),
    EscapeLit(Seq<char>),
    DropCap(char, u8),
    Color(Box<Node>),
    ChapterMark(Box<Node>),
    Heading(Box<Node>, u8, Seq<char>),
    Bold(Box<Node>),
    Italic(Box<Node>),
    BoldItalic(Box<Node>),
    SmallCaps(Box<Node>),
    CodeBlock(Box<Node>, Box<Node>),
    InlineCode(Box<Node>),
    Quote(Box<Node>),
    Footnote(Box<Node>),
    RightSidenote(Box<Node>),
    HyperRef(Box<Node>, Box<Node>),
    DocRef(Seq<char>, Box<Node>),
    Cat(Box<Node>, Box<Node>),
    List(Box<Node>, u8),
    ListItem(Box<Node>, u8),
    MetaDataBlock(Box<Node>),
    MetaDataItem(Seq<char>, Seq<char>),
    ImageSizeSpec(Box<Node>, Box<Node>),
    Image(Box<Node>, Box<Node>, Box<Node>),
    LineBreak,
    VSpace,
    Empty,
}

impl Tree {
    /// The model of a tree.
    pub open spec fn model(&self) -> Node
        decreases self,
    {
        match self {
            Tree::Document(d, t) => Node::Document(*d, Box::new(t.model())),
            Tree::Paragraph() => Node::Paragraph,
            Tree::PreformattedLiteral(s) => Node::PreformattedLiteral(s@),
            Tree::Literal(s) => Node::Literal(s@),
            Tree::EscapeLit(s) => Node::EscapeLit(s@),
            Tree::DropCap(c, n) => Node::DropCap(*c, *n),
            Tree::Color(t) => Node::Color(Box::new(t.model())),
            Tree::ChapterMark(t) => Node::ChapterMark(Box::new(t.model())),
            Tree::Heading(t, l, n) => Node::Heading(Box::new(t.model()), *l, n@),
            Tree::Bold(t) => Node::Bold(Box::new(t.model())),
            Tree::Italic(t) => Node::Italic(Box::new(t.model())),
            Tree::BoldItalic(t) => Node::BoldItalic(Box::new(t.model())),
            Tree::SmallCaps(t) => Node::SmallCaps(Box::new(t.model())),
            Tree::CodeBlock(k, b) => Node::CodeBlock(Box::new(k.model()), Box::new(b.model())),
            Tree::InlineCode(t) => Node::InlineCode(Box::new(t.model())),
            Tree::Quote(t) => Node::Quote(Box::new(t.model())),
            Tree::Footnote(t) => Node::Footnote(Box::new(t.model())),
            Tree::RightSidenote(t) => Node::RightSidenote(Box::new(t.model())),
            Tree::HyperRef(a, b) => Node::HyperRef(Box::new(a.model()), Box::new(b.model())),
            Tree::DocRef(n, t) => Node::DocRef(n@, Box::new(t.model())),
            Tree::Cat(a, b) => Node::Cat(Box::new(a.model()), Box::new(b.model())),
            Tree::List(t, l) => Node::List(Box::new(t.model()), *l),
            Tree::ListItem(t, l) => Node::ListItem(Box::new(t.model()), *l),
            Tree::MetaDataBlock(t) => Node::MetaDataBlock(Box::new(t.model())),
            Tree::MetaDataItem(k, v) => Node::MetaDataItem(k@, v@),
            Tree::ImageSizeSpec(a, b) => Node::ImageSizeSpec(Box::new(a.model()), Box::new(b.model())),
            Tree::Image(c, p, s) => Node::Image(Box::new(c.model()), Box::new(p.model()), Box::new(s.model())),
            Tree::LineBreak() => Node::LineBreak,
            Tree::VSpace() => Node::VSpace,
            Tree::Empty() => Node::Empty,
        }
    }
}

impl View for Tree {
    type V = Node;

    open spec fn view(&self) -> Node {
        self.model()
    }
}

/// The model of `a.cat(b)`.
pub open spec fn cat_node(a: Node, b: Node) -> Node {
    Node::Cat(Box::new(a), Box::new(b))
}

impl Tree {
    /// Composes `self` and then `expr`.
    #[must_use]
    pub fn cat(self, expr: Self) -> (r: Self)
        ensures
            r@ == cat_node(self@, expr@),
    {
        Tree::Cat(Box::new(self), Box::new(expr))
    }

    /// Composes `self` and then the boxed `expr`, boxing the result.
    pub fn cat_box(self, expr: Box<Self>) -> (r: Box<Self>)
        ensures
            r@ == cat_node(self@, expr@),
    {
        Box::new(Tree::Cat(Box::new(self), expr))
    }
}

/// A literal holding a copy of `s`.
#[must_use]
pub fn lit(s: &str) -> (r: Tree)
    ensures
        r@ == Node::Literal(s@),
{
    Tree::Literal(s.to_owned())
}

/// A preformatted literal holding a copy of `s`.
#[must_use]
pub fn prelit(s: &str) -> (r: Tree)
    ensures
        r@ == Node::PreformattedLiteral(s@),
{
    Tree::PreformattedLiteral(s.to_owned())
}

/// An escaped literal holding a copy of `s`.
#[must_use]
pub fn escape_lit(s: &str) -> (r: Tree)
    ensures
        r@ == Node::EscapeLit(s@),
{
    Tree::EscapeLit(s.to_owned())
}

#[must_use]
pub fn heading(exp: Tree, lvl: u8, name: &str) -> (r: Tree)
    ensures
        r@ == Node::Heading(Box::new(exp@), lvl, name@),
{
    Tree::Heading(Box::new(exp), lvl, name.to_owned())
}

#[must_use]
pub fn color(exp: Tree) -> (r: Tree)
    ensures
        r@ == Node::Color(Box::new(exp@)),
{
    Tree::Color(Box::new(exp))
}

#[must_use]
pub fn footnote(exp: Tree) -> (r: Tree)
    ensures
        r@ == Node::Footnote(Box::new(exp@)),
{
    Tree::Footnote(Box::new(exp))
}

#[must_use]
pub fn hyperref(exp1: Tree, exp2: Tree) -> (r: Tree)
    ensures
        r@ == Node::HyperRef(Box::new(exp1@), Box::new(exp2@)),
{
    Tree::HyperRef(Box::new(exp1), Box::new(exp2))
}

#[must_use]
pub fn bold(exp: Tree) -> (r: Tree)
    ensures
        r@ == Node::Bold(Box::new(exp@)),
{
    Tree::Bold(Box::new(exp))
}

#[must_use]
pub fn list(exp: Tree, level: u8) -> (r: Tree)
    ensures
        r@ == Node::List(Box::new(exp@), level),
{
    Tree::List(Box::new(exp), level)
}

#[must_use]
pub fn list_item(exp: Tree, level: u8) -> (r: Tree)
    ensures
        r@ == Node::ListItem(Box::new(exp@), level),
{
    Tree::ListItem(Box::new(exp), level)
}

#[must_use]
pub fn meta_data_item(key: String, value: String) -> (r: Tree)
    ensures
        r@ == Node::MetaDataItem(key@, value@),
{
    Tree::MetaDataItem(key, value)
}

#[must_use]
pub fn meta_data_block(exp: Tree) -> (r: Tree)
    ensures
        r@ == Node::MetaDataBlock(Box::new(exp@)),
{
    Tree::MetaDataBlock(Box::new(exp))
}

#[must_use]
pub fn image_size(x: Tree, y: Tree) -> (r: Tree)
    ensures
        r@ == Node::ImageSizeSpec(Box::new(x@), Box::new(y@)),
{
    Tree::ImageSizeSpec(Box::new(x), Box::new(y))
}

#[must_use]
pub fn image(caption: Tree, path: Tree, size_spec: Tree) -> (r: Tree)
    ensures
        r@ == Node::Image(Box::new(caption@), Box::new(path@), Box::new(size_spec@)),
{
    Tree::Image(Box::new(caption), Box::new(path), Box::new(size_spec))
}

#[must_use]
pub fn empty() -> (r: Tree)
    ensures
        r@ == Node::Empty,
{
    Tree::Empty()
}

/// Composes `t1` and then `t2`.
pub fn cat(t1: Tree, t2: Tree) -> (r: Tree)
    ensures
        r@ == cat_node(t1@, t2@),
{
    Tree::Cat(Box::new(t1), Box::new(t2))
}

} // verus!
