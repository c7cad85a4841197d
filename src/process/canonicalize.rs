//! Normalises the tree: drops empty nodes, merges bold and italic into one
//! style, and replaces characters that the typesetter writes as glyph names.
use crate::process::Process;
use crate::syntax::{cat_node, DocType, Node, Tree};
use crate::text::{chars_of, push_char, push_str};
use vstd::prelude::*;

verus! {

/// The processor that canonicalizes a tree.
#[derive(Debug, Clone, Copy, PartialEq, Eq, Structural)]
pub struct Canonicalizer {
    /// replace digits by old style figures
    pub replace_numerals: bool,
}

/// The inline style that encloses a node.
#[derive(Debug, Clone, Copy, PartialEq, Eq, Structural)]
pub enum InFormat {
    Bold,
    Italic,
    BoldItalic,
    Plain,
}

/// `x` then `y`, where an empty part is left out.
pub open spec fn joined(x: Node, y: Node) -> Node {
    if x is Empty {
        y
    } else if y is Empty {
        x
    } else {
        cat_node(x, y)
    }
}

/// `f` applied to `x`, or nothing when `x` is empty: a node whose content is empty is dropped.
pub open spec fn wrap_content(x: Node, f: spec_fn(Node) -> Node) -> Node {
    if x is Empty {
        Node::Empty
    } else {
        f(x)
    }
}

/// `x`, or an empty literal in place of an empty node.
pub open spec fn filled(x: Node) -> Node {
    if x is Empty {
        Node::Literal(Seq::empty())
    } else {
        x
    }
}

/// The canonical form of `t` inside the style `fmt`; `numerals` selects old style
/// figures for the digits of body text: of literals in sequences, styles, notes,
/// chapter marks, code blocks and meta data. Elsewhere (headings, lists, quotes,
/// links, images, inline code, colors) digits stay as they are. Empty nodes are
/// dropped: from sequences, with the nodes whose content is empty, and from the
/// parts of code blocks, links and images, where an empty literal takes their place.
pub open spec fn canonical(t: Node, fmt: InFormat, numerals: bool) -> Node
    decreases t,
{
    match t {
        Node::Document(dt, b) => Node::Document(dt, Box::new(canonical(*b, fmt, numerals))),
        Node::Cat(a, b) => joined(canonical(*a, fmt, numerals), canonical(*b, fmt, numerals)),
        Node::Bold(b) => match *b {
            Node::Italic(inner) => wrap_content(canonical(*inner, InFormat::BoldItalic, numerals), |x: Node| Node::BoldItalic(Box::new(x))),
            _ => if fmt is Italic {
                wrap_content(canonical(*b, InFormat::BoldItalic, numerals), |x: Node| Node::BoldItalic(Box::new(x)))
            } else {
                wrap_content(canonical(*b, InFormat::Bold, numerals), |x: Node| Node::Bold(Box::new(x)))
            },
        },
        Node::Italic(b) => match *b {
            Node::Bold(inner) => wrap_content(canonical(*inner, InFormat::BoldItalic, numerals), |x: Node| Node::BoldItalic(Box::new(x))),
            _ => if fmt is Bold {
                wrap_content(canonical(*b, InFormat::BoldItalic, numerals), |x: Node| Node::BoldItalic(Box::new(x)))
            } else {
                wrap_content(canonical(*b, InFormat::Italic, numerals), |x: Node| Node::Italic(Box::new(x)))
            },
        },
        Node::MetaDataBlock(b) => wrap_content(canonical(*b, fmt, numerals), |x: Node| Node::MetaDataBlock(Box::new(x))),
        Node::ChapterMark(b) => wrap_content(canonical(*b, fmt, numerals), |x: Node| Node::ChapterMark(Box::new(x))),
        Node::Footnote(b) => wrap_content(canonical(*b, fmt, numerals), |x: Node| Node::Footnote(Box::new(x))),
        Node::Quote(b) => wrap_content(canonical(*b, fmt, false), |x: Node| Node::Quote(Box::new(x))),
        Node::RightSidenote(b) => wrap_content(canonical(*b, fmt, false), |x: Node| Node::RightSidenote(Box::new(x))),
        Node::List(b, l) => wrap_content(canonical(*b, fmt, false), |x: Node| Node::List(Box::new(x), l)),
        Node::ListItem(b, l) => wrap_content(canonical(*b, fmt, false), |x: Node| Node::ListItem(Box::new(x), l)),
        Node::DocRef(n, b) => wrap_content(canonical(*b, fmt, false), |x: Node| Node::DocRef(n, Box::new(x))),
        Node::Color(b) => wrap_content(canonical(*b, fmt, false), |x: Node| Node::Color(Box::new(x))),
        Node::Heading(b, l, n) => wrap_content(canonical(*b, fmt, false), |x: Node| Node::Heading(Box::new(x), l, n)),
        Node::InlineCode(b) => wrap_content(canonical(*b, fmt, false), |x: Node| Node::InlineCode(Box::new(x))),
        Node::BoldItalic(b) => wrap_content(canonical(*b, InFormat::BoldItalic, numerals), |x: Node| Node::BoldItalic(Box::new(x))),
        Node::CodeBlock(k, b) => Node::CodeBlock(
            Box::new(filled(canonical(*k, fmt, false))),
            Box::new(filled(canonical(*b, fmt, numerals))),
        ),
        Node::HyperRef(a, u) => Node::HyperRef(
            Box::new(filled(canonical(*a, fmt, false))),
            Box::new(filled(canonical(*u, fmt, false))),
        ),
        Node::ImageSizeSpec(w, h) => Node::ImageSizeSpec(
            Box::new(filled(canonical(*w, fmt, false))),
            Box::new(filled(canonical(*h, fmt, false))),
        ),
        Node::Image(c, p, z) => Node::Image(
            Box::new(filled(canonical(*c, fmt, false))),
            Box::new(filled(canonical(*p, fmt, false))),
            Box::new(filled(canonical(*z, fmt, false))),
        ),
        Node::PreformattedLiteral(s) => Node::PreformattedLiteral(groff_escaped(s, s.len() as int)),
        Node::Literal(s) => if numerals {
            Node::Literal(old_style(s, s.len() as int))
        } else {
            Node::Literal(s)
        },
        Node::SmallCaps(b) => match *b {
            Node::Literal(s) => Node::SmallCaps(Box::new(Node::Literal(small_caps(s, s.len() as int)))),
            _ => wrap_content(canonical(*b, fmt, false), |x: Node| Node::SmallCaps(Box::new(x))),
        },
        _ => t,
    }
}

pub open spec fn is_ascii_alpha(c: char) -> bool {
    ('a' <= c && c <= 'z') || ('A' <= c && c <= 'Z')
}

/// The first `n` characters of `s` with each ASCII letter as its small caps glyph.
pub open spec fn small_caps(s: Seq<char>, n: int) -> Seq<char>
    decreases n,
{
    if n <= 0 {
        Seq::empty()
    } else {
        let c = s[n - 1];
        small_caps(s, n - 1) + if is_ascii_alpha(c) {
            "\\["@ + seq![c] + ".sc]"@
        } else {
            seq![c]
        }
    }
}

/// The glyph name of an old style digit.
pub open spec fn old_style_digit(c: char) -> Seq<char> {
    if c == '0' {
        "\\[zero.oldstyle]"@
    } else if c == '1' {
        "\\[one.oldstyle]"@
    } else if c == '2' {
        "\\[two.oldstyle]"@
    } else if c == '3' {
        "\\[three.oldstyle]"@
    } else if c == '4' {
        "\\[four.oldstyle]"@
    } else if c == '5' {
        "\\[five.oldstyle]"@
    } else if c == '6' {
        "\\[six.oldstyle]"@
    } else if c == '7' {
        "\\[seven.oldstyle]"@
    } else if c == '8' {
        "\\[eight.oldstyle]"@
    } else {
        "\\[nine.oldstyle]"@
    }
}

/// The first `n` characters of `s` with each digit as its old style figure.
pub open spec fn old_style(s: Seq<char>, n: int) -> Seq<char>
    decreases n,
{
    if n <= 0 {
        Seq::empty()
    } else {
        let c = s[n - 1];
        old_style(s, n - 1) + if '0' <= c && c <= '9' {
            old_style_digit(c)
        } else {
            seq![c]
        }
    }
}

/// The first `n` characters of `s` with backslashes doubled, carets as their glyph
/// name, and a dot at the start of the text or of a line protected.
pub open spec fn groff_escaped(s: Seq<char>, n: int) -> Seq<char>
    decreases n,
{
    if n <= 0 {
        Seq::empty()
    } else {
        let c = s[n - 1];
        groff_escaped(s, n - 1) + if c == '\\' {
            "\\\\"@
        } else if c == '^' {
            "\\[ha]"@
        } else if c == '.' && (n == 1 || s[n - 2] == '\n') {
            "\\&."@
        } else {
            seq![c]
        }
    }
}

/// Replaces each ASCII letter by its small caps glyph.
pub fn replace_small_caps(s: String) -> (r: String)
    ensures
        r@ == small_caps(s@, s@.len() as int),
{
    let cs = chars_of(s.as_str());
    let mut result = String::new();
    let mut i: usize = 0;
    while i < cs.len()
        invariant
            cs@ == s@,
            i <= cs.len(),
            result@ == small_caps(s@, i as int),
        decreases cs.len() - i,
    {
        let c = cs[i];
        if ('a' <= c && c <= 'z') || ('A' <= c && c <= 'Z') {
            push_str(&mut result, "\\[");
            push_char(&mut result, c);
            push_str(&mut result, ".sc]");
            assert(result@ =~= small_caps(s@, i as int) + ("\\["@ + seq![c] + ".sc]"@));
        } else {
            push_char(&mut result, c);
            assert(result@ =~= small_caps(s@, i as int) + seq![c]);
        }
        i += 1;
    }
    result
}

/// Replaces the digits 0 to 9 by old style figures.
pub fn replace_old_style_figures(s: String) -> (r: String)
    ensures
        r@ == old_style(s@, s@.len() as int),
{
    let cs = chars_of(s.as_str());
    let mut result = String::new();
    let mut i: usize = 0;
    while i < cs.len()
        invariant
            cs@ == s@,
            i <= cs.len(),
            result@ == old_style(s@, i as int),
        decreases cs.len() - i,
    {
        let c = cs[i];
        if c == '0' {
            push_str(&mut result, "\\[zero.oldstyle]");
        } else if c == '1' {
            push_str(&mut result, "\\[one.oldstyle]");
        } else if c == '2' {
            push_str(&mut result, "\\[two.oldstyle]");
        } else if c == '3' {
            push_str(&mut result, "\\[three.oldstyle]");
        } else if c == '4' {
            push_str(&mut result, "\\[four.oldstyle]");
        } else if c == '5' {
            push_str(&mut result, "\\[five.oldstyle]");
        } else if c == '6' {
            push_str(&mut result, "\\[six.oldstyle]");
        } else if c == '7' {
            push_str(&mut result, "\\[seven.oldstyle]");
        } else if c == '8' {
            push_str(&mut result, "\\[eight.oldstyle]");
        } else if c == '9' {
            push_str(&mut result, "\\[nine.oldstyle]");
        } else {
            push_char(&mut result, c);
        }
        i += 1;
    }
    result
}

/// Escapes backslashes, carets and dots at the start of a line for the typesetter.
pub fn prelit_escape_groff_symbols(s: String) -> (r: String)
    ensures
        r@ == groff_escaped(s@, s@.len() as int),
{
    let cs = chars_of(s.as_str());
    let mut result = String::new();
    let mut i: usize = 0;
    while i < cs.len()
        invariant
            cs@ == s@,
            i <= cs.len(),
            result@ == groff_escaped(s@, i as int),
        decreases cs.len() - i,
    {
        let c = cs[i];
        if c == '\\' {
            push_str(&mut result, "\\\\");
        } else if c == '^' {
            push_str(&mut result, "\\[ha]");
        } else if c == '.' && (i == 0 || cs[i - 1] == '\n') {
            push_str(&mut result, "\\&.");
        } else {
            push_char(&mut result, c);
        }
        i += 1;
    }
    result
}

fn is_empty_tree(t: &Tree) -> (r: bool)
    ensures
        r == (t@ is Empty),
{
    match t {
        Tree::Empty() => true,
        _ => false,
    }
}

/// `x`, or an empty literal in place of an empty node.
fn fill_tree(x: Tree) -> (r: Tree)
    ensures
        r@ == filled(x@),
{
    if is_empty_tree(&x) {
        Tree::Literal(String::new())
    } else {
        x
    }
}

/// `x` then `y`, leaving out an empty part.
fn join_trees(x: Tree, y: Tree) -> (r: Tree)
    ensures
        r@ == joined(x@, y@),
{
    if is_empty_tree(&x) {
        y
    } else if is_empty_tree(&y) {
        x
    } else {
        x.cat(y)
    }
}

pub open spec fn style_node(t: Node) -> bool {
    t is Document || t is Cat || t is Bold || t is Italic || t is BoldItalic
}

pub open spec fn wrapper_node(t: Node) -> bool {
    t is MetaDataBlock || t is ChapterMark || t is Footnote || t is Quote || t is RightSidenote
        || t is List || t is ListItem || t is DocRef || t is Color || t is Heading || t is InlineCode
}

pub open spec fn text_node(t: Node) -> bool {
    t is Literal || t is PreformattedLiteral
}

fn is_style(t: &Tree) -> (r: bool)
    ensures
        r == style_node(t@),
{
    match t {
        Tree::Document(_, _) | Tree::Cat(_, _) | Tree::Bold(_) | Tree::Italic(_)
        | Tree::BoldItalic(_) => true,
        _ => false,
    }
}

fn is_wrapper(t: &Tree) -> (r: bool)
    ensures
        r == wrapper_node(t@),
{
    match t {
        Tree::MetaDataBlock(_) | Tree::ChapterMark(_) | Tree::Footnote(_) | Tree::Quote(_)
        | Tree::RightSidenote(_) | Tree::List(_, _) | Tree::ListItem(_, _) | Tree::DocRef(_, _)
        | Tree::Color(_) | Tree::Heading(_, _, _) | Tree::InlineCode(_) => true,
        _ => false,
    }
}

fn is_text(t: &Tree) -> (r: bool)
    ensures
        r == text_node(t@),
{
    match t {
        Tree::Literal(_) | Tree::PreformattedLiteral(_) => true,
        _ => false,
    }
}

/// The canonical form of `exp` inside the style `fmt`.
pub fn canonical_tree(exp: Tree, fmt: InFormat, numerals: bool) -> (r: Tree)
    ensures
        r@ == canonical(exp@, fmt, numerals),
    decreases exp, 1nat,
{
    if is_style(&exp) {
        canonical_style(exp, fmt, numerals)
    } else if is_wrapper(&exp) {
        canonical_wrapper(exp, fmt, numerals)
    } else if is_text(&exp) {
        canonical_text(exp, fmt, numerals)
    } else {
        canonical_compound(exp, fmt, numerals)
    }
}

fn canonical_style(exp: Tree, fmt: InFormat, numerals: bool) -> (r: Tree)
    requires
        style_node(exp@),
    ensures
        r@ == canonical(exp@, fmt, numerals),
    decreases exp, 0nat,
{
    proof {
        reveal_with_fuel(Tree::model, 2);
    }
    match exp {
        Tree::Document(dt, be) => Tree::Document(dt, Box::new(canonical_tree(*be, fmt, numerals))),
        Tree::Cat(a, b) => join_trees(canonical_tree(*a, fmt, numerals), canonical_tree(*b, fmt, numerals)),
        Tree::Bold(b_exp) => match *b_exp {
            Tree::Italic(b_inn) => {
            let x = canonical_tree(*b_inn, InFormat::BoldItalic, numerals);
            if is_empty_tree(&x) {
                Tree::Empty()
            } else {
                Tree::BoldItalic(Box::new(x))
            }
        },
            other => match fmt {
                InFormat::Italic => {
            let x = canonical_tree(other, InFormat::BoldItalic, numerals);
            if is_empty_tree(&x) {
                Tree::Empty()
            } else {
                Tree::BoldItalic(Box::new(x))
            }
        },
                _ => {
            let x = canonical_tree(other, InFormat::Bold, numerals);
            if is_empty_tree(&x) {
                Tree::Empty()
            } else {
                Tree::Bold(Box::new(x))
            }
        },
            },
        },
        Tree::Italic(b_exp) => match *b_exp {
            Tree::Bold(b_inn) => {
            let x = canonical_tree(*b_inn, InFormat::BoldItalic, numerals);
            if is_empty_tree(&x) {
                Tree::Empty()
            } else {
                Tree::BoldItalic(Box::new(x))
            }
        },
            other => match fmt {
                InFormat::Bold => {
            let x = canonical_tree(other, InFormat::BoldItalic, numerals);
            if is_empty_tree(&x) {
                Tree::Empty()
            } else {
                Tree::BoldItalic(Box::new(x))
            }
        },
                _ => {
            let x = canonical_tree(other, InFormat::Italic, numerals);
            if is_empty_tree(&x) {
                Tree::Empty()
            } else {
                Tree::Italic(Box::new(x))
            }
        },
            },
        },
        Tree::BoldItalic(b) => {
            let x = canonical_tree(*b, InFormat::BoldItalic, numerals);
            if is_empty_tree(&x) {
                Tree::Empty()
            } else {
                Tree::BoldItalic(Box::new(x))
            }
        },
        other => other,
    }
}

fn canonical_wrapper(exp: Tree, fmt: InFormat, numerals: bool) -> (r: Tree)
    requires
        wrapper_node(exp@),
    ensures
        r@ == canonical(exp@, fmt, numerals),
    decreases exp, 0nat,
{
    match exp {
        Tree::MetaDataBlock(b) => {
            let x = canonical_tree(*b, fmt, numerals);
            if is_empty_tree(&x) {
                Tree::Empty()
            } else {
                Tree::MetaDataBlock(Box::new(x))
            }
        },
        Tree::ChapterMark(b) => {
            let x = canonical_tree(*b, fmt, numerals);
            if is_empty_tree(&x) {
                Tree::Empty()
            } else {
                Tree::ChapterMark(Box::new(x))
            }
        },
        Tree::Footnote(b) => {
            let x = canonical_tree(*b, fmt, numerals);
            if is_empty_tree(&x) {
                Tree::Empty()
            } else {
                Tree::Footnote(Box::new(x))
            }
        },
        Tree::Quote(b) => {
            let x = canonical_tree(*b, fmt, false);
            if is_empty_tree(&x) {
                Tree::Empty()
            } else {
                Tree::Quote(Box::new(x))
            }
        },
        Tree::RightSidenote(b) => {
            let x = canonical_tree(*b, fmt, false);
            if is_empty_tree(&x) {
                Tree::Empty()
            } else {
                Tree::RightSidenote(Box::new(x))
            }
        },
        Tree::List(b, l) => {
            let x = canonical_tree(*b, fmt, false);
            if is_empty_tree(&x) {
                Tree::Empty()
            } else {
                Tree::List(Box::new(x), l)
            }
        },
        Tree::ListItem(b, l) => {
            let x = canonical_tree(*b, fmt, false);
            if is_empty_tree(&x) {
                Tree::Empty()
            } else {
                Tree::ListItem(Box::new(x), l)
            }
        },
        Tree::DocRef(n, b) => {
            let x = canonical_tree(*b, fmt, false);
            if is_empty_tree(&x) {
                Tree::Empty()
            } else {
                Tree::DocRef(n, Box::new(x))
            }
        },
        Tree::Color(b) => {
            let x = canonical_tree(*b, fmt, false);
            if is_empty_tree(&x) {
                Tree::Empty()
            } else {
                Tree::Color(Box::new(x))
            }
        },
        Tree::Heading(b, l, n) => {
            let x = canonical_tree(*b, fmt, false);
            if is_empty_tree(&x) {
                Tree::Empty()
            } else {
                Tree::Heading(Box::new(x), l, n)
            }
        },
        Tree::InlineCode(b) => {
            let x = canonical_tree(*b, fmt, false);
            if is_empty_tree(&x) {
                Tree::Empty()
            } else {
                Tree::InlineCode(Box::new(x))
            }
        },
        other => other,
    }
}

fn canonical_text(exp: Tree, fmt: InFormat, numerals: bool) -> (r: Tree)
    requires
        text_node(exp@),
    ensures
        r@ == canonical(exp@, fmt, numerals),
{
    match exp {
        Tree::PreformattedLiteral(s) => Tree::PreformattedLiteral(prelit_escape_groff_symbols(s)),
        Tree::Literal(s) => if numerals {
            Tree::Literal(replace_old_style_figures(s))
        } else {
            Tree::Literal(s)
        },
        other => other,
    }
}

fn canonical_compound(exp: Tree, fmt: InFormat, numerals: bool) -> (r: Tree)
    requires
        !style_node(exp@),
        !wrapper_node(exp@),
        !text_node(exp@),
    ensures
        r@ == canonical(exp@, fmt, numerals),
    decreases exp, 0nat,
{
    proof {
        reveal_with_fuel(Tree::model, 2);
    }
    match exp {
        Tree::CodeBlock(k, b) => Tree::CodeBlock(
            Box::new(fill_tree(canonical_tree(*k, fmt, false))),
            Box::new(fill_tree(canonical_tree(*b, fmt, numerals))),
        ),
        Tree::HyperRef(a, u) => Tree::HyperRef(
            Box::new(fill_tree(canonical_tree(*a, fmt, false))),
            Box::new(fill_tree(canonical_tree(*u, fmt, false))),
        ),
        Tree::ImageSizeSpec(w, h) => Tree::ImageSizeSpec(
            Box::new(fill_tree(canonical_tree(*w, fmt, false))),
            Box::new(fill_tree(canonical_tree(*h, fmt, false))),
        ),
        Tree::Image(c, p, z) => Tree::Image(
            Box::new(fill_tree(canonical_tree(*c, fmt, false))),
            Box::new(fill_tree(canonical_tree(*p, fmt, false))),
            Box::new(fill_tree(canonical_tree(*z, fmt, false))),
        ),
        Tree::SmallCaps(be) => match *be {
            Tree::Literal(s) => Tree::SmallCaps(Box::new(Tree::Literal(replace_small_caps(s)))),
            other => {
            let x = canonical_tree(other, fmt, false);
            if is_empty_tree(&x) {
                Tree::Empty()
            } else {
                Tree::SmallCaps(Box::new(x))
            }
        },
        },
        other => other,
    }
}

impl Canonicalizer {
    /// Canonicalizes `exp` inside the style `fmt`.
    pub fn erase_empty(&mut self, exp: Tree, fmt: InFormat) -> (r: Box<Tree>)
        ensures
            r@ == canonical(exp@, fmt, old(self).replace_numerals),
            *final(self) == *old(self),
    {
        Box::new(canonical_tree(exp, fmt, self.replace_numerals))
    }
}

impl Process for Canonicalizer {
    open spec fn rewrite(&self, t: Node) -> Node {
        canonical(t, InFormat::Plain, self.replace_numerals)
    }

    fn process(&mut self, exp: Tree) -> (r: Tree) {
        *self.erase_empty(exp, InFormat::Plain)
    }
}

/// A canonicalizer; `replace_numerals` selects old style figures for digits.
pub fn new(replace_numerals: bool) -> (r: Canonicalizer)
    ensures
        r.replace_numerals == replace_numerals,
{
    Canonicalizer { replace_numerals }
}

/// Erasing an empty node before `x` gives what canonicalizing `x` alone gives.
pub proof fn lemma_empty_cat_is_identity(x: Node, fmt: InFormat, numerals: bool)
    ensures
        canonical(cat_node(Node::Empty, x), fmt, numerals) == canonical(x, fmt, numerals),
{
    assert(canonical(Node::Empty, fmt, numerals) == Node::Empty);
}

/// No bold node stands directly over an italic one, nor the other way round.
pub open spec fn styles_merged(t: Node) -> bool
    decreases t,
{
    match t {
        Node::Bold(b) => !(*b is Italic) && styles_merged(*b),
        Node::Italic(b) => !(*b is Bold) && styles_merged(*b),
        Node::Document(_, b) => styles_merged(*b),
        Node::Color(b) => styles_merged(*b),
        Node::ChapterMark(b) => styles_merged(*b),
        Node::Heading(b, _, _) => styles_merged(*b),
        Node::BoldItalic(b) => styles_merged(*b),
        Node::SmallCaps(b) => styles_merged(*b),
        Node::CodeBlock(a, b) => styles_merged(*a) && styles_merged(*b),
        Node::InlineCode(b) => styles_merged(*b),
        Node::Quote(b) => styles_merged(*b),
        Node::Footnote(b) => styles_merged(*b),
        Node::RightSidenote(b) => styles_merged(*b),
        Node::HyperRef(a, b) => styles_merged(*a) && styles_merged(*b),
        Node::DocRef(_, b) => styles_merged(*b),
        Node::Cat(a, b) => styles_merged(*a) && styles_merged(*b),
        Node::List(b, _) => styles_merged(*b),
        Node::ListItem(b, _) => styles_merged(*b),
        Node::MetaDataBlock(b) => styles_merged(*b),
        Node::ImageSizeSpec(a, b) => styles_merged(*a) && styles_merged(*b),
        Node::Image(a, b, c) => styles_merged(*a) && styles_merged(*b) && styles_merged(*c),
        _ => true,
    }
}

/// No node of `t` is `Empty`, but the whole content of an empty document.
pub open spec fn no_empty_parts(t: Node) -> bool
    decreases t,
{
    match t {
        Node::Empty => false,
        Node::Cat(a, b) => no_empty_parts(*a) && no_empty_parts(*b),
        Node::Document(_, b) => *b is Empty || no_empty_parts(*b),
        Node::Color(b) => no_empty_parts(*b),
        Node::ChapterMark(b) => no_empty_parts(*b),
        Node::Heading(b, _, _) => no_empty_parts(*b),
        Node::Bold(b) => no_empty_parts(*b),
        Node::Italic(b) => no_empty_parts(*b),
        Node::BoldItalic(b) => no_empty_parts(*b),
        Node::SmallCaps(b) => no_empty_parts(*b),
        Node::CodeBlock(a, b) => no_empty_parts(*a) && no_empty_parts(*b),
        Node::InlineCode(b) => no_empty_parts(*b),
        Node::Quote(b) => no_empty_parts(*b),
        Node::Footnote(b) => no_empty_parts(*b),
        Node::RightSidenote(b) => no_empty_parts(*b),
        Node::HyperRef(a, b) => no_empty_parts(*a) && no_empty_parts(*b),
        Node::DocRef(_, b) => no_empty_parts(*b),
        Node::List(b, _) => no_empty_parts(*b),
        Node::ListItem(b, _) => no_empty_parts(*b),
        Node::MetaDataBlock(b) => no_empty_parts(*b),
        Node::ImageSizeSpec(a, b) => no_empty_parts(*a) && no_empty_parts(*b),
        Node::Image(a, b, c) => no_empty_parts(*a) && no_empty_parts(*b) && no_empty_parts(*c),
        _ => true,
    }
}

proof fn lemma_top_style(t: Node, numerals: bool)
    ensures
        !(canonical(t, InFormat::Bold, numerals) is Italic),
        !(canonical(t, InFormat::Italic, numerals) is Bold),
    decreases t,
{
    if let Node::Cat(a, b) = t {
        lemma_top_style(*a, numerals);
        lemma_top_style(*b, numerals);
    }
}

/// Canonicalization leaves no bold node directly over an italic one, nor the other
/// way round, anywhere in the tree: nested bold and italic, directly or apart,
/// become one bold italic node.
pub proof fn lemma_styles_merged(t: Node, fmt: InFormat, numerals: bool)
    ensures
        styles_merged(canonical(t, fmt, numerals)),
    decreases t,
{
    reveal_with_fuel(styles_merged, 2);
    match t {
        Node::Document(_, b) => lemma_styles_merged(*b, fmt, numerals),
        Node::Cat(a, b) => {
            lemma_styles_merged(*a, fmt, numerals);
            lemma_styles_merged(*b, fmt, numerals);
        },
        Node::Bold(b) => match *b {
            Node::Italic(inner) => lemma_styles_merged(*inner, InFormat::BoldItalic, numerals),
            _ => {
                lemma_styles_merged(*b, InFormat::BoldItalic, numerals);
                lemma_styles_merged(*b, InFormat::Bold, numerals);
                lemma_top_style(*b, numerals);
            },
        },
        Node::Italic(b) => match *b {
            Node::Bold(inner) => lemma_styles_merged(*inner, InFormat::BoldItalic, numerals),
            _ => {
                lemma_styles_merged(*b, InFormat::BoldItalic, numerals);
                lemma_styles_merged(*b, InFormat::Italic, numerals);
                lemma_top_style(*b, numerals);
            },
        },
        Node::BoldItalic(b) => lemma_styles_merged(*b, InFormat::BoldItalic, numerals),
        Node::CodeBlock(k, b) => {
            lemma_styles_merged(*k, fmt, false);
            lemma_styles_merged(*b, fmt, numerals);
        },
        Node::MetaDataBlock(b) => lemma_styles_merged(*b, fmt, numerals),
        Node::ChapterMark(b) => lemma_styles_merged(*b, fmt, numerals),
        Node::Footnote(b) => lemma_styles_merged(*b, fmt, numerals),
        Node::Quote(b) => lemma_styles_merged(*b, fmt, false),
        Node::RightSidenote(b) => lemma_styles_merged(*b, fmt, false),
        Node::List(b, _) => lemma_styles_merged(*b, fmt, false),
        Node::ListItem(b, _) => lemma_styles_merged(*b, fmt, false),
        Node::DocRef(_, b) => lemma_styles_merged(*b, fmt, false),
        Node::Color(b) => lemma_styles_merged(*b, fmt, false),
        Node::Heading(b, _, _) => lemma_styles_merged(*b, fmt, false),
        Node::InlineCode(b) => lemma_styles_merged(*b, fmt, false),
        Node::HyperRef(a, u) => {
            lemma_styles_merged(*a, fmt, false);
            lemma_styles_merged(*u, fmt, false);
        },
        Node::ImageSizeSpec(w, h) => {
            lemma_styles_merged(*w, fmt, false);
            lemma_styles_merged(*h, fmt, false);
        },
        Node::Image(c, p, z) => {
            lemma_styles_merged(*c, fmt, false);
            lemma_styles_merged(*p, fmt, false);
            lemma_styles_merged(*z, fmt, false);
        },
        Node::SmallCaps(b) => lemma_styles_merged(*b, fmt, false),
        _ => {},
    }
}

/// The canonical form of a tree is `Empty` itself or holds no `Empty` node.
pub proof fn lemma_no_empty_parts(t: Node, fmt: InFormat, numerals: bool)
    ensures
        canonical(t, fmt, numerals) is Empty || no_empty_parts(canonical(t, fmt, numerals)),
    decreases t,
{
    reveal_with_fuel(no_empty_parts, 2);
    match t {
        Node::Document(_, b) => lemma_no_empty_parts(*b, fmt, numerals),
        Node::Cat(a, b) => {
            lemma_no_empty_parts(*a, fmt, numerals);
            lemma_no_empty_parts(*b, fmt, numerals);
        },
        Node::Bold(b) => match *b {
            Node::Italic(inner) => lemma_no_empty_parts(*inner, InFormat::BoldItalic, numerals),
            _ => {
                lemma_no_empty_parts(*b, InFormat::BoldItalic, numerals);
                lemma_no_empty_parts(*b, InFormat::Bold, numerals);
            },
        },
        Node::Italic(b) => match *b {
            Node::Bold(inner) => lemma_no_empty_parts(*inner, InFormat::BoldItalic, numerals),
            _ => {
                lemma_no_empty_parts(*b, InFormat::BoldItalic, numerals);
                lemma_no_empty_parts(*b, InFormat::Italic, numerals);
            },
        },
        Node::BoldItalic(b) => lemma_no_empty_parts(*b, InFormat::BoldItalic, numerals),
        Node::CodeBlock(k, b) => {
            lemma_no_empty_parts(*k, fmt, false);
            lemma_no_empty_parts(*b, fmt, numerals);
        },
        Node::MetaDataBlock(b) => lemma_no_empty_parts(*b, fmt, numerals),
        Node::ChapterMark(b) => lemma_no_empty_parts(*b, fmt, numerals),
        Node::Footnote(b) => lemma_no_empty_parts(*b, fmt, numerals),
        Node::Quote(b) => lemma_no_empty_parts(*b, fmt, false),
        Node::RightSidenote(b) => lemma_no_empty_parts(*b, fmt, false),
        Node::List(b, _) => lemma_no_empty_parts(*b, fmt, false),
        Node::ListItem(b, _) => lemma_no_empty_parts(*b, fmt, false),
        Node::DocRef(_, b) => lemma_no_empty_parts(*b, fmt, false),
        Node::Color(b) => lemma_no_empty_parts(*b, fmt, false),
        Node::Heading(b, _, _) => lemma_no_empty_parts(*b, fmt, false),
        Node::InlineCode(b) => lemma_no_empty_parts(*b, fmt, false),
        Node::HyperRef(a, u) => {
            lemma_no_empty_parts(*a, fmt, false);
            lemma_no_empty_parts(*u, fmt, false);
        },
        Node::ImageSizeSpec(w, h) => {
            lemma_no_empty_parts(*w, fmt, false);
            lemma_no_empty_parts(*h, fmt, false);
        },
        Node::Image(c, p, z) => {
            lemma_no_empty_parts(*c, fmt, false);
            lemma_no_empty_parts(*p, fmt, false);
            lemma_no_empty_parts(*z, fmt, false);
        },
        Node::SmallCaps(b) => lemma_no_empty_parts(*b, fmt, false),
        _ => {},
    }
}

/// After canonicalization no `Empty` node remains, but as the only content of
/// an otherwise empty document.
pub proof fn lemma_no_empty_nodes(dt: DocType, b: Node, fmt: InFormat, numerals: bool)
    ensures
        no_empty_parts(canonical(Node::Document(dt, Box::new(b)), fmt, numerals)),
{
    lemma_no_empty_parts(b, fmt, numerals);
}

/// The canonicalization pass leaves no bold node directly over an italic one,
/// nor the other way round, anywhere in the document.
pub proof fn lemma_process_merges_styles(c: Canonicalizer, t: Node)
    ensures
        styles_merged(c.rewrite(t)),
{
    lemma_styles_merged(t, InFormat::Plain, c.replace_numerals);
}

} // verus!
