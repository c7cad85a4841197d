//! The markdown back end: writes the markup back, wrapping plain text at a fixed column.
use crate::render::Render;
use crate::syntax::{Node, Tree};
use crate::text::{chars_of, push_char, push_str};
use vstd::prelude::*;

verus! {

/// The column at which plain text is wrapped.
pub const WRAP_COLUMN: u64 = 68;

/// Renders trees as markdown, counting the column of the output.
#[derive(Debug, Default, Clone, Copy, PartialEq, Eq, Structural)]
pub struct Renderer {
    /// the column after the text written so far; it saturates
    pub char_index: u64,
}

impl Renderer {
    pub fn new() -> (r: Self)
        ensures
            r.char_index == 0,
    {
        Self { char_index: 0 }
    }
}

pub open spec fn sat(n: int) -> int {
    if n > u64::MAX {
        u64::MAX as int
    } else {
        n
    }
}

/// The number of bytes of the UTF-8 encoding of `c`.
pub open spec fn width(c: char) -> int {
    if (c as u32) < 0x80 {
        1
    } else if (c as u32) < 0x800 {
        2
    } else if (c as u32) < 0x10000 {
        3
    } else {
        4
    }
}

/// The state of wrapping: the text so far, the column, the word being read and its width.
pub struct Wrap {
    pub out: Seq<char>,
    pub col: int,
    pub word: Seq<char>,
    pub wlen: int,
}

/// Writes the word read so far: after a space if it fits before the wrap column,
/// on a new line if not.
pub open spec fn emit(w: Wrap) -> Wrap {
    let (out, col) = if sat(w.col + w.wlen) < WRAP_COLUMN {
        (
            if w.out.len() > 0 && w.out != " "@ {
                w.out + " "@ + w.word
            } else {
                w.out + w.word
            },
            sat(w.col + w.wlen),
        )
    } else {
        (w.out + "\n"@ + w.word, w.wlen)
    };
    Wrap { out, col: sat(col + 1), word: Seq::empty(), wlen: 0 }
}

/// Wrapping from character `i` of `s` on.
pub open spec fn wrap_from(s: Seq<char>, i: int, w: Wrap) -> Wrap
    decreases s.len() - i,
{
    if i >= s.len() {
        emit(w)
    } else if s[i] == ' ' || s[i] == '\n' {
        wrap_from(s, i + 1, emit(w))
    } else {
        wrap_from(s, i + 1, Wrap { word: w.word.push(s[i]), wlen: sat(w.wlen + width(s[i])), ..w })
    }
}

/// The words of `s`, split at spaces and line breaks, set from column `col` on.
pub open spec fn wrapped(s: Seq<char>, col: int) -> Wrap {
    let start = if s.len() > 0 && s[0] == ' ' {
        Wrap { out: " "@, col: sat(col + 1), word: Seq::empty(), wlen: 0 }
    } else {
        Wrap { out: Seq::empty(), col, word: Seq::empty(), wlen: 0 }
    };
    wrap_from(s, 0, start)
}

pub open spec fn repeat(s: Seq<char>, n: nat) -> Seq<char>
    decreases n,
{
    if n == 0 {
        Seq::empty()
    } else {
        repeat(s, (n - 1) as nat) + s
    }
}

/// The markdown text of `t` from column `col` on, and the column after it.
pub open spec fn md(t: Node, col: int) -> (Seq<char>, int)
    decreases t,
{
    match t {
        Node::Literal(s) => {
            let w = wrapped(s, col);
            (w.out, w.col)
        },
        Node::EscapeLit(s) => (s, col),
        Node::PreformattedLiteral(s) => (s, col),
        Node::Bold(b) => {
            let (x, c1) = md(*b, col);
            if x.len() > 0 && x[0] == '\n' {
                ("\n*"@ + x.drop_first() + "*"@, sat(c1 + 1))
            } else {
                ("*"@ + x + "*"@, c1)
            }
        },
        Node::Italic(b) => {
            let (x, c1) = md(*b, col);
            ("_"@ + x + "_"@, c1)
        },
        Node::BoldItalic(b) => {
            let (x, c1) = md(*b, col);
            ("_**"@ + x + "**_"@, c1)
        },
        Node::SmallCaps(b) => {
            let (x, c1) = md(*b, col);
            ("{"@ + x + "}"@, c1)
        },
        Node::CodeBlock(k, b) => {
            let (x, c1) = md(*k, col);
            let (y, c2) = md(*b, c1);
            ("```"@ + x + "\n"@ + y + "```"@, c2)
        },
        Node::InlineCode(b) => {
            let (x, c1) = md(*b, col);
            ("`"@ + x + "`"@, c1)
        },
        Node::Heading(b, level, name) => {
            let (x, c1) = md(*b, col);
            let marks = repeat("#"@, level as nat + 1) + " "@ + x;
            (if name.len() > 0 { marks + "/"@ + name + "/"@ } else { marks }, c1)
        },
        Node::Quote(b) => {
            let (x, c1) = md(*b, col);
            ("\""@ + x + "\""@, c1)
        },
        Node::ChapterMark(b) => {
            let (x, c1) = md(*b, col);
            (">>("@ + x + ")"@, c1)
        },
        Node::RightSidenote(b) => {
            let (x, c1) = md(*b, col);
            (">("@ + x + ")"@, c1)
        },
        Node::Footnote(b) => {
            let (x, c1) = md(*b, col);
            ("^("@ + x + ")"@, c1)
        },
        Node::HyperRef(a, b) => {
            let (x, c1) = md(*a, col);
            let (y, c2) = md(*b, c1);
            ("["@ + x + "]("@ + y + ")"@, c2)
        },
        Node::DocRef(target, b) => {
            let (x, c1) = md(*b, col);
            ("["@ + x + "](#"@ + target + ")"@, c1)
        },
        Node::Cat(a, b) => {
            let (x, c1) = md(*a, col);
            let (y, c2) = md(*b, c1);
            (x + y, c2)
        },
        Node::Empty => (Seq::empty(), col),
        Node::Paragraph => ("\n"@, 0),
        Node::LineBreak => ("\n"@, 0),
        Node::Document(_, b) => md(*b, col),
        Node::List(b, _) => md(*b, col),
        Node::ListItem(b, level) => {
            let (x, c1) = md(*b, col);
            (repeat("  "@, level as nat) + "* "@ + x + "\n"@, 0)
        },
        Node::MetaDataBlock(b) => {
            let (x, c1) = md(*b, col);
            ("---\n"@ + x + "---\n\n"@, c1)
        },
        Node::MetaDataItem(k, v) => (k + ": "@ + v + "\n"@, col),
        Node::Image(c, p, s) => {
            let (x, c1) = md(*c, col);
            let (z, c2) = md(*s, c1);
            let (y, c3) = md(*p, c2);
            ("!["@ + x + "|"@ + z + "]("@ + y + ")"@, c3)
        },
        Node::Color(b) => {
            let (x, c1) = md(*b, col);
            ("\\{"@ + x + "}"@, c1)
        },
        Node::ImageSizeSpec(a, b) => {
            let (x, c1) = md(*a, col);
            let (y, c2) = md(*b, c1);
            (x + "x"@ + y, c2)
        },
        Node::VSpace => (Seq::empty(), col),
        Node::DropCap(c, l) => (repeat("%"@, if l > 0 { (l - 1) as nat } else { 0 }) + seq![c], col),
    }
}

fn sat_add(a: u64, b: u64) -> (r: u64)
    ensures
        r == sat(a + b),
{
    if a > u64::MAX - b {
        u64::MAX
    } else {
        a + b
    }
}

fn char_width(c: char) -> (r: u64)
    ensures
        r == width(c),
{
    if (c as u32) < 0x80 {
        1
    } else if (c as u32) < 0x800 {
        2
    } else if (c as u32) < 0x10000 {
        3
    } else {
        4
    }
}

fn is_single_space(s: &String) -> (r: bool)
    ensures
        r == (s@ == " "@),
{
    let sp = " ".to_owned();
    *s == sp
}

/// Writes `word` as `emit` says.
fn emit_word(out: &mut String, col: u64, word: &String, wlen: u64) -> (c: u64)
    ensures
        ({
            let w = emit(Wrap { out: old(out)@, col: col as int, word: word@, wlen: wlen as int });
            final(out)@ == w.out && c == w.col
        }),
{
    let mut c = sat_add(col, wlen);
    if c < WRAP_COLUMN {
        if !out.as_str().is_empty() && !is_single_space(out) {
            push_str(out, " ");
        }
        push_str(out, word.as_str());
    } else {
        push_str(out, "\n");
        push_str(out, word.as_str());
        c = wlen;
    }
    sat_add(c, 1)
}

/// `pre`, then `x`, then `post`.
fn framed(pre: &str, x: String, post: &str) -> (r: String)
    ensures
        r@ == pre@ + x@ + post@,
{
    let mut out = pre.to_owned();
    push_str(&mut out, x.as_str());
    push_str(&mut out, post);
    out
}

fn repeated(s: &str, n: u64) -> (r: String)
    ensures
        r@ == repeat(s@, n as nat),
{
    let mut r = String::new();
    let mut i: u64 = 0;
    while i < n
        invariant
            i <= n,
            r@ == repeat(s@, i as nat),
        decreases n - i,
    {
        push_str(&mut r, s);
        i += 1;
    }
    r
}

impl Renderer {
    /// Wraps the words of `s` at the wrap column, from the current column on.
    pub fn wrap_at(&mut self, s: String) -> (r: String)
        ensures
            r@ == wrapped(s@, old(self).char_index as int).out,
            final(self).char_index == wrapped(s@, old(self).char_index as int).col,
    {
        let cs = chars_of(s.as_str());
        let mut out = String::new();
        let mut col = self.char_index;
        if cs.len() > 0 && cs[0] == ' ' {
            out = " ".to_owned();
            col = sat_add(col, 1);
        }
        let mut word = String::new();
        let mut wlen: u64 = 0;
        let mut i: usize = 0;
        while i < cs.len()
            invariant
                cs@ == s@,
                i <= cs.len(),
                wrapped(s@, self.char_index as int) == wrap_from(
                    s@,
                    i as int,
                    Wrap { out: out@, col: col as int, word: word@, wlen: wlen as int },
                ),
            decreases cs.len() - i,
        {
            let c = cs[i];
            if c == ' ' || c == '\n' {
                col = emit_word(&mut out, col, &word, wlen);
                word = String::new();
                wlen = 0;
            } else {
                push_char(&mut word, c);
                wlen = sat_add(wlen, char_width(c));
            }
            i += 1;
        }
        col = emit_word(&mut out, col, &word, wlen);
        self.char_index = col;
        out
    }
}

pub open spec fn leaf_node(t: Node) -> bool {
    t is Literal || t is EscapeLit || t is PreformattedLiteral || t is Empty || t is Paragraph
        || t is LineBreak || t is VSpace || t is MetaDataItem || t is DropCap
}

pub open spec fn wrapper_node(t: Node) -> bool {
    t is Bold || t is Italic || t is BoldItalic || t is SmallCaps || t is InlineCode || t is Quote
        || t is ChapterMark || t is RightSidenote || t is Footnote || t is Color || t is Document
        || t is List || t is MetaDataBlock
}

fn is_leaf(t: &Tree) -> (r: bool)
    ensures
        r == leaf_node(t@),
{
    match t {
        Tree::Literal(_) | Tree::EscapeLit(_) | Tree::PreformattedLiteral(_) | Tree::Empty()
        | Tree::Paragraph() | Tree::LineBreak() | Tree::VSpace() | Tree::MetaDataItem(_, _)
        | Tree::DropCap(_, _) => true,
        _ => false,
    }
}

fn is_wrapper(t: &Tree) -> (r: bool)
    ensures
        r == wrapper_node(t@),
{
    match t {
        Tree::Bold(_) | Tree::Italic(_) | Tree::BoldItalic(_) | Tree::SmallCaps(_)
        | Tree::InlineCode(_) | Tree::Quote(_) | Tree::ChapterMark(_) | Tree::RightSidenote(_)
        | Tree::Footnote(_) | Tree::Color(_) | Tree::Document(_, _) | Tree::List(_, _)
        | Tree::MetaDataBlock(_) => true,
        _ => false,
    }
}

/// `s` without its first character.
fn drop_first_char(s: &String) -> (r: String)
    requires
        s@.len() > 0,
    ensures
        r@ == s@.drop_first(),
{
    let cs = chars_of(s.as_str());
    let mut r = String::new();
    let mut i: usize = 1;
    while i < cs.len()
        invariant
            cs@ == s@,
            1 <= i <= cs.len(),
            r@ == s@.subrange(1, i as int),
        decreases cs.len() - i,
    {
        push_char(&mut r, cs[i]);
        i += 1;
        assert(r@ =~= s@.subrange(1, i as int));
    }
    assert(r@ =~= s@.drop_first());
    r
}

fn starts_with_newline(s: &String) -> (r: bool)
    ensures
        r == (s@.len() > 0 && s@[0] == '\n'),
{
    let cs = chars_of(s.as_str());
    cs.len() > 0 && cs[0] == '\n'
}

impl Renderer {
    /// Renders `exp` from the current column on.
    pub fn render_tree(&mut self, exp: Tree) -> (r: String)
        ensures
            (r@, final(self).char_index as int) == md(exp@, old(self).char_index as int),
        decreases exp, 1nat,
    {
        if is_leaf(&exp) {
            self.render_leaf(exp)
        } else if is_wrapper(&exp) {
            self.render_wrapper(exp)
        } else {
            self.render_compound(exp)
        }
    }

    fn render_leaf(&mut self, exp: Tree) -> (r: String)
        requires
            leaf_node(exp@),
        ensures
            (r@, final(self).char_index as int) == md(exp@, old(self).char_index as int),
    {
        match exp {
            Tree::Literal(s) => self.wrap_at(s),
            Tree::EscapeLit(s) => s,
            Tree::PreformattedLiteral(s) => s,
            Tree::Paragraph() | Tree::LineBreak() => {
                self.char_index = 0;
                "\n".to_owned()
            },
            Tree::MetaDataItem(key, value) => {
                let mut out = key;
                push_str(&mut out, ": ");
                push_str(&mut out, value.as_str());
                push_str(&mut out, "\n");
                out
            },
            Tree::DropCap(c, l) => {
                let mut out = repeated("%", if l > 0 { (l - 1) as u64 } else { 0 });
                push_char(&mut out, c);
                out
            },
            _ => String::new(),
        }
    }

    fn render_wrapper(&mut self, exp: Tree) -> (r: String)
        requires
            wrapper_node(exp@),
        ensures
            (r@, final(self).char_index as int) == md(exp@, old(self).char_index as int),
        decreases exp, 0nat,
    {
        match exp {
            Tree::Bold(b) => {
                let bold_text = self.render_tree(*b);
                if starts_with_newline(&bold_text) {
                    self.char_index = sat_add(self.char_index, 1);
                    framed("\n*", drop_first_char(&bold_text), "*")
                } else {
                    framed("*", bold_text, "*")
                }
            },
            Tree::Italic(b) => framed("_", self.render_tree(*b), "_"),
            Tree::BoldItalic(b) => framed("_**", self.render_tree(*b), "**_"),
            Tree::SmallCaps(b) => framed("{", self.render_tree(*b), "}"),
            Tree::InlineCode(b) => framed("`", self.render_tree(*b), "`"),
            Tree::Quote(b) => framed("\"", self.render_tree(*b), "\""),
            Tree::ChapterMark(b) => framed(">>(", self.render_tree(*b), ")"),
            Tree::RightSidenote(b) => framed(">(", self.render_tree(*b), ")"),
            Tree::Footnote(b) => framed("^(", self.render_tree(*b), ")"),
            Tree::Color(b) => framed("\\{", self.render_tree(*b), "}"),
            Tree::Document(_, b) => self.render_tree(*b),
            Tree::List(b, _) => self.render_tree(*b),
            Tree::MetaDataBlock(b) => framed("---\n", self.render_tree(*b), "---\n\n"),
            _ => String::new(),
        }
    }

    fn render_compound(&mut self, exp: Tree) -> (r: String)
        requires
            !leaf_node(exp@),
            !wrapper_node(exp@),
        ensures
            (r@, final(self).char_index as int) == md(exp@, old(self).char_index as int),
        decreases exp, 0nat,
    {
        match exp {
            Tree::CodeBlock(k, b) => {
                let x = self.render_tree(*k);
                let y = self.render_tree(*b);
                let out = framed("```", x, "\n");
                framed(out.as_str(), y, "```")
            },
            Tree::Heading(b, level, name) => {
                let x = self.render_tree(*b);
                let marks = repeated("#", level as u64 + 1);
                let mut out = framed(marks.as_str(), " ".to_owned(), x.as_str());
                if !name.as_str().is_empty() {
                    push_str(&mut out, "/");
                    push_str(&mut out, name.as_str());
                    push_str(&mut out, "/");
                }
                out
            },
            Tree::HyperRef(a, b) => {
                let x = self.render_tree(*a);
                let y = self.render_tree(*b);
                let out = framed("[", x, "](");
                framed(out.as_str(), y, ")")
            },
            Tree::DocRef(target, b) => {
                let x = self.render_tree(*b);
                let out = framed("[", x, "](#");
                framed(out.as_str(), target, ")")
            },
            Tree::Cat(a, b) => {
                let mut x = self.render_tree(*a);
                let y = self.render_tree(*b);
                push_str(&mut x, y.as_str());
                x
            },
            Tree::ListItem(b, level) => {
                let x = self.render_tree(*b);
                self.char_index = 0;
                let indent = repeated("  ", level as u64);
                let mut out = framed(indent.as_str(), "* ".to_owned(), x.as_str());
                push_str(&mut out, "\n");
                out
            },
            Tree::Image(c, p, s) => {
                let x = self.render_tree(*c);
                let z = self.render_tree(*s);
                let y = self.render_tree(*p);
                let out = framed("![", x, "|");
                let out = framed(out.as_str(), z, "](");
                framed(out.as_str(), y, ")")
            },
            Tree::ImageSizeSpec(a, b) => {
                let mut x = self.render_tree(*a);
                let y = self.render_tree(*b);
                push_str(&mut x, "x");
                push_str(&mut x, y.as_str());
                x
            },
            _ => String::new(),
        }
    }
}

impl Render for Renderer {
    open spec fn output(&self, t: Node) -> Seq<char> {
        md(t, self.char_index as int).0
    }

    open spec fn after(&self, t: Node) -> Renderer {
        Renderer { char_index: md(t, self.char_index as int).1 as u64 }
    }

    open spec fn accepts(&self, t: Node) -> bool {
        true
    }

    fn can_render(&self, t: &Tree) -> (b: bool) {
        true
    }

    fn render(&mut self, tree: Tree) -> (r: String) {
        self.render_tree(tree)
    }
}

} // verus!
