//! The mom macro back end: typeset documents, chapters, slides and letters.
use crate::config::Config;
use crate::render::Render;
use crate::syntax::{DocType, Node, Tree};
use crate::text::{
    decimal, ends_with_newline, push_char, push_str, replace_spaces, to_decimal,
    to_uppercase, underscored, upper_of,
};
use vstd::prelude::*;

verus! {

/// Renders trees as mom macros.
pub struct Renderer {
    /// a first chapter title or slide has been written
    pub document_started: bool,
    pub doc_type: DocType,
    /// text written after the document kind
    pub preamble: String,
    pub skip_preamble: bool,
}

/// A renderer for the settings of `config`: its preamble is used unless it says to skip it.
pub fn new(config: &Config) -> (r: Renderer)
    ensures
        !r.document_started,
        r.doc_type == DocType::DEFAULT,
        r.preamble@ == config.preamble@,
        r.skip_preamble == config.skip_preamble,
{
    Renderer {
        document_started: false,
        doc_type: DocType::DEFAULT,
        preamble: config.preamble.clone(),
        skip_preamble: config.skip_preamble,
    }
}

/// What changes while rendering: the document kind and whether the document started.
pub struct MomState {
    pub doc_type: DocType,
    pub started: bool,
}

/// The directive that selects the document kind.
pub open spec fn doc_type_line(dt: DocType) -> Seq<char> {
    match dt {
        DocType::DEFAULT => ".DOCTYPE DEFAULT"@,
        DocType::CHAPTER => ".DOCTYPE CHAPTER HEADER \"\\*[$TITLE]\" \"\" \"\" FOOTER \"\\*[$AUTHOR]\" \"\" \"\""@,
        DocType::SLIDES => ".DOCTYPE SLIDES HEADER \"\\*[$TITLE]\" \"\" \"\" FOOTER \"\\*[$AUTHOR]\" \"\" \"\\*S[+2]\\*[SLIDE#]\\*S[-2]\""@,
        DocType::LETTER => ".DOCTYPE LETTER"@,
    }
}

/// The text before the body of a document.
pub open spec fn header(dt: DocType, preamble: Seq<char>, skip: bool) -> Seq<char> {
    let h = if skip {
        doc_type_line(dt)
    } else {
        doc_type_line(dt) + "\n"@ + preamble
    };
    match dt {
        DocType::CHAPTER | DocType::SLIDES => h,
        _ => if h.len() > 0 && h.last() == '\n' {
            h + ".START\n"@
        } else {
            h + "\n"@ + ".START\n"@
        },
    }
}

/// ` NAMED name` for a heading with an anchor name.
pub open spec fn named(name: Seq<char>) -> Seq<char> {
    if name.len() > 0 {
        " NAMED "@ + name
    } else {
        Seq::empty()
    }
}

/// The directives of a heading of `level` with the rendered `title`.
pub open spec fn heading_text(dt: DocType, started: bool, level: u8, name: Seq<char>, title: Seq<char>) -> Seq<char> {
    match dt {
        DocType::CHAPTER => if level == 0 {
            (if started { ".COLLATE\n"@ } else { Seq::empty() }) + ".CHAPTER_TITLE \""@ + title + "\"\n.START\n"@
        } else {
            ".SPACE -.7v\n.EW 2\n.HEADING "@ + decimal(level as nat + 2) + " \""@ + title + "\"\n.EW 0\n"@
        },
        DocType::SLIDES => if level == 0 {
            "."@ + (if started { "NEWSLIDE"@ } else { "START"@ }) + "\n.HEADING "@ + decimal(level as nat + 1)
                + " \""@ + title + "\"\n"@
        } else {
            ".SPACE -.7v\n.EW 2\n.HEADING "@ + decimal(level as nat + 1) + " \""@ + title + "\"\n.EW 0\n"@
        },
        _ => if level == 3 {
            ".SPACE -1v\n.MN LEFT\n\\!.ALD 1v\n"@ + title + "\n.MN OFF"@
        } else if level == 0 {
            ".FT B\n.EW 2\n.HEADING "@ + decimal(level as nat + 1) + named(name) + " \""@ + title
                + "\"\n.EW 0"@ + "\n.FT R\n.DRH"@
        } else if level == 1 {
            ".FT B\n.EW 2\n.HEADING "@ + decimal(level as nat + 1) + named(name) + " \""@ + title
                + "\"\n.EW 0"@ + "\n.FT R"@
        } else {
            ".EW 2\n.HEADING "@ + decimal(level as nat + 1) + named(name) + " \""@ + title + "\"\n.EW 0"@
        },
    }
}

/// A level 0 heading of a chapter or slide document starts the document.
pub open spec fn starts_document(dt: DocType, level: u8) -> bool {
    level == 0 && (dt == DocType::CHAPTER || dt == DocType::SLIDES)
}

/// The mom text of `t` inside the style `pf`, and the state after it.
pub open spec fn mom(t: Node, pf: Seq<char>, st: MomState, pre: Seq<char>, skip: bool) -> (Seq<char>, MomState)
    decreases t,
{
    match t {
        Node::Document(dt, b) => {
            let (body, st1) = mom(*b, pf, MomState { doc_type: dt, started: st.started }, pre, skip);
            (header(dt, pre, skip) + body, st1)
        },
        Node::Paragraph => (".PP\n"@, st),
        Node::LineBreak => ("\n"@, st),
        Node::Literal(s) => (s, st),
        Node::PreformattedLiteral(s) => (s, st),
        Node::EscapeLit(s) => (if s == "."@ { "\\&."@ } else { s }, st),
        Node::Bold(b) => {
            let (x, st1) = mom(*b, "BD"@, st, pre, skip);
            ("\\*[BD]"@ + x + "\\*["@ + pf + "]"@, st1)
        },
        Node::Italic(b) => {
            let (x, st1) = mom(*b, "IT"@, st, pre, skip);
            ("\\*[IT]"@ + x + "\\*["@ + pf + "]"@, st1)
        },
        Node::BoldItalic(b) => {
            let (x, st1) = mom(*b, "BDI"@, st, pre, skip);
            ("\\*[BDI]"@ + x + "\\*["@ + pf + "]"@, st1)
        },
        Node::SmallCaps(b) => mom(*b, pf, st, pre, skip),
        Node::CodeBlock(_, b) => {
            let (x, st1) = mom(*b, "ROM"@, st, pre, skip);
            (".QUOTE_STYLE INDENT 1\n.QUOTE\n.CODE\n"@ + x + ".QUOTE OFF"@, st1)
        },
        Node::InlineCode(b) => {
            let (x, st1) = mom(*b, "ROM"@, st, pre, skip);
            ("\\*[CODE]"@ + x + "\\*[CODE OFF]"@, st1)
        },
        Node::Heading(b, level, name) => {
            let st0 = if starts_document(st.doc_type, level) {
                MomState { doc_type: st.doc_type, started: true }
            } else {
                st
            };
            let (x, st1) = mom(*b, "ROM"@, st0, pre, skip);
            (heading_text(st.doc_type, st.started, level, name, x), st1)
        },
        Node::Color(b) => {
            let (x, st1) = mom(*b, "ROM"@, st, pre, skip);
            (".COLOR "@ + x + "\n"@, st1)
        },
        Node::ChapterMark(b) => {
            let (x, st1) = mom(*b, "ROM"@, st, pre, skip);
            (".MN RIGHT\n.PT_SIZE +48\n"@ + x + "\n.MN OFF"@, st1)
        },
        Node::RightSidenote(b) => {
            let (x, st1) = mom(*b, "ROM"@, st, pre, skip);
            ("\n.MN RIGHT\n.PT_SIZE -2\n"@ + x + "\n.MN OFF\n"@, st1)
        },
        Node::Quote(b) => {
            let (x, st1) = mom(*b, "ROM"@, st, pre, skip);
            ("\""@ + x + "\""@, st1)
        },
        Node::Footnote(b) => {
            let (x, st1) = mom(*b, "ROM"@, st, pre, skip);
            ("\\c\n.FOOTNOTE\n"@ + x + "\n.FOOTNOTE END\n"@, st1)
        },
        Node::HyperRef(text, url) => {
            let (u, st1) = mom(*url, "ROM"@, st, pre, skip);
            let (x, st2) = mom(*text, "ROM"@, st1, pre, skip);
            ("\\c\n.PDF_WWW_LINK "@ + u + " \""@ + x + "\"\\c\n"@, st2)
        },
        Node::DocRef(target, text) => {
            let (x, st1) = mom(*text, "ROM"@, st, pre, skip);
            ("\\c\n.PDF_LINK "@ + target + " \""@ + x + "\"\\c\n"@, st1)
        },
        Node::Cat(a, b) => {
            let (x, st1) = mom(*a, pf, st, pre, skip);
            let (y, st2) = mom(*b, pf, st1, pre, skip);
            (x + y, st2)
        },
        Node::Empty => (Seq::empty(), st),
        Node::List(b, _) => {
            let (x, st1) = mom(*b, "ROM"@, st, pre, skip);
            (".LIST\n.SHIFT_LIST 18p\n"@ + x + ".LIST OFF\n"@, st1)
        },
        Node::ListItem(b, _) => if *b is Empty {
            (Seq::empty(), st)
        } else {
            let (x, st1) = mom(*b, "ROM"@, st, pre, skip);
            (".ITEM\n"@ + x + "\n"@, st1)
        },
        Node::MetaDataBlock(b) => mom(*b, "ROM"@, st, pre, skip),
        Node::MetaDataItem(k, v) => ("."@ + underscored(upper_of(k)) + " "@ + v + "\n"@, st),
        Node::ImageSizeSpec(w, h) => {
            let (x, st1) = mom(*w, "ROM"@, st, pre, skip);
            let (y, st2) = mom(*h, "ROM"@, st1, pre, skip);
            (x + "p "@ + y + "p"@, st2)
        },
        Node::Image(caption, path, size) => {
            let (p, st1) = mom(*path, "ROM"@, st, pre, skip);
            let (z, st2) = mom(*size, "ROM"@, st1, pre, skip);
            let (c, st3) = mom(*caption, "ROM"@, st2, pre, skip);
            (".PDF_IMAGE "@ + p + " "@ + z + " LABEL \""@ + c + "\""@, st3)
        },
        Node::VSpace => ("\n.SP 1v"@, st),
        Node::DropCap(c, l) => ("\n.DROPCAP "@ + seq![c] + " "@ + decimal(l as nat) + "\n"@, st),
    }
}

pub open spec fn leaf_node(t: Node) -> bool {
    t is Paragraph || t is LineBreak || t is Literal || t is PreformattedLiteral || t is EscapeLit
        || t is Empty || t is VSpace || t is DropCap || t is MetaDataItem
}

pub open spec fn style_node(t: Node) -> bool {
    t is Document || t is Bold || t is Italic || t is BoldItalic || t is SmallCaps || t is Cat
}

pub open spec fn framed_node(t: Node) -> bool {
    t is CodeBlock || t is InlineCode || t is Color || t is ChapterMark || t is RightSidenote
        || t is Quote || t is Footnote || t is List || t is ListItem || t is MetaDataBlock
}

pub open spec fn block_node(t: Node) -> bool {
    t is Quote || t is Footnote || t is List || t is ListItem || t is MetaDataBlock
}

pub open spec fn compound_node(t: Node) -> bool {
    !leaf_node(t) && !style_node(t) && !framed_node(t)
}

fn is_empty_tree(t: &Tree) -> (r: bool)
    ensures
        r == (t@ is Empty),
{
    match t {
        Tree::Empty() => true,
        _ => false,
    }
}

fn is_leaf(t: &Tree) -> (r: bool)
    ensures
        r == leaf_node(t@),
{
    match t {
        Tree::Paragraph() | Tree::LineBreak() | Tree::Literal(_) | Tree::PreformattedLiteral(_)
        | Tree::EscapeLit(_) | Tree::Empty() | Tree::VSpace() | Tree::DropCap(_, _)
        | Tree::MetaDataItem(_, _) => true,
        _ => false,
    }
}

fn is_style(t: &Tree) -> (r: bool)
    ensures
        r == style_node(t@),
{
    match t {
        Tree::Document(_, _) | Tree::Bold(_) | Tree::Italic(_) | Tree::BoldItalic(_)
        | Tree::SmallCaps(_) | Tree::Cat(_, _) => true,
        _ => false,
    }
}

fn is_block(t: &Tree) -> (r: bool)
    ensures
        r == block_node(t@),
{
    match t {
        Tree::Quote(_) | Tree::Footnote(_) | Tree::List(_, _) | Tree::ListItem(_, _)
        | Tree::MetaDataBlock(_) => true,
        _ => false,
    }
}

fn is_framed(t: &Tree) -> (r: bool)
    ensures
        r == framed_node(t@),
{
    match t {
        Tree::CodeBlock(_, _) | Tree::InlineCode(_) | Tree::Color(_) | Tree::ChapterMark(_)
        | Tree::RightSidenote(_) | Tree::Quote(_) | Tree::Footnote(_) | Tree::List(_, _)
        | Tree::ListItem(_, _) | Tree::MetaDataBlock(_) => true,
        _ => false,
    }
}

impl Renderer {
    pub open spec fn state(&self) -> MomState {
        MomState { doc_type: self.doc_type, started: self.document_started }
    }

    pub open spec fn with_state(&self, st: MomState) -> Renderer {
        Renderer {
            document_started: st.started,
            doc_type: st.doc_type,
            preamble: self.preamble,
            skip_preamble: self.skip_preamble,
        }
    }

    /// Renders `exp` inside the style `parent_format`, which a nested style
    /// switches back to when it ends.
    pub fn render_with_parent_format(&mut self, exp: Tree, parent_format: &str) -> (r: String)
        ensures
            (r@, final(self).state()) == mom(
                exp@,
                parent_format@,
                old(self).state(),
                old(self).preamble@,
                old(self).skip_preamble,
            ),
            final(self).preamble == old(self).preamble,
            final(self).skip_preamble == old(self).skip_preamble,
        decreases exp, 2nat,
    {
        if is_leaf(&exp) {
            self.render_leaf(exp, parent_format)
        } else if is_style(&exp) {
            self.render_style(exp, parent_format)
        } else if is_block(&exp) {
            self.render_block(exp, parent_format)
        } else if is_framed(&exp) {
            self.render_framed(exp, parent_format)
        } else {
            self.render_compound(exp, parent_format)
        }
    }

    /// Text nodes and markers, which hold no sub tree.
    fn render_leaf(&mut self, exp: Tree, parent_format: &str) -> (r: String)
        requires
            leaf_node(exp@),
        ensures
            (r@, final(self).state()) == mom(
                exp@,
                parent_format@,
                old(self).state(),
                old(self).preamble@,
                old(self).skip_preamble,
            ),
            final(self).preamble == old(self).preamble,
            final(self).skip_preamble == old(self).skip_preamble,
        decreases exp, 1nat,
    {
        proof {
            reveal_with_fuel(Tree::model, 2);
        }
        let mut out = String::new();
        match exp {
            Tree::Paragraph() => {
                out = ".PP\n".to_owned();
            },
            Tree::LineBreak() => {
                out = "\n".to_owned();
            },
            Tree::Literal(s) => {
                out = s;
            },
            Tree::PreformattedLiteral(s) => {
                out = s;
            },
            Tree::EscapeLit(s) => {
                let dot = ".".to_owned();
                if s == dot {
                    out = "\\&.".to_owned();
                } else {
                    out = s;
                }
            },
            Tree::Empty() => {},
            Tree::MetaDataItem(key, value) => {
                let upper = to_uppercase(key.as_str());
                let k = replace_spaces(upper.as_str());
                out = framed(".", k, " ");
                out = framed(out.as_str(), value, "\n");
            },
            Tree::VSpace() => {
                out = "\n.SP 1v".to_owned();
            },
            Tree::DropCap(c, l) => {
                let mut ch = String::new();
                push_char(&mut ch, c);
                out = framed("\n.DROPCAP ", ch, " ");
                out = framed(out.as_str(), to_decimal(l as u32), "\n");
            },
            _ => {},
        }
        out
    }

    /// Styles, which switch back to the enclosing one, and sequences.
    fn render_style(&mut self, exp: Tree, parent_format: &str) -> (r: String)
        requires
            style_node(exp@),
        ensures
            (r@, final(self).state()) == mom(
                exp@,
                parent_format@,
                old(self).state(),
                old(self).preamble@,
                old(self).skip_preamble,
            ),
            final(self).preamble == old(self).preamble,
            final(self).skip_preamble == old(self).skip_preamble,
        decreases exp, 1nat,
    {
        proof {
            reveal_with_fuel(Tree::model, 2);
        }
        let mut out = String::new();
        match exp {
            Tree::Document(dt, be) => {
                self.doc_type = dt;
                out = document_header(dt, self.preamble.as_str(), self.skip_preamble);
                let body = self.render_with_parent_format(*be, parent_format);
                push_str(&mut out, body.as_str());
            },
            Tree::Bold(b) => {
                out = styled("\\*[BD]", self.render_with_parent_format(*b, "BD"), parent_format);
            },
            Tree::Italic(b) => {
                out = styled("\\*[IT]", self.render_with_parent_format(*b, "IT"), parent_format);
            },
            Tree::BoldItalic(b) => {
                out = styled("\\*[BDI]", self.render_with_parent_format(*b, "BDI"), parent_format);
            },
            Tree::SmallCaps(b) => {
                out = self.render_with_parent_format(*b, parent_format);
            },
            Tree::Cat(a, b) => {
                out = self.render_with_parent_format(*a, parent_format);
                let y = self.render_with_parent_format(*b, parent_format);
                push_str(&mut out, y.as_str());
            },
            _ => {},
        }
        out
    }

    /// Nodes whose content stands between fixed directives.
    fn render_framed(&mut self, exp: Tree, parent_format: &str) -> (r: String)
        requires
            framed_node(exp@) && !block_node(exp@),
        ensures
            (r@, final(self).state()) == mom(
                exp@,
                parent_format@,
                old(self).state(),
                old(self).preamble@,
                old(self).skip_preamble,
            ),
            final(self).preamble == old(self).preamble,
            final(self).skip_preamble == old(self).skip_preamble,
        decreases exp, 1nat,
    {
        let mut out = String::new();
        match exp {
            Tree::CodeBlock(_, b) => {
                out = framed(".QUOTE_STYLE INDENT 1\n.QUOTE\n.CODE\n", self.render_with_default_format(*b), ".QUOTE OFF");
            },
            Tree::InlineCode(b) => {
                out = framed("\\*[CODE]", self.render_with_default_format(*b), "\\*[CODE OFF]");
            },
            Tree::Color(b) => {
                out = framed(".COLOR ", self.render_with_default_format(*b), "\n");
            },
            Tree::ChapterMark(b) => {
                out = framed(".MN RIGHT\n.PT_SIZE +48\n", self.render_with_default_format(*b), "\n.MN OFF");
            },
            Tree::RightSidenote(b) => {
                out = framed("\n.MN RIGHT\n.PT_SIZE -2\n", self.render_with_default_format(*b), "\n.MN OFF\n");
            },
            _ => {},
        }
        out
    }

    /// Quotes, notes, lists and meta data.
    fn render_block(&mut self, exp: Tree, parent_format: &str) -> (r: String)
        requires
            block_node(exp@),
        ensures
            (r@, final(self).state()) == mom(
                exp@,
                parent_format@,
                old(self).state(),
                old(self).preamble@,
                old(self).skip_preamble,
            ),
            final(self).preamble == old(self).preamble,
            final(self).skip_preamble == old(self).skip_preamble,
        decreases exp, 1nat,
    {
        let mut out = String::new();
        match exp {
            Tree::Quote(b) => {
                out = framed("\"", self.render_with_default_format(*b), "\"");
            },
            Tree::Footnote(b) => {
                out = framed("\\c\n.FOOTNOTE\n", self.render_with_default_format(*b), "\n.FOOTNOTE END\n");
            },
            Tree::List(b, _) => {
                out = framed(".LIST\n.SHIFT_LIST 18p\n", self.render_with_default_format(*b), ".LIST OFF\n");
            },
            Tree::ListItem(b, _) => {
                if !is_empty_tree(&b) {
                    out = framed(".ITEM\n", self.render_with_default_format(*b), "\n");
                }
            },
            Tree::MetaDataBlock(b) => {
                out = self.render_with_default_format(*b);
            },
            _ => {},
        }
        out
    }

    /// Headings, links and images.
    fn render_compound(&mut self, exp: Tree, parent_format: &str) -> (r: String)
        requires
            compound_node(exp@),
        ensures
            (r@, final(self).state()) == mom(
                exp@,
                parent_format@,
                old(self).state(),
                old(self).preamble@,
                old(self).skip_preamble,
            ),
            final(self).preamble == old(self).preamble,
            final(self).skip_preamble == old(self).skip_preamble,
        decreases exp, 1nat,
    {
        let mut out = String::new();
        match exp {
            Tree::Heading(b, level, name) => {
                let ghost st = self.state();
                let dt = self.doc_type;
                let started = self.document_started;
                if level == 0 && (dt == DocType::CHAPTER || dt == DocType::SLIDES) {
                    self.document_started = true;
                }
                let title = self.render_with_default_format(*b);
                out = heading_directives(dt, started, level, name.as_str(), title.as_str());
            },
            Tree::HyperRef(text, url) => {
                let u = self.render_with_default_format(*url);
                let x = self.render_with_default_format(*text);
                out = framed("\\c\n.PDF_WWW_LINK ", u, " \"");
                out = framed(out.as_str(), x, "\"\\c\n");
            },
            Tree::DocRef(target, text) => {
                let x = self.render_with_default_format(*text);
                out = framed("\\c\n.PDF_LINK ", target, " \"");
                out = framed(out.as_str(), x, "\"\\c\n");
            },
            Tree::ImageSizeSpec(w, h) => {
                out = self.render_with_default_format(*w);
                let y = self.render_with_default_format(*h);
                out = framed(out.as_str(), "p ".to_owned(), y.as_str());
                push_str(&mut out, "p");
            },
            Tree::Image(caption, path, size) => {
                let p = self.render_with_default_format(*path);
                let z = self.render_with_default_format(*size);
                let c = self.render_with_default_format(*caption);
                out = framed(".PDF_IMAGE ", p, " ");
                out = framed(out.as_str(), z, " LABEL \"");
                out = framed(out.as_str(), c, "\"");
            },
            _ => {},
        }
        out
    }

    /// Renders `exp` in the roman style.
    pub fn render_with_default_format(&mut self, exp: Tree) -> (r: String)
        ensures
            (r@, final(self).state()) == mom(
                exp@,
                "ROM"@,
                old(self).state(),
                old(self).preamble@,
                old(self).skip_preamble,
            ),
            final(self).preamble == old(self).preamble,
            final(self).skip_preamble == old(self).skip_preamble,
        decreases exp, 3nat,
    {
        self.render_with_parent_format(exp, "ROM")
    }
}


/// `pre`, then `x`, then `post`.
fn framed(pre: &str, x: String, post: &str) -> (r: String)
    ensures
        r@ == pre@ + x@ + post@,
{
    let mut out = pre.to_owned();
    push_str(&mut out, x.as_str());
    push_str(&mut out, post);
    out
}

/// `x` switched on by `open` and back to the style `pf` after it.
fn styled(open: &str, x: String, pf: &str) -> (r: String)
    ensures
        r@ == open@ + x@ + "\\*["@ + pf@ + "]"@,
{
    let mut out = open.to_owned();
    push_str(&mut out, x.as_str());
    push_str(&mut out, "\\*[");
    push_str(&mut out, pf);
    push_str(&mut out, "]");
    out
}

/// The text before the body of a document of kind `dt`.
fn document_header(dt: DocType, preamble: &str, skip: bool) -> (r: String)
    ensures
        r@ == header(dt, preamble@, skip),
{
    let mut out = String::new();
    push_str(&mut out, match dt {
        DocType::DEFAULT => ".DOCTYPE DEFAULT",
        DocType::CHAPTER => ".DOCTYPE CHAPTER HEADER \"\\*[$TITLE]\" \"\" \"\" FOOTER \"\\*[$AUTHOR]\" \"\" \"\"",
        DocType::SLIDES => ".DOCTYPE SLIDES HEADER \"\\*[$TITLE]\" \"\" \"\" FOOTER \"\\*[$AUTHOR]\" \"\" \"\\*S[+2]\\*[SLIDE#]\\*S[-2]\"",
        DocType::LETTER => ".DOCTYPE LETTER",
    });
    assert(out@ =~= doc_type_line(dt));
    if !skip {
        out = framed(out.as_str(), "\n".to_owned(), preamble);
    }
    match dt {
        DocType::CHAPTER | DocType::SLIDES => {},
        _ => {
            if !ends_with_newline(out.as_str()) {
                push_str(&mut out, "\n");
            }
            push_str(&mut out, ".START\n");
        },
    }
    out
}

/// The directives of a heading.
fn heading_directives(dt: DocType, started: bool, level: u8, name: &str, title: &str) -> (r: String)
    ensures
        r@ == heading_text(dt, started, level, name@, title@),
{
    let mut out = String::new();
    match dt {
        DocType::CHAPTER => {
            if level == 0 {
                if started {
                    push_str(&mut out, ".COLLATE\n");
                }
                push_str(&mut out, ".CHAPTER_TITLE \"");
                push_str(&mut out, title);
                push_str(&mut out, "\"\n.START\n");
            } else {
                push_str(&mut out, ".SPACE -.7v\n.EW 2\n.HEADING ");
                push_str(&mut out, to_decimal(level as u32 + 2).as_str());
                push_str(&mut out, " \"");
                push_str(&mut out, title);
                push_str(&mut out, "\"\n.EW 0\n");
            }
            assert(out@ =~= heading_text(dt, started, level, name@, title@));
        },
        DocType::SLIDES => {
            if level == 0 {
                push_str(&mut out, ".");
                push_str(&mut out, if started { "NEWSLIDE" } else { "START" });
                push_str(&mut out, "\n.HEADING ");
                push_str(&mut out, to_decimal(level as u32 + 1).as_str());
                push_str(&mut out, " \"");
                push_str(&mut out, title);
                push_str(&mut out, "\"\n");
            } else {
                push_str(&mut out, ".SPACE -.7v\n.EW 2\n.HEADING ");
                push_str(&mut out, to_decimal(level as u32 + 1).as_str());
                push_str(&mut out, " \"");
                push_str(&mut out, title);
                push_str(&mut out, "\"\n.EW 0\n");
            }
            assert(out@ =~= heading_text(dt, started, level, name@, title@));
        },
        _ => {
            let title_part = framed(" \"", title.to_owned(), "\"\n.EW 0");
            let mut number = to_decimal(level as u32 + 1);
            if !name.is_empty() {
                number = framed(number.as_str(), " NAMED ".to_owned(), name);
            }
            if level == 3 {
                out = framed(".SPACE -1v\n.MN LEFT\n\\!.ALD 1v\n", title.to_owned(), "\n.MN OFF");
            } else if level == 0 {
                out = framed(".FT B\n.EW 2\n.HEADING ", number, title_part.as_str());
                push_str(&mut out, "\n.FT R\n.DRH");
            } else if level == 1 {
                out = framed(".FT B\n.EW 2\n.HEADING ", number, title_part.as_str());
                push_str(&mut out, "\n.FT R");
            } else {
                out = framed(".EW 2\n.HEADING ", number, title_part.as_str());
            }
            assert(out@ =~= heading_text(dt, started, level, name@, title@));
        },
    }
    out
}

impl Render for Renderer {
    open spec fn output(&self, t: Node) -> Seq<char> {
        mom(t, "ROM"@, self.state(), self.preamble@, self.skip_preamble).0
    }

    open spec fn after(&self, t: Node) -> Renderer {
        self.with_state(mom(t, "ROM"@, self.state(), self.preamble@, self.skip_preamble).1)
    }

    open spec fn accepts(&self, t: Node) -> bool {
        true
    }

    fn can_render(&self, t: &Tree) -> (b: bool) {
        true
    }

    fn render(&mut self, tree: Tree) -> (r: String) {
        self.render_with_default_format(tree)
    }
}

} // verus!
