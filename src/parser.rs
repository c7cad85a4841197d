//! A recursive descent parser from markup text to a syntax tree.
//!
//! The grammar is stated by the spec functions of this module over the UTF-8
//! bytes of the input and a `Cursor` (position and the document kind read so
//! far); every parsing method of `Parser` is proved to compute exactly what the
//! corresponding spec function states.
use crate::syntax::{
    bold, color, empty, escape_lit, footnote, heading, hyperref, image, image_size, list,
    list_item, lit, meta_data_block, meta_data_item, DocType, Node, Tree, cat_node,
};
use crate::text::{chars_of, string_from_utf8, upper_of, to_uppercase};
use vstd::prelude::*;
use vstd::string::StringSliceAdditionalSpecFns;
use vstd::utf8::{decode_utf8, valid_utf8};

verus! {

/// Why the input could not be parsed; positions are byte offsets, lines count from 1.
#[derive(Debug, Clone, Copy, PartialEq, Eq, Structural)]
pub enum ParseError {
    /// The byte `expected` was required at `position`.
    UnexpectedByte { line: usize, position: usize, expected: u8 },
    /// No construct can start at `position` in this context.
    NoProgress { line: usize, position: usize },
    /// A heading, list or drop cap level would exceed 255.
    TooDeep { line: usize, position: usize },
    /// The text starting at `position` does not decode as UTF-8.
    InvalidText { line: usize, position: usize },
}

/// Indentation of one list level, in spaces.
pub const LIST_INDENT: usize = 2;

/// The byte that stands for the end of the input.
pub const EOF: u8 = 4;

/// ASCII bytes of the markup.
pub const NL: u8 = 10;
pub const TAB: u8 = 9;
pub const SPACE: u8 = 32;
pub const BANG: u8 = 33;
pub const DQUOTE: u8 = 34;
pub const HASH: u8 = 35;
pub const PERCENT: u8 = 37;
pub const AMP: u8 = 38;
pub const LPAREN: u8 = 40;
pub const RPAREN: u8 = 41;
pub const STAR: u8 = 42;
pub const MINUS: u8 = 45;
pub const DOT: u8 = 46;
pub const SLASH: u8 = 47;
pub const COLON: u8 = 58;
pub const GT: u8 = 62;
pub const LBRACKET: u8 = 91;
pub const BACKSLASH: u8 = 92;
pub const RBRACKET: u8 = 93;
pub const CARET: u8 = 94;
pub const UNDERSCORE: u8 = 95;
pub const BACKTICK: u8 = 96;
pub const LOWER_X: u8 = 120;
pub const LBRACE: u8 = 123;
pub const PIPE: u8 = 124;
pub const RBRACE: u8 = 125;

/// Where the parser stands: the byte position and the document kind read so far.
pub struct Cursor {
    pub pos: int,
    pub doc: Seq<char>,
}

/// The outcome of a parsing step: a node and where parsing stands after it.
pub type Outcome = Result<(Node, Cursor), ParseError>;

pub open spec fn at(c: Cursor, pos: int) -> Cursor {
    Cursor { pos, doc: c.doc }
}

/// The byte at `pos`, or `EOF` past the end.
pub open spec fn byte_at(s: Seq<u8>, pos: int) -> u8 {
    if 0 <= pos < s.len() {
        s[pos]
    } else {
        EOF
    }
}

pub open spec fn is_end(s: Seq<u8>, c: Cursor) -> bool {
    c.pos >= s.len()
}

/// The byte `n` ahead of the cursor is `b`.
pub open spec fn ahead(s: Seq<u8>, c: Cursor, n: int, b: u8) -> bool {
    c.pos + n < s.len() && s[c.pos + n] == b
}

/// The number of line breaks among the first `k` bytes.
pub open spec fn newlines(s: Seq<u8>, k: int) -> int
    decreases k,
{
    if k <= 0 {
        0
    } else {
        newlines(s, k - 1) + if s[k - 1] == NL {
            1int
        } else {
            0int
        }
    }
}

pub open spec fn line_at(s: Seq<u8>, pos: int) -> int {
    1 + newlines(s, pos)
}

pub open spec fn unexpected(s: Seq<u8>, c: Cursor, b: u8) -> ParseError {
    ParseError::UnexpectedByte { line: line_at(s, c.pos) as usize, position: c.pos as usize, expected: b }
}

pub open spec fn stuck(s: Seq<u8>, c: Cursor) -> ParseError {
    ParseError::NoProgress { line: line_at(s, c.pos) as usize, position: c.pos as usize }
}

pub open spec fn too_deep(s: Seq<u8>, c: Cursor) -> ParseError {
    ParseError::TooDeep { line: line_at(s, c.pos) as usize, position: c.pos as usize }
}

pub open spec fn bad_text(s: Seq<u8>, c: Cursor) -> ParseError {
    ParseError::InvalidText { line: line_at(s, c.pos) as usize, position: c.pos as usize }
}

/// Steps over the byte `b`, which must be at the cursor.
pub open spec fn eat(s: Seq<u8>, c: Cursor, b: u8) -> Result<Cursor, ParseError> {
    if !is_end(s, c) && s[c.pos] == b {
        Ok(at(c, c.pos + 1))
    } else {
        Err(unexpected(s, c, b))
    }
}

/// Moves one byte on, unless at the end.
pub open spec fn step(s: Seq<u8>, c: Cursor) -> Cursor {
    if is_end(s, c) {
        c
    } else {
        at(c, c.pos + 1)
    }
}

/// Bytes that end a run of plain text, besides the caller's break bytes.
pub open spec fn is_markup(b: u8) -> bool {
    b == UNDERSCORE || b == STAR || b == HASH || b == DQUOTE || b == CARET || b == BACKTICK
        || b == AMP || b == LBRACKET || b == LBRACE || b == GT || b == NL
}

pub open spec fn stops(b: u8, brk: Seq<u8>, markup: bool) -> bool {
    brk.contains(b) || (markup && is_markup(b))
}

/// The position of the first stop byte at or after `pos`, or the end.
pub open spec fn scan(s: Seq<u8>, pos: int, brk: Seq<u8>, markup: bool) -> int
    decreases s.len() - pos,
{
    if pos < 0 || pos >= s.len() || stops(s[pos], brk, markup) {
        pos
    } else {
        scan(s, pos + 1, brk, markup)
    }
}

/// The text up to the next stop byte.
pub open spec fn text_until(s: Seq<u8>, c: Cursor, brk: Seq<u8>, markup: bool) -> Result<
    (Seq<char>, Cursor),
    ParseError,
> {
    let e = scan(s, c.pos, brk, markup);
    let bytes = s.subrange(c.pos, e);
    if valid_utf8(bytes) {
        Ok((decode_utf8(bytes), at(c, e)))
    } else {
        Err(bad_text(s, c))
    }
}

pub open spec fn literal_until(s: Seq<u8>, c: Cursor, brk: Seq<u8>, markup: bool) -> Outcome {
    match text_until(s, c, brk, markup) {
        Ok((t, c1)) => Ok((Node::Literal(t), c1)),
        Err(e) => Err(e),
    }
}

pub open spec fn prelit_until(s: Seq<u8>, c: Cursor, brk: Seq<u8>) -> Outcome {
    match text_until(s, c, brk, false) {
        Ok((t, c1)) => Ok((Node::PreformattedLiteral(t), c1)),
        Err(e) => Err(e),
    }
}

/// Appends `e` to the sequence `acc`, which starts out as `Empty`.
pub open spec fn join(acc: Node, e: Node) -> Node {
    if acc is Empty {
        e
    } else {
        cat_node(acc, e)
    }
}

proof fn lemma_newlines_bound(s: Seq<u8>, k: int)
    requires
        0 <= k <= s.len(),
    ensures
        0 <= newlines(s, k) <= k,
    decreases k,
{
    if k > 0 {
        lemma_newlines_bound(s, k - 1);
    }
}

proof fn lemma_scan_bounds(s: Seq<u8>, pos: int, brk: Seq<u8>, markup: bool)
    requires
        0 <= pos <= s.len(),
    ensures
        pos <= scan(s, pos, brk, markup) <= s.len(),
    decreases s.len() - pos,
{
    if pos < s.len() && !stops(s[pos], brk, markup) {
        lemma_scan_bounds(s, pos + 1, brk, markup);
    }
}


/// The number of bytes left after the cursor.
pub open spec fn rem(s: Seq<u8>, c: Cursor) -> int {
    if c.pos <= s.len() {
        s.len() - c.pos
    } else {
        0
    }
}

/// The measure of the list rules at `level`.
pub open spec fn depth_rem(s: Seq<u8>, c: Cursor, level: u8) -> int {
    if rem(s, c) - level >= 0 {
        rem(s, c) - level
    } else {
        0
    }
}

/// An outcome whose cursor stands before `from` or past the end is treated as
/// no progress; the parsing methods never produce one.
pub open spec fn checked(s: Seq<u8>, from: Cursor, r: Outcome) -> Outcome {
    match r {
        Ok((n, c)) => if from.pos <= c.pos <= s.len() {
            Ok((n, c))
        } else {
            Err(stuck(s, from))
        },
        Err(e) => Err(e),
    }
}

pub open spec fn checked_cursor(s: Seq<u8>, from: Cursor, r: Result<Cursor, ParseError>) -> Result<
    Cursor,
    ParseError,
> {
    match r {
        Ok(c) => if from.pos <= c.pos <= s.len() {
            Ok(c)
        } else {
            Err(stuck(s, from))
        },
        Err(e) => Err(e),
    }
}

pub open spec fn map_node(r: Outcome, f: spec_fn(Node) -> Node) -> Outcome {
    match r {
        Ok((n, c)) => Ok((f(n), c)),
        Err(e) => Err(e),
    }
}

/// After a node, the byte `b` must follow.
pub open spec fn then_eat(s: Seq<u8>, r: Outcome, b: u8) -> Outcome {
    match r {
        Ok((n, c)) => match eat(s, c, b) {
            Ok(c1) => Ok((n, c1)),
            Err(e) => Err(e),
        },
        Err(e) => Err(e),
    }
}

pub open spec fn eat3(s: Seq<u8>, c: Cursor, b: u8) -> Result<Cursor, ParseError> {
    match eat(s, c, b) {
        Ok(c1) => match eat(s, c1, b) {
            Ok(c2) => eat(s, c2, b),
            Err(e) => Err(e),
        },
        Err(e) => Err(e),
    }
}

pub open spec fn boxed(f: spec_fn(Box<Node>) -> Node) -> spec_fn(Node) -> Node {
    |n: Node| f(Box::new(n))
}

/// Skips spaces.
pub open spec fn skip_spaces(s: Seq<u8>, c: Cursor) -> Cursor
    decreases rem(s, c),
{
    if byte_at(s, c.pos) == SPACE {
        skip_spaces(s, at(c, c.pos + 1))
    } else {
        c
    }
}

/// Skips spaces and tabs.
pub open spec fn skip_blanks(s: Seq<u8>, c: Cursor) -> Cursor
    decreases rem(s, c),
{
    if byte_at(s, c.pos) == SPACE || byte_at(s, c.pos) == TAB {
        skip_blanks(s, at(c, c.pos + 1))
    } else {
        c
    }
}

/// The `n` bytes at the cursor are spaces.
pub open spec fn all_space(s: Seq<u8>, c: Cursor, n: int) -> bool {
    forall|i: int| 0 <= i < n ==> ahead(s, c, i, SPACE)
}

/// Steps over `n` spaces, failing at the first other byte.
pub open spec fn spaces_rule(s: Seq<u8>, c: Cursor, n: int) -> Result<Cursor, ParseError>
    decreases n,
{
    if n <= 0 {
        Ok(c)
    } else {
        match eat(s, c, SPACE) {
            Ok(c1) => spaces_rule(s, c1, n - 1),
            Err(e) => Err(e),
        }
    }
}

/// The literal made of the single byte `b`.
pub open spec fn byte_literal(s: Seq<u8>, c: Cursor, b: u8) -> Outcome {
    if valid_utf8(seq![b]) {
        Ok((Node::Literal(decode_utf8(seq![b])), c))
    } else {
        Err(bad_text(s, c))
    }
}

/// `# title /name/`: the level is the number of `#` after the first.
pub open spec fn heading_level_rule(s: Seq<u8>, c: Cursor, level: u8) -> Result<(u8, Cursor), ParseError>
    decreases rem(s, c),
{
    let b = byte_at(s, c.pos);
    if b == HASH {
        if level == 255 {
            Err(too_deep(s, c))
        } else {
            heading_level_rule(s, at(c, c.pos + 1), (level + 1) as u8)
        }
    } else if b == SPACE {
        Ok((level, at(c, c.pos + 1)))
    } else {
        Ok((level, c))
    }
}

pub open spec fn heading_rule(s: Seq<u8>, c: Cursor) -> Outcome {
    match eat(s, c, HASH) {
        Err(e) => Err(e),
        Ok(c1) => match heading_level_rule(s, c1, 0) {
            Err(e) => Err(e),
            Ok((level, c2)) => match text_until(s, c2, seq![SLASH, NL], false) {
                Err(e) => Err(e),
                Ok((title, c3)) => {
                    let named: Result<(Seq<char>, Cursor), ParseError> = if byte_at(s, c3.pos)
                        == SLASH {
                        match text_until(s, at(c3, c3.pos + 1), seq![SLASH], false) {
                            Ok((name, c4)) => match eat(s, c4, SLASH) {
                                Ok(c5) => Ok((name, c5)),
                                Err(e) => Err(e),
                            },
                            Err(e) => Err(e),
                        }
                    } else {
                        Ok((Seq::<char>::empty(), c3))
                    };
                    match named {
                        Err(e) => Err(e),
                        Ok((name, c6)) => {
                            let h = Node::Heading(Box::new(Node::Literal(title)), level, name);
                            if is_end(s, c6) {
                                Ok((h, c6))
                            } else if ahead(s, c6, 2, HASH) && level != 2 {
                                match eat(s, c6, NL) {
                                    Ok(c7) => Ok((h, c7)),
                                    Err(e) => Err(e),
                                }
                            } else {
                                Ok((cat_node(h, Node::VSpace), c6))
                            }
                        },
                    }
                },
            },
        },
    }
}

pub open spec fn drop_level_rule(s: Seq<u8>, c: Cursor, level: u8) -> Result<(u8, Cursor), ParseError>
    decreases rem(s, c),
{
    if byte_at(s, c.pos) == PERCENT {
        if level == 255 {
            Err(too_deep(s, c))
        } else {
            drop_level_rule(s, at(c, c.pos + 1), (level + 1) as u8)
        }
    } else {
        Ok((level, c))
    }
}

/// The number of bytes of the UTF-8 character that starts with the byte `b`.
pub open spec fn width_at(b: u8) -> int {
    if b < 0x80 {
        1
    } else if 0xC0 <= b <= 0xDF {
        2
    } else if 0xE0 <= b <= 0xEF {
        3
    } else if 0xF0 <= b <= 0xF7 {
        4
    } else {
        1
    }
}

/// The character at the cursor, or `EOF` at the end.
pub open spec fn char_at_rule(s: Seq<u8>, c: Cursor) -> Result<(char, Cursor), ParseError> {
    if is_end(s, c) {
        Ok((EOF as char, c))
    } else {
        let w = width_at(s[c.pos]);
        let bytes = s.subrange(c.pos, c.pos + w);
        if c.pos + w <= s.len() && valid_utf8(bytes) && decode_utf8(bytes).len() > 0 {
            Ok((decode_utf8(bytes)[0], at(c, c.pos + w)))
        } else {
            Err(bad_text(s, c))
        }
    }
}

/// `%x` at the start of a line: a drop cap spanning one line more than the `%` run.
#[verifier::opaque]
pub open spec fn drop_cap_rule(s: Seq<u8>, c: Cursor) -> Outcome {
    if c.pos == 0 || (c.pos >= 1 && s[c.pos - 1] == NL) {
        match drop_level_rule(s, c, 0) {
            Err(e) => Err(e),
            Ok((level, c1)) => if level == 255 {
                Err(too_deep(s, c1))
            } else {
                match char_at_rule(s, c1) {
                    Ok((ch, c2)) => Ok((Node::DropCap(ch, (level + 1) as u8), c2)),
                    Err(e) => Err(e),
                }
            },
        }
    } else {
        match eat(s, c, PERCENT) {
            Ok(c1) => Ok((Node::Literal("%"@), c1)),
            Err(e) => Err(e),
        }
    }
}

pub open spec fn quoted_literal_rule(s: Seq<u8>, c: Cursor, close: u8) -> Outcome {
    match eat(s, c, byte_at(s, c.pos)) {
        Err(e) => Err(e),
        Ok(c1) => then_eat(s, literal_until(s, c1, seq![close], false), close),
    }
}

/// `\{name}`: a color.
pub open spec fn color_rule(s: Seq<u8>, c: Cursor) -> Outcome {
    match eat(s, c, BACKSLASH) {
        Err(e) => Err(e),
        Ok(c1) => if byte_at(s, c1.pos) == LBRACE {
            map_node(quoted_literal_rule(s, c1, RBRACE), boxed(|b| Node::Color(b)))
        } else {
            Ok((Node::Literal("\\"@), c1))
        },
    }
}

/// `//text`: text handed to the back end as it is.
pub open spec fn pass_through_rule(s: Seq<u8>, c: Cursor) -> Outcome {
    match eat(s, c, SLASH) {
        Err(e) => Err(e),
        Ok(c1) => if ahead(s, c1, 0, SLASH) {
            literal_until(s, at(c1, c1.pos + 1), seq![NL], false)
        } else {
            Ok((Node::Literal("/"@), c1))
        },
    }
}

/// A line break; a blank line also starts a paragraph unless a heading follows.
pub open spec fn newline_rule(s: Seq<u8>, c: Cursor) -> Outcome {
    if ahead(s, c, 1, NL) {
        if ahead(s, c, 2, HASH) {
            Ok((Node::LineBreak, at(c, c.pos + 2)))
        } else {
            Ok((cat_node(Node::LineBreak, Node::Paragraph), at(c, c.pos + 2)))
        }
    } else {
        Ok((Node::LineBreak, at(c, c.pos + 1)))
    }
}

/// The key and value of one meta data line; the key `doctype` sets the document kind.
pub open spec fn meta_item_rule(s: Seq<u8>, c: Cursor) -> Outcome {
    match text_until(s, c, seq![COLON], false) {
        Err(e) => Err(e),
        Ok((key, c1)) => match eat(s, c1, COLON) {
            Err(e) => Err(e),
            Ok(c2) => match text_until(s, skip_spaces(s, c2), seq![NL], false) {
                Err(e) => Err(e),
                Ok((value, c3)) => if key == "doctype"@ {
                    Ok((Node::Empty, Cursor { pos: c3.pos, doc: value }))
                } else {
                    Ok((Node::MetaDataItem(key, value), c3))
                },
            },
        },
    }
}

pub open spec fn meta_items_rule(s: Seq<u8>, c: Cursor, acc: Node) -> Outcome
    decreases rem(s, c),
{
    let b = byte_at(s, c.pos);
    if b != MINUS && b != NL {
        match meta_item_rule(s, c) {
            Err(e) => Err(e),
            Ok((item, c1)) => match eat(s, c1, NL) {
                Err(e) => Err(e),
                Ok(c2) => if c2.pos <= c.pos || c2.pos > s.len() {
                    Err(stuck(s, c))
                } else {
                    meta_items_rule(s, c2, cat_node(acc, item))
                },
            },
        }
    } else {
        Ok((acc, c))
    }
}

/// The meta data block after its opening `---`.
pub open spec fn meta_block_rule(s: Seq<u8>, c: Cursor) -> Outcome {
    match eat(s, skip_blanks(s, c), NL) {
        Err(e) => Err(e),
        Ok(c1) => match meta_items_rule(s, c1, Node::Empty) {
            Err(e) => Err(e),
            Ok((items, c2)) => {
                let closed = if byte_at(s, c2.pos) == MINUS {
                    eat3(s, c2, MINUS)
                } else {
                    Ok(c2)
                };
                match closed {
                    Err(e) => Err(e),
                    Ok(c3) => match eat(s, c3, NL) {
                        Err(e) => Err(e),
                        Ok(c4) => {
                            let c5 = if byte_at(s, c4.pos) == NL {
                                at(c4, c4.pos + 1)
                            } else {
                                c4
                            };
                            Ok((Node::MetaDataBlock(Box::new(items)), c5))
                        },
                    },
                }
            },
        },
    }
}

/// The rest of a code block after its first backtick.
pub open spec fn code_block_rule(s: Seq<u8>, c: Cursor) -> Outcome {
    match eat(s, c, BACKTICK) {
        Err(e) => Err(e),
        Ok(c1) => match eat(s, c1, BACKTICK) {
            Err(e) => Err(e),
            Ok(c2) => {
                let c3 = skip_spaces(s, c2);
                let kind = if byte_at(s, c3.pos) != NL {
                    literal_until(s, c3, seq![NL], false)
                } else {
                    Ok((Node::Empty, c3))
                };
                match then_eat(s, kind, NL) {
                    Err(e) => Err(e),
                    Ok((k, c4)) => match prelit_until(s, c4, seq![BACKTICK]) {
                        Err(e) => Err(e),
                        Ok((first, c5)) => match code_body_rule(s, c5, first) {
                            Err(e) => Err(e),
                            Ok((body, c6)) => match code_fence_rule(s, c6) {
                                Err(e) => Err(e),
                                Ok(c7) => Ok((Node::CodeBlock(Box::new(k), Box::new(body)), c7)),
                            },
                        },
                    },
                }
            },
        },
    }
}

/// Backticks inside a code block that do not close it are kept.
pub open spec fn code_body_rule(s: Seq<u8>, c: Cursor, acc: Node) -> Outcome
    decreases rem(s, c),
{
    if !(is_end(s, c) || (ahead(s, c, 1, BACKTICK) && ahead(s, c, 2, BACKTICK))) {
        let acc1 = cat_node(acc, Node::Literal("\\[ga]"@));
        match eat(s, c, BACKTICK) {
            Err(e) => Err(e),
            Ok(c1) => match prelit_until(s, c1, seq![BACKTICK]) {
                Err(e) => Err(e),
                Ok((p, c2)) => if c2.pos < c1.pos || c2.pos > s.len() {
                    Err(stuck(s, c))
                } else {
                    code_body_rule(s, c2, cat_node(acc1, p))
                },
            },
        }
    } else {
        Ok((acc, c))
    }
}

/// The closing backticks of a code block, as far as they are there.
pub open spec fn code_fence_rule(s: Seq<u8>, c: Cursor) -> Result<Cursor, ParseError> {
    if is_end(s, c) {
        Ok(c)
    } else {
        match eat(s, c, BACKTICK) {
            Err(e) => Err(e),
            Ok(c1) => if !is_end(s, c1) && byte_at(s, c1.pos) != EOF {
                match eat(s, c1, BACKTICK) {
                    Err(e) => Err(e),
                    Ok(c2) => if !is_end(s, c2) && byte_at(s, c2.pos) != EOF {
                        eat(s, c2, BACKTICK)
                    } else {
                        Ok(c2)
                    },
                }
            } else {
                Ok(c1)
            },
        }
    }
}

/// `` `code` `` inline, or a code block after three backticks.
pub open spec fn code_rule(s: Seq<u8>, c: Cursor) -> Outcome {
    match eat(s, c, BACKTICK) {
        Err(e) => Err(e),
        Ok(c1) => if ahead(s, c1, 0, BACKTICK) && ahead(s, c1, 1, BACKTICK) {
            code_block_rule(s, c1)
        } else {
            let dot = byte_at(s, c1.pos) == DOT;
            let c2 = if dot {
                at(c1, c1.pos + 1)
            } else {
                c1
            };
            match then_eat(s, literal_until(s, c2, seq![BACKTICK], false), BACKTICK) {
                Err(e) => Err(e),
                Ok((code, c3)) => {
                    let body = if dot {
                        cat_node(Node::EscapeLit("."@), code)
                    } else {
                        code
                    };
                    Ok((Node::InlineCode(Box::new(body)), c3))
                },
            }
        },
    }
}

/// The document: an empty input gives an empty default document.
pub open spec fn parse_rule(s: Seq<u8>) -> Result<Node, ParseError> {
    if s.len() == 0 {
        Ok(Node::Document(DocType::DEFAULT, Box::new(Node::Empty)))
    } else {
        match complete_until_rule(s, Cursor { pos: 0, doc: Seq::empty() }, Seq::empty()) {
            Ok((n, c)) => Ok(Node::Document(read_kind(c.doc), Box::new(n))),
            Err(e) => Err(e),
        }
    }
}

/// The document kind that the `doctype` value `doc` selects; without one it is the default.
pub open spec fn read_kind(doc: Seq<char>) -> DocType {
    if doc.len() == 0 {
        DocType::DEFAULT
    } else {
        doc_kind(upper_of(doc))
    }
}

/// The document kind named by an upper case `doctype` value.
pub open spec fn doc_kind(u: Seq<char>) -> DocType {
    if u == "SLIDES"@ {
        DocType::SLIDES
    } else if u == "CHAPTER"@ {
        DocType::CHAPTER
    } else if u == "LETTER"@ {
        DocType::LETTER
    } else {
        DocType::DEFAULT
    }
}

/// Block and inline constructs up to a byte of `brk` or the end.
pub open spec fn complete_until_rule(s: Seq<u8>, c: Cursor, brk: Seq<u8>) -> Outcome
    decreases rem(s, c), rem(s, c) + 1, 3int,
{
    complete_loop_rule(s, c, brk, Node::Empty)
}

pub open spec fn complete_loop_rule(s: Seq<u8>, c: Cursor, brk: Seq<u8>, acc: Node) -> Outcome
    decreases rem(s, c), rem(s, c) + 1, 2int,
{
    if is_end(s, c) || brk.contains(s[c.pos]) {
        Ok((acc, c))
    } else {
        match checked(s, c, complete_item_rule(s, c, brk)) {
            Err(e) => Err(e),
            Ok((e, c1)) => if c1.pos <= c.pos {
                Err(stuck(s, c))
            } else {
                complete_loop_rule(s, c1, brk, join(acc, e))
            },
        }
    }
}

/// One construct, chosen by the byte at the cursor.
pub open spec fn complete_item_rule(s: Seq<u8>, c: Cursor, brk: Seq<u8>) -> Outcome
    decreases rem(s, c), rem(s, c) + 1, 1int,
{
    let b = byte_at(s, c.pos);
    if b == MINUS {
        meta_or_list_rule(s, c)
    } else if b == HASH {
        heading_rule(s, c)
    } else if b == STAR {
        list_or_bold_rule(s, c, 0, STAR)
    } else if b == BANG {
        image_rule(s, c)
    } else if b == LBRACKET {
        link_rule(s, c)
    } else if b == NL {
        newline_rule(s, c)
    } else if b == GT {
        sidenote_rule(s, c)
    } else {
        inline_item_rule(s, c, brk, true)
    }
}

/// Inline constructs up to a byte of `brk` or the end.
pub open spec fn format_until_rule(s: Seq<u8>, c: Cursor, brk: Seq<u8>) -> Outcome
    decreases rem(s, c), rem(s, c) + 1, 3int,
{
    format_loop_rule(s, c, brk, Node::Empty)
}

pub open spec fn format_loop_rule(s: Seq<u8>, c: Cursor, brk: Seq<u8>, acc: Node) -> Outcome
    decreases rem(s, c), rem(s, c) + 1, 2int,
{
    if is_end(s, c) || brk.contains(s[c.pos]) {
        Ok((acc, c))
    } else {
        match checked(s, c, format_item_rule(s, c, brk)) {
            Err(e) => Err(e),
            Ok((e, c1)) => if c1.pos <= c.pos {
                Err(stuck(s, c))
            } else {
                format_loop_rule(s, c1, brk, join(acc, e))
            },
        }
    }
}

pub open spec fn format_item_rule(s: Seq<u8>, c: Cursor, brk: Seq<u8>) -> Outcome
    decreases rem(s, c), rem(s, c) + 1, 1int,
{
    if byte_at(s, c.pos) == STAR {
        bold_or_literal_rule(s, c)
    } else {
        inline_item_rule(s, c, brk, false)
    }
}

/// The inline constructs that both modes share; other bytes start plain text.
pub open spec fn inline_item_rule(s: Seq<u8>, c: Cursor, brk: Seq<u8>, complete: bool) -> Outcome
    decreases rem(s, c), 0int, 1int,
{
    let b = byte_at(s, c.pos);
    if b == UNDERSCORE {
        map_node(symmetric_quoted_rule(s, c), boxed(|t| Node::Italic(t)))
    } else if b == LBRACE {
        map_node(quoted_rule(s, c, RBRACE), boxed(|t| Node::SmallCaps(t)))
    } else if b == BACKTICK {
        code_rule(s, c)
    } else if b == DQUOTE {
        map_node(symmetric_quoted_rule(s, c), boxed(|t| Node::Quote(t)))
    } else if b == CARET {
        footnote_rule(s, c)
    } else if b == PERCENT {
        drop_cap_rule(s, c)
    } else if b == AMP {
        match eat(s, c, AMP) {
            Ok(c1) => Ok((Node::EscapeLit("&"@), c1)),
            Err(e) => Err(e),
        }
    } else if b == DOT {
        match eat(s, c, DOT) {
            Ok(c1) => Ok((Node::EscapeLit("."@), c1)),
            Err(e) => Err(e),
        }
    } else if b == SLASH {
        pass_through_rule(s, c)
    } else if b == BACKSLASH {
        color_rule(s, c)
    } else {
        literal_until(s, c, brk, true)
    }
}

/// Text between two equal quote bytes, the first of which is at the cursor.
pub open spec fn symmetric_quoted_rule(s: Seq<u8>, c: Cursor) -> Outcome
    decreases rem(s, c), 0int, 0int,
{
    let q = byte_at(s, c.pos);
    match eat(s, c, q) {
        Err(e) => Err(e),
        Ok(c1) => then_eat(s, complete_until_rule(s, c1, seq![q]), q),
    }
}

/// Text between the byte at the cursor and `close`.
pub open spec fn quoted_rule(s: Seq<u8>, c: Cursor, close: u8) -> Outcome
    decreases rem(s, c), 0int, 0int,
{
    match eat(s, c, byte_at(s, c.pos)) {
        Err(e) => Err(e),
        Ok(c1) => then_eat(s, complete_until_rule(s, c1, seq![close]), close),
    }
}

/// Inside a link text: `*bold*`, or a literal `*` before the text if it is not closed.
pub open spec fn bold_or_literal_rule(s: Seq<u8>, c: Cursor) -> Outcome
    decreases rem(s, c), 0int, 0int,
{
    match eat(s, c, STAR) {
        Err(e) => Err(e),
        Ok(c1) => match format_until_rule(s, c1, seq![STAR, RBRACKET]) {
            Err(e) => Err(e),
            Ok((n, c2)) => if byte_at(s, c2.pos) == STAR {
                Ok((Node::Bold(Box::new(n)), at(c2, c2.pos + 1)))
            } else {
                Ok((cat_node(Node::Literal("*"@), n), c2))
            },
        },
    }
}

/// `^(text)`: a foot note; a lone `^` is literal.
pub open spec fn footnote_rule(s: Seq<u8>, c: Cursor) -> Outcome
    decreases rem(s, c), 0int, 0int,
{
    match eat(s, c, CARET) {
        Err(e) => Err(e),
        Ok(c1) => if byte_at(s, c1.pos) == LPAREN {
            map_node(quoted_rule(s, c1, RPAREN), boxed(|t| Node::Footnote(t)))
        } else {
            Ok((Node::Literal("^"@), c1))
        },
    }
}

/// `>(text)` a right side note, `>>(text)` a chapter mark; otherwise literal.
pub open spec fn sidenote_rule(s: Seq<u8>, c: Cursor) -> Outcome
    decreases rem(s, c), 0int, 0int,
{
    match eat(s, c, GT) {
        Err(e) => Err(e),
        Ok(c1) => {
            let chapter = byte_at(s, c1.pos) == GT;
            let c2 = if chapter {
                at(c1, c1.pos + 1)
            } else {
                c1
            };
            if byte_at(s, c2.pos) == LPAREN {
                match checked(s, c2, quoted_rule(s, c2, RPAREN)) {
                    Err(e) => Err(e),
                    Ok((body, c3)) => {
                        let marked = if chapter {
                            match eat(s, c3, NL) {
                                Ok(c4) => Ok((Node::ChapterMark(Box::new(body)), c4)),
                                Err(e) => Err(e),
                            }
                        } else {
                            Ok((Node::RightSidenote(Box::new(body)), c3))
                        };
                        match marked {
                            Err(e) => Err(e),
                            Ok((n, c5)) => if byte_at(s, c5.pos) == SPACE {
                                Ok((n, at(c5, c5.pos + 1)))
                            } else {
                                Ok((n, c5))
                            },
                        }
                    },
                }
            } else if chapter {
                Ok((Node::Literal(">>"@), c2))
            } else {
                Ok((Node::Literal(">"@), c2))
            }
        },
    }
}

/// `[text](url)` a web link, `[text](#id)` a link inside the document,
/// `[text]` alone literal brackets.
pub open spec fn link_rule(s: Seq<u8>, c: Cursor) -> Outcome
    decreases rem(s, c), 0int, 0int,
{
    match eat(s, c, LBRACKET) {
        Err(e) => Err(e),
        Ok(c1) => match then_eat(s, format_until_rule(s, c1, seq![RBRACKET]), RBRACKET) {
            Err(e) => Err(e),
            Ok((text, c2)) => if byte_at(s, c2.pos) == LPAREN {
                let c3 = at(c2, c2.pos + 1);
                if byte_at(s, c3.pos) == HASH {
                    match text_until(s, at(c3, c3.pos + 1), seq![RPAREN], false) {
                        Err(e) => Err(e),
                        Ok((target, c4)) => match eat(s, c4, RPAREN) {
                            Err(e) => Err(e),
                            Ok(c5) => Ok((Node::DocRef(target, Box::new(text)), c5)),
                        },
                    }
                } else {
                    match then_eat(s, literal_until(s, c3, seq![RPAREN], false), RPAREN) {
                        Err(e) => Err(e),
                        Ok((url, c4)) => {
                            let c5 = if byte_at(s, c4.pos) == SPACE {
                                at(c4, c4.pos + 1)
                            } else {
                                c4
                            };
                            Ok((Node::HyperRef(Box::new(text), Box::new(url)), c5))
                        },
                    }
                }
            } else {
                Ok(
                    (
                        cat_node(cat_node(Node::Literal("["@), text), Node::Literal("]"@)),
                        c2,
                    ),
                )
            },
        },
    }
}

/// `WxH]` of an image.
pub open spec fn image_size_rule(s: Seq<u8>, c: Cursor) -> Outcome
    decreases rem(s, c), rem(s, c) + 1, 4int,
{
    match checked(s, c, complete_until_rule(s, c, seq![LOWER_X])) {
        Err(e) => Err(e),
        Ok((x, c1)) => match eat(s, c1, LOWER_X) {
            Err(e) => Err(e),
            Ok(c2) => match complete_until_rule(s, c2, seq![RBRACKET]) {
                Err(e) => Err(e),
                Ok((y, c3)) => Ok((Node::ImageSizeSpec(Box::new(x), Box::new(y)), c3)),
            },
        },
    }
}

/// `![caption|WxH](path)`, the size defaulting to 100 by 100; a lone `!` is literal.
pub open spec fn image_rule(s: Seq<u8>, c: Cursor) -> Outcome
    decreases rem(s, c), 0int, 0int,
{
    if ahead(s, c, 1, LBRACKET) {
        let c1 = at(c, c.pos + 2);
        match checked(s, c1, complete_until_rule(s, c1, seq![PIPE, RBRACKET])) {
            Err(e) => Err(e),
            Ok((caption, c2)) => {
                let sized = if byte_at(s, c2.pos) == PIPE {
                    checked(s, c2, image_size_rule(s, at(c2, c2.pos + 1)))
                } else {
                    Ok(
                        (
                            Node::ImageSizeSpec(
                                Box::new(Node::Literal("100"@)),
                                Box::new(Node::Literal("100"@)),
                            ),
                            c2,
                        ),
                    )
                };
                match sized {
                    Err(e) => Err(e),
                    Ok((size, c3)) => match eat(s, c3, RBRACKET) {
                        Err(e) => Err(e),
                        Ok(c4) => match eat(s, c4, LPAREN) {
                            Err(e) => Err(e),
                            Ok(c5) => match then_eat(
                                s,
                                literal_until(s, c5, seq![RPAREN], false),
                                RPAREN,
                            ) {
                                Err(e) => Err(e),
                                Ok((path, c6)) => Ok(
                                    (
                                        Node::Image(
                                            Box::new(caption),
                                            Box::new(path),
                                            Box::new(size),
                                        ),
                                        c6,
                                    ),
                                ),
                            },
                        },
                    },
                }
            },
        }
    } else {
        Ok((Node::Literal("!"@), step(s, c)))
    }
}

/// At `-`: a meta data block after `---`, a list after `- `, else a literal `-`.
pub open spec fn meta_or_list_rule(s: Seq<u8>, c: Cursor) -> Outcome
    decreases rem(s, c), rem(s, c) + 1, 0int,
{
    if ahead(s, c, 1, MINUS) && ahead(s, c, 2, MINUS) {
        match eat3(s, c, MINUS) {
            Err(e) => Err(e),
            Ok(c1) => meta_block_rule(s, c1),
        }
    } else if ahead(s, c, 1, SPACE) {
        list_or_bold_rule(s, c, 0, MINUS)
    } else {
        Ok((Node::Literal("-"@), step(s, c)))
    }
}

/// A list if the marker at `level` is followed by a space, else bold text for `*`.
pub open spec fn list_or_bold_rule(s: Seq<u8>, c: Cursor, level: u8, mark: u8) -> Outcome
    decreases rem(s, c), depth_rem(s, c, level), 3int,
{
    if ahead(s, c, level * 2 + 1, SPACE) {
        map_node(list_items_rule(s, c, level, mark, Node::Empty), |n| Node::List(Box::new(n), level))
    } else if mark == STAR {
        bold_rule(s, c)
    } else {
        byte_literal(s, c, mark)
    }
}

/// The items of a list at `level`, and lists nested one level deeper.
pub open spec fn list_items_rule(s: Seq<u8>, c: Cursor, level: u8, mark: u8, acc: Node) -> Outcome
    decreases rem(s, c), depth_rem(s, c, level), 1int,
{
    let ind = level * 2;
    if ahead(s, c, ind, mark) && ahead(s, c, ind + 1, SPACE) {
        match checked(s, c, list_item_rule(s, c, level, mark)) {
            Err(e) => Err(e),
            Ok((item, c1)) => if c1.pos <= c.pos {
                Err(stuck(s, c))
            } else {
                list_items_rule(s, c1, level, mark, cat_node(acc, item))
            },
        }
    } else if ahead(s, c, ind + 2, mark) && ahead(s, c, ind + 3, SPACE) {
        if level == 255 {
            Err(too_deep(s, c))
        } else {
            match checked(s, c, list_or_bold_rule(s, c, (level + 1) as u8, mark)) {
                Err(e) => Err(e),
                Ok((nested, c1)) => if c1.pos <= c.pos {
                    Err(stuck(s, c))
                } else {
                    list_items_rule(s, c1, level, mark, cat_node(acc, nested))
                },
            }
        }
    } else {
        Ok((acc, c))
    }
}

/// One list item: marker and space after the indentation, then lines of content;
/// a following line indented one level deeper that starts no item continues it.
pub open spec fn list_item_rule(s: Seq<u8>, c: Cursor, level: u8, mark: u8) -> Outcome
    decreases rem(s, c), depth_rem(s, c, level), 0int,
{
    match checked_cursor(s, c, spaces_rule(s, c, level * 2)) {
        Err(e) => Err(e),
        Ok(c1) => match eat(s, c1, mark) {
            Err(e) => Err(e),
            Ok(c2) => match eat(s, c2, SPACE) {
                Err(e) => Err(e),
                Ok(c3) => map_node(
                    item_lines_rule(s, c3, level, mark, Node::Empty),
                    |n| Node::ListItem(Box::new(n), level),
                ),
            },
        },
    }
}

/// One line of a list item, and whether an indented continuation line follows,
/// in which case its indentation is skipped.
pub open spec fn item_line_rule(s: Seq<u8>, c: Cursor, level: u8, mark: u8) -> Result<
    (Node, Cursor, bool),
    ParseError,
>
    decreases rem(s, c), rem(s, c) + 1, 4int,
{
    match checked(s, c, complete_until_rule(s, c, seq![NL])) {
        Err(e) => Err(e),
        Ok((line, c1)) => {
            let ended = if !is_end(s, c1) {
                eat(s, c1, NL)
            } else {
                Ok(c1)
            };
            match ended {
                Err(e) => Err(e),
                Ok(c2) => {
                    let n = level * 2 + 2;
                    if all_space(s, c2, n) && !ahead(s, c2, n, mark) {
                        Ok((line, at(c2, c2.pos + n), true))
                    } else {
                        Ok((line, c2, false))
                    }
                },
            }
        },
    }
}

pub open spec fn item_lines_rule(s: Seq<u8>, c: Cursor, level: u8, mark: u8, acc: Node) -> Outcome
    decreases rem(s, c), rem(s, c) + 1, 5int,
{
    match item_line_rule(s, c, level, mark) {
        Err(e) => Err(e),
        Ok((line, c1, more)) => if !more {
            Ok((cat_node(acc, line), c1))
        } else if c1.pos <= c.pos || c1.pos > s.len() {
            Err(stuck(s, c))
        } else {
            item_lines_rule(
                s,
                c1,
                level,
                mark,
                cat_node(cat_node(acc, line), Node::Literal("\n"@)),
            )
        },
    }
}

/// `*text*` bold; a second `*` right after the first is skipped, and so is one after the text.
pub open spec fn bold_rule(s: Seq<u8>, c: Cursor) -> Outcome
    decreases rem(s, c), 0int, 1int,
{
    let first = if ahead(s, c, 1, STAR) {
        eat(s, c, STAR)
    } else {
        Ok(c)
    };
    match first {
        Err(e) => Err(e),
        Ok(c1) => match symmetric_quoted_rule(s, c1) {
            Err(e) => Err(e),
            Ok((n, c2)) => if byte_at(s, c2.pos) == STAR {
                Ok((Node::Bold(Box::new(n)), at(c2, c2.pos + 1)))
            } else {
                Ok((Node::Bold(Box::new(n)), c2))
            },
        },
    }
}


fn stop_set(a: u8) -> (r: Vec<u8>)
    ensures
        r@ == seq![a],
{
    let mut v = Vec::new();
    v.push(a);
    proof {
        assert(v@ =~= seq![a]);
    }
    v
}

fn stop_set2(a: u8, b: u8) -> (r: Vec<u8>)
    ensures
        r@ == seq![a, b],
{
    let mut v = Vec::new();
    v.push(a);
    v.push(b);
    proof {
        assert(v@ =~= seq![a, b]);
    }
    v
}

fn text_is(a: &String, b: &str) -> (r: bool)
    ensures
        r == (a@ == b@),
{
    let t = b.to_owned();
    *a == t
}

/// Stepping over `n` spaces that are there moves the cursor by `n`.
pub proof fn lemma_all_space_eats(s: Seq<u8>, c: Cursor, n: int)
    requires
        0 <= n,
        all_space(s, c, n),
    ensures
        spaces_rule(s, c, n) == Ok::<Cursor, ParseError>(at(c, c.pos + n)),
    decreases n,
{
    if n > 0 {
        assert(ahead(s, c, 0, SPACE));
        let c1 = at(c, c.pos + 1);
        assert forall|i: int| 0 <= i < n - 1 implies ahead(s, c1, i, SPACE) by {
            assert(ahead(s, c, i + 1, SPACE));
        }
        lemma_all_space_eats(s, c1, n - 1);
    }
}

/// The document kind named by the upper case `doctype` value `kind`.
pub fn doc_type_of(kind: &String) -> (r: DocType)
    ensures
        r == doc_kind(kind@),
{
    if text_is(kind, "SLIDES") {
        DocType::SLIDES
    } else if text_is(kind, "CHAPTER") {
        DocType::CHAPTER
    } else if text_is(kind, "LETTER") {
        DocType::LETTER
    } else {
        DocType::DEFAULT
    }
}

/// Parses `input` into a document tree.
pub fn parse(input: &str) -> (r: Result<Tree, ParseError>)
    requires
        input.spec_bytes().len() < usize::MAX,
    ensures
        match r {
            Ok(t) => parse_rule(input.spec_bytes()) == Ok::<Node, ParseError>(t@),
            Err(e) => parse_rule(input.spec_bytes()) == Err::<Node, ParseError>(e),
        },
{
    Parser::parse(input)
}

/// Parsing state: the input and a cursor over it.
#[derive(Debug)]
pub struct Parser {
    /// the input as bytes
    input: Vec<u8>,
    input_len: usize,
    current_position: usize,
    current_line: usize,
    /// the byte at the current position, or `EOF`
    current_char: u8,
    doc_type: String,
}

/// What a parsing method returned, with where the parser stands after it.
pub open spec fn outcome(r: Result<Tree, ParseError>, c: Cursor) -> Outcome {
    match r {
        Ok(t) => Ok((t@, c)),
        Err(e) => Err(e),
    }
}

pub open spec fn moved(r: Result<(), ParseError>, c: Cursor) -> Result<Cursor, ParseError> {
    match r {
        Ok(_) => Ok(c),
        Err(e) => Err(e),
    }
}

fn contains(v: &Vec<u8>, b: u8) -> (r: bool)
    ensures
        r == v@.contains(b),
{
    let mut i: usize = 0;
    while i < v.len()
        invariant
            i <= v.len(),
            forall|j: int| 0 <= j < i ==> v@[j] != b,
        decreases v.len() - i,
    {
        if v[i] == b {
            return true;
        }
        i += 1;
    }
    false
}

fn is_markup_byte(b: u8) -> (r: bool)
    ensures
        r == is_markup(b),
{
    b == UNDERSCORE || b == STAR || b == HASH || b == DQUOTE || b == CARET || b == BACKTICK
        || b == AMP || b == LBRACKET || b == LBRACE || b == GT || b == NL
}

impl Parser {
    pub closed spec fn wf(&self) -> bool {
        &&& self.input_len == self.input@.len()
        &&& self.input_len < usize::MAX
        &&& self.current_position <= self.input_len
        &&& self.current_char == byte_at(self.input@, self.current_position as int)
        &&& self.current_line == line_at(self.input@, self.current_position as int)
    }

    pub closed spec fn bytes(&self) -> Seq<u8> {
        self.input@
    }

    pub closed spec fn cursor(&self) -> Cursor {
        Cursor { pos: self.current_position as int, doc: self.doc_type@ }
    }

    /// A parser at the start of `input`.
    pub fn new(input: &str) -> (r: Parser)
        requires
            input.spec_bytes().len() < usize::MAX,
        ensures
            r.wf(),
            r.bytes() == input.spec_bytes(),
            r.cursor() == (Cursor { pos: 0, doc: Seq::<char>::empty() }),
    {
        let bytes = input.as_bytes();
        let v = vstd::slice::slice_to_vec(bytes);
        let first = if v.len() > 0 {
            v[0]
        } else {
            EOF
        };
        let len = v.len();
        Parser {
            input: v,
            input_len: len,
            current_position: 0,
            current_char: first,
            current_line: 1,
            doc_type: String::new(),
        }
    }

    /// Moves one byte on, counting lines; stays at the end.
    fn advance(&mut self)
        requires
            old(self).wf(),
        ensures
            final(self).wf(),
            final(self).bytes() == old(self).bytes(),
            final(self).cursor() == step(old(self).bytes(), old(self).cursor()),
    {
        if self.at_end() {
            return ;
        }
        proof {
            lemma_newlines_bound(self.input@, self.current_position as int + 1);
        }
        if self.current_char == NL {
            self.current_line += 1;
        }
        self.current_position += 1;
        if self.current_position < self.input_len {
            self.current_char = self.input[self.current_position];
        } else {
            self.current_char = EOF;
        }
    }

    fn at_end(&self) -> (r: bool)
        requires
            self.wf(),
        ensures
            r == is_end(self.bytes(), self.cursor()),
    {
        self.current_position >= self.input_len
    }

    /// The byte just before the cursor is `b`.
    fn peek_back(&self, b: u8) -> (r: bool)
        requires
            self.wf(),
        ensures
            r == (self.current_position >= 1 && self.bytes()[self.current_position - 1] == b),
    {
        self.current_position >= 1 && self.input[self.current_position - 1] == b
    }

    /// The byte `n` ahead of the cursor is `b`.
    fn peek(&self, n: usize, b: u8) -> (r: bool)
        requires
            self.wf(),
        ensures
            r == ahead(self.bytes(), self.cursor(), n as int, b),
    {
        if n >= self.input_len - self.current_position {
            false
        } else {
            b == self.input[self.current_position + n]
        }
    }

    /// Steps over `b`, or fails if another byte or the end is at the cursor.
    fn consume(&mut self, b: u8) -> (r: Result<(), ParseError>)
        requires
            old(self).wf(),
        ensures
            final(self).wf(),
            final(self).bytes() == old(self).bytes(),
            final(self).current_position >= old(self).current_position,
            moved(r, final(self).cursor()) == eat(old(self).bytes(), old(self).cursor(), b),
    {
        if self.at_end() || self.current_char != b {
            return Err(
                ParseError::UnexpectedByte {
                    line: self.current_line,
                    position: self.current_position,
                    expected: b,
                },
            );
        }
        self.advance();
        Ok(())
    }

    /// Moves to the next stop byte and returns where the run began.
    fn skip_until(&mut self, brk: &Vec<u8>, markup: bool) -> (start: usize)
        requires
            old(self).wf(),
        ensures
            final(self).wf(),
            final(self).bytes() == old(self).bytes(),
            start == old(self).current_position,
            start <= final(self).current_position,
            final(self).cursor() == at(
                old(self).cursor(),
                scan(old(self).bytes(), old(self).current_position as int, brk@, markup),
            ),
    {
        let start = self.current_position;
        proof {
            lemma_scan_bounds(self.input@, start as int, brk@, markup);
        }
        while !self.at_end() && !(contains(brk, self.current_char) || (markup && is_markup_byte(
            self.current_char,
        )))
            invariant
                self.wf(),
                self.bytes() == old(self).bytes(),
                self.doc_type@ == old(self).doc_type@,
                start <= self.current_position,
                scan(self.bytes(), self.current_position as int, brk@, markup) == scan(
                    self.bytes(),
                    start as int,
                    brk@,
                    markup,
                ),
            decreases self.input_len - self.current_position,
        {
            self.advance();
        }
        start
    }

    /// Copies the bytes from `start` to the cursor.
    fn bytes_from(&self, start: usize) -> (r: Vec<u8>)
        requires
            self.wf(),
            start <= self.current_position,
        ensures
            r@ == self.bytes().subrange(start as int, self.current_position as int),
    {
        let mut v: Vec<u8> = Vec::new();
        let mut i = start;
        while i < self.current_position
            invariant
                self.wf(),
                start <= i <= self.current_position,
                v@ == self.bytes().subrange(start as int, i as int),
            decreases self.current_position - i,
        {
            v.push(self.input[i]);
            i += 1;
        }
        v
    }

    /// The text up to the next stop byte, which is not consumed.
    fn parse_string_until(&mut self, brk: &Vec<u8>, markup: bool) -> (r: Result<String, ParseError>)
        requires
            old(self).wf(),
        ensures
            final(self).wf(),
            final(self).bytes() == old(self).bytes(),
            final(self).current_position >= old(self).current_position,
            match r {
                Ok(t) => text_until(old(self).bytes(), old(self).cursor(), brk@, markup) == Ok::<
                    (Seq<char>, Cursor),
                    ParseError,
                >((t@, final(self).cursor())),
                Err(e) => text_until(old(self).bytes(), old(self).cursor(), brk@, markup) == Err::<
                    (Seq<char>, Cursor),
                    ParseError,
                >(e),
            },
    {
        let line = self.current_line;
        let start = self.skip_until(brk, markup);
        let raw = self.bytes_from(start);
        match string_from_utf8(raw) {
            Some(t) => Ok(t),
            None => Err(ParseError::InvalidText { line, position: start }),
        }
    }

    fn parse_literal(&mut self, brk: &Vec<u8>, markup: bool) -> (r: Result<Tree, ParseError>)
        requires
            old(self).wf(),
        ensures
            final(self).wf(),
            final(self).bytes() == old(self).bytes(),
            final(self).current_position >= old(self).current_position,
            outcome(r, final(self).cursor()) == literal_until(
                old(self).bytes(),
                old(self).cursor(),
                brk@,
                markup,
            ),
    {
        let t = self.parse_string_until(brk, markup)?;
        Ok(Tree::Literal(t))
    }

    fn parse_preformatted_literal(&mut self, brk: &Vec<u8>) -> (r: Result<Tree, ParseError>)
        requires
            old(self).wf(),
        ensures
            final(self).wf(),
            final(self).bytes() == old(self).bytes(),
            final(self).current_position >= old(self).current_position,
            outcome(r, final(self).cursor()) == prelit_until(
                old(self).bytes(),
                old(self).cursor(),
                brk@,
            ),
    {
        let t = self.parse_string_until(brk, false)?;
        Ok(Tree::PreformattedLiteral(t))
    }
    /// Parses `input` into a document tree.
    pub fn parse(input: &str) -> (r: Result<Tree, ParseError>)
        requires
            input.spec_bytes().len() < usize::MAX,
        ensures
            match r {
                Ok(t) => parse_rule(input.spec_bytes()) == Ok::<Node, ParseError>(t@),
                Err(e) => parse_rule(input.spec_bytes()) == Err::<Node, ParseError>(e),
            },
    {
        if input.len() == 0 {
            return Ok(Tree::Document(DocType::DEFAULT, Box::new(empty())));
        }
        let mut parser = Parser::new(input);
        let no_stop: Vec<u8> = Vec::new();
        let ast = parser.parse_complete_until(&no_stop)?;
        if parser.doc_type.as_str().is_empty() {
            return Ok(Tree::Document(DocType::DEFAULT, Box::new(ast)));
        }
        let kind = to_uppercase(parser.doc_type.as_str());
        Ok(Tree::Document(doc_type_of(&kind), Box::new(ast)))
    }

    pub closed spec fn follows(&self, prev: Parser) -> bool {
        &&& self.wf()
        &&& self.bytes() == prev.bytes()
        &&& self.current_position >= prev.current_position
    }

    pub closed spec fn left(&self) -> int {
        rem(self.bytes(), self.cursor())
    }

    pub closed spec fn depth_left(&self, level: u8) -> int {
        depth_rem(self.bytes(), self.cursor(), level)
    }

    fn no_progress(&self) -> (e: ParseError)
        requires
            self.wf(),
        ensures
            e == stuck(self.bytes(), self.cursor()),
    {
        ParseError::NoProgress { line: self.current_line, position: self.current_position }
    }

    fn too_deep(&self) -> (e: ParseError)
        requires
            self.wf(),
        ensures
            e == too_deep(self.bytes(), self.cursor()),
    {
        ParseError::TooDeep { line: self.current_line, position: self.current_position }
    }

    /// Skips spaces.
    fn consume_all_space(&mut self)
        requires
            old(self).wf(),
        ensures
            final(self).follows(*old(self)),
            final(self).cursor() == skip_spaces(old(self).bytes(), old(self).cursor()),
    {
        while self.current_char == SPACE
            invariant
                self.follows(*old(self)),
                self.doc_type@ == old(self).doc_type@,
                skip_spaces(self.bytes(), self.cursor()) == skip_spaces(
                    old(self).bytes(),
                    old(self).cursor(),
                ),
            decreases self.input_len - self.current_position,
        {
            self.advance();
        }
    }

    /// Skips spaces and tabs.
    fn consume_all_blanks(&mut self)
        requires
            old(self).wf(),
        ensures
            final(self).follows(*old(self)),
            final(self).cursor() == skip_blanks(old(self).bytes(), old(self).cursor()),
    {
        while self.current_char == SPACE || self.current_char == TAB
            invariant
                self.follows(*old(self)),
                self.doc_type@ == old(self).doc_type@,
                skip_blanks(self.bytes(), self.cursor()) == skip_blanks(
                    old(self).bytes(),
                    old(self).cursor(),
                ),
            decreases self.input_len - self.current_position,
        {
            self.advance();
        }
    }

    /// The `n` bytes at the cursor are spaces.
    fn is_all_space_until(&self, n: usize) -> (r: bool)
        requires
            self.wf(),
        ensures
            r == all_space(self.bytes(), self.cursor(), n as int),
    {
        let mut i: usize = 0;
        while i < n
            invariant
                self.wf(),
                i <= n,
                all_space(self.bytes(), self.cursor(), i as int),
            decreases n - i,
        {
            if !self.peek(i, SPACE) {
                return false;
            }
            i += 1;
        }
        true
    }

    /// Steps over `n` spaces.
    fn consume_all_space_until(&mut self, n: usize) -> (r: Result<(), ParseError>)
        requires
            old(self).wf(),
        ensures
            final(self).follows(*old(self)),
            moved(r, final(self).cursor()) == spaces_rule(
                old(self).bytes(),
                old(self).cursor(),
                n as int,
            ),
    {
        let mut i: usize = 0;
        while i < n
            invariant
                self.follows(*old(self)),
                i <= n,
                spaces_rule(old(self).bytes(), old(self).cursor(), n as int) == spaces_rule(
                    self.bytes(),
                    self.cursor(),
                    n - i,
                ),
            decreases n - i,
        {
            self.consume(SPACE)?;
            i += 1;
        }
        Ok(())
    }

    /// Block and inline constructs up to a byte of `brk` or the end.
    fn parse_complete_until(&mut self, brk: &Vec<u8>) -> (r: Result<Tree, ParseError>)
        requires
            old(self).wf(),
        ensures
            final(self).follows(*old(self)),
            outcome(r, final(self).cursor()) == complete_until_rule(
                old(self).bytes(),
                old(self).cursor(),
                brk@,
            ),
        decreases old(self).left(), old(self).left() + 1, 3int,
    {
        let mut expression = Tree::Empty();
        while !self.at_end() && !contains(brk, self.current_char)
            invariant
                self.follows(*old(self)),
                complete_until_rule(old(self).bytes(), old(self).cursor(), brk@)
                    == complete_loop_rule(self.bytes(), self.cursor(), brk@, expression@),
            decreases self.input_len - self.current_position,
        {
            let line = self.current_line;
            let start = self.current_position;
            let expr = self.parse_complete_item(brk)?;
            if self.current_position <= start {
                return Err(ParseError::NoProgress { line, position: start });
            }
            expression = match expression {
                Tree::Empty() => expr,
                _ => expression.cat(expr),
            };
        }
        Ok(expression)
    }

    /// One construct, chosen by the byte at the cursor.
    fn parse_complete_item(&mut self, brk: &Vec<u8>) -> (r: Result<Tree, ParseError>)
        requires
            old(self).wf(),
        ensures
            final(self).follows(*old(self)),
            outcome(r, final(self).cursor()) == complete_item_rule(
                old(self).bytes(),
                old(self).cursor(),
                brk@,
            ),
        decreases old(self).left(), old(self).left() + 1, 1int,
    {
        let b = self.current_char;
        if b == MINUS {
            self.parse_mdb_or_list_or_lit()
        } else if b == HASH {
            self.parse_heading()
        } else if b == STAR {
            self.parse_list_or_bold_or_lit(0, STAR)
        } else if b == BANG {
            self.parse_image()
        } else if b == LBRACKET {
            self.parse_link()
        } else if b == NL {
            self.parse_newline()
        } else if b == GT {
            self.parse_right_sidenote()
        } else {
            self.parse_inline_item(brk, true)
        }
    }

    /// Inline constructs up to a byte of `brk` or the end.
    fn parse_format_until(&mut self, brk: &Vec<u8>) -> (r: Result<Tree, ParseError>)
        requires
            old(self).wf(),
        ensures
            final(self).follows(*old(self)),
            outcome(r, final(self).cursor()) == format_until_rule(
                old(self).bytes(),
                old(self).cursor(),
                brk@,
            ),
        decreases old(self).left(), old(self).left() + 1, 3int,
    {
        let mut expression = Tree::Empty();
        while !self.at_end() && !contains(brk, self.current_char)
            invariant
                self.follows(*old(self)),
                format_until_rule(old(self).bytes(), old(self).cursor(), brk@)
                    == format_loop_rule(self.bytes(), self.cursor(), brk@, expression@),
            decreases self.input_len - self.current_position,
        {
            let line = self.current_line;
            let start = self.current_position;
            let expr = self.parse_format_item(brk)?;
            if self.current_position <= start {
                return Err(ParseError::NoProgress { line, position: start });
            }
            expression = match expression {
                Tree::Empty() => expr,
                _ => expression.cat(expr),
            };
        }
        Ok(expression)
    }

    /// One inline construct, chosen by the byte at the cursor.
    fn parse_format_item(&mut self, brk: &Vec<u8>) -> (r: Result<Tree, ParseError>)
        requires
            old(self).wf(),
        ensures
            final(self).follows(*old(self)),
            outcome(r, final(self).cursor()) == format_item_rule(
                old(self).bytes(),
                old(self).cursor(),
                brk@,
            ),
        decreases old(self).left(), old(self).left() + 1, 1int,
    {
        if self.current_char == STAR {
            self.try_bold_or_lit()
        } else {
            self.parse_inline_item(brk, false)
        }
    }

    /// The inline constructs that both modes share; other bytes start plain text.
    fn parse_inline_item(&mut self, brk: &Vec<u8>, complete: bool) -> (r: Result<Tree, ParseError>)
        requires
            old(self).wf(),
        ensures
            final(self).follows(*old(self)),
            outcome(r, final(self).cursor()) == inline_item_rule(
                old(self).bytes(),
                old(self).cursor(),
                brk@,
                complete,
            ),
        decreases old(self).left(), 0int, 1int,
    {
        let b = self.current_char;
        if b == UNDERSCORE {
            Ok(Tree::Italic(Box::new(self.parse_symmetric_quoted()?)))
        } else if b == LBRACE {
            Ok(Tree::SmallCaps(Box::new(self.parse_quoted(RBRACE)?)))
        } else if b == BACKTICK {
            self.parse_code()
        } else if b == DQUOTE {
            Ok(Tree::Quote(Box::new(self.parse_symmetric_quoted()?)))
        } else if b == CARET {
            self.parse_footnote()
        } else if b == PERCENT {
            self.parse_drop_cap()
        } else if b == AMP {
            self.consume(AMP)?;
            Ok(escape_lit("&"))
        } else if b == DOT {
            self.consume(DOT)?;
            Ok(escape_lit("."))
        } else if b == SLASH {
            self.parse_pass_through()
        } else if b == BACKSLASH {
            self.parse_color_spec()
        } else {
            self.parse_literal(brk, true)
        }
    }

    /// Text between two equal quote bytes, the first of which is at the cursor.
    fn parse_symmetric_quoted(&mut self) -> (r: Result<Tree, ParseError>)
        requires
            old(self).wf(),
        ensures
            final(self).follows(*old(self)),
            outcome(r, final(self).cursor()) == symmetric_quoted_rule(
                old(self).bytes(),
                old(self).cursor(),
            ),
        decreases old(self).left(), 0int, 0int,
    {
        let break_char = self.current_char;
        self.consume(break_char)?;
        let exp = self.parse_complete_until(&stop_set(break_char))?;
        self.consume(break_char)?;
        Ok(exp)
    }

    /// Text between the byte at the cursor and `close`.
    fn parse_quoted(&mut self, close: u8) -> (r: Result<Tree, ParseError>)
        requires
            old(self).wf(),
        ensures
            final(self).follows(*old(self)),
            outcome(r, final(self).cursor()) == quoted_rule(
                old(self).bytes(),
                old(self).cursor(),
                close,
            ),
        decreases old(self).left(), 0int, 0int,
    {
        let open = self.current_char;
        self.consume(open)?;
        let exp = self.parse_complete_until(&stop_set(close))?;
        self.consume(close)?;
        Ok(exp)
    }

    /// Plain text between the byte at the cursor and `close`.
    fn parse_quoted_literal(&mut self, close: u8) -> (r: Result<Tree, ParseError>)
        requires
            old(self).wf(),
        ensures
            final(self).follows(*old(self)),
            outcome(r, final(self).cursor()) == quoted_literal_rule(
                old(self).bytes(),
                old(self).cursor(),
                close,
            ),
    {
        let open = self.current_char;
        self.consume(open)?;
        let exp = self.parse_literal(&stop_set(close), false)?;
        self.consume(close)?;
        Ok(exp)
    }

    /// Inside a link text: `*bold*`, or a literal `*` before the text if it is not closed.
    fn try_bold_or_lit(&mut self) -> (r: Result<Tree, ParseError>)
        requires
            old(self).wf(),
        ensures
            final(self).follows(*old(self)),
            outcome(r, final(self).cursor()) == bold_or_literal_rule(
                old(self).bytes(),
                old(self).cursor(),
            ),
        decreases old(self).left(), 0int, 0int,
    {
        self.consume(STAR)?;
        let exp = self.parse_format_until(&stop_set2(STAR, RBRACKET))?;
        if self.current_char == STAR {
            self.consume(STAR)?;
            Ok(bold(exp))
        } else {
            Ok(lit("*").cat(exp))
        }
    }

    /// The level of a heading: the number of further `#`; one space after them is skipped.
    fn parse_heading_level(&mut self) -> (r: Result<u8, ParseError>)
        requires
            old(self).wf(),
        ensures
            final(self).follows(*old(self)),
            match r {
                Ok(l) => heading_level_rule(old(self).bytes(), old(self).cursor(), 0) == Ok::<
                    (u8, Cursor),
                    ParseError,
                >((l, final(self).cursor())),
                Err(e) => heading_level_rule(old(self).bytes(), old(self).cursor(), 0) == Err::<
                    (u8, Cursor),
                    ParseError,
                >(e),
            },
    {
        let mut level: u8 = 0;
        while self.current_char == HASH
            invariant
                self.follows(*old(self)),
                self.doc_type@ == old(self).doc_type@,
                heading_level_rule(old(self).bytes(), old(self).cursor(), 0) == heading_level_rule(
                    self.bytes(),
                    self.cursor(),
                    level,
                ),
            decreases self.input_len - self.current_position,
        {
            if level == 255 {
                return Err(self.too_deep());
            }
            self.advance();
            level += 1;
        }
        if self.current_char == SPACE {
            self.advance();
        }
        Ok(level)
    }

    /// `# title /name/`.
    fn parse_heading(&mut self) -> (r: Result<Tree, ParseError>)
        requires
            old(self).wf(),
        ensures
            final(self).follows(*old(self)),
            outcome(r, final(self).cursor()) == heading_rule(old(self).bytes(), old(self).cursor()),
    {
        self.consume(HASH)?;
        let level = self.parse_heading_level()?;
        let title = self.parse_literal(&stop_set2(SLASH, NL), false)?;
        let mut heading_name = String::new();
        if self.current_char == SLASH {
            self.consume(SLASH)?;
            heading_name = self.parse_string_until(&stop_set(SLASH), false)?;
            self.consume(SLASH)?;
        }
        let result = heading(title, level, heading_name.as_str());
        if self.at_end() {
            return Ok(result);
        }
        if self.peek(2, HASH) && level != 2 {
            self.consume(NL)?;
            Ok(result)
        } else {
            Ok(result.cat(Tree::VSpace()))
        }
    }

    /// `^(text)`.
    fn parse_footnote(&mut self) -> (r: Result<Tree, ParseError>)
        requires
            old(self).wf(),
        ensures
            final(self).follows(*old(self)),
            outcome(r, final(self).cursor()) == footnote_rule(
                old(self).bytes(),
                old(self).cursor(),
            ),
        decreases old(self).left(), 0int, 0int,
    {
        self.consume(CARET)?;
        if self.current_char == LPAREN {
            Ok(footnote(self.parse_quoted(RPAREN)?))
        } else {
            Ok(lit("^"))
        }
    }

    /// The number of `%` at the cursor.
    fn count_drop_cap_level(&mut self) -> (r: Result<u8, ParseError>)
        requires
            old(self).wf(),
        ensures
            final(self).follows(*old(self)),
            match r {
                Ok(l) => drop_level_rule(old(self).bytes(), old(self).cursor(), 0) == Ok::<
                    (u8, Cursor),
                    ParseError,
                >((l, final(self).cursor())),
                Err(e) => drop_level_rule(old(self).bytes(), old(self).cursor(), 0) == Err::<
                    (u8, Cursor),
                    ParseError,
                >(e),
            },
    {
        let mut level: u8 = 0;
        while self.current_char == PERCENT
            invariant
                self.follows(*old(self)),
                self.doc_type@ == old(self).doc_type@,
                drop_level_rule(old(self).bytes(), old(self).cursor(), 0) == drop_level_rule(
                    self.bytes(),
                    self.cursor(),
                    level,
                ),
            decreases self.input_len - self.current_position,
        {
            if level == 255 {
                return Err(self.too_deep());
            }
            level += 1;
            self.consume(PERCENT)?;
        }
        Ok(level)
    }

    /// The character at the cursor, or `EOF` at the end.
    fn parse_char(&mut self) -> (r: Result<char, ParseError>)
        requires
            old(self).wf(),
        ensures
            final(self).follows(*old(self)),
            match char_at_rule(old(self).bytes(), old(self).cursor()) {
                Ok((ch, c2)) => r == Ok::<char, ParseError>(ch) && final(self).cursor() == c2,
                Err(e) => r == Err::<char, ParseError>(e),
            },
    {
        if self.at_end() {
            return Ok(EOF as char);
        }
        let b = self.current_char;
        let w: usize = if b < 0x80 {
            1
        } else if 0xC0 <= b && b <= 0xDF {
            2
        } else if 0xE0 <= b && b <= 0xEF {
            3
        } else if 0xF0 <= b && b <= 0xF7 {
            4
        } else {
            1
        };
        let line = self.current_line;
        let start = self.current_position;
        let ghost c0 = self.cursor();
        if w > self.input_len - start {
            return Err(ParseError::InvalidText { line, position: start });
        }
        let mut k: usize = 0;
        while k < w
            invariant
                self.follows(*old(self)),
                self.doc_type@ == old(self).doc_type@,
                k <= w,
                start + w <= self.input_len,
                self.current_position == start + k,
            decreases w - k,
        {
            self.advance();
            k += 1;
        }
        let raw = self.bytes_from(start);
        match string_from_utf8(raw) {
            Some(t) => {
                let cs = chars_of(t.as_str());
                if cs.len() > 0 {
                    Ok(cs[0])
                } else {
                    Err(ParseError::InvalidText { line, position: start })
                }
            },
            None => Err(ParseError::InvalidText { line, position: start }),
        }
    }

    /// `%x` at the start of a line.
    fn parse_drop_cap(&mut self) -> (r: Result<Tree, ParseError>)
        requires
            old(self).wf(),
        ensures
            final(self).follows(*old(self)),
            outcome(r, final(self).cursor()) == drop_cap_rule(
                old(self).bytes(),
                old(self).cursor(),
            ),
    {
        reveal(drop_cap_rule);
        if self.current_position == 0 || self.peek_back(NL) {
            let level = self.count_drop_cap_level()?;
            if level == 255 {
                return Err(self.too_deep());
            }
            let drop_cap_char = self.parse_char()?;
            Ok(Tree::DropCap(drop_cap_char, level + 1))
        } else {
            self.consume(PERCENT)?;
            Ok(lit("%"))
        }
    }

    /// `\{name}`.
    fn parse_color_spec(&mut self) -> (r: Result<Tree, ParseError>)
        requires
            old(self).wf(),
        ensures
            final(self).follows(*old(self)),
            outcome(r, final(self).cursor()) == color_rule(old(self).bytes(), old(self).cursor()),
    {
        self.consume(BACKSLASH)?;
        if self.current_char == LBRACE {
            Ok(color(self.parse_quoted_literal(RBRACE)?))
        } else {
            Ok(lit("\\"))
        }
    }

    /// `>(text)` or `>>(text)`.
    fn parse_right_sidenote(&mut self) -> (r: Result<Tree, ParseError>)
        requires
            old(self).wf(),
        ensures
            final(self).follows(*old(self)),
            outcome(r, final(self).cursor()) == sidenote_rule(
                old(self).bytes(),
                old(self).cursor(),
            ),
        decreases old(self).left(), 0int, 0int,
    {
        self.consume(GT)?;
        let is_chapter_mark = self.current_char == GT;
        if is_chapter_mark {
            self.consume(GT)?;
        }
        if self.current_char == LPAREN {
            let body = self.parse_quoted(RPAREN)?;
            let exp = if is_chapter_mark {
                self.consume(NL)?;
                Tree::ChapterMark(Box::new(body))
            } else {
                Tree::RightSidenote(Box::new(body))
            };
            if self.current_char == SPACE {
                self.consume(SPACE)?;
            }
            Ok(exp)
        } else if is_chapter_mark {
            Ok(lit(">>"))
        } else {
            Ok(lit(">"))
        }
    }

    /// `[text](url)`, `[text](#id)` or `[text]`.
    fn parse_link(&mut self) -> (r: Result<Tree, ParseError>)
        requires
            old(self).wf(),
        ensures
            final(self).follows(*old(self)),
            outcome(r, final(self).cursor()) == link_rule(old(self).bytes(), old(self).cursor()),
        decreases old(self).left(), 0int, 0int,
    {
        self.consume(LBRACKET)?;
        let link_text = self.parse_format_until(&stop_set(RBRACKET))?;
        self.consume(RBRACKET)?;
        if self.current_char == LPAREN {
            self.consume(LPAREN)?;
            if self.current_char == HASH {
                self.consume(HASH)?;
                let target = self.parse_string_until(&stop_set(RPAREN), false)?;
                self.consume(RPAREN)?;
                Ok(Tree::DocRef(target, Box::new(link_text)))
            } else {
                let exp_url = self.parse_literal(&stop_set(RPAREN), false)?;
                self.consume(RPAREN)?;
                if self.current_char == SPACE {
                    self.consume(SPACE)?;
                }
                Ok(hyperref(link_text, exp_url))
            }
        } else {
            Ok(lit("[").cat(link_text).cat(lit("]")))
        }
    }

    /// `//text`.
    fn parse_pass_through(&mut self) -> (r: Result<Tree, ParseError>)
        requires
            old(self).wf(),
        ensures
            final(self).follows(*old(self)),
            outcome(r, final(self).cursor()) == pass_through_rule(
                old(self).bytes(),
                old(self).cursor(),
            ),
    {
        self.consume(SLASH)?;
        if self.peek(0, SLASH) {
            self.consume(SLASH)?;
            self.parse_literal(&stop_set(NL), false)
        } else {
            Ok(lit("/"))
        }
    }

    /// A line break, with a paragraph after a blank line unless a heading follows.
    fn parse_newline(&mut self) -> (r: Result<Tree, ParseError>)
        requires
            old(self).wf(),
            old(self).current_char == NL,
        ensures
            final(self).follows(*old(self)),
            outcome(r, final(self).cursor()) == newline_rule(
                old(self).bytes(),
                old(self).cursor(),
            ),
    {
        if self.peek(1, NL) {
            let heading_follows = self.peek(2, HASH);
            self.consume(NL)?;
            self.consume(NL)?;
            if heading_follows {
                Ok(Tree::LineBreak())
            } else {
                Ok(Tree::LineBreak().cat(Tree::Paragraph()))
            }
        } else {
            self.consume(NL)?;
            Ok(Tree::LineBreak())
        }
    }

    /// One `key: value` line of a meta data block.
    fn parse_meta_data_item(&mut self) -> (r: Result<Tree, ParseError>)
        requires
            old(self).wf(),
        ensures
            final(self).follows(*old(self)),
            outcome(r, final(self).cursor()) == meta_item_rule(
                old(self).bytes(),
                old(self).cursor(),
            ),
    {
        let key = self.parse_string_until(&stop_set(COLON), false)?;
        self.consume(COLON)?;
        self.consume_all_space();
        let value = self.parse_string_until(&stop_set(NL), false)?;
        if text_is(&key, "doctype") {
            self.doc_type = value;
            Ok(empty())
        } else {
            Ok(meta_data_item(key, value))
        }
    }

    /// The lines of a meta data block.
    fn parse_meta_data_items(&mut self) -> (r: Result<Tree, ParseError>)
        requires
            old(self).wf(),
        ensures
            final(self).follows(*old(self)),
            outcome(r, final(self).cursor()) == meta_items_rule(
                old(self).bytes(),
                old(self).cursor(),
                Node::Empty,
            ),
    {
        let mut items = empty();
        while self.current_char != MINUS && self.current_char != NL
            invariant
                self.follows(*old(self)),
                meta_items_rule(old(self).bytes(), old(self).cursor(), Node::Empty)
                    == meta_items_rule(self.bytes(), self.cursor(), items@),
            decreases self.input_len - self.current_position,
        {
            let line = self.current_line;
            let start = self.current_position;
            let item = self.parse_meta_data_item()?;
            self.consume(NL)?;
            if self.current_position <= start {
                return Err(ParseError::NoProgress { line, position: start });
            }
            items = items.cat(item);
        }
        Ok(items)
    }

    /// A meta data block after its opening `---`.
    fn parse_meta_data_block(&mut self) -> (r: Result<Tree, ParseError>)
        requires
            old(self).wf(),
        ensures
            final(self).follows(*old(self)),
            outcome(r, final(self).cursor()) == meta_block_rule(
                old(self).bytes(),
                old(self).cursor(),
            ),
    {
        self.consume_all_blanks();
        self.consume(NL)?;
        let items = self.parse_meta_data_items()?;
        if self.current_char == MINUS {
            self.consume(MINUS)?;
            self.consume(MINUS)?;
            self.consume(MINUS)?;
        }
        self.consume(NL)?;
        if self.current_char == NL {
            self.consume(NL)?;
        }
        Ok(meta_data_block(items))
    }

    /// At `-`: a meta data block, a list, or a literal `-`.
    fn parse_mdb_or_list_or_lit(&mut self) -> (r: Result<Tree, ParseError>)
        requires
            old(self).wf(),
        ensures
            final(self).follows(*old(self)),
            outcome(r, final(self).cursor()) == meta_or_list_rule(
                old(self).bytes(),
                old(self).cursor(),
            ),
        decreases old(self).left(), old(self).left() + 1, 0int,
    {
        if self.peek(1, MINUS) && self.peek(2, MINUS) {
            self.consume(MINUS)?;
            self.consume(MINUS)?;
            self.consume(MINUS)?;
            self.parse_meta_data_block()
        } else if self.peek(1, SPACE) {
            self.parse_list_or_bold_or_lit(0, MINUS)
        } else {
            self.advance();
            Ok(lit("-"))
        }
    }

    /// A list if the marker at `level` is followed by a space, else bold text for `*`.
    fn parse_list_or_bold_or_lit(&mut self, level: u8, list_char: u8) -> (r: Result<
        Tree,
        ParseError,
    >)
        requires
            old(self).wf(),
        ensures
            final(self).follows(*old(self)),
            outcome(r, final(self).cursor()) == list_or_bold_rule(
                old(self).bytes(),
                old(self).cursor(),
                level,
                list_char,
            ),
        decreases old(self).left(), old(self).depth_left(level), 3int,
    {
        if self.peek(level as usize * LIST_INDENT + 1, SPACE) {
            let items = self.parse_list(level, list_char)?;
            Ok(list(items, level))
        } else if list_char == STAR {
            self.parse_bold()
        } else {
            match string_from_utf8(stop_set(list_char)) {
                Some(t) => Ok(Tree::Literal(t)),
                None => Err(
                    ParseError::InvalidText {
                        line: self.current_line,
                        position: self.current_position,
                    },
                ),
            }
        }
    }

    /// The items of a list at `level`, and lists nested one level deeper.
    fn parse_list(&mut self, level: u8, list_char: u8) -> (r: Result<Tree, ParseError>)
        requires
            old(self).wf(),
        ensures
            final(self).follows(*old(self)),
            outcome(r, final(self).cursor()) == list_items_rule(
                old(self).bytes(),
                old(self).cursor(),
                level,
                list_char,
                Node::Empty,
            ),
        decreases old(self).left(), old(self).depth_left(level), 2int,
    {
        let mut iterator = empty();
        let ind = level as usize * LIST_INDENT;
        loop
            invariant
                self.follows(*old(self)),
                ind == level * 2,
                list_items_rule(old(self).bytes(), old(self).cursor(), level, list_char, Node::Empty)
                    == list_items_rule(self.bytes(), self.cursor(), level, list_char, iterator@),
            decreases self.input_len - self.current_position,
        {
            let line = self.current_line;
            let start = self.current_position;
            if self.peek(ind, list_char) && self.peek(ind + 1, SPACE) {
                let item = self.parse_list_item(level, list_char)?;
                if self.current_position <= start {
                    return Err(ParseError::NoProgress { line, position: start });
                }
                iterator = iterator.cat(item);
            } else if self.peek(ind + 2, list_char) && self.peek(ind + 3, SPACE) {
                if level == 255 {
                    return Err(self.too_deep());
                }
                let nested = self.parse_list_or_bold_or_lit(level + 1, list_char)?;
                if self.current_position <= start {
                    return Err(ParseError::NoProgress { line, position: start });
                }
                iterator = iterator.cat(nested);
            } else {
                return Ok(iterator);
            }
        }
    }

    /// One list item at `level`.
    fn parse_list_item(&mut self, level: u8, list_char: u8) -> (r: Result<Tree, ParseError>)
        requires
            old(self).wf(),
        ensures
            final(self).follows(*old(self)),
            outcome(r, final(self).cursor()) == list_item_rule(
                old(self).bytes(),
                old(self).cursor(),
                level,
                list_char,
            ),
        decreases old(self).left(), old(self).depth_left(level), 0int,
    {
        let ind = level as usize * LIST_INDENT;
        let ghost c0 = self.cursor();
        self.consume_all_space_until(ind)?;
        let ghost c1 = self.cursor();
        assert(checked_cursor(self.bytes(), c0, spaces_rule(self.bytes(), c0, level * 2)) == Ok::<
            Cursor,
            ParseError,
        >(c1));
        self.consume(list_char)?;
        self.consume(SPACE)?;
        let item = self.parse_item_lines(level, list_char, empty())?;
        Ok(list_item(item, level))
    }

    /// The lines of a list item, appended to `item`.
    fn parse_item_lines(&mut self, level: u8, list_char: u8, item: Tree) -> (r: Result<
        Tree,
        ParseError,
    >)
        requires
            old(self).wf(),
        ensures
            final(self).follows(*old(self)),
            outcome(r, final(self).cursor()) == item_lines_rule(
                old(self).bytes(),
                old(self).cursor(),
                level,
                list_char,
                item@,
            ),
        decreases old(self).left(), old(self).left() + 1, 5int,
    {
        let line_no = self.current_line;
        let start = self.current_position;
        let (line, more) = self.parse_item_line(level, list_char)?;
        let item = item.cat(line);
        if !more {
            return Ok(item);
        }
        if self.current_position <= start {
            return Err(ParseError::NoProgress { line: line_no, position: start });
        }
        self.parse_item_lines(level, list_char, item.cat(lit("\n")))
    }

    /// One line of a list item; `true` if an indented continuation line follows.
    fn parse_item_line(&mut self, level: u8, list_char: u8) -> (r: Result<(Tree, bool), ParseError>)
        requires
            old(self).wf(),
        ensures
            final(self).follows(*old(self)),
            match r {
                Ok((t, more)) => item_line_rule(old(self).bytes(), old(self).cursor(), level, list_char)
                    == Ok::<(Node, Cursor, bool), ParseError>((t@, final(self).cursor(), more)),
                Err(e) => item_line_rule(old(self).bytes(), old(self).cursor(), level, list_char)
                    == Err::<(Node, Cursor, bool), ParseError>(e),
            },
        decreases old(self).left(), old(self).left() + 1, 4int,
    {
        let line = self.parse_complete_until(&stop_set(NL))?;
        if !self.at_end() {
            self.consume(NL)?;
        }
        let ghost c2 = self.cursor();
        let n = level as usize * LIST_INDENT + LIST_INDENT;
        if self.is_all_space_until(n) && !self.peek(n, list_char) {
            proof {
                assert(ahead(self.bytes(), c2, n - 1, SPACE));
                lemma_all_space_eats(self.bytes(), c2, n as int);
            }
            self.consume_all_space_until(n)?;
            Ok((line, true))
        } else {
            Ok((line, false))
        }
    }

    /// `*text*`.
    fn parse_bold(&mut self) -> (r: Result<Tree, ParseError>)
        requires
            old(self).wf(),
        ensures
            final(self).follows(*old(self)),
            outcome(r, final(self).cursor()) == bold_rule(old(self).bytes(), old(self).cursor()),
        decreases old(self).left(), 0int, 1int,
    {
        if self.peek(1, STAR) {
            self.consume(STAR)?;
        }
        let res = bold(self.parse_symmetric_quoted()?);
        if self.current_char == STAR {
            self.consume(STAR)?;
        }
        Ok(res)
    }

    /// A code block after its first backtick.
    fn parse_code_block(&mut self) -> (r: Result<Tree, ParseError>)
        requires
            old(self).wf(),
        ensures
            final(self).follows(*old(self)),
            outcome(r, final(self).cursor()) == code_block_rule(
                old(self).bytes(),
                old(self).cursor(),
            ),
    {
        let mut block_type = empty();
        self.consume(BACKTICK)?;
        self.consume(BACKTICK)?;
        self.consume_all_space();
        if self.current_char != NL {
            block_type = self.parse_literal(&stop_set(NL), false)?;
        }
        self.consume(NL)?;
        let first = self.parse_preformatted_literal(&stop_set(BACKTICK))?;
        let result = self.parse_code_body(first)?;
        self.consume_code_fence()?;
        Ok(Tree::CodeBlock(Box::new(block_type), Box::new(result)))
    }

    /// The body of a code block after its first run of text.
    fn parse_code_body(&mut self, first: Tree) -> (r: Result<Tree, ParseError>)
        requires
            old(self).wf(),
        ensures
            final(self).follows(*old(self)),
            outcome(r, final(self).cursor()) == code_body_rule(
                old(self).bytes(),
                old(self).cursor(),
                first@,
            ),
    {
        let mut result = first;
        // a backtick that does not start three of them belongs to the code
        while !(self.at_end() || self.peek(1, BACKTICK) && self.peek(2, BACKTICK))
            invariant
                self.follows(*old(self)),
                code_body_rule(old(self).bytes(), old(self).cursor(), first@) == code_body_rule(
                    self.bytes(),
                    self.cursor(),
                    result@,
                ),
            decreases self.input_len - self.current_position,
        {
            result = result.cat(lit("\\[ga]"));
            self.consume(BACKTICK)?;
            result = result.cat(self.parse_preformatted_literal(&stop_set(BACKTICK))?);
        }
        Ok(result)
    }

    /// The closing backticks of a code block, as far as they are there.
    fn consume_code_fence(&mut self) -> (r: Result<(), ParseError>)
        requires
            old(self).wf(),
        ensures
            final(self).follows(*old(self)),
            moved(r, final(self).cursor()) == code_fence_rule(old(self).bytes(), old(self).cursor()),
    {
        if !self.at_end() {
            self.consume(BACKTICK)?;
            if !self.at_end() && self.current_char != EOF {
                self.consume(BACKTICK)?;
                if !self.at_end() && self.current_char != EOF {
                    self.consume(BACKTICK)?;
                }
            }
        }
        Ok(())
    }

    /// `` `code` `` inline, or a code block after three backticks.
    fn parse_code(&mut self) -> (r: Result<Tree, ParseError>)
        requires
            old(self).wf(),
        ensures
            final(self).follows(*old(self)),
            outcome(r, final(self).cursor()) == code_rule(old(self).bytes(), old(self).cursor()),
    {
        self.consume(BACKTICK)?;
        if self.peek(0, BACKTICK) && self.peek(1, BACKTICK) {
            return self.parse_code_block();
        }
        let dot = self.current_char == DOT;
        if dot {
            self.consume(DOT)?;
        }
        let code_exp = self.parse_literal(&stop_set(BACKTICK), false)?;
        let exp = if dot {
            escape_lit(".").cat(code_exp)
        } else {
            code_exp
        };
        self.consume(BACKTICK)?;
        Ok(Tree::InlineCode(Box::new(exp)))
    }

    /// `WxH` of an image.
    fn parse_image_size(&mut self) -> (r: Result<Tree, ParseError>)
        requires
            old(self).wf(),
        ensures
            final(self).follows(*old(self)),
            outcome(r, final(self).cursor()) == image_size_rule(
                old(self).bytes(),
                old(self).cursor(),
            ),
        decreases old(self).left(), old(self).left() + 1, 4int,
    {
        let x = self.parse_complete_until(&stop_set(LOWER_X))?;
        self.consume(LOWER_X)?;
        let y = self.parse_complete_until(&stop_set(RBRACKET))?;
        Ok(image_size(x, y))
    }

    /// `![caption|WxH](path)`; a lone `!` is literal.
    fn parse_image(&mut self) -> (r: Result<Tree, ParseError>)
        requires
            old(self).wf(),
            old(self).current_char == BANG,
        ensures
            final(self).follows(*old(self)),
            outcome(r, final(self).cursor()) == image_rule(old(self).bytes(), old(self).cursor()),
        decreases old(self).left(), 0int, 0int,
    {
        if self.peek(1, LBRACKET) {
            self.consume(BANG)?;
            self.consume(LBRACKET)?;
            let caption = self.parse_complete_until(&stop_set2(PIPE, RBRACKET))?;
            let mut size_spec = image_size(lit("100"), lit("100"));
            if self.current_char == PIPE {
                self.consume(PIPE)?;
                size_spec = self.parse_image_size()?;
            }
            self.consume(RBRACKET)?;
            self.consume(LPAREN)?;
            let path = self.parse_literal(&stop_set(RPAREN), false)?;
            self.consume(RPAREN)?;
            Ok(image(caption, path, size_spec))
        } else {
            self.advance();
            Ok(lit("!"))
        }
    }
}

} // verus!
