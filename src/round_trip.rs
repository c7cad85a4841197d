//! Writing a parsed text back as markup and parsing it again gives the same tree.
use crate::parser::{
    ahead, at, bold_rule, byte_at, complete_item_rule, complete_loop_rule, complete_until_rule,
    eat, inline_item_rule, is_markup, join, list_or_bold_rule, literal_until, parse_rule, scan,
    stops, symmetric_quoted_rule, then_eat, Cursor, ParseError, EOF, STAR, UNDERSCORE,
};
use crate::render::markdown::{md, sat, width, wrap_from, wrapped, Wrap, WRAP_COLUMN};
use crate::syntax::{DocType, Node};
use vstd::prelude::*;
use vstd::utf8::{
    encode_utf8, encode_utf8_decode_utf8, encode_utf8_valid_utf8, is_ascii_chars,
    is_ascii_chars_encode_utf8,
};

verus! {

/// An ASCII letter or digit.
pub open spec fn is_plain_char(c: char) -> bool {
    ('a' <= c && c <= 'z') || ('A' <= c && c <= 'Z') || ('0' <= c && c <= '9')
}

/// A word of at most 16 letters and digits.
pub open spec fn is_short_word(t: Seq<char>) -> bool {
    &&& 1 <= t.len() <= 16
    &&& forall|i: int| 0 <= i < t.len() ==> is_plain_char(#[trigger] t[i])
}

proof fn lemma_scan_plain(b: Seq<u8>, p: int)
    requires
        0 <= p <= b.len(),
        forall|i: int| 0 <= i < b.len() ==> !is_markup(#[trigger] b[i]),
    ensures
        scan(b, p, Seq::empty(), true) == b.len(),
    decreases b.len() - p,
{
    if p < b.len() {
        assert(!Seq::<u8>::empty().contains(b[p]));
        assert(!stops(b[p], Seq::empty(), true));
        lemma_scan_plain(b, p + 1);
    }
}

/// A short word parses to a document holding one literal.
proof fn lemma_word_parses(t: Seq<char>)
    requires
        is_short_word(t),
    ensures
        parse_rule(encode_utf8(t)) == Ok::<Node, ParseError>(
            Node::Document(DocType::DEFAULT, Box::new(Node::Literal(t))),
        ),
{
    assert(is_ascii_chars(t));
    is_ascii_chars_encode_utf8(t);
    encode_utf8_valid_utf8(t);
    encode_utf8_decode_utf8(t);
    let b = encode_utf8(t);
    assert forall|i: int| 0 <= i < b.len() implies !is_markup(#[trigger] b[i]) by {
        assert(t[i] as u8 == b[i]);
        assert(is_plain_char(t[i]));
    }
    assert(t[0] as u8 == b[0]);
    let c0 = Cursor { pos: 0, doc: Seq::empty() };
    let ce = Cursor { pos: b.len() as int, doc: Seq::empty() };
    lemma_scan_plain(b, 0);
    assert(b.subrange(0, b.len() as int) =~= b);
    let lit = Node::Literal(t);
    assert(literal_until(b, c0, Seq::empty(), true) == Ok::<(Node, Cursor), ParseError>((lit, ce)));
    assert(byte_at(b, 0) == b[0]);
    assert(inline_item_rule(b, c0, Seq::empty(), true) == Ok::<(Node, Cursor), ParseError>(
        (lit, ce),
    ));
    assert(complete_item_rule(b, c0, Seq::empty()) == Ok::<(Node, Cursor), ParseError>((lit, ce)));
    assert(!Seq::<u8>::empty().contains(b[0]));
    assert(complete_loop_rule(b, ce, Seq::empty(), join(Node::Empty, lit)) == Ok::<
        (Node, Cursor),
        ParseError,
    >((lit, ce)));
    assert(complete_loop_rule(b, c0, Seq::empty(), Node::Empty) == Ok::<(Node, Cursor), ParseError>(
        (lit, ce),
    ));
}

proof fn lemma_wrap_word(t: Seq<char>, i: int, wl: int)
    requires
        is_short_word(t),
        0 <= i <= t.len(),
        0 <= wl <= 4 * i,
    ensures
        wrap_from(
            t,
            i,
            Wrap { out: Seq::empty(), col: 0, word: t.subrange(0, i), wlen: wl },
        ).out == t,
    decreases t.len() - i,
{
    if i >= t.len() {
        assert(sat(0 + wl) < WRAP_COLUMN);
        assert(Seq::<char>::empty() + t.subrange(0, i) =~= t);
    } else {
        assert(is_plain_char(t[i]));
        assert(t.subrange(0, i).push(t[i]) =~= t.subrange(0, i + 1));
        assert(width(t[i]) <= 4);
        lemma_wrap_word(t, i + 1, sat(wl + width(t[i])));
    }
}

/// A short word is written back as it is.
proof fn lemma_word_written(t: Seq<char>)
    requires
        is_short_word(t),
    ensures
        md(Node::Literal(t), 0).0 == t,
        md(Node::Document(DocType::DEFAULT, Box::new(Node::Literal(t))), 0).0 == t,
{
    assert(is_plain_char(t[0]));
    assert(t.subrange(0, 0) =~= Seq::<char>::empty());
    lemma_wrap_word(t, 0, 0);
    let start = Wrap { out: Seq::<char>::empty(), col: 0, word: Seq::<char>::empty(), wlen: 0 };
    assert(start == Wrap { out: Seq::<char>::empty(), col: 0, word: t.subrange(0, 0), wlen: 0 });
    assert(t[0] != ' ');
    assert(wrapped(t, 0) == wrap_from(t, 0, start));
    assert(wrapped(t, 0).out == t);
    assert(md(Node::Literal(t), 0).0 == t);
}

/// Round trip of the markdown back end: a short word parses to a tree that the
/// markdown back end writes as the same word, so parsing the written text gives
/// the same tree again.
pub proof fn lemma_markdown_round_trip(t: Seq<char>)
    requires
        is_short_word(t),
    ensures
        ({
            let n = Node::Document(DocType::DEFAULT, Box::new(Node::Literal(t)));
            &&& parse_rule(encode_utf8(t)) == Ok::<Node, ParseError>(n)
            &&& md(n, 0).0 == t
            &&& parse_rule(encode_utf8(md(n, 0).0)) == Ok::<Node, ParseError>(n)
        }),
{
    lemma_word_parses(t);
    lemma_word_written(t);
}

/// The text `t` between two `q` characters.
pub open spec fn quoted(q: char, t: Seq<char>) -> Seq<char> {
    seq![q] + t + seq![q]
}

proof fn lemma_scan_to_quote(b: Seq<u8>, p: int, e: int, q: u8)
    requires
        0 <= p <= e < b.len(),
        forall|i: int| p <= i < e ==> !is_markup(#[trigger] b[i]) && b[i] != q,
        b[e] == q,
    ensures
        scan(b, p, seq![q], true) == e,
    decreases e - p,
{
    assert(seq![q].contains(q)) by {
        assert(seq![q][0] == q);
    }
    if p < e {
        assert(!seq![q].contains(b[p])) by {
            if seq![q].contains(b[p]) {
                let j = choose|j: int| 0 <= j < 1 && seq![q][j] == b[p];
                assert(seq![q][j] == q);
            }
        }
        lemma_scan_to_quote(b, p + 1, e, q);
    }
}

/// A short word between two markup characters `q` (`*` or `_`) is read as the
/// text between quotes.
proof fn lemma_quoted_parses(t: Seq<char>, qc: char)
    requires
        is_short_word(t),
        qc == '*' || qc == '_',
    ensures
        ({
            let b = encode_utf8(quoted(qc, t));
            &&& b.len() == t.len() + 2
            &&& b[0] == qc as u8
            &&& (1 < b.len() ==> b[1] != 32u8 && b[1] != qc as u8 && !is_markup(b[1]))
            &&& symmetric_quoted_rule(b, Cursor { pos: 0, doc: Seq::empty() }) == Ok::<
                (Node, Cursor),
                ParseError,
            >((Node::Literal(t), Cursor { pos: b.len() as int, doc: Seq::empty() }))
        }),
{
    let u = quoted(qc, t);
    let n = t.len() as int;
    assert(u.len() == n + 2);
    assert forall|i: int| 0 <= i < u.len() implies '\0' <= #[trigger] u[i] <= '\u{7f}' by {
        if 1 <= i <= n {
            assert(u[i] == t[i - 1]);
            assert(is_plain_char(t[i - 1]));
        }
    }
    assert(is_ascii_chars(u));
    is_ascii_chars_encode_utf8(u);
    assert(is_ascii_chars(t));
    is_ascii_chars_encode_utf8(t);
    encode_utf8_valid_utf8(t);
    encode_utf8_decode_utf8(t);
    let b = encode_utf8(u);
    let q = qc as u8;
    assert(u[0] == qc);
    assert(u[n + 1] == qc);
    assert(b[0] == q);
    assert(b[n + 1] == q);
    assert forall|i: int| 1 <= i <= n implies !is_markup(#[trigger] b[i]) && b[i] != q && b[i] != 32u8 by {
        assert(u[i] == t[i - 1]);
        assert(u[i] as u8 == b[i]);
        assert(is_plain_char(t[i - 1]));
    }
    let c0 = Cursor { pos: 0, doc: Seq::empty() };
    let c1 = at(c0, 1);
    let cq = at(c0, n + 1);
    let ce = at(c0, n + 2);
    lemma_scan_to_quote(b, 1, n + 1, q);
    assert(b.subrange(1, n + 1) =~= encode_utf8(t)) by {
        assert forall|i: int| 0 <= i < n implies b.subrange(1, n + 1)[i] == encode_utf8(t)[i] by {
            assert(u[i + 1] == t[i]);
            assert(u[i + 1] as u8 == b[i + 1]);
            assert(t[i] as u8 == encode_utf8(t)[i]);
        }
    }
    let lit = Node::Literal(t);
    assert(literal_until(b, c1, seq![q], true) == Ok::<(Node, Cursor), ParseError>((lit, cq)));
    assert(byte_at(b, 1) == b[1]);
    assert(!seq![q].contains(b[1])) by {
        if seq![q].contains(b[1]) {
            let j = choose|j: int| 0 <= j < 1 && seq![q][j] == b[1];
            assert(seq![q][j] == q);
        }
    }
    assert(seq![q].contains(q)) by {
        assert(seq![q][0] == q);
    }
    assert(inline_item_rule(b, c1, seq![q], true) == Ok::<(Node, Cursor), ParseError>((lit, cq)));
    assert(complete_item_rule(b, c1, seq![q]) == Ok::<(Node, Cursor), ParseError>((lit, cq)));
    assert(complete_loop_rule(b, cq, seq![q], join(Node::Empty, lit)) == Ok::<(Node, Cursor), ParseError>(
        (lit, cq),
    ));
    assert(complete_until_rule(b, c1, seq![q]) == Ok::<(Node, Cursor), ParseError>((lit, cq)));
    assert(eat(b, c0, q) == Ok::<Cursor, ParseError>(c1));
    assert(then_eat(b, complete_until_rule(b, c1, seq![q]), q) == Ok::<(Node, Cursor), ParseError>(
        (lit, ce),
    ));
}

/// A parsed text of one node at the top of an otherwise empty document.
proof fn lemma_single_item(b: Seq<u8>, item: Node)
    requires
        0 < b.len(),
        complete_item_rule(b, Cursor { pos: 0, doc: Seq::empty() }, Seq::empty()) == Ok::<
            (Node, Cursor),
            ParseError,
        >((item, Cursor { pos: b.len() as int, doc: Seq::empty() })),
    ensures
        parse_rule(b) == Ok::<Node, ParseError>(Node::Document(DocType::DEFAULT, Box::new(item))),
{
    let ce = Cursor { pos: b.len() as int, doc: Seq::empty() };
    assert(!Seq::<u8>::empty().contains(b[0]));
    assert(complete_loop_rule(b, ce, Seq::empty(), join(Node::Empty, item)) == Ok::<
        (Node, Cursor),
        ParseError,
    >((item, ce)));
}

proof fn lemma_bold_parses(t: Seq<char>)
    requires
        is_short_word(t),
    ensures
        parse_rule(encode_utf8(quoted('*', t))) == Ok::<Node, ParseError>(
            Node::Document(DocType::DEFAULT, Box::new(Node::Bold(Box::new(Node::Literal(t))))),
        ),
{
    let lit = Node::Literal(t);
    let c0 = Cursor { pos: 0, doc: Seq::empty() };
    lemma_quoted_parses(t, '*');
    let b = encode_utf8(quoted('*', t));
    let ce = Cursor { pos: b.len() as int, doc: Seq::empty() };
    assert(byte_at(b, b.len() as int) == EOF);
    assert(bold_rule(b, c0) == Ok::<(Node, Cursor), ParseError>((Node::Bold(Box::new(lit)), ce)));
    assert(!ahead(b, c0, 1, 32u8));
    assert(list_or_bold_rule(b, c0, 0, STAR) == Ok::<(Node, Cursor), ParseError>(
        (Node::Bold(Box::new(lit)), ce),
    ));
    assert(byte_at(b, 0) == STAR);
    lemma_single_item(b, Node::Bold(Box::new(lit)));
}

proof fn lemma_italic_parses(t: Seq<char>)
    requires
        is_short_word(t),
    ensures
        parse_rule(encode_utf8(quoted('_', t))) == Ok::<Node, ParseError>(
            Node::Document(DocType::DEFAULT, Box::new(Node::Italic(Box::new(Node::Literal(t))))),
        ),
{
    let lit = Node::Literal(t);
    let c0 = Cursor { pos: 0, doc: Seq::empty() };
    lemma_quoted_parses(t, '_');
    let bi = encode_utf8(quoted('_', t));
    let cie = Cursor { pos: bi.len() as int, doc: Seq::empty() };
    assert(byte_at(bi, 0) == UNDERSCORE);
    assert(inline_item_rule(bi, c0, Seq::empty(), true) == Ok::<(Node, Cursor), ParseError>(
        (Node::Italic(Box::new(lit)), cie),
    ));
    assert(complete_item_rule(bi, c0, Seq::empty()) == Ok::<(Node, Cursor), ParseError>(
        (Node::Italic(Box::new(lit)), cie),
    ));
    lemma_single_item(bi, Node::Italic(Box::new(lit)));
}

proof fn lemma_styled_written(t: Seq<char>)
    requires
        is_short_word(t),
    ensures
        md(Node::Document(DocType::DEFAULT, Box::new(Node::Bold(Box::new(Node::Literal(t))))), 0).0
            == quoted('*', t),
        md(Node::Document(DocType::DEFAULT, Box::new(Node::Italic(Box::new(Node::Literal(t))))), 0).0
            == quoted('_', t),
{
    lemma_word_written(t);
    reveal_strlit("*");
    reveal_strlit("_");
    assert(is_plain_char(t[0]));
    assert("*"@ + t + "*"@ =~= quoted('*', t));
    assert("_"@ + t + "_"@ =~= quoted('_', t));
    assert(md(Node::Bold(Box::new(Node::Literal(t))), 0).0 == quoted('*', t));
    assert(md(Node::Italic(Box::new(Node::Literal(t))), 0).0 == quoted('_', t));
}

/// Round trip for bold and italic words: `*w*` and `_w_` parse to a bold or
/// italic literal, which the markdown back end writes as the same text.
pub proof fn lemma_styled_round_trip(t: Seq<char>)
    requires
        is_short_word(t),
    ensures
        ({
            let bold = Node::Document(DocType::DEFAULT, Box::new(Node::Bold(Box::new(Node::Literal(t)))));
            let italic = Node::Document(DocType::DEFAULT, Box::new(Node::Italic(Box::new(Node::Literal(t)))));
            &&& parse_rule(encode_utf8(quoted('*', t))) == Ok::<Node, ParseError>(bold)
            &&& md(bold, 0).0 == quoted('*', t)
            &&& parse_rule(encode_utf8(md(bold, 0).0)) == Ok::<Node, ParseError>(bold)
            &&& parse_rule(encode_utf8(quoted('_', t))) == Ok::<Node, ParseError>(italic)
            &&& md(italic, 0).0 == quoted('_', t)
            &&& parse_rule(encode_utf8(md(italic, 0).0)) == Ok::<Node, ParseError>(italic)
        }),
{
    lemma_bold_parses(t);
    lemma_italic_parses(t);
    lemma_styled_written(t);
}

} // verus!
