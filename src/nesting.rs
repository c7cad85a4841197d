//! Lists whose items are indented one level deeper each are parsed as lists
//! nested as deep as their indentation says.
use crate::parser::{
    ahead, all_space, at, byte_at, checked, is_end, complete_item_rule, complete_loop_rule, complete_until_rule,
    eat, inline_item_rule, item_line_rule, item_lines_rule, join, lemma_all_space_eats,
    list_item_rule, list_items_rule, list_or_bold_rule, literal_until, parse_rule, scan, Cursor,
    ParseError, NL, SPACE, STAR,
};
use crate::syntax::{cat_node, DocType, Node};
use vstd::prelude::*;
use vstd::utf8::{decode_utf8, valid_utf8};

verus! {

/// Indentation of `k` list levels.
pub open spec fn indent(k: nat) -> Seq<u8> {
    Seq::new(2 * k, |i: int| SPACE)
}

/// A byte of plain item text: an ASCII letter, digit or space.
pub open spec fn is_plain(b: u8) -> bool {
    (97 <= b <= 122) || (65 <= b <= 90) || (48 <= b <= 57) || b == SPACE
}

/// Plain item text: letters, digits and spaces, not starting with a space.
#[verifier::opaque]
pub open spec fn is_word(w: Seq<u8>) -> bool {
    &&& w.len() > 0
    &&& valid_utf8(w)
    &&& w[0] != SPACE
    &&& forall|i: int| 0 <= i < w.len() ==> is_plain(#[trigger] w[i])
}

/// The line of an item at level `k` with the text `w`.
pub open spec fn item_line(k: nat, w: Seq<u8>) -> Seq<u8> {
    indent(k) + seq![STAR, SPACE] + w + seq![NL]
}

/// The lines of the items from the `k`-th on, each one level deeper than the one before.
pub open spec fn stair(ws: Seq<Seq<u8>>, k: nat) -> Seq<u8>
    decreases ws.len() - k,
{
    if k >= ws.len() {
        Seq::empty()
    } else {
        item_line(k, ws[k as int]) + stair(ws, k + 1)
    }
}

/// The list that the items from the `k`-th on make: each item's list holds the next one's.
pub open spec fn stair_list(ws: Seq<Seq<u8>>, k: nat) -> Node
    decreases ws.len() - k,
{
    let item = Node::ListItem(
        Box::new(cat_node(Node::Empty, Node::Literal(decode_utf8(ws[k as int])))),
        k as u8,
    );
    if k + 1 < ws.len() {
        Node::List(Box::new(cat_node(cat_node(Node::Empty, item), stair_list(ws, k + 1))), k as u8)
    } else {
        Node::List(Box::new(cat_node(Node::Empty, item)), k as u8)
    }
}

proof fn lemma_scan_word(s: Seq<u8>, p: int, e: int)
    requires
        0 <= p <= e < s.len(),
        forall|i: int| p <= i < e ==> is_plain(#[trigger] s[i]),
        s[e] == NL,
    ensures
        scan(s, p, seq![NL], true) == e,
    decreases e - p,
{
    assert(seq![NL].contains(NL)) by {
        assert(seq![NL][0] == NL);
    }
    if p < e {
        assert(!seq![NL].contains(s[p])) by {
            if seq![NL].contains(s[p]) {
                let j = choose|j: int| 0 <= j < 1 && seq![NL][j] == s[p];
                assert(seq![NL][j] == NL);
            }
        }
        lemma_scan_word(s, p + 1, e);
    }
}

/// A word followed by a line break is one literal.
proof fn lemma_word_line(s: Seq<u8>, c: Cursor, w: Seq<u8>)
    requires
        0 <= c.pos,
        c.pos + w.len() < s.len(),
        is_word(w),
        s.subrange(c.pos, c.pos + w.len()) == w,
        s[c.pos + w.len()] == NL,
    ensures
        complete_until_rule(s, c, seq![NL]) == Ok::<(Node, Cursor), ParseError>(
            (Node::Literal(decode_utf8(w)), at(c, c.pos + w.len())),
        ),
{
    reveal(is_word);
    let e = c.pos + w.len();
    assert forall|i: int| c.pos <= i < e implies is_plain(#[trigger] s[i]) by {
        assert(s[i] == w[i - c.pos]);
    }
    lemma_scan_word(s, c.pos, e);
    assert(s[c.pos] == w[0]);
    assert(!seq![NL].contains(s[c.pos])) by {
        if seq![NL].contains(s[c.pos]) {
            let j = choose|j: int| 0 <= j < 1 && seq![NL][j] == s[c.pos];
            assert(seq![NL][j] == NL);
        }
    }
    assert(seq![NL].contains(NL)) by {
        assert(seq![NL][0] == NL);
    }
    let lit = Node::Literal(decode_utf8(w));
    assert(literal_until(s, c, seq![NL], true) == Ok::<(Node, Cursor), ParseError>((lit, at(c, e))));
    assert(inline_item_rule(s, c, seq![NL], true) == Ok::<(Node, Cursor), ParseError>((lit, at(c, e))));
    assert(complete_item_rule(s, c, seq![NL]) == Ok::<(Node, Cursor), ParseError>((lit, at(c, e))));
    assert(complete_loop_rule(s, at(c, e), seq![NL], lit) == Ok::<(Node, Cursor), ParseError>(
        (lit, at(c, e)),
    ));
    assert(complete_loop_rule(s, c, seq![NL], Node::Empty) == Ok::<(Node, Cursor), ParseError>(
        (lit, at(c, e)),
    ));
}

#[verifier::spinoff_prover]
#[verifier::rlimit(100)]
proof fn lemma_line_ends(s: Seq<u8>, c3: Cursor, k8: u8, lit: Node, e: int, q: int)
    requires
        0 <= c3.pos <= e,
        e + 1 == q,
        q <= s.len(),
        s[e] == NL,
        complete_until_rule(s, c3, seq![NL]) == Ok::<(Node, Cursor), ParseError>((lit, at(c3, e))),
        q == s.len() || (q + k8 * 2 + 2 < s.len() && s[q + k8 * 2 + 2] == STAR),
    ensures
        item_line_rule(s, c3, k8, STAR) == Ok::<(Node, Cursor, bool), ParseError>(
            (lit, at(c3, q), false),
        ),
{
    let c1 = at(c3, e);
    let c2 = at(c3, q);
    let n = k8 * 2 + 2;
    assert(checked(s, c3, complete_until_rule(s, c3, seq![NL])) == Ok::<(Node, Cursor), ParseError>(
        (lit, c1),
    ));
    assert(!is_end(s, c1));
    assert(eat(s, c1, NL) == Ok::<Cursor, ParseError>(c2));
    if q < s.len() {
        assert(ahead(s, c2, n, STAR));
    }
    assert(!(c2.pos + n <= s.len() && all_space(s, c2, n) && !ahead(s, c2, n, STAR)));
    reveal_with_fuel(item_line_rule, 2);
}

proof fn lemma_lines_end(s: Seq<u8>, c3: Cursor, k8: u8, lit: Node, q: int)
    requires
        item_line_rule(s, c3, k8, STAR) == Ok::<(Node, Cursor, bool), ParseError>(
            (lit, at(c3, q), false),
        ),
    ensures
        item_lines_rule(s, c3, k8, STAR, Node::Empty) == Ok::<(Node, Cursor), ParseError>(
            (cat_node(Node::Empty, lit), at(c3, q)),
        ),
{
}

proof fn lemma_item_from_lines(s: Seq<u8>, c: Cursor, k8: u8, lit: Node, q: int)
    requires
        0 <= c.pos,
        c.pos + k8 * 2 + 2 <= s.len(),
        all_space(s, c, k8 * 2),
        s[c.pos + k8 * 2] == STAR,
        s[c.pos + k8 * 2 + 1] == SPACE,
        item_lines_rule(s, at(c, c.pos + k8 * 2 + 2), k8, STAR, Node::Empty) == Ok::<
            (Node, Cursor),
            ParseError,
        >((cat_node(Node::Empty, lit), at(c, q))),
    ensures
        list_item_rule(s, c, k8, STAR) == Ok::<(Node, Cursor), ParseError>(
            (Node::ListItem(Box::new(cat_node(Node::Empty, lit)), k8), at(c, q)),
        ),
{
    lemma_all_space_eats(s, c, k8 * 2);
    assert(eat(s, at(c, c.pos + k8 * 2), STAR) == Ok::<Cursor, ParseError>(
        at(c, c.pos + k8 * 2 + 1),
    ));
}

/// The item on the line at `p` parses to one list item of level `k`, when the
/// next line, if any, starts an item one level deeper.
#[verifier::spinoff_prover]
#[verifier::rlimit(100)]
proof fn lemma_item(s: Seq<u8>, p: int, k: nat, w: Seq<u8>, d: Seq<char>)
    requires
        0 <= p,
        k <= 254,
        is_word(w),
        p + item_line(k, w).len() <= s.len(),
        s.subrange(p, p + item_line(k, w).len()) == item_line(k, w),
        ({
            let q = p + item_line(k, w).len();
            q == s.len() || (q + 2 * k + 2 < s.len() && (forall|i: int|
                0 <= i < 2 * k + 2 ==> #[trigger] s[q + i] == SPACE) && s[q + 2 * k + 2] == STAR)
        }),
    ensures
        list_item_rule(s, Cursor { pos: p, doc: d }, k as u8, STAR) == Ok::<(Node, Cursor), ParseError>(
            (
                Node::ListItem(
                    Box::new(cat_node(Node::Empty, Node::Literal(decode_utf8(w)))),
                    k as u8,
                ),
                Cursor { pos: p + item_line(k, w).len(), doc: d },
            ),
        ),
{
    let line = item_line(k, w);
    let c = Cursor { pos: p, doc: d };
    let n: int = 2 * k as int;
    let k8 = k as u8;
    let q = p + line.len();
    assert(line.len() == n + 2 + w.len() + 1);
    assert(k8 * 2 == n);
    assert forall|i: int| 0 <= i < n implies ahead(s, c, i, SPACE) by {
        assert(s[p + i] == line[i]);
    }
    assert(s[p + n] == line[n]);
    assert(s[p + n + 1] == line[n + 1]);
    let c3 = at(c, p + n + 2);
    assert(s.subrange(c3.pos, c3.pos + w.len()) =~= w) by {
        assert forall|i: int| 0 <= i < w.len() implies s.subrange(c3.pos, c3.pos + w.len())[i]
            == w[i] by {
            assert(s[c3.pos + i] == line[n + 2 + i]);
        }
    }
    assert(s[c3.pos + w.len()] == line[line.len() - 1]);
    lemma_word_line(s, c3, w);
    let lit = Node::Literal(decode_utf8(w));
    lemma_line_ends(s, c3, k8, lit, c3.pos + w.len(), q);
    lemma_lines_end(s, c3, k8, lit, q);
    lemma_item_from_lines(s, c, k8, lit, q);
}

proof fn lemma_items_at_end(s: Seq<u8>, ce: Cursor, k8: u8, acc: Node)
    requires
        ce.pos == s.len(),
    ensures
        list_items_rule(s, ce, k8, STAR, acc) == Ok::<(Node, Cursor), ParseError>((acc, ce)),
{
}

proof fn lemma_items_nested(s: Seq<u8>, cq: Cursor, k8: u8, acc: Node, nested: Node, ce: Cursor)
    requires
        k8 < 255,
        0 <= cq.pos < ce.pos,
        ce.pos == s.len(),
        cq.pos + k8 * 2 + 3 < s.len(),
        s[cq.pos + k8 * 2] == SPACE,
        s[cq.pos + k8 * 2 + 2] == STAR,
        s[cq.pos + k8 * 2 + 3] == SPACE,
        list_or_bold_rule(s, cq, (k8 + 1) as u8, STAR) == Ok::<(Node, Cursor), ParseError>(
            (nested, ce),
        ),
    ensures
        list_items_rule(s, cq, k8, STAR, acc) == Ok::<(Node, Cursor), ParseError>(
            (cat_node(acc, nested), ce),
        ),
{
    lemma_items_at_end(s, ce, k8, cat_node(acc, nested));
}

proof fn lemma_items_first(s: Seq<u8>, c: Cursor, k8: u8, item: Node, cq: Cursor, result: (Node, Cursor))
    requires
        0 <= c.pos < cq.pos <= s.len(),
        ahead(s, c, k8 * 2, STAR),
        ahead(s, c, k8 * 2 + 1, SPACE),
        list_item_rule(s, c, k8, STAR) == Ok::<(Node, Cursor), ParseError>((item, cq)),
        list_items_rule(s, cq, k8, STAR, cat_node(Node::Empty, item)) == Ok::<
            (Node, Cursor),
            ParseError,
        >(result),
    ensures
        list_items_rule(s, c, k8, STAR, Node::Empty) == Ok::<(Node, Cursor), ParseError>(result),
{
}

proof fn lemma_list_of_items(s: Seq<u8>, c: Cursor, k8: u8, items: Node, ce: Cursor)
    requires
        ahead(s, c, k8 * 2 + 1, SPACE),
        list_items_rule(s, c, k8, STAR, Node::Empty) == Ok::<(Node, Cursor), ParseError>(
            (items, ce),
        ),
    ensures
        list_or_bold_rule(s, c, k8, STAR) == Ok::<(Node, Cursor), ParseError>(
            (Node::List(Box::new(items), k8), ce),
        ),
{
}

proof fn lemma_stair_split(ws: Seq<Seq<u8>>, k: nat)
    requires
        k < ws.len(),
    ensures
        stair(ws, k) == item_line(k, ws[k as int]) + stair(ws, k + 1),
{
}

/// The items from the `k`-th on, standing at `p`, parse to `stair_list(ws, k)`,
/// and parsing ends at the end of the input.
proof fn lemma_stair(s: Seq<u8>, p: int, ws: Seq<Seq<u8>>, k: nat, d: Seq<char>)
    requires
        0 <= p <= s.len(),
        k < ws.len() <= 255,
        forall|j: int| 0 <= j < ws.len() ==> is_word(#[trigger] ws[j]),
        s.subrange(p, s.len() as int) == stair(ws, k),
    ensures
        list_or_bold_rule(s, Cursor { pos: p, doc: d }, k as u8, STAR) == Ok::<(Node, Cursor), ParseError>(
            (stair_list(ws, k), Cursor { pos: s.len() as int, doc: d }),
        ),
    decreases ws.len() - k,
{
    let w = ws[k as int];
    assert(is_word(w));
    let line = item_line(k, w);
    lemma_stair_split(ws, k);
    let q = p + line.len();
    let rest = stair(ws, k + 1);
    assert(stair(ws, k).len() == line.len() + rest.len());
    assert(q <= s.len());
    assert(s.subrange(p, q) =~= line) by {
        assert forall|i: int| 0 <= i < line.len() implies s.subrange(p, q)[i] == line[i] by {
            assert(s[p + i] == s.subrange(p, s.len() as int)[i]);
        }
    }
    assert(s.subrange(q, s.len() as int) =~= rest) by {
        assert forall|i: int| 0 <= i < rest.len() implies s.subrange(q, s.len() as int)[i]
            == rest[i] by {
            assert(s[q + i] == s.subrange(p, s.len() as int)[line.len() + i]);
        }
    }
    let c = Cursor { pos: p, doc: d };
    let cq = Cursor { pos: q, doc: d };
    let ce = Cursor { pos: s.len() as int, doc: d };
    let n: int = 2 * k as int;
    let k8 = k as u8;
    assert(k8 * 2 == n);
    assert(line.len() == n + 2 + w.len() + 1);
    assert(s[p + n + 1] == line[n + 1]);
    assert(s[p + n] == line[n]);
    let item = Node::ListItem(
        Box::new(cat_node(Node::Empty, Node::Literal(decode_utf8(w)))),
        k8,
    );
    if k + 1 < ws.len() {
        let next = item_line(k + 1, ws[(k + 1) as int]);
        lemma_stair_split(ws, k + 1);
        assert forall|i: int| 0 <= i < 2 * k + 2 implies #[trigger] s[q + i] == SPACE by {
            assert(s[q + i] == rest[i]);
            assert(rest[i] == next[i]);
        }
        assert(s[q + n + 2] == rest[n + 2]);
        assert(rest[n + 2] == next[n + 2]);
        assert(s[q + n + 3] == rest[n + 3]);
        assert(rest[n + 3] == next[n + 3]);
        assert(s[q + n] == SPACE);
        lemma_item(s, p, k, w, d);
        lemma_stair(s, q, ws, k + 1, d);
        assert(((k8 + 1) as u8) == (k + 1) as u8);
        lemma_items_nested(s, cq, k8, cat_node(Node::Empty, item), stair_list(ws, k + 1), ce);
        lemma_items_first(
            s,
            c,
            k8,
            item,
            cq,
            (cat_node(cat_node(Node::Empty, item), stair_list(ws, k + 1)), ce),
        );
        lemma_list_of_items(s, c, k8, cat_node(cat_node(Node::Empty, item), stair_list(ws, k + 1)), ce);
    } else {
        assert(rest.len() == 0);
        lemma_item(s, p, k, w, d);
        lemma_items_at_end(s, ce, k8, cat_node(Node::Empty, item));
        lemma_items_first(s, c, k8, item, cq, (cat_node(Node::Empty, item), ce));
        lemma_list_of_items(s, c, k8, cat_node(Node::Empty, item), ce);
    }
}

proof fn lemma_top_loop(s: Seq<u8>, c0: Cursor, l: Node, ce: Cursor)
    requires
        c0.pos == 0,
        0 < s.len(),
        ce.pos == s.len(),
        complete_item_rule(s, c0, Seq::empty()) == Ok::<(Node, Cursor), ParseError>((l, ce)),
    ensures
        complete_until_rule(s, c0, Seq::empty()) == Ok::<(Node, Cursor), ParseError>((l, ce)),
{
    assert(!Seq::<u8>::empty().contains(s[0]));
    assert(complete_loop_rule(s, ce, Seq::empty(), join(Node::Empty, l)) == Ok::<
        (Node, Cursor),
        ParseError,
    >((l, ce)));
}

/// Items on consecutive lines, each indented one list level (two spaces) deeper
/// than the one before, parse to lists nested one inside the other: the item on
/// the line with `2 * k` spaces of indentation lies in a list of level `k`.
pub proof fn lemma_indented_items_nest(ws: Seq<Seq<u8>>)
    requires
        1 <= ws.len() <= 255,
        forall|j: int| 0 <= j < ws.len() ==> is_word(#[trigger] ws[j]),
    ensures
        parse_rule(stair(ws, 0)) == Ok::<Node, ParseError>(
            Node::Document(DocType::DEFAULT, Box::new(stair_list(ws, 0))),
        ),
{
    let s = stair(ws, 0);
    lemma_stair_split(ws, 0);
    let line = item_line(0, ws[0]);
    assert(line.len() > 0);
    assert(s[0] == line[0]);
    assert(indent(0).len() == 0);
    assert(line[0] == STAR);
    let c0 = Cursor { pos: 0, doc: Seq::empty() };
    let ce = Cursor { pos: s.len() as int, doc: Seq::empty() };
    assert(s.subrange(0, s.len() as int) =~= s);
    lemma_stair(s, 0, ws, 0, Seq::empty());
    assert(byte_at(s, 0) == STAR);
    assert(complete_item_rule(s, c0, Seq::empty()) == list_or_bold_rule(s, c0, 0, STAR));
    lemma_top_loop(s, c0, stair_list(ws, 0), ce);
}

} // verus!
