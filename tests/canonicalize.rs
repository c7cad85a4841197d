use mato::process::canonicalize::{
    self, prelit_escape_groff_symbols, replace_old_style_figures, replace_small_caps,
};
use mato::process::Process;
use mato::syntax::{bold, cat, empty, lit, prelit, Tree};

fn canon(t: Tree) -> String {
    format!("{:?}", canonicalize::new(false).process(t))
}

#[test]
fn empty_before_node_is_dropped() {
    let x = bold(lit("a")).cat(lit("b"));
    let y = bold(lit("a")).cat(lit("b"));
    assert_eq!(canon(cat(empty(), x)), canon(y));
}

#[test]
fn directly_nested_styles_merge() {
    let t = bold(Tree::Italic(Box::new(lit("x"))));
    assert_eq!(canon(t), "BoldItalic(Literal(\"x\"))");
    let t = Tree::Italic(Box::new(bold(lit("x"))));
    assert_eq!(canon(t), "BoldItalic(Literal(\"x\"))");
}

#[test]
fn distant_styles_merge() {
    let t = bold(lit("a").cat(Tree::Italic(Box::new(lit("b")))));
    assert_eq!(canon(t), "Bold(Cat(Literal(\"a\"), BoldItalic(Literal(\"b\"))))");
}

#[test]
fn small_caps_letters() {
    assert_eq!(replace_small_caps("a1".to_string()), "\\[a.sc]1");
}

#[test]
fn old_style_digits() {
    assert_eq!(replace_old_style_figures("x09".to_string()), "x\\[zero.oldstyle]\\[nine.oldstyle]");
}

#[test]
fn preformatted_escapes() {
    assert_eq!(prelit_escape_groff_symbols("a\\b^c\n.d".to_string()), "a\\\\b\\[ha]c\n\\&.d");
    assert_eq!(canon(prelit(".x\n.y")), "PreformattedLiteral(\"\\\\&.x\\n\\\\&.y\")");
}

#[test]
fn empties_leave_every_sequence() {
    let t = Tree::Document(mato::syntax::DocType::DEFAULT, Box::new(cat(Tree::Paragraph(), empty())));
    assert_eq!(canon(t), "Document(DEFAULT, Paragraph)");
    let t = Tree::List(Box::new(cat(empty(), cat(lit("a"), empty()))), 0);
    assert_eq!(canon(t), "List(Literal(\"a\"), 0)");
}

#[test]
fn styles_merge_inside_quotes() {
    let t = Tree::Quote(Box::new(bold(Tree::Italic(Box::new(lit("x"))))));
    assert_eq!(canon(t), "Quote(BoldItalic(Literal(\"x\")))");
}

#[test]
fn heading_digits_stay() {
    let t = Tree::Heading(Box::new(lit("1 a1")), 0, String::new());
    assert_eq!(format!("{:?}", canonicalize::new(true).process(t)), "Heading(Literal(\"1 a1\"), 0, \"\")");
}

#[test]
fn wrappers_of_nothing_are_dropped() {
    let t = Tree::Document(mato::syntax::DocType::DEFAULT, Box::new(Tree::Quote(Box::new(empty()))));
    assert_eq!(canon(t), "Document(DEFAULT, Empty)");
    let t = cat(lit("a"), Tree::Footnote(Box::new(cat(empty(), empty()))));
    assert_eq!(canon(t), "Literal(\"a\")");
    let t = Tree::CodeBlock(Box::new(empty()), Box::new(prelit("x")));
    assert_eq!(canon(t), "CodeBlock(Literal(\"\"), PreformattedLiteral(\"x\"))");
}
