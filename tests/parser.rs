use mato::parser::{doc_type_of, parse, ParseError, Parser};
use mato::syntax::DocType;

fn parse_to_ast(s: &str) -> String {
    format!("{:?}", Parser::parse(s).unwrap())
}

#[test]
fn parser_construction() {
    let parser = Parser::new("\"quoted\"");
    assert_eq!(
        format!("{:?}", parser),
        "Parser { input: [34, 113, 117, 111, 116, 101, 100, 34], input_len: 8, current_position: 0, current_line: 1, current_char: 34, doc_type: \"\" }"
    );
}

#[test]
fn parser_expression() {
    assert_eq!(
        parse_to_ast("\"quoted\""),
        "Document(DEFAULT, Quote(Literal(\"quoted\")))"
    );
}

#[test]
fn parser_ampersand() {
    assert_eq!(parse_to_ast("&"), "Document(DEFAULT, EscapeLit(\"&\"))");
}

#[test]
fn parser_dot() {
    assert_eq!(parse_to_ast("."), "Document(DEFAULT, EscapeLit(\".\"))");
}

// The italic run opened inside the bold run is never closed: parsing fails
// where the closing `_` is required, at the end of the input.
#[test]
fn wrong_nesting() {
    assert_eq!(Parser::parse("*this is _wrong* nesting_").unwrap_err(), ParseError::UnexpectedByte { line: 1, position: 25, expected: b'_' });
}

#[test]
fn empty_input_is_an_empty_document() {
    assert_eq!(parse_to_ast(""), "Document(DEFAULT, Empty)");
}

#[test]
fn doctype_is_taken_from_meta_data() {
    assert_eq!(
        parse_to_ast("---\ndoctype: chapter\ntitle: T\n---\nx"),
        "Document(CHAPTER, Cat(MetaDataBlock(Cat(Cat(Empty, Empty), MetaDataItem(\"title\", \"T\"))), Literal(\"x\")))"
    );
}

#[test]
fn list_nesting_follows_indentation() {
    assert_eq!(
        parse_to_ast("* a\n  * b\n    * c\n"),
        "Document(DEFAULT, List(Cat(Cat(Empty, ListItem(Cat(Empty, Literal(\"a\")), 0)), List(Cat(Cat(Empty, ListItem(Cat(Empty, Literal(\"b\")), 1)), List(Cat(Empty, ListItem(Cat(Empty, Literal(\"c\")), 2)), 2)), 1)), 0))"
    );
}

#[test]
fn heading_anchor_name() {
    assert_eq!(
        parse_to_ast("# Title /intro/"),
        "Document(DEFAULT, Heading(Literal(\"Title \"), 0, \"intro\"))"
    );
}

#[test]
fn internal_link() {
    assert_eq!(
        parse_to_ast("[see](#intro)"),
        "Document(DEFAULT, DocRef(\"intro\", Literal(\"see\")))"
    );
}

#[test]
fn drop_cap_at_line_start() {
    assert_eq!(parse_to_ast("%%W"), "Document(DEFAULT, DropCap('W', 3))");
    assert_eq!(parse_to_ast("a%b"), "Document(DEFAULT, Literal(\"a%b\"))");
    assert_eq!(
        parse_to_ast("a\n%b"),
        "Document(DEFAULT, Cat(Cat(Literal(\"a\"), LineBreak), DropCap('b', 2)))"
    );
}

#[test]
fn image_with_default_size() {
    assert_eq!(
        parse_to_ast("![cap](pic.png)"),
        "Document(DEFAULT, Image(Literal(\"cap\"), Literal(\"pic.png\"), ImageSizeSpec(Literal(\"100\"), Literal(\"100\"))))"
    );
}

#[test]
fn image_with_size() {
    assert_eq!(
        parse_to_ast("![cap|20x30](p)"),
        "Document(DEFAULT, Image(Literal(\"cap\"), Literal(\"p\"), ImageSizeSpec(Literal(\"20\"), Literal(\"30\"))))"
    );
}

#[test]
fn pass_through_and_lone_slash() {
    assert_eq!(parse_to_ast("//.bp"), "Document(DEFAULT, Literal(\".bp\"))");
    assert_eq!(
        parse_to_ast("/b"),
        "Document(DEFAULT, Cat(Literal(\"/\"), Literal(\"b\")))"
    );
}

#[test]
fn unclosed_quote_reports_line_and_position() {
    assert_eq!(parse("a\n\"b").unwrap_err(), ParseError::UnexpectedByte { line: 2, position: 4, expected: b'"' });
}

#[test]
fn markup_byte_inside_link_text_is_an_error() {
    assert_eq!(parse("[a#b](u)").unwrap_err(), ParseError::NoProgress { line: 1, position: 2 });
}

#[test]
fn drop_cap_of_a_multibyte_character() {
    assert_eq!(
        parse_to_ast("%\u{e9}x"),
        "Document(DEFAULT, Cat(DropCap('\u{e9}', 2), Literal(\"x\")))"
    );
}

#[test]
fn doc_type_names() {
    assert_eq!(doc_type_of(&"SLIDES".to_string()), DocType::SLIDES);
    assert_eq!(doc_type_of(&"LETTER".to_string()), DocType::LETTER);
    assert_eq!(doc_type_of(&"slides".to_string()), DocType::DEFAULT);
    assert_eq!(parse_to_ast("---\ndoctype: Letter\n---\n"), "Document(LETTER, MetaDataBlock(Cat(Empty, Empty)))");
}
