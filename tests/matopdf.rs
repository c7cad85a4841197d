use mato::config::Config;
use mato::create_default_chain;
use mato::render::groff::mom;
use mato::transform;

fn matogro(input: &str) -> String {
    let mut config = Config::default();
    config.skip_preamble = true;
    let mut chain = create_default_chain(&config, true);
    let mut render = mom::new(&config);
    transform(&mut render, &mut chain, input).unwrap()
}

#[test]
fn matopdf_literal() {
    assert_eq!(matogro("hallo"), ".DOCTYPE DEFAULT\n.START\nhallo");
}

#[test]
fn matopdf_italic() {
    assert_eq!(matogro("_hallo_"), ".DOCTYPE DEFAULT\n.START\n\\*[IT]hallo\\*[ROM]");
}

#[test]
fn matopdf_bold() {
    assert_eq!(matogro("*hallo*"), ".DOCTYPE DEFAULT\n.START\n\\*[BD]hallo\\*[ROM]");
}

#[test]
fn matopdf_complex_code() {
    assert_eq!(
        matogro("`    -P /opt/homebrew/Cellar/groff/1.22.4_1/share/groff/`"),
        ".DOCTYPE DEFAULT\n.START\n\\*[CODE]    -P /opt/homebrew/Cellar/groff/1.22.4_1/share/groff/\\*[CODE OFF]"
    );
}

#[test]
fn matopdf_link() {
    assert_eq!(
        matogro("some text [link text](http://example.com)"),
        ".DOCTYPE DEFAULT\n.START\nsome text \\c\n.PDF_WWW_LINK http://example.com \"link text\"\\c\n"
    );
}

#[test]
fn matopdf_not_link() {
    assert_eq!(
        matogro("some text [link text]"),
        ".DOCTYPE DEFAULT\n.START\nsome text [link text]"
    );
}

#[test]
fn matopdf_heading_and_subheading() {
    assert_eq!(
        matogro("# heading\n\n## subheading"),
        ".DOCTYPE DEFAULT\n.START\n.FT B\n.EW 2\n.HEADING 1 \"heading\"\n.EW 0\n.FT R\n.DRH\n.FT B\n.EW 2\n.HEADING 2 \"subheading\"\n.EW 0\n.FT R"
    );
}

#[test]
fn matopdf_heading_and_paragraph() {
    assert_eq!(
        matogro("# heading\n\nA new paragraph"),
        ".DOCTYPE DEFAULT\n.START\n.FT B\n.EW 2\n.HEADING 1 \"heading\"\n.EW 0\n.FT R\n.DRH\n.SP 1v\n.PP\nA new paragraph"
    );
}

#[test]
fn matopdf_paragraph_and_heading() {
    assert_eq!(
        matogro("A new paragraph\n\n# heading"),
        ".DOCTYPE DEFAULT\n.START\nA new paragraph\n.FT B\n.EW 2\n.HEADING 1 \"heading\"\n.EW 0\n.FT R\n.DRH"
    );
}

#[test]
fn matopdf_code_block() {
    assert_eq!(
        matogro("```\nPP\n```\n"),
        ".DOCTYPE DEFAULT\n.START\n.QUOTE_STYLE INDENT 1\n.QUOTE\n.CODE\nPP\n.QUOTE OFF\n"
    );
}

#[test]
fn matopdf_code_escape_literal() {
    assert_eq!(
        matogro("`.PP`"),
        ".DOCTYPE DEFAULT\n.START\n\\*[CODE]\\&.PP\\*[CODE OFF]"
    );
}

#[test]
fn matopdf_chapter_mark() {
    assert_eq!(
        matogro(">>(c)\n"),
        ".DOCTYPE DEFAULT\n.START\n.MN RIGHT\n.PT_SIZE +48\nc\n.MN OFF"
    );
}

#[test]
fn matopdf_not_chapter_mark() {
    assert_eq!(matogro(">>c"), ".DOCTYPE DEFAULT\n.START\n>>c");
}

#[test]
fn matopdf_right_side_note() {
    assert_eq!(
        matogro(">(side)\n"),
        ".DOCTYPE DEFAULT\n.START\n\n.MN RIGHT\n.PT_SIZE -2\nside\n.MN OFF\n\n"
    );
}

#[test]
fn matopdf_not_right_side_note() {
    assert_eq!(matogro(">side"), ".DOCTYPE DEFAULT\n.START\n>side");
}

#[test]
fn matopdf_foot_note() {
    assert_eq!(
        matogro("^(side)\n"),
        ".DOCTYPE DEFAULT\n.START\n\\c\n.FOOTNOTE\nside\n.FOOTNOTE END\n\n"
    );
}

#[test]
fn matopdf_list_1() {
    assert_eq!(
        matogro("* list item\n"),
        ".DOCTYPE DEFAULT\n.START\n.LIST\n.SHIFT_LIST 18p\n.ITEM\nlist item\n.LIST OFF\n"
    );
}

#[test]
fn matopdf_list_2() {
    assert_eq!(
        matogro("* list item 1\n* list item 2\n"),
        ".DOCTYPE DEFAULT\n.START\n.LIST\n.SHIFT_LIST 18p\n.ITEM\nlist item 1\n.ITEM\nlist item 2\n.LIST OFF\n"
    );
}

#[test]
fn matopdf_nested_list() {
    assert_eq!(
        matogro("* list item 1\n  * list item 2\n"),
        ".DOCTYPE DEFAULT\n.START\n.LIST\n.SHIFT_LIST 18p\n.ITEM\nlist item 1\n.LIST\n.SHIFT_LIST 18p\n.ITEM\nlist item 2\n.LIST OFF\n.LIST OFF\n"
    );
}

#[test]
fn matopdf_list_1_multiline_item() {
    assert_eq!(
        matogro("* list item\n  which continues on next line\n"),
        ".DOCTYPE DEFAULT\n.START\n.LIST\n.SHIFT_LIST 18p\n.ITEM\nlist item\nwhich continues on next line\n.LIST OFF\n"
    );
}
