use mato::config::Config;
use mato::create_default_chain;
use mato::render::groff::mom;
use mato::transform;

const HEADER: &str = ".DOCTYPE DEFAULT\n.START\n";

fn body(input: &str) -> String {
    let mut config = Config::default();
    config.skip_preamble = true;
    let mut chain = create_default_chain(&config, false);
    let mut render = mom::new(&config);
    let out = transform(&mut render, &mut chain, input).unwrap();
    assert!(out.starts_with(HEADER));
    out[HEADER.len()..].to_string()
}

#[test]
fn plain_text_passes_through() {
    assert_eq!(body("hallo"), "hallo");
}

#[test]
fn underscores_make_italic() {
    assert_eq!(body("_hallo_"), "\\*[IT]hallo\\*[ROM]");
}

#[test]
fn stars_make_bold() {
    assert_eq!(body("*hallo*"), "\\*[BD]hallo\\*[ROM]");
}

#[test]
fn web_link() {
    assert_eq!(
        body("some text [link text](http://example.com)"),
        "some text \\c\n.PDF_WWW_LINK http://example.com \"link text\"\\c\n"
    );
}

#[test]
fn code_block_is_quoted() {
    assert_eq!(
        body("```\nPP\n```\n"),
        ".QUOTE_STYLE INDENT 1\n.QUOTE\n.CODE\nPP\n.QUOTE OFF\n"
    );
}

#[test]
fn single_list_item() {
    assert_eq!(
        body("* list item\n"),
        ".LIST\n.SHIFT_LIST 18p\n.ITEM\nlist item\n.LIST OFF\n"
    );
}

#[test]
fn heading_then_subheading() {
    assert!(body("# heading\n\n## subheading").starts_with(
        ".FT B\n.EW 2\n.HEADING 1 \"heading\"\n.EW 0\n.FT R\n.DRH\n.FT B\n.EW 2\n.HEADING 2 \"subheading\"\n.EW 0\n.FT R"
    ));
}

#[test]
fn bold_inside_italic_is_bold_italic() {
    assert_eq!(body("_a *b* c_"), "\\*[IT]a \\*[BDI]b\\*[IT] c\\*[ROM]");
}

#[test]
fn deeper_heading_and_anchor() {
    assert_eq!(body("### x /n/"), ".EW 2\n.HEADING 3 NAMED n \"x \"\n.EW 0");
    assert_eq!(body("#### m"), ".SPACE -1v\n.MN LEFT\n\\!.ALD 1v\nm\n.MN OFF");
}

#[test]
fn meta_data_renders_in_place() {
    assert_eq!(body("---\npdf title: T\n---\n"), ".PDF_TITLE T\n");
}

#[test]
fn chapter_headings_collate() {
    let mut config = Config::default();
    config.skip_preamble = true;
    let mut chain = create_default_chain(&config, false);
    let mut render = mom::new(&config);
    let out = transform(&mut render, &mut chain, "---\ndoctype: chapter\n---\n# One\n# Two").unwrap();
    assert!(out.contains(".CHAPTER_TITLE \"One\"\n.START\n"));
    assert!(out.contains(".COLLATE\n.CHAPTER_TITLE \"Two\"\n.START\n"));
}

#[test]
fn slides_start_then_new_slide() {
    let mut config = Config::default();
    config.skip_preamble = true;
    let mut chain = create_default_chain(&config, false);
    let mut render = mom::new(&config);
    let out = transform(&mut render, &mut chain, "---\ndoctype: slides\n---\n# A\n# B").unwrap();
    assert!(out.contains(".START\n.HEADING 1 \"A\"\n"));
    assert!(out.contains(".NEWSLIDE\n.HEADING 1 \"B\"\n"));
}

#[test]
fn preamble_follows_doctype() {
    let mut config = Config::default();
    config.preamble = ".PREAMBLE_LINE".to_string();
    let mut chain = create_default_chain(&config, false);
    let mut render = mom::new(&config);
    let out = transform(&mut render, &mut chain, "x").unwrap();
    assert_eq!(out, ".DOCTYPE DEFAULT\n.PREAMBLE_LINE\n.START\nx");
}

#[test]
fn drop_cap_directive() {
    assert_eq!(body("%W"), "\n.DROPCAP W 2\n");
}

#[test]
fn old_style_figures_when_asked() {
    let mut config = Config::default();
    config.skip_preamble = true;
    let mut chain = create_default_chain(&config, true);
    let mut render = mom::new(&config);
    let out = transform(&mut render, &mut chain, "a1").unwrap();
    assert_eq!(out, ".DOCTYPE DEFAULT\n.START\na\\[one.oldstyle]");
}
