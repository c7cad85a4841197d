use mato::config::Config;
use mato::parser::Parser;
use mato::process::code_block::{pic_sources, with_fragments};
use mato::process::image_converter;
use mato::process::Process;
use mato::{create_default_chain, replace_file_extension};

#[test]
fn relative_image_paths_are_resolved() {
    let mut config = Config::default();
    config.source_file = "/docs/a.md".to_string();
    assert!(config.establish_parent_dir().is_ok());
    assert_eq!(config.parent_dir, "/docs");
    let mut images = image_converter::new(&config);
    let tree = images.process(Parser::parse("![c](p.png) ![d](/abs.png)").unwrap());
    let text = format!("{:?}", tree);
    assert!(text.contains("Literal(\"/docs/p.png\")"), "{}", text);
    assert!(text.contains("Literal(\"/abs.png\")"), "{}", text);
}

#[test]
fn empty_source_has_no_parent() {
    let mut config = Config::default();
    assert!(config.establish_parent_dir().is_err());
}

#[test]
fn target_file_takes_the_extension() {
    let mut config = Config::default();
    config.source_file = "dir/doc.md".to_string();
    assert_eq!(config.target_file("pdf"), "dir/doc.pdf");
    config.set_target_file("groff");
    assert_eq!(config.target_file, "dir/doc.groff");
    assert_eq!(replace_file_extension("x.md", "tex"), "x.tex");
}

#[test]
fn pic_blocks_are_listed_and_replaced() {
    let tree = Parser::parse("```pic\nbox\n```\n```\nplain\n```\n").unwrap();
    assert_eq!(pic_sources(&tree), vec![".PS\nbox\n\n.PE\n".to_string()]);
    let mut p = with_fragments(vec!["RENDERED".to_string()]);
    let text = format!("{:?}", p.process(tree));
    assert!(text.contains("Literal(\"RENDERED\")"), "{}", text);
    assert!(text.contains("CodeBlock(Empty, PreformattedLiteral(\"plain\\n\"))"), "{}", text);
}

#[test]
fn default_chain_keeps_code_blocks_without_fragments() {
    let config = Config::default();
    let mut chain = create_default_chain(&config, false);
    let tree = chain.process(Parser::parse("```pic\nbox\n```\n").unwrap());
    assert!(format!("{:?}", tree).contains("CodeBlock(Literal(\"pic\")"));
}

#[test]
fn nested_pic_blocks_and_images_are_reached() {
    let tree = Parser::parse("^(```pic\nbox\n```\n)").unwrap();
    assert_eq!(pic_sources(&tree), vec![".PS\nbox\n\n.PE\n".to_string()]);
    let mut p = with_fragments(vec!["R".to_string()]);
    assert!(format!("{:?}", p.process(tree)).contains("Footnote(Cat(Literal(\"R\")"));
    let mut config = Config::default();
    config.parent_dir = "/d".to_string();
    let mut images = image_converter::new(&config);
    let tree = images.process(Parser::parse("* ![c](p.png)\n").unwrap());
    assert!(format!("{:?}", tree).contains("Literal(\"/d/p.png\")"));
}

#[test]
fn join_follows_path_rules() {
    let mut config = Config::default();
    config.parent_dir = "/d/".to_string();
    let mut images = image_converter::new(&config);
    let tree = images.process(Parser::parse("![c](p.png)").unwrap());
    assert!(format!("{:?}", tree).contains("Literal(\"/d/p.png\")"));
    config.parent_dir = String::new();
    let mut images = image_converter::new(&config);
    let tree = images.process(Parser::parse("![c](p.png)").unwrap());
    assert!(format!("{:?}", tree).contains("Literal(\"p.png\")"));
}
