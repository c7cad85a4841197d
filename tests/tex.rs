use mato::process::identity;
use mato::render::tex;
use mato::transform;

fn to_tex(input: &str) -> String {
    transform(&mut tex::new(), &mut identity::new(), input).unwrap()
}

#[test]
fn matote_literal() {
    assert_eq!(to_tex("hallo"), "hallo");
}

#[test]
fn matote_italic() {
    assert_eq!(to_tex("_hallo_"), "\\textit{hallo}");
}

#[test]
fn matote_bold() {
    assert_eq!(to_tex("*hallo*"), "\\textbf{hallo}");
}

#[test]
fn main_literal() {
    assert_eq!(to_tex("hallo"), "hallo");
}

#[test]
fn main_italic() {
    assert_eq!(to_tex("_hallo_"), "\\textit{hallo}");
}

#[test]
fn main_bold() {
    assert_eq!(to_tex("*hallo*"), "\\textbf{hallo}");
}

#[test]
fn heading() {
    assert_eq!(to_tex("# heading\n"), "\\section{heading}\n");
}

#[test]
fn heading_without_newline() {
    assert_eq!(to_tex("# 1"), "\\section{1}");
}

#[test]
fn quote() {
    assert_eq!(to_tex("\"input\""), "\"`input\"'");
}

#[test]
fn bold_and_italic() {
    assert_eq!(to_tex("*_text_*"), "\\textbf{\\textit{text}}");
}

#[test]
fn bold_and_italic_but_with_outer_chars() {
    assert_eq!(
        to_tex("*fett _kursiv_ wieder fett*"),
        "\\textbf{fett \\textit{kursiv} wieder fett}"
    );
}

#[test]
fn footnote() {
    assert_eq!(to_tex("input^(footnote)"), "input~\\footnote{footnote}");
}

#[test]
fn teletype() {
    assert_eq!(to_tex("`input`"), "\\texttt{input}");
}

#[test]
fn ampersand_is_escaped() {
    assert_eq!(to_tex("&"), "\\&");
}

#[test]
fn tex_link_and_subsection() {
    assert_eq!(to_tex("[t](u)"), "\\href{u}{t}");
    assert_eq!(to_tex("## s"), "\\subsection{s}");
}
