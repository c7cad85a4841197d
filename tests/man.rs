use mato::process::identity;
use mato::render::groff::{man, mandoc};
use mato::transform;

#[test]
fn man_title_and_sections() {
    let out = transform(&mut man::new(), &mut identity::new(), "# tool\n## NAME\ntool - does").unwrap();
    assert_eq!(out, ".TH tool\n.\n.SH NAME\ntool - does");
}

#[test]
fn man_synopsis_lines() {
    let out = transform(
        &mut man::new(),
        &mut identity::new(),
        "## Synopsis\n`tool -a`\n`tool -b`\n## DESCRIPTION\n",
    )
    .unwrap();
    assert_eq!(
        out,
        ".\n.SH Synopsis\n.SY tool -a\n\n.YS\n.SY tool -b\n\n.YS\n.\n.SH DESCRIPTION\n"
    );
}

#[test]
fn mandoc_title_section() {
    let out = transform(&mut mandoc::new(), &mut identity::new(), "# tool\n## does things\n").unwrap();
    assert_eq!(
        out,
        ".Dd $Mdocdate$\n.Dt TOOL 7\n.Os\n.Sh Title\n.Nm tool\n.Nd does things\n"
    );
}

#[test]
fn man_refuses_nodes_without_a_form() {
    let r = transform(&mut man::new(), &mut identity::new(), "\"quoted\"");
    assert_eq!(r, Err(mato::TransformError::Unsupported));
    let r = transform(&mut mandoc::new(), &mut identity::new(), "[l](u)");
    assert_eq!(r, Err(mato::TransformError::Unsupported));
}
