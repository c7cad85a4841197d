use mato::process::identity;
use mato::render::markdown::Renderer;
use mato::transform;

fn matofmt(input: &str) -> String {
    transform(&mut Renderer::new(), &mut identity::new(), input).unwrap()
}

#[test]
fn matofmt_literal() {
    assert_eq!(matofmt("hallo"), "hallo");
}

#[test]
fn round_trip_is_stable_on_a_corpus() {
    let corpus = [
        "hallo",
        "*bold* and _italic_",
        "# heading",
        "## sub heading\n\ntext after",
        "* a\n* b\n",
        "* a\n  * b\n",
        "some words, and `code` and \"quoted\" text",
        "[link](http://example.com) after",
    ];
    for input in corpus.iter() {
        let once = matofmt(input);
        let twice = matofmt(&once);
        assert_eq!(once, twice, "input {:?}", input);
    }
}

#[test]
fn markup_is_written_back() {
    assert_eq!(matofmt("*bold* and _italic_"), "*bold* and _italic_");
    assert_eq!(matofmt("* a\n  * b\n"), "* a\n  * b\n");
    assert_eq!(matofmt("# t /n/"), "# t /n/");
}

#[test]
fn long_text_wraps_before_column_68() {
    let words = "word ".repeat(20);
    let out = matofmt(words.trim_end());
    for line in out.lines() {
        assert!(line.len() < 68, "{:?}", line);
    }
    assert_eq!(out.replace('\n', " "), words.trim_end());
}

#[test]
fn wrap_counts_columns_across_calls() {
    let mut r = Renderer::new();
    assert_eq!(r.wrap_at("abc def".to_string()), "abc def");
    assert_eq!(r.char_index, 8);
    let long = "x".repeat(70);
    assert_eq!(r.wrap_at(long.clone()), format!("\n{}", long));
    assert_eq!(r.char_index, 71);
}

#[test]
fn short_words_round_trip() {
    for w in ["a", "Word42", "ABCDEFGHIJKLMNOP"].iter() {
        assert_eq!(matofmt(w), *w);
        assert_eq!(matofmt(&matofmt(w)), *w);
    }
}

#[test]
fn styled_words_round_trip() {
    for w in ["*bold*", "_it_", "*B0ld*"].iter() {
        assert_eq!(matofmt(w), *w);
        assert_eq!(matofmt(&matofmt(w)), *w);
    }
}
