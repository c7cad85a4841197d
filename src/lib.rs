//! A document compiler for a lightweight markup language: a parser into a
//! syntax tree, a pipeline of tree rewrites, and renderers for several
//! typesetting back ends.
pub mod config;
pub mod nesting;
pub mod opts;
pub mod parser;
pub mod paths;
pub mod process;
pub mod render;
pub mod round_trip;
pub mod syntax;
pub mod text;
pub mod watch;
pub mod wezterm_cli;

use crate::config::Config;
use crate::opts::{lookup, text_entries, ParserResult};
use crate::parser::{parse_rule, ParseError, Parser};
use crate::paths::{has_component, no_separator, parent_of, path_parent, set_extension, with_extension};
use crate::process::canonicalize::Canonicalizer;
use crate::process::chain::Chain;
use crate::process::code_block::CodeBlockProcessor;
use crate::process::image_converter::ImageConverter;
use crate::process::{canonicalize, chain, code_block, image_converter, Process};
use crate::render::Render;
use vstd::prelude::*;
use vstd::string::StringSliceAdditionalSpecFns;

verus! {

/// The log level that the flags ask for: 1 verbose, 2 debug, 3 trace, else 0;
/// the first of them that was given counts.
pub fn establish_log_level(parsed_opts: &ParserResult) -> (r: u8)
    ensures
        r == if lookup(text_entries(parsed_opts.opts@), "verbose"@) is Some {
            1u8
        } else if lookup(text_entries(parsed_opts.opts@), "debug"@) is Some {
            2u8
        } else if lookup(text_entries(parsed_opts.opts@), "trace"@) is Some {
            3u8
        } else {
            0u8
        },
{
    if parsed_opts.get_flag("verbose") {
        1
    } else if parsed_opts.get_flag("debug") {
        2
    } else if parsed_opts.get_flag("trace") {
        3
    } else {
        0
    }
}

/// The processors that run on every document: canonicalization, image paths, diagrams.
pub type DefaultChain = Chain<Chain<Canonicalizer, ImageConverter>, CodeBlockProcessor>;

/// The default pipeline for `config`; `replace_numerals` selects old style figures.
pub fn create_default_chain(config: &Config, replace_numerals: bool) -> (r: DefaultChain)
    ensures
        r.a.a.replace_numerals == replace_numerals,
        r.a.b.parent_dir@ == config.parent_dir@,
        r.b.fragments@.len() == 0,
{
    chain::new(canonicalize::new(replace_numerals), image_converter::new(config)).append(
        code_block::new(),
    )
}

/// Why a document could not be compiled.
#[derive(Debug, Clone, Copy, PartialEq, Eq, Structural)]
pub enum TransformError {
    /// The input is not well formed.
    Parse(ParseError),
    /// The tree holds a kind of node that the back end has no form for.
    Unsupported,
}

/// Parses `input`, runs `p` on the tree and renders the result with `r`.
pub fn transform<R: Render, P: Process>(r: &mut R, p: &mut P, input: &str) -> (res: Result<
    String,
    TransformError,
>)
    requires
        input.spec_bytes().len() < usize::MAX,
    ensures
        match parse_rule(input.spec_bytes()) {
            Ok(t) => if old(r).accepts(old(p).rewrite(t)) {
                res matches Ok(s) && s@ == old(r).output(old(p).rewrite(t)) && *final(r)
                    == old(r).after(old(p).rewrite(t))
            } else {
                res == Err::<String, TransformError>(TransformError::Unsupported)
            },
            Err(e) => res == Err::<String, TransformError>(TransformError::Parse(e)),
        },
{
    let tree = match Parser::parse(input) {
        Ok(t) => t,
        Err(e) => return Err(TransformError::Parse(e)),
    };
    let tree = p.process(tree);
    if !r.can_render(&tree) {
        return Err(TransformError::Unsupported);
    }
    Ok(r.render(tree))
}

/// The directory part of a file name, if it has one.
pub fn parent_dir(file_name: &str) -> (r: Option<String>)
    ensures
        r matches Some(d) ==> d@ == parent_of(file_name@),
        file_name@.len() == 0 ==> r is None,
        has_component(file_name@) ==> r is Some,
{
    path_parent(file_name)
}

/// The file name with its extension replaced by `extension`.
pub fn replace_file_extension(file_name: &str, extension: &str) -> (r: String)
    requires
        no_separator(extension@),
    ensures
        r@ == with_extension(file_name@, extension@),
{
    set_extension(file_name, extension)
}

} // verus!
