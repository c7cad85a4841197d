//! Settings of one compilation, as the command line gives them.
use crate::paths::{has_component, no_separator, parent_of, path_parent, set_extension, with_extension};
use vstd::prelude::*;

verus! {

/// The settings of one run.
#[derive(Debug, PartialEq, Eq, Clone)]
pub struct Config {
    /// the source file to process; empty for standard input
    pub source_file: String,
    pub target_file: String,
    /// the directory that holds the source file
    pub parent_dir: String,
    /// recompile whenever the source file changes
    pub watch: bool,
    /// print the generated typesetter input
    pub dump_groff: bool,
    pub dump_groff_file: bool,
    pub skip_rendering: bool,
    /// the language of the document
    pub lang: String,
    /// the preamble text put before the document body
    pub preamble: String,
    pub skip_preamble: bool,
}

impl Config {
    /// Empty settings: no files, all switches off.
    pub fn default() -> (r: Config)
        ensures
            r.source_file@.len() == 0,
            r.target_file@.len() == 0,
            r.parent_dir@.len() == 0,
            !r.watch,
            !r.dump_groff,
            !r.dump_groff_file,
            !r.skip_rendering,
            r.lang@.len() == 0,
            r.preamble@.len() == 0,
            !r.skip_preamble,
    {
        Config {
            source_file: String::new(),
            target_file: String::new(),
            parent_dir: String::new(),
            watch: false,
            dump_groff: false,
            dump_groff_file: false,
            skip_rendering: false,
            lang: String::new(),
            preamble: String::new(),
            skip_preamble: false,
        }
    }
}

/// The source file has no parent directory (it is empty, or a root).
#[derive(Debug, Clone, Copy, PartialEq, Eq, Structural)]
pub struct NoParentDir;

impl Config {
    /// Sets `parent_dir` to the directory that holds the source file.
    pub fn establish_parent_dir(&mut self) -> (r: Result<(), NoParentDir>)
        ensures
            r is Ok ==> final(self).parent_dir@ == parent_of(old(self).source_file@),
            r is Err ==> final(self).parent_dir@ == old(self).parent_dir@,
            old(self).source_file@.len() == 0 ==> r is Err,
            has_component(old(self).source_file@) ==> r is Ok,
            final(self).source_file@ == old(self).source_file@,
    {
        match path_parent(self.source_file.as_str()) {
            Some(d) => {
                self.parent_dir = d;
                Ok(())
            },
            None => Err(NoParentDir),
        }
    }

    /// The source file name with the extension `extension`.
    pub fn target_file(&self, extension: &str) -> (r: String)
        requires
            no_separator(extension@),
        ensures
            r@ == with_extension(self.source_file@, extension@),
    {
        set_extension(self.source_file.as_str(), extension)
    }

    /// Sets `target_file` to the source file name with the extension `extension`.
    pub fn set_target_file(&mut self, extension: &str)
        requires
            no_separator(extension@),
        ensures
            final(self).target_file@ == with_extension(old(self).source_file@, extension@),
            final(self).source_file@ == old(self).source_file@,
    {
        self.target_file = self.target_file(extension);
    }
}

} // verus!
