//! The rename subcommand: what the user asked for, and the lines that
//! announce the enabled modes before processing starts.

use vstd::prelude::*;
use crate::cli::CommonOpts;
use crate::cli::mode_line_views;

verus! {

/// One invocation of the rename subcommand.
pub struct RenameCommand {
    pub recursive: bool,
    pub paths: Option<Vec<String>>,
    pub common: CommonOpts,
}

/// The lines that announce the enabled modes of a rename run, in reporting
/// order.
pub open spec fn info_line_views(recursive: bool, common: CommonOpts) -> Seq<Seq<char>> {
    (if common.dry_run {
        seq!["Dry-run mode enabled."@]
    } else {
        Seq::<Seq<char>>::empty()
    }) + (if recursive {
        seq!["Recursive mode enabled."@]
    } else {
        Seq::<Seq<char>>::empty()
    }) + (if common.verbose {
        seq!["Verbose mode enabled."@]
    } else {
        Seq::<Seq<char>>::empty()
    })
}

impl RenameCommand {
    pub fn new(recursive: bool, paths: Option<Vec<String>>, common: CommonOpts) -> (r: Self)
        ensures
            r.recursive == recursive,
            r.paths == paths,
            r.common == common,
    {
        Self { recursive, paths, common }
    }

    /// The lines that announce this run's enabled modes.
    pub fn info_lines(&self) -> (r: Vec<String>)
        ensures
            r@.map_values(|s: String| s@) == info_line_views(self.recursive, self.common),
    {
        let mut out: Vec<String> = Vec::new();
        if self.common.dry_run {
            out.push(String::from_str("Dry-run mode enabled."));
        }
        if self.recursive {
            out.push(String::from_str("Recursive mode enabled."));
        }
        if self.common.verbose {
            out.push(String::from_str("Verbose mode enabled."));
        }
        assert(out@.map_values(|s: String| s@) =~= info_line_views(self.recursive, self.common));
        out
    }
}

} // verus!
