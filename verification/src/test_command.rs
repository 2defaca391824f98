//! The diagnostic placeholder subcommand: it only reports, so its whole
//! behaviour is the lines it emits.

use vstd::prelude::*;
use crate::cli::CommonOpts;
use crate::cli::mode_line_views;

verus! {

/// One invocation of the diagnostic subcommand.
pub struct TestCommand {
    pub list: bool,
    pub common: CommonOpts,
}

/// Everything a diagnostic run prints: the listing line when asked for, then
/// the mode lines.
pub open spec fn output_line_views(list: bool, common: CommonOpts) -> Seq<Seq<char>> {
    (if list {
        seq!["Listing test values..."@]
    } else {
        Seq::<Seq<char>>::empty()
    }) + mode_line_views(common)
}

impl TestCommand {
    pub fn new(list: bool, common: CommonOpts) -> (r: Self)
        ensures
            r.list == list,
            r.common == common,
    {
        Self { list, common }
    }

    /// The lines this run emits.
    pub fn output_lines(&self) -> (r: Vec<String>)
        ensures
            r@.map_values(|s: String| s@) == output_line_views(self.list, self.common),
    {
        let mut out: Vec<String> = Vec::new();
        if self.list {
            out.push(String::from_str("Listing test values..."));
        }
        let mut modes = self.common.mode_lines();
        let ghost before = out@;
        let ghost mode_views = modes@.map_values(|s: String| s@);
        out.append(&mut modes);
        proof {
            assert(out@.map_values(|s: String| s@) =~= before.map_values(|s: String| s@)
                + mode_views);
            assert(out@.map_values(|s: String| s@) =~= output_line_views(self.list, self.common));
        }
        out
    }
}

} // verus!
