//! The command-line surface: the options every subcommand shares, the
//! subcommands themselves, and a parser for the argument grammar
//! `rename [--recursive] [--verbose] [--dry-run] <paths...>` /
//! `test [--list]`.

use vstd::prelude::*;
use crate::text::str_eq;

verus! {

/// Options common to all subcommands.
#[derive(Clone, Copy, PartialEq, Eq, Structural, Debug)]
pub struct CommonOpts {
    /// Enable per-file report lines.
    pub verbose: bool,
    /// Compute and report plans without touching the filesystem.
    pub dry_run: bool,
}

/// Options of the project-directory cleanup that this tool reserves a flag
/// surface for but does not perform.
#[derive(Clone, Copy, PartialEq, Eq, Structural, Debug)]
pub struct ProjectOpts {
    pub csharp: bool,
    pub angular: bool,
}

/// A project kind that the reserved cleanup surface can name.
#[derive(Clone, Copy, PartialEq, Eq, Structural, Debug)]
pub enum ProjectType {
    CSharp,
    Rust,
    Angular,
    Node,
}

pub open spec fn project_type_name(t: ProjectType) -> Seq<char> {
    match t {
        ProjectType::CSharp => "csharp"@,
        ProjectType::Rust => "rust"@,
        ProjectType::Angular => "angular"@,
        ProjectType::Node => "node"@,
    }
}

impl ProjectType {
    /// The name this project kind goes by on the command line.
    pub fn name(&self) -> (r: String)
        ensures
            r@ == project_type_name(*self),
    {
        match self {
            ProjectType::CSharp => String::from_str("csharp"),
            ProjectType::Rust => String::from_str("rust"),
            ProjectType::Angular => String::from_str("angular"),
            ProjectType::Node => String::from_str("node"),
        }
    }
}

/// The lines that announce the enabled modes, in reporting order.
pub open spec fn mode_line_views(c: CommonOpts) -> Seq<Seq<char>> {
    (if c.dry_run {
        seq!["Dry-run mode enabled."@]
    } else {
        Seq::<Seq<char>>::empty()
    }) + (if c.verbose {
        seq!["Verbose mode enabled."@]
    } else {
        Seq::<Seq<char>>::empty()
    })
}

impl CommonOpts {
    /// The lines that announce the enabled modes.
    pub fn mode_lines(&self) -> (r: Vec<String>)
        ensures
            r@.map_values(|s: String| s@) == mode_line_views(*self),
    {
        let mut out: Vec<String> = Vec::new();
        if self.dry_run {
            out.push(String::from_str("Dry-run mode enabled."));
        }
        if self.verbose {
            out.push(String::from_str("Verbose mode enabled."));
        }
        assert(out@.map_values(|s: String| s@) =~= mode_line_views(*self));
        out
    }
}

/// The subcommands of the tool.
pub enum Commands {
    /// Rename files under the given paths, prefixing each file name with its
    /// creation timestamp.
    Rename { recursive: bool, paths: Option<Vec<String>>, common: CommonOpts },
    /// A diagnostic placeholder.
    Test { list: bool, common: CommonOpts },
}

/// A parsed command line.
pub struct Cli {
    pub command: Option<Commands>,
}

/// An argument that is a flag rather than a path.
pub open spec fn is_flag_arg(s: Seq<char>) -> bool {
    s.len() > 0 && s[0] == '-'
}

/// The views of a sequence of argument strings.
pub open spec fn arg_views(args: Seq<String>) -> Seq<Seq<char>> {
    args.map_values(|s: String| s@)
}

/// Whether the flag spelled `long` or `short` occurs among `args`.
pub open spec fn contains_flag(args: Seq<Seq<char>>, long: Seq<char>, short: Seq<char>) -> bool {
    exists|i: int| 0 <= i < args.len() && ((#[trigger] args[i]) == long || args[i] == short)
}

/// The arguments that are not flags, in order: the paths.
pub open spec fn positional_args(args: Seq<Seq<char>>) -> Seq<Seq<char>> {
    args.filter(|s: Seq<char>| !is_flag_arg(s))
}

proof fn lemma_contains_flag_push(s: Seq<Seq<char>>, x: Seq<char>, long: Seq<char>, short: Seq<char>)
    ensures
        contains_flag(s.push(x), long, short) == (contains_flag(s, long, short) || x == long || x
            == short),
{
    if contains_flag(s, long, short) {
        let i = choose|i: int|
            0 <= i < s.len() && ((#[trigger] s[i]) == long || s[i] == short);
        assert(s.push(x)[i] == s[i]);
    }
    if x == long || x == short {
        assert(s.push(x)[s.len() as int] == x);
    }
    if contains_flag(s.push(x), long, short) {
        let i = choose|i: int|
            0 <= i < s.push(x).len() && ((#[trigger] s.push(x)[i]) == long || s.push(x)[i]
                == short);
        if i < s.len() {
            assert(s[i] == s.push(x)[i]);
        }
    }
}

/// Scans `args` from position 2 on for one flag, spelled `long` or `short`.
fn scan_flag(args: &Vec<String>, long: &str, short: &str) -> (r: bool)
    requires
        args@.len() >= 2,
    ensures
        r == contains_flag(arg_views(args@).skip(2), long@, short@),
{
    let ghost a = arg_views(args@).skip(2);
    let n = args.len();
    let mut found = false;
    let mut i: usize = 2;
    proof {
        assert(a.take(0) =~= Seq::<Seq<char>>::empty());
        assert(!contains_flag(a.take(0), long@, short@));
    }
    while i < n
        invariant
            2 <= i <= n,
            n == args@.len(),
            a == arg_views(args@).skip(2),
            found == contains_flag(a.take(i - 2), long@, short@),
        decreases n - i,
    {
        let is_long = str_eq(args[i].as_str(), long);
        let is_short = str_eq(args[i].as_str(), short);
        proof {
            assert(a.take(i - 2 + 1) =~= a.take(i - 2).push(a[i - 2]));
            assert(a[i - 2] == args@[i as int]@);
            lemma_contains_flag_push(a.take(i - 2), a[i - 2], long@, short@);
        }
        if is_long || is_short {
            found = true;
        }
        i = i + 1;
    }
    proof {
        assert(a.take(n - 2) =~= a);
    }
    found
}

/// Collects the non-flag arguments from position 2 on: the paths.
fn scan_paths(args: &Vec<String>) -> (r: Vec<String>)
    requires
        args@.len() >= 2,
    ensures
        arg_views(r@) == positional_args(arg_views(args@).skip(2)),
{
    let ghost a = arg_views(args@).skip(2);
    let ghost keep = |s: Seq<char>| !is_flag_arg(s);
    let n = args.len();
    let mut out: Vec<String> = Vec::new();
    let mut i: usize = 2;
    proof {
        reveal(Seq::filter);
        assert(a.take(0) =~= Seq::<Seq<char>>::empty());
        assert(arg_views(out@) =~= a.take(0).filter(keep));
    }
    while i < n
        invariant
            2 <= i <= n,
            n == args@.len(),
            a == arg_views(args@).skip(2),
            keep == (|s: Seq<char>| !is_flag_arg(s)),
            arg_views(out@) == a.take(i - 2).filter(keep),
        decreases n - i,
    {
        let arg = &args[i];
        let is_flag = if arg.as_str().unicode_len() == 0 {
            false
        } else {
            arg.as_str().get_char(0) == '-'
        };
        proof {
            assert(a[i - 2] == args@[i as int]@);
            assert(is_flag == is_flag_arg(a[i - 2]));
            assert(a.take(i - 2 + 1).drop_last() =~= a.take(i - 2));
            assert(a.take(i - 2 + 1).last() == a[i - 2]);
            reveal(Seq::filter);
        }
        if !is_flag {
            let ghost before = out@;
            out.push(arg.clone());
            proof {
                assert(arg_views(out@) =~= arg_views(before).push(a[i - 2]));
                assert(arg_views(out@) =~= a.take(i - 2 + 1).filter(keep));
            }
        } else {
            proof {
                assert(arg_views(out@) =~= a.take(i - 2 + 1).filter(keep));
            }
        }
        i = i + 1;
    }
    proof {
        assert(a.take(n - 2) =~= a);
    }
    out
}

impl Cli {
    /// Parses a command line: the program name, a subcommand (`rename` or
    /// `test`; anything else yields no command), then flags and paths in any
    /// order. A flag sets its option wherever it occurs; every non-flag
    /// argument is a path.
    pub fn parse_from(args: Vec<String>) -> (r: Cli)
        ensures
            args@.len() < 2 || (arg_views(args@)[1] != "rename"@ && arg_views(args@)[1]
                != "test"@) ==> r.command is None,
            args@.len() >= 2 && arg_views(args@)[1] == "rename"@ ==> (r.command matches Some(
                Commands::Rename { recursive, paths, common },
            ) && recursive == contains_flag(arg_views(args@).skip(2), "--recursive"@, "-r"@)
                && common.verbose == contains_flag(arg_views(args@).skip(2), "--verbose"@, "-v"@)
                && common.dry_run == contains_flag(arg_views(args@).skip(2), "--dry-run"@, "-d"@)
                && (match paths {
                Some(v) => arg_views(v@) == positional_args(arg_views(args@).skip(2))
                    && arg_views(v@).len() > 0,
                None => positional_args(arg_views(args@).skip(2)).len() == 0,
            })),
            args@.len() >= 2 && arg_views(args@)[1] == "test"@ ==> (r.command matches Some(
                Commands::Test { list, common },
            ) && list == contains_flag(arg_views(args@).skip(2), "--list"@, "-l"@)
                && common.verbose == contains_flag(arg_views(args@).skip(2), "--verbose"@, "-v"@)
                && common.dry_run == contains_flag(arg_views(args@).skip(2), "--dry-run"@, "-d"@)),
    {
        if args.len() < 2 {
            return Cli { command: None };
        }
        proof {
            reveal_strlit("rename");
            reveal_strlit("test");
        }
        let sub = &args[1];
        proof {
            assert(sub@ == arg_views(args@)[1]);
        }
        let common = CommonOpts {
            verbose: scan_flag(&args, "--verbose", "-v"),
            dry_run: scan_flag(&args, "--dry-run", "-d"),
        };
        if str_eq(sub.as_str(), "rename") {
            let recursive = scan_flag(&args, "--recursive", "-r");
            let paths = scan_paths(&args);
            let paths = if paths.len() == 0 {
                None
            } else {
                proof {
                    assert(arg_views(paths@).len() == paths@.len());
                }
                Some(paths)
            };
            Cli { command: Some(Commands::Rename { recursive, paths, common }) }
        } else if str_eq(sub.as_str(), "test") {
            let list = scan_flag(&args, "--list", "-l");
            Cli { command: Some(Commands::Test { list, common }) }
        } else {
            Cli { command: None }
        }
    }
}

} // verus!
