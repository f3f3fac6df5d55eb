//! The command-line surface: `depot scan`, `depot` (TUI), `depot run`,
//! `depot hub …`, and how scan arguments become scan options.

use vstd::prelude::*;
use vstd::string::*;

use crate::scan::{default_root, home_or_dot, parse_category, Category, ScanOptions};

verus! {

/// The parsed command line.
pub struct Cli {
    pub command: Option<Command>,
}

/// The subcommands.
#[allow(inconsistent_fields)]
pub enum Command {
    /// Launch the interactive TUI (the default with no subcommand).
    Tui(ScanArgs),
    /// Scan and print results: no UI. `json` asks for JSON; `print` asks
    /// for the grouped table even in a terminal.
    Scan { args: ScanArgs, print: bool, json: bool },
    /// Assemble deps from the shared store, then run a project script.
    Run { args: Vec<String> },
    /// Assemble deps from the shared store without running anything.
    Ensure,
    /// Adopt the shared store for the current project (alias of `hub link`).
    Link,
    /// Shared pnpm + uv global package store.
    Hub { action: HubAction },
}

/// Shared scan parameters used by both `scan` and `tui`.
pub struct ScanArgs {
    /// Directories to scan; the home directory when none is given.
    pub paths: Vec<String>,
    /// Categories to restrict to: node | python | model | build.
    pub categories: Vec<String>,
    /// Ignore anything smaller than this many megabytes.
    pub min_mb: u64,
    /// Scan every fixed drive instead of just the home directory.
    pub all_drives: bool,
}

/// The hub subcommands.
pub enum HubAction {
    /// Set up the shared global store and point pnpm + uv at it.
    Init,
    /// Add dependencies to the current project, routed through the store.
    Add { packages: Vec<String>, dev: bool },
    /// Show the store location, size, and registered projects.
    Status,
    /// Adopt the shared store for the current project.
    Link,
    /// Estimate how much the shared store saves across projects.
    Analyze { paths: Vec<String> },
}

impl Default for ScanArgs {
    fn default() -> (res: ScanArgs)
        ensures
            res.paths@.len() == 0,
            res.categories@.len() == 0,
            res.min_mb == 0,
            !res.all_drives,
    {
        ScanArgs { paths: Vec::new(), categories: Vec::new(), min_mb: 0, all_drives: false }
    }
}

/// The fixed drives scanned by `--all-drives`: on this platform, the
/// filesystem root.
pub fn all_drives() -> (res: Vec<String>)
    ensures
        res@.len() == 1,
        res@[0]@ == "/"@,
{
    vec![String::from_str("/")]
}

/// The drive letters.
pub open spec fn drive_letters() -> Seq<char> {
    "ABCDEFGHIJKLMNOPQRSTUVWXYZ"@
}

/// The root of every possible drive on Windows, `A:\` to `Z:\`; `--all-drives`
/// there scans those that exist.
pub fn drive_roots() -> (res: Vec<String>)
    ensures
        res@.len() == 26,
        forall|i: int| 0 <= i < 26 ==> #[trigger] res@[i]@ == seq![drive_letters()[i], ':', '\\'],
{
    let letters = "ABCDEFGHIJKLMNOPQRSTUVWXYZ";
    proof {
        reveal_strlit("ABCDEFGHIJKLMNOPQRSTUVWXYZ");
    }
    let mut out: Vec<String> = Vec::new();
    let mut i: usize = 0;
    while i < 26
        invariant
            i <= 26,
            letters@ == drive_letters(),
            letters@.len() == 26,
            out@.len() == i,
            forall|k: int| 0 <= k < i ==> #[trigger] out@[k]@ == seq![drive_letters()[k], ':', '\\'],
        decreases 26 - i,
    {
        let piece = letters.substring_char(i, i + 1);
        assert(piece@ =~= seq![drive_letters()[i as int]]);
        let tail = ":\\";
        proof {
            reveal_strlit(":\\");
        }
        assert(tail@ =~= seq![':', '\\']);
        let mut root = String::from_str(piece);
        root.append(tail);
        assert(root@ =~= seq![drive_letters()[i as int], ':', '\\']);
        out.push(root);
        i = i + 1;
    }
    out
}

/// Some argument names category `c`.
pub open spec fn named_by(args: Seq<String>, c: Category) -> bool {
    exists|i: int| 0 <= i < args.len() && #[trigger] parse_category(args[i]@) == Some(c)
}

/// No category occurs twice.
pub open spec fn no_repeats(v: Seq<Category>) -> bool {
    forall|i: int, j: int| 0 <= i < v.len() && 0 <= j < v.len() && i != j ==> v[i] != v[j]
}

/// The byte threshold of `min_mb` megabytes, saturating at the largest
/// `u64`.
pub open spec fn min_bytes(min_mb: u64) -> u64 {
    if min_mb * 1_048_576 > u64::MAX { u64::MAX } else { (min_mb * 1_048_576) as u64 }
}

proof fn lemma_named_push(pre: Seq<String>, x: String, c: Category)
    ensures
        named_by(pre.push(x), c) <==> (named_by(pre, c) || parse_category(x@) == Some(c)),
{
    let s = pre.push(x);
    if named_by(s, c) {
        let k = choose|k: int| 0 <= k < s.len() && #[trigger] parse_category(s[k]@) == Some(c);
        if k < pre.len() {
            assert(pre[k] == s[k]);
        }
    }
    if named_by(pre, c) {
        let k = choose|k: int| 0 <= k < pre.len() && #[trigger] parse_category(pre[k]@) == Some(c);
        assert(s[k] == pre[k]);
    }
    if parse_category(x@) == Some(c) {
        assert(s[pre.len() as int] == x);
    }
}

/// Whether `v` holds `c`.
fn holds(v: &Vec<Category>, c: Category) -> (res: bool)
    ensures
        res == v@.contains(c),
{
    let mut i: usize = 0;
    while i < v.len()
        invariant
            i <= v@.len(),
            forall|j: int| 0 <= j < i ==> v@[j] != c,
        decreases v@.len() - i,
    {
        if v[i] == c {
            assert(v@[i as int] == c);
            return true;
        }
        i = i + 1;
    }
    false
}

/// The categories the arguments name, each once; names that are no
/// category are ignored.
pub fn parse_categories(args: &Vec<String>) -> (res: Vec<Category>)
    ensures
        no_repeats(res@),
        forall|c: Category| res@.contains(c) <==> named_by(args@, c),
{
    let mut out: Vec<Category> = Vec::new();
    let mut i: usize = 0;
    while i < args.len()
        invariant
            i <= args@.len(),
            no_repeats(out@),
            forall|c: Category| out@.contains(c) <==> named_by(args@.subrange(0, i as int), c),
        decreases args@.len() - i,
    {
        let parsed = Category::parse(args[i].as_str());
        let ghost prev = out@;
        match parsed {
            Some(c) => {
                if !holds(&out, c) {
                    out.push(c);
                    proof {
                        assert forall|d: Category| out@.contains(d) <==> (prev.contains(d) || d == c) by {
                            if out@.contains(d) {
                                let k = choose|k: int| 0 <= k < out@.len() && out@[k] == d;
                                if k < prev.len() {
                                    assert(prev[k] == d);
                                }
                            }
                            if prev.contains(d) {
                                let k = choose|k: int| 0 <= k < prev.len() && prev[k] == d;
                                assert(out@[k] == d);
                            }
                            if d == c {
                                assert(out@[prev.len() as int] == c);
                            }
                        }
                    }
                }
            },
            None => {},
        }
        proof {
            let pre = args@.subrange(0, i as int);
            assert(args@.subrange(0, i + 1) =~= pre.push(args@[i as int]));
            assert forall|d: Category| out@.contains(d) <==> named_by(args@.subrange(0, i + 1), d) by {
                lemma_named_push(pre, args@[i as int], d);
                assert(out@.contains(d) <==> (prev.contains(d) || parsed == Some(d)));
                assert(prev.contains(d) <==> named_by(pre, d));
            }
        }
        i = i + 1;
    }
    assert(args@.subrange(0, i as int) =~= args@);
    out
}

impl ScanArgs {
    /// The scan options these arguments ask for: the filesystem root with
    /// `all_drives`, else the given paths, else the default root (the home
    /// directory, or `.`); the named categories when any are given (else
    /// every category); and the size threshold in bytes.
    pub fn to_options(&self) -> (res: ScanOptions)
        ensures
            self.all_drives ==> res.roots@.len() == 1 && res.roots@[0]@ == "/"@,
            !self.all_drives && self.paths@.len() == 0 ==> res.roots@.len() == 1 && res.roots@[0]@.len() > 0
                && exists|h: Option<Seq<char>>|
                (h matches Some(x) ==> x.len() > 0) && res.roots@[0]@ == home_or_dot(h),
            !self.all_drives && self.paths@.len() > 0 ==> res.roots@ == self.paths@,
            self.categories@.len() == 0 ==> res.categories is None,
            self.categories@.len() > 0 ==> (res.categories matches Some(v) && no_repeats(v@) && forall|
                c: Category,
            | v@.contains(c) <==> named_by(self.categories@, c)),
            res.min_size == min_bytes(self.min_mb),
    {
        let roots = if self.all_drives {
            all_drives()
        } else if self.paths.len() == 0 {
            vec![default_root()]
        } else {
            let p = self.paths.clone();
            assert(p@ =~= self.paths@);
            p
        };
        let categories = if self.categories.len() == 0 {
            None
        } else {
            Some(parse_categories(&self.categories))
        };
        let min_size = if self.min_mb > u64::MAX / 1_048_576 {
            u64::MAX
        } else {
            self.min_mb * 1_048_576
        };
        ScanOptions { roots, categories, min_size }
    }
}

} // verus!
