//! The detection model: categories, found items, scan options and the
//! filter every detector's findings pass through.

pub mod known;
pub mod walk;

use vstd::prelude::*;
use vstd::string::*;

use crate::text::{ascii_lower, lowered_range_eq, trim, trim_bounds, trim_end, trim_start};
use crate::util::Timestamp;

verus! {

/// Top-level grouping used to organise the report and TUI.
#[derive(Clone, Copy, Debug, PartialEq, Eq, Hash, Structural)]
pub enum Category {
    Node,
    Python,
    Model,
    Build,
}

/// The short label of a category (also its `--category` spelling).
pub open spec fn category_label(c: Category) -> Seq<char> {
    match c {
        Category::Node => "node"@,
        Category::Python => "python"@,
        Category::Model => "model"@,
        Category::Build => "build"@,
    }
}

/// The heading of a category in grouped views.
pub open spec fn category_title(c: Category) -> Seq<char> {
    match c {
        Category::Node => "Node / JavaScript"@,
        Category::Python => "Python"@,
        Category::Model => "ML Models"@,
        Category::Build => "Build artifacts"@,
    }
}

/// The category a `--category` value names, after trimming surrounding
/// whitespace and ASCII lower-casing; a few aliases are accepted.
pub open spec fn parse_category(s: Seq<char>) -> Option<Category> {
    let t = ascii_lower(trim(s));
    if t == "node"@ || t == "js"@ || t == "javascript"@ || t == "npm"@ {
        Some(Category::Node)
    } else if t == "python"@ || t == "py"@ {
        Some(Category::Python)
    } else if t == "model"@ || t == "models"@ || t == "ml"@ {
        Some(Category::Model)
    } else if t == "build"@ || t == "artifact"@ || t == "artifacts"@ {
        Some(Category::Build)
    } else {
        None
    }
}

/// The position of a category in the fixed display order
/// Node, Python, Model, Build.
pub open spec fn category_rank(c: Category) -> nat {
    match c {
        Category::Node => 0,
        Category::Python => 1,
        Category::Model => 2,
        Category::Build => 3,
    }
}

impl Category {
    /// Every category, in display order.
    pub const ALL: [Category; 4] = [Category::Node, Category::Python, Category::Model, Category::Build];

    /// Short machine-ish label (also used for `--category` filtering).
    pub fn label(&self) -> (res: &'static str)
        ensures
            res@ == category_label(*self),
    {
        match self {
            Category::Node => "node",
            Category::Python => "python",
            Category::Model => "model",
            Category::Build => "build",
        }
    }

    /// Human heading for grouped views.
    pub fn title(&self) -> (res: &'static str)
        ensures
            res@ == category_title(*self),
    {
        match self {
            Category::Node => "Node / JavaScript",
            Category::Python => "Python",
            Category::Model => "ML Models",
            Category::Build => "Build artifacts",
        }
    }

    /// Parse a `--category` value (accepts a few friendly aliases).
    pub fn parse(s: &str) -> (res: Option<Category>)
        ensures
            res == parse_category(s@),
    {
        let (a, b) = trim_bounds(s);
        if lowered_range_eq(s, a, b, "node") || lowered_range_eq(s, a, b, "js")
            || lowered_range_eq(s, a, b, "javascript") || lowered_range_eq(s, a, b, "npm") {
            Some(Category::Node)
        } else if lowered_range_eq(s, a, b, "python") || lowered_range_eq(s, a, b, "py") {
            Some(Category::Python)
        } else if lowered_range_eq(s, a, b, "model") || lowered_range_eq(s, a, b, "models")
            || lowered_range_eq(s, a, b, "ml") {
            Some(Category::Model)
        } else if lowered_range_eq(s, a, b, "build") || lowered_range_eq(s, a, b, "artifact")
            || lowered_range_eq(s, a, b, "artifacts") {
            Some(Category::Build)
        } else {
            None
        }
    }

    /// Position in the display order.
    pub fn order(&self) -> (res: u8)
        ensures
            res == category_rank(*self),
    {
        match self {
            Category::Node => 0,
            Category::Python => 1,
            Category::Model => 2,
            Category::Build => 3,
        }
    }
}

/// A single removable thing the scanner found. `paths` holds one entry for a
/// normal item, or many for an aggregate (e.g. every `__pycache__` at once).
#[derive(Debug)]
pub struct ScanItem {
    pub category: Category,
    /// Specific kind, e.g. `node_modules`, `virtualenv`, `huggingface`.
    pub kind: String,
    /// Friendly display name (project name, model name, …).
    pub label: String,
    pub paths: Vec<String>,
    pub size: u64,
    pub modified: Option<Timestamp>,
}

impl ScanItem {
    /// The path shown for an item: its first one, or the empty path.
    pub open spec fn primary_path(&self) -> Seq<char> {
        if self.paths@.len() > 0 { self.paths@[0]@ } else { Seq::empty() }
    }

    /// Representative path (the first); aggregates may have more.
    pub fn primary(&self) -> (res: &str)
        ensures
            res@ == self.primary_path(),
    {
        if self.paths.len() > 0 {
            self.paths[0].as_str()
        } else {
            let empty = "";
            proof {
                reveal_strlit("");
            }
            assert(empty@ =~= Seq::<char>::empty());
            empty
        }
    }

    /// How many paths the item covers.
    pub fn count(&self) -> (res: usize)
        ensures
            res == self.paths@.len(),
    {
        self.paths.len()
    }
}

/// Messages streamed from the scan worker to the consumer (TUI or printer).
pub enum ScanMsg {
    Item(ScanItem),
    Status(String),
    Done,
}

/// What and where to scan.
#[derive(Debug)]
pub struct ScanOptions {
    pub roots: Vec<String>,
    /// `None` means every category; otherwise only the listed ones.
    pub categories: Option<Vec<Category>>,
    /// Items smaller than this (bytes) are dropped.
    pub min_size: u64,
}

impl ScanOptions {
    /// Whether the options ask for items of category `c`.
    pub open spec fn wants_spec(&self, c: Category) -> bool {
        match self.categories {
            None => true,
            Some(v) => v@.contains(c),
        }
    }

    /// Whether `item` survives the filters: it is non-empty, of a wanted
    /// category, and at least the minimum size.
    pub open spec fn keeps(&self, item: &ScanItem) -> bool {
        &&& item.size != 0
        &&& item.paths@.len() != 0
        &&& self.wants_spec(item.category)
        &&& item.size >= self.min_size
    }

    /// Whether items of `category` are wanted.
    pub fn wants(&self, category: Category) -> (res: bool)
        ensures
            res == self.wants_spec(category),
    {
        match &self.categories {
            None => true,
            Some(v) => {
                let mut i: usize = 0;
                while i < v.len()
                    invariant
                        i <= v@.len(),
                        self.wants_spec(category) == v@.contains(category),
                        forall|j: int| 0 <= j < i ==> v@[j] != category,
                    decreases v@.len() - i,
                {
                    if v[i] == category {
                        assert(v@[i as int] == category);
                        assert(v@.contains(category));
                        return true;
                    }
                    i = i + 1;
                }
                false
            },
        }
    }
}

/// Apply category / min-size filters: the item comes back if it passes,
/// otherwise it is dropped. Central choke point so every detector gets
/// consistent filtering for free.
pub fn emit(opts: &ScanOptions, item: ScanItem) -> (res: Option<ScanItem>)
    ensures
        res == (if opts.keeps(&item) { Some(item) } else { None }),
{
    if item.size == 0 || item.paths.len() == 0 {
        return None;
    }
    if !opts.wants(item.category) || item.size < opts.min_size {
        return None;
    }
    Some(item)
}

} // verus!

verus! {

/// The sum of the sizes of `items`, as an exact number.
pub open spec fn size_total(items: Seq<ScanItem>) -> nat
    decreases items.len(),
{
    if items.len() == 0 { 0 } else { size_total(items.drop_last()) + (items.last().size as nat) }
}

/// `n` reduced modulo 2^64: what a `u64` sum of sizes holds, which wraps
/// around as the release build's `+` does.
pub open spec fn wrap64(n: nat) -> u64 {
    (n % 0x1_0000_0000_0000_0000nat) as u64
}

/// The items of category `c`.
pub open spec fn in_category(c: Category) -> spec_fn(ScanItem) -> bool {
    |it: ScanItem| it.category == c
}

/// `a + b` on `u64`, wrapping around at 2^64.
pub fn add_wrapping(a: u64, b: u64) -> (res: u64)
    ensures
        res == (a + b) % 0x1_0000_0000_0000_0000int,
{
    let s = a as u128 + b as u128;
    if s >= 0x1_0000_0000_0000_0000 {
        (s - 0x1_0000_0000_0000_0000) as u64
    } else {
        s as u64
    }
}

/// Adding one more size to a wrapped total.
pub proof fn lemma_wrap_step(total: nat, acc: u64, x: u64)
    requires
        acc == wrap64(total),
    ensures
        (acc + x) % 0x1_0000_0000_0000_0000int == wrap64(total + (x as nat)),
{
    vstd::arithmetic::div_mod::lemma_add_mod_noop(total as int, x as int, 0x1_0000_0000_0000_0000);
    vstd::arithmetic::div_mod::lemma_mod_twice(x as int, 0x1_0000_0000_0000_0000);
    assert((x as int) % 0x1_0000_0000_0000_0000int == x as int);
}

/// Filtering a sequence extended by one element.
pub proof fn lemma_filter_push<T>(s: Seq<T>, x: T, pred: spec_fn(T) -> bool)
    ensures
        s.push(x).filter(pred) == (if pred(x) { s.filter(pred).push(x) } else { s.filter(pred) }),
{
    reveal(Seq::filter);
    assert(s.push(x).drop_last() =~= s);
}

/// The sum of the sizes of `items`, wrapping around at 2^64.
pub fn total_size(items: &Vec<ScanItem>) -> (res: u64)
    ensures
        res == wrap64(size_total(items@)),
{
    let mut acc: u64 = 0;
    let mut i: usize = 0;
    while i < items.len()
        invariant
            i <= items@.len(),
            acc == wrap64(size_total(items@.subrange(0, i as int))),
        decreases items@.len() - i,
    {
        proof {
            lemma_wrap_step(size_total(items@.subrange(0, i as int)), acc, items@[i as int].size);
            assert(items@.subrange(0, i + 1).drop_last() =~= items@.subrange(0, i as int));
        }
        acc = add_wrapping(acc, items[i].size);
        i = i + 1;
    }
    assert(items@.subrange(0, i as int) =~= items@);
    acc
}

} // verus!

verus! {

/// Calls `dirs::home_dir`, giving the path's text. Nothing is promised of
/// the result: it comes from the environment (`HOME`, else the password
/// database on Unix; the profile folder on Windows).
#[verifier::external_body]
pub(crate) fn home_dir() -> (res: Option<String>) {
    match dirs::home_dir() {
        Some(p) => Some(p.to_string_lossy().into_owned()),
        None => None,
    }
}

/// The home directory when there is one, else the current directory `.`.
pub open spec fn home_or_dot(home: Option<Seq<char>>) -> Seq<char> {
    match home {
        Some(h) => h,
        None => "."@,
    }
}

/// A home directory lookup as text, an empty path counting as none.
pub open spec fn home_found(home: Option<String>) -> Option<Seq<char>> {
    match home {
        Some(h) => if h@.len() > 0 { Some(h@) } else { None },
        None => None,
    }
}

/// The scan root for a home directory lookup that gave `home`: the home
/// directory, or `.` when there is none (or it is empty).
pub fn root_from_home(home: Option<String>) -> (res: String)
    ensures
        res@ == home_or_dot(home_found(home)),
{
    match home {
        Some(h) => {
            if h.unicode_len() > 0 {
                h
            } else {
                String::from_str(".")
            }
        },
        None => String::from_str("."),
    }
}

/// Default scan root: the user's home directory, or `.` when it is unknown or empty.
/// Which of the two it is depends on the environment, so the contract says
/// only that it is a non-empty path; [`root_from_home`] states what becomes
/// of each lookup.
pub fn default_root() -> (res: String)
    ensures
        res@.len() > 0,
        exists|h: Option<Seq<char>>| (h matches Some(x) ==> x.len() > 0) && res@ == home_or_dot(h),
{
    let home = home_dir();
    let ghost h = home_found(home);
    let res = root_from_home(home);
    proof {
        reveal_strlit(".");
        assert((h matches Some(x) ==> x.len() > 0) && res@ == home_or_dot(h));
    }
    res
}

} // verus!

verus! {

/// One part of a full scan, in the order it runs.
pub enum ScanTask {
    /// Report this status line.
    Status(String),
    /// Probe the well-known cache, model and environment locations.
    Known,
    /// Walk this root directory.
    Walk(String),
    /// Report that the scan is over.
    Done,
}

/// A scan task as text.
pub enum ScanTaskView {
    Status(Seq<char>),
    Known,
    Walk(Seq<char>),
    Done,
}

impl View for ScanTask {
    type V = ScanTaskView;

    open spec fn view(&self) -> ScanTaskView {
        match self {
            ScanTask::Status(s) => ScanTaskView::Status(s@),
            ScanTask::Known => ScanTaskView::Known,
            ScanTask::Walk(r) => ScanTaskView::Walk(r@),
            ScanTask::Done => ScanTaskView::Done,
        }
    }
}

/// For each root: announce it, then walk it.
pub open spec fn root_tasks(roots: Seq<Seq<char>>) -> Seq<ScanTaskView>
    decreases roots.len(),
{
    if roots.len() == 0 {
        Seq::empty()
    } else {
        root_tasks(roots.drop_last()) + seq![
            ScanTaskView::Status("Scanning "@ + roots.last()),
            ScanTaskView::Walk(roots.last()),
        ]
    }
}

/// A full scan: the well-known locations first, then each root in order,
/// then the end of the scan.
pub open spec fn scan_plan(roots: Seq<Seq<char>>) -> Seq<ScanTaskView> {
    seq![ScanTaskView::Status("Checking caches, models & conda\u{2026}"@), ScanTaskView::Known] + root_tasks(
        roots,
    ) + seq![ScanTaskView::Done]
}

/// The tasks of a full scan, whose results stream to the consumer: the
/// well-known locations, then a walk of every root, then `Done`.
pub fn run_scan(opts: &ScanOptions) -> (res: Vec<ScanTask>)
    ensures
        res@.map_values(|t: ScanTask| t@) == scan_plan(opts.roots@.map_values(|r: String| r@)),
{
    let ghost roots = opts.roots@.map_values(|r: String| r@);
    let mut out: Vec<ScanTask> = Vec::new();
    out.push(ScanTask::Status(String::from_str("Checking caches, models & conda\u{2026}")));
    out.push(ScanTask::Known);
    let ghost head = seq![ScanTaskView::Status("Checking caches, models & conda\u{2026}"@), ScanTaskView::Known];
    assert(out@.map_values(|t: ScanTask| t@) =~= head);
    let mut i: usize = 0;
    while i < opts.roots.len()
        invariant
            i <= opts.roots@.len(),
            roots == opts.roots@.map_values(|r: String| r@),
            head == seq![ScanTaskView::Status("Checking caches, models & conda\u{2026}"@), ScanTaskView::Known],
            out@.map_values(|t: ScanTask| t@) == head + root_tasks(roots.subrange(0, i as int)),
        decreases opts.roots@.len() - i,
    {
        let root = &opts.roots[i];
        let mut msg = String::from_str("Scanning ");
        msg.append(root.as_str());
        let ghost before = out@;
        let ghost text = msg@;
        let walk = ScanTask::Walk(root.clone());
        assert(walk@ == ScanTaskView::Walk(root@));
        out.push(ScanTask::Status(msg));
        out.push(walk);
        proof {
            let pre = roots.subrange(0, i as int);
            let cur = roots.subrange(0, i + 1);
            assert(cur.drop_last() =~= pre);
            assert(cur.last() == root@);
            assert(text == "Scanning "@ + root@);
            assert(root_tasks(cur) == root_tasks(pre) + seq![
                ScanTaskView::Status("Scanning "@ + root@),
                ScanTaskView::Walk(root@),
            ]);
            assert(out@.map_values(|t: ScanTask| t@) =~= before.map_values(|t: ScanTask| t@) + seq![
                ScanTaskView::Status(text),
                ScanTaskView::Walk(root@),
            ]);
            assert(out@.map_values(|t: ScanTask| t@) =~= head + root_tasks(cur));
        }
        i = i + 1;
    }
    out.push(ScanTask::Done);
    assert(roots.subrange(0, i as int) =~= roots);
    assert(out@.map_values(|t: ScanTask| t@) =~= scan_plan(roots));
    out
}

} // verus!

verus! {

/// Every category's label selects that category: `--category node`,
/// `--category python`, `--category model` and `--category build`.
pub proof fn lemma_label_parses(c: Category)
    ensures
        parse_category(category_label(c)) == Some(c),
{
    let l = category_label(c);
    reveal_strlit("node");
    reveal_strlit("python");
    reveal_strlit("model");
    reveal_strlit("build");
    reveal_strlit("js");
    reveal_strlit("javascript");
    reveal_strlit("npm");
    reveal_strlit("py");
    reveal_strlit("models");
    reveal_strlit("ml");
    reveal_strlit("artifact");
    reveal_strlit("artifacts");
    // a label is lower-case letters only: trimming and lower-casing keep it
    assert(forall|i: int| 0 <= i < l.len() ==> 'a' <= #[trigger] l[i] && l[i] <= 'z');
    assert(trim_start(l) == l);
    assert(trim_end(l) == l);
    assert(ascii_lower(trim(l)) =~= l);
    assert("build"@[0] != "model"@[0]);
}

} // verus!
