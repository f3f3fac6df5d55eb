//! Decisions of the recursive walk of a root directory. Once a relevant
//! directory is detected it is recorded and *pruned* (not descended into),
//! so nested copies are never double-counted. Numerous tiny caches
//! (`__pycache__`, `.mypy_cache`, …) are gathered into one item per kind
//! instead of flooding the list.

use vstd::prelude::*;
use vstd::string::*;

use super::{add_wrapping, emit, Category, ScanItem, ScanOptions};
use crate::paths::{dir_label, dir_label_spec, parent_or, parent_or_spec};
use crate::text::{decimal, decimal_string, same_text};
use crate::util::{newest, newest_spec, Timestamp};

verus! {

/// What the walk knows of one directory it reached.
pub struct DirFacts {
    /// The directory's path.
    pub path: String,
    /// Its last path component.
    pub name: String,
    /// It holds a `pyvenv.cfg` file.
    pub has_pyvenv_cfg: bool,
    /// Its parent holds a `Cargo.toml` file.
    pub beside_cargo_toml: bool,
    /// Its parent holds a `package.json` file.
    pub beside_package_json: bool,
}

/// What the walk does with a directory.
pub enum Visit {
    /// Report it as an item of its own, named after `label_dir`, and do not
    /// descend into it.
    Item { category: Category, kind: String, label_dir: String },
    /// Add it to the aggregate of `kind`, and do not descend into it.
    Aggregate { kind: String, category: Category },
    /// Noise: do not descend into it.
    Prune,
    /// Keep walking below it.
    Descend,
}

/// What the walk does with a directory, as text.
pub enum VisitView {
    Item { category: Category, kind: Seq<char>, label_dir: Seq<char> },
    Aggregate { kind: Seq<char>, category: Category },
    Prune,
    Descend,
}

impl View for Visit {
    type V = VisitView;

    open spec fn view(&self) -> VisitView {
        match self {
            Visit::Item { category, kind, label_dir } => VisitView::Item {
                category: *category,
                kind: kind@,
                label_dir: label_dir@,
            },
            Visit::Aggregate { kind, category } => VisitView::Aggregate { kind: kind@, category: *category },
            Visit::Prune => VisitView::Prune,
            Visit::Descend => VisitView::Descend,
        }
    }
}

/// The caches gathered into one item per kind, with their category.
pub open spec fn aggregate_kind_spec(name: Seq<char>) -> Option<(Seq<char>, Category)> {
    if name == "__pycache__"@ {
        Some(("__pycache__"@, Category::Python))
    } else if name == ".pytest_cache"@ {
        Some((".pytest_cache"@, Category::Python))
    } else if name == ".mypy_cache"@ {
        Some((".mypy_cache"@, Category::Python))
    } else if name == ".ruff_cache"@ {
        Some((".ruff_cache"@, Category::Python))
    } else if name == ".turbo"@ {
        Some((".turbo"@, Category::Build))
    } else {
        None
    }
}

/// Directories never worth descending into.
pub open spec fn is_noise(name: Seq<char>) -> bool {
    name == ".git"@ || name == ".hg"@ || name == ".svn"@ || name == "$RECYCLE.BIN"@ || name
        == "System Volume Information"@
}

/// The decision for a directory, in priority order: `node_modules`, a
/// virtualenv (holds `pyvenv.cfg`), a Rust `target` beside `Cargo.toml`, a
/// Next.js `.next` beside `package.json`, an aggregated cache, noise, and
/// otherwise descend.
pub open spec fn visit_of(f: DirFacts) -> VisitView {
    let name = f.name@;
    if name == "node_modules"@ {
        VisitView::Item { category: Category::Node, kind: "node_modules"@, label_dir: parent_or_spec(f.path@) }
    } else if f.has_pyvenv_cfg {
        VisitView::Item { category: Category::Python, kind: "virtualenv"@, label_dir: f.path@ }
    } else if name == "target"@ && f.beside_cargo_toml {
        VisitView::Item { category: Category::Build, kind: "rust target"@, label_dir: parent_or_spec(f.path@) }
    } else if name == ".next"@ && f.beside_package_json {
        VisitView::Item { category: Category::Build, kind: "next build"@, label_dir: parent_or_spec(f.path@) }
    } else if aggregate_kind_spec(name) is Some {
        let (kind, category) = aggregate_kind_spec(name)->0;
        VisitView::Aggregate { kind, category }
    } else if is_noise(name) {
        VisitView::Prune
    } else {
        VisitView::Descend
    }
}

} // verus!

verus! {

/// The aggregated-cache kind of a directory name, with its category.
pub fn aggregate_kind(name: &str) -> (res: Option<(String, Category)>)
    ensures
        match res {
            Some((k, c)) => aggregate_kind_spec(name@) == Some((k@, c)),
            None => aggregate_kind_spec(name@) is None,
        },
{
    if same_text(name, "__pycache__") {
        Some((String::from_str("__pycache__"), Category::Python))
    } else if same_text(name, ".pytest_cache") {
        Some((String::from_str(".pytest_cache"), Category::Python))
    } else if same_text(name, ".mypy_cache") {
        Some((String::from_str(".mypy_cache"), Category::Python))
    } else if same_text(name, ".ruff_cache") {
        Some((String::from_str(".ruff_cache"), Category::Python))
    } else if same_text(name, ".turbo") {
        Some((String::from_str(".turbo"), Category::Build))
    } else {
        None
    }
}

/// Decides what the walk does with one directory.
pub fn visit(f: &DirFacts) -> (res: Visit)
    ensures
        res@ == visit_of(*f),
{
    let name = f.name.as_str();
    if same_text(name, "node_modules") {
        return Visit::Item {
            category: Category::Node,
            kind: String::from_str("node_modules"),
            label_dir: parent_or(f.path.as_str()),
        };
    }
    if f.has_pyvenv_cfg {
        return Visit::Item {
            category: Category::Python,
            kind: String::from_str("virtualenv"),
            label_dir: f.path.clone(),
        };
    }
    if same_text(name, "target") && f.beside_cargo_toml {
        return Visit::Item {
            category: Category::Build,
            kind: String::from_str("rust target"),
            label_dir: parent_or(f.path.as_str()),
        };
    }
    if same_text(name, ".next") && f.beside_package_json {
        return Visit::Item {
            category: Category::Build,
            kind: String::from_str("next build"),
            label_dir: parent_or(f.path.as_str()),
        };
    }
    match aggregate_kind(name) {
        Some((kind, category)) => { return Visit::Aggregate { kind, category }; },
        None => {},
    }
    if same_text(name, ".git") || same_text(name, ".hg") || same_text(name, ".svn") || same_text(
        name,
        "$RECYCLE.BIN",
    ) || same_text(name, "System Volume Information") {
        Visit::Prune
    } else {
        Visit::Descend
    }
}

/// The item a directory reported on its own makes, before filtering.
pub open spec fn individual_item(
    item: ScanItem,
    category: Category,
    kind: Seq<char>,
    label_dir: Seq<char>,
    target: Seq<char>,
    size: u64,
    modified: Option<Timestamp>,
) -> bool {
    &&& item.category == category
    &&& item.kind@ == kind
    &&& item.label@ == dir_label_spec(label_dir)
    &&& item.paths@.len() == 1
    &&& item.paths@[0]@ == target
    &&& item.size == size
    &&& item.modified == modified
}

/// Builds the item of a directory reported on its own (named after
/// `label_dir`, covering `target`) and passes it through the filters.
pub fn emit_individual(
    opts: &ScanOptions,
    category: Category,
    kind: &str,
    label_dir: &str,
    target: &str,
    size: u64,
    modified: Option<Timestamp>,
) -> (res: Option<ScanItem>)
    ensures
        match res {
            Some(it) => individual_item(it, category, kind@, label_dir@, target@, size, modified)
                && opts.keeps(&it),
            None => forall|it: ScanItem|
                individual_item(it, category, kind@, label_dir@, target@, size, modified)
                    ==> !opts.keeps(&it),
        },
{
    let item = ScanItem {
        category,
        kind: String::from_str(kind),
        label: dir_label(label_dir),
        paths: vec![String::from_str(target)],
        size,
        modified,
    };
    emit(opts, item)
}

} // verus!

verus! {

/// The caches of one kind gathered so far.
pub struct Agg {
    pub kind: String,
    pub category: Category,
    /// Total size, wrapping around at 2^64 as the release build's `+` does.
    pub size: u64,
    pub paths: Vec<String>,
    pub modified: Option<Timestamp>,
}

/// An aggregate as text.
pub struct AggView {
    pub kind: Seq<char>,
    pub category: Category,
    pub size: u64,
    pub paths: Seq<Seq<char>>,
    pub modified: Option<Timestamp>,
}

impl View for Agg {
    type V = AggView;

    open spec fn view(&self) -> AggView {
        AggView {
            kind: self.kind@,
            category: self.category,
            size: self.size,
            paths: self.paths@.map_values(|p: String| p@),
            modified: self.modified,
        }
    }
}

/// The aggregated caches met during one walk, in the order their kinds
/// were first met.
pub struct Walker {
    pub aggregates: Vec<Agg>,
}

/// The aggregates a walker holds, as text.
pub open spec fn aggs_view(w: &Walker) -> Seq<AggView> {
    w.aggregates@.map_values(|a: Agg| a@)
}

/// No kind is gathered twice.
pub open spec fn kinds_distinct(s: Seq<AggView>) -> bool {
    forall|i: int, j: int| 0 <= i < s.len() && 0 <= j < s.len() && i != j ==> s[i].kind != s[j].kind
}

/// The effect of gathering one more cache directory: added to the aggregate
/// of its kind if there is one, else starting a new aggregate at the end.
pub open spec fn gathered(
    old: Seq<AggView>,
    new: Seq<AggView>,
    kind: Seq<char>,
    category: Category,
    path: Seq<char>,
    size: u64,
    modified: Option<Timestamp>,
) -> bool {
    if exists|i: int| 0 <= i < old.len() && old[i].kind == kind {
        let i = choose|i: int| 0 <= i < old.len() && old[i].kind == kind;
        &&& new.len() == old.len()
        &&& new[i] == AggView {
            kind,
            category: old[i].category,
            size: ((old[i].size + size) % 0x1_0000_0000_0000_0000int) as u64,
            paths: old[i].paths.push(path),
            modified: newest_spec(old[i].modified, modified),
        }
        &&& forall|j: int| 0 <= j < old.len() && j != i ==> new[j] == old[j]
    } else {
        new == old.push(AggView { kind, category, size, paths: seq![path], modified })
    }
}

/// The label of an aggregate of `n` directories: its kind and the count.
pub open spec fn agg_label(kind: Seq<char>, n: nat) -> Seq<char> {
    kind + " ("@ + decimal(n) + " dir"@ + (if n == 1 { Seq::empty() } else { "s"@ }) + ")"@
}

/// The item an aggregate becomes.
pub open spec fn agg_item(item: ScanItem, a: AggView) -> bool {
    &&& item.category == a.category
    &&& item.kind@ == a.kind
    &&& item.label@ == agg_label(a.kind, a.paths.len())
    &&& item.paths@.map_values(|p: String| p@) == a.paths
    &&& item.size == a.size
    &&& item.modified == a.modified
}

impl Walker {
    /// A walker that has gathered nothing yet.
    pub fn new() -> (res: Walker)
        ensures
            aggs_view(&res) == Seq::<AggView>::empty(),
    {
        let w = Walker { aggregates: Vec::new() };
        assert(aggs_view(&w) =~= Seq::<AggView>::empty());
        w
    }

    /// Gathers the cache directory `path` of `kind` (and `category`),
    /// `size` bytes large and last modified at `modified`.
    pub fn gather(
        &mut self,
        kind: &str,
        category: Category,
        path: &str,
        size: u64,
        modified: Option<Timestamp>,
    )
        requires
            kinds_distinct(aggs_view(old(self))),
        ensures
            kinds_distinct(aggs_view(final(self))),
            gathered(aggs_view(old(self)), aggs_view(final(self)), kind@, category, path@, size, modified),
    {
        let ghost before = aggs_view(self);
        let ghost vbefore = self.aggregates@;
        let n = self.aggregates.len();
        let mut i: usize = 0;
        while i < n
            invariant
                i <= n,
                n == self.aggregates@.len(),
                before == aggs_view(self),
                vbefore == self.aggregates@,
                before == aggs_view(old(self)),
                kinds_distinct(before),
                forall|j: int| 0 <= j < i ==> before[j].kind != kind@,
            decreases n - i,
        {
            if same_text(self.aggregates[i].kind.as_str(), kind) {
                let mut a = self.aggregates.remove(i);
                a.size = add_wrapping(a.size, size);
                a.paths.push(String::from_str(path));
                a.modified = newest(a.modified, modified);
                self.aggregates.insert(i, a);
                proof {
                    let after = aggs_view(self);
                    assert(before[i as int].kind == kind@);
                    assert forall|k: int| 0 <= k < before.len() && before[k].kind == kind@ implies k
                        == i by {
                        if k != i {
                            assert(before[k].kind != before[i as int].kind);
                        }
                    }
                    let c = choose|k: int| 0 <= k < before.len() && before[k].kind == kind@;
                    assert(c == i);
                    assert(after[i as int].paths =~= before[i as int].paths.push(path@));
                    assert(after[i as int] == AggView {
                        kind: kind@,
                        category: before[i as int].category,
                        size: ((before[i as int].size + size) % 0x1_0000_0000_0000_0000int) as u64,
                        paths: before[i as int].paths.push(path@),
                        modified: newest_spec(before[i as int].modified, modified),
                    });
                    assert(after.len() == before.len());
                    assert forall|j: int| 0 <= j < before.len() && j != i implies after[j]
                        == before[j] by {
                        assert(self.aggregates@[j] == vbefore[j]);
                    }
                    assert(gathered(before, after, kind@, category, path@, size, modified));
                    assert(kinds_distinct(after)) by {
                        assert forall|x: int, y: int|
                            0 <= x < after.len() && 0 <= y < after.len() && x != y implies after[x].kind
                            != after[y].kind by {
                            assert(after[x].kind == before[x].kind);
                            assert(after[y].kind == before[y].kind);
                        }
                    }
                }
                return;
            }
            i = i + 1;
        }
        let a = Agg {
            kind: String::from_str(kind),
            category,
            size,
            paths: vec![String::from_str(path)],
            modified,
        };
        self.aggregates.push(a);
        proof {
            let after = aggs_view(self);
            assert(after[n as int].paths =~= seq![path@]);
            assert(after =~= before.push(AggView { kind: kind@, category, size, paths: seq![path@], modified }));
        }
    }

    /// Turns every aggregate into one item, in the order the kinds were
    /// first met.
    pub fn finish(self) -> (res: Vec<ScanItem>)
        ensures
            res@.len() == aggs_view(&self).len(),
            forall|i: int| 0 <= i < res@.len() ==> agg_item(#[trigger] res@[i], aggs_view(&self)[i]),
    {
        let ghost start = aggs_view(&self);
        let mut rest = self.aggregates;
        let mut out: Vec<ScanItem> = Vec::new();
        let ghost total = rest@.len();
        while rest.len() > 0
            invariant
                total == start.len(),
                rest@.len() + out@.len() == total,
                forall|j: int| 0 <= j < rest@.len() ==> #[trigger] rest@[j]@ == start[out@.len() + j],
                forall|i: int| 0 <= i < out@.len() ==> agg_item(#[trigger] out@[i], start[i]),
            decreases rest@.len(),
        {
            let a = rest.remove(0);
            assert(a@ == start[out@.len() as int]);
            let n = a.paths.len();
            let mut label = a.kind.clone();
            label.append(" (");
            label.append(decimal_string(n as u128).as_str());
            label.append(" dir");
            if n != 1 {
                label.append("s");
            }
            label.append(")");
            let item = ScanItem {
                category: a.category,
                kind: a.kind,
                label,
                paths: a.paths,
                size: a.size,
                modified: a.modified,
            };
            proof {
                assert(item.paths@.map_values(|p: String| p@) =~= a@.paths);
            }
            out.push(item);
        }
        out
    }
}

} // verus!

verus! {

/// The caches of each kind come out as a single item: the items a walker
/// finishes with never share a kind.
pub proof fn lemma_one_item_per_kind(aggs: Seq<AggView>, items: Seq<ScanItem>)
    requires
        kinds_distinct(aggs),
        items.len() == aggs.len(),
        forall|i: int| 0 <= i < items.len() ==> agg_item(#[trigger] items[i], aggs[i]),
    ensures
        forall|i: int, j: int|
            0 <= i < items.len() && 0 <= j < items.len() && i != j ==> (#[trigger] items[i]).kind@
                != (#[trigger] items[j]).kind@,
{
    assert forall|i: int, j: int|
        0 <= i < items.len() && 0 <= j < items.len() && i != j implies (#[trigger] items[i]).kind@
            != (#[trigger] items[j]).kind@ by {
        assert(agg_item(items[i], aggs[i]));
        assert(agg_item(items[j], aggs[j]));
    }
}

} // verus!

verus! {

/// The aggregated caches are exactly the five cache directory names; each is
/// gathered under its own name, `.turbo` as a build cache and the other four
/// (`__pycache__`, `.pytest_cache`, `.mypy_cache`, `.ruff_cache`) as Python
/// caches.
pub proof fn lemma_aggregate_kinds(name: Seq<char>)
    ensures
        aggregate_kind_spec(name) is Some <==> (name == "__pycache__"@ || name == ".pytest_cache"@ || name
            == ".mypy_cache"@ || name == ".ruff_cache"@ || name == ".turbo"@),
        aggregate_kind_spec(name) matches Some((kind, category)) ==> kind == name && (category
            == Category::Build <==> name == ".turbo"@) && (category == Category::Python <==> name
            != ".turbo"@),
{
    reveal_strlit("__pycache__");
    reveal_strlit(".pytest_cache");
    reveal_strlit(".mypy_cache");
    reveal_strlit(".ruff_cache");
    reveal_strlit(".turbo");
    assert(".turbo"@.len() == 6);
    assert("__pycache__"@ != ".turbo"@);
    assert(".pytest_cache"@ != ".turbo"@);
    assert(".mypy_cache"@ != ".turbo"@);
    assert(".ruff_cache"@ != ".turbo"@);
}

/// A cache directory that no earlier rule claims (it is not `node_modules`,
/// holds no `pyvenv.cfg`, and is neither a Rust `target` nor a Next.js
/// `.next` beside its manifest) is aggregated under its own name, with the
/// category its kind belongs to.
pub proof fn lemma_cache_dirs_aggregate(f: DirFacts)
    requires
        aggregate_kind_spec(f.name@) is Some,
        !f.has_pyvenv_cfg,
    ensures
        visit_of(f) == (VisitView::Aggregate {
            kind: f.name@,
            category: if f.name@ == ".turbo"@ { Category::Build } else { Category::Python },
        }),
{
    lemma_aggregate_kinds(f.name@);
    reveal_strlit("node_modules");
    reveal_strlit("target");
    reveal_strlit(".next");
    reveal_strlit("__pycache__");
    reveal_strlit(".pytest_cache");
    reveal_strlit(".mypy_cache");
    reveal_strlit(".ruff_cache");
    reveal_strlit(".turbo");
    let n = f.name@;
    // every cache name starts with `.` or `_`, unlike the three names of the
    // earlier rules
    assert(n[0] == '.' || n[0] == '_');
    assert("node_modules"@[0] == 'n');
    assert("target"@[0] == 't');
    assert(".next"@.len() == 5 && n.len() != 5);
}

} // verus!

verus! {

/// The directories reported on their own, by kind: `node_modules` (a Node
/// item named after the project holding it), a virtualenv (a directory
/// holding `pyvenv.cfg`, a Python item named after itself), a Rust `target`
/// beside `Cargo.toml` and a Next.js `.next` beside `package.json` (build
/// items named after their project). A `node_modules` directory is always
/// reported on its own, and so is any other directory holding
/// `pyvenv.cfg`.
pub proof fn lemma_item_kinds(f: DirFacts)
    ensures
        f.name@ == "node_modules"@ ==> visit_of(f) == (VisitView::Item {
            category: Category::Node,
            kind: "node_modules"@,
            label_dir: parent_or_spec(f.path@),
        }),
        f.name@ != "node_modules"@ && f.has_pyvenv_cfg ==> visit_of(f) == (VisitView::Item {
            category: Category::Python,
            kind: "virtualenv"@,
            label_dir: f.path@,
        }),
        visit_of(f) matches VisitView::Item { category, kind, label_dir } ==> {
            ||| kind == "node_modules"@ && category == Category::Node && f.name@ == "node_modules"@
                && label_dir == parent_or_spec(f.path@)
            ||| kind == "virtualenv"@ && category == Category::Python && f.has_pyvenv_cfg && label_dir
                == f.path@
            ||| kind == "rust target"@ && category == Category::Build && f.name@ == "target"@
                && f.beside_cargo_toml && label_dir == parent_or_spec(f.path@)
            ||| kind == "next build"@ && category == Category::Build && f.name@ == ".next"@
                && f.beside_package_json && label_dir == parent_or_spec(f.path@)
        },
{
}

} // verus!
