//! Fixed, well-known locations: package-manager caches, ML model stores and
//! conda environments. These don't require walking the tree.

use vstd::prelude::*;
use vstd::string::*;

use super::{emit, Category, ScanItem, ScanOptions};
use crate::text::{has_prefix, join, path_join, PathStyle, replace_dashes, replaced_dashes, starts_with_text};
use crate::util::Timestamp;

verus! {

/// `home/a/b`.
pub open spec fn under(home: Seq<char>, a: Seq<char>, b: Seq<char>, style: PathStyle) -> Seq<char> {
    path_join(path_join(home, a, style), b, style)
}

/// The package-manager caches of the Node ecosystem, with their kinds.
pub open spec fn node_cache_list(home: Seq<char>, style: PathStyle) -> Seq<(Seq<char>, Seq<char>)> {
    seq![
        (under(home, ".npm"@, "_cacache"@, style), "npm cache"@),
        (under(home, ".cache"@, "yarn"@, style), "yarn cache"@),
        (path_join(path_join(under(home, ".local"@, "share"@, style), "pnpm"@, style), "store"@, style), "pnpm store"@),
        (path_join(under(home, ".bun"@, "install"@, style), "cache"@, style), "bun cache"@),
    ]
}

/// The package-manager caches of the Python ecosystem, with their kinds.
pub open spec fn python_cache_list(home: Seq<char>, style: PathStyle) -> Seq<(Seq<char>, Seq<char>)> {
    seq![(under(home, ".cache"@, "pip"@, style), "pip cache"@), (under(home, ".cache"@, "uv"@, style), "uv cache"@)]
}

/// The text of a list of (path, kind) pairs.
pub open spec fn pairs_text(v: Seq<(String, &'static str)>) -> Seq<(Seq<char>, Seq<char>)> {
    v.map_values(|p: (String, &'static str)| (p.0@, p.1@))
}

/// Node package-manager caches under `home`, with their kinds.
pub fn node_caches(home: &str, style: PathStyle) -> (res: Vec<(String, &'static str)>)
    ensures
        pairs_text(res@) == node_cache_list(home@, style),
{
    let npm = join(join(home, ".npm", style).as_str(), "_cacache", style);
    let yarn = join(join(home, ".cache", style).as_str(), "yarn", style);
    let share = join(join(home, ".local", style).as_str(), "share", style);
    let pnpm = join(join(share.as_str(), "pnpm", style).as_str(), "store", style);
    let bun = join(join(join(home, ".bun", style).as_str(), "install", style).as_str(), "cache", style);
    let res = vec![(npm, "npm cache"), (yarn, "yarn cache"), (pnpm, "pnpm store"), (bun, "bun cache")];
    assert(pairs_text(res@) =~= node_cache_list(home@, style));
    res
}

/// Python package-manager caches under `home`, with their kinds.
pub fn python_caches(home: &str, style: PathStyle) -> (res: Vec<(String, &'static str)>)
    ensures
        pairs_text(res@) == python_cache_list(home@, style),
{
    let pip = join(join(home, ".cache", style).as_str(), "pip", style);
    let uv = join(join(home, ".cache", style).as_str(), "uv", style);
    let res = vec![(pip, "pip cache"), (uv, "uv cache")];
    assert(pairs_text(res@) =~= python_cache_list(home@, style));
    res
}

/// The local application-data directory on Windows: the platform cache
/// directory when known, else `home/AppData/Local`.
pub open spec fn local_dir_spec(cache: Option<Seq<char>>, home: Seq<char>, style: PathStyle) -> Seq<char> {
    match cache {
        Some(c) => c,
        None => under(home, "AppData"@, "Local"@, style),
    }
}

/// The local application-data directory on Windows, given the platform
/// cache directory if it is known.
pub fn local_dir(cache: Option<String>, home: &str, style: PathStyle) -> (res: String)
    ensures
        res@ == local_dir_spec(
            match cache {
                Some(c) => Some(c@),
                None => None,
            },
            home@,
            style,
        ),
{
    match cache {
        Some(c) => c,
        None => join(join(home, "AppData", style).as_str(), "Local", style),
    }
}

/// Calls `dirs::cache_dir`, giving the path's text. Nothing is promised of
/// the result: it comes from the environment.
#[verifier::external_body]
pub(crate) fn cache_dir() -> (res: Option<String>) {
    match dirs::cache_dir() {
        Some(p) => Some(p.to_string_lossy().into_owned()),
        None => None,
    }
}

/// The local application-data directory on Windows for `home`. Which
/// directory it is depends on the environment; [`local_dir`] states what
/// becomes of each lookup.
pub fn windows_local_dir(home: &str, style: PathStyle) -> (res: String)
    ensures
        exists|c: Option<Seq<char>>| res@ == local_dir_spec(c, home@, style),
{
    let cache = cache_dir();
    let ghost c = match &cache {
        Some(x) => Some(x@),
        None => None,
    };
    let res = local_dir(cache, home, style);
    assert(res@ == local_dir_spec(c, home@, style));
    res
}

/// The Node package-manager caches on Windows, under the local
/// application-data directory `local` and `home`, with their kinds.
pub open spec fn windows_node_cache_list(
    home: Seq<char>,
    local: Seq<char>,
    style: PathStyle,
) -> Seq<(Seq<char>, Seq<char>)> {
    seq![
        (path_join(local, "npm-cache"@, style), "npm cache"@),
        (under(local, "Yarn"@, "Cache"@, style), "yarn cache"@),
        (under(local, "pnpm"@, "store"@, style), "pnpm store"@),
        (path_join(under(home, ".bun"@, "install"@, style), "cache"@, style), "bun cache"@),
    ]
}

/// The Python package-manager caches on Windows, with their kinds.
pub open spec fn windows_python_cache_list(
    home: Seq<char>,
    local: Seq<char>,
    style: PathStyle,
) -> Seq<(Seq<char>, Seq<char>)> {
    seq![
        (under(local, "pip"@, "Cache"@, style), "pip cache"@),
        (under(local, "uv"@, "cache"@, style), "uv cache"@),
        (under(home, ".cache"@, "uv"@, style), "uv cache"@),
    ]
}

/// Node package-manager caches on Windows, with their kinds.
pub fn windows_node_caches(home: &str, local: &str, style: PathStyle) -> (res: Vec<(String, &'static str)>)
    ensures
        pairs_text(res@) == windows_node_cache_list(home@, local@, style),
{
    let npm = join(local, "npm-cache", style);
    let yarn = join(join(local, "Yarn", style).as_str(), "Cache", style);
    let pnpm = join(join(local, "pnpm", style).as_str(), "store", style);
    let bun = join(join(join(home, ".bun", style).as_str(), "install", style).as_str(), "cache", style);
    let res = vec![(npm, "npm cache"), (yarn, "yarn cache"), (pnpm, "pnpm store"), (bun, "bun cache")];
    assert(pairs_text(res@) =~= windows_node_cache_list(home@, local@, style));
    res
}

/// Python package-manager caches on Windows, with their kinds.
pub fn windows_python_caches(home: &str, local: &str, style: PathStyle) -> (res: Vec<(String, &'static str)>)
    ensures
        pairs_text(res@) == windows_python_cache_list(home@, local@, style),
{
    let pip = join(join(local, "pip", style).as_str(), "Cache", style);
    let uv = join(join(local, "uv", style).as_str(), "cache", style);
    let home_uv = join(join(home, ".cache", style).as_str(), "uv", style);
    let res = vec![(pip, "pip cache"), (uv, "uv cache"), (home_uv, "uv cache")];
    assert(pairs_text(res@) =~= windows_python_cache_list(home@, local@, style));
    res
}

/// The HuggingFace cache root: `HF_HOME` when set, else
/// `home/.cache/huggingface`.
pub open spec fn hf_root_spec(hf_home: Option<Seq<char>>, home: Seq<char>, style: PathStyle) -> Seq<char> {
    match hf_home {
        Some(h) => h,
        None => under(home, ".cache"@, "huggingface"@, style),
    }
}

/// The HuggingFace cache root, given the value of `HF_HOME` if it is set.
pub fn hf_root(hf_home: Option<String>, home: &str, style: PathStyle) -> (res: String)
    ensures
        res@ == hf_root_spec(
            match hf_home {
                Some(h) => Some(h@),
                None => None,
            },
            home@,
            style,
        ),
{
    match hf_home {
        Some(h) => h,
        None => join(join(home, ".cache", style).as_str(), "huggingface", style),
    }
}

/// The fixed model stores, each reported as one row: HuggingFace datasets,
/// the torch hub, Ollama models and Keras models.
pub open spec fn model_dir_list(home: Seq<char>, hf: Seq<char>, style: PathStyle) -> Seq<(Seq<char>, Seq<char>)> {
    seq![
        (path_join(hf, "datasets"@, style), "hf datasets"@),
        (under(home, ".cache"@, "torch"@, style), "torch hub"@),
        (under(home, ".ollama"@, "models"@, style), "ollama models"@),
        (under(home, ".keras"@, "models"@, style), "keras models"@),
    ]
}

/// The fixed model stores under `home` and the HuggingFace root `hf`.
pub fn model_dirs(home: &str, hf: &str, style: PathStyle) -> (res: Vec<(String, &'static str)>)
    ensures
        pairs_text(res@) == model_dir_list(home@, hf@, style),
{
    let datasets = join(hf, "datasets", style);
    let torch = join(join(home, ".cache", style).as_str(), "torch", style);
    let ollama = join(join(home, ".ollama", style).as_str(), "models", style);
    let keras = join(join(home, ".keras", style).as_str(), "models", style);
    let res = vec![
        (datasets, "hf datasets"),
        (torch, "torch hub"),
        (ollama, "ollama models"),
        (keras, "keras models"),
    ];
    assert(pairs_text(res@) =~= model_dir_list(home@, hf@, style));
    res
}

/// The display name of a HuggingFace hub cache entry: entries named
/// `models--org--name` or `datasets--org--name` become `org/name`; any
/// other entry is not a model.
pub open spec fn hf_label_spec(raw: Seq<char>) -> Option<Seq<char>> {
    if has_prefix(raw, "models--"@) {
        Some(replace_dashes(raw.skip("models--"@.len() as int)))
    } else if has_prefix(raw, "datasets--"@) {
        Some(replace_dashes(raw.skip("datasets--"@.len() as int)))
    } else {
        None
    }
}

/// The display name of a HuggingFace hub cache entry, or `None` when the
/// entry is not a model or dataset.
pub fn hf_label(raw: &str) -> (res: Option<String>)
    ensures
        match res {
            Some(l) => hf_label_spec(raw@) == Some(l@),
            None => hf_label_spec(raw@) is None,
        },
{
    let models = "models--";
    let datasets = "datasets--";
    if starts_with_text(raw, models) {
        let k = models.unicode_len();
        let rest = raw.substring_char(k, raw.unicode_len());
        assert(rest@ =~= raw@.skip(models@.len() as int));
        Some(replaced_dashes(rest))
    } else if starts_with_text(raw, datasets) {
        let k = datasets.unicode_len();
        let rest = raw.substring_char(k, raw.unicode_len());
        assert(rest@ =~= raw@.skip(datasets@.len() as int));
        Some(replaced_dashes(rest))
    } else {
        None
    }
}

/// The `envs` directories of the known conda installations under `home`.
pub open spec fn conda_env_dir_list(home: Seq<char>, style: PathStyle) -> Seq<Seq<char>> {
    seq![
        under(home, "anaconda3"@, "envs"@, style),
        under(home, "miniconda3"@, "envs"@, style),
        under(home, "miniforge3"@, "envs"@, style),
        under(home, ".conda"@, "envs"@, style),
    ]
}

/// The `envs` directories of the known conda installations under `home`.
pub fn conda_env_dirs(home: &str, style: PathStyle) -> (res: Vec<String>)
    ensures
        res@.map_values(|s: String| s@) == conda_env_dir_list(home@, style),
{
    let res = vec![
        join(join(home, "anaconda3", style).as_str(), "envs", style),
        join(join(home, "miniconda3", style).as_str(), "envs", style),
        join(join(home, "miniforge3", style).as_str(), "envs", style),
        join(join(home, ".conda", style).as_str(), "envs", style),
    ];
    assert(res@.map_values(|s: String| s@) =~= conda_env_dir_list(home@, style));
    res
}

/// One known location as a row: `kind` is also its label, `path` its only
/// path.
pub open spec fn single_item(
    item: ScanItem,
    category: Category,
    kind: Seq<char>,
    label: Seq<char>,
    path: Seq<char>,
    size: u64,
    modified: Option<Timestamp>,
) -> bool {
    &&& item.category == category
    &&& item.kind@ == kind
    &&& item.label@ == label
    &&& item.paths@.len() == 1
    &&& item.paths@[0]@ == path
    &&& item.size == size
    &&& item.modified == modified
}

/// Builds a one-path item and passes it through the filters.
fn emit_single(
    opts: &ScanOptions,
    category: Category,
    kind: &str,
    label: String,
    path: &str,
    size: u64,
    modified: Option<Timestamp>,
) -> (res: Option<ScanItem>)
    ensures
        match res {
            Some(it) => single_item(it, category, kind@, label@, path@, size, modified) && opts.keeps(&it),
            None => forall|it: ScanItem|
                single_item(it, category, kind@, label@, path@, size, modified) ==> !opts.keeps(&it),
        },
{
    let item = ScanItem {
        category,
        kind: String::from_str(kind),
        label,
        paths: vec![String::from_str(path)],
        size,
        modified,
    };
    emit(opts, item)
}

/// The row of a fixed location (a cache or model store) of `kind`, labelled
/// by its kind, after the filters.
pub fn emit_dir(
    opts: &ScanOptions,
    category: Category,
    kind: &str,
    path: &str,
    size: u64,
    modified: Option<Timestamp>,
) -> (res: Option<ScanItem>)
    ensures
        match res {
            Some(it) => single_item(it, category, kind@, kind@, path@, size, modified) && opts.keeps(&it),
            None => forall|it: ScanItem|
                single_item(it, category, kind@, kind@, path@, size, modified) ==> !opts.keeps(&it),
        },
{
    emit_single(opts, category, kind, String::from_str(kind), path, size, modified)
}

/// The row of one HuggingFace hub model or dataset, labelled `org/name`,
/// after the filters.
pub fn emit_huggingface(
    opts: &ScanOptions,
    label: String,
    path: &str,
    size: u64,
    modified: Option<Timestamp>,
) -> (res: Option<ScanItem>)
    ensures
        match res {
            Some(it) => single_item(it, Category::Model, "huggingface"@, label@, path@, size, modified)
                && opts.keeps(&it),
            None => forall|it: ScanItem|
                single_item(it, Category::Model, "huggingface"@, label@, path@, size, modified)
                    ==> !opts.keeps(&it),
        },
{
    emit_single(opts, Category::Model, "huggingface", label, path, size, modified)
}

/// The row of one conda environment, labelled by its name, after the
/// filters.
pub fn emit_conda_env(
    opts: &ScanOptions,
    name: String,
    path: &str,
    size: u64,
    modified: Option<Timestamp>,
) -> (res: Option<ScanItem>)
    ensures
        match res {
            Some(it) => single_item(it, Category::Python, "conda env"@, name@, path@, size, modified)
                && opts.keeps(&it),
            None => forall|it: ScanItem|
                single_item(it, Category::Python, "conda env"@, name@, path@, size, modified)
                    ==> !opts.keeps(&it),
        },
{
    emit_single(opts, Category::Python, "conda env", name, path, size, modified)
}

} // verus!

verus! {

/// One probe of the well-known locations.
pub enum KnownProbe {
    /// Report this directory as one row of `category` and `kind`.
    Dir { category: Category, kind: &'static str, path: String },
    /// Report each model or dataset in this HuggingFace hub directory.
    HfHub(String),
    /// Report each conda environment in this `envs` directory.
    CondaEnvs(String),
}

/// A probe as text.
pub enum KnownProbeView {
    Dir { category: Category, kind: Seq<char>, path: Seq<char> },
    HfHub(Seq<char>),
    CondaEnvs(Seq<char>),
}

impl View for KnownProbe {
    type V = KnownProbeView;

    open spec fn view(&self) -> KnownProbeView {
        match self {
            KnownProbe::Dir { category, kind, path } => KnownProbeView::Dir {
                category: *category,
                kind: kind@,
                path: path@,
            },
            KnownProbe::HfHub(p) => KnownProbeView::HfHub(p@),
            KnownProbe::CondaEnvs(p) => KnownProbeView::CondaEnvs(p@),
        }
    }
}

/// One row probe per (path, kind) pair, all of `category`.
pub open spec fn dir_probes(category: Category, list: Seq<(Seq<char>, Seq<char>)>) -> Seq<KnownProbeView> {
    list.map_values(|p: (Seq<char>, Seq<char>)| KnownProbeView::Dir { category, kind: p.1, path: p.0 })
}

/// The probes of the well-known locations, in order: the Node caches, the
/// Python caches, the HuggingFace hub models, the other model stores, then
/// the conda environments.
pub open spec fn known_plan_spec(
    node: Seq<(Seq<char>, Seq<char>)>,
    python: Seq<(Seq<char>, Seq<char>)>,
    home: Seq<char>,
    hf: Seq<char>,
    style: PathStyle,
) -> Seq<KnownProbeView> {
    dir_probes(Category::Node, node) + dir_probes(Category::Python, python) + seq![
        KnownProbeView::HfHub(path_join(hf, "hub"@, style)),
    ] + dir_probes(Category::Model, model_dir_list(home, hf, style)) + conda_env_dir_list(home, style).map_values(
        |p: Seq<char>| KnownProbeView::CondaEnvs(p),
    )
}

fn push_dirs(out: &mut Vec<KnownProbe>, category: Category, list: Vec<(String, &'static str)>)
    ensures
        final(out)@.map_values(|k: KnownProbe| k@) == old(out)@.map_values(|k: KnownProbe| k@) + dir_probes(
            category,
            pairs_text(list@),
        ),
{
    let ghost start = out@.map_values(|k: KnownProbe| k@);
    let ghost all = pairs_text(list@);
    let mut rest = list;
    let mut done: usize = 0;
    let n = rest.len();
    assert(all.len() == n);
    while rest.len() > 0
        invariant
            all.len() <= usize::MAX,
            done + rest@.len() == all.len(),
            pairs_text(rest@) == all.subrange(done as int, all.len() as int),
            out@.map_values(|k: KnownProbe| k@) == start + dir_probes(category, all.subrange(0, done as int)),
        decreases rest@.len(),
    {
        let ghost before = out@;
        let ghost old_rest = rest@;
        let (path, kind) = rest.remove(0);
        proof {
            assert(pairs_text(old_rest)[0] == all.subrange(done as int, all.len() as int)[0]);
            assert(all[done as int] == (path@, kind@));
            assert(rest@ =~= old_rest.subrange(1, old_rest.len() as int));
            assert(pairs_text(rest@) =~= pairs_text(old_rest).subrange(1, old_rest.len() as int));
        }
        out.push(KnownProbe::Dir { category, kind, path });
        proof {
            assert(pairs_text(rest@) =~= all.subrange(done + 1, all.len() as int));
            assert(all.subrange(0, done + 1) =~= all.subrange(0, done as int).push(all[done as int]));
            assert(out@.map_values(|k: KnownProbe| k@) =~= before.map_values(|k: KnownProbe| k@).push(
                KnownProbeView::Dir { category, kind: kind@, path: path@ },
            ));
            assert(dir_probes(category, all.subrange(0, done + 1)) =~= dir_probes(
                category,
                all.subrange(0, done as int),
            ).push(KnownProbeView::Dir { category, kind: kind@, path: path@ }));
        }
        done = done + 1;
    }
    assert(all.subrange(0, done as int) =~= all);
}

/// The probes of the well-known locations under `home` (with the Node and
/// Python caches of the platform and the HuggingFace root `hf`), in the
/// order they run.
pub fn known_plan(
    node: Vec<(String, &'static str)>,
    python: Vec<(String, &'static str)>,
    home: &str,
    hf: &str,
    style: PathStyle,
) -> (res: Vec<KnownProbe>)
    ensures
        res@.map_values(|k: KnownProbe| k@) == known_plan_spec(pairs_text(node@), pairs_text(python@), home@, hf@, style),
{
    let mut out: Vec<KnownProbe> = Vec::new();
    assert(out@.map_values(|k: KnownProbe| k@) =~= Seq::<KnownProbeView>::empty());
    push_dirs(&mut out, Category::Node, node);
    push_dirs(&mut out, Category::Python, python);
    let ghost before = out@;
    out.push(KnownProbe::HfHub(join(hf, "hub", style)));
    assert(out@.map_values(|k: KnownProbe| k@) =~= before.map_values(|k: KnownProbe| k@) + seq![
        KnownProbeView::HfHub(path_join(hf@, "hub"@, style)),
    ]);
    push_dirs(&mut out, Category::Model, model_dirs(home, hf, style));
    let envs = conda_env_dirs(home, style);
    let ghost mid = out@.map_values(|k: KnownProbe| k@);
    let mut i: usize = 0;
    while i < envs.len()
        invariant
            i <= envs@.len(),
            envs@.map_values(|s: String| s@) == conda_env_dir_list(home@, style),
            out@.map_values(|k: KnownProbe| k@) == mid + envs@.subrange(0, i as int).map_values(
                |s: String| KnownProbeView::CondaEnvs(s@),
            ),
        decreases envs@.len() - i,
    {
        let ghost b = out@;
        out.push(KnownProbe::CondaEnvs(envs[i].clone()));
        proof {
            assert(out@.map_values(|k: KnownProbe| k@) =~= b.map_values(|k: KnownProbe| k@).push(
                KnownProbeView::CondaEnvs(envs@[i as int]@),
            ));
            assert(envs@.subrange(0, i + 1).map_values(|s: String| KnownProbeView::CondaEnvs(s@))
                =~= envs@.subrange(0, i as int).map_values(|s: String| KnownProbeView::CondaEnvs(s@)).push(
                KnownProbeView::CondaEnvs(envs@[i as int]@),
            ));
        }
        i = i + 1;
    }
    proof {
        assert(envs@.subrange(0, i as int) =~= envs@);
        assert(envs@.map_values(|s: String| KnownProbeView::CondaEnvs(s@)) =~= conda_env_dir_list(
            home@,
            style,
        ).map_values(|p: Seq<char>| KnownProbeView::CondaEnvs(p)));
    }
    out
}

} // verus!

verus! {

/// In a list of (path, kind) pairs, the kind `kind` is present and every
/// entry of that kind is at `path`.
pub open spec fn kind_located(list: Seq<(Seq<char>, Seq<char>)>, kind: Seq<char>, path: Seq<char>) -> bool {
    &&& exists|i: int| 0 <= i < list.len() && (#[trigger] list[i]).1 == kind
    &&& forall|i: int| 0 <= i < list.len() && (#[trigger] list[i]).1 == kind ==> list[i].0 == path
}

/// Each model store is reported under its own name at its own place: HF
/// datasets in the HuggingFace root's `datasets`, the torch hub in
/// `~/.cache/torch`, Ollama models in `~/.ollama/models` and Keras models in
/// `~/.keras/models`; there are no others.
pub proof fn lemma_model_stores(home: Seq<char>, hf: Seq<char>, style: PathStyle)
    ensures
        model_dir_list(home, hf, style).len() == 4,
        kind_located(model_dir_list(home, hf, style), "hf datasets"@, path_join(hf, "datasets"@, style)),
        kind_located(model_dir_list(home, hf, style), "torch hub"@, under(home, ".cache"@, "torch"@, style)),
        kind_located(model_dir_list(home, hf, style), "ollama models"@, under(home, ".ollama"@, "models"@, style)),
        kind_located(model_dir_list(home, hf, style), "keras models"@, under(home, ".keras"@, "models"@, style)),
{
    let l = model_dir_list(home, hf, style);
    reveal_strlit("hf datasets");
    reveal_strlit("torch hub");
    reveal_strlit("ollama models");
    reveal_strlit("keras models");
    assert(l[0].1.len() == 11 && l[1].1.len() == 9 && l[2].1.len() == 13 && l[3].1.len() == 12);
}

/// Each Node package-manager cache is reported under its own name at its own
/// place: npm's `~/.npm/_cacache`, yarn's `~/.cache/yarn`, pnpm's
/// `~/.local/share/pnpm/store` and bun's `~/.bun/install/cache`.
pub proof fn lemma_node_caches(home: Seq<char>, style: PathStyle)
    ensures
        node_cache_list(home, style).len() == 4,
        kind_located(node_cache_list(home, style), "npm cache"@, under(home, ".npm"@, "_cacache"@, style)),
        kind_located(node_cache_list(home, style), "yarn cache"@, under(home, ".cache"@, "yarn"@, style)),
        kind_located(
            node_cache_list(home, style),
            "pnpm store"@,
            path_join(path_join(under(home, ".local"@, "share"@, style), "pnpm"@, style), "store"@, style),
        ),
        kind_located(
            node_cache_list(home, style),
            "bun cache"@,
            path_join(under(home, ".bun"@, "install"@, style), "cache"@, style),
        ),
{
    let l = node_cache_list(home, style);
    reveal_strlit("npm cache");
    reveal_strlit("yarn cache");
    reveal_strlit("pnpm store");
    reveal_strlit("bun cache");
    assert(l[0].1[0] == 'n' && l[1].1[0] == 'y' && l[2].1[0] == 'p' && l[3].1[0] == 'b');
}

/// Each Python package-manager cache is reported under its own name at its
/// own place: pip's `~/.cache/pip` and uv's `~/.cache/uv`.
pub proof fn lemma_python_caches(home: Seq<char>, style: PathStyle)
    ensures
        python_cache_list(home, style).len() == 2,
        kind_located(python_cache_list(home, style), "pip cache"@, under(home, ".cache"@, "pip"@, style)),
        kind_located(python_cache_list(home, style), "uv cache"@, under(home, ".cache"@, "uv"@, style)),
{
    let l = python_cache_list(home, style);
    reveal_strlit("pip cache");
    reveal_strlit("uv cache");
    assert(l[0].1.len() == 9 && l[1].1.len() == 8);
}

/// On Windows, each Node cache is reported under its own name at its own
/// place: npm's and pnpm's under the local application-data directory
/// (`npm-cache`, `pnpm/store`), yarn's in `Yarn/Cache` there, and bun's in
/// `~/.bun/install/cache`.
pub proof fn lemma_windows_node_caches(home: Seq<char>, local: Seq<char>, style: PathStyle)
    ensures
        windows_node_cache_list(home, local, style).len() == 4,
        kind_located(windows_node_cache_list(home, local, style), "npm cache"@, path_join(local, "npm-cache"@, style)),
        kind_located(windows_node_cache_list(home, local, style), "yarn cache"@, under(local, "Yarn"@, "Cache"@, style)),
        kind_located(windows_node_cache_list(home, local, style), "pnpm store"@, under(local, "pnpm"@, "store"@, style)),
        kind_located(
            windows_node_cache_list(home, local, style),
            "bun cache"@,
            path_join(under(home, ".bun"@, "install"@, style), "cache"@, style),
        ),
{
    let l = windows_node_cache_list(home, local, style);
    reveal_strlit("npm cache");
    reveal_strlit("yarn cache");
    reveal_strlit("pnpm store");
    reveal_strlit("bun cache");
    assert(l[0].1[0] == 'n' && l[1].1[0] == 'y' && l[2].1[0] == 'p' && l[3].1[0] == 'b');
}

} // verus!
