use depot::paths::{dir_label, parent_or};
use depot::cli::{drive_roots, parse_categories, ScanArgs};
use depot::report::{grouped_report, json_rows, sort_largest_first};
use depot::scan::known::{
    conda_env_dirs, hf_label, hf_root, known_plan, local_dir, model_dirs, node_caches, python_caches,
    windows_node_caches, windows_python_caches, KnownProbe,
};
use depot::scan::walk::{visit, DirFacts, Visit, Walker};
use depot::scan::{emit, run_scan, total_size, Category, ScanItem, ScanOptions, ScanTask};
use depot::text::PathStyle;
use depot::util::Timestamp;

fn item(category: Category, kind: &str, size: u64, paths: &[&str]) -> ScanItem {
    ScanItem {
        category,
        kind: kind.to_string(),
        label: kind.to_string(),
        paths: paths.iter().map(|p| p.to_string()).collect(),
        size,
        modified: None,
    }
}

fn opts(categories: Option<Vec<Category>>, min_size: u64) -> ScanOptions {
    ScanOptions { roots: vec!["/r".to_string()], categories, min_size }
}

#[test]
fn category_names() {
    assert_eq!(Category::Node.label(), "node");
    assert_eq!(Category::Model.title(), "ML Models");
    assert_eq!(Category::Build.title(), "Build artifacts");
    assert_eq!(Category::ALL, [Category::Node, Category::Python, Category::Model, Category::Build]);
}

#[test]
fn category_parse_accepts_aliases() {
    assert_eq!(Category::parse("node"), Some(Category::Node));
    assert_eq!(Category::parse("  JavaScript "), Some(Category::Node));
    assert_eq!(Category::parse("npm"), Some(Category::Node));
    assert_eq!(Category::parse("Py"), Some(Category::Python));
    assert_eq!(Category::parse("ML"), Some(Category::Model));
    assert_eq!(Category::parse("models"), Some(Category::Model));
    assert_eq!(Category::parse("Artifacts"), Some(Category::Build));
    assert_eq!(Category::parse("rust"), None);
    assert_eq!(Category::parse(""), None);
}

#[test]
fn scan_args_become_options() {
    let args = ScanArgs {
        paths: vec!["/a".to_string()],
        categories: vec!["js".to_string(), "node".to_string(), "bogus".to_string(), "ml".to_string()],
        min_mb: 100,
        all_drives: false,
    };
    let o = args.to_options();
    assert_eq!(o.roots, vec!["/a".to_string()]);
    let mut cats = o.categories.unwrap();
    cats.sort_by_key(|c| c.order());
    assert_eq!(cats, vec![Category::Node, Category::Model]);
    assert_eq!(o.min_size, 100 * 1024 * 1024);

    let all = ScanArgs { paths: vec![], categories: vec![], min_mb: u64::MAX, all_drives: true };
    let o = all.to_options();
    assert_eq!(o.roots, vec!["/".to_string()]);
    assert!(o.categories.is_none());
    assert_eq!(o.min_size, u64::MAX);

    let default = ScanArgs::default().to_options();
    assert_eq!(default.roots.len(), 1);
    assert_eq!(parse_categories(&vec!["py".to_string(), "python".to_string()]), vec![Category::Python]);
}

#[test]
fn emit_filters_empty_unwanted_and_small_items() {
    let o = opts(Some(vec![Category::Node]), 10);
    assert!(emit(&o, item(Category::Node, "node_modules", 10, &["/x"])).is_some());
    assert!(emit(&o, item(Category::Node, "node_modules", 9, &["/x"])).is_none());
    assert!(emit(&o, item(Category::Python, "virtualenv", 100, &["/x"])).is_none());
    assert!(emit(&o, item(Category::Node, "node_modules", 100, &[])).is_none());
    let any = opts(None, 0);
    assert!(emit(&any, item(Category::Model, "torch hub", 1, &["/x"])).is_some());
    assert!(emit(&any, item(Category::Model, "torch hub", 0, &["/x"])).is_none());
}

#[test]
fn scan_plan_probes_then_walks_each_root() {
    let o = ScanOptions { roots: vec!["/a".to_string(), "/b".to_string()], categories: None, min_size: 0 };
    let plan: Vec<String> = run_scan(&o)
        .into_iter()
        .map(|t| match t {
            ScanTask::Status(s) => format!("status {s}"),
            ScanTask::Known => "known".to_string(),
            ScanTask::Walk(r) => format!("walk {r}"),
            ScanTask::Done => "done".to_string(),
        })
        .collect();
    assert_eq!(
        plan,
        vec![
            "status Checking caches, models & conda\u{2026}",
            "known",
            "status Scanning /a",
            "walk /a",
            "status Scanning /b",
            "walk /b",
            "done",
        ]
    );
}

fn facts(path: &str, name: &str, pyvenv: bool, cargo: bool, package: bool) -> DirFacts {
    DirFacts {
        path: path.to_string(),
        name: name.to_string(),
        has_pyvenv_cfg: pyvenv,
        beside_cargo_toml: cargo,
        beside_package_json: package,
    }
}

fn decide(f: DirFacts) -> String {
    match visit(&f) {
        Visit::Item { category, kind, label_dir } => format!("item {category:?} {kind} {label_dir}"),
        Visit::Aggregate { kind, category } => format!("aggregate {kind} {category:?}"),
        Visit::Prune => "prune".to_string(),
        Visit::Descend => "descend".to_string(),
    }
}

#[test]
fn walk_decisions() {
    assert_eq!(decide(facts("/w/app/node_modules", "node_modules", false, false, false)), "item Node node_modules /w/app");
    assert_eq!(decide(facts("/w/env", "env", true, false, false)), "item Python virtualenv /w/env");
    assert_eq!(decide(facts("/w/crate/target", "target", false, true, false)), "item Build rust target /w/crate");
    assert_eq!(decide(facts("/w/x/target", "target", false, false, false)), "descend");
    assert_eq!(decide(facts("/w/site/.next", ".next", false, false, true)), "item Build next build /w/site");
    assert_eq!(decide(facts("/w/p/__pycache__", "__pycache__", false, false, false)), "aggregate __pycache__ Python");
    assert_eq!(decide(facts("/w/.turbo", ".turbo", false, false, false)), "aggregate .turbo Build");
    assert_eq!(decide(facts("/w/.git", ".git", false, false, false)), "prune");
    assert_eq!(decide(facts("/w/src", "src", false, false, false)), "descend");
    // node_modules wins over everything else
    assert_eq!(decide(facts("/node_modules", "node_modules", true, true, true)), "item Node node_modules /");
}

#[test]
fn walker_aggregates_one_item_per_kind() {
    let mut w = Walker::new();
    let t1 = Some(Timestamp { before_epoch: false, secs: 10, nanos: 0 });
    let t2 = Some(Timestamp { before_epoch: false, secs: 20, nanos: 0 });
    w.gather("__pycache__", Category::Python, "/a/__pycache__", 5, t2);
    w.gather(".turbo", Category::Build, "/a/.turbo", 7, None);
    w.gather("__pycache__", Category::Python, "/b/__pycache__", u64::MAX, t1);
    let items = w.finish();
    assert_eq!(items.len(), 2);
    assert_eq!(items[0].kind, "__pycache__");
    assert_eq!(items[0].label, "__pycache__ (2 dirs)");
    assert_eq!(items[0].paths, vec!["/a/__pycache__".to_string(), "/b/__pycache__".to_string()]);
    assert_eq!(items[0].size, 4);
    assert_eq!(items[0].modified, t2);
    assert_eq!(items[1].label, ".turbo (1 dir)");
    assert_eq!(items[1].size, 7);
}

#[test]
fn known_locations() {
    let n = node_caches("/h", PathStyle::Unix);
    let n: Vec<(String, &str)> = n.into_iter().collect();
    assert_eq!(
        n,
        vec![
            ("/h/.npm/_cacache".to_string(), "npm cache"),
            ("/h/.cache/yarn".to_string(), "yarn cache"),
            ("/h/.local/share/pnpm/store".to_string(), "pnpm store"),
            ("/h/.bun/install/cache".to_string(), "bun cache"),
        ]
    );
    assert_eq!(
        python_caches("/h", PathStyle::Unix),
        vec![("/h/.cache/pip".to_string(), "pip cache"), ("/h/.cache/uv".to_string(), "uv cache")]
    );
    assert_eq!(hf_root(None, "/h", PathStyle::Unix), "/h/.cache/huggingface");
    assert_eq!(hf_root(Some("/models".to_string()), "/h", PathStyle::Unix), "/models");
    assert_eq!(model_dirs("/h", "/hf", PathStyle::Unix)[0], ("/hf/datasets".to_string(), "hf datasets"));
    assert_eq!(model_dirs("/h", "/hf", PathStyle::Unix)[3], ("/h/.keras/models".to_string(), "keras models"));
    assert_eq!(conda_env_dirs("/h", PathStyle::Unix)[1], "/h/miniconda3/envs");
}

#[test]
fn huggingface_labels() {
    assert_eq!(hf_label("models--meta-llama--Llama-2-7b"), Some("meta-llama/Llama-2-7b".to_string()));
    assert_eq!(hf_label("datasets--squad"), Some("squad".to_string()));
    assert_eq!(hf_label("models--a--b--c"), Some("a/b/c".to_string()));
    assert_eq!(hf_label("version.txt"), None);
    assert_eq!(hf_label(".locks"), None);
}

#[test]
fn largest_first_is_stable() {
    let items = vec![
        item(Category::Node, "a", 5, &["/a"]),
        item(Category::Node, "b", 9, &["/b"]),
        item(Category::Node, "c", 5, &["/c"]),
        item(Category::Node, "d", 9, &["/d"]),
    ];
    let sorted: Vec<String> = sort_largest_first(items).into_iter().map(|i| i.kind).collect();
    assert_eq!(sorted, vec!["b", "d", "a", "c"]);
}

#[test]
fn grouped_report_layout() {
    let now = Timestamp { before_epoch: false, secs: 10 * 86_400, nanos: 0 };
    let mut a = item(Category::Python, "virtualenv", 2048, &["/p/.venv"]);
    a.modified = Some(Timestamp { before_epoch: false, secs: 86_400, nanos: 0 });
    let b = item(Category::Node, "node_modules", 1024, &["/n/node_modules"]);
    let mut c = item(Category::Python, "__pycache__", 512, &["/x", "/y"]);
    c.label = "__pycache__ (2 dirs)".to_string();
    let text = grouped_report(&vec![a, b, c], now);
    let head = |title: &str, sub: &str, n: usize| {
        format!("\n\u{258d} {:<18} {:>12}   ({} item{})\n", title, sub, n, if n == 1 { "" } else { "s" })
    };
    let line = |size: &str, age: &str, name: &str| format!("    {:>10}  {:<10} {}\n", size, age, name);
    let expected = [
        head("Node / JavaScript", "1.0 KB", 1),
        line("1.0 KB", "\u{2014}", &format!("{:<14} {}", "node_modules", "/n/node_modules")),
        head("Python", "2.5 KB", 2),
        line("2.0 KB", "9d ago", &format!("{:<14} {}", "virtualenv", "/p/.venv")),
        line("512 B", "\u{2014}", "__pycache__ (2 dirs)"),
        "\n3 item(s) across 2 categories \u{b7} 3.5 KB reclaimable\n".to_string(),
    ]
    .concat();
    assert_eq!(text, expected);
}

#[test]
fn json_rows_carry_every_field() {
    let mut a = item(Category::Model, "huggingface", 1536, &["/m"]);
    a.label = "org/name".to_string();
    a.modified = Some(Timestamp { before_epoch: false, secs: 77, nanos: 5 });
    let rows = json_rows(&vec![a]);
    assert_eq!(rows.len(), 1);
    assert_eq!(rows[0].category, "model");
    assert_eq!(rows[0].label, "org/name");
    assert_eq!(rows[0].size_human, "1.5 KB");
    assert_eq!(rows[0].count, 1);
    assert_eq!(rows[0].modified_unix, Some(77));
    assert_eq!(rows[0].paths, vec!["/m".to_string()]);
}

#[test]
fn total_size_wraps() {
    let items = vec![item(Category::Node, "a", u64::MAX, &["/a"]), item(Category::Node, "b", 3, &["/b"])];
    assert_eq!(total_size(&items), 2);
}

#[test]
fn path_components() {
    assert_eq!(parent_or("/w/app/node_modules"), "/w/app");
    assert_eq!(parent_or("/"), "/");
    assert_eq!(dir_label("/w/app"), "app");
    assert_eq!(dir_label("/w/app/"), "app");
    assert_eq!(dir_label("/"), "/");
}

#[test]
fn grouped_report_sorts_each_group_largest_first() {
    let now = Timestamp { before_epoch: false, secs: 0, nanos: 0 };
    let a = item(Category::Node, "node_modules", 1024, &["/p/a/node_modules"]);
    let b = item(Category::Node, "node_modules", 2048, &["/p/b/node_modules"]);
    let c = item(Category::Node, "node_modules", 1024, &["/p/c/node_modules"]);
    let text = grouped_report(&vec![a, b, c], now);
    let line = |size: &str, path: &str| format!("    {:>10}  {:<10} {:<14} {}\n", size, "\u{2014}", "node_modules", path);
    let expected = [
        format!("\n\u{258d} {:<18} {:>12}   (3 items)\n", "Node / JavaScript", "4.0 KB"),
        line("2.0 KB", "/p/b/node_modules"),
        line("1.0 KB", "/p/a/node_modules"),
        line("1.0 KB", "/p/c/node_modules"),
        "\n3 item(s) across 1 categories \u{b7} 4.0 KB reclaimable\n".to_string(),
    ]
    .concat();
    assert_eq!(text, expected);
}

#[test]
fn windows_locations() {
    assert_eq!(local_dir(None, "C:\\Users\\u", PathStyle::Windows), "C:\\Users\\u\\AppData\\Local");
    assert_eq!(local_dir(Some("D:\\cache".to_string()), "C:\\Users\\u", PathStyle::Windows), "D:\\cache");
    assert_eq!(
        windows_node_caches("/h", "/l", PathStyle::Windows),
        vec![
            ("/l\\npm-cache".to_string(), "npm cache"),
            ("/l\\Yarn\\Cache".to_string(), "yarn cache"),
            ("/l\\pnpm\\store".to_string(), "pnpm store"),
            ("/h\\.bun\\install\\cache".to_string(), "bun cache"),
        ]
    );
    assert_eq!(
        windows_python_caches("/h", "/l", PathStyle::Windows),
        vec![
            ("/l\\pip\\Cache".to_string(), "pip cache"),
            ("/l\\uv\\cache".to_string(), "uv cache"),
            ("/h\\.cache\\uv".to_string(), "uv cache"),
        ]
    );
    let drives = drive_roots();
    assert_eq!(drives.len(), 26);
    assert_eq!(drives[0], "A:\\");
    assert_eq!(drives[25], "Z:\\");
}

#[test]
fn known_probes_run_in_order() {
    let plan: Vec<String> = known_plan(node_caches("/h", PathStyle::Unix), python_caches("/h", PathStyle::Unix), "/h", "/hf", PathStyle::Unix)
        .into_iter()
        .map(|p| match p {
            KnownProbe::Dir { category, kind, path } => format!("{category:?} {kind} {path}"),
            KnownProbe::HfHub(p) => format!("hub {p}"),
            KnownProbe::CondaEnvs(p) => format!("conda {p}"),
        })
        .collect();
    assert_eq!(plan.len(), 4 + 2 + 1 + 4 + 4);
    assert_eq!(plan[0], "Node npm cache /h/.npm/_cacache");
    assert_eq!(plan[4], "Python pip cache /h/.cache/pip");
    assert_eq!(plan[6], "hub /hf/hub");
    assert_eq!(plan[7], "Model hf datasets /hf/datasets");
    assert_eq!(plan[10], "Model keras models /h/.keras/models");
    assert_eq!(plan[11], "conda /h/anaconda3/envs");
    assert_eq!(plan[14], "conda /h/.conda/envs");
}
