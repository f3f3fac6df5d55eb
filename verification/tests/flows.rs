use depot::cli::HubAction;
use depot::hub::registry::{Project, Registry};
use depot::hub::{HubContext, HubFlow};
use depot::project::{launch_line, Event, ProjectFiles, Step, ToolCall};
use depot::run::{manifest_paths, node_fresh, stamp_path, FreshFacts, RunContext, RunFlow};
use depot::scan::{Category, ScanItem};
use depot::text::PathStyle;
use depot::util::Timestamp;

fn node_files() -> ProjectFiles {
    ProjectFiles { package_json: true, pyproject_toml: false, requirements_txt: false }
}

fn py_files(pyproject: bool, requirements: bool) -> ProjectFiles {
    ProjectFiles { package_json: false, pyproject_toml: pyproject, requirements_txt: requirements }
}

fn ctx(files: ProjectFiles, fresh: bool, venv: bool) -> RunContext {
    RunContext {
        dir: "/work/app".to_string(),
        files,
        has_venv: venv,
        node_fresh: fresh,
        pnpm_store: "/home/u/.depot/store/pnpm".to_string(),
        uv_cache: "/home/u/.depot/store/uv".to_string(),
        style: PathStyle::Unix,
    }
}

/// A step as a short description, so scenarios read as plain lists.
fn show(step: &Step) -> String {
    match step {
        Step::Say(s) => format!("say {s}"),
        Step::CheckTool(p) => format!("check {p}"),
        Step::Launch(c) => format!("launch {}", describe(c)),
        Step::TryLaunch(c) => format!("try {}", describe(c)),
        Step::PrepareStore => "prepare".to_string(),
        Step::WriteStamp(p) => format!("stamp {p}"),
        Step::Register { path, ecosystem } => format!("register {path} {ecosystem}"),
        Step::SetEnv { key, value } => format!("setenv {key}={value}"),
        Step::SaveConfig(c) => format!("save {} {} {}", c.initialized, c.pnpm_store, c.uv_cache),
        Step::MeasureDir(p) => format!("measure {p}"),
        Step::MeasureStore => "measure store".to_string(),
        Step::LoadRegistry => "load registry".to_string(),
        Step::Scan(o) => format!("scan {:?} {:?} {}", o.roots, o.categories, o.min_size),
        Step::Finish(Ok(())) => "finish ok".to_string(),
        Step::Finish(Err(e)) => format!("finish err {e}"),
    }
}

fn describe(c: &ToolCall) -> String {
    let env: Vec<String> = c.env.iter().map(|(k, v)| format!("{k}={v}")).collect();
    format!("{} {} [{}]", c.program, c.args.join(" "), env.join(","))
}

fn drive_run(mut flow: RunFlow, first: Step, answers: Vec<Event>) -> Vec<String> {
    let mut out = vec![show(&first)];
    for ev in answers {
        let step = flow.next(ev);
        out.push(show(&step));
    }
    out
}

fn drive_hub(mut flow: HubFlow, first: Step, answers: Vec<Event>) -> Vec<String> {
    let mut out = vec![show(&first)];
    for ev in answers {
        let step = flow.next(ev);
        out.push(show(&step));
    }
    out
}

fn yes() -> Event {
    Event::Flag(true)
}

fn no() -> Event {
    Event::Flag(false)
}

#[test]
fn ensure_outside_a_project_is_refused() {
    let err = depot::run::ensure(ctx(py_files(false, false), false, false)).err().unwrap();
    assert_eq!(
        err,
        "not a Node or Python project here (need package.json / pyproject.toml / requirements.txt)"
    );
}

#[test]
fn ensure_node_installs_then_stamps_and_registers() {
    let (flow, first) = depot::run::ensure(ctx(node_files(), false, false)).ok().unwrap();
    let steps = drive_run(flow, first, vec![yes(), yes(), yes(), yes(), yes(), yes()]);
    assert_eq!(
        steps,
        vec![
            "prepare",
            "check pnpm",
            "launch pnpm install --store-dir /home/u/.depot/store/pnpm []",
            "stamp /work/app/node_modules/.depot-stamp",
            "register /work/app node",
            "say \u{2713} node project ready \u{2014} deps linked from the shared store",
            "finish ok",
        ]
    );
}

#[test]
fn ensure_node_fresh_skips_install() {
    let (flow, first) = depot::run::ensure(ctx(node_files(), true, false)).ok().unwrap();
    let steps = drive_run(flow, first, vec![yes(), yes(), yes(), yes()]);
    assert_eq!(
        steps,
        vec![
            "prepare",
            "say \u{2022} deps already assembled from the store (skipping install)",
            "register /work/app node",
            "say \u{2713} node project ready \u{2014} deps linked from the shared store",
            "finish ok",
        ]
    );
}

#[test]
fn ensure_without_pnpm_fails_before_registering() {
    let (flow, first) = depot::run::ensure(ctx(node_files(), false, false)).ok().unwrap();
    let steps = drive_run(flow, first, vec![yes(), no()]);
    assert_eq!(
        steps.last().unwrap(),
        "finish err pnpm is required for Node projects \u{2014} `npm install -g pnpm` or run `depot hub init`"
    );
}

#[test]
fn ensure_failed_install_registers_then_reports() {
    let (flow, first) = depot::run::ensure(ctx(node_files(), false, false)).ok().unwrap();
    let steps = drive_run(flow, first, vec![yes(), yes(), no(), yes()]);
    assert_eq!(steps[3], "register /work/app node");
    assert_eq!(steps[4], "finish err dependency install reported an error");
}

#[test]
fn ensure_requirements_project_makes_venv_then_installs() {
    let (flow, first) = depot::run::ensure(ctx(py_files(false, true), false, false)).ok().unwrap();
    let steps = drive_run(flow, first, vec![yes(), yes(), yes(), yes(), yes()]);
    assert_eq!(
        steps,
        vec![
            "prepare",
            "launch uv venv [UV_CACHE_DIR=/home/u/.depot/store/uv]",
            "launch uv pip install -r requirements.txt [UV_CACHE_DIR=/home/u/.depot/store/uv]",
            "register /work/app python",
            "say \u{2713} python project ready \u{2014} deps linked from the shared store",
            "finish ok",
        ]
    );
}

#[test]
fn ensure_pyproject_syncs() {
    let (flow, first) = depot::run::ensure(ctx(py_files(true, true), false, true)).ok().unwrap();
    let steps = drive_run(flow, first, vec![yes(), no(), yes()]);
    assert_eq!(
        steps,
        vec![
            "prepare",
            "launch uv sync [UV_CACHE_DIR=/home/u/.depot/store/uv]",
            "register /work/app python",
            "finish err dependency install reported an error",
        ]
    );
}

#[test]
fn run_node_script_after_assembling() {
    let args = vec!["dev".to_string(), "--port".to_string(), "3000".to_string()];
    let (flow, first) = depot::run::run(args, ctx(node_files(), true, false)).ok().unwrap();
    let steps = drive_run(flow, first, vec![yes(), yes(), yes(), yes()]);
    assert_eq!(
        steps,
        vec![
            "prepare",
            "say \u{2022} deps already assembled from the store (skipping install)",
            "register /work/app node",
            "launch pnpm run dev --port 3000 []",
            "finish ok",
        ]
    );
}

#[test]
fn run_node_without_script_is_refused_after_registering() {
    let (flow, first) = depot::run::run(Vec::new(), ctx(node_files(), true, false)).ok().unwrap();
    let steps = drive_run(flow, first, vec![yes(), yes(), yes()]);
    assert_eq!(steps[2], "register /work/app node");
    assert_eq!(steps[3], "finish err specify a script to run, e.g. `depot run dev`");
}

#[test]
fn run_node_ignores_install_result() {
    let args = vec!["build".to_string()];
    let (flow, first) = depot::run::run(args, ctx(node_files(), false, false)).ok().unwrap();
    let steps = drive_run(flow, first, vec![yes(), yes(), no(), yes(), yes()]);
    assert_eq!(steps[3], "register /work/app node");
    assert_eq!(steps[4], "launch pnpm run build []");
    assert_eq!(steps[5], "finish ok");
}

#[test]
fn run_python_uses_uv_run() {
    let args = vec!["pytest".to_string(), "-x".to_string()];
    let (flow, first) = depot::run::run(args, ctx(py_files(true, false), false, false)).ok().unwrap();
    let steps = drive_run(flow, first, vec![yes(), yes(), no()]);
    assert_eq!(
        steps,
        vec![
            "prepare",
            "register /work/app python",
            "launch uv run pytest -x [UV_CACHE_DIR=/home/u/.depot/store/uv]",
            "finish err the command exited with an error",
        ]
    );
}

#[test]
fn run_python_without_script_syncs() {
    let (flow, first) = depot::run::run(Vec::new(), ctx(py_files(false, true), false, false)).ok().unwrap();
    let steps = drive_run(flow, first, vec![yes(), yes(), yes()]);
    assert_eq!(steps[2], "launch uv sync [UV_CACHE_DIR=/home/u/.depot/store/uv]");
    assert_eq!(steps[3], "finish ok");
}

#[test]
fn failure_finishes_with_its_message_and_stays_finished() {
    let (flow, first) = depot::run::ensure(ctx(node_files(), false, false)).ok().unwrap();
    let steps = drive_run(
        flow,
        first,
        vec![yes(), yes(), Event::Failed("could not launch `pnpm`".to_string()), yes(), no()],
    );
    assert_eq!(steps[3], "finish err could not launch `pnpm`");
    assert_eq!(steps[4], "finish err could not launch `pnpm`");
    assert_eq!(steps[5], "finish err could not launch `pnpm`");
}

fn t(secs: u64) -> Option<Timestamp> {
    Some(Timestamp { before_epoch: false, secs, nanos: 0 })
}

#[test]
fn node_fresh_needs_dir_stamp_and_older_manifests() {
    let fresh = FreshFacts { node_modules_dir: true, stamp: t(100), manifests: vec![t(90), None, t(99)] };
    assert!(node_fresh(&fresh));
    let same = FreshFacts { node_modules_dir: true, stamp: t(100), manifests: vec![t(90), None, t(100)] };
    assert!(!node_fresh(&same));
    let stale = FreshFacts { node_modules_dir: true, stamp: t(100), manifests: vec![t(90), t(101), None] };
    assert!(!node_fresh(&stale));
    let no_stamp = FreshFacts { node_modules_dir: true, stamp: None, manifests: vec![] };
    assert!(!node_fresh(&no_stamp));
    let no_dir = FreshFacts { node_modules_dir: false, stamp: t(100), manifests: vec![] };
    assert!(!node_fresh(&no_dir));
}

#[test]
fn stamp_and_manifest_paths() {
    assert_eq!(stamp_path("/p", PathStyle::Unix), "/p/node_modules/.depot-stamp");
    assert_eq!(stamp_path("/p/", PathStyle::Unix), "/p/node_modules/.depot-stamp");
    assert_eq!(stamp_path("C:\\p", PathStyle::Windows), "C:\\p\\node_modules\\.depot-stamp");
    assert_eq!(
        manifest_paths("/p", PathStyle::Unix),
        vec!["/p/package.json".to_string(), "/p/pnpm-lock.yaml".to_string(), "/p/package-lock.json".to_string()]
    );
}

#[test]
fn launch_line_lists_program_and_arguments() {
    let call = ToolCall {
        program: "uv".to_string(),
        args: vec!["pip".to_string(), "install".to_string()],
        env: vec![],
    };
    assert_eq!(launch_line(&call), "\u{2192} uv pip install");
}

fn hub_ctx(files: ProjectFiles, venv: bool) -> HubContext {
    HubContext {
        dir: "/work/app".to_string(),
        files,
        has_venv: venv,
        store_root: "/home/u/.depot/store".to_string(),
        pnpm_store: "/home/u/.depot/store/pnpm".to_string(),
        uv_cache: "/home/u/.depot/store/uv".to_string(),
        default_root: "/home/u".to_string(),
    }
}

#[test]
fn hub_init_with_everything_available() {
    let (flow, first) = depot::hub::run(HubAction::Init, hub_ctx(node_files(), false)).ok().unwrap();
    let steps = drive_hub(flow, first, vec![yes(), yes(), yes(), yes(), yes(), yes(), yes(), yes(), yes(), yes(), yes()]);
    assert_eq!(
        steps,
        vec![
            "say Setting up the shared store under /home/u/.depot/store\n",
            "prepare",
            "check pnpm",
            "check pnpm",
            "launch pnpm config set store-dir /home/u/.depot/store/pnpm --global []",
            "say \u{2713} pnpm store-dir \u{2192} /home/u/.depot/store/pnpm",
            "check uv",
            "setenv UV_CACHE_DIR=/home/u/.depot/store/uv",
            "say \u{2713} uv cache \u{2192} /home/u/.depot/store/uv",
            "save true /home/u/.depot/store/pnpm /home/u/.depot/store/uv",
            "say \nDone. Use `depot hub add <pkg>` or `depot run <script>` in any project.",
            "finish ok",
        ]
    );
}

#[test]
fn hub_init_tries_corepack_when_pnpm_is_missing() {
    let (flow, first) = depot::hub::run(HubAction::Init, hub_ctx(node_files(), false)).ok().unwrap();
    let steps = drive_hub(flow, first, vec![yes(), yes(), no(), yes(), yes(), yes(), no(), yes(), no(), yes()]);
    assert_eq!(
        steps,
        vec![
            "say Setting up the shared store under /home/u/.depot/store\n",
            "prepare",
            "check pnpm",
            "say pnpm not found \u{2014} trying to enable it via corepack\u{2026}",
            "try corepack enable []",
            "try corepack prepare pnpm@latest --activate []",
            "check pnpm",
            "say ! pnpm still unavailable; install Node + corepack, then re-run `hub init`.",
            "check uv",
            "say ! uv not found; install it (https://docs.astral.sh/uv) to use Python.",
            "save true /home/u/.depot/store/pnpm /home/u/.depot/store/uv",
        ]
    );
}

#[test]
fn hub_add_node_reports_store_growth() {
    let action = HubAction::Add { packages: vec!["lodash".to_string(), "react".to_string()], dev: true };
    let (flow, first) = depot::hub::run(action, hub_ctx(node_files(), false)).ok().unwrap();
    let steps = drive_hub(
        flow,
        first,
        vec![yes(), Event::Measured(1000), yes(), yes(), Event::Measured(1000 + 3 * 1024 * 1024), yes()],
    );
    assert_eq!(
        steps,
        vec![
            "prepare",
            "measure store",
            "launch pnpm add lodash react -D --store-dir /home/u/.depot/store/pnpm []",
            "register /work/app node",
            "measure store",
            "say \n\u{2713} added lodash, react to node project \u{b7} store grew by 3.0 MB (shared across all projects)",
            "finish ok",
        ]
    );
}

#[test]
fn hub_add_store_shrinking_counts_as_no_growth() {
    let action = HubAction::Add { packages: vec!["requests".to_string()], dev: false };
    let (flow, first) = depot::hub::run(action, hub_ctx(py_files(false, true), false)).ok().unwrap();
    let steps = drive_hub(
        flow,
        first,
        vec![yes(), Event::Measured(5000), yes(), yes(), yes(), Event::Measured(10), yes()],
    );
    assert_eq!(steps[2], "launch uv venv [UV_CACHE_DIR=/home/u/.depot/store/uv]");
    assert_eq!(steps[3], "launch uv pip install requests [UV_CACHE_DIR=/home/u/.depot/store/uv]");
    assert_eq!(
        steps[6],
        "say \n\u{2713} added requests to python project \u{b7} store grew by 0 B (shared across all projects)"
    );
}

#[test]
fn hub_add_pyproject_dev_dependency() {
    let action = HubAction::Add { packages: vec!["pytest".to_string()], dev: true };
    let (flow, first) = depot::hub::run(action, hub_ctx(py_files(true, false), true)).ok().unwrap();
    let steps = drive_hub(flow, first, vec![yes(), Event::Measured(0), no()]);
    assert_eq!(steps[2], "launch uv add pytest --dev [UV_CACHE_DIR=/home/u/.depot/store/uv]");
    assert_eq!(steps[3], "finish err the package manager reported an error");
}

#[test]
fn hub_add_outside_a_project_is_refused() {
    let action = HubAction::Add { packages: vec!["x".to_string()], dev: false };
    let err = depot::hub::run(action, hub_ctx(py_files(false, false), false)).err().unwrap();
    assert_eq!(err, "no package.json / pyproject.toml / requirements.txt here \u{2014} run this inside a project");
}

#[test]
fn hub_link_outside_a_project_is_refused() {
    let err = depot::hub::run(HubAction::Link, hub_ctx(py_files(false, false), false)).err().unwrap();
    assert_eq!(err, "not a Node or Python project");
}

#[test]
fn hub_link_requirements_project() {
    let (flow, first) = depot::hub::run(HubAction::Link, hub_ctx(py_files(false, true), false)).ok().unwrap();
    let steps = drive_hub(flow, first, vec![yes(), yes(), no(), yes(), yes()]);
    assert_eq!(
        steps,
        vec![
            "prepare",
            "launch uv venv [UV_CACHE_DIR=/home/u/.depot/store/uv]",
            "launch uv pip install -r requirements.txt [UV_CACHE_DIR=/home/u/.depot/store/uv]",
            "register /work/app python",
            "say \n! linked python project to the shared store.",
            "finish ok",
        ]
    );
}

#[test]
fn hub_status_lists_sizes_and_projects() {
    let (flow, first) = depot::hub::run(HubAction::Status, hub_ctx(node_files(), false)).ok().unwrap();
    let reg = Registry {
        projects: vec![
            Project { path: "/a".to_string(), ecosystem: "node".to_string(), linked_at: 1 },
            Project { path: "/b".to_string(), ecosystem: "python".to_string(), linked_at: 2 },
        ],
    };
    let steps = drive_hub(
        flow,
        first,
        vec![
            yes(),
            yes(),
            Event::Measured(2048),
            yes(),
            yes(),
            Event::Measured(0),
            no(),
            yes(),
            Event::Measured(2048),
            yes(),
            Event::Listed(reg),
            yes(),
        ],
    );
    assert_eq!(
        steps,
        vec![
            "say depot hub \u{2014} shared package store\n",
            "say   store root : /home/u/.depot/store",
            "measure /home/u/.depot/store/pnpm",
            "check pnpm",
            "say   pnpm store :     2.0 KB  (ready)",
            "measure /home/u/.depot/store/uv",
            "check uv",
            "say   uv cache   :        0 B  (uv missing)",
            "measure store",
            "say   total      :     2.0 KB",
            "load registry",
            "say \n  linked projects: 2\n    [node  ] /a\n    [python] /b\n\n  2 projects share one store \u{2014} every common package is stored once, not per-project.",
            "finish ok",
        ]
    );
}

fn item(kind: &str, size: u64) -> ScanItem {
    ScanItem {
        category: Category::Node,
        kind: kind.to_string(),
        label: kind.to_string(),
        paths: vec![format!("/x/{kind}")],
        size,
        modified: None,
    }
}

#[test]
fn hub_analyze_counts_node_modules_and_virtualenvs() {
    let action = HubAction::Analyze { paths: vec![] };
    let (flow, first) = depot::hub::run(action, hub_ctx(node_files(), false)).ok().unwrap();
    let items = vec![item("node_modules", 1024), item("virtualenv", 2048), item("node_modules", 1024), item("npm cache", 7)];
    let steps = drive_hub(flow, first, vec![yes(), Event::Found(items), Event::Measured(512), yes()]);
    assert_eq!(steps[0], "say Scanning for projects under 1 root(s)\u{2026}");
    assert_eq!(steps[1], "scan [\"/home/u\"] Some([Node, Python]) 0");
    assert_eq!(steps[2], "measure store");
    assert_eq!(
        steps[3],
        "say \n  node_modules :   2 projects \u{b7} 2.0 KB\n  virtualenvs  :   1 projects \u{b7} 2.0 KB\n  currently using: 4.0 KB\n  shared store now: 512 B\n\n  These projects each keep a private copy of their dependencies. Run `depot link`\n  in each (or `depot run` / `depot hub add` going forward) to store every package once\n  and hard-link it in \u{2014} duplicates across projects stop costing extra disk."
    );
    assert_eq!(steps[4], "finish ok");
}

#[test]
fn hub_analyze_given_paths() {
    let action = HubAction::Analyze { paths: vec!["/a".to_string(), "/b".to_string()] };
    let (flow, first) = depot::hub::run(action, hub_ctx(node_files(), false)).ok().unwrap();
    let steps = drive_hub(flow, first, vec![yes()]);
    assert_eq!(steps[0], "say Scanning for projects under 2 root(s)\u{2026}");
    assert_eq!(steps[1], "scan [\"/a\", \"/b\"] Some([Node, Python]) 0");
}

#[test]
fn kind_summary_counts_and_sums() {
    let items = vec![item("node_modules", 5), item("virtualenv", 2), item("node_modules", u64::MAX)];
    assert_eq!(depot::hub::kind_summary(&items, "node_modules"), (2, 4));
    assert_eq!(depot::hub::kind_summary(&items, "virtualenv"), (1, 2));
    assert_eq!(depot::hub::kind_summary(&items, "other"), (0, 0));
}
