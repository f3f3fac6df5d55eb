//! The hub: one set of commands that routes both Node (pnpm) and Python (uv)
//! installs through a single shared, content-addressable global store.
//! `depot hub add <pkg>` works the same in a Node or a Python project, every
//! project is registered centrally, and packages are stored once on disk and
//! hard-linked into each project instead of downloaded again.
//!
//! Each command is a state machine: the caller performs each [`Step`] and
//! answers it with an [`Event`] until the flow finishes.

pub mod registry;
pub mod store;

use vstd::prelude::*;

use crate::cli::HubAction;
use crate::hub::registry::ProjectView;
use crate::hub::registry::Registry;
use crate::project::{
    bytes, bytes_of, copy_texts, detect_spec, eco_label, flag, flag_of, plain_call, pnpm_call, push_text, texts,
    uv_call, with_prefix, words1, words2, words3, words4, words5, Eco, Event, EventView, ProjectFiles, Step,
    StepView, ToolCallView,
};
use crate::hub::store::HubConfig;
use crate::scan::ScanOptions;
use crate::text::join_with;
use crate::run::{pnpm_view, uv_view};
use crate::scan::{size_total, wrap64, Category, ScanItem};
use crate::text::{decimal, decimal_string, joined, pad_left, pad_right, padded_left, padded_right, same_text};
use crate::util::{human_size, human_size_spec};

verus! {

/// The items of a scan whose kind is `kind`.
pub open spec fn of_kind(items: Seq<ScanItem>, kind: Seq<char>) -> Seq<ScanItem> {
    items.filter(|it: ScanItem| it.kind@ == kind)
}

/// How many items of a kind a scan found, and their total size (a `u64`
/// sum, wrapping around at 2^64).
pub fn kind_summary(items: &Vec<ScanItem>, kind: &str) -> (res: (usize, u64))
    ensures
        res.0 == of_kind(items@, kind@).len(),
        res.1 == wrap64(size_total(of_kind(items@, kind@))),
{
    let ghost pred = |it: ScanItem| it.kind@ == kind@;
    let mut count: usize = 0;
    let mut total: u64 = 0;
    let mut i: usize = 0;
    while i < items.len()
        invariant
            i <= items@.len(),
            pred == (|it: ScanItem| it.kind@ == kind@),
            count == items@.subrange(0, i as int).filter(pred).len(),
            total == wrap64(size_total(items@.subrange(0, i as int).filter(pred))),
        decreases items@.len() - i,
    {
        let ghost before = items@.subrange(0, i as int);
        proof {
            assert(items@.subrange(0, i + 1) =~= before.push(items@[i as int]));
            crate::scan::lemma_filter_push(before, items@[i as int], pred);
            before.lemma_filter_len(pred);
        }
        if same_text(items[i].kind.as_str(), kind) {
            proof {
                let f = before.filter(pred);
                crate::scan::lemma_wrap_step(size_total(f), total, items@[i as int].size);
                assert(f.push(items@[i as int]).drop_last() =~= f);
            }
            count = count + 1;
            total = crate::scan::add_wrapping(total, items[i].size);
        }
        i = i + 1;
    }
    assert(items@.subrange(0, i as int) =~= items@);
    (count, total)
}

} // verus!

verus! {

/// What a hub command knows before it starts: the current directory and
/// what it holds, and where the store lives.
pub struct HubContext {
    /// The current directory.
    pub dir: String,
    /// Which manifests it holds.
    pub files: ProjectFiles,
    /// Whether `.venv` exists in it.
    pub has_venv: bool,
    /// The root of the shared store.
    pub store_root: String,
    /// pnpm's store directory.
    pub pnpm_store: String,
    /// uv's cache directory.
    pub uv_cache: String,
    /// Where to scan when no path is given (the home directory).
    pub default_root: String,
}

/// Which answer a hub flow is waiting for.
#[derive(Clone, Copy, Debug, PartialEq, Eq, Structural)]
pub enum HubStage {
    InitIntro,
    InitStore,
    InitPnpm,
    InitCorepackSay,
    InitEnable,
    InitActivate,
    InitPnpmAgain,
    InitConfig,
    InitPnpmSaid,
    InitUv,
    InitEnv,
    InitUvSaid,
    InitSave,
    AddStore,
    AddBefore,
    AddVenv,
    AddInstall,
    AddRegister,
    AddAfter,
    StatusHead,
    StatusRoot,
    StatusPnpmSize,
    StatusPnpmTool,
    StatusPnpmSaid,
    StatusUvSize,
    StatusUvTool,
    StatusUvSaid,
    StatusTotal,
    StatusTotalSaid,
    StatusRegistry,
    LinkStore,
    LinkVenv,
    LinkInstall,
    LinkRegister,
    AnalyzeIntro,
    AnalyzeScan,
    AnalyzeStore,
    Closing,
    Finished,
}

/// A hub command in progress.
pub struct HubFlow {
    pub ctx: HubContext,
    /// The project's ecosystem (for `add` and `link`).
    pub eco: Eco,
    /// The packages to add.
    pub packages: Vec<String>,
    /// Whether they are development dependencies.
    pub dev: bool,
    /// The roots to analyze.
    pub roots: Vec<String>,
    pub stage: HubStage,
    /// Whether the install step succeeded (for `link`).
    pub ok: bool,
    /// A size measured earlier: the store before `add`, or the directory
    /// measured last in `status`.
    pub first: u64,
    pub node_count: usize,
    pub node_total: u64,
    pub venv_count: usize,
    pub venv_total: u64,
    /// The outcome, once finished.
    pub outcome: Result<(), String>,
}

/// The fixed part of a hub flow, as values.
pub struct HubSetup {
    pub ctx: HubContext,
    pub eco: Eco,
    pub packages: Seq<Seq<char>>,
    pub dev: bool,
    pub roots: Seq<Seq<char>>,
}

/// The changing part of a hub flow, as values.
pub struct HubState {
    pub stage: HubStage,
    pub ok: bool,
    pub first: u64,
    pub node_count: nat,
    pub node_total: u64,
    pub venv_count: nat,
    pub venv_total: u64,
    pub outcome: Result<(), Seq<char>>,
}

impl HubFlow {
    pub open spec fn setup(&self) -> HubSetup {
        HubSetup {
            ctx: self.ctx,
            eco: self.eco,
            packages: texts(self.packages@),
            dev: self.dev,
            roots: texts(self.roots@),
        }
    }

    pub open spec fn state(&self) -> HubState {
        HubState {
            stage: self.stage,
            ok: self.ok,
            first: self.first,
            node_count: self.node_count as nat,
            node_total: self.node_total,
            venv_count: self.venv_count as nat,
            venv_total: self.venv_total,
            outcome: match self.outcome {
                Ok(()) => Ok(()),
                Err(e) => Err(e@),
            },
        }
    }
}

/// A call of a tool that needs no environment, as text.
pub open spec fn plain_view(program: Seq<char>, args: Seq<Seq<char>>) -> ToolCallView {
    ToolCallView { program, args, env: Seq::empty() }
}

/// A ✓ for success, a ! otherwise.
pub open spec fn mark(ok: bool) -> Seq<char> {
    if ok { "\u{2713}"@ } else { "!"@ }
}

/// `a - b`, or 0 when `b` is larger.
pub open spec fn saturating_sub(a: u64, b: u64) -> u64 {
    if a >= b { (a - b) as u64 } else { 0 }
}

pub open spec fn init_intro(root: Seq<char>) -> Seq<char> {
    "Setting up the shared store under "@ + root + "\n"@
}

pub open spec fn corepack_message() -> Seq<char> {
    "pnpm not found \u{2014} trying to enable it via corepack\u{2026}"@
}

pub open spec fn pnpm_unavailable_message() -> Seq<char> {
    "! pnpm still unavailable; install Node + corepack, then re-run `hub init`."@
}

pub open spec fn pnpm_store_line(ok: bool, store: Seq<char>) -> Seq<char> {
    mark(ok) + " pnpm store-dir \u{2192} "@ + store
}

pub open spec fn uv_missing_message() -> Seq<char> {
    "! uv not found; install it (https://docs.astral.sh/uv) to use Python."@
}

pub open spec fn uv_line(cache: Seq<char>) -> Seq<char> {
    "\u{2713} uv cache \u{2192} "@ + cache
}

pub open spec fn init_done_message() -> Seq<char> {
    "\nDone. Use `depot hub add <pkg>` or `depot run <script>` in any project."@
}

pub open spec fn add_detect_message() -> Seq<char> {
    "no package.json / pyproject.toml / requirements.txt here \u{2014} run this inside a project"@
}

pub open spec fn add_failed_message() -> Seq<char> {
    "the package manager reported an error"@
}

pub open spec fn add_done(packages: Seq<Seq<char>>, eco: Eco, grown: u64) -> Seq<char> {
    "\n\u{2713} added "@ + joined(packages, ", "@) + " to "@ + eco_label(eco)
        + " project \u{b7} store grew by "@ + human_size_spec(grown) + " (shared across all projects)"@
}

pub open spec fn status_head() -> Seq<char> {
    "depot hub \u{2014} shared package store\n"@
}

pub open spec fn status_root(root: Seq<char>) -> Seq<char> {
    "  store root : "@ + root
}

/// A status line for one part of the store: its size right-aligned in ten
/// columns, then whether its tool is ready.
pub open spec fn size_line(label: Seq<char>, size: u64, ready: bool, missing: Seq<char>) -> Seq<char> {
    label + pad_left(human_size_spec(size), 10) + "  ("@ + (if ready { "ready"@ } else { missing }) + ")"@
}

pub open spec fn total_line(size: u64) -> Seq<char> {
    "  total      : "@ + pad_left(human_size_spec(size), 10)
}

/// One line per project: its ecosystem left-aligned in six columns, then its
/// path.
pub open spec fn project_rows(ps: Seq<ProjectView>) -> Seq<char>
    decreases ps.len(),
{
    if ps.len() == 0 {
        Seq::empty()
    } else {
        project_rows(ps.drop_last()) + "\n    ["@ + pad_right(ps.last().ecosystem, 6) + "] "@ + ps.last().path
    }
}

/// The registry part of `status`.
pub open spec fn projects_block(ps: Seq<ProjectView>) -> Seq<char> {
    "\n  linked projects: "@ + decimal(ps.len()) + project_rows(ps) + if ps.len() > 1 {
        "\n\n  "@ + decimal(ps.len())
            + " projects share one store \u{2014} every common package is stored once, not per-project."@
    } else {
        Seq::empty()
    }
}

pub open spec fn link_detect_message() -> Seq<char> {
    "not a Node or Python project"@
}

pub open spec fn link_line(ok: bool, eco: Eco) -> Seq<char> {
    "\n"@ + mark(ok) + " linked "@ + eco_label(eco) + " project to the shared store."@
}

pub open spec fn analyze_intro(n: nat) -> Seq<char> {
    "Scanning for projects under "@ + decimal(n) + " root(s)\u{2026}"@
}

/// The closing summary of `analyze`.
pub open spec fn analyze_block(
    node_count: nat,
    node_total: u64,
    venv_count: nat,
    venv_total: u64,
    store: u64,
) -> Seq<char> {
    "\n  node_modules : "@ + pad_left(decimal(node_count), 3) + " projects \u{b7} "@ + human_size_spec(node_total)
        + "\n"@ + "  virtualenvs  : "@ + pad_left(decimal(venv_count), 3) + " projects \u{b7} "@
        + human_size_spec(venv_total) + "\n"@ + "  currently using: "@ + human_size_spec(
        wrap64((node_total + venv_total) as nat),
    ) + "\n"@ + "  shared store now: "@ + human_size_spec(store) + "\n"@
        + "\n  These projects each keep a private copy of their dependencies. Run `depot link`\n  in each (or `depot run` / `depot hub add` going forward) to store every package once\n  and hard-link it in \u{2014} duplicates across projects stop costing extra disk."@
}

/// The projects an event lists (none unless it is `Listed`).
pub open spec fn listed_of(e: EventView) -> Seq<ProjectView> {
    match e {
        EventView::Listed(ps) => ps,
        _ => Seq::empty(),
    }
}

/// The items an event reports found (none unless it is `Found`).
pub open spec fn found_of(e: EventView) -> Seq<ScanItem> {
    match e {
        EventView::Found(items) => items,
        _ => Seq::empty(),
    }
}

} // verus!

verus! {

/// Waiting at `stage` after asking for `step`.
pub open spec fn hwait(s: HubState, stage: HubStage, step: StepView) -> (HubState, StepView) {
    (HubState { stage, ..s }, step)
}

/// Finishing with outcome `r`.
pub open spec fn hfinish(s: HubState, r: Result<(), Seq<char>>) -> (HubState, StepView) {
    (HubState { stage: HubStage::Finished, outcome: r, ..s }, StepView::Finish(r))
}

/// Recording the project in the registry.
pub open spec fn register_view(x: HubSetup) -> StepView {
    StepView::Register { path: x.ctx.dir@, ecosystem: eco_label(x.eco) }
}

/// `uv pip install <packages>`.
pub open spec fn pip_install_view(x: HubSetup) -> StepView {
    StepView::Launch(uv_view(seq!["pip"@, "install"@] + x.packages, x.ctx.uv_cache@))
}

/// The install step of `add`, once the store has been measured.
pub open spec fn add_install(x: HubSetup, s: HubState) -> (HubState, StepView) {
    match x.eco {
        Eco::Node => hwait(
            s,
            HubStage::AddInstall,
            StepView::Launch(
                pnpm_view(
                    seq!["add"@] + x.packages + (if x.dev { seq!["-D"@] } else { Seq::empty() }) + seq![
                        "--store-dir"@,
                        x.ctx.pnpm_store@,
                    ],
                ),
            ),
        ),
        Eco::Python => if x.ctx.files.pyproject_toml {
            hwait(
                s,
                HubStage::AddInstall,
                StepView::Launch(
                    uv_view(
                        seq!["add"@] + x.packages + (if x.dev { seq!["--dev"@] } else { Seq::empty() }),
                        x.ctx.uv_cache@,
                    ),
                ),
            )
        } else if !x.ctx.has_venv {
            hwait(s, HubStage::AddVenv, StepView::Launch(uv_view(seq!["venv"@], x.ctx.uv_cache@)))
        } else {
            hwait(s, HubStage::AddInstall, pip_install_view(x))
        },
    }
}

/// The install step of `link`, once the store is ready.
pub open spec fn link_install(x: HubSetup, s: HubState) -> (HubState, StepView) {
    match x.eco {
        Eco::Node => hwait(
            s,
            HubStage::LinkInstall,
            StepView::Launch(pnpm_view(seq!["install"@, "--store-dir"@, x.ctx.pnpm_store@])),
        ),
        Eco::Python => if x.ctx.files.pyproject_toml {
            hwait(s, HubStage::LinkInstall, StepView::Launch(uv_view(seq!["sync"@], x.ctx.uv_cache@)))
        } else if x.ctx.files.requirements_txt {
            hwait(s, HubStage::LinkVenv, StepView::Launch(uv_view(seq!["venv"@], x.ctx.uv_cache@)))
        } else {
            hwait(HubState { ok: false, ..s }, HubStage::LinkRegister, register_view(x))
        },
    }
}

/// The flow's answer to event `e` in state `s`: the next state and step.
/// A finished flow stays finished; a failure finishes it with that message.
pub open spec fn hub_transition(x: HubSetup, s: HubState, e: EventView) -> (HubState, StepView) {
    if s.stage == HubStage::Finished {
        (s, StepView::Finish(s.outcome))
    } else if e is Failed {
        hfinish(s, Err(e->Failed_0))
    } else {
        match s.stage {
            HubStage::InitIntro => hwait(s, HubStage::InitStore, StepView::PrepareStore),
            HubStage::InitStore => hwait(s, HubStage::InitPnpm, StepView::CheckTool("pnpm"@)),
            HubStage::InitPnpm => if flag_of(e) {
                hwait(s, HubStage::InitPnpmAgain, StepView::CheckTool("pnpm"@))
            } else {
                hwait(s, HubStage::InitCorepackSay, StepView::Say(corepack_message()))
            },
            HubStage::InitCorepackSay => hwait(
                s,
                HubStage::InitEnable,
                StepView::TryLaunch(plain_view("corepack"@, seq!["enable"@])),
            ),
            HubStage::InitEnable => hwait(
                s,
                HubStage::InitActivate,
                StepView::TryLaunch(plain_view("corepack"@, seq!["prepare"@, "pnpm@latest"@, "--activate"@])),
            ),
            HubStage::InitActivate => hwait(s, HubStage::InitPnpmAgain, StepView::CheckTool("pnpm"@)),
            HubStage::InitPnpmAgain => if flag_of(e) {
                hwait(
                    s,
                    HubStage::InitConfig,
                    StepView::Launch(
                        pnpm_view(seq!["config"@, "set"@, "store-dir"@, x.ctx.pnpm_store@, "--global"@]),
                    ),
                )
            } else {
                hwait(s, HubStage::InitPnpmSaid, StepView::Say(pnpm_unavailable_message()))
            },
            HubStage::InitConfig => hwait(
                s,
                HubStage::InitPnpmSaid,
                StepView::Say(pnpm_store_line(flag_of(e), x.ctx.pnpm_store@)),
            ),
            HubStage::InitPnpmSaid => hwait(s, HubStage::InitUv, StepView::CheckTool("uv"@)),
            HubStage::InitUv => if flag_of(e) {
                hwait(
                    s,
                    HubStage::InitEnv,
                    StepView::SetEnv { key: "UV_CACHE_DIR"@, value: x.ctx.uv_cache@ },
                )
            } else {
                hwait(s, HubStage::InitUvSaid, StepView::Say(uv_missing_message()))
            },
            HubStage::InitEnv => hwait(s, HubStage::InitUvSaid, StepView::Say(uv_line(x.ctx.uv_cache@))),
            HubStage::InitUvSaid => hwait(
                s,
                HubStage::InitSave,
                StepView::SaveConfig {
                    initialized: true,
                    pnpm_store: x.ctx.pnpm_store@,
                    uv_cache: x.ctx.uv_cache@,
                },
            ),
            HubStage::InitSave => hwait(s, HubStage::Closing, StepView::Say(init_done_message())),
            HubStage::AddStore => hwait(s, HubStage::AddBefore, StepView::MeasureStore),
            HubStage::AddBefore => add_install(x, HubState { first: bytes_of(e), ..s }),
            HubStage::AddVenv => hwait(s, HubStage::AddInstall, pip_install_view(x)),
            HubStage::AddInstall => if flag_of(e) {
                hwait(s, HubStage::AddRegister, register_view(x))
            } else {
                hfinish(s, Err(add_failed_message()))
            },
            HubStage::AddRegister => hwait(s, HubStage::AddAfter, StepView::MeasureStore),
            HubStage::AddAfter => hwait(
                s,
                HubStage::Closing,
                StepView::Say(add_done(x.packages, x.eco, saturating_sub(bytes_of(e), s.first))),
            ),
            HubStage::StatusHead => hwait(s, HubStage::StatusRoot, StepView::Say(status_root(x.ctx.store_root@))),
            HubStage::StatusRoot => hwait(s, HubStage::StatusPnpmSize, StepView::MeasureDir(x.ctx.pnpm_store@)),
            HubStage::StatusPnpmSize => hwait(
                HubState { first: bytes_of(e), ..s },
                HubStage::StatusPnpmTool,
                StepView::CheckTool("pnpm"@),
            ),
            HubStage::StatusPnpmTool => hwait(
                s,
                HubStage::StatusPnpmSaid,
                StepView::Say(size_line("  pnpm store : "@, s.first, flag_of(e), "pnpm missing"@)),
            ),
            HubStage::StatusPnpmSaid => hwait(s, HubStage::StatusUvSize, StepView::MeasureDir(x.ctx.uv_cache@)),
            HubStage::StatusUvSize => hwait(
                HubState { first: bytes_of(e), ..s },
                HubStage::StatusUvTool,
                StepView::CheckTool("uv"@),
            ),
            HubStage::StatusUvTool => hwait(
                s,
                HubStage::StatusUvSaid,
                StepView::Say(size_line("  uv cache   : "@, s.first, flag_of(e), "uv missing"@)),
            ),
            HubStage::StatusUvSaid => hwait(s, HubStage::StatusTotal, StepView::MeasureStore),
            HubStage::StatusTotal => hwait(s, HubStage::StatusTotalSaid, StepView::Say(total_line(bytes_of(e)))),
            HubStage::StatusTotalSaid => hwait(s, HubStage::StatusRegistry, StepView::LoadRegistry),
            HubStage::StatusRegistry => hwait(s, HubStage::Closing, StepView::Say(projects_block(listed_of(e)))),
            HubStage::LinkStore => link_install(x, s),
            HubStage::LinkVenv => hwait(
                s,
                HubStage::LinkInstall,
                StepView::Launch(uv_view(seq!["pip"@, "install"@, "-r"@, "requirements.txt"@], x.ctx.uv_cache@)),
            ),
            HubStage::LinkInstall => hwait(HubState { ok: flag_of(e), ..s }, HubStage::LinkRegister, register_view(x)),
            HubStage::LinkRegister => hwait(s, HubStage::Closing, StepView::Say(link_line(s.ok, x.eco))),
            HubStage::AnalyzeIntro => hwait(
                s,
                HubStage::AnalyzeScan,
                StepView::Scan {
                    roots: x.roots,
                    categories: Some(seq![Category::Node, Category::Python]),
                    min_size: 0,
                },
            ),
            HubStage::AnalyzeScan => {
                let items = found_of(e);
                hwait(
                    HubState {
                        node_count: of_kind(items, "node_modules"@).len(),
                        node_total: wrap64(size_total(of_kind(items, "node_modules"@))),
                        venv_count: of_kind(items, "virtualenv"@).len(),
                        venv_total: wrap64(size_total(of_kind(items, "virtualenv"@))),
                        ..s
                    },
                    HubStage::AnalyzeStore,
                    StepView::MeasureStore,
                )
            },
            HubStage::AnalyzeStore => hwait(
                s,
                HubStage::Closing,
                StepView::Say(
                    analyze_block(s.node_count, s.node_total, s.venv_count, s.venv_total, bytes_of(e)),
                ),
            ),
            HubStage::Closing => hfinish(s, Ok(())),
            HubStage::Finished => (s, StepView::Finish(s.outcome)),
        }
    }
}

} // verus!

verus! {

/// The registry part of `status`, for a loaded registry.
pub fn projects_text(reg: &Registry) -> (res: String)
    ensures
        res@ == projects_block(crate::hub::registry::projects_view(reg)),
{
    let ghost ps = crate::hub::registry::projects_view(reg);
    let n = reg.projects.len();
    let mut out = String::from_str("\n  linked projects: ");
    let count = decimal_string(n as u128);
    out.append(count.as_str());
    let ghost head = out@;
    let mut i: usize = 0;
    while i < n
        invariant
            i <= n,
            n == reg.projects@.len(),
            ps == crate::hub::registry::projects_view(reg),
            out@ == head + project_rows(ps.subrange(0, i as int)),
        decreases n - i,
    {
        let p = &reg.projects[i];
        out.append("\n    [");
        let eco = padded_right(p.ecosystem.as_str(), 6);
        out.append(eco.as_str());
        out.append("] ");
        out.append(p.path.as_str());
        proof {
            assert(ps.subrange(0, i + 1).drop_last() =~= ps.subrange(0, i as int));
        }
        i = i + 1;
    }
    assert(ps.subrange(0, n as int) =~= ps);
    if n > 1 {
        out.append("\n\n  ");
        out.append(count.as_str());
        out.append(" projects share one store \u{2014} every common package is stored once, not per-project.");
    }
    out
}

/// A status line for one part of the store.
fn size_text(label: &str, size: u64, ready: bool, missing: &str) -> (res: String)
    ensures
        res@ == size_line(label@, size, ready, missing@),
{
    let mut out = String::from_str(label);
    let h = human_size(size);
    let col = padded_left(h.as_str(), 10);
    out.append(col.as_str());
    out.append("  (");
    if ready {
        out.append("ready");
    } else {
        out.append(missing);
    }
    out.append(")");
    out
}

/// The closing summary of `analyze`.
fn analyze_text(node_count: usize, node_total: u64, venv_count: usize, venv_total: u64, store: u64) -> (res:
    String)
    ensures
        res@ == analyze_block(node_count as nat, node_total, venv_count as nat, venv_total, store),
{
    let mut out = String::from_str("\n  node_modules : ");
    out.append(padded_left(decimal_string(node_count as u128).as_str(), 3).as_str());
    out.append(" projects \u{b7} ");
    out.append(human_size(node_total).as_str());
    out.append("\n");
    out.append("  virtualenvs  : ");
    out.append(padded_left(decimal_string(venv_count as u128).as_str(), 3).as_str());
    out.append(" projects \u{b7} ");
    out.append(human_size(venv_total).as_str());
    out.append("\n");
    out.append("  currently using: ");
    let both = crate::scan::add_wrapping(node_total, venv_total);
    proof {
        assert(both == wrap64((node_total + venv_total) as nat));
    }
    out.append(human_size(both).as_str());
    out.append("\n");
    out.append("  shared store now: ");
    out.append(human_size(store).as_str());
    out.append("\n");
    out.append(
        "\n  These projects each keep a private copy of their dependencies. Run `depot link`\n  in each (or `depot run` / `depot hub add` going forward) to store every package once\n  and hard-link it in \u{2014} duplicates across projects stop costing extra disk.",
    );
    out
}

fn mark_text(ok: bool) -> (res: &'static str)
    ensures
        res@ == mark(ok),
{
    if ok { "\u{2713}" } else { "!" }
}

impl HubFlow {
    fn go(&mut self, stage: HubStage, step: Step) -> (res: Step)
        ensures
            final(self).setup() == old(self).setup(),
            final(self).state() == (HubState { stage, ..old(self).state() }),
            res == step,
    {
        self.stage = stage;
        step
    }

    fn end(&mut self, r: Result<(), String>) -> (res: Step)
        ensures
            final(self).setup() == old(self).setup(),
            (final(self).state(), res@) == hfinish(
                old(self).state(),
                match r {
                    Ok(()) => Ok(()),
                    Err(e) => Err(e@),
                },
            ),
    {
        self.stage = HubStage::Finished;
        let copy = match &r {
            Ok(()) => Ok(()),
            Err(e) => Err(e.clone()),
        };
        self.outcome = r;
        Step::Finish(copy)
    }

    fn register_step(&self) -> (res: Step)
        ensures
            res@ == register_view(self.setup()),
    {
        Step::Register { path: self.dir_copy(), ecosystem: String::from_str(self.eco.label()) }
    }

    fn dir_copy(&self) -> (res: String)
        ensures
            res@ == self.ctx.dir@,
    {
        self.ctx.dir.clone()
    }

    fn uv(&self, args: Vec<String>) -> (res: Step)
        ensures
            res@ == StepView::Launch(uv_view(texts(args@), self.ctx.uv_cache@)),
    {
        Step::Launch(uv_call(args, self.ctx.uv_cache.as_str()))
    }

    fn pnpm(&self, args: Vec<String>) -> (res: Step)
        ensures
            res@ == StepView::Launch(pnpm_view(texts(args@))),
    {
        Step::Launch(pnpm_call(args))
    }

    fn pip_install(&self) -> (res: Step)
        ensures
            res@ == pip_install_view(self.setup()),
    {
        let args = with_prefix(words2("pip", "install"), &self.packages);
        self.uv(args)
    }

    fn add_install(&mut self) -> (res: Step)
        ensures
            final(self).setup() == old(self).setup(),
            (final(self).state(), res@) == add_install(old(self).setup(), old(self).state()),
    {
        match self.eco {
            Eco::Node => {
                let mut args = with_prefix(words1("add"), &self.packages);
                if self.dev {
                    args = push_text(args, "-D");
                }
                args = push_text(args, "--store-dir");
                args = push_text(args, self.ctx.pnpm_store.as_str());
                proof {
                    let x = old(self).setup();
                    assert(texts(args@) =~= seq!["add"@] + x.packages + (if x.dev {
                        seq!["-D"@]
                    } else {
                        Seq::empty()
                    }) + seq!["--store-dir"@, x.ctx.pnpm_store@]);
                }
                let step = self.pnpm(args);
                self.go(HubStage::AddInstall, step)
            },
            Eco::Python => {
                if self.ctx.files.pyproject_toml {
                    let mut args = with_prefix(words1("add"), &self.packages);
                    if self.dev {
                        args = push_text(args, "--dev");
                    }
                    proof {
                        let x = old(self).setup();
                        assert(texts(args@) =~= seq!["add"@] + x.packages + (if x.dev {
                            seq!["--dev"@]
                        } else {
                            Seq::empty()
                        }));
                    }
                    let step = self.uv(args);
                    self.go(HubStage::AddInstall, step)
                } else if !self.ctx.has_venv {
                    let step = self.uv(words1("venv"));
                    self.go(HubStage::AddVenv, step)
                } else {
                    let step = self.pip_install();
                    self.go(HubStage::AddInstall, step)
                }
            },
        }
    }

    fn link_install(&mut self) -> (res: Step)
        ensures
            final(self).setup() == old(self).setup(),
            (final(self).state(), res@) == link_install(old(self).setup(), old(self).state()),
    {
        match self.eco {
            Eco::Node => {
                let step = self.pnpm(words3("install", "--store-dir", self.ctx.pnpm_store.as_str()));
                self.go(HubStage::LinkInstall, step)
            },
            Eco::Python => {
                if self.ctx.files.pyproject_toml {
                    let step = self.uv(words1("sync"));
                    self.go(HubStage::LinkInstall, step)
                } else if self.ctx.files.requirements_txt {
                    let step = self.uv(words1("venv"));
                    self.go(HubStage::LinkVenv, step)
                } else {
                    self.ok = false;
                    let step = self.register_step();
                    self.go(HubStage::LinkRegister, step)
                }
            },
        }
    }

    fn init_next(&mut self, answer: bool) -> (res: Step)
        requires
            old(self).stage == HubStage::InitIntro || old(self).stage == HubStage::InitStore || old(self).stage
                == HubStage::InitPnpm || old(self).stage == HubStage::InitCorepackSay || old(self).stage
                == HubStage::InitEnable || old(self).stage == HubStage::InitActivate || old(self).stage
                == HubStage::InitPnpmAgain || old(self).stage == HubStage::InitConfig || old(self).stage
                == HubStage::InitPnpmSaid || old(self).stage == HubStage::InitUv || old(self).stage
                == HubStage::InitEnv || old(self).stage == HubStage::InitUvSaid || old(self).stage
                == HubStage::InitSave,
        ensures
            final(self).setup() == old(self).setup(),
            forall|e: EventView|
                !(e is Failed) && flag_of(e) == answer ==> (final(self).state(), res@) == #[trigger] hub_transition(
                    old(self).setup(),
                    old(self).state(),
                    e,
                ),
    {
        match self.stage {
            HubStage::InitIntro => self.go(HubStage::InitStore, Step::PrepareStore),
            HubStage::InitStore => self.go(HubStage::InitPnpm, Step::CheckTool(String::from_str("pnpm"))),
            HubStage::InitPnpm => {
                if answer {
                    self.go(HubStage::InitPnpmAgain, Step::CheckTool(String::from_str("pnpm")))
                } else {
                    let msg = String::from_str("pnpm not found \u{2014} trying to enable it via corepack\u{2026}");
                    self.go(HubStage::InitCorepackSay, Step::Say(msg))
                }
            },
            HubStage::InitCorepackSay => {
                let call = plain_call("corepack", words1("enable"));
                self.go(HubStage::InitEnable, Step::TryLaunch(call))
            },
            HubStage::InitEnable => {
                let call = plain_call("corepack", words3("prepare", "pnpm@latest", "--activate"));
                self.go(HubStage::InitActivate, Step::TryLaunch(call))
            },
            HubStage::InitActivate => self.go(HubStage::InitPnpmAgain, Step::CheckTool(String::from_str("pnpm"))),
            HubStage::InitPnpmAgain => {
                if answer {
                    let args = words5("config", "set", "store-dir", self.ctx.pnpm_store.as_str(), "--global");
                    let step = self.pnpm(args);
                    self.go(HubStage::InitConfig, step)
                } else {
                    let msg = String::from_str(
                        "! pnpm still unavailable; install Node + corepack, then re-run `hub init`.",
                    );
                    self.go(HubStage::InitPnpmSaid, Step::Say(msg))
                }
            },
            HubStage::InitConfig => {
                let mut msg = String::from_str(mark_text(answer));
                msg.append(" pnpm store-dir \u{2192} ");
                msg.append(self.ctx.pnpm_store.as_str());
                self.go(HubStage::InitPnpmSaid, Step::Say(msg))
            },
            HubStage::InitPnpmSaid => self.go(HubStage::InitUv, Step::CheckTool(String::from_str("uv"))),
            HubStage::InitUv => {
                if answer {
                    let key = String::from_str("UV_CACHE_DIR");
                    let value = self.ctx.uv_cache.clone();
                    self.go(HubStage::InitEnv, Step::SetEnv { key, value })
                } else {
                    let msg = String::from_str("! uv not found; install it (https://docs.astral.sh/uv) to use Python.");
                    self.go(HubStage::InitUvSaid, Step::Say(msg))
                }
            },
            HubStage::InitEnv => {
                let mut msg = String::from_str("\u{2713} uv cache \u{2192} ");
                msg.append(self.ctx.uv_cache.as_str());
                self.go(HubStage::InitUvSaid, Step::Say(msg))
            },
            HubStage::InitUvSaid => {
                let cfg = HubConfig {
                    initialized: true,
                    pnpm_store: self.ctx.pnpm_store.clone(),
                    uv_cache: self.ctx.uv_cache.clone(),
                };
                self.go(HubStage::InitSave, Step::SaveConfig(cfg))
            },
            _ => {
                let msg = String::from_str(
                    "\nDone. Use `depot hub add <pkg>` or `depot run <script>` in any project.",
                );
                self.go(HubStage::Closing, Step::Say(msg))
            },
        }
    }

    fn status_next(&mut self, answer: bool, size: u64) -> (res: Step)
        requires
            old(self).stage == HubStage::StatusHead || old(self).stage == HubStage::StatusRoot || old(self).stage
                == HubStage::StatusPnpmSize || old(self).stage == HubStage::StatusPnpmTool || old(self).stage
                == HubStage::StatusPnpmSaid || old(self).stage == HubStage::StatusUvSize || old(self).stage
                == HubStage::StatusUvTool || old(self).stage == HubStage::StatusUvSaid || old(self).stage
                == HubStage::StatusTotal || old(self).stage == HubStage::StatusTotalSaid,
        ensures
            final(self).setup() == old(self).setup(),
            forall|e: EventView|
                !(e is Failed) && flag_of(e) == answer && bytes_of(e) == size ==> (final(self).state(), res@)
                    == #[trigger] hub_transition(old(self).setup(), old(self).state(), e),
    {
        match self.stage {
            HubStage::StatusHead => {
                let mut msg = String::from_str("  store root : ");
                msg.append(self.ctx.store_root.as_str());
                self.go(HubStage::StatusRoot, Step::Say(msg))
            },
            HubStage::StatusRoot => {
                let dir = self.ctx.pnpm_store.clone();
                self.go(HubStage::StatusPnpmSize, Step::MeasureDir(dir))
            },
            HubStage::StatusPnpmSize => {
                self.first = size;
                self.go(HubStage::StatusPnpmTool, Step::CheckTool(String::from_str("pnpm")))
            },
            HubStage::StatusPnpmTool => {
                let msg = size_text("  pnpm store : ", self.first, answer, "pnpm missing");
                self.go(HubStage::StatusPnpmSaid, Step::Say(msg))
            },
            HubStage::StatusPnpmSaid => {
                let dir = self.ctx.uv_cache.clone();
                self.go(HubStage::StatusUvSize, Step::MeasureDir(dir))
            },
            HubStage::StatusUvSize => {
                self.first = size;
                self.go(HubStage::StatusUvTool, Step::CheckTool(String::from_str("uv")))
            },
            HubStage::StatusUvTool => {
                let msg = size_text("  uv cache   : ", self.first, answer, "uv missing");
                self.go(HubStage::StatusUvSaid, Step::Say(msg))
            },
            HubStage::StatusUvSaid => self.go(HubStage::StatusTotal, Step::MeasureStore),
            HubStage::StatusTotal => {
                let mut msg = String::from_str("  total      : ");
                let h = human_size(size);
                msg.append(padded_left(h.as_str(), 10).as_str());
                self.go(HubStage::StatusTotalSaid, Step::Say(msg))
            },
            _ => self.go(HubStage::StatusRegistry, Step::LoadRegistry),
        }
    }

    fn add_link_next(&mut self, answer: bool, size: u64) -> (res: Step)
        requires
            old(self).stage == HubStage::AddStore || old(self).stage == HubStage::AddBefore || old(self).stage
                == HubStage::AddVenv || old(self).stage == HubStage::AddInstall || old(self).stage
                == HubStage::AddRegister || old(self).stage == HubStage::AddAfter || old(self).stage
                == HubStage::LinkStore || old(self).stage == HubStage::LinkVenv || old(self).stage
                == HubStage::LinkInstall || old(self).stage == HubStage::LinkRegister,
        ensures
            final(self).setup() == old(self).setup(),
            forall|e: EventView|
                !(e is Failed) && flag_of(e) == answer && bytes_of(e) == size ==> (final(self).state(), res@)
                    == #[trigger] hub_transition(old(self).setup(), old(self).state(), e),
    {
        match self.stage {
            HubStage::AddStore => self.go(HubStage::AddBefore, Step::MeasureStore),
            HubStage::AddBefore => {
                self.first = size;
                self.add_install()
            },
            HubStage::AddVenv => {
                let step = self.pip_install();
                self.go(HubStage::AddInstall, step)
            },
            HubStage::AddInstall => {
                if answer {
                    let step = self.register_step();
                    self.go(HubStage::AddRegister, step)
                } else {
                    self.end(Err(String::from_str("the package manager reported an error")))
                }
            },
            HubStage::AddRegister => self.go(HubStage::AddAfter, Step::MeasureStore),
            HubStage::AddAfter => {
                let grown = if size >= self.first { size - self.first } else { 0 };
                let mut msg = String::from_str("\n\u{2713} added ");
                msg.append(join_with(&self.packages, ", ").as_str());
                msg.append(" to ");
                msg.append(self.eco.label());
                msg.append(" project \u{b7} store grew by ");
                msg.append(human_size(grown).as_str());
                msg.append(" (shared across all projects)");
                self.go(HubStage::Closing, Step::Say(msg))
            },
            HubStage::LinkStore => self.link_install(),
            HubStage::LinkVenv => {
                let step = self.uv(words4("pip", "install", "-r", "requirements.txt"));
                self.go(HubStage::LinkInstall, step)
            },
            HubStage::LinkInstall => {
                self.ok = answer;
                let step = self.register_step();
                self.go(HubStage::LinkRegister, step)
            },
            _ => {
                let mut msg = String::from_str("\n");
                msg.append(mark_text(self.ok));
                msg.append(" linked ");
                msg.append(self.eco.label());
                msg.append(" project to the shared store.");
                self.go(HubStage::Closing, Step::Say(msg))
            },
        }
    }

    /// Answers the pending step with `e` and returns the next step.
    pub fn next(&mut self, e: Event) -> (res: Step)
        ensures
            final(self).setup() == old(self).setup(),
            (final(self).state(), res@) == hub_transition(old(self).setup(), old(self).state(), e@),
    {
        if self.stage == HubStage::Finished {
            let copy = match &self.outcome {
                Ok(()) => Ok(()),
                Err(m) => Err(m.clone()),
            };
            return Step::Finish(copy);
        }
        if let Some(m) = crate::project::failure(&e) {
            return self.end(Err(m));
        }
        let answer = flag(&e);
        let size = bytes(&e);
        match self.stage {
            HubStage::InitIntro | HubStage::InitStore | HubStage::InitPnpm | HubStage::InitCorepackSay
            | HubStage::InitEnable | HubStage::InitActivate | HubStage::InitPnpmAgain | HubStage::InitConfig
            | HubStage::InitPnpmSaid | HubStage::InitUv | HubStage::InitEnv | HubStage::InitUvSaid
            | HubStage::InitSave => {
                let step = self.init_next(answer);
                assert((self.state(), step@) == hub_transition(old(self).setup(), old(self).state(), e@));
                step
            },
            HubStage::AddStore | HubStage::AddBefore | HubStage::AddVenv | HubStage::AddInstall
            | HubStage::AddRegister | HubStage::AddAfter | HubStage::LinkStore | HubStage::LinkVenv
            | HubStage::LinkInstall | HubStage::LinkRegister => {
                let step = self.add_link_next(answer, size);
                assert((self.state(), step@) == hub_transition(old(self).setup(), old(self).state(), e@));
                step
            },
            HubStage::StatusHead | HubStage::StatusRoot | HubStage::StatusPnpmSize | HubStage::StatusPnpmTool
            | HubStage::StatusPnpmSaid | HubStage::StatusUvSize | HubStage::StatusUvTool | HubStage::StatusUvSaid
            | HubStage::StatusTotal | HubStage::StatusTotalSaid => {
                let step = self.status_next(answer, size);
                assert((self.state(), step@) == hub_transition(old(self).setup(), old(self).state(), e@));
                step
            },
            HubStage::StatusRegistry => {
                let text = match e {
                    Event::Listed(r) => projects_text(&r),
                    _ => projects_text(&Registry::empty()),
                };
                self.go(HubStage::Closing, Step::Say(text))
            },
            HubStage::AnalyzeIntro => {
                let opts = ScanOptions {
                    roots: copy_texts(&self.roots),
                    categories: Some(vec![Category::Node, Category::Python]),
                    min_size: 0,
                };
                proof {
                    assert(opts.categories->0@ =~= seq![Category::Node, Category::Python]);
                }
                self.go(HubStage::AnalyzeScan, Step::Scan(opts))
            },
            HubStage::AnalyzeScan => {
                let (nc, nt, vc, vt) = match e {
                    Event::Found(items) => {
                        let (nc, nt) = kind_summary(&items, "node_modules");
                        let (vc, vt) = kind_summary(&items, "virtualenv");
                        (nc, nt, vc, vt)
                    },
                    _ => {
                        proof {
                            reveal(Seq::filter);
                        }
                        (0, 0, 0, 0)
                    },
                };
                self.node_count = nc;
                self.node_total = nt;
                self.venv_count = vc;
                self.venv_total = vt;
                self.go(HubStage::AnalyzeStore, Step::MeasureStore)
            },
            HubStage::AnalyzeStore => {
                let text = analyze_text(self.node_count, self.node_total, self.venv_count, self.venv_total, size);
                self.go(HubStage::Closing, Step::Say(text))
            },
            HubStage::Closing => self.end(Ok(())),
            HubStage::Finished => Step::Finish(Ok(())),
        }
    }
}

} // verus!

verus! {

/// The roots `analyze` scans: the given paths, or the default root when
/// none is given.
pub open spec fn analyze_roots(paths: Seq<Seq<char>>, default_root: Seq<char>) -> Seq<Seq<char>> {
    if paths.len() == 0 { seq![default_root] } else { paths }
}

/// A hub flow's state before its first answer.
pub open spec fn fresh_state(stage: HubStage) -> HubState {
    HubState {
        stage,
        ok: true,
        first: 0,
        node_count: 0,
        node_total: 0,
        venv_count: 0,
        venv_total: 0,
        outcome: Ok(()),
    }
}

/// How a hub command starts: its error when the command needs a project
/// and the directory is none, else the ecosystem it works on (if any), the
/// first stage, and the first step.
pub open spec fn hub_start(a: HubAction, ctx: HubContext) -> Result<(Option<Eco>, HubStage, StepView), Seq<char>> {
    match a {
        HubAction::Init => Ok((None, HubStage::InitIntro, StepView::Say(init_intro(ctx.store_root@)))),
        HubAction::Add { .. } => match detect_spec(ctx.files) {
            None => Err(add_detect_message()),
            Some(eco) => Ok((Some(eco), HubStage::AddStore, StepView::PrepareStore)),
        },
        HubAction::Status => Ok((None, HubStage::StatusHead, StepView::Say(status_head()))),
        HubAction::Link => match detect_spec(ctx.files) {
            None => Err(link_detect_message()),
            Some(eco) => Ok((Some(eco), HubStage::LinkStore, StepView::PrepareStore)),
        },
        HubAction::Analyze { paths } => Ok(
            (
                None,
                HubStage::AnalyzeIntro,
                StepView::Say(analyze_intro(analyze_roots(texts(paths@), ctx.default_root@).len())),
            ),
        ),
    }
}

/// Starts the hub command `action` in the situation `ctx` describes: the
/// error when it needs a project and there is none, else the flow and its
/// first step.
pub fn run(action: HubAction, ctx: HubContext) -> (res: Result<(HubFlow, Step), String>)
    ensures
        hub_start(action, ctx) is Err ==> res is Err && res->Err_0@ == hub_start(action, ctx)->Err_0,
        hub_start(action, ctx) is Ok ==> res is Ok && {
            let (f, step) = res->Ok_0;
            let (eco, stage, first) = hub_start(action, ctx)->Ok_0;
            &&& f.setup().ctx == ctx
            &&& eco is Some ==> f.setup().eco == eco->0
            &&& f.setup().packages == (match action {
                HubAction::Add { packages, .. } => texts(packages@),
                _ => Seq::empty(),
            })
            &&& f.setup().dev == (match action {
                HubAction::Add { dev, .. } => dev,
                _ => false,
            })
            &&& f.setup().roots == (match action {
                HubAction::Analyze { paths } => analyze_roots(texts(paths@), ctx.default_root@),
                _ => Seq::empty(),
            })
            &&& f.state() == fresh_state(stage)
            &&& step@ == first
        },
{
    let detected = Eco::detect(&ctx.files);
    let mut packages: Vec<String> = Vec::new();
    let mut dev = false;
    let mut roots: Vec<String> = Vec::new();
    assert(texts(packages@) =~= Seq::<Seq<char>>::empty());
    assert(texts(roots@) =~= Seq::<Seq<char>>::empty());
    let mut eco = Eco::Node;
    let stage;
    let step;
    match action {
        HubAction::Init => {
            let mut msg = String::from_str("Setting up the shared store under ");
            msg.append(ctx.store_root.as_str());
            msg.append("\n");
            stage = HubStage::InitIntro;
            step = Step::Say(msg);
        },
        HubAction::Add { packages: p, dev: d } => {
            match detected {
                None => {
                    return Err(
                        String::from_str(
                            "no package.json / pyproject.toml / requirements.txt here \u{2014} run this inside a project",
                        ),
                    );
                },
                Some(x) => {
                    eco = x;
                },
            }
            packages = p;
            dev = d;
            stage = HubStage::AddStore;
            step = Step::PrepareStore;
        },
        HubAction::Status => {
            stage = HubStage::StatusHead;
            step = Step::Say(String::from_str("depot hub \u{2014} shared package store\n"));
        },
        HubAction::Link => {
            match detected {
                None => {
                    return Err(String::from_str("not a Node or Python project"));
                },
                Some(x) => {
                    eco = x;
                },
            }
            stage = HubStage::LinkStore;
            step = Step::PrepareStore;
        },
        HubAction::Analyze { paths } => {
            if paths.len() == 0 {
                roots = vec![ctx.default_root.clone()];
                assert(texts(roots@) =~= seq![ctx.default_root@]);
            } else {
                roots = paths;
            }
            let mut msg = String::from_str("Scanning for projects under ");
            msg.append(decimal_string(roots.len() as u128).as_str());
            msg.append(" root(s)\u{2026}");
            stage = HubStage::AnalyzeIntro;
            step = Step::Say(msg);
        },
    }
    let f = HubFlow {
        ctx,
        eco,
        packages,
        dev,
        roots,
        stage,
        ok: true,
        first: 0,
        node_count: 0,
        node_total: 0,
        venv_count: 0,
        venv_total: 0,
        outcome: Ok(()),
    };
    Ok((f, step))
}

} // verus!

verus! {

/// How far a stage is along its command's flow.
pub open spec fn hub_rank(st: HubStage) -> nat {
    match st {
        HubStage::InitIntro => 0,
        HubStage::InitStore => 1,
        HubStage::InitPnpm => 2,
        HubStage::InitCorepackSay => 3,
        HubStage::InitEnable => 4,
        HubStage::InitActivate => 5,
        HubStage::InitPnpmAgain => 6,
        HubStage::InitConfig => 7,
        HubStage::InitPnpmSaid => 8,
        HubStage::InitUv => 9,
        HubStage::InitEnv => 10,
        HubStage::InitUvSaid => 11,
        HubStage::InitSave => 12,
        HubStage::AddStore => 0,
        HubStage::AddBefore => 1,
        HubStage::AddVenv => 2,
        HubStage::AddInstall => 3,
        HubStage::AddRegister => 4,
        HubStage::AddAfter => 5,
        HubStage::StatusHead => 0,
        HubStage::StatusRoot => 1,
        HubStage::StatusPnpmSize => 2,
        HubStage::StatusPnpmTool => 3,
        HubStage::StatusPnpmSaid => 4,
        HubStage::StatusUvSize => 5,
        HubStage::StatusUvTool => 6,
        HubStage::StatusUvSaid => 7,
        HubStage::StatusTotal => 8,
        HubStage::StatusTotalSaid => 9,
        HubStage::StatusRegistry => 10,
        HubStage::LinkStore => 0,
        HubStage::LinkVenv => 1,
        HubStage::LinkInstall => 2,
        HubStage::LinkRegister => 3,
        HubStage::AnalyzeIntro => 0,
        HubStage::AnalyzeScan => 1,
        HubStage::AnalyzeStore => 2,
        HubStage::Closing => 13,
        HubStage::Finished => 14,
    }
}

/// Every answer moves an unfinished hub flow strictly forward, so each
/// command finishes after at most fourteen answers; a finished flow stays
/// finished with the same outcome, whatever it is told.
pub proof fn lemma_hub_progress(x: HubSetup, s: HubState, e: EventView)
    ensures
        ({
            let (t, step) = hub_transition(x, s, e);
            &&& s.stage != HubStage::Finished ==> hub_rank(t.stage) > hub_rank(s.stage)
            &&& s.stage == HubStage::Finished ==> t == s && step == StepView::Finish(s.outcome)
            &&& (t.stage == HubStage::Finished <==> step is Finish)
            &&& t.stage == HubStage::Finished ==> step == StepView::Finish(t.outcome)
        }),
{
}

/// A step that fails finishes an unfinished hub flow with the failure's
/// message.
pub proof fn lemma_hub_failure_finishes(x: HubSetup, s: HubState, msg: Seq<char>)
    requires
        s.stage != HubStage::Finished,
    ensures
        hub_transition(x, s, EventView::Failed(msg)).1 == StepView::Finish(Err(msg)),
{
}

/// `hub add` records the project only after the package manager succeeded,
/// and a hub flow reports success only from its closing line.
pub proof fn lemma_add_records_after_install(x: HubSetup, s: HubState, e: EventView)
    ensures
        ({
            let (t, step) = hub_transition(x, s, e);
            &&& s.stage != HubStage::AddRegister && t.stage == HubStage::AddRegister ==> s.stage
                == HubStage::AddInstall && e == EventView::Flag(true)
            &&& s.stage != HubStage::Finished && step is Finish && step->Finish_0 is Ok ==> s.stage
                == HubStage::Closing
        }),
{
}

} // verus!

verus! {

/// What `hub add` installs with, once the store is measured: for a Node
/// project `pnpm add <packages>`, then `-D` exactly when the packages are
/// development dependencies, then `--store-dir <pnpm store>`; for a
/// pyproject project `uv add <packages>`, then `--dev` exactly when they are
/// development dependencies; for a requirements-only project `uv pip
/// install <packages>` (after `uv venv` when `.venv` is missing), which has
/// no notion of development dependencies. uv runs with its cache set to the
/// store.
pub proof fn lemma_add_install_command(x: HubSetup, s: HubState, e: EventView)
    requires
        s.stage == HubStage::AddBefore,
        !(e is Failed),
    ensures
        ({
            let (t, step) = hub_transition(x, s, e);
            let n = x.packages.len() as int;
            &&& t.first == bytes_of(e)
            &&& step is Launch
            &&& match x.eco {
                Eco::Node => {
                    let c = step->Launch_0;
                    &&& t.stage == HubStage::AddInstall
                    &&& c.program == "pnpm"@
                    &&& c.env.len() == 0
                    &&& c.args.len() == n + if x.dev { 4int } else { 3int }
                    &&& c.args[0] == "add"@
                    &&& c.args.subrange(1, n + 1) == x.packages
                    &&& x.dev ==> c.args[n + 1] == "-D"@
                    &&& c.args[c.args.len() - 2] == "--store-dir"@
                    &&& c.args[c.args.len() - 1] == x.ctx.pnpm_store@
                },
                Eco::Python => {
                    let c = step->Launch_0;
                    &&& c.program == "uv"@
                    &&& c.env == seq![("UV_CACHE_DIR"@, x.ctx.uv_cache@)]
                    &&& if x.ctx.files.pyproject_toml {
                        &&& t.stage == HubStage::AddInstall
                        &&& c.args.len() == n + if x.dev { 2int } else { 1int }
                        &&& c.args[0] == "add"@
                        &&& c.args.subrange(1, n + 1) == x.packages
                        &&& x.dev ==> c.args[n + 1] == "--dev"@
                    } else if !x.ctx.has_venv {
                        t.stage == HubStage::AddVenv && c.args == seq!["venv"@]
                    } else {
                        &&& t.stage == HubStage::AddInstall
                        &&& c.args == seq!["pip"@, "install"@] + x.packages
                    }
                },
            }
        }),
{
    let n = x.packages.len() as int;
    if x.dev {
        assert((seq!["add"@] + x.packages + seq!["-D"@] + seq!["--store-dir"@, x.ctx.pnpm_store@]).subrange(1, n + 1)
            =~= x.packages);
        assert((seq!["add"@] + x.packages + seq!["--dev"@]).subrange(1, n + 1) =~= x.packages);
    } else {
        assert((seq!["add"@] + x.packages + Seq::empty() + seq!["--store-dir"@, x.ctx.pnpm_store@]).subrange(1, n + 1)
            =~= x.packages);
        assert((seq!["add"@] + x.packages + Seq::<Seq<char>>::empty()).subrange(1, n + 1) =~= x.packages);
    }
}

} // verus!

verus! {

/// `hub init` saves the settings marked initialised and pointing at the
/// store's pnpm store and uv cache, and sets only `UV_CACHE_DIR`, to the uv
/// cache; `hub link` reports success exactly when its install step
/// succeeded.
pub proof fn lemma_init_and_link(x: HubSetup, s: HubState, e: EventView)
    ensures
        ({
            let (t, step) = hub_transition(x, s, e);
            &&& step matches StepView::SaveConfig { initialized, pnpm_store, uv_cache } ==> initialized
                && pnpm_store == x.ctx.pnpm_store@ && uv_cache == x.ctx.uv_cache@
            &&& step matches StepView::SetEnv { key, value } ==> key == "UV_CACHE_DIR"@ && value == x.ctx.uv_cache@
            &&& s.stage != HubStage::LinkRegister && t.stage == HubStage::LinkRegister ==> (t.ok <==> (
            s.stage == HubStage::LinkInstall && e == EventView::Flag(true)))
            &&& s.stage == HubStage::LinkRegister && !(e is Failed) ==> step == StepView::Say(
                "\n"@ + (if s.ok { "\u{2713}"@ } else { "!"@ }) + " linked "@ + eco_label(x.eco)
                    + " project to the shared store."@,
            )
        }),
{
}

} // verus!
