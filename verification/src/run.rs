//! `depot run` / `depot ensure`: assemble a project's dependencies from the
//! shared global store on demand (installing only what is missing), then run.
//!
//! Node goes through pnpm against the shared store; Python through `uv run`,
//! which syncs the environment from uv's global cache before running. The
//! decisions live here as a state machine: the caller performs each [`Step`]
//! and answers it with an [`Event`] until the flow finishes.

use vstd::prelude::*;

use crate::project::{
    detect_spec, eco_label, flag, flag_of, pnpm_call, texts, uv_call, uv_env, with_prefix, words1,
    words3, words4,
    Eco, Event, EventView, ProjectFiles, Step, StepView, ToolCallView,
};
use crate::text::{join, path_join, PathStyle};
use crate::util::Timestamp;

verus! {

/// What the flow knows about the project directory and the store before it
/// starts.
pub struct RunContext {
    /// The project directory.
    pub dir: String,
    /// Which manifests the directory holds.
    pub files: ProjectFiles,
    /// Whether `.venv` exists in it.
    pub has_venv: bool,
    /// Whether `node_modules` is fresh (see [`node_fresh`]).
    pub node_fresh: bool,
    /// pnpm's store directory.
    pub pnpm_store: String,
    /// uv's cache directory.
    pub uv_cache: String,
    /// The platform's path conventions.
    pub style: PathStyle,
}

/// What the flow is for.
pub enum Goal {
    /// Make the dependencies present without running anything.
    Ensure,
    /// Assemble, then run this script (with its arguments).
    Run(Vec<String>),
}

/// Which answer the flow is waiting for.
#[derive(Clone, Copy, Debug, PartialEq, Eq, Structural)]
pub enum RunStage {
    Store,
    Skip,
    Pnpm,
    Install,
    Stamp,
    Sync,
    Venv,
    Pip,
    Register,
    Ready,
    Script,
    Finished,
}

/// The state of a flow in progress.
pub struct RunFlow {
    pub ctx: RunContext,
    pub goal: Goal,
    pub eco: Eco,
    pub stage: RunStage,
    /// Whether assembling the dependencies succeeded.
    pub ok: bool,
    /// The outcome, once finished.
    pub outcome: Result<(), String>,
}

/// The changing part of a flow, as values.
pub struct RunState {
    pub stage: RunStage,
    pub ok: bool,
    pub outcome: Result<(), Seq<char>>,
}

impl RunFlow {
    /// The changing part of the flow.
    pub open spec fn state(&self) -> RunState {
        RunState {
            stage: self.stage,
            ok: self.ok,
            outcome: match self.outcome {
                Ok(()) => Ok(()),
                Err(e) => Err(e@),
            },
        }
    }
}

/// The arguments of a goal, as text (none for `Ensure`).
pub open spec fn goal_args(g: Goal) -> Option<Seq<Seq<char>>> {
    match g {
        Goal::Ensure => None,
        Goal::Run(a) => Some(texts(a@)),
    }
}

pub open spec fn detect_message() -> Seq<char> {
    "not a Node or Python project here (need package.json / pyproject.toml / requirements.txt)"@
}

pub open spec fn skip_message() -> Seq<char> {
    "\u{2022} deps already assembled from the store (skipping install)"@
}

pub open spec fn pnpm_missing_message() -> Seq<char> {
    "pnpm is required for Node projects \u{2014} `npm install -g pnpm` or run `depot hub init`"@
}

pub open spec fn no_script_message() -> Seq<char> {
    "specify a script to run, e.g. `depot run dev`"@
}

pub open spec fn command_failed_message() -> Seq<char> {
    "the command exited with an error"@
}

pub open spec fn install_failed_message() -> Seq<char> {
    "dependency install reported an error"@
}

pub open spec fn ready_message(e: Eco) -> Seq<char> {
    "\u{2713} "@ + eco_label(e) + " project ready \u{2014} deps linked from the shared store"@
}

/// The stamp written into `node_modules` after a successful install.
pub open spec fn stamp_path_spec(dir: Seq<char>, style: PathStyle) -> Seq<char> {
    path_join(path_join(dir, "node_modules"@, style), ".depot-stamp"@, style)
}

/// A pnpm call as text.
pub open spec fn pnpm_view(args: Seq<Seq<char>>) -> ToolCallView {
    ToolCallView { program: "pnpm"@, args, env: Seq::empty() }
}

/// A uv call with its cache set, as text.
pub open spec fn uv_view(args: Seq<Seq<char>>, cache: Seq<char>) -> ToolCallView {
    ToolCallView { program: "uv"@, args, env: uv_env(cache) }
}

/// The facts `node_modules` freshness is decided on: whether the directory
/// exists, when the stamp was written, and when each manifest or lockfile
/// (those that exist) was last changed.
pub struct FreshFacts {
    pub node_modules_dir: bool,
    pub stamp: Option<Timestamp>,
    pub manifests: Vec<Option<Timestamp>>,
}

/// `node_modules` is fresh iff it exists, the stamp exists, and every
/// manifest or lockfile that exists is strictly older than the stamp.
pub open spec fn fresh_spec(f: FreshFacts) -> bool {
    &&& f.node_modules_dir
    &&& f.stamp is Some
    &&& forall|i: int|
        0 <= i < f.manifests@.len() && (#[trigger] f.manifests@[i]) is Some
            ==> f.manifests@[i]->0.total_nanos() < f.stamp->0.total_nanos()
}

/// Whether `node_modules` is fresh: it exists and every manifest/lockfile is
/// older than the stamp written after the last successful assemble.
pub fn node_fresh(f: &FreshFacts) -> (res: bool)
    ensures
        res == fresh_spec(*f),
{
    if !f.node_modules_dir {
        return false;
    }
    let stamp = match f.stamp {
        Some(s) => s,
        None => {
            return false;
        },
    };
    let limit = stamp.nanos_since_epoch();
    let mut i: usize = 0;
    while i < f.manifests.len()
        invariant
            i <= f.manifests@.len(),
            f.stamp == Some(stamp),
            limit == stamp.total_nanos(),
            forall|j: int|
                0 <= j < i && (#[trigger] f.manifests@[j]) is Some
                    ==> f.manifests@[j]->0.total_nanos() < stamp.total_nanos(),
        decreases f.manifests@.len() - i,
    {
        if let Some(m) = f.manifests[i] {
            if m.nanos_since_epoch() >= limit {
                return false;
            }
        }
        i = i + 1;
    }
    true
}

/// The stamp path of a project directory, `node_modules/.depot-stamp`.
pub fn stamp_path(dir: &str, style: PathStyle) -> (res: String)
    ensures
        res@ == stamp_path_spec(dir@, style),
{
    let nm = join(dir, "node_modules", style);
    join(nm.as_str(), ".depot-stamp", style)
}

/// The manifests and lockfiles whose changes make `node_modules` stale.
pub fn manifest_paths(dir: &str, style: PathStyle) -> (res: Vec<String>)
    ensures
        texts(res@) == seq![
            path_join(dir@, "package.json"@, style),
            path_join(dir@, "pnpm-lock.yaml"@, style),
            path_join(dir@, "package-lock.json"@, style),
        ],
{
    let res = vec![
        join(dir, "package.json", style),
        join(dir, "pnpm-lock.yaml", style),
        join(dir, "package-lock.json", style),
    ];
    assert(texts(res@) =~= seq![
        path_join(dir@, "package.json"@, style),
        path_join(dir@, "pnpm-lock.yaml"@, style),
        path_join(dir@, "package-lock.json"@, style),
    ]);
    res
}

/// Finishing with outcome `r`.
pub open spec fn finish(s: RunState, r: Result<(), Seq<char>>) -> (RunState, StepView) {
    (RunState { stage: RunStage::Finished, ok: s.ok, outcome: r }, StepView::Finish(r))
}

/// Waiting at `stage` after asking for `step`.
pub open spec fn wait(s: RunState, stage: RunStage, ok: bool, step: StepView) -> (RunState, StepView) {
    (RunState { stage, ok, outcome: s.outcome }, step)
}

/// The dependencies are assembled (successfully or not): record the
/// project.
pub open spec fn assembled(ctx: RunContext, eco: Eco, s: RunState, ok: bool) -> (RunState, StepView) {
    wait(s, RunStage::Register, ok, StepView::Register { path: ctx.dir@, ecosystem: eco_label(eco) })
}

/// A requirements-only Python project once `.venv` exists.
pub open spec fn after_venv(ctx: RunContext, eco: Eco, s: RunState) -> (RunState, StepView) {
    if ctx.files.requirements_txt {
        wait(
            s,
            RunStage::Pip,
            s.ok,
            StepView::Launch(
                uv_view(seq!["pip"@, "install"@, "-r"@, "requirements.txt"@], ctx.uv_cache@),
            ),
        )
    } else {
        assembled(ctx, eco, s, true)
    }
}

/// The first step of assembling the dependencies.
pub open spec fn assemble_start(ctx: RunContext, eco: Eco, s: RunState) -> (RunState, StepView) {
    match eco {
        Eco::Node => if ctx.node_fresh {
            wait(s, RunStage::Skip, s.ok, StepView::Say(skip_message()))
        } else {
            wait(s, RunStage::Pnpm, s.ok, StepView::CheckTool("pnpm"@))
        },
        Eco::Python => if ctx.files.pyproject_toml {
            wait(s, RunStage::Sync, s.ok, StepView::Launch(uv_view(seq!["sync"@], ctx.uv_cache@)))
        } else if !ctx.has_venv {
            wait(s, RunStage::Venv, s.ok, StepView::Launch(uv_view(seq!["venv"@], ctx.uv_cache@)))
        } else {
            after_venv(ctx, eco, s)
        },
    }
}

/// Once the store is ready: `ensure` and a Node `run` assemble first; a
/// Python `run` records the project straight away (`uv run` syncs itself).
pub open spec fn after_store(ctx: RunContext, goal: Option<Seq<Seq<char>>>, eco: Eco, s: RunState) -> (
    RunState,
    StepView,
) {
    if goal is Some && eco == Eco::Python {
        wait(s, RunStage::Register, s.ok, StepView::Register { path: ctx.dir@, ecosystem: eco_label(eco) })
    } else {
        assemble_start(ctx, eco, s)
    }
}

/// Once the project is recorded.
pub open spec fn after_register(ctx: RunContext, goal: Option<Seq<Seq<char>>>, eco: Eco, s: RunState) -> (
    RunState,
    StepView,
) {
    match goal {
        None => if !s.ok {
            finish(s, Err(install_failed_message()))
        } else {
            wait(s, RunStage::Ready, s.ok, StepView::Say(ready_message(eco)))
        },
        Some(args) => match eco {
            Eco::Node => if args.len() == 0 {
                finish(s, Err(no_script_message()))
            } else {
                wait(s, RunStage::Script, s.ok, StepView::Launch(pnpm_view(seq!["run"@] + args)))
            },
            Eco::Python => if args.len() == 0 {
                wait(s, RunStage::Script, s.ok, StepView::Launch(uv_view(seq!["sync"@], ctx.uv_cache@)))
            } else {
                wait(s, RunStage::Script, s.ok, StepView::Launch(uv_view(seq!["run"@] + args, ctx.uv_cache@)))
            },
        },
    }
}

/// The flow's answer to event `e` in state `s`: the next state and step.
/// A finished flow stays finished; a failure finishes it with that message.
pub open spec fn run_transition(
    ctx: RunContext,
    goal: Option<Seq<Seq<char>>>,
    eco: Eco,
    s: RunState,
    e: EventView,
) -> (RunState, StepView) {
    if s.stage == RunStage::Finished {
        (s, StepView::Finish(s.outcome))
    } else if e is Failed {
        finish(s, Err(e->Failed_0))
    } else {
        match s.stage {
            RunStage::Store => after_store(ctx, goal, eco, s),
            RunStage::Skip => assembled(ctx, eco, s, true),
            RunStage::Pnpm => if flag_of(e) {
                wait(
                    s,
                    RunStage::Install,
                    s.ok,
                    StepView::Launch(pnpm_view(seq!["install"@, "--store-dir"@, ctx.pnpm_store@])),
                )
            } else {
                finish(s, Err(pnpm_missing_message()))
            },
            RunStage::Install => if flag_of(e) {
                wait(s, RunStage::Stamp, s.ok, StepView::WriteStamp(stamp_path_spec(ctx.dir@, ctx.style)))
            } else {
                assembled(ctx, eco, s, false)
            },
            RunStage::Stamp => assembled(ctx, eco, s, true),
            RunStage::Sync => assembled(ctx, eco, s, flag_of(e)),
            RunStage::Venv => after_venv(ctx, eco, s),
            RunStage::Pip => assembled(ctx, eco, s, flag_of(e)),
            RunStage::Register => after_register(ctx, goal, eco, s),
            RunStage::Ready => finish(s, Ok(())),
            RunStage::Script => if flag_of(e) {
                finish(s, Ok(()))
            } else {
                finish(s, Err(command_failed_message()))
            },
            RunStage::Finished => (s, StepView::Finish(s.outcome)),
        }
    }
}

fn uv_args_call(args: Vec<String>, cache: &str) -> (res: crate::project::ToolCall)
    ensures
        res@ == uv_view(texts(args@), cache@),
{
    uv_call(args, cache)
}

fn pnpm_args_call(args: Vec<String>) -> (res: crate::project::ToolCall)
    ensures
        res@ == pnpm_view(texts(args@)),
{
    pnpm_call(args)
}

impl RunFlow {
    fn go(&mut self, stage: RunStage, ok: bool, step: Step) -> (res: Step)
        ensures
            final(self).ctx == old(self).ctx,
            final(self).goal == old(self).goal,
            final(self).eco == old(self).eco,
            final(self).state() == (RunState { stage, ok, outcome: old(self).state().outcome }),
            res == step,
    {
        self.stage = stage;
        self.ok = ok;
        step
    }

    fn end(&mut self, r: Result<(), String>) -> (res: Step)
        ensures
            final(self).ctx == old(self).ctx,
            final(self).goal == old(self).goal,
            final(self).eco == old(self).eco,
            (final(self).state(), res@) == finish(
                old(self).state(),
                match r {
                    Ok(()) => Ok(()),
                    Err(e) => Err(e@),
                },
            ),
    {
        self.stage = RunStage::Finished;
        let copy = match &r {
            Ok(()) => Ok(()),
            Err(e) => Err(e.clone()),
        };
        self.outcome = r;
        Step::Finish(copy)
    }

    fn register_step(&mut self, ok: bool) -> (res: Step)
        ensures
            final(self).ctx == old(self).ctx,
            final(self).goal == old(self).goal,
            final(self).eco == old(self).eco,
            (final(self).state(), res@) == assembled(old(self).ctx, old(self).eco, old(self).state(), ok),
    {
        let path = self.ctx.dir.clone();
        let ecosystem = String::from_str(self.eco.label());
        self.go(RunStage::Register, ok, Step::Register { path, ecosystem })
    }

    fn venv_done(&mut self) -> (res: Step)
        ensures
            final(self).ctx == old(self).ctx,
            final(self).goal == old(self).goal,
            final(self).eco == old(self).eco,
            (final(self).state(), res@) == after_venv(old(self).ctx, old(self).eco, old(self).state()),
    {
        if self.ctx.files.requirements_txt {
            let args = words4("pip", "install", "-r", "requirements.txt");
            let call = uv_args_call(args, self.ctx.uv_cache.as_str());
            let ok = self.ok;
            self.go(RunStage::Pip, ok, Step::Launch(call))
        } else {
            self.register_step(true)
        }
    }

    fn assemble(&mut self) -> (res: Step)
        ensures
            final(self).ctx == old(self).ctx,
            final(self).goal == old(self).goal,
            final(self).eco == old(self).eco,
            (final(self).state(), res@) == assemble_start(old(self).ctx, old(self).eco, old(self).state()),
    {
        let ok = self.ok;
        match self.eco {
            Eco::Node => {
                if self.ctx.node_fresh {
                    let msg = String::from_str(
                        "\u{2022} deps already assembled from the store (skipping install)",
                    );
                    self.go(RunStage::Skip, ok, Step::Say(msg))
                } else {
                    self.go(RunStage::Pnpm, ok, Step::CheckTool(String::from_str("pnpm")))
                }
            },
            Eco::Python => {
                if self.ctx.files.pyproject_toml {
                    let call = uv_args_call(words1("sync"), self.ctx.uv_cache.as_str());
                    self.go(RunStage::Sync, ok, Step::Launch(call))
                } else if !self.ctx.has_venv {
                    let call = uv_args_call(words1("venv"), self.ctx.uv_cache.as_str());
                    self.go(RunStage::Venv, ok, Step::Launch(call))
                } else {
                    self.venv_done()
                }
            },
        }
    }

    fn registered(&mut self) -> (res: Step)
        ensures
            final(self).ctx == old(self).ctx,
            final(self).goal == old(self).goal,
            final(self).eco == old(self).eco,
            (final(self).state(), res@) == after_register(
                old(self).ctx,
                goal_args(old(self).goal),
                old(self).eco,
                old(self).state(),
            ),
    {
        let ok = self.ok;
        let mut script: Option<Vec<String>> = None;
        match &self.goal {
            Goal::Ensure => {},
            Goal::Run(args) => {
                script = Some(crate::project::copy_texts(args));
            },
        }
        match script {
            None => {
                if !ok {
                    self.end(Err(String::from_str("dependency install reported an error")))
                } else {
                    let mut msg = String::from_str("\u{2713} ");
                    msg.append(self.eco.label());
                    msg.append(" project ready \u{2014} deps linked from the shared store");
                    self.go(RunStage::Ready, ok, Step::Say(msg))
                }
            },
            Some(args) => {
                match self.eco {
                    Eco::Node => {
                        if args.len() == 0 {
                            self.end(Err(String::from_str("specify a script to run, e.g. `depot run dev`")))
                        } else {
                            let full = with_prefix(words1("run"), &args);
                            let call = pnpm_args_call(full);
                            self.go(RunStage::Script, ok, Step::Launch(call))
                        }
                    },
                    Eco::Python => {
                        if args.len() == 0 {
                            let call = uv_args_call(words1("sync"), self.ctx.uv_cache.as_str());
                            self.go(RunStage::Script, ok, Step::Launch(call))
                        } else {
                            let full = with_prefix(words1("run"), &args);
                            let call = uv_args_call(full, self.ctx.uv_cache.as_str());
                            self.go(RunStage::Script, ok, Step::Launch(call))
                        }
                    },
                }
            },
        }
    }

    /// Answers the pending step with `e` and returns the next step.
    pub fn next(&mut self, e: Event) -> (res: Step)
        ensures
            final(self).ctx == old(self).ctx,
            final(self).goal == old(self).goal,
            final(self).eco == old(self).eco,
            (final(self).state(), res@) == run_transition(
                old(self).ctx,
                goal_args(old(self).goal),
                old(self).eco,
                old(self).state(),
                e@,
            ),
    {
        if self.stage == RunStage::Finished {
            let copy = match &self.outcome {
                Ok(()) => Ok(()),
                Err(m) => Err(m.clone()),
            };
            return Step::Finish(copy);
        }
        if let Event::Failed(m) = e {
            return self.end(Err(m));
        }
        let answer = flag(&e);
        let ok = self.ok;
        match self.stage {
            RunStage::Store => {
                let is_run = match &self.goal {
                    Goal::Ensure => false,
                    Goal::Run(_) => true,
                };
                if is_run && self.eco == Eco::Python {
                    self.register_step(ok)
                } else {
                    self.assemble()
                }
            },
            RunStage::Skip => self.register_step(true),
            RunStage::Pnpm => {
                if answer {
                    let args = words3("install", "--store-dir", self.ctx.pnpm_store.as_str());
                    let call = pnpm_args_call(args);
                    self.go(RunStage::Install, ok, Step::Launch(call))
                } else {
                    self.end(
                        Err(
                            String::from_str(
                                "pnpm is required for Node projects \u{2014} `npm install -g pnpm` or run `depot hub init`",
                            ),
                        ),
                    )
                }
            },
            RunStage::Install => {
                if answer {
                    let path = stamp_path(self.ctx.dir.as_str(), self.ctx.style);
                    self.go(RunStage::Stamp, ok, Step::WriteStamp(path))
                } else {
                    self.register_step(false)
                }
            },
            RunStage::Stamp => self.register_step(true),
            RunStage::Sync => self.register_step(answer),
            RunStage::Venv => self.venv_done(),
            RunStage::Pip => self.register_step(answer),
            RunStage::Register => self.registered(),
            RunStage::Ready => self.end(Ok(())),
            RunStage::Script => {
                if answer {
                    self.end(Ok(()))
                } else {
                    self.end(Err(String::from_str("the command exited with an error")))
                }
            },
            RunStage::Finished => Step::Finish(Ok(())),
        }
    }
}

/// Starts a flow for `goal` in the project `ctx` describes: the detection
/// error when the directory is no Node or Python project, else the flow and
/// its first step, preparing the store.
pub fn start(ctx: RunContext, goal: Goal) -> (res: Result<(RunFlow, Step), String>)
    ensures
        detect_spec(ctx.files) is None ==> res is Err && res->Err_0@ == detect_message(),
        detect_spec(ctx.files) is Some ==> res is Ok && {
            let (f, step) = res->Ok_0;
            &&& f.ctx == ctx
            &&& f.goal == goal
            &&& f.eco == detect_spec(ctx.files)->0
            &&& f.state().stage == RunStage::Store
            &&& f.state().ok
            &&& step@ == StepView::PrepareStore
        },
{
    match Eco::detect(&ctx.files) {
        None => Err(
            String::from_str(
                "not a Node or Python project here (need package.json / pyproject.toml / requirements.txt)",
            ),
        ),
        Some(eco) => {
            let f = RunFlow { ctx, goal, eco, stage: RunStage::Store, ok: true, outcome: Ok(()) };
            Ok((f, Step::PrepareStore))
        },
    }
}

/// `depot ensure`: make the project's dependencies present (linked from the
/// store, missing ones fetched) without running anything.
pub fn ensure(ctx: RunContext) -> (res: Result<(RunFlow, Step), String>)
    ensures
        detect_spec(ctx.files) is None ==> res is Err && res->Err_0@ == detect_message(),
        detect_spec(ctx.files) is Some ==> res is Ok && {
            let (f, step) = res->Ok_0;
            &&& f.ctx == ctx
            &&& f.goal == Goal::Ensure
            &&& f.eco == detect_spec(ctx.files)->0
            &&& f.state().stage == RunStage::Store
            &&& f.state().ok
            &&& step@ == StepView::PrepareStore
        },
{
    start(ctx, Goal::Ensure)
}

/// `depot run [script/args…]`: assemble the dependencies, then run.
pub fn run(args: Vec<String>, ctx: RunContext) -> (res: Result<(RunFlow, Step), String>)
    ensures
        detect_spec(ctx.files) is None ==> res is Err && res->Err_0@ == detect_message(),
        detect_spec(ctx.files) is Some ==> res is Ok && {
            let (f, step) = res->Ok_0;
            &&& f.ctx == ctx
            &&& goal_args(f.goal) == Some(texts(args@))
            &&& f.eco == detect_spec(ctx.files)->0
            &&& f.state().stage == RunStage::Store
            &&& f.state().ok
            &&& step@ == StepView::PrepareStore
        },
{
    start(ctx, Goal::Run(args))
}

/// How far a stage is along the flow.
pub open spec fn stage_rank(st: RunStage) -> nat {
    match st {
        RunStage::Store => 0,
        RunStage::Skip => 1,
        RunStage::Pnpm => 1,
        RunStage::Sync => 1,
        RunStage::Venv => 1,
        RunStage::Install => 2,
        RunStage::Pip => 2,
        RunStage::Stamp => 3,
        RunStage::Register => 4,
        RunStage::Ready => 5,
        RunStage::Script => 5,
        RunStage::Finished => 6,
    }
}

/// Every answer moves an unfinished flow strictly forward, so a flow
/// finishes after at most six answers; a finished flow stays finished with
/// the same outcome, whatever it is told.
pub proof fn lemma_run_progress(
    ctx: RunContext,
    goal: Option<Seq<Seq<char>>>,
    eco: Eco,
    s: RunState,
    e: EventView,
)
    ensures
        ({
            let (t, step) = run_transition(ctx, goal, eco, s, e);
            &&& s.stage != RunStage::Finished ==> stage_rank(t.stage) > stage_rank(s.stage)
            &&& s.stage == RunStage::Finished ==> t == s && step == StepView::Finish(s.outcome)
            &&& (t.stage == RunStage::Finished <==> step is Finish)
            &&& t.stage == RunStage::Finished ==> step == StepView::Finish(t.outcome)
        }),
{
}

/// A step that fails finishes an unfinished flow with the failure's message.
pub proof fn lemma_run_failure_finishes(
    ctx: RunContext,
    goal: Option<Seq<Seq<char>>>,
    eco: Eco,
    s: RunState,
    msg: Seq<char>,
)
    requires
        s.stage != RunStage::Finished,
    ensures
        run_transition(ctx, goal, eco, s, EventView::Failed(msg)).1 == StepView::Finish(Err(msg)),
{
}

/// What holds of every state a flow reaches: `ensure` never launches a
/// script, `run` never announces readiness, and readiness is announced only
/// for dependencies assembled successfully.
pub open spec fn run_inv(goal: Option<Seq<Seq<char>>>, s: RunState) -> bool {
    &&& goal is None ==> s.stage != RunStage::Script
    &&& goal is Some ==> s.stage != RunStage::Ready
    &&& s.stage == RunStage::Ready ==> s.ok
}

/// A flow starts in a state that keeps the invariant, and every answer
/// keeps it.
pub proof fn lemma_run_inv(ctx: RunContext, goal: Option<Seq<Seq<char>>>, eco: Eco, s: RunState, e: EventView)
    ensures
        run_inv(goal, RunState { stage: RunStage::Store, ok: true, outcome: Ok(()) }),
        run_inv(goal, s) ==> run_inv(goal, run_transition(ctx, goal, eco, s, e).0),
{
}

/// `ensure` reports success only after the project was recorded with its
/// dependencies assembled successfully: success comes only from the ready
/// stage, which is entered only from the record stage with `ok` set.
pub proof fn lemma_ensure_success(ctx: RunContext, eco: Eco, s: RunState, e: EventView)
    requires
        run_inv(None, s),
    ensures
        ({
            let (t, step) = run_transition(ctx, None, eco, s, e);
            &&& s.stage != RunStage::Finished && step is Finish && step->Finish_0 is Ok ==> s.stage
                == RunStage::Ready
            &&& s.stage != RunStage::Ready && t.stage == RunStage::Ready ==> s.stage == RunStage::Register
                && s.ok
        }),
{
}

/// `run` reports success only when the script it launched succeeded, and
/// launches the script only once the project is recorded.
pub proof fn lemma_run_success(ctx: RunContext, args: Seq<Seq<char>>, eco: Eco, s: RunState, e: EventView)
    requires
        run_inv(Some(args), s),
    ensures
        ({
            let (t, step) = run_transition(ctx, Some(args), eco, s, e);
            &&& s.stage != RunStage::Finished && step is Finish && step->Finish_0 is Ok ==> s.stage
                == RunStage::Script && e == EventView::Flag(true)
            &&& s.stage != RunStage::Script && t.stage == RunStage::Script ==> s.stage == RunStage::Register
        }),
{
}

} // verus!

verus! {

/// The stages a flow can be in while assembling: the Node stages only for a
/// Node project (the skip only when `node_modules` is fresh, the install
/// only when it is not), `uv sync` only for an `ensure` of a pyproject
/// project, and `uv venv` / `uv pip install` only for an `ensure` of a
/// requirements-only project.
pub open spec fn assembly_ok(ctx: RunContext, goal: Option<Seq<Seq<char>>>, eco: Eco, st: RunStage) -> bool {
    match st {
        RunStage::Skip => eco == Eco::Node && ctx.node_fresh,
        RunStage::Pnpm | RunStage::Install | RunStage::Stamp => eco == Eco::Node && !ctx.node_fresh,
        RunStage::Sync => eco == Eco::Python && goal is None && ctx.files.pyproject_toml,
        RunStage::Venv | RunStage::Pip => eco == Eco::Python && goal is None && !ctx.files.pyproject_toml
            && ctx.files.requirements_txt,
        _ => true,
    }
}

/// Assembling installs before it records the project. Whatever `.venv`
/// holds:
/// - a Node project is recorded only after the fresh-`node_modules` skip,
///   after the stamp of a successful `pnpm install --store-dir <store>`, or
///   after that install failed;
/// - `ensure` records a pyproject project only after `uv sync`, and a
///   requirements-only project only after `uv pip install -r
///   requirements.txt`, both with uv's cache set to the store;
/// - a Python `run` records the project at once (`uv run` syncs itself).
/// Each install step launches exactly its command, and every answer keeps
/// the flow among the stages its project allows.
pub proof fn lemma_assembly_installs(
    ctx: RunContext,
    goal: Option<Seq<Seq<char>>>,
    eco: Eco,
    s: RunState,
    e: EventView,
)
    requires
        eco == Eco::Python ==> ctx.files.pyproject_toml || ctx.files.requirements_txt,
        assembly_ok(ctx, goal, eco, s.stage),
    ensures
        ({
            let (t, step) = run_transition(ctx, goal, eco, s, e);
            &&& assembly_ok(ctx, goal, eco, t.stage)
            &&& s.stage != RunStage::Register && t.stage == RunStage::Register ==> match eco {
                Eco::Node => (s.stage == RunStage::Skip && ctx.node_fresh) || s.stage == RunStage::Stamp
                    || s.stage == RunStage::Install,
                Eco::Python => if goal is Some {
                    s.stage == RunStage::Store
                } else if ctx.files.pyproject_toml {
                    s.stage == RunStage::Sync
                } else {
                    s.stage == RunStage::Pip
                },
            }
            &&& s.stage != RunStage::Pip && t.stage == RunStage::Pip ==> step == StepView::Launch(
                uv_view(seq!["pip"@, "install"@, "-r"@, "requirements.txt"@], ctx.uv_cache@),
            )
            &&& s.stage != RunStage::Sync && t.stage == RunStage::Sync ==> step == StepView::Launch(
                uv_view(seq!["sync"@], ctx.uv_cache@),
            )
            &&& s.stage != RunStage::Install && t.stage == RunStage::Install ==> step == StepView::Launch(
                pnpm_view(seq!["install"@, "--store-dir"@, ctx.pnpm_store@]),
            )
            &&& s.stage != RunStage::Stamp && t.stage == RunStage::Stamp ==> step == StepView::WriteStamp(
                stamp_path_spec(ctx.dir@, ctx.style),
            )
        }),
{
}

} // verus!

verus! {

/// What `run` launches once the project is recorded: for Node `pnpm run`
/// followed by the script and its arguments (refusing to go on without a
/// script); for Python `uv run` followed by them, or `uv sync` when no
/// script is given, with uv's cache set to the store.
pub proof fn lemma_run_launches_script(
    ctx: RunContext,
    args: Seq<Seq<char>>,
    eco: Eco,
    s: RunState,
    e: EventView,
)
    requires
        s.stage == RunStage::Register,
        !(e is Failed),
    ensures
        ({
            let (t, step) = run_transition(ctx, Some(args), eco, s, e);
            match eco {
                Eco::Node => if args.len() == 0 {
                    step == StepView::Finish(Err(no_script_message()))
                } else {
                    t.stage == RunStage::Script && step == StepView::Launch(
                        ToolCallView { program: "pnpm"@, args: seq!["run"@] + args, env: Seq::empty() },
                    )
                },
                Eco::Python => t.stage == RunStage::Script && step == StepView::Launch(
                    ToolCallView {
                        program: "uv"@,
                        args: if args.len() == 0 { seq!["sync"@] } else { seq!["run"@] + args },
                        env: seq![("UV_CACHE_DIR"@, ctx.uv_cache@)],
                    },
                ),
            }
        }),
{
}

} // verus!
