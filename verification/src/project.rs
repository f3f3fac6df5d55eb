//! Detecting a project's package ecosystem from its manifest files.

use vstd::prelude::*;

use crate::hub::registry::{projects_view, ProjectView, Registry};
use crate::hub::store::HubConfig;
use crate::scan::{Category, ScanItem, ScanOptions};
use crate::text::{join_with, joined};

verus! {

/// The package ecosystem a project belongs to.
#[derive(Clone, Copy, Debug, PartialEq, Eq, Structural)]
pub enum Eco {
    Node,
    Python,
}

/// Which manifest files a project directory holds.
pub struct ProjectFiles {
    pub package_json: bool,
    pub pyproject_toml: bool,
    pub requirements_txt: bool,
}

/// The label of an ecosystem.
pub open spec fn eco_label(e: Eco) -> Seq<char> {
    match e {
        Eco::Node => "node"@,
        Eco::Python => "python"@,
    }
}

/// The ecosystem of a project: Node when it has `package.json`, else
/// Python when it has `pyproject.toml` or `requirements.txt`, else none.
pub open spec fn detect_spec(files: ProjectFiles) -> Option<Eco> {
    if files.package_json {
        Some(Eco::Node)
    } else if files.pyproject_toml || files.requirements_txt {
        Some(Eco::Python)
    } else {
        None
    }
}

impl Eco {
    /// The ecosystem's label, `node` or `python`.
    pub fn label(&self) -> (res: &'static str)
        ensures
            res@ == eco_label(*self),
    {
        match self {
            Eco::Node => "node",
            Eco::Python => "python",
        }
    }

    /// Detect the ecosystem of a directory from its manifest files.
    pub fn detect(files: &ProjectFiles) -> (res: Option<Eco>)
        ensures
            res == detect_spec(*files),
    {
        if files.package_json {
            Some(Eco::Node)
        } else if files.pyproject_toml || files.requirements_txt {
            Some(Eco::Python)
        } else {
            None
        }
    }
}

} // verus!

verus! {

/// An external tool to launch: the program, its arguments, and the
/// environment variables to set for it.
pub struct ToolCall {
    pub program: String,
    pub args: Vec<String>,
    pub env: Vec<(String, String)>,
}

/// A tool call as text.
pub struct ToolCallView {
    pub program: Seq<char>,
    pub args: Seq<Seq<char>>,
    pub env: Seq<(Seq<char>, Seq<char>)>,
}

impl View for ToolCall {
    type V = ToolCallView;

    open spec fn view(&self) -> ToolCallView {
        ToolCallView {
            program: self.program@,
            args: self.args@.map_values(|a: String| a@),
            env: self.env@.map_values(|p: (String, String)| (p.0@, p.1@)),
        }
    }
}

/// What the caller of a flow must do next. Each step is answered with an
/// [`Event`]; `Failed` answers any step that could not be done.
pub enum Step {
    /// Print this line; answer `Flag(true)`.
    Say(String),
    /// Find out whether this program can be run; answer `Flag(available)`.
    CheckTool(String),
    /// Run this tool with inherited output; answer `Flag(succeeded)`, or
    /// `Failed` with the message when it cannot be launched.
    Launch(ToolCall),
    /// Run this tool on a best-effort basis; answer `Flag(true)` whatever
    /// happens.
    TryLaunch(ToolCall),
    /// Make sure the store directories exist; answer `Flag(true)`, or
    /// `Failed` when they cannot be created.
    PrepareStore,
    /// Write the install stamp to this path, ignoring failure; answer
    /// `Flag(true)`.
    WriteStamp(String),
    /// Record the project in the registry; answer `Flag(true)`, or `Failed`
    /// when the registry cannot be saved.
    Register { path: String, ecosystem: String },
    /// Set this user environment variable for future shells; answer
    /// `Flag(true)`.
    SetEnv { key: String, value: String },
    /// Save these hub settings; answer `Flag(true)`, or `Failed` when they
    /// cannot be saved.
    SaveConfig(HubConfig),
    /// Measure the bytes under this directory; answer `Measured(bytes)`.
    MeasureDir(String),
    /// Measure the whole shared store; answer `Measured(bytes)`.
    MeasureStore,
    /// Load the project registry; answer `Listed(registry)`.
    LoadRegistry,
    /// Scan with these options; answer `Found(items)`.
    Scan(ScanOptions),
    /// The flow is over, with this outcome.
    Finish(Result<(), String>),
}

/// A step as text.
pub enum StepView {
    Say(Seq<char>),
    CheckTool(Seq<char>),
    Launch(ToolCallView),
    TryLaunch(ToolCallView),
    PrepareStore,
    WriteStamp(Seq<char>),
    Register { path: Seq<char>, ecosystem: Seq<char> },
    SetEnv { key: Seq<char>, value: Seq<char> },
    SaveConfig { initialized: bool, pnpm_store: Seq<char>, uv_cache: Seq<char> },
    MeasureDir(Seq<char>),
    MeasureStore,
    LoadRegistry,
    Scan { roots: Seq<Seq<char>>, categories: Option<Seq<Category>>, min_size: u64 },
    Finish(Result<(), Seq<char>>),
}

/// An outcome as text.
pub open spec fn outcome_view(r: Result<(), String>) -> Result<(), Seq<char>> {
    match r {
        Ok(()) => Ok(()),
        Err(e) => Err(e@),
    }
}

impl View for Step {
    type V = StepView;

    open spec fn view(&self) -> StepView {
        match self {
            Step::Say(s) => StepView::Say(s@),
            Step::CheckTool(s) => StepView::CheckTool(s@),
            Step::Launch(c) => StepView::Launch(c@),
            Step::TryLaunch(c) => StepView::TryLaunch(c@),
            Step::PrepareStore => StepView::PrepareStore,
            Step::WriteStamp(s) => StepView::WriteStamp(s@),
            Step::Register { path, ecosystem } => StepView::Register {
                path: path@,
                ecosystem: ecosystem@,
            },
            Step::SetEnv { key, value } => StepView::SetEnv { key: key@, value: value@ },
            Step::SaveConfig(c) => StepView::SaveConfig {
                initialized: c.initialized,
                pnpm_store: c.pnpm_store@,
                uv_cache: c.uv_cache@,
            },
            Step::MeasureDir(s) => StepView::MeasureDir(s@),
            Step::MeasureStore => StepView::MeasureStore,
            Step::LoadRegistry => StepView::LoadRegistry,
            Step::Scan(o) => StepView::Scan {
                roots: texts(o.roots@),
                categories: match o.categories {
                    Some(v) => Some(v@),
                    None => None,
                },
                min_size: o.min_size,
            },
            Step::Finish(r) => StepView::Finish(outcome_view(*r)),
        }
    }
}

/// The answer to a step.
pub enum Event {
    /// The step was done; the flag is the answer it asks for.
    Flag(bool),
    /// The measured size, in bytes.
    Measured(u64),
    /// The loaded project registry.
    Listed(Registry),
    /// The items a scan found.
    Found(Vec<ScanItem>),
    /// The step failed with this message.
    Failed(String),
}

/// An answer as text.
pub enum EventView {
    Flag(bool),
    Measured(u64),
    Listed(Seq<ProjectView>),
    Found(Seq<ScanItem>),
    Failed(Seq<char>),
}

impl View for Event {
    type V = EventView;

    open spec fn view(&self) -> EventView {
        match self {
            Event::Flag(b) => EventView::Flag(*b),
            Event::Measured(n) => EventView::Measured(*n),
            Event::Listed(r) => EventView::Listed(projects_view(r)),
            Event::Found(v) => EventView::Found(v@),
            Event::Failed(e) => EventView::Failed(e@),
        }
    }
}

/// The yes/no answer an event gives; anything but `Flag(true)` is a no.
pub open spec fn flag_of(e: EventView) -> bool {
    match e {
        EventView::Flag(b) => b,
        _ => false,
    }
}

/// The size an event reports; anything but `Measured` reports nothing.
pub open spec fn bytes_of(e: EventView) -> u64 {
    match e {
        EventView::Measured(n) => n,
        _ => 0,
    }
}

/// The yes/no answer of an event.
pub fn flag(e: &Event) -> (res: bool)
    ensures
        res == flag_of(e@),
{
    match e {
        Event::Flag(b) => *b,
        _ => false,
    }
}

/// The size reported by an event.
pub fn bytes(e: &Event) -> (res: u64)
    ensures
        res == bytes_of(e@),
{
    match e {
        Event::Measured(n) => *n,
        _ => 0,
    }
}

/// The message of a `Failed` event.
pub fn failure(e: &Event) -> (res: Option<String>)
    ensures
        match e@ {
            EventView::Failed(m) => res is Some && res->0@ == m,
            _ => res is None,
        },
{
    match e {
        Event::Failed(m) => Some(m.clone()),
        _ => None,
    }
}

/// A `Vec<String>` as text.
pub open spec fn texts(v: Seq<String>) -> Seq<Seq<char>> {
    v.map_values(|s: String| s@)
}

pub proof fn lemma_texts_push(v: Seq<String>, x: String)
    ensures
        texts(v.push(x)) == texts(v).push(x@),
{
    assert(texts(v.push(x)) =~= texts(v).push(x@));
}

/// Copies a list of strings.
pub fn copy_texts(v: &Vec<String>) -> (res: Vec<String>)
    ensures
        texts(res@) == texts(v@),
{
    let mut out: Vec<String> = Vec::new();
    let mut i: usize = 0;
    while i < v.len()
        invariant
            i <= v@.len(),
            texts(out@) == texts(v@.subrange(0, i as int)),
        decreases v@.len() - i,
    {
        let s = v[i].clone();
        proof {
            lemma_texts_push(out@, s);
            assert(v@.subrange(0, i + 1) =~= v@.subrange(0, i as int).push(v@[i as int]));
            lemma_texts_push(v@.subrange(0, i as int), v@[i as int]);
        }
        out.push(s);
        i = i + 1;
    }
    assert(v@.subrange(0, i as int) =~= v@);
    out
}

/// `head` followed by a copy of `tail`.
pub fn with_prefix(head: Vec<String>, tail: &Vec<String>) -> (res: Vec<String>)
    ensures
        texts(res@) == texts(head@) + texts(tail@),
{
    let mut out = head;
    let ghost start = texts(out@);
    let mut i: usize = 0;
    while i < tail.len()
        invariant
            i <= tail@.len(),
            texts(out@) == start + texts(tail@.subrange(0, i as int)),
        decreases tail@.len() - i,
    {
        let s = tail[i].clone();
        proof {
            lemma_texts_push(out@, s);
            assert(tail@.subrange(0, i + 1) =~= tail@.subrange(0, i as int).push(tail@[i as int]));
            lemma_texts_push(tail@.subrange(0, i as int), tail@[i as int]);
        }
        out.push(s);
        i = i + 1;
    }
    assert(tail@.subrange(0, i as int) =~= tail@);
    out
}

/// The environment for uv: its cache pointed at `cache`.
pub open spec fn uv_env(cache: Seq<char>) -> Seq<(Seq<char>, Seq<char>)> {
    seq![("UV_CACHE_DIR"@, cache)]
}

/// A uv invocation with the cache set.
pub fn uv_call(args: Vec<String>, cache: &str) -> (res: ToolCall)
    ensures
        res@.program == "uv"@,
        res@.args == texts(args@),
        res@.env == uv_env(cache@),
{
    let env = vec![(String::from_str("UV_CACHE_DIR"), String::from_str(cache))];
    let res = ToolCall { program: String::from_str("uv"), args, env };
    assert(res@.env =~= uv_env(cache@));
    res
}

/// A pnpm invocation.
pub fn pnpm_call(args: Vec<String>) -> (res: ToolCall)
    ensures
        res@.program == "pnpm"@,
        res@.args == texts(args@),
        res@.env == Seq::<(Seq<char>, Seq<char>)>::empty(),
{
    let res = ToolCall { program: String::from_str("pnpm"), args, env: Vec::new() };
    assert(res@.env =~= Seq::<(Seq<char>, Seq<char>)>::empty());
    res
}

/// The line announcing a launch: an arrow, the program, then its
/// arguments separated by spaces.
pub open spec fn launch_text(c: ToolCallView) -> Seq<char> {
    "\u{2192} "@ + c.program + " "@ + joined(c.args, " "@)
}

/// The line printed before a tool is launched.
pub fn launch_line(call: &ToolCall) -> (res: String)
    ensures
        res@ == launch_text(call@),
{
    let mut out = String::from_str("\u{2192} ");
    out.append(call.program.as_str());
    out.append(" ");
    let rest = join_with(&call.args, " ");
    out.append(rest.as_str());
    out
}

/// A one-word list.
pub fn words1(a: &str) -> (res: Vec<String>)
    ensures
        texts(res@) == seq![a@],
{
    let res = vec![String::from_str(a)];
    assert(texts(res@) =~= seq![a@]);
    res
}

/// A two-word list.
pub fn words2(a: &str, b: &str) -> (res: Vec<String>)
    ensures
        texts(res@) == seq![a@, b@],
{
    let res = vec![String::from_str(a), String::from_str(b)];
    assert(texts(res@) =~= seq![a@, b@]);
    res
}

/// A three-word list.
pub fn words3(a: &str, b: &str, c: &str) -> (res: Vec<String>)
    ensures
        texts(res@) == seq![a@, b@, c@],
{
    let res = vec![String::from_str(a), String::from_str(b), String::from_str(c)];
    assert(texts(res@) =~= seq![a@, b@, c@]);
    res
}

/// A four-word list.
pub fn words4(a: &str, b: &str, c: &str, d: &str) -> (res: Vec<String>)
    ensures
        texts(res@) == seq![a@, b@, c@, d@],
{
    let res = vec![String::from_str(a), String::from_str(b), String::from_str(c), String::from_str(d)];
    assert(texts(res@) =~= seq![a@, b@, c@, d@]);
    res
}

/// A five-word list.
pub fn words5(a: &str, b: &str, c: &str, d: &str, e: &str) -> (res: Vec<String>)
    ensures
        texts(res@) == seq![a@, b@, c@, d@, e@],
{
    let res = vec![
        String::from_str(a),
        String::from_str(b),
        String::from_str(c),
        String::from_str(d),
        String::from_str(e),
    ];
    assert(texts(res@) =~= seq![a@, b@, c@, d@, e@]);
    res
}

/// `v` with one more string at the end.
pub fn push_text(v: Vec<String>, s: &str) -> (res: Vec<String>)
    ensures
        texts(res@) == texts(v@).push(s@),
{
    let mut out = v;
    let x = String::from_str(s);
    proof {
        lemma_texts_push(out@, x);
    }
    out.push(x);
    out
}

/// A call of a tool that needs no environment.
pub fn plain_call(program: &str, args: Vec<String>) -> (res: ToolCall)
    ensures
        res@.program == program@,
        res@.args == texts(args@),
        res@.env == Seq::<(Seq<char>, Seq<char>)>::empty(),
{
    let res = ToolCall { program: String::from_str(program), args, env: Vec::new() };
    assert(res@.env =~= Seq::<(Seq<char>, Seq<char>)>::empty());
    res
}

} // verus!
