//! Plans: what an operation does, as ordered stages of steps. A plan is plain
//! data; it is carried out step by step by the controller.

use crate::command::{Command, Text};
use crate::component::{Code, Order};
use crate::config::{Config, Setting};
use crate::text::{same_text, split_whitespace, tokens};
use crate::topology::{Session, SlotRef, Split, Window};
use vstd::prelude::*;

verus! {

/// What a stage is for.
#[derive(Clone, Copy, Debug, PartialEq, Eq, Structural)]
pub enum Purpose {
    /// Destroy a session.
    Teardown(Session),
    /// Create a session with all its windows.
    Create(Session),
    /// Start the chain nodes.
    Chain,
    /// Start the middleware.
    Middleware,
    /// Launch a component in its slot.
    Launch(Code),
    /// Bring the primary session to the terminal.
    Attach,
    /// Flush the cache store.
    FlushCache,
    /// Delete the data directory at the given position in the list.
    DeleteData(usize),
    /// Build a component.
    Build(Code),
}

/// What the failure of a step means for the run.
#[derive(Clone, Copy, Debug, PartialEq, Eq, Structural)]
pub enum Policy {
    /// The failure ends the run.
    FailFast,
    /// The rest of the stage is abandoned and the run goes on: an absent
    /// target is reported as information, any other failure as a warning.
    BestEffort,
    /// As `BestEffort`, but nothing is reported.
    Ignore,
    /// Where the failure says that the target exists already, the rest of the
    /// stage is abandoned with a warning and the run goes on, which leaves
    /// what exists untouched. Any other failure ends the run.
    CreateOnce,
}

/// Why a step failed.
#[derive(Clone, Copy, Debug, PartialEq, Eq, Structural)]
pub enum Cause {
    /// The target of the command does not exist.
    Absent,
    /// The target of the command exists already.
    Exists,
    /// Anything else.
    Other,
}

impl Policy {
    /// Whether the run goes on after a step has failed for `cause`.
    pub open spec fn tolerates(self, cause: Cause) -> bool {
        match self {
            Policy::FailFast => false,
            Policy::BestEffort => true,
            Policy::Ignore => true,
            Policy::CreateOnce => cause == Cause::Exists,
        }
    }
}

/// One of the two fixed pauses.
#[derive(Clone, Copy, Debug, PartialEq, Eq, Structural)]
pub enum Delay {
    /// Between two miner-name generations.
    Naming,
    /// Before the terminal attaches.
    Attach,
}

/// One step of a stage.
#[derive(Clone, Copy, Debug, PartialEq, Eq, Structural)]
pub enum Step {
    /// Run an external command.
    Run(Command),
    /// Wait.
    Pause(Delay),
    /// Provision an account for the miner with the given index and launch the
    /// miner in its slot.
    Miner(u8),
}

/// A group of steps with one purpose and one failure policy.
#[derive(Clone, Debug, PartialEq, Eq)]
pub struct Stage {
    pub purpose: Purpose,
    pub policy: Policy,
    /// The settings that must be set before the stage starts.
    pub needs: Vec<Setting>,
    pub steps: Vec<Step>,
}

/// The mathematical content of a [`Stage`].
pub ghost struct StageView {
    pub purpose: Purpose,
    pub policy: Policy,
    pub needs: Seq<Setting>,
    pub steps: Seq<Step>,
}

impl View for Stage {
    type V = StageView;

    open spec fn view(&self) -> StageView {
        StageView {
            purpose: self.purpose,
            policy: self.policy,
            needs: self.needs@,
            steps: self.steps@,
        }
    }
}

impl DeepView for Stage {
    type V = StageView;

    open spec fn deep_view(&self) -> StageView {
        self@
    }
}

/// A plan is well formed when each of its stages has a step to take.
pub open spec fn well_formed(plan: Seq<StageView>) -> bool {
    forall|i: int| 0 <= i < plan.len() ==> (#[trigger] plan[i]).steps.len() > 0
}

/// Joins two plans, the first before the second.
pub fn join(first: Vec<Stage>, second: Vec<Stage>) -> (r: Vec<Stage>)
    ensures
        r.deep_view() == first.deep_view() + second.deep_view(),
{
    let mut r = first;
    let mut tail = second;
    r.append(&mut tail);
    assert(r.deep_view() =~= first.deep_view() + second.deep_view());
    r
}

/// Adds a stage at the end of a plan.
pub fn push_stage(plan: &mut Vec<Stage>, stage: Stage)
    ensures
        final(plan).deep_view() == old(plan).deep_view().push(stage@),
{
    plan.push(stage);
    assert(plan.deep_view() =~= old(plan).deep_view().push(stage@));
}

/// The commands that apply `splits` in order to a window that has one pane.
/// Pane indices follow declaration order: the `k`-th split makes pane
/// `k + 1`, which becomes the active pane. A split of any other pane than the
/// active one is therefore preceded by the selection of its parent.
pub open spec fn split_steps(splits: Seq<Split>) -> Seq<Step>
    decreases splits.len(),
{
    if splits.len() == 0 {
        Seq::empty()
    } else {
        let last = splits.last();
        let split = Step::Run(Command::SplitPane { axis: last.axis, percent: last.percent });
        let before = split_steps(splits.drop_last());
        if last.parent == splits.len() - 1 {
            before.push(split)
        } else {
            before.push(Step::Run(Command::SelectPane(last.parent))).push(split)
        }
    }
}

/// The step that brings the window at `index` into being under its name: the
/// first window comes with the session and is renamed, every other one is
/// created.
pub open spec fn open_step(session: Session, index: u8, window: Window) -> Step {
    if index == 0 {
        Step::Run(Command::RenameWindow { session, index, window })
    } else {
        Step::Run(Command::NewWindow { session, index, window })
    }
}

/// The steps that build one window: it is brought into being, then split as
/// declared.
pub open spec fn window_steps(
    session: Session,
    index: u8,
    window: Window,
    splits: Seq<Split>,
) -> Seq<Step> {
    seq![open_step(session, index, window)] + split_steps(splits)
}

/// Builds the steps of one window from its split instructions.
pub fn window_commands(
    session: Session,
    index: u8,
    window: Window,
    splits: &Vec<Split>,
) -> (r: Vec<Step>)
    ensures
        r@ == window_steps(session, index, window, splits@),
{
    let mut r: Vec<Step> = Vec::new();
    if index == 0 {
        r.push(Step::Run(Command::RenameWindow { session, index, window }));
    } else {
        r.push(Step::Run(Command::NewWindow { session, index, window }));
    }
    let mut k: usize = 0;
    assert(splits@.take(0) =~= Seq::<Split>::empty());
    assert(r@ =~= seq![open_step(session, index, window)] + split_steps(splits@.take(0)));
    while k < splits.len()
        invariant
            k <= splits.len(),
            r@ == seq![open_step(session, index, window)] + split_steps(splits@.take(k as int)),
        decreases splits.len() - k,
    {
        let split = splits[k];
        if split.parent as usize != k {
            r.push(Step::Run(Command::SelectPane(split.parent)));
        }
        r.push(Step::Run(Command::SplitPane { axis: split.axis, percent: split.percent }));
        proof {
            let now = splits@.take(k + 1);
            assert(now.drop_last() =~= splits@.take(k as int));
            assert(now.last() == split);
            assert(r@ =~= seq![open_step(session, index, window)] + split_steps(now));
        }
        k = k + 1;
    }
    assert(splits@.take(splits.len() as int) =~= splits@);
    r
}

/// The steps that build the windows `windows` of a session, the window at
/// index 0 first.
pub open spec fn windows_steps(session: Session, windows: Seq<Window>) -> Seq<Step>
    decreases windows.len(),
{
    if windows.len() == 0 {
        Seq::empty()
    } else {
        windows_steps(session, windows.drop_last()) + window_steps(
            session,
            (windows.len() - 1) as u8,
            windows.last(),
            windows.last().layout(),
        )
    }
}

/// The slot of the chain window with the given pane.
pub open spec fn node_slot(pane: u8) -> SlotRef {
    SlotRef { session: Session::Secondary, window: Window::Node, pane }
}

/// The slot of the chain window with the given pane.
fn node_pane(pane: u8) -> (slot: SlotRef)
    ensures
        slot == node_slot(pane),
{
    SlotRef { session: Session::Secondary, window: Window::Node, pane }
}

/// The number of panes of the chain window.
pub const NODE_PANES: u8 = 4;

/// The number of miners that are provisioned and launched.
pub const MINERS: u8 = 3;

/// The steps that type the opening lines into the first `panes` panes of the
/// chain window: change into the chain source directory, clear the screen.
pub open spec fn prompt_steps(panes: nat) -> Seq<Step>
    decreases panes,
{
    if panes == 0 {
        Seq::empty()
    } else {
        let slot = node_slot((panes - 1) as u8);
        prompt_steps((panes - 1) as nat).push(
            Step::Run(Command::Send { slot, text: Text::EnterDir(Setting::IronDir) }),
        ).push(Step::Run(Command::Send { slot, text: Text::Clear }))
    }
}

/// The steps that create a session with all its windows. The secondary
/// session's panes are then given their opening lines.
pub open spec fn creation_steps(session: Session) -> Seq<Step> {
    let build = seq![Step::Run(Command::NewSession(session))] + windows_steps(
        session,
        session.windows(),
    );
    match session {
        Session::Primary => build,
        Session::Secondary => build + prompt_steps(Window::Node.pane_count()),
    }
}

/// The stage that creates a session. The primary session is created anew
/// and any failure ends the run; the secondary one is created once, and
/// where it exists already it is left as it is.
pub open spec fn creation_stage(session: Session) -> StageView {
    match session {
        Session::Primary => StageView {
            purpose: Purpose::Create(session),
            policy: Policy::FailFast,
            needs: Seq::empty(),
            steps: creation_steps(session),
        },
        Session::Secondary => StageView {
            purpose: Purpose::Create(session),
            policy: Policy::CreateOnce,
            needs: seq![Setting::IronDir],
            steps: creation_steps(session),
        },
    }
}

/// The stage that destroys a session; its absence is no error.
pub open spec fn teardown_stage(session: Session) -> StageView {
    StageView {
        purpose: Purpose::Teardown(session),
        policy: Policy::BestEffort,
        needs: Seq::empty(),
        steps: seq![Step::Run(Command::KillSession(session))],
    }
}

/// What setup does: the primary session is destroyed if it exists and built
/// anew; the secondary session is built only where it does not exist yet.
pub open spec fn setup_plan() -> Seq<StageView> {
    seq![
        teardown_stage(Session::Primary),
        creation_stage(Session::Primary),
        creation_stage(Session::Secondary),
    ]
}

/// Builds the stage that destroys `session`.
pub fn destroy(session: Session) -> (r: Stage)
    ensures
        r@ == teardown_stage(session),
{
    let steps = vec![Step::Run(Command::KillSession(session))];
    assert(steps@ =~= teardown_stage(session).steps);
    Stage {
        purpose: Purpose::Teardown(session),
        policy: Policy::BestEffort,
        needs: Vec::new(),
        steps,
    }
}

/// Builds the stage that creates `session` with its declared layout.
pub fn create(session: Session) -> (r: Stage)
    ensures
        r@ == creation_stage(session),
{
    let mut steps: Vec<Step> = Vec::new();
    steps.push(Step::Run(Command::NewSession(session)));
    let windows = session.window_list();
    let mut i: usize = 0;
    assert(windows@.take(0) =~= Seq::<Window>::empty());
    assert(steps@ =~= seq![Step::Run(Command::NewSession(session))] + windows_steps(
        session,
        windows@.take(0),
    ));
    while i < windows.len()
        invariant
            i <= windows.len(),
            windows@ == session.windows(),
            steps@ == seq![Step::Run(Command::NewSession(session))] + windows_steps(
                session,
                windows@.take(i as int),
            ),
        decreases windows.len() - i,
    {
        let window = windows[i];
        let splits = window.splits();
        let mut more = window_commands(session, i as u8, window, &splits);
        proof {
            let now = windows@.take(i + 1);
            assert(now.drop_last() =~= windows@.take(i as int));
            assert(now.last() == window);
        }
        steps.append(&mut more);
        proof {
            assert(steps@ =~= seq![Step::Run(Command::NewSession(session))] + windows_steps(
                session,
                windows@.take(i + 1),
            ));
        }
        i = i + 1;
    }
    assert(windows@.take(windows.len() as int) =~= windows@);
    match session {
        Session::Primary => Stage {
            purpose: Purpose::Create(session),
            policy: Policy::FailFast,
            needs: Vec::new(),
            steps,
        },
        Session::Secondary => {
            let ghost build = steps@;
            let panes: u8 = NODE_PANES;
            let mut p: u8 = 0;
            assert(steps@ =~= build + prompt_steps(0));
            while p < panes
                invariant
                    p <= panes,
                    panes == Window::Node.pane_count(),
                    steps@ == build + prompt_steps(p as nat),
                decreases panes - p,
            {
                let slot = node_pane(p);
                let enter = Text::EnterDir(Setting::IronDir);
                steps.push(Step::Run(Command::Send { slot, text: enter }));
                steps.push(Step::Run(Command::Send { slot, text: Text::Clear }));
                p = p + 1;
                assert(steps@ =~= build + prompt_steps(p as nat));
            }
            let needs = vec![Setting::IronDir];
            assert(needs@ =~= seq![Setting::IronDir]);
            Stage { purpose: Purpose::Create(session), policy: Policy::CreateOnce, needs, steps }
        },
    }
}

/// Plans the setup of the topology.
pub fn setup_tmux() -> (r: Vec<Stage>)
    ensures
        r.deep_view() == setup_plan(),
{
    let mut r: Vec<Stage> = Vec::new();
    r.push(destroy(Session::Primary));
    r.push(create(Session::Primary));
    r.push(create(Session::Secondary));
    assert(r.deep_view() =~= setup_plan());
    r
}

/// What starting the chain does: each node's startup line is typed into its
/// pane, the first node into pane 1.
pub open spec fn chain_stage() -> StageView {
    StageView {
        purpose: Purpose::Chain,
        policy: Policy::FailFast,
        needs: seq![Setting::Node1, Setting::Node2, Setting::Node3],
        steps: seq![
            Step::Run(Command::Send { slot: node_slot(1), text: Text::Verbatim(Setting::Node1) }),
            Step::Run(Command::Send { slot: node_slot(2), text: Text::Verbatim(Setting::Node2) }),
            Step::Run(Command::Send { slot: node_slot(3), text: Text::Verbatim(Setting::Node3) }),
        ],
    }
}

/// Plans the start of the chain nodes.
pub fn run_chain() -> (r: Vec<Stage>)
    ensures
        r.deep_view() == seq![chain_stage()],
{
    let needs = vec![Setting::Node1, Setting::Node2, Setting::Node3];
    let steps = vec![
        Step::Run(Command::Send { slot: node_pane(1), text: Text::Verbatim(Setting::Node1) }),
        Step::Run(Command::Send { slot: node_pane(2), text: Text::Verbatim(Setting::Node2) }),
        Step::Run(Command::Send { slot: node_pane(3), text: Text::Verbatim(Setting::Node3) }),
    ];
    assert(needs@ =~= chain_stage().needs);
    assert(steps@ =~= chain_stage().steps);
    let r = vec![Stage { purpose: Purpose::Chain, policy: Policy::FailFast, needs, steps }];
    assert(r.deep_view() =~= seq![chain_stage()]);
    r
}

/// The slot the middleware runs in.
pub open spec fn middleware_slot() -> SlotRef {
    SlotRef { session: Session::Primary, window: Window::Service, pane: 1 }
}

/// What starting the middleware does: one line into the middleware slot.
pub open spec fn service_stage() -> StageView {
    StageView {
        purpose: Purpose::Middleware,
        policy: Policy::FailFast,
        needs: Seq::empty(),
        steps: seq![Step::Run(Command::Send { slot: middleware_slot(), text: Text::Middleware })],
    }
}

/// Plans the start of the middleware.
pub fn run_service() -> (r: Vec<Stage>)
    ensures
        r.deep_view() == seq![service_stage()],
{
    let slot = SlotRef { session: Session::Primary, window: Window::Service, pane: 1 };
    let steps = vec![Step::Run(Command::Send { slot, text: Text::Middleware })];
    assert(steps@ =~= service_stage().steps);
    let r = vec![
        Stage { purpose: Purpose::Middleware, policy: Policy::FailFast, needs: Vec::new(), steps },
    ];
    assert(r.deep_view() =~= seq![service_stage()]);
    r
}

/// The steps that provision and launch the miners `0..count`, in order.
pub open spec fn miner_steps(count: nat) -> Seq<Step>
    decreases count,
{
    if count == 0 {
        Seq::empty()
    } else {
        miner_steps((count - 1) as nat).push(Step::Miner((count - 1) as u8))
    }
}

/// What launching one component does. A service has its source directory
/// entered, a build started and its binary run, all in its one slot. The
/// miners are provisioned and launched one after the other.
pub open spec fn launch_stage(code: Code) -> StageView
    recommends
        code != Code::Me,
        code != Code::All,
{
    match code {
        Code::Miner => StageView {
            purpose: Purpose::Launch(code),
            policy: Policy::FailFast,
            needs: seq![Setting::MinerCmd, Setting::IronDir],
            steps: miner_steps(MINERS as nat),
        },
        _ => {
            let slot = code.slots()[0];
            let dir = code.backing()->0;
            StageView {
                purpose: Purpose::Launch(code),
                policy: Policy::FailFast,
                needs: seq![dir],
                steps: seq![
                    Step::Run(Command::Send { slot, text: Text::EnterDir(dir) }),
                    Step::Run(Command::Send { slot, text: Text::Build }),
                    Step::Run(Command::Send { slot, text: Text::Binary(code) }),
                ],
            }
        },
    }
}

/// What launching `code` does: one stage for each component that it stands
/// for, in dispatch order.
pub open spec fn launch_plan(code: Code) -> Seq<StageView>
    recommends
        launchable(code),
{
    code.expansion(Order::Dispatch).map_values(|c: Code| launch_stage(c))
}

/// Whether the component can be launched in the topology. This tool itself
/// cannot.
pub open spec fn launchable(code: Code) -> bool {
    code != Code::Me
}

/// Builds the launch stage of one component.
fn launch_one(code: Code) -> (r: Stage)
    requires
        code != Code::Me,
        code != Code::All,
    ensures
        r@ == launch_stage(code),
{
    match code {
        Code::Miner => {
            let needs = vec![Setting::MinerCmd, Setting::IronDir];
            let mut steps: Vec<Step> = Vec::new();
            let mut i: u8 = 0;
            assert(steps@ =~= miner_steps(0));
            while i < MINERS
                invariant
                    i <= MINERS,
                    steps@ == miner_steps(i as nat),
                decreases MINERS - i,
            {
                steps.push(Step::Miner(i));
                i = i + 1;
            }
            assert(needs@ =~= launch_stage(code).needs);
            Stage { purpose: Purpose::Launch(code), policy: Policy::FailFast, needs, steps }
        },
        _ => {
            let slots = code.target_slots();
            let slot = slots[0];
            let dir = code.source_setting().unwrap();
            let needs = vec![dir];
            let steps = vec![
                Step::Run(Command::Send { slot, text: Text::EnterDir(dir) }),
                Step::Run(Command::Send { slot, text: Text::Build }),
                Step::Run(Command::Send { slot, text: Text::Binary(code) }),
            ];
            assert(needs@ =~= launch_stage(code).needs);
            assert(steps@ =~= launch_stage(code).steps);
            Stage { purpose: Purpose::Launch(code), policy: Policy::FailFast, needs, steps }
        },
    }
}

/// Plans the launch of a component in its slot, or of all four deployable
/// components in dispatch order.
pub fn run_in_tmux(code: Code) -> (r: Vec<Stage>)
    requires
        launchable(code),
    ensures
        r.deep_view() == launch_plan(code),
{
    let codes = code.expand(Order::Dispatch);
    let mut r: Vec<Stage> = Vec::new();
    let mut i: usize = 0;
    while i < codes.len()
        invariant
            i <= codes.len(),
            codes@ == code.expansion(Order::Dispatch),
            launchable(code),
            r.deep_view() == codes@.take(i as int).map_values(|c: Code| launch_stage(c)),
        decreases codes.len() - i,
    {
        push_stage(&mut r, launch_one(codes[i]));
        assert(codes@.take(i + 1).map_values(|c: Code| launch_stage(c)) =~= codes@.take(
            i as int,
        ).map_values(|c: Code| launch_stage(c)).push(launch_stage(codes@[i as int])));
        i = i + 1;
    }
    assert(codes@.take(codes.len() as int) =~= codes@);
    r
}

/// The steps of the build pipeline for a deployable component, in order:
/// the source is pulled, a release artifact compiled under the component's
/// artifact name, the artifact that was installed before removed, and the
/// new one copied to the runtime location.
pub open spec fn pipeline_steps(code: Code) -> Seq<Step> {
    seq![
        Step::Run(Command::Pull(code)),
        Step::Run(Command::Compile(code)),
        Step::Run(Command::RemoveInstalled(code)),
        Step::Run(Command::Install(code)),
    ]
}

/// What building one component does. A deployable component goes through
/// the build pipeline, which needs its source directory and nothing else.
/// This tool itself is pulled and compiled, then moved into the executable
/// search path, and its configuration file replaces the per-user one.
/// Either way the first step that fails ends the build.
pub open spec fn build_stage(code: Code) -> StageView
    recommends
        code != Code::All,
{
    match code {
        Code::Me => StageView {
            purpose: Purpose::Build(code),
            policy: Policy::FailFast,
            needs: seq![Setting::SelfDir, Setting::Home],
            steps: seq![
                Step::Run(Command::Pull(code)),
                Step::Run(Command::Compile(code)),
                Step::Run(Command::InstallSelf),
                Step::Run(Command::RemoveSettings),
                Step::Run(Command::CopySettings),
            ],
        },
        _ => {
            StageView {
                purpose: Purpose::Build(code),
                policy: Policy::FailFast,
                needs: match code.backing() {
                    Some(dir) => seq![dir],
                    None => Seq::empty(),
                },
                steps: pipeline_steps(code),
            }
        },
    }
}

/// What updating `code` does: one build stage for each component that it
/// stands for, in build order.
pub open spec fn update_plan(code: Code) -> Seq<StageView> {
    code.expansion(Order::Build).map_values(|c: Code| build_stage(c))
}

/// Builds the build stage of one component.
fn build_one(code: Code) -> (r: Stage)
    ensures
        r@ == build_stage(code),
{
    match code {
        Code::Me => {
            let needs = vec![Setting::SelfDir, Setting::Home];
            let steps = vec![
                Step::Run(Command::Pull(code)),
                Step::Run(Command::Compile(code)),
                Step::Run(Command::InstallSelf),
                Step::Run(Command::RemoveSettings),
                Step::Run(Command::CopySettings),
            ];
            assert(needs@ =~= build_stage(code).needs);
            assert(steps@ =~= build_stage(code).steps);
            Stage { purpose: Purpose::Build(code), policy: Policy::FailFast, needs, steps }
        },
        _ => {
            let mut needs: Vec<Setting> = Vec::new();
            match code.source_setting() {
                Some(dir) => {
                    needs.push(dir);
                },
                None => {},
            }
            let steps = vec![
                Step::Run(Command::Pull(code)),
                Step::Run(Command::Compile(code)),
                Step::Run(Command::RemoveInstalled(code)),
                Step::Run(Command::Install(code)),
            ];
            assert(needs@ =~= build_stage(code).needs);
            assert(steps@ =~= build_stage(code).steps);
            Stage { purpose: Purpose::Build(code), policy: Policy::FailFast, needs, steps }
        },
    }
}

/// Plans the build of a component, or of all four deployable components in
/// build order.
pub fn update(code: &Code) -> (r: Vec<Stage>)
    ensures
        r.deep_view() == update_plan(*code),
{
    let codes = code.expand(Order::Build);
    let mut r: Vec<Stage> = Vec::new();
    let mut i: usize = 0;
    while i < codes.len()
        invariant
            i <= codes.len(),
            codes@ == code.expansion(Order::Build),
            r.deep_view() == codes@.take(i as int).map_values(|c: Code| build_stage(c)),
        decreases codes.len() - i,
    {
        push_stage(&mut r, build_one(codes[i]));
        assert(codes@.take(i + 1).map_values(|c: Code| build_stage(c)) =~= codes@.take(
            i as int,
        ).map_values(|c: Code| build_stage(c)).push(build_stage(codes@[i as int])));
        i = i + 1;
    }
    assert(codes@.take(codes.len() as int) =~= codes@);
    r
}

/// What updating each of `codes` in turn does. Every stage is fail-fast: a
/// component whose build fails ends the update, and the components after
/// it are not built.
pub open spec fn updates_plan(codes: Seq<Code>) -> Seq<StageView>
    decreases codes.len(),
{
    if codes.len() == 0 {
        Seq::empty()
    } else {
        updates_plan(codes.drop_last()) + update_plan(codes.last())
    }
}

/// Plans the update of each requested component, in the order requested.
/// The first build that fails ends the update.
pub fn update_each(codes: &Vec<Code>) -> (r: Vec<Stage>)
    ensures
        r.deep_view() == updates_plan(codes@),
{
    let mut r: Vec<Stage> = Vec::new();
    let mut i: usize = 0;
    assert(codes@.take(0) =~= Seq::<Code>::empty());
    while i < codes.len()
        invariant
            i <= codes.len(),
            r.deep_view() == updates_plan(codes@.take(i as int)),
        decreases codes.len() - i,
    {
        let more = update(&codes[i]);
        proof {
            let now = codes@.take(i + 1);
            assert(now.drop_last() =~= codes@.take(i as int));
            assert(now.last() == codes@[i as int]);
        }
        r = join(r, more);
        i = i + 1;
    }
    assert(codes@.take(codes.len() as int) =~= codes@);
    r
}

/// The stage that deletes the data directory at position `index` of the
/// configured list. Its failure stops nothing: a directory that is reported
/// absent is information, any other failure a warning.
pub open spec fn deletion_stage(index: nat) -> StageView {
    StageView {
        purpose: Purpose::DeleteData(index as usize),
        policy: Policy::BestEffort,
        needs: seq![Setting::NodeData],
        steps: seq![Step::Run(Command::DeleteData(index as usize))],
    }
}

/// One deletion stage for each of the first `count` data directories.
pub open spec fn deletion_stages(count: nat) -> Seq<StageView> {
    Seq::new(count, |i: int| deletion_stage(i as nat))
}

/// The number of deletion stages that are planned under `config`: one for
/// each directory of the list. Where the list is unset one stage is planned
/// all the same, which then ends the run for want of the setting.
pub open spec fn deletions(config: Config) -> nat {
    match config.value(Setting::NodeData) {
        Some(list) => tokens(list).len(),
        None => 1,
    }
}

/// The stage that flushes the cache store; its failure is passed over.
pub open spec fn flush_stage() -> StageView {
    StageView {
        purpose: Purpose::FlushCache,
        policy: Policy::Ignore,
        needs: Seq::empty(),
        steps: seq![Step::Run(Command::FlushCache)],
    }
}

/// What teardown does. The primary session is always destroyed. With
/// `network` the cache is flushed, the secondary session destroyed and each
/// configured data directory deleted, each on its own.
pub open spec fn kill_plan(network: bool, config: Config) -> Seq<StageView> {
    if network {
        seq![teardown_stage(Session::Primary), flush_stage(), teardown_stage(Session::Secondary)]
            + deletion_stages(deletions(config))
    } else {
        seq![teardown_stage(Session::Primary)]
    }
}

/// Plans the teardown.
pub fn kill(network: bool, config: &Config) -> (r: Vec<Stage>)
    ensures
        r.deep_view() == kill_plan(network, *config),
{
    let mut r: Vec<Stage> = Vec::new();
    r.push(destroy(Session::Primary));
    if !network {
        assert(r.deep_view() =~= kill_plan(network, *config));
        return r;
    }
    let flush = vec![Step::Run(Command::FlushCache)];
    assert(flush@ =~= flush_stage().steps);
    r.push(
        Stage {
            purpose: Purpose::FlushCache,
            policy: Policy::Ignore,
            needs: Vec::new(),
            steps: flush,
        },
    );
    r.push(destroy(Session::Secondary));
    let count: usize = match config.get(Setting::NodeData) {
        Some(list) => split_whitespace(list.as_str()).len(),
        None => 1,
    };
    let ghost head = r.deep_view();
    assert(head =~= seq![
        teardown_stage(Session::Primary),
        flush_stage(),
        teardown_stage(Session::Secondary),
    ]);
    let mut i: usize = 0;
    assert(r.deep_view() =~= head + deletion_stages(0));
    while i < count
        invariant
            i <= count,
            r.deep_view() == head + deletion_stages(i as nat),
        decreases count - i,
    {
        let needs = vec![Setting::NodeData];
        let steps = vec![Step::Run(Command::DeleteData(i))];
        assert(needs@ =~= deletion_stage(i as nat).needs);
        assert(steps@ =~= deletion_stage(i as nat).steps);
        push_stage(
            &mut r,
            Stage { purpose: Purpose::DeleteData(i), policy: Policy::BestEffort, needs, steps },
        );
        assert(head + deletion_stages((i + 1) as nat) =~= (head + deletion_stages(i as nat)).push(
            deletion_stage(i as nat),
        ));
        i = i + 1;
    }
    r
}

/// The stage that brings the primary session to the terminal: after the
/// pause the pool window is put in front and the terminal attached.
pub open spec fn attach_stage() -> StageView {
    StageView {
        purpose: Purpose::Attach,
        policy: Policy::FailFast,
        needs: Seq::empty(),
        steps: seq![
            Step::Pause(Delay::Attach),
            Step::Run(Command::SelectWindow { session: Session::Primary, window: Window::Pool }),
            Step::Run(Command::Attach(Session::Primary)),
        ],
    }
}

/// What a restart does, in this order: setup, the chain nodes, the
/// middleware, all components, and with `attach` the attachment.
pub open spec fn restart_plan(attach: bool) -> Seq<StageView> {
    let launch = setup_plan() + seq![chain_stage()] + seq![service_stage()] + launch_plan(
        Code::All,
    );
    if attach {
        launch + seq![attach_stage()]
    } else {
        launch
    }
}

/// Plans the full bring-up.
pub fn restart(attach: bool) -> (r: Vec<Stage>)
    ensures
        r.deep_view() == restart_plan(attach),
{
    let r = join(setup_tmux(), run_chain());
    let r = join(r, run_service());
    let mut r = join(r, run_in_tmux(Code::All));
    if attach {
        let steps = vec![
            Step::Pause(Delay::Attach),
            Step::Run(Command::SelectWindow { session: Session::Primary, window: Window::Pool }),
            Step::Run(Command::Attach(Session::Primary)),
        ];
        assert(steps@ =~= attach_stage().steps);
        r.push(
            Stage { purpose: Purpose::Attach, policy: Policy::FailFast, needs: Vec::new(), steps },
        );
        assert(r.deep_view() =~= restart_plan(attach));
    }
    r
}

/// An operation of the deployment.
#[derive(Clone, Debug, PartialEq, Eq)]
pub enum Operation {
    /// Full bring-up, ending attached to the primary session.
    Restart,
    /// The topology only.
    SetTopology,
    /// Teardown; with `network`, of the chain network and its data too.
    Kill { network: bool },
    /// Build the listed components.
    Update(Vec<Code>),
}

/// Whether a teardown scope token asks for the network to be torn down too:
/// only the token `all` does.
pub open spec fn wants_network(scope: Option<Seq<char>>) -> bool {
    scope == Some("all"@)
}

/// Reads the scope of a teardown from its optional command-line token.
pub fn kill_scope(token: Option<&str>) -> (network: bool)
    ensures
        network == wants_network(
            match token {
                Some(t) => Some(t@),
                None => None,
            },
        ),
{
    match token {
        Some(t) => same_text(t, "all"),
        None => false,
    }
}

/// What `operation` does under `config`.
pub open spec fn operation_plan(operation: Operation, config: Config) -> Seq<StageView> {
    match operation {
        Operation::Restart => restart_plan(true),
        Operation::SetTopology => setup_plan(),
        Operation::Kill { network } => kill_plan(network, config),
        Operation::Update(codes) => updates_plan(codes@),
    }
}

/// Plans an operation.
pub fn plan_for(operation: &Operation, config: &Config) -> (r: Vec<Stage>)
    ensures
        r.deep_view() == operation_plan(*operation, *config),
{
    match operation {
        Operation::Restart => restart(true),
        Operation::SetTopology => setup_tmux(),
        Operation::Kill { network } => kill(*network, config),
        Operation::Update(codes) => update_each(codes),
    }
}

/// Whether `step` is one of the steps by which `session` is built: it runs a
/// command that creates the session, brings one of its windows into being,
/// or splits or selects a pane; in the secondary session it may also type an
/// opening line into one of the session's slots.
pub open spec fn builds(step: Step, session: Session) -> bool {
    match step {
        Step::Run(Command::NewSession(s)) => s == session,
        Step::Run(Command::RenameWindow { session: s, .. }) => s == session,
        Step::Run(Command::NewWindow { session: s, .. }) => s == session,
        Step::Run(Command::SplitPane { .. }) => true,
        Step::Run(Command::SelectPane(_)) => true,
        Step::Run(Command::Send { slot, text }) => session == Session::Secondary && slot.session
            == session && (text == Text::EnterDir(Setting::IronDir) || text == Text::Clear),
        _ => false,
    }
}

/// Whether every step of `steps` builds `session`.
pub open spec fn all_build(steps: Seq<Step>, session: Session) -> bool {
    forall|j: int| 0 <= j < steps.len() ==> builds(#[trigger] steps[j], session)
}

/// Splitting a window builds its session.
pub proof fn lemma_split_steps_build(splits: Seq<Split>, session: Session)
    ensures
        all_build(split_steps(splits), session),
    decreases splits.len(),
{
    if splits.len() != 0 {
        lemma_split_steps_build(splits.drop_last(), session);
    }
}

/// Building the windows of a session builds the session.
pub proof fn lemma_windows_steps_build(session: Session, windows: Seq<Window>)
    ensures
        all_build(windows_steps(session, windows), session),
    decreases windows.len(),
{
    if windows.len() != 0 {
        lemma_windows_steps_build(session, windows.drop_last());
        lemma_split_steps_build(windows.last().layout(), session);
    }
}

/// Typing the opening lines of the chain window builds the secondary
/// session.
pub proof fn lemma_prompt_steps_build(panes: nat)
    ensures
        all_build(prompt_steps(panes), Session::Secondary),
    decreases panes,
{
    if panes != 0 {
        lemma_prompt_steps_build((panes - 1) as nat);
    }
}

/// Every step of a session's creation builds that session, and there is at
/// least one.
pub proof fn lemma_creation_steps(session: Session)
    ensures
        all_build(creation_steps(session), session),
        creation_steps(session).len() > 0,
{
    lemma_windows_steps_build(session, session.windows());
    lemma_prompt_steps_build(Window::Node.pane_count());
}

/// Every plan of an operation is well formed.
pub proof fn lemma_operation_plans_well_formed(operation: Operation, config: Config)
    ensures
        well_formed(operation_plan(operation, config)),
{
    lemma_setup_well_formed();
    lemma_restart_well_formed(true);
    match operation {
        Operation::Update(codes) => {
            lemma_updates_well_formed(codes@);
        },
        _ => {},
    }
}

/// The setup plan is well formed.
pub proof fn lemma_setup_well_formed()
    ensures
        well_formed(setup_plan()),
{
    lemma_creation_steps(Session::Primary);
    lemma_creation_steps(Session::Secondary);
}

/// The restart plan is well formed.
pub proof fn lemma_restart_well_formed(attach: bool)
    ensures
        well_formed(restart_plan(attach)),
{
    lemma_setup_well_formed();
    lemma_launch_well_formed(Code::All);
    let head = setup_plan() + seq![chain_stage()] + seq![service_stage()];
    assert(well_formed(head));
    assert(well_formed(head + launch_plan(Code::All)));
}

/// There is a step for each miner.
pub proof fn lemma_miner_steps(count: nat)
    ensures
        miner_steps(count).len() == count,
        forall|i: int| 0 <= i < count ==> #[trigger] miner_steps(count)[i] == Step::Miner(i as u8),
    decreases count,
{
    if count != 0 {
        lemma_miner_steps((count - 1) as nat);
    }
}

/// Every launch plan is well formed.
pub proof fn lemma_launch_well_formed(code: Code)
    requires
        launchable(code),
    ensures
        well_formed(launch_plan(code)),
{
    lemma_miner_steps(MINERS as nat);
}

/// Every update plan is well formed.
pub proof fn lemma_updates_well_formed(codes: Seq<Code>)
    ensures
        well_formed(updates_plan(codes)),
    decreases codes.len(),
{
    if codes.len() != 0 {
        lemma_updates_well_formed(codes.drop_last());
    }
}

} // verus!
