//! The lifecycle controller: carries a plan out one action at a time. The
//! caller performs the pending action and hands back what happened; the
//! controller decides what that means and which action comes next.

use crate::account::{account_name, account_of, provision, MinerAccount, MinerAccountView};
use crate::config::Config;
use crate::error::Error;
use crate::plan::{
    lemma_operation_plans_well_formed, operation_plan, plan_for, well_formed, Cause, Delay,
    Operation, Policy, Purpose, Stage, StageView, Step,
};
use crate::render::{
    account_call, create_account, launch_miner, miner_call, pause, pause_of, render, rendered,
    Action, ActionView,
};
use crate::text::{contains, mentions};
use vstd::prelude::*;

verus! {

/// What the caller reports after it has performed the pending action.
#[derive(Clone, Debug, PartialEq, Eq)]
pub enum Event {
    /// The action was carried out.
    Done,
    /// The command failed because its target does not exist.
    Absent,
    /// The command failed because its target exists already.
    Exists,
    /// The command failed for another reason.
    Failed,
    /// The time, in seconds since the epoch.
    Clock(u64),
    /// What the command printed.
    Output(String),
}

/// What a failed command's complaint says of the failure. The multiplexer
/// says of a session it was to destroy that it cannot find it, or that no
/// server is running; of one it was to create, that it is a duplicate.
pub open spec fn diagnosis(complaint: Seq<char>) -> Event {
    if mentions(complaint, "can't find session"@) || mentions(complaint, "no server running"@)
        || mentions(complaint, "error connecting to"@) {
        Event::Absent
    } else if mentions(complaint, "duplicate session"@) {
        Event::Exists
    } else {
        Event::Failed
    }
}

impl Event {
    /// Reads the report on a failed command from what the command wrote to
    /// its error stream.
    pub fn from_failure(complaint: &str) -> (r: Event)
        ensures
            r == diagnosis(complaint@),
    {
        if contains(complaint, "can't find session") || contains(complaint, "no server running")
            || contains(complaint, "error connecting to") {
            Event::Absent
        } else if contains(complaint, "duplicate session") {
            Event::Exists
        } else {
            Event::Failed
        }
    }
}

/// How a stage ended, where the run goes on after it.
#[derive(Clone, Copy, Debug, PartialEq, Eq, Structural)]
pub enum Verdict {
    /// Every step was carried out.
    Completed,
    /// The target was absent already; nothing had to be done.
    Absent,
    /// The target exists already and was left untouched.
    Preserved,
    /// A step failed and the failure was passed over.
    Failed,
}

/// The weight of a report.
#[derive(Clone, Copy, Debug, PartialEq, Eq, Structural)]
pub enum Level {
    Info,
    Warning,
}

/// The report of how one stage ended.
#[derive(Clone, Copy, Debug, PartialEq, Eq, Structural)]
pub struct Note {
    pub purpose: Purpose,
    pub verdict: Verdict,
}

impl Verdict {
    /// A stage that did its work, or had none to do, is information; one
    /// that was cut short is a warning.
    pub open spec fn weight(self) -> Level {
        match self {
            Verdict::Completed | Verdict::Absent => Level::Info,
            Verdict::Preserved | Verdict::Failed => Level::Warning,
        }
    }

    /// The weight of the verdict.
    pub fn level(&self) -> (r: Level)
        ensures
            r == self.weight(),
    {
        match self {
            Verdict::Completed | Verdict::Absent => Level::Info,
            Verdict::Preserved | Verdict::Failed => Level::Warning,
        }
    }
}

/// How far a step has come: the executable form of a [`PhaseView`].
#[derive(Debug)]
enum Phase {
    Begin,
    Stamped(u64),
    Rested(u64),
    Provisioned(MinerAccount),
}

/// How far a step has come. Only the provisioning of a miner has more than
/// one phase.
pub ghost enum PhaseView {
    /// Nothing of the step is done.
    Begin,
    /// The time has been read.
    Stamped(u64),
    /// The pause after reading the time is over.
    Rested(u64),
    /// The account exists.
    Provisioned(MinerAccountView),
}

impl View for Phase {
    type V = PhaseView;

    closed spec fn view(&self) -> PhaseView {
        match self {
            Phase::Begin => PhaseView::Begin,
            Phase::Stamped(clock) => PhaseView::Stamped(*clock),
            Phase::Rested(clock) => PhaseView::Rested(*clock),
            Phase::Provisioned(account) => PhaseView::Provisioned(account@),
        }
    }
}

/// What an event means for the step it answers.
pub ghost enum Reply {
    /// The step goes on in the given phase.
    Next(PhaseView),
    /// The step is done.
    StepDone,
    /// The step failed.
    Failed(Cause),
    /// The step cannot go on, whatever the stage's policy.
    Broken(Error),
}

/// Whether the run awaits an action or is over.
pub ghost enum StatusView {
    Awaiting(ActionView),
    Finished(Result<(), Error>),
}

/// The state of a run.
pub ghost struct ControllerView {
    pub config: Config,
    pub plan: Seq<StageView>,
    /// The stage, the step in it and the phase of that step which the
    /// awaited action belongs to.
    pub stage: nat,
    pub step: nat,
    pub phase: PhaseView,
    pub status: StatusView,
}

/// The verdict that is reported where `policy` tolerates a failure for
/// `cause`, if one is reported.
pub open spec fn verdict_on(policy: Policy, cause: Cause) -> Option<Verdict> {
    match policy {
        Policy::BestEffort => Some(
            if cause == Cause::Absent {
                Verdict::Absent
            } else {
                Verdict::Failed
            },
        ),
        Policy::CreateOnce => Some(Verdict::Preserved),
        _ => None,
    }
}

/// What a failure report means for a plain step.
pub open spec fn failure(event: Event) -> Reply {
    match event {
        Event::Done => Reply::StepDone,
        Event::Absent => Reply::Failed(Cause::Absent),
        Event::Exists => Reply::Failed(Cause::Exists),
        _ => Reply::Failed(Cause::Other),
    }
}

/// What `event` means for `step` in `phase`. An event of a kind that the
/// awaited action cannot give counts as a failure of the step.
pub open spec fn reply(step: Step, phase: PhaseView, event: Event) -> Reply {
    match step {
        Step::Run(_) => failure(event),
        Step::Pause(_) => failure(event),
        Step::Miner(index) => match phase {
            PhaseView::Begin => match event {
                Event::Clock(clock) => Reply::Next(PhaseView::Stamped(clock)),
                _ => Reply::Failed(Cause::Other),
            },
            PhaseView::Stamped(clock) => match event {
                Event::Done => Reply::Next(PhaseView::Rested(clock)),
                _ => Reply::Failed(Cause::Other),
            },
            PhaseView::Rested(clock) => match event {
                Event::Output(text) => match account_of(index, clock, text@) {
                    Ok(account) => Reply::Next(PhaseView::Provisioned(account)),
                    Err(e) => Reply::Broken(e),
                },
                _ => Reply::Failed(Cause::Other),
            },
            PhaseView::Provisioned(_) => match event {
                Event::Done => Reply::StepDone,
                _ => Reply::Failed(Cause::Other),
            },
        },
    }
}

/// The action that `step` asks for in `phase`, or the error that says which
/// setting it lacks. A miner is provisioned in four actions: the time is
/// read, the naming pause kept, the account created under a name made from
/// index and time, and the miner started on the account's address.
pub open spec fn action_at(step: Step, phase: PhaseView, config: Config) -> Result<
    ActionView,
    Error,
> {
    match step {
        Step::Run(command) => match rendered(command, config) {
            Ok(call) => Ok(ActionView::Run(call)),
            Err(e) => Err(e),
        },
        Step::Pause(delay) => Ok(ActionView::Sleep(pause(delay, config))),
        Step::Miner(index) => match phase {
            PhaseView::Begin => Ok(ActionView::ReadClock),
            PhaseView::Stamped(_) => Ok(ActionView::Sleep(pause(Delay::Naming, config))),
            PhaseView::Rested(clock) => match account_call(account_name(index, clock), config) {
                Ok(call) => Ok(ActionView::Capture(call)),
                Err(e) => Err(e),
            },
            PhaseView::Provisioned(account) => match miner_call(index, account.address, config) {
                Ok(call) => Ok(ActionView::Run(call)),
                Err(e) => Err(e),
            },
        },
    }
}

impl ControllerView {
    /// The run, over with `result`.
    pub open spec fn finished(self, result: Result<(), Error>) -> ControllerView {
        ControllerView { status: StatusView::Finished(result), ..self }
    }

    /// The run at the given place: it awaits the action of that place, or is
    /// over where the action lacks a setting.
    pub open spec fn at(self, stage: nat, step: nat, phase: PhaseView) -> ControllerView {
        match action_at(self.plan[stage as int].steps[step as int], phase, self.config) {
            Ok(action) => ControllerView {
                stage,
                step,
                phase,
                status: StatusView::Awaiting(action),
                ..self
            },
            Err(e) => self.finished(Err(e)),
        }
    }

    /// The run as it enters the stage `stage`. After the last stage the run
    /// is over and has succeeded. A stage one of whose needs is unset ends
    /// the run before any of its steps is taken.
    pub open spec fn enter(self, stage: nat) -> ControllerView {
        if stage >= self.plan.len() {
            self.finished(Ok(()))
        } else {
            match self.config.first_missing(self.plan[stage as int].needs) {
                Some(setting) => self.finished(Err(Error::ConfigurationMissing(setting))),
                None => self.at(stage, 0, PhaseView::Begin),
            }
        }
    }

    /// The run after a step of the current stage has failed for `cause`.
    /// Where the stage's policy tolerates the failure the rest of the stage
    /// is abandoned and the next stage entered; otherwise the run is over.
    pub open spec fn fail(self, cause: Cause) -> (ControllerView, Seq<Note>) {
        let stage = self.plan[self.stage as int];
        if stage.policy.tolerates(cause) {
            (
                self.enter(self.stage + 1),
                match verdict_on(stage.policy, cause) {
                    Some(verdict) => seq![Note { purpose: stage.purpose, verdict }],
                    None => Seq::empty(),
                },
            )
        } else {
            (self.finished(Err(Error::CommandFailed(stage.purpose))), Seq::empty())
        }
    }

    /// The run after `event` has answered the awaited action, and the
    /// reports that the event gives rise to. A run that is over stays as it
    /// is.
    pub open spec fn advance(self, event: Event) -> (ControllerView, Seq<Note>) {
        match self.status {
            StatusView::Finished(_) => (self, Seq::empty()),
            StatusView::Awaiting(_) => {
                let stage = self.plan[self.stage as int];
                match reply(stage.steps[self.step as int], self.phase, event) {
                    Reply::Next(phase) => (self.at(self.stage, self.step, phase), Seq::empty()),
                    Reply::StepDone => if self.step + 1 < stage.steps.len() {
                        (self.at(self.stage, self.step + 1, PhaseView::Begin), Seq::empty())
                    } else {
                        (
                            self.enter(self.stage + 1),
                            seq![Note { purpose: stage.purpose, verdict: Verdict::Completed }],
                        )
                    },
                    Reply::Failed(cause) => self.fail(cause),
                    Reply::Broken(e) => (self.finished(Err(e)), Seq::empty()),
                }
            },
        }
    }

    /// The run after each of `events` in turn has answered the action
    /// awaited at that point, and all reports together.
    pub open spec fn run(self, events: Seq<Event>) -> (ControllerView, Seq<Note>)
        decreases events.len(),
    {
        if events.len() == 0 {
            (self, Seq::empty())
        } else {
            let (next, first) = self.advance(events[0]);
            let (last, rest) = next.run(events.drop_first());
            (last, first + rest)
        }
    }

    /// Whether the place of the run is one that the plan has.
    pub open spec fn in_plan(self) -> bool {
        self.stage < self.plan.len() && self.step < self.plan[self.stage as int].steps.len()
    }

    /// Whether the state is one that a run can be in: the plan is well
    /// formed, and an awaited action is the action of the place that the run
    /// is at.
    pub open spec fn sound(self) -> bool {
        &&& well_formed(self.plan)
        &&& self.status matches StatusView::Awaiting(action) ==> self.in_plan() && action_at(
            self.plan[self.stage as int].steps[self.step as int],
            self.phase,
            self.config,
        ) == Ok::<ActionView, Error>(action)
    }
}

/// The run of `plan` under `config` before anything has happened.
pub open spec fn start(plan: Seq<StageView>, config: Config) -> ControllerView {
    ControllerView {
        config,
        plan,
        stage: 0,
        step: 0,
        phase: PhaseView::Begin,
        status: StatusView::Finished(Ok(())),
    }.enter(0)
}

/// Whether the run awaits an action or is over.
#[derive(Debug)]
enum Status {
    Awaiting(Action),
    Finished(Result<(), Error>),
}

impl View for Status {
    type V = StatusView;

    closed spec fn view(&self) -> StatusView {
        match self {
            Status::Awaiting(action) => StatusView::Awaiting(action@),
            Status::Finished(result) => StatusView::Finished(*result),
        }
    }
}

/// A run of a plan.
#[derive(Debug)]
pub struct Controller {
    config: Config,
    plan: Vec<Stage>,
    stage: usize,
    step: usize,
    phase: Phase,
    status: Status,
}

impl View for Controller {
    type V = ControllerView;

    closed spec fn view(&self) -> ControllerView {
        ControllerView {
            config: self.config,
            plan: self.plan.deep_view(),
            stage: self.stage as nat,
            step: self.step as nat,
            phase: self.phase@,
            status: self.status@,
        }
    }
}

/// Renders the action of a step in a phase.
fn action_of(step: Step, phase: &Phase, config: &Config) -> (r: Result<Action, Error>)
    ensures
        match r {
            Ok(action) => action_at(step, phase@, *config) == Ok::<ActionView, Error>(action@),
            Err(e) => action_at(step, phase@, *config) == Err::<ActionView, Error>(e),
        },
{
    match step {
        Step::Run(command) => match render(command, config) {
            Ok(call) => Ok(Action::Run(call)),
            Err(e) => Err(e),
        },
        Step::Pause(delay) => Ok(Action::Sleep(pause_of(delay, config))),
        Step::Miner(index) => match phase {
            Phase::Begin => Ok(Action::ReadClock),
            Phase::Stamped(_) => Ok(Action::Sleep(pause_of(Delay::Naming, config))),
            Phase::Rested(clock) => match create_account(index, *clock, config) {
                Ok(call) => Ok(Action::Capture(call)),
                Err(e) => Err(e),
            },
            Phase::Provisioned(account) => match launch_miner(
                index,
                account.address.as_str(),
                config,
            ) {
                Ok(call) => Ok(Action::Run(call)),
                Err(e) => Err(e),
            },
        },
    }
}

/// What an event means for a step: the executable form of a [`Reply`].
enum Answer {
    Next(Phase),
    StepDone,
    Failed(Cause),
    Broken(Error),
}

impl View for Answer {
    type V = Reply;

    closed spec fn view(&self) -> Reply {
        match self {
            Answer::Next(phase) => Reply::Next(phase@),
            Answer::StepDone => Reply::StepDone,
            Answer::Failed(cause) => Reply::Failed(*cause),
            Answer::Broken(e) => Reply::Broken(*e),
        }
    }
}

/// Reads a report on a plain step.
fn plain_answer(event: &Event) -> (r: Answer)
    ensures
        r@ == failure(*event),
{
    match event {
        Event::Done => Answer::StepDone,
        Event::Absent => Answer::Failed(Cause::Absent),
        Event::Exists => Answer::Failed(Cause::Exists),
        _ => Answer::Failed(Cause::Other),
    }
}

/// Reads what an event means for a step in a phase.
fn answer(step: Step, phase: &Phase, event: &Event) -> (r: Answer)
    ensures
        r@ == reply(step, phase@, *event),
{
    match step {
        Step::Run(_) => plain_answer(event),
        Step::Pause(_) => plain_answer(event),
        Step::Miner(index) => match phase {
            Phase::Begin => match event {
                Event::Clock(clock) => Answer::Next(Phase::Stamped(*clock)),
                _ => Answer::Failed(Cause::Other),
            },
            Phase::Stamped(clock) => match event {
                Event::Done => Answer::Next(Phase::Rested(*clock)),
                _ => Answer::Failed(Cause::Other),
            },
            Phase::Rested(clock) => match event {
                Event::Output(text) => match provision(index, *clock, text.as_str()) {
                    Ok(account) => Answer::Next(Phase::Provisioned(account)),
                    Err(e) => Answer::Broken(e),
                },
                _ => Answer::Failed(Cause::Other),
            },
            Phase::Provisioned(_) => match event {
                Event::Done => Answer::StepDone,
                _ => Answer::Failed(Cause::Other),
            },
        },
    }
}

/// Whether every stage of `plan` has a step.
pub fn check_plan(plan: &Vec<Stage>) -> (r: bool)
    ensures
        r == well_formed(plan.deep_view()),
{
    let mut i: usize = 0;
    while i < plan.len()
        invariant
            i <= plan.len(),
            forall|j: int| 0 <= j < i ==> (#[trigger] plan.deep_view()[j]).steps.len() > 0,
        decreases plan.len() - i,
    {
        if plan[i].steps.len() == 0 {
            assert(plan.deep_view()[i as int].steps.len() == 0);
            return false;
        }
        assert(plan.deep_view()[i as int].steps.len() > 0);
        i = i + 1;
    }
    true
}

impl Controller {
    #[verifier::type_invariant]
    spec fn inv(self) -> bool {
        self@.sound()
    }

    /// Starts the run of `plan` under `config`. A plan with a stage that
    /// has no step is refused.
    pub fn new(plan: Vec<Stage>, config: Config) -> (r: Option<Controller>)
        ensures
            match r {
                Some(c) => well_formed(plan.deep_view()) && c@ == start(plan.deep_view(), config)
                    && c@.sound(),
                None => !well_formed(plan.deep_view()),
            },
    {
        if !check_plan(&plan) {
            return None;
        }
        let mut c = Controller {
            config,
            plan,
            stage: 0,
            step: 0,
            phase: Phase::Begin,
            status: Status::Finished(Ok(())),
        };
        c.enter(0);
        proof {
            use_type_invariant(&c);
        }
        Some(c)
    }

    /// Starts the run of `operation` under `config`.
    pub fn for_operation(operation: &Operation, config: Config) -> (c: Controller)
        ensures
            c@ == start(operation_plan(*operation, config), config),
            c@.sound(),
    {
        let plan = plan_for(operation, &config);
        proof {
            lemma_operation_plans_well_formed(*operation, config);
        }
        let mut c = Controller {
            config,
            plan,
            stage: 0,
            step: 0,
            phase: Phase::Begin,
            status: Status::Finished(Ok(())),
        };
        c.enter(0);
        proof {
            use_type_invariant(&c);
        }
        c
    }

    /// Ends the run with `result`.
    fn finish(&mut self, result: Result<(), Error>)
        ensures
            final(self)@ == old(self)@.finished(result),
    {
        proof {
            use_type_invariant(&*self);
        }
        self.status = Status::Finished(result);
    }

    /// Takes the given place in the plan and renders its action.
    fn place(&mut self, stage: usize, step: usize, phase: Phase)
        requires
            stage < old(self)@.plan.len(),
            step < old(self)@.plan[stage as int].steps.len(),
        ensures
            final(self)@ == old(self)@.at(stage as nat, step as nat, phase@),
    {
        proof {
            use_type_invariant(&*self);
        }
        let item = self.plan[stage].steps[step];
        assert(item == self@.plan[stage as int].steps[step as int]);
        match action_of(item, &phase, &self.config) {
            Ok(action) => {
                self.status = Status::Finished(Ok(()));
                self.stage = stage;
                self.step = step;
                self.phase = phase;
                self.status = Status::Awaiting(action);
            },
            Err(e) => {
                self.status = Status::Finished(Err(e));
            },
        }
    }

    /// Enters the stage `stage`.
    fn enter(&mut self, stage: usize)
        ensures
            final(self)@ == old(self)@.enter(stage as nat),
    {
        proof {
            use_type_invariant(&*self);
        }
        if stage >= self.plan.len() {
            self.finish(Ok(()));
        } else {
            assert(self.plan[stage as int].needs@ == self@.plan[stage as int].needs);
            match self.config.find_missing(&self.plan[stage].needs) {
                Some(setting) => self.finish(Err(Error::ConfigurationMissing(setting))),
                None => {
                    assert(self@.plan[stage as int].steps.len() > 0);
                    self.place(stage, 0, Phase::Begin)
                },
            }
        }
    }

    /// The action that the run awaits, or `None` where the run is over.
    pub fn pending(&self) -> (r: Option<&Action>)
        ensures
            self@.sound(),
            match r {
                Some(action) => self@.status == StatusView::Awaiting(action@),
                None => self@.status is Finished,
            },
    {
        proof {
            use_type_invariant(self);
        }
        match &self.status {
            Status::Awaiting(action) => Some(action),
            Status::Finished(_) => None,
        }
    }

    /// How the run ended, or `None` where it is not over.
    pub fn outcome(&self) -> (r: Option<Result<(), Error>>)
        ensures
            match r {
                Some(result) => self@.status == StatusView::Finished(result),
                None => self@.status is Awaiting,
            },
    {
        match &self.status {
            Status::Awaiting(_) => None,
            Status::Finished(result) => Some(*result),
        }
    }

    /// Takes in what happened to the awaited action. The run moves on as
    /// the plan and its policies say, and the reports that are due are
    /// returned.
    pub fn advance(&mut self, event: Event) -> (notes: Vec<Note>)
        ensures
            (final(self)@, notes@) == old(self)@.advance(event),
            old(self)@.sound(),
            final(self)@.sound(),
    {
        proof {
            use_type_invariant(&*self);
        }
        let mut notes: Vec<Note> = Vec::new();
        if self.outcome().is_some() {
            return notes;
        }
        let stage = self.stage;
        let step = self.step;
        assert(stage < self.plan.len() <= usize::MAX);
        let purpose = self.plan[stage].purpose;
        let policy = self.plan[stage].policy;
        let steps = self.plan[stage].steps.len();
        let item = self.plan[stage].steps[step];
        assert(self@.plan[stage as int].steps == self.plan[stage as int].steps@);
        match answer(item, &self.phase, &event) {
            Answer::Next(phase) => {
                self.place(stage, step, phase);
            },
            Answer::StepDone => {
                if step + 1 < steps {
                    self.place(stage, step + 1, Phase::Begin);
                } else {
                    notes.push(Note { purpose, verdict: Verdict::Completed });
                    self.enter(stage + 1);
                }
            },
            Answer::Failed(cause) => match policy {
                Policy::FailFast => {
                    self.finish(Err(Error::CommandFailed(purpose)));
                },
                Policy::BestEffort => {
                    let verdict = if cause == Cause::Absent {
                        Verdict::Absent
                    } else {
                        Verdict::Failed
                    };
                    notes.push(Note { purpose, verdict });
                    self.enter(stage + 1);
                },
                Policy::Ignore => {
                    self.enter(stage + 1);
                },
                Policy::CreateOnce => {
                    if cause == Cause::Exists {
                        notes.push(Note { purpose, verdict: Verdict::Preserved });
                        self.enter(stage + 1);
                    } else {
                        self.finish(Err(Error::CommandFailed(purpose)));
                    }
                },
            },
            Answer::Broken(e) => {
                self.finish(Err(e));
            },
        }
        proof {
            use_type_invariant(&*self);
        }
        notes
    }
}

} // verus!
