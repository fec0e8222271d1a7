//! A model of the multiplexer, and what plans do to it. The model holds what
//! the controller relies on: which sessions exist, the windows of each, and
//! the panes of each window in the order in which they were made.

use crate::command::Command;
use crate::config::{Config, Setting};
use crate::controller::{action_at, start, ControllerView, Event, PhaseView, StatusView};
use crate::error::Error;
use crate::laws::{lemma_creation_supplied, supplied};
use crate::plan::{
    builds, creation_stage, creation_steps, lemma_creation_steps, open_step, prompt_steps,
    setup_plan, split_steps, window_steps, windows_steps, Cause, StageView, Step,
};
use crate::topology::{lemma_layouts_well_formed, well_formed, Session, Split, Window};
use vstd::prelude::*;

verus! {

/// A window as the multiplexer holds it.
pub ghost struct WindowState {
    /// The name the window was given, if it was given one.
    pub name: Option<Window>,
    /// The splits that made the window's panes, oldest first. The window
    /// starts with pane 0, and the `k`-th split made pane `k + 1`.
    pub splits: Seq<Split>,
    /// The active pane.
    pub active: nat,
}

/// The multiplexer: its sessions, and the window that commands without a
/// target act on.
pub ghost struct Mux {
    pub sessions: Map<Session, Seq<WindowState>>,
    pub current: Option<(Session, nat)>,
}

/// A window as it is when it comes into being: one pane, which is active.
pub open spec fn fresh(name: Option<Window>) -> WindowState {
    WindowState { name, splits: Seq::empty(), active: 0 }
}

/// A window that was built as `window` is declared: it bears the window's
/// name, its panes were made by the declared splits in the declared order,
/// and the pane made last is active.
pub open spec fn declared_window(window: Window) -> WindowState {
    WindowState { name: Some(window), splits: window.layout(), active: window.layout().len() }
}

/// The windows of a session that was built as declared.
pub open spec fn declared(windows: Seq<Window>) -> Seq<WindowState> {
    Seq::new(windows.len(), |i: int| declared_window(windows[i]))
}

impl Mux {
    /// Whether the session exists.
    pub open spec fn has(self, session: Session) -> bool {
        self.sessions.dom().contains(session)
    }

    /// Whether there is a current window, and the session has it.
    pub open spec fn focused(self) -> bool {
        match self.current {
            Some((session, index)) => self.has(session) && index < self.sessions[session].len(),
            None => false,
        }
    }

    /// The current window.
    pub open spec fn window(self) -> WindowState {
        let (session, index) = self.current->0;
        self.sessions[session][index as int]
    }

    /// The multiplexer with the current window replaced.
    pub open spec fn with_window(self, window: WindowState) -> Mux {
        let (session, index) = self.current->0;
        Mux {
            sessions: self.sessions.insert(
                session,
                self.sessions[session].update(index as int, window),
            ),
            ..self
        }
    }

    /// What a command does to the multiplexer, or why it fails. Only the
    /// commands that create and destroy sessions and windows, and that split
    /// and select panes, change anything.
    pub open spec fn effect(self, command: Command) -> Result<Mux, Cause> {
        match command {
            Command::KillSession(session) => if self.has(session) {
                Ok(
                    Mux {
                        sessions: self.sessions.remove(session),
                        current: match self.current {
                            Some((s, _)) => if s == session {
                                None
                            } else {
                                self.current
                            },
                            None => None,
                        },
                    },
                )
            } else {
                Err(Cause::Absent)
            },
            Command::NewSession(session) => if self.has(session) {
                Err(Cause::Exists)
            } else {
                Ok(
                    Mux {
                        sessions: self.sessions.insert(session, seq![fresh(None)]),
                        current: Some((session, 0)),
                    },
                )
            },
            Command::RenameWindow { session, index, window } => if self.has(session) && index
                < self.sessions[session].len() {
                Ok(
                    Mux {
                        sessions: self.sessions.insert(
                            session,
                            self.sessions[session].update(
                                index as int,
                                WindowState {
                                    name: Some(window),
                                    ..self.sessions[session][index as int]
                                },
                            ),
                        ),
                        ..self
                    },
                )
            } else {
                Err(Cause::Absent)
            },
            Command::NewWindow { session, index, window } => if self.has(session) && index
                == self.sessions[session].len() {
                Ok(
                    Mux {
                        sessions: self.sessions.insert(
                            session,
                            self.sessions[session].push(fresh(Some(window))),
                        ),
                        current: Some((session, index as nat)),
                    },
                )
            } else if self.has(session) {
                Err(Cause::Exists)
            } else {
                Err(Cause::Absent)
            },
            Command::SplitPane { axis, percent } => if self.focused() && self.window().splits.len()
                < u8::MAX {
                let window = self.window();
                Ok(
                    self.with_window(
                        WindowState {
                            splits: window.splits.push(
                                Split { parent: window.active as u8, axis, percent },
                            ),
                            active: window.splits.len() + 1,
                            ..window
                        },
                    ),
                )
            } else {
                Err(Cause::Other)
            },
            Command::SelectPane(pane) => if self.focused() && pane <= self.window().splits.len() {
                Ok(self.with_window(WindowState { active: pane as nat, ..self.window() }))
            } else {
                Err(Cause::Absent)
            },
            _ => Ok(self),
        }
    }

    /// What a step does to the multiplexer.
    pub open spec fn step_effect(self, step: Step) -> Result<Mux, Cause> {
        match step {
            Step::Run(command) => self.effect(command),
            _ => Ok(self),
        }
    }

    /// The multiplexer after the steps of a stage, taken in order up to the
    /// first that fails, and the cause of that failure if there is one.
    pub open spec fn after_steps(self, steps: Seq<Step>) -> (Mux, Option<Cause>)
        decreases steps.len(),
    {
        if steps.len() == 0 {
            (self, None)
        } else {
            match self.step_effect(steps[0]) {
                Ok(next) => next.after_steps(steps.drop_first()),
                Err(cause) => (self, Some(cause)),
            }
        }
    }

    /// The multiplexer after a plan under `config`, and how the plan ended.
    /// A stage one of whose needs is unset ends the plan before any of its
    /// steps is taken; a stage that fails ends the plan unless its policy
    /// tolerates the failure.
    pub open spec fn after_plan(self, plan: Seq<StageView>, config: Config) -> (
        Mux,
        Result<(), Error>,
    )
        decreases plan.len(),
    {
        if plan.len() == 0 {
            (self, Ok(()))
        } else {
            match config.first_missing(plan[0].needs) {
                Some(setting) => (self, Err(Error::ConfigurationMissing(setting))),
                None => {
                    let (reached, failure) = self.after_steps(plan[0].steps);
                    match failure {
                        Some(cause) => if plan[0].policy.tolerates(cause) {
                            reached.after_plan(plan.drop_first(), config)
                        } else {
                            (reached, Err(Error::CommandFailed(plan[0].purpose)))
                        },
                        None => reached.after_plan(plan.drop_first(), config),
                    }
                },
            }
        }
    }
}

/// Steps taken one group after the other are the steps of the two groups
/// joined: the second group is reached only if the first did not fail.
pub proof fn lemma_after_steps_joined(mux: Mux, first: Seq<Step>, second: Seq<Step>)
    ensures
        mux.after_steps(first + second) == (match mux.after_steps(first) {
            (reached, None) => reached.after_steps(second),
            (reached, Some(cause)) => (reached, Some(cause)),
        }),
    decreases first.len(),
{
    if first.len() == 0 {
        assert(first + second =~= second);
    } else {
        let all = first + second;
        assert(all[0] == first[0]);
        assert(all.drop_first() =~= first.drop_first() + second);
        match mux.step_effect(first[0]) {
            Ok(next) => {
                lemma_after_steps_joined(next, first.drop_first(), second);
            },
            Err(_) => {},
        }
    }
}

/// A single step succeeds and changes the multiplexer, or fails and leaves
/// it as it is.
pub proof fn lemma_after_one_step(mux: Mux, step: Step)
    ensures
        mux.after_steps(seq![step]) == (match mux.step_effect(step) {
            Ok(next) => (next, None::<Cause>),
            Err(cause) => (mux, Some(cause)),
        }),
{
    reveal_with_fuel(Mux::after_steps, 2);
    assert(seq![step].drop_first() =~= Seq::<Step>::empty());
}

/// Pane addressing follows declaration order. Applied to a window that has
/// just come into being, the steps generated for a well-formed layout all
/// succeed, and the window then has exactly the declared splits: the `k`-th
/// split divided the pane it names and made pane `k + 1`. Nothing else
/// changes.
pub proof fn lemma_splits_build_layout(mux: Mux, splits: Seq<Split>)
    requires
        mux.focused(),
        mux.window().splits.len() == 0,
        mux.window().active == 0,
        well_formed(splits),
    ensures
        mux.after_steps(split_steps(splits)) == (
            mux.with_window(WindowState { splits, active: splits.len(), ..mux.window() }),
            None::<Cause>,
        ),
    decreases splits.len(),
{
    let window = mux.window();
    let (session, index) = mux.current->0;
    if splits.len() == 0 {
        assert(splits =~= window.splits);
        assert(mux.sessions[session].update(index as int, window) =~= mux.sessions[session]);
        assert(mux.sessions.insert(session, mux.sessions[session]) =~= mux.sessions);
    } else {
        let before = splits.drop_last();
        let last = splits.last();
        assert(well_formed(before)) by {
            assert forall|k: int| 0 <= k < before.len() implies (#[trigger] before[k]).parent
                <= k by {
                assert(before[k] == splits[k]);
            }
        }
        lemma_splits_build_layout(mux, before);
        let built = WindowState { splits: before, active: before.len(), ..window };
        let reached = mux.with_window(built);
        assert(reached.focused());
        assert(reached.window() == built);
        let split = Step::Run(Command::SplitPane { axis: last.axis, percent: last.percent });
        let done = WindowState { splits, active: splits.len(), ..window };
        assert(last == splits[splits.len() - 1]);
        assert(last.parent <= splits.len() - 1);
        if last.parent == splits.len() - 1 {
            assert(split_steps(splits) =~= split_steps(before) + seq![split]);
            lemma_after_steps_joined(mux, split_steps(before), seq![split]);
            assert(before.push(Split { parent: built.active as u8, ..last }) =~= splits);
            assert(reached.with_window(done) == mux.with_window(done)) by {
                lemma_with_window_twice(mux, built, done);
            }
            assert(reached.step_effect(split) == Ok::<Mux, Cause>(mux.with_window(done)));
            lemma_after_one_step(reached, split);
        } else {
            let select = Step::Run(Command::SelectPane(last.parent));
            assert(split_steps(splits) =~= split_steps(before) + seq![select, split]);
            lemma_after_steps_joined(mux, split_steps(before), seq![select, split]);
            let chosen = WindowState { active: last.parent as nat, ..built };
            let selected = reached.with_window(chosen);
            assert(reached.step_effect(select) == Ok::<Mux, Cause>(selected));
            lemma_with_window_twice(mux, built, chosen);
            assert(selected == mux.with_window(chosen));
            assert(selected.focused());
            assert(selected.window() == chosen);
            assert(before.push(Split { parent: chosen.active as u8, ..last }) =~= splits);
            lemma_with_window_twice(mux, chosen, done);
            assert(selected.step_effect(split) == Ok::<Mux, Cause>(mux.with_window(done)));
            lemma_after_one_step(selected, split);
            assert(seq![select, split] =~= seq![select] + seq![split]);
            lemma_after_one_step(reached, select);
            lemma_after_steps_joined(reached, seq![select], seq![split]);
        }
    }
}

/// Replacing the current window twice is replacing it by the second.
pub proof fn lemma_with_window_twice(mux: Mux, first: WindowState, second: WindowState)
    requires
        mux.focused(),
    ensures
        mux.with_window(first).with_window(second) == mux.with_window(second),
        mux.with_window(first).focused(),
        mux.with_window(first).window() == first,
{
    let (session, index) = mux.current->0;
    let windows = mux.sessions[session];
    assert(windows.update(index as int, first).update(index as int, second) =~= windows.update(
        index as int,
        second,
    ));
    assert(mux.sessions.insert(session, windows.update(index as int, first)).insert(
        session,
        windows.update(index as int, second),
    ) =~= mux.sessions.insert(session, windows.update(index as int, second)));
}

/// Building the windows of a session that has just been created makes the
/// session as declared: one window for each declared window, in order, each
/// with the declared name and panes. The window built last is the current
/// one.
pub proof fn lemma_windows_build(mux: Mux, session: Session, windows: Seq<Window>)
    requires
        1 <= windows.len() <= u8::MAX,
        mux.has(session),
        mux.sessions[session] == seq![fresh(None)],
        mux.current == Some((session, 0nat)),
    ensures
        mux.after_steps(windows_steps(session, windows)) == (
            Mux {
                sessions: mux.sessions.insert(session, declared(windows)),
                current: Some((session, (windows.len() - 1) as nat)),
            },
            None::<Cause>,
        ),
    decreases windows.len(),
{
    let before = windows.drop_last();
    let last = windows.last();
    let index = (windows.len() - 1) as u8;
    let open = open_step(session, index, last);
    let splits = split_steps(last.layout());
    lemma_layouts_well_formed(last);
    assert(window_steps(session, index, last, last.layout()) == seq![open] + splits);
    let done = Mux {
        sessions: mux.sessions.insert(session, declared(windows)),
        current: Some((session, (windows.len() - 1) as nat)),
    };
    if before.len() == 0 {
        assert(windows_steps(session, before) =~= Seq::<Step>::empty());
        assert(windows_steps(session, windows) =~= seq![open] + splits);
        let opened = Mux {
            sessions: mux.sessions.insert(session, seq![fresh(Some(last))]),
            ..mux
        };
        assert(mux.sessions[session].update(0, fresh(Some(last))) =~= seq![fresh(Some(last))]);
        assert(mux.step_effect(open) == Ok::<Mux, Cause>(opened));
        lemma_after_one_step(mux, open);
        lemma_after_steps_joined(mux, seq![open], splits);
        lemma_splits_build_layout(opened, last.layout());
        assert(opened.window() == fresh(Some(last)));
        assert(opened.sessions[session].update(0, declared_window(last)) =~= declared(windows));
        assert(opened.sessions.insert(session, declared(windows)) =~= done.sessions);
    } else {
        lemma_windows_build(mux, session, before);
        let built = Mux {
            sessions: mux.sessions.insert(session, declared(before)),
            current: Some((session, (before.len() - 1) as nat)),
        };
        lemma_after_steps_joined(mux, windows_steps(session, before), seq![open] + splits);
        let opened = Mux {
            sessions: built.sessions.insert(session, declared(before).push(fresh(Some(last)))),
            current: Some((session, before.len())),
        };
        assert(built.step_effect(open) == Ok::<Mux, Cause>(opened));
        lemma_after_one_step(built, open);
        lemma_after_steps_joined(built, seq![open], splits);
        assert(opened.focused());
        assert(opened.window() == fresh(Some(last)));
        lemma_splits_build_layout(opened, last.layout());
        assert(opened.sessions[session].update(before.len() as int, declared_window(last))
            =~= declared(windows)) by {
            assert forall|i: int| 0 <= i < windows.len() implies opened.sessions[session].update(
                before.len() as int,
                declared_window(last),
            )[i] == declared(windows)[i] by {
                if i < before.len() {
                    assert(before[i] == windows[i]);
                }
            }
        }
        assert(opened.sessions.insert(session, declared(windows)) =~= done.sessions);
    }
}

/// Typing the opening lines into the chain window changes nothing of the
/// topology.
pub proof fn lemma_prompts_change_nothing(mux: Mux, panes: nat)
    ensures
        mux.after_steps(prompt_steps(panes)) == (mux, None::<Cause>),
    decreases panes,
{
    if panes != 0 {
        let before = prompt_steps((panes - 1) as nat);
        let all = prompt_steps(panes);
        let enter = all[all.len() - 2];
        let clear = all[all.len() - 1];
        assert(all =~= before + seq![enter] + seq![clear]);
        lemma_prompts_change_nothing(mux, (panes - 1) as nat);
        lemma_after_steps_joined(mux, before, seq![enter]);
        lemma_after_one_step(mux, enter);
        lemma_after_steps_joined(mux, before + seq![enter], seq![clear]);
        lemma_after_one_step(mux, clear);
    }
}

/// The multiplexer with `session` as it is declared.
pub open spec fn with_declared(mux: Mux, session: Session) -> Mux {
    Mux {
        sessions: mux.sessions.insert(session, declared(session.windows())),
        current: Some((session, (session.windows().len() - 1) as nat)),
    }
}

/// The creation of a session that exists fails at its first step, which
/// says so, and touches nothing. The creation of a session that does not
/// exist succeeds and makes the session as declared, beside the sessions
/// that were there.
pub proof fn lemma_creation_builds_session(mux: Mux, session: Session)
    ensures
        mux.after_steps(creation_steps(session)) == (if mux.has(session) {
            (mux, Some(Cause::Exists))
        } else {
            (with_declared(mux, session), None::<Cause>)
        }),
{
    let create = Step::Run(Command::NewSession(session));
    let windows = windows_steps(session, session.windows());
    let build = seq![create] + windows;
    let tail = match session {
        Session::Primary => Seq::<Step>::empty(),
        Session::Secondary => prompt_steps(Window::Node.pane_count()),
    };
    assert(creation_steps(session) =~= build + tail);
    lemma_after_one_step(mux, create);
    lemma_after_steps_joined(mux, seq![create], windows);
    lemma_after_steps_joined(mux, build, tail);
    if !mux.has(session) {
        let created = Mux {
            sessions: mux.sessions.insert(session, seq![fresh(None)]),
            current: Some((session, 0nat)),
        };
        assert(mux.step_effect(create) == Ok::<Mux, Cause>(created));
        lemma_windows_build(created, session, session.windows());
        assert(created.sessions.insert(session, declared(session.windows())) =~= with_declared(
            mux,
            session,
        ).sessions);
        lemma_prompts_change_nothing(with_declared(mux, session), Window::Node.pane_count());
    }
}

/// How setup ends under `config`: it succeeds where the chain source
/// directory is set, and otherwise ends for want of it.
pub open spec fn setup_result(config: Config) -> Result<(), Error> {
    if config.has(Setting::IronDir) {
        Ok(())
    } else {
        Err(Error::ConfigurationMissing(Setting::IronDir))
    }
}

/// What setup makes of the multiplexer, whatever state it finds.
/// Afterwards the primary session is as declared. The secondary session is
/// what it was if it existed; if it did not, it is as declared where the
/// chain source directory is set, and still absent where it is not. No other
/// failure ends setup than the want of that setting.
pub proof fn lemma_setup_converges(mux: Mux, config: Config)
    ensures
        mux.after_plan(setup_plan(), config).1 == setup_result(config),
        mux.after_plan(setup_plan(), config).0.has(Session::Primary),
        mux.after_plan(setup_plan(), config).0.sessions[Session::Primary] == declared(
            Session::Primary.windows(),
        ),
        mux.after_plan(setup_plan(), config).0.has(Session::Secondary) == (mux.has(
            Session::Secondary,
        ) || config.has(Setting::IronDir)),
        mux.after_plan(setup_plan(), config).0.sessions[Session::Secondary] == (if mux.has(
            Session::Secondary,
        ) || !config.has(Setting::IronDir) {
            mux.sessions[Session::Secondary]
        } else {
            declared(Session::Secondary.windows())
        }),
{
    let plan = setup_plan();
    let kill = Step::Run(Command::KillSession(Session::Primary));
    assert(plan[0].steps == seq![kill]);
    assert(plan[0].needs.len() == 0);
    lemma_after_one_step(mux, kill);
    let cleared = mux.after_steps(plan[0].steps).0;
    assert(!cleared.has(Session::Primary));
    assert(cleared.has(Session::Secondary) == mux.has(Session::Secondary));
    let second = plan.drop_first();
    assert(second[0].steps == creation_steps(Session::Primary));
    assert(second[0].needs.len() == 0);
    lemma_creation_builds_session(cleared, Session::Primary);
    let primary = with_declared(cleared, Session::Primary);
    assert(cleared.after_steps(second[0].steps) == (primary, None::<Cause>));
    let third = second.drop_first();
    assert(third[0].steps == creation_steps(Session::Secondary));
    assert(third[0].needs == seq![Setting::IronDir]);
    assert(config.first_missing(third[0].needs) == (if config.has(Setting::IronDir) {
        None
    } else {
        Some(Setting::IronDir)
    })) by {
        reveal_with_fuel(Config::first_missing, 2);
        assert(third[0].needs.drop_first().len() == 0);
    }
    lemma_creation_builds_session(primary, Session::Secondary);
    assert(third.drop_first().len() == 0);
    reveal_with_fuel(Mux::after_plan, 4);
    assert(mux.after_plan(plan, config) == cleared.after_plan(second, config));
    assert(cleared.after_plan(second, config) == primary.after_plan(third, config));
}

/// Setup is idempotent: a second setup ends as the first one did and leaves
/// every session as the first one left it, window by window and pane by
/// pane.
pub proof fn lemma_setup_idempotent(mux: Mux, config: Config)
    ensures
        ({
            let once = mux.after_plan(setup_plan(), config);
            let twice = once.0.after_plan(setup_plan(), config);
            &&& twice.1 == once.1
            &&& twice.0.sessions == once.0.sessions
        }),
{
    let once = mux.after_plan(setup_plan(), config).0;
    let twice = once.after_plan(setup_plan(), config).0;
    lemma_setup_converges(mux, config);
    lemma_setup_converges(once, config);
    assert forall|session: Session| twice.has(session) == once.has(session) by {
        match session {
            Session::Primary => {},
            Session::Secondary => {},
        }
    }
    assert forall|session: Session| twice.has(session) implies #[trigger] twice.sessions[session]
        == once.sessions[session] by {
        match session {
            Session::Primary => {},
            Session::Secondary => {},
        }
    }
    assert(twice.sessions =~= once.sessions);
}

/// How the multiplexer answers a step: with what it reports, and as what it
/// is afterwards.
pub open spec fn answer(mux: Mux, step: Step) -> (Event, Mux) {
    match mux.step_effect(step) {
        Ok(next) => (Event::Done, next),
        Err(Cause::Absent) => (Event::Absent, mux),
        Err(Cause::Exists) => (Event::Exists, mux),
        Err(Cause::Other) => (Event::Failed, mux),
    }
}

/// The run and the multiplexer after `turns` turns. In each turn the
/// multiplexer answers the step that the run is at. A run that is over is
/// left as it is.
pub open spec fn played(c: ControllerView, mux: Mux, turns: nat) -> (ControllerView, Mux)
    decreases turns,
{
    if turns == 0 || c.status is Finished {
        (c, mux)
    } else {
        let (event, next) = answer(mux, c.plan[c.stage as int].steps[c.step as int]);
        played(c.advance(event).0, next, (turns - 1) as nat)
    }
}

/// Whether a stage can be played against the model under `config`: it has a
/// step, none of its steps provisions a miner, and once entered it lacks no
/// setting.
pub open spec fn stage_ready(stage: StageView, config: Config) -> bool {
    &&& stage.steps.len() > 0
    &&& forall|j: int| 0 <= j < stage.steps.len() ==> #[trigger] stage.steps[j] !is Miner
    &&& supplied(stage, config)
}

/// Whether every stage of a plan can be played against the model.
pub open spec fn ready(plan: Seq<StageView>, config: Config) -> bool {
    forall|k: int| 0 <= k < plan.len() ==> stage_ready(#[trigger] plan[k], config)
}

/// The number of steps in the stages of `plan` from stage `from` on.
pub open spec fn steps_from(plan: Seq<StageView>, from: int) -> nat
    decreases plan.len() - from,
{
    if from < 0 || from >= plan.len() {
        0
    } else {
        plan[from].steps.len() + steps_from(plan, from + 1)
    }
}

/// The multiplexer after what is left of a plan from step `step` of stage
/// `stage` on, once that stage has been entered, and how the plan ended.
pub open spec fn after_rest(
    mux: Mux,
    plan: Seq<StageView>,
    stage: int,
    step: int,
    config: Config,
) -> (Mux, Result<(), Error>) {
    let (reached, failure) = mux.after_steps(plan[stage].steps.skip(step));
    match failure {
        Some(cause) => if plan[stage].policy.tolerates(cause) {
            reached.after_plan(plan.skip(stage + 1), config)
        } else {
            (reached, Err(Error::CommandFailed(plan[stage].purpose)))
        },
        None => reached.after_plan(plan.skip(stage + 1), config),
    }
}

/// A plan from one of its stages on is that stage, if its needs are set, and
/// then the rest.
pub proof fn lemma_after_plan_from(mux: Mux, plan: Seq<StageView>, stage: int, config: Config)
    requires
        0 <= stage < plan.len(),
    ensures
        mux.after_plan(plan.skip(stage), config) == (match config.first_missing(
            plan[stage].needs,
        ) {
            Some(setting) => (mux, Err(Error::ConfigurationMissing(setting))),
            None => after_rest(mux, plan, stage, 0, config),
        }),
{
    let rest = plan.skip(stage);
    assert(rest[0] == plan[stage]);
    assert(rest.drop_first() =~= plan.skip(stage + 1));
    assert(plan[stage].steps.skip(0) =~= plan[stage].steps);
}

/// The run as it enters a stage ends where the plan ends on the model if
/// the stage lacks a setting, and otherwise awaits the first step of the
/// stage.
pub proof fn lemma_enter_follows_plan(c: ControllerView, mux: Mux, stage: nat, turns: nat)
    requires
        ready(c.plan, c.config),
        stage <= c.plan.len(),
        turns >= steps_from(c.plan, stage as int),
    ensures
        played(c.enter(stage), mux, turns).0.status == StatusView::Finished(
            mux.after_plan(c.plan.skip(stage as int), c.config).1,
        ),
        played(c.enter(stage), mux, turns).1 == mux.after_plan(
            c.plan.skip(stage as int),
            c.config,
        ).0,
    decreases turns, 1nat,
{
    let plan = c.plan;
    let entered = c.enter(stage);
    if stage >= plan.len() {
        assert(plan.skip(stage as int) =~= Seq::<StageView>::empty());
    } else {
        lemma_after_plan_from(mux, plan, stage as int, c.config);
        assert(stage_ready(plan[stage as int], c.config));
        if c.config.first_missing(plan[stage as int].needs) is None {
            assert(action_at(plan[stage as int].steps[0], PhaseView::Begin, c.config) is Ok);
            assert(entered == c.at(stage, 0, PhaseView::Begin));
            lemma_controller_follows_plan(entered, mux, turns);
        }
    }
}

/// The controller does to the multiplexer what its plan says. Where the run
/// is at a step of a plan all of whose stages can be taken, and the
/// multiplexer answers each action as the model has it, then within as many
/// turns as there are steps left the run is over; it has then ended as the
/// plan ends on the model, and the multiplexer is as the plan leaves it.
pub proof fn lemma_controller_follows_plan(c: ControllerView, mux: Mux, turns: nat)
    requires
        ready(c.plan, c.config),
        c.status is Awaiting,
        c.in_plan(),
        c.phase == PhaseView::Begin,
        c.config.first_missing(c.plan[c.stage as int].needs) is None,
        turns >= c.plan[c.stage as int].steps.len() - c.step + steps_from(
            c.plan,
            c.stage as int + 1,
        ),
    ensures
        played(c, mux, turns).0.status == StatusView::Finished(
            after_rest(mux, c.plan, c.stage as int, c.step as int, c.config).1,
        ),
        played(c, mux, turns).1 == after_rest(
            mux,
            c.plan,
            c.stage as int,
            c.step as int,
            c.config,
        ).0,
    decreases turns, 0nat,
{
    let plan = c.plan;
    let k = c.stage as int;
    let j = c.step as int;
    let stage = plan[k];
    let step = stage.steps[j];
    assert(stage_ready(stage, c.config));
    assert(step !is Miner);
    let left = stage.steps.skip(j);
    assert(left[0] == step);
    assert(left.drop_first() =~= stage.steps.skip(j + 1));
    let (event, next) = answer(mux, step);
    let after = c.advance(event).0;
    assert(played(c, mux, turns) == played(after, next, (turns - 1) as nat));
    if mux.step_effect(step) is Ok && j + 1 < stage.steps.len() {
        assert(action_at(stage.steps[j + 1], PhaseView::Begin, c.config) is Ok);
        assert(after == c.at(c.stage, c.step + 1, PhaseView::Begin));
        assert(after_rest(mux, plan, k, j, c.config) == after_rest(next, plan, k, j + 1, c.config));
        lemma_controller_follows_plan(after, next, (turns - 1) as nat);
    } else {
        let cause = mux.step_effect(step)->Err_0;
        let reached = mux.after_steps(left).0;
        if mux.step_effect(step) is Ok {
            assert(left.drop_first().len() == 0);
            assert(next.after_steps(left.drop_first()) == (next, None::<Cause>));
            assert(mux.after_steps(left) == (next, None::<Cause>));
        } else {
            assert(mux.after_steps(left) == (mux, Some(cause)));
        }
        assert(reached == next);
        if mux.step_effect(step) is Err && !stage.policy.tolerates(cause) {
            assert(after.status == StatusView::Finished(
                Err::<(), Error>(Error::CommandFailed(stage.purpose)),
            ));
        } else {
            assert(after == c.enter(c.stage + 1));
            lemma_enter_follows_plan(c, next, c.stage + 1, (turns - 1) as nat);
        }
    }
}

/// A run of a whole plan against the model. Where every stage of the plan
/// can be taken, the run is over after at most as many turns as the plan
/// has steps; it has then ended as the plan ends on the model, and the
/// multiplexer is as the plan leaves it.
pub proof fn lemma_run_follows_plan(plan: Seq<StageView>, config: Config, mux: Mux, turns: nat)
    requires
        ready(plan, config),
        turns >= steps_from(plan, 0),
    ensures
        played(start(plan, config), mux, turns).0.status == StatusView::Finished(
            mux.after_plan(plan, config).1,
        ),
        played(start(plan, config), mux, turns).1 == mux.after_plan(plan, config).0,
{
    let c = ControllerView {
        config,
        plan,
        stage: 0,
        step: 0,
        phase: PhaseView::Begin,
        status: StatusView::Finished(Ok(())),
    };
    assert(plan.skip(0) =~= plan);
    lemma_enter_follows_plan(c, mux, 0, turns);
}

/// Every stage of the setup plan can be played against the model, whatever
/// is configured.
pub proof fn lemma_setup_ready(config: Config)
    ensures
        ready(setup_plan(), config),
{
    let plan = setup_plan();
    lemma_creation_steps(Session::Primary);
    lemma_creation_steps(Session::Secondary);
    lemma_creation_supplied(Session::Primary, config);
    lemma_creation_supplied(Session::Secondary, config);
    assert forall|k: int| 0 <= k < plan.len() implies stage_ready(#[trigger] plan[k], config) by {
        if k > 0 {
            let session = if k == 1 {
                Session::Primary
            } else {
                Session::Secondary
            };
            assert(plan[k] == creation_stage(session));
            assert forall|j: int| 0 <= j < plan[k].steps.len() implies #[trigger] plan[k].steps[j]
                !is Miner by {
                assert(builds(creation_steps(session)[j], session));
            }
        }
    }
}

/// Idempotence of setup, as the controller carries it out. Two setups run
/// one after the other, each answered by the multiplexer, end alike, and
/// the second leaves every session as the first left it. The primary
/// session is as declared after each, with the same windows and the same
/// panes under the same indices; a secondary session that existed before
/// the first is still what it was. Setup ends without success only for want
/// of the chain source directory.
pub proof fn lemma_setup_twice(config: Config, mux: Mux, turns: nat)
    requires
        turns >= steps_from(setup_plan(), 0),
    ensures
        ({
            let first = played(start(setup_plan(), config), mux, turns);
            let second = played(start(setup_plan(), config), first.1, turns);
            &&& first.0.status == StatusView::Finished(setup_result(config))
            &&& second.0.status == first.0.status
            &&& second.1.sessions == first.1.sessions
            &&& first.1.sessions[Session::Primary] == declared(Session::Primary.windows())
            &&& mux.has(Session::Secondary) ==> first.1.sessions[Session::Secondary]
                == mux.sessions[Session::Secondary]
        }),
{
    lemma_setup_ready(config);
    lemma_run_follows_plan(setup_plan(), config, mux, turns);
    let once = mux.after_plan(setup_plan(), config).0;
    lemma_run_follows_plan(setup_plan(), config, once, turns);
    lemma_setup_converges(mux, config);
    lemma_setup_idempotent(mux, config);
}

} // verus!
