//! Laws of the lifecycle: what holds of every run and of every plan.

use crate::account::address_in;
use crate::command::Command;
use crate::component::{Code, Order};
use crate::config::{lemma_first_missing, Config, Setting};
use crate::controller::{
    action_at, reply, start, ControllerView, Event, Note, PhaseView, StatusView, Verdict,
};
use crate::error::Error;
use crate::plan::{
    attach_stage, build_stage, builds, chain_stage, creation_stage, creation_steps, deletion_stage,
    deletions, flush_stage, kill_plan, launch_plan, launch_stage, lemma_creation_steps,
    lemma_miner_steps, operation_plan, restart_plan, service_stage, setup_plan, teardown_stage,
    update_plan, updates_plan, well_formed, Operation, Policy, Purpose, StageView, Step, MINERS,
};
use crate::render::{miner_call, miner_slot, rendered, ActionView};
use crate::topology::{Session, SlotRef};
use vstd::prelude::*;

verus! {

/// How far a phase is into its step.
pub open spec fn phase_rank(phase: PhaseView) -> nat {
    match phase {
        PhaseView::Begin => 0,
        PhaseView::Stamped(_) => 1,
        PhaseView::Rested(_) => 2,
        PhaseView::Provisioned(_) => 3,
    }
}

/// Whether the place of `later` comes after the place of `earlier` in plan
/// order.
pub open spec fn after(later: ControllerView, earlier: ControllerView) -> bool {
    ||| later.stage > earlier.stage
    ||| later.stage == earlier.stage && later.step > earlier.step
    ||| later.stage == earlier.stage && later.step == earlier.step && phase_rank(later.phase)
        > phase_rank(earlier.phase)
}

/// A run that is over stays over: whatever is reported afterwards, nothing
/// changes and nothing more is asked for.
pub proof fn lemma_finished_is_final(c: ControllerView, events: Seq<Event>)
    requires
        c.status is Finished,
    ensures
        c.run(events) == (c, Seq::<Note>::empty()),
    decreases events.len(),
{
    if events.len() != 0 {
        lemma_finished_is_final(c, events.drop_first());
        assert(Seq::<Note>::empty() + Seq::<Note>::empty() =~= Seq::<Note>::empty());
    }
}

/// Steps are taken in plan order. Every event moves a run forward: the
/// state stays sound, plan and configuration stay what they are, and the
/// action awaited afterwards, if there is one, belongs to a later place of
/// the plan than the action that the event answered.
pub proof fn lemma_advance_moves_forward(c: ControllerView, event: Event)
    requires
        c.sound(),
    ensures
        c.advance(event).0.sound(),
        c.advance(event).0.plan == c.plan,
        c.advance(event).0.config == c.config,
        c.status is Awaiting && c.advance(event).0.status is Awaiting ==> after(
            c.advance(event).0,
            c,
        ),
{
}

/// A run starts in a sound state.
pub proof fn lemma_start_is_sound(plan: Seq<StageView>, config: Config)
    requires
        well_formed(plan),
    ensures
        start(plan, config).sound(),
        start(plan, config).plan == plan,
        start(plan, config).config == config,
{
}

/// Fail-fast: where a step of a fail-fast stage fails, the run is over at
/// once with the failure of that stage. No report is made, and whatever
/// follows, no further action is asked for.
pub proof fn lemma_fail_fast(c: ControllerView, event: Event, later: Seq<Event>)
    requires
        c.status is Awaiting,
        c.plan[c.stage as int].policy == Policy::FailFast,
        reply(c.plan[c.stage as int].steps[c.step as int], c.phase, event) is Failed,
    ensures
        c.advance(event).0.status == StatusView::Finished(
            Err(Error::CommandFailed(c.plan[c.stage as int].purpose)),
        ),
        c.advance(event).1 == Seq::<Note>::empty(),
        c.run(seq![event] + later) == c.advance(event),
{
    let all = seq![event] + later;
    assert(all[0] == event);
    assert(all.drop_first() =~= later);
    lemma_finished_is_final(c.advance(event).0, later);
    assert(Seq::<Note>::empty() + Seq::<Note>::empty() =~= Seq::<Note>::empty());
}

/// A miner is launched only on an address. Where a fail-fast run awaits
/// what the account tool prints for miner `index`, the run goes on exactly
/// if that names an address, and the action awaited next is then the start
/// of that miner on that address, or the run is over for want of the miner
/// command line. Output that names no address ends the run as not found, and
/// any other report ends it with the failure of the stage; in neither case
/// is anything typed into the miner's slot.
pub proof fn lemma_miner_needs_address(c: ControllerView, index: u8, clock: u64, event: Event)
    requires
        c.status is Awaiting,
        c.plan[c.stage as int].policy == Policy::FailFast,
        c.plan[c.stage as int].steps[c.step as int] == Step::Miner(index),
        c.phase == PhaseView::Rested(clock),
    ensures
        c.advance(event).0.status == (match event {
            Event::Output(text) => match address_in(text@) {
                Some(address) => match miner_call(index, address, c.config) {
                    Ok(call) => StatusView::Awaiting(ActionView::Run(call)),
                    Err(e) => StatusView::Finished(Err(e)),
                },
                None => StatusView::Finished(Err(Error::NotFound)),
            },
            _ => StatusView::Finished(Err(Error::CommandFailed(c.plan[c.stage as int].purpose))),
        }),
{
}

/// The verdict on a best-effort stage of one step, given what was reported
/// of that step.
pub open spec fn best_effort_verdict(event: Event) -> Verdict {
    match event {
        Event::Done => Verdict::Completed,
        Event::Absent => Verdict::Absent,
        _ => Verdict::Failed,
    }
}

/// Best effort: whatever is reported of the one command of a best-effort
/// stage, the run goes on with the next stage, and exactly one report is
/// made: information where the command succeeded or its target was absent,
/// a warning otherwise.
pub proof fn lemma_best_effort_goes_on(c: ControllerView, event: Event)
    requires
        c.status is Awaiting,
        c.plan[c.stage as int].policy == Policy::BestEffort,
        c.plan[c.stage as int].steps.len() == 1,
        c.step == 0,
        c.plan[c.stage as int].steps[0] is Run,
    ensures
        c.advance(event).0 == c.enter(c.stage + 1),
        c.advance(event).1 == seq![
            Note { purpose: c.plan[c.stage as int].purpose, verdict: best_effort_verdict(event) },
        ],
{
}

/// A deployable component is built by the whole pipeline, in one
/// fail-fast stage: pull, compile, removal of the artifact that was
/// installed before, and the copying of the new one, in that order. The
/// stage needs the component's source directory and no other setting.
pub proof fn lemma_build_pipeline(code: Code)
    requires
        code != Code::All,
        code != Code::Me,
    ensures
        update_plan(code) == seq![build_stage(code)],
        build_stage(code).policy == Policy::FailFast,
        build_stage(code).needs == seq![code.backing()->0],
        build_stage(code).steps == seq![
            Step::Run(Command::Pull(code)),
            Step::Run(Command::Compile(code)),
            Step::Run(Command::RemoveInstalled(code)),
            Step::Run(Command::Install(code)),
        ],
{
    assert(update_plan(code) =~= seq![build_stage(code)]);
}

/// The build of a deployable component needs its source directory and
/// nothing else. Where that is set, whatever else is unset, the run of the
/// update starts with the pull in that directory, and each of the four
/// commands of the pipeline can be rendered.
pub proof fn lemma_build_needs_source_only(code: Code, config: Config)
    requires
        code != Code::All,
        code != Code::Me,
        config.has(code.backing()->0),
    ensures
        config.first_missing(build_stage(code).needs) is None,
        rendered(Command::Pull(code), config) is Ok,
        rendered(Command::Compile(code), config) is Ok,
        rendered(Command::RemoveInstalled(code), config) is Ok,
        rendered(Command::Install(code), config) is Ok,
        start(update_plan(code), config).status == StatusView::Awaiting(
            ActionView::Run(rendered(Command::Pull(code), config)->Ok_0),
        ),
{
    reveal_with_fuel(Config::first_missing, 2);
    assert(build_stage(code).needs.drop_first().len() == 0);
    assert(update_plan(code)[0] == build_stage(code));
}

/// The build of a deployable component is not over with the compile. The
/// steps of its stage are numbered from 0: pull, compile, removal, copying.
/// Where the run awaits the compile and the compile succeeds, the run goes
/// on in the same stage without a report: it awaits the removal of the
/// artifact that was installed before, or is over for want of a setting.
/// After that removal it awaits the copying of the new artifact in the same
/// way, and only the success of the copying completes the stage. A failure
/// of any of the three ends the run with the failure of the build.
pub proof fn lemma_build_goes_on_after_compile(c: ControllerView, code: Code)
    requires
        code != Code::All,
        code != Code::Me,
        c.status is Awaiting,
        c.plan[c.stage as int] == build_stage(code),
        c.phase == PhaseView::Begin,
        1 <= c.step <= 3,
    ensures
        c.step < 3 ==> c.advance(Event::Done).1 == Seq::<Note>::empty(),
        c.step == 1 ==> c.advance(Event::Done).0.status == (match rendered(
            Command::RemoveInstalled(code),
            c.config,
        ) {
            Ok(call) => StatusView::Awaiting(ActionView::Run(call)),
            Err(e) => StatusView::Finished(Err(e)),
        }),
        c.step == 2 ==> c.advance(Event::Done).0.status == (match rendered(
            Command::Install(code),
            c.config,
        ) {
            Ok(call) => StatusView::Awaiting(ActionView::Run(call)),
            Err(e) => StatusView::Finished(Err(e)),
        }),
        c.step == 3 ==> c.advance(Event::Done) == (
            c.enter(c.stage + 1),
            seq![Note { purpose: Purpose::Build(code), verdict: Verdict::Completed }],
        ),
        forall|event: Event|
            reply(c.plan[c.stage as int].steps[c.step as int], c.phase, event) is Failed
                ==> #[trigger] c.advance(event).0.status == StatusView::Finished(
                Err(Error::CommandFailed(Purpose::Build(code))),
            ),
{
}

/// The composite is built as distribute, gate, miner, pool, in that order,
/// each in a fail-fast stage of its own.
pub proof fn lemma_update_all_order()
    ensures
        Code::All.expansion(Order::Build) == seq![
            Code::Distribute,
            Code::Gate,
            Code::Miner,
            Code::Pool,
        ],
        update_plan(Code::All) == seq![
            build_stage(Code::Distribute),
            build_stage(Code::Gate),
            build_stage(Code::Miner),
            build_stage(Code::Pool),
        ],
        forall|i: int|
            0 <= i < update_plan(Code::All).len() ==> (#[trigger] update_plan(Code::All)[i]).policy
                == Policy::FailFast,
{
    assert(update_plan(Code::All) =~= seq![
        build_stage(Code::Distribute),
        build_stage(Code::Gate),
        build_stage(Code::Miner),
        build_stage(Code::Pool),
    ]);
}

/// The composite is launched as distribute, pool, gate, miner, in that
/// order, each in a fail-fast stage of its own.
pub proof fn lemma_launch_all_order()
    ensures
        launch_plan(Code::All) == seq![
            launch_stage(Code::Distribute),
            launch_stage(Code::Pool),
            launch_stage(Code::Gate),
            launch_stage(Code::Miner),
        ],
        forall|i: int|
            0 <= i < launch_plan(Code::All).len() ==> (#[trigger] launch_plan(Code::All)[i]).policy
                == Policy::FailFast,
{
    assert(launch_plan(Code::All) =~= seq![
        launch_stage(Code::Distribute),
        launch_stage(Code::Pool),
        launch_stage(Code::Gate),
        launch_stage(Code::Miner),
    ]);
}

/// The order of a restart is fixed: setup, the chain nodes, the middleware,
/// the components in dispatch order, the attachment. Every stage but the
/// teardown of the primary session and the creation of the secondary one is
/// fail-fast.
pub proof fn lemma_restart_order()
    ensures
        restart_plan(true) == seq![
            teardown_stage(Session::Primary),
            creation_stage(Session::Primary),
            creation_stage(Session::Secondary),
            chain_stage(),
            service_stage(),
            launch_stage(Code::Distribute),
            launch_stage(Code::Pool),
            launch_stage(Code::Gate),
            launch_stage(Code::Miner),
            attach_stage(),
        ],
        restart_plan(false) == restart_plan(true).drop_last(),
        forall|i: int|
            3 <= i < 10 ==> (#[trigger] restart_plan(true)[i]).policy == Policy::FailFast,
{
    lemma_launch_all_order();
    assert(restart_plan(true) =~= seq![
        teardown_stage(Session::Primary),
        creation_stage(Session::Primary),
        creation_stage(Session::Secondary),
        chain_stage(),
        service_stage(),
        launch_stage(Code::Distribute),
        launch_stage(Code::Pool),
        launch_stage(Code::Gate),
        launch_stage(Code::Miner),
        attach_stage(),
    ]);
    assert(restart_plan(false) =~= restart_plan(true).drop_last());
}

/// The slot that a step types into, if it types into one.
pub open spec fn slot_of(step: Step) -> Option<SlotRef> {
    match step {
        Step::Run(Command::Send { slot, .. }) => Some(slot),
        Step::Miner(index) => Some(miner_slot(index)),
        _ => None,
    }
}

/// Every slot that a restart dispatches into exists in the topology that
/// setup builds, and setup comes first: the stages that type into slots,
/// from the start of the chain to the launch of the miners, all stand after
/// the three stages of setup.
pub proof fn lemma_dispatch_slots_exist(stage: int, step: int)
    requires
        3 <= stage < 9,
        0 <= step < restart_plan(true)[stage].steps.len(),
    ensures
        restart_plan(true).take(3) == setup_plan(),
        slot_of(restart_plan(true)[stage].steps[step]) matches Some(slot) ==> slot.in_topology(),
{
    lemma_restart_order();
    lemma_miner_steps(MINERS as nat);
    assert(restart_plan(true).take(3) =~= setup_plan());
}

/// Whether a step is a command that destroys `session`.
pub open spec fn destroys(step: Step, session: Session) -> bool {
    step == Step::Run(Command::KillSession(session))
}

/// Setup never destroys the secondary session.
pub proof fn lemma_setup_keeps_secondary(i: int, j: int)
    requires
        0 <= i < setup_plan().len(),
        0 <= j < setup_plan()[i].steps.len(),
    ensures
        !destroys(setup_plan()[i].steps[j], Session::Secondary),
{
    if i == 0 {
    } else if i == 1 {
        lemma_creation_steps_create(Session::Primary, j);
    } else {
        lemma_creation_steps_create(Session::Secondary, j);
    }
}

/// No step of a session's creation destroys a session.
pub proof fn lemma_creation_steps_create(session: Session, j: int)
    requires
        0 <= j < creation_stage(session).steps.len(),
    ensures
        !(creation_stage(session).steps[j] matches Step::Run(Command::KillSession(_))),
{
    lemma_creation_steps(session);
    assert(builds(creation_steps(session)[j], session));
}

/// Whether a step is confined to `session`: it runs a command that names
/// that session, and deletes no data directory.
pub open spec fn confined_to(step: Step, session: Session) -> bool {
    step matches Step::Run(command) && command.session() == Some(session)
        && !command.deletes_data()
}

/// Teardown without the network touches the primary session only: its plan
/// is the one command that destroys that session. Every step of it is
/// confined to the primary session, and none deletes a data directory.
pub proof fn lemma_kill_touches_primary_only(config: Config)
    ensures
        kill_plan(false, config) == seq![teardown_stage(Session::Primary)],
        forall|i: int, j: int|
            0 <= i < kill_plan(false, config).len() && 0 <= j < kill_plan(
                false,
                config,
            )[i].steps.len() ==> #[trigger] kill_plan(false, config)[i].steps[j] == Step::Run(
                Command::KillSession(Session::Primary),
            ) && confined_to(kill_plan(false, config)[i].steps[j], Session::Primary),
{
}

/// Whether a step runs a command that deletes a data directory.
pub open spec fn deletes(step: Step) -> bool {
    step matches Step::Run(command) && command.deletes_data()
}

/// In a teardown with the network the data directories are deleted last,
/// each in a stage of its own: a step deletes a data directory exactly if it
/// stands after the three stages of the sessions and the cache.
pub proof fn lemma_kill_deletes_last(config: Config, stage: int, step: int)
    requires
        0 <= stage < kill_plan(true, config).len(),
        0 <= step < kill_plan(true, config)[stage].steps.len(),
        deletions(config) <= usize::MAX,
    ensures
        deletes(kill_plan(true, config)[stage].steps[step]) <==> stage >= 3,
        stage >= 3 ==> kill_plan(true, config)[stage] == deletion_stage((stage - 3) as nat),
{
}

/// The run of a teardown without the network asks for one action, the
/// destruction of the primary session, and is over with success whatever is
/// reported of it.
pub proof fn lemma_kill_without_network(config: Config, event: Event)
    ensures
        start(kill_plan(false, config), config).status == StatusView::Awaiting(
            ActionView::Run(rendered(Command::KillSession(Session::Primary), config)->Ok_0),
        ),
        start(kill_plan(false, config), config).advance(event).0.status == StatusView::Finished(
            Ok(()),
        ),
{
    assert(kill_plan(false, config)[0].needs.len() == 0);
}

/// The verdict on the flushing of the cache, of which only success is
/// reported.
pub open spec fn flush_notes(event: Event) -> Seq<Note> {
    match event {
        Event::Done => seq![Note { purpose: Purpose::FlushCache, verdict: Verdict::Completed }],
        _ => Seq::empty(),
    }
}

/// A teardown with the network reaches the data directories whatever is
/// reported of the two sessions and of the cache. After three reports the
/// run has reported on both sessions, and on the cache only where the flush
/// succeeded. It then awaits the deletion of the first directory; or it is
/// over, with success where the list is empty, and for want of the list
/// where that is unset.
pub proof fn lemma_kill_reaches_deletions(config: Config, first: Event, second: Event, third: Event)
    ensures
        ({
            let c = start(kill_plan(true, config), config);
            let (reached, notes) = c.run(seq![first, second, third]);
            &&& reached.plan == kill_plan(true, config)
            &&& reached.config == config
            &&& notes == seq![
                Note {
                    purpose: Purpose::Teardown(Session::Primary),
                    verdict: best_effort_verdict(first),
                },
            ] + flush_notes(second) + seq![
                Note {
                    purpose: Purpose::Teardown(Session::Secondary),
                    verdict: best_effort_verdict(third),
                },
            ]
            &&& reached.status == (if !config.has(Setting::NodeData) {
                StatusView::Finished(Err(Error::ConfigurationMissing(Setting::NodeData)))
            } else if deletions(config) == 0 {
                StatusView::Finished(Ok(()))
            } else {
                StatusView::Awaiting(
                    ActionView::Run(rendered(Command::DeleteData(0), config)->Ok_0),
                )
            })
            &&& reached.status is Awaiting ==> reached.stage == 3 && reached.step == 0
        }),
{
    let plan = kill_plan(true, config);
    let c = start(plan, config);
    assert(plan[0] == teardown_stage(Session::Primary));
    assert(plan[1] == flush_stage());
    assert(plan[2] == teardown_stage(Session::Secondary));
    assert(plan[0].needs.len() == 0);
    assert(plan[1].needs.len() == 0);
    assert(plan[2].needs.len() == 0);
    lemma_best_effort_goes_on(c, first);
    let c1 = c.advance(first).0;
    assert(c1.status is Awaiting && c1.stage == 1 && c1.step == 0);
    let c2 = c1.advance(second).0;
    assert(c2 == c1.enter(2));
    assert(c1.advance(second).1 == flush_notes(second));
    assert(c2.status is Awaiting && c2.stage == 2 && c2.step == 0);
    lemma_best_effort_goes_on(c2, third);
    let c3 = c2.advance(third).0;
    if deletions(config) > 0 {
        assert(plan[3] == deletion_stage(0));
        assert(config.first_missing(plan[3].needs) == (if config.has(Setting::NodeData) {
            None
        } else {
            Some(Setting::NodeData)
        })) by {
            reveal_with_fuel(Config::first_missing, 2);
            assert(plan[3].needs.drop_first().len() == 0);
        }
    }
    let events = seq![first, second, third];
    assert(events.drop_first() =~= seq![second, third]);
    assert(events.drop_first().drop_first() =~= seq![third]);
    assert(events.drop_first().drop_first().drop_first() =~= Seq::<Event>::empty());
    reveal_with_fuel(ControllerView::run, 4);
    assert(c.run(events).0 == c3);
    assert(c.run(events).1 =~= c.advance(first).1 + (c1.advance(second).1 + (c2.advance(third).1
        + Seq::<Note>::empty())));
}

/// A run over two batches of events is the run over the first batch
/// followed by the run over the second.
pub proof fn lemma_run_joined(c: ControllerView, first: Seq<Event>, second: Seq<Event>)
    ensures
        c.run(first + second).0 == c.run(first).0.run(second).0,
        c.run(first + second).1 == c.run(first).1 + c.run(first).0.run(second).1,
    decreases first.len(),
{
    if first.len() == 0 {
        assert(first + second =~= second);
        assert(Seq::<Note>::empty() + c.run(second).1 =~= c.run(second).1);
    } else {
        let all = first + second;
        assert(all[0] == first[0]);
        assert(all.drop_first() =~= first.drop_first() + second);
        let next = c.advance(first[0]).0;
        lemma_run_joined(next, first.drop_first(), second);
        assert(c.advance(first[0]).1 + (next.run(first.drop_first()).1 + next.run(
            first.drop_first(),
        ).0.run(second).1) =~= (c.advance(first[0]).1 + next.run(first.drop_first()).1) + next.run(
            first.drop_first(),
        ).0.run(second).1);
    }
}

/// The reports on the deletions, one for each of `events`.
pub open spec fn deletion_notes(events: Seq<Event>) -> Seq<Note> {
    Seq::new(
        events.len(),
        |j: int|
            Note {
                purpose: Purpose::DeleteData(j as usize),
                verdict: best_effort_verdict(events[j]),
            },
    )
}

/// A teardown with the network is best effort from end to end. Whatever is
/// reported of its commands, one after the other, the run attempts every
/// one of them and ends with success: both sessions, the cache, and each
/// data directory on its own. Each directory is reported on once, in order:
/// with information where its deletion succeeded or the directory was
/// reported absent, and with a warning where the deletion failed in any
/// other way.
pub proof fn lemma_kill_all_is_best_effort(config: Config, events: Seq<Event>)
    requires
        config.has(Setting::NodeData),
        deletions(config) <= usize::MAX,
        events.len() == 3 + deletions(config),
    ensures
        ({
            let (last, notes) = start(kill_plan(true, config), config).run(events);
            &&& last.status == StatusView::Finished(Ok(()))
            &&& notes == seq![
                Note {
                    purpose: Purpose::Teardown(Session::Primary),
                    verdict: best_effort_verdict(events[0]),
                },
            ] + flush_notes(events[1]) + seq![
                Note {
                    purpose: Purpose::Teardown(Session::Secondary),
                    verdict: best_effort_verdict(events[2]),
                },
            ] + deletion_notes(events.skip(3))
        }),
{
    let c = start(kill_plan(true, config), config);
    let head = seq![events[0], events[1], events[2]];
    let tail = events.skip(3);
    assert(events =~= head + tail);
    lemma_kill_reaches_deletions(config, events[0], events[1], events[2]);
    lemma_run_joined(c, head, tail);
    let reached = c.run(head).0;
    if deletions(config) == 0 {
        assert(tail =~= Seq::<Event>::empty());
        assert(deletion_notes(tail) =~= Seq::<Note>::empty());
    } else {
        lemma_deletions_are_independent(config, reached, 0, tail);
        assert(reached.run(tail).1 =~= deletion_notes(tail));
    }
}

/// The data directories are deleted independently of one another. From the
/// deletion of directory `index` on, one report for each directory that
/// is left takes the run to a successful end, whatever the reports say.
/// Each directory is reported on once, in order: information where its
/// deletion succeeded or the directory was reported absent, a warning where
/// the deletion failed in any other way.
pub proof fn lemma_deletions_are_independent(
    config: Config,
    c: ControllerView,
    index: nat,
    events: Seq<Event>,
)
    requires
        config.has(Setting::NodeData),
        c.plan == kill_plan(true, config),
        c.config == config,
        c.status is Awaiting,
        c.step == 0,
        c.stage == 3 + index,
        index < deletions(config) <= usize::MAX,
        events.len() == deletions(config) - index,
    ensures
        c.run(events).0.status == StatusView::Finished(Ok(())),
        c.run(events).1.len() == events.len(),
        forall|j: int|
            0 <= j < events.len() ==> #[trigger] c.run(events).1[j] == (Note {
                purpose: Purpose::DeleteData((index + j) as usize),
                verdict: best_effort_verdict(events[j]),
            }),
    decreases events.len(),
{
    let plan = kill_plan(true, config);
    let count = deletions(config);
    assert(plan[3 + index as int] == deletion_stage(index));
    let event = events[0];
    let rest = events.drop_first();
    lemma_best_effort_goes_on(c, event);
    let next = c.advance(event).0;
    let note = Note {
        purpose: Purpose::DeleteData(index as usize),
        verdict: best_effort_verdict(event),
    };
    assert(c.advance(event).1 == seq![note]);
    if index + 1 == count {
        assert(rest =~= Seq::<Event>::empty());
        assert(next.status == StatusView::Finished(Ok(())));
        assert(next.run(rest) == (next, Seq::<Note>::empty()));
        assert(c.run(events).1 =~= seq![note]);
    } else {
        assert(plan[4 + index as int] == deletion_stage((index + 1) as nat));
        assert(config.first_missing(plan[4 + index as int].needs) is None) by {
            reveal_with_fuel(Config::first_missing, 2);
            assert(plan[4 + index as int].needs.drop_first().len() == 0);
        }
        assert(next == c.at((4 + index) as nat, 0, PhaseView::Begin));
        assert(rendered(Command::DeleteData((index + 1) as usize), config) is Ok);
        lemma_deletions_are_independent(config, next, (index + 1) as nat, rest);
        assert(c.run(events).1 =~= seq![note] + next.run(rest).1);
        assert forall|j: int| 0 <= j < events.len() implies #[trigger] c.run(events).1[j] == (Note {
            purpose: Purpose::DeleteData((index + j) as usize),
            verdict: best_effort_verdict(events[j]),
        }) by {
            if j > 0 {
                assert(c.run(events).1[j] == next.run(rest).1[j - 1]);
                assert(events[j] == rest[j - 1]);
            }
        }
    }
}

/// Whether a stage lacks nothing once it is entered: where each of its
/// needs is set under `config`, every action of every step of it can be
/// rendered.
pub open spec fn supplied(stage: StageView, config: Config) -> bool {
    config.first_missing(stage.needs) is None ==> forall|j: int, phase: PhaseView|
        #![trigger action_at(stage.steps[j], phase, config)]
        0 <= j < stage.steps.len() ==> action_at(stage.steps[j], phase, config) is Ok
}

/// The creation of a session lacks nothing once it is entered.
pub proof fn lemma_creation_supplied(session: Session, config: Config)
    ensures
        supplied(creation_stage(session), config),
{
    let stage = creation_stage(session);
    lemma_creation_steps(session);
    lemma_first_missing(config, stage.needs);
    if config.first_missing(stage.needs) is None {
        assert forall|j: int, phase: PhaseView|
            #![trigger action_at(stage.steps[j], phase, config)]
            0 <= j < stage.steps.len() implies action_at(stage.steps[j], phase, config) is Ok by {
            assert(builds(creation_steps(session)[j], session));
            if session == Session::Secondary {
                assert(config.has(stage.needs[0]));
            }
        }
    }
}

/// The launch of a deployable component lacks nothing once it is entered.
pub proof fn lemma_launch_supplied(code: Code, config: Config)
    requires
        code != Code::All,
        code != Code::Me,
    ensures
        supplied(launch_stage(code), config),
{
    let stage = launch_stage(code);
    lemma_first_missing(config, stage.needs);
    lemma_miner_steps(MINERS as nat);
    if config.first_missing(stage.needs) is None {
        assert(config.has(stage.needs[0]));
        if code == Code::Miner {
            assert(config.has(stage.needs[1]));
        }
    }
}

/// The build of a component lacks nothing once it is entered.
pub proof fn lemma_build_supplied(code: Code, config: Config)
    requires
        code != Code::All,
    ensures
        supplied(build_stage(code), config),
{
    let stage = build_stage(code);
    lemma_first_missing(config, stage.needs);
    if config.first_missing(stage.needs) is None {
        assert(config.has(stage.needs[0]));
        if code == Code::Me {
            assert(config.has(stage.needs[1]));
        }
    }
}

/// Every stage of an update lacks nothing once it is entered.
pub proof fn lemma_updates_supplied(codes: Seq<Code>, config: Config)
    ensures
        forall|k: int|
            0 <= k < updates_plan(codes).len() ==> supplied(
                #[trigger] updates_plan(codes)[k],
                config,
            ),
    decreases codes.len(),
{
    if codes.len() != 0 {
        lemma_updates_supplied(codes.drop_last(), config);
        let before = updates_plan(codes.drop_last());
        assert forall|k: int| 0 <= k < updates_plan(codes).len() implies supplied(
            #[trigger] updates_plan(codes)[k],
            config,
        ) by {
            if k >= before.len() {
                let code = codes.last().expansion(Order::Build)[k - before.len()];
                assert(updates_plan(codes)[k] == build_stage(code));
                assert(code != Code::All);
                lemma_build_supplied(code, config);
            } else {
                assert(updates_plan(codes)[k] == before[k]);
            }
        }
    }
}

/// Missing configuration is found out at the door. In the plan of every
/// operation, a stage whose needs are all set lacks nothing: the run never
/// stops in the middle of a stage for want of a setting.
pub proof fn lemma_stages_supplied(operation: Operation, config: Config, k: int)
    requires
        0 <= k < operation_plan(operation, config).len(),
    ensures
        supplied(operation_plan(operation, config)[k], config),
{
    let plan = operation_plan(operation, config);
    lemma_creation_supplied(Session::Primary, config);
    lemma_creation_supplied(Session::Secondary, config);
    match operation {
        Operation::Restart => {
            lemma_restart_order();
            lemma_first_missing(config, chain_stage().needs);
            if config.first_missing(chain_stage().needs) is None {
                assert(config.has(chain_stage().needs[0]));
                assert(config.has(chain_stage().needs[1]));
                assert(config.has(chain_stage().needs[2]));
            }
            lemma_launch_supplied(Code::Distribute, config);
            lemma_launch_supplied(Code::Pool, config);
            lemma_launch_supplied(Code::Gate, config);
            lemma_launch_supplied(Code::Miner, config);
        },
        Operation::SetTopology => {},
        Operation::Kill { network } => {
            if network && k >= 3 {
                let index = (k - 3) as nat;
                assert(plan[k] == deletion_stage(index));
                lemma_first_missing(config, plan[k].needs);
                if config.first_missing(plan[k].needs) is None {
                    assert(config.has(plan[k].needs[0]));
                }
            }
        },
        Operation::Update(codes) => {
            lemma_updates_supplied(codes@, config);
        },
    }
}

} // verus!
