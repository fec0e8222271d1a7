use pool_setup::command::{Command, Text};
use pool_setup::component::Code;
use pool_setup::config::{Config, Setting};
use pool_setup::controller::{check_plan, Event};
use pool_setup::plan::{
    create, destroy, join, kill, kill_scope, plan_for, restart, run_chain, run_in_tmux,
    run_service, setup_tmux, update, update_each, window_commands, Delay, Operation, Policy,
    Purpose, Stage, Step, MINERS, NODE_PANES,
};
use pool_setup::text::contains;
use pool_setup::topology::{Axis, Session, SlotRef, Split, Window};

fn run(command: Command) -> Step {
    Step::Run(command)
}

fn split(axis: Axis, percent: u16) -> Step {
    run(Command::SplitPane { axis, percent })
}

fn send(session: Session, window: Window, pane: u8, text: Text) -> Step {
    run(Command::Send { slot: SlotRef { session, window, pane }, text })
}

#[test]
fn window_commands_select_a_parent_that_is_not_active() {
    let splits = vec![
        Split { parent: 0, axis: Axis::Horizontal, percent: 50 },
        Split { parent: 1, axis: Axis::Vertical, percent: 70 },
        Split { parent: 0, axis: Axis::Vertical, percent: 50 },
    ];
    assert_eq!(
        window_commands(Session::Primary, 0, Window::Pool, &splits),
        vec![
            run(Command::RenameWindow {
                session: Session::Primary,
                index: 0,
                window: Window::Pool
            }),
            split(Axis::Horizontal, 50),
            split(Axis::Vertical, 70),
            run(Command::SelectPane(0)),
            split(Axis::Vertical, 50),
        ]
    );
}

#[test]
fn window_commands_create_every_window_but_the_first() {
    assert_eq!(
        window_commands(Session::Primary, 1, Window::Miner, &Vec::new()),
        vec![run(Command::NewWindow {
            session: Session::Primary,
            index: 1,
            window: Window::Miner
        })]
    );
    let chain = vec![
        Split { parent: 0, axis: Axis::Vertical, percent: 10 },
        Split { parent: 0, axis: Axis::Vertical, percent: 20 },
        Split { parent: 2, axis: Axis::Horizontal, percent: 30 },
    ];
    assert_eq!(
        window_commands(Session::Secondary, 3, Window::Node, &chain),
        vec![
            run(Command::NewWindow { session: Session::Secondary, index: 3, window: Window::Node }),
            split(Axis::Vertical, 10),
            run(Command::SelectPane(0)),
            split(Axis::Vertical, 20),
            split(Axis::Horizontal, 30),
        ]
    );
}

#[test]
fn the_declared_layouts_are_the_ones_of_the_topology() {
    assert_eq!(Window::Pool.splits().len(), 3);
    assert_eq!(Window::Miner.splits().len(), 3);
    assert_eq!(
        Window::Service.splits(),
        vec![Split { parent: 0, axis: Axis::Horizontal, percent: 50 }]
    );
    assert_eq!(
        Window::Node.splits(),
        vec![
            Split { parent: 0, axis: Axis::Horizontal, percent: 50 },
            Split { parent: 1, axis: Axis::Vertical, percent: 100 },
            Split { parent: 2, axis: Axis::Vertical, percent: 300 },
        ]
    );
    assert_eq!(
        Session::Primary.window_list(),
        vec![Window::Pool, Window::Miner, Window::Service]
    );
    assert_eq!(Session::Secondary.window_list(), vec![Window::Node]);
    assert_eq!(NODE_PANES as usize, Window::Node.splits().len() + 1);
    assert_eq!(MINERS as usize, Code::Miner.target_slots().len());
}

#[test]
fn setup_has_a_stage_for_teardown_and_one_for_each_session() {
    let plan = setup_tmux();
    assert_eq!(plan.len(), 3);
    assert_eq!(plan[0], destroy(Session::Primary));
    assert_eq!(plan[1], create(Session::Primary));
    assert_eq!(plan[2], create(Session::Secondary));
    assert_eq!(plan[0].policy, Policy::BestEffort);
    assert_eq!(plan[0].steps, vec![run(Command::KillSession(Session::Primary))]);
    assert_eq!(plan[1].policy, Policy::FailFast);
    assert_eq!(plan[1].purpose, Purpose::Create(Session::Primary));
    assert!(plan[1].needs.is_empty());
    assert_eq!(plan[1].steps.len(), 13);
    assert_eq!(plan[2].policy, Policy::CreateOnce);
    assert_eq!(plan[2].needs, vec![Setting::IronDir]);
    assert_eq!(plan[2].steps.len(), 13);
    assert_eq!(plan[2].steps[0], run(Command::NewSession(Session::Secondary)));
    assert_eq!(
        plan[2].steps[5],
        send(Session::Secondary, Window::Node, 0, Text::EnterDir(Setting::IronDir))
    );
    assert_eq!(plan[2].steps[12], send(Session::Secondary, Window::Node, 3, Text::Clear));
}

#[test]
fn setup_never_destroys_the_secondary_session() {
    for stage in setup_tmux() {
        for step in stage.steps {
            assert_ne!(step, run(Command::KillSession(Session::Secondary)));
        }
    }
}

#[test]
fn the_chain_starts_each_node_in_its_pane() {
    let plan = run_chain();
    assert_eq!(
        plan,
        vec![Stage {
            purpose: Purpose::Chain,
            policy: Policy::FailFast,
            needs: vec![Setting::Node1, Setting::Node2, Setting::Node3],
            steps: vec![
                send(Session::Secondary, Window::Node, 1, Text::Verbatim(Setting::Node1)),
                send(Session::Secondary, Window::Node, 2, Text::Verbatim(Setting::Node2)),
                send(Session::Secondary, Window::Node, 3, Text::Verbatim(Setting::Node3)),
            ],
        }]
    );
}

#[test]
fn the_middleware_runs_in_the_second_service_pane() {
    assert_eq!(
        run_service(),
        vec![Stage {
            purpose: Purpose::Middleware,
            policy: Policy::FailFast,
            needs: Vec::new(),
            steps: vec![send(Session::Primary, Window::Service, 1, Text::Middleware)],
        }]
    );
}

#[test]
fn a_service_is_entered_built_and_run_in_its_slot() {
    for (code, pane, dir) in [
        (Code::Pool, 0, Setting::PoolDir),
        (Code::Distribute, 1, Setting::DistributeDir),
        (Code::Gate, 2, Setting::GateDir),
    ] {
        assert_eq!(
            run_in_tmux(code),
            vec![Stage {
                purpose: Purpose::Launch(code),
                policy: Policy::FailFast,
                needs: vec![dir],
                steps: vec![
                    send(Session::Primary, Window::Pool, pane, Text::EnterDir(dir)),
                    send(Session::Primary, Window::Pool, pane, Text::Build),
                    send(Session::Primary, Window::Pool, pane, Text::Binary(code)),
                ],
            }]
        );
    }
}

#[test]
fn three_miners_are_provisioned_one_after_the_other() {
    assert_eq!(
        run_in_tmux(Code::Miner),
        vec![Stage {
            purpose: Purpose::Launch(Code::Miner),
            policy: Policy::FailFast,
            needs: vec![Setting::MinerCmd, Setting::IronDir],
            steps: vec![Step::Miner(0), Step::Miner(1), Step::Miner(2)],
        }]
    );
}

#[test]
fn launching_all_dispatches_in_registry_order() {
    let all = run_in_tmux(Code::All);
    let mut expected = run_in_tmux(Code::Distribute);
    expected.extend(run_in_tmux(Code::Pool));
    expected.extend(run_in_tmux(Code::Gate));
    expected.extend(run_in_tmux(Code::Miner));
    assert_eq!(all, expected);
}

#[test]
fn a_component_is_built_by_pulling_and_compiling() {
    for (code, dir) in [
        (Code::Pool, Setting::PoolDir),
        (Code::Gate, Setting::GateDir),
        (Code::Miner, Setting::MinerDir),
        (Code::Distribute, Setting::DistributeDir),
    ] {
        assert_eq!(
            update(&code),
            vec![Stage {
                purpose: Purpose::Build(code),
                policy: Policy::FailFast,
                needs: vec![dir],
                steps: vec![
                    run(Command::Pull(code)),
                    run(Command::Compile(code)),
                    run(Command::RemoveInstalled(code)),
                    run(Command::Install(code)),
                ],
            }]
        );
    }
}

#[test]
fn the_tool_itself_is_built_and_installed() {
    assert_eq!(
        update(&Code::Me),
        vec![Stage {
            purpose: Purpose::Build(Code::Me),
            policy: Policy::FailFast,
            needs: vec![Setting::SelfDir, Setting::Home],
            steps: vec![
                run(Command::Pull(Code::Me)),
                run(Command::Compile(Code::Me)),
                run(Command::InstallSelf),
                run(Command::RemoveSettings),
                run(Command::CopySettings),
            ],
        }]
    );
}

#[test]
fn updating_all_builds_distribute_gate_miner_pool() {
    let all = update(&Code::All);
    let purposes: Vec<Purpose> = all.iter().map(|s| s.purpose).collect();
    assert_eq!(
        purposes,
        vec![
            Purpose::Build(Code::Distribute),
            Purpose::Build(Code::Gate),
            Purpose::Build(Code::Miner),
            Purpose::Build(Code::Pool),
        ]
    );
    assert!(all.iter().all(|s| s.policy == Policy::FailFast));
    assert!(all.iter().all(|s| s.purpose != Purpose::Build(Code::Me)));
}

#[test]
fn update_each_joins_the_plans_in_the_order_requested() {
    let plan = update_each(&vec![Code::Me, Code::All, Code::Gate]);
    let mut expected = update(&Code::Me);
    expected.extend(update(&Code::All));
    expected.extend(update(&Code::Gate));
    assert_eq!(plan, expected);
    assert!(update_each(&Vec::new()).is_empty());
}

#[test]
fn kill_without_the_network_plans_one_command() {
    let mut config = Config::new();
    config.set(Setting::NodeData, "/data/a /data/b".to_string());
    assert_eq!(kill(false, &config), vec![destroy(Session::Primary)]);
    assert_eq!(kill(false, &Config::new()), vec![destroy(Session::Primary)]);
}

#[test]
fn kill_with_the_network_plans_a_stage_for_each_directory() {
    let mut config = Config::new();
    config.set(Setting::NodeData, " /data/a /data/b\n/data/c ".to_string());
    let plan = kill(true, &config);
    assert_eq!(plan.len(), 6);
    assert_eq!(plan[0], destroy(Session::Primary));
    assert_eq!(
        plan[1],
        Stage {
            purpose: Purpose::FlushCache,
            policy: Policy::Ignore,
            needs: Vec::new(),
            steps: vec![run(Command::FlushCache)],
        }
    );
    assert_eq!(plan[2], destroy(Session::Secondary));
    for i in 0..3 {
        assert_eq!(
            plan[3 + i],
            Stage {
                purpose: Purpose::DeleteData(i),
                policy: Policy::BestEffort,
                needs: vec![Setting::NodeData],
                steps: vec![run(Command::DeleteData(i))],
            }
        );
    }
}

#[test]
fn kill_scope_is_the_token_all() {
    assert!(kill_scope(Some("all")));
    assert!(!kill_scope(Some("node")));
    assert!(!kill_scope(Some("All")));
    assert!(!kill_scope(Some("")));
    assert!(!kill_scope(None));
}

#[test]
fn restart_joins_setup_chain_middleware_launch_and_attach() {
    let mut expected = setup_tmux();
    expected.extend(run_chain());
    expected.extend(run_service());
    expected.extend(run_in_tmux(Code::All));
    assert_eq!(restart(false), expected);
    expected.push(Stage {
        purpose: Purpose::Attach,
        policy: Policy::FailFast,
        needs: Vec::new(),
        steps: vec![
            Step::Pause(Delay::Attach),
            run(Command::SelectWindow { session: Session::Primary, window: Window::Pool }),
            run(Command::Attach(Session::Primary)),
        ],
    });
    assert_eq!(restart(true), expected);
}

#[test]
fn plan_for_maps_each_operation_to_its_plan() {
    let mut config = Config::new();
    config.set(Setting::NodeData, "/data/a".to_string());
    assert_eq!(plan_for(&Operation::Restart, &config), restart(true));
    assert_eq!(plan_for(&Operation::SetTopology, &config), setup_tmux());
    assert_eq!(plan_for(&Operation::Kill { network: true }, &config), kill(true, &config));
    assert_eq!(plan_for(&Operation::Kill { network: false }, &config), kill(false, &config));
    assert_eq!(
        plan_for(&Operation::Update(vec![Code::Pool, Code::Me]), &config),
        update_each(&vec![Code::Pool, Code::Me])
    );
}

#[test]
fn join_puts_the_first_plan_first() {
    let joined = join(run_chain(), run_service());
    assert_eq!(joined.len(), 2);
    assert_eq!(joined[0].purpose, Purpose::Chain);
    assert_eq!(joined[1].purpose, Purpose::Middleware);
}

#[test]
fn every_plan_of_an_operation_has_a_step_in_each_stage() {
    let config = Config::new();
    assert!(check_plan(&restart(true)));
    assert!(check_plan(&kill(true, &config)));
    assert!(check_plan(&update_each(&vec![Code::All, Code::Me])));
    assert!(check_plan(&Vec::new()));
}

#[test]
fn contains_finds_a_word_anywhere_in_a_text() {
    assert!(contains("can't find session: fish", "can't find session"));
    assert!(contains("abc", "abc"));
    assert!(contains("abc", ""));
    assert!(contains("", ""));
    assert!(contains("xxabc", "abc"));
    assert!(contains("aab", "ab"));
    assert!(!contains("abc", "abcd"));
    assert!(!contains("abc", "ac"));
    assert!(!contains("", "a"));
}

#[test]
fn a_failure_is_read_from_the_complaint() {
    assert_eq!(Event::from_failure("can't find session: fish\n"), Event::Absent);
    assert_eq!(Event::from_failure("no server running on /tmp/tmux-1000/default"), Event::Absent);
    assert_eq!(
        Event::from_failure("error connecting to /tmp/tmux-0/default (No such file or directory)"),
        Event::Absent
    );
    assert_eq!(Event::from_failure("duplicate session: node"), Event::Exists);
    assert_eq!(Event::from_failure("permission denied"), Event::Failed);
    assert_eq!(Event::from_failure(""), Event::Failed);
}
