use pool_setup::component::Code;
use pool_setup::config::{Config, Setting};
use pool_setup::controller::{Controller, Event, Level, Note, Verdict};
use pool_setup::error::Error;
use pool_setup::plan::{restart, Operation, Policy, Purpose, Stage, Step};
use pool_setup::command::Command;
use pool_setup::render::Action;
use pool_setup::topology::Session;
use std::collections::BTreeMap;

fn full_config() -> Config {
    let mut config = Config::new();
    config.set(Setting::PoolDir, "/src/pool/app".to_string());
    config.set(Setting::GateDir, "/src/gate".to_string());
    config.set(Setting::MinerDir, "/src/miner".to_string());
    config.set(Setting::DistributeDir, "/src/coin".to_string());
    config.set(Setting::SelfDir, "/src/setup".to_string());
    config.set(Setting::Home, "/home/op".to_string());
    config.set(Setting::IronDir, "/src/iron".to_string());
    config.set(Setting::MinerCmd, "miner start".to_string());
    config.set(Setting::Node1, "node one".to_string());
    config.set(Setting::Node2, "node two".to_string());
    config.set(Setting::Node3, "node three".to_string());
    config.set(Setting::NodeData, "/data/a /data/b /data/c".to_string());
    config.install_dir = "/opt/pool/bin".to_string();
    config
}

fn line(action: &Action) -> String {
    match action {
        Action::Run(call) | Action::Capture(call) => {
            let mut words = vec![call.program.clone()];
            words.extend(call.args.iter().cloned());
            match &call.dir {
                Some(dir) => format!("[{}] {}", dir, words.join(" ")),
                None => words.join(" "),
            }
        }
        Action::ReadClock => "clock".to_string(),
        Action::Sleep(millis) => format!("sleep {}", millis),
    }
}

struct Trace {
    lines: Vec<String>,
    notes: Vec<Note>,
    result: Result<(), Error>,
}

fn drive(mut controller: Controller, world: &mut dyn FnMut(&Action) -> Event) -> Trace {
    let mut lines = Vec::new();
    let mut notes = Vec::new();
    let mut turns = 0;
    loop {
        let event = match controller.pending() {
            Some(action) => {
                lines.push(line(action));
                world(action)
            }
            None => break,
        };
        notes.extend(controller.advance(event));
        turns += 1;
        assert!(turns < 10_000);
    }
    Trace { lines, notes, result: controller.outcome().unwrap() }
}

fn obliging(action: &Action) -> Event {
    match action {
        Action::Run(_) | Action::Sleep(_) => Event::Done,
        Action::ReadClock => Event::Clock(1_700_000_017),
        Action::Capture(_) => Event::Output("created account with address abc123 ok".to_string()),
    }
}

fn setup_lines() -> Vec<&'static str> {
    vec![
        "tmux kill-session -t fish",
        "tmux new-session -d -s fish",
        "tmux rename-window -t fish:0 pool",
        "tmux splitw -h -p 50",
        "tmux splitw -v -p 70",
        "tmux selectp -t 0",
        "tmux splitw -v -p 50",
        "tmux new-window -t fish:1 -n miner",
        "tmux splitw -h -p 50",
        "tmux splitw -v -p 50",
        "tmux selectp -t 0",
        "tmux splitw -v -p 50",
        "tmux new-window -t fish:2 -n service",
        "tmux splitw -h -p 50",
        "tmux new-session -d -s node",
        "tmux rename-window -t node:0 node",
        "tmux splitw -h -p 50",
        "tmux splitw -v -p 100",
        "tmux splitw -v -p 300",
        "tmux send-keys -t node:node.0 cd /src/iron C-m",
        "tmux send-keys -t node:node.0 clear C-m",
        "tmux send-keys -t node:node.1 cd /src/iron C-m",
        "tmux send-keys -t node:node.1 clear C-m",
        "tmux send-keys -t node:node.2 cd /src/iron C-m",
        "tmux send-keys -t node:node.2 clear C-m",
        "tmux send-keys -t node:node.3 cd /src/iron C-m",
        "tmux send-keys -t node:node.3 clear C-m",
    ]
}

fn chain_lines() -> Vec<&'static str> {
    vec![
        "tmux send-keys -t node:node.1 node one C-m",
        "tmux send-keys -t node:node.2 node two C-m",
        "tmux send-keys -t node:node.3 node three C-m",
    ]
}

fn service_lines() -> Vec<&'static str> {
    vec!["tmux send-keys -t fish:service.1 redis-server C-m"]
}

fn launch_lines() -> Vec<String> {
    let suffix = 1_700_000_017u64 % 256;
    let mut lines: Vec<String> = vec![
        "tmux send-keys -t fish:pool.1 cd /src/coin C-m",
        "tmux send-keys -t fish:pool.1 cargo build --release C-m",
        "tmux send-keys -t fish:pool.1 /src/coin/target/release/coin-distribution C-m",
        "tmux send-keys -t fish:pool.0 cd /src/pool/app C-m",
        "tmux send-keys -t fish:pool.0 cargo build --release C-m",
        "tmux send-keys -t fish:pool.0 /src/pool/app/../target/release/fish-pool C-m",
        "tmux send-keys -t fish:pool.2 cd /src/gate C-m",
        "tmux send-keys -t fish:pool.2 cargo build --release C-m",
        "tmux send-keys -t fish:pool.2 /src/gate/../target/release/pool-gate C-m",
    ]
    .into_iter()
    .map(|s| s.to_string())
    .collect();
    for i in 0..3 {
        lines.push("clock".to_string());
        lines.push("sleep 12".to_string());
        lines.push(format!("[/src/iron] yarn start accounts:create miner-{}-{}", i, suffix));
        lines.push(format!("tmux send-keys -t fish:miner.{} miner start -a abc123 C-m", i));
    }
    lines
}

fn attach_lines() -> Vec<&'static str> {
    vec!["sleep 1000", "tmux select-window -t fish:pool", "tmux a -t fish"]
}

fn owned(lines: Vec<&'static str>) -> Vec<String> {
    lines.into_iter().map(|s| s.to_string()).collect()
}

#[test]
fn restart_takes_its_steps_in_the_fixed_order() {
    let controller = Controller::for_operation(&Operation::Restart, full_config());
    let trace = drive(controller, &mut obliging);
    let mut expected = owned(setup_lines());
    expected.extend(owned(chain_lines()));
    expected.extend(owned(service_lines()));
    expected.extend(launch_lines());
    expected.extend(owned(attach_lines()));
    assert_eq!(trace.lines, expected);
    assert_eq!(trace.result, Ok(()));
    let purposes: Vec<Purpose> = trace.notes.iter().map(|n| n.purpose).collect();
    assert_eq!(
        purposes,
        vec![
            Purpose::Teardown(Session::Primary),
            Purpose::Create(Session::Primary),
            Purpose::Create(Session::Secondary),
            Purpose::Chain,
            Purpose::Middleware,
            Purpose::Launch(Code::Distribute),
            Purpose::Launch(Code::Pool),
            Purpose::Launch(Code::Gate),
            Purpose::Launch(Code::Miner),
            Purpose::Attach,
        ]
    );
    assert!(trace.notes.iter().all(|n| n.verdict == Verdict::Completed));
}

#[test]
fn restart_without_attaching_stops_after_the_launch() {
    let controller = Controller::new(restart(false), full_config()).unwrap();
    let trace = drive(controller, &mut obliging);
    assert_eq!(
        trace.lines.last().unwrap(),
        "tmux send-keys -t fish:miner.2 miner start -a abc123 C-m"
    );
    assert_eq!(trace.result, Ok(()));
}

#[test]
fn set_topology_builds_the_layout_only() {
    let controller = Controller::for_operation(&Operation::SetTopology, full_config());
    let trace = drive(controller, &mut obliging);
    assert_eq!(trace.lines, owned(setup_lines()));
    assert_eq!(trace.result, Ok(()));
}

#[test]
fn setup_passes_over_the_absence_of_the_primary_session() {
    let controller = Controller::for_operation(&Operation::SetTopology, full_config());
    let mut world = |action: &Action| {
        if line(action) == "tmux kill-session -t fish" {
            Event::Absent
        } else {
            Event::Done
        }
    };
    let trace = drive(controller, &mut world);
    assert_eq!(trace.lines, owned(setup_lines()));
    assert_eq!(trace.result, Ok(()));
    assert_eq!(
        trace.notes[0],
        Note { purpose: Purpose::Teardown(Session::Primary), verdict: Verdict::Absent }
    );
    assert_eq!(trace.notes[0].verdict.level(), Level::Info);
}

#[test]
fn setup_preserves_a_secondary_session_that_exists() {
    let controller = Controller::for_operation(&Operation::SetTopology, full_config());
    let mut world = |action: &Action| {
        if line(action) == "tmux new-session -d -s node" {
            Event::Exists
        } else {
            Event::Done
        }
    };
    let trace = drive(controller, &mut world);
    assert_eq!(trace.lines, owned(setup_lines()[..15].to_vec()));
    assert_eq!(trace.result, Ok(()));
    let last = trace.notes.last().unwrap();
    assert_eq!(
        *last,
        Note { purpose: Purpose::Create(Session::Secondary), verdict: Verdict::Preserved }
    );
    assert_eq!(last.verdict.level(), Level::Warning);
}

#[test]
fn setup_fails_when_the_secondary_session_cannot_be_created() {
    let controller = Controller::for_operation(&Operation::SetTopology, full_config());
    let mut world = |action: &Action| {
        if line(action) == "tmux new-session -d -s node" {
            Event::Failed
        } else {
            Event::Done
        }
    };
    let trace = drive(controller, &mut world);
    assert_eq!(trace.lines.len(), 15);
    assert_eq!(trace.result, Err(Error::CommandFailed(Purpose::Create(Session::Secondary))));
}

#[test]
fn setup_fails_fast_when_the_primary_session_cannot_be_built() {
    let controller = Controller::for_operation(&Operation::SetTopology, full_config());
    let mut world = |action: &Action| {
        if line(action) == "tmux splitw -v -p 70" {
            Event::Failed
        } else {
            Event::Done
        }
    };
    let trace = drive(controller, &mut world);
    assert_eq!(trace.lines, owned(setup_lines()[..5].to_vec()));
    assert_eq!(trace.result, Err(Error::CommandFailed(Purpose::Create(Session::Primary))));
}

#[test]
fn setup_needs_the_chain_directory_before_it_touches_the_secondary_session() {
    let mut config = full_config();
    config.iron_dir = None;
    let controller = Controller::for_operation(&Operation::SetTopology, config);
    let trace = drive(controller, &mut obliging);
    assert_eq!(trace.lines, owned(setup_lines()[..14].to_vec()));
    assert_eq!(trace.result, Err(Error::ConfigurationMissing(Setting::IronDir)));
}

#[test]
fn kill_without_scope_touches_only_the_primary_session() {
    let controller = Controller::for_operation(&Operation::Kill { network: false }, full_config());
    let trace = drive(controller, &mut obliging);
    assert_eq!(trace.lines, vec!["tmux kill-session -t fish".to_string()]);
    assert!(trace.lines.iter().all(|l| !l.starts_with("rm")));
    assert_eq!(trace.result, Ok(()));
    assert_eq!(
        trace.notes,
        vec![Note { purpose: Purpose::Teardown(Session::Primary), verdict: Verdict::Completed }]
    );
}

#[test]
fn kill_without_scope_needs_no_configuration() {
    let controller = Controller::for_operation(&Operation::Kill { network: false }, Config::new());
    let mut world = |_: &Action| Event::Absent;
    let trace = drive(controller, &mut world);
    assert_eq!(trace.lines, vec!["tmux kill-session -t fish".to_string()]);
    assert_eq!(trace.result, Ok(()));
    assert_eq!(
        trace.notes,
        vec![Note { purpose: Purpose::Teardown(Session::Primary), verdict: Verdict::Absent }]
    );
}

#[test]
fn kill_all_attempts_every_directory_when_one_deletion_fails() {
    let controller = Controller::for_operation(&Operation::Kill { network: true }, full_config());
    let mut world = |action: &Action| {
        if line(action) == "rm -rf /data/b" {
            Event::Failed
        } else {
            Event::Done
        }
    };
    let trace = drive(controller, &mut world);
    assert_eq!(
        trace.lines,
        vec![
            "tmux kill-session -t fish",
            "redis-cli flushall",
            "tmux kill-session -t node",
            "rm -rf /data/a",
            "rm -rf /data/b",
            "rm -rf /data/c",
        ]
    );
    assert_eq!(trace.result, Ok(()));
    let warnings: Vec<&Note> =
        trace.notes.iter().filter(|n| n.verdict.level() == Level::Warning).collect();
    assert_eq!(warnings, vec![&Note { purpose: Purpose::DeleteData(1), verdict: Verdict::Failed }]);
    let deleted: Vec<&Note> = trace
        .notes
        .iter()
        .filter(|n| matches!(n.purpose, Purpose::DeleteData(_)) && n.verdict == Verdict::Completed)
        .collect();
    assert_eq!(
        deleted,
        vec![
            &Note { purpose: Purpose::DeleteData(0), verdict: Verdict::Completed },
            &Note { purpose: Purpose::DeleteData(2), verdict: Verdict::Completed },
        ]
    );
}

#[test]
fn kill_all_goes_on_whatever_fails() {
    let controller = Controller::for_operation(&Operation::Kill { network: true }, full_config());
    let mut world = |_: &Action| Event::Failed;
    let trace = drive(controller, &mut world);
    assert_eq!(trace.lines.len(), 6);
    assert_eq!(trace.result, Ok(()));
    assert_eq!(
        trace.notes,
        vec![
            Note { purpose: Purpose::Teardown(Session::Primary), verdict: Verdict::Failed },
            Note { purpose: Purpose::Teardown(Session::Secondary), verdict: Verdict::Failed },
            Note { purpose: Purpose::DeleteData(0), verdict: Verdict::Failed },
            Note { purpose: Purpose::DeleteData(1), verdict: Verdict::Failed },
            Note { purpose: Purpose::DeleteData(2), verdict: Verdict::Failed },
        ]
    );
}

#[test]
fn kill_all_without_a_directory_list_fails_after_the_sessions() {
    let mut config = full_config();
    config.node_data = None;
    let controller = Controller::for_operation(&Operation::Kill { network: true }, config);
    let trace = drive(controller, &mut obliging);
    assert_eq!(
        trace.lines,
        vec!["tmux kill-session -t fish", "redis-cli flushall", "tmux kill-session -t node"]
    );
    assert_eq!(trace.result, Err(Error::ConfigurationMissing(Setting::NodeData)));
}

#[test]
fn kill_all_with_an_empty_directory_list_deletes_nothing() {
    let mut config = full_config();
    config.set(Setting::NodeData, "  ".to_string());
    let controller = Controller::for_operation(&Operation::Kill { network: true }, config);
    let trace = drive(controller, &mut obliging);
    assert_eq!(trace.lines.len(), 3);
    assert_eq!(trace.result, Ok(()));
}

#[test]
fn update_all_builds_in_the_fixed_order() {
    let controller =
        Controller::for_operation(&Operation::Update(vec![Code::All]), full_config());
    let trace = drive(controller, &mut obliging);
    assert_eq!(
        trace.lines,
        vec![
            "[/src/coin] git pull origin test",
            "[/src/coin] cargo build --release --bin coin-distribution",
            "[/src/coin] rm -f /opt/pool/bin/coin-distribution",
            "[/src/coin] cp /src/coin/target/release/coin-distribution \
             /opt/pool/bin/coin-distribution",
            "[/src/gate] git pull origin test",
            "[/src/gate] cargo build --release --bin pool-gate",
            "[/src/gate] rm -f /opt/pool/bin/pool-gate",
            "[/src/gate] cp /src/gate/../target/release/pool-gate /opt/pool/bin/pool-gate",
            "[/src/miner] git pull origin test",
            "[/src/miner] cargo build --release --bin noah-miner",
            "[/src/miner] rm -f /opt/pool/bin/noah-miner",
            "[/src/miner] cp /src/miner/target/release/noah-miner /opt/pool/bin/noah-miner",
            "[/src/pool/app] git pull origin test",
            "[/src/pool/app] cargo build --release --bin fish-pool",
            "[/src/pool/app] rm -f /opt/pool/bin/fish-pool",
            "[/src/pool/app] cp /src/pool/app/../target/release/fish-pool \
             /opt/pool/bin/fish-pool",
        ]
    );
    assert_eq!(trace.result, Ok(()));
    let built: Vec<Purpose> = trace.notes.iter().map(|n| n.purpose).collect();
    assert_eq!(
        built,
        vec![
            Purpose::Build(Code::Distribute),
            Purpose::Build(Code::Gate),
            Purpose::Build(Code::Miner),
            Purpose::Build(Code::Pool),
        ]
    );
}

#[test]
fn update_all_stops_at_the_first_component_that_fails() {
    let controller =
        Controller::for_operation(&Operation::Update(vec![Code::All]), full_config());
    let mut world = |action: &Action| {
        if line(action).starts_with("[/src/gate]") {
            Event::Failed
        } else {
            Event::Done
        }
    };
    let trace = drive(controller, &mut world);
    assert_eq!(
        trace.lines,
        vec![
            "[/src/coin] git pull origin test",
            "[/src/coin] cargo build --release --bin coin-distribution",
            "[/src/coin] rm -f /opt/pool/bin/coin-distribution",
            "[/src/coin] cp /src/coin/target/release/coin-distribution \
             /opt/pool/bin/coin-distribution",
            "[/src/gate] git pull origin test",
        ]
    );
    assert!(trace.lines.iter().all(|l| !l.contains("miner") && !l.contains("fish-pool")));
    assert_eq!(trace.result, Err(Error::CommandFailed(Purpose::Build(Code::Gate))));
    assert_eq!(
        trace.notes,
        vec![Note { purpose: Purpose::Build(Code::Distribute), verdict: Verdict::Completed }]
    );
}

#[test]
fn update_self_installs_the_tool_and_its_settings() {
    let controller = Controller::for_operation(&Operation::Update(vec![Code::Me]), full_config());
    let trace = drive(controller, &mut obliging);
    assert_eq!(
        trace.lines,
        vec![
            "[/src/setup] git pull",
            "[/src/setup] cargo build --release",
            "[/src/setup] mv /src/setup/target/release/setup /home/op/.cargo/bin",
            "[/src/setup] rm -f /home/op/.env",
            "[/src/setup] cp /src/setup/.env /home/op/.env",
        ]
    );
    assert_eq!(trace.result, Ok(()));
}

#[test]
fn update_takes_the_components_in_the_order_requested() {
    let controller = Controller::for_operation(
        &Operation::Update(vec![Code::Gate, Code::Pool]),
        full_config(),
    );
    let trace = drive(controller, &mut obliging);
    assert_eq!(
        trace.lines,
        vec![
            "[/src/gate] git pull origin test",
            "[/src/gate] cargo build --release --bin pool-gate",
            "[/src/gate] rm -f /opt/pool/bin/pool-gate",
            "[/src/gate] cp /src/gate/../target/release/pool-gate /opt/pool/bin/pool-gate",
            "[/src/pool/app] git pull origin test",
            "[/src/pool/app] cargo build --release --bin fish-pool",
            "[/src/pool/app] rm -f /opt/pool/bin/fish-pool",
            "[/src/pool/app] cp /src/pool/app/../target/release/fish-pool \
             /opt/pool/bin/fish-pool",
        ]
    );
    assert_eq!(trace.result, Ok(()));
}

#[test]
fn update_of_nothing_does_nothing() {
    let controller = Controller::for_operation(&Operation::Update(Vec::new()), Config::new());
    assert_eq!(controller.outcome(), Some(Ok(())));
    assert!(controller.pending().is_none());
}

#[test]
fn update_fails_on_a_missing_directory_only_when_it_gets_there() {
    let mut config = full_config();
    config.gate_dir = None;
    let controller =
        Controller::for_operation(&Operation::Update(vec![Code::Pool, Code::Gate]), config);
    let trace = drive(controller, &mut obliging);
    assert_eq!(
        trace.lines,
        vec![
            "[/src/pool/app] git pull origin test",
            "[/src/pool/app] cargo build --release --bin fish-pool",
            "[/src/pool/app] rm -f /opt/pool/bin/fish-pool",
            "[/src/pool/app] cp /src/pool/app/../target/release/fish-pool \
             /opt/pool/bin/fish-pool",
        ]
    );
    assert_eq!(trace.result, Err(Error::ConfigurationMissing(Setting::GateDir)));
}

#[test]
fn a_build_is_over_only_when_the_artifact_is_installed() {
    let controller = Controller::for_operation(&Operation::Update(vec![Code::Gate]), full_config());
    let mut world = |action: &Action| {
        if line(action).starts_with("[/src/gate] cp ") {
            Event::Failed
        } else {
            Event::Done
        }
    };
    let trace = drive(controller, &mut world);
    assert_eq!(trace.lines.len(), 4);
    assert_eq!(trace.result, Err(Error::CommandFailed(Purpose::Build(Code::Gate))));
    assert!(trace.notes.is_empty());
}

#[test]
fn a_build_stops_when_the_old_artifact_cannot_be_removed() {
    let controller = Controller::for_operation(&Operation::Update(vec![Code::Gate]), full_config());
    let mut world = |action: &Action| {
        if line(action).starts_with("[/src/gate] rm ") {
            Event::Failed
        } else {
            Event::Done
        }
    };
    let trace = drive(controller, &mut world);
    assert_eq!(
        trace.lines,
        vec![
            "[/src/gate] git pull origin test",
            "[/src/gate] cargo build --release --bin pool-gate",
            "[/src/gate] rm -f /opt/pool/bin/pool-gate",
        ]
    );
    assert_eq!(trace.result, Err(Error::CommandFailed(Purpose::Build(Code::Gate))));
}

#[test]
fn a_build_needs_no_setting_but_the_source_directory() {
    let mut config = Config::new();
    config.set(Setting::PoolDir, "/p".to_string());
    let controller = Controller::for_operation(&Operation::Update(vec![Code::Pool]), config);
    let trace = drive(controller, &mut obliging);
    assert_eq!(
        trace.lines,
        vec![
            "[/p] git pull origin test",
            "[/p] cargo build --release --bin fish-pool",
            "[/p] rm -f /usr/local/bin/fish-pool",
            "[/p] cp /p/../target/release/fish-pool /usr/local/bin/fish-pool",
        ]
    );
    assert_eq!(trace.result, Ok(()));
    assert_eq!(
        trace.notes,
        vec![Note { purpose: Purpose::Build(Code::Pool), verdict: Verdict::Completed }]
    );
}

#[test]
fn updating_all_needs_the_four_source_directories_only() {
    let mut config = Config::new();
    config.set(Setting::PoolDir, "/p".to_string());
    config.set(Setting::GateDir, "/g".to_string());
    config.set(Setting::MinerDir, "/m".to_string());
    config.set(Setting::DistributeDir, "/d".to_string());
    let controller = Controller::for_operation(&Operation::Update(vec![Code::All]), config);
    let trace = drive(controller, &mut obliging);
    assert_eq!(trace.result, Ok(()));
    let pulls: Vec<&String> = trace.lines.iter().filter(|l| l.contains("git pull")).collect();
    assert_eq!(
        pulls,
        vec![
            "[/d] git pull origin test",
            "[/g] git pull origin test",
            "[/m] git pull origin test",
            "[/p] git pull origin test",
        ]
    );
    let built: Vec<Purpose> = trace.notes.iter().map(|n| n.purpose).collect();
    assert_eq!(
        built,
        vec![
            Purpose::Build(Code::Distribute),
            Purpose::Build(Code::Gate),
            Purpose::Build(Code::Miner),
            Purpose::Build(Code::Pool),
        ]
    );
}

#[test]
fn the_runtime_location_can_be_overridden() {
    let mut config = Config::new();
    config.set(Setting::GateDir, "/g".to_string());
    config.install_dir = "/srv/run".to_string();
    let controller = Controller::for_operation(&Operation::Update(vec![Code::Gate]), config);
    let trace = drive(controller, &mut obliging);
    assert_eq!(trace.lines[2], "[/g] rm -f /srv/run/pool-gate");
    assert_eq!(trace.lines[3], "[/g] cp /g/../target/release/pool-gate /srv/run/pool-gate");
}

#[test]
fn update_self_names_the_first_missing_setting() {
    let mut config = Config::new();
    config.set(Setting::Home, "/home/op".to_string());
    let controller = Controller::for_operation(&Operation::Update(vec![Code::Me]), config);
    assert_eq!(controller.outcome(), Some(Err(Error::ConfigurationMissing(Setting::SelfDir))));
    let mut config = Config::new();
    config.set(Setting::SelfDir, "/src/setup".to_string());
    let controller = Controller::for_operation(&Operation::Update(vec![Code::Me]), config);
    assert_eq!(controller.outcome(), Some(Err(Error::ConfigurationMissing(Setting::Home))));
}

#[test]
fn a_miner_is_not_launched_when_its_account_has_no_address() {
    let controller = Controller::for_operation(&Operation::Restart, full_config());
    let mut accounts = 0;
    let mut world = |action: &Action| match action {
        Action::Capture(_) => {
            accounts += 1;
            if accounts == 2 {
                Event::Output("no such token".to_string())
            } else {
                Event::Output("address abc123".to_string())
            }
        }
        other => obliging(other),
    };
    let trace = drive(controller, &mut world);
    assert_eq!(trace.result, Err(Error::NotFound));
    assert!(trace.lines.last().unwrap().ends_with("accounts:create miner-1-17"));
    assert!(trace.lines.iter().all(|l| !l.contains("fish:miner.1") && !l.contains("fish:miner.2")));
    assert!(trace.lines.iter().any(|l| l.contains("fish:miner.0")));
}

#[test]
fn a_miner_is_not_launched_when_the_account_tool_fails() {
    let controller = Controller::for_operation(&Operation::Restart, full_config());
    let mut world = |action: &Action| match action {
        Action::Capture(_) => Event::Failed,
        other => obliging(other),
    };
    let trace = drive(controller, &mut world);
    assert_eq!(trace.result, Err(Error::CommandFailed(Purpose::Launch(Code::Miner))));
    assert!(trace.lines.iter().all(|l| !l.contains("fish:miner.")));
}

#[test]
fn the_pauses_can_be_overridden() {
    let mut config = full_config();
    config.name_delay_ms = 30;
    config.attach_delay_ms = 5;
    let controller = Controller::for_operation(&Operation::Restart, config);
    let trace = drive(controller, &mut obliging);
    let sleeps: Vec<&String> = trace.lines.iter().filter(|l| l.starts_with("sleep")).collect();
    assert_eq!(sleeps, vec!["sleep 30", "sleep 30", "sleep 30", "sleep 5"]);
}

#[test]
fn an_event_of_the_wrong_kind_counts_as_a_failure() {
    let controller = Controller::for_operation(&Operation::SetTopology, full_config());
    let mut world = |action: &Action| {
        if line(action) == "tmux new-session -d -s fish" {
            Event::Clock(5)
        } else {
            Event::Done
        }
    };
    let trace = drive(controller, &mut world);
    assert_eq!(trace.lines.len(), 2);
    assert_eq!(trace.result, Err(Error::CommandFailed(Purpose::Create(Session::Primary))));
}

#[test]
fn a_finished_run_ignores_further_events() {
    let mut controller =
        Controller::for_operation(&Operation::Kill { network: false }, full_config());
    assert_eq!(controller.advance(Event::Done).len(), 1);
    assert_eq!(controller.outcome(), Some(Ok(())));
    assert!(controller.advance(Event::Failed).is_empty());
    assert!(controller.advance(Event::Done).is_empty());
    assert_eq!(controller.outcome(), Some(Ok(())));
    assert!(controller.pending().is_none());
}

#[test]
fn a_plan_with_an_empty_stage_is_refused() {
    let empty = Stage {
        purpose: Purpose::Chain,
        policy: Policy::FailFast,
        needs: Vec::new(),
        steps: Vec::new(),
    };
    assert!(Controller::new(vec![empty], Config::new()).is_none());
    assert!(Controller::new(Vec::new(), Config::new()).is_some());
}

#[test]
fn a_failure_that_is_ignored_leaves_no_report() {
    let stage = Stage {
        purpose: Purpose::FlushCache,
        policy: Policy::Ignore,
        needs: Vec::new(),
        steps: vec![Step::Run(Command::FlushCache)],
    };
    let mut controller = Controller::new(vec![stage], Config::new()).unwrap();
    assert!(controller.advance(Event::Failed).is_empty());
    assert_eq!(controller.outcome(), Some(Ok(())));
}

/// A small stand-in for the multiplexer: sessions, their windows and the
/// number of panes of each window.
struct Multiplexer {
    sessions: BTreeMap<String, Vec<(String, Vec<u32>)>>,
    current: Option<(String, usize)>,
    active: u32,
}

impl Multiplexer {
    fn new() -> Multiplexer {
        Multiplexer { sessions: BTreeMap::new(), current: None, active: 0 }
    }

    fn perform(&mut self, action: &Action) -> Event {
        let call = match action {
            Action::Run(call) => call,
            other => return obliging(other),
        };
        let args: Vec<&str> = call.args.iter().map(|s| s.as_str()).collect();
        match args[0] {
            "kill-session" => {
                if self.sessions.remove(args[2]).is_some() {
                    Event::Done
                } else {
                    Event::Absent
                }
            }
            "new-session" => {
                if self.sessions.contains_key(args[3]) {
                    return Event::Exists;
                }
                self.sessions.insert(args[3].to_string(), vec![(String::new(), vec![0])]);
                self.current = Some((args[3].to_string(), 0));
                self.active = 0;
                Event::Done
            }
            "rename-window" => {
                let (session, index) = args[2].split_once(':').unwrap();
                let index: usize = index.parse().unwrap();
                self.sessions.get_mut(session).unwrap()[index].0 = args[3].to_string();
                Event::Done
            }
            "new-window" => {
                let (session, index) = args[2].split_once(':').unwrap();
                let index: usize = index.parse().unwrap();
                let windows = self.sessions.get_mut(session).unwrap();
                assert_eq!(windows.len(), index);
                windows.push((args[4].to_string(), vec![0]));
                self.current = Some((session.to_string(), index));
                self.active = 0;
                Event::Done
            }
            "splitw" => {
                let (session, index) = self.current.clone().unwrap();
                let panes = &mut self.sessions.get_mut(&session).unwrap()[index].1;
                panes.push(self.active);
                self.active = (panes.len() - 1) as u32;
                Event::Done
            }
            "selectp" => {
                self.active = args[2].parse().unwrap();
                Event::Done
            }
            _ => Event::Done,
        }
    }
}

#[test]
fn two_setups_build_the_same_primary_geometry() {
    let mut multiplexer = Multiplexer::new();
    let first = Controller::for_operation(&Operation::SetTopology, full_config());
    let trace = drive(first, &mut |action: &Action| multiplexer.perform(action));
    assert_eq!(trace.result, Ok(()));
    let once = multiplexer.sessions.clone();
    assert_eq!(
        once["fish"],
        vec![
            ("pool".to_string(), vec![0, 0, 1, 0]),
            ("miner".to_string(), vec![0, 0, 1, 0]),
            ("service".to_string(), vec![0, 0]),
        ]
    );
    assert_eq!(once["node"], vec![("node".to_string(), vec![0, 0, 1, 2])]);

    let second = Controller::for_operation(&Operation::SetTopology, full_config());
    let trace = drive(second, &mut |action: &Action| multiplexer.perform(action));
    assert_eq!(trace.result, Ok(()));
    assert_eq!(multiplexer.sessions, once);
    assert!(trace.notes.contains(&Note {
        purpose: Purpose::Create(Session::Secondary),
        verdict: Verdict::Preserved
    }));
}

#[test]
fn setup_leaves_an_existing_secondary_session_untouched() {
    let mut multiplexer = Multiplexer::new();
    multiplexer.sessions.insert("node".to_string(), vec![("synced".to_string(), vec![0, 0])]);
    let controller = Controller::for_operation(&Operation::SetTopology, full_config());
    let trace = drive(controller, &mut |action: &Action| multiplexer.perform(action));
    assert_eq!(trace.result, Ok(()));
    assert_eq!(multiplexer.sessions["node"], vec![("synced".to_string(), vec![0, 0])]);
    assert!(trace.lines.iter().all(|l| !l.contains("send-keys -t node")));
}
