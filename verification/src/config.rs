//! The settings a deployment is configured with. Every setting is either set
//! to a text or unset; nothing is ever substituted for an unset one. Beside
//! the settings stand three parameters that have defaults and can be
//! overridden: the two pauses and the runtime location.

use vstd::prelude::*;

verus! {

/// Default pause between two miner-name generations, in milliseconds.
pub const DEFAULT_NAME_DELAY_MS: u64 = 12;

/// Default pause before the terminal attaches to the primary session, in
/// milliseconds.
pub const DEFAULT_ATTACH_DELAY_MS: u64 = 1000;

/// Default runtime location: the directory that holds the installed
/// artifacts of the deployable components.
pub const DEFAULT_INSTALL_DIR: &'static str = "/usr/local/bin";

/// A required setting.
#[derive(Clone, Copy, Debug, PartialEq, Eq, Structural)]
pub enum Setting {
    /// Source directory of the pool backend.
    PoolDir,
    /// Source directory of the gateway.
    GateDir,
    /// Source directory of the miner.
    MinerDir,
    /// Source directory of the coin-distribution service.
    DistributeDir,
    /// Source directory of this tool itself.
    SelfDir,
    /// The operator's home directory.
    Home,
    /// Source directory of the chain network.
    IronDir,
    /// Command line that starts a miner, without its account address.
    MinerCmd,
    /// Startup command line of the first chain node.
    Node1,
    /// Startup command line of the second chain node.
    Node2,
    /// Startup command line of the third chain node.
    Node3,
    /// Whitespace-separated list of chain data directories.
    NodeData,
}

impl Setting {
    /// The name of the environment variable that carries the setting.
    pub open spec fn key_text(self) -> Seq<char> {
        match self {
            Setting::PoolDir => "POOL_DIR"@,
            Setting::GateDir => "GATE_DIR"@,
            Setting::MinerDir => "MINER_DIR"@,
            Setting::DistributeDir => "DISTRIBUTE_DIR"@,
            Setting::SelfDir => "SELF"@,
            Setting::Home => "HOME"@,
            Setting::IronDir => "IRON_DIR"@,
            Setting::MinerCmd => "MINER_CMD"@,
            Setting::Node1 => "NODE1"@,
            Setting::Node2 => "NODE2"@,
            Setting::Node3 => "NODE3"@,
            Setting::NodeData => "NODE_DATA"@,
        }
    }

    /// The name of the environment variable that carries the setting.
    pub fn key(&self) -> (r: &'static str)
        ensures
            r@ == self.key_text(),
    {
        match self {
            Setting::PoolDir => "POOL_DIR",
            Setting::GateDir => "GATE_DIR",
            Setting::MinerDir => "MINER_DIR",
            Setting::DistributeDir => "DISTRIBUTE_DIR",
            Setting::SelfDir => "SELF",
            Setting::Home => "HOME",
            Setting::IronDir => "IRON_DIR",
            Setting::MinerCmd => "MINER_CMD",
            Setting::Node1 => "NODE1",
            Setting::Node2 => "NODE2",
            Setting::Node3 => "NODE3",
            Setting::NodeData => "NODE_DATA",
        }
    }

    /// Every setting, once.
    pub open spec fn every() -> Seq<Setting> {
        seq![
            Setting::PoolDir,
            Setting::GateDir,
            Setting::MinerDir,
            Setting::DistributeDir,
            Setting::SelfDir,
            Setting::Home,
            Setting::IronDir,
            Setting::MinerCmd,
            Setting::Node1,
            Setting::Node2,
            Setting::Node3,
            Setting::NodeData,
        ]
    }

    /// Every setting, once.
    pub fn all() -> (r: Vec<Setting>)
        ensures
            r@ == Setting::every(),
    {
        let r = vec![
            Setting::PoolDir,
            Setting::GateDir,
            Setting::MinerDir,
            Setting::DistributeDir,
            Setting::SelfDir,
            Setting::Home,
            Setting::IronDir,
            Setting::MinerCmd,
            Setting::Node1,
            Setting::Node2,
            Setting::Node3,
            Setting::NodeData,
        ];
        assert(r@ =~= Setting::every());
        r
    }
}

/// The text of an optional string, if there is one.
pub open spec fn text_of(o: Option<String>) -> Option<Seq<char>> {
    match o {
        Some(s) => Some(s@),
        None => None,
    }
}

/// What the operator configured: each setting set or unset, the two pauses
/// and the runtime location.
#[derive(Clone, Debug, PartialEq, Eq)]
pub struct Config {
    pub pool_dir: Option<String>,
    pub gate_dir: Option<String>,
    pub miner_dir: Option<String>,
    pub distribute_dir: Option<String>,
    pub self_dir: Option<String>,
    pub home: Option<String>,
    pub iron_dir: Option<String>,
    pub miner_cmd: Option<String>,
    pub node1: Option<String>,
    pub node2: Option<String>,
    pub node3: Option<String>,
    pub node_data: Option<String>,
    /// The runtime location: the directory that holds the installed
    /// artifacts of the deployable components.
    pub install_dir: String,
    /// Pause between two miner-name generations, in milliseconds.
    pub name_delay_ms: u64,
    /// Pause before attaching, in milliseconds.
    pub attach_delay_ms: u64,
}

impl Default for Config {
    /// A configuration with every setting unset, the default pauses and the
    /// default runtime location.
    fn default() -> (c: Config)
        ensures
            forall|s: Setting| c.value(s) is None,
            c.name_delay_ms == DEFAULT_NAME_DELAY_MS,
            c.attach_delay_ms == DEFAULT_ATTACH_DELAY_MS,
            c.install_dir@ == DEFAULT_INSTALL_DIR@,
    {
        Config::new()
    }
}

impl Config {
    /// The text `setting` is set to, or `None` where it is unset.
    pub open spec fn value(&self, setting: Setting) -> Option<Seq<char>> {
        match setting {
            Setting::PoolDir => text_of(self.pool_dir),
            Setting::GateDir => text_of(self.gate_dir),
            Setting::MinerDir => text_of(self.miner_dir),
            Setting::DistributeDir => text_of(self.distribute_dir),
            Setting::SelfDir => text_of(self.self_dir),
            Setting::Home => text_of(self.home),
            Setting::IronDir => text_of(self.iron_dir),
            Setting::MinerCmd => text_of(self.miner_cmd),
            Setting::Node1 => text_of(self.node1),
            Setting::Node2 => text_of(self.node2),
            Setting::Node3 => text_of(self.node3),
            Setting::NodeData => text_of(self.node_data),
        }
    }

    /// Whether `setting` is set.
    pub open spec fn has(&self, setting: Setting) -> bool {
        self.value(setting) is Some
    }

    /// A configuration with every setting unset, the default pauses and the
    /// default runtime location.
    pub fn new() -> (c: Config)
        ensures
            forall|s: Setting| c.value(s) is None,
            c.name_delay_ms == DEFAULT_NAME_DELAY_MS,
            c.attach_delay_ms == DEFAULT_ATTACH_DELAY_MS,
            c.install_dir@ == DEFAULT_INSTALL_DIR@,
    {
        Config {
            pool_dir: None,
            gate_dir: None,
            miner_dir: None,
            distribute_dir: None,
            self_dir: None,
            home: None,
            iron_dir: None,
            miner_cmd: None,
            node1: None,
            node2: None,
            node3: None,
            node_data: None,
            install_dir: DEFAULT_INSTALL_DIR.to_owned(),
            name_delay_ms: DEFAULT_NAME_DELAY_MS,
            attach_delay_ms: DEFAULT_ATTACH_DELAY_MS,
        }
    }

    /// The text `setting` is set to, if it is set.
    pub fn get(&self, setting: Setting) -> (r: Option<&String>)
        ensures
            match r {
                Some(v) => self.value(setting) == Some(v@),
                None => self.value(setting) is None,
            },
    {
        match setting {
            Setting::PoolDir => self.pool_dir.as_ref(),
            Setting::GateDir => self.gate_dir.as_ref(),
            Setting::MinerDir => self.miner_dir.as_ref(),
            Setting::DistributeDir => self.distribute_dir.as_ref(),
            Setting::SelfDir => self.self_dir.as_ref(),
            Setting::Home => self.home.as_ref(),
            Setting::IronDir => self.iron_dir.as_ref(),
            Setting::MinerCmd => self.miner_cmd.as_ref(),
            Setting::Node1 => self.node1.as_ref(),
            Setting::Node2 => self.node2.as_ref(),
            Setting::Node3 => self.node3.as_ref(),
            Setting::NodeData => self.node_data.as_ref(),
        }
    }

    /// Sets `setting` to `text` and leaves everything else as it was.
    pub fn set(&mut self, setting: Setting, text: String)
        ensures
            final(self).value(setting) == Some(text@),
            forall|other: Setting|
                other != setting ==> final(self).value(other) == old(self).value(other),
            final(self).name_delay_ms == old(self).name_delay_ms,
            final(self).attach_delay_ms == old(self).attach_delay_ms,
            final(self).install_dir == old(self).install_dir,
    {
        match setting {
            Setting::PoolDir => self.pool_dir = Some(text),
            Setting::GateDir => self.gate_dir = Some(text),
            Setting::MinerDir => self.miner_dir = Some(text),
            Setting::DistributeDir => self.distribute_dir = Some(text),
            Setting::SelfDir => self.self_dir = Some(text),
            Setting::Home => self.home = Some(text),
            Setting::IronDir => self.iron_dir = Some(text),
            Setting::MinerCmd => self.miner_cmd = Some(text),
            Setting::Node1 => self.node1 = Some(text),
            Setting::Node2 => self.node2 = Some(text),
            Setting::Node3 => self.node3 = Some(text),
            Setting::NodeData => self.node_data = Some(text),
        }
    }

    /// The first of `needs` that is unset, if any is.
    pub open spec fn first_missing(&self, needs: Seq<Setting>) -> Option<Setting>
        decreases needs.len(),
    {
        if needs.len() == 0 {
            None
        } else if !self.has(needs[0]) {
            Some(needs[0])
        } else {
            self.first_missing(needs.drop_first())
        }
    }

    /// Looks through `needs` in order for a setting that is unset.
    pub fn find_missing(&self, needs: &Vec<Setting>) -> (r: Option<Setting>)
        ensures
            r == self.first_missing(needs@),
    {
        let mut i: usize = 0;
        proof {
            assert(needs@.skip(0) == needs@);
        }
        while i < needs.len()
            invariant
                i <= needs.len(),
                self.first_missing(needs@) == self.first_missing(needs@.skip(i as int)),
            decreases needs.len() - i,
        {
            if self.get(needs[i]).is_none() {
                return Some(needs[i]);
            }
            proof {
                assert(needs@.skip(i as int).drop_first() == needs@.skip(i + 1));
            }
            i = i + 1;
        }
        None
    }
}

/// Whether `setting` stands at position `at` of `needs`, unset, after
/// settings that are all set.
pub open spec fn first_unset_at(
    config: Config,
    needs: Seq<Setting>,
    setting: Setting,
    at: int,
) -> bool {
    &&& 0 <= at < needs.len()
    &&& needs[at] == setting
    &&& !config.has(setting)
    &&& forall|j: int| 0 <= j < at ==> config.has(#[trigger] needs[j])
}

/// What `first_missing` finds is the first unset setting of the list, and
/// it finds none exactly if every setting of the list is set.
pub proof fn lemma_first_missing(config: Config, needs: Seq<Setting>)
    ensures
        match config.first_missing(needs) {
            Some(setting) => exists|at: int| first_unset_at(config, needs, setting, at),
            None => forall|i: int| 0 <= i < needs.len() ==> config.has(#[trigger] needs[i]),
        },
    decreases needs.len(),
{
    if needs.len() == 0 {
    } else if !config.has(needs[0]) {
        assert(first_unset_at(config, needs, needs[0], 0));
    } else {
        let rest = needs.drop_first();
        lemma_first_missing(config, rest);
        match config.first_missing(rest) {
            Some(setting) => {
                let at = choose|at: int| first_unset_at(config, rest, setting, at);
                assert forall|j: int| 0 <= j < at + 1 implies config.has(#[trigger] needs[j]) by {
                    if j > 0 {
                        assert(needs[j] == rest[j - 1]);
                    }
                }
                assert(needs[at + 1] == rest[at]);
                assert(first_unset_at(config, needs, setting, at + 1));
            },
            None => {
                assert forall|i: int| 0 <= i < needs.len() implies config.has(
                    #[trigger] needs[i],
                ) by {
                    if i > 0 {
                        assert(needs[i] == rest[i - 1]);
                    }
                }
            },
        }
    }
}

} // verus!
