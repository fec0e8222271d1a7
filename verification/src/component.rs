//! The service registry: the closed set of components, what each is built
//! from, and where each runs.

use crate::config::{Config, Setting};
use crate::error::Error;
use crate::text::same_text;
use crate::topology::{Session, SlotRef, Window};
use vstd::prelude::*;
use vstd::string::*;

verus! {

/// A logical component.
#[derive(Clone, Copy, Debug, PartialEq, Eq, Structural)]
pub enum Code {
    /// The mining-pool backend.
    Pool,
    /// The gateway.
    Gate,
    /// The composite of the four deployable components.
    All,
    /// The miner processes.
    Miner,
    /// The coin-distribution service.
    Distribute,
    /// This tool itself.
    Me,
}

/// The two uses of the composite, each with its own fixed order.
#[derive(Clone, Copy, Debug, PartialEq, Eq, Structural)]
pub enum Order {
    /// The order in which components are launched.
    Dispatch,
    /// The order in which components are built.
    Build,
}

impl Code {
    /// The component that a command-line token names, if it names one.
    pub open spec fn of_token(token: Seq<char>) -> Option<Code> {
        if token == "pool"@ {
            Some(Code::Pool)
        } else if token == "gate"@ {
            Some(Code::Gate)
        } else if token == "all"@ {
            Some(Code::All)
        } else if token == "coin"@ || token == "distribute"@ {
            Some(Code::Distribute)
        } else if token == "self"@ || token == "me"@ {
            Some(Code::Me)
        } else {
            None
        }
    }

    /// Reads a component from a command-line token. A token that names none
    /// is refused.
    pub fn from_str(s: &str) -> (r: Result<Code, &'static str>)
        ensures
            match r {
                Ok(code) => Code::of_token(s@) == Some(code),
                Err(why) => Code::of_token(s@) is None && why@ == "not support"@,
            },
    {
        if same_text(s, "pool") {
            Ok(Code::Pool)
        } else if same_text(s, "gate") {
            Ok(Code::Gate)
        } else if same_text(s, "all") {
            Ok(Code::All)
        } else if same_text(s, "coin") || same_text(s, "distribute") {
            Ok(Code::Distribute)
        } else if same_text(s, "self") || same_text(s, "me") {
            Ok(Code::Me)
        } else {
            Err("not support")
        }
    }

    /// The name of the artifact that the component is built as.
    pub open spec fn artifact(self) -> Seq<char> {
        match self {
            Code::Pool => "fish-pool"@,
            Code::Gate => "pool-gate"@,
            Code::All => "all"@,
            Code::Distribute => "coin-distribution"@,
            Code::Miner => "noah-miner"@,
            Code::Me => "self"@,
        }
    }

    /// The name of the artifact that the component is built as.
    pub fn crate_name(&self) -> (r: &'static str)
        ensures
            r@ == self.artifact(),
    {
        match self {
            Code::Pool => "fish-pool",
            Code::Gate => "pool-gate",
            Code::All => "all",
            Code::Distribute => "coin-distribution",
            Code::Miner => "noah-miner",
            Code::Me => "self",
        }
    }

    /// The setting that holds the component's source directory. The
    /// composite has none.
    pub open spec fn backing(self) -> Option<Setting> {
        match self {
            Code::Pool => Some(Setting::PoolDir),
            Code::Gate => Some(Setting::GateDir),
            Code::Miner => Some(Setting::MinerDir),
            Code::Distribute => Some(Setting::DistributeDir),
            Code::Me => Some(Setting::SelfDir),
            Code::All => None,
        }
    }

    /// The setting that holds the component's source directory.
    pub fn source_setting(&self) -> (r: Option<Setting>)
        ensures
            r == self.backing(),
    {
        match self {
            Code::Pool => Some(Setting::PoolDir),
            Code::Gate => Some(Setting::GateDir),
            Code::Miner => Some(Setting::MinerDir),
            Code::Distribute => Some(Setting::DistributeDir),
            Code::Me => Some(Setting::SelfDir),
            Code::All => None,
        }
    }

    /// The component's source directory under `config`: the text of its
    /// backing setting, an error where that is unset, and the word `all` for
    /// the composite.
    pub open spec fn dir_in(self, config: Config) -> Result<Seq<char>, Error> {
        match self.backing() {
            None => Ok("all"@),
            Some(setting) => match config.value(setting) {
                Some(dir) => Ok(dir),
                None => Err(Error::ConfigurationMissing(setting)),
            },
        }
    }

    /// Looks up the component's source directory.
    pub fn get_code_dir(&self, config: &Config) -> (r: Result<String, Error>)
        ensures
            match r {
                Ok(dir) => self.dir_in(*config) == Ok::<Seq<char>, Error>(dir@),
                Err(e) => self.dir_in(*config) == Err::<Seq<char>, Error>(e),
            },
    {
        match self.source_setting() {
            None => Ok(String::from_str("all")),
            Some(setting) => match config.get(setting) {
                Some(dir) => Ok(dir.clone()),
                None => Err(Error::ConfigurationMissing(setting)),
            },
        }
    }

    /// The slots the component runs in, in launch order.
    pub open spec fn slots(self) -> Seq<SlotRef> {
        match self {
            Code::Pool => seq![
                SlotRef { session: Session::Primary, window: Window::Pool, pane: 0 },
            ],
            Code::Distribute => seq![
                SlotRef { session: Session::Primary, window: Window::Pool, pane: 1 },
            ],
            Code::Gate => seq![
                SlotRef { session: Session::Primary, window: Window::Pool, pane: 2 },
            ],
            Code::Miner => seq![
                SlotRef { session: Session::Primary, window: Window::Miner, pane: 0 },
                SlotRef { session: Session::Primary, window: Window::Miner, pane: 1 },
                SlotRef { session: Session::Primary, window: Window::Miner, pane: 2 },
            ],
            Code::All => Seq::empty(),
            Code::Me => Seq::empty(),
        }
    }

    /// The slots the component runs in, in launch order.
    pub fn target_slots(&self) -> (r: Vec<SlotRef>)
        ensures
            r@ == self.slots(),
    {
        let r = match self {
            Code::Pool => vec![
                SlotRef { session: Session::Primary, window: Window::Pool, pane: 0 },
            ],
            Code::Distribute => vec![
                SlotRef { session: Session::Primary, window: Window::Pool, pane: 1 },
            ],
            Code::Gate => vec![
                SlotRef { session: Session::Primary, window: Window::Pool, pane: 2 },
            ],
            Code::Miner => vec![
                SlotRef { session: Session::Primary, window: Window::Miner, pane: 0 },
                SlotRef { session: Session::Primary, window: Window::Miner, pane: 1 },
                SlotRef { session: Session::Primary, window: Window::Miner, pane: 2 },
            ],
            Code::All => Vec::new(),
            Code::Me => Vec::new(),
        };
        assert(r@ =~= self.slots());
        r
    }

    /// The components that `self` stands for under `order`: the composite
    /// expands to its four constituents in the order fixed for that use, and
    /// any other component stands for itself.
    pub open spec fn expansion(self, order: Order) -> Seq<Code> {
        match self {
            Code::All => match order {
                Order::Dispatch => seq![Code::Distribute, Code::Pool, Code::Gate, Code::Miner],
                Order::Build => seq![Code::Distribute, Code::Gate, Code::Miner, Code::Pool],
            },
            other => seq![other],
        }
    }

    /// Expands the component for launching or for building.
    pub fn expand(&self, order: Order) -> (r: Vec<Code>)
        ensures
            r@ == self.expansion(order),
    {
        let r = match self {
            Code::All => match order {
                Order::Dispatch => vec![Code::Distribute, Code::Pool, Code::Gate, Code::Miner],
                Order::Build => vec![Code::Distribute, Code::Gate, Code::Miner, Code::Pool],
            },
            other => vec![*other],
        };
        assert(r@ =~= self.expansion(order));
        r
    }
}

impl core::str::FromStr for Code {
    type Err = &'static str;

    /// Reads a component from a command-line token, as [`Code::from_str`]
    /// does: the component that the token names, or the refusal of a token
    /// that names none.
    fn from_str(s: &str) -> (r: Result<Code, &'static str>)
        ensures
            match r {
                Ok(code) => Code::of_token(s@) == Some(code),
                Err(why) => Code::of_token(s@) is None && why@ == "not support"@,
            },
    {
        Code::from_str(s)
    }
}

/// What the registry knows of one component.
#[derive(Clone, Debug, PartialEq, Eq)]
pub struct ServiceDescriptor {
    pub id: Code,
    pub source_dir: String,
    pub binary_name: &'static str,
    pub slots: Vec<SlotRef>,
}

/// The mathematical content of a [`ServiceDescriptor`].
pub ghost struct ServiceDescriptorView {
    pub id: Code,
    pub source_dir: Seq<char>,
    pub binary_name: Seq<char>,
    pub slots: Seq<SlotRef>,
}

impl View for ServiceDescriptor {
    type V = ServiceDescriptorView;

    open spec fn view(&self) -> ServiceDescriptorView {
        ServiceDescriptorView {
            id: self.id,
            source_dir: self.source_dir@,
            binary_name: self.binary_name@,
            slots: self.slots@,
        }
    }
}

/// The descriptor of `id` under `config`, or the error that says which
/// setting is missing.
pub open spec fn resolved(id: Code, config: Config) -> Result<ServiceDescriptorView, Error> {
    match id.dir_in(config) {
        Ok(dir) => Ok(
            ServiceDescriptorView {
                id,
                source_dir: dir,
                binary_name: id.artifact(),
                slots: id.slots(),
            },
        ),
        Err(e) => Err(e),
    }
}

/// Resolves a component to its source directory, artifact name and slots.
/// Fails exactly where the component's backing setting is unset, and then
/// names that setting; nothing is substituted for it.
pub fn resolve(id: Code, config: &Config) -> (r: Result<ServiceDescriptor, Error>)
    ensures
        match r {
            Ok(d) => resolved(id, *config) == Ok::<ServiceDescriptorView, Error>(d@),
            Err(e) => resolved(id, *config) == Err::<ServiceDescriptorView, Error>(e),
        },
{
    match id.get_code_dir(config) {
        Ok(source_dir) => Ok(
            ServiceDescriptor {
                id,
                source_dir,
                binary_name: id.crate_name(),
                slots: id.target_slots(),
            },
        ),
        Err(e) => Err(e),
    }
}

/// A component with a backing setting resolves exactly if that setting is
/// set; the descriptor then carries the setting's text, the component's own
/// artifact name and at least one slot for each deployable component.
pub proof fn lemma_resolve_never_defaults(id: Code, config: Config)
    requires
        id != Code::All,
    ensures
        id.backing() is Some,
        resolved(id, config) is Ok <==> config.has(id.backing()->0),
        resolved(id, config) is Err ==> resolved(id, config) == Err::<ServiceDescriptorView, Error>(
            Error::ConfigurationMissing(id.backing()->0),
        ),
        resolved(id, config) matches Ok(d) ==> Some(d.source_dir) == config.value(id.backing()->0)
            && d.binary_name == id.artifact() && d.id == id && (id != Code::Me ==> d.slots.len()
            > 0),
{
}

/// Every slot a component runs in exists in the built topology.
pub proof fn lemma_slots_exist(id: Code, i: int)
    requires
        0 <= i < id.slots().len(),
    ensures
        id.slots()[i].in_topology(),
        id.slots()[i].session == Session::Primary,
{
}

} // verus!
