//! The declarative terminal topology: two sessions, their windows, and the
//! ordered split instructions that give each window its panes.

use vstd::prelude::*;

verus! {

/// A multiplexer session.
#[derive(Clone, Copy, Debug, PartialEq, Eq, Structural)]
pub enum Session {
    /// Holds the pool services, the miners and the middleware. Rebuilt on
    /// every setup.
    Primary,
    /// Holds the chain network. Created once and preserved afterwards.
    Secondary,
}

/// A window of one of the sessions.
#[derive(Clone, Copy, Debug, PartialEq, Eq, Structural)]
pub enum Window {
    Pool,
    Miner,
    Service,
    Node,
}

/// The direction of a split.
#[derive(Clone, Copy, Debug, PartialEq, Eq, Structural)]
pub enum Axis {
    /// The new pane stands beside its parent.
    Horizontal,
    /// The new pane stands below its parent.
    Vertical,
}

/// One split instruction: which pane is divided, along which axis, and the
/// share of it that the new pane receives.
#[derive(Clone, Copy, Debug, PartialEq, Eq, Structural)]
pub struct Split {
    pub parent: u8,
    pub axis: Axis,
    pub percent: u16,
}

/// The address of one execution context.
#[derive(Clone, Copy, Debug, PartialEq, Eq, Structural)]
pub struct SlotRef {
    pub session: Session,
    pub window: Window,
    pub pane: u8,
}

impl Session {
    /// The name the multiplexer knows the session by.
    pub open spec fn title(self) -> Seq<char> {
        match self {
            Session::Primary => "fish"@,
            Session::Secondary => "node"@,
        }
    }

    /// The name the multiplexer knows the session by.
    pub fn name(&self) -> (r: &'static str)
        ensures
            r@ == self.title(),
    {
        match self {
            Session::Primary => "fish",
            Session::Secondary => "node",
        }
    }

    /// The windows of the session, by window index.
    pub open spec fn windows(self) -> Seq<Window> {
        match self {
            Session::Primary => seq![Window::Pool, Window::Miner, Window::Service],
            Session::Secondary => seq![Window::Node],
        }
    }

    /// The windows of the session, by window index.
    pub fn window_list(&self) -> (r: Vec<Window>)
        ensures
            r@ == self.windows(),
    {
        match self {
            Session::Primary => {
                let r = vec![Window::Pool, Window::Miner, Window::Service];
                assert(r@ =~= self.windows());
                r
            },
            Session::Secondary => {
                let r = vec![Window::Node];
                assert(r@ =~= self.windows());
                r
            },
        }
    }
}

impl Window {
    /// The name the multiplexer knows the window by.
    pub open spec fn title(self) -> Seq<char> {
        match self {
            Window::Pool => "pool"@,
            Window::Miner => "miner"@,
            Window::Service => "service"@,
            Window::Node => "node"@,
        }
    }

    /// The name the multiplexer knows the window by.
    pub fn name(&self) -> (r: &'static str)
        ensures
            r@ == self.title(),
    {
        match self {
            Window::Pool => "pool",
            Window::Miner => "miner",
            Window::Service => "service",
            Window::Node => "node",
        }
    }

    /// The session the window belongs to.
    pub open spec fn session(self) -> Session {
        match self {
            Window::Node => Session::Secondary,
            _ => Session::Primary,
        }
    }

    /// The split instructions that build the window, in declaration order.
    pub open spec fn layout(self) -> Seq<Split> {
        match self {
            Window::Pool => seq![
                Split { parent: 0, axis: Axis::Horizontal, percent: 50 },
                Split { parent: 1, axis: Axis::Vertical, percent: 70 },
                Split { parent: 0, axis: Axis::Vertical, percent: 50 },
            ],
            Window::Miner => seq![
                Split { parent: 0, axis: Axis::Horizontal, percent: 50 },
                Split { parent: 1, axis: Axis::Vertical, percent: 50 },
                Split { parent: 0, axis: Axis::Vertical, percent: 50 },
            ],
            Window::Service => seq![Split { parent: 0, axis: Axis::Horizontal, percent: 50 }],
            Window::Node => seq![
                Split { parent: 0, axis: Axis::Horizontal, percent: 50 },
                Split { parent: 1, axis: Axis::Vertical, percent: 100 },
                Split { parent: 2, axis: Axis::Vertical, percent: 300 },
            ],
        }
    }

    /// The split instructions that build the window, in declaration order.
    pub fn splits(&self) -> (r: Vec<Split>)
        ensures
            r@ == self.layout(),
    {
        let r = match self {
            Window::Pool => vec![
                Split { parent: 0, axis: Axis::Horizontal, percent: 50 },
                Split { parent: 1, axis: Axis::Vertical, percent: 70 },
                Split { parent: 0, axis: Axis::Vertical, percent: 50 },
            ],
            Window::Miner => vec![
                Split { parent: 0, axis: Axis::Horizontal, percent: 50 },
                Split { parent: 1, axis: Axis::Vertical, percent: 50 },
                Split { parent: 0, axis: Axis::Vertical, percent: 50 },
            ],
            Window::Service => vec![Split { parent: 0, axis: Axis::Horizontal, percent: 50 }],
            Window::Node => vec![
                Split { parent: 0, axis: Axis::Horizontal, percent: 50 },
                Split { parent: 1, axis: Axis::Vertical, percent: 100 },
                Split { parent: 2, axis: Axis::Vertical, percent: 300 },
            ],
        };
        assert(r@ =~= self.layout());
        r
    }

    /// The number of panes the window has once its layout is built.
    pub open spec fn pane_count(self) -> nat {
        self.layout().len() + 1
    }
}

/// A layout is well formed when every split divides a pane that exists at
/// that point: the panes are numbered in declaration order, so before the
/// `k`-th split the panes `0..=k` exist.
pub open spec fn well_formed(splits: Seq<Split>) -> bool {
    &&& splits.len() <= u8::MAX
    &&& forall|k: int| 0 <= k < splits.len() ==> (#[trigger] splits[k]).parent <= k
}

impl SlotRef {
    /// Whether the slot is one that the built topology has.
    pub open spec fn in_topology(self) -> bool {
        &&& self.window.session() == self.session
        &&& self.pane < self.window.pane_count()
    }
}

/// Every window of the topology is declared by a well-formed layout, and is
/// listed under the session it belongs to.
pub proof fn lemma_layouts_well_formed(window: Window)
    ensures
        well_formed(window.layout()),
        window.session().windows().contains(window),
{
    match window {
        Window::Pool => {
            assert(Session::Primary.windows()[0] == Window::Pool);
        },
        Window::Miner => {
            assert(Session::Primary.windows()[1] == Window::Miner);
        },
        Window::Service => {
            assert(Session::Primary.windows()[2] == Window::Service);
        },
        Window::Node => {
            assert(Session::Secondary.windows()[0] == Window::Node);
        },
    }
}

} // verus!
