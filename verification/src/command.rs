//! The closed set of external commands the deployment is driven by. A command
//! names what is to be done; the texts it is run with come from the
//! configuration when the command is rendered.

use crate::component::Code;
use crate::config::Setting;
use crate::topology::{Axis, Session, SlotRef, Window};
use vstd::prelude::*;

verus! {

/// A line of text that is typed into a slot.
#[derive(Clone, Copy, Debug, PartialEq, Eq, Structural)]
pub enum Text {
    /// Change into the directory that the setting names.
    EnterDir(Setting),
    /// Clear the screen.
    Clear,
    /// Compile a release build in the current directory.
    Build,
    /// Run the release binary of a component.
    Binary(Code),
    /// The setting's text, as it is.
    Verbatim(Setting),
    /// Start the middleware cache.
    Middleware,
}

/// One external command.
#[derive(Clone, Copy, Debug, PartialEq, Eq, Structural)]
pub enum Command {
    /// Destroy a session.
    KillSession(Session),
    /// Create a detached session.
    NewSession(Session),
    /// Name the window that has the given index.
    RenameWindow { session: Session, index: u8, window: Window },
    /// Create a named window at the given index.
    NewWindow { session: Session, index: u8, window: Window },
    /// Divide the active pane; the new pane becomes the active one.
    SplitPane { axis: Axis, percent: u16 },
    /// Make a pane of the current window the active one.
    SelectPane(u8),
    /// Bring a window to the front.
    SelectWindow { session: Session, window: Window },
    /// Attach the terminal to a session.
    Attach(Session),
    /// Type a line into a slot and have it executed.
    Send { slot: SlotRef, text: Text },
    /// Pull the latest source of a component.
    Pull(Code),
    /// Compile the release artifact of a component.
    Compile(Code),
    /// Remove the artifact of a component that was installed before.
    RemoveInstalled(Code),
    /// Copy the new artifact of a component to the runtime location.
    Install(Code),
    /// Move this tool's own binary into the executable search path.
    InstallSelf,
    /// Remove the per-user runtime configuration file.
    RemoveSettings,
    /// Copy this tool's configuration file to the per-user location.
    CopySettings,
    /// Flush the cache store.
    FlushCache,
    /// Delete the chain data directory with the given position in the list.
    DeleteData(usize),
}

impl Command {
    /// The session a multiplexer command names, if it names one.
    pub open spec fn session(self) -> Option<Session> {
        match self {
            Command::KillSession(s) => Some(s),
            Command::NewSession(s) => Some(s),
            Command::RenameWindow { session, .. } => Some(session),
            Command::NewWindow { session, .. } => Some(session),
            Command::SelectWindow { session, .. } => Some(session),
            Command::Attach(s) => Some(s),
            Command::Send { slot, .. } => Some(slot.session),
            _ => None,
        }
    }

    /// Whether the command deletes a data directory.
    pub open spec fn deletes_data(self) -> bool {
        self is DeleteData
    }
}

} // verus!
