//! Rendering: from a command and the configuration to the program and the
//! arguments that carry it out. A command that needs a setting which is unset
//! does not render; the error names the setting.

use crate::account::{account_name, miner_name};
use crate::command::{Command, Text};
use crate::component::Code;
use crate::config::{Config, Setting};
use crate::error::Error;
use crate::plan::Delay;
use crate::text::{decimal, decimal_string, split_whitespace, tokens};
use crate::topology::{Axis, Session, SlotRef, Window};
use vstd::prelude::*;
use vstd::string::*;

verus! {

/// A program to run, its arguments, and the directory to run it in where
/// that matters.
#[derive(Clone, Debug, PartialEq, Eq)]
pub struct Invocation {
    pub dir: Option<String>,
    pub program: String,
    pub args: Vec<String>,
}

/// The mathematical content of an [`Invocation`].
pub ghost struct InvocationView {
    pub dir: Option<Seq<char>>,
    pub program: Seq<char>,
    pub args: Seq<Seq<char>>,
}

impl View for Invocation {
    type V = InvocationView;

    open spec fn view(&self) -> InvocationView {
        InvocationView {
            dir: match self.dir {
                Some(d) => Some(d@),
                None => None,
            },
            program: self.program@,
            args: self.args.deep_view(),
        }
    }
}

/// The content of a rendering result.
pub open spec fn content(r: Result<Invocation, Error>) -> Result<InvocationView, Error> {
    match r {
        Ok(invocation) => Ok(invocation@),
        Err(e) => Err(e),
    }
}

/// The content of a text result.
pub open spec fn line_content(r: Result<String, Error>) -> Result<Seq<char>, Error> {
    match r {
        Ok(line) => Ok(line@),
        Err(e) => Err(e),
    }
}

/// The text of `setting`, or the error that says it is missing.
pub open spec fn required(config: Config, setting: Setting) -> Result<Seq<char>, Error> {
    match config.value(setting) {
        Some(text) => Ok(text),
        None => Err(Error::ConfigurationMissing(setting)),
    }
}

/// Looks up a setting that a command cannot do without.
pub fn require(config: &Config, setting: Setting) -> (r: Result<&String, Error>)
    ensures
        match r {
            Ok(text) => required(*config, setting) == Ok::<Seq<char>, Error>(text@),
            Err(e) => required(*config, setting) == Err::<Seq<char>, Error>(e),
        },
{
    match config.get(setting) {
        Some(text) => Ok(text),
        None => Err(Error::ConfigurationMissing(setting)),
    }
}

/// How a slot is addressed: session, window and pane index.
pub open spec fn slot_target(slot: SlotRef) -> Seq<char> {
    slot.session.title() + ":"@ + slot.window.title() + "."@ + decimal(slot.pane as nat)
}

/// How a window is addressed by its index.
pub open spec fn index_target(session: Session, index: u8) -> Seq<char> {
    session.title() + ":"@ + decimal(index as nat)
}

/// How a window is addressed by its name.
pub open spec fn window_target(session: Session, window: Window) -> Seq<char> {
    session.title() + ":"@ + window.title()
}

/// The flag that selects the axis of a split.
pub open spec fn axis_flag(axis: Axis) -> Seq<char> {
    match axis {
        Axis::Horizontal => "-h"@,
        Axis::Vertical => "-v"@,
    }
}

/// Where the release binary of `code` lies, given its source directory. The
/// pool and the gateway are members of a workspace one level up.
pub open spec fn binary_path(code: Code, dir: Seq<char>) -> Seq<char> {
    match code {
        Code::Pool | Code::Gate => dir + "/../target/release/"@ + code.artifact(),
        _ => dir + "/target/release/"@ + code.artifact(),
    }
}

/// Where the installed artifact of `code` lies, given the runtime location:
/// directly under it, by the component's artifact name.
pub open spec fn installed_path(code: Code, location: Seq<char>) -> Seq<char> {
    location + "/"@ + code.artifact()
}

/// The line that `text` stands for under `config`.
pub open spec fn typed(text: Text, config: Config) -> Result<Seq<char>, Error> {
    match text {
        Text::EnterDir(setting) => match required(config, setting) {
            Ok(dir) => Ok("cd "@ + dir),
            Err(e) => Err(e),
        },
        Text::Clear => Ok("clear"@),
        Text::Build => Ok("cargo build --release"@),
        Text::Binary(code) => match code.dir_in(config) {
            Ok(dir) => Ok(binary_path(code, dir)),
            Err(e) => Err(e),
        },
        Text::Verbatim(setting) => required(config, setting),
        Text::Middleware => Ok("redis-server"@),
    }
}

/// A call of the multiplexer with the given arguments.
pub open spec fn tmux(args: Seq<Seq<char>>) -> InvocationView {
    InvocationView { dir: None, program: "tmux"@, args }
}

/// A call of `program` in the directory `dir`.
pub open spec fn in_dir(
    dir: Seq<char>,
    program: Seq<char>,
    args: Seq<Seq<char>>,
) -> InvocationView {
    InvocationView { dir: Some(dir), program, args }
}

/// The call that types `line` into `slot` and has it executed.
pub open spec fn send_keys(slot: SlotRef, line: Seq<char>) -> InvocationView {
    tmux(seq!["send-keys"@, "-t"@, slot_target(slot), line, "C-m"@])
}

/// The call that carries out `command` under `config`, or the error that
/// names the setting it lacks. A data directory whose position lies beyond
/// the configured list is not found.
pub open spec fn rendered(command: Command, config: Config) -> Result<InvocationView, Error> {
    match command {
        Command::KillSession(session) => Ok(tmux(seq!["kill-session"@, "-t"@, session.title()])),
        Command::NewSession(session) => Ok(
            tmux(seq!["new-session"@, "-d"@, "-s"@, session.title()]),
        ),
        Command::RenameWindow { session, index, window } => Ok(
            tmux(seq!["rename-window"@, "-t"@, index_target(session, index), window.title()]),
        ),
        Command::NewWindow { session, index, window } => Ok(
            tmux(seq!["new-window"@, "-t"@, index_target(session, index), "-n"@, window.title()]),
        ),
        Command::SplitPane { axis, percent } => Ok(
            tmux(seq!["splitw"@, axis_flag(axis), "-p"@, decimal(percent as nat)]),
        ),
        Command::SelectPane(pane) => Ok(tmux(seq!["selectp"@, "-t"@, decimal(pane as nat)])),
        Command::SelectWindow { session, window } => Ok(
            tmux(seq!["select-window"@, "-t"@, window_target(session, window)]),
        ),
        Command::Attach(session) => Ok(tmux(seq!["a"@, "-t"@, session.title()])),
        Command::Send { slot, text } => match typed(text, config) {
            Ok(line) => Ok(send_keys(slot, line)),
            Err(e) => Err(e),
        },
        Command::Pull(code) => match code.dir_in(config) {
            Ok(dir) => Ok(
                in_dir(
                    dir,
                    "git"@,
                    match code {
                        Code::Me => seq!["pull"@],
                        _ => seq!["pull"@, "origin"@, "test"@],
                    },
                ),
            ),
            Err(e) => Err(e),
        },
        Command::Compile(code) => match code.dir_in(config) {
            Ok(dir) => Ok(
                in_dir(
                    dir,
                    "cargo"@,
                    match code {
                        Code::Me => seq!["build"@, "--release"@],
                        _ => seq!["build"@, "--release"@, "--bin"@, code.artifact()],
                    },
                ),
            ),
            Err(e) => Err(e),
        },
        Command::RemoveInstalled(code) => match code.dir_in(config) {
            Ok(dir) => Ok(
                in_dir(dir, "rm"@, seq!["-f"@, installed_path(code, config.install_dir@)]),
            ),
            Err(e) => Err(e),
        },
        Command::Install(code) => match code.dir_in(config) {
            Ok(dir) => Ok(
                in_dir(
                    dir,
                    "cp"@,
                    seq![binary_path(code, dir), installed_path(code, config.install_dir@)],
                ),
            ),
            Err(e) => Err(e),
        },
        Command::InstallSelf => match required(config, Setting::SelfDir) {
            Ok(source) => match required(config, Setting::Home) {
                Ok(home) => Ok(
                    in_dir(
                        source,
                        "mv"@,
                        seq![source + "/target/release/setup"@, home + "/.cargo/bin"@],
                    ),
                ),
                Err(e) => Err(e),
            },
            Err(e) => Err(e),
        },
        Command::RemoveSettings => match required(config, Setting::SelfDir) {
            Ok(source) => match required(config, Setting::Home) {
                Ok(home) => Ok(in_dir(source, "rm"@, seq!["-f"@, home + "/.env"@])),
                Err(e) => Err(e),
            },
            Err(e) => Err(e),
        },
        Command::CopySettings => match required(config, Setting::SelfDir) {
            Ok(source) => match required(config, Setting::Home) {
                Ok(home) => Ok(in_dir(source, "cp"@, seq![source + "/.env"@, home + "/.env"@])),
                Err(e) => Err(e),
            },
            Err(e) => Err(e),
        },
        Command::FlushCache => Ok(
            InvocationView { dir: None, program: "redis-cli"@, args: seq!["flushall"@] },
        ),
        Command::DeleteData(index) => match required(config, Setting::NodeData) {
            Ok(list) => if index < tokens(list).len() {
                Ok(
                    InvocationView {
                        dir: None,
                        program: "rm"@,
                        args: seq!["-rf"@, tokens(list)[index as int]],
                    },
                )
            } else {
                Err(Error::NotFound)
            },
            Err(e) => Err(e),
        },
    }
}

/// An owned copy of a text.
fn owned(s: &str) -> (r: String)
    ensures
        r@ == s@,
{
    String::from_str(s)
}

/// Two texts, one after the other.
fn joined(a: &str, b: &str) -> (r: String)
    ensures
        r@ == a@ + b@,
{
    let mut r = String::from_str(a);
    r.append(b);
    r
}

/// Writes the address of a slot.
pub fn target_of(slot: SlotRef) -> (r: String)
    ensures
        r@ == slot_target(slot),
{
    let mut r = joined(slot.session.name(), ":");
    r.append(slot.window.name());
    r.append(".");
    let pane = decimal_string(slot.pane as u64);
    r.append(pane.as_str());
    r
}

/// Writes the line that `text` stands for.
pub fn line_of(text: Text, config: &Config) -> (r: Result<String, Error>)
    ensures
        line_content(r) == typed(text, *config),
{
    match text {
        Text::EnterDir(setting) => match require(config, setting) {
            Ok(dir) => Ok(joined("cd ", dir.as_str())),
            Err(e) => Err(e),
        },
        Text::Clear => Ok(owned("clear")),
        Text::Build => Ok(owned("cargo build --release")),
        Text::Binary(code) => match code.get_code_dir(config) {
            Ok(dir) => {
                let mut path = dir;
                match code {
                    Code::Pool | Code::Gate => path.append("/../target/release/"),
                    _ => path.append("/target/release/"),
                }
                path.append(code.crate_name());
                Ok(path)
            },
            Err(e) => Err(e),
        },
        Text::Verbatim(setting) => match require(config, setting) {
            Ok(line) => Ok(line.clone()),
            Err(e) => Err(e),
        },
        Text::Middleware => Ok(owned("redis-server")),
    }
}

/// A call of the multiplexer.
fn tmux_call(args: Vec<String>) -> (r: Invocation)
    ensures
        r@ == tmux(args.deep_view()),
{
    Invocation { dir: None, program: owned("tmux"), args }
}

/// A call of a program in a directory.
fn call_in(dir: String, program: &str, args: Vec<String>) -> (r: Invocation)
    ensures
        r@ == in_dir(dir@, program@, args.deep_view()),
{
    Invocation { dir: Some(dir), program: owned(program), args }
}

/// Renders the call that types `line` into `slot`.
pub fn send(slot: SlotRef, line: String) -> (r: Invocation)
    ensures
        r@ == send_keys(slot, line@),
{
    let mut args: Vec<String> = Vec::new();
    args.push(owned("send-keys"));
    args.push(owned("-t"));
    args.push(target_of(slot));
    args.push(line);
    args.push(owned("C-m"));
    assert(args.deep_view() =~= seq!["send-keys"@, "-t"@, slot_target(slot), line@, "C-m"@]);
    tmux_call(args)
}

/// Renders a multiplexer command that needs no setting.
fn render_control(command: Command) -> (r: Invocation)
    requires
        command is KillSession || command is NewSession || command is RenameWindow
            || command is NewWindow || command is SplitPane || command is SelectPane
            || command is SelectWindow || command is Attach,
    ensures
        forall|config: Config| rendered(command, config) == Ok::<InvocationView, Error>(r@),
{
    let mut args: Vec<String> = Vec::new();
    match command {
        Command::KillSession(session) => {
            args.push(owned("kill-session"));
            args.push(owned("-t"));
            args.push(owned(session.name()));
            assert(args.deep_view() =~= seq!["kill-session"@, "-t"@, session.title()]);
        },
        Command::NewSession(session) => {
            args.push(owned("new-session"));
            args.push(owned("-d"));
            args.push(owned("-s"));
            args.push(owned(session.name()));
            assert(args.deep_view() =~= seq!["new-session"@, "-d"@, "-s"@, session.title()]);
        },
        Command::RenameWindow { session, index, window } => {
            let mut target = joined(session.name(), ":");
            target.append(decimal_string(index as u64).as_str());
            args.push(owned("rename-window"));
            args.push(owned("-t"));
            args.push(target);
            args.push(owned(window.name()));
            assert(args.deep_view() =~= seq![
                "rename-window"@,
                "-t"@,
                index_target(session, index),
                window.title(),
            ]);
        },
        Command::NewWindow { session, index, window } => {
            let mut target = joined(session.name(), ":");
            target.append(decimal_string(index as u64).as_str());
            args.push(owned("new-window"));
            args.push(owned("-t"));
            args.push(target);
            args.push(owned("-n"));
            args.push(owned(window.name()));
            assert(args.deep_view() =~= seq![
                "new-window"@,
                "-t"@,
                index_target(session, index),
                "-n"@,
                window.title(),
            ]);
        },
        Command::SplitPane { axis, percent } => {
            args.push(owned("splitw"));
            match axis {
                Axis::Horizontal => args.push(owned("-h")),
                Axis::Vertical => args.push(owned("-v")),
            }
            args.push(owned("-p"));
            args.push(decimal_string(percent as u64));
            assert(args.deep_view() =~= seq![
                "splitw"@,
                axis_flag(axis),
                "-p"@,
                decimal(percent as nat),
            ]);
        },
        Command::SelectPane(pane) => {
            args.push(owned("selectp"));
            args.push(owned("-t"));
            args.push(decimal_string(pane as u64));
            assert(args.deep_view() =~= seq!["selectp"@, "-t"@, decimal(pane as nat)]);
        },
        Command::SelectWindow { session, window } => {
            let mut target = joined(session.name(), ":");
            target.append(window.name());
            args.push(owned("select-window"));
            args.push(owned("-t"));
            args.push(target);
            assert(args.deep_view() =~= seq![
                "select-window"@,
                "-t"@,
                window_target(session, window),
            ]);
        },
        Command::Attach(session) => {
            args.push(owned("a"));
            args.push(owned("-t"));
            args.push(owned(session.name()));
            assert(args.deep_view() =~= seq!["a"@, "-t"@, session.title()]);
        },
        _ => {},
    }
    tmux_call(args)
}

/// Renders a command of the build pipeline.
fn render_build(command: Command, config: &Config) -> (r: Result<Invocation, Error>)
    requires
        command is Pull || command is Compile || command is InstallSelf || command is RemoveSettings
            || command is CopySettings,
    ensures
        content(r) == rendered(command, *config),
{
    let mut args: Vec<String> = Vec::new();
    match command {
        Command::Pull(code) => {
            let dir = code.get_code_dir(config)?;
            args.push(owned("pull"));
            match code {
                Code::Me => {
                    assert(args.deep_view() =~= seq!["pull"@]);
                },
                _ => {
                    args.push(owned("origin"));
                    args.push(owned("test"));
                    assert(args.deep_view() =~= seq!["pull"@, "origin"@, "test"@]);
                },
            }
            Ok(call_in(dir, "git", args))
        },
        Command::Compile(code) => {
            let dir = code.get_code_dir(config)?;
            args.push(owned("build"));
            args.push(owned("--release"));
            match code {
                Code::Me => {
                    assert(args.deep_view() =~= seq!["build"@, "--release"@]);
                },
                _ => {
                    args.push(owned("--bin"));
                    args.push(owned(code.crate_name()));
                    assert(args.deep_view() =~= seq![
                        "build"@,
                        "--release"@,
                        "--bin"@,
                        code.artifact(),
                    ]);
                },
            }
            Ok(call_in(dir, "cargo", args))
        },
        Command::InstallSelf => {
            let source = require(config, Setting::SelfDir)?;
            let home = require(config, Setting::Home)?;
            args.push(joined(source.as_str(), "/target/release/setup"));
            args.push(joined(home.as_str(), "/.cargo/bin"));
            assert(args.deep_view() =~= seq![
                source@ + "/target/release/setup"@,
                home@ + "/.cargo/bin"@,
            ]);
            Ok(call_in(source.clone(), "mv", args))
        },
        Command::RemoveSettings => {
            let source = require(config, Setting::SelfDir)?;
            let home = require(config, Setting::Home)?;
            args.push(owned("-f"));
            args.push(joined(home.as_str(), "/.env"));
            assert(args.deep_view() =~= seq!["-f"@, home@ + "/.env"@]);
            Ok(call_in(source.clone(), "rm", args))
        },
        _ => {
            let source = require(config, Setting::SelfDir)?;
            let home = require(config, Setting::Home)?;
            args.push(joined(source.as_str(), "/.env"));
            args.push(joined(home.as_str(), "/.env"));
            assert(args.deep_view() =~= seq![source@ + "/.env"@, home@ + "/.env"@]);
            Ok(call_in(source.clone(), "cp", args))
        },
    }
}

/// Writes where the installed artifact of `code` lies.
fn installed_at(code: Code, location: &str) -> (r: String)
    ensures
        r@ == installed_path(code, location@),
{
    let mut r = joined(location, "/");
    r.append(code.crate_name());
    r
}

/// Renders the removal of the artifact of `code` that was installed before.
fn render_removal(code: Code, config: &Config) -> (r: Result<Invocation, Error>)
    ensures
        content(r) == rendered(Command::RemoveInstalled(code), *config),
{
    let dir = code.get_code_dir(config)?;
    let mut args: Vec<String> = Vec::new();
    args.push(owned("-f"));
    args.push(installed_at(code, config.install_dir.as_str()));
    assert(args.deep_view() =~= seq!["-f"@, installed_path(code, config.install_dir@)]);
    Ok(call_in(dir, "rm", args))
}

/// Renders the copying of the new artifact of `code` to the runtime
/// location.
fn render_installation(code: Code, config: &Config) -> (r: Result<Invocation, Error>)
    ensures
        content(r) == rendered(Command::Install(code), *config),
{
    let dir = code.get_code_dir(config)?;
    let built = line_of(Text::Binary(code), config)?;
    let mut args: Vec<String> = Vec::new();
    args.push(built);
    args.push(installed_at(code, config.install_dir.as_str()));
    assert(args.deep_view() =~= seq![
        binary_path(code, dir@),
        installed_path(code, config.install_dir@),
    ]);
    Ok(call_in(dir, "cp", args))
}

/// Renders `command` under `config`.
pub fn render(command: Command, config: &Config) -> (r: Result<Invocation, Error>)
    ensures
        content(r) == rendered(command, *config),
{
    match command {
        Command::Send { slot, text } => match line_of(text, config) {
            Ok(line) => Ok(send(slot, line)),
            Err(e) => Err(e),
        },
        Command::Pull(_) | Command::Compile(_) | Command::InstallSelf | Command::RemoveSettings
        | Command::CopySettings => render_build(command, config),
        Command::RemoveInstalled(code) => render_removal(code, config),
        Command::Install(code) => render_installation(code, config),
        Command::FlushCache => {
            let mut args: Vec<String> = Vec::new();
            args.push(owned("flushall"));
            assert(args.deep_view() =~= seq!["flushall"@]);
            Ok(Invocation { dir: None, program: owned("redis-cli"), args })
        },
        Command::DeleteData(index) => {
            let list = require(config, Setting::NodeData)?;
            let dirs = split_whitespace(list.as_str());
            if index < dirs.len() {
                let mut args: Vec<String> = Vec::new();
                args.push(owned("-rf"));
                args.push(dirs[index].clone());
                assert(args.deep_view() =~= seq!["-rf"@, tokens(list@)[index as int]]);
                Ok(Invocation { dir: None, program: owned("rm"), args })
            } else {
                Err(Error::NotFound)
            }
        },
        _ => Ok(render_control(command)),
    }
}

/// What the controller asks its caller to do.
#[derive(Clone, Debug, PartialEq, Eq)]
pub enum Action {
    /// Run the call and report how it ended.
    Run(Invocation),
    /// Run the call and report what it printed.
    Capture(Invocation),
    /// Report the time, in seconds since the epoch.
    ReadClock,
    /// Wait for the given number of milliseconds.
    Sleep(u64),
}

/// The mathematical content of an [`Action`].
pub ghost enum ActionView {
    Run(InvocationView),
    Capture(InvocationView),
    ReadClock,
    Sleep(u64),
}

impl View for Action {
    type V = ActionView;

    open spec fn view(&self) -> ActionView {
        match self {
            Action::Run(call) => ActionView::Run(call@),
            Action::Capture(call) => ActionView::Capture(call@),
            Action::ReadClock => ActionView::ReadClock,
            Action::Sleep(millis) => ActionView::Sleep(*millis),
        }
    }
}

/// The length of a pause under `config`.
pub open spec fn pause(delay: Delay, config: Config) -> u64 {
    match delay {
        Delay::Naming => config.name_delay_ms,
        Delay::Attach => config.attach_delay_ms,
    }
}

/// The length of a pause under `config`.
pub fn pause_of(delay: Delay, config: &Config) -> (r: u64)
    ensures
        r == pause(delay, *config),
{
    match delay {
        Delay::Naming => config.name_delay_ms,
        Delay::Attach => config.attach_delay_ms,
    }
}

/// The call of the account tool that creates the account `name`, run in the
/// chain source directory.
pub open spec fn account_call(name: Seq<char>, config: Config) -> Result<InvocationView, Error> {
    match required(config, Setting::IronDir) {
        Ok(dir) => Ok(in_dir(dir, "yarn"@, seq!["start"@, "accounts:create"@, name])),
        Err(e) => Err(e),
    }
}

/// Renders the call that creates the account of miner `index` at time
/// `clock`.
pub fn create_account(index: u8, clock: u64, config: &Config) -> (r: Result<Invocation, Error>)
    ensures
        content(r) == account_call(account_name(index, clock), *config),
{
    let dir = require(config, Setting::IronDir)?;
    let mut args: Vec<String> = Vec::new();
    args.push(owned("start"));
    args.push(owned("accounts:create"));
    args.push(miner_name(index, clock));
    assert(args.deep_view() =~= seq!["start"@, "accounts:create"@, account_name(index, clock)]);
    Ok(call_in(dir.clone(), "yarn", args))
}

/// The slot of miner `index`.
pub open spec fn miner_slot(index: u8) -> SlotRef {
    SlotRef { session: Session::Primary, window: Window::Miner, pane: index }
}

/// The call that starts miner `index` on the account `address`: the
/// configured miner command line with the address appended, typed into the
/// miner's slot.
pub open spec fn miner_call(index: u8, address: Seq<char>, config: Config) -> Result<
    InvocationView,
    Error,
> {
    match required(config, Setting::MinerCmd) {
        Ok(line) => Ok(send_keys(miner_slot(index), line + " -a "@ + address)),
        Err(e) => Err(e),
    }
}

/// Renders the call that starts miner `index` on `address`.
pub fn launch_miner(index: u8, address: &str, config: &Config) -> (r: Result<Invocation, Error>)
    ensures
        content(r) == miner_call(index, address@, *config),
{
    let template = require(config, Setting::MinerCmd)?;
    let mut line = joined(template.as_str(), " -a ");
    line.append(address);
    let slot = SlotRef { session: Session::Primary, window: Window::Miner, pane: index };
    Ok(send(slot, line))
}

} // verus!
