//! What is needed to open a terminal and start a process in it, as plain
//! values.

use vstd::prelude::*;
use crate::env::Environment;
use crate::text::{clone_opt, opt_view, strings_view};

verus! {

/// The number of rows of a terminal whose size was not given.
pub const DEFAULT_ROWS: u16 = 34;

/// The number of columns of a terminal whose size was not given.
pub const DEFAULT_COLS: u16 = 120;

/// The shell that sessions and jobs run.
pub open spec fn shell_program() -> Seq<char> {
    "zsh"@
}

/// The geometry of a terminal, in character cells and in pixels.
#[derive(Clone, Copy, Debug, PartialEq, Eq, Structural)]
pub struct TerminalSize {
    pub rows: u16,
    pub cols: u16,
    pub pixel_width: u16,
    pub pixel_height: u16,
}

/// The size in cells with no size in pixels.
pub open spec fn cell_size(cols: u16, rows: u16) -> TerminalSize {
    TerminalSize { rows, cols, pixel_width: 0, pixel_height: 0 }
}

/// The size of a terminal for which `cols` and `rows` were asked: each
/// falls back to its default where it was not given.
pub open spec fn requested_size(cols: Option<u16>, rows: Option<u16>) -> TerminalSize {
    cell_size(
        match cols {
            Some(c) => c,
            None => DEFAULT_COLS,
        },
        match rows {
            Some(r) => r,
            None => DEFAULT_ROWS,
        },
    )
}

impl TerminalSize {
    /// A size of `cols` by `rows` cells.
    pub fn cells(cols: u16, rows: u16) -> (size: TerminalSize)
        ensures
            size == cell_size(cols, rows),
    {
        TerminalSize { rows, cols, pixel_width: 0, pixel_height: 0 }
    }

    /// The size for a request in which either dimension may be missing.
    pub fn requested(cols: Option<u16>, rows: Option<u16>) -> (size: TerminalSize)
        ensures
            size == requested_size(cols, rows),
    {
        let c: u16 = match cols {
            Some(c) => c,
            None => DEFAULT_COLS,
        };
        let r: u16 = match rows {
            Some(r) => r,
            None => DEFAULT_ROWS,
        };
        TerminalSize::cells(c, r)
    }
}

/// A process to start in a terminal.
pub struct SpawnSpec {
    pub program: String,
    pub args: Vec<String>,
    /// The working directory, where one is set.
    pub cwd: Option<String>,
    /// Environment variables to set, every name once.
    pub env: Environment,
}

/// What a `SpawnSpec` holds.
pub struct SpawnSpecView {
    pub program: Seq<char>,
    pub args: Seq<Seq<char>>,
    pub cwd: Option<Seq<char>>,
    pub env: Seq<(Seq<char>, Seq<char>)>,
}

impl View for SpawnSpec {
    type V = SpawnSpecView;

    open spec fn view(&self) -> SpawnSpecView {
        SpawnSpecView {
            program: self.program@,
            args: strings_view(self.args@),
            cwd: opt_view(self.cwd),
            env: self.env@,
        }
    }
}

/// The interactive login shell of a session, started in `cwd` where one is
/// given.
pub open spec fn session_shell(cwd: Option<Seq<char>>) -> SpawnSpecView {
    SpawnSpecView { program: shell_program(), args: seq!["-l"@], cwd, env: Seq::empty() }
}

/// The login shell that runs one command in `cwd` with the given
/// environment.
pub open spec fn command_shell(
    command: Seq<char>,
    cwd: Seq<char>,
    env: Seq<(Seq<char>, Seq<char>)>,
) -> SpawnSpecView {
    SpawnSpecView { program: shell_program(), args: seq!["-lc"@, command], cwd: Some(cwd), env }
}

impl SpawnSpec {
    /// The interactive login shell of a session.
    pub fn session_shell(cwd: &Option<String>) -> (spec: SpawnSpec)
        ensures
            spec.env.wf(),
            spec@ == session_shell(opt_view(*cwd)),
    {
        let mut args: Vec<String> = Vec::new();
        args.push("-l".to_owned());
        let spec = SpawnSpec {
            program: "zsh".to_owned(),
            args,
            cwd: clone_opt(cwd),
            env: Environment::new(),
        };
        assert(spec@.args == seq!["-l"@]);
        spec
    }

    /// The login shell that runs one command.
    pub fn command_shell(command: &str, cwd: &str, env: Environment) -> (spec: SpawnSpec)
        ensures
            spec.env == env,
            spec@ == command_shell(command@, cwd@, env@),
    {
        let mut args: Vec<String> = Vec::new();
        args.push("-lc".to_owned());
        args.push(command.to_owned());
        let spec = SpawnSpec {
            program: "zsh".to_owned(),
            args,
            cwd: Some(cwd.to_owned()),
            env,
        };
        assert(spec@.args == seq!["-lc"@, command@]);
        spec
    }
}

} // verus!
