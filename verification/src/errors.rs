//! The failures that commands report, and the text shown for each.

use vstd::prelude::*;

verus! {

/// The step of creating a session at which the terminal or the process
/// could not be set up.
#[derive(Clone, Copy, Debug, PartialEq, Eq, Structural)]
pub enum SpawnStage {
    OpenTerminal,
    SpawnShell,
    CloneReader,
    TakeWriter,
}

/// The exclusive-access guard that a panic left in an inconsistent state.
#[derive(Clone, Copy, Debug, PartialEq, Eq, Structural)]
pub enum Guard {
    Sessions,
    Writer,
    Master,
    Child,
    ServerRoots,
}

/// Why a command failed.
#[derive(Debug)]
pub enum CommandError {
    /// No session has the given identifier.
    NotFound,
    /// The terminal or the process of a new session could not be set up.
    Spawn(SpawnStage),
    /// Setting up a job failed; the text says how.
    SpawnFailed(String),
    /// An internal guard was poisoned by an earlier panic.
    LockPoisoned(Guard),
    /// Writing to a live session failed.
    Write,
    /// Resizing the terminal of a live session failed.
    Resize,
    /// The run directory or a file in it could not be written; the text says
    /// how.
    Fs(String),
    /// The given project root is not a directory.
    NotADirectory(String),
}

pub open spec fn spawn_stage_message(stage: SpawnStage) -> Seq<char> {
    match stage {
        SpawnStage::OpenTerminal => "open pty"@,
        SpawnStage::SpawnShell => "spawn shell in pty"@,
        SpawnStage::CloneReader => "clone pty reader"@,
        SpawnStage::TakeWriter => "take pty writer"@,
    }
}

pub open spec fn guard_message(guard: Guard) -> Seq<char> {
    match guard {
        Guard::Sessions => "pty sessions lock poisoned"@,
        Guard::Writer => "pty writer lock poisoned"@,
        Guard::Master => "pty master lock poisoned"@,
        Guard::Child => "pty child lock poisoned"@,
        Guard::ServerRoots => "server roots lock poisoned"@,
    }
}

/// The start of the text for a project root that is not a directory.
pub open spec fn not_a_directory_prefix() -> Seq<char> {
    "not a directory: "@
}

impl CommandError {
    /// The text shown for this error.
    pub open spec fn message_spec(self) -> Seq<char> {
        match self {
            CommandError::NotFound => "session not found"@,
            CommandError::Spawn(stage) => spawn_stage_message(stage),
            CommandError::SpawnFailed(detail) => detail@,
            CommandError::LockPoisoned(guard) => guard_message(guard),
            CommandError::Write => "write to pty"@,
            CommandError::Resize => "resize pty"@,
            CommandError::Fs(detail) => detail@,
            CommandError::NotADirectory(root) => not_a_directory_prefix() + root@,
        }
    }

    /// The text shown for this error.
    pub fn message(&self) -> (text: String)
        ensures
            text@ == self.message_spec(),
    {
        match self {
            CommandError::NotFound => "session not found".to_owned(),
            CommandError::Spawn(stage) => match stage {
                SpawnStage::OpenTerminal => "open pty".to_owned(),
                SpawnStage::SpawnShell => "spawn shell in pty".to_owned(),
                SpawnStage::CloneReader => "clone pty reader".to_owned(),
                SpawnStage::TakeWriter => "take pty writer".to_owned(),
            },
            CommandError::SpawnFailed(detail) => detail.clone(),
            CommandError::LockPoisoned(guard) => match guard {
                Guard::Sessions => "pty sessions lock poisoned".to_owned(),
                Guard::Writer => "pty writer lock poisoned".to_owned(),
                Guard::Master => "pty master lock poisoned".to_owned(),
                Guard::Child => "pty child lock poisoned".to_owned(),
                Guard::ServerRoots => "server roots lock poisoned".to_owned(),
            },
            CommandError::Write => "write to pty".to_owned(),
            CommandError::Resize => "resize pty".to_owned(),
            CommandError::Fs(detail) => detail.clone(),
            CommandError::NotADirectory(root) => {
                let mut text = "not a directory: ".to_owned();
                text.append(root.as_str());
                text
            },
        }
    }
}

} // verus!
