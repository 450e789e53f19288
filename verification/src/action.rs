//! The typed event model of the wrapped tool's log protocol.

use vstd::prelude::*;

verus! {

/// Numeric kind of a unit of reported work, as coded on the wire.
/// Codes this crate does not know map to `Unknown` rather than failing,
/// so that newer producers keep working.
#[derive(Clone, Copy, Debug, PartialEq, Eq, Structural)]
pub enum ActionType {
    Unknown,
    CopyPath,
    FileTransfer,
    Realise,
    CopyPaths,
    Builds,
    Build,
    OptimiseStore,
    VerifyPaths,
    Substitute,
    QueryPathInfo,
    PostBuildHook,
    BuildWaiting,
}

impl ActionType {
    /// The wire code of this kind.
    pub open spec fn spec_code(self) -> u8 {
        match self {
            ActionType::Unknown => 0,
            ActionType::CopyPath => 100,
            ActionType::FileTransfer => 101,
            ActionType::Realise => 102,
            ActionType::CopyPaths => 103,
            ActionType::Builds => 104,
            ActionType::Build => 105,
            ActionType::OptimiseStore => 106,
            ActionType::VerifyPaths => 107,
            ActionType::Substitute => 108,
            ActionType::QueryPathInfo => 109,
            ActionType::PostBuildHook => 110,
            ActionType::BuildWaiting => 111,
        }
    }

    /// The kind a wire code stands for; codes outside the documented set
    /// give `Unknown`.
    pub open spec fn spec_from_code(code: u8) -> ActionType {
        if code == 100 {
            ActionType::CopyPath
        } else if code == 101 {
            ActionType::FileTransfer
        } else if code == 102 {
            ActionType::Realise
        } else if code == 103 {
            ActionType::CopyPaths
        } else if code == 104 {
            ActionType::Builds
        } else if code == 105 {
            ActionType::Build
        } else if code == 106 {
            ActionType::OptimiseStore
        } else if code == 107 {
            ActionType::VerifyPaths
        } else if code == 108 {
            ActionType::Substitute
        } else if code == 109 {
            ActionType::QueryPathInfo
        } else if code == 110 {
            ActionType::PostBuildHook
        } else if code == 111 {
            ActionType::BuildWaiting
        } else {
            ActionType::Unknown
        }
    }

    /// The wire code of this kind.
    pub fn code(self) -> (r: u8)
        ensures
            r == self.spec_code(),
    {
        match self {
            ActionType::Unknown => 0,
            ActionType::CopyPath => 100,
            ActionType::FileTransfer => 101,
            ActionType::Realise => 102,
            ActionType::CopyPaths => 103,
            ActionType::Builds => 104,
            ActionType::Build => 105,
            ActionType::OptimiseStore => 106,
            ActionType::VerifyPaths => 107,
            ActionType::Substitute => 108,
            ActionType::QueryPathInfo => 109,
            ActionType::PostBuildHook => 110,
            ActionType::BuildWaiting => 111,
        }
    }

    /// The kind a wire code stands for.
    pub fn from_code(code: u8) -> (r: ActionType)
        ensures
            r == ActionType::spec_from_code(code),
    {
        if code == 100 {
            ActionType::CopyPath
        } else if code == 101 {
            ActionType::FileTransfer
        } else if code == 102 {
            ActionType::Realise
        } else if code == 103 {
            ActionType::CopyPaths
        } else if code == 104 {
            ActionType::Builds
        } else if code == 105 {
            ActionType::Build
        } else if code == 106 {
            ActionType::OptimiseStore
        } else if code == 107 {
            ActionType::VerifyPaths
        } else if code == 108 {
            ActionType::Substitute
        } else if code == 109 {
            ActionType::QueryPathInfo
        } else if code == 110 {
            ActionType::PostBuildHook
        } else if code == 111 {
            ActionType::BuildWaiting
        } else {
            ActionType::Unknown
        }
    }
}

impl Default for ActionType {
    fn default() -> (r: Self)
        ensures
            r == ActionType::Unknown,
    {
        ActionType::Unknown
    }
}

/// A kind is recovered exactly from its own wire code.
pub proof fn lemma_action_type_code_round_trip(t: ActionType)
    ensures
        ActionType::spec_from_code(t.spec_code()) == t,
{
}

/// Opaque identifier of one unit of reported work, assigned by the
/// wrapped process.
#[derive(Clone, Copy, Debug, Default, PartialEq, Eq, Hash, Structural)]
pub struct BuildStepId(pub u64);

impl BuildStepId {
    /// The raw 64-bit value of the identifier.
    pub fn raw(self) -> (r: u64)
        ensures
            r == self.0,
    {
        self.0
    }
}

impl From<u64> for BuildStepId {
    fn from(value: u64) -> (r: Self)
        ensures
            r == BuildStepId(value),
    {
        BuildStepId(value)
    }
}

impl vstd::std_specs::convert::FromSpecImpl<u64> for BuildStepId {
    open spec fn obeys_from_spec() -> bool {
        true
    }

    open spec fn from_spec(value: u64) -> Self {
        BuildStepId(value)
    }
}

/// The payload of a `Start` event, one variant per action kind. Kinds that
/// report nothing beyond the announcement text carry no fields.
#[derive(Debug, PartialEq, Eq)]
pub enum StartFields {
    Unknown,
    CopyPath { path: String, origin: String, destination: String },
    FileTransfer { target: String },
    Realise,
    CopyPaths,
    Builds,
    Build { target: String, source: String, val1: u64, val2: u64 },
    OptimiseStore,
    VerifyPaths,
    Substitute { source: String, target: String },
    QueryPathInfo,
    PostBuildHook,
    BuildWaiting,
}

/// The payload of a `Result` event, selected by the envelope's numeric
/// result code rather than by the action kind.
#[derive(Debug, PartialEq, Eq)]
pub enum ResultFields {
    BuildLogLine(String),
    SetPhase(String),
    Progress { done: u64, expected: u64, running: u64, failed: u64 },
    SetExpected { action: ActionType, expected: u64 },
}

/// One fully typed protocol event.
#[derive(Debug, PartialEq, Eq)]
pub enum Action {
    Msg { level: u8, msg: String },
    Start {
        start_type: StartFields,
        id: BuildStepId,
        level: u8,
        parent: BuildStepId,
        text: String,
    },
    Result { id: BuildStepId, fields: ResultFields },
    Stop { id: BuildStepId },
}

} // verus!
