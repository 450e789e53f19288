//! Names of the programs this tool wraps and of the output channels.

use vstd::prelude::*;
use vstd::string::StringExecFns;

verus! {

broadcast use vstd::string::group_string_axioms;

/// A program the session can wrap. Known programs get the flags that turn
/// the structured log protocol on; unknown ones run as they are.
#[derive(Clone, Debug)]
pub enum WrappedProgram {
    Nix,
    NixCollectGarbage,
    NixOsRebuild,
    NixShell,
    Unknown(String),
}

impl WrappedProgram {
    /// The name of the wrapped program.
    pub open spec fn spec_name(self) -> Seq<char> {
        match self {
            WrappedProgram::Nix => "nix"@,
            WrappedProgram::NixCollectGarbage => "nix-collect-garbage"@,
            WrappedProgram::NixOsRebuild => "nixos-rebuild"@,
            WrappedProgram::NixShell => "nix-shell"@,
            WrappedProgram::Unknown(path) => path@,
        }
    }

    /// The name of the wrapped program.
    pub fn as_str(&self) -> (r: &str)
        ensures
            r@ == self.spec_name(),
    {
        match self {
            WrappedProgram::Nix => "nix",
            WrappedProgram::NixCollectGarbage => "nix-collect-garbage",
            WrappedProgram::NixOsRebuild => "nixos-rebuild",
            WrappedProgram::NixShell => "nix-shell",
            WrappedProgram::Unknown(path) => path.as_str(),
        }
    }

    /// The program a name stands for; an unrecognized name is kept as an
    /// unknown program.
    pub open spec fn spec_from_name(value: String) -> WrappedProgram {
        if value@ == "nix"@ {
            WrappedProgram::Nix
        } else if value@ == "nix-collect-garbage"@ {
            WrappedProgram::NixCollectGarbage
        } else if value@ == "nixos-rebuild"@ {
            WrappedProgram::NixOsRebuild
        } else if value@ == "nix-shell"@ {
            WrappedProgram::NixShell
        } else {
            WrappedProgram::Unknown(value)
        }
    }
}

impl From<String> for WrappedProgram {
    fn from(value: String) -> (r: Self)
        ensures
            r == WrappedProgram::spec_from_name(value),
    {
        if value == String::from_str("nix") {
            WrappedProgram::Nix
        } else if value == String::from_str("nix-collect-garbage") {
            WrappedProgram::NixCollectGarbage
        } else if value == String::from_str("nixos-rebuild") {
            WrappedProgram::NixOsRebuild
        } else if value == String::from_str("nix-shell") {
            WrappedProgram::NixShell
        } else {
            WrappedProgram::Unknown(value)
        }
    }
}

impl vstd::std_specs::convert::FromSpecImpl<String> for WrappedProgram {
    open spec fn obeys_from_spec() -> bool {
        true
    }

    open spec fn from_spec(value: String) -> Self {
        WrappedProgram::spec_from_name(value)
    }
}

/// An older name for the wrapped program's identity, kept for the command
/// assembler.
#[derive(Clone, Debug)]
pub enum Program {
    Nix,
    NixCollectGarbage,
    NixOsRebuild,
    NixShell,
    Unknown(String),
}

/// Which of the wrapped process's output channels a line came from.
#[derive(Clone, Copy, Debug, PartialEq, Eq, Structural)]
pub enum OutputStream {
    StdOut,
    StdErr,
}

impl OutputStream {
    /// The channel's name as the record file writes it.
    pub open spec fn spec_name(self) -> Seq<char> {
        match self {
            OutputStream::StdOut => "stdout"@,
            OutputStream::StdErr => "stderr"@,
        }
    }

    /// The channel's name as the record file writes it.
    pub fn as_str(&self) -> (r: &'static str)
        ensures
            r@ == self.spec_name(),
    {
        match self {
            OutputStream::StdOut => "stdout",
            OutputStream::StdErr => "stderr",
        }
    }

    /// The channel a record-file column names, if any.
    pub open spec fn spec_parse(s: Seq<char>) -> Option<OutputStream> {
        if s == "stdout"@ {
            Some(OutputStream::StdOut)
        } else if s == "stderr"@ {
            Some(OutputStream::StdErr)
        } else {
            None
        }
    }

    /// Reads a channel name back from a record-file column.
    pub fn parse(s: &str) -> (r: Option<OutputStream>)
        ensures
            r == OutputStream::spec_parse(s@),
    {
        let owned = String::from_str(s);
        if owned == String::from_str("stdout") {
            Some(OutputStream::StdOut)
        } else if owned == String::from_str("stderr") {
            Some(OutputStream::StdErr)
        } else {
            None
        }
    }
}

} // verus!
