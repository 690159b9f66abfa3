//! The operating systems that assembly can be emitted for.

use vstd::prelude::*;

verus! {

/// The operating system whose conventions the emitted assembly follows.
#[derive(Debug, Clone, Copy, PartialEq, Eq, Structural)]
pub enum TargetOs {
    MacOs,
    Linux,
    Other,
}

/// The target that the name `os` of an operating system stands for.
pub open spec fn target_of(os: Seq<char>) -> TargetOs {
    if os == "macos"@ {
        TargetOs::MacOs
    } else if os == "linux"@ {
        TargetOs::Linux
    } else {
        TargetOs::Other
    }
}

impl TargetOs {
    /// The target for the operating system called `os`.
    pub fn from_os_name(os: &str) -> (target: TargetOs)
        ensures
            target == target_of(os@),
    {
        let name = String::from_str(os);
        if name == String::from_str("macos") {
            TargetOs::MacOs
        } else if name == String::from_str("linux") {
            TargetOs::Linux
        } else {
            TargetOs::Other
        }
    }
}

} // verus!
