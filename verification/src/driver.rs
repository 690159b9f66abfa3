//! The rules of the command-line driver that need no file or process.

use crate::util::TargetOs;
use vstd::prelude::*;

verus! {

/// Whether the assembler and the linker can be run for `target` on a
/// machine that is, or is not, an AArch64 machine: only macOS and Linux
/// on AArch64 are supported.
pub fn check_target(target: &TargetOs, is_aarch64: bool) -> (supported: bool)
    ensures
        supported == (is_aarch64 && (*target == TargetOs::MacOs || *target == TargetOs::Linux)),
{
    match (target, is_aarch64) {
        (TargetOs::MacOs, true) => true,
        (TargetOs::Linux, true) => true,
        _ => false,
    }
}

/// Whether the options contradict each other: one output path cannot
/// name the results of several input files when the run stops after the
/// compiler or after the assembler.
pub fn output_conflict(
    has_output: bool,
    files: usize,
    compile_only: bool,
    assemble_only: bool,
) -> (conflict: bool)
    ensures
        conflict == (has_output && files > 1 && (compile_only || assemble_only)),
{
    has_output && files > 1 && (compile_only || assemble_only)
}

/// How much the driver logs.
#[derive(Debug, Clone, Copy, PartialEq, Eq, Structural)]
pub enum LogLevel {
    Debug,
    Info,
    Warn,
}

/// The name of a log level.
pub open spec fn level_text(level: LogLevel) -> Seq<char> {
    match level {
        LogLevel::Debug => "debug"@,
        LogLevel::Info => "info"@,
        LogLevel::Warn => "warn"@,
    }
}

impl LogLevel {
    /// The level that the options ask for: `debug` wins over `verbose`,
    /// and without either only warnings are logged.
    pub fn from_flags(debug: bool, verbose: bool) -> (level: LogLevel)
        ensures
            level == if debug {
                LogLevel::Debug
            } else if verbose {
                LogLevel::Info
            } else {
                LogLevel::Warn
            },
    {
        if debug {
            LogLevel::Debug
        } else if verbose {
            LogLevel::Info
        } else {
            LogLevel::Warn
        }
    }

    /// The name of the level.
    pub fn name(&self) -> (s: &'static str)
        ensures
            s@ == level_text(*self),
    {
        match self {
            LogLevel::Debug => "debug",
            LogLevel::Info => "info",
            LogLevel::Warn => "warn",
        }
    }
}

/// Where the result of a stage is written.
#[derive(Debug, Clone, Copy, PartialEq, Eq, Structural)]
pub enum OutputPlace {
    /// At the path given on the command line.
    Given,
    /// Beside the input file, under its name with another extension.
    BesideInput,
    /// In the directory for temporary files.
    Temporary,
}

/// Where a stage writes its result: if the run stops after this stage,
/// at the given output path or, without one, beside the input; and else
/// among the temporary files.
pub fn output_place(last_stage: bool, has_output: bool) -> (place: OutputPlace)
    ensures
        place == if !last_stage {
            OutputPlace::Temporary
        } else if has_output {
            OutputPlace::Given
        } else {
            OutputPlace::BesideInput
        },
{
    if !last_stage {
        OutputPlace::Temporary
    } else if has_output {
        OutputPlace::Given
    } else {
        OutputPlace::BesideInput
    }
}

} // verus!
