//! Console output model: message kinds, verbosity levels, and the pure
//! decisions (is a kind printed at this level, with which label, on which
//! stream) that the writer applies.

use vstd::prelude::*;

verus! {

/// The kind of a console message.
#[derive(Eq, PartialEq, Structural, Copy, Clone, Debug)]
pub enum OutputKind {
    Okay,
    Error,
    Warning,
    Info,
    Debug,
    Trace,
}

/// One message to print.
#[derive(Eq, PartialEq, Clone, Debug)]
pub struct OutputRecord {
    pub kind: OutputKind,
    pub message: String,
}

/// How much the user asked to see.
#[derive(Eq, PartialEq, Structural, Copy, Clone, Debug)]
pub enum OutputLevel {
    VerySilent,
    Silent,
    Normal,
    Verbose,
    VeryVerbose,
}

impl OutputLevel {
    /// Whether a message of kind `kind` is printed at this level: errors
    /// always (except when very silent), and each level widens the previous
    /// one by one or two kinds.
    pub open spec fn spec_is_enabled(self, kind: OutputKind) -> bool {
        match (self, kind) {
            (OutputLevel::VerySilent, _) => false,
            (_, OutputKind::Error) => true,
            (OutputLevel::VeryVerbose, _) => true,
            (OutputLevel::Verbose, OutputKind::Warning) => true,
            (OutputLevel::Verbose, OutputKind::Info) => true,
            (OutputLevel::Verbose, OutputKind::Okay) => true,
            (OutputLevel::Verbose, OutputKind::Debug) => true,
            (OutputLevel::Normal, OutputKind::Warning) => true,
            (OutputLevel::Normal, OutputKind::Info) => true,
            (OutputLevel::Normal, OutputKind::Okay) => true,
            (OutputLevel::Silent, OutputKind::Warning) => true,
            (OutputLevel::Silent, OutputKind::Okay) => true,
            _ => false,
        }
    }

    pub fn is_enabled(&self, kind: OutputKind) -> (r: bool)
        ensures
            r == self.spec_is_enabled(kind),
    {
        match (self, kind) {
            (OutputLevel::VerySilent, _) => false,
            (_, OutputKind::Error) => true,
            (OutputLevel::VeryVerbose, _) => true,
            (OutputLevel::Verbose, OutputKind::Warning) => true,
            (OutputLevel::Verbose, OutputKind::Info) => true,
            (OutputLevel::Verbose, OutputKind::Okay) => true,
            (OutputLevel::Verbose, OutputKind::Debug) => true,
            (OutputLevel::Normal, OutputKind::Warning) => true,
            (OutputLevel::Normal, OutputKind::Info) => true,
            (OutputLevel::Normal, OutputKind::Okay) => true,
            (OutputLevel::Silent, OutputKind::Warning) => true,
            (OutputLevel::Silent, OutputKind::Okay) => true,
            _ => false,
        }
    }
}

/// The label printed before a message of each kind.
pub open spec fn spec_kind_label(kind: OutputKind) -> Seq<char> {
    match kind {
        OutputKind::Okay => seq!['o', 'k', '!'],
        OutputKind::Error => seq!['e', 'r', 'r', 'o', 'r', '!'],
        OutputKind::Warning => seq!['w', 'a', 'r', 'n', 'i', 'n', 'g', '!'],
        OutputKind::Info => seq!['i', 'n', 'f', 'o'],
        OutputKind::Debug => seq!['d', 'e', 'b', 'u', 'g'],
        OutputKind::Trace => seq!['t', 'r', 'a', 'c', 'e'],
    }
}

pub fn kind_label(kind: OutputKind) -> (r: &'static str)
    ensures
        r@ == spec_kind_label(kind),
{
    proof {
        reveal_strlit("ok!");
        reveal_strlit("error!");
        reveal_strlit("warning!");
        reveal_strlit("info");
        reveal_strlit("debug");
        reveal_strlit("trace");
        assert("ok!"@ =~= spec_kind_label(OutputKind::Okay));
        assert("error!"@ =~= spec_kind_label(OutputKind::Error));
        assert("warning!"@ =~= spec_kind_label(OutputKind::Warning));
        assert("info"@ =~= spec_kind_label(OutputKind::Info));
        assert("debug"@ =~= spec_kind_label(OutputKind::Debug));
        assert("trace"@ =~= spec_kind_label(OutputKind::Trace));
    }
    match kind {
        OutputKind::Okay => "ok!",
        OutputKind::Error => "error!",
        OutputKind::Warning => "warning!",
        OutputKind::Info => "info",
        OutputKind::Debug => "debug",
        OutputKind::Trace => "trace",
    }
}

/// Errors and warnings go to the error stream, everything else to standard
/// output.
pub open spec fn spec_kind_to_stderr(kind: OutputKind) -> bool {
    kind is Error || kind is Warning
}

pub fn kind_to_stderr(kind: OutputKind) -> (r: bool)
    ensures
        r == spec_kind_to_stderr(kind),
{
    match kind {
        OutputKind::Error | OutputKind::Warning => true,
        _ => false,
    }
}

} // verus!
